//! How single values are written and read in generated Rust: the text of each
//! codec is a program, and what the program puts are the slots of the value.
use vstd::bytes::spec_u64_from_le_bytes;
use vstd::prelude::*;

use crate::rustmodel::{
    bytes_of, cast_text, eval, field_texts, fitting_numbers_are_kept, line, lines, text, texts,
    wrap, Cast, Ex, Fld, Fun, Machine, Meth, Rec, St, Val,
};
use crate::rustwire::{
    gives, is_float, is_int, is_managed, is_object, is_ptr, is_slice, is_view, lemma_gives_apply,
    lemma_gives_on, lemma_put_all, managed_wire, put_all, put_texts, puts, slice_wire, slot,
    view_wire,
};
use crate::text::dec;

verus! {

// ---------------------------------------------------------------------------
// Writing
// ---------------------------------------------------------------------------

pub(crate) proof fn lemma_casts()
    ensures
        cast_text(Cast::Int(false, 8)) == "u8"@,
        cast_text(Cast::Int(false, 16)) == "u16"@,
        cast_text(Cast::Int(false, 32)) == "u32"@,
        cast_text(Cast::Int(false, 64)) == "u64"@,
        cast_text(Cast::Int(true, 8)) == "i8"@,
        cast_text(Cast::Int(true, 16)) == "i16"@,
        cast_text(Cast::Int(true, 32)) == "i32"@,
        cast_text(Cast::Int(true, 64)) == "i64"@,
        dec(0) == "0"@,
        dec(1) == "1"@,
{
    reveal_strlit("u");
    reveal_strlit("i");
    reveal_strlit("u8");
    reveal_strlit("u16");
    reveal_strlit("u32");
    reveal_strlit("u64");
    reveal_strlit("i8");
    reveal_strlit("i16");
    reveal_strlit("i32");
    reveal_strlit("i64");
    reveal_strlit("0");
    reveal_strlit("1");
    reveal_with_fuel(dec, 3);
    assert(dec(0) =~= "0"@);
    assert(dec(1) =~= "1"@);
    assert(cast_text(Cast::Int(false, 8)) =~= "u8"@);
    assert(cast_text(Cast::Int(false, 16)) =~= "u16"@);
    assert(cast_text(Cast::Int(false, 32)) =~= "u32"@);
    assert(cast_text(Cast::Int(false, 64)) =~= "u64"@);
    assert(cast_text(Cast::Int(true, 8)) =~= "i8"@);
    assert(cast_text(Cast::Int(true, 16)) =~= "i16"@);
    assert(cast_text(Cast::Int(true, 32)) =~= "i32"@);
    assert(cast_text(Cast::Int(true, 64)) =~= "i64"@);
}

/// Whether two texts are the same.
pub open spec fn alike(a: Seq<char>, b: Seq<char>) -> bool {
    a == b
}

/// Texts side by side can be grouped either way.
pub(crate) proof fn lemma_regroup(a: Seq<char>, b: Seq<char>, c: Seq<char>)
    ensures
        alike((a + b) + c, a + (b + c)),
{
    assert((a + b) + c =~= a + (b + c));
}

pub(crate) proof fn lemma_nothing(k: Seq<char>)
    ensures
        alike(Seq::<char>::empty() + k, k),
{
    assert(Seq::<char>::empty() + k =~= k);
}

pub(crate) proof fn lemma_first_line(ss: Seq<St>)
    requires
        ss.len() > 0,
    ensures
        alike(lines(ss, 1), line(ss[0])),
{
    assert(lines(ss, 0) =~= Seq::empty());
    assert(lines(ss, 1) =~= line(ss[0]));
}

pub(crate) proof fn lemma_first_text(es: Seq<Ex>)
    requires
        es.len() > 0,
    ensures
        alike(texts(es, 1), text(es[0])),
{
}

/// Texts are the same if they are with nothing behind them.
pub(crate) proof fn lemma_end(a: Seq<char>, b: Seq<char>, k: Seq<char>)
    requires
        k == Seq::<char>::empty(),
        a + k == b + k,
    ensures
        alike(a, b),
{
    assert(a + k =~= a);
    assert(b + k =~= b);
}

/// `e as u64`.
pub open spec fn as_slot(e: Ex) -> Ex {
    Ex::As(Box::new(e), Cast::Int(false, 64))
}

pub open spec fn call_ex(e: Ex, m: Meth) -> Ex {
    Ex::Call(Box::new(e), m)
}

pub open spec fn field_of(e: Ex, f: Fld) -> Ex {
    Ex::Field(Box::new(e), f)
}

/// What is put for a value of a type whose slots do not depend on it.
pub open spec fn bool_exs(e: Ex) -> Seq<Ex> {
    seq![Ex::If(Box::new(e), Box::new(Ex::Num(1)), Box::new(Ex::Num(0)))]
}

pub open spec fn cast_exs(e: Ex) -> Seq<Ex> {
    seq![as_slot(e)]
}

pub open spec fn f32_exs(e: Ex) -> Seq<Ex> {
    seq![as_slot(call_ex(e, Meth::ToBits))]
}

pub open spec fn f64_exs(e: Ex) -> Seq<Ex> {
    seq![call_ex(e, Meth::ToBits)]
}

pub open spec fn native_exs(e: Ex) -> Seq<Ex> {
    seq![as_slot(call_ex(e, Meth::AsPtr)), as_slot(call_ex(e, Meth::Len))]
}

pub open spec fn out_exs(e: Ex) -> Seq<Ex> {
    seq![as_slot(Ex::Apply(Fun::AddrOf, seq![Ex::Star(Box::new(e))]))]
}

pub open spec fn view_exs(e: Ex) -> Seq<Ex> {
    seq![as_slot(field_of(e, Fld::Ptr)), as_slot(field_of(e, Fld::Len))]
}

pub open spec fn typed_view_exs(e: Ex, rt: Seq<char>) -> Seq<Ex> {
    seq![
        as_slot(Ex::As(Box::new(field_of(e, Fld::Ptr)), Cast::Const(rt))),
        as_slot(field_of(e, Fld::Len)),
    ]
}

pub open spec fn managed_exs(e: Ex) -> Seq<Ex> {
    seq![
        as_slot(field_of(e, Fld::Allocator)),
        as_slot(field_of(e, Fld::Ptr)),
        as_slot(field_of(e, Fld::Len)),
        as_slot(field_of(e, Fld::Cap)),
    ]
}

pub open spec fn empty_exs(e: Ex) -> Seq<Ex> {
    seq![as_slot(Ex::Apply(Fun::AddrOf, seq![e]))]
}

pub open spec fn struct_exs(e: Ex, name: Seq<char>) -> Seq<Ex> {
    seq![as_slot(Ex::As(Box::new(Ex::Ref(Box::new(e))), Cast::Const(name)))]
}

pub open spec fn chunk_exs(e: Ex, start: nat, end: nat) -> Seq<Ex> {
    seq![
        Ex::Apply(
            Fun::FromLeBytes,
            seq![call_ex(call_ex(Ex::Range(Box::new(e), start, end), Meth::TryInto), Meth::Unwrap)],
        ),
    ]
}

pub(crate) proof fn lemma_w_cast_text(e: Ex, w: Seq<char>)
    ensures
        ({
            let expr = text(e);
            put_texts(w, cast_exs(e), 1) == w + ".write_u64("@ + expr + " as u64);"@
        }),
{
    let expr = text(e);
    lemma_casts();
    assert(alike(" as u64);"@, " as "@ + "u64"@ + ");"@)) by {
        reveal_strlit(" as u64);");
        reveal_strlit(" as ");
        reveal_strlit("u64");
        reveal_strlit(");");
        assert(" as u64);"@ =~= " as "@ + "u64"@ + ");"@);
    }
    let e0 = Ex::As(Box::new(e), Cast::Int(false, 64));
    let es = cast_exs(e);
    assert(es[0] == e0);
    let k0 = Seq::<char>::empty();
    let k1 = ");"@ + k0;
    let k2 = "u64"@ + k1;
    let k3 = " as "@ + k2;
    let k4 = expr + k3;
    let k5 = ".write_u64("@ + k4;
    let k6 = w + k5;
    lemma_regroup(w + ".write_u64("@ + text(e0), ");"@, k0);
    lemma_regroup(w + ".write_u64("@, text(e0), k1);
    lemma_regroup(expr + " as "@, "u64"@, k1);
    lemma_regroup(expr, " as "@, k2);
    lemma_regroup(w, ".write_u64("@, k4);
    lemma_regroup(w + ".write_u64("@ + expr, " as u64);"@, k0);
    lemma_regroup(" as "@ + "u64"@, ");"@, k0);
    lemma_regroup(" as "@, "u64"@, k1);
    lemma_regroup(w + ".write_u64("@, expr, k3);
    lemma_regroup(w, ".write_u64("@, k4);
    lemma_end(put_texts(w, es, 1), w + ".write_u64("@ + expr + " as u64);"@, k0);
}

pub(crate) proof fn lemma_w_cast(e: Ex, v: Val, w: Seq<char>, env: Map<Seq<char>, Val>)
    requires
        env.contains_key(w),
        env[w] is Writer,
        gives(e, env, v),
        v is Int,
    ensures
        puts(put_all(w, cast_exs(e), 1), env, seq![slot(v)]),
{
    let e0 = Ex::As(Box::new(e), Cast::Int(false, 64));
    let es = cast_exs(e);
    assert(es[0] == e0);
    let x0 = lemma_gives_on(e0, env, v);
    let ns = seq![wrap(v->Int_2, false, 64)];
    assert forall|i: int| 0 <= i < 1 implies gives(es[i], env, Val::Int(false, 64, #[trigger] ns[i])) by {
        assert(ns.len() == 1);
    }
    lemma_put_all(w, es, ns, 1, env);
    assert(Seq::new(1, |i: int| ns[i] as u64) =~= seq![slot(v)]);
}

pub(crate) proof fn lemma_w_u64_text(e: Ex, w: Seq<char>)
    ensures
        ({
            let expr = text(e);
            put_texts(w, seq![e], 1) == w + ".write_u64("@ + expr + ");"@
        }),
{
    let expr = text(e);
    lemma_casts();
    let es = seq![e];
    assert(es[0] == e);
    let k0 = Seq::<char>::empty();
    let k1 = ");"@ + k0;
    let k2 = expr + k1;
    let k3 = ".write_u64("@ + k2;
    let k4 = w + k3;
    lemma_regroup(w + ".write_u64("@ + expr, ");"@, k0);
    lemma_regroup(w + ".write_u64("@, expr, k1);
    lemma_regroup(w, ".write_u64("@, k2);
    lemma_regroup(w + ".write_u64("@ + expr, ");"@, k0);
    lemma_regroup(w + ".write_u64("@, expr, k1);
    lemma_regroup(w, ".write_u64("@, k2);
    lemma_end(put_texts(w, es, 1), w + ".write_u64("@ + expr + ");"@, k0);
}

pub(crate) proof fn lemma_w_u64(e: Ex, v: Val, w: Seq<char>, env: Map<Seq<char>, Val>)
    requires
        env.contains_key(w),
        env[w] is Writer,
        gives(e, env, v),
        is_int(v, false, 64),
    ensures
        puts(put_all(w, seq![e], 1), env, seq![slot(v)]),
{
    let es = seq![e];
    assert(es[0] == e);
    let ns = seq![v->Int_2];
    assert forall|i: int| 0 <= i < 1 implies gives(es[i], env, Val::Int(false, 64, #[trigger] ns[i])) by {
        assert(ns.len() == 1);
    }
    lemma_put_all(w, es, ns, 1, env);
    assert(Seq::new(1, |i: int| ns[i] as u64) =~= seq![slot(v)]);
}

pub(crate) proof fn lemma_w_f32_text(e: Ex, w: Seq<char>)
    ensures
        ({
            let expr = text(e);
            put_texts(w, f32_exs(e), 1) == w + ".write_u64("@ + expr + ".to_bits() as u64);"@
        }),
{
    let expr = text(e);
    lemma_casts();
    assert(alike(".to_bits() as u64);"@, ".to_bits()"@ + " as "@ + "u64"@ + ");"@)) by {
        reveal_strlit(".to_bits() as u64);");
        reveal_strlit(".to_bits()");
        reveal_strlit(" as ");
        reveal_strlit("u64");
        reveal_strlit(");");
        assert(".to_bits() as u64);"@ =~= ".to_bits()"@ + " as "@ + "u64"@ + ");"@);
    }
    let e0 = Ex::Call(Box::new(e), Meth::ToBits);
    let e1 = Ex::As(Box::new(e0), Cast::Int(false, 64));
    let es = f32_exs(e);
    assert(es[0] == e1);
    let k0 = Seq::<char>::empty();
    let k1 = ");"@ + k0;
    let k2 = "u64"@ + k1;
    let k3 = " as "@ + k2;
    let k4 = ".to_bits()"@ + k3;
    let k5 = expr + k4;
    let k6 = ".write_u64("@ + k5;
    let k7 = w + k6;
    lemma_regroup(w + ".write_u64("@ + text(e1), ");"@, k0);
    lemma_regroup(w + ".write_u64("@, text(e1), k1);
    lemma_regroup(text(e0) + " as "@, "u64"@, k1);
    lemma_regroup(text(e0), " as "@, k2);
    lemma_regroup(expr, ".to_bits()"@, k3);
    lemma_regroup(w, ".write_u64("@, k5);
    lemma_regroup(w + ".write_u64("@ + expr, ".to_bits() as u64);"@, k0);
    lemma_regroup(".to_bits()"@ + " as "@ + "u64"@, ");"@, k0);
    lemma_regroup(".to_bits()"@ + " as "@, "u64"@, k1);
    lemma_regroup(".to_bits()"@, " as "@, k2);
    lemma_regroup(w + ".write_u64("@, expr, k4);
    lemma_regroup(w, ".write_u64("@, k5);
    lemma_end(put_texts(w, es, 1), w + ".write_u64("@ + expr + ".to_bits() as u64);"@, k0);
}

pub(crate) proof fn lemma_w_f32(e: Ex, v: Val, w: Seq<char>, env: Map<Seq<char>, Val>)
    requires
        env.contains_key(w),
        env[w] is Writer,
        gives(e, env, v),
        is_float(v, 32),
    ensures
        puts(put_all(w, f32_exs(e), 1), env, seq![slot(v)]),
{
    assert(v->Float_1 % 0x1_0000_0000_0000_0000 == v->Float_1);
    let e0 = Ex::Call(Box::new(e), Meth::ToBits);
    let e1 = Ex::As(Box::new(e0), Cast::Int(false, 64));
    let es = f32_exs(e);
    assert(es[0] == e1);
    let x0 = lemma_gives_on(e0, env, v);
    let x1 = lemma_gives_on(e1, env, x0);
    let ns = seq![wrap(v->Float_1, false, 64)];
    assert forall|i: int| 0 <= i < 1 implies gives(es[i], env, Val::Int(false, 64, #[trigger] ns[i])) by {
        assert(ns.len() == 1);
    }
    lemma_put_all(w, es, ns, 1, env);
    assert(Seq::new(1, |i: int| ns[i] as u64) =~= seq![slot(v)]);
}

pub(crate) proof fn lemma_w_f64_text(e: Ex, w: Seq<char>)
    ensures
        ({
            let expr = text(e);
            put_texts(w, f64_exs(e), 1) == w + ".write_u64("@ + expr + ".to_bits());"@
        }),
{
    let expr = text(e);
    lemma_casts();
    assert(alike(".to_bits());"@, ".to_bits()"@ + ");"@)) by {
        reveal_strlit(".to_bits());");
        reveal_strlit(".to_bits()");
        reveal_strlit(");");
        assert(".to_bits());"@ =~= ".to_bits()"@ + ");"@);
    }
    let e0 = Ex::Call(Box::new(e), Meth::ToBits);
    let es = f64_exs(e);
    assert(es[0] == e0);
    let k0 = Seq::<char>::empty();
    let k1 = ");"@ + k0;
    let k2 = ".to_bits()"@ + k1;
    let k3 = expr + k2;
    let k4 = ".write_u64("@ + k3;
    let k5 = w + k4;
    lemma_regroup(w + ".write_u64("@ + text(e0), ");"@, k0);
    lemma_regroup(w + ".write_u64("@, text(e0), k1);
    lemma_regroup(expr, ".to_bits()"@, k1);
    lemma_regroup(w, ".write_u64("@, k3);
    lemma_regroup(w + ".write_u64("@ + expr, ".to_bits());"@, k0);
    lemma_regroup(".to_bits()"@, ");"@, k0);
    lemma_regroup(w + ".write_u64("@, expr, k2);
    lemma_regroup(w, ".write_u64("@, k3);
    lemma_end(put_texts(w, es, 1), w + ".write_u64("@ + expr + ".to_bits());"@, k0);
}

pub(crate) proof fn lemma_w_f64(e: Ex, v: Val, w: Seq<char>, env: Map<Seq<char>, Val>)
    requires
        env.contains_key(w),
        env[w] is Writer,
        gives(e, env, v),
        is_float(v, 64),
    ensures
        puts(put_all(w, f64_exs(e), 1), env, seq![slot(v)]),
{
    let e0 = Ex::Call(Box::new(e), Meth::ToBits);
    let es = f64_exs(e);
    assert(es[0] == e0);
    let x0 = lemma_gives_on(e0, env, v);
    let ns = seq![v->Float_1];
    assert forall|i: int| 0 <= i < 1 implies gives(es[i], env, Val::Int(false, 64, #[trigger] ns[i])) by {
        assert(ns.len() == 1);
    }
    lemma_put_all(w, es, ns, 1, env);
    assert(Seq::new(1, |i: int| ns[i] as u64) =~= seq![slot(v)]);
}

#[verifier::spinoff_prover]
#[verifier::rlimit(100)]
pub(crate) proof fn lemma_w_native_text(e: Ex, w: Seq<char>)
    ensures
        ({
            let expr = text(e);
            put_texts(w, native_exs(e), 2) == w + ".write_u64("@ + expr + ".as_ptr() as u64); "@ + w + ".write_u64("@ + expr + ".len() as u64);"@
        }),
{
    let expr = text(e);
    lemma_casts();
    assert(alike(".as_ptr() as u64); "@, ".as_ptr()"@ + " as "@ + "u64"@ + ");"@ + " "@)) by {
        reveal_strlit(".as_ptr() as u64); ");
        reveal_strlit(".as_ptr()");
        reveal_strlit(" as ");
        reveal_strlit("u64");
        reveal_strlit(");");
        reveal_strlit(" ");
        assert(".as_ptr() as u64); "@ =~= ".as_ptr()"@ + " as "@ + "u64"@ + ");"@ + " "@);
    }
    assert(alike(".len() as u64);"@, ".len()"@ + " as "@ + "u64"@ + ");"@)) by {
        reveal_strlit(".len() as u64);");
        reveal_strlit(".len()");
        reveal_strlit(" as ");
        reveal_strlit("u64");
        reveal_strlit(");");
        assert(".len() as u64);"@ =~= ".len()"@ + " as "@ + "u64"@ + ");"@);
    }
    let e0 = Ex::Call(Box::new(e), Meth::AsPtr);
    let e1 = Ex::As(Box::new(e0), Cast::Int(false, 64));
    let e2 = Ex::Call(Box::new(e), Meth::Len);
    let e3 = Ex::As(Box::new(e2), Cast::Int(false, 64));
    let es = native_exs(e);
    assert(es[0] == e1);
    assert(es[1] == e3);
    let k0 = Seq::<char>::empty();
    let k1 = ");"@ + k0;
    let k2 = "u64"@ + k1;
    let k3 = " as "@ + k2;
    let k4 = ".len()"@ + k3;
    let k5 = expr + k4;
    let k6 = ".write_u64("@ + k5;
    let k7 = w + k6;
    let k8 = " "@ + k7;
    let k9 = ");"@ + k8;
    let k10 = "u64"@ + k9;
    let k11 = " as "@ + k10;
    let k12 = ".as_ptr()"@ + k11;
    let k13 = expr + k12;
    let k14 = ".write_u64("@ + k13;
    let k15 = w + k14;
    lemma_regroup(put_texts(w, es, 1) + " "@, (w + ".write_u64("@ + text(e3) + ");"@), k0);
    lemma_regroup(w + ".write_u64("@ + text(e3), ");"@, k0);
    lemma_regroup(w + ".write_u64("@, text(e3), k1);
    lemma_regroup(text(e2) + " as "@, "u64"@, k1);
    lemma_regroup(text(e2), " as "@, k2);
    lemma_regroup(expr, ".len()"@, k3);
    lemma_regroup(w, ".write_u64("@, k5);
    lemma_regroup(put_texts(w, es, 1), " "@, k7);
    lemma_regroup(w + ".write_u64("@ + text(e1), ");"@, k8);
    lemma_regroup(w + ".write_u64("@, text(e1), k9);
    lemma_regroup(text(e0) + " as "@, "u64"@, k9);
    lemma_regroup(text(e0), " as "@, k10);
    lemma_regroup(expr, ".as_ptr()"@, k11);
    lemma_regroup(w, ".write_u64("@, k13);
    lemma_regroup(w + ".write_u64("@ + expr + ".as_ptr() as u64); "@ + w + ".write_u64("@ + expr, ".len() as u64);"@, k0);
    lemma_regroup(".len()"@ + " as "@ + "u64"@, ");"@, k0);
    lemma_regroup(".len()"@ + " as "@, "u64"@, k1);
    lemma_regroup(".len()"@, " as "@, k2);
    lemma_regroup(w + ".write_u64("@ + expr + ".as_ptr() as u64); "@ + w + ".write_u64("@, expr, k4);
    lemma_regroup(w + ".write_u64("@ + expr + ".as_ptr() as u64); "@ + w, ".write_u64("@, k5);
    lemma_regroup(w + ".write_u64("@ + expr + ".as_ptr() as u64); "@, w, k6);
    lemma_regroup(w + ".write_u64("@ + expr, ".as_ptr() as u64); "@, k7);
    lemma_regroup(".as_ptr()"@ + " as "@ + "u64"@ + ");"@, " "@, k7);
    lemma_regroup(".as_ptr()"@ + " as "@ + "u64"@, ");"@, k8);
    lemma_regroup(".as_ptr()"@ + " as "@, "u64"@, k9);
    lemma_regroup(".as_ptr()"@, " as "@, k10);
    lemma_regroup(w + ".write_u64("@, expr, k12);
    lemma_regroup(w, ".write_u64("@, k13);
    lemma_end(put_texts(w, es, 2), w + ".write_u64("@ + expr + ".as_ptr() as u64); "@ + w + ".write_u64("@ + expr + ".len() as u64);"@, k0);
}

#[verifier::spinoff_prover]
#[verifier::rlimit(100)]
pub(crate) proof fn lemma_w_native(e: Ex, v: Val, w: Seq<char>, env: Map<Seq<char>, Val>, t: Seq<char>)
    requires
        env.contains_key(w),
        env[w] is Writer,
        gives(e, env, v),
        is_slice(v, t),
    ensures
        puts(put_all(w, native_exs(e), 2), env, slice_wire(v)),
{
    let e0 = Ex::Call(Box::new(e), Meth::AsPtr);
    let e1 = Ex::As(Box::new(e0), Cast::Int(false, 64));
    let e2 = Ex::Call(Box::new(e), Meth::Len);
    let e3 = Ex::As(Box::new(e2), Cast::Int(false, 64));
    let es = native_exs(e);
    assert(es[0] == e1);
    assert(es[1] == e3);
    let x0 = lemma_gives_on(e0, env, v);
    let x1 = lemma_gives_on(e1, env, x0);
    let x2 = lemma_gives_on(e2, env, v);
    let x3 = lemma_gives_on(e3, env, x2);
    let ns = seq![if v->Slice_1 == 0 { 1 } else { v->Slice_0 }, v->Slice_1];
    assert forall|i: int| 0 <= i < 2 implies gives(es[i], env, Val::Int(false, 64, #[trigger] ns[i])) by {
        assert(ns.len() == 2);
    }
    lemma_put_all(w, es, ns, 2, env);
    assert(Seq::new(2, |i: int| ns[i] as u64) =~= slice_wire(v));
}

pub(crate) proof fn lemma_w_out_text(e: Ex, w: Seq<char>)
    ensures
        ({
            let expr = text(e);
            put_texts(w, out_exs(e), 1) == w + ".write_u64(core::ptr::addr_of!(*"@ + expr + ") as u64);"@
        }),
{
    let expr = text(e);
    lemma_casts();
    assert(alike(".write_u64(core::ptr::addr_of!(*"@, ".write_u64("@ + "core::ptr::addr_of!"@ + "("@ + "*"@)) by {
        reveal_strlit(".write_u64(core::ptr::addr_of!(*");
        reveal_strlit(".write_u64(");
        reveal_strlit("core::ptr::addr_of!");
        reveal_strlit("(");
        reveal_strlit("*");
        assert(".write_u64(core::ptr::addr_of!(*"@ =~= ".write_u64("@ + "core::ptr::addr_of!"@ + "("@ + "*"@);
    }
    assert(alike(") as u64);"@, ")"@ + " as "@ + "u64"@ + ");"@)) by {
        reveal_strlit(") as u64);");
        reveal_strlit(")");
        reveal_strlit(" as ");
        reveal_strlit("u64");
        reveal_strlit(");");
        assert(") as u64);"@ =~= ")"@ + " as "@ + "u64"@ + ");"@);
    }
    let e0 = Ex::Star(Box::new(e));
    let es1 = seq![e0];
    assert(es1[0] == e0);
    let e1 = Ex::Apply(Fun::AddrOf, es1);
    assert(es1.len() == 1);
    lemma_first_text(es1);
    let e2 = Ex::As(Box::new(e1), Cast::Int(false, 64));
    let es = out_exs(e);
    assert(es[0] == e2);
    let k0 = Seq::<char>::empty();
    let k1 = ");"@ + k0;
    let k2 = "u64"@ + k1;
    let k3 = " as "@ + k2;
    let k4 = ")"@ + k3;
    let k5 = expr + k4;
    let k6 = "*"@ + k5;
    let k7 = "("@ + k6;
    let k8 = "core::ptr::addr_of!"@ + k7;
    let k9 = ".write_u64("@ + k8;
    let k10 = w + k9;
    lemma_regroup(w + ".write_u64("@ + text(e2), ");"@, k0);
    lemma_regroup(w + ".write_u64("@, text(e2), k1);
    lemma_regroup(text(e1) + " as "@, "u64"@, k1);
    lemma_regroup(text(e1), " as "@, k2);
    lemma_regroup("core::ptr::addr_of!"@ + "("@ + texts(es1, 1), ")"@, k3);
    lemma_regroup("core::ptr::addr_of!"@ + "("@, texts(es1, 1), k4);
    lemma_regroup("*"@, expr, k4);
    lemma_regroup("core::ptr::addr_of!"@, "("@, k6);
    lemma_regroup(w, ".write_u64("@, k8);
    lemma_regroup(w + ".write_u64(core::ptr::addr_of!(*"@ + expr, ") as u64);"@, k0);
    lemma_regroup(")"@ + " as "@ + "u64"@, ");"@, k0);
    lemma_regroup(")"@ + " as "@, "u64"@, k1);
    lemma_regroup(")"@, " as "@, k2);
    lemma_regroup(w + ".write_u64(core::ptr::addr_of!(*"@, expr, k4);
    lemma_regroup(w, ".write_u64(core::ptr::addr_of!(*"@, k5);
    lemma_regroup(".write_u64("@ + "core::ptr::addr_of!"@ + "("@, "*"@, k5);
    lemma_regroup(".write_u64("@ + "core::ptr::addr_of!"@, "("@, k6);
    lemma_regroup(".write_u64("@, "core::ptr::addr_of!"@, k7);
    lemma_end(put_texts(w, es, 1), w + ".write_u64(core::ptr::addr_of!(*"@ + expr + ") as u64);"@, k0);
}

pub(crate) proof fn lemma_w_out(e: Ex, v: Val, w: Seq<char>, env: Map<Seq<char>, Val>, t: Seq<char>)
    requires
        env.contains_key(w),
        env[w] is Writer,
        gives(e, env, v),
        is_ptr(v, t),
    ensures
        puts(put_all(w, out_exs(e), 1), env, seq![slot(v)]),
{
    let e0 = Ex::Star(Box::new(e));
    let es1 = seq![e0];
    let e1 = Ex::Apply(Fun::AddrOf, es1);
    let e2 = Ex::As(Box::new(e1), Cast::Int(false, 64));
    let es = out_exs(e);
    assert(es[0] == e2);
    let x0 = lemma_gives_on(e0, env, v);
    let x1 = lemma_gives_apply(Fun::AddrOf, e0, env, x0);
    let x2 = lemma_gives_on(e2, env, x1);
    let ns = seq![v->Ptr_0];
    assert forall|i: int| 0 <= i < 1 implies gives(es[i], env, Val::Int(false, 64, #[trigger] ns[i])) by {
        assert(ns.len() == 1);
    }
    lemma_put_all(w, es, ns, 1, env);
    assert(Seq::new(1, |i: int| ns[i] as u64) =~= seq![slot(v)]);
}

#[verifier::spinoff_prover]
#[verifier::rlimit(100)]
pub(crate) proof fn lemma_w_view_text(e: Ex, w: Seq<char>)
    ensures
        ({
            let expr = text(e);
            put_texts(w, view_exs(e), 2) == w + ".write_u64("@ + expr + ".ptr as u64); "@ + w + ".write_u64("@ + expr + ".len as u64);"@
        }),
{
    let expr = text(e);
    lemma_casts();
    assert(alike(".ptr as u64); "@, "."@ + "ptr"@ + " as "@ + "u64"@ + ");"@ + " "@)) by {
        reveal_strlit(".ptr as u64); ");
        reveal_strlit(".");
        reveal_strlit("ptr");
        reveal_strlit(" as ");
        reveal_strlit("u64");
        reveal_strlit(");");
        reveal_strlit(" ");
        assert(".ptr as u64); "@ =~= "."@ + "ptr"@ + " as "@ + "u64"@ + ");"@ + " "@);
    }
    assert(alike(".len as u64);"@, "."@ + "len"@ + " as "@ + "u64"@ + ");"@)) by {
        reveal_strlit(".len as u64);");
        reveal_strlit(".");
        reveal_strlit("len");
        reveal_strlit(" as ");
        reveal_strlit("u64");
        reveal_strlit(");");
        assert(".len as u64);"@ =~= "."@ + "len"@ + " as "@ + "u64"@ + ");"@);
    }
    let e0 = Ex::Field(Box::new(e), Fld::Ptr);
    let e1 = Ex::As(Box::new(e0), Cast::Int(false, 64));
    let e2 = Ex::Field(Box::new(e), Fld::Len);
    let e3 = Ex::As(Box::new(e2), Cast::Int(false, 64));
    let es = view_exs(e);
    assert(es[0] == e1);
    assert(es[1] == e3);
    let k0 = Seq::<char>::empty();
    let k1 = ");"@ + k0;
    let k2 = "u64"@ + k1;
    let k3 = " as "@ + k2;
    let k4 = "len"@ + k3;
    let k5 = "."@ + k4;
    let k6 = expr + k5;
    let k7 = ".write_u64("@ + k6;
    let k8 = w + k7;
    let k9 = " "@ + k8;
    let k10 = ");"@ + k9;
    let k11 = "u64"@ + k10;
    let k12 = " as "@ + k11;
    let k13 = "ptr"@ + k12;
    let k14 = "."@ + k13;
    let k15 = expr + k14;
    let k16 = ".write_u64("@ + k15;
    let k17 = w + k16;
    lemma_regroup(put_texts(w, es, 1) + " "@, (w + ".write_u64("@ + text(e3) + ");"@), k0);
    lemma_regroup(w + ".write_u64("@ + text(e3), ");"@, k0);
    lemma_regroup(w + ".write_u64("@, text(e3), k1);
    lemma_regroup(text(e2) + " as "@, "u64"@, k1);
    lemma_regroup(text(e2), " as "@, k2);
    lemma_regroup(expr + "."@, "len"@, k3);
    lemma_regroup(expr, "."@, k4);
    lemma_regroup(w, ".write_u64("@, k6);
    lemma_regroup(put_texts(w, es, 1), " "@, k8);
    lemma_regroup(w + ".write_u64("@ + text(e1), ");"@, k9);
    lemma_regroup(w + ".write_u64("@, text(e1), k10);
    lemma_regroup(text(e0) + " as "@, "u64"@, k10);
    lemma_regroup(text(e0), " as "@, k11);
    lemma_regroup(expr + "."@, "ptr"@, k12);
    lemma_regroup(expr, "."@, k13);
    lemma_regroup(w, ".write_u64("@, k15);
    lemma_regroup(w + ".write_u64("@ + expr + ".ptr as u64); "@ + w + ".write_u64("@ + expr, ".len as u64);"@, k0);
    lemma_regroup("."@ + "len"@ + " as "@ + "u64"@, ");"@, k0);
    lemma_regroup("."@ + "len"@ + " as "@, "u64"@, k1);
    lemma_regroup("."@ + "len"@, " as "@, k2);
    lemma_regroup("."@, "len"@, k3);
    lemma_regroup(w + ".write_u64("@ + expr + ".ptr as u64); "@ + w + ".write_u64("@, expr, k5);
    lemma_regroup(w + ".write_u64("@ + expr + ".ptr as u64); "@ + w, ".write_u64("@, k6);
    lemma_regroup(w + ".write_u64("@ + expr + ".ptr as u64); "@, w, k7);
    lemma_regroup(w + ".write_u64("@ + expr, ".ptr as u64); "@, k8);
    lemma_regroup("."@ + "ptr"@ + " as "@ + "u64"@ + ");"@, " "@, k8);
    lemma_regroup("."@ + "ptr"@ + " as "@ + "u64"@, ");"@, k9);
    lemma_regroup("."@ + "ptr"@ + " as "@, "u64"@, k10);
    lemma_regroup("."@ + "ptr"@, " as "@, k11);
    lemma_regroup("."@, "ptr"@, k12);
    lemma_regroup(w + ".write_u64("@, expr, k14);
    lemma_regroup(w, ".write_u64("@, k15);
    lemma_end(put_texts(w, es, 2), w + ".write_u64("@ + expr + ".ptr as u64); "@ + w + ".write_u64("@ + expr + ".len as u64);"@, k0);
}

#[verifier::spinoff_prover]
#[verifier::rlimit(100)]
pub(crate) proof fn lemma_w_view(e: Ex, v: Val, w: Seq<char>, env: Map<Seq<char>, Val>, r: Rec, t: Seq<char>)
    requires
        env.contains_key(w),
        env[w] is Writer,
        gives(e, env, v),
        is_view(v, r, t),
    ensures
        puts(put_all(w, view_exs(e), 2), env, view_wire(v)),
{
    let e0 = Ex::Field(Box::new(e), Fld::Ptr);
    let e1 = Ex::As(Box::new(e0), Cast::Int(false, 64));
    let e2 = Ex::Field(Box::new(e), Fld::Len);
    let e3 = Ex::As(Box::new(e2), Cast::Int(false, 64));
    let es = view_exs(e);
    assert(es[0] == e1);
    assert(es[1] == e3);
    let x0 = lemma_gives_on(e0, env, v);
    let x1 = lemma_gives_on(e1, env, x0);
    let x2 = lemma_gives_on(e2, env, v);
    let x3 = lemma_gives_on(e3, env, x2);
    let ns = seq![(*v->View_1)->Ptr_0, (*v->View_2)->Int_2];
    assert forall|i: int| 0 <= i < 2 implies gives(es[i], env, Val::Int(false, 64, #[trigger] ns[i])) by {
        assert(ns.len() == 2);
    }
    lemma_put_all(w, es, ns, 2, env);
    assert(Seq::new(2, |i: int| ns[i] as u64) =~= view_wire(v));
}

#[verifier::spinoff_prover]
#[verifier::rlimit(100)]
pub(crate) proof fn lemma_w_typed_view_text(e: Ex, w: Seq<char>, rt: Seq<char>)
    ensures
        ({
            let expr = text(e);
            put_texts(w, typed_view_exs(e, rt), 2) == w + ".write_u64("@ + expr + ".ptr as *const "@ + rt + " as u64); "@ + w + ".write_u64("@ + expr + ".len as u64);"@
        }),
{
    let expr = text(e);
    lemma_casts();
    assert(alike(".ptr as *const "@, "."@ + "ptr"@ + " as "@ + "*const "@)) by {
        reveal_strlit(".ptr as *const ");
        reveal_strlit(".");
        reveal_strlit("ptr");
        reveal_strlit(" as ");
        reveal_strlit("*const ");
        assert(".ptr as *const "@ =~= "."@ + "ptr"@ + " as "@ + "*const "@);
    }
    assert(alike(" as u64); "@, " as "@ + "u64"@ + ");"@ + " "@)) by {
        reveal_strlit(" as u64); ");
        reveal_strlit(" as ");
        reveal_strlit("u64");
        reveal_strlit(");");
        reveal_strlit(" ");
        assert(" as u64); "@ =~= " as "@ + "u64"@ + ");"@ + " "@);
    }
    assert(alike(".len as u64);"@, "."@ + "len"@ + " as "@ + "u64"@ + ");"@)) by {
        reveal_strlit(".len as u64);");
        reveal_strlit(".");
        reveal_strlit("len");
        reveal_strlit(" as ");
        reveal_strlit("u64");
        reveal_strlit(");");
        assert(".len as u64);"@ =~= "."@ + "len"@ + " as "@ + "u64"@ + ");"@);
    }
    let e0 = Ex::Field(Box::new(e), Fld::Ptr);
    let e1 = Ex::As(Box::new(e0), Cast::Const(rt));
    let e2 = Ex::As(Box::new(e1), Cast::Int(false, 64));
    let e3 = Ex::Field(Box::new(e), Fld::Len);
    let e4 = Ex::As(Box::new(e3), Cast::Int(false, 64));
    let es = typed_view_exs(e, rt);
    assert(es[0] == e2);
    assert(es[1] == e4);
    let k0 = Seq::<char>::empty();
    let k1 = ");"@ + k0;
    let k2 = "u64"@ + k1;
    let k3 = " as "@ + k2;
    let k4 = "len"@ + k3;
    let k5 = "."@ + k4;
    let k6 = expr + k5;
    let k7 = ".write_u64("@ + k6;
    let k8 = w + k7;
    let k9 = " "@ + k8;
    let k10 = ");"@ + k9;
    let k11 = "u64"@ + k10;
    let k12 = " as "@ + k11;
    let k13 = rt + k12;
    let k14 = "*const "@ + k13;
    let k15 = " as "@ + k14;
    let k16 = "ptr"@ + k15;
    let k17 = "."@ + k16;
    let k18 = expr + k17;
    let k19 = ".write_u64("@ + k18;
    let k20 = w + k19;
    lemma_regroup(put_texts(w, es, 1) + " "@, (w + ".write_u64("@ + text(e4) + ");"@), k0);
    lemma_regroup(w + ".write_u64("@ + text(e4), ");"@, k0);
    lemma_regroup(w + ".write_u64("@, text(e4), k1);
    lemma_regroup(text(e3) + " as "@, "u64"@, k1);
    lemma_regroup(text(e3), " as "@, k2);
    lemma_regroup(expr + "."@, "len"@, k3);
    lemma_regroup(expr, "."@, k4);
    lemma_regroup(w, ".write_u64("@, k6);
    lemma_regroup(put_texts(w, es, 1), " "@, k8);
    lemma_regroup(w + ".write_u64("@ + text(e2), ");"@, k9);
    lemma_regroup(w + ".write_u64("@, text(e2), k10);
    lemma_regroup(text(e1) + " as "@, "u64"@, k10);
    lemma_regroup(text(e1), " as "@, k11);
    lemma_regroup(text(e0) + " as "@, ("*const "@ + rt), k12);
    lemma_regroup("*const "@, rt, k12);
    lemma_regroup(text(e0), " as "@, k14);
    lemma_regroup(expr + "."@, "ptr"@, k15);
    lemma_regroup(expr, "."@, k16);
    lemma_regroup(w, ".write_u64("@, k18);
    lemma_regroup(w + ".write_u64("@ + expr + ".ptr as *const "@ + rt + " as u64); "@ + w + ".write_u64("@ + expr, ".len as u64);"@, k0);
    lemma_regroup("."@ + "len"@ + " as "@ + "u64"@, ");"@, k0);
    lemma_regroup("."@ + "len"@ + " as "@, "u64"@, k1);
    lemma_regroup("."@ + "len"@, " as "@, k2);
    lemma_regroup("."@, "len"@, k3);
    lemma_regroup(w + ".write_u64("@ + expr + ".ptr as *const "@ + rt + " as u64); "@ + w + ".write_u64("@, expr, k5);
    lemma_regroup(w + ".write_u64("@ + expr + ".ptr as *const "@ + rt + " as u64); "@ + w, ".write_u64("@, k6);
    lemma_regroup(w + ".write_u64("@ + expr + ".ptr as *const "@ + rt + " as u64); "@, w, k7);
    lemma_regroup(w + ".write_u64("@ + expr + ".ptr as *const "@ + rt, " as u64); "@, k8);
    lemma_regroup(" as "@ + "u64"@ + ");"@, " "@, k8);
    lemma_regroup(" as "@ + "u64"@, ");"@, k9);
    lemma_regroup(" as "@, "u64"@, k10);
    lemma_regroup(w + ".write_u64("@ + expr + ".ptr as *const "@, rt, k12);
    lemma_regroup(w + ".write_u64("@ + expr, ".ptr as *const "@, k13);
    lemma_regroup("."@ + "ptr"@ + " as "@, "*const "@, k13);
    lemma_regroup("."@ + "ptr"@, " as "@, k14);
    lemma_regroup("."@, "ptr"@, k15);
    lemma_regroup(w + ".write_u64("@, expr, k17);
    lemma_regroup(w, ".write_u64("@, k18);
    lemma_end(put_texts(w, es, 2), w + ".write_u64("@ + expr + ".ptr as *const "@ + rt + " as u64); "@ + w + ".write_u64("@ + expr + ".len as u64);"@, k0);
}

#[verifier::spinoff_prover]
#[verifier::rlimit(100)]
pub(crate) proof fn lemma_w_typed_view(e: Ex, v: Val, w: Seq<char>, env: Map<Seq<char>, Val>, r: Rec, rt: Seq<char>)
    requires
        env.contains_key(w),
        env[w] is Writer,
        gives(e, env, v),
        is_view(v, r, rt),
    ensures
        puts(put_all(w, typed_view_exs(e, rt), 2), env, view_wire(v)),
{
    let e0 = Ex::Field(Box::new(e), Fld::Ptr);
    let e1 = Ex::As(Box::new(e0), Cast::Const(rt));
    let e2 = Ex::As(Box::new(e1), Cast::Int(false, 64));
    let e3 = Ex::Field(Box::new(e), Fld::Len);
    let e4 = Ex::As(Box::new(e3), Cast::Int(false, 64));
    let es = typed_view_exs(e, rt);
    assert(es[0] == e2);
    assert(es[1] == e4);
    let x0 = lemma_gives_on(e0, env, v);
    let x1 = lemma_gives_on(e1, env, x0);
    let x2 = lemma_gives_on(e2, env, x1);
    let x3 = lemma_gives_on(e3, env, v);
    let x4 = lemma_gives_on(e4, env, x3);
    let ns = seq![(*v->View_1)->Ptr_0, (*v->View_2)->Int_2];
    assert forall|i: int| 0 <= i < 2 implies gives(es[i], env, Val::Int(false, 64, #[trigger] ns[i])) by {
        assert(ns.len() == 2);
    }
    lemma_put_all(w, es, ns, 2, env);
    assert(Seq::new(2, |i: int| ns[i] as u64) =~= view_wire(v));
}

#[verifier::spinoff_prover]
#[verifier::rlimit(100)]
pub(crate) proof fn lemma_w_managed_text(e: Ex, w: Seq<char>)
    ensures
        ({
            let expr = text(e);
            put_texts(w, managed_exs(e), 4) == w + ".write_u64("@ + expr + ".allocator as u64); "@ + w + ".write_u64("@ + expr + ".ptr as u64); "@ + w + ".write_u64("@ + expr + ".len as u64); "@ + w + ".write_u64("@ + expr + ".cap as u64);"@
        }),
{
    let expr = text(e);
    lemma_casts();
    assert(alike(".allocator as u64); "@, "."@ + "allocator"@ + " as "@ + "u64"@ + ");"@ + " "@)) by {
        reveal_strlit(".allocator as u64); ");
        reveal_strlit(".");
        reveal_strlit("allocator");
        reveal_strlit(" as ");
        reveal_strlit("u64");
        reveal_strlit(");");
        reveal_strlit(" ");
        assert(".allocator as u64); "@ =~= "."@ + "allocator"@ + " as "@ + "u64"@ + ");"@ + " "@);
    }
    assert(alike(".ptr as u64); "@, "."@ + "ptr"@ + " as "@ + "u64"@ + ");"@ + " "@)) by {
        reveal_strlit(".ptr as u64); ");
        reveal_strlit(".");
        reveal_strlit("ptr");
        reveal_strlit(" as ");
        reveal_strlit("u64");
        reveal_strlit(");");
        reveal_strlit(" ");
        assert(".ptr as u64); "@ =~= "."@ + "ptr"@ + " as "@ + "u64"@ + ");"@ + " "@);
    }
    assert(alike(".len as u64); "@, "."@ + "len"@ + " as "@ + "u64"@ + ");"@ + " "@)) by {
        reveal_strlit(".len as u64); ");
        reveal_strlit(".");
        reveal_strlit("len");
        reveal_strlit(" as ");
        reveal_strlit("u64");
        reveal_strlit(");");
        reveal_strlit(" ");
        assert(".len as u64); "@ =~= "."@ + "len"@ + " as "@ + "u64"@ + ");"@ + " "@);
    }
    assert(alike(".cap as u64);"@, "."@ + "cap"@ + " as "@ + "u64"@ + ");"@)) by {
        reveal_strlit(".cap as u64);");
        reveal_strlit(".");
        reveal_strlit("cap");
        reveal_strlit(" as ");
        reveal_strlit("u64");
        reveal_strlit(");");
        assert(".cap as u64);"@ =~= "."@ + "cap"@ + " as "@ + "u64"@ + ");"@);
    }
    let e0 = Ex::Field(Box::new(e), Fld::Allocator);
    let e1 = Ex::As(Box::new(e0), Cast::Int(false, 64));
    let e2 = Ex::Field(Box::new(e), Fld::Ptr);
    let e3 = Ex::As(Box::new(e2), Cast::Int(false, 64));
    let e4 = Ex::Field(Box::new(e), Fld::Len);
    let e5 = Ex::As(Box::new(e4), Cast::Int(false, 64));
    let e6 = Ex::Field(Box::new(e), Fld::Cap);
    let e7 = Ex::As(Box::new(e6), Cast::Int(false, 64));
    let es = managed_exs(e);
    assert(es[0] == e1);
    assert(es[1] == e3);
    assert(es[2] == e5);
    assert(es[3] == e7);
    let k0 = Seq::<char>::empty();
    let k1 = ");"@ + k0;
    let k2 = "u64"@ + k1;
    let k3 = " as "@ + k2;
    let k4 = "cap"@ + k3;
    let k5 = "."@ + k4;
    let k6 = expr + k5;
    let k7 = ".write_u64("@ + k6;
    let k8 = w + k7;
    let k9 = " "@ + k8;
    let k10 = ");"@ + k9;
    let k11 = "u64"@ + k10;
    let k12 = " as "@ + k11;
    let k13 = "len"@ + k12;
    let k14 = "."@ + k13;
    let k15 = expr + k14;
    let k16 = ".write_u64("@ + k15;
    let k17 = w + k16;
    let k18 = " "@ + k17;
    let k19 = ");"@ + k18;
    let k20 = "u64"@ + k19;
    let k21 = " as "@ + k20;
    let k22 = "ptr"@ + k21;
    let k23 = "."@ + k22;
    let k24 = expr + k23;
    let k25 = ".write_u64("@ + k24;
    let k26 = w + k25;
    let k27 = " "@ + k26;
    let k28 = ");"@ + k27;
    let k29 = "u64"@ + k28;
    let k30 = " as "@ + k29;
    let k31 = "allocator"@ + k30;
    let k32 = "."@ + k31;
    let k33 = expr + k32;
    let k34 = ".write_u64("@ + k33;
    let k35 = w + k34;
    lemma_regroup(put_texts(w, es, 3) + " "@, (w + ".write_u64("@ + text(e7) + ");"@), k0);
    lemma_regroup(w + ".write_u64("@ + text(e7), ");"@, k0);
    lemma_regroup(w + ".write_u64("@, text(e7), k1);
    lemma_regroup(text(e6) + " as "@, "u64"@, k1);
    lemma_regroup(text(e6), " as "@, k2);
    lemma_regroup(expr + "."@, "cap"@, k3);
    lemma_regroup(expr, "."@, k4);
    lemma_regroup(w, ".write_u64("@, k6);
    lemma_regroup(put_texts(w, es, 3), " "@, k8);
    lemma_regroup(put_texts(w, es, 2) + " "@, (w + ".write_u64("@ + text(e5) + ");"@), k9);
    lemma_regroup(w + ".write_u64("@ + text(e5), ");"@, k9);
    lemma_regroup(w + ".write_u64("@, text(e5), k10);
    lemma_regroup(text(e4) + " as "@, "u64"@, k10);
    lemma_regroup(text(e4), " as "@, k11);
    lemma_regroup(expr + "."@, "len"@, k12);
    lemma_regroup(expr, "."@, k13);
    lemma_regroup(w, ".write_u64("@, k15);
    lemma_regroup(put_texts(w, es, 2), " "@, k17);
    lemma_regroup(put_texts(w, es, 1) + " "@, (w + ".write_u64("@ + text(e3) + ");"@), k18);
    lemma_regroup(w + ".write_u64("@ + text(e3), ");"@, k18);
    lemma_regroup(w + ".write_u64("@, text(e3), k19);
    lemma_regroup(text(e2) + " as "@, "u64"@, k19);
    lemma_regroup(text(e2), " as "@, k20);
    lemma_regroup(expr + "."@, "ptr"@, k21);
    lemma_regroup(expr, "."@, k22);
    lemma_regroup(w, ".write_u64("@, k24);
    lemma_regroup(put_texts(w, es, 1), " "@, k26);
    lemma_regroup(w + ".write_u64("@ + text(e1), ");"@, k27);
    lemma_regroup(w + ".write_u64("@, text(e1), k28);
    lemma_regroup(text(e0) + " as "@, "u64"@, k28);
    lemma_regroup(text(e0), " as "@, k29);
    lemma_regroup(expr + "."@, "allocator"@, k30);
    lemma_regroup(expr, "."@, k31);
    lemma_regroup(w, ".write_u64("@, k33);
    lemma_regroup(w + ".write_u64("@ + expr + ".allocator as u64); "@ + w + ".write_u64("@ + expr + ".ptr as u64); "@ + w + ".write_u64("@ + expr + ".len as u64); "@ + w + ".write_u64("@ + expr, ".cap as u64);"@, k0);
    lemma_regroup("."@ + "cap"@ + " as "@ + "u64"@, ");"@, k0);
    lemma_regroup("."@ + "cap"@ + " as "@, "u64"@, k1);
    lemma_regroup("."@ + "cap"@, " as "@, k2);
    lemma_regroup("."@, "cap"@, k3);
    lemma_regroup(w + ".write_u64("@ + expr + ".allocator as u64); "@ + w + ".write_u64("@ + expr + ".ptr as u64); "@ + w + ".write_u64("@ + expr + ".len as u64); "@ + w + ".write_u64("@, expr, k5);
    lemma_regroup(w + ".write_u64("@ + expr + ".allocator as u64); "@ + w + ".write_u64("@ + expr + ".ptr as u64); "@ + w + ".write_u64("@ + expr + ".len as u64); "@ + w, ".write_u64("@, k6);
    lemma_regroup(w + ".write_u64("@ + expr + ".allocator as u64); "@ + w + ".write_u64("@ + expr + ".ptr as u64); "@ + w + ".write_u64("@ + expr + ".len as u64); "@, w, k7);
    lemma_regroup(w + ".write_u64("@ + expr + ".allocator as u64); "@ + w + ".write_u64("@ + expr + ".ptr as u64); "@ + w + ".write_u64("@ + expr, ".len as u64); "@, k8);
    lemma_regroup("."@ + "len"@ + " as "@ + "u64"@ + ");"@, " "@, k8);
    lemma_regroup("."@ + "len"@ + " as "@ + "u64"@, ");"@, k9);
    lemma_regroup("."@ + "len"@ + " as "@, "u64"@, k10);
    lemma_regroup("."@ + "len"@, " as "@, k11);
    lemma_regroup("."@, "len"@, k12);
    lemma_regroup(w + ".write_u64("@ + expr + ".allocator as u64); "@ + w + ".write_u64("@ + expr + ".ptr as u64); "@ + w + ".write_u64("@, expr, k14);
    lemma_regroup(w + ".write_u64("@ + expr + ".allocator as u64); "@ + w + ".write_u64("@ + expr + ".ptr as u64); "@ + w, ".write_u64("@, k15);
    lemma_regroup(w + ".write_u64("@ + expr + ".allocator as u64); "@ + w + ".write_u64("@ + expr + ".ptr as u64); "@, w, k16);
    lemma_regroup(w + ".write_u64("@ + expr + ".allocator as u64); "@ + w + ".write_u64("@ + expr, ".ptr as u64); "@, k17);
    lemma_regroup("."@ + "ptr"@ + " as "@ + "u64"@ + ");"@, " "@, k17);
    lemma_regroup("."@ + "ptr"@ + " as "@ + "u64"@, ");"@, k18);
    lemma_regroup("."@ + "ptr"@ + " as "@, "u64"@, k19);
    lemma_regroup("."@ + "ptr"@, " as "@, k20);
    lemma_regroup("."@, "ptr"@, k21);
    lemma_regroup(w + ".write_u64("@ + expr + ".allocator as u64); "@ + w + ".write_u64("@, expr, k23);
    lemma_regroup(w + ".write_u64("@ + expr + ".allocator as u64); "@ + w, ".write_u64("@, k24);
    lemma_regroup(w + ".write_u64("@ + expr + ".allocator as u64); "@, w, k25);
    lemma_regroup(w + ".write_u64("@ + expr, ".allocator as u64); "@, k26);
    lemma_regroup("."@ + "allocator"@ + " as "@ + "u64"@ + ");"@, " "@, k26);
    lemma_regroup("."@ + "allocator"@ + " as "@ + "u64"@, ");"@, k27);
    lemma_regroup("."@ + "allocator"@ + " as "@, "u64"@, k28);
    lemma_regroup("."@ + "allocator"@, " as "@, k29);
    lemma_regroup("."@, "allocator"@, k30);
    lemma_regroup(w + ".write_u64("@, expr, k32);
    lemma_regroup(w, ".write_u64("@, k33);
    lemma_end(put_texts(w, es, 4), w + ".write_u64("@ + expr + ".allocator as u64); "@ + w + ".write_u64("@ + expr + ".ptr as u64); "@ + w + ".write_u64("@ + expr + ".len as u64); "@ + w + ".write_u64("@ + expr + ".cap as u64);"@, k0);
}

#[verifier::spinoff_prover]
#[verifier::rlimit(100)]
pub(crate) proof fn lemma_w_managed(e: Ex, v: Val, w: Seq<char>, env: Map<Seq<char>, Val>, r: Rec, t: Seq<char>)
    requires
        env.contains_key(w),
        env[w] is Writer,
        gives(e, env, v),
        is_managed(v, r, t),
    ensures
        puts(put_all(w, managed_exs(e), 4), env, managed_wire(v)),
{
    fitting_numbers_are_kept((*v->Managed_1)->Ptr_0);
    fitting_numbers_are_kept((*v->Managed_2)->Ptr_0);
    fitting_numbers_are_kept((*v->Managed_3)->Int_2);
    fitting_numbers_are_kept((*v->Managed_4)->Int_2);
    let e0 = Ex::Field(Box::new(e), Fld::Allocator);
    let e1 = Ex::As(Box::new(e0), Cast::Int(false, 64));
    let e2 = Ex::Field(Box::new(e), Fld::Ptr);
    let e3 = Ex::As(Box::new(e2), Cast::Int(false, 64));
    let e4 = Ex::Field(Box::new(e), Fld::Len);
    let e5 = Ex::As(Box::new(e4), Cast::Int(false, 64));
    let e6 = Ex::Field(Box::new(e), Fld::Cap);
    let e7 = Ex::As(Box::new(e6), Cast::Int(false, 64));
    let es = managed_exs(e);
    assert(es[0] == e1);
    assert(es[1] == e3);
    assert(es[2] == e5);
    assert(es[3] == e7);
    let x0 = lemma_gives_on(e0, env, v);
    let x1 = lemma_gives_on(e1, env, x0);
    let x2 = lemma_gives_on(e2, env, v);
    let x3 = lemma_gives_on(e3, env, x2);
    let x4 = lemma_gives_on(e4, env, v);
    let x5 = lemma_gives_on(e5, env, x4);
    let x6 = lemma_gives_on(e6, env, v);
    let x7 = lemma_gives_on(e7, env, x6);
    let ns = seq![(*v->Managed_1)->Ptr_0, (*v->Managed_2)->Ptr_0, (*v->Managed_3)->Int_2, (*v->Managed_4)->Int_2];
    assert forall|i: int| 0 <= i < 4 implies gives(es[i], env, Val::Int(false, 64, #[trigger] ns[i])) by {
        assert(ns.len() == 4);
    }
    lemma_put_all(w, es, ns, 4, env);
    assert(Seq::new(4, |i: int| ns[i] as u64) =~= managed_wire(v));
}

pub(crate) proof fn lemma_w_empty_text(e: Ex, w: Seq<char>)
    ensures
        ({
            let expr = text(e);
            put_texts(w, empty_exs(e), 1) == w + ".write_u64(core::ptr::addr_of!("@ + expr + ") as u64);"@
        }),
{
    let expr = text(e);
    lemma_casts();
    assert(alike(".write_u64(core::ptr::addr_of!("@, ".write_u64("@ + "core::ptr::addr_of!"@ + "("@)) by {
        reveal_strlit(".write_u64(core::ptr::addr_of!(");
        reveal_strlit(".write_u64(");
        reveal_strlit("core::ptr::addr_of!");
        reveal_strlit("(");
        assert(".write_u64(core::ptr::addr_of!("@ =~= ".write_u64("@ + "core::ptr::addr_of!"@ + "("@);
    }
    assert(alike(") as u64);"@, ")"@ + " as "@ + "u64"@ + ");"@)) by {
        reveal_strlit(") as u64);");
        reveal_strlit(")");
        reveal_strlit(" as ");
        reveal_strlit("u64");
        reveal_strlit(");");
        assert(") as u64);"@ =~= ")"@ + " as "@ + "u64"@ + ");"@);
    }
    let es0 = seq![e];
    assert(es0[0] == e);
    let e0 = Ex::Apply(Fun::AddrOf, es0);
    assert(es0.len() == 1);
    lemma_first_text(es0);
    let e1 = Ex::As(Box::new(e0), Cast::Int(false, 64));
    let es = empty_exs(e);
    assert(es[0] == e1);
    let k0 = Seq::<char>::empty();
    let k1 = ");"@ + k0;
    let k2 = "u64"@ + k1;
    let k3 = " as "@ + k2;
    let k4 = ")"@ + k3;
    let k5 = expr + k4;
    let k6 = "("@ + k5;
    let k7 = "core::ptr::addr_of!"@ + k6;
    let k8 = ".write_u64("@ + k7;
    let k9 = w + k8;
    lemma_regroup(w + ".write_u64("@ + text(e1), ");"@, k0);
    lemma_regroup(w + ".write_u64("@, text(e1), k1);
    lemma_regroup(text(e0) + " as "@, "u64"@, k1);
    lemma_regroup(text(e0), " as "@, k2);
    lemma_regroup("core::ptr::addr_of!"@ + "("@ + texts(es0, 1), ")"@, k3);
    lemma_regroup("core::ptr::addr_of!"@ + "("@, texts(es0, 1), k4);
    lemma_regroup("core::ptr::addr_of!"@, "("@, k5);
    lemma_regroup(w, ".write_u64("@, k7);
    lemma_regroup(w + ".write_u64(core::ptr::addr_of!("@ + expr, ") as u64);"@, k0);
    lemma_regroup(")"@ + " as "@ + "u64"@, ");"@, k0);
    lemma_regroup(")"@ + " as "@, "u64"@, k1);
    lemma_regroup(")"@, " as "@, k2);
    lemma_regroup(w + ".write_u64(core::ptr::addr_of!("@, expr, k4);
    lemma_regroup(w, ".write_u64(core::ptr::addr_of!("@, k5);
    lemma_regroup(".write_u64("@ + "core::ptr::addr_of!"@, "("@, k5);
    lemma_regroup(".write_u64("@, "core::ptr::addr_of!"@, k6);
    lemma_end(put_texts(w, es, 1), w + ".write_u64(core::ptr::addr_of!("@ + expr + ") as u64);"@, k0);
}

pub(crate) proof fn lemma_w_empty(e: Ex, v: Val, w: Seq<char>, env: Map<Seq<char>, Val>)
    requires
        env.contains_key(w),
        env[w] is Writer,
        gives(e, env, v),
        v is Nothing,
    ensures
        puts(put_all(w, empty_exs(e), 1), env, seq![slot(v)]),
{
    fitting_numbers_are_kept(1);
    let es0 = seq![e];
    let e0 = Ex::Apply(Fun::AddrOf, es0);
    let e1 = Ex::As(Box::new(e0), Cast::Int(false, 64));
    let es = empty_exs(e);
    assert(es[0] == e1);
    let x0 = lemma_gives_apply(Fun::AddrOf, e, env, v);
    let x1 = lemma_gives_on(e1, env, x0);
    let ns = seq![1];
    assert forall|i: int| 0 <= i < 1 implies gives(es[i], env, Val::Int(false, 64, #[trigger] ns[i])) by {
        assert(ns.len() == 1);
    }
    lemma_put_all(w, es, ns, 1, env);
    assert(Seq::new(1, |i: int| ns[i] as u64) =~= seq![slot(v)]);
}

pub(crate) proof fn lemma_w_struct_text(e: Ex, w: Seq<char>, name: Seq<char>)
    ensures
        ({
            let expr = text(e);
            put_texts(w, struct_exs(e, name), 1) == w + ".write_u64(&"@ + expr + " as *const "@ + name + " as u64);"@
        }),
{
    let expr = text(e);
    lemma_casts();
    assert(alike(".write_u64(&"@, ".write_u64("@ + "&"@)) by {
        reveal_strlit(".write_u64(&");
        reveal_strlit(".write_u64(");
        reveal_strlit("&");
        assert(".write_u64(&"@ =~= ".write_u64("@ + "&"@);
    }
    assert(alike(" as *const "@, " as "@ + "*const "@)) by {
        reveal_strlit(" as *const ");
        reveal_strlit(" as ");
        reveal_strlit("*const ");
        assert(" as *const "@ =~= " as "@ + "*const "@);
    }
    assert(alike(" as u64);"@, " as "@ + "u64"@ + ");"@)) by {
        reveal_strlit(" as u64);");
        reveal_strlit(" as ");
        reveal_strlit("u64");
        reveal_strlit(");");
        assert(" as u64);"@ =~= " as "@ + "u64"@ + ");"@);
    }
    let e0 = Ex::Ref(Box::new(e));
    let e1 = Ex::As(Box::new(e0), Cast::Const(name));
    let e2 = Ex::As(Box::new(e1), Cast::Int(false, 64));
    let es = struct_exs(e, name);
    assert(es[0] == e2);
    let k0 = Seq::<char>::empty();
    let k1 = ");"@ + k0;
    let k2 = "u64"@ + k1;
    let k3 = " as "@ + k2;
    let k4 = name + k3;
    let k5 = "*const "@ + k4;
    let k6 = " as "@ + k5;
    let k7 = expr + k6;
    let k8 = "&"@ + k7;
    let k9 = ".write_u64("@ + k8;
    let k10 = w + k9;
    lemma_regroup(w + ".write_u64("@ + text(e2), ");"@, k0);
    lemma_regroup(w + ".write_u64("@, text(e2), k1);
    lemma_regroup(text(e1) + " as "@, "u64"@, k1);
    lemma_regroup(text(e1), " as "@, k2);
    lemma_regroup(text(e0) + " as "@, ("*const "@ + name), k3);
    lemma_regroup("*const "@, name, k3);
    lemma_regroup(text(e0), " as "@, k5);
    lemma_regroup("&"@, expr, k6);
    lemma_regroup(w, ".write_u64("@, k8);
    lemma_regroup(w + ".write_u64(&"@ + expr + " as *const "@ + name, " as u64);"@, k0);
    lemma_regroup(" as "@ + "u64"@, ");"@, k0);
    lemma_regroup(" as "@, "u64"@, k1);
    lemma_regroup(w + ".write_u64(&"@ + expr + " as *const "@, name, k3);
    lemma_regroup(w + ".write_u64(&"@ + expr, " as *const "@, k4);
    lemma_regroup(" as "@, "*const "@, k4);
    lemma_regroup(w + ".write_u64(&"@, expr, k6);
    lemma_regroup(w, ".write_u64(&"@, k7);
    lemma_regroup(".write_u64("@, "&"@, k7);
    lemma_end(put_texts(w, es, 1), w + ".write_u64(&"@ + expr + " as *const "@ + name + " as u64);"@, k0);
}

pub(crate) proof fn lemma_w_struct(e: Ex, v: Val, w: Seq<char>, env: Map<Seq<char>, Val>, name: Seq<char>)
    requires
        env.contains_key(w),
        env[w] is Writer,
        gives(e, env, v),
        is_object(v, name),
    ensures
        puts(put_all(w, struct_exs(e, name), 1), env, seq![slot(v)]),
{
    fitting_numbers_are_kept(v->Object_0);
    let e0 = Ex::Ref(Box::new(e));
    let e1 = Ex::As(Box::new(e0), Cast::Const(name));
    let e2 = Ex::As(Box::new(e1), Cast::Int(false, 64));
    let es = struct_exs(e, name);
    assert(es[0] == e2);
    let x0 = lemma_gives_on(e0, env, v);
    let x1 = lemma_gives_on(e1, env, x0);
    let x2 = lemma_gives_on(e2, env, x1);
    let ns = seq![v->Object_0];
    assert forall|i: int| 0 <= i < 1 implies gives(es[i], env, Val::Int(false, 64, #[trigger] ns[i])) by {
        assert(ns.len() == 1);
    }
    lemma_put_all(w, es, ns, 1, env);
    assert(Seq::new(1, |i: int| ns[i] as u64) =~= seq![slot(v)]);
}

pub(crate) proof fn lemma_w_chunk_text(e: Ex, w: Seq<char>, start: nat, end: nat)
    ensures
        ({
            let expr = text(e);
            put_texts(w, chunk_exs(e, start, end), 1) == w + ".write_u64(u64::from_le_bytes("@ + expr + "["@ + dec(start) + ".."@ + dec(end) + "].try_into().unwrap()));"@
        }),
{
    let expr = text(e);
    lemma_casts();
    assert(alike(".write_u64(u64::from_le_bytes("@, ".write_u64("@ + "u64::from_le_bytes"@ + "("@)) by {
        reveal_strlit(".write_u64(u64::from_le_bytes(");
        reveal_strlit(".write_u64(");
        reveal_strlit("u64::from_le_bytes");
        reveal_strlit("(");
        assert(".write_u64(u64::from_le_bytes("@ =~= ".write_u64("@ + "u64::from_le_bytes"@ + "("@);
    }
    assert(alike("].try_into().unwrap()));"@, "]"@ + ".try_into()"@ + ".unwrap()"@ + ")"@ + ");"@)) by {
        reveal_strlit("].try_into().unwrap()));");
        reveal_strlit("]");
        reveal_strlit(".try_into()");
        reveal_strlit(".unwrap()");
        reveal_strlit(")");
        reveal_strlit(");");
        assert("].try_into().unwrap()));"@ =~= "]"@ + ".try_into()"@ + ".unwrap()"@ + ")"@ + ");"@);
    }
    let e0 = Ex::Range(Box::new(e), start, end);
    let e1 = Ex::Call(Box::new(e0), Meth::TryInto);
    let e2 = Ex::Call(Box::new(e1), Meth::Unwrap);
    let es3 = seq![e2];
    assert(es3[0] == e2);
    let e3 = Ex::Apply(Fun::FromLeBytes, es3);
    assert(es3.len() == 1);
    lemma_first_text(es3);
    let es = chunk_exs(e, start, end);
    assert(es[0] == e3);
    let k0 = Seq::<char>::empty();
    let k1 = ");"@ + k0;
    let k2 = ")"@ + k1;
    let k3 = ".unwrap()"@ + k2;
    let k4 = ".try_into()"@ + k3;
    let k5 = "]"@ + k4;
    let k6 = dec(end) + k5;
    let k7 = ".."@ + k6;
    let k8 = dec(start) + k7;
    let k9 = "["@ + k8;
    let k10 = expr + k9;
    let k11 = "("@ + k10;
    let k12 = "u64::from_le_bytes"@ + k11;
    let k13 = ".write_u64("@ + k12;
    let k14 = w + k13;
    lemma_regroup(w + ".write_u64("@ + text(e3), ");"@, k0);
    lemma_regroup(w + ".write_u64("@, text(e3), k1);
    lemma_regroup("u64::from_le_bytes"@ + "("@ + texts(es3, 1), ")"@, k1);
    lemma_regroup("u64::from_le_bytes"@ + "("@, texts(es3, 1), k2);
    lemma_regroup(text(e1), ".unwrap()"@, k2);
    lemma_regroup(text(e0), ".try_into()"@, k3);
    lemma_regroup(expr + "["@ + dec(start) + ".."@ + dec(end), "]"@, k4);
    lemma_regroup(expr + "["@ + dec(start) + ".."@, dec(end), k5);
    lemma_regroup(expr + "["@ + dec(start), ".."@, k6);
    lemma_regroup(expr + "["@, dec(start), k7);
    lemma_regroup(expr, "["@, k8);
    lemma_regroup("u64::from_le_bytes"@, "("@, k10);
    lemma_regroup(w, ".write_u64("@, k12);
    lemma_regroup(w + ".write_u64(u64::from_le_bytes("@ + expr + "["@ + dec(start) + ".."@ + dec(end), "].try_into().unwrap()));"@, k0);
    lemma_regroup("]"@ + ".try_into()"@ + ".unwrap()"@ + ")"@, ");"@, k0);
    lemma_regroup("]"@ + ".try_into()"@ + ".unwrap()"@, ")"@, k1);
    lemma_regroup("]"@ + ".try_into()"@, ".unwrap()"@, k2);
    lemma_regroup("]"@, ".try_into()"@, k3);
    lemma_regroup(w + ".write_u64(u64::from_le_bytes("@ + expr + "["@ + dec(start) + ".."@, dec(end), k5);
    lemma_regroup(w + ".write_u64(u64::from_le_bytes("@ + expr + "["@ + dec(start), ".."@, k6);
    lemma_regroup(w + ".write_u64(u64::from_le_bytes("@ + expr + "["@, dec(start), k7);
    lemma_regroup(w + ".write_u64(u64::from_le_bytes("@ + expr, "["@, k8);
    lemma_regroup(w + ".write_u64(u64::from_le_bytes("@, expr, k9);
    lemma_regroup(w, ".write_u64(u64::from_le_bytes("@, k10);
    lemma_regroup(".write_u64("@ + "u64::from_le_bytes"@, "("@, k10);
    lemma_regroup(".write_u64("@, "u64::from_le_bytes"@, k11);
    lemma_end(put_texts(w, es, 1), w + ".write_u64(u64::from_le_bytes("@ + expr + "["@ + dec(start) + ".."@ + dec(end) + "].try_into().unwrap()));"@, k0);
}

pub(crate) proof fn lemma_w_chunk(e: Ex, v: Val, w: Seq<char>, env: Map<Seq<char>, Val>, start: nat, end: nat)
    requires
        env.contains_key(w),
        env[w] is Writer,
        gives(e, env, v),
        v is List,
        end == start + 8,
        end <= v->List_0.len(),
        bytes_of(v->List_0.subrange(start as int, end as int)) is Some,
    ensures
        puts(put_all(w, chunk_exs(e, start, end), 1), env, seq![spec_u64_from_le_bytes(bytes_of(v->List_0.subrange(start as int, end as int))->Some_0)]),
{
    let e0 = Ex::Range(Box::new(e), start, end);
    let e1 = Ex::Call(Box::new(e0), Meth::TryInto);
    let e2 = Ex::Call(Box::new(e1), Meth::Unwrap);
    let es3 = seq![e2];
    let e3 = Ex::Apply(Fun::FromLeBytes, es3);
    let es = chunk_exs(e, start, end);
    assert(es[0] == e3);
    let x0 = lemma_gives_on(e0, env, v);
    let x1 = lemma_gives_on(e1, env, x0);
    let x2 = lemma_gives_on(e2, env, x1);
    let x3 = lemma_gives_apply(Fun::FromLeBytes, e2, env, x2);
    let ns = seq![spec_u64_from_le_bytes(bytes_of(v->List_0.subrange(start as int, end as int))->Some_0) as int];
    assert forall|i: int| 0 <= i < 1 implies gives(es[i], env, Val::Int(false, 64, #[trigger] ns[i])) by {
        assert(ns.len() == 1);
    }
    lemma_put_all(w, es, ns, 1, env);
    assert(Seq::new(1, |i: int| ns[i] as u64) =~= seq![spec_u64_from_le_bytes(bytes_of(v->List_0.subrange(start as int, end as int))->Some_0)]);
}

pub(crate) proof fn lemma_w_bool_text(e: Ex, w: Seq<char>)
    ensures
        ({
            let expr = text(e);
            put_texts(w, bool_exs(e), 1) == w + ".write_u64(if "@ + expr + " { 1 } else { 0 });"@
        }),
{
    let expr = text(e);
    lemma_casts();
    assert(alike(".write_u64(if "@, ".write_u64("@ + "if "@)) by {
        reveal_strlit(".write_u64(if ");
        reveal_strlit(".write_u64(");
        reveal_strlit("if ");
        assert(".write_u64(if "@ =~= ".write_u64("@ + "if "@);
    }
    assert(alike(" { 1 } else { 0 });"@, " { "@ + "1"@ + " } else { "@ + "0"@ + " }"@ + ");"@)) by {
        reveal_strlit(" { 1 } else { 0 });");
        reveal_strlit(" { ");
        reveal_strlit("1");
        reveal_strlit(" } else { ");
        reveal_strlit("0");
        reveal_strlit(" }");
        reveal_strlit(");");
        assert(" { 1 } else { 0 });"@ =~= " { "@ + "1"@ + " } else { "@ + "0"@ + " }"@ + ");"@);
    }
    let e0 = Ex::Num(1);
    let e1 = Ex::Num(0);
    let e2 = Ex::If(Box::new(e), Box::new(e0), Box::new(e1));
    let es = bool_exs(e);
    assert(es[0] == e2);
    let k0 = Seq::<char>::empty();
    let k1 = ");"@ + k0;
    let k2 = " }"@ + k1;
    let k3 = "0"@ + k2;
    let k4 = " } else { "@ + k3;
    let k5 = "1"@ + k4;
    let k6 = " { "@ + k5;
    let k7 = expr + k6;
    let k8 = "if "@ + k7;
    let k9 = ".write_u64("@ + k8;
    let k10 = w + k9;
    lemma_regroup(w + ".write_u64("@ + text(e2), ");"@, k0);
    lemma_regroup(w + ".write_u64("@, text(e2), k1);
    lemma_regroup("if "@ + expr + " { "@ + text(e0) + " } else { "@ + text(e1), " }"@, k1);
    lemma_regroup("if "@ + expr + " { "@ + text(e0) + " } else { "@, text(e1), k2);
    lemma_regroup("if "@ + expr + " { "@ + text(e0), " } else { "@, k3);
    lemma_regroup("if "@ + expr + " { "@, text(e0), k4);
    lemma_regroup("if "@ + expr, " { "@, k5);
    lemma_regroup("if "@, expr, k6);
    lemma_regroup(w, ".write_u64("@, k8);
    lemma_regroup(w + ".write_u64(if "@ + expr, " { 1 } else { 0 });"@, k0);
    lemma_regroup(" { "@ + "1"@ + " } else { "@ + "0"@ + " }"@, ");"@, k0);
    lemma_regroup(" { "@ + "1"@ + " } else { "@ + "0"@, " }"@, k1);
    lemma_regroup(" { "@ + "1"@ + " } else { "@, "0"@, k2);
    lemma_regroup(" { "@ + "1"@, " } else { "@, k3);
    lemma_regroup(" { "@, "1"@, k4);
    lemma_regroup(w + ".write_u64(if "@, expr, k6);
    lemma_regroup(w, ".write_u64(if "@, k7);
    lemma_regroup(".write_u64("@, "if "@, k7);
    lemma_end(put_texts(w, es, 1), w + ".write_u64(if "@ + expr + " { 1 } else { 0 });"@, k0);
}

pub(crate) proof fn lemma_w_bool(e: Ex, v: Val, w: Seq<char>, env: Map<Seq<char>, Val>)
    requires
        env.contains_key(w),
        env[w] is Writer,
        gives(e, env, v),
        v is Bool,
    ensures
        puts(put_all(w, bool_exs(e), 1), env, seq![slot(v)]),
{
    let es = bool_exs(e);
    let b: int = if v->Bool_0 {
        1
    } else {
        0
    };
    assert forall|m: Machine| m.env == env implies #[trigger] eval(es[0], m) == Some(
        (Val::Int(false, 64, b), m),
    ) by {
        assert(eval(e, m) == Some((v, m)));
        assert(eval(Ex::Num(1), m) == Some((Val::Int(false, 64, 1), m)));
        assert(eval(Ex::Num(0), m) == Some((Val::Int(false, 64, 0), m)));
    }
    let ns = seq![b];
    assert forall|i: int| 0 <= i < 1 implies gives(es[i], env, Val::Int(false, 64, #[trigger] ns[i])) by {
        assert(ns[0] == b);
    }
    lemma_put_all(w, es, ns, 1, env);
    assert(Seq::new(1, |i: int| ns[i] as u64) =~= seq![slot(v)]);
}

// ---------------------------------------------------------------------------
// Reading: the text
// ---------------------------------------------------------------------------

pub open spec fn bool_ex(r: Seq<char>) -> Ex {
    Ex::Ne(Box::new(Ex::Call(Box::new(Ex::Name(r)), Meth::ReadU64)), 0)
}

pub(crate) proof fn lemma_g_bool(r: Seq<char>)
    ensures
        text(bool_ex(r)) == r + ".read_u64() != 0"@,
{
    lemma_casts();
    assert(alike(".read_u64() != 0"@, ".read_u64()"@ + " != "@ + "0"@)) by {
        reveal_strlit(".read_u64() != 0");
        reveal_strlit(".read_u64()");
        reveal_strlit(" != ");
        reveal_strlit("0");
        assert(".read_u64() != 0"@ =~= ".read_u64()"@ + " != "@ + "0"@);
    }
    let e0 = Ex::Name(r);
    let e1 = Ex::Call(Box::new(e0), Meth::ReadU64);
    let e2 = Ex::Ne(Box::new(e1), 0);
    let k0 = Seq::<char>::empty();
    let k1 = "0"@ + k0;
    let k2 = " != "@ + k1;
    let k3 = ".read_u64()"@ + k2;
    let k4 = r + k3;
    lemma_regroup(text(e1) + " != "@, "0"@, k0);
    lemma_regroup(text(e1), " != "@, k1);
    lemma_regroup(text(e0), ".read_u64()"@, k2);
    lemma_regroup(r, ".read_u64() != 0"@, k0);
    lemma_regroup(".read_u64()"@ + " != "@, "0"@, k0);
    lemma_regroup(".read_u64()"@, " != "@, k1);
    lemma_end(text(e2), r + ".read_u64() != 0"@, k0);
    assert(e2 == bool_ex(r));
}

pub open spec fn u8_ex(r: Seq<char>) -> Ex {
    Ex::As(Box::new(Ex::Call(Box::new(Ex::Name(r)), Meth::ReadU64)), Cast::Int(false, 8))
}

pub(crate) proof fn lemma_g_u8(r: Seq<char>)
    ensures
        text(u8_ex(r)) == r + ".read_u64() as u8"@,
{
    lemma_casts();
    assert(alike(".read_u64() as u8"@, ".read_u64()"@ + " as "@ + "u8"@)) by {
        reveal_strlit(".read_u64() as u8");
        reveal_strlit(".read_u64()");
        reveal_strlit(" as ");
        reveal_strlit("u8");
        assert(".read_u64() as u8"@ =~= ".read_u64()"@ + " as "@ + "u8"@);
    }
    let e0 = Ex::Name(r);
    let e1 = Ex::Call(Box::new(e0), Meth::ReadU64);
    let e2 = Ex::As(Box::new(e1), Cast::Int(false, 8));
    let k0 = Seq::<char>::empty();
    let k1 = "u8"@ + k0;
    let k2 = " as "@ + k1;
    let k3 = ".read_u64()"@ + k2;
    let k4 = r + k3;
    lemma_regroup(text(e1) + " as "@, "u8"@, k0);
    lemma_regroup(text(e1), " as "@, k1);
    lemma_regroup(text(e0), ".read_u64()"@, k2);
    lemma_regroup(r, ".read_u64() as u8"@, k0);
    lemma_regroup(".read_u64()"@ + " as "@, "u8"@, k0);
    lemma_regroup(".read_u64()"@, " as "@, k1);
    lemma_end(text(e2), r + ".read_u64() as u8"@, k0);
    assert(e2 == u8_ex(r));
}

pub open spec fn u16_ex(r: Seq<char>) -> Ex {
    Ex::As(Box::new(Ex::Call(Box::new(Ex::Name(r)), Meth::ReadU64)), Cast::Int(false, 16))
}

pub(crate) proof fn lemma_g_u16(r: Seq<char>)
    ensures
        text(u16_ex(r)) == r + ".read_u64() as u16"@,
{
    lemma_casts();
    assert(alike(".read_u64() as u16"@, ".read_u64()"@ + " as "@ + "u16"@)) by {
        reveal_strlit(".read_u64() as u16");
        reveal_strlit(".read_u64()");
        reveal_strlit(" as ");
        reveal_strlit("u16");
        assert(".read_u64() as u16"@ =~= ".read_u64()"@ + " as "@ + "u16"@);
    }
    let e0 = Ex::Name(r);
    let e1 = Ex::Call(Box::new(e0), Meth::ReadU64);
    let e2 = Ex::As(Box::new(e1), Cast::Int(false, 16));
    let k0 = Seq::<char>::empty();
    let k1 = "u16"@ + k0;
    let k2 = " as "@ + k1;
    let k3 = ".read_u64()"@ + k2;
    let k4 = r + k3;
    lemma_regroup(text(e1) + " as "@, "u16"@, k0);
    lemma_regroup(text(e1), " as "@, k1);
    lemma_regroup(text(e0), ".read_u64()"@, k2);
    lemma_regroup(r, ".read_u64() as u16"@, k0);
    lemma_regroup(".read_u64()"@ + " as "@, "u16"@, k0);
    lemma_regroup(".read_u64()"@, " as "@, k1);
    lemma_end(text(e2), r + ".read_u64() as u16"@, k0);
    assert(e2 == u16_ex(r));
}

pub open spec fn u32_ex(r: Seq<char>) -> Ex {
    Ex::As(Box::new(Ex::Call(Box::new(Ex::Name(r)), Meth::ReadU64)), Cast::Int(false, 32))
}

pub(crate) proof fn lemma_g_u32(r: Seq<char>)
    ensures
        text(u32_ex(r)) == r + ".read_u64() as u32"@,
{
    lemma_casts();
    assert(alike(".read_u64() as u32"@, ".read_u64()"@ + " as "@ + "u32"@)) by {
        reveal_strlit(".read_u64() as u32");
        reveal_strlit(".read_u64()");
        reveal_strlit(" as ");
        reveal_strlit("u32");
        assert(".read_u64() as u32"@ =~= ".read_u64()"@ + " as "@ + "u32"@);
    }
    let e0 = Ex::Name(r);
    let e1 = Ex::Call(Box::new(e0), Meth::ReadU64);
    let e2 = Ex::As(Box::new(e1), Cast::Int(false, 32));
    let k0 = Seq::<char>::empty();
    let k1 = "u32"@ + k0;
    let k2 = " as "@ + k1;
    let k3 = ".read_u64()"@ + k2;
    let k4 = r + k3;
    lemma_regroup(text(e1) + " as "@, "u32"@, k0);
    lemma_regroup(text(e1), " as "@, k1);
    lemma_regroup(text(e0), ".read_u64()"@, k2);
    lemma_regroup(r, ".read_u64() as u32"@, k0);
    lemma_regroup(".read_u64()"@ + " as "@, "u32"@, k0);
    lemma_regroup(".read_u64()"@, " as "@, k1);
    lemma_end(text(e2), r + ".read_u64() as u32"@, k0);
    assert(e2 == u32_ex(r));
}

pub open spec fn i8_ex(r: Seq<char>) -> Ex {
    Ex::As(Box::new(Ex::Call(Box::new(Ex::Name(r)), Meth::ReadU64)), Cast::Int(true, 8))
}

pub(crate) proof fn lemma_g_i8(r: Seq<char>)
    ensures
        text(i8_ex(r)) == r + ".read_u64() as i8"@,
{
    lemma_casts();
    assert(alike(".read_u64() as i8"@, ".read_u64()"@ + " as "@ + "i8"@)) by {
        reveal_strlit(".read_u64() as i8");
        reveal_strlit(".read_u64()");
        reveal_strlit(" as ");
        reveal_strlit("i8");
        assert(".read_u64() as i8"@ =~= ".read_u64()"@ + " as "@ + "i8"@);
    }
    let e0 = Ex::Name(r);
    let e1 = Ex::Call(Box::new(e0), Meth::ReadU64);
    let e2 = Ex::As(Box::new(e1), Cast::Int(true, 8));
    let k0 = Seq::<char>::empty();
    let k1 = "i8"@ + k0;
    let k2 = " as "@ + k1;
    let k3 = ".read_u64()"@ + k2;
    let k4 = r + k3;
    lemma_regroup(text(e1) + " as "@, "i8"@, k0);
    lemma_regroup(text(e1), " as "@, k1);
    lemma_regroup(text(e0), ".read_u64()"@, k2);
    lemma_regroup(r, ".read_u64() as i8"@, k0);
    lemma_regroup(".read_u64()"@ + " as "@, "i8"@, k0);
    lemma_regroup(".read_u64()"@, " as "@, k1);
    lemma_end(text(e2), r + ".read_u64() as i8"@, k0);
    assert(e2 == i8_ex(r));
}

pub open spec fn i16_ex(r: Seq<char>) -> Ex {
    Ex::As(Box::new(Ex::Call(Box::new(Ex::Name(r)), Meth::ReadU64)), Cast::Int(true, 16))
}

pub(crate) proof fn lemma_g_i16(r: Seq<char>)
    ensures
        text(i16_ex(r)) == r + ".read_u64() as i16"@,
{
    lemma_casts();
    assert(alike(".read_u64() as i16"@, ".read_u64()"@ + " as "@ + "i16"@)) by {
        reveal_strlit(".read_u64() as i16");
        reveal_strlit(".read_u64()");
        reveal_strlit(" as ");
        reveal_strlit("i16");
        assert(".read_u64() as i16"@ =~= ".read_u64()"@ + " as "@ + "i16"@);
    }
    let e0 = Ex::Name(r);
    let e1 = Ex::Call(Box::new(e0), Meth::ReadU64);
    let e2 = Ex::As(Box::new(e1), Cast::Int(true, 16));
    let k0 = Seq::<char>::empty();
    let k1 = "i16"@ + k0;
    let k2 = " as "@ + k1;
    let k3 = ".read_u64()"@ + k2;
    let k4 = r + k3;
    lemma_regroup(text(e1) + " as "@, "i16"@, k0);
    lemma_regroup(text(e1), " as "@, k1);
    lemma_regroup(text(e0), ".read_u64()"@, k2);
    lemma_regroup(r, ".read_u64() as i16"@, k0);
    lemma_regroup(".read_u64()"@ + " as "@, "i16"@, k0);
    lemma_regroup(".read_u64()"@, " as "@, k1);
    lemma_end(text(e2), r + ".read_u64() as i16"@, k0);
    assert(e2 == i16_ex(r));
}

pub open spec fn i32_ex(r: Seq<char>) -> Ex {
    Ex::As(Box::new(Ex::Call(Box::new(Ex::Name(r)), Meth::ReadU64)), Cast::Int(true, 32))
}

pub(crate) proof fn lemma_g_i32(r: Seq<char>)
    ensures
        text(i32_ex(r)) == r + ".read_u64() as i32"@,
{
    lemma_casts();
    assert(alike(".read_u64() as i32"@, ".read_u64()"@ + " as "@ + "i32"@)) by {
        reveal_strlit(".read_u64() as i32");
        reveal_strlit(".read_u64()");
        reveal_strlit(" as ");
        reveal_strlit("i32");
        assert(".read_u64() as i32"@ =~= ".read_u64()"@ + " as "@ + "i32"@);
    }
    let e0 = Ex::Name(r);
    let e1 = Ex::Call(Box::new(e0), Meth::ReadU64);
    let e2 = Ex::As(Box::new(e1), Cast::Int(true, 32));
    let k0 = Seq::<char>::empty();
    let k1 = "i32"@ + k0;
    let k2 = " as "@ + k1;
    let k3 = ".read_u64()"@ + k2;
    let k4 = r + k3;
    lemma_regroup(text(e1) + " as "@, "i32"@, k0);
    lemma_regroup(text(e1), " as "@, k1);
    lemma_regroup(text(e0), ".read_u64()"@, k2);
    lemma_regroup(r, ".read_u64() as i32"@, k0);
    lemma_regroup(".read_u64()"@ + " as "@, "i32"@, k0);
    lemma_regroup(".read_u64()"@, " as "@, k1);
    lemma_end(text(e2), r + ".read_u64() as i32"@, k0);
    assert(e2 == i32_ex(r));
}

pub open spec fn i64_ex(r: Seq<char>) -> Ex {
    Ex::As(Box::new(Ex::Call(Box::new(Ex::Name(r)), Meth::ReadU64)), Cast::Int(true, 64))
}

pub(crate) proof fn lemma_g_i64(r: Seq<char>)
    ensures
        text(i64_ex(r)) == r + ".read_u64() as i64"@,
{
    lemma_casts();
    assert(alike(".read_u64() as i64"@, ".read_u64()"@ + " as "@ + "i64"@)) by {
        reveal_strlit(".read_u64() as i64");
        reveal_strlit(".read_u64()");
        reveal_strlit(" as ");
        reveal_strlit("i64");
        assert(".read_u64() as i64"@ =~= ".read_u64()"@ + " as "@ + "i64"@);
    }
    let e0 = Ex::Name(r);
    let e1 = Ex::Call(Box::new(e0), Meth::ReadU64);
    let e2 = Ex::As(Box::new(e1), Cast::Int(true, 64));
    let k0 = Seq::<char>::empty();
    let k1 = "i64"@ + k0;
    let k2 = " as "@ + k1;
    let k3 = ".read_u64()"@ + k2;
    let k4 = r + k3;
    lemma_regroup(text(e1) + " as "@, "i64"@, k0);
    lemma_regroup(text(e1), " as "@, k1);
    lemma_regroup(text(e0), ".read_u64()"@, k2);
    lemma_regroup(r, ".read_u64() as i64"@, k0);
    lemma_regroup(".read_u64()"@ + " as "@, "i64"@, k0);
    lemma_regroup(".read_u64()"@, " as "@, k1);
    lemma_end(text(e2), r + ".read_u64() as i64"@, k0);
    assert(e2 == i64_ex(r));
}

pub open spec fn u64_ex(r: Seq<char>) -> Ex {
    Ex::Call(Box::new(Ex::Name(r)), Meth::ReadU64)
}

pub(crate) proof fn lemma_g_u64(r: Seq<char>)
    ensures
        text(u64_ex(r)) == r + ".read_u64()"@,
{
    lemma_casts();
    let e0 = Ex::Name(r);
    let e1 = Ex::Call(Box::new(e0), Meth::ReadU64);
    let k0 = Seq::<char>::empty();
    let k1 = ".read_u64()"@ + k0;
    let k2 = r + k1;
    lemma_regroup(text(e0), ".read_u64()"@, k0);
    lemma_regroup(r, ".read_u64()"@, k0);
    lemma_end(text(e1), r + ".read_u64()"@, k0);
    assert(e1 == u64_ex(r));
}

pub open spec fn f32_ex(r: Seq<char>) -> Ex {
    Ex::Apply(Fun::F32FromBits, seq![Ex::As(Box::new(Ex::Call(Box::new(Ex::Name(r)), Meth::ReadU64)), Cast::Int(false, 32))])
}

pub(crate) proof fn lemma_g_f32(r: Seq<char>)
    ensures
        text(f32_ex(r)) == "f32::from_bits("@ + r + ".read_u64() as u32)"@,
{
    lemma_casts();
    assert(alike("f32::from_bits("@, "f32::from_bits"@ + "("@)) by {
        reveal_strlit("f32::from_bits(");
        reveal_strlit("f32::from_bits");
        reveal_strlit("(");
        assert("f32::from_bits("@ =~= "f32::from_bits"@ + "("@);
    }
    assert(alike(".read_u64() as u32)"@, ".read_u64()"@ + " as "@ + "u32"@ + ")"@)) by {
        reveal_strlit(".read_u64() as u32)");
        reveal_strlit(".read_u64()");
        reveal_strlit(" as ");
        reveal_strlit("u32");
        reveal_strlit(")");
        assert(".read_u64() as u32)"@ =~= ".read_u64()"@ + " as "@ + "u32"@ + ")"@);
    }
    let e0 = Ex::Name(r);
    let e1 = Ex::Call(Box::new(e0), Meth::ReadU64);
    let e2 = Ex::As(Box::new(e1), Cast::Int(false, 32));
    let es3 = seq![e2];
    assert(es3[0] == e2);
    let e3 = Ex::Apply(Fun::F32FromBits, es3);
    assert(es3.len() == 1);
    lemma_first_text(es3);
    let k0 = Seq::<char>::empty();
    let k1 = ")"@ + k0;
    let k2 = "u32"@ + k1;
    let k3 = " as "@ + k2;
    let k4 = ".read_u64()"@ + k3;
    let k5 = r + k4;
    let k6 = "("@ + k5;
    let k7 = "f32::from_bits"@ + k6;
    lemma_regroup("f32::from_bits"@ + "("@ + texts(es3, 1), ")"@, k0);
    lemma_regroup("f32::from_bits"@ + "("@, texts(es3, 1), k1);
    lemma_regroup(text(e1) + " as "@, "u32"@, k1);
    lemma_regroup(text(e1), " as "@, k2);
    lemma_regroup(text(e0), ".read_u64()"@, k3);
    lemma_regroup("f32::from_bits"@, "("@, k5);
    lemma_regroup("f32::from_bits("@ + r, ".read_u64() as u32)"@, k0);
    lemma_regroup(".read_u64()"@ + " as "@ + "u32"@, ")"@, k0);
    lemma_regroup(".read_u64()"@ + " as "@, "u32"@, k1);
    lemma_regroup(".read_u64()"@, " as "@, k2);
    lemma_regroup("f32::from_bits("@, r, k4);
    lemma_regroup("f32::from_bits"@, "("@, k5);
    lemma_end(text(e3), "f32::from_bits("@ + r + ".read_u64() as u32)"@, k0);
    assert(e3 == f32_ex(r));
}

pub open spec fn f64_ex(r: Seq<char>) -> Ex {
    Ex::Apply(Fun::F64FromBits, seq![Ex::Call(Box::new(Ex::Name(r)), Meth::ReadU64)])
}

pub(crate) proof fn lemma_g_f64(r: Seq<char>)
    ensures
        text(f64_ex(r)) == "f64::from_bits("@ + r + ".read_u64())"@,
{
    lemma_casts();
    assert(alike("f64::from_bits("@, "f64::from_bits"@ + "("@)) by {
        reveal_strlit("f64::from_bits(");
        reveal_strlit("f64::from_bits");
        reveal_strlit("(");
        assert("f64::from_bits("@ =~= "f64::from_bits"@ + "("@);
    }
    assert(alike(".read_u64())"@, ".read_u64()"@ + ")"@)) by {
        reveal_strlit(".read_u64())");
        reveal_strlit(".read_u64()");
        reveal_strlit(")");
        assert(".read_u64())"@ =~= ".read_u64()"@ + ")"@);
    }
    let e0 = Ex::Name(r);
    let e1 = Ex::Call(Box::new(e0), Meth::ReadU64);
    let es2 = seq![e1];
    assert(es2[0] == e1);
    let e2 = Ex::Apply(Fun::F64FromBits, es2);
    assert(es2.len() == 1);
    lemma_first_text(es2);
    let k0 = Seq::<char>::empty();
    let k1 = ")"@ + k0;
    let k2 = ".read_u64()"@ + k1;
    let k3 = r + k2;
    let k4 = "("@ + k3;
    let k5 = "f64::from_bits"@ + k4;
    lemma_regroup("f64::from_bits"@ + "("@ + texts(es2, 1), ")"@, k0);
    lemma_regroup("f64::from_bits"@ + "("@, texts(es2, 1), k1);
    lemma_regroup(text(e0), ".read_u64()"@, k1);
    lemma_regroup("f64::from_bits"@, "("@, k3);
    lemma_regroup("f64::from_bits("@ + r, ".read_u64())"@, k0);
    lemma_regroup(".read_u64()"@, ")"@, k0);
    lemma_regroup("f64::from_bits("@, r, k2);
    lemma_regroup("f64::from_bits"@, "("@, k3);
    lemma_end(text(e2), "f64::from_bits("@ + r + ".read_u64())"@, k0);
    assert(e2 == f64_ex(r));
}

pub open spec fn str_ex(r: Seq<char>) -> Ex {
    Ex::Block(true, seq![St::Let(false, "__p"@, Ex::As(Box::new(Ex::Call(Box::new(Ex::Name(r)), Meth::ReadU64)), Cast::Const("u8"@))), St::Blank(" "@), St::Let(false, "__l"@, Ex::As(Box::new(Ex::Call(Box::new(Ex::Name(r)), Meth::ReadU64)), Cast::Usize)), St::Blank(" "@)], Box::new(Ex::If(Box::new(Ex::Or(Box::new(Ex::Call(Box::new(Ex::Name("__p"@)), Meth::IsNull)), Box::new(Ex::Eq(Box::new(Ex::Name("__l"@)), 0)))), Box::new(Ex::EmptyText), Box::new(Ex::Apply(Fun::StrUnchecked, seq![Ex::Apply(Fun::RawParts, seq![Ex::Name("__p"@), Ex::Name("__l"@)])])))))
}

#[verifier::spinoff_prover]
#[verifier::rlimit(100)]
pub(crate) proof fn lemma_g_str(r: Seq<char>)
    ensures
        text(str_ex(r)) == "unsafe { let __p = "@ + r + ".read_u64() as *const u8; let __l = "@ + r + ".read_u64() as usize; if __p.is_null() || __l == 0 { \"\" } else { core::str::from_utf8_unchecked(core::slice::from_raw_parts(__p, __l)) } }"@,
{
    lemma_casts();
    assert(alike("unsafe { let __p = "@, "unsafe { "@ + "let "@ + "__p"@ + " = "@)) by {
        reveal_strlit("unsafe { let __p = ");
        reveal_strlit("unsafe { ");
        reveal_strlit("let ");
        reveal_strlit("__p");
        reveal_strlit(" = ");
        assert("unsafe { let __p = "@ =~= "unsafe { "@ + "let "@ + "__p"@ + " = "@);
    }
    assert(alike(".read_u64() as *const u8; let __l = "@, ".read_u64()"@ + " as "@ + "*const "@ + "u8"@ + ";"@ + " "@ + "let "@ + "__l"@ + " = "@)) by {
        reveal_strlit(".read_u64() as *const u8; let __l = ");
        reveal_strlit(".read_u64()");
        reveal_strlit(" as ");
        reveal_strlit("*const ");
        reveal_strlit("u8");
        reveal_strlit(";");
        reveal_strlit(" ");
        reveal_strlit("let ");
        reveal_strlit("__l");
        reveal_strlit(" = ");
        assert(".read_u64() as *const u8; let __l = "@ =~= ".read_u64()"@ + " as "@ + "*const "@ + "u8"@ + ";"@ + " "@ + "let "@ + "__l"@ + " = "@);
    }
    assert(alike(".read_u64() as usize; if __p.is_null() || __l == 0 { \"\" } else { core::str::from_utf8_unchecked(core::slice::from_raw_parts(__p, __l)) } }"@, ".read_u64()"@ + " as "@ + "usize"@ + ";"@ + " "@ + "if "@ + "__p"@ + ".is_null()"@ + " || "@ + "__l"@ + " == "@ + "0"@ + " { "@ + "\"\""@ + " } else { "@ + "core::str::from_utf8_unchecked"@ + "("@ + "core::slice::from_raw_parts"@ + "("@ + "__p"@ + ", "@ + "__l"@ + ")"@ + ")"@ + " }"@ + " }"@)) by {
        reveal_strlit(".read_u64() as usize; if __p.is_null() || __l == 0 { \"\" } else { core::str::from_utf8_unchecked(core::slice::from_raw_parts(__p, __l)) } }");
        reveal_strlit(".read_u64()");
        reveal_strlit(" as ");
        reveal_strlit("usize");
        reveal_strlit(";");
        reveal_strlit(" ");
        reveal_strlit("if ");
        reveal_strlit("__p");
        reveal_strlit(".is_null()");
        reveal_strlit(" || ");
        reveal_strlit("__l");
        reveal_strlit(" == ");
        reveal_strlit("0");
        reveal_strlit(" { ");
        reveal_strlit("\"\"");
        reveal_strlit(" } else { ");
        reveal_strlit("core::str::from_utf8_unchecked");
        reveal_strlit("(");
        reveal_strlit("core::slice::from_raw_parts");
        reveal_strlit(", ");
        reveal_strlit(")");
        reveal_strlit(" }");
        assert(".read_u64() as usize; if __p.is_null() || __l == 0 { \"\" } else { core::str::from_utf8_unchecked(core::slice::from_raw_parts(__p, __l)) } }"@ =~= ".read_u64()"@ + " as "@ + "usize"@ + ";"@ + " "@ + "if "@ + "__p"@ + ".is_null()"@ + " || "@ + "__l"@ + " == "@ + "0"@ + " { "@ + "\"\""@ + " } else { "@ + "core::str::from_utf8_unchecked"@ + "("@ + "core::slice::from_raw_parts"@ + "("@ + "__p"@ + ", "@ + "__l"@ + ")"@ + ")"@ + " }"@ + " }"@);
    }
    let e0 = Ex::Name(r);
    let e1 = Ex::Call(Box::new(e0), Meth::ReadU64);
    let e2 = Ex::As(Box::new(e1), Cast::Const("u8"@));
    let e3 = St::Let(false, "__p"@, e2);
    let e4 = St::Blank(" "@);
    let e5 = Ex::Name(r);
    let e6 = Ex::Call(Box::new(e5), Meth::ReadU64);
    let e7 = Ex::As(Box::new(e6), Cast::Usize);
    let e8 = St::Let(false, "__l"@, e7);
    let e9 = St::Blank(" "@);
    let e10 = Ex::Name("__p"@);
    let e11 = Ex::Call(Box::new(e10), Meth::IsNull);
    let e12 = Ex::Name("__l"@);
    let e13 = Ex::Eq(Box::new(e12), 0);
    let e14 = Ex::Or(Box::new(e11), Box::new(e13));
    let e15 = Ex::EmptyText;
    let e16 = Ex::Name("__p"@);
    let e17 = Ex::Name("__l"@);
    let es18 = seq![e16, e17];
    assert(es18[0] == e16);
    assert(es18[1] == e17);
    let e18 = Ex::Apply(Fun::RawParts, es18);
    assert(es18.len() == 2);
    lemma_first_text(es18);
    let es19 = seq![e18];
    assert(es19[0] == e18);
    let e19 = Ex::Apply(Fun::StrUnchecked, es19);
    assert(es19.len() == 1);
    lemma_first_text(es19);
    let e20 = Ex::If(Box::new(e14), Box::new(e15), Box::new(e19));
    let ss21 = seq![e3, e4, e8, e9];
    assert(ss21[0] == e3);
    assert(ss21[1] == e4);
    assert(ss21[2] == e8);
    assert(ss21[3] == e9);
    assert(ss21.len() == 4);
    lemma_first_line(ss21);
    let e21 = Ex::Block(true, ss21, Box::new(e20));
    let k0 = Seq::<char>::empty();
    let k1 = " }"@ + k0;
    let k2 = " }"@ + k1;
    let k3 = ")"@ + k2;
    let k4 = ")"@ + k3;
    let k5 = "__l"@ + k4;
    let k6 = ", "@ + k5;
    let k7 = "__p"@ + k6;
    let k8 = "("@ + k7;
    let k9 = "core::slice::from_raw_parts"@ + k8;
    let k10 = "("@ + k9;
    let k11 = "core::str::from_utf8_unchecked"@ + k10;
    let k12 = " } else { "@ + k11;
    let k13 = "\"\""@ + k12;
    let k14 = " { "@ + k13;
    let k15 = "0"@ + k14;
    let k16 = " == "@ + k15;
    let k17 = "__l"@ + k16;
    let k18 = " || "@ + k17;
    let k19 = ".is_null()"@ + k18;
    let k20 = "__p"@ + k19;
    let k21 = "if "@ + k20;
    let k22 = " "@ + k21;
    let k23 = ";"@ + k22;
    let k24 = "usize"@ + k23;
    let k25 = " as "@ + k24;
    let k26 = ".read_u64()"@ + k25;
    let k27 = r + k26;
    let k28 = " = "@ + k27;
    let k29 = "__l"@ + k28;
    let k30 = "let "@ + k29;
    let k31 = " "@ + k30;
    let k32 = ";"@ + k31;
    let k33 = "u8"@ + k32;
    let k34 = "*const "@ + k33;
    let k35 = " as "@ + k34;
    let k36 = ".read_u64()"@ + k35;
    let k37 = r + k36;
    let k38 = " = "@ + k37;
    let k39 = "__p"@ + k38;
    let k40 = "let "@ + k39;
    let k41 = "unsafe { "@ + k40;
    lemma_regroup("unsafe { "@ + lines(ss21, 4) + text(e20), " }"@, k0);
    lemma_regroup("unsafe { "@ + lines(ss21, 4), text(e20), k1);
    lemma_regroup("if "@ + text(e14) + " { "@ + text(e15) + " } else { "@ + text(e19), " }"@, k1);
    lemma_regroup("if "@ + text(e14) + " { "@ + text(e15) + " } else { "@, text(e19), k2);
    lemma_regroup("core::str::from_utf8_unchecked"@ + "("@ + texts(es19, 1), ")"@, k2);
    lemma_regroup("core::str::from_utf8_unchecked"@ + "("@, texts(es19, 1), k3);
    lemma_regroup("core::slice::from_raw_parts"@ + "("@ + texts(es18, 2), ")"@, k3);
    lemma_regroup("core::slice::from_raw_parts"@ + "("@, texts(es18, 2), k4);
    lemma_regroup(texts(es18, 1) + ", "@, text(e17), k4);
    lemma_regroup(texts(es18, 1), ", "@, k5);
    lemma_regroup("core::slice::from_raw_parts"@, "("@, k7);
    lemma_regroup("core::str::from_utf8_unchecked"@, "("@, k9);
    lemma_regroup("if "@ + text(e14) + " { "@ + text(e15), " } else { "@, k11);
    lemma_regroup("if "@ + text(e14) + " { "@, text(e15), k12);
    lemma_regroup("if "@ + text(e14), " { "@, k13);
    lemma_regroup("if "@, text(e14), k14);
    lemma_regroup(text(e11) + " || "@, text(e13), k14);
    lemma_regroup(text(e12) + " == "@, "0"@, k14);
    lemma_regroup(text(e12), " == "@, k15);
    lemma_regroup(text(e11), " || "@, k17);
    lemma_regroup(text(e10), ".is_null()"@, k18);
    lemma_regroup("unsafe { "@, lines(ss21, 4), k21);
    lemma_regroup(lines(ss21, 3), line(e9), k21);
    lemma_regroup(lines(ss21, 2), line(e8), k22);
    lemma_regroup("let "@ + "__l"@ + " = "@ + text(e7), ";"@, k22);
    lemma_regroup("let "@ + "__l"@ + " = "@, text(e7), k23);
    lemma_regroup(text(e6) + " as "@, "usize"@, k23);
    lemma_regroup(text(e6), " as "@, k24);
    lemma_regroup(text(e5), ".read_u64()"@, k25);
    lemma_regroup("let "@ + "__l"@, " = "@, k27);
    lemma_regroup("let "@, "__l"@, k28);
    lemma_regroup(lines(ss21, 1), line(e4), k30);
    lemma_regroup("let "@ + "__p"@ + " = "@ + text(e2), ";"@, k31);
    lemma_regroup("let "@ + "__p"@ + " = "@, text(e2), k32);
    lemma_regroup(text(e1) + " as "@, ("*const "@ + "u8"@), k32);
    lemma_regroup("*const "@, "u8"@, k32);
    lemma_regroup(text(e1), " as "@, k34);
    lemma_regroup(text(e0), ".read_u64()"@, k35);
    lemma_regroup("let "@ + "__p"@, " = "@, k37);
    lemma_regroup("let "@, "__p"@, k38);
    lemma_regroup("unsafe { let __p = "@ + r + ".read_u64() as *const u8; let __l = "@ + r, ".read_u64() as usize; if __p.is_null() || __l == 0 { \"\" } else { core::str::from_utf8_unchecked(core::slice::from_raw_parts(__p, __l)) } }"@, k0);
    lemma_regroup(".read_u64()"@ + " as "@ + "usize"@ + ";"@ + " "@ + "if "@ + "__p"@ + ".is_null()"@ + " || "@ + "__l"@ + " == "@ + "0"@ + " { "@ + "\"\""@ + " } else { "@ + "core::str::from_utf8_unchecked"@ + "("@ + "core::slice::from_raw_parts"@ + "("@ + "__p"@ + ", "@ + "__l"@ + ")"@ + ")"@ + " }"@, " }"@, k0);
    lemma_regroup(".read_u64()"@ + " as "@ + "usize"@ + ";"@ + " "@ + "if "@ + "__p"@ + ".is_null()"@ + " || "@ + "__l"@ + " == "@ + "0"@ + " { "@ + "\"\""@ + " } else { "@ + "core::str::from_utf8_unchecked"@ + "("@ + "core::slice::from_raw_parts"@ + "("@ + "__p"@ + ", "@ + "__l"@ + ")"@ + ")"@, " }"@, k1);
    lemma_regroup(".read_u64()"@ + " as "@ + "usize"@ + ";"@ + " "@ + "if "@ + "__p"@ + ".is_null()"@ + " || "@ + "__l"@ + " == "@ + "0"@ + " { "@ + "\"\""@ + " } else { "@ + "core::str::from_utf8_unchecked"@ + "("@ + "core::slice::from_raw_parts"@ + "("@ + "__p"@ + ", "@ + "__l"@ + ")"@, ")"@, k2);
    lemma_regroup(".read_u64()"@ + " as "@ + "usize"@ + ";"@ + " "@ + "if "@ + "__p"@ + ".is_null()"@ + " || "@ + "__l"@ + " == "@ + "0"@ + " { "@ + "\"\""@ + " } else { "@ + "core::str::from_utf8_unchecked"@ + "("@ + "core::slice::from_raw_parts"@ + "("@ + "__p"@ + ", "@ + "__l"@, ")"@, k3);
    lemma_regroup(".read_u64()"@ + " as "@ + "usize"@ + ";"@ + " "@ + "if "@ + "__p"@ + ".is_null()"@ + " || "@ + "__l"@ + " == "@ + "0"@ + " { "@ + "\"\""@ + " } else { "@ + "core::str::from_utf8_unchecked"@ + "("@ + "core::slice::from_raw_parts"@ + "("@ + "__p"@ + ", "@, "__l"@, k4);
    lemma_regroup(".read_u64()"@ + " as "@ + "usize"@ + ";"@ + " "@ + "if "@ + "__p"@ + ".is_null()"@ + " || "@ + "__l"@ + " == "@ + "0"@ + " { "@ + "\"\""@ + " } else { "@ + "core::str::from_utf8_unchecked"@ + "("@ + "core::slice::from_raw_parts"@ + "("@ + "__p"@, ", "@, k5);
    lemma_regroup(".read_u64()"@ + " as "@ + "usize"@ + ";"@ + " "@ + "if "@ + "__p"@ + ".is_null()"@ + " || "@ + "__l"@ + " == "@ + "0"@ + " { "@ + "\"\""@ + " } else { "@ + "core::str::from_utf8_unchecked"@ + "("@ + "core::slice::from_raw_parts"@ + "("@, "__p"@, k6);
    lemma_regroup(".read_u64()"@ + " as "@ + "usize"@ + ";"@ + " "@ + "if "@ + "__p"@ + ".is_null()"@ + " || "@ + "__l"@ + " == "@ + "0"@ + " { "@ + "\"\""@ + " } else { "@ + "core::str::from_utf8_unchecked"@ + "("@ + "core::slice::from_raw_parts"@, "("@, k7);
    lemma_regroup(".read_u64()"@ + " as "@ + "usize"@ + ";"@ + " "@ + "if "@ + "__p"@ + ".is_null()"@ + " || "@ + "__l"@ + " == "@ + "0"@ + " { "@ + "\"\""@ + " } else { "@ + "core::str::from_utf8_unchecked"@ + "("@, "core::slice::from_raw_parts"@, k8);
    lemma_regroup(".read_u64()"@ + " as "@ + "usize"@ + ";"@ + " "@ + "if "@ + "__p"@ + ".is_null()"@ + " || "@ + "__l"@ + " == "@ + "0"@ + " { "@ + "\"\""@ + " } else { "@ + "core::str::from_utf8_unchecked"@, "("@, k9);
    lemma_regroup(".read_u64()"@ + " as "@ + "usize"@ + ";"@ + " "@ + "if "@ + "__p"@ + ".is_null()"@ + " || "@ + "__l"@ + " == "@ + "0"@ + " { "@ + "\"\""@ + " } else { "@, "core::str::from_utf8_unchecked"@, k10);
    lemma_regroup(".read_u64()"@ + " as "@ + "usize"@ + ";"@ + " "@ + "if "@ + "__p"@ + ".is_null()"@ + " || "@ + "__l"@ + " == "@ + "0"@ + " { "@ + "\"\""@, " } else { "@, k11);
    lemma_regroup(".read_u64()"@ + " as "@ + "usize"@ + ";"@ + " "@ + "if "@ + "__p"@ + ".is_null()"@ + " || "@ + "__l"@ + " == "@ + "0"@ + " { "@, "\"\""@, k12);
    lemma_regroup(".read_u64()"@ + " as "@ + "usize"@ + ";"@ + " "@ + "if "@ + "__p"@ + ".is_null()"@ + " || "@ + "__l"@ + " == "@ + "0"@, " { "@, k13);
    lemma_regroup(".read_u64()"@ + " as "@ + "usize"@ + ";"@ + " "@ + "if "@ + "__p"@ + ".is_null()"@ + " || "@ + "__l"@ + " == "@, "0"@, k14);
    lemma_regroup(".read_u64()"@ + " as "@ + "usize"@ + ";"@ + " "@ + "if "@ + "__p"@ + ".is_null()"@ + " || "@ + "__l"@, " == "@, k15);
    lemma_regroup(".read_u64()"@ + " as "@ + "usize"@ + ";"@ + " "@ + "if "@ + "__p"@ + ".is_null()"@ + " || "@, "__l"@, k16);
    lemma_regroup(".read_u64()"@ + " as "@ + "usize"@ + ";"@ + " "@ + "if "@ + "__p"@ + ".is_null()"@, " || "@, k17);
    lemma_regroup(".read_u64()"@ + " as "@ + "usize"@ + ";"@ + " "@ + "if "@ + "__p"@, ".is_null()"@, k18);
    lemma_regroup(".read_u64()"@ + " as "@ + "usize"@ + ";"@ + " "@ + "if "@, "__p"@, k19);
    lemma_regroup(".read_u64()"@ + " as "@ + "usize"@ + ";"@ + " "@, "if "@, k20);
    lemma_regroup(".read_u64()"@ + " as "@ + "usize"@ + ";"@, " "@, k21);
    lemma_regroup(".read_u64()"@ + " as "@ + "usize"@, ";"@, k22);
    lemma_regroup(".read_u64()"@ + " as "@, "usize"@, k23);
    lemma_regroup(".read_u64()"@, " as "@, k24);
    lemma_regroup("unsafe { let __p = "@ + r + ".read_u64() as *const u8; let __l = "@, r, k26);
    lemma_regroup("unsafe { let __p = "@ + r, ".read_u64() as *const u8; let __l = "@, k27);
    lemma_regroup(".read_u64()"@ + " as "@ + "*const "@ + "u8"@ + ";"@ + " "@ + "let "@ + "__l"@, " = "@, k27);
    lemma_regroup(".read_u64()"@ + " as "@ + "*const "@ + "u8"@ + ";"@ + " "@ + "let "@, "__l"@, k28);
    lemma_regroup(".read_u64()"@ + " as "@ + "*const "@ + "u8"@ + ";"@ + " "@, "let "@, k29);
    lemma_regroup(".read_u64()"@ + " as "@ + "*const "@ + "u8"@ + ";"@, " "@, k30);
    lemma_regroup(".read_u64()"@ + " as "@ + "*const "@ + "u8"@, ";"@, k31);
    lemma_regroup(".read_u64()"@ + " as "@ + "*const "@, "u8"@, k32);
    lemma_regroup(".read_u64()"@ + " as "@, "*const "@, k33);
    lemma_regroup(".read_u64()"@, " as "@, k34);
    lemma_regroup("unsafe { let __p = "@, r, k36);
    lemma_regroup("unsafe { "@ + "let "@ + "__p"@, " = "@, k37);
    lemma_regroup("unsafe { "@ + "let "@, "__p"@, k38);
    lemma_regroup("unsafe { "@, "let "@, k39);
    lemma_end(text(e21), "unsafe { let __p = "@ + r + ".read_u64() as *const u8; let __l = "@ + r + ".read_u64() as usize; if __p.is_null() || __l == 0 { \"\" } else { core::str::from_utf8_unchecked(core::slice::from_raw_parts(__p, __l)) } }"@, k0);
    assert(e21 == str_ex(r));
}

pub open spec fn bytes_ex(r: Seq<char>) -> Ex {
    Ex::Block(true, seq![St::Let(false, "__p"@, Ex::As(Box::new(Ex::Call(Box::new(Ex::Name(r)), Meth::ReadU64)), Cast::Const("u8"@))), St::Blank(" "@), St::Let(false, "__l"@, Ex::As(Box::new(Ex::Call(Box::new(Ex::Name(r)), Meth::ReadU64)), Cast::Usize)), St::Blank(" "@)], Box::new(Ex::If(Box::new(Ex::Or(Box::new(Ex::Call(Box::new(Ex::Name("__p"@)), Meth::IsNull)), Box::new(Ex::Eq(Box::new(Ex::Name("__l"@)), 0)))), Box::new(Ex::As(Box::new(Ex::EmptySlice), Cast::Bytes)), Box::new(Ex::Apply(Fun::RawParts, seq![Ex::Name("__p"@), Ex::Name("__l"@)])))))
}

#[verifier::spinoff_prover]
#[verifier::rlimit(100)]
pub(crate) proof fn lemma_g_bytes(r: Seq<char>)
    ensures
        text(bytes_ex(r)) == "unsafe { let __p = "@ + r + ".read_u64() as *const u8; let __l = "@ + r + ".read_u64() as usize; if __p.is_null() || __l == 0 { &[] as &[u8] } else { core::slice::from_raw_parts(__p, __l) } }"@,
{
    lemma_casts();
    assert(alike("unsafe { let __p = "@, "unsafe { "@ + "let "@ + "__p"@ + " = "@)) by {
        reveal_strlit("unsafe { let __p = ");
        reveal_strlit("unsafe { ");
        reveal_strlit("let ");
        reveal_strlit("__p");
        reveal_strlit(" = ");
        assert("unsafe { let __p = "@ =~= "unsafe { "@ + "let "@ + "__p"@ + " = "@);
    }
    assert(alike(".read_u64() as *const u8; let __l = "@, ".read_u64()"@ + " as "@ + "*const "@ + "u8"@ + ";"@ + " "@ + "let "@ + "__l"@ + " = "@)) by {
        reveal_strlit(".read_u64() as *const u8; let __l = ");
        reveal_strlit(".read_u64()");
        reveal_strlit(" as ");
        reveal_strlit("*const ");
        reveal_strlit("u8");
        reveal_strlit(";");
        reveal_strlit(" ");
        reveal_strlit("let ");
        reveal_strlit("__l");
        reveal_strlit(" = ");
        assert(".read_u64() as *const u8; let __l = "@ =~= ".read_u64()"@ + " as "@ + "*const "@ + "u8"@ + ";"@ + " "@ + "let "@ + "__l"@ + " = "@);
    }
    assert(alike(".read_u64() as usize; if __p.is_null() || __l == 0 { &[] as &[u8] } else { core::slice::from_raw_parts(__p, __l) } }"@, ".read_u64()"@ + " as "@ + "usize"@ + ";"@ + " "@ + "if "@ + "__p"@ + ".is_null()"@ + " || "@ + "__l"@ + " == "@ + "0"@ + " { "@ + "&[]"@ + " as "@ + "&[u8]"@ + " } else { "@ + "core::slice::from_raw_parts"@ + "("@ + "__p"@ + ", "@ + "__l"@ + ")"@ + " }"@ + " }"@)) by {
        reveal_strlit(".read_u64() as usize; if __p.is_null() || __l == 0 { &[] as &[u8] } else { core::slice::from_raw_parts(__p, __l) } }");
        reveal_strlit(".read_u64()");
        reveal_strlit(" as ");
        reveal_strlit("usize");
        reveal_strlit(";");
        reveal_strlit(" ");
        reveal_strlit("if ");
        reveal_strlit("__p");
        reveal_strlit(".is_null()");
        reveal_strlit(" || ");
        reveal_strlit("__l");
        reveal_strlit(" == ");
        reveal_strlit("0");
        reveal_strlit(" { ");
        reveal_strlit("&[]");
        reveal_strlit("&[u8]");
        reveal_strlit(" } else { ");
        reveal_strlit("core::slice::from_raw_parts");
        reveal_strlit("(");
        reveal_strlit(", ");
        reveal_strlit(")");
        reveal_strlit(" }");
        assert(".read_u64() as usize; if __p.is_null() || __l == 0 { &[] as &[u8] } else { core::slice::from_raw_parts(__p, __l) } }"@ =~= ".read_u64()"@ + " as "@ + "usize"@ + ";"@ + " "@ + "if "@ + "__p"@ + ".is_null()"@ + " || "@ + "__l"@ + " == "@ + "0"@ + " { "@ + "&[]"@ + " as "@ + "&[u8]"@ + " } else { "@ + "core::slice::from_raw_parts"@ + "("@ + "__p"@ + ", "@ + "__l"@ + ")"@ + " }"@ + " }"@);
    }
    let e0 = Ex::Name(r);
    let e1 = Ex::Call(Box::new(e0), Meth::ReadU64);
    let e2 = Ex::As(Box::new(e1), Cast::Const("u8"@));
    let e3 = St::Let(false, "__p"@, e2);
    let e4 = St::Blank(" "@);
    let e5 = Ex::Name(r);
    let e6 = Ex::Call(Box::new(e5), Meth::ReadU64);
    let e7 = Ex::As(Box::new(e6), Cast::Usize);
    let e8 = St::Let(false, "__l"@, e7);
    let e9 = St::Blank(" "@);
    let e10 = Ex::Name("__p"@);
    let e11 = Ex::Call(Box::new(e10), Meth::IsNull);
    let e12 = Ex::Name("__l"@);
    let e13 = Ex::Eq(Box::new(e12), 0);
    let e14 = Ex::Or(Box::new(e11), Box::new(e13));
    let e15 = Ex::EmptySlice;
    let e16 = Ex::As(Box::new(e15), Cast::Bytes);
    let e17 = Ex::Name("__p"@);
    let e18 = Ex::Name("__l"@);
    let es19 = seq![e17, e18];
    assert(es19[0] == e17);
    assert(es19[1] == e18);
    let e19 = Ex::Apply(Fun::RawParts, es19);
    assert(es19.len() == 2);
    lemma_first_text(es19);
    let e20 = Ex::If(Box::new(e14), Box::new(e16), Box::new(e19));
    let ss21 = seq![e3, e4, e8, e9];
    assert(ss21[0] == e3);
    assert(ss21[1] == e4);
    assert(ss21[2] == e8);
    assert(ss21[3] == e9);
    assert(ss21.len() == 4);
    lemma_first_line(ss21);
    let e21 = Ex::Block(true, ss21, Box::new(e20));
    let k0 = Seq::<char>::empty();
    let k1 = " }"@ + k0;
    let k2 = " }"@ + k1;
    let k3 = ")"@ + k2;
    let k4 = "__l"@ + k3;
    let k5 = ", "@ + k4;
    let k6 = "__p"@ + k5;
    let k7 = "("@ + k6;
    let k8 = "core::slice::from_raw_parts"@ + k7;
    let k9 = " } else { "@ + k8;
    let k10 = "&[u8]"@ + k9;
    let k11 = " as "@ + k10;
    let k12 = "&[]"@ + k11;
    let k13 = " { "@ + k12;
    let k14 = "0"@ + k13;
    let k15 = " == "@ + k14;
    let k16 = "__l"@ + k15;
    let k17 = " || "@ + k16;
    let k18 = ".is_null()"@ + k17;
    let k19 = "__p"@ + k18;
    let k20 = "if "@ + k19;
    let k21 = " "@ + k20;
    let k22 = ";"@ + k21;
    let k23 = "usize"@ + k22;
    let k24 = " as "@ + k23;
    let k25 = ".read_u64()"@ + k24;
    let k26 = r + k25;
    let k27 = " = "@ + k26;
    let k28 = "__l"@ + k27;
    let k29 = "let "@ + k28;
    let k30 = " "@ + k29;
    let k31 = ";"@ + k30;
    let k32 = "u8"@ + k31;
    let k33 = "*const "@ + k32;
    let k34 = " as "@ + k33;
    let k35 = ".read_u64()"@ + k34;
    let k36 = r + k35;
    let k37 = " = "@ + k36;
    let k38 = "__p"@ + k37;
    let k39 = "let "@ + k38;
    let k40 = "unsafe { "@ + k39;
    lemma_regroup("unsafe { "@ + lines(ss21, 4) + text(e20), " }"@, k0);
    lemma_regroup("unsafe { "@ + lines(ss21, 4), text(e20), k1);
    lemma_regroup("if "@ + text(e14) + " { "@ + text(e16) + " } else { "@ + text(e19), " }"@, k1);
    lemma_regroup("if "@ + text(e14) + " { "@ + text(e16) + " } else { "@, text(e19), k2);
    lemma_regroup("core::slice::from_raw_parts"@ + "("@ + texts(es19, 2), ")"@, k2);
    lemma_regroup("core::slice::from_raw_parts"@ + "("@, texts(es19, 2), k3);
    lemma_regroup(texts(es19, 1) + ", "@, text(e18), k3);
    lemma_regroup(texts(es19, 1), ", "@, k4);
    lemma_regroup("core::slice::from_raw_parts"@, "("@, k6);
    lemma_regroup("if "@ + text(e14) + " { "@ + text(e16), " } else { "@, k8);
    lemma_regroup("if "@ + text(e14) + " { "@, text(e16), k9);
    lemma_regroup(text(e15) + " as "@, "&[u8]"@, k9);
    lemma_regroup(text(e15), " as "@, k10);
    lemma_regroup("if "@ + text(e14), " { "@, k12);
    lemma_regroup("if "@, text(e14), k13);
    lemma_regroup(text(e11) + " || "@, text(e13), k13);
    lemma_regroup(text(e12) + " == "@, "0"@, k13);
    lemma_regroup(text(e12), " == "@, k14);
    lemma_regroup(text(e11), " || "@, k16);
    lemma_regroup(text(e10), ".is_null()"@, k17);
    lemma_regroup("unsafe { "@, lines(ss21, 4), k20);
    lemma_regroup(lines(ss21, 3), line(e9), k20);
    lemma_regroup(lines(ss21, 2), line(e8), k21);
    lemma_regroup("let "@ + "__l"@ + " = "@ + text(e7), ";"@, k21);
    lemma_regroup("let "@ + "__l"@ + " = "@, text(e7), k22);
    lemma_regroup(text(e6) + " as "@, "usize"@, k22);
    lemma_regroup(text(e6), " as "@, k23);
    lemma_regroup(text(e5), ".read_u64()"@, k24);
    lemma_regroup("let "@ + "__l"@, " = "@, k26);
    lemma_regroup("let "@, "__l"@, k27);
    lemma_regroup(lines(ss21, 1), line(e4), k29);
    lemma_regroup("let "@ + "__p"@ + " = "@ + text(e2), ";"@, k30);
    lemma_regroup("let "@ + "__p"@ + " = "@, text(e2), k31);
    lemma_regroup(text(e1) + " as "@, ("*const "@ + "u8"@), k31);
    lemma_regroup("*const "@, "u8"@, k31);
    lemma_regroup(text(e1), " as "@, k33);
    lemma_regroup(text(e0), ".read_u64()"@, k34);
    lemma_regroup("let "@ + "__p"@, " = "@, k36);
    lemma_regroup("let "@, "__p"@, k37);
    lemma_regroup("unsafe { let __p = "@ + r + ".read_u64() as *const u8; let __l = "@ + r, ".read_u64() as usize; if __p.is_null() || __l == 0 { &[] as &[u8] } else { core::slice::from_raw_parts(__p, __l) } }"@, k0);
    lemma_regroup(".read_u64()"@ + " as "@ + "usize"@ + ";"@ + " "@ + "if "@ + "__p"@ + ".is_null()"@ + " || "@ + "__l"@ + " == "@ + "0"@ + " { "@ + "&[]"@ + " as "@ + "&[u8]"@ + " } else { "@ + "core::slice::from_raw_parts"@ + "("@ + "__p"@ + ", "@ + "__l"@ + ")"@ + " }"@, " }"@, k0);
    lemma_regroup(".read_u64()"@ + " as "@ + "usize"@ + ";"@ + " "@ + "if "@ + "__p"@ + ".is_null()"@ + " || "@ + "__l"@ + " == "@ + "0"@ + " { "@ + "&[]"@ + " as "@ + "&[u8]"@ + " } else { "@ + "core::slice::from_raw_parts"@ + "("@ + "__p"@ + ", "@ + "__l"@ + ")"@, " }"@, k1);
    lemma_regroup(".read_u64()"@ + " as "@ + "usize"@ + ";"@ + " "@ + "if "@ + "__p"@ + ".is_null()"@ + " || "@ + "__l"@ + " == "@ + "0"@ + " { "@ + "&[]"@ + " as "@ + "&[u8]"@ + " } else { "@ + "core::slice::from_raw_parts"@ + "("@ + "__p"@ + ", "@ + "__l"@, ")"@, k2);
    lemma_regroup(".read_u64()"@ + " as "@ + "usize"@ + ";"@ + " "@ + "if "@ + "__p"@ + ".is_null()"@ + " || "@ + "__l"@ + " == "@ + "0"@ + " { "@ + "&[]"@ + " as "@ + "&[u8]"@ + " } else { "@ + "core::slice::from_raw_parts"@ + "("@ + "__p"@ + ", "@, "__l"@, k3);
    lemma_regroup(".read_u64()"@ + " as "@ + "usize"@ + ";"@ + " "@ + "if "@ + "__p"@ + ".is_null()"@ + " || "@ + "__l"@ + " == "@ + "0"@ + " { "@ + "&[]"@ + " as "@ + "&[u8]"@ + " } else { "@ + "core::slice::from_raw_parts"@ + "("@ + "__p"@, ", "@, k4);
    lemma_regroup(".read_u64()"@ + " as "@ + "usize"@ + ";"@ + " "@ + "if "@ + "__p"@ + ".is_null()"@ + " || "@ + "__l"@ + " == "@ + "0"@ + " { "@ + "&[]"@ + " as "@ + "&[u8]"@ + " } else { "@ + "core::slice::from_raw_parts"@ + "("@, "__p"@, k5);
    lemma_regroup(".read_u64()"@ + " as "@ + "usize"@ + ";"@ + " "@ + "if "@ + "__p"@ + ".is_null()"@ + " || "@ + "__l"@ + " == "@ + "0"@ + " { "@ + "&[]"@ + " as "@ + "&[u8]"@ + " } else { "@ + "core::slice::from_raw_parts"@, "("@, k6);
    lemma_regroup(".read_u64()"@ + " as "@ + "usize"@ + ";"@ + " "@ + "if "@ + "__p"@ + ".is_null()"@ + " || "@ + "__l"@ + " == "@ + "0"@ + " { "@ + "&[]"@ + " as "@ + "&[u8]"@ + " } else { "@, "core::slice::from_raw_parts"@, k7);
    lemma_regroup(".read_u64()"@ + " as "@ + "usize"@ + ";"@ + " "@ + "if "@ + "__p"@ + ".is_null()"@ + " || "@ + "__l"@ + " == "@ + "0"@ + " { "@ + "&[]"@ + " as "@ + "&[u8]"@, " } else { "@, k8);
    lemma_regroup(".read_u64()"@ + " as "@ + "usize"@ + ";"@ + " "@ + "if "@ + "__p"@ + ".is_null()"@ + " || "@ + "__l"@ + " == "@ + "0"@ + " { "@ + "&[]"@ + " as "@, "&[u8]"@, k9);
    lemma_regroup(".read_u64()"@ + " as "@ + "usize"@ + ";"@ + " "@ + "if "@ + "__p"@ + ".is_null()"@ + " || "@ + "__l"@ + " == "@ + "0"@ + " { "@ + "&[]"@, " as "@, k10);
    lemma_regroup(".read_u64()"@ + " as "@ + "usize"@ + ";"@ + " "@ + "if "@ + "__p"@ + ".is_null()"@ + " || "@ + "__l"@ + " == "@ + "0"@ + " { "@, "&[]"@, k11);
    lemma_regroup(".read_u64()"@ + " as "@ + "usize"@ + ";"@ + " "@ + "if "@ + "__p"@ + ".is_null()"@ + " || "@ + "__l"@ + " == "@ + "0"@, " { "@, k12);
    lemma_regroup(".read_u64()"@ + " as "@ + "usize"@ + ";"@ + " "@ + "if "@ + "__p"@ + ".is_null()"@ + " || "@ + "__l"@ + " == "@, "0"@, k13);
    lemma_regroup(".read_u64()"@ + " as "@ + "usize"@ + ";"@ + " "@ + "if "@ + "__p"@ + ".is_null()"@ + " || "@ + "__l"@, " == "@, k14);
    lemma_regroup(".read_u64()"@ + " as "@ + "usize"@ + ";"@ + " "@ + "if "@ + "__p"@ + ".is_null()"@ + " || "@, "__l"@, k15);
    lemma_regroup(".read_u64()"@ + " as "@ + "usize"@ + ";"@ + " "@ + "if "@ + "__p"@ + ".is_null()"@, " || "@, k16);
    lemma_regroup(".read_u64()"@ + " as "@ + "usize"@ + ";"@ + " "@ + "if "@ + "__p"@, ".is_null()"@, k17);
    lemma_regroup(".read_u64()"@ + " as "@ + "usize"@ + ";"@ + " "@ + "if "@, "__p"@, k18);
    lemma_regroup(".read_u64()"@ + " as "@ + "usize"@ + ";"@ + " "@, "if "@, k19);
    lemma_regroup(".read_u64()"@ + " as "@ + "usize"@ + ";"@, " "@, k20);
    lemma_regroup(".read_u64()"@ + " as "@ + "usize"@, ";"@, k21);
    lemma_regroup(".read_u64()"@ + " as "@, "usize"@, k22);
    lemma_regroup(".read_u64()"@, " as "@, k23);
    lemma_regroup("unsafe { let __p = "@ + r + ".read_u64() as *const u8; let __l = "@, r, k25);
    lemma_regroup("unsafe { let __p = "@ + r, ".read_u64() as *const u8; let __l = "@, k26);
    lemma_regroup(".read_u64()"@ + " as "@ + "*const "@ + "u8"@ + ";"@ + " "@ + "let "@ + "__l"@, " = "@, k26);
    lemma_regroup(".read_u64()"@ + " as "@ + "*const "@ + "u8"@ + ";"@ + " "@ + "let "@, "__l"@, k27);
    lemma_regroup(".read_u64()"@ + " as "@ + "*const "@ + "u8"@ + ";"@ + " "@, "let "@, k28);
    lemma_regroup(".read_u64()"@ + " as "@ + "*const "@ + "u8"@ + ";"@, " "@, k29);
    lemma_regroup(".read_u64()"@ + " as "@ + "*const "@ + "u8"@, ";"@, k30);
    lemma_regroup(".read_u64()"@ + " as "@ + "*const "@, "u8"@, k31);
    lemma_regroup(".read_u64()"@ + " as "@, "*const "@, k32);
    lemma_regroup(".read_u64()"@, " as "@, k33);
    lemma_regroup("unsafe { let __p = "@, r, k35);
    lemma_regroup("unsafe { "@ + "let "@ + "__p"@, " = "@, k36);
    lemma_regroup("unsafe { "@ + "let "@, "__p"@, k37);
    lemma_regroup("unsafe { "@, "let "@, k38);
    lemma_end(text(e21), "unsafe { let __p = "@ + r + ".read_u64() as *const u8; let __l = "@ + r + ".read_u64() as usize; if __p.is_null() || __l == 0 { &[] as &[u8] } else { core::slice::from_raw_parts(__p, __l) } }"@, k0);
    assert(e21 == bytes_ex(r));
}

pub open spec fn string_ex(r: Seq<char>) -> Ex {
    Ex::Block(true, seq![St::Let(false, "__p"@, Ex::As(Box::new(Ex::Call(Box::new(Ex::Name(r)), Meth::ReadU64)), Cast::Const("u8"@))), St::Blank(" "@), St::Let(false, "__l"@, Ex::As(Box::new(Ex::Call(Box::new(Ex::Name(r)), Meth::ReadU64)), Cast::Usize)), St::Blank(" "@)], Box::new(Ex::If(Box::new(Ex::Or(Box::new(Ex::Call(Box::new(Ex::Name("__p"@)), Meth::IsNull)), Box::new(Ex::Eq(Box::new(Ex::Name("__l"@)), 0)))), Box::new(Ex::Apply(Fun::StringNew, Seq::empty())), Box::new(Ex::Apply(Fun::StringUnchecked, seq![Ex::Call(Box::new(Ex::Apply(Fun::RawParts, seq![Ex::Name("__p"@), Ex::Name("__l"@)])), Meth::ToVec)])))))
}

#[verifier::spinoff_prover]
#[verifier::rlimit(100)]
pub(crate) proof fn lemma_g_string(r: Seq<char>)
    ensures
        text(string_ex(r)) == "unsafe { let __p = "@ + r + ".read_u64() as *const u8; let __l = "@ + r + ".read_u64() as usize; if __p.is_null() || __l == 0 { String::new() } else { String::from_utf8_unchecked(core::slice::from_raw_parts(__p, __l).to_vec()) } }"@,
{
    lemma_casts();
    assert(alike("unsafe { let __p = "@, "unsafe { "@ + "let "@ + "__p"@ + " = "@)) by {
        reveal_strlit("unsafe { let __p = ");
        reveal_strlit("unsafe { ");
        reveal_strlit("let ");
        reveal_strlit("__p");
        reveal_strlit(" = ");
        assert("unsafe { let __p = "@ =~= "unsafe { "@ + "let "@ + "__p"@ + " = "@);
    }
    assert(alike(".read_u64() as *const u8; let __l = "@, ".read_u64()"@ + " as "@ + "*const "@ + "u8"@ + ";"@ + " "@ + "let "@ + "__l"@ + " = "@)) by {
        reveal_strlit(".read_u64() as *const u8; let __l = ");
        reveal_strlit(".read_u64()");
        reveal_strlit(" as ");
        reveal_strlit("*const ");
        reveal_strlit("u8");
        reveal_strlit(";");
        reveal_strlit(" ");
        reveal_strlit("let ");
        reveal_strlit("__l");
        reveal_strlit(" = ");
        assert(".read_u64() as *const u8; let __l = "@ =~= ".read_u64()"@ + " as "@ + "*const "@ + "u8"@ + ";"@ + " "@ + "let "@ + "__l"@ + " = "@);
    }
    assert(alike(".read_u64() as usize; if __p.is_null() || __l == 0 { String::new() } else { String::from_utf8_unchecked(core::slice::from_raw_parts(__p, __l).to_vec()) } }"@, ".read_u64()"@ + " as "@ + "usize"@ + ";"@ + " "@ + "if "@ + "__p"@ + ".is_null()"@ + " || "@ + "__l"@ + " == "@ + "0"@ + " { "@ + "String::new"@ + "("@ + ")"@ + " } else { "@ + "String::from_utf8_unchecked"@ + "("@ + "core::slice::from_raw_parts"@ + "("@ + "__p"@ + ", "@ + "__l"@ + ")"@ + ".to_vec()"@ + ")"@ + " }"@ + " }"@)) by {
        reveal_strlit(".read_u64() as usize; if __p.is_null() || __l == 0 { String::new() } else { String::from_utf8_unchecked(core::slice::from_raw_parts(__p, __l).to_vec()) } }");
        reveal_strlit(".read_u64()");
        reveal_strlit(" as ");
        reveal_strlit("usize");
        reveal_strlit(";");
        reveal_strlit(" ");
        reveal_strlit("if ");
        reveal_strlit("__p");
        reveal_strlit(".is_null()");
        reveal_strlit(" || ");
        reveal_strlit("__l");
        reveal_strlit(" == ");
        reveal_strlit("0");
        reveal_strlit(" { ");
        reveal_strlit("String::new");
        reveal_strlit("(");
        reveal_strlit(")");
        reveal_strlit(" } else { ");
        reveal_strlit("String::from_utf8_unchecked");
        reveal_strlit("core::slice::from_raw_parts");
        reveal_strlit(", ");
        reveal_strlit(".to_vec()");
        reveal_strlit(" }");
        assert(".read_u64() as usize; if __p.is_null() || __l == 0 { String::new() } else { String::from_utf8_unchecked(core::slice::from_raw_parts(__p, __l).to_vec()) } }"@ =~= ".read_u64()"@ + " as "@ + "usize"@ + ";"@ + " "@ + "if "@ + "__p"@ + ".is_null()"@ + " || "@ + "__l"@ + " == "@ + "0"@ + " { "@ + "String::new"@ + "("@ + ")"@ + " } else { "@ + "String::from_utf8_unchecked"@ + "("@ + "core::slice::from_raw_parts"@ + "("@ + "__p"@ + ", "@ + "__l"@ + ")"@ + ".to_vec()"@ + ")"@ + " }"@ + " }"@);
    }
    let e0 = Ex::Name(r);
    let e1 = Ex::Call(Box::new(e0), Meth::ReadU64);
    let e2 = Ex::As(Box::new(e1), Cast::Const("u8"@));
    let e3 = St::Let(false, "__p"@, e2);
    let e4 = St::Blank(" "@);
    let e5 = Ex::Name(r);
    let e6 = Ex::Call(Box::new(e5), Meth::ReadU64);
    let e7 = Ex::As(Box::new(e6), Cast::Usize);
    let e8 = St::Let(false, "__l"@, e7);
    let e9 = St::Blank(" "@);
    let e10 = Ex::Name("__p"@);
    let e11 = Ex::Call(Box::new(e10), Meth::IsNull);
    let e12 = Ex::Name("__l"@);
    let e13 = Ex::Eq(Box::new(e12), 0);
    let e14 = Ex::Or(Box::new(e11), Box::new(e13));
    let e15 = Ex::Apply(Fun::StringNew, Seq::empty());
    let e16 = Ex::Name("__p"@);
    let e17 = Ex::Name("__l"@);
    let es18 = seq![e16, e17];
    assert(es18[0] == e16);
    assert(es18[1] == e17);
    let e18 = Ex::Apply(Fun::RawParts, es18);
    assert(es18.len() == 2);
    lemma_first_text(es18);
    let e19 = Ex::Call(Box::new(e18), Meth::ToVec);
    let es20 = seq![e19];
    assert(es20[0] == e19);
    let e20 = Ex::Apply(Fun::StringUnchecked, es20);
    assert(es20.len() == 1);
    lemma_first_text(es20);
    let e21 = Ex::If(Box::new(e14), Box::new(e15), Box::new(e20));
    let ss22 = seq![e3, e4, e8, e9];
    assert(ss22[0] == e3);
    assert(ss22[1] == e4);
    assert(ss22[2] == e8);
    assert(ss22[3] == e9);
    assert(ss22.len() == 4);
    lemma_first_line(ss22);
    let e22 = Ex::Block(true, ss22, Box::new(e21));
    let k0 = Seq::<char>::empty();
    let k1 = " }"@ + k0;
    let k2 = " }"@ + k1;
    let k3 = ")"@ + k2;
    let k4 = ".to_vec()"@ + k3;
    let k5 = ")"@ + k4;
    let k6 = "__l"@ + k5;
    let k7 = ", "@ + k6;
    let k8 = "__p"@ + k7;
    let k9 = "("@ + k8;
    let k10 = "core::slice::from_raw_parts"@ + k9;
    let k11 = "("@ + k10;
    let k12 = "String::from_utf8_unchecked"@ + k11;
    let k13 = " } else { "@ + k12;
    let k14 = ")"@ + k13;
    let k15 = "("@ + k14;
    let k16 = "String::new"@ + k15;
    let k17 = " { "@ + k16;
    let k18 = "0"@ + k17;
    let k19 = " == "@ + k18;
    let k20 = "__l"@ + k19;
    let k21 = " || "@ + k20;
    let k22 = ".is_null()"@ + k21;
    let k23 = "__p"@ + k22;
    let k24 = "if "@ + k23;
    let k25 = " "@ + k24;
    let k26 = ";"@ + k25;
    let k27 = "usize"@ + k26;
    let k28 = " as "@ + k27;
    let k29 = ".read_u64()"@ + k28;
    let k30 = r + k29;
    let k31 = " = "@ + k30;
    let k32 = "__l"@ + k31;
    let k33 = "let "@ + k32;
    let k34 = " "@ + k33;
    let k35 = ";"@ + k34;
    let k36 = "u8"@ + k35;
    let k37 = "*const "@ + k36;
    let k38 = " as "@ + k37;
    let k39 = ".read_u64()"@ + k38;
    let k40 = r + k39;
    let k41 = " = "@ + k40;
    let k42 = "__p"@ + k41;
    let k43 = "let "@ + k42;
    let k44 = "unsafe { "@ + k43;
    lemma_regroup("unsafe { "@ + lines(ss22, 4) + text(e21), " }"@, k0);
    lemma_regroup("unsafe { "@ + lines(ss22, 4), text(e21), k1);
    lemma_regroup("if "@ + text(e14) + " { "@ + text(e15) + " } else { "@ + text(e20), " }"@, k1);
    lemma_regroup("if "@ + text(e14) + " { "@ + text(e15) + " } else { "@, text(e20), k2);
    lemma_regroup("String::from_utf8_unchecked"@ + "("@ + texts(es20, 1), ")"@, k2);
    lemma_regroup("String::from_utf8_unchecked"@ + "("@, texts(es20, 1), k3);
    lemma_regroup(text(e18), ".to_vec()"@, k3);
    lemma_regroup("core::slice::from_raw_parts"@ + "("@ + texts(es18, 2), ")"@, k4);
    lemma_regroup("core::slice::from_raw_parts"@ + "("@, texts(es18, 2), k5);
    lemma_regroup(texts(es18, 1) + ", "@, text(e17), k5);
    lemma_regroup(texts(es18, 1), ", "@, k6);
    lemma_regroup("core::slice::from_raw_parts"@, "("@, k8);
    lemma_regroup("String::from_utf8_unchecked"@, "("@, k10);
    lemma_regroup("if "@ + text(e14) + " { "@ + text(e15), " } else { "@, k12);
    lemma_regroup("if "@ + text(e14) + " { "@, text(e15), k13);
    lemma_regroup("String::new"@ + "("@ + texts(Seq::empty(), 0), ")"@, k13);
    lemma_regroup("String::new"@ + "("@, texts(Seq::empty(), 0), k14);
    lemma_nothing(k14);
    lemma_regroup("String::new"@, "("@, k14);
    lemma_regroup("if "@ + text(e14), " { "@, k16);
    lemma_regroup("if "@, text(e14), k17);
    lemma_regroup(text(e11) + " || "@, text(e13), k17);
    lemma_regroup(text(e12) + " == "@, "0"@, k17);
    lemma_regroup(text(e12), " == "@, k18);
    lemma_regroup(text(e11), " || "@, k20);
    lemma_regroup(text(e10), ".is_null()"@, k21);
    lemma_regroup("unsafe { "@, lines(ss22, 4), k24);
    lemma_regroup(lines(ss22, 3), line(e9), k24);
    lemma_regroup(lines(ss22, 2), line(e8), k25);
    lemma_regroup("let "@ + "__l"@ + " = "@ + text(e7), ";"@, k25);
    lemma_regroup("let "@ + "__l"@ + " = "@, text(e7), k26);
    lemma_regroup(text(e6) + " as "@, "usize"@, k26);
    lemma_regroup(text(e6), " as "@, k27);
    lemma_regroup(text(e5), ".read_u64()"@, k28);
    lemma_regroup("let "@ + "__l"@, " = "@, k30);
    lemma_regroup("let "@, "__l"@, k31);
    lemma_regroup(lines(ss22, 1), line(e4), k33);
    lemma_regroup("let "@ + "__p"@ + " = "@ + text(e2), ";"@, k34);
    lemma_regroup("let "@ + "__p"@ + " = "@, text(e2), k35);
    lemma_regroup(text(e1) + " as "@, ("*const "@ + "u8"@), k35);
    lemma_regroup("*const "@, "u8"@, k35);
    lemma_regroup(text(e1), " as "@, k37);
    lemma_regroup(text(e0), ".read_u64()"@, k38);
    lemma_regroup("let "@ + "__p"@, " = "@, k40);
    lemma_regroup("let "@, "__p"@, k41);
    lemma_regroup("unsafe { let __p = "@ + r + ".read_u64() as *const u8; let __l = "@ + r, ".read_u64() as usize; if __p.is_null() || __l == 0 { String::new() } else { String::from_utf8_unchecked(core::slice::from_raw_parts(__p, __l).to_vec()) } }"@, k0);
    lemma_regroup(".read_u64()"@ + " as "@ + "usize"@ + ";"@ + " "@ + "if "@ + "__p"@ + ".is_null()"@ + " || "@ + "__l"@ + " == "@ + "0"@ + " { "@ + "String::new"@ + "("@ + ")"@ + " } else { "@ + "String::from_utf8_unchecked"@ + "("@ + "core::slice::from_raw_parts"@ + "("@ + "__p"@ + ", "@ + "__l"@ + ")"@ + ".to_vec()"@ + ")"@ + " }"@, " }"@, k0);
    lemma_regroup(".read_u64()"@ + " as "@ + "usize"@ + ";"@ + " "@ + "if "@ + "__p"@ + ".is_null()"@ + " || "@ + "__l"@ + " == "@ + "0"@ + " { "@ + "String::new"@ + "("@ + ")"@ + " } else { "@ + "String::from_utf8_unchecked"@ + "("@ + "core::slice::from_raw_parts"@ + "("@ + "__p"@ + ", "@ + "__l"@ + ")"@ + ".to_vec()"@ + ")"@, " }"@, k1);
    lemma_regroup(".read_u64()"@ + " as "@ + "usize"@ + ";"@ + " "@ + "if "@ + "__p"@ + ".is_null()"@ + " || "@ + "__l"@ + " == "@ + "0"@ + " { "@ + "String::new"@ + "("@ + ")"@ + " } else { "@ + "String::from_utf8_unchecked"@ + "("@ + "core::slice::from_raw_parts"@ + "("@ + "__p"@ + ", "@ + "__l"@ + ")"@ + ".to_vec()"@, ")"@, k2);
    lemma_regroup(".read_u64()"@ + " as "@ + "usize"@ + ";"@ + " "@ + "if "@ + "__p"@ + ".is_null()"@ + " || "@ + "__l"@ + " == "@ + "0"@ + " { "@ + "String::new"@ + "("@ + ")"@ + " } else { "@ + "String::from_utf8_unchecked"@ + "("@ + "core::slice::from_raw_parts"@ + "("@ + "__p"@ + ", "@ + "__l"@ + ")"@, ".to_vec()"@, k3);
    lemma_regroup(".read_u64()"@ + " as "@ + "usize"@ + ";"@ + " "@ + "if "@ + "__p"@ + ".is_null()"@ + " || "@ + "__l"@ + " == "@ + "0"@ + " { "@ + "String::new"@ + "("@ + ")"@ + " } else { "@ + "String::from_utf8_unchecked"@ + "("@ + "core::slice::from_raw_parts"@ + "("@ + "__p"@ + ", "@ + "__l"@, ")"@, k4);
    lemma_regroup(".read_u64()"@ + " as "@ + "usize"@ + ";"@ + " "@ + "if "@ + "__p"@ + ".is_null()"@ + " || "@ + "__l"@ + " == "@ + "0"@ + " { "@ + "String::new"@ + "("@ + ")"@ + " } else { "@ + "String::from_utf8_unchecked"@ + "("@ + "core::slice::from_raw_parts"@ + "("@ + "__p"@ + ", "@, "__l"@, k5);
    lemma_regroup(".read_u64()"@ + " as "@ + "usize"@ + ";"@ + " "@ + "if "@ + "__p"@ + ".is_null()"@ + " || "@ + "__l"@ + " == "@ + "0"@ + " { "@ + "String::new"@ + "("@ + ")"@ + " } else { "@ + "String::from_utf8_unchecked"@ + "("@ + "core::slice::from_raw_parts"@ + "("@ + "__p"@, ", "@, k6);
    lemma_regroup(".read_u64()"@ + " as "@ + "usize"@ + ";"@ + " "@ + "if "@ + "__p"@ + ".is_null()"@ + " || "@ + "__l"@ + " == "@ + "0"@ + " { "@ + "String::new"@ + "("@ + ")"@ + " } else { "@ + "String::from_utf8_unchecked"@ + "("@ + "core::slice::from_raw_parts"@ + "("@, "__p"@, k7);
    lemma_regroup(".read_u64()"@ + " as "@ + "usize"@ + ";"@ + " "@ + "if "@ + "__p"@ + ".is_null()"@ + " || "@ + "__l"@ + " == "@ + "0"@ + " { "@ + "String::new"@ + "("@ + ")"@ + " } else { "@ + "String::from_utf8_unchecked"@ + "("@ + "core::slice::from_raw_parts"@, "("@, k8);
    lemma_regroup(".read_u64()"@ + " as "@ + "usize"@ + ";"@ + " "@ + "if "@ + "__p"@ + ".is_null()"@ + " || "@ + "__l"@ + " == "@ + "0"@ + " { "@ + "String::new"@ + "("@ + ")"@ + " } else { "@ + "String::from_utf8_unchecked"@ + "("@, "core::slice::from_raw_parts"@, k9);
    lemma_regroup(".read_u64()"@ + " as "@ + "usize"@ + ";"@ + " "@ + "if "@ + "__p"@ + ".is_null()"@ + " || "@ + "__l"@ + " == "@ + "0"@ + " { "@ + "String::new"@ + "("@ + ")"@ + " } else { "@ + "String::from_utf8_unchecked"@, "("@, k10);
    lemma_regroup(".read_u64()"@ + " as "@ + "usize"@ + ";"@ + " "@ + "if "@ + "__p"@ + ".is_null()"@ + " || "@ + "__l"@ + " == "@ + "0"@ + " { "@ + "String::new"@ + "("@ + ")"@ + " } else { "@, "String::from_utf8_unchecked"@, k11);
    lemma_regroup(".read_u64()"@ + " as "@ + "usize"@ + ";"@ + " "@ + "if "@ + "__p"@ + ".is_null()"@ + " || "@ + "__l"@ + " == "@ + "0"@ + " { "@ + "String::new"@ + "("@ + ")"@, " } else { "@, k12);
    lemma_regroup(".read_u64()"@ + " as "@ + "usize"@ + ";"@ + " "@ + "if "@ + "__p"@ + ".is_null()"@ + " || "@ + "__l"@ + " == "@ + "0"@ + " { "@ + "String::new"@ + "("@, ")"@, k13);
    lemma_regroup(".read_u64()"@ + " as "@ + "usize"@ + ";"@ + " "@ + "if "@ + "__p"@ + ".is_null()"@ + " || "@ + "__l"@ + " == "@ + "0"@ + " { "@ + "String::new"@, "("@, k14);
    lemma_regroup(".read_u64()"@ + " as "@ + "usize"@ + ";"@ + " "@ + "if "@ + "__p"@ + ".is_null()"@ + " || "@ + "__l"@ + " == "@ + "0"@ + " { "@, "String::new"@, k15);
    lemma_regroup(".read_u64()"@ + " as "@ + "usize"@ + ";"@ + " "@ + "if "@ + "__p"@ + ".is_null()"@ + " || "@ + "__l"@ + " == "@ + "0"@, " { "@, k16);
    lemma_regroup(".read_u64()"@ + " as "@ + "usize"@ + ";"@ + " "@ + "if "@ + "__p"@ + ".is_null()"@ + " || "@ + "__l"@ + " == "@, "0"@, k17);
    lemma_regroup(".read_u64()"@ + " as "@ + "usize"@ + ";"@ + " "@ + "if "@ + "__p"@ + ".is_null()"@ + " || "@ + "__l"@, " == "@, k18);
    lemma_regroup(".read_u64()"@ + " as "@ + "usize"@ + ";"@ + " "@ + "if "@ + "__p"@ + ".is_null()"@ + " || "@, "__l"@, k19);
    lemma_regroup(".read_u64()"@ + " as "@ + "usize"@ + ";"@ + " "@ + "if "@ + "__p"@ + ".is_null()"@, " || "@, k20);
    lemma_regroup(".read_u64()"@ + " as "@ + "usize"@ + ";"@ + " "@ + "if "@ + "__p"@, ".is_null()"@, k21);
    lemma_regroup(".read_u64()"@ + " as "@ + "usize"@ + ";"@ + " "@ + "if "@, "__p"@, k22);
    lemma_regroup(".read_u64()"@ + " as "@ + "usize"@ + ";"@ + " "@, "if "@, k23);
    lemma_regroup(".read_u64()"@ + " as "@ + "usize"@ + ";"@, " "@, k24);
    lemma_regroup(".read_u64()"@ + " as "@ + "usize"@, ";"@, k25);
    lemma_regroup(".read_u64()"@ + " as "@, "usize"@, k26);
    lemma_regroup(".read_u64()"@, " as "@, k27);
    lemma_regroup("unsafe { let __p = "@ + r + ".read_u64() as *const u8; let __l = "@, r, k29);
    lemma_regroup("unsafe { let __p = "@ + r, ".read_u64() as *const u8; let __l = "@, k30);
    lemma_regroup(".read_u64()"@ + " as "@ + "*const "@ + "u8"@ + ";"@ + " "@ + "let "@ + "__l"@, " = "@, k30);
    lemma_regroup(".read_u64()"@ + " as "@ + "*const "@ + "u8"@ + ";"@ + " "@ + "let "@, "__l"@, k31);
    lemma_regroup(".read_u64()"@ + " as "@ + "*const "@ + "u8"@ + ";"@ + " "@, "let "@, k32);
    lemma_regroup(".read_u64()"@ + " as "@ + "*const "@ + "u8"@ + ";"@, " "@, k33);
    lemma_regroup(".read_u64()"@ + " as "@ + "*const "@ + "u8"@, ";"@, k34);
    lemma_regroup(".read_u64()"@ + " as "@ + "*const "@, "u8"@, k35);
    lemma_regroup(".read_u64()"@ + " as "@, "*const "@, k36);
    lemma_regroup(".read_u64()"@, " as "@, k37);
    lemma_regroup("unsafe { let __p = "@, r, k39);
    lemma_regroup("unsafe { "@ + "let "@ + "__p"@, " = "@, k40);
    lemma_regroup("unsafe { "@ + "let "@, "__p"@, k41);
    lemma_regroup("unsafe { "@, "let "@, k42);
    lemma_end(text(e22), "unsafe { let __p = "@ + r + ".read_u64() as *const u8; let __l = "@ + r + ".read_u64() as usize; if __p.is_null() || __l == 0 { String::new() } else { String::from_utf8_unchecked(core::slice::from_raw_parts(__p, __l).to_vec()) } }"@, k0);
    assert(e22 == string_ex(r));
}

pub open spec fn vec_ex(r: Seq<char>, rt: Seq<char>) -> Ex {
    Ex::Block(true, seq![St::Let(false, "__p"@, Ex::As(Box::new(Ex::Call(Box::new(Ex::Name(r)), Meth::ReadU64)), Cast::Const(rt))), St::Blank(" "@), St::Let(false, "__l"@, Ex::As(Box::new(Ex::Call(Box::new(Ex::Name(r)), Meth::ReadU64)), Cast::Usize)), St::Blank(" "@)], Box::new(Ex::If(Box::new(Ex::Or(Box::new(Ex::Call(Box::new(Ex::Name("__p"@)), Meth::IsNull)), Box::new(Ex::Eq(Box::new(Ex::Name("__l"@)), 0)))), Box::new(Ex::Apply(Fun::VecNew(rt), Seq::empty())), Box::new(Ex::Call(Box::new(Ex::Apply(Fun::RawParts, seq![Ex::Name("__p"@), Ex::Name("__l"@)])), Meth::ToVec)))))
}

#[verifier::spinoff_prover]
#[verifier::rlimit(100)]
pub(crate) proof fn lemma_g_vec(r: Seq<char>, rt: Seq<char>)
    ensures
        text(vec_ex(r, rt)) == "unsafe { let __p = "@ + r + ".read_u64() as *const "@ + rt + "; let __l = "@ + r + ".read_u64() as usize; if __p.is_null() || __l == 0 { Vec::new() } else { core::slice::from_raw_parts(__p, __l).to_vec() } }"@,
{
    lemma_casts();
    assert(alike("unsafe { let __p = "@, "unsafe { "@ + "let "@ + "__p"@ + " = "@)) by {
        reveal_strlit("unsafe { let __p = ");
        reveal_strlit("unsafe { ");
        reveal_strlit("let ");
        reveal_strlit("__p");
        reveal_strlit(" = ");
        assert("unsafe { let __p = "@ =~= "unsafe { "@ + "let "@ + "__p"@ + " = "@);
    }
    assert(alike(".read_u64() as *const "@, ".read_u64()"@ + " as "@ + "*const "@)) by {
        reveal_strlit(".read_u64() as *const ");
        reveal_strlit(".read_u64()");
        reveal_strlit(" as ");
        reveal_strlit("*const ");
        assert(".read_u64() as *const "@ =~= ".read_u64()"@ + " as "@ + "*const "@);
    }
    assert(alike("; let __l = "@, ";"@ + " "@ + "let "@ + "__l"@ + " = "@)) by {
        reveal_strlit("; let __l = ");
        reveal_strlit(";");
        reveal_strlit(" ");
        reveal_strlit("let ");
        reveal_strlit("__l");
        reveal_strlit(" = ");
        assert("; let __l = "@ =~= ";"@ + " "@ + "let "@ + "__l"@ + " = "@);
    }
    assert(alike(".read_u64() as usize; if __p.is_null() || __l == 0 { Vec::new() } else { core::slice::from_raw_parts(__p, __l).to_vec() } }"@, ".read_u64()"@ + " as "@ + "usize"@ + ";"@ + " "@ + "if "@ + "__p"@ + ".is_null()"@ + " || "@ + "__l"@ + " == "@ + "0"@ + " { "@ + "Vec::new"@ + "("@ + ")"@ + " } else { "@ + "core::slice::from_raw_parts"@ + "("@ + "__p"@ + ", "@ + "__l"@ + ")"@ + ".to_vec()"@ + " }"@ + " }"@)) by {
        reveal_strlit(".read_u64() as usize; if __p.is_null() || __l == 0 { Vec::new() } else { core::slice::from_raw_parts(__p, __l).to_vec() } }");
        reveal_strlit(".read_u64()");
        reveal_strlit(" as ");
        reveal_strlit("usize");
        reveal_strlit(";");
        reveal_strlit(" ");
        reveal_strlit("if ");
        reveal_strlit("__p");
        reveal_strlit(".is_null()");
        reveal_strlit(" || ");
        reveal_strlit("__l");
        reveal_strlit(" == ");
        reveal_strlit("0");
        reveal_strlit(" { ");
        reveal_strlit("Vec::new");
        reveal_strlit("(");
        reveal_strlit(")");
        reveal_strlit(" } else { ");
        reveal_strlit("core::slice::from_raw_parts");
        reveal_strlit(", ");
        reveal_strlit(".to_vec()");
        reveal_strlit(" }");
        assert(".read_u64() as usize; if __p.is_null() || __l == 0 { Vec::new() } else { core::slice::from_raw_parts(__p, __l).to_vec() } }"@ =~= ".read_u64()"@ + " as "@ + "usize"@ + ";"@ + " "@ + "if "@ + "__p"@ + ".is_null()"@ + " || "@ + "__l"@ + " == "@ + "0"@ + " { "@ + "Vec::new"@ + "("@ + ")"@ + " } else { "@ + "core::slice::from_raw_parts"@ + "("@ + "__p"@ + ", "@ + "__l"@ + ")"@ + ".to_vec()"@ + " }"@ + " }"@);
    }
    let e0 = Ex::Name(r);
    let e1 = Ex::Call(Box::new(e0), Meth::ReadU64);
    let e2 = Ex::As(Box::new(e1), Cast::Const(rt));
    let e3 = St::Let(false, "__p"@, e2);
    let e4 = St::Blank(" "@);
    let e5 = Ex::Name(r);
    let e6 = Ex::Call(Box::new(e5), Meth::ReadU64);
    let e7 = Ex::As(Box::new(e6), Cast::Usize);
    let e8 = St::Let(false, "__l"@, e7);
    let e9 = St::Blank(" "@);
    let e10 = Ex::Name("__p"@);
    let e11 = Ex::Call(Box::new(e10), Meth::IsNull);
    let e12 = Ex::Name("__l"@);
    let e13 = Ex::Eq(Box::new(e12), 0);
    let e14 = Ex::Or(Box::new(e11), Box::new(e13));
    let e15 = Ex::Apply(Fun::VecNew(rt), Seq::empty());
    let e16 = Ex::Name("__p"@);
    let e17 = Ex::Name("__l"@);
    let es18 = seq![e16, e17];
    assert(es18[0] == e16);
    assert(es18[1] == e17);
    let e18 = Ex::Apply(Fun::RawParts, es18);
    assert(es18.len() == 2);
    lemma_first_text(es18);
    let e19 = Ex::Call(Box::new(e18), Meth::ToVec);
    let e20 = Ex::If(Box::new(e14), Box::new(e15), Box::new(e19));
    let ss21 = seq![e3, e4, e8, e9];
    assert(ss21[0] == e3);
    assert(ss21[1] == e4);
    assert(ss21[2] == e8);
    assert(ss21[3] == e9);
    assert(ss21.len() == 4);
    lemma_first_line(ss21);
    let e21 = Ex::Block(true, ss21, Box::new(e20));
    let k0 = Seq::<char>::empty();
    let k1 = " }"@ + k0;
    let k2 = " }"@ + k1;
    let k3 = ".to_vec()"@ + k2;
    let k4 = ")"@ + k3;
    let k5 = "__l"@ + k4;
    let k6 = ", "@ + k5;
    let k7 = "__p"@ + k6;
    let k8 = "("@ + k7;
    let k9 = "core::slice::from_raw_parts"@ + k8;
    let k10 = " } else { "@ + k9;
    let k11 = ")"@ + k10;
    let k12 = "("@ + k11;
    let k13 = "Vec::new"@ + k12;
    let k14 = " { "@ + k13;
    let k15 = "0"@ + k14;
    let k16 = " == "@ + k15;
    let k17 = "__l"@ + k16;
    let k18 = " || "@ + k17;
    let k19 = ".is_null()"@ + k18;
    let k20 = "__p"@ + k19;
    let k21 = "if "@ + k20;
    let k22 = " "@ + k21;
    let k23 = ";"@ + k22;
    let k24 = "usize"@ + k23;
    let k25 = " as "@ + k24;
    let k26 = ".read_u64()"@ + k25;
    let k27 = r + k26;
    let k28 = " = "@ + k27;
    let k29 = "__l"@ + k28;
    let k30 = "let "@ + k29;
    let k31 = " "@ + k30;
    let k32 = ";"@ + k31;
    let k33 = rt + k32;
    let k34 = "*const "@ + k33;
    let k35 = " as "@ + k34;
    let k36 = ".read_u64()"@ + k35;
    let k37 = r + k36;
    let k38 = " = "@ + k37;
    let k39 = "__p"@ + k38;
    let k40 = "let "@ + k39;
    let k41 = "unsafe { "@ + k40;
    lemma_regroup("unsafe { "@ + lines(ss21, 4) + text(e20), " }"@, k0);
    lemma_regroup("unsafe { "@ + lines(ss21, 4), text(e20), k1);
    lemma_regroup("if "@ + text(e14) + " { "@ + text(e15) + " } else { "@ + text(e19), " }"@, k1);
    lemma_regroup("if "@ + text(e14) + " { "@ + text(e15) + " } else { "@, text(e19), k2);
    lemma_regroup(text(e18), ".to_vec()"@, k2);
    lemma_regroup("core::slice::from_raw_parts"@ + "("@ + texts(es18, 2), ")"@, k3);
    lemma_regroup("core::slice::from_raw_parts"@ + "("@, texts(es18, 2), k4);
    lemma_regroup(texts(es18, 1) + ", "@, text(e17), k4);
    lemma_regroup(texts(es18, 1), ", "@, k5);
    lemma_regroup("core::slice::from_raw_parts"@, "("@, k7);
    lemma_regroup("if "@ + text(e14) + " { "@ + text(e15), " } else { "@, k9);
    lemma_regroup("if "@ + text(e14) + " { "@, text(e15), k10);
    lemma_regroup("Vec::new"@ + "("@ + texts(Seq::empty(), 0), ")"@, k10);
    lemma_regroup("Vec::new"@ + "("@, texts(Seq::empty(), 0), k11);
    lemma_nothing(k11);
    lemma_regroup("Vec::new"@, "("@, k11);
    lemma_regroup("if "@ + text(e14), " { "@, k13);
    lemma_regroup("if "@, text(e14), k14);
    lemma_regroup(text(e11) + " || "@, text(e13), k14);
    lemma_regroup(text(e12) + " == "@, "0"@, k14);
    lemma_regroup(text(e12), " == "@, k15);
    lemma_regroup(text(e11), " || "@, k17);
    lemma_regroup(text(e10), ".is_null()"@, k18);
    lemma_regroup("unsafe { "@, lines(ss21, 4), k21);
    lemma_regroup(lines(ss21, 3), line(e9), k21);
    lemma_regroup(lines(ss21, 2), line(e8), k22);
    lemma_regroup("let "@ + "__l"@ + " = "@ + text(e7), ";"@, k22);
    lemma_regroup("let "@ + "__l"@ + " = "@, text(e7), k23);
    lemma_regroup(text(e6) + " as "@, "usize"@, k23);
    lemma_regroup(text(e6), " as "@, k24);
    lemma_regroup(text(e5), ".read_u64()"@, k25);
    lemma_regroup("let "@ + "__l"@, " = "@, k27);
    lemma_regroup("let "@, "__l"@, k28);
    lemma_regroup(lines(ss21, 1), line(e4), k30);
    lemma_regroup("let "@ + "__p"@ + " = "@ + text(e2), ";"@, k31);
    lemma_regroup("let "@ + "__p"@ + " = "@, text(e2), k32);
    lemma_regroup(text(e1) + " as "@, ("*const "@ + rt), k32);
    lemma_regroup("*const "@, rt, k32);
    lemma_regroup(text(e1), " as "@, k34);
    lemma_regroup(text(e0), ".read_u64()"@, k35);
    lemma_regroup("let "@ + "__p"@, " = "@, k37);
    lemma_regroup("let "@, "__p"@, k38);
    lemma_regroup("unsafe { let __p = "@ + r + ".read_u64() as *const "@ + rt + "; let __l = "@ + r, ".read_u64() as usize; if __p.is_null() || __l == 0 { Vec::new() } else { core::slice::from_raw_parts(__p, __l).to_vec() } }"@, k0);
    lemma_regroup(".read_u64()"@ + " as "@ + "usize"@ + ";"@ + " "@ + "if "@ + "__p"@ + ".is_null()"@ + " || "@ + "__l"@ + " == "@ + "0"@ + " { "@ + "Vec::new"@ + "("@ + ")"@ + " } else { "@ + "core::slice::from_raw_parts"@ + "("@ + "__p"@ + ", "@ + "__l"@ + ")"@ + ".to_vec()"@ + " }"@, " }"@, k0);
    lemma_regroup(".read_u64()"@ + " as "@ + "usize"@ + ";"@ + " "@ + "if "@ + "__p"@ + ".is_null()"@ + " || "@ + "__l"@ + " == "@ + "0"@ + " { "@ + "Vec::new"@ + "("@ + ")"@ + " } else { "@ + "core::slice::from_raw_parts"@ + "("@ + "__p"@ + ", "@ + "__l"@ + ")"@ + ".to_vec()"@, " }"@, k1);
    lemma_regroup(".read_u64()"@ + " as "@ + "usize"@ + ";"@ + " "@ + "if "@ + "__p"@ + ".is_null()"@ + " || "@ + "__l"@ + " == "@ + "0"@ + " { "@ + "Vec::new"@ + "("@ + ")"@ + " } else { "@ + "core::slice::from_raw_parts"@ + "("@ + "__p"@ + ", "@ + "__l"@ + ")"@, ".to_vec()"@, k2);
    lemma_regroup(".read_u64()"@ + " as "@ + "usize"@ + ";"@ + " "@ + "if "@ + "__p"@ + ".is_null()"@ + " || "@ + "__l"@ + " == "@ + "0"@ + " { "@ + "Vec::new"@ + "("@ + ")"@ + " } else { "@ + "core::slice::from_raw_parts"@ + "("@ + "__p"@ + ", "@ + "__l"@, ")"@, k3);
    lemma_regroup(".read_u64()"@ + " as "@ + "usize"@ + ";"@ + " "@ + "if "@ + "__p"@ + ".is_null()"@ + " || "@ + "__l"@ + " == "@ + "0"@ + " { "@ + "Vec::new"@ + "("@ + ")"@ + " } else { "@ + "core::slice::from_raw_parts"@ + "("@ + "__p"@ + ", "@, "__l"@, k4);
    lemma_regroup(".read_u64()"@ + " as "@ + "usize"@ + ";"@ + " "@ + "if "@ + "__p"@ + ".is_null()"@ + " || "@ + "__l"@ + " == "@ + "0"@ + " { "@ + "Vec::new"@ + "("@ + ")"@ + " } else { "@ + "core::slice::from_raw_parts"@ + "("@ + "__p"@, ", "@, k5);
    lemma_regroup(".read_u64()"@ + " as "@ + "usize"@ + ";"@ + " "@ + "if "@ + "__p"@ + ".is_null()"@ + " || "@ + "__l"@ + " == "@ + "0"@ + " { "@ + "Vec::new"@ + "("@ + ")"@ + " } else { "@ + "core::slice::from_raw_parts"@ + "("@, "__p"@, k6);
    lemma_regroup(".read_u64()"@ + " as "@ + "usize"@ + ";"@ + " "@ + "if "@ + "__p"@ + ".is_null()"@ + " || "@ + "__l"@ + " == "@ + "0"@ + " { "@ + "Vec::new"@ + "("@ + ")"@ + " } else { "@ + "core::slice::from_raw_parts"@, "("@, k7);
    lemma_regroup(".read_u64()"@ + " as "@ + "usize"@ + ";"@ + " "@ + "if "@ + "__p"@ + ".is_null()"@ + " || "@ + "__l"@ + " == "@ + "0"@ + " { "@ + "Vec::new"@ + "("@ + ")"@ + " } else { "@, "core::slice::from_raw_parts"@, k8);
    lemma_regroup(".read_u64()"@ + " as "@ + "usize"@ + ";"@ + " "@ + "if "@ + "__p"@ + ".is_null()"@ + " || "@ + "__l"@ + " == "@ + "0"@ + " { "@ + "Vec::new"@ + "("@ + ")"@, " } else { "@, k9);
    lemma_regroup(".read_u64()"@ + " as "@ + "usize"@ + ";"@ + " "@ + "if "@ + "__p"@ + ".is_null()"@ + " || "@ + "__l"@ + " == "@ + "0"@ + " { "@ + "Vec::new"@ + "("@, ")"@, k10);
    lemma_regroup(".read_u64()"@ + " as "@ + "usize"@ + ";"@ + " "@ + "if "@ + "__p"@ + ".is_null()"@ + " || "@ + "__l"@ + " == "@ + "0"@ + " { "@ + "Vec::new"@, "("@, k11);
    lemma_regroup(".read_u64()"@ + " as "@ + "usize"@ + ";"@ + " "@ + "if "@ + "__p"@ + ".is_null()"@ + " || "@ + "__l"@ + " == "@ + "0"@ + " { "@, "Vec::new"@, k12);
    lemma_regroup(".read_u64()"@ + " as "@ + "usize"@ + ";"@ + " "@ + "if "@ + "__p"@ + ".is_null()"@ + " || "@ + "__l"@ + " == "@ + "0"@, " { "@, k13);
    lemma_regroup(".read_u64()"@ + " as "@ + "usize"@ + ";"@ + " "@ + "if "@ + "__p"@ + ".is_null()"@ + " || "@ + "__l"@ + " == "@, "0"@, k14);
    lemma_regroup(".read_u64()"@ + " as "@ + "usize"@ + ";"@ + " "@ + "if "@ + "__p"@ + ".is_null()"@ + " || "@ + "__l"@, " == "@, k15);
    lemma_regroup(".read_u64()"@ + " as "@ + "usize"@ + ";"@ + " "@ + "if "@ + "__p"@ + ".is_null()"@ + " || "@, "__l"@, k16);
    lemma_regroup(".read_u64()"@ + " as "@ + "usize"@ + ";"@ + " "@ + "if "@ + "__p"@ + ".is_null()"@, " || "@, k17);
    lemma_regroup(".read_u64()"@ + " as "@ + "usize"@ + ";"@ + " "@ + "if "@ + "__p"@, ".is_null()"@, k18);
    lemma_regroup(".read_u64()"@ + " as "@ + "usize"@ + ";"@ + " "@ + "if "@, "__p"@, k19);
    lemma_regroup(".read_u64()"@ + " as "@ + "usize"@ + ";"@ + " "@, "if "@, k20);
    lemma_regroup(".read_u64()"@ + " as "@ + "usize"@ + ";"@, " "@, k21);
    lemma_regroup(".read_u64()"@ + " as "@ + "usize"@, ";"@, k22);
    lemma_regroup(".read_u64()"@ + " as "@, "usize"@, k23);
    lemma_regroup(".read_u64()"@, " as "@, k24);
    lemma_regroup("unsafe { let __p = "@ + r + ".read_u64() as *const "@ + rt + "; let __l = "@, r, k26);
    lemma_regroup("unsafe { let __p = "@ + r + ".read_u64() as *const "@ + rt, "; let __l = "@, k27);
    lemma_regroup(";"@ + " "@ + "let "@ + "__l"@, " = "@, k27);
    lemma_regroup(";"@ + " "@ + "let "@, "__l"@, k28);
    lemma_regroup(";"@ + " "@, "let "@, k29);
    lemma_regroup(";"@, " "@, k30);
    lemma_regroup("unsafe { let __p = "@ + r + ".read_u64() as *const "@, rt, k32);
    lemma_regroup("unsafe { let __p = "@ + r, ".read_u64() as *const "@, k33);
    lemma_regroup(".read_u64()"@ + " as "@, "*const "@, k33);
    lemma_regroup(".read_u64()"@, " as "@, k34);
    lemma_regroup("unsafe { let __p = "@, r, k36);
    lemma_regroup("unsafe { "@ + "let "@ + "__p"@, " = "@, k37);
    lemma_regroup("unsafe { "@ + "let "@, "__p"@, k38);
    lemma_regroup("unsafe { "@, "let "@, k39);
    lemma_end(text(e21), "unsafe { let __p = "@ + r + ".read_u64() as *const "@ + rt + "; let __l = "@ + r + ".read_u64() as usize; if __p.is_null() || __l == 0 { Vec::new() } else { core::slice::from_raw_parts(__p, __l).to_vec() } }"@, k0);
    assert(e21 == vec_ex(r, rt));
}

pub open spec fn out_ex(r: Seq<char>) -> Ex {
    Ex::Block(true, Seq::empty(), Box::new(Ex::RefMut(Box::new(Ex::Star(Box::new(Ex::Paren(Box::new(Ex::As(Box::new(Ex::Call(Box::new(Ex::Name(r)), Meth::ReadU64)), Cast::Mut("Vec<u8>"@))))))))))
}

pub(crate) proof fn lemma_g_out(r: Seq<char>)
    ensures
        text(out_ex(r)) == "unsafe { &mut *("@ + r + ".read_u64() as *mut Vec<u8>) }"@,
{
    lemma_casts();
    assert(alike("unsafe { &mut *("@, "unsafe { "@ + "&mut "@ + "*"@ + "("@)) by {
        reveal_strlit("unsafe { &mut *(");
        reveal_strlit("unsafe { ");
        reveal_strlit("&mut ");
        reveal_strlit("*");
        reveal_strlit("(");
        assert("unsafe { &mut *("@ =~= "unsafe { "@ + "&mut "@ + "*"@ + "("@);
    }
    assert(alike(".read_u64() as *mut Vec<u8>) }"@, ".read_u64()"@ + " as "@ + "*mut "@ + "Vec<u8>"@ + ")"@ + " }"@)) by {
        reveal_strlit(".read_u64() as *mut Vec<u8>) }");
        reveal_strlit(".read_u64()");
        reveal_strlit(" as ");
        reveal_strlit("*mut ");
        reveal_strlit("Vec<u8>");
        reveal_strlit(")");
        reveal_strlit(" }");
        assert(".read_u64() as *mut Vec<u8>) }"@ =~= ".read_u64()"@ + " as "@ + "*mut "@ + "Vec<u8>"@ + ")"@ + " }"@);
    }
    let e0 = Ex::Name(r);
    let e1 = Ex::Call(Box::new(e0), Meth::ReadU64);
    let e2 = Ex::As(Box::new(e1), Cast::Mut("Vec<u8>"@));
    let e3 = Ex::Paren(Box::new(e2));
    let e4 = Ex::Star(Box::new(e3));
    let e5 = Ex::RefMut(Box::new(e4));
    let e6 = Ex::Block(true, Seq::empty(), Box::new(e5));
    let k0 = Seq::<char>::empty();
    let k1 = " }"@ + k0;
    let k2 = ")"@ + k1;
    let k3 = "Vec<u8>"@ + k2;
    let k4 = "*mut "@ + k3;
    let k5 = " as "@ + k4;
    let k6 = ".read_u64()"@ + k5;
    let k7 = r + k6;
    let k8 = "("@ + k7;
    let k9 = "*"@ + k8;
    let k10 = "&mut "@ + k9;
    let k11 = "unsafe { "@ + k10;
    lemma_regroup("unsafe { "@ + lines(Seq::empty(), 0) + text(e5), " }"@, k0);
    lemma_regroup("unsafe { "@ + lines(Seq::empty(), 0), text(e5), k1);
    lemma_regroup("&mut "@, text(e4), k1);
    lemma_regroup("*"@, text(e3), k1);
    lemma_regroup("("@ + text(e2), ")"@, k1);
    lemma_regroup("("@, text(e2), k2);
    lemma_regroup(text(e1) + " as "@, ("*mut "@ + "Vec<u8>"@), k2);
    lemma_regroup("*mut "@, "Vec<u8>"@, k2);
    lemma_regroup(text(e1), " as "@, k4);
    lemma_regroup(text(e0), ".read_u64()"@, k5);
    lemma_regroup("unsafe { "@, lines(Seq::empty(), 0), k10);
    lemma_nothing(k10);
    lemma_regroup("unsafe { &mut *("@ + r, ".read_u64() as *mut Vec<u8>) }"@, k0);
    lemma_regroup(".read_u64()"@ + " as "@ + "*mut "@ + "Vec<u8>"@ + ")"@, " }"@, k0);
    lemma_regroup(".read_u64()"@ + " as "@ + "*mut "@ + "Vec<u8>"@, ")"@, k1);
    lemma_regroup(".read_u64()"@ + " as "@ + "*mut "@, "Vec<u8>"@, k2);
    lemma_regroup(".read_u64()"@ + " as "@, "*mut "@, k3);
    lemma_regroup(".read_u64()"@, " as "@, k4);
    lemma_regroup("unsafe { &mut *("@, r, k6);
    lemma_regroup("unsafe { "@ + "&mut "@ + "*"@, "("@, k7);
    lemma_regroup("unsafe { "@ + "&mut "@, "*"@, k8);
    lemma_regroup("unsafe { "@, "&mut "@, k9);
    lemma_end(text(e6), "unsafe { &mut *("@ + r + ".read_u64() as *mut Vec<u8>) }"@, k0);
    assert(e6 == out_ex(r));
}

pub open spec fn refmut_ex(r: Seq<char>, rt: Seq<char>) -> Ex {
    Ex::Block(true, Seq::empty(), Box::new(Ex::RefMut(Box::new(Ex::Star(Box::new(Ex::Paren(Box::new(Ex::As(Box::new(Ex::Call(Box::new(Ex::Name(r)), Meth::ReadU64)), Cast::Mut(rt))))))))))
}

pub(crate) proof fn lemma_g_refmut(r: Seq<char>, rt: Seq<char>)
    ensures
        text(refmut_ex(r, rt)) == "unsafe { &mut *("@ + r + ".read_u64() as *mut "@ + rt + ") }"@,
{
    lemma_casts();
    assert(alike("unsafe { &mut *("@, "unsafe { "@ + "&mut "@ + "*"@ + "("@)) by {
        reveal_strlit("unsafe { &mut *(");
        reveal_strlit("unsafe { ");
        reveal_strlit("&mut ");
        reveal_strlit("*");
        reveal_strlit("(");
        assert("unsafe { &mut *("@ =~= "unsafe { "@ + "&mut "@ + "*"@ + "("@);
    }
    assert(alike(".read_u64() as *mut "@, ".read_u64()"@ + " as "@ + "*mut "@)) by {
        reveal_strlit(".read_u64() as *mut ");
        reveal_strlit(".read_u64()");
        reveal_strlit(" as ");
        reveal_strlit("*mut ");
        assert(".read_u64() as *mut "@ =~= ".read_u64()"@ + " as "@ + "*mut "@);
    }
    assert(alike(") }"@, ")"@ + " }"@)) by {
        reveal_strlit(") }");
        reveal_strlit(")");
        reveal_strlit(" }");
        assert(") }"@ =~= ")"@ + " }"@);
    }
    let e0 = Ex::Name(r);
    let e1 = Ex::Call(Box::new(e0), Meth::ReadU64);
    let e2 = Ex::As(Box::new(e1), Cast::Mut(rt));
    let e3 = Ex::Paren(Box::new(e2));
    let e4 = Ex::Star(Box::new(e3));
    let e5 = Ex::RefMut(Box::new(e4));
    let e6 = Ex::Block(true, Seq::empty(), Box::new(e5));
    let k0 = Seq::<char>::empty();
    let k1 = " }"@ + k0;
    let k2 = ")"@ + k1;
    let k3 = rt + k2;
    let k4 = "*mut "@ + k3;
    let k5 = " as "@ + k4;
    let k6 = ".read_u64()"@ + k5;
    let k7 = r + k6;
    let k8 = "("@ + k7;
    let k9 = "*"@ + k8;
    let k10 = "&mut "@ + k9;
    let k11 = "unsafe { "@ + k10;
    lemma_regroup("unsafe { "@ + lines(Seq::empty(), 0) + text(e5), " }"@, k0);
    lemma_regroup("unsafe { "@ + lines(Seq::empty(), 0), text(e5), k1);
    lemma_regroup("&mut "@, text(e4), k1);
    lemma_regroup("*"@, text(e3), k1);
    lemma_regroup("("@ + text(e2), ")"@, k1);
    lemma_regroup("("@, text(e2), k2);
    lemma_regroup(text(e1) + " as "@, ("*mut "@ + rt), k2);
    lemma_regroup("*mut "@, rt, k2);
    lemma_regroup(text(e1), " as "@, k4);
    lemma_regroup(text(e0), ".read_u64()"@, k5);
    lemma_regroup("unsafe { "@, lines(Seq::empty(), 0), k10);
    lemma_nothing(k10);
    lemma_regroup("unsafe { &mut *("@ + r + ".read_u64() as *mut "@ + rt, ") }"@, k0);
    lemma_regroup(")"@, " }"@, k0);
    lemma_regroup("unsafe { &mut *("@ + r + ".read_u64() as *mut "@, rt, k2);
    lemma_regroup("unsafe { &mut *("@ + r, ".read_u64() as *mut "@, k3);
    lemma_regroup(".read_u64()"@ + " as "@, "*mut "@, k3);
    lemma_regroup(".read_u64()"@, " as "@, k4);
    lemma_regroup("unsafe { &mut *("@, r, k6);
    lemma_regroup("unsafe { "@ + "&mut "@ + "*"@, "("@, k7);
    lemma_regroup("unsafe { "@ + "&mut "@, "*"@, k8);
    lemma_regroup("unsafe { "@, "&mut "@, k9);
    lemma_end(text(e6), "unsafe { &mut *("@ + r + ".read_u64() as *mut "@ + rt + ") }"@, k0);
    assert(e6 == refmut_ex(r, rt));
}

pub open spec fn dstr_ex(r: Seq<char>) -> Ex {
    Ex::Record(Rec::DStr, seq![(Fld::Ptr, Ex::As(Box::new(Ex::Call(Box::new(Ex::Name(r)), Meth::ReadU64)), Cast::Const("u8"@))), (Fld::Len, Ex::As(Box::new(Ex::Call(Box::new(Ex::Name(r)), Meth::ReadU64)), Cast::Usize))])
}

#[verifier::spinoff_prover]
#[verifier::rlimit(100)]
pub(crate) proof fn lemma_g_dstr(r: Seq<char>)
    ensures
        text(dstr_ex(r)) == "dynspire::managed::DStr { ptr: "@ + r + ".read_u64() as *const u8, len: "@ + r + ".read_u64() as usize }"@,
{
    lemma_casts();
    assert(alike("dynspire::managed::DStr { ptr: "@, "dynspire::managed::DStr"@ + " { "@ + "ptr"@ + ": "@)) by {
        reveal_strlit("dynspire::managed::DStr { ptr: ");
        reveal_strlit("dynspire::managed::DStr");
        reveal_strlit(" { ");
        reveal_strlit("ptr");
        reveal_strlit(": ");
        assert("dynspire::managed::DStr { ptr: "@ =~= "dynspire::managed::DStr"@ + " { "@ + "ptr"@ + ": "@);
    }
    assert(alike(".read_u64() as *const u8, len: "@, ".read_u64()"@ + " as "@ + "*const "@ + "u8"@ + ", "@ + "len"@ + ": "@)) by {
        reveal_strlit(".read_u64() as *const u8, len: ");
        reveal_strlit(".read_u64()");
        reveal_strlit(" as ");
        reveal_strlit("*const ");
        reveal_strlit("u8");
        reveal_strlit(", ");
        reveal_strlit("len");
        reveal_strlit(": ");
        assert(".read_u64() as *const u8, len: "@ =~= ".read_u64()"@ + " as "@ + "*const "@ + "u8"@ + ", "@ + "len"@ + ": "@);
    }
    assert(alike(".read_u64() as usize }"@, ".read_u64()"@ + " as "@ + "usize"@ + " }"@)) by {
        reveal_strlit(".read_u64() as usize }");
        reveal_strlit(".read_u64()");
        reveal_strlit(" as ");
        reveal_strlit("usize");
        reveal_strlit(" }");
        assert(".read_u64() as usize }"@ =~= ".read_u64()"@ + " as "@ + "usize"@ + " }"@);
    }
    let e0 = Ex::Name(r);
    let e1 = Ex::Call(Box::new(e0), Meth::ReadU64);
    let e2 = Ex::As(Box::new(e1), Cast::Const("u8"@));
    let e3 = Ex::Name(r);
    let e4 = Ex::Call(Box::new(e3), Meth::ReadU64);
    let e5 = Ex::As(Box::new(e4), Cast::Usize);
    let fs6 = seq![(Fld::Ptr, e2), (Fld::Len, e5)];
    assert(fs6[0] == (Fld::Ptr, e2));
    assert(fs6[1] == (Fld::Len, e5));
    let e6 = Ex::Record(Rec::DStr, fs6);
    let k0 = Seq::<char>::empty();
    let k1 = " }"@ + k0;
    let k2 = "usize"@ + k1;
    let k3 = " as "@ + k2;
    let k4 = ".read_u64()"@ + k3;
    let k5 = r + k4;
    let k6 = ": "@ + k5;
    let k7 = "len"@ + k6;
    let k8 = ", "@ + k7;
    let k9 = "u8"@ + k8;
    let k10 = "*const "@ + k9;
    let k11 = " as "@ + k10;
    let k12 = ".read_u64()"@ + k11;
    let k13 = r + k12;
    let k14 = ": "@ + k13;
    let k15 = "ptr"@ + k14;
    let k16 = " { "@ + k15;
    let k17 = "dynspire::managed::DStr"@ + k16;
    lemma_regroup("dynspire::managed::DStr"@ + " { "@ + field_texts(fs6, 2), " }"@, k0);
    lemma_regroup("dynspire::managed::DStr"@ + " { "@, field_texts(fs6, 2), k1);
    lemma_regroup(field_texts(fs6, 1) + ", "@ + "len"@ + ": "@, text(e5), k1);
    lemma_regroup(text(e4) + " as "@, "usize"@, k1);
    lemma_regroup(text(e4), " as "@, k2);
    lemma_regroup(text(e3), ".read_u64()"@, k3);
    lemma_regroup(field_texts(fs6, 1) + ", "@ + "len"@, ": "@, k5);
    lemma_regroup(field_texts(fs6, 1) + ", "@, "len"@, k6);
    lemma_regroup(field_texts(fs6, 1), ", "@, k7);
    lemma_regroup("ptr"@ + ": "@, text(e2), k8);
    lemma_regroup(text(e1) + " as "@, ("*const "@ + "u8"@), k8);
    lemma_regroup("*const "@, "u8"@, k8);
    lemma_regroup(text(e1), " as "@, k10);
    lemma_regroup(text(e0), ".read_u64()"@, k11);
    lemma_regroup("ptr"@, ": "@, k13);
    lemma_regroup("dynspire::managed::DStr"@, " { "@, k15);
    lemma_regroup("dynspire::managed::DStr { ptr: "@ + r + ".read_u64() as *const u8, len: "@ + r, ".read_u64() as usize }"@, k0);
    lemma_regroup(".read_u64()"@ + " as "@ + "usize"@, " }"@, k0);
    lemma_regroup(".read_u64()"@ + " as "@, "usize"@, k1);
    lemma_regroup(".read_u64()"@, " as "@, k2);
    lemma_regroup("dynspire::managed::DStr { ptr: "@ + r + ".read_u64() as *const u8, len: "@, r, k4);
    lemma_regroup("dynspire::managed::DStr { ptr: "@ + r, ".read_u64() as *const u8, len: "@, k5);
    lemma_regroup(".read_u64()"@ + " as "@ + "*const "@ + "u8"@ + ", "@ + "len"@, ": "@, k5);
    lemma_regroup(".read_u64()"@ + " as "@ + "*const "@ + "u8"@ + ", "@, "len"@, k6);
    lemma_regroup(".read_u64()"@ + " as "@ + "*const "@ + "u8"@, ", "@, k7);
    lemma_regroup(".read_u64()"@ + " as "@ + "*const "@, "u8"@, k8);
    lemma_regroup(".read_u64()"@ + " as "@, "*const "@, k9);
    lemma_regroup(".read_u64()"@, " as "@, k10);
    lemma_regroup("dynspire::managed::DStr { ptr: "@, r, k12);
    lemma_regroup("dynspire::managed::DStr"@ + " { "@ + "ptr"@, ": "@, k13);
    lemma_regroup("dynspire::managed::DStr"@ + " { "@, "ptr"@, k14);
    lemma_regroup("dynspire::managed::DStr"@, " { "@, k15);
    lemma_end(text(e6), "dynspire::managed::DStr { ptr: "@ + r + ".read_u64() as *const u8, len: "@ + r + ".read_u64() as usize }"@, k0);
    assert(e6 == dstr_ex(r));
}

pub open spec fn dslice_ex(r: Seq<char>, rt: Seq<char>) -> Ex {
    Ex::Record(Rec::DSlice(rt), seq![(Fld::Ptr, Ex::As(Box::new(Ex::Call(Box::new(Ex::Name(r)), Meth::ReadU64)), Cast::Const(rt))), (Fld::Len, Ex::As(Box::new(Ex::Call(Box::new(Ex::Name(r)), Meth::ReadU64)), Cast::Usize))])
}

#[verifier::spinoff_prover]
#[verifier::rlimit(100)]
pub(crate) proof fn lemma_g_dslice(r: Seq<char>, rt: Seq<char>)
    ensures
        text(dslice_ex(r, rt)) == "dynspire::managed::DSlice::<"@ + rt + "> { ptr: "@ + r + ".read_u64() as *const "@ + rt + ", len: "@ + r + ".read_u64() as usize }"@,
{
    lemma_casts();
    assert(alike("> { ptr: "@, ">"@ + " { "@ + "ptr"@ + ": "@)) by {
        reveal_strlit("> { ptr: ");
        reveal_strlit(">");
        reveal_strlit(" { ");
        reveal_strlit("ptr");
        reveal_strlit(": ");
        assert("> { ptr: "@ =~= ">"@ + " { "@ + "ptr"@ + ": "@);
    }
    assert(alike(".read_u64() as *const "@, ".read_u64()"@ + " as "@ + "*const "@)) by {
        reveal_strlit(".read_u64() as *const ");
        reveal_strlit(".read_u64()");
        reveal_strlit(" as ");
        reveal_strlit("*const ");
        assert(".read_u64() as *const "@ =~= ".read_u64()"@ + " as "@ + "*const "@);
    }
    assert(alike(", len: "@, ", "@ + "len"@ + ": "@)) by {
        reveal_strlit(", len: ");
        reveal_strlit(", ");
        reveal_strlit("len");
        reveal_strlit(": ");
        assert(", len: "@ =~= ", "@ + "len"@ + ": "@);
    }
    assert(alike(".read_u64() as usize }"@, ".read_u64()"@ + " as "@ + "usize"@ + " }"@)) by {
        reveal_strlit(".read_u64() as usize }");
        reveal_strlit(".read_u64()");
        reveal_strlit(" as ");
        reveal_strlit("usize");
        reveal_strlit(" }");
        assert(".read_u64() as usize }"@ =~= ".read_u64()"@ + " as "@ + "usize"@ + " }"@);
    }
    let e0 = Ex::Name(r);
    let e1 = Ex::Call(Box::new(e0), Meth::ReadU64);
    let e2 = Ex::As(Box::new(e1), Cast::Const(rt));
    let e3 = Ex::Name(r);
    let e4 = Ex::Call(Box::new(e3), Meth::ReadU64);
    let e5 = Ex::As(Box::new(e4), Cast::Usize);
    let fs6 = seq![(Fld::Ptr, e2), (Fld::Len, e5)];
    assert(fs6[0] == (Fld::Ptr, e2));
    assert(fs6[1] == (Fld::Len, e5));
    let e6 = Ex::Record(Rec::DSlice(rt), fs6);
    let k0 = Seq::<char>::empty();
    let k1 = " }"@ + k0;
    let k2 = "usize"@ + k1;
    let k3 = " as "@ + k2;
    let k4 = ".read_u64()"@ + k3;
    let k5 = r + k4;
    let k6 = ": "@ + k5;
    let k7 = "len"@ + k6;
    let k8 = ", "@ + k7;
    let k9 = rt + k8;
    let k10 = "*const "@ + k9;
    let k11 = " as "@ + k10;
    let k12 = ".read_u64()"@ + k11;
    let k13 = r + k12;
    let k14 = ": "@ + k13;
    let k15 = "ptr"@ + k14;
    let k16 = " { "@ + k15;
    let k17 = ">"@ + k16;
    let k18 = rt + k17;
    let k19 = "dynspire::managed::DSlice::<"@ + k18;
    lemma_regroup(("dynspire::managed::DSlice::<"@ + rt + ">"@) + " { "@ + field_texts(fs6, 2), " }"@, k0);
    lemma_regroup(("dynspire::managed::DSlice::<"@ + rt + ">"@) + " { "@, field_texts(fs6, 2), k1);
    lemma_regroup(field_texts(fs6, 1) + ", "@ + "len"@ + ": "@, text(e5), k1);
    lemma_regroup(text(e4) + " as "@, "usize"@, k1);
    lemma_regroup(text(e4), " as "@, k2);
    lemma_regroup(text(e3), ".read_u64()"@, k3);
    lemma_regroup(field_texts(fs6, 1) + ", "@ + "len"@, ": "@, k5);
    lemma_regroup(field_texts(fs6, 1) + ", "@, "len"@, k6);
    lemma_regroup(field_texts(fs6, 1), ", "@, k7);
    lemma_regroup("ptr"@ + ": "@, text(e2), k8);
    lemma_regroup(text(e1) + " as "@, ("*const "@ + rt), k8);
    lemma_regroup("*const "@, rt, k8);
    lemma_regroup(text(e1), " as "@, k10);
    lemma_regroup(text(e0), ".read_u64()"@, k11);
    lemma_regroup("ptr"@, ": "@, k13);
    lemma_regroup(("dynspire::managed::DSlice::<"@ + rt + ">"@), " { "@, k15);
    lemma_regroup("dynspire::managed::DSlice::<"@ + rt, ">"@, k16);
    lemma_regroup("dynspire::managed::DSlice::<"@, rt, k17);
    lemma_regroup("dynspire::managed::DSlice::<"@ + rt + "> { ptr: "@ + r + ".read_u64() as *const "@ + rt + ", len: "@ + r, ".read_u64() as usize }"@, k0);
    lemma_regroup(".read_u64()"@ + " as "@ + "usize"@, " }"@, k0);
    lemma_regroup(".read_u64()"@ + " as "@, "usize"@, k1);
    lemma_regroup(".read_u64()"@, " as "@, k2);
    lemma_regroup("dynspire::managed::DSlice::<"@ + rt + "> { ptr: "@ + r + ".read_u64() as *const "@ + rt + ", len: "@, r, k4);
    lemma_regroup("dynspire::managed::DSlice::<"@ + rt + "> { ptr: "@ + r + ".read_u64() as *const "@ + rt, ", len: "@, k5);
    lemma_regroup(", "@ + "len"@, ": "@, k5);
    lemma_regroup(", "@, "len"@, k6);
    lemma_regroup("dynspire::managed::DSlice::<"@ + rt + "> { ptr: "@ + r + ".read_u64() as *const "@, rt, k8);
    lemma_regroup("dynspire::managed::DSlice::<"@ + rt + "> { ptr: "@ + r, ".read_u64() as *const "@, k9);
    lemma_regroup(".read_u64()"@ + " as "@, "*const "@, k9);
    lemma_regroup(".read_u64()"@, " as "@, k10);
    lemma_regroup("dynspire::managed::DSlice::<"@ + rt + "> { ptr: "@, r, k12);
    lemma_regroup("dynspire::managed::DSlice::<"@ + rt, "> { ptr: "@, k13);
    lemma_regroup(">"@ + " { "@ + "ptr"@, ": "@, k13);
    lemma_regroup(">"@ + " { "@, "ptr"@, k14);
    lemma_regroup(">"@, " { "@, k15);
    lemma_regroup("dynspire::managed::DSlice::<"@, rt, k17);
    lemma_end(text(e6), "dynspire::managed::DSlice::<"@ + rt + "> { ptr: "@ + r + ".read_u64() as *const "@ + rt + ", len: "@ + r + ".read_u64() as usize }"@, k0);
    assert(e6 == dslice_ex(r, rt));
}

pub open spec fn dstring_ex(r: Seq<char>) -> Ex {
    Ex::Record(Rec::DString, seq![(Fld::Allocator, Ex::As(Box::new(Ex::Call(Box::new(Ex::Name(r)), Meth::ReadU64)), Cast::Mut("dynspire::managed::DynSpireAllocator"@))), (Fld::Ptr, Ex::As(Box::new(Ex::Call(Box::new(Ex::Name(r)), Meth::ReadU64)), Cast::Mut("u8"@))), (Fld::Len, Ex::As(Box::new(Ex::Call(Box::new(Ex::Name(r)), Meth::ReadU64)), Cast::Usize)), (Fld::Cap, Ex::As(Box::new(Ex::Call(Box::new(Ex::Name(r)), Meth::ReadU64)), Cast::Usize))])
}

#[verifier::spinoff_prover]
#[verifier::rlimit(100)]
pub(crate) proof fn lemma_g_dstring(r: Seq<char>)
    ensures
        text(dstring_ex(r)) == "dynspire::managed::DString { allocator: "@ + r + ".read_u64() as *mut dynspire::managed::DynSpireAllocator, ptr: "@ + r + ".read_u64() as *mut u8, len: "@ + r + ".read_u64() as usize, cap: "@ + r + ".read_u64() as usize }"@,
{
    lemma_casts();
    assert(alike("dynspire::managed::DString { allocator: "@, "dynspire::managed::DString"@ + " { "@ + "allocator"@ + ": "@)) by {
        reveal_strlit("dynspire::managed::DString { allocator: ");
        reveal_strlit("dynspire::managed::DString");
        reveal_strlit(" { ");
        reveal_strlit("allocator");
        reveal_strlit(": ");
        assert("dynspire::managed::DString { allocator: "@ =~= "dynspire::managed::DString"@ + " { "@ + "allocator"@ + ": "@);
    }
    assert(alike(".read_u64() as *mut dynspire::managed::DynSpireAllocator, ptr: "@, ".read_u64()"@ + " as "@ + "*mut "@ + "dynspire::managed::DynSpireAllocator"@ + ", "@ + "ptr"@ + ": "@)) by {
        reveal_strlit(".read_u64() as *mut dynspire::managed::DynSpireAllocator, ptr: ");
        reveal_strlit(".read_u64()");
        reveal_strlit(" as ");
        reveal_strlit("*mut ");
        reveal_strlit("dynspire::managed::DynSpireAllocator");
        reveal_strlit(", ");
        reveal_strlit("ptr");
        reveal_strlit(": ");
        assert(".read_u64() as *mut dynspire::managed::DynSpireAllocator, ptr: "@ =~= ".read_u64()"@ + " as "@ + "*mut "@ + "dynspire::managed::DynSpireAllocator"@ + ", "@ + "ptr"@ + ": "@);
    }
    assert(alike(".read_u64() as *mut u8, len: "@, ".read_u64()"@ + " as "@ + "*mut "@ + "u8"@ + ", "@ + "len"@ + ": "@)) by {
        reveal_strlit(".read_u64() as *mut u8, len: ");
        reveal_strlit(".read_u64()");
        reveal_strlit(" as ");
        reveal_strlit("*mut ");
        reveal_strlit("u8");
        reveal_strlit(", ");
        reveal_strlit("len");
        reveal_strlit(": ");
        assert(".read_u64() as *mut u8, len: "@ =~= ".read_u64()"@ + " as "@ + "*mut "@ + "u8"@ + ", "@ + "len"@ + ": "@);
    }
    assert(alike(".read_u64() as usize, cap: "@, ".read_u64()"@ + " as "@ + "usize"@ + ", "@ + "cap"@ + ": "@)) by {
        reveal_strlit(".read_u64() as usize, cap: ");
        reveal_strlit(".read_u64()");
        reveal_strlit(" as ");
        reveal_strlit("usize");
        reveal_strlit(", ");
        reveal_strlit("cap");
        reveal_strlit(": ");
        assert(".read_u64() as usize, cap: "@ =~= ".read_u64()"@ + " as "@ + "usize"@ + ", "@ + "cap"@ + ": "@);
    }
    assert(alike(".read_u64() as usize }"@, ".read_u64()"@ + " as "@ + "usize"@ + " }"@)) by {
        reveal_strlit(".read_u64() as usize }");
        reveal_strlit(".read_u64()");
        reveal_strlit(" as ");
        reveal_strlit("usize");
        reveal_strlit(" }");
        assert(".read_u64() as usize }"@ =~= ".read_u64()"@ + " as "@ + "usize"@ + " }"@);
    }
    let e0 = Ex::Name(r);
    let e1 = Ex::Call(Box::new(e0), Meth::ReadU64);
    let e2 = Ex::As(Box::new(e1), Cast::Mut("dynspire::managed::DynSpireAllocator"@));
    let e3 = Ex::Name(r);
    let e4 = Ex::Call(Box::new(e3), Meth::ReadU64);
    let e5 = Ex::As(Box::new(e4), Cast::Mut("u8"@));
    let e6 = Ex::Name(r);
    let e7 = Ex::Call(Box::new(e6), Meth::ReadU64);
    let e8 = Ex::As(Box::new(e7), Cast::Usize);
    let e9 = Ex::Name(r);
    let e10 = Ex::Call(Box::new(e9), Meth::ReadU64);
    let e11 = Ex::As(Box::new(e10), Cast::Usize);
    let fs12 = seq![(Fld::Allocator, e2), (Fld::Ptr, e5), (Fld::Len, e8), (Fld::Cap, e11)];
    assert(fs12[0] == (Fld::Allocator, e2));
    assert(fs12[1] == (Fld::Ptr, e5));
    assert(fs12[2] == (Fld::Len, e8));
    assert(fs12[3] == (Fld::Cap, e11));
    let e12 = Ex::Record(Rec::DString, fs12);
    let k0 = Seq::<char>::empty();
    let k1 = " }"@ + k0;
    let k2 = "usize"@ + k1;
    let k3 = " as "@ + k2;
    let k4 = ".read_u64()"@ + k3;
    let k5 = r + k4;
    let k6 = ": "@ + k5;
    let k7 = "cap"@ + k6;
    let k8 = ", "@ + k7;
    let k9 = "usize"@ + k8;
    let k10 = " as "@ + k9;
    let k11 = ".read_u64()"@ + k10;
    let k12 = r + k11;
    let k13 = ": "@ + k12;
    let k14 = "len"@ + k13;
    let k15 = ", "@ + k14;
    let k16 = "u8"@ + k15;
    let k17 = "*mut "@ + k16;
    let k18 = " as "@ + k17;
    let k19 = ".read_u64()"@ + k18;
    let k20 = r + k19;
    let k21 = ": "@ + k20;
    let k22 = "ptr"@ + k21;
    let k23 = ", "@ + k22;
    let k24 = "dynspire::managed::DynSpireAllocator"@ + k23;
    let k25 = "*mut "@ + k24;
    let k26 = " as "@ + k25;
    let k27 = ".read_u64()"@ + k26;
    let k28 = r + k27;
    let k29 = ": "@ + k28;
    let k30 = "allocator"@ + k29;
    let k31 = " { "@ + k30;
    let k32 = "dynspire::managed::DString"@ + k31;
    lemma_regroup("dynspire::managed::DString"@ + " { "@ + field_texts(fs12, 4), " }"@, k0);
    lemma_regroup("dynspire::managed::DString"@ + " { "@, field_texts(fs12, 4), k1);
    lemma_regroup(field_texts(fs12, 3) + ", "@ + "cap"@ + ": "@, text(e11), k1);
    lemma_regroup(text(e10) + " as "@, "usize"@, k1);
    lemma_regroup(text(e10), " as "@, k2);
    lemma_regroup(text(e9), ".read_u64()"@, k3);
    lemma_regroup(field_texts(fs12, 3) + ", "@ + "cap"@, ": "@, k5);
    lemma_regroup(field_texts(fs12, 3) + ", "@, "cap"@, k6);
    lemma_regroup(field_texts(fs12, 3), ", "@, k7);
    lemma_regroup(field_texts(fs12, 2) + ", "@ + "len"@ + ": "@, text(e8), k8);
    lemma_regroup(text(e7) + " as "@, "usize"@, k8);
    lemma_regroup(text(e7), " as "@, k9);
    lemma_regroup(text(e6), ".read_u64()"@, k10);
    lemma_regroup(field_texts(fs12, 2) + ", "@ + "len"@, ": "@, k12);
    lemma_regroup(field_texts(fs12, 2) + ", "@, "len"@, k13);
    lemma_regroup(field_texts(fs12, 2), ", "@, k14);
    lemma_regroup(field_texts(fs12, 1) + ", "@ + "ptr"@ + ": "@, text(e5), k15);
    lemma_regroup(text(e4) + " as "@, ("*mut "@ + "u8"@), k15);
    lemma_regroup("*mut "@, "u8"@, k15);
    lemma_regroup(text(e4), " as "@, k17);
    lemma_regroup(text(e3), ".read_u64()"@, k18);
    lemma_regroup(field_texts(fs12, 1) + ", "@ + "ptr"@, ": "@, k20);
    lemma_regroup(field_texts(fs12, 1) + ", "@, "ptr"@, k21);
    lemma_regroup(field_texts(fs12, 1), ", "@, k22);
    lemma_regroup("allocator"@ + ": "@, text(e2), k23);
    lemma_regroup(text(e1) + " as "@, ("*mut "@ + "dynspire::managed::DynSpireAllocator"@), k23);
    lemma_regroup("*mut "@, "dynspire::managed::DynSpireAllocator"@, k23);
    lemma_regroup(text(e1), " as "@, k25);
    lemma_regroup(text(e0), ".read_u64()"@, k26);
    lemma_regroup("allocator"@, ": "@, k28);
    lemma_regroup("dynspire::managed::DString"@, " { "@, k30);
    lemma_regroup("dynspire::managed::DString { allocator: "@ + r + ".read_u64() as *mut dynspire::managed::DynSpireAllocator, ptr: "@ + r + ".read_u64() as *mut u8, len: "@ + r + ".read_u64() as usize, cap: "@ + r, ".read_u64() as usize }"@, k0);
    lemma_regroup(".read_u64()"@ + " as "@ + "usize"@, " }"@, k0);
    lemma_regroup(".read_u64()"@ + " as "@, "usize"@, k1);
    lemma_regroup(".read_u64()"@, " as "@, k2);
    lemma_regroup("dynspire::managed::DString { allocator: "@ + r + ".read_u64() as *mut dynspire::managed::DynSpireAllocator, ptr: "@ + r + ".read_u64() as *mut u8, len: "@ + r + ".read_u64() as usize, cap: "@, r, k4);
    lemma_regroup("dynspire::managed::DString { allocator: "@ + r + ".read_u64() as *mut dynspire::managed::DynSpireAllocator, ptr: "@ + r + ".read_u64() as *mut u8, len: "@ + r, ".read_u64() as usize, cap: "@, k5);
    lemma_regroup(".read_u64()"@ + " as "@ + "usize"@ + ", "@ + "cap"@, ": "@, k5);
    lemma_regroup(".read_u64()"@ + " as "@ + "usize"@ + ", "@, "cap"@, k6);
    lemma_regroup(".read_u64()"@ + " as "@ + "usize"@, ", "@, k7);
    lemma_regroup(".read_u64()"@ + " as "@, "usize"@, k8);
    lemma_regroup(".read_u64()"@, " as "@, k9);
    lemma_regroup("dynspire::managed::DString { allocator: "@ + r + ".read_u64() as *mut dynspire::managed::DynSpireAllocator, ptr: "@ + r + ".read_u64() as *mut u8, len: "@, r, k11);
    lemma_regroup("dynspire::managed::DString { allocator: "@ + r + ".read_u64() as *mut dynspire::managed::DynSpireAllocator, ptr: "@ + r, ".read_u64() as *mut u8, len: "@, k12);
    lemma_regroup(".read_u64()"@ + " as "@ + "*mut "@ + "u8"@ + ", "@ + "len"@, ": "@, k12);
    lemma_regroup(".read_u64()"@ + " as "@ + "*mut "@ + "u8"@ + ", "@, "len"@, k13);
    lemma_regroup(".read_u64()"@ + " as "@ + "*mut "@ + "u8"@, ", "@, k14);
    lemma_regroup(".read_u64()"@ + " as "@ + "*mut "@, "u8"@, k15);
    lemma_regroup(".read_u64()"@ + " as "@, "*mut "@, k16);
    lemma_regroup(".read_u64()"@, " as "@, k17);
    lemma_regroup("dynspire::managed::DString { allocator: "@ + r + ".read_u64() as *mut dynspire::managed::DynSpireAllocator, ptr: "@, r, k19);
    lemma_regroup("dynspire::managed::DString { allocator: "@ + r, ".read_u64() as *mut dynspire::managed::DynSpireAllocator, ptr: "@, k20);
    lemma_regroup(".read_u64()"@ + " as "@ + "*mut "@ + "dynspire::managed::DynSpireAllocator"@ + ", "@ + "ptr"@, ": "@, k20);
    lemma_regroup(".read_u64()"@ + " as "@ + "*mut "@ + "dynspire::managed::DynSpireAllocator"@ + ", "@, "ptr"@, k21);
    lemma_regroup(".read_u64()"@ + " as "@ + "*mut "@ + "dynspire::managed::DynSpireAllocator"@, ", "@, k22);
    lemma_regroup(".read_u64()"@ + " as "@ + "*mut "@, "dynspire::managed::DynSpireAllocator"@, k23);
    lemma_regroup(".read_u64()"@ + " as "@, "*mut "@, k24);
    lemma_regroup(".read_u64()"@, " as "@, k25);
    lemma_regroup("dynspire::managed::DString { allocator: "@, r, k27);
    lemma_regroup("dynspire::managed::DString"@ + " { "@ + "allocator"@, ": "@, k28);
    lemma_regroup("dynspire::managed::DString"@ + " { "@, "allocator"@, k29);
    lemma_regroup("dynspire::managed::DString"@, " { "@, k30);
    lemma_end(text(e12), "dynspire::managed::DString { allocator: "@ + r + ".read_u64() as *mut dynspire::managed::DynSpireAllocator, ptr: "@ + r + ".read_u64() as *mut u8, len: "@ + r + ".read_u64() as usize, cap: "@ + r + ".read_u64() as usize }"@, k0);
    assert(e12 == dstring_ex(r));
}

pub open spec fn dvec_ex(r: Seq<char>, rt: Seq<char>) -> Ex {
    Ex::Record(Rec::DVec(rt), seq![(Fld::Allocator, Ex::As(Box::new(Ex::Call(Box::new(Ex::Name(r)), Meth::ReadU64)), Cast::Mut("dynspire::managed::DynSpireAllocator"@))), (Fld::Ptr, Ex::As(Box::new(Ex::Call(Box::new(Ex::Name(r)), Meth::ReadU64)), Cast::Mut(rt))), (Fld::Len, Ex::As(Box::new(Ex::Call(Box::new(Ex::Name(r)), Meth::ReadU64)), Cast::Usize)), (Fld::Cap, Ex::As(Box::new(Ex::Call(Box::new(Ex::Name(r)), Meth::ReadU64)), Cast::Usize))])
}

#[verifier::spinoff_prover]
#[verifier::rlimit(100)]
pub(crate) proof fn lemma_g_dvec(r: Seq<char>, rt: Seq<char>)
    ensures
        text(dvec_ex(r, rt)) == "dynspire::managed::DVec::<"@ + rt + "> { allocator: "@ + r + ".read_u64() as *mut dynspire::managed::DynSpireAllocator, ptr: "@ + r + ".read_u64() as *mut "@ + rt + ", len: "@ + r + ".read_u64() as usize, cap: "@ + r + ".read_u64() as usize }"@,
{
    lemma_casts();
    assert(alike("> { allocator: "@, ">"@ + " { "@ + "allocator"@ + ": "@)) by {
        reveal_strlit("> { allocator: ");
        reveal_strlit(">");
        reveal_strlit(" { ");
        reveal_strlit("allocator");
        reveal_strlit(": ");
        assert("> { allocator: "@ =~= ">"@ + " { "@ + "allocator"@ + ": "@);
    }
    assert(alike(".read_u64() as *mut dynspire::managed::DynSpireAllocator, ptr: "@, ".read_u64()"@ + " as "@ + "*mut "@ + "dynspire::managed::DynSpireAllocator"@ + ", "@ + "ptr"@ + ": "@)) by {
        reveal_strlit(".read_u64() as *mut dynspire::managed::DynSpireAllocator, ptr: ");
        reveal_strlit(".read_u64()");
        reveal_strlit(" as ");
        reveal_strlit("*mut ");
        reveal_strlit("dynspire::managed::DynSpireAllocator");
        reveal_strlit(", ");
        reveal_strlit("ptr");
        reveal_strlit(": ");
        assert(".read_u64() as *mut dynspire::managed::DynSpireAllocator, ptr: "@ =~= ".read_u64()"@ + " as "@ + "*mut "@ + "dynspire::managed::DynSpireAllocator"@ + ", "@ + "ptr"@ + ": "@);
    }
    assert(alike(".read_u64() as *mut "@, ".read_u64()"@ + " as "@ + "*mut "@)) by {
        reveal_strlit(".read_u64() as *mut ");
        reveal_strlit(".read_u64()");
        reveal_strlit(" as ");
        reveal_strlit("*mut ");
        assert(".read_u64() as *mut "@ =~= ".read_u64()"@ + " as "@ + "*mut "@);
    }
    assert(alike(", len: "@, ", "@ + "len"@ + ": "@)) by {
        reveal_strlit(", len: ");
        reveal_strlit(", ");
        reveal_strlit("len");
        reveal_strlit(": ");
        assert(", len: "@ =~= ", "@ + "len"@ + ": "@);
    }
    assert(alike(".read_u64() as usize, cap: "@, ".read_u64()"@ + " as "@ + "usize"@ + ", "@ + "cap"@ + ": "@)) by {
        reveal_strlit(".read_u64() as usize, cap: ");
        reveal_strlit(".read_u64()");
        reveal_strlit(" as ");
        reveal_strlit("usize");
        reveal_strlit(", ");
        reveal_strlit("cap");
        reveal_strlit(": ");
        assert(".read_u64() as usize, cap: "@ =~= ".read_u64()"@ + " as "@ + "usize"@ + ", "@ + "cap"@ + ": "@);
    }
    assert(alike(".read_u64() as usize }"@, ".read_u64()"@ + " as "@ + "usize"@ + " }"@)) by {
        reveal_strlit(".read_u64() as usize }");
        reveal_strlit(".read_u64()");
        reveal_strlit(" as ");
        reveal_strlit("usize");
        reveal_strlit(" }");
        assert(".read_u64() as usize }"@ =~= ".read_u64()"@ + " as "@ + "usize"@ + " }"@);
    }
    let e0 = Ex::Name(r);
    let e1 = Ex::Call(Box::new(e0), Meth::ReadU64);
    let e2 = Ex::As(Box::new(e1), Cast::Mut("dynspire::managed::DynSpireAllocator"@));
    let e3 = Ex::Name(r);
    let e4 = Ex::Call(Box::new(e3), Meth::ReadU64);
    let e5 = Ex::As(Box::new(e4), Cast::Mut(rt));
    let e6 = Ex::Name(r);
    let e7 = Ex::Call(Box::new(e6), Meth::ReadU64);
    let e8 = Ex::As(Box::new(e7), Cast::Usize);
    let e9 = Ex::Name(r);
    let e10 = Ex::Call(Box::new(e9), Meth::ReadU64);
    let e11 = Ex::As(Box::new(e10), Cast::Usize);
    let fs12 = seq![(Fld::Allocator, e2), (Fld::Ptr, e5), (Fld::Len, e8), (Fld::Cap, e11)];
    assert(fs12[0] == (Fld::Allocator, e2));
    assert(fs12[1] == (Fld::Ptr, e5));
    assert(fs12[2] == (Fld::Len, e8));
    assert(fs12[3] == (Fld::Cap, e11));
    let e12 = Ex::Record(Rec::DVec(rt), fs12);
    let k0 = Seq::<char>::empty();
    let k1 = " }"@ + k0;
    let k2 = "usize"@ + k1;
    let k3 = " as "@ + k2;
    let k4 = ".read_u64()"@ + k3;
    let k5 = r + k4;
    let k6 = ": "@ + k5;
    let k7 = "cap"@ + k6;
    let k8 = ", "@ + k7;
    let k9 = "usize"@ + k8;
    let k10 = " as "@ + k9;
    let k11 = ".read_u64()"@ + k10;
    let k12 = r + k11;
    let k13 = ": "@ + k12;
    let k14 = "len"@ + k13;
    let k15 = ", "@ + k14;
    let k16 = rt + k15;
    let k17 = "*mut "@ + k16;
    let k18 = " as "@ + k17;
    let k19 = ".read_u64()"@ + k18;
    let k20 = r + k19;
    let k21 = ": "@ + k20;
    let k22 = "ptr"@ + k21;
    let k23 = ", "@ + k22;
    let k24 = "dynspire::managed::DynSpireAllocator"@ + k23;
    let k25 = "*mut "@ + k24;
    let k26 = " as "@ + k25;
    let k27 = ".read_u64()"@ + k26;
    let k28 = r + k27;
    let k29 = ": "@ + k28;
    let k30 = "allocator"@ + k29;
    let k31 = " { "@ + k30;
    let k32 = ">"@ + k31;
    let k33 = rt + k32;
    let k34 = "dynspire::managed::DVec::<"@ + k33;
    lemma_regroup(("dynspire::managed::DVec::<"@ + rt + ">"@) + " { "@ + field_texts(fs12, 4), " }"@, k0);
    lemma_regroup(("dynspire::managed::DVec::<"@ + rt + ">"@) + " { "@, field_texts(fs12, 4), k1);
    lemma_regroup(field_texts(fs12, 3) + ", "@ + "cap"@ + ": "@, text(e11), k1);
    lemma_regroup(text(e10) + " as "@, "usize"@, k1);
    lemma_regroup(text(e10), " as "@, k2);
    lemma_regroup(text(e9), ".read_u64()"@, k3);
    lemma_regroup(field_texts(fs12, 3) + ", "@ + "cap"@, ": "@, k5);
    lemma_regroup(field_texts(fs12, 3) + ", "@, "cap"@, k6);
    lemma_regroup(field_texts(fs12, 3), ", "@, k7);
    lemma_regroup(field_texts(fs12, 2) + ", "@ + "len"@ + ": "@, text(e8), k8);
    lemma_regroup(text(e7) + " as "@, "usize"@, k8);
    lemma_regroup(text(e7), " as "@, k9);
    lemma_regroup(text(e6), ".read_u64()"@, k10);
    lemma_regroup(field_texts(fs12, 2) + ", "@ + "len"@, ": "@, k12);
    lemma_regroup(field_texts(fs12, 2) + ", "@, "len"@, k13);
    lemma_regroup(field_texts(fs12, 2), ", "@, k14);
    lemma_regroup(field_texts(fs12, 1) + ", "@ + "ptr"@ + ": "@, text(e5), k15);
    lemma_regroup(text(e4) + " as "@, ("*mut "@ + rt), k15);
    lemma_regroup("*mut "@, rt, k15);
    lemma_regroup(text(e4), " as "@, k17);
    lemma_regroup(text(e3), ".read_u64()"@, k18);
    lemma_regroup(field_texts(fs12, 1) + ", "@ + "ptr"@, ": "@, k20);
    lemma_regroup(field_texts(fs12, 1) + ", "@, "ptr"@, k21);
    lemma_regroup(field_texts(fs12, 1), ", "@, k22);
    lemma_regroup("allocator"@ + ": "@, text(e2), k23);
    lemma_regroup(text(e1) + " as "@, ("*mut "@ + "dynspire::managed::DynSpireAllocator"@), k23);
    lemma_regroup("*mut "@, "dynspire::managed::DynSpireAllocator"@, k23);
    lemma_regroup(text(e1), " as "@, k25);
    lemma_regroup(text(e0), ".read_u64()"@, k26);
    lemma_regroup("allocator"@, ": "@, k28);
    lemma_regroup(("dynspire::managed::DVec::<"@ + rt + ">"@), " { "@, k30);
    lemma_regroup("dynspire::managed::DVec::<"@ + rt, ">"@, k31);
    lemma_regroup("dynspire::managed::DVec::<"@, rt, k32);
    lemma_regroup("dynspire::managed::DVec::<"@ + rt + "> { allocator: "@ + r + ".read_u64() as *mut dynspire::managed::DynSpireAllocator, ptr: "@ + r + ".read_u64() as *mut "@ + rt + ", len: "@ + r + ".read_u64() as usize, cap: "@ + r, ".read_u64() as usize }"@, k0);
    lemma_regroup(".read_u64()"@ + " as "@ + "usize"@, " }"@, k0);
    lemma_regroup(".read_u64()"@ + " as "@, "usize"@, k1);
    lemma_regroup(".read_u64()"@, " as "@, k2);
    lemma_regroup("dynspire::managed::DVec::<"@ + rt + "> { allocator: "@ + r + ".read_u64() as *mut dynspire::managed::DynSpireAllocator, ptr: "@ + r + ".read_u64() as *mut "@ + rt + ", len: "@ + r + ".read_u64() as usize, cap: "@, r, k4);
    lemma_regroup("dynspire::managed::DVec::<"@ + rt + "> { allocator: "@ + r + ".read_u64() as *mut dynspire::managed::DynSpireAllocator, ptr: "@ + r + ".read_u64() as *mut "@ + rt + ", len: "@ + r, ".read_u64() as usize, cap: "@, k5);
    lemma_regroup(".read_u64()"@ + " as "@ + "usize"@ + ", "@ + "cap"@, ": "@, k5);
    lemma_regroup(".read_u64()"@ + " as "@ + "usize"@ + ", "@, "cap"@, k6);
    lemma_regroup(".read_u64()"@ + " as "@ + "usize"@, ", "@, k7);
    lemma_regroup(".read_u64()"@ + " as "@, "usize"@, k8);
    lemma_regroup(".read_u64()"@, " as "@, k9);
    lemma_regroup("dynspire::managed::DVec::<"@ + rt + "> { allocator: "@ + r + ".read_u64() as *mut dynspire::managed::DynSpireAllocator, ptr: "@ + r + ".read_u64() as *mut "@ + rt + ", len: "@, r, k11);
    lemma_regroup("dynspire::managed::DVec::<"@ + rt + "> { allocator: "@ + r + ".read_u64() as *mut dynspire::managed::DynSpireAllocator, ptr: "@ + r + ".read_u64() as *mut "@ + rt, ", len: "@, k12);
    lemma_regroup(", "@ + "len"@, ": "@, k12);
    lemma_regroup(", "@, "len"@, k13);
    lemma_regroup("dynspire::managed::DVec::<"@ + rt + "> { allocator: "@ + r + ".read_u64() as *mut dynspire::managed::DynSpireAllocator, ptr: "@ + r + ".read_u64() as *mut "@, rt, k15);
    lemma_regroup("dynspire::managed::DVec::<"@ + rt + "> { allocator: "@ + r + ".read_u64() as *mut dynspire::managed::DynSpireAllocator, ptr: "@ + r, ".read_u64() as *mut "@, k16);
    lemma_regroup(".read_u64()"@ + " as "@, "*mut "@, k16);
    lemma_regroup(".read_u64()"@, " as "@, k17);
    lemma_regroup("dynspire::managed::DVec::<"@ + rt + "> { allocator: "@ + r + ".read_u64() as *mut dynspire::managed::DynSpireAllocator, ptr: "@, r, k19);
    lemma_regroup("dynspire::managed::DVec::<"@ + rt + "> { allocator: "@ + r, ".read_u64() as *mut dynspire::managed::DynSpireAllocator, ptr: "@, k20);
    lemma_regroup(".read_u64()"@ + " as "@ + "*mut "@ + "dynspire::managed::DynSpireAllocator"@ + ", "@ + "ptr"@, ": "@, k20);
    lemma_regroup(".read_u64()"@ + " as "@ + "*mut "@ + "dynspire::managed::DynSpireAllocator"@ + ", "@, "ptr"@, k21);
    lemma_regroup(".read_u64()"@ + " as "@ + "*mut "@ + "dynspire::managed::DynSpireAllocator"@, ", "@, k22);
    lemma_regroup(".read_u64()"@ + " as "@ + "*mut "@, "dynspire::managed::DynSpireAllocator"@, k23);
    lemma_regroup(".read_u64()"@ + " as "@, "*mut "@, k24);
    lemma_regroup(".read_u64()"@, " as "@, k25);
    lemma_regroup("dynspire::managed::DVec::<"@ + rt + "> { allocator: "@, r, k27);
    lemma_regroup("dynspire::managed::DVec::<"@ + rt, "> { allocator: "@, k28);
    lemma_regroup(">"@ + " { "@ + "allocator"@, ": "@, k28);
    lemma_regroup(">"@ + " { "@, "allocator"@, k29);
    lemma_regroup(">"@, " { "@, k30);
    lemma_regroup("dynspire::managed::DVec::<"@, rt, k32);
    lemma_end(text(e12), "dynspire::managed::DVec::<"@ + rt + "> { allocator: "@ + r + ".read_u64() as *mut dynspire::managed::DynSpireAllocator, ptr: "@ + r + ".read_u64() as *mut "@ + rt + ", len: "@ + r + ".read_u64() as usize, cap: "@ + r + ".read_u64() as usize }"@, k0);
    assert(e12 == dvec_ex(r, rt));
}

pub open spec fn own_dstring_ex(r: Seq<char>) -> Ex {
    Ex::Block(false, seq![St::Let(false, "__alloc"@, Ex::As(Box::new(Ex::Call(Box::new(Ex::Name(r)), Meth::ReadU64)), Cast::Mut("dynspire::managed::DynSpireAllocator"@))), St::Blank(" "@), St::Let(false, "__ptr"@, Ex::As(Box::new(Ex::Call(Box::new(Ex::Name(r)), Meth::ReadU64)), Cast::Mut("u8"@))), St::Blank(" "@), St::Let(false, "__len"@, Ex::As(Box::new(Ex::Call(Box::new(Ex::Name(r)), Meth::ReadU64)), Cast::Usize)), St::Blank(" "@), St::Let(false, "__cap"@, Ex::As(Box::new(Ex::Call(Box::new(Ex::Name(r)), Meth::ReadU64)), Cast::Usize)), St::Blank(" "@)], Box::new(Ex::Apply(Fun::OwnString, seq![Ex::Record(Rec::DString, seq![(Fld::Allocator, Ex::Name("__alloc"@)), (Fld::Ptr, Ex::Name("__ptr"@)), (Fld::Len, Ex::Name("__len"@)), (Fld::Cap, Ex::Name("__cap"@))])])))
}

#[verifier::spinoff_prover]
#[verifier::rlimit(100)]
pub(crate) proof fn lemma_g_own_dstring_parts(r: Seq<char>)
    ensures
        text(own_dstring_ex(r)) == ("{ "@ + (((((((("let "@ + "__alloc"@ + " = "@ + ((r + ".read_u64()"@) + " as "@ + ("*mut "@ + "dynspire::managed::DynSpireAllocator"@)) + ";"@) + " "@) + ("let "@ + "__ptr"@ + " = "@ + ((r + ".read_u64()"@) + " as "@ + ("*mut "@ + "u8"@)) + ";"@)) + " "@) + ("let "@ + "__len"@ + " = "@ + ((r + ".read_u64()"@) + " as "@ + "usize"@) + ";"@)) + " "@) + ("let "@ + "__cap"@ + " = "@ + ((r + ".read_u64()"@) + " as "@ + "usize"@) + ";"@)) + " "@) + ("dynspire::managed::OwnedDString::from_raw"@ + "("@ + ("dynspire::managed::DString"@ + " { "@ + (((("allocator"@ + ": "@ + "__alloc"@) + ", "@ + "ptr"@ + ": "@ + "__ptr"@) + ", "@ + "len"@ + ": "@ + "__len"@) + ", "@ + "cap"@ + ": "@ + "__cap"@) + " }"@) + ")"@) + " }"@),
{
    lemma_casts();
    let e0 = Ex::Name(r);
    let e1 = Ex::Call(Box::new(e0), Meth::ReadU64);
    let e2 = Ex::As(Box::new(e1), Cast::Mut("dynspire::managed::DynSpireAllocator"@));
    let e3 = St::Let(false, "__alloc"@, e2);
    let e4 = St::Blank(" "@);
    let e5 = Ex::Name(r);
    let e6 = Ex::Call(Box::new(e5), Meth::ReadU64);
    let e7 = Ex::As(Box::new(e6), Cast::Mut("u8"@));
    let e8 = St::Let(false, "__ptr"@, e7);
    let e9 = St::Blank(" "@);
    let e10 = Ex::Name(r);
    let e11 = Ex::Call(Box::new(e10), Meth::ReadU64);
    let e12 = Ex::As(Box::new(e11), Cast::Usize);
    let e13 = St::Let(false, "__len"@, e12);
    let e14 = St::Blank(" "@);
    let e15 = Ex::Name(r);
    let e16 = Ex::Call(Box::new(e15), Meth::ReadU64);
    let e17 = Ex::As(Box::new(e16), Cast::Usize);
    let e18 = St::Let(false, "__cap"@, e17);
    let e19 = St::Blank(" "@);
    let e20 = Ex::Name("__alloc"@);
    let e21 = Ex::Name("__ptr"@);
    let e22 = Ex::Name("__len"@);
    let e23 = Ex::Name("__cap"@);
    let fs24 = seq![(Fld::Allocator, e20), (Fld::Ptr, e21), (Fld::Len, e22), (Fld::Cap, e23)];
    assert(fs24[0] == (Fld::Allocator, e20));
    assert(fs24[1] == (Fld::Ptr, e21));
    assert(fs24[2] == (Fld::Len, e22));
    assert(fs24[3] == (Fld::Cap, e23));
    let e24 = Ex::Record(Rec::DString, fs24);
    let es25 = seq![e24];
    assert(es25[0] == e24);
    let e25 = Ex::Apply(Fun::OwnString, es25);
    assert(es25.len() == 1);
    lemma_first_text(es25);
    let ss26 = seq![e3, e4, e8, e9, e13, e14, e18, e19];
    assert(ss26[0] == e3);
    assert(ss26[1] == e4);
    assert(ss26[2] == e8);
    assert(ss26[3] == e9);
    assert(ss26[4] == e13);
    assert(ss26[5] == e14);
    assert(ss26[6] == e18);
    assert(ss26[7] == e19);
    assert(ss26.len() == 8);
    lemma_first_line(ss26);
    let e26 = Ex::Block(false, ss26, Box::new(e25));
    assert(text(e0) == r);
    assert(text(e1) == (r + ".read_u64()"@));
    assert(text(e2) == ((r + ".read_u64()"@) + " as "@ + ("*mut "@ + "dynspire::managed::DynSpireAllocator"@)));
    assert(line(e3) == ("let "@ + "__alloc"@ + " = "@ + ((r + ".read_u64()"@) + " as "@ + ("*mut "@ + "dynspire::managed::DynSpireAllocator"@)) + ";"@));
    assert(lines(ss26, 1) == ("let "@ + "__alloc"@ + " = "@ + ((r + ".read_u64()"@) + " as "@ + ("*mut "@ + "dynspire::managed::DynSpireAllocator"@)) + ";"@));
    assert(line(e4) == " "@);
    assert(lines(ss26, 2) == (("let "@ + "__alloc"@ + " = "@ + ((r + ".read_u64()"@) + " as "@ + ("*mut "@ + "dynspire::managed::DynSpireAllocator"@)) + ";"@) + " "@));
    assert(text(e5) == r);
    assert(text(e6) == (r + ".read_u64()"@));
    assert(text(e7) == ((r + ".read_u64()"@) + " as "@ + ("*mut "@ + "u8"@)));
    assert(line(e8) == ("let "@ + "__ptr"@ + " = "@ + ((r + ".read_u64()"@) + " as "@ + ("*mut "@ + "u8"@)) + ";"@));
    assert(lines(ss26, 3) == ((("let "@ + "__alloc"@ + " = "@ + ((r + ".read_u64()"@) + " as "@ + ("*mut "@ + "dynspire::managed::DynSpireAllocator"@)) + ";"@) + " "@) + ("let "@ + "__ptr"@ + " = "@ + ((r + ".read_u64()"@) + " as "@ + ("*mut "@ + "u8"@)) + ";"@)));
    assert(line(e9) == " "@);
    assert(lines(ss26, 4) == (((("let "@ + "__alloc"@ + " = "@ + ((r + ".read_u64()"@) + " as "@ + ("*mut "@ + "dynspire::managed::DynSpireAllocator"@)) + ";"@) + " "@) + ("let "@ + "__ptr"@ + " = "@ + ((r + ".read_u64()"@) + " as "@ + ("*mut "@ + "u8"@)) + ";"@)) + " "@));
    assert(text(e10) == r);
    assert(text(e11) == (r + ".read_u64()"@));
    assert(text(e12) == ((r + ".read_u64()"@) + " as "@ + "usize"@));
    assert(line(e13) == ("let "@ + "__len"@ + " = "@ + ((r + ".read_u64()"@) + " as "@ + "usize"@) + ";"@));
    assert(lines(ss26, 5) == ((((("let "@ + "__alloc"@ + " = "@ + ((r + ".read_u64()"@) + " as "@ + ("*mut "@ + "dynspire::managed::DynSpireAllocator"@)) + ";"@) + " "@) + ("let "@ + "__ptr"@ + " = "@ + ((r + ".read_u64()"@) + " as "@ + ("*mut "@ + "u8"@)) + ";"@)) + " "@) + ("let "@ + "__len"@ + " = "@ + ((r + ".read_u64()"@) + " as "@ + "usize"@) + ";"@)));
    assert(line(e14) == " "@);
    assert(lines(ss26, 6) == (((((("let "@ + "__alloc"@ + " = "@ + ((r + ".read_u64()"@) + " as "@ + ("*mut "@ + "dynspire::managed::DynSpireAllocator"@)) + ";"@) + " "@) + ("let "@ + "__ptr"@ + " = "@ + ((r + ".read_u64()"@) + " as "@ + ("*mut "@ + "u8"@)) + ";"@)) + " "@) + ("let "@ + "__len"@ + " = "@ + ((r + ".read_u64()"@) + " as "@ + "usize"@) + ";"@)) + " "@));
    assert(text(e15) == r);
    assert(text(e16) == (r + ".read_u64()"@));
    assert(text(e17) == ((r + ".read_u64()"@) + " as "@ + "usize"@));
    assert(line(e18) == ("let "@ + "__cap"@ + " = "@ + ((r + ".read_u64()"@) + " as "@ + "usize"@) + ";"@));
    assert(lines(ss26, 7) == ((((((("let "@ + "__alloc"@ + " = "@ + ((r + ".read_u64()"@) + " as "@ + ("*mut "@ + "dynspire::managed::DynSpireAllocator"@)) + ";"@) + " "@) + ("let "@ + "__ptr"@ + " = "@ + ((r + ".read_u64()"@) + " as "@ + ("*mut "@ + "u8"@)) + ";"@)) + " "@) + ("let "@ + "__len"@ + " = "@ + ((r + ".read_u64()"@) + " as "@ + "usize"@) + ";"@)) + " "@) + ("let "@ + "__cap"@ + " = "@ + ((r + ".read_u64()"@) + " as "@ + "usize"@) + ";"@)));
    assert(line(e19) == " "@);
    assert(lines(ss26, 8) == (((((((("let "@ + "__alloc"@ + " = "@ + ((r + ".read_u64()"@) + " as "@ + ("*mut "@ + "dynspire::managed::DynSpireAllocator"@)) + ";"@) + " "@) + ("let "@ + "__ptr"@ + " = "@ + ((r + ".read_u64()"@) + " as "@ + ("*mut "@ + "u8"@)) + ";"@)) + " "@) + ("let "@ + "__len"@ + " = "@ + ((r + ".read_u64()"@) + " as "@ + "usize"@) + ";"@)) + " "@) + ("let "@ + "__cap"@ + " = "@ + ((r + ".read_u64()"@) + " as "@ + "usize"@) + ";"@)) + " "@));
    assert(text(e20) == "__alloc"@);
    assert(field_texts(fs24, 1) == ("allocator"@ + ": "@ + "__alloc"@));
    assert(text(e21) == "__ptr"@);
    assert(field_texts(fs24, 2) == (("allocator"@ + ": "@ + "__alloc"@) + ", "@ + "ptr"@ + ": "@ + "__ptr"@));
    assert(text(e22) == "__len"@);
    assert(field_texts(fs24, 3) == ((("allocator"@ + ": "@ + "__alloc"@) + ", "@ + "ptr"@ + ": "@ + "__ptr"@) + ", "@ + "len"@ + ": "@ + "__len"@));
    assert(text(e23) == "__cap"@);
    assert(field_texts(fs24, 4) == (((("allocator"@ + ": "@ + "__alloc"@) + ", "@ + "ptr"@ + ": "@ + "__ptr"@) + ", "@ + "len"@ + ": "@ + "__len"@) + ", "@ + "cap"@ + ": "@ + "__cap"@));
    assert(text(e24) == ("dynspire::managed::DString"@ + " { "@ + (((("allocator"@ + ": "@ + "__alloc"@) + ", "@ + "ptr"@ + ": "@ + "__ptr"@) + ", "@ + "len"@ + ": "@ + "__len"@) + ", "@ + "cap"@ + ": "@ + "__cap"@) + " }"@));
    assert(texts(es25, 1) == ("dynspire::managed::DString"@ + " { "@ + (((("allocator"@ + ": "@ + "__alloc"@) + ", "@ + "ptr"@ + ": "@ + "__ptr"@) + ", "@ + "len"@ + ": "@ + "__len"@) + ", "@ + "cap"@ + ": "@ + "__cap"@) + " }"@));
    assert(text(e25) == ("dynspire::managed::OwnedDString::from_raw"@ + "("@ + ("dynspire::managed::DString"@ + " { "@ + (((("allocator"@ + ": "@ + "__alloc"@) + ", "@ + "ptr"@ + ": "@ + "__ptr"@) + ", "@ + "len"@ + ": "@ + "__len"@) + ", "@ + "cap"@ + ": "@ + "__cap"@) + " }"@) + ")"@));
    assert(text(e26) == ("{ "@ + (((((((("let "@ + "__alloc"@ + " = "@ + ((r + ".read_u64()"@) + " as "@ + ("*mut "@ + "dynspire::managed::DynSpireAllocator"@)) + ";"@) + " "@) + ("let "@ + "__ptr"@ + " = "@ + ((r + ".read_u64()"@) + " as "@ + ("*mut "@ + "u8"@)) + ";"@)) + " "@) + ("let "@ + "__len"@ + " = "@ + ((r + ".read_u64()"@) + " as "@ + "usize"@) + ";"@)) + " "@) + ("let "@ + "__cap"@ + " = "@ + ((r + ".read_u64()"@) + " as "@ + "usize"@) + ";"@)) + " "@) + ("dynspire::managed::OwnedDString::from_raw"@ + "("@ + ("dynspire::managed::DString"@ + " { "@ + (((("allocator"@ + ": "@ + "__alloc"@) + ", "@ + "ptr"@ + ": "@ + "__ptr"@) + ", "@ + "len"@ + ": "@ + "__len"@) + ", "@ + "cap"@ + ": "@ + "__cap"@) + " }"@) + ")"@) + " }"@));
    assert(e26 == own_dstring_ex(r));
}

#[verifier::spinoff_prover]
#[verifier::rlimit(60)]
pub(crate) proof fn lemma_cat_own_dstring(r: Seq<char>)
    ensures
        alike("{ "@ + (((((((("let "@ + "__alloc"@ + " = "@ + ((r + ".read_u64()"@) + " as "@ + ("*mut "@ + "dynspire::managed::DynSpireAllocator"@)) + ";"@) + " "@) + ("let "@ + "__ptr"@ + " = "@ + ((r + ".read_u64()"@) + " as "@ + ("*mut "@ + "u8"@)) + ";"@)) + " "@) + ("let "@ + "__len"@ + " = "@ + ((r + ".read_u64()"@) + " as "@ + "usize"@) + ";"@)) + " "@) + ("let "@ + "__cap"@ + " = "@ + ((r + ".read_u64()"@) + " as "@ + "usize"@) + ";"@)) + " "@) + ("dynspire::managed::OwnedDString::from_raw"@ + "("@ + ("dynspire::managed::DString"@ + " { "@ + (((("allocator"@ + ": "@ + "__alloc"@) + ", "@ + "ptr"@ + ": "@ + "__ptr"@) + ", "@ + "len"@ + ": "@ + "__len"@) + ", "@ + "cap"@ + ": "@ + "__cap"@) + " }"@) + ")"@) + " }"@, "{ let __alloc = "@ + r + ".read_u64() as *mut dynspire::managed::DynSpireAllocator; let __ptr = "@ + r + ".read_u64() as *mut u8; let __len = "@ + r + ".read_u64() as usize; let __cap = "@ + r + ".read_u64() as usize; dynspire::managed::OwnedDString::from_raw(dynspire::managed::DString { allocator: __alloc, ptr: __ptr, len: __len, cap: __cap }) }"@),
{
    assert(alike("{ let __alloc = "@, "{ "@ + "let "@ + "__alloc"@ + " = "@)) by {
        reveal_strlit("{ let __alloc = ");
        reveal_strlit("{ ");
        reveal_strlit("let ");
        reveal_strlit("__alloc");
        reveal_strlit(" = ");
        assert("{ let __alloc = "@ =~= "{ "@ + "let "@ + "__alloc"@ + " = "@);
    }
    assert(alike(".read_u64() as *mut dynspire::managed::DynSpireAllocator; let __ptr = "@, ".read_u64()"@ + " as "@ + "*mut "@ + "dynspire::managed::DynSpireAllocator"@ + ";"@ + " "@ + "let "@ + "__ptr"@ + " = "@)) by {
        reveal_strlit(".read_u64() as *mut dynspire::managed::DynSpireAllocator; let __ptr = ");
        reveal_strlit(".read_u64()");
        reveal_strlit(" as ");
        reveal_strlit("*mut ");
        reveal_strlit("dynspire::managed::DynSpireAllocator");
        reveal_strlit(";");
        reveal_strlit(" ");
        reveal_strlit("let ");
        reveal_strlit("__ptr");
        reveal_strlit(" = ");
        assert(".read_u64() as *mut dynspire::managed::DynSpireAllocator; let __ptr = "@ =~= ".read_u64()"@ + " as "@ + "*mut "@ + "dynspire::managed::DynSpireAllocator"@ + ";"@ + " "@ + "let "@ + "__ptr"@ + " = "@);
    }
    assert(alike(".read_u64() as *mut u8; let __len = "@, ".read_u64()"@ + " as "@ + "*mut "@ + "u8"@ + ";"@ + " "@ + "let "@ + "__len"@ + " = "@)) by {
        reveal_strlit(".read_u64() as *mut u8; let __len = ");
        reveal_strlit(".read_u64()");
        reveal_strlit(" as ");
        reveal_strlit("*mut ");
        reveal_strlit("u8");
        reveal_strlit(";");
        reveal_strlit(" ");
        reveal_strlit("let ");
        reveal_strlit("__len");
        reveal_strlit(" = ");
        assert(".read_u64() as *mut u8; let __len = "@ =~= ".read_u64()"@ + " as "@ + "*mut "@ + "u8"@ + ";"@ + " "@ + "let "@ + "__len"@ + " = "@);
    }
    assert(alike(".read_u64() as usize; let __cap = "@, ".read_u64()"@ + " as "@ + "usize"@ + ";"@ + " "@ + "let "@ + "__cap"@ + " = "@)) by {
        reveal_strlit(".read_u64() as usize; let __cap = ");
        reveal_strlit(".read_u64()");
        reveal_strlit(" as ");
        reveal_strlit("usize");
        reveal_strlit(";");
        reveal_strlit(" ");
        reveal_strlit("let ");
        reveal_strlit("__cap");
        reveal_strlit(" = ");
        assert(".read_u64() as usize; let __cap = "@ =~= ".read_u64()"@ + " as "@ + "usize"@ + ";"@ + " "@ + "let "@ + "__cap"@ + " = "@);
    }
    assert(alike(".read_u64() as usize; dynspire::managed::OwnedDString::from_raw(dynspire::managed::DString { allocator: __alloc, ptr: __ptr, len: __len, cap: __cap }) }"@, ".read_u64()"@ + " as "@ + "usize"@ + ";"@ + " "@ + "dynspire::managed::OwnedDString::from_raw"@ + "("@ + "dynspire::managed::DString"@ + " { "@ + "allocator"@ + ": "@ + "__alloc"@ + ", "@ + "ptr"@ + ": "@ + "__ptr"@ + ", "@ + "len"@ + ": "@ + "__len"@ + ", "@ + "cap"@ + ": "@ + "__cap"@ + " }"@ + ")"@ + " }"@)) by {
        reveal_strlit(".read_u64() as usize; dynspire::managed::OwnedDString::from_raw(dynspire::managed::DString { allocator: __alloc, ptr: __ptr, len: __len, cap: __cap }) }");
        reveal_strlit(".read_u64()");
        reveal_strlit(" as ");
        reveal_strlit("usize");
        reveal_strlit(";");
        reveal_strlit(" ");
        reveal_strlit("dynspire::managed::OwnedDString::from_raw");
        reveal_strlit("(");
        reveal_strlit("dynspire::managed::DString");
        reveal_strlit(" { ");
        reveal_strlit("allocator");
        reveal_strlit(": ");
        reveal_strlit("__alloc");
        reveal_strlit(", ");
        reveal_strlit("ptr");
        reveal_strlit("__ptr");
        reveal_strlit("len");
        reveal_strlit("__len");
        reveal_strlit("cap");
        reveal_strlit("__cap");
        reveal_strlit(" }");
        reveal_strlit(")");
        assert(".read_u64() as usize; dynspire::managed::OwnedDString::from_raw(dynspire::managed::DString { allocator: __alloc, ptr: __ptr, len: __len, cap: __cap }) }"@ =~= ".read_u64()"@ + " as "@ + "usize"@ + ";"@ + " "@ + "dynspire::managed::OwnedDString::from_raw"@ + "("@ + "dynspire::managed::DString"@ + " { "@ + "allocator"@ + ": "@ + "__alloc"@ + ", "@ + "ptr"@ + ": "@ + "__ptr"@ + ", "@ + "len"@ + ": "@ + "__len"@ + ", "@ + "cap"@ + ": "@ + "__cap"@ + " }"@ + ")"@ + " }"@);
    }
    let k0 = Seq::<char>::empty();
    let k1 = " }"@ + k0;
    let k2 = ")"@ + k1;
    let k3 = " }"@ + k2;
    let k4 = "__cap"@ + k3;
    let k5 = ": "@ + k4;
    let k6 = "cap"@ + k5;
    let k7 = ", "@ + k6;
    let k8 = "__len"@ + k7;
    let k9 = ": "@ + k8;
    let k10 = "len"@ + k9;
    let k11 = ", "@ + k10;
    let k12 = "__ptr"@ + k11;
    let k13 = ": "@ + k12;
    let k14 = "ptr"@ + k13;
    let k15 = ", "@ + k14;
    let k16 = "__alloc"@ + k15;
    let k17 = ": "@ + k16;
    let k18 = "allocator"@ + k17;
    let k19 = " { "@ + k18;
    let k20 = "dynspire::managed::DString"@ + k19;
    let k21 = "("@ + k20;
    let k22 = "dynspire::managed::OwnedDString::from_raw"@ + k21;
    let k23 = " "@ + k22;
    let k24 = ";"@ + k23;
    let k25 = "usize"@ + k24;
    let k26 = " as "@ + k25;
    let k27 = ".read_u64()"@ + k26;
    let k28 = r + k27;
    let k29 = " = "@ + k28;
    let k30 = "__cap"@ + k29;
    let k31 = "let "@ + k30;
    let k32 = " "@ + k31;
    let k33 = ";"@ + k32;
    let k34 = "usize"@ + k33;
    let k35 = " as "@ + k34;
    let k36 = ".read_u64()"@ + k35;
    let k37 = r + k36;
    let k38 = " = "@ + k37;
    let k39 = "__len"@ + k38;
    let k40 = "let "@ + k39;
    let k41 = " "@ + k40;
    let k42 = ";"@ + k41;
    let k43 = "u8"@ + k42;
    let k44 = "*mut "@ + k43;
    let k45 = " as "@ + k44;
    let k46 = ".read_u64()"@ + k45;
    let k47 = r + k46;
    let k48 = " = "@ + k47;
    let k49 = "__ptr"@ + k48;
    let k50 = "let "@ + k49;
    let k51 = " "@ + k50;
    let k52 = ";"@ + k51;
    let k53 = "dynspire::managed::DynSpireAllocator"@ + k52;
    let k54 = "*mut "@ + k53;
    let k55 = " as "@ + k54;
    let k56 = ".read_u64()"@ + k55;
    let k57 = r + k56;
    let k58 = " = "@ + k57;
    let k59 = "__alloc"@ + k58;
    let k60 = "let "@ + k59;
    let k61 = "{ "@ + k60;
    lemma_regroup("{ "@ + (((((((("let "@ + "__alloc"@ + " = "@ + ((r + ".read_u64()"@) + " as "@ + ("*mut "@ + "dynspire::managed::DynSpireAllocator"@)) + ";"@) + " "@) + ("let "@ + "__ptr"@ + " = "@ + ((r + ".read_u64()"@) + " as "@ + ("*mut "@ + "u8"@)) + ";"@)) + " "@) + ("let "@ + "__len"@ + " = "@ + ((r + ".read_u64()"@) + " as "@ + "usize"@) + ";"@)) + " "@) + ("let "@ + "__cap"@ + " = "@ + ((r + ".read_u64()"@) + " as "@ + "usize"@) + ";"@)) + " "@) + ("dynspire::managed::OwnedDString::from_raw"@ + "("@ + ("dynspire::managed::DString"@ + " { "@ + (((("allocator"@ + ": "@ + "__alloc"@) + ", "@ + "ptr"@ + ": "@ + "__ptr"@) + ", "@ + "len"@ + ": "@ + "__len"@) + ", "@ + "cap"@ + ": "@ + "__cap"@) + " }"@) + ")"@), " }"@, k0);
    lemma_regroup("{ "@ + (((((((("let "@ + "__alloc"@ + " = "@ + ((r + ".read_u64()"@) + " as "@ + ("*mut "@ + "dynspire::managed::DynSpireAllocator"@)) + ";"@) + " "@) + ("let "@ + "__ptr"@ + " = "@ + ((r + ".read_u64()"@) + " as "@ + ("*mut "@ + "u8"@)) + ";"@)) + " "@) + ("let "@ + "__len"@ + " = "@ + ((r + ".read_u64()"@) + " as "@ + "usize"@) + ";"@)) + " "@) + ("let "@ + "__cap"@ + " = "@ + ((r + ".read_u64()"@) + " as "@ + "usize"@) + ";"@)) + " "@), ("dynspire::managed::OwnedDString::from_raw"@ + "("@ + ("dynspire::managed::DString"@ + " { "@ + (((("allocator"@ + ": "@ + "__alloc"@) + ", "@ + "ptr"@ + ": "@ + "__ptr"@) + ", "@ + "len"@ + ": "@ + "__len"@) + ", "@ + "cap"@ + ": "@ + "__cap"@) + " }"@) + ")"@), k1);
    lemma_regroup("dynspire::managed::OwnedDString::from_raw"@ + "("@ + ("dynspire::managed::DString"@ + " { "@ + (((("allocator"@ + ": "@ + "__alloc"@) + ", "@ + "ptr"@ + ": "@ + "__ptr"@) + ", "@ + "len"@ + ": "@ + "__len"@) + ", "@ + "cap"@ + ": "@ + "__cap"@) + " }"@), ")"@, k1);
    lemma_regroup("dynspire::managed::OwnedDString::from_raw"@ + "("@, ("dynspire::managed::DString"@ + " { "@ + (((("allocator"@ + ": "@ + "__alloc"@) + ", "@ + "ptr"@ + ": "@ + "__ptr"@) + ", "@ + "len"@ + ": "@ + "__len"@) + ", "@ + "cap"@ + ": "@ + "__cap"@) + " }"@), k2);
    lemma_regroup("dynspire::managed::DString"@ + " { "@ + (((("allocator"@ + ": "@ + "__alloc"@) + ", "@ + "ptr"@ + ": "@ + "__ptr"@) + ", "@ + "len"@ + ": "@ + "__len"@) + ", "@ + "cap"@ + ": "@ + "__cap"@), " }"@, k2);
    lemma_regroup("dynspire::managed::DString"@ + " { "@, (((("allocator"@ + ": "@ + "__alloc"@) + ", "@ + "ptr"@ + ": "@ + "__ptr"@) + ", "@ + "len"@ + ": "@ + "__len"@) + ", "@ + "cap"@ + ": "@ + "__cap"@), k3);
    lemma_regroup(((("allocator"@ + ": "@ + "__alloc"@) + ", "@ + "ptr"@ + ": "@ + "__ptr"@) + ", "@ + "len"@ + ": "@ + "__len"@) + ", "@ + "cap"@ + ": "@, "__cap"@, k3);
    lemma_regroup(((("allocator"@ + ": "@ + "__alloc"@) + ", "@ + "ptr"@ + ": "@ + "__ptr"@) + ", "@ + "len"@ + ": "@ + "__len"@) + ", "@ + "cap"@, ": "@, k4);
    lemma_regroup(((("allocator"@ + ": "@ + "__alloc"@) + ", "@ + "ptr"@ + ": "@ + "__ptr"@) + ", "@ + "len"@ + ": "@ + "__len"@) + ", "@, "cap"@, k5);
    lemma_regroup(((("allocator"@ + ": "@ + "__alloc"@) + ", "@ + "ptr"@ + ": "@ + "__ptr"@) + ", "@ + "len"@ + ": "@ + "__len"@), ", "@, k6);
    lemma_regroup((("allocator"@ + ": "@ + "__alloc"@) + ", "@ + "ptr"@ + ": "@ + "__ptr"@) + ", "@ + "len"@ + ": "@, "__len"@, k7);
    lemma_regroup((("allocator"@ + ": "@ + "__alloc"@) + ", "@ + "ptr"@ + ": "@ + "__ptr"@) + ", "@ + "len"@, ": "@, k8);
    lemma_regroup((("allocator"@ + ": "@ + "__alloc"@) + ", "@ + "ptr"@ + ": "@ + "__ptr"@) + ", "@, "len"@, k9);
    lemma_regroup((("allocator"@ + ": "@ + "__alloc"@) + ", "@ + "ptr"@ + ": "@ + "__ptr"@), ", "@, k10);
    lemma_regroup(("allocator"@ + ": "@ + "__alloc"@) + ", "@ + "ptr"@ + ": "@, "__ptr"@, k11);
    lemma_regroup(("allocator"@ + ": "@ + "__alloc"@) + ", "@ + "ptr"@, ": "@, k12);
    lemma_regroup(("allocator"@ + ": "@ + "__alloc"@) + ", "@, "ptr"@, k13);
    lemma_regroup(("allocator"@ + ": "@ + "__alloc"@), ", "@, k14);
    lemma_regroup("allocator"@ + ": "@, "__alloc"@, k15);
    lemma_regroup("allocator"@, ": "@, k16);
    lemma_regroup("dynspire::managed::DString"@, " { "@, k18);
    lemma_regroup("dynspire::managed::OwnedDString::from_raw"@, "("@, k20);
    lemma_regroup("{ "@, (((((((("let "@ + "__alloc"@ + " = "@ + ((r + ".read_u64()"@) + " as "@ + ("*mut "@ + "dynspire::managed::DynSpireAllocator"@)) + ";"@) + " "@) + ("let "@ + "__ptr"@ + " = "@ + ((r + ".read_u64()"@) + " as "@ + ("*mut "@ + "u8"@)) + ";"@)) + " "@) + ("let "@ + "__len"@ + " = "@ + ((r + ".read_u64()"@) + " as "@ + "usize"@) + ";"@)) + " "@) + ("let "@ + "__cap"@ + " = "@ + ((r + ".read_u64()"@) + " as "@ + "usize"@) + ";"@)) + " "@), k22);
    lemma_regroup(((((((("let "@ + "__alloc"@ + " = "@ + ((r + ".read_u64()"@) + " as "@ + ("*mut "@ + "dynspire::managed::DynSpireAllocator"@)) + ";"@) + " "@) + ("let "@ + "__ptr"@ + " = "@ + ((r + ".read_u64()"@) + " as "@ + ("*mut "@ + "u8"@)) + ";"@)) + " "@) + ("let "@ + "__len"@ + " = "@ + ((r + ".read_u64()"@) + " as "@ + "usize"@) + ";"@)) + " "@) + ("let "@ + "__cap"@ + " = "@ + ((r + ".read_u64()"@) + " as "@ + "usize"@) + ";"@)), " "@, k22);
    lemma_regroup((((((("let "@ + "__alloc"@ + " = "@ + ((r + ".read_u64()"@) + " as "@ + ("*mut "@ + "dynspire::managed::DynSpireAllocator"@)) + ";"@) + " "@) + ("let "@ + "__ptr"@ + " = "@ + ((r + ".read_u64()"@) + " as "@ + ("*mut "@ + "u8"@)) + ";"@)) + " "@) + ("let "@ + "__len"@ + " = "@ + ((r + ".read_u64()"@) + " as "@ + "usize"@) + ";"@)) + " "@), ("let "@ + "__cap"@ + " = "@ + ((r + ".read_u64()"@) + " as "@ + "usize"@) + ";"@), k23);
    lemma_regroup("let "@ + "__cap"@ + " = "@ + ((r + ".read_u64()"@) + " as "@ + "usize"@), ";"@, k23);
    lemma_regroup("let "@ + "__cap"@ + " = "@, ((r + ".read_u64()"@) + " as "@ + "usize"@), k24);
    lemma_regroup((r + ".read_u64()"@) + " as "@, "usize"@, k24);
    lemma_regroup((r + ".read_u64()"@), " as "@, k25);
    lemma_regroup(r, ".read_u64()"@, k26);
    lemma_regroup("let "@ + "__cap"@, " = "@, k28);
    lemma_regroup("let "@, "__cap"@, k29);
    lemma_regroup(((((("let "@ + "__alloc"@ + " = "@ + ((r + ".read_u64()"@) + " as "@ + ("*mut "@ + "dynspire::managed::DynSpireAllocator"@)) + ";"@) + " "@) + ("let "@ + "__ptr"@ + " = "@ + ((r + ".read_u64()"@) + " as "@ + ("*mut "@ + "u8"@)) + ";"@)) + " "@) + ("let "@ + "__len"@ + " = "@ + ((r + ".read_u64()"@) + " as "@ + "usize"@) + ";"@)), " "@, k31);
    lemma_regroup((((("let "@ + "__alloc"@ + " = "@ + ((r + ".read_u64()"@) + " as "@ + ("*mut "@ + "dynspire::managed::DynSpireAllocator"@)) + ";"@) + " "@) + ("let "@ + "__ptr"@ + " = "@ + ((r + ".read_u64()"@) + " as "@ + ("*mut "@ + "u8"@)) + ";"@)) + " "@), ("let "@ + "__len"@ + " = "@ + ((r + ".read_u64()"@) + " as "@ + "usize"@) + ";"@), k32);
    lemma_regroup("let "@ + "__len"@ + " = "@ + ((r + ".read_u64()"@) + " as "@ + "usize"@), ";"@, k32);
    lemma_regroup("let "@ + "__len"@ + " = "@, ((r + ".read_u64()"@) + " as "@ + "usize"@), k33);
    lemma_regroup((r + ".read_u64()"@) + " as "@, "usize"@, k33);
    lemma_regroup((r + ".read_u64()"@), " as "@, k34);
    lemma_regroup(r, ".read_u64()"@, k35);
    lemma_regroup("let "@ + "__len"@, " = "@, k37);
    lemma_regroup("let "@, "__len"@, k38);
    lemma_regroup(((("let "@ + "__alloc"@ + " = "@ + ((r + ".read_u64()"@) + " as "@ + ("*mut "@ + "dynspire::managed::DynSpireAllocator"@)) + ";"@) + " "@) + ("let "@ + "__ptr"@ + " = "@ + ((r + ".read_u64()"@) + " as "@ + ("*mut "@ + "u8"@)) + ";"@)), " "@, k40);
    lemma_regroup((("let "@ + "__alloc"@ + " = "@ + ((r + ".read_u64()"@) + " as "@ + ("*mut "@ + "dynspire::managed::DynSpireAllocator"@)) + ";"@) + " "@), ("let "@ + "__ptr"@ + " = "@ + ((r + ".read_u64()"@) + " as "@ + ("*mut "@ + "u8"@)) + ";"@), k41);
    lemma_regroup("let "@ + "__ptr"@ + " = "@ + ((r + ".read_u64()"@) + " as "@ + ("*mut "@ + "u8"@)), ";"@, k41);
    lemma_regroup("let "@ + "__ptr"@ + " = "@, ((r + ".read_u64()"@) + " as "@ + ("*mut "@ + "u8"@)), k42);
    lemma_regroup((r + ".read_u64()"@) + " as "@, ("*mut "@ + "u8"@), k42);
    lemma_regroup("*mut "@, "u8"@, k42);
    lemma_regroup((r + ".read_u64()"@), " as "@, k44);
    lemma_regroup(r, ".read_u64()"@, k45);
    lemma_regroup("let "@ + "__ptr"@, " = "@, k47);
    lemma_regroup("let "@, "__ptr"@, k48);
    lemma_regroup(("let "@ + "__alloc"@ + " = "@ + ((r + ".read_u64()"@) + " as "@ + ("*mut "@ + "dynspire::managed::DynSpireAllocator"@)) + ";"@), " "@, k50);
    lemma_regroup("let "@ + "__alloc"@ + " = "@ + ((r + ".read_u64()"@) + " as "@ + ("*mut "@ + "dynspire::managed::DynSpireAllocator"@)), ";"@, k51);
    lemma_regroup("let "@ + "__alloc"@ + " = "@, ((r + ".read_u64()"@) + " as "@ + ("*mut "@ + "dynspire::managed::DynSpireAllocator"@)), k52);
    lemma_regroup((r + ".read_u64()"@) + " as "@, ("*mut "@ + "dynspire::managed::DynSpireAllocator"@), k52);
    lemma_regroup("*mut "@, "dynspire::managed::DynSpireAllocator"@, k52);
    lemma_regroup((r + ".read_u64()"@), " as "@, k54);
    lemma_regroup(r, ".read_u64()"@, k55);
    lemma_regroup("let "@ + "__alloc"@, " = "@, k57);
    lemma_regroup("let "@, "__alloc"@, k58);
    lemma_regroup("{ let __alloc = "@ + r + ".read_u64() as *mut dynspire::managed::DynSpireAllocator; let __ptr = "@ + r + ".read_u64() as *mut u8; let __len = "@ + r + ".read_u64() as usize; let __cap = "@ + r, ".read_u64() as usize; dynspire::managed::OwnedDString::from_raw(dynspire::managed::DString { allocator: __alloc, ptr: __ptr, len: __len, cap: __cap }) }"@, k0);
    lemma_regroup(".read_u64()"@ + " as "@ + "usize"@ + ";"@ + " "@ + "dynspire::managed::OwnedDString::from_raw"@ + "("@ + "dynspire::managed::DString"@ + " { "@ + "allocator"@ + ": "@ + "__alloc"@ + ", "@ + "ptr"@ + ": "@ + "__ptr"@ + ", "@ + "len"@ + ": "@ + "__len"@ + ", "@ + "cap"@ + ": "@ + "__cap"@ + " }"@ + ")"@, " }"@, k0);
    lemma_regroup(".read_u64()"@ + " as "@ + "usize"@ + ";"@ + " "@ + "dynspire::managed::OwnedDString::from_raw"@ + "("@ + "dynspire::managed::DString"@ + " { "@ + "allocator"@ + ": "@ + "__alloc"@ + ", "@ + "ptr"@ + ": "@ + "__ptr"@ + ", "@ + "len"@ + ": "@ + "__len"@ + ", "@ + "cap"@ + ": "@ + "__cap"@ + " }"@, ")"@, k1);
    lemma_regroup(".read_u64()"@ + " as "@ + "usize"@ + ";"@ + " "@ + "dynspire::managed::OwnedDString::from_raw"@ + "("@ + "dynspire::managed::DString"@ + " { "@ + "allocator"@ + ": "@ + "__alloc"@ + ", "@ + "ptr"@ + ": "@ + "__ptr"@ + ", "@ + "len"@ + ": "@ + "__len"@ + ", "@ + "cap"@ + ": "@ + "__cap"@, " }"@, k2);
    lemma_regroup(".read_u64()"@ + " as "@ + "usize"@ + ";"@ + " "@ + "dynspire::managed::OwnedDString::from_raw"@ + "("@ + "dynspire::managed::DString"@ + " { "@ + "allocator"@ + ": "@ + "__alloc"@ + ", "@ + "ptr"@ + ": "@ + "__ptr"@ + ", "@ + "len"@ + ": "@ + "__len"@ + ", "@ + "cap"@ + ": "@, "__cap"@, k3);
    lemma_regroup(".read_u64()"@ + " as "@ + "usize"@ + ";"@ + " "@ + "dynspire::managed::OwnedDString::from_raw"@ + "("@ + "dynspire::managed::DString"@ + " { "@ + "allocator"@ + ": "@ + "__alloc"@ + ", "@ + "ptr"@ + ": "@ + "__ptr"@ + ", "@ + "len"@ + ": "@ + "__len"@ + ", "@ + "cap"@, ": "@, k4);
    lemma_regroup(".read_u64()"@ + " as "@ + "usize"@ + ";"@ + " "@ + "dynspire::managed::OwnedDString::from_raw"@ + "("@ + "dynspire::managed::DString"@ + " { "@ + "allocator"@ + ": "@ + "__alloc"@ + ", "@ + "ptr"@ + ": "@ + "__ptr"@ + ", "@ + "len"@ + ": "@ + "__len"@ + ", "@, "cap"@, k5);
    lemma_regroup(".read_u64()"@ + " as "@ + "usize"@ + ";"@ + " "@ + "dynspire::managed::OwnedDString::from_raw"@ + "("@ + "dynspire::managed::DString"@ + " { "@ + "allocator"@ + ": "@ + "__alloc"@ + ", "@ + "ptr"@ + ": "@ + "__ptr"@ + ", "@ + "len"@ + ": "@ + "__len"@, ", "@, k6);
    lemma_regroup(".read_u64()"@ + " as "@ + "usize"@ + ";"@ + " "@ + "dynspire::managed::OwnedDString::from_raw"@ + "("@ + "dynspire::managed::DString"@ + " { "@ + "allocator"@ + ": "@ + "__alloc"@ + ", "@ + "ptr"@ + ": "@ + "__ptr"@ + ", "@ + "len"@ + ": "@, "__len"@, k7);
    lemma_regroup(".read_u64()"@ + " as "@ + "usize"@ + ";"@ + " "@ + "dynspire::managed::OwnedDString::from_raw"@ + "("@ + "dynspire::managed::DString"@ + " { "@ + "allocator"@ + ": "@ + "__alloc"@ + ", "@ + "ptr"@ + ": "@ + "__ptr"@ + ", "@ + "len"@, ": "@, k8);
    lemma_regroup(".read_u64()"@ + " as "@ + "usize"@ + ";"@ + " "@ + "dynspire::managed::OwnedDString::from_raw"@ + "("@ + "dynspire::managed::DString"@ + " { "@ + "allocator"@ + ": "@ + "__alloc"@ + ", "@ + "ptr"@ + ": "@ + "__ptr"@ + ", "@, "len"@, k9);
    lemma_regroup(".read_u64()"@ + " as "@ + "usize"@ + ";"@ + " "@ + "dynspire::managed::OwnedDString::from_raw"@ + "("@ + "dynspire::managed::DString"@ + " { "@ + "allocator"@ + ": "@ + "__alloc"@ + ", "@ + "ptr"@ + ": "@ + "__ptr"@, ", "@, k10);
    lemma_regroup(".read_u64()"@ + " as "@ + "usize"@ + ";"@ + " "@ + "dynspire::managed::OwnedDString::from_raw"@ + "("@ + "dynspire::managed::DString"@ + " { "@ + "allocator"@ + ": "@ + "__alloc"@ + ", "@ + "ptr"@ + ": "@, "__ptr"@, k11);
    lemma_regroup(".read_u64()"@ + " as "@ + "usize"@ + ";"@ + " "@ + "dynspire::managed::OwnedDString::from_raw"@ + "("@ + "dynspire::managed::DString"@ + " { "@ + "allocator"@ + ": "@ + "__alloc"@ + ", "@ + "ptr"@, ": "@, k12);
    lemma_regroup(".read_u64()"@ + " as "@ + "usize"@ + ";"@ + " "@ + "dynspire::managed::OwnedDString::from_raw"@ + "("@ + "dynspire::managed::DString"@ + " { "@ + "allocator"@ + ": "@ + "__alloc"@ + ", "@, "ptr"@, k13);
    lemma_regroup(".read_u64()"@ + " as "@ + "usize"@ + ";"@ + " "@ + "dynspire::managed::OwnedDString::from_raw"@ + "("@ + "dynspire::managed::DString"@ + " { "@ + "allocator"@ + ": "@ + "__alloc"@, ", "@, k14);
    lemma_regroup(".read_u64()"@ + " as "@ + "usize"@ + ";"@ + " "@ + "dynspire::managed::OwnedDString::from_raw"@ + "("@ + "dynspire::managed::DString"@ + " { "@ + "allocator"@ + ": "@, "__alloc"@, k15);
    lemma_regroup(".read_u64()"@ + " as "@ + "usize"@ + ";"@ + " "@ + "dynspire::managed::OwnedDString::from_raw"@ + "("@ + "dynspire::managed::DString"@ + " { "@ + "allocator"@, ": "@, k16);
    lemma_regroup(".read_u64()"@ + " as "@ + "usize"@ + ";"@ + " "@ + "dynspire::managed::OwnedDString::from_raw"@ + "("@ + "dynspire::managed::DString"@ + " { "@, "allocator"@, k17);
    lemma_regroup(".read_u64()"@ + " as "@ + "usize"@ + ";"@ + " "@ + "dynspire::managed::OwnedDString::from_raw"@ + "("@ + "dynspire::managed::DString"@, " { "@, k18);
    lemma_regroup(".read_u64()"@ + " as "@ + "usize"@ + ";"@ + " "@ + "dynspire::managed::OwnedDString::from_raw"@ + "("@, "dynspire::managed::DString"@, k19);
    lemma_regroup(".read_u64()"@ + " as "@ + "usize"@ + ";"@ + " "@ + "dynspire::managed::OwnedDString::from_raw"@, "("@, k20);
    lemma_regroup(".read_u64()"@ + " as "@ + "usize"@ + ";"@ + " "@, "dynspire::managed::OwnedDString::from_raw"@, k21);
    lemma_regroup(".read_u64()"@ + " as "@ + "usize"@ + ";"@, " "@, k22);
    lemma_regroup(".read_u64()"@ + " as "@ + "usize"@, ";"@, k23);
    lemma_regroup(".read_u64()"@ + " as "@, "usize"@, k24);
    lemma_regroup(".read_u64()"@, " as "@, k25);
    lemma_regroup("{ let __alloc = "@ + r + ".read_u64() as *mut dynspire::managed::DynSpireAllocator; let __ptr = "@ + r + ".read_u64() as *mut u8; let __len = "@ + r + ".read_u64() as usize; let __cap = "@, r, k27);
    lemma_regroup("{ let __alloc = "@ + r + ".read_u64() as *mut dynspire::managed::DynSpireAllocator; let __ptr = "@ + r + ".read_u64() as *mut u8; let __len = "@ + r, ".read_u64() as usize; let __cap = "@, k28);
    lemma_regroup(".read_u64()"@ + " as "@ + "usize"@ + ";"@ + " "@ + "let "@ + "__cap"@, " = "@, k28);
    lemma_regroup(".read_u64()"@ + " as "@ + "usize"@ + ";"@ + " "@ + "let "@, "__cap"@, k29);
    lemma_regroup(".read_u64()"@ + " as "@ + "usize"@ + ";"@ + " "@, "let "@, k30);
    lemma_regroup(".read_u64()"@ + " as "@ + "usize"@ + ";"@, " "@, k31);
    lemma_regroup(".read_u64()"@ + " as "@ + "usize"@, ";"@, k32);
    lemma_regroup(".read_u64()"@ + " as "@, "usize"@, k33);
    lemma_regroup(".read_u64()"@, " as "@, k34);
    lemma_regroup("{ let __alloc = "@ + r + ".read_u64() as *mut dynspire::managed::DynSpireAllocator; let __ptr = "@ + r + ".read_u64() as *mut u8; let __len = "@, r, k36);
    lemma_regroup("{ let __alloc = "@ + r + ".read_u64() as *mut dynspire::managed::DynSpireAllocator; let __ptr = "@ + r, ".read_u64() as *mut u8; let __len = "@, k37);
    lemma_regroup(".read_u64()"@ + " as "@ + "*mut "@ + "u8"@ + ";"@ + " "@ + "let "@ + "__len"@, " = "@, k37);
    lemma_regroup(".read_u64()"@ + " as "@ + "*mut "@ + "u8"@ + ";"@ + " "@ + "let "@, "__len"@, k38);
    lemma_regroup(".read_u64()"@ + " as "@ + "*mut "@ + "u8"@ + ";"@ + " "@, "let "@, k39);
    lemma_regroup(".read_u64()"@ + " as "@ + "*mut "@ + "u8"@ + ";"@, " "@, k40);
    lemma_regroup(".read_u64()"@ + " as "@ + "*mut "@ + "u8"@, ";"@, k41);
    lemma_regroup(".read_u64()"@ + " as "@ + "*mut "@, "u8"@, k42);
    lemma_regroup(".read_u64()"@ + " as "@, "*mut "@, k43);
    lemma_regroup(".read_u64()"@, " as "@, k44);
    lemma_regroup("{ let __alloc = "@ + r + ".read_u64() as *mut dynspire::managed::DynSpireAllocator; let __ptr = "@, r, k46);
    lemma_regroup("{ let __alloc = "@ + r, ".read_u64() as *mut dynspire::managed::DynSpireAllocator; let __ptr = "@, k47);
    lemma_regroup(".read_u64()"@ + " as "@ + "*mut "@ + "dynspire::managed::DynSpireAllocator"@ + ";"@ + " "@ + "let "@ + "__ptr"@, " = "@, k47);
    lemma_regroup(".read_u64()"@ + " as "@ + "*mut "@ + "dynspire::managed::DynSpireAllocator"@ + ";"@ + " "@ + "let "@, "__ptr"@, k48);
    lemma_regroup(".read_u64()"@ + " as "@ + "*mut "@ + "dynspire::managed::DynSpireAllocator"@ + ";"@ + " "@, "let "@, k49);
    lemma_regroup(".read_u64()"@ + " as "@ + "*mut "@ + "dynspire::managed::DynSpireAllocator"@ + ";"@, " "@, k50);
    lemma_regroup(".read_u64()"@ + " as "@ + "*mut "@ + "dynspire::managed::DynSpireAllocator"@, ";"@, k51);
    lemma_regroup(".read_u64()"@ + " as "@ + "*mut "@, "dynspire::managed::DynSpireAllocator"@, k52);
    lemma_regroup(".read_u64()"@ + " as "@, "*mut "@, k53);
    lemma_regroup(".read_u64()"@, " as "@, k54);
    lemma_regroup("{ let __alloc = "@, r, k56);
    lemma_regroup("{ "@ + "let "@ + "__alloc"@, " = "@, k57);
    lemma_regroup("{ "@ + "let "@, "__alloc"@, k58);
    lemma_regroup("{ "@, "let "@, k59);
    lemma_end("{ "@ + (((((((("let "@ + "__alloc"@ + " = "@ + ((r + ".read_u64()"@) + " as "@ + ("*mut "@ + "dynspire::managed::DynSpireAllocator"@)) + ";"@) + " "@) + ("let "@ + "__ptr"@ + " = "@ + ((r + ".read_u64()"@) + " as "@ + ("*mut "@ + "u8"@)) + ";"@)) + " "@) + ("let "@ + "__len"@ + " = "@ + ((r + ".read_u64()"@) + " as "@ + "usize"@) + ";"@)) + " "@) + ("let "@ + "__cap"@ + " = "@ + ((r + ".read_u64()"@) + " as "@ + "usize"@) + ";"@)) + " "@) + ("dynspire::managed::OwnedDString::from_raw"@ + "("@ + ("dynspire::managed::DString"@ + " { "@ + (((("allocator"@ + ": "@ + "__alloc"@) + ", "@ + "ptr"@ + ": "@ + "__ptr"@) + ", "@ + "len"@ + ": "@ + "__len"@) + ", "@ + "cap"@ + ": "@ + "__cap"@) + " }"@) + ")"@) + " }"@, "{ let __alloc = "@ + r + ".read_u64() as *mut dynspire::managed::DynSpireAllocator; let __ptr = "@ + r + ".read_u64() as *mut u8; let __len = "@ + r + ".read_u64() as usize; let __cap = "@ + r + ".read_u64() as usize; dynspire::managed::OwnedDString::from_raw(dynspire::managed::DString { allocator: __alloc, ptr: __ptr, len: __len, cap: __cap }) }"@, k0);
}

pub(crate) proof fn lemma_g_own_dstring(r: Seq<char>)
    ensures
        text(own_dstring_ex(r)) == "{ let __alloc = "@ + r + ".read_u64() as *mut dynspire::managed::DynSpireAllocator; let __ptr = "@ + r + ".read_u64() as *mut u8; let __len = "@ + r + ".read_u64() as usize; let __cap = "@ + r + ".read_u64() as usize; dynspire::managed::OwnedDString::from_raw(dynspire::managed::DString { allocator: __alloc, ptr: __ptr, len: __len, cap: __cap }) }"@,
{
    lemma_g_own_dstring_parts(r);
    lemma_cat_own_dstring(r);
}

pub open spec fn own_dvec_ex(r: Seq<char>, rt: Seq<char>) -> Ex {
    Ex::Block(false, seq![St::Let(false, "__alloc"@, Ex::As(Box::new(Ex::Call(Box::new(Ex::Name(r)), Meth::ReadU64)), Cast::Mut("dynspire::managed::DynSpireAllocator"@))), St::Blank(" "@), St::Let(false, "__ptr"@, Ex::As(Box::new(Ex::Call(Box::new(Ex::Name(r)), Meth::ReadU64)), Cast::Mut(rt))), St::Blank(" "@), St::Let(false, "__len"@, Ex::As(Box::new(Ex::Call(Box::new(Ex::Name(r)), Meth::ReadU64)), Cast::Usize)), St::Blank(" "@), St::Let(false, "__cap"@, Ex::As(Box::new(Ex::Call(Box::new(Ex::Name(r)), Meth::ReadU64)), Cast::Usize)), St::Blank(" "@)], Box::new(Ex::Apply(Fun::OwnVec(rt), seq![Ex::Record(Rec::DVec(rt), seq![(Fld::Allocator, Ex::Name("__alloc"@)), (Fld::Ptr, Ex::Name("__ptr"@)), (Fld::Len, Ex::Name("__len"@)), (Fld::Cap, Ex::Name("__cap"@))])])))
}

#[verifier::spinoff_prover]
#[verifier::rlimit(100)]
pub(crate) proof fn lemma_g_own_dvec_parts(r: Seq<char>, rt: Seq<char>)
    ensures
        text(own_dvec_ex(r, rt)) == ("{ "@ + (((((((("let "@ + "__alloc"@ + " = "@ + ((r + ".read_u64()"@) + " as "@ + ("*mut "@ + "dynspire::managed::DynSpireAllocator"@)) + ";"@) + " "@) + ("let "@ + "__ptr"@ + " = "@ + ((r + ".read_u64()"@) + " as "@ + ("*mut "@ + rt)) + ";"@)) + " "@) + ("let "@ + "__len"@ + " = "@ + ((r + ".read_u64()"@) + " as "@ + "usize"@) + ";"@)) + " "@) + ("let "@ + "__cap"@ + " = "@ + ((r + ".read_u64()"@) + " as "@ + "usize"@) + ";"@)) + " "@) + (("dynspire::managed::OwnedDVec::<"@ + rt + ">::from_raw"@) + "("@ + (("dynspire::managed::DVec::<"@ + rt + ">"@) + " { "@ + (((("allocator"@ + ": "@ + "__alloc"@) + ", "@ + "ptr"@ + ": "@ + "__ptr"@) + ", "@ + "len"@ + ": "@ + "__len"@) + ", "@ + "cap"@ + ": "@ + "__cap"@) + " }"@) + ")"@) + " }"@),
{
    lemma_casts();
    let e0 = Ex::Name(r);
    let e1 = Ex::Call(Box::new(e0), Meth::ReadU64);
    let e2 = Ex::As(Box::new(e1), Cast::Mut("dynspire::managed::DynSpireAllocator"@));
    let e3 = St::Let(false, "__alloc"@, e2);
    let e4 = St::Blank(" "@);
    let e5 = Ex::Name(r);
    let e6 = Ex::Call(Box::new(e5), Meth::ReadU64);
    let e7 = Ex::As(Box::new(e6), Cast::Mut(rt));
    let e8 = St::Let(false, "__ptr"@, e7);
    let e9 = St::Blank(" "@);
    let e10 = Ex::Name(r);
    let e11 = Ex::Call(Box::new(e10), Meth::ReadU64);
    let e12 = Ex::As(Box::new(e11), Cast::Usize);
    let e13 = St::Let(false, "__len"@, e12);
    let e14 = St::Blank(" "@);
    let e15 = Ex::Name(r);
    let e16 = Ex::Call(Box::new(e15), Meth::ReadU64);
    let e17 = Ex::As(Box::new(e16), Cast::Usize);
    let e18 = St::Let(false, "__cap"@, e17);
    let e19 = St::Blank(" "@);
    let e20 = Ex::Name("__alloc"@);
    let e21 = Ex::Name("__ptr"@);
    let e22 = Ex::Name("__len"@);
    let e23 = Ex::Name("__cap"@);
    let fs24 = seq![(Fld::Allocator, e20), (Fld::Ptr, e21), (Fld::Len, e22), (Fld::Cap, e23)];
    assert(fs24[0] == (Fld::Allocator, e20));
    assert(fs24[1] == (Fld::Ptr, e21));
    assert(fs24[2] == (Fld::Len, e22));
    assert(fs24[3] == (Fld::Cap, e23));
    let e24 = Ex::Record(Rec::DVec(rt), fs24);
    let es25 = seq![e24];
    assert(es25[0] == e24);
    let e25 = Ex::Apply(Fun::OwnVec(rt), es25);
    assert(es25.len() == 1);
    lemma_first_text(es25);
    let ss26 = seq![e3, e4, e8, e9, e13, e14, e18, e19];
    assert(ss26[0] == e3);
    assert(ss26[1] == e4);
    assert(ss26[2] == e8);
    assert(ss26[3] == e9);
    assert(ss26[4] == e13);
    assert(ss26[5] == e14);
    assert(ss26[6] == e18);
    assert(ss26[7] == e19);
    assert(ss26.len() == 8);
    lemma_first_line(ss26);
    let e26 = Ex::Block(false, ss26, Box::new(e25));
    assert(text(e0) == r);
    assert(text(e1) == (r + ".read_u64()"@));
    assert(text(e2) == ((r + ".read_u64()"@) + " as "@ + ("*mut "@ + "dynspire::managed::DynSpireAllocator"@)));
    assert(line(e3) == ("let "@ + "__alloc"@ + " = "@ + ((r + ".read_u64()"@) + " as "@ + ("*mut "@ + "dynspire::managed::DynSpireAllocator"@)) + ";"@));
    assert(lines(ss26, 1) == ("let "@ + "__alloc"@ + " = "@ + ((r + ".read_u64()"@) + " as "@ + ("*mut "@ + "dynspire::managed::DynSpireAllocator"@)) + ";"@));
    assert(line(e4) == " "@);
    assert(lines(ss26, 2) == (("let "@ + "__alloc"@ + " = "@ + ((r + ".read_u64()"@) + " as "@ + ("*mut "@ + "dynspire::managed::DynSpireAllocator"@)) + ";"@) + " "@));
    assert(text(e5) == r);
    assert(text(e6) == (r + ".read_u64()"@));
    assert(text(e7) == ((r + ".read_u64()"@) + " as "@ + ("*mut "@ + rt)));
    assert(line(e8) == ("let "@ + "__ptr"@ + " = "@ + ((r + ".read_u64()"@) + " as "@ + ("*mut "@ + rt)) + ";"@));
    assert(lines(ss26, 3) == ((("let "@ + "__alloc"@ + " = "@ + ((r + ".read_u64()"@) + " as "@ + ("*mut "@ + "dynspire::managed::DynSpireAllocator"@)) + ";"@) + " "@) + ("let "@ + "__ptr"@ + " = "@ + ((r + ".read_u64()"@) + " as "@ + ("*mut "@ + rt)) + ";"@)));
    assert(line(e9) == " "@);
    assert(lines(ss26, 4) == (((("let "@ + "__alloc"@ + " = "@ + ((r + ".read_u64()"@) + " as "@ + ("*mut "@ + "dynspire::managed::DynSpireAllocator"@)) + ";"@) + " "@) + ("let "@ + "__ptr"@ + " = "@ + ((r + ".read_u64()"@) + " as "@ + ("*mut "@ + rt)) + ";"@)) + " "@));
    assert(text(e10) == r);
    assert(text(e11) == (r + ".read_u64()"@));
    assert(text(e12) == ((r + ".read_u64()"@) + " as "@ + "usize"@));
    assert(line(e13) == ("let "@ + "__len"@ + " = "@ + ((r + ".read_u64()"@) + " as "@ + "usize"@) + ";"@));
    assert(lines(ss26, 5) == ((((("let "@ + "__alloc"@ + " = "@ + ((r + ".read_u64()"@) + " as "@ + ("*mut "@ + "dynspire::managed::DynSpireAllocator"@)) + ";"@) + " "@) + ("let "@ + "__ptr"@ + " = "@ + ((r + ".read_u64()"@) + " as "@ + ("*mut "@ + rt)) + ";"@)) + " "@) + ("let "@ + "__len"@ + " = "@ + ((r + ".read_u64()"@) + " as "@ + "usize"@) + ";"@)));
    assert(line(e14) == " "@);
    assert(lines(ss26, 6) == (((((("let "@ + "__alloc"@ + " = "@ + ((r + ".read_u64()"@) + " as "@ + ("*mut "@ + "dynspire::managed::DynSpireAllocator"@)) + ";"@) + " "@) + ("let "@ + "__ptr"@ + " = "@ + ((r + ".read_u64()"@) + " as "@ + ("*mut "@ + rt)) + ";"@)) + " "@) + ("let "@ + "__len"@ + " = "@ + ((r + ".read_u64()"@) + " as "@ + "usize"@) + ";"@)) + " "@));
    assert(text(e15) == r);
    assert(text(e16) == (r + ".read_u64()"@));
    assert(text(e17) == ((r + ".read_u64()"@) + " as "@ + "usize"@));
    assert(line(e18) == ("let "@ + "__cap"@ + " = "@ + ((r + ".read_u64()"@) + " as "@ + "usize"@) + ";"@));
    assert(lines(ss26, 7) == ((((((("let "@ + "__alloc"@ + " = "@ + ((r + ".read_u64()"@) + " as "@ + ("*mut "@ + "dynspire::managed::DynSpireAllocator"@)) + ";"@) + " "@) + ("let "@ + "__ptr"@ + " = "@ + ((r + ".read_u64()"@) + " as "@ + ("*mut "@ + rt)) + ";"@)) + " "@) + ("let "@ + "__len"@ + " = "@ + ((r + ".read_u64()"@) + " as "@ + "usize"@) + ";"@)) + " "@) + ("let "@ + "__cap"@ + " = "@ + ((r + ".read_u64()"@) + " as "@ + "usize"@) + ";"@)));
    assert(line(e19) == " "@);
    assert(lines(ss26, 8) == (((((((("let "@ + "__alloc"@ + " = "@ + ((r + ".read_u64()"@) + " as "@ + ("*mut "@ + "dynspire::managed::DynSpireAllocator"@)) + ";"@) + " "@) + ("let "@ + "__ptr"@ + " = "@ + ((r + ".read_u64()"@) + " as "@ + ("*mut "@ + rt)) + ";"@)) + " "@) + ("let "@ + "__len"@ + " = "@ + ((r + ".read_u64()"@) + " as "@ + "usize"@) + ";"@)) + " "@) + ("let "@ + "__cap"@ + " = "@ + ((r + ".read_u64()"@) + " as "@ + "usize"@) + ";"@)) + " "@));
    assert(text(e20) == "__alloc"@);
    assert(field_texts(fs24, 1) == ("allocator"@ + ": "@ + "__alloc"@));
    assert(text(e21) == "__ptr"@);
    assert(field_texts(fs24, 2) == (("allocator"@ + ": "@ + "__alloc"@) + ", "@ + "ptr"@ + ": "@ + "__ptr"@));
    assert(text(e22) == "__len"@);
    assert(field_texts(fs24, 3) == ((("allocator"@ + ": "@ + "__alloc"@) + ", "@ + "ptr"@ + ": "@ + "__ptr"@) + ", "@ + "len"@ + ": "@ + "__len"@));
    assert(text(e23) == "__cap"@);
    assert(field_texts(fs24, 4) == (((("allocator"@ + ": "@ + "__alloc"@) + ", "@ + "ptr"@ + ": "@ + "__ptr"@) + ", "@ + "len"@ + ": "@ + "__len"@) + ", "@ + "cap"@ + ": "@ + "__cap"@));
    assert(text(e24) == (("dynspire::managed::DVec::<"@ + rt + ">"@) + " { "@ + (((("allocator"@ + ": "@ + "__alloc"@) + ", "@ + "ptr"@ + ": "@ + "__ptr"@) + ", "@ + "len"@ + ": "@ + "__len"@) + ", "@ + "cap"@ + ": "@ + "__cap"@) + " }"@));
    assert(texts(es25, 1) == (("dynspire::managed::DVec::<"@ + rt + ">"@) + " { "@ + (((("allocator"@ + ": "@ + "__alloc"@) + ", "@ + "ptr"@ + ": "@ + "__ptr"@) + ", "@ + "len"@ + ": "@ + "__len"@) + ", "@ + "cap"@ + ": "@ + "__cap"@) + " }"@));
    assert(text(e25) == (("dynspire::managed::OwnedDVec::<"@ + rt + ">::from_raw"@) + "("@ + (("dynspire::managed::DVec::<"@ + rt + ">"@) + " { "@ + (((("allocator"@ + ": "@ + "__alloc"@) + ", "@ + "ptr"@ + ": "@ + "__ptr"@) + ", "@ + "len"@ + ": "@ + "__len"@) + ", "@ + "cap"@ + ": "@ + "__cap"@) + " }"@) + ")"@));
    assert(text(e26) == ("{ "@ + (((((((("let "@ + "__alloc"@ + " = "@ + ((r + ".read_u64()"@) + " as "@ + ("*mut "@ + "dynspire::managed::DynSpireAllocator"@)) + ";"@) + " "@) + ("let "@ + "__ptr"@ + " = "@ + ((r + ".read_u64()"@) + " as "@ + ("*mut "@ + rt)) + ";"@)) + " "@) + ("let "@ + "__len"@ + " = "@ + ((r + ".read_u64()"@) + " as "@ + "usize"@) + ";"@)) + " "@) + ("let "@ + "__cap"@ + " = "@ + ((r + ".read_u64()"@) + " as "@ + "usize"@) + ";"@)) + " "@) + (("dynspire::managed::OwnedDVec::<"@ + rt + ">::from_raw"@) + "("@ + (("dynspire::managed::DVec::<"@ + rt + ">"@) + " { "@ + (((("allocator"@ + ": "@ + "__alloc"@) + ", "@ + "ptr"@ + ": "@ + "__ptr"@) + ", "@ + "len"@ + ": "@ + "__len"@) + ", "@ + "cap"@ + ": "@ + "__cap"@) + " }"@) + ")"@) + " }"@));
    assert(e26 == own_dvec_ex(r, rt));
}

#[verifier::spinoff_prover]
#[verifier::rlimit(60)]
pub(crate) proof fn lemma_cat_own_dvec(r: Seq<char>, rt: Seq<char>)
    ensures
        alike("{ "@ + (((((((("let "@ + "__alloc"@ + " = "@ + ((r + ".read_u64()"@) + " as "@ + ("*mut "@ + "dynspire::managed::DynSpireAllocator"@)) + ";"@) + " "@) + ("let "@ + "__ptr"@ + " = "@ + ((r + ".read_u64()"@) + " as "@ + ("*mut "@ + rt)) + ";"@)) + " "@) + ("let "@ + "__len"@ + " = "@ + ((r + ".read_u64()"@) + " as "@ + "usize"@) + ";"@)) + " "@) + ("let "@ + "__cap"@ + " = "@ + ((r + ".read_u64()"@) + " as "@ + "usize"@) + ";"@)) + " "@) + (("dynspire::managed::OwnedDVec::<"@ + rt + ">::from_raw"@) + "("@ + (("dynspire::managed::DVec::<"@ + rt + ">"@) + " { "@ + (((("allocator"@ + ": "@ + "__alloc"@) + ", "@ + "ptr"@ + ": "@ + "__ptr"@) + ", "@ + "len"@ + ": "@ + "__len"@) + ", "@ + "cap"@ + ": "@ + "__cap"@) + " }"@) + ")"@) + " }"@, "{ let __alloc = "@ + r + ".read_u64() as *mut dynspire::managed::DynSpireAllocator; let __ptr = "@ + r + ".read_u64() as *mut "@ + rt + "; let __len = "@ + r + ".read_u64() as usize; let __cap = "@ + r + ".read_u64() as usize; dynspire::managed::OwnedDVec::<"@ + rt + ">::from_raw(dynspire::managed::DVec::<"@ + rt + "> { allocator: __alloc, ptr: __ptr, len: __len, cap: __cap }) }"@),
{
    assert(alike("{ let __alloc = "@, "{ "@ + "let "@ + "__alloc"@ + " = "@)) by {
        reveal_strlit("{ let __alloc = ");
        reveal_strlit("{ ");
        reveal_strlit("let ");
        reveal_strlit("__alloc");
        reveal_strlit(" = ");
        assert("{ let __alloc = "@ =~= "{ "@ + "let "@ + "__alloc"@ + " = "@);
    }
    assert(alike(".read_u64() as *mut dynspire::managed::DynSpireAllocator; let __ptr = "@, ".read_u64()"@ + " as "@ + "*mut "@ + "dynspire::managed::DynSpireAllocator"@ + ";"@ + " "@ + "let "@ + "__ptr"@ + " = "@)) by {
        reveal_strlit(".read_u64() as *mut dynspire::managed::DynSpireAllocator; let __ptr = ");
        reveal_strlit(".read_u64()");
        reveal_strlit(" as ");
        reveal_strlit("*mut ");
        reveal_strlit("dynspire::managed::DynSpireAllocator");
        reveal_strlit(";");
        reveal_strlit(" ");
        reveal_strlit("let ");
        reveal_strlit("__ptr");
        reveal_strlit(" = ");
        assert(".read_u64() as *mut dynspire::managed::DynSpireAllocator; let __ptr = "@ =~= ".read_u64()"@ + " as "@ + "*mut "@ + "dynspire::managed::DynSpireAllocator"@ + ";"@ + " "@ + "let "@ + "__ptr"@ + " = "@);
    }
    assert(alike(".read_u64() as *mut "@, ".read_u64()"@ + " as "@ + "*mut "@)) by {
        reveal_strlit(".read_u64() as *mut ");
        reveal_strlit(".read_u64()");
        reveal_strlit(" as ");
        reveal_strlit("*mut ");
        assert(".read_u64() as *mut "@ =~= ".read_u64()"@ + " as "@ + "*mut "@);
    }
    assert(alike("; let __len = "@, ";"@ + " "@ + "let "@ + "__len"@ + " = "@)) by {
        reveal_strlit("; let __len = ");
        reveal_strlit(";");
        reveal_strlit(" ");
        reveal_strlit("let ");
        reveal_strlit("__len");
        reveal_strlit(" = ");
        assert("; let __len = "@ =~= ";"@ + " "@ + "let "@ + "__len"@ + " = "@);
    }
    assert(alike(".read_u64() as usize; let __cap = "@, ".read_u64()"@ + " as "@ + "usize"@ + ";"@ + " "@ + "let "@ + "__cap"@ + " = "@)) by {
        reveal_strlit(".read_u64() as usize; let __cap = ");
        reveal_strlit(".read_u64()");
        reveal_strlit(" as ");
        reveal_strlit("usize");
        reveal_strlit(";");
        reveal_strlit(" ");
        reveal_strlit("let ");
        reveal_strlit("__cap");
        reveal_strlit(" = ");
        assert(".read_u64() as usize; let __cap = "@ =~= ".read_u64()"@ + " as "@ + "usize"@ + ";"@ + " "@ + "let "@ + "__cap"@ + " = "@);
    }
    assert(alike(".read_u64() as usize; dynspire::managed::OwnedDVec::<"@, ".read_u64()"@ + " as "@ + "usize"@ + ";"@ + " "@ + "dynspire::managed::OwnedDVec::<"@)) by {
        reveal_strlit(".read_u64() as usize; dynspire::managed::OwnedDVec::<");
        reveal_strlit(".read_u64()");
        reveal_strlit(" as ");
        reveal_strlit("usize");
        reveal_strlit(";");
        reveal_strlit(" ");
        reveal_strlit("dynspire::managed::OwnedDVec::<");
        assert(".read_u64() as usize; dynspire::managed::OwnedDVec::<"@ =~= ".read_u64()"@ + " as "@ + "usize"@ + ";"@ + " "@ + "dynspire::managed::OwnedDVec::<"@);
    }
    assert(alike(">::from_raw(dynspire::managed::DVec::<"@, ">::from_raw"@ + "("@ + "dynspire::managed::DVec::<"@)) by {
        reveal_strlit(">::from_raw(dynspire::managed::DVec::<");
        reveal_strlit(">::from_raw");
        reveal_strlit("(");
        reveal_strlit("dynspire::managed::DVec::<");
        assert(">::from_raw(dynspire::managed::DVec::<"@ =~= ">::from_raw"@ + "("@ + "dynspire::managed::DVec::<"@);
    }
    assert(alike("> { allocator: __alloc, ptr: __ptr, len: __len, cap: __cap }) }"@, ">"@ + " { "@ + "allocator"@ + ": "@ + "__alloc"@ + ", "@ + "ptr"@ + ": "@ + "__ptr"@ + ", "@ + "len"@ + ": "@ + "__len"@ + ", "@ + "cap"@ + ": "@ + "__cap"@ + " }"@ + ")"@ + " }"@)) by {
        reveal_strlit("> { allocator: __alloc, ptr: __ptr, len: __len, cap: __cap }) }");
        reveal_strlit(">");
        reveal_strlit(" { ");
        reveal_strlit("allocator");
        reveal_strlit(": ");
        reveal_strlit("__alloc");
        reveal_strlit(", ");
        reveal_strlit("ptr");
        reveal_strlit("__ptr");
        reveal_strlit("len");
        reveal_strlit("__len");
        reveal_strlit("cap");
        reveal_strlit("__cap");
        reveal_strlit(" }");
        reveal_strlit(")");
        assert("> { allocator: __alloc, ptr: __ptr, len: __len, cap: __cap }) }"@ =~= ">"@ + " { "@ + "allocator"@ + ": "@ + "__alloc"@ + ", "@ + "ptr"@ + ": "@ + "__ptr"@ + ", "@ + "len"@ + ": "@ + "__len"@ + ", "@ + "cap"@ + ": "@ + "__cap"@ + " }"@ + ")"@ + " }"@);
    }
    let k0 = Seq::<char>::empty();
    let k1 = " }"@ + k0;
    let k2 = ")"@ + k1;
    let k3 = " }"@ + k2;
    let k4 = "__cap"@ + k3;
    let k5 = ": "@ + k4;
    let k6 = "cap"@ + k5;
    let k7 = ", "@ + k6;
    let k8 = "__len"@ + k7;
    let k9 = ": "@ + k8;
    let k10 = "len"@ + k9;
    let k11 = ", "@ + k10;
    let k12 = "__ptr"@ + k11;
    let k13 = ": "@ + k12;
    let k14 = "ptr"@ + k13;
    let k15 = ", "@ + k14;
    let k16 = "__alloc"@ + k15;
    let k17 = ": "@ + k16;
    let k18 = "allocator"@ + k17;
    let k19 = " { "@ + k18;
    let k20 = ">"@ + k19;
    let k21 = rt + k20;
    let k22 = "dynspire::managed::DVec::<"@ + k21;
    let k23 = "("@ + k22;
    let k24 = ">::from_raw"@ + k23;
    let k25 = rt + k24;
    let k26 = "dynspire::managed::OwnedDVec::<"@ + k25;
    let k27 = " "@ + k26;
    let k28 = ";"@ + k27;
    let k29 = "usize"@ + k28;
    let k30 = " as "@ + k29;
    let k31 = ".read_u64()"@ + k30;
    let k32 = r + k31;
    let k33 = " = "@ + k32;
    let k34 = "__cap"@ + k33;
    let k35 = "let "@ + k34;
    let k36 = " "@ + k35;
    let k37 = ";"@ + k36;
    let k38 = "usize"@ + k37;
    let k39 = " as "@ + k38;
    let k40 = ".read_u64()"@ + k39;
    let k41 = r + k40;
    let k42 = " = "@ + k41;
    let k43 = "__len"@ + k42;
    let k44 = "let "@ + k43;
    let k45 = " "@ + k44;
    let k46 = ";"@ + k45;
    let k47 = rt + k46;
    let k48 = "*mut "@ + k47;
    let k49 = " as "@ + k48;
    let k50 = ".read_u64()"@ + k49;
    let k51 = r + k50;
    let k52 = " = "@ + k51;
    let k53 = "__ptr"@ + k52;
    let k54 = "let "@ + k53;
    let k55 = " "@ + k54;
    let k56 = ";"@ + k55;
    let k57 = "dynspire::managed::DynSpireAllocator"@ + k56;
    let k58 = "*mut "@ + k57;
    let k59 = " as "@ + k58;
    let k60 = ".read_u64()"@ + k59;
    let k61 = r + k60;
    let k62 = " = "@ + k61;
    let k63 = "__alloc"@ + k62;
    let k64 = "let "@ + k63;
    let k65 = "{ "@ + k64;
    lemma_regroup("{ "@ + (((((((("let "@ + "__alloc"@ + " = "@ + ((r + ".read_u64()"@) + " as "@ + ("*mut "@ + "dynspire::managed::DynSpireAllocator"@)) + ";"@) + " "@) + ("let "@ + "__ptr"@ + " = "@ + ((r + ".read_u64()"@) + " as "@ + ("*mut "@ + rt)) + ";"@)) + " "@) + ("let "@ + "__len"@ + " = "@ + ((r + ".read_u64()"@) + " as "@ + "usize"@) + ";"@)) + " "@) + ("let "@ + "__cap"@ + " = "@ + ((r + ".read_u64()"@) + " as "@ + "usize"@) + ";"@)) + " "@) + (("dynspire::managed::OwnedDVec::<"@ + rt + ">::from_raw"@) + "("@ + (("dynspire::managed::DVec::<"@ + rt + ">"@) + " { "@ + (((("allocator"@ + ": "@ + "__alloc"@) + ", "@ + "ptr"@ + ": "@ + "__ptr"@) + ", "@ + "len"@ + ": "@ + "__len"@) + ", "@ + "cap"@ + ": "@ + "__cap"@) + " }"@) + ")"@), " }"@, k0);
    lemma_regroup("{ "@ + (((((((("let "@ + "__alloc"@ + " = "@ + ((r + ".read_u64()"@) + " as "@ + ("*mut "@ + "dynspire::managed::DynSpireAllocator"@)) + ";"@) + " "@) + ("let "@ + "__ptr"@ + " = "@ + ((r + ".read_u64()"@) + " as "@ + ("*mut "@ + rt)) + ";"@)) + " "@) + ("let "@ + "__len"@ + " = "@ + ((r + ".read_u64()"@) + " as "@ + "usize"@) + ";"@)) + " "@) + ("let "@ + "__cap"@ + " = "@ + ((r + ".read_u64()"@) + " as "@ + "usize"@) + ";"@)) + " "@), (("dynspire::managed::OwnedDVec::<"@ + rt + ">::from_raw"@) + "("@ + (("dynspire::managed::DVec::<"@ + rt + ">"@) + " { "@ + (((("allocator"@ + ": "@ + "__alloc"@) + ", "@ + "ptr"@ + ": "@ + "__ptr"@) + ", "@ + "len"@ + ": "@ + "__len"@) + ", "@ + "cap"@ + ": "@ + "__cap"@) + " }"@) + ")"@), k1);
    lemma_regroup(("dynspire::managed::OwnedDVec::<"@ + rt + ">::from_raw"@) + "("@ + (("dynspire::managed::DVec::<"@ + rt + ">"@) + " { "@ + (((("allocator"@ + ": "@ + "__alloc"@) + ", "@ + "ptr"@ + ": "@ + "__ptr"@) + ", "@ + "len"@ + ": "@ + "__len"@) + ", "@ + "cap"@ + ": "@ + "__cap"@) + " }"@), ")"@, k1);
    lemma_regroup(("dynspire::managed::OwnedDVec::<"@ + rt + ">::from_raw"@) + "("@, (("dynspire::managed::DVec::<"@ + rt + ">"@) + " { "@ + (((("allocator"@ + ": "@ + "__alloc"@) + ", "@ + "ptr"@ + ": "@ + "__ptr"@) + ", "@ + "len"@ + ": "@ + "__len"@) + ", "@ + "cap"@ + ": "@ + "__cap"@) + " }"@), k2);
    lemma_regroup(("dynspire::managed::DVec::<"@ + rt + ">"@) + " { "@ + (((("allocator"@ + ": "@ + "__alloc"@) + ", "@ + "ptr"@ + ": "@ + "__ptr"@) + ", "@ + "len"@ + ": "@ + "__len"@) + ", "@ + "cap"@ + ": "@ + "__cap"@), " }"@, k2);
    lemma_regroup(("dynspire::managed::DVec::<"@ + rt + ">"@) + " { "@, (((("allocator"@ + ": "@ + "__alloc"@) + ", "@ + "ptr"@ + ": "@ + "__ptr"@) + ", "@ + "len"@ + ": "@ + "__len"@) + ", "@ + "cap"@ + ": "@ + "__cap"@), k3);
    lemma_regroup(((("allocator"@ + ": "@ + "__alloc"@) + ", "@ + "ptr"@ + ": "@ + "__ptr"@) + ", "@ + "len"@ + ": "@ + "__len"@) + ", "@ + "cap"@ + ": "@, "__cap"@, k3);
    lemma_regroup(((("allocator"@ + ": "@ + "__alloc"@) + ", "@ + "ptr"@ + ": "@ + "__ptr"@) + ", "@ + "len"@ + ": "@ + "__len"@) + ", "@ + "cap"@, ": "@, k4);
    lemma_regroup(((("allocator"@ + ": "@ + "__alloc"@) + ", "@ + "ptr"@ + ": "@ + "__ptr"@) + ", "@ + "len"@ + ": "@ + "__len"@) + ", "@, "cap"@, k5);
    lemma_regroup(((("allocator"@ + ": "@ + "__alloc"@) + ", "@ + "ptr"@ + ": "@ + "__ptr"@) + ", "@ + "len"@ + ": "@ + "__len"@), ", "@, k6);
    lemma_regroup((("allocator"@ + ": "@ + "__alloc"@) + ", "@ + "ptr"@ + ": "@ + "__ptr"@) + ", "@ + "len"@ + ": "@, "__len"@, k7);
    lemma_regroup((("allocator"@ + ": "@ + "__alloc"@) + ", "@ + "ptr"@ + ": "@ + "__ptr"@) + ", "@ + "len"@, ": "@, k8);
    lemma_regroup((("allocator"@ + ": "@ + "__alloc"@) + ", "@ + "ptr"@ + ": "@ + "__ptr"@) + ", "@, "len"@, k9);
    lemma_regroup((("allocator"@ + ": "@ + "__alloc"@) + ", "@ + "ptr"@ + ": "@ + "__ptr"@), ", "@, k10);
    lemma_regroup(("allocator"@ + ": "@ + "__alloc"@) + ", "@ + "ptr"@ + ": "@, "__ptr"@, k11);
    lemma_regroup(("allocator"@ + ": "@ + "__alloc"@) + ", "@ + "ptr"@, ": "@, k12);
    lemma_regroup(("allocator"@ + ": "@ + "__alloc"@) + ", "@, "ptr"@, k13);
    lemma_regroup(("allocator"@ + ": "@ + "__alloc"@), ", "@, k14);
    lemma_regroup("allocator"@ + ": "@, "__alloc"@, k15);
    lemma_regroup("allocator"@, ": "@, k16);
    lemma_regroup(("dynspire::managed::DVec::<"@ + rt + ">"@), " { "@, k18);
    lemma_regroup("dynspire::managed::DVec::<"@ + rt, ">"@, k19);
    lemma_regroup("dynspire::managed::DVec::<"@, rt, k20);
    lemma_regroup(("dynspire::managed::OwnedDVec::<"@ + rt + ">::from_raw"@), "("@, k22);
    lemma_regroup("dynspire::managed::OwnedDVec::<"@ + rt, ">::from_raw"@, k23);
    lemma_regroup("dynspire::managed::OwnedDVec::<"@, rt, k24);
    lemma_regroup("{ "@, (((((((("let "@ + "__alloc"@ + " = "@ + ((r + ".read_u64()"@) + " as "@ + ("*mut "@ + "dynspire::managed::DynSpireAllocator"@)) + ";"@) + " "@) + ("let "@ + "__ptr"@ + " = "@ + ((r + ".read_u64()"@) + " as "@ + ("*mut "@ + rt)) + ";"@)) + " "@) + ("let "@ + "__len"@ + " = "@ + ((r + ".read_u64()"@) + " as "@ + "usize"@) + ";"@)) + " "@) + ("let "@ + "__cap"@ + " = "@ + ((r + ".read_u64()"@) + " as "@ + "usize"@) + ";"@)) + " "@), k26);
    lemma_regroup(((((((("let "@ + "__alloc"@ + " = "@ + ((r + ".read_u64()"@) + " as "@ + ("*mut "@ + "dynspire::managed::DynSpireAllocator"@)) + ";"@) + " "@) + ("let "@ + "__ptr"@ + " = "@ + ((r + ".read_u64()"@) + " as "@ + ("*mut "@ + rt)) + ";"@)) + " "@) + ("let "@ + "__len"@ + " = "@ + ((r + ".read_u64()"@) + " as "@ + "usize"@) + ";"@)) + " "@) + ("let "@ + "__cap"@ + " = "@ + ((r + ".read_u64()"@) + " as "@ + "usize"@) + ";"@)), " "@, k26);
    lemma_regroup((((((("let "@ + "__alloc"@ + " = "@ + ((r + ".read_u64()"@) + " as "@ + ("*mut "@ + "dynspire::managed::DynSpireAllocator"@)) + ";"@) + " "@) + ("let "@ + "__ptr"@ + " = "@ + ((r + ".read_u64()"@) + " as "@ + ("*mut "@ + rt)) + ";"@)) + " "@) + ("let "@ + "__len"@ + " = "@ + ((r + ".read_u64()"@) + " as "@ + "usize"@) + ";"@)) + " "@), ("let "@ + "__cap"@ + " = "@ + ((r + ".read_u64()"@) + " as "@ + "usize"@) + ";"@), k27);
    lemma_regroup("let "@ + "__cap"@ + " = "@ + ((r + ".read_u64()"@) + " as "@ + "usize"@), ";"@, k27);
    lemma_regroup("let "@ + "__cap"@ + " = "@, ((r + ".read_u64()"@) + " as "@ + "usize"@), k28);
    lemma_regroup((r + ".read_u64()"@) + " as "@, "usize"@, k28);
    lemma_regroup((r + ".read_u64()"@), " as "@, k29);
    lemma_regroup(r, ".read_u64()"@, k30);
    lemma_regroup("let "@ + "__cap"@, " = "@, k32);
    lemma_regroup("let "@, "__cap"@, k33);
    lemma_regroup(((((("let "@ + "__alloc"@ + " = "@ + ((r + ".read_u64()"@) + " as "@ + ("*mut "@ + "dynspire::managed::DynSpireAllocator"@)) + ";"@) + " "@) + ("let "@ + "__ptr"@ + " = "@ + ((r + ".read_u64()"@) + " as "@ + ("*mut "@ + rt)) + ";"@)) + " "@) + ("let "@ + "__len"@ + " = "@ + ((r + ".read_u64()"@) + " as "@ + "usize"@) + ";"@)), " "@, k35);
    lemma_regroup((((("let "@ + "__alloc"@ + " = "@ + ((r + ".read_u64()"@) + " as "@ + ("*mut "@ + "dynspire::managed::DynSpireAllocator"@)) + ";"@) + " "@) + ("let "@ + "__ptr"@ + " = "@ + ((r + ".read_u64()"@) + " as "@ + ("*mut "@ + rt)) + ";"@)) + " "@), ("let "@ + "__len"@ + " = "@ + ((r + ".read_u64()"@) + " as "@ + "usize"@) + ";"@), k36);
    lemma_regroup("let "@ + "__len"@ + " = "@ + ((r + ".read_u64()"@) + " as "@ + "usize"@), ";"@, k36);
    lemma_regroup("let "@ + "__len"@ + " = "@, ((r + ".read_u64()"@) + " as "@ + "usize"@), k37);
    lemma_regroup((r + ".read_u64()"@) + " as "@, "usize"@, k37);
    lemma_regroup((r + ".read_u64()"@), " as "@, k38);
    lemma_regroup(r, ".read_u64()"@, k39);
    lemma_regroup("let "@ + "__len"@, " = "@, k41);
    lemma_regroup("let "@, "__len"@, k42);
    lemma_regroup(((("let "@ + "__alloc"@ + " = "@ + ((r + ".read_u64()"@) + " as "@ + ("*mut "@ + "dynspire::managed::DynSpireAllocator"@)) + ";"@) + " "@) + ("let "@ + "__ptr"@ + " = "@ + ((r + ".read_u64()"@) + " as "@ + ("*mut "@ + rt)) + ";"@)), " "@, k44);
    lemma_regroup((("let "@ + "__alloc"@ + " = "@ + ((r + ".read_u64()"@) + " as "@ + ("*mut "@ + "dynspire::managed::DynSpireAllocator"@)) + ";"@) + " "@), ("let "@ + "__ptr"@ + " = "@ + ((r + ".read_u64()"@) + " as "@ + ("*mut "@ + rt)) + ";"@), k45);
    lemma_regroup("let "@ + "__ptr"@ + " = "@ + ((r + ".read_u64()"@) + " as "@ + ("*mut "@ + rt)), ";"@, k45);
    lemma_regroup("let "@ + "__ptr"@ + " = "@, ((r + ".read_u64()"@) + " as "@ + ("*mut "@ + rt)), k46);
    lemma_regroup((r + ".read_u64()"@) + " as "@, ("*mut "@ + rt), k46);
    lemma_regroup("*mut "@, rt, k46);
    lemma_regroup((r + ".read_u64()"@), " as "@, k48);
    lemma_regroup(r, ".read_u64()"@, k49);
    lemma_regroup("let "@ + "__ptr"@, " = "@, k51);
    lemma_regroup("let "@, "__ptr"@, k52);
    lemma_regroup(("let "@ + "__alloc"@ + " = "@ + ((r + ".read_u64()"@) + " as "@ + ("*mut "@ + "dynspire::managed::DynSpireAllocator"@)) + ";"@), " "@, k54);
    lemma_regroup("let "@ + "__alloc"@ + " = "@ + ((r + ".read_u64()"@) + " as "@ + ("*mut "@ + "dynspire::managed::DynSpireAllocator"@)), ";"@, k55);
    lemma_regroup("let "@ + "__alloc"@ + " = "@, ((r + ".read_u64()"@) + " as "@ + ("*mut "@ + "dynspire::managed::DynSpireAllocator"@)), k56);
    lemma_regroup((r + ".read_u64()"@) + " as "@, ("*mut "@ + "dynspire::managed::DynSpireAllocator"@), k56);
    lemma_regroup("*mut "@, "dynspire::managed::DynSpireAllocator"@, k56);
    lemma_regroup((r + ".read_u64()"@), " as "@, k58);
    lemma_regroup(r, ".read_u64()"@, k59);
    lemma_regroup("let "@ + "__alloc"@, " = "@, k61);
    lemma_regroup("let "@, "__alloc"@, k62);
    lemma_regroup("{ let __alloc = "@ + r + ".read_u64() as *mut dynspire::managed::DynSpireAllocator; let __ptr = "@ + r + ".read_u64() as *mut "@ + rt + "; let __len = "@ + r + ".read_u64() as usize; let __cap = "@ + r + ".read_u64() as usize; dynspire::managed::OwnedDVec::<"@ + rt + ">::from_raw(dynspire::managed::DVec::<"@ + rt, "> { allocator: __alloc, ptr: __ptr, len: __len, cap: __cap }) }"@, k0);
    lemma_regroup(">"@ + " { "@ + "allocator"@ + ": "@ + "__alloc"@ + ", "@ + "ptr"@ + ": "@ + "__ptr"@ + ", "@ + "len"@ + ": "@ + "__len"@ + ", "@ + "cap"@ + ": "@ + "__cap"@ + " }"@ + ")"@, " }"@, k0);
    lemma_regroup(">"@ + " { "@ + "allocator"@ + ": "@ + "__alloc"@ + ", "@ + "ptr"@ + ": "@ + "__ptr"@ + ", "@ + "len"@ + ": "@ + "__len"@ + ", "@ + "cap"@ + ": "@ + "__cap"@ + " }"@, ")"@, k1);
    lemma_regroup(">"@ + " { "@ + "allocator"@ + ": "@ + "__alloc"@ + ", "@ + "ptr"@ + ": "@ + "__ptr"@ + ", "@ + "len"@ + ": "@ + "__len"@ + ", "@ + "cap"@ + ": "@ + "__cap"@, " }"@, k2);
    lemma_regroup(">"@ + " { "@ + "allocator"@ + ": "@ + "__alloc"@ + ", "@ + "ptr"@ + ": "@ + "__ptr"@ + ", "@ + "len"@ + ": "@ + "__len"@ + ", "@ + "cap"@ + ": "@, "__cap"@, k3);
    lemma_regroup(">"@ + " { "@ + "allocator"@ + ": "@ + "__alloc"@ + ", "@ + "ptr"@ + ": "@ + "__ptr"@ + ", "@ + "len"@ + ": "@ + "__len"@ + ", "@ + "cap"@, ": "@, k4);
    lemma_regroup(">"@ + " { "@ + "allocator"@ + ": "@ + "__alloc"@ + ", "@ + "ptr"@ + ": "@ + "__ptr"@ + ", "@ + "len"@ + ": "@ + "__len"@ + ", "@, "cap"@, k5);
    lemma_regroup(">"@ + " { "@ + "allocator"@ + ": "@ + "__alloc"@ + ", "@ + "ptr"@ + ": "@ + "__ptr"@ + ", "@ + "len"@ + ": "@ + "__len"@, ", "@, k6);
    lemma_regroup(">"@ + " { "@ + "allocator"@ + ": "@ + "__alloc"@ + ", "@ + "ptr"@ + ": "@ + "__ptr"@ + ", "@ + "len"@ + ": "@, "__len"@, k7);
    lemma_regroup(">"@ + " { "@ + "allocator"@ + ": "@ + "__alloc"@ + ", "@ + "ptr"@ + ": "@ + "__ptr"@ + ", "@ + "len"@, ": "@, k8);
    lemma_regroup(">"@ + " { "@ + "allocator"@ + ": "@ + "__alloc"@ + ", "@ + "ptr"@ + ": "@ + "__ptr"@ + ", "@, "len"@, k9);
    lemma_regroup(">"@ + " { "@ + "allocator"@ + ": "@ + "__alloc"@ + ", "@ + "ptr"@ + ": "@ + "__ptr"@, ", "@, k10);
    lemma_regroup(">"@ + " { "@ + "allocator"@ + ": "@ + "__alloc"@ + ", "@ + "ptr"@ + ": "@, "__ptr"@, k11);
    lemma_regroup(">"@ + " { "@ + "allocator"@ + ": "@ + "__alloc"@ + ", "@ + "ptr"@, ": "@, k12);
    lemma_regroup(">"@ + " { "@ + "allocator"@ + ": "@ + "__alloc"@ + ", "@, "ptr"@, k13);
    lemma_regroup(">"@ + " { "@ + "allocator"@ + ": "@ + "__alloc"@, ", "@, k14);
    lemma_regroup(">"@ + " { "@ + "allocator"@ + ": "@, "__alloc"@, k15);
    lemma_regroup(">"@ + " { "@ + "allocator"@, ": "@, k16);
    lemma_regroup(">"@ + " { "@, "allocator"@, k17);
    lemma_regroup(">"@, " { "@, k18);
    lemma_regroup("{ let __alloc = "@ + r + ".read_u64() as *mut dynspire::managed::DynSpireAllocator; let __ptr = "@ + r + ".read_u64() as *mut "@ + rt + "; let __len = "@ + r + ".read_u64() as usize; let __cap = "@ + r + ".read_u64() as usize; dynspire::managed::OwnedDVec::<"@ + rt + ">::from_raw(dynspire::managed::DVec::<"@, rt, k20);
    lemma_regroup("{ let __alloc = "@ + r + ".read_u64() as *mut dynspire::managed::DynSpireAllocator; let __ptr = "@ + r + ".read_u64() as *mut "@ + rt + "; let __len = "@ + r + ".read_u64() as usize; let __cap = "@ + r + ".read_u64() as usize; dynspire::managed::OwnedDVec::<"@ + rt, ">::from_raw(dynspire::managed::DVec::<"@, k21);
    lemma_regroup(">::from_raw"@ + "("@, "dynspire::managed::DVec::<"@, k21);
    lemma_regroup(">::from_raw"@, "("@, k22);
    lemma_regroup("{ let __alloc = "@ + r + ".read_u64() as *mut dynspire::managed::DynSpireAllocator; let __ptr = "@ + r + ".read_u64() as *mut "@ + rt + "; let __len = "@ + r + ".read_u64() as usize; let __cap = "@ + r + ".read_u64() as usize; dynspire::managed::OwnedDVec::<"@, rt, k24);
    lemma_regroup("{ let __alloc = "@ + r + ".read_u64() as *mut dynspire::managed::DynSpireAllocator; let __ptr = "@ + r + ".read_u64() as *mut "@ + rt + "; let __len = "@ + r + ".read_u64() as usize; let __cap = "@ + r, ".read_u64() as usize; dynspire::managed::OwnedDVec::<"@, k25);
    lemma_regroup(".read_u64()"@ + " as "@ + "usize"@ + ";"@ + " "@, "dynspire::managed::OwnedDVec::<"@, k25);
    lemma_regroup(".read_u64()"@ + " as "@ + "usize"@ + ";"@, " "@, k26);
    lemma_regroup(".read_u64()"@ + " as "@ + "usize"@, ";"@, k27);
    lemma_regroup(".read_u64()"@ + " as "@, "usize"@, k28);
    lemma_regroup(".read_u64()"@, " as "@, k29);
    lemma_regroup("{ let __alloc = "@ + r + ".read_u64() as *mut dynspire::managed::DynSpireAllocator; let __ptr = "@ + r + ".read_u64() as *mut "@ + rt + "; let __len = "@ + r + ".read_u64() as usize; let __cap = "@, r, k31);
    lemma_regroup("{ let __alloc = "@ + r + ".read_u64() as *mut dynspire::managed::DynSpireAllocator; let __ptr = "@ + r + ".read_u64() as *mut "@ + rt + "; let __len = "@ + r, ".read_u64() as usize; let __cap = "@, k32);
    lemma_regroup(".read_u64()"@ + " as "@ + "usize"@ + ";"@ + " "@ + "let "@ + "__cap"@, " = "@, k32);
    lemma_regroup(".read_u64()"@ + " as "@ + "usize"@ + ";"@ + " "@ + "let "@, "__cap"@, k33);
    lemma_regroup(".read_u64()"@ + " as "@ + "usize"@ + ";"@ + " "@, "let "@, k34);
    lemma_regroup(".read_u64()"@ + " as "@ + "usize"@ + ";"@, " "@, k35);
    lemma_regroup(".read_u64()"@ + " as "@ + "usize"@, ";"@, k36);
    lemma_regroup(".read_u64()"@ + " as "@, "usize"@, k37);
    lemma_regroup(".read_u64()"@, " as "@, k38);
    lemma_regroup("{ let __alloc = "@ + r + ".read_u64() as *mut dynspire::managed::DynSpireAllocator; let __ptr = "@ + r + ".read_u64() as *mut "@ + rt + "; let __len = "@, r, k40);
    lemma_regroup("{ let __alloc = "@ + r + ".read_u64() as *mut dynspire::managed::DynSpireAllocator; let __ptr = "@ + r + ".read_u64() as *mut "@ + rt, "; let __len = "@, k41);
    lemma_regroup(";"@ + " "@ + "let "@ + "__len"@, " = "@, k41);
    lemma_regroup(";"@ + " "@ + "let "@, "__len"@, k42);
    lemma_regroup(";"@ + " "@, "let "@, k43);
    lemma_regroup(";"@, " "@, k44);
    lemma_regroup("{ let __alloc = "@ + r + ".read_u64() as *mut dynspire::managed::DynSpireAllocator; let __ptr = "@ + r + ".read_u64() as *mut "@, rt, k46);
    lemma_regroup("{ let __alloc = "@ + r + ".read_u64() as *mut dynspire::managed::DynSpireAllocator; let __ptr = "@ + r, ".read_u64() as *mut "@, k47);
    lemma_regroup(".read_u64()"@ + " as "@, "*mut "@, k47);
    lemma_regroup(".read_u64()"@, " as "@, k48);
    lemma_regroup("{ let __alloc = "@ + r + ".read_u64() as *mut dynspire::managed::DynSpireAllocator; let __ptr = "@, r, k50);
    lemma_regroup("{ let __alloc = "@ + r, ".read_u64() as *mut dynspire::managed::DynSpireAllocator; let __ptr = "@, k51);
    lemma_regroup(".read_u64()"@ + " as "@ + "*mut "@ + "dynspire::managed::DynSpireAllocator"@ + ";"@ + " "@ + "let "@ + "__ptr"@, " = "@, k51);
    lemma_regroup(".read_u64()"@ + " as "@ + "*mut "@ + "dynspire::managed::DynSpireAllocator"@ + ";"@ + " "@ + "let "@, "__ptr"@, k52);
    lemma_regroup(".read_u64()"@ + " as "@ + "*mut "@ + "dynspire::managed::DynSpireAllocator"@ + ";"@ + " "@, "let "@, k53);
    lemma_regroup(".read_u64()"@ + " as "@ + "*mut "@ + "dynspire::managed::DynSpireAllocator"@ + ";"@, " "@, k54);
    lemma_regroup(".read_u64()"@ + " as "@ + "*mut "@ + "dynspire::managed::DynSpireAllocator"@, ";"@, k55);
    lemma_regroup(".read_u64()"@ + " as "@ + "*mut "@, "dynspire::managed::DynSpireAllocator"@, k56);
    lemma_regroup(".read_u64()"@ + " as "@, "*mut "@, k57);
    lemma_regroup(".read_u64()"@, " as "@, k58);
    lemma_regroup("{ let __alloc = "@, r, k60);
    lemma_regroup("{ "@ + "let "@ + "__alloc"@, " = "@, k61);
    lemma_regroup("{ "@ + "let "@, "__alloc"@, k62);
    lemma_regroup("{ "@, "let "@, k63);
    lemma_end("{ "@ + (((((((("let "@ + "__alloc"@ + " = "@ + ((r + ".read_u64()"@) + " as "@ + ("*mut "@ + "dynspire::managed::DynSpireAllocator"@)) + ";"@) + " "@) + ("let "@ + "__ptr"@ + " = "@ + ((r + ".read_u64()"@) + " as "@ + ("*mut "@ + rt)) + ";"@)) + " "@) + ("let "@ + "__len"@ + " = "@ + ((r + ".read_u64()"@) + " as "@ + "usize"@) + ";"@)) + " "@) + ("let "@ + "__cap"@ + " = "@ + ((r + ".read_u64()"@) + " as "@ + "usize"@) + ";"@)) + " "@) + (("dynspire::managed::OwnedDVec::<"@ + rt + ">::from_raw"@) + "("@ + (("dynspire::managed::DVec::<"@ + rt + ">"@) + " { "@ + (((("allocator"@ + ": "@ + "__alloc"@) + ", "@ + "ptr"@ + ": "@ + "__ptr"@) + ", "@ + "len"@ + ": "@ + "__len"@) + ", "@ + "cap"@ + ": "@ + "__cap"@) + " }"@) + ")"@) + " }"@, "{ let __alloc = "@ + r + ".read_u64() as *mut dynspire::managed::DynSpireAllocator; let __ptr = "@ + r + ".read_u64() as *mut "@ + rt + "; let __len = "@ + r + ".read_u64() as usize; let __cap = "@ + r + ".read_u64() as usize; dynspire::managed::OwnedDVec::<"@ + rt + ">::from_raw(dynspire::managed::DVec::<"@ + rt + "> { allocator: __alloc, ptr: __ptr, len: __len, cap: __cap }) }"@, k0);
}

pub(crate) proof fn lemma_g_own_dvec(r: Seq<char>, rt: Seq<char>)
    ensures
        text(own_dvec_ex(r, rt)) == "{ let __alloc = "@ + r + ".read_u64() as *mut dynspire::managed::DynSpireAllocator; let __ptr = "@ + r + ".read_u64() as *mut "@ + rt + "; let __len = "@ + r + ".read_u64() as usize; let __cap = "@ + r + ".read_u64() as usize; dynspire::managed::OwnedDVec::<"@ + rt + ">::from_raw(dynspire::managed::DVec::<"@ + rt + "> { allocator: __alloc, ptr: __ptr, len: __len, cap: __cap }) }"@,
{
    lemma_g_own_dvec_parts(r, rt);
    lemma_cat_own_dvec(r, rt);
}

pub open spec fn option_ex(r: Seq<char>, inner: Ex) -> Ex {
    Ex::Block(false, seq![St::Let(false, "__tag"@, Ex::Call(Box::new(Ex::Name(r)), Meth::ReadU64)), St::Blank(" "@)], Box::new(Ex::If(Box::new(Ex::Eq(Box::new(Ex::Name("__tag"@)), 0)), Box::new(Ex::Nil), Box::new(Ex::Apply(Fun::Just, seq![inner])))))
}

#[verifier::spinoff_prover]
#[verifier::rlimit(100)]
pub(crate) proof fn lemma_g_option(r: Seq<char>, inner: Ex)
    ensures
        ({
            let inner_read = text(inner);
            text(option_ex(r, inner)) == "{ let __tag = "@ + r + ".read_u64(); if __tag == 0 { None } else { Some("@ + inner_read + ") } }"@
        }),
{
    lemma_casts();
    let inner_read = text(inner);
    assert(alike("{ let __tag = "@, "{ "@ + "let "@ + "__tag"@ + " = "@)) by {
        reveal_strlit("{ let __tag = ");
        reveal_strlit("{ ");
        reveal_strlit("let ");
        reveal_strlit("__tag");
        reveal_strlit(" = ");
        assert("{ let __tag = "@ =~= "{ "@ + "let "@ + "__tag"@ + " = "@);
    }
    assert(alike(".read_u64(); if __tag == 0 { None } else { Some("@, ".read_u64()"@ + ";"@ + " "@ + "if "@ + "__tag"@ + " == "@ + "0"@ + " { "@ + "None"@ + " } else { "@ + "Some"@ + "("@)) by {
        reveal_strlit(".read_u64(); if __tag == 0 { None } else { Some(");
        reveal_strlit(".read_u64()");
        reveal_strlit(";");
        reveal_strlit(" ");
        reveal_strlit("if ");
        reveal_strlit("__tag");
        reveal_strlit(" == ");
        reveal_strlit("0");
        reveal_strlit(" { ");
        reveal_strlit("None");
        reveal_strlit(" } else { ");
        reveal_strlit("Some");
        reveal_strlit("(");
        assert(".read_u64(); if __tag == 0 { None } else { Some("@ =~= ".read_u64()"@ + ";"@ + " "@ + "if "@ + "__tag"@ + " == "@ + "0"@ + " { "@ + "None"@ + " } else { "@ + "Some"@ + "("@);
    }
    assert(alike(") } }"@, ")"@ + " }"@ + " }"@)) by {
        reveal_strlit(") } }");
        reveal_strlit(")");
        reveal_strlit(" }");
        assert(") } }"@ =~= ")"@ + " }"@ + " }"@);
    }
    let e0 = Ex::Name(r);
    let e1 = Ex::Call(Box::new(e0), Meth::ReadU64);
    let e2 = St::Let(false, "__tag"@, e1);
    let e3 = St::Blank(" "@);
    let e4 = Ex::Name("__tag"@);
    let e5 = Ex::Eq(Box::new(e4), 0);
    let e6 = Ex::Nil;
    let es7 = seq![inner];
    assert(es7[0] == inner);
    let e7 = Ex::Apply(Fun::Just, es7);
    assert(es7.len() == 1);
    lemma_first_text(es7);
    let e8 = Ex::If(Box::new(e5), Box::new(e6), Box::new(e7));
    let ss9 = seq![e2, e3];
    assert(ss9[0] == e2);
    assert(ss9[1] == e3);
    assert(ss9.len() == 2);
    lemma_first_line(ss9);
    let e9 = Ex::Block(false, ss9, Box::new(e8));
    let k0 = Seq::<char>::empty();
    let k1 = " }"@ + k0;
    let k2 = " }"@ + k1;
    let k3 = ")"@ + k2;
    let k4 = inner_read + k3;
    let k5 = "("@ + k4;
    let k6 = "Some"@ + k5;
    let k7 = " } else { "@ + k6;
    let k8 = "None"@ + k7;
    let k9 = " { "@ + k8;
    let k10 = "0"@ + k9;
    let k11 = " == "@ + k10;
    let k12 = "__tag"@ + k11;
    let k13 = "if "@ + k12;
    let k14 = " "@ + k13;
    let k15 = ";"@ + k14;
    let k16 = ".read_u64()"@ + k15;
    let k17 = r + k16;
    let k18 = " = "@ + k17;
    let k19 = "__tag"@ + k18;
    let k20 = "let "@ + k19;
    let k21 = "{ "@ + k20;
    lemma_regroup("{ "@ + lines(ss9, 2) + text(e8), " }"@, k0);
    lemma_regroup("{ "@ + lines(ss9, 2), text(e8), k1);
    lemma_regroup("if "@ + text(e5) + " { "@ + text(e6) + " } else { "@ + text(e7), " }"@, k1);
    lemma_regroup("if "@ + text(e5) + " { "@ + text(e6) + " } else { "@, text(e7), k2);
    lemma_regroup("Some"@ + "("@ + texts(es7, 1), ")"@, k2);
    lemma_regroup("Some"@ + "("@, texts(es7, 1), k3);
    lemma_regroup("Some"@, "("@, k4);
    lemma_regroup("if "@ + text(e5) + " { "@ + text(e6), " } else { "@, k6);
    lemma_regroup("if "@ + text(e5) + " { "@, text(e6), k7);
    lemma_regroup("if "@ + text(e5), " { "@, k8);
    lemma_regroup("if "@, text(e5), k9);
    lemma_regroup(text(e4) + " == "@, "0"@, k9);
    lemma_regroup(text(e4), " == "@, k10);
    lemma_regroup("{ "@, lines(ss9, 2), k13);
    lemma_regroup(lines(ss9, 1), line(e3), k13);
    lemma_regroup("let "@ + "__tag"@ + " = "@ + text(e1), ";"@, k14);
    lemma_regroup("let "@ + "__tag"@ + " = "@, text(e1), k15);
    lemma_regroup(text(e0), ".read_u64()"@, k15);
    lemma_regroup("let "@ + "__tag"@, " = "@, k17);
    lemma_regroup("let "@, "__tag"@, k18);
    lemma_regroup("{ let __tag = "@ + r + ".read_u64(); if __tag == 0 { None } else { Some("@ + inner_read, ") } }"@, k0);
    lemma_regroup(")"@ + " }"@, " }"@, k0);
    lemma_regroup(")"@, " }"@, k1);
    lemma_regroup("{ let __tag = "@ + r + ".read_u64(); if __tag == 0 { None } else { Some("@, inner_read, k3);
    lemma_regroup("{ let __tag = "@ + r, ".read_u64(); if __tag == 0 { None } else { Some("@, k4);
    lemma_regroup(".read_u64()"@ + ";"@ + " "@ + "if "@ + "__tag"@ + " == "@ + "0"@ + " { "@ + "None"@ + " } else { "@ + "Some"@, "("@, k4);
    lemma_regroup(".read_u64()"@ + ";"@ + " "@ + "if "@ + "__tag"@ + " == "@ + "0"@ + " { "@ + "None"@ + " } else { "@, "Some"@, k5);
    lemma_regroup(".read_u64()"@ + ";"@ + " "@ + "if "@ + "__tag"@ + " == "@ + "0"@ + " { "@ + "None"@, " } else { "@, k6);
    lemma_regroup(".read_u64()"@ + ";"@ + " "@ + "if "@ + "__tag"@ + " == "@ + "0"@ + " { "@, "None"@, k7);
    lemma_regroup(".read_u64()"@ + ";"@ + " "@ + "if "@ + "__tag"@ + " == "@ + "0"@, " { "@, k8);
    lemma_regroup(".read_u64()"@ + ";"@ + " "@ + "if "@ + "__tag"@ + " == "@, "0"@, k9);
    lemma_regroup(".read_u64()"@ + ";"@ + " "@ + "if "@ + "__tag"@, " == "@, k10);
    lemma_regroup(".read_u64()"@ + ";"@ + " "@ + "if "@, "__tag"@, k11);
    lemma_regroup(".read_u64()"@ + ";"@ + " "@, "if "@, k12);
    lemma_regroup(".read_u64()"@ + ";"@, " "@, k13);
    lemma_regroup(".read_u64()"@, ";"@, k14);
    lemma_regroup("{ let __tag = "@, r, k16);
    lemma_regroup("{ "@ + "let "@ + "__tag"@, " = "@, k17);
    lemma_regroup("{ "@ + "let "@, "__tag"@, k18);
    lemma_regroup("{ "@, "let "@, k19);
    lemma_end(text(e9), "{ let __tag = "@ + r + ".read_u64(); if __tag == 0 { None } else { Some("@ + inner_read + ") } }"@, k0);
    assert(e9 == option_ex(r, inner));
}

pub open spec fn doption_ex(r: Seq<char>, rt: Seq<char>, inner: Ex) -> Ex {
    Ex::Block(false, seq![St::Let(false, "__tag"@, Ex::Call(Box::new(Ex::Name(r)), Meth::ReadU64)), St::Blank(" "@)], Box::new(Ex::If(Box::new(Ex::Eq(Box::new(Ex::Name("__tag"@)), 0)), Box::new(Ex::DNil(rt)), Box::new(Ex::DSome(rt, Box::new(inner))))))
}

#[verifier::spinoff_prover]
#[verifier::rlimit(100)]
pub(crate) proof fn lemma_g_doption(r: Seq<char>, rt: Seq<char>, inner: Ex)
    ensures
        ({
            let inner_read = text(inner);
            text(doption_ex(r, rt, inner)) == "{ let __tag = "@ + r + ".read_u64(); if __tag == 0 { dynspire::managed::DOption::<"@ + rt + ">::none() } else { dynspire::managed::DOption::<"@ + rt + ">::some("@ + inner_read + ") } }"@
        }),
{
    lemma_casts();
    let inner_read = text(inner);
    assert(alike("{ let __tag = "@, "{ "@ + "let "@ + "__tag"@ + " = "@)) by {
        reveal_strlit("{ let __tag = ");
        reveal_strlit("{ ");
        reveal_strlit("let ");
        reveal_strlit("__tag");
        reveal_strlit(" = ");
        assert("{ let __tag = "@ =~= "{ "@ + "let "@ + "__tag"@ + " = "@);
    }
    assert(alike(".read_u64(); if __tag == 0 { dynspire::managed::DOption::<"@, ".read_u64()"@ + ";"@ + " "@ + "if "@ + "__tag"@ + " == "@ + "0"@ + " { "@ + "dynspire::managed::DOption::<"@)) by {
        reveal_strlit(".read_u64(); if __tag == 0 { dynspire::managed::DOption::<");
        reveal_strlit(".read_u64()");
        reveal_strlit(";");
        reveal_strlit(" ");
        reveal_strlit("if ");
        reveal_strlit("__tag");
        reveal_strlit(" == ");
        reveal_strlit("0");
        reveal_strlit(" { ");
        reveal_strlit("dynspire::managed::DOption::<");
        assert(".read_u64(); if __tag == 0 { dynspire::managed::DOption::<"@ =~= ".read_u64()"@ + ";"@ + " "@ + "if "@ + "__tag"@ + " == "@ + "0"@ + " { "@ + "dynspire::managed::DOption::<"@);
    }
    assert(alike(">::none() } else { dynspire::managed::DOption::<"@, ">::none()"@ + " } else { "@ + "dynspire::managed::DOption::<"@)) by {
        reveal_strlit(">::none() } else { dynspire::managed::DOption::<");
        reveal_strlit(">::none()");
        reveal_strlit(" } else { ");
        reveal_strlit("dynspire::managed::DOption::<");
        assert(">::none() } else { dynspire::managed::DOption::<"@ =~= ">::none()"@ + " } else { "@ + "dynspire::managed::DOption::<"@);
    }
    assert(alike(") } }"@, ")"@ + " }"@ + " }"@)) by {
        reveal_strlit(") } }");
        reveal_strlit(")");
        reveal_strlit(" }");
        assert(") } }"@ =~= ")"@ + " }"@ + " }"@);
    }
    let e0 = Ex::Name(r);
    let e1 = Ex::Call(Box::new(e0), Meth::ReadU64);
    let e2 = St::Let(false, "__tag"@, e1);
    let e3 = St::Blank(" "@);
    let e4 = Ex::Name("__tag"@);
    let e5 = Ex::Eq(Box::new(e4), 0);
    let e6 = Ex::DNil(rt);
    let e7 = Ex::DSome(rt, Box::new(inner));
    let e8 = Ex::If(Box::new(e5), Box::new(e6), Box::new(e7));
    let ss9 = seq![e2, e3];
    assert(ss9[0] == e2);
    assert(ss9[1] == e3);
    assert(ss9.len() == 2);
    lemma_first_line(ss9);
    let e9 = Ex::Block(false, ss9, Box::new(e8));
    let k0 = Seq::<char>::empty();
    let k1 = " }"@ + k0;
    let k2 = " }"@ + k1;
    let k3 = ")"@ + k2;
    let k4 = inner_read + k3;
    let k5 = ">::some("@ + k4;
    let k6 = rt + k5;
    let k7 = "dynspire::managed::DOption::<"@ + k6;
    let k8 = " } else { "@ + k7;
    let k9 = ">::none()"@ + k8;
    let k10 = rt + k9;
    let k11 = "dynspire::managed::DOption::<"@ + k10;
    let k12 = " { "@ + k11;
    let k13 = "0"@ + k12;
    let k14 = " == "@ + k13;
    let k15 = "__tag"@ + k14;
    let k16 = "if "@ + k15;
    let k17 = " "@ + k16;
    let k18 = ";"@ + k17;
    let k19 = ".read_u64()"@ + k18;
    let k20 = r + k19;
    let k21 = " = "@ + k20;
    let k22 = "__tag"@ + k21;
    let k23 = "let "@ + k22;
    let k24 = "{ "@ + k23;
    lemma_regroup("{ "@ + lines(ss9, 2) + text(e8), " }"@, k0);
    lemma_regroup("{ "@ + lines(ss9, 2), text(e8), k1);
    lemma_regroup("if "@ + text(e5) + " { "@ + text(e6) + " } else { "@ + text(e7), " }"@, k1);
    lemma_regroup("if "@ + text(e5) + " { "@ + text(e6) + " } else { "@, text(e7), k2);
    lemma_regroup("dynspire::managed::DOption::<"@ + rt + ">::some("@ + inner_read, ")"@, k2);
    lemma_regroup("dynspire::managed::DOption::<"@ + rt + ">::some("@, inner_read, k3);
    lemma_regroup("dynspire::managed::DOption::<"@ + rt, ">::some("@, k4);
    lemma_regroup("dynspire::managed::DOption::<"@, rt, k5);
    lemma_regroup("if "@ + text(e5) + " { "@ + text(e6), " } else { "@, k7);
    lemma_regroup("if "@ + text(e5) + " { "@, text(e6), k8);
    lemma_regroup("dynspire::managed::DOption::<"@ + rt, ">::none()"@, k8);
    lemma_regroup("dynspire::managed::DOption::<"@, rt, k9);
    lemma_regroup("if "@ + text(e5), " { "@, k11);
    lemma_regroup("if "@, text(e5), k12);
    lemma_regroup(text(e4) + " == "@, "0"@, k12);
    lemma_regroup(text(e4), " == "@, k13);
    lemma_regroup("{ "@, lines(ss9, 2), k16);
    lemma_regroup(lines(ss9, 1), line(e3), k16);
    lemma_regroup("let "@ + "__tag"@ + " = "@ + text(e1), ";"@, k17);
    lemma_regroup("let "@ + "__tag"@ + " = "@, text(e1), k18);
    lemma_regroup(text(e0), ".read_u64()"@, k18);
    lemma_regroup("let "@ + "__tag"@, " = "@, k20);
    lemma_regroup("let "@, "__tag"@, k21);
    lemma_regroup("{ let __tag = "@ + r + ".read_u64(); if __tag == 0 { dynspire::managed::DOption::<"@ + rt + ">::none() } else { dynspire::managed::DOption::<"@ + rt + ">::some("@ + inner_read, ") } }"@, k0);
    lemma_regroup(")"@ + " }"@, " }"@, k0);
    lemma_regroup(")"@, " }"@, k1);
    lemma_regroup("{ let __tag = "@ + r + ".read_u64(); if __tag == 0 { dynspire::managed::DOption::<"@ + rt + ">::none() } else { dynspire::managed::DOption::<"@ + rt + ">::some("@, inner_read, k3);
    lemma_regroup("{ let __tag = "@ + r + ".read_u64(); if __tag == 0 { dynspire::managed::DOption::<"@ + rt + ">::none() } else { dynspire::managed::DOption::<"@ + rt, ">::some("@, k4);
    lemma_regroup("{ let __tag = "@ + r + ".read_u64(); if __tag == 0 { dynspire::managed::DOption::<"@ + rt + ">::none() } else { dynspire::managed::DOption::<"@, rt, k5);
    lemma_regroup("{ let __tag = "@ + r + ".read_u64(); if __tag == 0 { dynspire::managed::DOption::<"@ + rt, ">::none() } else { dynspire::managed::DOption::<"@, k6);
    lemma_regroup(">::none()"@ + " } else { "@, "dynspire::managed::DOption::<"@, k6);
    lemma_regroup(">::none()"@, " } else { "@, k7);
    lemma_regroup("{ let __tag = "@ + r + ".read_u64(); if __tag == 0 { dynspire::managed::DOption::<"@, rt, k9);
    lemma_regroup("{ let __tag = "@ + r, ".read_u64(); if __tag == 0 { dynspire::managed::DOption::<"@, k10);
    lemma_regroup(".read_u64()"@ + ";"@ + " "@ + "if "@ + "__tag"@ + " == "@ + "0"@ + " { "@, "dynspire::managed::DOption::<"@, k10);
    lemma_regroup(".read_u64()"@ + ";"@ + " "@ + "if "@ + "__tag"@ + " == "@ + "0"@, " { "@, k11);
    lemma_regroup(".read_u64()"@ + ";"@ + " "@ + "if "@ + "__tag"@ + " == "@, "0"@, k12);
    lemma_regroup(".read_u64()"@ + ";"@ + " "@ + "if "@ + "__tag"@, " == "@, k13);
    lemma_regroup(".read_u64()"@ + ";"@ + " "@ + "if "@, "__tag"@, k14);
    lemma_regroup(".read_u64()"@ + ";"@ + " "@, "if "@, k15);
    lemma_regroup(".read_u64()"@ + ";"@, " "@, k16);
    lemma_regroup(".read_u64()"@, ";"@, k17);
    lemma_regroup("{ let __tag = "@, r, k19);
    lemma_regroup("{ "@ + "let "@ + "__tag"@, " = "@, k20);
    lemma_regroup("{ "@ + "let "@, "__tag"@, k21);
    lemma_regroup("{ "@, "let "@, k22);
    lemma_end(text(e9), "{ let __tag = "@ + r + ".read_u64(); if __tag == 0 { dynspire::managed::DOption::<"@ + rt + ">::none() } else { dynspire::managed::DOption::<"@ + rt + ">::some("@ + inner_read + ") } }"@, k0);
    assert(e9 == doption_ex(r, rt, inner));
}

pub open spec fn empty_ex(r: Seq<char>, name: Seq<char>) -> Ex {
    Ex::Block(false, seq![St::Let(false, "_"@, Ex::Call(Box::new(Ex::Name(r)), Meth::ReadU64)), St::Blank(" "@)], Box::new(Ex::UnitStruct(name)))
}

pub(crate) proof fn lemma_g_empty(r: Seq<char>, name: Seq<char>)
    ensures
        text(empty_ex(r, name)) == "{ let _ = "@ + r + ".read_u64(); "@ + name + " }"@,
{
    lemma_casts();
    assert(alike("{ let _ = "@, "{ "@ + "let "@ + "_"@ + " = "@)) by {
        reveal_strlit("{ let _ = ");
        reveal_strlit("{ ");
        reveal_strlit("let ");
        reveal_strlit("_");
        reveal_strlit(" = ");
        assert("{ let _ = "@ =~= "{ "@ + "let "@ + "_"@ + " = "@);
    }
    assert(alike(".read_u64(); "@, ".read_u64()"@ + ";"@ + " "@)) by {
        reveal_strlit(".read_u64(); ");
        reveal_strlit(".read_u64()");
        reveal_strlit(";");
        reveal_strlit(" ");
        assert(".read_u64(); "@ =~= ".read_u64()"@ + ";"@ + " "@);
    }
    let e0 = Ex::Name(r);
    let e1 = Ex::Call(Box::new(e0), Meth::ReadU64);
    let e2 = St::Let(false, "_"@, e1);
    let e3 = St::Blank(" "@);
    let e4 = Ex::UnitStruct(name);
    let ss5 = seq![e2, e3];
    assert(ss5[0] == e2);
    assert(ss5[1] == e3);
    assert(ss5.len() == 2);
    lemma_first_line(ss5);
    let e5 = Ex::Block(false, ss5, Box::new(e4));
    let k0 = Seq::<char>::empty();
    let k1 = " }"@ + k0;
    let k2 = name + k1;
    let k3 = " "@ + k2;
    let k4 = ";"@ + k3;
    let k5 = ".read_u64()"@ + k4;
    let k6 = r + k5;
    let k7 = " = "@ + k6;
    let k8 = "_"@ + k7;
    let k9 = "let "@ + k8;
    let k10 = "{ "@ + k9;
    lemma_regroup("{ "@ + lines(ss5, 2) + text(e4), " }"@, k0);
    lemma_regroup("{ "@ + lines(ss5, 2), text(e4), k1);
    lemma_regroup("{ "@, lines(ss5, 2), k2);
    lemma_regroup(lines(ss5, 1), line(e3), k2);
    lemma_regroup("let "@ + "_"@ + " = "@ + text(e1), ";"@, k3);
    lemma_regroup("let "@ + "_"@ + " = "@, text(e1), k4);
    lemma_regroup(text(e0), ".read_u64()"@, k4);
    lemma_regroup("let "@ + "_"@, " = "@, k6);
    lemma_regroup("let "@, "_"@, k7);
    lemma_regroup("{ let _ = "@ + r + ".read_u64(); "@ + name, " }"@, k0);
    lemma_regroup("{ let _ = "@ + r + ".read_u64(); "@, name, k1);
    lemma_regroup("{ let _ = "@ + r, ".read_u64(); "@, k2);
    lemma_regroup(".read_u64()"@ + ";"@, " "@, k2);
    lemma_regroup(".read_u64()"@, ";"@, k3);
    lemma_regroup("{ let _ = "@, r, k5);
    lemma_regroup("{ "@ + "let "@ + "_"@, " = "@, k6);
    lemma_regroup("{ "@ + "let "@, "_"@, k7);
    lemma_regroup("{ "@, "let "@, k8);
    lemma_end(text(e5), "{ let _ = "@ + r + ".read_u64(); "@ + name + " }"@, k0);
    assert(e5 == empty_ex(r, name));
}

pub open spec fn struct_ex(r: Seq<char>, name: Seq<char>) -> Ex {
    Ex::Block(true, Seq::empty(), Box::new(Ex::Call(Box::new(Ex::Paren(Box::new(Ex::Star(Box::new(Ex::Paren(Box::new(Ex::As(Box::new(Ex::Call(Box::new(Ex::Name(r)), Meth::ReadU64)), Cast::Const(name))))))))), Meth::Clone)))
}

pub(crate) proof fn lemma_g_struct(r: Seq<char>, name: Seq<char>)
    ensures
        text(struct_ex(r, name)) == "unsafe { (*("@ + r + ".read_u64() as *const "@ + name + ")).clone() }"@,
{
    lemma_casts();
    assert(alike("unsafe { (*("@, "unsafe { "@ + "("@ + "*"@ + "("@)) by {
        reveal_strlit("unsafe { (*(");
        reveal_strlit("unsafe { ");
        reveal_strlit("(");
        reveal_strlit("*");
        assert("unsafe { (*("@ =~= "unsafe { "@ + "("@ + "*"@ + "("@);
    }
    assert(alike(".read_u64() as *const "@, ".read_u64()"@ + " as "@ + "*const "@)) by {
        reveal_strlit(".read_u64() as *const ");
        reveal_strlit(".read_u64()");
        reveal_strlit(" as ");
        reveal_strlit("*const ");
        assert(".read_u64() as *const "@ =~= ".read_u64()"@ + " as "@ + "*const "@);
    }
    assert(alike(")).clone() }"@, ")"@ + ")"@ + ".clone()"@ + " }"@)) by {
        reveal_strlit(")).clone() }");
        reveal_strlit(")");
        reveal_strlit(".clone()");
        reveal_strlit(" }");
        assert(")).clone() }"@ =~= ")"@ + ")"@ + ".clone()"@ + " }"@);
    }
    let e0 = Ex::Name(r);
    let e1 = Ex::Call(Box::new(e0), Meth::ReadU64);
    let e2 = Ex::As(Box::new(e1), Cast::Const(name));
    let e3 = Ex::Paren(Box::new(e2));
    let e4 = Ex::Star(Box::new(e3));
    let e5 = Ex::Paren(Box::new(e4));
    let e6 = Ex::Call(Box::new(e5), Meth::Clone);
    let e7 = Ex::Block(true, Seq::empty(), Box::new(e6));
    let k0 = Seq::<char>::empty();
    let k1 = " }"@ + k0;
    let k2 = ".clone()"@ + k1;
    let k3 = ")"@ + k2;
    let k4 = ")"@ + k3;
    let k5 = name + k4;
    let k6 = "*const "@ + k5;
    let k7 = " as "@ + k6;
    let k8 = ".read_u64()"@ + k7;
    let k9 = r + k8;
    let k10 = "("@ + k9;
    let k11 = "*"@ + k10;
    let k12 = "("@ + k11;
    let k13 = "unsafe { "@ + k12;
    lemma_regroup("unsafe { "@ + lines(Seq::empty(), 0) + text(e6), " }"@, k0);
    lemma_regroup("unsafe { "@ + lines(Seq::empty(), 0), text(e6), k1);
    lemma_regroup(text(e5), ".clone()"@, k1);
    lemma_regroup("("@ + text(e4), ")"@, k2);
    lemma_regroup("("@, text(e4), k3);
    lemma_regroup("*"@, text(e3), k3);
    lemma_regroup("("@ + text(e2), ")"@, k3);
    lemma_regroup("("@, text(e2), k4);
    lemma_regroup(text(e1) + " as "@, ("*const "@ + name), k4);
    lemma_regroup("*const "@, name, k4);
    lemma_regroup(text(e1), " as "@, k6);
    lemma_regroup(text(e0), ".read_u64()"@, k7);
    lemma_regroup("unsafe { "@, lines(Seq::empty(), 0), k12);
    lemma_nothing(k12);
    lemma_regroup("unsafe { (*("@ + r + ".read_u64() as *const "@ + name, ")).clone() }"@, k0);
    lemma_regroup(")"@ + ")"@ + ".clone()"@, " }"@, k0);
    lemma_regroup(")"@ + ")"@, ".clone()"@, k1);
    lemma_regroup(")"@, ")"@, k2);
    lemma_regroup("unsafe { (*("@ + r + ".read_u64() as *const "@, name, k4);
    lemma_regroup("unsafe { (*("@ + r, ".read_u64() as *const "@, k5);
    lemma_regroup(".read_u64()"@ + " as "@, "*const "@, k5);
    lemma_regroup(".read_u64()"@, " as "@, k6);
    lemma_regroup("unsafe { (*("@, r, k8);
    lemma_regroup("unsafe { "@ + "("@ + "*"@, "("@, k9);
    lemma_regroup("unsafe { "@ + "("@, "*"@, k10);
    lemma_regroup("unsafe { "@, "("@, k11);
    lemma_end(text(e7), "unsafe { (*("@ + r + ".read_u64() as *const "@ + name + ")).clone() }"@, k0);
    assert(e7 == struct_ex(r, name));
}

pub(crate) proof fn lemma_cat_option(expr: Seq<char>, w: Seq<char>, some: Seq<char>)
    ensures
        alike("if let Some("@ + "__v"@ + ") = "@ + expr + " { "@ + ((w + ".write_u64(1);"@) + (" "@ + some)) + " } else { "@ + (w + ".write_u64(0);"@) + " }"@, "if let Some(__v) = "@ + expr + " { "@ + w + ".write_u64(1); "@ + some + " } else { "@ + w + ".write_u64(0); }"@),
{
    assert(alike("if let Some(__v) = "@, "if let Some("@ + "__v"@ + ") = "@)) by {
        reveal_strlit("if let Some(__v) = ");
        reveal_strlit("if let Some(");
        reveal_strlit("__v");
        reveal_strlit(") = ");
        assert("if let Some(__v) = "@ =~= "if let Some("@ + "__v"@ + ") = "@);
    }
    assert(alike(".write_u64(1); "@, ".write_u64(1);"@ + " "@)) by {
        reveal_strlit(".write_u64(1); ");
        reveal_strlit(".write_u64(1);");
        reveal_strlit(" ");
        assert(".write_u64(1); "@ =~= ".write_u64(1);"@ + " "@);
    }
    assert(alike(".write_u64(0); }"@, ".write_u64(0);"@ + " }"@)) by {
        reveal_strlit(".write_u64(0); }");
        reveal_strlit(".write_u64(0);");
        reveal_strlit(" }");
        assert(".write_u64(0); }"@ =~= ".write_u64(0);"@ + " }"@);
    }
    let k0 = Seq::<char>::empty();
    let k1 = " }"@ + k0;
    let k2 = ".write_u64(0);"@ + k1;
    let k3 = w + k2;
    let k4 = " } else { "@ + k3;
    let k5 = some + k4;
    let k6 = " "@ + k5;
    let k7 = ".write_u64(1);"@ + k6;
    let k8 = w + k7;
    let k9 = " { "@ + k8;
    let k10 = expr + k9;
    let k11 = ") = "@ + k10;
    let k12 = "__v"@ + k11;
    let k13 = "if let Some("@ + k12;
    lemma_regroup("if let Some("@ + "__v"@ + ") = "@ + expr + " { "@ + ((w + ".write_u64(1);"@) + (" "@ + some)) + " } else { "@ + (w + ".write_u64(0);"@), " }"@, k0);
    lemma_regroup("if let Some("@ + "__v"@ + ") = "@ + expr + " { "@ + ((w + ".write_u64(1);"@) + (" "@ + some)) + " } else { "@, (w + ".write_u64(0);"@), k1);
    lemma_regroup(w, ".write_u64(0);"@, k1);
    lemma_regroup("if let Some("@ + "__v"@ + ") = "@ + expr + " { "@ + ((w + ".write_u64(1);"@) + (" "@ + some)), " } else { "@, k3);
    lemma_regroup("if let Some("@ + "__v"@ + ") = "@ + expr + " { "@, ((w + ".write_u64(1);"@) + (" "@ + some)), k4);
    lemma_regroup((w + ".write_u64(1);"@), (" "@ + some), k4);
    lemma_regroup(" "@, some, k4);
    lemma_regroup(w, ".write_u64(1);"@, k6);
    lemma_regroup("if let Some("@ + "__v"@ + ") = "@ + expr, " { "@, k8);
    lemma_regroup("if let Some("@ + "__v"@ + ") = "@, expr, k9);
    lemma_regroup("if let Some("@ + "__v"@, ") = "@, k10);
    lemma_regroup("if let Some("@, "__v"@, k11);
    lemma_regroup("if let Some(__v) = "@ + expr + " { "@ + w + ".write_u64(1); "@ + some + " } else { "@ + w, ".write_u64(0); }"@, k0);
    lemma_regroup(".write_u64(0);"@, " }"@, k0);
    lemma_regroup("if let Some(__v) = "@ + expr + " { "@ + w + ".write_u64(1); "@ + some + " } else { "@, w, k2);
    lemma_regroup("if let Some(__v) = "@ + expr + " { "@ + w + ".write_u64(1); "@ + some, " } else { "@, k3);
    lemma_regroup("if let Some(__v) = "@ + expr + " { "@ + w + ".write_u64(1); "@, some, k4);
    lemma_regroup("if let Some(__v) = "@ + expr + " { "@ + w, ".write_u64(1); "@, k5);
    lemma_regroup(".write_u64(1);"@, " "@, k5);
    lemma_regroup("if let Some(__v) = "@ + expr + " { "@, w, k7);
    lemma_regroup("if let Some(__v) = "@ + expr, " { "@, k8);
    lemma_regroup("if let Some(__v) = "@, expr, k9);
    lemma_regroup("if let Some("@ + "__v"@, ") = "@, k10);
    lemma_regroup("if let Some("@, "__v"@, k11);
    lemma_end("if let Some("@ + "__v"@ + ") = "@ + expr + " { "@ + ((w + ".write_u64(1);"@) + (" "@ + some)) + " } else { "@ + (w + ".write_u64(0);"@) + " }"@, "if let Some(__v) = "@ + expr + " { "@ + w + ".write_u64(1); "@ + some + " } else { "@ + w + ".write_u64(0); }"@, k0);
}

pub(crate) proof fn lemma_cat_option_unit(expr: Seq<char>, w: Seq<char>)
    ensures
        alike("if "@ + (expr + ".is_some()"@) + " { "@ + (w + ".write_u64(1);"@) + " } else { "@ + (w + ".write_u64(0);"@) + " }"@, "if "@ + expr + ".is_some() { "@ + w + ".write_u64(1); } else { "@ + w + ".write_u64(0); }"@),
{
    assert(alike(".is_some() { "@, ".is_some()"@ + " { "@)) by {
        reveal_strlit(".is_some() { ");
        reveal_strlit(".is_some()");
        reveal_strlit(" { ");
        assert(".is_some() { "@ =~= ".is_some()"@ + " { "@);
    }
    assert(alike(".write_u64(1); } else { "@, ".write_u64(1);"@ + " } else { "@)) by {
        reveal_strlit(".write_u64(1); } else { ");
        reveal_strlit(".write_u64(1);");
        reveal_strlit(" } else { ");
        assert(".write_u64(1); } else { "@ =~= ".write_u64(1);"@ + " } else { "@);
    }
    assert(alike(".write_u64(0); }"@, ".write_u64(0);"@ + " }"@)) by {
        reveal_strlit(".write_u64(0); }");
        reveal_strlit(".write_u64(0);");
        reveal_strlit(" }");
        assert(".write_u64(0); }"@ =~= ".write_u64(0);"@ + " }"@);
    }
    let k0 = Seq::<char>::empty();
    let k1 = " }"@ + k0;
    let k2 = ".write_u64(0);"@ + k1;
    let k3 = w + k2;
    let k4 = " } else { "@ + k3;
    let k5 = ".write_u64(1);"@ + k4;
    let k6 = w + k5;
    let k7 = " { "@ + k6;
    let k8 = ".is_some()"@ + k7;
    let k9 = expr + k8;
    let k10 = "if "@ + k9;
    lemma_regroup("if "@ + (expr + ".is_some()"@) + " { "@ + (w + ".write_u64(1);"@) + " } else { "@ + (w + ".write_u64(0);"@), " }"@, k0);
    lemma_regroup("if "@ + (expr + ".is_some()"@) + " { "@ + (w + ".write_u64(1);"@) + " } else { "@, (w + ".write_u64(0);"@), k1);
    lemma_regroup(w, ".write_u64(0);"@, k1);
    lemma_regroup("if "@ + (expr + ".is_some()"@) + " { "@ + (w + ".write_u64(1);"@), " } else { "@, k3);
    lemma_regroup("if "@ + (expr + ".is_some()"@) + " { "@, (w + ".write_u64(1);"@), k4);
    lemma_regroup(w, ".write_u64(1);"@, k4);
    lemma_regroup("if "@ + (expr + ".is_some()"@), " { "@, k6);
    lemma_regroup("if "@, (expr + ".is_some()"@), k7);
    lemma_regroup(expr, ".is_some()"@, k7);
    lemma_regroup("if "@ + expr + ".is_some() { "@ + w + ".write_u64(1); } else { "@ + w, ".write_u64(0); }"@, k0);
    lemma_regroup(".write_u64(0);"@, " }"@, k0);
    lemma_regroup("if "@ + expr + ".is_some() { "@ + w + ".write_u64(1); } else { "@, w, k2);
    lemma_regroup("if "@ + expr + ".is_some() { "@ + w, ".write_u64(1); } else { "@, k3);
    lemma_regroup(".write_u64(1);"@, " } else { "@, k3);
    lemma_regroup("if "@ + expr + ".is_some() { "@, w, k5);
    lemma_regroup("if "@ + expr, ".is_some() { "@, k6);
    lemma_regroup(".is_some()"@, " { "@, k6);
    lemma_regroup("if "@, expr, k8);
    lemma_end("if "@ + (expr + ".is_some()"@) + " { "@ + (w + ".write_u64(1);"@) + " } else { "@ + (w + ".write_u64(0);"@) + " }"@, "if "@ + expr + ".is_some() { "@ + w + ".write_u64(1); } else { "@ + w + ".write_u64(0); }"@, k0);
}

#[verifier::spinoff_prover]
#[verifier::rlimit(60)]
pub(crate) proof fn lemma_cat_doption(expr: Seq<char>, w: Seq<char>, some: Seq<char>)
    ensures
        alike("if "@ + ((expr + "."@ + "tag"@) + " == "@ + "0"@) + " { "@ + (w + ".write_u64(0);"@) + " } else { "@ + (("let "@ + "__v"@ + " = "@ + (expr + "."@ + "value"@) + ";"@) + (" "@ + ((w + ".write_u64(1);"@) + (" "@ + some)))) + " }"@, "if "@ + expr + ".tag == 0 { "@ + w + ".write_u64(0); } else { let __v = "@ + expr + ".value; "@ + w + ".write_u64(1); "@ + some + " }"@),
{
    assert(alike(".tag == 0 { "@, "."@ + "tag"@ + " == "@ + "0"@ + " { "@)) by {
        reveal_strlit(".tag == 0 { ");
        reveal_strlit(".");
        reveal_strlit("tag");
        reveal_strlit(" == ");
        reveal_strlit("0");
        reveal_strlit(" { ");
        assert(".tag == 0 { "@ =~= "."@ + "tag"@ + " == "@ + "0"@ + " { "@);
    }
    assert(alike(".write_u64(0); } else { let __v = "@, ".write_u64(0);"@ + " } else { "@ + "let "@ + "__v"@ + " = "@)) by {
        reveal_strlit(".write_u64(0); } else { let __v = ");
        reveal_strlit(".write_u64(0);");
        reveal_strlit(" } else { ");
        reveal_strlit("let ");
        reveal_strlit("__v");
        reveal_strlit(" = ");
        assert(".write_u64(0); } else { let __v = "@ =~= ".write_u64(0);"@ + " } else { "@ + "let "@ + "__v"@ + " = "@);
    }
    assert(alike(".value; "@, "."@ + "value"@ + ";"@ + " "@)) by {
        reveal_strlit(".value; ");
        reveal_strlit(".");
        reveal_strlit("value");
        reveal_strlit(";");
        reveal_strlit(" ");
        assert(".value; "@ =~= "."@ + "value"@ + ";"@ + " "@);
    }
    assert(alike(".write_u64(1); "@, ".write_u64(1);"@ + " "@)) by {
        reveal_strlit(".write_u64(1); ");
        reveal_strlit(".write_u64(1);");
        reveal_strlit(" ");
        assert(".write_u64(1); "@ =~= ".write_u64(1);"@ + " "@);
    }
    let k0 = Seq::<char>::empty();
    let k1 = " }"@ + k0;
    let k2 = some + k1;
    let k3 = " "@ + k2;
    let k4 = ".write_u64(1);"@ + k3;
    let k5 = w + k4;
    let k6 = " "@ + k5;
    let k7 = ";"@ + k6;
    let k8 = "value"@ + k7;
    let k9 = "."@ + k8;
    let k10 = expr + k9;
    let k11 = " = "@ + k10;
    let k12 = "__v"@ + k11;
    let k13 = "let "@ + k12;
    let k14 = " } else { "@ + k13;
    let k15 = ".write_u64(0);"@ + k14;
    let k16 = w + k15;
    let k17 = " { "@ + k16;
    let k18 = "0"@ + k17;
    let k19 = " == "@ + k18;
    let k20 = "tag"@ + k19;
    let k21 = "."@ + k20;
    let k22 = expr + k21;
    let k23 = "if "@ + k22;
    lemma_regroup("if "@ + ((expr + "."@ + "tag"@) + " == "@ + "0"@) + " { "@ + (w + ".write_u64(0);"@) + " } else { "@ + (("let "@ + "__v"@ + " = "@ + (expr + "."@ + "value"@) + ";"@) + (" "@ + ((w + ".write_u64(1);"@) + (" "@ + some)))), " }"@, k0);
    lemma_regroup("if "@ + ((expr + "."@ + "tag"@) + " == "@ + "0"@) + " { "@ + (w + ".write_u64(0);"@) + " } else { "@, (("let "@ + "__v"@ + " = "@ + (expr + "."@ + "value"@) + ";"@) + (" "@ + ((w + ".write_u64(1);"@) + (" "@ + some)))), k1);
    lemma_regroup(("let "@ + "__v"@ + " = "@ + (expr + "."@ + "value"@) + ";"@), (" "@ + ((w + ".write_u64(1);"@) + (" "@ + some))), k1);
    lemma_regroup(" "@, ((w + ".write_u64(1);"@) + (" "@ + some)), k1);
    lemma_regroup((w + ".write_u64(1);"@), (" "@ + some), k1);
    lemma_regroup(" "@, some, k1);
    lemma_regroup(w, ".write_u64(1);"@, k3);
    lemma_regroup("let "@ + "__v"@ + " = "@ + (expr + "."@ + "value"@), ";"@, k6);
    lemma_regroup("let "@ + "__v"@ + " = "@, (expr + "."@ + "value"@), k7);
    lemma_regroup(expr + "."@, "value"@, k7);
    lemma_regroup(expr, "."@, k8);
    lemma_regroup("let "@ + "__v"@, " = "@, k10);
    lemma_regroup("let "@, "__v"@, k11);
    lemma_regroup("if "@ + ((expr + "."@ + "tag"@) + " == "@ + "0"@) + " { "@ + (w + ".write_u64(0);"@), " } else { "@, k13);
    lemma_regroup("if "@ + ((expr + "."@ + "tag"@) + " == "@ + "0"@) + " { "@, (w + ".write_u64(0);"@), k14);
    lemma_regroup(w, ".write_u64(0);"@, k14);
    lemma_regroup("if "@ + ((expr + "."@ + "tag"@) + " == "@ + "0"@), " { "@, k16);
    lemma_regroup("if "@, ((expr + "."@ + "tag"@) + " == "@ + "0"@), k17);
    lemma_regroup((expr + "."@ + "tag"@) + " == "@, "0"@, k17);
    lemma_regroup((expr + "."@ + "tag"@), " == "@, k18);
    lemma_regroup(expr + "."@, "tag"@, k19);
    lemma_regroup(expr, "."@, k20);
    lemma_regroup("if "@ + expr + ".tag == 0 { "@ + w + ".write_u64(0); } else { let __v = "@ + expr + ".value; "@ + w + ".write_u64(1); "@ + some, " }"@, k0);
    lemma_regroup("if "@ + expr + ".tag == 0 { "@ + w + ".write_u64(0); } else { let __v = "@ + expr + ".value; "@ + w + ".write_u64(1); "@, some, k1);
    lemma_regroup("if "@ + expr + ".tag == 0 { "@ + w + ".write_u64(0); } else { let __v = "@ + expr + ".value; "@ + w, ".write_u64(1); "@, k2);
    lemma_regroup(".write_u64(1);"@, " "@, k2);
    lemma_regroup("if "@ + expr + ".tag == 0 { "@ + w + ".write_u64(0); } else { let __v = "@ + expr + ".value; "@, w, k4);
    lemma_regroup("if "@ + expr + ".tag == 0 { "@ + w + ".write_u64(0); } else { let __v = "@ + expr, ".value; "@, k5);
    lemma_regroup("."@ + "value"@ + ";"@, " "@, k5);
    lemma_regroup("."@ + "value"@, ";"@, k6);
    lemma_regroup("."@, "value"@, k7);
    lemma_regroup("if "@ + expr + ".tag == 0 { "@ + w + ".write_u64(0); } else { let __v = "@, expr, k9);
    lemma_regroup("if "@ + expr + ".tag == 0 { "@ + w, ".write_u64(0); } else { let __v = "@, k10);
    lemma_regroup(".write_u64(0);"@ + " } else { "@ + "let "@ + "__v"@, " = "@, k10);
    lemma_regroup(".write_u64(0);"@ + " } else { "@ + "let "@, "__v"@, k11);
    lemma_regroup(".write_u64(0);"@ + " } else { "@, "let "@, k12);
    lemma_regroup(".write_u64(0);"@, " } else { "@, k13);
    lemma_regroup("if "@ + expr + ".tag == 0 { "@, w, k15);
    lemma_regroup("if "@ + expr, ".tag == 0 { "@, k16);
    lemma_regroup("."@ + "tag"@ + " == "@ + "0"@, " { "@, k16);
    lemma_regroup("."@ + "tag"@ + " == "@, "0"@, k17);
    lemma_regroup("."@ + "tag"@, " == "@, k18);
    lemma_regroup("."@, "tag"@, k19);
    lemma_regroup("if "@, expr, k21);
    lemma_end("if "@ + ((expr + "."@ + "tag"@) + " == "@ + "0"@) + " { "@ + (w + ".write_u64(0);"@) + " } else { "@ + (("let "@ + "__v"@ + " = "@ + (expr + "."@ + "value"@) + ";"@) + (" "@ + ((w + ".write_u64(1);"@) + (" "@ + some)))) + " }"@, "if "@ + expr + ".tag == 0 { "@ + w + ".write_u64(0); } else { let __v = "@ + expr + ".value; "@ + w + ".write_u64(1); "@ + some + " }"@, k0);
}

pub(crate) proof fn lemma_cat_unit_arm(n: Seq<char>, vn: Seq<char>, w: Seq<char>, di: Seq<char>)
    ensures
        alike(n + "::"@ + vn + " => { "@ + (w + ".write_u64("@ + di + ");"@) + " } "@, n + "::"@ + vn + " => { "@ + w + ".write_u64("@ + di + "); } "@),
{
    assert(alike("); } "@, ");"@ + " } "@)) by {
        reveal_strlit("); } ");
        reveal_strlit(");");
        reveal_strlit(" } ");
        assert("); } "@ =~= ");"@ + " } "@);
    }
    let k0 = Seq::<char>::empty();
    let k1 = " } "@ + k0;
    let k2 = ");"@ + k1;
    let k3 = di + k2;
    let k4 = ".write_u64("@ + k3;
    let k5 = w + k4;
    let k6 = " => { "@ + k5;
    let k7 = vn + k6;
    let k8 = "::"@ + k7;
    let k9 = n + k8;
    lemma_regroup(n + "::"@ + vn + " => { "@ + (w + ".write_u64("@ + di + ");"@), " } "@, k0);
    lemma_regroup(n + "::"@ + vn + " => { "@, (w + ".write_u64("@ + di + ");"@), k1);
    lemma_regroup(w + ".write_u64("@ + di, ");"@, k1);
    lemma_regroup(w + ".write_u64("@, di, k2);
    lemma_regroup(w, ".write_u64("@, k3);
    lemma_regroup(n + "::"@ + vn, " => { "@, k5);
    lemma_regroup(n + "::"@, vn, k6);
    lemma_regroup(n, "::"@, k7);
    lemma_regroup(n + "::"@ + vn + " => { "@ + w + ".write_u64("@ + di, "); } "@, k0);
    lemma_regroup(");"@, " } "@, k0);
    lemma_regroup(n + "::"@ + vn + " => { "@ + w + ".write_u64("@, di, k2);
    lemma_regroup(n + "::"@ + vn + " => { "@ + w, ".write_u64("@, k3);
    lemma_regroup(n + "::"@ + vn + " => { "@, w, k4);
    lemma_regroup(n + "::"@ + vn, " => { "@, k5);
    lemma_regroup(n + "::"@, vn, k6);
    lemma_regroup(n, "::"@, k7);
    lemma_end(n + "::"@ + vn + " => { "@ + (w + ".write_u64("@ + di + ");"@) + " } "@, n + "::"@ + vn + " => { "@ + w + ".write_u64("@ + di + "); } "@, k0);
}

pub(crate) proof fn lemma_cat_field_arm(n: Seq<char>, vn: Seq<char>, pats: Seq<char>, w: Seq<char>, di: Seq<char>, stmts: Seq<char>)
    ensures
        alike(n + "::"@ + vn + ("("@ + pats + ")"@) + " => { "@ + ((w + ".write_u64("@ + di + ");"@) + (" "@ + stmts)) + " } "@, n + "::"@ + vn + "("@ + pats + ") => { "@ + w + ".write_u64("@ + di + "); "@ + stmts + " } "@),
{
    assert(alike(") => { "@, ")"@ + " => { "@)) by {
        reveal_strlit(") => { ");
        reveal_strlit(")");
        reveal_strlit(" => { ");
        assert(") => { "@ =~= ")"@ + " => { "@);
    }
    assert(alike("); "@, ");"@ + " "@)) by {
        reveal_strlit("); ");
        reveal_strlit(");");
        reveal_strlit(" ");
        assert("); "@ =~= ");"@ + " "@);
    }
    let k0 = Seq::<char>::empty();
    let k1 = " } "@ + k0;
    let k2 = stmts + k1;
    let k3 = " "@ + k2;
    let k4 = ");"@ + k3;
    let k5 = di + k4;
    let k6 = ".write_u64("@ + k5;
    let k7 = w + k6;
    let k8 = " => { "@ + k7;
    let k9 = ")"@ + k8;
    let k10 = pats + k9;
    let k11 = "("@ + k10;
    let k12 = vn + k11;
    let k13 = "::"@ + k12;
    let k14 = n + k13;
    lemma_regroup(n + "::"@ + vn + ("("@ + pats + ")"@) + " => { "@ + ((w + ".write_u64("@ + di + ");"@) + (" "@ + stmts)), " } "@, k0);
    lemma_regroup(n + "::"@ + vn + ("("@ + pats + ")"@) + " => { "@, ((w + ".write_u64("@ + di + ");"@) + (" "@ + stmts)), k1);
    lemma_regroup((w + ".write_u64("@ + di + ");"@), (" "@ + stmts), k1);
    lemma_regroup(" "@, stmts, k1);
    lemma_regroup(w + ".write_u64("@ + di, ");"@, k3);
    lemma_regroup(w + ".write_u64("@, di, k4);
    lemma_regroup(w, ".write_u64("@, k5);
    lemma_regroup(n + "::"@ + vn + ("("@ + pats + ")"@), " => { "@, k7);
    lemma_regroup(n + "::"@ + vn, ("("@ + pats + ")"@), k8);
    lemma_regroup("("@ + pats, ")"@, k8);
    lemma_regroup("("@, pats, k9);
    lemma_regroup(n + "::"@, vn, k11);
    lemma_regroup(n, "::"@, k12);
    lemma_regroup(n + "::"@ + vn + "("@ + pats + ") => { "@ + w + ".write_u64("@ + di + "); "@ + stmts, " } "@, k0);
    lemma_regroup(n + "::"@ + vn + "("@ + pats + ") => { "@ + w + ".write_u64("@ + di + "); "@, stmts, k1);
    lemma_regroup(n + "::"@ + vn + "("@ + pats + ") => { "@ + w + ".write_u64("@ + di, "); "@, k2);
    lemma_regroup(");"@, " "@, k2);
    lemma_regroup(n + "::"@ + vn + "("@ + pats + ") => { "@ + w + ".write_u64("@, di, k4);
    lemma_regroup(n + "::"@ + vn + "("@ + pats + ") => { "@ + w, ".write_u64("@, k5);
    lemma_regroup(n + "::"@ + vn + "("@ + pats + ") => { "@, w, k6);
    lemma_regroup(n + "::"@ + vn + "("@ + pats, ") => { "@, k7);
    lemma_regroup(")"@, " => { "@, k7);
    lemma_regroup(n + "::"@ + vn + "("@, pats, k9);
    lemma_regroup(n + "::"@ + vn, "("@, k10);
    lemma_regroup(n + "::"@, vn, k11);
    lemma_regroup(n, "::"@, k12);
    lemma_end(n + "::"@ + vn + ("("@ + pats + ")"@) + " => { "@ + ((w + ".write_u64("@ + di + ");"@) + (" "@ + stmts)) + " } "@, n + "::"@ + vn + "("@ + pats + ") => { "@ + w + ".write_u64("@ + di + "); "@ + stmts + " } "@, k0);
}

pub(crate) proof fn lemma_cat_bytes(dl: Seq<char>, chunks: Seq<char>)
    ensures
        alike("{ "@ + (("let mut "@ + "__arr"@ + " = "@ + ("[0u8; "@ + dl + "]"@) + ";"@) + (" "@ + (chunks + " "@))) + "__arr"@ + " }"@, "{ let mut __arr = [0u8; "@ + dl + "]; "@ + chunks + " __arr }"@),
{
    assert(alike("{ let mut __arr = [0u8; "@, "{ "@ + "let mut "@ + "__arr"@ + " = "@ + "[0u8; "@)) by {
        reveal_strlit("{ let mut __arr = [0u8; ");
        reveal_strlit("{ ");
        reveal_strlit("let mut ");
        reveal_strlit("__arr");
        reveal_strlit(" = ");
        reveal_strlit("[0u8; ");
        assert("{ let mut __arr = [0u8; "@ =~= "{ "@ + "let mut "@ + "__arr"@ + " = "@ + "[0u8; "@);
    }
    assert(alike("]; "@, "]"@ + ";"@ + " "@)) by {
        reveal_strlit("]; ");
        reveal_strlit("]");
        reveal_strlit(";");
        reveal_strlit(" ");
        assert("]; "@ =~= "]"@ + ";"@ + " "@);
    }
    assert(alike(" __arr }"@, " "@ + "__arr"@ + " }"@)) by {
        reveal_strlit(" __arr }");
        reveal_strlit(" ");
        reveal_strlit("__arr");
        reveal_strlit(" }");
        assert(" __arr }"@ =~= " "@ + "__arr"@ + " }"@);
    }
    let k0 = Seq::<char>::empty();
    let k1 = " }"@ + k0;
    let k2 = "__arr"@ + k1;
    let k3 = " "@ + k2;
    let k4 = chunks + k3;
    let k5 = " "@ + k4;
    let k6 = ";"@ + k5;
    let k7 = "]"@ + k6;
    let k8 = dl + k7;
    let k9 = "[0u8; "@ + k8;
    let k10 = " = "@ + k9;
    let k11 = "__arr"@ + k10;
    let k12 = "let mut "@ + k11;
    let k13 = "{ "@ + k12;
    lemma_regroup("{ "@ + (("let mut "@ + "__arr"@ + " = "@ + ("[0u8; "@ + dl + "]"@) + ";"@) + (" "@ + (chunks + " "@))) + "__arr"@, " }"@, k0);
    lemma_regroup("{ "@ + (("let mut "@ + "__arr"@ + " = "@ + ("[0u8; "@ + dl + "]"@) + ";"@) + (" "@ + (chunks + " "@))), "__arr"@, k1);
    lemma_regroup("{ "@, (("let mut "@ + "__arr"@ + " = "@ + ("[0u8; "@ + dl + "]"@) + ";"@) + (" "@ + (chunks + " "@))), k2);
    lemma_regroup(("let mut "@ + "__arr"@ + " = "@ + ("[0u8; "@ + dl + "]"@) + ";"@), (" "@ + (chunks + " "@)), k2);
    lemma_regroup(" "@, (chunks + " "@), k2);
    lemma_regroup(chunks, " "@, k2);
    lemma_regroup("let mut "@ + "__arr"@ + " = "@ + ("[0u8; "@ + dl + "]"@), ";"@, k5);
    lemma_regroup("let mut "@ + "__arr"@ + " = "@, ("[0u8; "@ + dl + "]"@), k6);
    lemma_regroup("[0u8; "@ + dl, "]"@, k6);
    lemma_regroup("[0u8; "@, dl, k7);
    lemma_regroup("let mut "@ + "__arr"@, " = "@, k9);
    lemma_regroup("let mut "@, "__arr"@, k10);
    lemma_regroup("{ let mut __arr = [0u8; "@ + dl + "]; "@ + chunks, " __arr }"@, k0);
    lemma_regroup(" "@ + "__arr"@, " }"@, k0);
    lemma_regroup(" "@, "__arr"@, k1);
    lemma_regroup("{ let mut __arr = [0u8; "@ + dl + "]; "@, chunks, k3);
    lemma_regroup("{ let mut __arr = [0u8; "@ + dl, "]; "@, k4);
    lemma_regroup("]"@ + ";"@, " "@, k4);
    lemma_regroup("]"@, ";"@, k5);
    lemma_regroup("{ let mut __arr = [0u8; "@, dl, k7);
    lemma_regroup("{ "@ + "let mut "@ + "__arr"@ + " = "@, "[0u8; "@, k8);
    lemma_regroup("{ "@ + "let mut "@ + "__arr"@, " = "@, k9);
    lemma_regroup("{ "@ + "let mut "@, "__arr"@, k10);
    lemma_regroup("{ "@, "let mut "@, k11);
    lemma_end("{ "@ + (("let mut "@ + "__arr"@ + " = "@ + ("[0u8; "@ + dl + "]"@) + ";"@) + (" "@ + (chunks + " "@))) + "__arr"@ + " }"@, "{ let mut __arr = [0u8; "@ + dl + "]; "@ + chunks + " __arr }"@, k0);
}

pub(crate) proof fn lemma_cat_chunk(r: Seq<char>, ds: Seq<char>, de: Seq<char>)
    ensures
        alike("__arr"@ + "["@ + ds + ".."@ + de + "].copy_from_slice("@ + ("&"@ + ((r + ".read_u64()"@) + ".to_le_bytes()"@)) + ");"@, "__arr["@ + ds + ".."@ + de + "].copy_from_slice(&"@ + r + ".read_u64().to_le_bytes());"@),
{
    assert(alike("__arr["@, "__arr"@ + "["@)) by {
        reveal_strlit("__arr[");
        reveal_strlit("__arr");
        reveal_strlit("[");
        assert("__arr["@ =~= "__arr"@ + "["@);
    }
    assert(alike("].copy_from_slice(&"@, "].copy_from_slice("@ + "&"@)) by {
        reveal_strlit("].copy_from_slice(&");
        reveal_strlit("].copy_from_slice(");
        reveal_strlit("&");
        assert("].copy_from_slice(&"@ =~= "].copy_from_slice("@ + "&"@);
    }
    assert(alike(".read_u64().to_le_bytes());"@, ".read_u64()"@ + ".to_le_bytes()"@ + ");"@)) by {
        reveal_strlit(".read_u64().to_le_bytes());");
        reveal_strlit(".read_u64()");
        reveal_strlit(".to_le_bytes()");
        reveal_strlit(");");
        assert(".read_u64().to_le_bytes());"@ =~= ".read_u64()"@ + ".to_le_bytes()"@ + ");"@);
    }
    let k0 = Seq::<char>::empty();
    let k1 = ");"@ + k0;
    let k2 = ".to_le_bytes()"@ + k1;
    let k3 = ".read_u64()"@ + k2;
    let k4 = r + k3;
    let k5 = "&"@ + k4;
    let k6 = "].copy_from_slice("@ + k5;
    let k7 = de + k6;
    let k8 = ".."@ + k7;
    let k9 = ds + k8;
    let k10 = "["@ + k9;
    let k11 = "__arr"@ + k10;
    lemma_regroup("__arr"@ + "["@ + ds + ".."@ + de + "].copy_from_slice("@ + ("&"@ + ((r + ".read_u64()"@) + ".to_le_bytes()"@)), ");"@, k0);
    lemma_regroup("__arr"@ + "["@ + ds + ".."@ + de + "].copy_from_slice("@, ("&"@ + ((r + ".read_u64()"@) + ".to_le_bytes()"@)), k1);
    lemma_regroup("&"@, ((r + ".read_u64()"@) + ".to_le_bytes()"@), k1);
    lemma_regroup((r + ".read_u64()"@), ".to_le_bytes()"@, k1);
    lemma_regroup(r, ".read_u64()"@, k2);
    lemma_regroup("__arr"@ + "["@ + ds + ".."@ + de, "].copy_from_slice("@, k5);
    lemma_regroup("__arr"@ + "["@ + ds + ".."@, de, k6);
    lemma_regroup("__arr"@ + "["@ + ds, ".."@, k7);
    lemma_regroup("__arr"@ + "["@, ds, k8);
    lemma_regroup("__arr"@, "["@, k9);
    lemma_regroup("__arr["@ + ds + ".."@ + de + "].copy_from_slice(&"@ + r, ".read_u64().to_le_bytes());"@, k0);
    lemma_regroup(".read_u64()"@ + ".to_le_bytes()"@, ");"@, k0);
    lemma_regroup(".read_u64()"@, ".to_le_bytes()"@, k1);
    lemma_regroup("__arr["@ + ds + ".."@ + de + "].copy_from_slice(&"@, r, k3);
    lemma_regroup("__arr["@ + ds + ".."@ + de, "].copy_from_slice(&"@, k4);
    lemma_regroup("].copy_from_slice("@, "&"@, k4);
    lemma_regroup("__arr["@ + ds + ".."@, de, k6);
    lemma_regroup("__arr["@ + ds, ".."@, k7);
    lemma_regroup("__arr["@, ds, k8);
    lemma_regroup("__arr"@, "["@, k9);
    lemma_end("__arr"@ + "["@ + ds + ".."@ + de + "].copy_from_slice("@ + ("&"@ + ((r + ".read_u64()"@) + ".to_le_bytes()"@)) + ");"@, "__arr["@ + ds + ".."@ + de + "].copy_from_slice(&"@ + r + ".read_u64().to_le_bytes());"@, k0);
}

pub(crate) proof fn lemma_cat_match(r: Seq<char>, arms: Seq<char>, n: Seq<char>)
    ensures
        alike("match "@ + (r + ".read_u64()"@) + " { "@ + arms + " _ => panic!(\"invalid discriminant for "@ + n + "\") }"@, "match "@ + r + ".read_u64() { "@ + arms + " _ => panic!(\"invalid discriminant for "@ + n + "\") }"@),
{
    assert(alike(".read_u64() { "@, ".read_u64()"@ + " { "@)) by {
        reveal_strlit(".read_u64() { ");
        reveal_strlit(".read_u64()");
        reveal_strlit(" { ");
        assert(".read_u64() { "@ =~= ".read_u64()"@ + " { "@);
    }
    let k0 = Seq::<char>::empty();
    let k1 = "\") }"@ + k0;
    let k2 = n + k1;
    let k3 = " _ => panic!(\"invalid discriminant for "@ + k2;
    let k4 = arms + k3;
    let k5 = " { "@ + k4;
    let k6 = ".read_u64()"@ + k5;
    let k7 = r + k6;
    let k8 = "match "@ + k7;
    lemma_regroup("match "@ + (r + ".read_u64()"@) + " { "@ + arms + " _ => panic!(\"invalid discriminant for "@ + n, "\") }"@, k0);
    lemma_regroup("match "@ + (r + ".read_u64()"@) + " { "@ + arms + " _ => panic!(\"invalid discriminant for "@, n, k1);
    lemma_regroup("match "@ + (r + ".read_u64()"@) + " { "@ + arms, " _ => panic!(\"invalid discriminant for "@, k2);
    lemma_regroup("match "@ + (r + ".read_u64()"@) + " { "@, arms, k3);
    lemma_regroup("match "@ + (r + ".read_u64()"@), " { "@, k4);
    lemma_regroup("match "@, (r + ".read_u64()"@), k5);
    lemma_regroup(r, ".read_u64()"@, k5);
    lemma_regroup("match "@ + r + ".read_u64() { "@ + arms + " _ => panic!(\"invalid discriminant for "@ + n, "\") }"@, k0);
    lemma_regroup("match "@ + r + ".read_u64() { "@ + arms + " _ => panic!(\"invalid discriminant for "@, n, k1);
    lemma_regroup("match "@ + r + ".read_u64() { "@ + arms, " _ => panic!(\"invalid discriminant for "@, k2);
    lemma_regroup("match "@ + r + ".read_u64() { "@, arms, k3);
    lemma_regroup("match "@ + r, ".read_u64() { "@, k4);
    lemma_regroup(".read_u64()"@, " { "@, k4);
    lemma_regroup("match "@, r, k6);
    lemma_end("match "@ + (r + ".read_u64()"@) + " { "@ + arms + " _ => panic!(\"invalid discriminant for "@ + n + "\") }"@, "match "@ + r + ".read_u64() { "@ + arms + " _ => panic!(\"invalid discriminant for "@ + n + "\") }"@, k0);
}

pub(crate) proof fn lemma_cat_read_unit(di: Seq<char>, n: Seq<char>, vn: Seq<char>)
    ensures
        alike(di + " => "@ + (n + "::"@ + vn) + ", "@, di + " => "@ + n + "::"@ + vn + ", "@),
{
    let k0 = Seq::<char>::empty();
    let k1 = ", "@ + k0;
    let k2 = vn + k1;
    let k3 = "::"@ + k2;
    let k4 = n + k3;
    let k5 = " => "@ + k4;
    let k6 = di + k5;
    lemma_regroup(di + " => "@ + (n + "::"@ + vn), ", "@, k0);
    lemma_regroup(di + " => "@, (n + "::"@ + vn), k1);
    lemma_regroup(n + "::"@, vn, k1);
    lemma_regroup(n, "::"@, k2);
    lemma_regroup(di, " => "@, k4);
    lemma_regroup(di + " => "@ + n + "::"@ + vn, ", "@, k0);
    lemma_regroup(di + " => "@ + n + "::"@, vn, k1);
    lemma_regroup(di + " => "@ + n, "::"@, k2);
    lemma_regroup(di + " => "@, n, k3);
    lemma_regroup(di, " => "@, k4);
    lemma_end(di + " => "@ + (n + "::"@ + vn) + ", "@, di + " => "@ + n + "::"@ + vn + ", "@, k0);
}

pub(crate) proof fn lemma_cat_read_fields(di: Seq<char>, n: Seq<char>, vn: Seq<char>, fields: Seq<char>)
    ensures
        alike(di + " => "@ + (n + "::"@ + vn + "("@ + fields + ")"@) + ", "@, di + " => "@ + n + "::"@ + vn + "("@ + fields + "), "@),
{
    assert(alike("), "@, ")"@ + ", "@)) by {
        reveal_strlit("), ");
        reveal_strlit(")");
        reveal_strlit(", ");
        assert("), "@ =~= ")"@ + ", "@);
    }
    let k0 = Seq::<char>::empty();
    let k1 = ", "@ + k0;
    let k2 = ")"@ + k1;
    let k3 = fields + k2;
    let k4 = "("@ + k3;
    let k5 = vn + k4;
    let k6 = "::"@ + k5;
    let k7 = n + k6;
    let k8 = " => "@ + k7;
    let k9 = di + k8;
    lemma_regroup(di + " => "@ + (n + "::"@ + vn + "("@ + fields + ")"@), ", "@, k0);
    lemma_regroup(di + " => "@, (n + "::"@ + vn + "("@ + fields + ")"@), k1);
    lemma_regroup(n + "::"@ + vn + "("@ + fields, ")"@, k1);
    lemma_regroup(n + "::"@ + vn + "("@, fields, k2);
    lemma_regroup(n + "::"@ + vn, "("@, k3);
    lemma_regroup(n + "::"@, vn, k4);
    lemma_regroup(n, "::"@, k5);
    lemma_regroup(di, " => "@, k7);
    lemma_regroup(di + " => "@ + n + "::"@ + vn + "("@ + fields, "), "@, k0);
    lemma_regroup(")"@, ", "@, k0);
    lemma_regroup(di + " => "@ + n + "::"@ + vn + "("@, fields, k2);
    lemma_regroup(di + " => "@ + n + "::"@ + vn, "("@, k3);
    lemma_regroup(di + " => "@ + n + "::"@, vn, k4);
    lemma_regroup(di + " => "@ + n, "::"@, k5);
    lemma_regroup(di + " => "@, n, k6);
    lemma_regroup(di, " => "@, k7);
    lemma_end(di + " => "@ + (n + "::"@ + vn + "("@ + fields + ")"@) + ", "@, di + " => "@ + n + "::"@ + vn + "("@ + fields + "), "@, k0);
}

pub(crate) proof fn lemma_cat_param(n: Seq<char>, rt: Seq<char>, decode_expr: Seq<char>)
    ensures
        alike("            "@ + ("let "@ + n + ": "@ + rt + " = "@ + decode_expr + ";"@) + "\n"@, "            let "@ + n + ": "@ + rt + " = "@ + decode_expr + ";\n"@),
{
    assert(alike("            let "@, "            "@ + "let "@)) by {
        reveal_strlit("            let ");
        reveal_strlit("            ");
        reveal_strlit("let ");
        assert("            let "@ =~= "            "@ + "let "@);
    }
    assert(alike(";\n"@, ";"@ + "\n"@)) by {
        reveal_strlit(";\n");
        reveal_strlit(";");
        reveal_strlit("\n");
        assert(";\n"@ =~= ";"@ + "\n"@);
    }
    let k0 = Seq::<char>::empty();
    let k1 = "\n"@ + k0;
    let k2 = ";"@ + k1;
    let k3 = decode_expr + k2;
    let k4 = " = "@ + k3;
    let k5 = rt + k4;
    let k6 = ": "@ + k5;
    let k7 = n + k6;
    let k8 = "let "@ + k7;
    let k9 = "            "@ + k8;
    lemma_regroup("            "@ + ("let "@ + n + ": "@ + rt + " = "@ + decode_expr + ";"@), "\n"@, k0);
    lemma_regroup("            "@, ("let "@ + n + ": "@ + rt + " = "@ + decode_expr + ";"@), k1);
    lemma_regroup("let "@ + n + ": "@ + rt + " = "@ + decode_expr, ";"@, k1);
    lemma_regroup("let "@ + n + ": "@ + rt + " = "@, decode_expr, k2);
    lemma_regroup("let "@ + n + ": "@ + rt, " = "@, k3);
    lemma_regroup("let "@ + n + ": "@, rt, k4);
    lemma_regroup("let "@ + n, ": "@, k5);
    lemma_regroup("let "@, n, k6);
    lemma_regroup("            let "@ + n + ": "@ + rt + " = "@ + decode_expr, ";\n"@, k0);
    lemma_regroup(";"@, "\n"@, k0);
    lemma_regroup("            let "@ + n + ": "@ + rt + " = "@, decode_expr, k2);
    lemma_regroup("            let "@ + n + ": "@ + rt, " = "@, k3);
    lemma_regroup("            let "@ + n + ": "@, rt, k4);
    lemma_regroup("            let "@ + n, ": "@, k5);
    lemma_regroup("            let "@, n, k6);
    lemma_regroup("            "@, "let "@, k7);
    lemma_end("            "@ + ("let "@ + n + ": "@ + rt + " = "@ + decode_expr + ";"@) + "\n"@, "            let "@ + n + ": "@ + rt + " = "@ + decode_expr + ";\n"@, k0);
}

pub(crate) proof fn lemma_cat_result(ok_return: Seq<char>, err_return: Seq<char>)
    ensures
        alike("match "@ + "_result"@ + " {\nOk(__v) => { "@ + (("__w"@ + ".write_u64(0);"@) + (" "@ + ok_return)) + " }\nErr(__e) => { "@ + (("__w"@ + ".write_u64(1);"@) + (" "@ + err_return)) + r#" }
}
"#@, "match _result {\nOk(__v) => { __w.write_u64(0); "@ + ok_return + " }\nErr(__e) => { __w.write_u64(1); "@ + err_return + r#" }
}
"#@),
{
    assert(alike("match _result {\nOk(__v) => { __w.write_u64(0); "@, "match "@ + "_result"@ + " {\nOk(__v) => { "@ + "__w"@ + ".write_u64(0);"@ + " "@)) by {
        reveal_strlit("match _result {\nOk(__v) => { __w.write_u64(0); ");
        reveal_strlit("match ");
        reveal_strlit("_result");
        reveal_strlit(" {\nOk(__v) => { ");
        reveal_strlit("__w");
        reveal_strlit(".write_u64(0);");
        reveal_strlit(" ");
        assert("match _result {\nOk(__v) => { __w.write_u64(0); "@ =~= "match "@ + "_result"@ + " {\nOk(__v) => { "@ + "__w"@ + ".write_u64(0);"@ + " "@);
    }
    assert(alike(" }\nErr(__e) => { __w.write_u64(1); "@, " }\nErr(__e) => { "@ + "__w"@ + ".write_u64(1);"@ + " "@)) by {
        reveal_strlit(" }\nErr(__e) => { __w.write_u64(1); ");
        reveal_strlit(" }\nErr(__e) => { ");
        reveal_strlit("__w");
        reveal_strlit(".write_u64(1);");
        reveal_strlit(" ");
        assert(" }\nErr(__e) => { __w.write_u64(1); "@ =~= " }\nErr(__e) => { "@ + "__w"@ + ".write_u64(1);"@ + " "@);
    }
    let k0 = Seq::<char>::empty();
    let k1 = r#" }
}
"#@ + k0;
    let k2 = err_return + k1;
    let k3 = " "@ + k2;
    let k4 = ".write_u64(1);"@ + k3;
    let k5 = "__w"@ + k4;
    let k6 = " }\nErr(__e) => { "@ + k5;
    let k7 = ok_return + k6;
    let k8 = " "@ + k7;
    let k9 = ".write_u64(0);"@ + k8;
    let k10 = "__w"@ + k9;
    let k11 = " {\nOk(__v) => { "@ + k10;
    let k12 = "_result"@ + k11;
    let k13 = "match "@ + k12;
    lemma_regroup("match "@ + "_result"@ + " {\nOk(__v) => { "@ + (("__w"@ + ".write_u64(0);"@) + (" "@ + ok_return)) + " }\nErr(__e) => { "@ + (("__w"@ + ".write_u64(1);"@) + (" "@ + err_return)), r#" }
}
"#@, k0);
    lemma_regroup("match "@ + "_result"@ + " {\nOk(__v) => { "@ + (("__w"@ + ".write_u64(0);"@) + (" "@ + ok_return)) + " }\nErr(__e) => { "@, (("__w"@ + ".write_u64(1);"@) + (" "@ + err_return)), k1);
    lemma_regroup(("__w"@ + ".write_u64(1);"@), (" "@ + err_return), k1);
    lemma_regroup(" "@, err_return, k1);
    lemma_regroup("__w"@, ".write_u64(1);"@, k3);
    lemma_regroup("match "@ + "_result"@ + " {\nOk(__v) => { "@ + (("__w"@ + ".write_u64(0);"@) + (" "@ + ok_return)), " }\nErr(__e) => { "@, k5);
    lemma_regroup("match "@ + "_result"@ + " {\nOk(__v) => { "@, (("__w"@ + ".write_u64(0);"@) + (" "@ + ok_return)), k6);
    lemma_regroup(("__w"@ + ".write_u64(0);"@), (" "@ + ok_return), k6);
    lemma_regroup(" "@, ok_return, k6);
    lemma_regroup("__w"@, ".write_u64(0);"@, k8);
    lemma_regroup("match "@ + "_result"@, " {\nOk(__v) => { "@, k10);
    lemma_regroup("match "@, "_result"@, k11);
    lemma_regroup("match _result {\nOk(__v) => { __w.write_u64(0); "@ + ok_return + " }\nErr(__e) => { __w.write_u64(1); "@ + err_return, r#" }
}
"#@, k0);
    lemma_regroup("match _result {\nOk(__v) => { __w.write_u64(0); "@ + ok_return + " }\nErr(__e) => { __w.write_u64(1); "@, err_return, k1);
    lemma_regroup("match _result {\nOk(__v) => { __w.write_u64(0); "@ + ok_return, " }\nErr(__e) => { __w.write_u64(1); "@, k2);
    lemma_regroup(" }\nErr(__e) => { "@ + "__w"@ + ".write_u64(1);"@, " "@, k2);
    lemma_regroup(" }\nErr(__e) => { "@ + "__w"@, ".write_u64(1);"@, k3);
    lemma_regroup(" }\nErr(__e) => { "@, "__w"@, k4);
    lemma_regroup("match _result {\nOk(__v) => { __w.write_u64(0); "@, ok_return, k6);
    lemma_regroup("match "@ + "_result"@ + " {\nOk(__v) => { "@ + "__w"@ + ".write_u64(0);"@, " "@, k7);
    lemma_regroup("match "@ + "_result"@ + " {\nOk(__v) => { "@ + "__w"@, ".write_u64(0);"@, k8);
    lemma_regroup("match "@ + "_result"@ + " {\nOk(__v) => { "@, "__w"@, k9);
    lemma_regroup("match "@ + "_result"@, " {\nOk(__v) => { "@, k10);
    lemma_regroup("match "@, "_result"@, k11);
    lemma_end("match "@ + "_result"@ + " {\nOk(__v) => { "@ + (("__w"@ + ".write_u64(0);"@) + (" "@ + ok_return)) + " }\nErr(__e) => { "@ + (("__w"@ + ".write_u64(1);"@) + (" "@ + err_return)) + r#" }
}
"#@, "match _result {\nOk(__v) => { __w.write_u64(0); "@ + ok_return + " }\nErr(__e) => { __w.write_u64(1); "@ + err_return + r#" }
}
"#@, k0);
}

pub(crate) proof fn lemma_cat_result_unit(err_return: Seq<char>)
    ensures
        alike("match "@ + "_result"@ + " {\nOk(__v) => { "@ + ("__w"@ + ".write_u64(0);"@) + " }\nErr(__e) => { "@ + (("__w"@ + ".write_u64(1);"@) + (" "@ + err_return)) + r#" }
}
"#@, r#"match _result {
Ok(__v) => { __w.write_u64(0); }
Err(__e) => { __w.write_u64(1); "#@ + err_return + r#" }
}
"#@),
{
    assert(alike(r#"match _result {
Ok(__v) => { __w.write_u64(0); }
Err(__e) => { __w.write_u64(1); "#@, "match "@ + "_result"@ + " {\nOk(__v) => { "@ + "__w"@ + ".write_u64(0);"@ + " }\nErr(__e) => { "@ + "__w"@ + ".write_u64(1);"@ + " "@)) by {
        reveal_strlit(r#"match _result {
Ok(__v) => { __w.write_u64(0); }
Err(__e) => { __w.write_u64(1); "#);
        reveal_strlit("match ");
        reveal_strlit("_result");
        reveal_strlit(" {\nOk(__v) => { ");
        reveal_strlit("__w");
        reveal_strlit(".write_u64(0);");
        reveal_strlit(" }\nErr(__e) => { ");
        reveal_strlit(".write_u64(1);");
        reveal_strlit(" ");
        assert(r#"match _result {
Ok(__v) => { __w.write_u64(0); }
Err(__e) => { __w.write_u64(1); "#@ =~= "match "@ + "_result"@ + " {\nOk(__v) => { "@ + "__w"@ + ".write_u64(0);"@ + " }\nErr(__e) => { "@ + "__w"@ + ".write_u64(1);"@ + " "@);
    }
    let k0 = Seq::<char>::empty();
    let k1 = r#" }
}
"#@ + k0;
    let k2 = err_return + k1;
    let k3 = " "@ + k2;
    let k4 = ".write_u64(1);"@ + k3;
    let k5 = "__w"@ + k4;
    let k6 = " }\nErr(__e) => { "@ + k5;
    let k7 = ".write_u64(0);"@ + k6;
    let k8 = "__w"@ + k7;
    let k9 = " {\nOk(__v) => { "@ + k8;
    let k10 = "_result"@ + k9;
    let k11 = "match "@ + k10;
    lemma_regroup("match "@ + "_result"@ + " {\nOk(__v) => { "@ + ("__w"@ + ".write_u64(0);"@) + " }\nErr(__e) => { "@ + (("__w"@ + ".write_u64(1);"@) + (" "@ + err_return)), r#" }
}
"#@, k0);
    lemma_regroup("match "@ + "_result"@ + " {\nOk(__v) => { "@ + ("__w"@ + ".write_u64(0);"@) + " }\nErr(__e) => { "@, (("__w"@ + ".write_u64(1);"@) + (" "@ + err_return)), k1);
    lemma_regroup(("__w"@ + ".write_u64(1);"@), (" "@ + err_return), k1);
    lemma_regroup(" "@, err_return, k1);
    lemma_regroup("__w"@, ".write_u64(1);"@, k3);
    lemma_regroup("match "@ + "_result"@ + " {\nOk(__v) => { "@ + ("__w"@ + ".write_u64(0);"@), " }\nErr(__e) => { "@, k5);
    lemma_regroup("match "@ + "_result"@ + " {\nOk(__v) => { "@, ("__w"@ + ".write_u64(0);"@), k6);
    lemma_regroup("__w"@, ".write_u64(0);"@, k6);
    lemma_regroup("match "@ + "_result"@, " {\nOk(__v) => { "@, k8);
    lemma_regroup("match "@, "_result"@, k9);
    lemma_regroup(r#"match _result {
Ok(__v) => { __w.write_u64(0); }
Err(__e) => { __w.write_u64(1); "#@ + err_return, r#" }
}
"#@, k0);
    lemma_regroup(r#"match _result {
Ok(__v) => { __w.write_u64(0); }
Err(__e) => { __w.write_u64(1); "#@, err_return, k1);
    lemma_regroup("match "@ + "_result"@ + " {\nOk(__v) => { "@ + "__w"@ + ".write_u64(0);"@ + " }\nErr(__e) => { "@ + "__w"@ + ".write_u64(1);"@, " "@, k2);
    lemma_regroup("match "@ + "_result"@ + " {\nOk(__v) => { "@ + "__w"@ + ".write_u64(0);"@ + " }\nErr(__e) => { "@ + "__w"@, ".write_u64(1);"@, k3);
    lemma_regroup("match "@ + "_result"@ + " {\nOk(__v) => { "@ + "__w"@ + ".write_u64(0);"@ + " }\nErr(__e) => { "@, "__w"@, k4);
    lemma_regroup("match "@ + "_result"@ + " {\nOk(__v) => { "@ + "__w"@ + ".write_u64(0);"@, " }\nErr(__e) => { "@, k5);
    lemma_regroup("match "@ + "_result"@ + " {\nOk(__v) => { "@ + "__w"@, ".write_u64(0);"@, k6);
    lemma_regroup("match "@ + "_result"@ + " {\nOk(__v) => { "@, "__w"@, k7);
    lemma_regroup("match "@ + "_result"@, " {\nOk(__v) => { "@, k8);
    lemma_regroup("match "@, "_result"@, k9);
    lemma_end("match "@ + "_result"@ + " {\nOk(__v) => { "@ + ("__w"@ + ".write_u64(0);"@) + " }\nErr(__e) => { "@ + (("__w"@ + ".write_u64(1);"@) + (" "@ + err_return)) + r#" }
}
"#@, r#"match _result {
Ok(__v) => { __w.write_u64(0); }
Err(__e) => { __w.write_u64(1); "#@ + err_return + r#" }
}
"#@, k0);
}

#[verifier::spinoff_prover]
#[verifier::rlimit(60)]
pub(crate) proof fn lemma_cat_result_guarded(ok_return: Seq<char>, err_return: Seq<char>)
    ensures
        alike("match "@ + "_result"@ + " {\nOk(__v) => { "@ + (("let "@ + "__raw"@ + " = "@ + ("__v"@ + ".into_raw()"@) + ";"@) + (" "@ + (("__w"@ + ".write_u64(0);"@) + (" "@ + ok_return)))) + " }\nErr(__e) => { "@ + (("__w"@ + ".write_u64(1);"@) + (" "@ + err_return)) + r#" }
}
"#@, "match _result {\nOk(__v) => { let __raw = __v.into_raw(); __w.write_u64(0); "@ + ok_return + " }\nErr(__e) => { __w.write_u64(1); "@ + err_return + r#" }
}
"#@),
{
    assert(alike("match _result {\nOk(__v) => { let __raw = __v.into_raw(); __w.write_u64(0); "@, "match "@ + "_result"@ + " {\nOk(__v) => { "@ + "let "@ + "__raw"@ + " = "@ + "__v"@ + ".into_raw()"@ + ";"@ + " "@ + "__w"@ + ".write_u64(0);"@ + " "@)) by {
        reveal_strlit("match _result {\nOk(__v) => { let __raw = __v.into_raw(); __w.write_u64(0); ");
        reveal_strlit("match ");
        reveal_strlit("_result");
        reveal_strlit(" {\nOk(__v) => { ");
        reveal_strlit("let ");
        reveal_strlit("__raw");
        reveal_strlit(" = ");
        reveal_strlit("__v");
        reveal_strlit(".into_raw()");
        reveal_strlit(";");
        reveal_strlit(" ");
        reveal_strlit("__w");
        reveal_strlit(".write_u64(0);");
        assert("match _result {\nOk(__v) => { let __raw = __v.into_raw(); __w.write_u64(0); "@ =~= "match "@ + "_result"@ + " {\nOk(__v) => { "@ + "let "@ + "__raw"@ + " = "@ + "__v"@ + ".into_raw()"@ + ";"@ + " "@ + "__w"@ + ".write_u64(0);"@ + " "@);
    }
    assert(alike(" }\nErr(__e) => { __w.write_u64(1); "@, " }\nErr(__e) => { "@ + "__w"@ + ".write_u64(1);"@ + " "@)) by {
        reveal_strlit(" }\nErr(__e) => { __w.write_u64(1); ");
        reveal_strlit(" }\nErr(__e) => { ");
        reveal_strlit("__w");
        reveal_strlit(".write_u64(1);");
        reveal_strlit(" ");
        assert(" }\nErr(__e) => { __w.write_u64(1); "@ =~= " }\nErr(__e) => { "@ + "__w"@ + ".write_u64(1);"@ + " "@);
    }
    let k0 = Seq::<char>::empty();
    let k1 = r#" }
}
"#@ + k0;
    let k2 = err_return + k1;
    let k3 = " "@ + k2;
    let k4 = ".write_u64(1);"@ + k3;
    let k5 = "__w"@ + k4;
    let k6 = " }\nErr(__e) => { "@ + k5;
    let k7 = ok_return + k6;
    let k8 = " "@ + k7;
    let k9 = ".write_u64(0);"@ + k8;
    let k10 = "__w"@ + k9;
    let k11 = " "@ + k10;
    let k12 = ";"@ + k11;
    let k13 = ".into_raw()"@ + k12;
    let k14 = "__v"@ + k13;
    let k15 = " = "@ + k14;
    let k16 = "__raw"@ + k15;
    let k17 = "let "@ + k16;
    let k18 = " {\nOk(__v) => { "@ + k17;
    let k19 = "_result"@ + k18;
    let k20 = "match "@ + k19;
    lemma_regroup("match "@ + "_result"@ + " {\nOk(__v) => { "@ + (("let "@ + "__raw"@ + " = "@ + ("__v"@ + ".into_raw()"@) + ";"@) + (" "@ + (("__w"@ + ".write_u64(0);"@) + (" "@ + ok_return)))) + " }\nErr(__e) => { "@ + (("__w"@ + ".write_u64(1);"@) + (" "@ + err_return)), r#" }
}
"#@, k0);
    lemma_regroup("match "@ + "_result"@ + " {\nOk(__v) => { "@ + (("let "@ + "__raw"@ + " = "@ + ("__v"@ + ".into_raw()"@) + ";"@) + (" "@ + (("__w"@ + ".write_u64(0);"@) + (" "@ + ok_return)))) + " }\nErr(__e) => { "@, (("__w"@ + ".write_u64(1);"@) + (" "@ + err_return)), k1);
    lemma_regroup(("__w"@ + ".write_u64(1);"@), (" "@ + err_return), k1);
    lemma_regroup(" "@, err_return, k1);
    lemma_regroup("__w"@, ".write_u64(1);"@, k3);
    lemma_regroup("match "@ + "_result"@ + " {\nOk(__v) => { "@ + (("let "@ + "__raw"@ + " = "@ + ("__v"@ + ".into_raw()"@) + ";"@) + (" "@ + (("__w"@ + ".write_u64(0);"@) + (" "@ + ok_return)))), " }\nErr(__e) => { "@, k5);
    lemma_regroup("match "@ + "_result"@ + " {\nOk(__v) => { "@, (("let "@ + "__raw"@ + " = "@ + ("__v"@ + ".into_raw()"@) + ";"@) + (" "@ + (("__w"@ + ".write_u64(0);"@) + (" "@ + ok_return)))), k6);
    lemma_regroup(("let "@ + "__raw"@ + " = "@ + ("__v"@ + ".into_raw()"@) + ";"@), (" "@ + (("__w"@ + ".write_u64(0);"@) + (" "@ + ok_return))), k6);
    lemma_regroup(" "@, (("__w"@ + ".write_u64(0);"@) + (" "@ + ok_return)), k6);
    lemma_regroup(("__w"@ + ".write_u64(0);"@), (" "@ + ok_return), k6);
    lemma_regroup(" "@, ok_return, k6);
    lemma_regroup("__w"@, ".write_u64(0);"@, k8);
    lemma_regroup("let "@ + "__raw"@ + " = "@ + ("__v"@ + ".into_raw()"@), ";"@, k11);
    lemma_regroup("let "@ + "__raw"@ + " = "@, ("__v"@ + ".into_raw()"@), k12);
    lemma_regroup("__v"@, ".into_raw()"@, k12);
    lemma_regroup("let "@ + "__raw"@, " = "@, k14);
    lemma_regroup("let "@, "__raw"@, k15);
    lemma_regroup("match "@ + "_result"@, " {\nOk(__v) => { "@, k17);
    lemma_regroup("match "@, "_result"@, k18);
    lemma_regroup("match _result {\nOk(__v) => { let __raw = __v.into_raw(); __w.write_u64(0); "@ + ok_return + " }\nErr(__e) => { __w.write_u64(1); "@ + err_return, r#" }
}
"#@, k0);
    lemma_regroup("match _result {\nOk(__v) => { let __raw = __v.into_raw(); __w.write_u64(0); "@ + ok_return + " }\nErr(__e) => { __w.write_u64(1); "@, err_return, k1);
    lemma_regroup("match _result {\nOk(__v) => { let __raw = __v.into_raw(); __w.write_u64(0); "@ + ok_return, " }\nErr(__e) => { __w.write_u64(1); "@, k2);
    lemma_regroup(" }\nErr(__e) => { "@ + "__w"@ + ".write_u64(1);"@, " "@, k2);
    lemma_regroup(" }\nErr(__e) => { "@ + "__w"@, ".write_u64(1);"@, k3);
    lemma_regroup(" }\nErr(__e) => { "@, "__w"@, k4);
    lemma_regroup("match _result {\nOk(__v) => { let __raw = __v.into_raw(); __w.write_u64(0); "@, ok_return, k6);
    lemma_regroup("match "@ + "_result"@ + " {\nOk(__v) => { "@ + "let "@ + "__raw"@ + " = "@ + "__v"@ + ".into_raw()"@ + ";"@ + " "@ + "__w"@ + ".write_u64(0);"@, " "@, k7);
    lemma_regroup("match "@ + "_result"@ + " {\nOk(__v) => { "@ + "let "@ + "__raw"@ + " = "@ + "__v"@ + ".into_raw()"@ + ";"@ + " "@ + "__w"@, ".write_u64(0);"@, k8);
    lemma_regroup("match "@ + "_result"@ + " {\nOk(__v) => { "@ + "let "@ + "__raw"@ + " = "@ + "__v"@ + ".into_raw()"@ + ";"@ + " "@, "__w"@, k9);
    lemma_regroup("match "@ + "_result"@ + " {\nOk(__v) => { "@ + "let "@ + "__raw"@ + " = "@ + "__v"@ + ".into_raw()"@ + ";"@, " "@, k10);
    lemma_regroup("match "@ + "_result"@ + " {\nOk(__v) => { "@ + "let "@ + "__raw"@ + " = "@ + "__v"@ + ".into_raw()"@, ";"@, k11);
    lemma_regroup("match "@ + "_result"@ + " {\nOk(__v) => { "@ + "let "@ + "__raw"@ + " = "@ + "__v"@, ".into_raw()"@, k12);
    lemma_regroup("match "@ + "_result"@ + " {\nOk(__v) => { "@ + "let "@ + "__raw"@ + " = "@, "__v"@, k13);
    lemma_regroup("match "@ + "_result"@ + " {\nOk(__v) => { "@ + "let "@ + "__raw"@, " = "@, k14);
    lemma_regroup("match "@ + "_result"@ + " {\nOk(__v) => { "@ + "let "@, "__raw"@, k15);
    lemma_regroup("match "@ + "_result"@ + " {\nOk(__v) => { "@, "let "@, k16);
    lemma_regroup("match "@ + "_result"@, " {\nOk(__v) => { "@, k17);
    lemma_regroup("match "@, "_result"@, k18);
    lemma_end("match "@ + "_result"@ + " {\nOk(__v) => { "@ + (("let "@ + "__raw"@ + " = "@ + ("__v"@ + ".into_raw()"@) + ";"@) + (" "@ + (("__w"@ + ".write_u64(0);"@) + (" "@ + ok_return)))) + " }\nErr(__e) => { "@ + (("__w"@ + ".write_u64(1);"@) + (" "@ + err_return)) + r#" }
}
"#@, "match _result {\nOk(__v) => { let __raw = __v.into_raw(); __w.write_u64(0); "@ + ok_return + " }\nErr(__e) => { __w.write_u64(1); "@ + err_return + r#" }
}
"#@, k0);
}

#[verifier::spinoff_prover]
#[verifier::rlimit(60)]
pub(crate) proof fn lemma_cat_received(r: Seq<char>, ok_recv: Seq<char>, err_recv: Seq<char>)
    ensures
        alike("{ "@ + (("let "@ + "__tag"@ + " = "@ + (r + ".read_u64()"@) + ";"@) + " "@) + ("if "@ + ("__tag"@ + " == "@ + "0"@) + " { "@ + ("Ok"@ + "("@ + ok_recv + ")"@) + " } else { "@ + ("Err"@ + "("@ + err_recv + ")"@) + " }"@) + " }"@, "{ let __tag = "@ + r + ".read_u64(); if __tag == 0 { Ok("@ + ok_recv + ") } else { Err("@ + err_recv + ") } }"@),
{
    assert(alike("{ let __tag = "@, "{ "@ + "let "@ + "__tag"@ + " = "@)) by {
        reveal_strlit("{ let __tag = ");
        reveal_strlit("{ ");
        reveal_strlit("let ");
        reveal_strlit("__tag");
        reveal_strlit(" = ");
        assert("{ let __tag = "@ =~= "{ "@ + "let "@ + "__tag"@ + " = "@);
    }
    assert(alike(".read_u64(); if __tag == 0 { Ok("@, ".read_u64()"@ + ";"@ + " "@ + "if "@ + "__tag"@ + " == "@ + "0"@ + " { "@ + "Ok"@ + "("@)) by {
        reveal_strlit(".read_u64(); if __tag == 0 { Ok(");
        reveal_strlit(".read_u64()");
        reveal_strlit(";");
        reveal_strlit(" ");
        reveal_strlit("if ");
        reveal_strlit("__tag");
        reveal_strlit(" == ");
        reveal_strlit("0");
        reveal_strlit(" { ");
        reveal_strlit("Ok");
        reveal_strlit("(");
        assert(".read_u64(); if __tag == 0 { Ok("@ =~= ".read_u64()"@ + ";"@ + " "@ + "if "@ + "__tag"@ + " == "@ + "0"@ + " { "@ + "Ok"@ + "("@);
    }
    assert(alike(") } else { Err("@, ")"@ + " } else { "@ + "Err"@ + "("@)) by {
        reveal_strlit(") } else { Err(");
        reveal_strlit(")");
        reveal_strlit(" } else { ");
        reveal_strlit("Err");
        reveal_strlit("(");
        assert(") } else { Err("@ =~= ")"@ + " } else { "@ + "Err"@ + "("@);
    }
    assert(alike(") } }"@, ")"@ + " }"@ + " }"@)) by {
        reveal_strlit(") } }");
        reveal_strlit(")");
        reveal_strlit(" }");
        assert(") } }"@ =~= ")"@ + " }"@ + " }"@);
    }
    let k0 = Seq::<char>::empty();
    let k1 = " }"@ + k0;
    let k2 = " }"@ + k1;
    let k3 = ")"@ + k2;
    let k4 = err_recv + k3;
    let k5 = "("@ + k4;
    let k6 = "Err"@ + k5;
    let k7 = " } else { "@ + k6;
    let k8 = ")"@ + k7;
    let k9 = ok_recv + k8;
    let k10 = "("@ + k9;
    let k11 = "Ok"@ + k10;
    let k12 = " { "@ + k11;
    let k13 = "0"@ + k12;
    let k14 = " == "@ + k13;
    let k15 = "__tag"@ + k14;
    let k16 = "if "@ + k15;
    let k17 = " "@ + k16;
    let k18 = ";"@ + k17;
    let k19 = ".read_u64()"@ + k18;
    let k20 = r + k19;
    let k21 = " = "@ + k20;
    let k22 = "__tag"@ + k21;
    let k23 = "let "@ + k22;
    let k24 = "{ "@ + k23;
    lemma_regroup("{ "@ + (("let "@ + "__tag"@ + " = "@ + (r + ".read_u64()"@) + ";"@) + " "@) + ("if "@ + ("__tag"@ + " == "@ + "0"@) + " { "@ + ("Ok"@ + "("@ + ok_recv + ")"@) + " } else { "@ + ("Err"@ + "("@ + err_recv + ")"@) + " }"@), " }"@, k0);
    lemma_regroup("{ "@ + (("let "@ + "__tag"@ + " = "@ + (r + ".read_u64()"@) + ";"@) + " "@), ("if "@ + ("__tag"@ + " == "@ + "0"@) + " { "@ + ("Ok"@ + "("@ + ok_recv + ")"@) + " } else { "@ + ("Err"@ + "("@ + err_recv + ")"@) + " }"@), k1);
    lemma_regroup("if "@ + ("__tag"@ + " == "@ + "0"@) + " { "@ + ("Ok"@ + "("@ + ok_recv + ")"@) + " } else { "@ + ("Err"@ + "("@ + err_recv + ")"@), " }"@, k1);
    lemma_regroup("if "@ + ("__tag"@ + " == "@ + "0"@) + " { "@ + ("Ok"@ + "("@ + ok_recv + ")"@) + " } else { "@, ("Err"@ + "("@ + err_recv + ")"@), k2);
    lemma_regroup("Err"@ + "("@ + err_recv, ")"@, k2);
    lemma_regroup("Err"@ + "("@, err_recv, k3);
    lemma_regroup("Err"@, "("@, k4);
    lemma_regroup("if "@ + ("__tag"@ + " == "@ + "0"@) + " { "@ + ("Ok"@ + "("@ + ok_recv + ")"@), " } else { "@, k6);
    lemma_regroup("if "@ + ("__tag"@ + " == "@ + "0"@) + " { "@, ("Ok"@ + "("@ + ok_recv + ")"@), k7);
    lemma_regroup("Ok"@ + "("@ + ok_recv, ")"@, k7);
    lemma_regroup("Ok"@ + "("@, ok_recv, k8);
    lemma_regroup("Ok"@, "("@, k9);
    lemma_regroup("if "@ + ("__tag"@ + " == "@ + "0"@), " { "@, k11);
    lemma_regroup("if "@, ("__tag"@ + " == "@ + "0"@), k12);
    lemma_regroup("__tag"@ + " == "@, "0"@, k12);
    lemma_regroup("__tag"@, " == "@, k13);
    lemma_regroup("{ "@, (("let "@ + "__tag"@ + " = "@ + (r + ".read_u64()"@) + ";"@) + " "@), k16);
    lemma_regroup(("let "@ + "__tag"@ + " = "@ + (r + ".read_u64()"@) + ";"@), " "@, k16);
    lemma_regroup("let "@ + "__tag"@ + " = "@ + (r + ".read_u64()"@), ";"@, k17);
    lemma_regroup("let "@ + "__tag"@ + " = "@, (r + ".read_u64()"@), k18);
    lemma_regroup(r, ".read_u64()"@, k18);
    lemma_regroup("let "@ + "__tag"@, " = "@, k20);
    lemma_regroup("let "@, "__tag"@, k21);
    lemma_regroup("{ let __tag = "@ + r + ".read_u64(); if __tag == 0 { Ok("@ + ok_recv + ") } else { Err("@ + err_recv, ") } }"@, k0);
    lemma_regroup(")"@ + " }"@, " }"@, k0);
    lemma_regroup(")"@, " }"@, k1);
    lemma_regroup("{ let __tag = "@ + r + ".read_u64(); if __tag == 0 { Ok("@ + ok_recv + ") } else { Err("@, err_recv, k3);
    lemma_regroup("{ let __tag = "@ + r + ".read_u64(); if __tag == 0 { Ok("@ + ok_recv, ") } else { Err("@, k4);
    lemma_regroup(")"@ + " } else { "@ + "Err"@, "("@, k4);
    lemma_regroup(")"@ + " } else { "@, "Err"@, k5);
    lemma_regroup(")"@, " } else { "@, k6);
    lemma_regroup("{ let __tag = "@ + r + ".read_u64(); if __tag == 0 { Ok("@, ok_recv, k8);
    lemma_regroup("{ let __tag = "@ + r, ".read_u64(); if __tag == 0 { Ok("@, k9);
    lemma_regroup(".read_u64()"@ + ";"@ + " "@ + "if "@ + "__tag"@ + " == "@ + "0"@ + " { "@ + "Ok"@, "("@, k9);
    lemma_regroup(".read_u64()"@ + ";"@ + " "@ + "if "@ + "__tag"@ + " == "@ + "0"@ + " { "@, "Ok"@, k10);
    lemma_regroup(".read_u64()"@ + ";"@ + " "@ + "if "@ + "__tag"@ + " == "@ + "0"@, " { "@, k11);
    lemma_regroup(".read_u64()"@ + ";"@ + " "@ + "if "@ + "__tag"@ + " == "@, "0"@, k12);
    lemma_regroup(".read_u64()"@ + ";"@ + " "@ + "if "@ + "__tag"@, " == "@, k13);
    lemma_regroup(".read_u64()"@ + ";"@ + " "@ + "if "@, "__tag"@, k14);
    lemma_regroup(".read_u64()"@ + ";"@ + " "@, "if "@, k15);
    lemma_regroup(".read_u64()"@ + ";"@, " "@, k16);
    lemma_regroup(".read_u64()"@, ";"@, k17);
    lemma_regroup("{ let __tag = "@, r, k19);
    lemma_regroup("{ "@ + "let "@ + "__tag"@, " = "@, k20);
    lemma_regroup("{ "@ + "let "@, "__tag"@, k21);
    lemma_regroup("{ "@, "let "@, k22);
    lemma_end("{ "@ + (("let "@ + "__tag"@ + " = "@ + (r + ".read_u64()"@) + ";"@) + " "@) + ("if "@ + ("__tag"@ + " == "@ + "0"@) + " { "@ + ("Ok"@ + "("@ + ok_recv + ")"@) + " } else { "@ + ("Err"@ + "("@ + err_recv + ")"@) + " }"@) + " }"@, "{ let __tag = "@ + r + ".read_u64(); if __tag == 0 { Ok("@ + ok_recv + ") } else { Err("@ + err_recv + ") } }"@, k0);
}

} // verus!
