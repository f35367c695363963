//! What generated Rust writes to slots, generated Rust reads back.
//!
//! The statements that a codec writes are a program, and so is the expression
//! that reads. For a value of any type the first puts the slots of the value,
//! and the second, run on these slots, comes to the value.
use vstd::bytes::{
    lemma_auto_spec_u64_to_from_le_bytes, spec_u64_from_le_bytes, spec_u64_to_le_bytes,
};
use vstd::prelude::*;

use crate::ast::{Decl, EnumModel, ParamModel, Ty, VariantModel};
use crate::codec::{
    arms_read_code, arms_write_code, array_read_code, array_write_code, bytes_read_code,
    bytes_write_code, enum_read_code, enum_write_code, field_expr, field_patterns, fields_read_code,
    fields_write_code, lookup, read_code, result_read_code, slice_write_code, tuple_read_code,
    tuple_write_code, write_code,
};
use crate::gen::{dispatch_decode, result_write_code, tower_encode};
use crate::rustmodel::{
    apply, arm_texts, bind, bind_fields, binders, byte_values, bytes_of, choices, choose_arm, eval,
    eval_fields, eval_list, field_name, fitting_numbers_are_kept, is_space, items, leave, line,
    lines, run, slots_hold_integers, step, text, texts, unsigned, Arm, Cast, Ex, Fld, Fun, Machine,
    Meth, Rec, St, Val,
};
use crate::rusttext::{
    bool_ex, bool_exs, bytes_ex, call_ex, cast_exs, chunk_exs, doption_ex, dslice_ex, dstr_ex,
    dstring_ex, dvec_ex, empty_ex, empty_exs, f32_ex, f32_exs, f64_ex, f64_exs, field_of, i16_ex,
    i32_ex, i64_ex, i8_ex, lemma_casts, lemma_cat_bytes, lemma_cat_chunk, lemma_cat_doption,
    lemma_cat_field_arm, lemma_cat_match, lemma_cat_option, lemma_cat_option_unit, lemma_cat_param,
    lemma_cat_read_fields, lemma_cat_read_unit, lemma_cat_received, lemma_cat_result,
    lemma_cat_result_guarded, lemma_cat_result_unit, lemma_cat_unit_arm, lemma_g_bool,
    lemma_g_bytes, lemma_g_doption, lemma_g_dslice, lemma_g_dstr, lemma_g_dstring, lemma_g_dvec,
    lemma_g_empty, lemma_g_f32, lemma_g_f64, lemma_g_i16, lemma_g_i32, lemma_g_i64, lemma_g_i8,
    lemma_g_option, lemma_g_out, lemma_g_own_dstring, lemma_g_own_dvec, lemma_g_refmut, lemma_g_str,
    lemma_g_string, lemma_g_struct, lemma_g_u16, lemma_g_u32, lemma_g_u64, lemma_g_u8, lemma_g_vec,
    lemma_w_bool, lemma_w_bool_text, lemma_w_cast, lemma_w_cast_text, lemma_w_chunk,
    lemma_w_chunk_text, lemma_w_empty, lemma_w_empty_text, lemma_w_f32, lemma_w_f32_text,
    lemma_w_f64, lemma_w_f64_text, lemma_w_managed, lemma_w_managed_text, lemma_w_native,
    lemma_w_native_text, lemma_w_out, lemma_w_out_text, lemma_w_struct, lemma_w_struct_text,
    lemma_w_typed_view, lemma_w_typed_view_text, lemma_w_u64, lemma_w_u64_text, lemma_w_view,
    lemma_w_view_text, managed_exs, native_exs, option_ex, out_ex, out_exs, own_dstring_ex,
    own_dvec_ex, refmut_ex, str_ex, string_ex, struct_ex, struct_exs, typed_view_exs, u16_ex,
    u32_ex, u64_ex, u8_ex, vec_ex, view_exs,
};
use crate::rustwire::{
    fields_have_types, fields_wire, gives, has_type, have_types, is_address, is_managed, is_object,
    is_ptr, is_slice, is_variant, is_view, lemma_apply, lemma_blank, lemma_gives_apply,
    lemma_gives_on, lemma_gives_takes, lemma_lines_join, lemma_name, lemma_no_puts, lemma_on,
    lemma_one_line, lemma_one_put, lemma_one_step, lemma_puts_join, lemma_run_join, lemma_split,
    list_wire, managed_wire, put_all, put_texts, puts, slice_wire, slot, takes, tuple_wire,
    variant_from, variant_wire, view_wire, wire, words,
};
use crate::text::{dec, digit};

verus! {

// ---------------------------------------------------------------------------
// Names and types
// ---------------------------------------------------------------------------

/// Whether generated code does not use the name for something else.
pub open spec fn is_free(x: Seq<char>) -> bool {
    &&& x != "__v"@
    &&& x != "__tag"@
    &&& x != "__p"@
    &&& x != "__l"@
    &&& x != "__arr"@
    &&& x != "__alloc"@
    &&& x != "__ptr"@
    &&& x != "__len"@
    &&& x != "__cap"@
    &&& x != "_"@
    &&& forall|i: nat| x != #[trigger] field_name(i)
}

/// Whether a value of the type is returned as it is. Native texts and vectors,
/// structs and opaque values are copied to memory of their receiver; they are
/// not, if they are inputs.
pub open spec fn kept(own: bool, ft: Ty, types: Seq<Decl>, depth: nat) -> bool
    decreases 4 * depth, ft, 0nat,
{
    !own || match ft {
        Ty::String => false,
        Ty::Vec(_) => false,
        Ty::Option(t) => kept(own, *t, types, depth),
        Ty::DOption(t) => kept(own, *t, types, depth),
        Ty::Ref(t) => match *t {
            Ty::DString => true,
            Ty::DVec(_) => true,
            other => kept(own, other, types, depth),
        },
        Ty::Tuple(ts) => all_kept(own, ts, ts.len(), types, depth),
        Ty::Array(t, _) => kept(own, *t, types, depth),
        Ty::Named(name) => match lookup(types, name) {
            None => true,
            Some(Decl::Struct(s)) => s.fields.len() == 0,
            Some(Decl::Opaque(_)) => false,
            Some(Decl::Enum(e)) => depth == 0 || enum_kept(own, e, types, (depth - 1) as nat),
        },
        _ => true,
    }
}

/// Whether values of the first `n` types are returned as they are.
pub open spec fn all_kept(own: bool, ts: Seq<Ty>, n: nat, types: Seq<Decl>, depth: nat) -> bool
    decreases 4 * depth, ts, n,
{
    n == 0 || n > ts.len() || (kept(own, ts[n - 1], types, depth) && all_kept(
        own,
        ts,
        (n - 1) as nat,
        types,
        depth,
    ))
}

/// Whether the fields of an enum are returned as they are.
pub open spec fn enum_kept(own: bool, e: EnumModel, types: Seq<Decl>, depth: nat) -> bool
    decreases 4 * depth + 1, e, 0nat,
{
    forall|i: int, j: int|
        0 <= i < e.variants.len() && 0 <= j < e.variants[i].fields.len() ==> kept(
            own,
            (#[trigger] e.variants[i].fields[j]).field_dtype(),
            types,
            depth,
        )
}

proof fn lemma_digits(a: nat, b: nat)
    requires
        dec(a) == dec(b),
    ensures
        a == b,
    decreases a,
{
    let x = dec(a);
    let y = dec(b);
    assert(x.last() == digit((a % 10) as int));
    assert(y.last() == digit((b % 10) as int));
    assert(a % 10 == b % 10);
    if a >= 10 {
        assert(x.drop_last() =~= dec(a / 10));
        lemma_some_digit(a / 10);
        if b >= 10 {
            assert(y.drop_last() =~= dec(b / 10));
            lemma_digits(a / 10, b / 10);
        }
    } else if b >= 10 {
        lemma_some_digit(b / 10);
    }
}

proof fn lemma_some_digit(a: nat)
    ensures
        dec(a).len() > 0,
{
}

proof fn lemma_field_names(i: nat, j: nat)
    requires
        field_name(i) == field_name(j),
    ensures
        i == j,
{
    let p = "__f"@;
    assert((p + dec(i)).skip(p.len() as int) =~= dec(i));
    assert((p + dec(j)).skip(p.len() as int) =~= dec(j));
    lemma_digits(i, j);
}

// ---------------------------------------------------------------------------
// The statements that write
// ---------------------------------------------------------------------------

/// The statement that puts a number.
pub open spec fn put_num(w: Seq<char>, n: nat) -> Seq<St> {
    seq![St::Put(w, Ex::Num(n))]
}

pub open spec fn blank() -> Seq<St> {
    seq![St::Blank(" "@)]
}

/// The statements of [`write_code`].
pub open spec fn put_prog(
    own: bool,
    ft: Ty,
    e: Ex,
    w: Seq<char>,
    types: Seq<Decl>,
    depth: nat,
) -> Seq<St>
    decreases 4 * depth, ft, 0nat,
{
    match ft {
        Ty::Unit => Seq::empty(),
        Ty::Bool => put_all(w, bool_exs(e), 1),
        Ty::U64 => put_all(w, seq![e], 1),
        Ty::F32 => put_all(w, f32_exs(e), 1),
        Ty::F64 => put_all(w, f64_exs(e), 1),
        Ty::Str => put_all(w, native_exs(e), 2),
        Ty::U8Slice => put_all(w, native_exs(e), 2),
        Ty::String => put_all(w, native_exs(e), 2),
        Ty::Vec(_) => put_all(w, native_exs(e), 2),
        Ty::OutU8Vec => put_all(w, out_exs(e), 1),
        Ty::RefMut(_) => put_all(w, out_exs(e), 1),
        Ty::DStr => put_all(w, view_exs(e), 2),
        Ty::DSlice(t) => put_slice(own, *t, e, w),
        Ty::DString => put_all(w, managed_exs(e), 4),
        Ty::DVec(_) => put_all(w, managed_exs(e), 4),
        Ty::Option(t) => {
            let some = put_prog(own, *t, Ex::Name("__v"@), w, types, depth);
            if lines(some, some.len()).len() == 0 {
                seq![St::If(call_ex(e, Meth::IsSome), put_num(w, 1), put_num(w, 0))]
            } else {
                seq![
                    St::IfSome(
                        "__v"@,
                        e,
                        put_num(w, 1) + (blank() + some),
                        put_num(w, 0),
                    ),
                ]
            }
        },
        Ty::DOption(t) => {
            let some = put_prog(own, *t, Ex::Name("__v"@), w, types, depth);
            seq![
                St::If(
                    Ex::Eq(Box::new(field_of(e, Fld::Tag)), 0),
                    put_num(w, 0),
                    seq![St::Let(false, "__v"@, field_of(e, Fld::Value))] + (blank() + (put_num(
                        w,
                        1,
                    ) + (blank() + some))),
                ),
            ]
        },
        Ty::Ref(t) => match *t {
            Ty::DString => put_all(w, view_exs(e), 2),
            Ty::DVec(x) => put_slice(own, *x, e, w),
            other => put_prog(own, other, e, w, types, depth),
        },
        Ty::Tuple(ts) => put_tuple(own, ts, ts.len(), e, w, types, depth),
        Ty::Array(t, n) => if *t is U8 && n % 8 == 0 {
            put_words(n / 8, e, w)
        } else {
            put_array(*t, n, e, w, types, depth)
        },
        Ty::Named(name) => match lookup(types, name) {
            None => Seq::empty(),
            Some(Decl::Struct(s)) => if s.fields.len() == 0 {
                put_all(w, empty_exs(e), 1)
            } else {
                put_all(w, struct_exs(e, name), 1)
            },
            Some(Decl::Opaque(_)) => put_all(w, struct_exs(e, name), 1),
            Some(Decl::Enum(en)) => if depth == 0 {
                Seq::empty()
            } else {
                seq![
                    St::Match(
                        e,
                        put_arms(
                            own,
                            en.name,
                            en.variants,
                            en.variants.len(),
                            w,
                            types,
                            (depth - 1) as nat,
                        ),
                    ),
                ]
            },
        },
        _ => put_all(w, cast_exs(e), 1),
    }
}

pub open spec fn put_slice(own: bool, t: Ty, e: Ex, w: Seq<char>) -> Seq<St> {
    if own {
        put_all(w, typed_view_exs(e, t.rust_type()), 2)
    } else {
        put_all(w, view_exs(e), 2)
    }
}

pub open spec fn put_tuple(
    own: bool,
    ts: Seq<Ty>,
    n: nat,
    e: Ex,
    w: Seq<char>,
    types: Seq<Decl>,
    depth: nat,
) -> Seq<St>
    decreases 4 * depth, ts, n,
{
    if n == 0 || n > ts.len() {
        Seq::empty()
    } else {
        put_tuple(own, ts, (n - 1) as nat, e, w, types, depth) + put_prog(
            own,
            ts[n - 1],
            Ex::Part(Box::new(e), (n - 1) as nat),
            w,
            types,
            depth,
        )
    }
}

pub open spec fn put_words(n: nat, e: Ex, w: Seq<char>) -> Seq<St>
    decreases n,
{
    if n == 0 {
        Seq::empty()
    } else {
        put_words((n - 1) as nat, e, w) + put_all(
            w,
            chunk_exs(e, ((n - 1) * 8) as nat, ((n - 1) * 8 + 8) as nat),
            1,
        )
    }
}

pub open spec fn put_array(
    t: Ty,
    n: nat,
    e: Ex,
    w: Seq<char>,
    types: Seq<Decl>,
    depth: nat,
) -> Seq<St>
    decreases 4 * depth, t, 1 + n,
{
    if n == 0 {
        Seq::empty()
    } else {
        put_array(t, (n - 1) as nat, e, w, types, depth) + put_prog(
            false,
            t,
            Ex::At(Box::new(e), (n - 1) as nat),
            w,
            types,
            depth,
        )
    }
}

/// The expression of [`field_expr`].
pub open spec fn field_ex(own: bool, ft: Ty, i: nat) -> Ex {
    let x = Ex::Name(field_name(i));
    if own {
        x
    } else {
        match ft {
            Ty::F32 => Ex::Paren(Box::new(Ex::Star(Box::new(x)))),
            Ty::F64 => Ex::Paren(Box::new(Ex::Star(Box::new(x)))),
            Ty::U8 => Ex::Star(Box::new(x)),
            Ty::I8 => Ex::Star(Box::new(x)),
            Ty::U16 => Ex::Star(Box::new(x)),
            Ty::I16 => Ex::Star(Box::new(x)),
            Ty::U32 => Ex::Star(Box::new(x)),
            Ty::I32 => Ex::Star(Box::new(x)),
            Ty::U64 => Ex::Star(Box::new(x)),
            Ty::I64 => Ex::Star(Box::new(x)),
            Ty::Bool => Ex::Star(Box::new(x)),
            _ => x,
        }
    }
}

pub open spec fn put_fields(
    own: bool,
    fs: Seq<Ty>,
    n: nat,
    w: Seq<char>,
    types: Seq<Decl>,
    depth: nat,
) -> Seq<St>
    decreases 4 * depth + 1, fs, n,
{
    if n == 0 || n > fs.len() {
        Seq::empty()
    } else {
        put_fields(own, fs, (n - 1) as nat, w, types, depth) + put_prog(
            own,
            fs[n - 1].field_dtype(),
            field_ex(own, fs[n - 1], (n - 1) as nat),
            w,
            types,
            depth,
        )
    }
}

pub open spec fn put_arm(
    own: bool,
    n: Seq<char>,
    v: VariantModel,
    i: nat,
    w: Seq<char>,
    types: Seq<Decl>,
    depth: nat,
) -> Arm
    decreases 4 * depth + 2, v, 0nat,
{
    Arm {
        of: n,
        variant: v.name,
        fields: v.fields.len(),
        borrow: !own,
        body: if v.fields.len() == 0 {
            put_num(w, i)
        } else {
            put_num(w, i) + (blank() + put_fields(own, v.fields, v.fields.len(), w, types, depth))
        },
    }
}

pub open spec fn put_arms(
    own: bool,
    n: Seq<char>,
    vs: Seq<VariantModel>,
    k: nat,
    w: Seq<char>,
    types: Seq<Decl>,
    depth: nat,
) -> Seq<Arm>
    decreases 4 * depth + 2, vs, k,
{
    if k == 0 || k > vs.len() {
        Seq::empty()
    } else {
        put_arms(own, n, vs, (k - 1) as nat, w, types, depth).push(
            put_arm(own, n, vs[k - 1], (k - 1) as nat, w, types, depth),
        )
    }
}

// ---------------------------------------------------------------------------
// Their text
// ---------------------------------------------------------------------------

proof fn lemma_put_all_text(w: Seq<char>, es: Seq<Ex>, n: nat)
    requires
        n <= es.len(),
    ensures
        lines(put_all(w, es, n), put_all(w, es, n).len()) == put_texts(w, es, n),
    decreases n,
{
    if n == 0 {
    } else {
        let s = St::Put(w, es[n - 1]);
        lemma_one_line(s);
        if n > 1 {
            lemma_put_all_text(w, es, (n - 1) as nat);
            lemma_one_line(St::Blank(" "@));
            lemma_lines_join(seq![St::Blank(" "@)], seq![s]);
            lemma_lines_join(
                put_all(w, es, (n - 1) as nat),
                seq![St::Blank(" "@)] + seq![s],
            );
            assert(put_texts(w, es, (n - 1) as nat) + (" "@ + line(s)) =~= put_texts(w, es, n));
        }
    }
}

proof fn lemma_num_text(w: Seq<char>, n: nat)
    ensures
        lines(put_num(w, n), put_num(w, n).len()) == w + ".write_u64("@ + dec(n) + ");"@,
{
    lemma_one_line(St::Put(w, Ex::Num(n)));
}

proof fn lemma_tag_texts(w: Seq<char>)
    ensures
        lines(put_num(w, 0), put_num(w, 0).len()) == w + ".write_u64(0);"@,
        lines(put_num(w, 1), put_num(w, 1).len()) == w + ".write_u64(1);"@,
{
    lemma_num_text(w, 0);
    lemma_num_text(w, 1);
    lemma_casts();
    assert(".write_u64("@ + "0"@ + ");"@ =~= ".write_u64(0);"@) by {
        reveal_strlit(".write_u64(");
        reveal_strlit("0");
        reveal_strlit(");");
        reveal_strlit(".write_u64(0);");
    }
    assert(".write_u64("@ + "1"@ + ");"@ =~= ".write_u64(1);"@) by {
        reveal_strlit(".write_u64(");
        reveal_strlit("1");
        reveal_strlit(");");
        reveal_strlit(".write_u64(1);");
    }
    assert(w + ".write_u64("@ + "0"@ + ");"@ =~= w + (".write_u64("@ + "0"@ + ");"@));
    assert(w + ".write_u64("@ + "1"@ + ");"@ =~= w + (".write_u64("@ + "1"@ + ");"@));
}

proof fn lemma_option_text(e: Ex, w: Seq<char>, some: Seq<St>)
    ensures
        ({
            let expr = text(e);
            let s = St::IfSome("__v"@, e, put_num(w, 1) + (blank() + some), put_num(w, 0));
            let some = lines(some, some.len());
            lines(seq![s], 1) == "if let Some(__v) = "@
                + expr
                + " { "@
                + w
                + ".write_u64(1); "@
                + some
                + " } else { "@
                + w
                + ".write_u64(0); }"@
        }),
        ({
            let expr = text(e);
            let s = St::If(call_ex(e, Meth::IsSome), put_num(w, 1), put_num(w, 0));
            lines(seq![s], 1) == "if "@
                + expr
                + ".is_some() { "@
                + w
                + ".write_u64(1); } else { "@
                + w
                + ".write_u64(0); }"@
        }),
{
    lemma_tag_texts(w);
    lemma_one_line(St::Blank(" "@));
    lemma_lines_join(blank(), some);
    lemma_lines_join(put_num(w, 1), blank() + some);
    assert(blank().len() == 1);
    let expr = text(e);
    lemma_one_line(St::IfSome("__v"@, e, put_num(w, 1) + (blank() + some), put_num(w, 0)));
    lemma_cat_option(expr, w, lines(some, some.len()));
    lemma_one_line(St::If(call_ex(e, Meth::IsSome), put_num(w, 1), put_num(w, 0)));
    assert(text(call_ex(e, Meth::IsSome)) == expr + ".is_some()"@);
    lemma_cat_option_unit(expr, w);
}

proof fn lemma_doption_text(e: Ex, w: Seq<char>, some: Seq<St>)
    ensures
        ({
            let expr = text(e);
            let s = St::If(
                Ex::Eq(Box::new(field_of(e, Fld::Tag)), 0),
                put_num(w, 0),
                seq![St::Let(false, "__v"@, field_of(e, Fld::Value))] + (blank() + (put_num(w, 1)
                    + (blank() + some))),
            );
            let some = lines(some, some.len());
            lines(seq![s], 1) == "if "@
                + expr
                + ".tag == 0 { "@
                + w
                + ".write_u64(0); } else { let __v = "@
                + expr
                + ".value; "@
                + w
                + ".write_u64(1); "@
                + some
                + " }"@
        }),
{
    lemma_tag_texts(w);
    lemma_casts();
    let l = St::Let(false, "__v"@, field_of(e, Fld::Value));
    let c = Ex::Eq(Box::new(field_of(e, Fld::Tag)), 0);
    let x = put_num(w, 1) + (blank() + some);
    lemma_one_line(St::Blank(" "@));
    lemma_one_line(l);
    lemma_lines_join(blank(), some);
    lemma_lines_join(put_num(w, 1), blank() + some);
    lemma_lines_join(blank(), x);
    lemma_lines_join(seq![l], blank() + x);
    assert(blank().len() == 1);
    assert(seq![l].len() == 1);
    let expr = text(e);
    lemma_one_line(St::If(c, put_num(w, 0), seq![l] + (blank() + x)));
    assert(text(field_of(e, Fld::Value)) == expr + "."@ + "value"@);
    assert(text(field_of(e, Fld::Tag)) == expr + "."@ + "tag"@);
    assert(text(c) == text(field_of(e, Fld::Tag)) + " == "@ + "0"@);
    lemma_cat_doption(expr, w, lines(some, some.len()));
}

proof fn lemma_put_text(own: bool, ft: Ty, e: Ex, w: Seq<char>, types: Seq<Decl>, depth: nat)
    requires
        kept(own, ft, types, depth),
    ensures
        ({
            let p = put_prog(own, ft, e, w, types, depth);
            lines(p, p.len()) == write_code(own, ft, text(e), w, types, depth)
        }),
    decreases 4 * depth, ft, 0nat,
{
    assert(lines(Seq::<St>::empty(), 0) == Seq::<char>::empty());
    match ft {
        Ty::Unit => {},
        Ty::Bool => {
            lemma_w_bool_text(e, w);
            lemma_put_all_text(w, bool_exs(e), 1);
        },
        Ty::U64 => {
            lemma_w_u64_text(e, w);
            lemma_put_all_text(w, seq![e], 1);
        },
        Ty::F32 => {
            lemma_w_f32_text(e, w);
            lemma_put_all_text(w, f32_exs(e), 1);
        },
        Ty::F64 => {
            lemma_w_f64_text(e, w);
            lemma_put_all_text(w, f64_exs(e), 1);
        },
        Ty::Str | Ty::U8Slice | Ty::String | Ty::Vec(_) => {
            lemma_w_native_text(e, w);
            lemma_put_all_text(w, native_exs(e), 2);
        },
        Ty::OutU8Vec | Ty::RefMut(_) => {
            lemma_w_out_text(e, w);
            lemma_put_all_text(w, out_exs(e), 1);
        },
        Ty::DStr => {
            lemma_w_view_text(e, w);
            lemma_put_all_text(w, view_exs(e), 2);
        },
        Ty::DSlice(t) => {
            lemma_slice_text(own, *t, e, w);
        },
        Ty::DString | Ty::DVec(_) => {
            lemma_w_managed_text(e, w);
            lemma_put_all_text(w, managed_exs(e), 4);
        },
        Ty::Option(t) => {
            let x = Ex::Name("__v"@);
            assert(text(x) == "__v"@);
            lemma_put_text(own, *t, x, w, types, depth);
            lemma_option_text(e, w, put_prog(own, *t, x, w, types, depth));
        },
        Ty::DOption(t) => {
            let x = Ex::Name("__v"@);
            assert(text(x) == "__v"@);
            lemma_put_text(own, *t, x, w, types, depth);
            lemma_doption_text(e, w, put_prog(own, *t, x, w, types, depth));
        },
        Ty::Ref(t) => match *t {
            Ty::DString => {
                lemma_w_view_text(e, w);
                lemma_put_all_text(w, view_exs(e), 2);
            },
            Ty::DVec(x) => {
                lemma_slice_text(own, *x, e, w);
            },
            other => {
                lemma_put_text(own, other, e, w, types, depth);
            },
        },
        Ty::Tuple(ts) => {
            lemma_tuple_text(own, ts, ts.len(), e, w, types, depth);
        },
        Ty::Array(t, n) => {
            if *t is U8 && n % 8 == 0 {
                lemma_words_text(n / 8, e, w);
            } else {
                lemma_array_text(*t, n, e, w, types, depth);
            }
        },
        Ty::Named(name) => match lookup(types, name) {
            None => {},
            Some(Decl::Struct(s)) => {
                if s.fields.len() == 0 {
                    lemma_w_empty_text(e, w);
                    lemma_put_all_text(w, empty_exs(e), 1);
                } else {
                    lemma_w_struct_text(e, w, name);
                    lemma_put_all_text(w, struct_exs(e, name), 1);
                }
            },
            Some(Decl::Opaque(_)) => {
                lemma_w_struct_text(e, w, name);
                lemma_put_all_text(w, struct_exs(e, name), 1);
            },
            Some(Decl::Enum(en)) => {
                if depth > 0 {
                    let d = (depth - 1) as nat;
                    let k = en.variants.len();
                    lemma_arms_text(own, en, k, w, types, d);
                    let arms = put_arms(own, en.name, en.variants, k, w, types, d);
                    lemma_one_line(St::Match(e, arms));
                    lemma_arms_len(own, en.name, en.variants, k, w, types, d);
                    assert(enum_write_code(own, en, text(e), w, types, d) == "match "@ + text(e)
                        + " { "@ + arm_texts(arms, k) + " }"@);
                }
            },
        },
        _ => {
            lemma_w_cast_text(e, w);
            lemma_put_all_text(w, cast_exs(e), 1);
        },
    }
}

proof fn lemma_slice_text(own: bool, t: Ty, e: Ex, w: Seq<char>)
    ensures
        ({
            let p = put_slice(own, t, e, w);
            lines(p, p.len()) == slice_write_code(own, t, text(e), w)
        }),
{
    if own {
        lemma_w_typed_view_text(e, w, t.rust_type());
        lemma_put_all_text(w, typed_view_exs(e, t.rust_type()), 2);
    } else {
        lemma_w_view_text(e, w);
        lemma_put_all_text(w, view_exs(e), 2);
    }
}

proof fn lemma_tuple_text(
    own: bool,
    ts: Seq<Ty>,
    n: nat,
    e: Ex,
    w: Seq<char>,
    types: Seq<Decl>,
    depth: nat,
)
    requires
        n <= ts.len(),
        !own || all_kept(own, ts, n, types, depth),
    ensures
        ({
            let p = put_tuple(own, ts, n, e, w, types, depth);
            lines(p, p.len()) == tuple_write_code(own, ts, n, text(e), w, types, depth)
        }),
    decreases 4 * depth, ts, n,
{
    if n > 0 {
        let x = Ex::Part(Box::new(e), (n - 1) as nat);
        lemma_tuple_text(own, ts, (n - 1) as nat, e, w, types, depth);
        lemma_put_text(own, ts[n - 1], x, w, types, depth);
        lemma_lines_join(
            put_tuple(own, ts, (n - 1) as nat, e, w, types, depth),
            put_prog(own, ts[n - 1], x, w, types, depth),
        );
        assert(text(x) == text(e) + "."@ + dec((n - 1) as nat));
    }
}

proof fn lemma_words_text(n: nat, e: Ex, w: Seq<char>)
    ensures
        ({
            let p = put_words(n, e, w);
            lines(p, p.len()) == bytes_write_code(n, text(e), w)
        }),
    decreases n,
{
    if n > 0 {
        let start = ((n - 1) * 8) as nat;
        let end = ((n - 1) * 8 + 8) as nat;
        lemma_words_text((n - 1) as nat, e, w);
        lemma_w_chunk_text(e, w, start, end);
        lemma_put_all_text(w, chunk_exs(e, start, end), 1);
        lemma_lines_join(put_words((n - 1) as nat, e, w), put_all(w, chunk_exs(e, start, end), 1));
    }
}

proof fn lemma_array_text(t: Ty, n: nat, e: Ex, w: Seq<char>, types: Seq<Decl>, depth: nat)
    ensures
        ({
            let p = put_array(t, n, e, w, types, depth);
            lines(p, p.len()) == array_write_code(t, n, text(e), w, types, depth)
        }),
    decreases 4 * depth, t, 1 + n,
{
    if n > 0 {
        let x = Ex::At(Box::new(e), (n - 1) as nat);
        lemma_array_text(t, (n - 1) as nat, e, w, types, depth);
        lemma_put_text(false, t, x, w, types, depth);
        lemma_lines_join(
            put_array(t, (n - 1) as nat, e, w, types, depth),
            put_prog(false, t, x, w, types, depth),
        );
        assert(text(x) == text(e) + "["@ + dec((n - 1) as nat) + "]"@);
    }
}

proof fn lemma_field_text(own: bool, ft: Ty, i: nat)
    ensures
        text(field_ex(own, ft, i)) == field_expr(own, ft, i as int),
{
    let x = Ex::Name(field_name(i));
    let s = Ex::Star(Box::new(x));
    assert(text(x) == "__f"@ + dec(i));
    assert(text(s) == "*"@ + text(x));
    assert(text(Ex::Paren(Box::new(s))) == "("@ + text(s) + ")"@);
    assert("*"@ + "__f"@ =~= "*__f"@) by {
        reveal_strlit("*");
        reveal_strlit("__f");
        reveal_strlit("*__f");
    }
    assert("("@ + "*__f"@ =~= "(*__f"@) by {
        reveal_strlit("(");
        reveal_strlit("*__f");
        reveal_strlit("(*__f");
    }
    assert(text(s) =~= "*__f"@ + dec(i));
    assert(text(Ex::Paren(Box::new(s))) =~= "(*__f"@ + dec(i) + ")"@);
}

proof fn lemma_fields_text(
    own: bool,
    fs: Seq<Ty>,
    n: nat,
    w: Seq<char>,
    types: Seq<Decl>,
    depth: nat,
)
    requires
        n <= fs.len(),
        forall|j: int|
            0 <= j < fs.len() ==> kept(own, (#[trigger] fs[j]).field_dtype(), types, depth),
    ensures
        ({
            let p = put_fields(own, fs, n, w, types, depth);
            lines(p, p.len()) == fields_write_code(own, fs, n, w, types, depth)
        }),
    decreases 4 * depth + 1, fs, n,
{
    if n > 0 {
        let x = field_ex(own, fs[n - 1], (n - 1) as nat);
        let t = fs[n - 1].field_dtype();
        lemma_fields_text(own, fs, (n - 1) as nat, w, types, depth);
        lemma_put_text(own, t, x, w, types, depth);
        lemma_field_text(own, fs[n - 1], (n - 1) as nat);
        lemma_lines_join(
            put_fields(own, fs, (n - 1) as nat, w, types, depth),
            put_prog(own, t, x, w, types, depth),
        );
    }
}

proof fn lemma_binders(borrow: bool, n: nat)
    ensures
        binders(borrow, n) == field_patterns(borrow, n),
    decreases n,
{
    if n > 0 {
        lemma_binders(borrow, (n - 1) as nat);
        assert("ref "@ + "__f"@ =~= "ref __f"@) by {
            reveal_strlit("ref ");
            reveal_strlit("__f");
            reveal_strlit("ref __f");
        }
        assert(""@ =~= Seq::empty()) by {
            reveal_strlit("");
        }
        let i = (n - 1) as nat;
        assert("ref "@ + field_name(i) =~= "ref __f"@ + dec(i));
        assert(""@ + field_name(i) =~= "__f"@ + dec(i));
    }
}

proof fn lemma_arms_len(
    own: bool,
    n: Seq<char>,
    vs: Seq<VariantModel>,
    k: nat,
    w: Seq<char>,
    types: Seq<Decl>,
    depth: nat,
)
    requires
        k <= vs.len(),
    ensures
        put_arms(own, n, vs, k, w, types, depth).len() == k,
        forall|i: int|
            0 <= i < k ==> #[trigger] put_arms(own, n, vs, k, w, types, depth)[i] == put_arm(
                own,
                n,
                vs[i],
                i as nat,
                w,
                types,
                depth,
            ),
    decreases k,
{
    if k > 0 {
        lemma_arms_len(own, n, vs, (k - 1) as nat, w, types, depth);
    }
}

proof fn lemma_arm_texts_head(a: Seq<Arm>, x: Arm, n: nat)
    requires
        n <= a.len(),
    ensures
        arm_texts(a.push(x), n) == arm_texts(a, n),
    decreases n,
{
    if n > 0 {
        lemma_arm_texts_head(a, x, (n - 1) as nat);
        assert(a.push(x)[n - 1] == a[n - 1]);
    }
}

proof fn lemma_arm_text(
    own: bool,
    n: Seq<char>,
    v: VariantModel,
    i: nat,
    w: Seq<char>,
    types: Seq<Decl>,
    depth: nat,
)
    requires
        forall|j: int|
            0 <= j < v.fields.len() ==> kept(
                own,
                (#[trigger] v.fields[j]).field_dtype(),
                types,
                depth,
            ),
    ensures
        ({
            let a = put_arm(own, n, v, i, w, types, depth);
            let vn = v.name;
            let fs = v.fields;
            let pats = field_patterns(!own, fs.len());
            let stmts = fields_write_code(own, fs, fs.len(), w, types, depth);
            a.of + "::"@ + a.variant + (if a.fields == 0 {
                ""@
            } else {
                "("@ + binders(a.borrow, a.fields) + ")"@
            }) + " => { "@ + lines(a.body, a.body.len()) + " } "@ == (if fs.len() == 0 {
                n + "::"@ + vn + " => { "@ + w + ".write_u64("@ + dec(i as nat) + "); } "@
            } else {
                n
                    + "::"@
                    + vn
                    + "("@
                    + pats
                    + ") => { "@
                    + w
                    + ".write_u64("@
                    + dec(i as nat)
                    + "); "@
                    + stmts
                    + " } "@
            })
        }),
    decreases 4 * depth + 1, v.fields, v.fields.len() + 1,
{
    let a = put_arm(own, n, v, i, w, types, depth);
    let vn = v.name;
    let fs = v.fields;
    lemma_num_text(w, i);
    if fs.len() == 0 {
        assert(a.variant + ""@ =~= a.variant) by {
            reveal_strlit("");
        }
        assert(a.of + "::"@ + a.variant + ""@ =~= a.of + "::"@ + a.variant) by {
            reveal_strlit("");
        }
        lemma_cat_unit_arm(n, vn, w, dec(i));
    } else {
        let f = put_fields(own, fs, fs.len(), w, types, depth);
        lemma_fields_text(own, fs, fs.len(), w, types, depth);
        lemma_one_line(St::Blank(" "@));
        lemma_lines_join(blank(), f);
        lemma_lines_join(put_num(w, i), blank() + f);
        assert(blank().len() == 1);
        lemma_binders(!own, fs.len());
        lemma_cat_field_arm(
            n,
            vn,
            field_patterns(!own, fs.len()),
            w,
            dec(i),
            fields_write_code(own, fs, fs.len(), w, types, depth),
        );
    }
}

proof fn lemma_arms_text(
    own: bool,
    en: EnumModel,
    k: nat,
    w: Seq<char>,
    types: Seq<Decl>,
    depth: nat,
)
    requires
        k <= en.variants.len(),
        !own || enum_kept(own, en, types, depth),
    ensures
        arm_texts(put_arms(own, en.name, en.variants, k, w, types, depth), k) == arms_write_code(
            own,
            en.name,
            en.variants,
            k,
            w,
            types,
            depth,
        ),
    decreases 4 * depth + 2, en.variants, k,
{
    let vs = en.variants;
    if k > 0 {
        lemma_arms_text(own, en, (k - 1) as nat, w, types, depth);
        lemma_arms_len(own, en.name, vs, (k - 1) as nat, w, types, depth);
        let before = put_arms(own, en.name, vs, (k - 1) as nat, w, types, depth);
        let v = vs[k - 1];
        let a = put_arm(own, en.name, v, (k - 1) as nat, w, types, depth);
        assert forall|j: int| 0 <= j < v.fields.len() implies kept(
            own,
            (#[trigger] v.fields[j]).field_dtype(),
            types,
            depth,
        ) by {
            assert(vs[k - 1].fields[j] == v.fields[j]);
        }
        lemma_arm_text(own, en.name, v, (k - 1) as nat, w, types, depth);
        lemma_arm_texts_head(before, a, (k - 1) as nat);
        assert(before.push(a)[k - 1] == a);
    }
}

// ---------------------------------------------------------------------------
// What they put
// ---------------------------------------------------------------------------

proof fn lemma_num(w: Seq<char>, n: nat, env: Map<Seq<char>, Val>)
    requires
        env.contains_key(w),
        env[w] is Writer,
    ensures
        puts(put_num(w, n), env, seq![n as u64]),
{
    assert(gives(Ex::Num(n), env, Val::Int(false, 64, n as int)));
    lemma_one_put(w, Ex::Num(n), env, n as int);
}

/// Statements that are written without a character do nothing.
proof fn lemma_unwritten(ss: Seq<St>, n: nat, m: Machine)
    requires
        n <= ss.len(),
        lines(ss, n).len() == 0,
    ensures
        run(ss, n, m) == Some(m),
    decreases n,
{
    if n > 0 {
        lemma_unwritten(ss, (n - 1) as nat, m);
        let s = ss[n - 1];
        assert(lines(ss, n).len() == lines(ss, (n - 1) as nat).len() + line(s).len());
        assert(line(s).len() == 0);
        reveal_strlit(".write_u64(");
        reveal_strlit(" = ");
        reveal_strlit("let ");
        reveal_strlit("if ");
        reveal_strlit("if let Some(");
        reveal_strlit("match ");
        reveal_strlit("[");
        match s {
            St::Blank(t) => {
                assert(is_space(t));
                assert(step(s, m) == Some(m));
                assert(run(ss, n, m) == step(s, m));
            },
            St::Put(w, e) => {
                assert(line(s).len() >= ".write_u64("@.len());
            },
            St::Let(b, x, e) => {
                assert(line(s).len() >= " = "@.len());
            },
            St::LetTyped(x, t, e) => {
                assert(line(s).len() >= "let "@.len());
            },
            St::Copy(x, i, j, e) => {
                assert(line(s).len() >= "["@.len());
            },
            St::If(c, a, b) => {
                assert(line(s).len() >= "if "@.len());
            },
            St::IfSome(x, e, a, b) => {
                assert(line(s).len() >= "if let Some("@.len());
            },
            St::Match(e, arms) => {
                assert(line(s).len() >= "match "@.len());
            },
            St::MatchResult(e, x, y) => {
                assert(line(s).len() >= "match "@.len());
            },
        }
    }
}

/// So they put nothing.
proof fn lemma_silent(ss: Seq<St>, env: Map<Seq<char>, Val>, slots: Seq<u64>)
    requires
        puts(ss, env, slots),
        lines(ss, ss.len()).len() == 0,
    ensures
        slots == Seq::<u64>::empty(),
{
    let m = Machine { env, ins: Seq::empty(), outs: Seq::empty() };
    lemma_unwritten(ss, ss.len(), m);
    assert(run(ss, ss.len(), m) == Some(Machine { outs: m.outs + slots, ..m }));
    assert(m.outs + slots =~= slots);
}

/// Statements behind a binding.
proof fn lemma_let_puts(
    x: Seq<char>,
    e: Ex,
    v: Val,
    ss: Seq<St>,
    env: Map<Seq<char>, Val>,
    slots: Seq<u64>,
    m: Machine,
)
    requires
        m.env == env,
        gives(e, env, v),
        puts(ss, env.insert(x, v), slots),
    ensures
        leave(m, run(seq![St::Let(false, x, e)] + ss, (seq![St::Let(false, x, e)] + ss).len(), m))
            == Some(Machine { outs: m.outs + slots, ..m }),
{
    let s = St::Let(false, x, e);
    lemma_run_join(seq![s], ss, ss.len(), m);
    lemma_one_step(s, m);
    assert(eval(e, m) == Some((v, m)));
    let m1 = bind(m, x, v);
    assert(step(s, m) == Some(m1));
    assert(run(ss, ss.len(), m1) == Some(Machine { outs: m1.outs + slots, ..m1 }));
    assert((seq![s] + ss).len() == 1 + ss.len());
    assert(seq![s].len() == 1);
}

proof fn lemma_put_option(
    e: Ex,
    v: Val,
    w: Seq<char>,
    some: Seq<St>,
    slots: Seq<u64>,
    env: Map<Seq<char>, Val>,
)
    requires
        env.contains_key(w),
        env[w] is Writer,
        w != "__v"@,
        gives(e, env, v),
        match v {
            Val::Nil => slots == seq![0u64],
            Val::Just(x) => exists|inner: Seq<u64>| #[trigger]
                puts(some, env.insert("__v"@, *x), inner) && slots == seq![1u64] + inner,
            _ => false,
        },
    ensures
        puts(
            seq![St::IfSome("__v"@, e, put_num(w, 1) + (blank() + some), put_num(w, 0))],
            env,
            slots,
        ),
        lines(some, some.len()).len() == 0 ==> puts(
            seq![St::If(call_ex(e, Meth::IsSome), put_num(w, 1), put_num(w, 0))],
            env,
            slots,
        ),
        puts(
            seq![
                St::If(
                    Ex::Eq(Box::new(field_of(e, Fld::Tag)), 0),
                    put_num(w, 0),
                    seq![St::Let(false, "__v"@, field_of(e, Fld::Value))] + (blank() + (put_num(
                        w,
                        1,
                    ) + (blank() + some))),
                ),
            ],
            env,
            slots,
        ),
{
    let one = put_num(w, 1);
    let zero = put_num(w, 0);
    let a = one + (blank() + some);
    let s1 = St::IfSome("__v"@, e, a, zero);
    let s2 = St::If(call_ex(e, Meth::IsSome), one, zero);
    let l = St::Let(false, "__v"@, field_of(e, Fld::Value));
    let b = seq![l] + (blank() + a);
    let c = Ex::Eq(Box::new(field_of(e, Fld::Tag)), 0);
    let s3 = St::If(c, zero, b);
    lemma_num(w, 0, env);
    lemma_num(w, 1, env);
    let is = lemma_gives_on(call_ex(e, Meth::IsSome), env, v);
    let tag = lemma_gives_on(field_of(e, Fld::Tag), env, v);
    let test = lemma_gives_on(c, env, tag);
    match v {
        Val::Just(x) => {
            let inside = env.insert("__v"@, *x);
            let inner = choose|inner: Seq<u64>| #[trigger]
                puts(some, inside, inner) && slots == seq![1u64] + inner;
            let none = Seq::<u64>::empty();
            lemma_num(w, 1, inside);
            lemma_blank(inside);
            lemma_puts_join(blank(), none, some, inner, inside);
            lemma_puts_join(one, seq![1u64], blank() + some, none + inner, inside);
            assert(seq![1u64] + (none + inner) =~= slots);
            lemma_puts_join(blank(), none, a, slots, inside);
            assert(none + slots =~= slots);
            let field = lemma_gives_on(field_of(e, Fld::Value), env, v);
            if lines(some, some.len()).len() == 0 {
                lemma_silent(some, inside, inner);
                assert(slots =~= seq![1u64]);
            }
        },
        _ => {},
    }
    assert forall|m: Machine| m.env == env implies #[trigger] run(seq![s1], seq![s1].len(), m)
        == Some(Machine { outs: m.outs + slots, ..m }) by {
        lemma_one_step(s1, m);
        assert(eval(e, m) == Some((v, m)));
        assert(run(zero, zero.len(), m) == Some(Machine { outs: m.outs + seq![0u64], ..m }));
        match v {
            Val::Just(x) => {
                let m1 = bind(m, "__v"@, *x);
                assert(run(a, a.len(), m1) == Some(Machine { outs: m1.outs + slots, ..m1 }));
            },
            _ => {},
        }
        assert(step(s1, m) == Some(Machine { outs: m.outs + slots, ..m }));
    }
    if lines(some, some.len()).len() == 0 {
        assert forall|m: Machine| m.env == env implies #[trigger] run(seq![s2], seq![s2].len(), m)
            == Some(Machine { outs: m.outs + slots, ..m }) by {
            lemma_one_step(s2, m);
            assert(eval(call_ex(e, Meth::IsSome), m) == Some((is, m)));
            assert(run(zero, zero.len(), m) == Some(Machine { outs: m.outs + seq![0u64], ..m }));
            assert(run(one, one.len(), m) == Some(Machine { outs: m.outs + seq![1u64], ..m }));
            assert(step(s2, m) == Some(Machine { outs: m.outs + slots, ..m }));
        }
    }
    assert forall|m: Machine| m.env == env implies #[trigger] run(seq![s3], seq![s3].len(), m)
        == Some(Machine { outs: m.outs + slots, ..m }) by {
        lemma_one_step(s3, m);
        assert(eval(c, m) == Some((test, m)));
        assert(run(zero, zero.len(), m) == Some(Machine { outs: m.outs + seq![0u64], ..m }));
        match v {
            Val::Just(x) => {
                lemma_let_puts(
                    "__v"@,
                    field_of(e, Fld::Value),
                    *x,
                    blank() + a,
                    env,
                    slots,
                    m,
                );
            },
            _ => {},
        }
        assert(step(s3, m) == Some(Machine { outs: m.outs + slots, ..m }));
    }
}

/// What names stand for where the first `n` fields of a variant are bound.
pub open spec fn fields_env(env: Map<Seq<char>, Val>, vs: Seq<Val>, n: nat) -> Map<Seq<char>, Val>
    decreases n,
{
    if n == 0 || n > vs.len() {
        env
    } else {
        fields_env(env, vs, (n - 1) as nat).insert(field_name((n - 1) as nat), vs[n - 1])
    }
}

proof fn lemma_fields_env(m: Machine, vs: Seq<Val>, n: nat, w: Seq<char>)
    requires
        n <= vs.len(),
        is_free(w),
    ensures
        bind_fields(m, vs, n) == (Machine { env: fields_env(m.env, vs, n), ..m }),
        fields_env(m.env, vs, n).contains_key(w) == m.env.contains_key(w),
        m.env.contains_key(w) ==> fields_env(m.env, vs, n)[w] == m.env[w],
        forall|i: int|
            0 <= i < n ==> fields_env(m.env, vs, n).contains_key(#[trigger] field_name(i as nat))
                && fields_env(m.env, vs, n)[field_name(i as nat)] == vs[i],
    decreases n,
{
    if n > 0 {
        lemma_fields_env(m, vs, (n - 1) as nat, w);
        assert forall|i: int| 0 <= i < n implies fields_env(m.env, vs, n).contains_key(
            #[trigger] field_name(i as nat),
        ) && fields_env(m.env, vs, n)[field_name(i as nat)] == vs[i] by {
            if i < n - 1 && field_name(i as nat) == field_name((n - 1) as nat) {
                lemma_field_names(i as nat, (n - 1) as nat);
            }
        }
        assert(w != field_name((n - 1) as nat));
    }
}

proof fn lemma_choose(
    own: bool,
    n: Seq<char>,
    vs: Seq<VariantModel>,
    w: Seq<char>,
    types: Seq<Decl>,
    depth: nat,
    i: nat,
    name: Seq<char>,
    xs: Seq<Val>,
    m: Machine,
)
    requires
        i <= vs.len(),
        variant_from(vs, name, i) < vs.len(),
        vs[variant_from(vs, name, i) as int].fields.len() == xs.len(),
    ensures
        ({
            let k = variant_from(vs, name, i);
            let body = put_arm(own, n, vs[k as int], k, w, types, depth).body;
            choose_arm(put_arms(own, n, vs, vs.len(), w, types, depth), i, n, name, xs, m) == run(
                body,
                body.len(),
                bind_fields(m, xs, xs.len()),
            )
        }),
    decreases vs.len() - i,
{
    lemma_arms_len(own, n, vs, vs.len(), w, types, depth);
    if i < vs.len() && vs[i as int].name != name {
        lemma_choose(own, n, vs, w, types, depth, i + 1, name, xs, m);
    }
}

proof fn lemma_field_value(own: bool, raw: Ty, v: Val, i: nat, env: Map<Seq<char>, Val>, types: Seq<Decl>, depth: nat)
    requires
        env.contains_key(field_name(i)),
        env[field_name(i)] == v,
        has_type(v, raw.field_dtype(), types, depth),
    ensures
        gives(field_ex(own, raw, i), env, v),
{
    let x = Ex::Name(field_name(i));
    let s = Ex::Star(Box::new(x));
    lemma_name(field_name(i), env);
    if field_ex(own, raw, i) != x {
        let y = lemma_gives_on(s, env, v);
        assert(y == v);
        let z = lemma_gives_on(Ex::Paren(Box::new(s)), env, v);
    }
}

proof fn lemma_put(
    own: bool,
    ft: Ty,
    e: Ex,
    v: Val,
    w: Seq<char>,
    env: Map<Seq<char>, Val>,
    types: Seq<Decl>,
    depth: nat,
)
    requires
        kept(own, ft, types, depth),
        has_type(v, ft, types, depth),
        gives(e, env, v),
        env.contains_key(w),
        env[w] is Writer,
        is_free(w),
    ensures
        puts(put_prog(own, ft, e, w, types, depth), env, wire(v, ft, types, depth)),
    decreases 4 * depth, ft, 0nat,
{
    match ft {
        Ty::Unit => {
            lemma_no_puts(env);
        },
        Ty::Bool => {
            lemma_w_bool(e, v, w, env);
        },
        Ty::U64 => {
            lemma_w_u64(e, v, w, env);
        },
        Ty::F32 => {
            lemma_w_f32(e, v, w, env);
        },
        Ty::F64 => {
            lemma_w_f64(e, v, w, env);
        },
        Ty::Str | Ty::U8Slice | Ty::String => {
            lemma_w_native(e, v, w, env, "u8"@);
        },
        Ty::Vec(t) => {
            lemma_w_native(e, v, w, env, t.rust_type());
        },
        Ty::OutU8Vec => {
            lemma_w_out(e, v, w, env, "Vec<u8>"@);
        },
        Ty::RefMut(t) => {
            lemma_w_out(e, v, w, env, t.rust_type());
        },
        Ty::DStr => {
            lemma_w_view(e, v, w, env, Rec::DStr, "u8"@);
        },
        Ty::DSlice(t) => {
            lemma_put_slice(own, *t, e, v, w, env);
        },
        Ty::DString => {
            lemma_w_managed(e, v, w, env, Rec::DString, "u8"@);
        },
        Ty::DVec(t) => {
            lemma_w_managed(e, v, w, env, Rec::DVec(t.rust_type()), t.rust_type());
        },
        Ty::Option(t) => {
            lemma_put_some(own, *t, v, w, env, types, depth);
            lemma_put_option(
                e,
                v,
                w,
                put_prog(own, *t, Ex::Name("__v"@), w, types, depth),
                wire(v, ft, types, depth),
                env,
            );
        },
        Ty::DOption(t) => {
            lemma_put_some(own, *t, v, w, env, types, depth);
            lemma_put_option(
                e,
                v,
                w,
                put_prog(own, *t, Ex::Name("__v"@), w, types, depth),
                wire(v, ft, types, depth),
                env,
            );
        },
        Ty::Ref(t) => match *t {
            Ty::DString => {
                lemma_w_view(e, v, w, env, Rec::DStr, "u8"@);
            },
            Ty::DVec(x) => {
                lemma_put_slice(own, *x, e, v, w, env);
            },
            other => {
                lemma_put(own, other, e, v, w, env, types, depth);
            },
        },
        Ty::Tuple(ts) => {
            lemma_put_tuple(own, ts, ts.len(), e, v->Tuple_0, w, env, types, depth);
        },
        Ty::Array(t, n) => {
            let vs = v->List_0;
            if *t is U8 && n % 8 == 0 {
                assert forall|i: int| 0 <= i < vs.len() implies unsigned(
                    #[trigger] vs[i],
                    8,
                ) is Some && 0 <= vs[i]->Int_2 < 256 by {
                    assert(has_type(vs[i], *t, types, depth));
                }
                lemma_put_words(n / 8, e, vs, w, env);
            } else {
                lemma_put_array(*t, n, e, vs, w, env, types, depth);
            }
        },
        Ty::Named(name) => match lookup(types, name) {
            None => {},
            Some(Decl::Struct(s)) => {
                if s.fields.len() == 0 {
                    lemma_w_empty(e, v, w, env);
                } else {
                    lemma_w_struct(e, v, w, env, name);
                }
            },
            Some(Decl::Opaque(_)) => {
                lemma_w_struct(e, v, w, env, name);
            },
            Some(Decl::Enum(en)) => {
                lemma_put_enum(own, en, e, v, w, env, types, (depth - 1) as nat);
            },
        },
        _ => {
            lemma_w_cast(e, v, w, env);
        },
    }
}

proof fn lemma_put_some(
    own: bool,
    t: Ty,
    v: Val,
    w: Seq<char>,
    env: Map<Seq<char>, Val>,
    types: Seq<Decl>,
    depth: nat,
)
    requires
        kept(own, t, types, depth),
        match v {
            Val::Nil => true,
            Val::Just(x) => has_type(*x, t, types, depth),
            _ => false,
        },
        env.contains_key(w),
        env[w] is Writer,
        is_free(w),
    ensures
        v matches Val::Just(x) ==> puts(
            put_prog(own, t, Ex::Name("__v"@), w, types, depth),
            env.insert("__v"@, *x),
            wire(*x, t, types, depth),
        ),
    decreases 4 * depth, t, 1nat,
{
    match v {
        Val::Just(x) => {
            let inside = env.insert("__v"@, *x);
            lemma_name("__v"@, inside);
            lemma_put(own, t, Ex::Name("__v"@), *x, w, inside, types, depth);
        },
        _ => {},
    }
}

proof fn lemma_put_slice(own: bool, t: Ty, e: Ex, v: Val, w: Seq<char>, env: Map<Seq<char>, Val>)
    requires
        is_view(v, Rec::DSlice(t.rust_type()), t.rust_type()),
        gives(e, env, v),
        env.contains_key(w),
        env[w] is Writer,
    ensures
        puts(put_slice(own, t, e, w), env, view_wire(v)),
{
    if own {
        lemma_w_typed_view(e, v, w, env, Rec::DSlice(t.rust_type()), t.rust_type());
    } else {
        lemma_w_view(e, v, w, env, Rec::DSlice(t.rust_type()), t.rust_type());
    }
}

proof fn lemma_put_tuple(
    own: bool,
    ts: Seq<Ty>,
    n: nat,
    e: Ex,
    vs: Seq<Val>,
    w: Seq<char>,
    env: Map<Seq<char>, Val>,
    types: Seq<Decl>,
    depth: nat,
)
    requires
        n <= ts.len() == vs.len(),
        !own || all_kept(own, ts, n, types, depth),
        have_types(vs, ts, n, types, depth),
        gives(e, env, Val::Tuple(vs)),
        env.contains_key(w),
        env[w] is Writer,
        is_free(w),
    ensures
        puts(
            put_tuple(own, ts, n, e, w, types, depth),
            env,
            tuple_wire(vs, ts, n, types, depth),
        ),
    decreases 4 * depth, ts, n,
{
    if n == 0 {
        lemma_no_puts(env);
    } else {
        let x = Ex::Part(Box::new(e), (n - 1) as nat);
        let y = lemma_gives_on(x, env, Val::Tuple(vs));
        lemma_put_tuple(own, ts, (n - 1) as nat, e, vs, w, env, types, depth);
        lemma_put(own, ts[n - 1], x, vs[n - 1], w, env, types, depth);
        lemma_puts_join(
            put_tuple(own, ts, (n - 1) as nat, e, w, types, depth),
            tuple_wire(vs, ts, (n - 1) as nat, types, depth),
            put_prog(own, ts[n - 1], x, w, types, depth),
            wire(vs[n - 1], ts[n - 1], types, depth),
            env,
        );
    }
}

proof fn lemma_put_words(n: nat, e: Ex, vs: Seq<Val>, w: Seq<char>, env: Map<Seq<char>, Val>)
    requires
        8 * n <= vs.len(),
        forall|i: int|
            0 <= i < vs.len() ==> unsigned(#[trigger] vs[i], 8) is Some && 0 <= vs[i]->Int_2 < 256,
        gives(e, env, Val::List(vs)),
        env.contains_key(w),
        env[w] is Writer,
    ensures
        puts(put_words(n, e, w), env, words(vs, n)),
    decreases n,
{
    if n == 0 {
        lemma_no_puts(env);
    } else {
        let start = ((n - 1) * 8) as nat;
        let end = ((n - 1) * 8 + 8) as nat;
        let part = vs.subrange(start as int, end as int);
        assert(bytes_of(part) is Some) by {
            assert forall|i: int| 0 <= i < part.len() implies unsigned(#[trigger] part[i], 8) is Some
                && 0 <= part[i]->Int_2 < 256 by {
                assert(part[i] == vs[start + i]);
            }
        }
        lemma_put_words((n - 1) as nat, e, vs, w, env);
        lemma_w_chunk(e, Val::List(vs), w, env, start, end);
        let word = spec_u64_from_le_bytes(bytes_of(part)->Some_0);
        lemma_puts_join(
            put_words((n - 1) as nat, e, w),
            words(vs, (n - 1) as nat),
            put_all(w, chunk_exs(e, start, end), 1),
            seq![word],
            env,
        );
        assert(words(vs, (n - 1) as nat) + seq![word] =~= words(vs, n));
    }
}

proof fn lemma_put_array(
    t: Ty,
    n: nat,
    e: Ex,
    vs: Seq<Val>,
    w: Seq<char>,
    env: Map<Seq<char>, Val>,
    types: Seq<Decl>,
    depth: nat,
)
    requires
        n <= vs.len(),
        forall|i: int| 0 <= i < vs.len() ==> has_type(#[trigger] vs[i], t, types, depth),
        gives(e, env, Val::List(vs)),
        env.contains_key(w),
        env[w] is Writer,
        is_free(w),
    ensures
        puts(put_array(t, n, e, w, types, depth), env, list_wire(vs, t, n, types, depth)),
    decreases 4 * depth, t, 1 + n,
{
    if n == 0 {
        lemma_no_puts(env);
    } else {
        let x = Ex::At(Box::new(e), (n - 1) as nat);
        let y = lemma_gives_on(x, env, Val::List(vs));
        lemma_put_array(t, (n - 1) as nat, e, vs, w, env, types, depth);
        lemma_put(false, t, x, vs[n - 1], w, env, types, depth);
        lemma_puts_join(
            put_array(t, (n - 1) as nat, e, w, types, depth),
            list_wire(vs, t, (n - 1) as nat, types, depth),
            put_prog(false, t, x, w, types, depth),
            wire(vs[n - 1], t, types, depth),
            env,
        );
    }
}

proof fn lemma_put_fields(
    own: bool,
    fs: Seq<Ty>,
    n: nat,
    vs: Seq<Val>,
    w: Seq<char>,
    env: Map<Seq<char>, Val>,
    types: Seq<Decl>,
    depth: nat,
)
    requires
        n <= fs.len() == vs.len(),
        forall|j: int|
            0 <= j < fs.len() ==> kept(own, (#[trigger] fs[j]).field_dtype(), types, depth),
        fields_have_types(vs, fs, n, types, depth),
        forall|i: int|
            0 <= i < vs.len() ==> env.contains_key(#[trigger] field_name(i as nat))
                && env[field_name(i as nat)] == vs[i],
        env.contains_key(w),
        env[w] is Writer,
        is_free(w),
    ensures
        puts(
            put_fields(own, fs, n, w, types, depth),
            env,
            fields_wire(vs, fs, n, types, depth),
        ),
    decreases 4 * depth + 1, fs, n,
{
    if n == 0 {
        lemma_no_puts(env);
    } else {
        let i = (n - 1) as nat;
        let x = field_ex(own, fs[n - 1], i);
        let t = fs[n - 1].field_dtype();
        assert(env.contains_key(field_name((n - 1) as nat)));
        lemma_field_value(own, fs[n - 1], vs[n - 1], i, env, types, depth);
        lemma_put_fields(own, fs, i, vs, w, env, types, depth);
        lemma_put(own, t, x, vs[n - 1], w, env, types, depth);
        lemma_puts_join(
            put_fields(own, fs, i, w, types, depth),
            fields_wire(vs, fs, i, types, depth),
            put_prog(own, t, x, w, types, depth),
            wire(vs[n - 1], t, types, depth),
            env,
        );
    }
}

proof fn lemma_put_enum(
    own: bool,
    en: EnumModel,
    e: Ex,
    v: Val,
    w: Seq<char>,
    env: Map<Seq<char>, Val>,
    types: Seq<Decl>,
    depth: nat,
)
    requires
        !own || enum_kept(own, en, types, depth),
        is_variant(v, en, types, depth),
        gives(e, env, v),
        env.contains_key(w),
        env[w] is Writer,
        is_free(w),
    ensures
        puts(
            seq![
                St::Match(
                    e,
                    put_arms(own, en.name, en.variants, en.variants.len(), w, types, depth),
                ),
            ],
            env,
            variant_wire(v, en, types, depth),
        ),
    decreases 4 * depth + 2, en.variants, 0nat,
{
    let name = v->Variant_1;
    let vs = v->Variant_2;
    let k = variant_from(en.variants, name, 0);
    let fs = en.variants[k as int].fields;
    let inside = fields_env(env, vs, vs.len());
    let m0 = Machine { env, ins: Seq::empty(), outs: Seq::empty() };
    lemma_fields_env(m0, vs, vs.len(), w);
    assert forall|j: int| 0 <= j < fs.len() implies kept(
        own,
        (#[trigger] fs[j]).field_dtype(),
        types,
        depth,
    ) by {
        assert(en.variants[k as int].fields[j] == fs[j]);
    }
    lemma_num(w, k, inside);
    let body = put_arm(own, en.name, en.variants[k as int], k, w, types, depth).body;
    let slots = variant_wire(v, en, types, depth);
    let rest = fields_wire(vs, fs, fs.len(), types, depth);
    if fs.len() == 0 {
        assert(rest =~= Seq::empty());
        assert(slots =~= seq![k as u64]);
    } else {
        let f = put_fields(own, fs, fs.len(), w, types, depth);
        let none = Seq::<u64>::empty();
        lemma_put_fields(own, fs, fs.len(), vs, w, inside, types, depth);
        lemma_blank(inside);
        lemma_puts_join(blank(), none, f, rest, inside);
        lemma_puts_join(put_num(w, k), seq![k as u64], blank() + f, none + rest, inside);
        assert(seq![k as u64] + (none + rest) =~= slots);
    }
    assert(puts(body, inside, slots));
    let arms = put_arms(own, en.name, en.variants, en.variants.len(), w, types, depth);
    let s = St::Match(e, arms);
    assert forall|m: Machine| m.env == env implies #[trigger] run(seq![s], seq![s].len(), m)
        == Some(Machine { outs: m.outs + slots, ..m }) by {
        lemma_one_step(s, m);
        assert(eval(e, m) == Some((v, m)));
        lemma_choose(own, en.name, en.variants, w, types, depth, 0, name, vs, m);
        lemma_fields_env(m, vs, vs.len(), w);
        let m1 = bind_fields(m, vs, vs.len());
        assert(m1.env == inside);
        assert(run(body, body.len(), m1) == Some(Machine { outs: m1.outs + slots, ..m1 }));
        assert(step(s, m) == Some(Machine { outs: m.outs + slots, ..m }));
    }
}

// ---------------------------------------------------------------------------
// The expression that reads
// ---------------------------------------------------------------------------

/// The expression that reads one slot.
pub open spec fn next_slot(r: Seq<char>) -> Ex {
    call_ex(Ex::Name(r), Meth::ReadU64)
}

/// The expression of [`read_code`].
pub open spec fn get_prog(own: bool, ft: Ty, r: Seq<char>, types: Seq<Decl>, depth: nat) -> Ex
    decreases 4 * depth, ft, 0nat,
{
    match ft {
        Ty::Unit => Ex::Tuple(Seq::empty()),
        Ty::Bool => bool_ex(r),
        Ty::U8 => u8_ex(r),
        Ty::U16 => u16_ex(r),
        Ty::U32 => u32_ex(r),
        Ty::U64 => u64_ex(r),
        Ty::I8 => i8_ex(r),
        Ty::I16 => i16_ex(r),
        Ty::I32 => i32_ex(r),
        Ty::I64 => i64_ex(r),
        Ty::F32 => f32_ex(r),
        Ty::F64 => f64_ex(r),
        Ty::Str => str_ex(r),
        Ty::U8Slice => bytes_ex(r),
        Ty::String => string_ex(r),
        Ty::Vec(t) => vec_ex(r, t.rust_type()),
        Ty::OutU8Vec => out_ex(r),
        Ty::RefMut(t) => refmut_ex(r, t.rust_type()),
        Ty::DStr => dstr_ex(r),
        Ty::DSlice(t) => dslice_ex(r, t.rust_type()),
        Ty::DString => if own {
            own_dstring_ex(r)
        } else {
            dstring_ex(r)
        },
        Ty::DVec(t) => if own {
            own_dvec_ex(r, t.rust_type())
        } else {
            dvec_ex(r, t.rust_type())
        },
        Ty::Option(t) => option_ex(r, get_prog(own, *t, r, types, depth)),
        Ty::DOption(t) => doption_ex(r, t.rust_type(), get_prog(own, *t, r, types, depth)),
        Ty::Ref(t) => match *t {
            Ty::DString => dstr_ex(r),
            Ty::DVec(x) => dslice_ex(r, x.rust_type()),
            other => get_prog(own, other, r, types, depth),
        },
        Ty::Tuple(ts) => Ex::Tuple(get_list(own, ts, ts.len(), r, types, depth)),
        Ty::Array(t, n) => if *t is U8 && n % 8 == 0 {
            Ex::Block(
                false,
                seq![St::Let(true, "__arr"@, Ex::Zeros(n))] + (blank() + (get_words(n / 8, r)
                    + blank())),
                Box::new(Ex::Name("__arr"@)),
            )
        } else {
            Ex::List(get_items(own, *t, n, r, types, depth))
        },
        Ty::Named(name) => match lookup(types, name) {
            None => Ex::Name(Seq::empty()),
            Some(Decl::Struct(s)) => if s.fields.len() == 0 {
                empty_ex(r, name)
            } else {
                struct_ex(r, name)
            },
            Some(Decl::Opaque(_)) => struct_ex(r, name),
            Some(Decl::Enum(en)) => if depth == 0 {
                Ex::Name(Seq::empty())
            } else {
                Ex::Match(
                    Box::new(next_slot(r)),
                    get_arms(
                        own,
                        en.name,
                        en.variants,
                        en.variants.len(),
                        r,
                        types,
                        (depth - 1) as nat,
                    ),
                    en.name,
                )
            },
        },
    }
}

pub open spec fn get_list(
    own: bool,
    ts: Seq<Ty>,
    n: nat,
    r: Seq<char>,
    types: Seq<Decl>,
    depth: nat,
) -> Seq<Ex>
    decreases 4 * depth, ts, n,
{
    if n == 0 || n > ts.len() {
        Seq::empty()
    } else {
        get_list(own, ts, (n - 1) as nat, r, types, depth).push(
            get_prog(own, ts[n - 1], r, types, depth),
        )
    }
}

pub open spec fn get_items(
    own: bool,
    t: Ty,
    n: nat,
    r: Seq<char>,
    types: Seq<Decl>,
    depth: nat,
) -> Seq<Ex>
    decreases 4 * depth, t, 1 + n,
{
    if n == 0 {
        Seq::empty()
    } else {
        get_items(own, t, (n - 1) as nat, r, types, depth).push(
            get_prog(own, t, r, types, depth),
        )
    }
}

pub open spec fn get_fields(
    own: bool,
    fs: Seq<Ty>,
    n: nat,
    r: Seq<char>,
    types: Seq<Decl>,
    depth: nat,
) -> Seq<Ex>
    decreases 4 * depth + 1, fs, n,
{
    if n == 0 || n > fs.len() {
        Seq::empty()
    } else {
        get_fields(own, fs, (n - 1) as nat, r, types, depth).push(
            get_prog(own, fs[n - 1].field_dtype(), r, types, depth),
        )
    }
}

pub open spec fn get_arms(
    own: bool,
    n: Seq<char>,
    vs: Seq<VariantModel>,
    k: nat,
    r: Seq<char>,
    types: Seq<Decl>,
    depth: nat,
) -> Seq<Ex>
    decreases 4 * depth + 2, vs, k,
{
    if k == 0 || k > vs.len() {
        Seq::empty()
    } else {
        let v = vs[k - 1];
        get_arms(own, n, vs, (k - 1) as nat, r, types, depth).push(
            Ex::Variant(
                n,
                v.name,
                get_fields(own, v.fields, v.fields.len(), r, types, depth),
            ),
        )
    }
}

/// The statement that fills the eight bytes from `start` on.
pub open spec fn get_word(start: nat, r: Seq<char>) -> St {
    St::Copy(
        "__arr"@,
        start,
        start + 8,
        Ex::Ref(Box::new(call_ex(next_slot(r), Meth::ToLeBytes))),
    )
}

pub open spec fn get_words(n: nat, r: Seq<char>) -> Seq<St>
    decreases n,
{
    if n == 0 {
        Seq::empty()
    } else {
        get_words((n - 1) as nat, r).push(get_word(((n - 1) * 8) as nat, r))
    }
}

// ---------------------------------------------------------------------------
// Its text
// ---------------------------------------------------------------------------

proof fn lemma_texts_head(a: Seq<Ex>, x: Ex, n: nat)
    requires
        n <= a.len(),
    ensures
        texts(a.push(x), n) == texts(a, n),
        items(a.push(x), n) == items(a, n),
        choices(a.push(x), n) == choices(a, n),
    decreases n,
{
    if n > 0 {
        lemma_texts_head(a, x, (n - 1) as nat);
        assert(a.push(x)[n - 1] == a[n - 1]);
    }
}

proof fn lemma_get_text(own: bool, ft: Ty, r: Seq<char>, types: Seq<Decl>, depth: nat)
    requires
        kept(own, ft, types, depth),
        no_single(ft, types, depth),
    ensures
        text(get_prog(own, ft, r, types, depth)) == read_code(own, ft, r, types, depth),
    decreases 4 * depth, ft, 0nat,
{
    match ft {
        Ty::Unit => {
            assert(texts(Seq::empty(), 0) == Seq::<char>::empty());
            assert("("@ + Seq::<char>::empty() + ")"@ =~= "()"@) by {
                reveal_strlit("(");
                reveal_strlit(")");
                reveal_strlit("()");
            }
        },
        Ty::Bool => lemma_g_bool(r),
        Ty::U8 => lemma_g_u8(r),
        Ty::U16 => lemma_g_u16(r),
        Ty::U32 => lemma_g_u32(r),
        Ty::U64 => lemma_g_u64(r),
        Ty::I8 => lemma_g_i8(r),
        Ty::I16 => lemma_g_i16(r),
        Ty::I32 => lemma_g_i32(r),
        Ty::I64 => lemma_g_i64(r),
        Ty::F32 => lemma_g_f32(r),
        Ty::F64 => lemma_g_f64(r),
        Ty::Str => lemma_g_str(r),
        Ty::U8Slice => lemma_g_bytes(r),
        Ty::String => lemma_g_string(r),
        Ty::Vec(t) => lemma_g_vec(r, t.rust_type()),
        Ty::OutU8Vec => lemma_g_out(r),
        Ty::RefMut(t) => lemma_g_refmut(r, t.rust_type()),
        Ty::DStr => lemma_g_dstr(r),
        Ty::DSlice(t) => lemma_g_dslice(r, t.rust_type()),
        Ty::DString => {
            lemma_g_own_dstring(r);
            lemma_g_dstring(r);
        },
        Ty::DVec(t) => {
            lemma_g_own_dvec(r, t.rust_type());
            lemma_g_dvec(r, t.rust_type());
        },
        Ty::Option(t) => {
            lemma_get_text(own, *t, r, types, depth);
            lemma_g_option(r, get_prog(own, *t, r, types, depth));
        },
        Ty::DOption(t) => {
            lemma_get_text(own, *t, r, types, depth);
            lemma_g_doption(r, t.rust_type(), get_prog(own, *t, r, types, depth));
        },
        Ty::Ref(t) => match *t {
            Ty::DString => lemma_g_dstr(r),
            Ty::DVec(x) => lemma_g_dslice(r, x.rust_type()),
            other => lemma_get_text(own, other, r, types, depth),
        },
        Ty::Tuple(ts) => {
            lemma_list_text(own, ts, ts.len(), r, types, depth);
        },
        Ty::Array(t, n) => {
            if *t is U8 && n % 8 == 0 {
                lemma_get_words_text(n, r);
            } else {
                lemma_items_text(own, *t, n, r, types, depth);
            }
        },
        Ty::Named(name) => match lookup(types, name) {
            None => {},
            Some(Decl::Struct(s)) => {
                lemma_g_empty(r, name);
                lemma_g_struct(r, name);
            },
            Some(Decl::Opaque(_)) => lemma_g_struct(r, name),
            Some(Decl::Enum(en)) => {
                if depth > 0 {
                    let d = (depth - 1) as nat;
                    let k = en.variants.len();
                    lemma_get_arms_text(own, en, k, r, types, d);
                    let arms = get_arms(own, en.name, en.variants, k, r, types, d);
                    assert(text(Ex::Name(r)) == r);
                    assert(text(next_slot(r)) == r + ".read_u64()"@);
                    lemma_cat_match(r, choices(arms, k), en.name);
                    assert(enum_read_code(own, en, r, types, d) == "match "@ + r
                        + ".read_u64() { "@ + choices(arms, k)
                        + " _ => panic!(\"invalid discriminant for "@ + en.name + "\") }"@);
                }
            },
        },
    }
}

/// Whether no tuple has one element only: one type in parentheses is no tuple.
pub open spec fn no_single(ft: Ty, types: Seq<Decl>, depth: nat) -> bool
    decreases 4 * depth, ft, 0nat,
{
    match ft {
        Ty::Option(t) => no_single(*t, types, depth),
        Ty::DOption(t) => no_single(*t, types, depth),
        Ty::Ref(t) => match *t {
            Ty::DString => true,
            Ty::DVec(_) => true,
            other => no_single(other, types, depth),
        },
        Ty::Tuple(ts) => ts.len() != 1 && none_single(ts, ts.len(), types, depth),
        Ty::Array(t, _) => no_single(*t, types, depth),
        Ty::Named(name) => match lookup(types, name) {
            Some(Decl::Enum(e)) => depth == 0 || enum_no_single(e, types, (depth - 1) as nat),
            _ => true,
        },
        _ => true,
    }
}

pub open spec fn none_single(ts: Seq<Ty>, n: nat, types: Seq<Decl>, depth: nat) -> bool
    decreases 4 * depth, ts, n,
{
    n == 0 || n > ts.len() || (no_single(ts[n - 1], types, depth) && none_single(
        ts,
        (n - 1) as nat,
        types,
        depth,
    ))
}

pub open spec fn enum_no_single(e: EnumModel, types: Seq<Decl>, depth: nat) -> bool
    decreases 4 * depth + 1, e, 0nat,
{
    forall|i: int, j: int|
        0 <= i < e.variants.len() && 0 <= j < e.variants[i].fields.len() ==> no_single(
            (#[trigger] e.variants[i].fields[j]).field_dtype(),
            types,
            depth,
        )
}

proof fn lemma_list_text(
    own: bool,
    ts: Seq<Ty>,
    n: nat,
    r: Seq<char>,
    types: Seq<Decl>,
    depth: nat,
)
    requires
        n <= ts.len(),
        !own || all_kept(own, ts, n, types, depth),
        none_single(ts, n, types, depth),
    ensures
        get_list(own, ts, n, r, types, depth).len() == n,
        texts(get_list(own, ts, n, r, types, depth), n) == tuple_read_code(
            own,
            ts,
            n,
            r,
            types,
            depth,
        ),
    decreases 4 * depth, ts, n,
{
    if n > 0 {
        let before = get_list(own, ts, (n - 1) as nat, r, types, depth);
        let x = get_prog(own, ts[n - 1], r, types, depth);
        lemma_list_text(own, ts, (n - 1) as nat, r, types, depth);
        lemma_get_text(own, ts[n - 1], r, types, depth);
        lemma_texts_head(before, x, (n - 1) as nat);
        assert(before.push(x)[n - 1] == x);
    }
}

proof fn lemma_items_text(own: bool, t: Ty, n: nat, r: Seq<char>, types: Seq<Decl>, depth: nat)
    requires
        kept(own, t, types, depth),
        no_single(t, types, depth),
    ensures
        get_items(own, t, n, r, types, depth).len() == n,
        items(get_items(own, t, n, r, types, depth), n) == array_read_code(
            own,
            t,
            n,
            r,
            types,
            depth,
        ),
    decreases 4 * depth, t, 1 + n,
{
    if n > 0 {
        let before = get_items(own, t, (n - 1) as nat, r, types, depth);
        let x = get_prog(own, t, r, types, depth);
        lemma_items_text(own, t, (n - 1) as nat, r, types, depth);
        lemma_get_text(own, t, r, types, depth);
        lemma_texts_head(before, x, (n - 1) as nat);
        assert(before.push(x)[n - 1] == x);
    }
}

proof fn lemma_get_fields_text(
    own: bool,
    fs: Seq<Ty>,
    n: nat,
    r: Seq<char>,
    types: Seq<Decl>,
    depth: nat,
)
    requires
        n <= fs.len(),
        forall|j: int|
            0 <= j < fs.len() ==> kept(own, (#[trigger] fs[j]).field_dtype(), types, depth)
                && no_single(fs[j].field_dtype(), types, depth),
    ensures
        get_fields(own, fs, n, r, types, depth).len() == n,
        texts(get_fields(own, fs, n, r, types, depth), n) == fields_read_code(
            own,
            fs,
            n,
            r,
            types,
            depth,
        ),
    decreases 4 * depth + 1, fs, n,
{
    if n > 0 {
        let before = get_fields(own, fs, (n - 1) as nat, r, types, depth);
        let t = fs[n - 1].field_dtype();
        let x = get_prog(own, t, r, types, depth);
        lemma_get_fields_text(own, fs, (n - 1) as nat, r, types, depth);
        lemma_get_text(own, t, r, types, depth);
        lemma_texts_head(before, x, (n - 1) as nat);
        assert(before.push(x)[n - 1] == x);
    }
}

proof fn lemma_get_arms_text(
    own: bool,
    en: EnumModel,
    k: nat,
    r: Seq<char>,
    types: Seq<Decl>,
    depth: nat,
)
    requires
        k <= en.variants.len(),
        !own || enum_kept(own, en, types, depth),
        enum_no_single(en, types, depth),
    ensures
        get_arms(own, en.name, en.variants, k, r, types, depth).len() == k,
        choices(get_arms(own, en.name, en.variants, k, r, types, depth), k) == arms_read_code(
            own,
            en.name,
            en.variants,
            k,
            r,
            types,
            depth,
        ),
    decreases 4 * depth + 2, en.variants, k,
{
    if k > 0 {
        let v = en.variants[k - 1];
        let fs = v.fields;
        let before = get_arms(own, en.name, en.variants, (k - 1) as nat, r, types, depth);
        let es = get_fields(own, fs, fs.len(), r, types, depth);
        let x = Ex::Variant(en.name, v.name, es);
        lemma_get_arms_text(own, en, (k - 1) as nat, r, types, depth);
        assert forall|j: int| 0 <= j < fs.len() implies kept(
            own,
            (#[trigger] fs[j]).field_dtype(),
            types,
            depth,
        ) && no_single(fs[j].field_dtype(), types, depth) by {
            assert(en.variants[k - 1].fields[j] == fs[j]);
        }
        lemma_get_fields_text(own, fs, fs.len(), r, types, depth);
        lemma_texts_head(before, x, (k - 1) as nat);
        assert(before.push(x)[k - 1] == x);
        let di = dec((k - 1) as nat);
        if fs.len() == 0 {
            assert(text(x) == en.name + "::"@ + v.name);
            lemma_cat_read_unit(di, en.name, v.name);
        } else {
            let t = texts(es, es.len());
            assert(text(x) == en.name + "::"@ + v.name + "("@ + t + ")"@);
            lemma_cat_read_fields(di, en.name, v.name, t);
        }
        assert(choices(before.push(x), k) == choices(before.push(x), (k - 1) as nat) + (di
            + " => "@ + text(x) + ", "@));
    }
}

proof fn lemma_word_texts(n: nat, r: Seq<char>)
    ensures
        lines(get_words(n, r), get_words(n, r).len()) == bytes_read_code(n, r),
    decreases n,
{
    if n > 0 {
        let start = ((n - 1) * 8) as nat;
        let s = get_word(start, r);
        let before = get_words((n - 1) as nat, r);
        lemma_word_texts((n - 1) as nat, r);
        assert(before.push(s) =~= before + seq![s]);
        lemma_lines_join(before, seq![s]);
        lemma_one_line(s);
        let a = next_slot(r);
        let b = call_ex(a, Meth::ToLeBytes);
        assert(text(Ex::Name(r)) == r);
        assert(text(a) == r + ".read_u64()"@);
        assert(text(b) == text(a) + ".to_le_bytes()"@);
        assert(text(Ex::Ref(Box::new(b))) == "&"@ + text(b));
        lemma_cat_chunk(r, dec(start), dec(start + 8));
    }
}

proof fn lemma_get_words_text(n: nat, r: Seq<char>)
    ensures
        ({
            let len = n;
            let chunks = bytes_read_code(n / 8, r);
            text(
                Ex::Block(
                    false,
                    seq![St::Let(true, "__arr"@, Ex::Zeros(n))] + (blank() + (get_words(n / 8, r)
                        + blank())),
                    Box::new(Ex::Name("__arr"@)),
                ),
            ) == "{ let mut __arr = [0u8; "@ + dec(len as nat) + "]; "@ + chunks + " __arr }"@
        }),
{
    let l = St::Let(true, "__arr"@, Ex::Zeros(n));
    let ws = get_words(n / 8, r);
    let ss = seq![l] + (blank() + (ws + blank()));
    lemma_word_texts(n / 8, r);
    lemma_one_line(l);
    lemma_one_line(St::Blank(" "@));
    lemma_lines_join(ws, blank());
    lemma_lines_join(blank(), ws + blank());
    lemma_lines_join(seq![l], blank() + (ws + blank()));
    assert(blank().len() == 1);
    assert(seq![l].len() == 1);
    assert(text(Ex::Zeros(n)) == "[0u8; "@ + dec(n) + "]"@);
    assert(text(Ex::Name("__arr"@)) == "__arr"@);
    assert(text(Ex::Block(false, ss, Box::new(Ex::Name("__arr"@)))) == "{ "@ + lines(ss, ss.len())
        + "__arr"@ + " }"@);
    lemma_cat_bytes(dec(n), bytes_read_code(n / 8, r));
}

// ---------------------------------------------------------------------------
// What it comes to
// ---------------------------------------------------------------------------

/// The value of a slot.
pub open spec fn word_value(s: u64) -> Val {
    Val::Int(false, 64, s as int)
}

proof fn lemma_next(r: Seq<char>, s: u64, env: Map<Seq<char>, Val>)
    requires
        env.contains_key(r),
        env[r] is Reader,
    ensures
        takes(next_slot(r), env, seq![s], word_value(s)),
{
    let slots = seq![s];
    assert forall|m: Machine| m.env == env && slots.is_prefix_of(m.ins) implies #[trigger] eval(
        next_slot(r),
        m,
    ) == Some((word_value(s), Machine { ins: m.ins.skip(slots.len() as int), ..m })) by {
        assert(eval(Ex::Name(r), m) == Some((env[r], m)));
        assert(slots[0] == s);
        assert(m.ins.subrange(0, 1)[0] == m.ins[0]);
    }
}

/// Whether statements take these slots and end with these names.
pub open spec fn binds(
    ss: Seq<St>,
    env: Map<Seq<char>, Val>,
    slots: Seq<u64>,
    after: Map<Seq<char>, Val>,
) -> bool {
    forall|m: Machine|
        m.env == env && slots.is_prefix_of(m.ins) ==> #[trigger] run(ss, ss.len(), m) == Some(
            Machine { env: after, ins: m.ins.skip(slots.len() as int), ..m },
        )
}

proof fn lemma_binds_none(env: Map<Seq<char>, Val>)
    ensures
        binds(Seq::empty(), env, Seq::empty(), env),
{
    assert forall|m: Machine|
        m.env == env && Seq::<u64>::empty().is_prefix_of(m.ins) implies #[trigger] run(
        Seq::empty(),
        0,
        m,
    ) == Some(Machine { env, ins: m.ins.skip(0), ..m }) by {
        assert(m.ins.skip(0) =~= m.ins);
    }
}

proof fn lemma_binds_blank(
    ss: Seq<St>,
    env: Map<Seq<char>, Val>,
    slots: Seq<u64>,
    after: Map<Seq<char>, Val>,
)
    requires
        binds(ss, env, slots, after),
    ensures
        binds(ss.push(St::Blank(" "@)), env, slots, after),
{
    let s = St::Blank(" "@);
    reveal_strlit(" ");
    assert forall|m: Machine| m.env == env && slots.is_prefix_of(m.ins) implies #[trigger] run(
        ss.push(s),
        ss.push(s).len(),
        m,
    ) == Some(Machine { env: after, ins: m.ins.skip(slots.len() as int), ..m }) by {
        lemma_run_push(ss, s, m);
        let m1 = Machine { env: after, ins: m.ins.skip(slots.len() as int), ..m };
        assert(run(ss, ss.len(), m) == Some(m1));
        assert(step(s, m1) == Some(m1));
    }
}

proof fn lemma_run_push(ss: Seq<St>, s: St, m: Machine)
    ensures
        run(ss.push(s), ss.push(s).len(), m) == match run(ss, ss.len(), m) {
            Some(m1) => step(s, m1),
            None => None,
        },
{
    assert(ss.push(s) =~= ss + seq![s]);
    lemma_run_join(ss, seq![s], 1, m);
    match run(ss, ss.len(), m) {
        Some(m1) => {
            lemma_one_step(s, m1);
        },
        None => {},
    }
}

proof fn lemma_binds_let(
    ss: Seq<St>,
    env: Map<Seq<char>, Val>,
    slots: Seq<u64>,
    after: Map<Seq<char>, Val>,
    mutable: bool,
    x: Seq<char>,
    e: Ex,
    more: Seq<u64>,
    v: Val,
)
    requires
        binds(ss, env, slots, after),
        takes(e, after, more, v),
    ensures
        binds(ss.push(St::Let(mutable, x, e)), env, slots + more, after.insert(x, v)),
{
    let s = St::Let(mutable, x, e);
    let all = slots + more;
    assert forall|m: Machine| m.env == env && all.is_prefix_of(m.ins) implies #[trigger] run(
        ss.push(s),
        ss.push(s).len(),
        m,
    ) == Some(
        Machine { env: after.insert(x, v), ins: m.ins.skip(all.len() as int), ..m },
    ) by {
        lemma_split(slots, more, m.ins);
        lemma_run_push(ss, s, m);
        let m1 = Machine { env: after, ins: m.ins.skip(slots.len() as int), ..m };
        assert(run(ss, ss.len(), m) == Some(m1));
        assert(eval(e, m1) == Some((v, Machine { ins: m1.ins.skip(more.len() as int), ..m1 })));
    }
}

proof fn lemma_block(
    open: bool,
    ss: Seq<St>,
    a: Ex,
    env: Map<Seq<char>, Val>,
    slots: Seq<u64>,
    after: Map<Seq<char>, Val>,
    more: Seq<u64>,
    v: Val,
)
    requires
        binds(ss, env, slots, after),
        takes(a, after, more, v),
    ensures
        takes(Ex::Block(open, ss, Box::new(a)), env, slots + more, v),
{
    let e = Ex::Block(open, ss, Box::new(a));
    let all = slots + more;
    assert forall|m: Machine| m.env == env && all.is_prefix_of(m.ins) implies #[trigger] eval(
        e,
        m,
    ) == Some((v, Machine { ins: m.ins.skip(all.len() as int), ..m })) by {
        lemma_split(slots, more, m.ins);
        let m1 = Machine { env: after, ins: m.ins.skip(slots.len() as int), ..m };
        assert(run(ss, ss.len(), m) == Some(m1));
        assert(eval(a, m1) == Some((v, Machine { ins: m1.ins.skip(more.len() as int), ..m1 })));
    }
}

proof fn lemma_plain_block(open: bool, a: Ex, env: Map<Seq<char>, Val>, slots: Seq<u64>, v: Val)
    requires
        takes(a, env, slots, v),
    ensures
        takes(Ex::Block(open, Seq::empty(), Box::new(a)), env, slots, v),
{
    lemma_binds_none(env);
    lemma_block(open, Seq::empty(), a, env, Seq::empty(), env, slots, v);
    assert(Seq::<u64>::empty() + slots =~= slots);
}

/// A choice that takes the slots of the branch that is taken.
proof fn lemma_if(c: Ex, a: Ex, b: Ex, env: Map<Seq<char>, Val>, t: bool, slots: Seq<u64>, v: Val)
    requires
        gives(c, env, Val::Bool(t)),
        takes(
            if t {
                a
            } else {
                b
            },
            env,
            slots,
            v,
        ),
    ensures
        takes(Ex::If(Box::new(c), Box::new(a), Box::new(b)), env, slots, v),
{
    let e = Ex::If(Box::new(c), Box::new(a), Box::new(b));
    assert forall|m: Machine| m.env == env && slots.is_prefix_of(m.ins) implies #[trigger] eval(
        e,
        m,
    ) == Some((v, Machine { ins: m.ins.skip(slots.len() as int), ..m })) by {
        assert(eval(c, m) == Some((Val::Bool(t), m)));
        assert(eval(
            if t {
                a
            } else {
                b
            },
            m,
        ) == Some((v, Machine { ins: m.ins.skip(slots.len() as int), ..m })));
    }
}

/// Whether the first `n` expressions come to these values and take these slots.
pub open spec fn takes_all(
    es: Seq<Ex>,
    n: nat,
    env: Map<Seq<char>, Val>,
    slots: Seq<u64>,
    vs: Seq<Val>,
) -> bool {
    forall|m: Machine|
        m.env == env && slots.is_prefix_of(m.ins) ==> #[trigger] eval_list(es, n, m) == Some(
            (vs, Machine { ins: m.ins.skip(slots.len() as int), ..m }),
        )
}

proof fn lemma_takes_none(es: Seq<Ex>, env: Map<Seq<char>, Val>)
    ensures
        takes_all(es, 0, env, Seq::empty(), Seq::empty()),
{
    assert forall|m: Machine| #![trigger eval_list(es, 0, m)] m.ins.skip(0) == m.ins by {
        assert(m.ins.skip(0) =~= m.ins);
    }
}

proof fn lemma_list_head(a: Seq<Ex>, x: Ex, n: nat, m: Machine)
    requires
        n <= a.len(),
    ensures
        eval_list(a.push(x), n, m) == eval_list(a, n, m),
    decreases n,
{
    if n > 0 {
        lemma_list_head(a, x, (n - 1) as nat, m);
        assert(a.push(x)[n - 1] == a[n - 1]);
    }
}

proof fn lemma_takes_more(
    a: Seq<Ex>,
    x: Ex,
    env: Map<Seq<char>, Val>,
    slots: Seq<u64>,
    vs: Seq<Val>,
    more: Seq<u64>,
    v: Val,
)
    requires
        takes_all(a, a.len(), env, slots, vs),
        takes(x, env, more, v),
    ensures
        takes_all(a.push(x), a.push(x).len(), env, slots + more, vs.push(v)),
{
    let es = a.push(x);
    let all = slots + more;
    assert forall|m: Machine| m.env == env && all.is_prefix_of(m.ins) implies #[trigger] eval_list(
        es,
        es.len(),
        m,
    ) == Some((vs.push(v), Machine { ins: m.ins.skip(all.len() as int), ..m })) by {
        lemma_split(slots, more, m.ins);
        lemma_list_head(a, x, a.len(), m);
        let m1 = Machine { ins: m.ins.skip(slots.len() as int), ..m };
        assert(eval_list(a, a.len(), m) == Some((vs, m1)));
        assert(es[es.len() - 1] == x);
        assert(eval(x, m1) == Some((v, Machine { ins: m1.ins.skip(more.len() as int), ..m1 })));
    }
}

/// A struct of two fields.
proof fn lemma_record2(
    rec: Rec,
    a: Ex,
    b: Ex,
    env: Map<Seq<char>, Val>,
    s: Seq<u64>,
    t: Seq<u64>,
    x: Val,
    y: Val,
)
    requires
        rec is DStr || rec is DSlice,
        takes(a, env, s, x),
        takes(b, env, t, y),
    ensures
        takes(
            Ex::Record(rec, seq![(Fld::Ptr, a), (Fld::Len, b)]),
            env,
            s + t,
            Val::View(rec, Box::new(x), Box::new(y)),
        ),
{
    let fs = seq![(Fld::Ptr, a), (Fld::Len, b)];
    let e = Ex::Record(rec, fs);
    let all = s + t;
    let v = Val::View(rec, Box::new(x), Box::new(y));
    assert forall|m: Machine| m.env == env && all.is_prefix_of(m.ins) implies #[trigger] eval(
        e,
        m,
    ) == Some((v, Machine { ins: m.ins.skip(all.len() as int), ..m })) by {
        lemma_split(s, t, m.ins);
        let m1 = Machine { ins: m.ins.skip(s.len() as int), ..m };
        let m2 = Machine { ins: m1.ins.skip(t.len() as int), ..m1 };
        assert(eval(a, m) == Some((x, m1)));
        assert(eval(b, m1) == Some((y, m2)));
        assert(eval_fields(fs, 0, m) == Some((Seq::<Val>::empty(), m)));
        assert(eval_fields(fs, 1, m) == Some((Seq::<Val>::empty().push(x), m1)));
        assert(eval_fields(fs, 2, m) == Some((Seq::<Val>::empty().push(x).push(y), m2)));
    }
}

/// A struct of four fields.
#[verifier::rlimit(50)]
proof fn lemma_record4(
    rec: Rec,
    es: Seq<Ex>,
    env: Map<Seq<char>, Val>,
    ss: Seq<Seq<u64>>,
    xs: Seq<Val>,
)
    requires
        rec is DString || rec is DVec,
        es.len() == 4 && ss.len() == 4 && xs.len() == 4,
        takes(es[0], env, ss[0], xs[0]),
        takes(es[1], env, ss[1], xs[1]),
        takes(es[2], env, ss[2], xs[2]),
        takes(es[3], env, ss[3], xs[3]),
    ensures
        takes(
            Ex::Record(
                rec,
                seq![
                    (Fld::Allocator, es[0]),
                    (Fld::Ptr, es[1]),
                    (Fld::Len, es[2]),
                    (Fld::Cap, es[3]),
                ],
            ),
            env,
            ss[0] + (ss[1] + (ss[2] + ss[3])),
            Val::Managed(
                rec,
                Box::new(xs[0]),
                Box::new(xs[1]),
                Box::new(xs[2]),
                Box::new(xs[3]),
            ),
        ),
{
    let fs = seq![
        (Fld::Allocator, es[0]),
        (Fld::Ptr, es[1]),
        (Fld::Len, es[2]),
        (Fld::Cap, es[3]),
    ];
    let e = Ex::Record(rec, fs);
    let t3 = ss[2] + ss[3];
    let t2 = ss[1] + t3;
    let all = ss[0] + t2;
    let v = Val::Managed(
        rec,
        Box::new(xs[0]),
        Box::new(xs[1]),
        Box::new(xs[2]),
        Box::new(xs[3]),
    );
    assert forall|m: Machine| m.env == env && all.is_prefix_of(m.ins) implies #[trigger] eval(
        e,
        m,
    ) == Some((v, Machine { ins: m.ins.skip(all.len() as int), ..m })) by {
        lemma_split(ss[0], t2, m.ins);
        let m1 = Machine { ins: m.ins.skip(ss[0].len() as int), ..m };
        lemma_split(ss[1], t3, m1.ins);
        let m2 = Machine { ins: m1.ins.skip(ss[1].len() as int), ..m1 };
        lemma_split(ss[2], ss[3], m2.ins);
        let m3 = Machine { ins: m2.ins.skip(ss[2].len() as int), ..m2 };
        let m4 = Machine { ins: m3.ins.skip(ss[3].len() as int), ..m3 };
        assert(eval(es[0], m) == Some((xs[0], m1)));
        assert(eval(es[1], m1) == Some((xs[1], m2)));
        assert(eval(es[2], m2) == Some((xs[2], m3)));
        assert(eval(es[3], m3) == Some((xs[3], m4)));
        let v0 = Seq::<Val>::empty();
        assert(eval_fields(fs, 0, m) == Some((v0, m)));
        assert(eval_fields(fs, 1, m) == Some((v0.push(xs[0]), m1)));
        assert(eval_fields(fs, 2, m) == Some((v0.push(xs[0]).push(xs[1]), m2)));
        assert(eval_fields(fs, 3, m) == Some((v0.push(xs[0]).push(xs[1]).push(xs[2]), m3)));
        assert(eval_fields(fs, 4, m) == Some(
            (v0.push(xs[0]).push(xs[1]).push(xs[2]).push(xs[3]), m4),
        ));
    }
}

/// A pointer and a length from two slots.
proof fn lemma_pointer(
    r: Seq<char>,
    c: Cast,
    t: Seq<char>,
    a: int,
    env: Map<Seq<char>, Val>,
)
    requires
        env.contains_key(r),
        env[r] is Reader,
        c == Cast::Const(t) || c == Cast::Mut(t),
        is_address(a),
    ensures
        takes(Ex::As(Box::new(next_slot(r)), c), env, seq![a as u64], Val::Ptr(a, t)),
{
    lemma_next(r, a as u64, env);
    lemma_on(Ex::As(Box::new(next_slot(r)), c), env, seq![a as u64], word_value(a as u64));
}

proof fn lemma_length(r: Seq<char>, n: int, env: Map<Seq<char>, Val>)
    requires
        env.contains_key(r),
        env[r] is Reader,
        is_address(n),
    ensures
        takes(
            Ex::As(Box::new(next_slot(r)), Cast::Usize),
            env,
            seq![n as u64],
            Val::Int(false, 64, n),
        ),
{
    lemma_next(r, n as u64, env);
    let e = Ex::As(Box::new(next_slot(r)), Cast::Usize);
    fitting_numbers_are_kept(n);
    lemma_on(e, env, seq![n as u64], word_value(n as u64));
}

/// A native text or slice, read as a pointer and a length.
proof fn lemma_native(
    r: Seq<char>,
    t: Seq<char>,
    v: Val,
    a: Ex,
    b: Ex,
    env: Map<Seq<char>, Val>,
    inside: Map<Seq<char>, Val>,
)
    requires
        env.contains_key(r),
        env[r] is Reader,
        is_free(r),
        is_slice(v, t),
        inside == env.insert(
            "__p"@,
            Val::Ptr(
                if v->Slice_1 == 0 {
                    1
                } else {
                    v->Slice_0
                },
                t,
            ),
        ).insert("__l"@, Val::Int(false, 64, v->Slice_1)),
        gives(a, inside, Val::Slice(0, 0, t)),
        gives(
            Ex::Apply(Fun::RawParts, seq![Ex::Name("__p"@), Ex::Name("__l"@)]),
            inside,
            v,
        ) ==> gives(b, inside, v),
    ensures
        ({
            let ss = seq![
                St::Let(
                    false,
                    "__p"@,
                    Ex::As(Box::new(Ex::Call(Box::new(Ex::Name(r)), Meth::ReadU64)), Cast::Const(t)),
                ),
                St::Blank(" "@),
                St::Let(
                    false,
                    "__l"@,
                    Ex::As(Box::new(Ex::Call(Box::new(Ex::Name(r)), Meth::ReadU64)), Cast::Usize),
                ),
                St::Blank(" "@),
            ];
            let c = Ex::Or(
                Box::new(Ex::Call(Box::new(Ex::Name("__p"@)), Meth::IsNull)),
                Box::new(Ex::Eq(Box::new(Ex::Name("__l"@)), 0)),
            );
            takes(
                Ex::Block(true, ss, Box::new(Ex::If(Box::new(c), Box::new(a), Box::new(b)))),
                env,
                slice_wire(v),
                v,
            )
        }),
{
    let p: int = if v->Slice_1 == 0 {
        1
    } else {
        v->Slice_0
    };
    let n = v->Slice_1;
    let ep = Ex::As(Box::new(next_slot(r)), Cast::Const(t));
    let el = Ex::As(Box::new(next_slot(r)), Cast::Usize);
    let none = Seq::<St>::empty();
    let b1 = none.push(St::Let(false, "__p"@, ep));
    let b2 = b1.push(St::Blank(" "@));
    let b3 = b2.push(St::Let(false, "__l"@, el));
    let ss = b3.push(St::Blank(" "@));
    let mid = env.insert("__p"@, Val::Ptr(p, t));
    lemma_pointer(r, Cast::Const(t), t, p, env);
    lemma_length(r, n, mid);
    lemma_binds_none(env);
    let nothing = Seq::<u64>::empty();
    lemma_binds_let(none, env, nothing, env, false, "__p"@, ep, seq![p as u64], Val::Ptr(p, t));
    let s1 = nothing + seq![p as u64];
    lemma_binds_blank(b1, env, s1, mid);
    lemma_binds_let(
        b2,
        env,
        s1,
        mid,
        false,
        "__l"@,
        el,
        seq![n as u64],
        Val::Int(false, 64, n),
    );
    let s2 = s1 + seq![n as u64];
    lemma_binds_blank(b3, env, s2, inside);
    reveal_strlit("__p");
    reveal_strlit("__l");
    assert("__p"@[2] != "__l"@[2]);
    let np = Ex::Name("__p"@);
    let nl = Ex::Name("__l"@);
    lemma_name("__p"@, inside);
    lemma_name("__l"@, inside);
    let cp = Ex::Call(Box::new(np), Meth::IsNull);
    let cl = Ex::Eq(Box::new(nl), 0);
    let vp = lemma_gives_on(cp, inside, Val::Ptr(p, t));
    let vl = lemma_gives_on(cl, inside, Val::Int(false, 64, n));
    let c = Ex::Or(Box::new(cp), Box::new(cl));
    assert(gives(c, inside, Val::Bool(n == 0))) by {
        assert forall|m: Machine| m.env == inside implies #[trigger] eval(c, m) == Some(
            (Val::Bool(n == 0), m),
        ) by {
            assert(eval(cp, m) == Some((vp, m)));
            assert(eval(cl, m) == Some((vl, m)));
        }
    }
    let raw = seq![np, nl];
    let er = Ex::Apply(Fun::RawParts, raw);
    assert(gives(er, inside, v)) by {
        assert forall|m: Machine| m.env == inside implies #[trigger] eval(er, m) == Some((v, m)) by {
            let x = Val::Ptr(p, t);
            let y = Val::Int(false, 64, n);
            assert(eval(np, m) == Some((x, m)));
            assert(eval(nl, m) == Some((y, m)));
            assert(eval_list(raw, 0, m) == Some((Seq::<Val>::empty(), m)));
            assert(eval_list(raw, 1, m) == Some((Seq::<Val>::empty().push(x), m)));
            assert(eval_list(raw, 2, m) == Some((Seq::<Val>::empty().push(x).push(y), m)));
        }
    }
    lemma_gives_takes(a, inside, Val::Slice(0, 0, t));
    lemma_gives_takes(b, inside, v);
    lemma_if(c, a, b, inside, n == 0, nothing, v);
    lemma_block(
        true,
        ss,
        Ex::If(Box::new(c), Box::new(a), Box::new(b)),
        env,
        s2,
        inside,
        nothing,
        v,
    );
    assert(s2 + nothing =~= slice_wire(v));
    assert(ss =~= seq![
        St::Let(false, "__p"@, ep),
        St::Blank(" "@),
        St::Let(false, "__l"@, el),
        St::Blank(" "@),
    ]);
}

/// A managed text or vector that its reader owns.
#[verifier::rlimit(50)]
proof fn lemma_owned(
    r: Seq<char>,
    rec: Rec,
    t: Seq<char>,
    f: Fun,
    v: Val,
    env: Map<Seq<char>, Val>,
)
    requires
        env.contains_key(r),
        env[r] is Reader,
        is_free(r),
        is_managed(v, rec, t),
        rec is DString || rec is DVec,
        apply(f, seq![v]) == Some(v),
    ensures
        ({
            let rd = Ex::Call(Box::new(Ex::Name(r)), Meth::ReadU64);
            let ss = seq![
                St::Let(
                    false,
                    "__alloc"@,
                    Ex::As(
                        Box::new(rd),
                        Cast::Mut("dynspire::managed::DynSpireAllocator"@),
                    ),
                ),
                St::Blank(" "@),
                St::Let(false, "__ptr"@, Ex::As(Box::new(rd), Cast::Mut(t))),
                St::Blank(" "@),
                St::Let(false, "__len"@, Ex::As(Box::new(rd), Cast::Usize)),
                St::Blank(" "@),
                St::Let(false, "__cap"@, Ex::As(Box::new(rd), Cast::Usize)),
                St::Blank(" "@),
            ];
            takes(
                Ex::Block(
                    false,
                    ss,
                    Box::new(
                        Ex::Apply(
                            f,
                            seq![
                                Ex::Record(
                                    rec,
                                    seq![
                                        (Fld::Allocator, Ex::Name("__alloc"@)),
                                        (Fld::Ptr, Ex::Name("__ptr"@)),
                                        (Fld::Len, Ex::Name("__len"@)),
                                        (Fld::Cap, Ex::Name("__cap"@)),
                                    ],
                                ),
                            ],
                        ),
                    ),
                ),
                env,
                managed_wire(v),
                v,
            )
        }),
{
    let xs = seq![*v->Managed_1, *v->Managed_2, *v->Managed_3, *v->Managed_4];
    let rd = next_slot(r);
    let alloc = "dynspire::managed::DynSpireAllocator"@;
    let es = seq![
        Ex::As(Box::new(rd), Cast::Mut(alloc)),
        Ex::As(Box::new(rd), Cast::Mut(t)),
        Ex::As(Box::new(rd), Cast::Usize),
        Ex::As(Box::new(rd), Cast::Usize),
    ];
    let none = Seq::<St>::empty();
    let sp = St::Blank(" "@);
    let l1 = St::Let(false, "__alloc"@, es[0]);
    let l2 = St::Let(false, "__ptr"@, es[1]);
    let l3 = St::Let(false, "__len"@, es[2]);
    let l4 = St::Let(false, "__cap"@, es[3]);
    let b1 = none.push(l1);
    let b2 = b1.push(sp).push(l2);
    let b3 = b2.push(sp).push(l3);
    let b4 = b3.push(sp).push(l4);
    let ss = b4.push(sp);
    let n1 = env.insert("__alloc"@, xs[0]);
    let n2 = n1.insert("__ptr"@, xs[1]);
    let n3 = n2.insert("__len"@, xs[2]);
    let n4 = n3.insert("__cap"@, xs[3]);
    let nothing = Seq::<u64>::empty();
    let w1 = nothing + seq![slot(xs[0])];
    let w2 = w1 + seq![slot(xs[1])];
    let w3 = w2 + seq![slot(xs[2])];
    let w4 = w3 + seq![slot(xs[3])];
    fitting_numbers_are_kept(xs[2]->Int_2);
    fitting_numbers_are_kept(xs[3]->Int_2);
    lemma_binds_none(env);
    lemma_pointer(r, Cast::Mut(alloc), alloc, xs[0]->Ptr_0, env);
    lemma_binds_let(none, env, nothing, env, false, "__alloc"@, es[0], seq![slot(xs[0])], xs[0]);
    lemma_binds_blank(b1, env, w1, n1);
    lemma_pointer(r, Cast::Mut(t), t, xs[1]->Ptr_0, n1);
    lemma_binds_let(b1.push(sp), env, w1, n1, false, "__ptr"@, es[1], seq![slot(xs[1])], xs[1]);
    lemma_binds_blank(b2, env, w2, n2);
    lemma_length(r, xs[2]->Int_2, n2);
    lemma_binds_let(b2.push(sp), env, w2, n2, false, "__len"@, es[2], seq![slot(xs[2])], xs[2]);
    lemma_binds_blank(b3, env, w3, n3);
    lemma_length(r, xs[3]->Int_2, n3);
    lemma_binds_let(b3.push(sp), env, w3, n3, false, "__cap"@, es[3], seq![slot(xs[3])], xs[3]);
    lemma_binds_blank(b4, env, w4, n4);
    let ns = seq![
        Ex::Name("__alloc"@),
        Ex::Name("__ptr"@),
        Ex::Name("__len"@),
        Ex::Name("__cap"@),
    ];
    lemma_owned_names();
    lemma_name("__alloc"@, n4);
    lemma_name("__ptr"@, n4);
    lemma_name("__len"@, n4);
    lemma_name("__cap"@, n4);
    lemma_gives_takes(ns[0], n4, xs[0]);
    lemma_gives_takes(ns[1], n4, xs[1]);
    lemma_gives_takes(ns[2], n4, xs[2]);
    lemma_gives_takes(ns[3], n4, xs[3]);
    lemma_record4(rec, ns, n4, seq![nothing, nothing, nothing, nothing], xs);
    assert(nothing + (nothing + (nothing + nothing)) =~= nothing);
    let record = Ex::Record(
        rec,
        seq![(Fld::Allocator, ns[0]), (Fld::Ptr, ns[1]), (Fld::Len, ns[2]), (Fld::Cap, ns[3])],
    );
    lemma_apply(f, record, n4, nothing, v);
    lemma_block(false, ss, Ex::Apply(f, seq![record]), env, w4, n4, nothing, v);
    assert(w4 + nothing =~= managed_wire(v));
    assert(ss =~= seq![l1, sp, l2, sp, l3, sp, l4, sp]);
}

proof fn lemma_owned_names()
    ensures
        "__alloc"@ != "__ptr"@,
        "__alloc"@ != "__len"@,
        "__alloc"@ != "__cap"@,
        "__ptr"@ != "__len"@,
        "__ptr"@ != "__cap"@,
        "__len"@ != "__cap"@,
{
    reveal_strlit("__alloc");
    reveal_strlit("__ptr");
    reveal_strlit("__len");
    reveal_strlit("__cap");
    assert("__ptr"@[2] == 'p');
    assert("__len"@[2] == 'l');
    assert("__cap"@[2] == 'c');
    assert("__alloc"@.len() == 7);
}

/// A managed text or vector that is borrowed.
proof fn lemma_borrowed(r: Seq<char>, rec: Rec, t: Seq<char>, v: Val, env: Map<Seq<char>, Val>)
    requires
        env.contains_key(r),
        env[r] is Reader,
        is_managed(v, rec, t),
        rec is DString || rec is DVec,
    ensures
        ({
            let rd = Ex::Call(Box::new(Ex::Name(r)), Meth::ReadU64);
            takes(
                Ex::Record(
                    rec,
                    seq![
                        (
                            Fld::Allocator,
                            Ex::As(
                                Box::new(rd),
                                Cast::Mut("dynspire::managed::DynSpireAllocator"@),
                            ),
                        ),
                        (Fld::Ptr, Ex::As(Box::new(rd), Cast::Mut(t))),
                        (Fld::Len, Ex::As(Box::new(rd), Cast::Usize)),
                        (Fld::Cap, Ex::As(Box::new(rd), Cast::Usize)),
                    ],
                ),
                env,
                managed_wire(v),
                v,
            )
        }),
{
    let xs = seq![*v->Managed_1, *v->Managed_2, *v->Managed_3, *v->Managed_4];
    let rd = next_slot(r);
    let alloc = "dynspire::managed::DynSpireAllocator"@;
    let es = seq![
        Ex::As(Box::new(rd), Cast::Mut(alloc)),
        Ex::As(Box::new(rd), Cast::Mut(t)),
        Ex::As(Box::new(rd), Cast::Usize),
        Ex::As(Box::new(rd), Cast::Usize),
    ];
    fitting_numbers_are_kept(xs[2]->Int_2);
    fitting_numbers_are_kept(xs[3]->Int_2);
    lemma_pointer(r, Cast::Mut(alloc), alloc, xs[0]->Ptr_0, env);
    lemma_pointer(r, Cast::Mut(t), t, xs[1]->Ptr_0, env);
    lemma_length(r, xs[2]->Int_2, env);
    lemma_length(r, xs[3]->Int_2, env);
    let ss = seq![
        seq![slot(xs[0])],
        seq![slot(xs[1])],
        seq![slot(xs[2])],
        seq![slot(xs[3])],
    ];
    lemma_record4(rec, es, env, ss, xs);
    assert(ss[0] + (ss[1] + (ss[2] + ss[3])) =~= managed_wire(v));
}

proof fn lemma_view(r: Seq<char>, rec: Rec, t: Seq<char>, v: Val, env: Map<Seq<char>, Val>)
    requires
        env.contains_key(r),
        env[r] is Reader,
        is_view(v, rec, t),
        rec is DStr || rec is DSlice,
    ensures
        ({
            let rd = Ex::Call(Box::new(Ex::Name(r)), Meth::ReadU64);
            takes(
                Ex::Record(
                    rec,
                    seq![
                        (Fld::Ptr, Ex::As(Box::new(rd), Cast::Const(t))),
                        (Fld::Len, Ex::As(Box::new(rd), Cast::Usize)),
                    ],
                ),
                env,
                view_wire(v),
                v,
            )
        }),
{
    let x = *v->View_1;
    let y = *v->View_2;
    let rd = next_slot(r);
    fitting_numbers_are_kept(y->Int_2);
    lemma_pointer(r, Cast::Const(t), t, x->Ptr_0, env);
    lemma_length(r, y->Int_2, env);
    lemma_record2(
        rec,
        Ex::As(Box::new(rd), Cast::Const(t)),
        Ex::As(Box::new(rd), Cast::Usize),
        env,
        seq![slot(x)],
        seq![slot(y)],
        x,
        y,
    );
    assert(seq![slot(x)] + seq![slot(y)] =~= view_wire(v));
}

/// A tag, and what it announces.
proof fn lemma_tagged(
    r: Seq<char>,
    tag: u64,
    a: Ex,
    b: Ex,
    env: Map<Seq<char>, Val>,
    slots: Seq<u64>,
    v: Val,
)
    requires
        env.contains_key(r),
        env[r] is Reader,
        takes(
            if tag == 0 {
                a
            } else {
                b
            },
            env.insert("__tag"@, word_value(tag)),
            slots,
            v,
        ),
    ensures
        takes(
            Ex::Block(
                false,
                seq![
                    St::Let(false, "__tag"@, Ex::Call(Box::new(Ex::Name(r)), Meth::ReadU64)),
                    St::Blank(" "@),
                ],
                Box::new(
                    Ex::If(
                        Box::new(Ex::Eq(Box::new(Ex::Name("__tag"@)), 0)),
                        Box::new(a),
                        Box::new(b),
                    ),
                ),
            ),
            env,
            seq![tag] + slots,
            v,
        ),
{
    let inside = env.insert("__tag"@, word_value(tag));
    let rd = next_slot(r);
    let none = Seq::<St>::empty();
    let nothing = Seq::<u64>::empty();
    let b1 = none.push(St::Let(false, "__tag"@, rd));
    lemma_next(r, tag, env);
    lemma_binds_none(env);
    lemma_binds_let(none, env, nothing, env, false, "__tag"@, rd, seq![tag], word_value(tag));
    assert(nothing + seq![tag] =~= seq![tag]);
    lemma_binds_blank(b1, env, seq![tag], inside);
    let x = Ex::Name("__tag"@);
    lemma_name("__tag"@, inside);
    let c = Ex::Eq(Box::new(x), 0);
    let t = lemma_gives_on(c, inside, word_value(tag));
    lemma_if(c, a, b, inside, tag == 0, slots, v);
    let ss = b1.push(St::Blank(" "@));
    lemma_block(
        false,
        ss,
        Ex::If(Box::new(c), Box::new(a), Box::new(b)),
        env,
        seq![tag],
        inside,
        slots,
        v,
    );
    assert(ss =~= seq![St::Let(false, "__tag"@, rd), St::Blank(" "@)]);
}

proof fn lemma_get(
    own: bool,
    ft: Ty,
    v: Val,
    r: Seq<char>,
    env: Map<Seq<char>, Val>,
    types: Seq<Decl>,
    depth: nat,
)
    requires
        kept(own, ft, types, depth),
        has_type(v, ft, types, depth),
        env.contains_key(r),
        env[r] is Reader,
        is_free(r),
    ensures
        takes(get_prog(own, ft, r, types, depth), env, wire(v, ft, types, depth), v),
    decreases 4 * depth, ft, 0nat,
{
    let nothing = Seq::<u64>::empty();
    let rd = next_slot(r);
    match ft {
        Ty::Unit => {
            lemma_takes_none(Seq::empty(), env);
            lemma_tuple_of(Seq::empty(), env, nothing, Seq::empty());
        },
        Ty::Bool => {
            lemma_next(r, slot(v), env);
            lemma_on(bool_ex(r), env, seq![slot(v)], word_value(slot(v)));
        },
        Ty::U8 => {
            let x = Ex::As(Box::new(next_slot(r)), Cast::Int(false, 8));
            lemma_next(r, slot(v), env);
            slots_hold_integers(v->Int_2, false, 8);
            lemma_on(x, env, seq![slot(v)], word_value(slot(v)));
        },
        Ty::U16 => {
            let x = Ex::As(Box::new(next_slot(r)), Cast::Int(false, 16));
            lemma_next(r, slot(v), env);
            slots_hold_integers(v->Int_2, false, 16);
            lemma_on(x, env, seq![slot(v)], word_value(slot(v)));
        },
        Ty::U32 => {
            let x = Ex::As(Box::new(next_slot(r)), Cast::Int(false, 32));
            lemma_next(r, slot(v), env);
            slots_hold_integers(v->Int_2, false, 32);
            lemma_on(x, env, seq![slot(v)], word_value(slot(v)));
        },
        Ty::I8 => {
            let x = Ex::As(Box::new(next_slot(r)), Cast::Int(true, 8));
            lemma_next(r, slot(v), env);
            slots_hold_integers(v->Int_2, true, 8);
            lemma_on(x, env, seq![slot(v)], word_value(slot(v)));
        },
        Ty::I16 => {
            let x = Ex::As(Box::new(next_slot(r)), Cast::Int(true, 16));
            lemma_next(r, slot(v), env);
            slots_hold_integers(v->Int_2, true, 16);
            lemma_on(x, env, seq![slot(v)], word_value(slot(v)));
        },
        Ty::I32 => {
            let x = Ex::As(Box::new(next_slot(r)), Cast::Int(true, 32));
            lemma_next(r, slot(v), env);
            slots_hold_integers(v->Int_2, true, 32);
            lemma_on(x, env, seq![slot(v)], word_value(slot(v)));
        },
        Ty::I64 => {
            let x = Ex::As(Box::new(next_slot(r)), Cast::Int(true, 64));
            lemma_next(r, slot(v), env);
            slots_hold_integers(v->Int_2, true, 64);
            lemma_on(x, env, seq![slot(v)], word_value(slot(v)));
        },
        Ty::U64 => {
            lemma_next(r, slot(v), env);
            slots_hold_integers(v->Int_2, false, 64);
            assert(v->Int_2 % 0x1_0000_0000_0000_0000 == v->Int_2);
        },
        Ty::F32 => {
            let x = Ex::As(Box::new(rd), Cast::Int(false, 32));
            lemma_next(r, slot(v), env);
            assert(v->Float_1 % 0x1_0000_0000 == v->Float_1);
            lemma_on(x, env, seq![slot(v)], word_value(slot(v)));
            lemma_apply(
                Fun::F32FromBits,
                x,
                env,
                seq![slot(v)],
                Val::Int(false, 32, v->Float_1),
            );
        },
        Ty::F64 => {
            lemma_next(r, slot(v), env);
            lemma_apply(Fun::F64FromBits, rd, env, seq![slot(v)], word_value(slot(v)));
        },
        Ty::Str => {
            let inside = native_env(v, "u8"@, env);
            let raw = raw_parts();
            let b = Ex::Apply(Fun::StrUnchecked, seq![raw]);
            if gives(raw, inside, v) {
                let x = lemma_gives_apply(Fun::StrUnchecked, raw, inside, v);
            }
            lemma_native(r, "u8"@, v, Ex::EmptyText, b, env, inside);
        },
        Ty::U8Slice => {
            let inside = native_env(v, "u8"@, env);
            let a = Ex::As(Box::new(Ex::EmptySlice), Cast::Bytes);
            let x = lemma_gives_on(a, inside, Val::Slice(0, 0, "u8"@));
            lemma_native(r, "u8"@, v, a, raw_parts(), env, inside);
        },
        Ty::String => {
            let inside = native_env(v, "u8"@, env);
            let raw = raw_parts();
            let copy = Ex::Call(Box::new(raw), Meth::ToVec);
            let b = Ex::Apply(Fun::StringUnchecked, seq![copy]);
            if gives(raw, inside, v) {
                let x = lemma_gives_on(copy, inside, v);
                let y = lemma_gives_apply(Fun::StringUnchecked, copy, inside, v);
            }
            let a = Ex::Apply(Fun::StringNew, Seq::empty());
            lemma_fresh(a, inside);
            lemma_native(r, "u8"@, v, a, b, env, inside);
        },
        Ty::Vec(t) => {
            let rt = t.rust_type();
            let inside = native_env(v, rt, env);
            let raw = raw_parts();
            let copy = Ex::Call(Box::new(raw), Meth::ToVec);
            if gives(raw, inside, v) {
                let x = lemma_gives_on(copy, inside, v);
            }
            let a = Ex::Apply(Fun::VecNew(rt), Seq::empty());
            lemma_fresh(a, inside);
            lemma_native(r, rt, v, a, copy, env, inside);
        },
        Ty::OutU8Vec => lemma_out(r, "Vec<u8>"@, v, env),
        Ty::RefMut(t) => lemma_out(r, t.rust_type(), v, env),
        Ty::DStr => lemma_view(r, Rec::DStr, "u8"@, v, env),
        Ty::DSlice(t) => lemma_view(r, Rec::DSlice(t.rust_type()), t.rust_type(), v, env),
        Ty::DString => {
            if own {
                lemma_owned(r, Rec::DString, "u8"@, Fun::OwnString, v, env);
            } else {
                lemma_borrowed(r, Rec::DString, "u8"@, v, env);
            }
        },
        Ty::DVec(t) => {
            let rt = t.rust_type();
            if own {
                lemma_owned(r, Rec::DVec(rt), rt, Fun::OwnVec(rt), v, env);
            } else {
                lemma_borrowed(r, Rec::DVec(rt), rt, v, env);
            }
        },
        Ty::Option(t) => {
            let inner = get_prog(own, *t, r, types, depth);
            let some = Ex::Apply(Fun::Just, seq![inner]);
            match v {
                Val::Just(x) => {
                    let inside = env.insert("__tag"@, word_value(1));
                    let slots = wire(*x, *t, types, depth);
                    lemma_get(own, *t, *x, r, inside, types, depth);
                    lemma_apply(Fun::Just, inner, inside, slots, *x);
                    lemma_tagged(r, 1, Ex::Nil, some, env, slots, v);
                },
                _ => {
                    let inside = env.insert("__tag"@, word_value(0));
                    assert(gives(Ex::Nil, inside, Val::Nil));
                    lemma_gives_takes(Ex::Nil, inside, Val::Nil);
                    lemma_tagged(r, 0, Ex::Nil, some, env, nothing, v);
                    assert(seq![0u64] + nothing =~= seq![0u64]);
                },
            }
        },
        Ty::DOption(t) => {
            let rt = t.rust_type();
            let inner = get_prog(own, *t, r, types, depth);
            let some = Ex::DSome(rt, Box::new(inner));
            match v {
                Val::Just(x) => {
                    let inside = env.insert("__tag"@, word_value(1));
                    let slots = wire(*x, *t, types, depth);
                    lemma_get(own, *t, *x, r, inside, types, depth);
                    lemma_on(some, inside, slots, *x);
                    lemma_tagged(r, 1, Ex::DNil(rt), some, env, slots, v);
                },
                _ => {
                    let inside = env.insert("__tag"@, word_value(0));
                    assert(gives(Ex::DNil(rt), inside, Val::Nil));
                    lemma_gives_takes(Ex::DNil(rt), inside, Val::Nil);
                    lemma_tagged(r, 0, Ex::DNil(rt), some, env, nothing, v);
                    assert(seq![0u64] + nothing =~= seq![0u64]);
                },
            }
        },
        Ty::Ref(t) => match *t {
            Ty::DString => lemma_view(r, Rec::DStr, "u8"@, v, env),
            Ty::DVec(x) => lemma_view(r, Rec::DSlice(x.rust_type()), x.rust_type(), v, env),
            other => lemma_get(own, other, v, r, env, types, depth),
        },
        Ty::Tuple(ts) => {
            let vs = v->Tuple_0;
            lemma_get_list(own, ts, ts.len(), vs, r, env, types, depth);
            assert(vs.take(ts.len() as int) =~= vs);
            lemma_tuple_of(
                get_list(own, ts, ts.len(), r, types, depth),
                env,
                wire(v, ft, types, depth),
                vs,
            );
        },
        Ty::Array(t, n) => {
            let vs = v->List_0;
            assert(vs.take(n as int) =~= vs);
            if *t is U8 && n % 8 == 0 {
                assert forall|i: int| 0 <= i < vs.len() implies unsigned(
                    #[trigger] vs[i],
                    8,
                ) is Some && 0 <= vs[i]->Int_2 < 256 by {
                    assert(has_type(vs[i], *t, types, depth));
                }
                lemma_get_bytes(n, vs, r, env);
            } else {
                lemma_get_items(own, *t, n, vs, r, env, types, depth);
                let es = get_items(own, *t, n, r, types, depth);
                let slots = list_wire(vs, *t, n, types, depth);
                assert forall|m: Machine|
                    m.env == env && slots.is_prefix_of(m.ins) implies #[trigger] eval(
                    Ex::List(es),
                    m,
                ) == Some((v, Machine { ins: m.ins.skip(slots.len() as int), ..m })) by {
                    assert(eval_list(es, es.len(), m) == Some(
                        (vs, Machine { ins: m.ins.skip(slots.len() as int), ..m }),
                    ));
                }
            }
        },
        Ty::Named(name) => match lookup(types, name) {
            None => {},
            Some(Decl::Struct(s)) => {
                if s.fields.len() == 0 {
                    lemma_get_empty(r, name, env);
                } else {
                    lemma_get_struct(r, name, v, env);
                }
            },
            Some(Decl::Opaque(_)) => lemma_get_struct(r, name, v, env),
            Some(Decl::Enum(en)) => {
                lemma_get_enum(own, en, v, r, env, types, (depth - 1) as nat);
            },
        },
    }
}

/// What names stand for where a native text or slice is put together.
pub open spec fn native_env(v: Val, t: Seq<char>, env: Map<Seq<char>, Val>) -> Map<Seq<char>, Val> {
    env.insert(
        "__p"@,
        Val::Ptr(
            if v->Slice_1 == 0 {
                1
            } else {
                v->Slice_0
            },
            t,
        ),
    ).insert("__l"@, Val::Int(false, 64, v->Slice_1))
}

pub open spec fn raw_parts() -> Ex {
    Ex::Apply(Fun::RawParts, seq![Ex::Name("__p"@), Ex::Name("__l"@)])
}

proof fn lemma_fresh(a: Ex, env: Map<Seq<char>, Val>)
    requires
        a matches Ex::Apply(f, es) && es == Seq::<Ex>::empty(),
        apply(a->Apply_0, Seq::empty()) is Some,
    ensures
        gives(a, env, apply(a->Apply_0, Seq::empty())->Some_0),
{
    let es = a->Apply_1;
    assert forall|m: Machine| m.env == env implies #[trigger] eval(a, m) == Some(
        (apply(a->Apply_0, Seq::empty())->Some_0, m),
    ) by {
        assert(eval_list(es, 0, m) == Some((Seq::<Val>::empty(), m)));
    }
}

proof fn lemma_out(r: Seq<char>, t: Seq<char>, v: Val, env: Map<Seq<char>, Val>)
    requires
        env.contains_key(r),
        env[r] is Reader,
        is_ptr(v, t),
    ensures
        takes(refmut_ex(r, t), env, seq![slot(v)], v),
        t == "Vec<u8>"@ ==> takes(out_ex(r), env, seq![slot(v)], v),
{
    let a = Ex::As(Box::new(next_slot(r)), Cast::Mut(t));
    let b = Ex::Paren(Box::new(a));
    let c = Ex::Star(Box::new(b));
    let d = Ex::RefMut(Box::new(c));
    let s = seq![slot(v)];
    lemma_pointer(r, Cast::Mut(t), t, v->Ptr_0, env);
    lemma_on(b, env, s, v);
    lemma_on(c, env, s, v);
    lemma_on(d, env, s, Val::Object(v->Ptr_0, t));
    lemma_plain_block(true, d, env, s, v);
}

proof fn lemma_get_struct(r: Seq<char>, name: Seq<char>, v: Val, env: Map<Seq<char>, Val>)
    requires
        env.contains_key(r),
        env[r] is Reader,
        is_object(v, name),
    ensures
        takes(struct_ex(r, name), env, seq![slot(v)], v),
{
    let a = Ex::As(Box::new(next_slot(r)), Cast::Const(name));
    let b = Ex::Paren(Box::new(a));
    let c = Ex::Star(Box::new(b));
    let d = Ex::Paren(Box::new(c));
    let e = Ex::Call(Box::new(d), Meth::Clone);
    let s = seq![slot(v)];
    let p = Val::Ptr(v->Object_0, name);
    lemma_pointer(r, Cast::Const(name), name, v->Object_0, env);
    lemma_on(b, env, s, p);
    lemma_on(c, env, s, p);
    lemma_on(d, env, s, v);
    lemma_on(e, env, s, v);
    lemma_plain_block(true, e, env, s, v);
}

proof fn lemma_get_empty(r: Seq<char>, name: Seq<char>, env: Map<Seq<char>, Val>)
    requires
        env.contains_key(r),
        env[r] is Reader,
    ensures
        takes(empty_ex(r, name), env, seq![1u64], Val::Nothing(name)),
{
    let none = Seq::<St>::empty();
    let nothing = Seq::<u64>::empty();
    let rd = next_slot(r);
    let inside = env.insert("_"@, word_value(1));
    lemma_next(r, 1, env);
    lemma_binds_none(env);
    lemma_binds_let(none, env, nothing, env, false, "_"@, rd, seq![1u64], word_value(1));
    assert(nothing + seq![1u64] =~= seq![1u64]);
    let b1 = none.push(St::Let(false, "_"@, rd));
    lemma_binds_blank(b1, env, seq![1u64], inside);
    let x = Ex::UnitStruct(name);
    assert(gives(x, inside, Val::Nothing(name)));
    lemma_gives_takes(x, inside, Val::Nothing(name));
    let ss = b1.push(St::Blank(" "@));
    lemma_block(false, ss, x, env, seq![1u64], inside, nothing, Val::Nothing(name));
    assert(seq![1u64] + nothing =~= seq![1u64]);
    assert(ss =~= seq![St::Let(false, "_"@, rd), St::Blank(" "@)]);
}

proof fn lemma_tuple_of(es: Seq<Ex>, env: Map<Seq<char>, Val>, slots: Seq<u64>, vs: Seq<Val>)
    requires
        takes_all(es, es.len(), env, slots, vs),
    ensures
        takes(Ex::Tuple(es), env, slots, Val::Tuple(vs)),
{
    assert forall|m: Machine| m.env == env && slots.is_prefix_of(m.ins) implies #[trigger] eval(
        Ex::Tuple(es),
        m,
    ) == Some((Val::Tuple(vs), Machine { ins: m.ins.skip(slots.len() as int), ..m })) by {
        assert(eval_list(es, es.len(), m) == Some(
            (vs, Machine { ins: m.ins.skip(slots.len() as int), ..m }),
        ));
    }
}

proof fn lemma_get_list(
    own: bool,
    ts: Seq<Ty>,
    n: nat,
    vs: Seq<Val>,
    r: Seq<char>,
    env: Map<Seq<char>, Val>,
    types: Seq<Decl>,
    depth: nat,
)
    requires
        n <= ts.len() == vs.len(),
        !own || all_kept(own, ts, n, types, depth),
        have_types(vs, ts, n, types, depth),
        env.contains_key(r),
        env[r] is Reader,
        is_free(r),
    ensures
        get_list(own, ts, n, r, types, depth).len() == n,
        takes_all(
            get_list(own, ts, n, r, types, depth),
            n,
            env,
            tuple_wire(vs, ts, n, types, depth),
            vs.take(n as int),
        ),
    decreases 4 * depth, ts, n,
{
    if n == 0 {
        lemma_takes_none(get_list(own, ts, n, r, types, depth), env);
        assert(vs.take(0) =~= Seq::empty());
    } else {
        let i = (n - 1) as nat;
        lemma_get_list(own, ts, i, vs, r, env, types, depth);
        lemma_get(own, ts[n - 1], vs[n - 1], r, env, types, depth);
        lemma_takes_more(
            get_list(own, ts, i, r, types, depth),
            get_prog(own, ts[n - 1], r, types, depth),
            env,
            tuple_wire(vs, ts, i, types, depth),
            vs.take(n - 1),
            wire(vs[n - 1], ts[n - 1], types, depth),
            vs[n - 1],
        );
        assert(vs.take(n - 1).push(vs[n - 1]) =~= vs.take(n as int));
    }
}

proof fn lemma_get_items(
    own: bool,
    t: Ty,
    n: nat,
    vs: Seq<Val>,
    r: Seq<char>,
    env: Map<Seq<char>, Val>,
    types: Seq<Decl>,
    depth: nat,
)
    requires
        n <= vs.len(),
        kept(own, t, types, depth),
        forall|i: int| 0 <= i < vs.len() ==> has_type(#[trigger] vs[i], t, types, depth),
        env.contains_key(r),
        env[r] is Reader,
        is_free(r),
    ensures
        get_items(own, t, n, r, types, depth).len() == n,
        takes_all(
            get_items(own, t, n, r, types, depth),
            n,
            env,
            list_wire(vs, t, n, types, depth),
            vs.take(n as int),
        ),
    decreases 4 * depth, t, 1 + n,
{
    if n == 0 {
        lemma_takes_none(get_items(own, t, n, r, types, depth), env);
        assert(vs.take(0) =~= Seq::empty());
    } else {
        let i = (n - 1) as nat;
        lemma_get_items(own, t, i, vs, r, env, types, depth);
        lemma_get(own, t, vs[n - 1], r, env, types, depth);
        lemma_takes_more(
            get_items(own, t, i, r, types, depth),
            get_prog(own, t, r, types, depth),
            env,
            list_wire(vs, t, i, types, depth),
            vs.take(n - 1),
            wire(vs[n - 1], t, types, depth),
            vs[n - 1],
        );
        assert(vs.take(n - 1).push(vs[n - 1]) =~= vs.take(n as int));
    }
}

proof fn lemma_get_fields(
    own: bool,
    fs: Seq<Ty>,
    n: nat,
    vs: Seq<Val>,
    r: Seq<char>,
    env: Map<Seq<char>, Val>,
    types: Seq<Decl>,
    depth: nat,
)
    requires
        n <= fs.len() == vs.len(),
        forall|j: int|
            0 <= j < fs.len() ==> kept(own, (#[trigger] fs[j]).field_dtype(), types, depth),
        fields_have_types(vs, fs, n, types, depth),
        env.contains_key(r),
        env[r] is Reader,
        is_free(r),
    ensures
        get_fields(own, fs, n, r, types, depth).len() == n,
        takes_all(
            get_fields(own, fs, n, r, types, depth),
            n,
            env,
            fields_wire(vs, fs, n, types, depth),
            vs.take(n as int),
        ),
    decreases 4 * depth + 1, fs, n,
{
    if n == 0 {
        lemma_takes_none(get_fields(own, fs, n, r, types, depth), env);
        assert(vs.take(0) =~= Seq::empty());
    } else {
        let i = (n - 1) as nat;
        let t = fs[n - 1].field_dtype();
        lemma_get_fields(own, fs, i, vs, r, env, types, depth);
        lemma_get(own, t, vs[n - 1], r, env, types, depth);
        lemma_takes_more(
            get_fields(own, fs, i, r, types, depth),
            get_prog(own, t, r, types, depth),
            env,
            fields_wire(vs, fs, i, types, depth),
            vs.take(n - 1),
            wire(vs[n - 1], t, types, depth),
            vs[n - 1],
        );
        assert(vs.take(n - 1).push(vs[n - 1]) =~= vs.take(n as int));
    }
}

proof fn lemma_get_arms_len(
    own: bool,
    n: Seq<char>,
    vs: Seq<VariantModel>,
    k: nat,
    r: Seq<char>,
    types: Seq<Decl>,
    depth: nat,
)
    requires
        k <= vs.len(),
    ensures
        get_arms(own, n, vs, k, r, types, depth).len() == k,
        forall|i: int|
            0 <= i < k ==> #[trigger] get_arms(own, n, vs, k, r, types, depth)[i] == Ex::Variant(
                n,
                vs[i].name,
                get_fields(own, vs[i].fields, vs[i].fields.len(), r, types, depth),
            ),
    decreases k,
{
    if k > 0 {
        lemma_get_arms_len(own, n, vs, (k - 1) as nat, r, types, depth);
    }
}

proof fn lemma_found(vs: Seq<VariantModel>, name: Seq<char>, i: nat)
    requires
        variant_from(vs, name, i) < vs.len(),
    ensures
        vs[variant_from(vs, name, i) as int].name == name,
    decreases vs.len() - i,
{
    if i < vs.len() && vs[i as int].name != name {
        lemma_found(vs, name, i + 1);
    }
}

proof fn lemma_get_enum(
    own: bool,
    en: EnumModel,
    v: Val,
    r: Seq<char>,
    env: Map<Seq<char>, Val>,
    types: Seq<Decl>,
    depth: nat,
)
    requires
        !own || enum_kept(own, en, types, depth),
        is_variant(v, en, types, depth),
        env.contains_key(r),
        env[r] is Reader,
        is_free(r),
    ensures
        takes(
            Ex::Match(
                Box::new(next_slot(r)),
                get_arms(own, en.name, en.variants, en.variants.len(), r, types, depth),
                en.name,
            ),
            env,
            variant_wire(v, en, types, depth),
            v,
        ),
    decreases 4 * depth + 2, en.variants, 0nat,
{
    let name = v->Variant_1;
    let vs = v->Variant_2;
    let k = variant_from(en.variants, name, 0);
    let fs = en.variants[k as int].fields;
    let arms = get_arms(own, en.name, en.variants, en.variants.len(), r, types, depth);
    assert forall|j: int| 0 <= j < fs.len() implies kept(
        own,
        (#[trigger] fs[j]).field_dtype(),
        types,
        depth,
    ) by {
        assert(en.variants[k as int].fields[j] == fs[j]);
    }
    lemma_found(en.variants, name, 0);
    lemma_get_arms_len(own, en.name, en.variants, en.variants.len(), r, types, depth);
    lemma_get_fields(own, fs, fs.len(), vs, r, env, types, depth);
    assert(vs.take(fs.len() as int) =~= vs);
    let es = get_fields(own, fs, fs.len(), r, types, depth);
    let x = Ex::Variant(en.name, name, es);
    assert(arms[k as int] == x);
    let head = seq![k as u64];
    let rest = fields_wire(vs, fs, fs.len(), types, depth);
    let all = head + rest;
    lemma_next(r, k as u64, env);
    let e = Ex::Match(Box::new(next_slot(r)), arms, en.name);
    assert forall|m: Machine| m.env == env && all.is_prefix_of(m.ins) implies #[trigger] eval(
        e,
        m,
    ) == Some((v, Machine { ins: m.ins.skip(all.len() as int), ..m })) by {
        lemma_split(head, rest, m.ins);
        let m1 = Machine { ins: m.ins.skip(1), ..m };
        assert(eval(next_slot(r), m) == Some((word_value(k as u64), m1)));
        assert(eval_list(es, es.len(), m1) == Some(
            (vs, Machine { ins: m1.ins.skip(rest.len() as int), ..m1 }),
        ));
        assert(eval(x, m1) == Some((v, Machine { ins: m1.ins.skip(rest.len() as int), ..m1 })));
    }
}

/// The bytes that have been read, and zeros for the others.
pub open spec fn filled(vs: Seq<Val>, k: nat) -> Seq<Val> {
    Seq::new(
        vs.len(),
        |i: int|
            if i < 8 * k {
                vs[i]
            } else {
                Val::Int(false, 8, 0)
            },
    )
}

proof fn lemma_get_words(
    k: nat,
    vs: Seq<Val>,
    r: Seq<char>,
    env: Map<Seq<char>, Val>,
    ss: Seq<St>,
    start: Map<Seq<char>, Val>,
)
    requires
        8 * k <= vs.len(),
        forall|i: int|
            0 <= i < vs.len() ==> unsigned(#[trigger] vs[i], 8) is Some && 0 <= vs[i]->Int_2 < 256,
        env.contains_key(r),
        env[r] is Reader,
        is_free(r),
        binds(ss, start, Seq::empty(), env.insert("__arr"@, Val::List(filled(vs, 0)))),
    ensures
        binds(
            ss + get_words(k, r),
            start,
            words(vs, k),
            env.insert("__arr"@, Val::List(filled(vs, k))),
        ),
    decreases k,
{
    if k == 0 {
        assert(ss + get_words(0, r) =~= ss);
    } else {
        let j = (k - 1) as nat;
        lemma_get_words(j, vs, r, env, ss, start);
        let before = ss + get_words(j, r);
        let from = (j * 8) as nat;
        let s = get_word(from, r);
        let part = vs.subrange((k - 1) * 8, (k - 1) * 8 + 8);
        assert forall|i: int| 0 <= i < part.len() implies unsigned(#[trigger] part[i], 8) is Some
            && 0 <= part[i]->Int_2 < 256 by {
            assert(part[i] == vs[(k - 1) * 8 + i]);
        }
        let bs = bytes_of(part)->Some_0;
        let word = spec_u64_from_le_bytes(bs);
        lemma_auto_spec_u64_to_from_le_bytes();
        assert(spec_u64_to_le_bytes(word) == bs);
        assert(byte_values(bs) =~= part) by {
            assert forall|i: int| 0 <= i < part.len() implies byte_values(bs)[i] == part[i] by {
                assert(unsigned(part[i], 8) is Some);
            }
        }
        let mid = env.insert("__arr"@, Val::List(filled(vs, j)));
        let after = env.insert("__arr"@, Val::List(filled(vs, k)));
        let rd = next_slot(r);
        let call = call_ex(rd, Meth::ToLeBytes);
        let e = Ex::Ref(Box::new(call));
        lemma_next(r, word, mid);
        lemma_on(call, mid, seq![word], word_value(word));
        lemma_on(e, mid, seq![word], Val::List(part));
        let all = words(vs, k);
        assert(all =~= words(vs, j) + seq![word]);
        assert(filled(vs, j).take(from as int) + part + filled(vs, j).skip((k - 1) * 8 + 8)
            =~= filled(vs, k));
        assert(mid.insert("__arr"@, Val::List(filled(vs, k))) =~= after);
        assert forall|m: Machine| m.env == start && all.is_prefix_of(m.ins) implies #[trigger] run(
            before.push(s),
            before.push(s).len(),
            m,
        ) == Some(Machine { env: after, ins: m.ins.skip(all.len() as int), ..m }) by {
            lemma_split(words(vs, j), seq![word], m.ins);
            lemma_run_push(before, s, m);
            let m1 = Machine {
                env: mid,
                ins: m.ins.skip(words(vs, j).len() as int),
                ..m
            };
            assert(run(before, before.len(), m) == Some(m1));
            assert(eval(e, m1) == Some((Val::List(part), Machine { ins: m1.ins.skip(1), ..m1 })));
        }
        assert(before.push(s) =~= ss + get_words(k, r));
    }
}

proof fn lemma_get_bytes(n: nat, vs: Seq<Val>, r: Seq<char>, env: Map<Seq<char>, Val>)
    requires
        n % 8 == 0,
        vs.len() == n,
        forall|i: int|
            0 <= i < vs.len() ==> unsigned(#[trigger] vs[i], 8) is Some && 0 <= vs[i]->Int_2 < 256,
        env.contains_key(r),
        env[r] is Reader,
        is_free(r),
    ensures
        takes(
            Ex::Block(
                false,
                seq![St::Let(true, "__arr"@, Ex::Zeros(n))] + (blank() + (get_words(n / 8, r)
                    + blank())),
                Box::new(Ex::Name("__arr"@)),
            ),
            env,
            words(vs, n / 8),
            Val::List(vs),
        ),
{
    let none = Seq::<St>::empty();
    let nothing = Seq::<u64>::empty();
    let z = Ex::Zeros(n);
    let zeros = Val::List(filled(vs, 0));
    assert(Seq::new(n, |i: int| Val::Int(false, 8, 0)) =~= filled(vs, 0));
    assert(gives(z, env, zeros));
    lemma_gives_takes(z, env, zeros);
    lemma_binds_none(env);
    lemma_binds_let(none, env, nothing, env, true, "__arr"@, z, nothing, zeros);
    assert(nothing + nothing =~= nothing);
    let b1 = none.push(St::Let(true, "__arr"@, z));
    let first = env.insert("__arr"@, zeros);
    lemma_binds_blank(b1, env, nothing, first);
    let b2 = b1.push(St::Blank(" "@));
    lemma_get_words(n / 8, vs, r, env, b2, env);
    assert(filled(vs, n / 8) =~= vs);
    let after = env.insert("__arr"@, Val::List(vs));
    let b3 = b2 + get_words(n / 8, r);
    lemma_binds_blank(b3, env, words(vs, n / 8), after);
    let ss = b3.push(St::Blank(" "@));
    let x = Ex::Name("__arr"@);
    lemma_name("__arr"@, after);
    lemma_gives_takes(x, after, Val::List(vs));
    lemma_block(false, ss, x, env, words(vs, n / 8), after, nothing, Val::List(vs));
    assert(words(vs, n / 8) + nothing =~= words(vs, n / 8));
    assert(ss =~= seq![St::Let(true, "__arr"@, z)] + (blank() + (get_words(n / 8, r) + blank())));
}

// ---------------------------------------------------------------------------
// The law
// ---------------------------------------------------------------------------

/// Whether `code`, run where the name `x` stands for `v` and `w` is a writer,
/// puts these slots and does nothing else.
pub open spec fn writes(
    code: Seq<char>,
    x: Seq<char>,
    v: Val,
    w: Seq<char>,
    slots: Seq<u64>,
) -> bool {
    exists|p: Seq<St>| #[trigger]
        lines(p, p.len()) == code && forall|m: Machine|
            m.env == Map::<Seq<char>, Val>::empty().insert(x, v).insert(w, Val::Writer)
                ==> #[trigger] run(p, p.len(), m) == Some(Machine { outs: m.outs + slots, ..m })
}

/// The state in which only `r` stands for something: a reader of these slots.
pub open spec fn reading(r: Seq<char>, ins: Seq<u64>, outs: Seq<u64>) -> Machine {
    Machine { env: Map::<Seq<char>, Val>::empty().insert(r, Val::Reader), ins, outs }
}

/// Whether `code`, run where `r` is a reader of these slots, with anything
/// behind them, comes to `v` and takes exactly these slots.
pub open spec fn reads(code: Seq<char>, r: Seq<char>, slots: Seq<u64>, v: Val) -> bool {
    exists|q: Ex| #[trigger]
        text(q) == code && forall|rest: Seq<u64>, outs: Seq<u64>| #[trigger]
            eval(q, reading(r, slots + rest, outs)) == Some((v, reading(r, rest, outs)))
}

/// What generated Rust writes, generated Rust reads back: for a value of any
/// type the writing code puts the slots of the value, and the reading code, run
/// on these slots, comes to that value and leaves what is behind them.
///
/// As returns, values that are copied to memory of their receiver are left out.
pub proof fn what_is_written_is_read_back(
    own: bool,
    ft: Ty,
    v: Val,
    x: Seq<char>,
    w: Seq<char>,
    r: Seq<char>,
    types: Seq<Decl>,
    depth: nat,
)
    requires
        has_type(v, ft, types, depth),
        kept(own, ft, types, depth),
        no_single(ft, types, depth),
        is_free(w),
        is_free(r),
        x != w,
    ensures
        writes(write_code(own, ft, x, w, types, depth), x, v, w, wire(v, ft, types, depth)),
        reads(read_code(own, ft, r, types, depth), r, wire(v, ft, types, depth), v),
{
    let slots = wire(v, ft, types, depth);
    let e = Ex::Name(x);
    assert(text(e) == x);
    let env = Map::<Seq<char>, Val>::empty().insert(x, v).insert(w, Val::Writer);
    lemma_name(x, env);
    lemma_put_text(own, ft, e, w, types, depth);
    lemma_put(own, ft, e, v, w, env, types, depth);
    let p = put_prog(own, ft, e, w, types, depth);
    assert(lines(p, p.len()) == write_code(own, ft, x, w, types, depth));
    let renv = Map::<Seq<char>, Val>::empty().insert(r, Val::Reader);
    lemma_get_text(own, ft, r, types, depth);
    lemma_get(own, ft, v, r, renv, types, depth);
    let q = get_prog(own, ft, r, types, depth);
    assert(text(q) == read_code(own, ft, r, types, depth));
    assert forall|rest: Seq<u64>, outs: Seq<u64>| #[trigger]
        eval(q, reading(r, slots + rest, outs)) == Some((v, reading(r, rest, outs))) by {
        let m = reading(r, slots + rest, outs);
        assert(slots =~= m.ins.subrange(0, slots.len() as int));
        assert(m.ins.skip(slots.len() as int) =~= rest);
    }
}

// ---------------------------------------------------------------------------
// Calls
// ---------------------------------------------------------------------------

/// Whether these are arguments of a call: values of the types of the
/// parameters, whose names differ from each other and from those of the reader
/// and the writer. Native out-parameters are passed in another way.
pub open spec fn are_arguments(ps: Seq<ParamModel>, vs: Seq<Val>, types: Seq<Decl>) -> bool {
    &&& vs.len() == ps.len()
    &&& forall|i: int|
        0 <= i < ps.len() ==> has_type(vs[i], (#[trigger] ps[i]).ty, types, types.len())
            && no_single(ps[i].ty, types, types.len()) && ps[i].ty !is OutU8Vec && ps[i].name
            != "__r"@ && ps[i].name != "__w"@
    &&& forall|i: int, j: int|
        0 <= i < j < ps.len() ==> (#[trigger] ps[i]).name != (#[trigger] ps[j]).name
}

/// What names stand for when the first `n` parameters have their arguments.
pub open spec fn params_env(
    env: Map<Seq<char>, Val>,
    ps: Seq<ParamModel>,
    vs: Seq<Val>,
    n: nat,
) -> Map<Seq<char>, Val>
    decreases n,
{
    if n == 0 {
        env
    } else {
        params_env(env, ps, vs, (n - 1) as nat).insert(ps[n - 1].name, vs[n - 1])
    }
}

/// The slots of the first `n` arguments, one behind the other.
pub open spec fn params_wire(ps: Seq<ParamModel>, vs: Seq<Val>, n: nat, types: Seq<Decl>) -> Seq<u64>
    decreases n,
{
    if n == 0 {
        Seq::empty()
    } else {
        params_wire(ps, vs, (n - 1) as nat, types) + wire(
            vs[n - 1],
            ps[n - 1].ty,
            types,
            types.len(),
        )
    }
}

/// The statements of [`tower_encode`].
pub open spec fn put_params(ps: Seq<ParamModel>, n: nat, types: Seq<Decl>) -> Seq<St>
    decreases n,
{
    if n == 0 {
        Seq::empty()
    } else {
        put_params(ps, (n - 1) as nat, types) + put_prog(
            false,
            ps[n - 1].ty,
            Ex::Name(ps[n - 1].name),
            "__w"@,
            types,
            types.len(),
        )
    }
}

/// The statement that decodes a parameter.
pub open spec fn get_param(p: ParamModel, types: Seq<Decl>) -> St {
    St::LetTyped(p.name, p.ty.rust_type(), get_prog(false, p.ty, "__r"@, types, types.len()))
}

/// The statements of [`dispatch_decode`] behind those that make the reader.
pub open spec fn get_params(ps: Seq<ParamModel>, n: nat, types: Seq<Decl>) -> Seq<St>
    decreases n,
{
    if n == 0 {
        Seq::empty()
    } else {
        get_params(ps, (n - 1) as nat, types).push(St::Blank("            "@)).push(
            get_param(ps[n - 1], types),
        ).push(St::Blank("\n"@))
    }
}

proof fn lemma_reserved_names()
    ensures
        is_free("__r"@),
        is_free("__w"@),
{
    reveal_strlit("__r");
    reveal_strlit("__w");
    reveal_strlit("__v");
    reveal_strlit("__tag");
    reveal_strlit("__p");
    reveal_strlit("__l");
    reveal_strlit("__arr");
    reveal_strlit("__alloc");
    reveal_strlit("__ptr");
    reveal_strlit("__len");
    reveal_strlit("__cap");
    reveal_strlit("_");
    reveal_strlit("__f");
    assert("__r"@[2] == 'r' && "__w"@[2] == 'w');
    assert("__v"@[2] == 'v');
    assert("__tag"@[2] == 't');
    assert("__p"@[2] == 'p');
    assert("__l"@[2] == 'l');
    assert("__arr"@[2] == 'a');
    assert("__alloc"@[2] == 'a');
    assert("__ptr"@[2] == 'p');
    assert("__len"@[2] == 'l');
    assert("__cap"@[2] == 'c');
    assert("_"@.len() == 1);
    assert forall|i: nat| #![trigger field_name(i)] "__r"@ != field_name(i) && "__w"@ != field_name(
        i,
    ) by {
        assert(field_name(i)[2] == "__f"@[2]);
    }
}

proof fn lemma_params_env(
    env: Map<Seq<char>, Val>,
    ps: Seq<ParamModel>,
    vs: Seq<Val>,
    n: nat,
    types: Seq<Decl>,
)
    requires
        n <= ps.len(),
        are_arguments(ps, vs, types),
    ensures
        forall|i: int|
            0 <= i < n ==> params_env(env, ps, vs, n).contains_key((#[trigger] ps[i]).name)
                && params_env(env, ps, vs, n)[ps[i].name] == vs[i],
        params_env(env, ps, vs, n).contains_key("__r"@) == env.contains_key("__r"@),
        env.contains_key("__r"@) ==> params_env(env, ps, vs, n)["__r"@] == env["__r"@],
    decreases n,
{
    if n > 0 {
        lemma_params_env(env, ps, vs, (n - 1) as nat, types);
        assert(ps[n - 1].name != "__r"@);
        assert forall|i: int| 0 <= i < n implies params_env(env, ps, vs, n).contains_key(
            (#[trigger] ps[i]).name,
        ) && params_env(env, ps, vs, n)[ps[i].name] == vs[i] by {
            if i < n - 1 {
                assert(ps[i].name != ps[n - 1].name);
            }
        }
    }
}

proof fn lemma_put_params(
    ps: Seq<ParamModel>,
    vs: Seq<Val>,
    n: nat,
    types: Seq<Decl>,
    env: Map<Seq<char>, Val>,
)
    requires
        n <= ps.len(),
        are_arguments(ps, vs, types),
        env.contains_key("__w"@),
        env["__w"@] is Writer,
        forall|i: int|
            0 <= i < ps.len() ==> env.contains_key((#[trigger] ps[i]).name) && env[ps[i].name]
                == vs[i],
    ensures
        puts(put_params(ps, n, types), env, params_wire(ps, vs, n, types)),
        lines(put_params(ps, n, types), put_params(ps, n, types).len()) == tower_encode(
            ps,
            n,
            types,
        ),
    decreases n,
{
    if n == 0 {
        lemma_no_puts(env);
    } else {
        let p = ps[n - 1];
        let e = Ex::Name(p.name);
        let d = types.len();
        let one = put_prog(false, p.ty, e, "__w"@, types, d);
        lemma_reserved_names();
        lemma_put_params(ps, vs, (n - 1) as nat, types, env);
        lemma_name(p.name, env);
        assert(text(e) == p.name);
        lemma_put_text(false, p.ty, e, "__w"@, types, d);
        lemma_put(false, p.ty, e, vs[n - 1], "__w"@, env, types, d);
        lemma_puts_join(
            put_params(ps, (n - 1) as nat, types),
            params_wire(ps, vs, (n - 1) as nat, types),
            one,
            wire(vs[n - 1], p.ty, types, d),
            env,
        );
        lemma_lines_join(put_params(ps, (n - 1) as nat, types), one);
    }
}

proof fn lemma_pushed_line(ss: Seq<St>, s: St)
    ensures
        lines(ss.push(s), ss.push(s).len()) == lines(ss, ss.len()) + line(s),
{
    assert(ss.push(s) =~= ss + seq![s]);
    lemma_lines_join(ss, seq![s]);
    lemma_one_line(s);
    assert(seq![s].len() == 1);
}

/// The statements that make the reader.
pub open spec fn reader_made() -> Seq<char> {
    dispatch_decode(Seq::empty(), 0, Seq::empty())
}

proof fn lemma_get_params_text(ps: Seq<ParamModel>, vs: Seq<Val>, n: nat, types: Seq<Decl>)
    requires
        n <= ps.len(),
        are_arguments(ps, vs, types),
    ensures
        reader_made() + lines(get_params(ps, n, types), get_params(ps, n, types).len())
            == dispatch_decode(ps, n, types),
    decreases n,
{
    if n == 0 {
        assert(reader_made() + Seq::<char>::empty() =~= reader_made());
        assert(lines(Seq::empty(), 0) == Seq::<char>::empty());
    } else {
        let p = ps[n - 1];
        let before = get_params(ps, (n - 1) as nat, types);
        let s = get_param(p, types);
        let sp = St::Blank("            "@);
        let nl = St::Blank("\n"@);
        lemma_get_params_text(ps, vs, (n - 1) as nat, types);
        lemma_pushed_line(before, sp);
        lemma_pushed_line(before.push(sp), s);
        lemma_pushed_line(before.push(sp).push(s), nl);
        lemma_get_text(false, p.ty, "__r"@, types, types.len());
        let code = read_code(false, p.ty, "__r"@, types, types.len());
        let one = "let "@ + p.name + ": "@ + p.ty.rust_type() + " = "@ + code + ";"@;
        assert(line(s) == one);
        lemma_cat_param(p.name, p.ty.rust_type(), code);
        let t = lines(before, before.len());
        let h = reader_made();
        assert(h + (t + "            "@ + one + "\n"@) =~= (h + t) + ("            "@ + one
            + "\n"@));
    }
}

proof fn lemma_binds_space(
    ss: Seq<St>,
    env: Map<Seq<char>, Val>,
    slots: Seq<u64>,
    after: Map<Seq<char>, Val>,
    t: Seq<char>,
)
    requires
        binds(ss, env, slots, after),
        is_space(t),
    ensures
        binds(ss.push(St::Blank(t)), env, slots, after),
{
    let s = St::Blank(t);
    assert forall|m: Machine| m.env == env && slots.is_prefix_of(m.ins) implies #[trigger] run(
        ss.push(s),
        ss.push(s).len(),
        m,
    ) == Some(Machine { env: after, ins: m.ins.skip(slots.len() as int), ..m }) by {
        lemma_run_push(ss, s, m);
        let m1 = Machine { env: after, ins: m.ins.skip(slots.len() as int), ..m };
        assert(run(ss, ss.len(), m) == Some(m1));
        assert(step(s, m1) == Some(m1));
    }
}

proof fn lemma_get_params(
    ps: Seq<ParamModel>,
    vs: Seq<Val>,
    n: nat,
    types: Seq<Decl>,
    env: Map<Seq<char>, Val>,
)
    requires
        n <= ps.len(),
        are_arguments(ps, vs, types),
        env.contains_key("__r"@),
        env["__r"@] is Reader,
    ensures
        binds(
            get_params(ps, n, types),
            env,
            params_wire(ps, vs, n, types),
            params_env(env, ps, vs, n),
        ),
    decreases n,
{
    if n == 0 {
        lemma_binds_none(env);
    } else {
        let k = (n - 1) as nat;
        let p = ps[n - 1];
        let v = vs[n - 1];
        let before = get_params(ps, k, types);
        let slots = params_wire(ps, vs, k, types);
        let more = wire(v, p.ty, types, types.len());
        let mid = params_env(env, ps, vs, k);
        let after = params_env(env, ps, vs, n);
        lemma_reserved_names();
        lemma_get_params(ps, vs, k, types, env);
        lemma_params_env(env, ps, vs, k, types);
        let e = get_prog(false, p.ty, "__r"@, types, types.len());
        lemma_get(false, p.ty, v, "__r"@, mid, types, types.len());
        reveal_strlit("            ");
        reveal_strlit("\n");
        lemma_binds_space(before, env, slots, mid, "            "@);
        let b1 = before.push(St::Blank("            "@));
        let s = get_param(p, types);
        let all = slots + more;
        assert(binds(b1.push(s), env, all, after)) by {
            assert forall|m: Machine| m.env == env && all.is_prefix_of(m.ins) implies
                #[trigger] run(b1.push(s), b1.push(s).len(), m) == Some(
                Machine { env: after, ins: m.ins.skip(all.len() as int), ..m },
            ) by {
                lemma_split(slots, more, m.ins);
                lemma_run_push(b1, s, m);
                let m1 = Machine { env: mid, ins: m.ins.skip(slots.len() as int), ..m };
                assert(run(b1, b1.len(), m) == Some(m1));
                assert(eval(e, m1) == Some(
                    (v, Machine { ins: m1.ins.skip(more.len() as int), ..m1 }),
                ));
            }
        }
        lemma_binds_space(b1.push(s), env, all, after, "\n"@);
    }
}

/// Arguments arrive as they were passed: the statements with which the client
/// writes the parameters of a method put the slots of the arguments in order,
/// and the statements with which the spier decodes its parameters, behind those
/// that make the reader, bind the name of each parameter to its argument and
/// take exactly these slots.
pub proof fn arguments_arrive(ps: Seq<ParamModel>, vs: Seq<Val>, types: Seq<Decl>)
    requires
        are_arguments(ps, vs, types),
    ensures
        exists|p: Seq<St>| #[trigger]
            lines(p, p.len()) == tower_encode(ps, ps.len(), types) && puts(
                p,
                params_env(Map::empty(), ps, vs, ps.len()).insert("__w"@, Val::Writer),
                params_wire(ps, vs, ps.len(), types),
            ),
        exists|q: Seq<St>|
            reader_made() + #[trigger] lines(q, q.len()) == dispatch_decode(ps, ps.len(), types)
                && binds(
                q,
                Map::<Seq<char>, Val>::empty().insert("__r"@, Val::Reader),
                params_wire(ps, vs, ps.len(), types),
                params_env(
                    Map::<Seq<char>, Val>::empty().insert("__r"@, Val::Reader),
                    ps,
                    vs,
                    ps.len(),
                ),
            ),
        forall|i: int|
            0 <= i < ps.len() ==> params_env(
                Map::<Seq<char>, Val>::empty().insert("__r"@, Val::Reader),
                ps,
                vs,
                ps.len(),
            )[(#[trigger] ps[i]).name] == vs[i],
{
    let n = ps.len();
    let wenv = params_env(Map::empty(), ps, vs, n).insert("__w"@, Val::Writer);
    let renv = Map::<Seq<char>, Val>::empty().insert("__r"@, Val::Reader);
    lemma_params_env(Map::empty(), ps, vs, n, types);
    lemma_params_env(renv, ps, vs, n, types);
    lemma_put_params(ps, vs, n, types, wenv);
    let p = put_params(ps, n, types);
    assert(lines(p, p.len()) == tower_encode(ps, n, types));
    lemma_get_params_text(ps, vs, n, types);
    lemma_get_params(ps, vs, n, types, renv);
    let q = get_params(ps, n, types);
    assert(reader_made() + lines(q, q.len()) == dispatch_decode(ps, n, types));
}

// ---------------------------------------------------------------------------
// Results
// ---------------------------------------------------------------------------

/// What is done with the value of a result.
pub open spec fn put_fine(ret: Ty, types: Seq<Decl>) -> Seq<St> {
    let d = types.len();
    let w = "__w"@;
    let zero = put_num(w, 0);
    if ret is Unit {
        zero
    } else if ret is DVec || ret is DString {
        seq![St::Let(false, "__raw"@, call_ex(Ex::Name("__v"@), Meth::IntoRaw))] + (blank() + (zero
            + (blank() + put_prog(true, ret, Ex::Name("__raw"@), w, types, d))))
    } else {
        zero + (blank() + put_prog(true, ret, Ex::Name("__v"@), w, types, d))
    }
}

/// What is done with the message of an error: a tag, and the statements that
/// copy the message, which are not taken apart.
pub open spec fn put_wrong(types: Seq<Decl>) -> Seq<St> {
    put_num("__w"@, 1) + (blank() + seq![
        St::Blank(write_code(true, Ty::String, "__e"@, "__w"@, types, types.len())),
    ])
}

proof fn lemma_result_text(ret: Ty, types: Seq<Decl>)
    requires
        kept(true, ret, types, types.len()),
    ensures
        lines(
            seq![St::MatchResult(Ex::Name("_result"@), put_fine(ret, types), put_wrong(types))],
            1,
        ) == result_write_code(ret, types),
{
    let d = types.len();
    let w = "__w"@;
    let s = St::MatchResult(Ex::Name("_result"@), put_fine(ret, types), put_wrong(types));
    let err = write_code(true, Ty::String, "__e"@, w, types, d);
    lemma_one_line(s);
    lemma_tag_texts(w);
    lemma_one_line(St::Blank(" "@));
    lemma_one_line(St::Blank(err));
    assert(blank().len() == 1);
    assert(seq![St::Blank(err)].len() == 1);
    lemma_lines_join(blank(), seq![St::Blank(err)]);
    lemma_lines_join(put_num(w, 1), blank() + seq![St::Blank(err)]);
    assert(text(Ex::Name("_result"@)) == "_result"@);
    if ret is Unit {
        lemma_cat_result_unit(err);
    } else {
        let guarded = ret is DVec || ret is DString;
        let x = if guarded {
            Ex::Name("__raw"@)
        } else {
            Ex::Name("__v"@)
        };
        assert(text(Ex::Name("__raw"@)) == "__raw"@);
        assert(text(Ex::Name("__v"@)) == "__v"@);
        let p = put_prog(true, ret, x, w, types, d);
        lemma_put_text(true, ret, x, w, types, d);
        lemma_lines_join(blank(), p);
        lemma_lines_join(put_num(w, 0), blank() + p);
        let code = lines(p, p.len());
        if guarded {
            let c = call_ex(Ex::Name("__v"@), Meth::IntoRaw);
            let l = St::Let(false, "__raw"@, c);
            let rest = put_num(w, 0) + (blank() + p);
            lemma_one_line(l);
            assert(seq![l].len() == 1);
            assert(text(c) == "__v"@ + ".into_raw()"@);
            lemma_lines_join(blank(), rest);
            lemma_lines_join(seq![l], blank() + rest);
            lemma_cat_result_guarded(code, err);
        } else {
            lemma_cat_result(code, err);
        }
    }
}

proof fn lemma_result_names()
    ensures
        "_result"@ != "__w"@,
        "__v"@ != "__w"@,
        "__raw"@ != "__w"@,
{
    reveal_strlit("_result");
    reveal_strlit("__w");
    reveal_strlit("__v");
    reveal_strlit("__raw");
    assert("__v"@[2] == 'v' && "__w"@[2] == 'w');
    assert("_result"@.len() == 7 && "__raw"@.len() == 5);
}

proof fn lemma_put_fine(ret: Ty, v: Val, types: Seq<Decl>, env: Map<Seq<char>, Val>, m: Machine)
    requires
        has_type(v, ret, types, types.len()),
        kept(true, ret, types, types.len()),
        env.contains_key("__w"@),
        env["__w"@] is Writer,
        m.env == env,
        env.contains_key("__v"@),
        env["__v"@] == v,
    ensures
        leave(m, run(put_fine(ret, types), put_fine(ret, types).len(), m)) == Some(
            Machine {
                outs: m.outs + (seq![0u64] + wire(v, ret, types, types.len())),
                ..m
            },
        ),
{
    let d = types.len();
    let w = "__w"@;
    let slots = wire(v, ret, types, d);
    let all = seq![0u64] + slots;
    let none = Seq::<u64>::empty();
    lemma_reserved_names();
    lemma_result_names();
    lemma_num(w, 0, env);
    lemma_name("__v"@, env);
    let ss = put_fine(ret, types);
    if ret is Unit {
        assert(all =~= seq![0u64]);
        assert(run(ss, ss.len(), m) == Some(Machine { outs: m.outs + seq![0u64], ..m }));
    } else if ret is DVec || ret is DString {
        let inside = env.insert("__raw"@, v);
        let x = Ex::Name("__raw"@);
        let c = call_ex(Ex::Name("__v"@), Meth::IntoRaw);
        let y = lemma_gives_on(c, env, v);
        lemma_name("__raw"@, inside);
        lemma_num(w, 0, inside);
        lemma_blank(inside);
        let p = put_prog(true, ret, x, w, types, d);
        lemma_put(true, ret, x, v, w, inside, types, d);
        lemma_puts_join(blank(), none, p, slots, inside);
        lemma_puts_join(put_num(w, 0), seq![0u64], blank() + p, none + slots, inside);
        assert(seq![0u64] + (none + slots) =~= all);
        let rest = put_num(w, 0) + (blank() + p);
        lemma_puts_join(blank(), none, rest, all, inside);
        assert(none + all =~= all);
        lemma_let_puts("__raw"@, c, v, blank() + rest, env, all, m);
    } else {
        let x = Ex::Name("__v"@);
        let p = put_prog(true, ret, x, w, types, d);
        lemma_blank(env);
        lemma_put(true, ret, x, v, w, env, types, d);
        lemma_puts_join(blank(), none, p, slots, env);
        lemma_puts_join(put_num(w, 0), seq![0u64], blank() + p, none + slots, env);
        assert(seq![0u64] + (none + slots) =~= all);
        assert(run(ss, ss.len(), m) == Some(Machine { outs: m.outs + all, ..m }));
    }
}

/// What a method returns is what its caller receives: for `Ok` of a value the
/// spier puts the tag 0 and the slots of the value, and what the client
/// receives from these slots is `Ok` of that value.
///
/// Values that are copied to memory of their receiver are left out, and so are
/// the messages of errors, which always are.
pub proof fn results_arrive(ret: Ty, v: Val, r: Seq<char>, types: Seq<Decl>)
    requires
        has_type(v, ret, types, types.len()),
        kept(true, ret, types, types.len()),
        no_single(ret, types, types.len()),
        is_free(r),
    ensures
        writes(
            result_write_code(ret, types),
            "_result"@,
            Val::Fine(Box::new(v)),
            "__w"@,
            seq![0u64] + wire(v, ret, types, types.len()),
        ),
        reads(
            result_read_code(ret, r, types),
            r,
            seq![0u64] + wire(v, ret, types, types.len()),
            Val::Fine(Box::new(v)),
        ),
{
    let d = types.len();
    let slots = wire(v, ret, types, d);
    let all = seq![0u64] + slots;
    let x = Val::Fine(Box::new(v));
    let e = Ex::Name("_result"@);
    let s = St::MatchResult(e, put_fine(ret, types), put_wrong(types));
    let p = seq![s];
    assert(p.len() == 1);
    lemma_result_text(ret, types);
    lemma_result_names();
    assert(lines(p, p.len()) == result_write_code(ret, types));
    let env = Map::<Seq<char>, Val>::empty().insert("_result"@, x).insert("__w"@, Val::Writer);
    assert forall|m: Machine| m.env == env implies #[trigger] run(p, p.len(), m) == Some(
        Machine { outs: m.outs + all, ..m },
    ) by {
        lemma_one_step(s, m);
        assert(eval(e, m) == Some((x, m)));
        let m1 = bind(m, "__v"@, v);
        lemma_put_fine(ret, v, types, m1.env, m1);
        assert(step(s, m) == Some(Machine { outs: m.outs + all, ..m }));
    }
    lemma_received(ret, v, r, types);
}

proof fn lemma_received(ret: Ty, v: Val, r: Seq<char>, types: Seq<Decl>)
    requires
        has_type(v, ret, types, types.len()),
        kept(true, ret, types, types.len()),
        no_single(ret, types, types.len()),
        is_free(r),
    ensures
        reads(
            result_read_code(ret, r, types),
            r,
            seq![0u64] + wire(v, ret, types, types.len()),
            Val::Fine(Box::new(v)),
        ),
{
    let d = types.len();
    let slots = wire(v, ret, types, d);
    let all = seq![0u64] + slots;
    let x = Val::Fine(Box::new(v));
    let err = read_code(true, Ty::String, r, types, d);
    let inner = get_prog(true, ret, r, types, d);
    let fine = Ex::Apply(Fun::Fine, seq![inner]);
    let wrong = Ex::Apply(Fun::Wrong, seq![Ex::Name(err)]);
    let rd = next_slot(r);
    let tag = Ex::Name("__tag"@);
    let c = Ex::Eq(Box::new(tag), 0);
    let choice = Ex::If(Box::new(c), Box::new(fine), Box::new(wrong));
    let l = St::Let(false, "__tag"@, rd);
    let ss = seq![l, St::Blank(" "@)];
    let q = Ex::Block(false, ss, Box::new(choice));
    let renv = Map::<Seq<char>, Val>::empty().insert(r, Val::Reader);
    let inside = renv.insert("__tag"@, word_value(0));
    lemma_get(true, ret, v, r, inside, types, d);
    lemma_apply(Fun::Fine, inner, inside, slots, v);
    lemma_tagged(r, 0, fine, wrong, renv, slots, x);
    lemma_get_text(true, ret, r, types, d);
    lemma_casts();
    assert(text(Ex::Name(r)) == r);
    assert(text(rd) == r + ".read_u64()"@);
    assert(text(tag) == "__tag"@);
    assert(text(c) == "__tag"@ + " == "@ + "0"@);
    assert(text(Ex::Name(err)) == err);
    assert(texts(seq![inner], 1) == text(inner));
    assert(texts(seq![Ex::Name(err)], 1) == err);
    assert(seq![inner].len() == 1 && seq![Ex::Name(err)].len() == 1);
    assert(text(fine) == "Ok"@ + "("@ + text(inner) + ")"@);
    assert(text(wrong) == "Err"@ + "("@ + err + ")"@);
    assert(ss =~= seq![l].push(St::Blank(" "@)));
    lemma_pushed_line(seq![l], St::Blank(" "@));
    lemma_one_line(l);
    assert(seq![l].len() == 1);
    assert(text(q) == "{ "@ + lines(ss, ss.len()) + text(choice) + " }"@);
    lemma_cat_received(r, text(inner), err);
    assert(text(q) == result_read_code(ret, r, types));
    assert forall|rest: Seq<u64>, outs: Seq<u64>| #[trigger]
        eval(q, reading(r, all + rest, outs)) == Some((x, reading(r, rest, outs))) by {
        let m = reading(r, all + rest, outs);
        assert(all =~= m.ins.subrange(0, all.len() as int));
        assert(m.ins.skip(all.len() as int) =~= rest);
    }
}

} // verus!
