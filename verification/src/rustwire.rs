//! Values of the types of an interface, the slots that stand for them, and how
//! programs that read and put slots are put together.
use vstd::bytes::spec_u64_from_le_bytes;
use vstd::prelude::*;

use crate::ast::{Decl, EnumModel, Ty, VariantModel};
use crate::codec::lookup;
use crate::rustmodel::{
    apply, bytes_of, call, cast, eval, eval_list, get_field, in_range, line, lines, number_in, run,
    step, text, wrap, Ex, Fun, Machine, Rec, St, Val,
};

verus! {

// ---------------------------------------------------------------------------
// Values of a type, and their slots
// ---------------------------------------------------------------------------

/// Whether `n` is an address.
pub open spec fn is_address(n: int) -> bool {
    0 <= n < 0x1_0000_0000_0000_0000
}

pub open spec fn is_int(v: Val, signed: bool, bits: nat) -> bool {
    match v {
        Val::Int(s, b, n) => s == signed && b == bits && in_range(n, signed, bits),
        _ => false,
    }
}

pub open spec fn is_float(v: Val, bits: nat) -> bool {
    match v {
        Val::Float(b, n) => b == bits && in_range(n, false, bits),
        _ => false,
    }
}

/// Whether `v` is a native text or slice of elements of type `t`.
pub open spec fn is_slice(v: Val, t: Seq<char>) -> bool {
    match v {
        Val::Slice(a, n, u) => {
            &&& u == t
            &&& is_address(a)
            &&& is_address(n)
            &&& n == 0 <==> a == 0
        },
        _ => false,
    }
}

pub open spec fn is_ptr(v: Val, t: Seq<char>) -> bool {
    match v {
        Val::Ptr(a, u) => u == t && is_address(a),
        _ => false,
    }
}

pub open spec fn is_view(v: Val, r: Rec, t: Seq<char>) -> bool {
    match v {
        Val::View(q, p, l) => q == r && is_ptr(*p, t) && is_int(*l, false, 64),
        _ => false,
    }
}

pub open spec fn is_managed(v: Val, r: Rec, t: Seq<char>) -> bool {
    match v {
        Val::Managed(q, a, p, l, c) => {
            &&& q == r
            &&& is_ptr(*a, "dynspire::managed::DynSpireAllocator"@)
            &&& is_ptr(*p, t)
            &&& is_int(*l, false, 64)
            &&& is_int(*c, false, 64)
        },
        _ => false,
    }
}

pub open spec fn is_object(v: Val, name: Seq<char>) -> bool {
    match v {
        Val::Object(a, t) => t == name && is_address(a),
        _ => false,
    }
}

/// Whether `v` is a value of type `ft`.
pub open spec fn has_type(v: Val, ft: Ty, types: Seq<Decl>, depth: nat) -> bool
    decreases 4 * depth, ft, 0nat,
{
    match ft {
        Ty::Unit => v == Val::Tuple(Seq::empty()),
        Ty::Bool => v is Bool,
        Ty::U8 => is_int(v, false, 8),
        Ty::U16 => is_int(v, false, 16),
        Ty::U32 => is_int(v, false, 32),
        Ty::U64 => is_int(v, false, 64),
        Ty::I8 => is_int(v, true, 8),
        Ty::I16 => is_int(v, true, 16),
        Ty::I32 => is_int(v, true, 32),
        Ty::I64 => is_int(v, true, 64),
        Ty::F32 => is_float(v, 32),
        Ty::F64 => is_float(v, 64),
        Ty::Str => is_slice(v, "u8"@),
        Ty::U8Slice => is_slice(v, "u8"@),
        Ty::String => is_slice(v, "u8"@),
        Ty::Vec(t) => is_slice(v, t.rust_type()),
        Ty::OutU8Vec => is_ptr(v, "Vec<u8>"@),
        Ty::RefMut(t) => is_ptr(v, t.rust_type()),
        Ty::DStr => is_view(v, Rec::DStr, "u8"@),
        Ty::DSlice(t) => is_view(v, Rec::DSlice(t.rust_type()), t.rust_type()),
        Ty::DString => is_managed(v, Rec::DString, "u8"@),
        Ty::DVec(t) => is_managed(v, Rec::DVec(t.rust_type()), t.rust_type()),
        Ty::Option(t) => match v {
            Val::Nil => true,
            Val::Just(x) => has_type(*x, *t, types, depth),
            _ => false,
        },
        Ty::DOption(t) => match v {
            Val::Nil => true,
            Val::Just(x) => has_type(*x, *t, types, depth),
            _ => false,
        },
        Ty::Ref(t) => match *t {
            Ty::DString => is_view(v, Rec::DStr, "u8"@),
            Ty::DVec(e) => is_view(v, Rec::DSlice(e.rust_type()), e.rust_type()),
            other => has_type(v, other, types, depth),
        },
        // In Rust, one type in parentheses is no tuple.
        Ty::Tuple(ts) => match v {
            Val::Tuple(vs) => vs.len() == ts.len() && ts.len() != 1 && have_types(
                vs,
                ts,
                ts.len(),
                types,
                depth,
            ),
            _ => false,
        },
        Ty::Array(t, n) => match v {
            Val::List(vs) => vs.len() == n && forall|i: int|
                0 <= i < vs.len() ==> has_type(#[trigger] vs[i], *t, types, depth),
            _ => false,
        },
        Ty::Named(name) => match lookup(types, name) {
            None => false,
            Some(Decl::Struct(s)) => if s.fields.len() == 0 {
                v == Val::Nothing(name)
            } else {
                is_object(v, name)
            },
            Some(Decl::Opaque(_)) => is_object(v, name),
            Some(Decl::Enum(e)) => depth > 0 && is_variant(v, e, types, (depth - 1) as nat),
        },
    }
}

/// Whether the first `n` values are of the types `ts`.
pub open spec fn have_types(vs: Seq<Val>, ts: Seq<Ty>, n: nat, types: Seq<Decl>, depth: nat) -> bool
    decreases 4 * depth, ts, n,
{
    n == 0 || n > ts.len() || (has_type(vs[n - 1], ts[n - 1], types, depth) && have_types(
        vs,
        ts,
        (n - 1) as nat,
        types,
        depth,
    ))
}

/// Whether the first `n` values are of the types of fields.
pub open spec fn fields_have_types(
    vs: Seq<Val>,
    fs: Seq<Ty>,
    n: nat,
    types: Seq<Decl>,
    depth: nat,
) -> bool
    decreases 4 * depth + 1, fs, n,
{
    n == 0 || n > fs.len() || (has_type(vs[n - 1], fs[n - 1].field_dtype(), types, depth)
        && fields_have_types(vs, fs, (n - 1) as nat, types, depth))
}

/// The number of the first variant from `i` on of that name.
pub open spec fn variant_from(vs: Seq<VariantModel>, name: Seq<char>, i: nat) -> nat
    decreases vs.len() - i,
{
    if i >= vs.len() || vs[i as int].name == name {
        i
    } else {
        variant_from(vs, name, i + 1)
    }
}

/// Whether `v` is a value of an enum.
pub open spec fn is_variant(v: Val, e: EnumModel, types: Seq<Decl>, depth: nat) -> bool
    decreases 4 * depth + 2, e, 0nat,
{
    match v {
        Val::Variant(n, name, vs) => {
            let i = variant_from(e.variants, name, 0);
            &&& n == e.name
            &&& i < e.variants.len()
            &&& is_address(i as int)
            &&& vs.len() == e.variants[i as int].fields.len()
            &&& fields_have_types(
                vs,
                e.variants[i as int].fields,
                e.variants[i as int].fields.len(),
                types,
                depth,
            )
        },
        _ => false,
    }
}

/// The slot of a value that takes one.
pub open spec fn slot(v: Val) -> u64 {
    match v {
        Val::Bool(b) => if b {
            1
        } else {
            0
        },
        Val::Int(_, _, n) => wrap(n, false, 64) as u64,
        Val::Float(_, n) => n as u64,
        Val::Ptr(a, _) => a as u64,
        Val::Object(a, _) => a as u64,
        Val::Nothing(_) => 1,
        _ => 0,
    }
}

/// The first `n` words of a list of bytes.
pub open spec fn words(vs: Seq<Val>, n: nat) -> Seq<u64>
    decreases n,
{
    if n == 0 {
        Seq::empty()
    } else {
        words(vs, (n - 1) as nat).push(
            spec_u64_from_le_bytes(bytes_of(vs.subrange((n - 1) * 8, (n - 1) * 8 + 8))->Some_0),
        )
    }
}

/// The slots of a value of type `ft`.
pub open spec fn wire(v: Val, ft: Ty, types: Seq<Decl>, depth: nat) -> Seq<u64>
    decreases 4 * depth, ft, 0nat,
{
    match ft {
        Ty::Unit => Seq::empty(),
        Ty::Str => slice_wire(v),
        Ty::U8Slice => slice_wire(v),
        Ty::String => slice_wire(v),
        Ty::Vec(_) => slice_wire(v),
        Ty::DStr => view_wire(v),
        Ty::DSlice(_) => view_wire(v),
        Ty::DString => managed_wire(v),
        Ty::DVec(_) => managed_wire(v),
        Ty::Option(t) => match v {
            Val::Just(x) => seq![1u64] + wire(*x, *t, types, depth),
            _ => seq![0u64],
        },
        Ty::DOption(t) => match v {
            Val::Just(x) => seq![1u64] + wire(*x, *t, types, depth),
            _ => seq![0u64],
        },
        Ty::Ref(t) => match *t {
            Ty::DString => view_wire(v),
            Ty::DVec(_) => view_wire(v),
            other => wire(v, other, types, depth),
        },
        Ty::Tuple(ts) => tuple_wire(v->Tuple_0, ts, ts.len(), types, depth),
        Ty::Array(t, n) => if *t is U8 && n % 8 == 0 {
            words(v->List_0, n / 8)
        } else {
            list_wire(v->List_0, *t, n, types, depth)
        },
        Ty::Named(name) => match lookup(types, name) {
            Some(Decl::Enum(e)) => if depth == 0 {
                Seq::empty()
            } else {
                variant_wire(v, e, types, (depth - 1) as nat)
            },
            _ => seq![slot(v)],
        },
        _ => seq![slot(v)],
    }
}

pub open spec fn slice_wire(v: Val) -> Seq<u64> {
    match v {
        Val::Slice(a, n, _) => seq![
            if n == 0 {
                1u64
            } else {
                a as u64
            },
            n as u64,
        ],
        _ => Seq::empty(),
    }
}

pub open spec fn view_wire(v: Val) -> Seq<u64> {
    match v {
        Val::View(_, p, l) => seq![slot(*p), slot(*l)],
        _ => Seq::empty(),
    }
}

pub open spec fn managed_wire(v: Val) -> Seq<u64> {
    match v {
        Val::Managed(_, a, p, l, c) => seq![slot(*a), slot(*p), slot(*l), slot(*c)],
        _ => Seq::empty(),
    }
}

pub open spec fn tuple_wire(
    vs: Seq<Val>,
    ts: Seq<Ty>,
    n: nat,
    types: Seq<Decl>,
    depth: nat,
) -> Seq<u64>
    decreases 4 * depth, ts, n,
{
    if n == 0 || n > ts.len() {
        Seq::empty()
    } else {
        tuple_wire(vs, ts, (n - 1) as nat, types, depth) + wire(
            vs[n - 1],
            ts[n - 1],
            types,
            depth,
        )
    }
}

pub open spec fn list_wire(vs: Seq<Val>, t: Ty, n: nat, types: Seq<Decl>, depth: nat) -> Seq<u64>
    decreases 4 * depth, t, 1 + n,
{
    if n == 0 {
        Seq::empty()
    } else {
        list_wire(vs, t, (n - 1) as nat, types, depth) + wire(vs[n - 1], t, types, depth)
    }
}

pub open spec fn fields_wire(
    vs: Seq<Val>,
    fs: Seq<Ty>,
    n: nat,
    types: Seq<Decl>,
    depth: nat,
) -> Seq<u64>
    decreases 4 * depth + 1, fs, n,
{
    if n == 0 || n > fs.len() {
        Seq::empty()
    } else {
        fields_wire(vs, fs, (n - 1) as nat, types, depth) + wire(
            vs[n - 1],
            fs[n - 1].field_dtype(),
            types,
            depth,
        )
    }
}

pub open spec fn variant_wire(v: Val, e: EnumModel, types: Seq<Decl>, depth: nat) -> Seq<u64>
    decreases 4 * depth + 2, e, 0nat,
{
    match v {
        Val::Variant(_, name, vs) => {
            let i = variant_from(e.variants, name, 0);
            seq![i as u64] + fields_wire(
                vs,
                e.variants[i as int].fields,
                e.variants[i as int].fields.len(),
                types,
                depth,
            )
        },
        _ => Seq::empty(),
    }
}

// ---------------------------------------------------------------------------
// How programs are put together
// ---------------------------------------------------------------------------

/// Whether `e` comes to `v` and takes these slots, whatever is behind them.
pub open spec fn takes(e: Ex, env: Map<Seq<char>, Val>, slots: Seq<u64>, v: Val) -> bool {
    forall|m: Machine|
        m.env == env && slots.is_prefix_of(m.ins) ==> #[trigger] eval(e, m) == Some(
            (v, Machine { ins: m.ins.skip(slots.len() as int), ..m }),
        )
}

/// Whether `e` comes to `v` without a slot.
pub open spec fn gives(e: Ex, env: Map<Seq<char>, Val>, v: Val) -> bool {
    forall|m: Machine| m.env == env ==> #[trigger] eval(e, m) == Some((v, m))
}

/// Whether statements put these slots, and do nothing else.
pub open spec fn puts(ss: Seq<St>, env: Map<Seq<char>, Val>, slots: Seq<u64>) -> bool {
    forall|m: Machine|
        m.env == env ==> #[trigger] run(ss, ss.len(), m) == Some(
            Machine { outs: m.outs + slots, ..m },
        )
}

pub(crate) proof fn lemma_gives_takes(e: Ex, env: Map<Seq<char>, Val>, v: Val)
    ensures
        gives(e, env, v) <==> takes(e, env, Seq::empty(), v),
{
    let none = Seq::<u64>::empty();
    assert forall|m: Machine| #![trigger eval(e, m)] none.is_prefix_of(m.ins) && m == (Machine {
        ins: m.ins.skip(none.len() as int),
        ..m
    }) by {
        assert(m.ins.skip(0) =~= m.ins);
        assert(none =~= m.ins.subrange(0, 0));
    }
}

/// What an expression with one part makes of the value of the part.
pub open spec fn on(e: Ex, v: Val) -> Option<Val> {
    match e {
        Ex::Field(_, f) => get_field(v, f),
        Ex::Part(_, i) => match v {
            Val::Tuple(vs) => if i < vs.len() {
                Some(vs[i as int])
            } else {
                None
            },
            _ => None,
        },
        Ex::At(_, i) => match v {
            Val::List(vs) => if i < vs.len() {
                Some(vs[i as int])
            } else {
                None
            },
            _ => None,
        },
        Ex::Range(_, i, j) => match v {
            Val::List(vs) => if i <= j <= vs.len() {
                Some(Val::List(vs.subrange(i as int, j as int)))
            } else {
                None
            },
            _ => None,
        },
        Ex::Star(_) => match v {
            Val::Ptr(a, t) => Some(Val::Object(a, t)),
            _ => Some(v),
        },
        Ex::Paren(_) => Some(v),
        Ex::Ref(_) => match v {
            Val::Object(a, t) => Some(Val::Ptr(a, t)),
            _ => Some(v),
        },
        Ex::RefMut(_) => match v {
            Val::Object(a, t) => Some(Val::Ptr(a, t)),
            _ => None,
        },
        Ex::Call(_, k) => if v is Reader {
            None
        } else {
            call(v, k)
        },
        Ex::As(_, c) => cast(v, c),
        Ex::Eq(_, n) => match number_in(v) {
            Some(x) => Some(Val::Bool(x == n)),
            None => None,
        },
        Ex::Ne(_, n) => match number_in(v) {
            Some(x) => Some(Val::Bool(x != n)),
            None => None,
        },
        Ex::DSome(_, _) => Some(Val::Just(Box::new(v))),
        _ => None,
    }
}

/// The part of such an expression.
pub open spec fn part(e: Ex) -> Ex {
    match e {
        Ex::Field(a, _) => *a,
        Ex::Part(a, _) => *a,
        Ex::At(a, _) => *a,
        Ex::Range(a, _, _) => *a,
        Ex::Star(a) => *a,
        Ex::Paren(a) => *a,
        Ex::Ref(a) => *a,
        Ex::RefMut(a) => *a,
        Ex::Call(a, _) => *a,
        Ex::As(a, _) => *a,
        Ex::Eq(a, _) => *a,
        Ex::Ne(a, _) => *a,
        Ex::DSome(_, a) => *a,
        _ => e,
    }
}

pub(crate) proof fn lemma_on(e: Ex, env: Map<Seq<char>, Val>, slots: Seq<u64>, v: Val)
    requires
        takes(part(e), env, slots, v),
        on(e, v) is Some,
    ensures
        takes(e, env, slots, on(e, v)->Some_0),
{
    let a = part(e);
    assert forall|m: Machine| m.env == env && slots.is_prefix_of(m.ins) implies #[trigger] eval(
        e,
        m,
    ) == Some((on(e, v)->Some_0, Machine { ins: m.ins.skip(slots.len() as int), ..m })) by {
        assert(eval(a, m) == Some((v, Machine { ins: m.ins.skip(slots.len() as int), ..m })));
    }
}

pub(crate) proof fn lemma_gives_on(e: Ex, env: Map<Seq<char>, Val>, v: Val) -> (x: Val)
    requires
        gives(part(e), env, v),
        on(e, v) is Some,
    ensures
        x == on(e, v)->Some_0,
        gives(e, env, x),
{
    lemma_gives_takes(part(e), env, v);
    lemma_on(e, env, Seq::empty(), v);
    lemma_gives_takes(e, env, on(e, v)->Some_0);
    on(e, v)->Some_0
}

pub(crate) proof fn lemma_name(x: Seq<char>, env: Map<Seq<char>, Val>)
    requires
        env.contains_key(x),
    ensures
        gives(Ex::Name(x), env, env[x]),
{
}

pub(crate) proof fn lemma_apply(f: Fun, e: Ex, env: Map<Seq<char>, Val>, slots: Seq<u64>, v: Val)
    requires
        takes(e, env, slots, v),
        apply(f, seq![v]) is Some,
    ensures
        takes(Ex::Apply(f, seq![e]), env, slots, apply(f, seq![v])->Some_0),
{
    let es = seq![e];
    assert forall|m: Machine| m.env == env && slots.is_prefix_of(m.ins) implies #[trigger] eval(
        Ex::Apply(f, es),
        m,
    ) == Some(
        (apply(f, seq![v])->Some_0, Machine { ins: m.ins.skip(slots.len() as int), ..m }),
    ) by {
        let m1 = Machine { ins: m.ins.skip(slots.len() as int), ..m };
        assert(eval(e, m) == Some((v, m1)));
        assert(eval_list(es, 0, m) == Some((Seq::<Val>::empty(), m)));
        assert(Seq::<Val>::empty().push(v) =~= seq![v]);
        assert(eval_list(es, 1, m) == Some((seq![v], m1)));
    }
}

pub(crate) proof fn lemma_gives_apply(f: Fun, e: Ex, env: Map<Seq<char>, Val>, v: Val) -> (x: Val)
    requires
        gives(e, env, v),
        apply(f, seq![v]) is Some,
    ensures
        x == apply(f, seq![v])->Some_0,
        gives(Ex::Apply(f, seq![e]), env, x),
{
    lemma_gives_takes(e, env, v);
    lemma_apply(f, e, env, Seq::empty(), v);
    lemma_gives_takes(Ex::Apply(f, seq![e]), env, apply(f, seq![v])->Some_0);
    apply(f, seq![v])->Some_0
}

/// Slots side by side are taken one after the other.
pub(crate) proof fn lemma_split(a: Seq<u64>, b: Seq<u64>, ins: Seq<u64>)
    requires
        (a + b).is_prefix_of(ins),
    ensures
        a.is_prefix_of(ins),
        b.is_prefix_of(ins.skip(a.len() as int)),
        ins.skip(a.len() as int).skip(b.len() as int) == ins.skip((a + b).len() as int),
{
    let c = a + b;
    assert(c =~= ins.subrange(0, c.len() as int));
    assert forall|i: int| 0 <= i < c.len() implies c[i] == ins[i] by {
        assert(ins.subrange(0, c.len() as int)[i] == ins[i]);
    }
    assert(a =~= ins.subrange(0, a.len() as int)) by {
        assert forall|i: int| 0 <= i < a.len() implies a[i] == ins[i] by {
            assert(c[i] == a[i]);
        }
    }
    let rest = ins.skip(a.len() as int);
    assert(b =~= rest.subrange(0, b.len() as int)) by {
        assert forall|i: int| 0 <= i < b.len() implies b[i] == rest[i] by {
            assert(c[a.len() + i] == b[i]);
        }
    }
    assert(rest.skip(b.len() as int) =~= ins.skip(c.len() as int));
}

pub(crate) proof fn lemma_run_join(a: Seq<St>, b: Seq<St>, n: nat, m: Machine)
    requires
        n <= b.len(),
    ensures
        run(a + b, a.len() + n, m) == match run(a, a.len(), m) {
            Some(m1) => run(b, n, m1),
            None => None,
        },
    decreases n,
{
    if n == 0 {
        lemma_run_head(a, b, a.len(), m);
    } else {
        lemma_run_join(a, b, (n - 1) as nat, m);
        assert((a + b)[a.len() + n - 1] == b[n - 1]);
    }
}

pub(crate) proof fn lemma_run_head(a: Seq<St>, b: Seq<St>, n: nat, m: Machine)
    requires
        n <= a.len(),
    ensures
        run(a + b, n, m) == run(a, n, m),
    decreases n,
{
    if n > 0 {
        lemma_run_head(a, b, (n - 1) as nat, m);
        assert((a + b)[n - 1] == a[n - 1]);
    }
}

pub(crate) proof fn lemma_lines_join(a: Seq<St>, b: Seq<St>)
    ensures
        lines(a + b, (a + b).len()) == lines(a, a.len()) + lines(b, b.len()),
{
    lemma_lines_from(a, b, b.len());
}

pub(crate) proof fn lemma_lines_from(a: Seq<St>, b: Seq<St>, n: nat)
    requires
        n <= b.len(),
    ensures
        lines(a + b, a.len() + n) == lines(a, a.len()) + lines(b, n),
    decreases n,
{
    if n == 0 {
        lemma_lines_head(a, b, a.len());
        assert(lines(a, a.len()) + lines(b, 0) =~= lines(a, a.len()));
    } else {
        lemma_lines_from(a, b, (n - 1) as nat);
        assert((a + b)[a.len() + n - 1] == b[n - 1]);
        assert(lines(a + b, a.len() + n) =~= lines(a, a.len()) + lines(b, n));
    }
}

pub(crate) proof fn lemma_lines_head(a: Seq<St>, b: Seq<St>, n: nat)
    requires
        n <= a.len(),
    ensures
        lines(a + b, n) == lines(a, n),
    decreases n,
{
    if n > 0 {
        lemma_lines_head(a, b, (n - 1) as nat);
        assert((a + b)[n - 1] == a[n - 1]);
    }
}

pub(crate) proof fn lemma_puts_join(a: Seq<St>, x: Seq<u64>, b: Seq<St>, y: Seq<u64>, env: Map<Seq<char>, Val>)
    requires
        puts(a, env, x),
        puts(b, env, y),
    ensures
        puts(a + b, env, x + y),
{
    assert forall|m: Machine| m.env == env implies #[trigger] run(a + b, (a + b).len(), m) == Some(
        Machine { outs: m.outs + (x + y), ..m },
    ) by {
        lemma_run_join(a, b, b.len(), m);
        let m1 = Machine { outs: m.outs + x, ..m };
        assert(run(a, a.len(), m) == Some(m1));
        assert(run(b, b.len(), m1) == Some(Machine { outs: m1.outs + y, ..m1 }));
        assert(m.outs + x + y =~= m.outs + (x + y));
    }
}

pub(crate) proof fn lemma_no_puts(env: Map<Seq<char>, Val>)
    ensures
        puts(Seq::empty(), env, Seq::empty()),
        lines(Seq::empty(), 0) == Seq::<char>::empty(),
{
    assert forall|m: Machine| m.env == env implies #[trigger] run(Seq::empty(), 0, m) == Some(
        Machine { outs: m.outs + Seq::<u64>::empty(), ..m },
    ) by {
        assert(m.outs + Seq::<u64>::empty() =~= m.outs);
    }
}

pub(crate) proof fn lemma_one_line(s: St)
    ensures
        lines(seq![s], 1) == line(s),
{
    let p = seq![s];
    assert(p[0] == s && p.len() == 1);
    assert(lines(p, 0) =~= Seq::empty());
    assert(lines(p, 1) =~= line(p[0]));
}

pub(crate) proof fn lemma_one_step(s: St, m: Machine)
    ensures
        run(seq![s], 1, m) == step(s, m),
{
    let p = seq![s];
    assert(p[0] == s && p.len() == 1);
    assert(run(p, 0, m) == Some(m));
    assert(run(p, 1, m) == step(p[0], m));
}

pub(crate) proof fn lemma_one_put(w: Seq<char>, e: Ex, env: Map<Seq<char>, Val>, n: int)
    requires
        env.contains_key(w),
        env[w] is Writer,
        gives(e, env, Val::Int(false, 64, n)),
    ensures
        puts(seq![St::Put(w, e)], env, seq![n as u64]),
        lines(seq![St::Put(w, e)], 1) == w + ".write_u64("@ + text(e) + ");"@,
{
    let s = St::Put(w, e);
    let p = seq![s];
    assert(line(s) == w + ".write_u64("@ + text(e) + ");"@);
    lemma_one_line(s);
    assert forall|m: Machine| m.env == env implies #[trigger] run(p, p.len(), m) == Some(
        Machine { outs: m.outs + seq![n as u64], ..m },
    ) by {
        assert(eval(e, m) == Some((Val::Int(false, 64, n), m)));
        lemma_one_step(s, m);
        assert(m.outs.push(n as u64) =~= m.outs + seq![n as u64]);
        assert(step(s, m) == Some(Machine { outs: m.outs.push(n as u64), ..m }));
    }
}

pub(crate) proof fn lemma_blank(env: Map<Seq<char>, Val>)
    ensures
        puts(seq![St::Blank(" "@)], env, Seq::empty()),
        lines(seq![St::Blank(" "@)], 1) == " "@,
{
    let p = seq![St::Blank(" "@)];
    reveal_strlit(" ");
    lemma_one_line(St::Blank(" "@));
    assert forall|m: Machine| m.env == env implies #[trigger] run(p, p.len(), m) == Some(
        Machine { outs: m.outs + Seq::<u64>::empty(), ..m },
    ) by {
        lemma_one_step(St::Blank(" "@), m);
        assert(m.outs + Seq::<u64>::empty() =~= m.outs);
    }
}

/// Statements that put the values of the first `n` expressions.
pub open spec fn put_all(w: Seq<char>, es: Seq<Ex>, n: nat) -> Seq<St>
    decreases n,
{
    if n == 0 {
        Seq::empty()
    } else if n == 1 {
        seq![St::Put(w, es[0])]
    } else {
        put_all(w, es, (n - 1) as nat) + (seq![St::Blank(" "@)] + seq![St::Put(w, es[n - 1])])
    }
}

/// How they are written.
pub open spec fn put_texts(w: Seq<char>, es: Seq<Ex>, n: nat) -> Seq<char>
    decreases n,
{
    if n == 0 {
        Seq::empty()
    } else if n == 1 {
        w + ".write_u64("@ + text(es[0]) + ");"@
    } else {
        put_texts(w, es, (n - 1) as nat) + " "@ + (w + ".write_u64("@ + text(es[n - 1]) + ");"@)
    }
}

pub(crate) proof fn lemma_put_all(w: Seq<char>, es: Seq<Ex>, ns: Seq<int>, n: nat, env: Map<Seq<char>, Val>)
    requires
        env.contains_key(w),
        env[w] is Writer,
        n <= es.len() == ns.len(),
        forall|i: int| 0 <= i < n ==> gives(es[i], env, Val::Int(false, 64, #[trigger] ns[i])),
    ensures
        puts(put_all(w, es, n), env, Seq::new(n, |i: int| ns[i] as u64)),
        lines(put_all(w, es, n), put_all(w, es, n).len()) == put_texts(w, es, n),
    decreases n,
{
    let slots = Seq::new(n, |i: int| ns[i] as u64);
    if n == 0 {
        lemma_no_puts(env);
        assert(slots =~= Seq::empty());
    } else {
        assert(gives(es[n - 1], env, Val::Int(false, 64, ns[n - 1])));
        lemma_one_put(w, es[n - 1], env, ns[n - 1]);
        if n == 1 {
            assert(slots =~= seq![ns[0] as u64]);
        } else {
            let a = put_all(w, es, (n - 1) as nat);
            let b = seq![St::Blank(" "@)];
            let c = seq![St::Put(w, es[n - 1])];
            let before = Seq::new((n - 1) as nat, |i: int| ns[i] as u64);
            lemma_put_all(w, es, ns, (n - 1) as nat, env);
            lemma_blank(env);
            let last = seq![ns[n - 1] as u64];
            lemma_puts_join(b, Seq::empty(), c, last, env);
            lemma_puts_join(a, before, b + c, Seq::<u64>::empty() + last, env);
            assert(before + (Seq::<u64>::empty() + last) =~= slots);
            lemma_lines_join(b, c);
            lemma_lines_join(a, b + c);
            assert(put_texts(w, es, (n - 1) as nat) + (" "@ + (w + ".write_u64("@ + text(es[n - 1])
                + ");"@)) =~= put_texts(w, es, n));
        }
    }
}

} // verus!
