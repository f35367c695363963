//! What generated Rust writes to slots, generated Python reads.
//!
//! A part of Python: how its expressions are written, and what they come to on
//! given slots. The expression that reads a value, run on the slots that Rust
//! puts for the value, comes to that value in Python.
use vstd::bytes::{
    lemma_auto_spec_u64_to_from_le_bytes, spec_u64_from_le_bytes, spec_u64_to_le_bytes,
};
use vstd::prelude::*;

use crate::ast::{Decl, EnumModel, Ty, VariantModel};
use crate::codec::{lookup, write_code};
use crate::exchange::{is_free, kept, no_single, what_is_written_is_read_back, writes};
use crate::pygen::{py_enum_read_expr, py_read_arms, py_read_code, py_read_list, repeat_list};
use crate::rustmodel::{
    bytes_of, field_name, fitting_numbers_are_kept, slots_hold_integers, unsigned, wrap, Val,
};
use crate::rusttext::{alike, lemma_casts, lemma_end, lemma_regroup};
use crate::rustwire::{
    fields_have_types, fields_wire, has_type, have_types, is_address, is_variant, lemma_split,
    list_wire, managed_wire, slice_wire, slot, tuple_wire, variant_from, variant_wire, view_wire,
    wire, words,
};
use crate::text::dec;

verus! {

// ---------------------------------------------------------------------------
// Values and expressions
// ---------------------------------------------------------------------------

/// What a run of bytes is taken for: text, bytes, a list of texts or of bytes.
pub enum Kind {
    Text,
    Bytes,
    Texts,
    Lists,
}

/// A value in Python.
pub enum PyVal {
    Nothing,
    Bool(bool),
    Int(int),
    /// A floating point number: its size and its bits.
    Float(nat, int),
    /// `""`, `b""` or `[]`.
    Empty(Kind),
    /// A copy of what stands at an address: its kind, the address, the length.
    At(Kind, int, int),
    Bytes(Seq<u8>),
    Tuple(Seq<PyVal>),
    List(Seq<PyVal>),
    /// A variant of an enum: the enum, the variant and its fields.
    Variant(Seq<char>, Seq<char>, Seq<PyVal>),
    /// An object of a class of the runtime, made by the client.
    Handle(Seq<char>, Seq<PyVal>),
    /// An object of a generated class for what stands at an address.
    Object(Seq<char>, int),
}

/// A method of a reader of slots.
pub enum Get {
    Raw,
    Bool,
    U8,
    U16,
    U32,
    U64,
    I8,
    I16,
    I32,
    I64,
    F32,
    F64,
    Text,
    Bytes,
    Texts,
    Lists,
}

/// An expression.
pub enum Py {
    Nothing,
    EmptyText,
    EmptyBytes,
    Name(Seq<char>),
    Read(Seq<char>, Get),
    Eq(Box<Py>, nat),
    /// The value, the condition, and the value if it is not met.
    If(Box<Py>, Box<Py>, Box<Py>),
    Tuple(Seq<Py>),
    List(Seq<Py>),
    Join(Seq<Py>),
    LeBytes(Box<Py>),
    StringAt(Box<Py>, Box<Py>),
    Decode(Box<Py>),
    /// An object of a class, made by the client.
    New(Seq<char>, Seq<Py>),
    FromPtr(Seq<char>, Box<Py>),
    Variant(Seq<char>, Seq<char>, Seq<Py>),
    /// The parameters of a function, its body, and what it is called with.
    Lambda(Seq<Seq<char>>, Box<Py>, Seq<Py>),
    /// The error for a number that no variant of the enum has.
    Invalid(Seq<char>),
}

/// A call of a method of a reader.
pub open spec fn get_text(g: Get) -> Seq<char> {
    match g {
        Get::Raw => ".read()"@,
        Get::Bool => ".read_bool()"@,
        Get::U8 => ".read_u8()"@,
        Get::U16 => ".read_u16()"@,
        Get::U32 => ".read_u32()"@,
        Get::U64 => ".read_u64()"@,
        Get::I8 => ".read_i8()"@,
        Get::I16 => ".read_i16()"@,
        Get::I32 => ".read_i32()"@,
        Get::I64 => ".read_i64()"@,
        Get::F32 => ".read_f32()"@,
        Get::F64 => ".read_f64()"@,
        Get::Text => ".read_string()"@,
        Get::Bytes => ".read_bytes()"@,
        Get::Texts => ".read_vec_string()"@,
        Get::Lists => ".read_vec_bytes()"@,
    }
}

/// An expression in Python.
pub open spec fn py_text(e: Py) -> Seq<char>
    decreases e, 0nat,
{
    match e {
        Py::Nothing => "None"@,
        Py::EmptyText => "\"\""@,
        Py::EmptyBytes => "b\"\""@,
        Py::Name(x) => x,
        Py::Read(r, g) => r + get_text(g),
        Py::Eq(a, n) => py_text(*a) + " == "@ + dec(n),
        Py::If(a, c, b) => py_text(*a) + " if "@ + py_text(*c) + " else "@ + py_text(*b),
        Py::Tuple(es) => if es.len() == 1 {
            "("@ + py_texts(es, 1) + ",)"@
        } else {
            "("@ + py_texts(es, es.len()) + ")"@
        },
        Py::List(es) => "["@ + py_texts(es, es.len()) + "]"@,
        Py::Join(es) => "b''.join(["@ + py_texts(es, es.len()) + "])"@,
        Py::LeBytes(a) => py_text(*a) + ".to_bytes(8, 'little')"@,
        Py::StringAt(p, n) => "ctypes.string_at("@ + py_text(*p) + ", "@ + py_text(*n) + ")"@,
        Py::Decode(a) => py_text(*a) + ".decode('utf-8', 'replace')"@,
        Py::New(class, es) => class + "(self, "@ + py_texts(es, es.len()) + ")"@,
        Py::FromPtr(name, a) => name + "._from_ptr(self, "@ + py_text(*a) + ")"@,
        Py::Variant(n, v, es) => if es.len() == 0 {
            n + "('"@ + v + "')"@
        } else {
            n + "('"@ + v + "', "@ + py_texts(es, es.len()) + ")"@
        },
        Py::Lambda(ps, a, es) => "(lambda "@ + names_text(ps, ps.len()) + ": "@ + py_text(*a)
            + ")("@ + py_texts(es, es.len()) + ")"@,
        Py::Invalid(n) => "(_ for _ in ()).throw(DynSpireError('invalid "@ + n
            + " discriminant ' + str(__d)))"@,
    }
}

/// The first `n` expressions, separated by commas.
pub open spec fn py_texts(es: Seq<Py>, n: nat) -> Seq<char>
    decreases es, n,
{
    if n == 0 || n > es.len() {
        Seq::empty()
    } else if n == 1 {
        py_text(es[0])
    } else {
        py_texts(es, (n - 1) as nat) + ", "@ + py_text(es[n - 1])
    }
}

/// The first `n` names, separated by commas.
pub open spec fn names_text(ps: Seq<Seq<char>>, n: nat) -> Seq<char>
    decreases n,
{
    if n == 0 || n > ps.len() {
        Seq::empty()
    } else if n == 1 {
        ps[0]
    } else {
        names_text(ps, (n - 1) as nat) + ", "@ + ps[n - 1]
    }
}

// ---------------------------------------------------------------------------
// What expressions come to
// ---------------------------------------------------------------------------

/// The state of a run: what names stand for, the name of the reader, and the
/// slots that it still has.
pub struct PyState {
    pub env: Map<Seq<char>, PyVal>,
    pub reader: Seq<char>,
    pub ins: Seq<u64>,
}

/// What a run of bytes at an address is, if there is one.
pub open spec fn py_run(k: Kind, p: int, n: int) -> PyVal {
    if p == 0 || n == 0 {
        PyVal::Empty(k)
    } else {
        PyVal::At(k, p, n)
    }
}

/// What a method makes of the slots that it reads, and their number.
pub open spec fn got(g: Get, ins: Seq<u64>) -> Option<(PyVal, nat)> {
    if ins.len() == 0 {
        None
    } else {
        let n = ins[0] as int;
        match g {
            Get::Raw => Some((PyVal::Int(n), 1)),
            Get::Bool => Some((PyVal::Bool(n != 0), 1)),
            Get::U8 => Some((PyVal::Int(wrap(n, false, 8)), 1)),
            Get::U16 => Some((PyVal::Int(wrap(n, false, 16)), 1)),
            Get::U32 => Some((PyVal::Int(wrap(n, false, 32)), 1)),
            Get::U64 => Some((PyVal::Int(n), 1)),
            Get::I8 => Some((PyVal::Int(wrap(n, true, 8)), 1)),
            Get::I16 => Some((PyVal::Int(wrap(n, true, 16)), 1)),
            Get::I32 => Some((PyVal::Int(wrap(n, true, 32)), 1)),
            Get::I64 => Some((PyVal::Int(wrap(n, true, 64)), 1)),
            Get::F32 => Some((PyVal::Float(32, wrap(n, false, 32)), 1)),
            Get::F64 => Some((PyVal::Float(64, n), 1)),
            _ => if ins.len() < 2 {
                None
            } else {
                let k = match g {
                    Get::Text => Kind::Text,
                    Get::Texts => Kind::Texts,
                    Get::Lists => Kind::Lists,
                    _ => Kind::Bytes,
                };
                Some((py_run(k, n, ins[1] as int), 2))
            },
        }
    }
}

/// Whether a condition is met.
pub open spec fn truth(v: PyVal) -> Option<bool> {
    match v {
        PyVal::Bool(b) => Some(b),
        PyVal::Int(n) => Some(n != 0),
        _ => None,
    }
}

/// The bytes in the first `n` of a list of byte strings.
pub open spec fn joined_bytes(vs: Seq<PyVal>, n: nat) -> Option<Seq<u8>>
    decreases n,
{
    if n == 0 || n > vs.len() {
        Some(Seq::empty())
    } else {
        match (joined_bytes(vs, (n - 1) as nat), vs[n - 1]) {
            (Some(a), PyVal::Bytes(b)) => Some(a + b),
            _ => None,
        }
    }
}

/// Names bound to values, the first `n` of them.
pub open spec fn bound(
    env: Map<Seq<char>, PyVal>,
    ps: Seq<Seq<char>>,
    vs: Seq<PyVal>,
    n: nat,
) -> Map<Seq<char>, PyVal>
    decreases n,
{
    if n == 0 {
        env
    } else {
        bound(env, ps, vs, (n - 1) as nat).insert(ps[n - 1], vs[n - 1])
    }
}

/// What an expression comes to, and the state after it.
pub open spec fn py_eval(e: Py, m: PyState) -> Option<(PyVal, PyState)>
    decreases e, 0nat,
{
    match e {
        Py::Nothing => Some((PyVal::Nothing, m)),
        Py::EmptyText => Some((PyVal::Empty(Kind::Text), m)),
        Py::EmptyBytes => Some((PyVal::Empty(Kind::Bytes), m)),
        Py::Name(x) => if m.env.contains_key(x) {
            Some((m.env[x], m))
        } else {
            None
        },
        Py::Read(r, g) => match got(g, m.ins) {
            Some((v, n)) => if r == m.reader {
                Some((v, PyState { ins: m.ins.skip(n as int), ..m }))
            } else {
                None
            },
            None => None,
        },
        Py::Eq(a, n) => match py_eval(*a, m) {
            Some((PyVal::Int(x), m1)) => Some((PyVal::Bool(x == n), m1)),
            _ => None,
        },
        Py::If(a, c, b) => match py_eval(*c, m) {
            Some((v, m1)) => match truth(v) {
                Some(t) => if t {
                    py_eval(*a, m1)
                } else {
                    py_eval(*b, m1)
                },
                None => None,
            },
            None => None,
        },
        Py::Tuple(es) => match py_eval_all(es, es.len(), m) {
            Some((vs, m1)) => Some((PyVal::Tuple(vs), m1)),
            None => None,
        },
        Py::List(es) => match py_eval_all(es, es.len(), m) {
            Some((vs, m1)) => Some((PyVal::List(vs), m1)),
            None => None,
        },
        Py::Join(es) => match py_eval_all(es, es.len(), m) {
            Some((vs, m1)) => match joined_bytes(vs, vs.len()) {
                Some(b) => Some((PyVal::Bytes(b), m1)),
                None => None,
            },
            None => None,
        },
        Py::LeBytes(a) => match py_eval(*a, m) {
            Some((PyVal::Int(n), m1)) => Some(
                (PyVal::Bytes(spec_u64_to_le_bytes(n as u64)), m1),
            ),
            _ => None,
        },
        Py::StringAt(p, n) => match py_eval(*p, m) {
            Some((PyVal::Int(a), m1)) => match py_eval(*n, m1) {
                Some((PyVal::Int(l), m2)) => Some((PyVal::At(Kind::Bytes, a, l), m2)),
                _ => None,
            },
            _ => None,
        },
        Py::Decode(a) => match py_eval(*a, m) {
            Some((PyVal::At(Kind::Bytes, p, n), m1)) => Some((PyVal::At(Kind::Text, p, n), m1)),
            _ => None,
        },
        Py::New(class, es) => match py_eval_all(es, es.len(), m) {
            Some((vs, m1)) => Some((PyVal::Handle(class, vs), m1)),
            None => None,
        },
        Py::FromPtr(name, a) => match py_eval(*a, m) {
            Some((PyVal::Int(n), m1)) => Some((PyVal::Object(name, n), m1)),
            _ => None,
        },
        Py::Variant(n, v, es) => match py_eval_all(es, es.len(), m) {
            Some((vs, m1)) => Some((PyVal::Variant(n, v, vs), m1)),
            None => None,
        },
        Py::Lambda(ps, a, es) => match py_eval_all(es, es.len(), m) {
            Some((vs, m1)) => if vs.len() == ps.len() {
                match py_eval(*a, PyState { env: bound(m1.env, ps, vs, ps.len()), ..m1 }) {
                    Some((v, m2)) => Some((v, PyState { env: m.env, ..m2 })),
                    None => None,
                }
            } else {
                None
            },
            None => None,
        },
        Py::Invalid(_) => None,
    }
}

/// What the first `n` expressions come to, one after the other.
pub open spec fn py_eval_all(es: Seq<Py>, n: nat, m: PyState) -> Option<(Seq<PyVal>, PyState)>
    decreases es, n,
{
    if n == 0 || n > es.len() {
        Some((Seq::empty(), m))
    } else {
        match py_eval_all(es, (n - 1) as nat, m) {
            Some((vs, m1)) => match py_eval(es[n - 1], m1) {
                Some((v, m2)) => Some((vs.push(v), m2)),
                None => None,
            },
            None => None,
        }
    }
}

// ---------------------------------------------------------------------------
// Values of a type
// ---------------------------------------------------------------------------

/// Whether values of the type are read as returns: out-parameters are not, nor
/// structs without fields; one element in parentheses is no tuple, and the
/// fields of an enum have the types that they are laid out with.
pub open spec fn readable(ft: Ty, types: Seq<Decl>, depth: nat) -> bool
    decreases 4 * depth, ft, 0nat,
{
    match ft {
        Ty::OutU8Vec => false,
        Ty::RefMut(_) => false,
        Ty::Option(t) => readable(*t, types, depth),
        Ty::DOption(t) => readable(*t, types, depth),
        Ty::Ref(t) => match *t {
            Ty::DString => true,
            Ty::DVec(_) => true,
            other => readable(other, types, depth),
        },
        Ty::Tuple(ts) => ts.len() != 1 && all_readable(ts, ts.len(), types, depth),
        Ty::Array(t, _) => readable(*t, types, depth),
        Ty::Named(name) => match lookup(types, name) {
            None => false,
            Some(Decl::Struct(s)) => s.fields.len() > 0,
            Some(Decl::Opaque(_)) => true,
            Some(Decl::Enum(e)) => depth > 0 && enum_readable(e, types, (depth - 1) as nat),
        },
        _ => true,
    }
}

pub open spec fn all_readable(ts: Seq<Ty>, n: nat, types: Seq<Decl>, depth: nat) -> bool
    decreases 4 * depth, ts, n,
{
    n == 0 || n > ts.len() || (readable(ts[n - 1], types, depth) && all_readable(
        ts,
        (n - 1) as nat,
        types,
        depth,
    ))
}

pub open spec fn enum_readable(e: EnumModel, types: Seq<Decl>, depth: nat) -> bool
    decreases 4 * depth + 1, e, 0nat,
{
    forall|i: int, j: int|
        0 <= i < e.variants.len() && 0 <= j < e.variants[i].fields.len() ==> readable(
            #[trigger] e.variants[i].fields[j],
            types,
            depth,
        ) && e.variants[i].fields[j].field_dtype() == e.variants[i].fields[j]
}

/// A native text or slice in Python.
pub open spec fn py_slice(v: Val, k: Kind) -> PyVal {
    py_run(k, v->Slice_0, v->Slice_1)
}

/// What a view shows, in Python.
pub open spec fn py_view(v: Val, k: Kind) -> PyVal {
    let p = (*v->View_1)->Ptr_0;
    if p == 0 {
        PyVal::Empty(k)
    } else {
        PyVal::At(k, p, (*v->View_2)->Int_2)
    }
}

/// A managed text or vector in Python.
pub open spec fn py_handle(v: Val, class: Seq<char>) -> PyVal {
    PyVal::Handle(
        class,
        seq![
            PyVal::Int((*v->Managed_2)->Ptr_0),
            PyVal::Int((*v->Managed_3)->Int_2),
            PyVal::Int((*v->Managed_1)->Ptr_0),
        ],
    )
}

/// A value of type `ft` in Python. An optional value is `None` or the value
/// itself.
pub open spec fn py_value(v: Val, ft: Ty, types: Seq<Decl>, depth: nat) -> PyVal
    decreases 4 * depth, ft, 0nat,
{
    match ft {
        Ty::Unit => PyVal::Nothing,
        Ty::Bool => PyVal::Bool(v->Bool_0),
        Ty::F32 => PyVal::Float(32, v->Float_1),
        Ty::F64 => PyVal::Float(64, v->Float_1),
        Ty::Str => py_slice(v, Kind::Bytes),
        Ty::U8Slice => py_slice(v, Kind::Bytes),
        Ty::String => py_slice(v, Kind::Text),
        Ty::Vec(t) => match *t {
            Ty::U8 => py_slice(v, Kind::Bytes),
            Ty::String => py_slice(v, Kind::Texts),
            _ => py_slice(v, Kind::Lists),
        },
        Ty::OutU8Vec => PyVal::Nothing,
        Ty::RefMut(_) => PyVal::Nothing,
        Ty::DStr => py_view(v, Kind::Text),
        Ty::DSlice(_) => py_view(v, Kind::Bytes),
        Ty::DString => py_handle(v, "DStringHandle"@),
        Ty::DVec(_) => py_handle(v, "OwnedDVec"@),
        Ty::Option(t) => match v {
            Val::Just(x) => py_value(*x, *t, types, depth),
            _ => PyVal::Nothing,
        },
        Ty::DOption(t) => match v {
            Val::Just(x) => py_value(*x, *t, types, depth),
            _ => PyVal::Nothing,
        },
        Ty::Ref(t) => match *t {
            Ty::DString => py_view(v, Kind::Text),
            Ty::DVec(_) => py_view(v, Kind::Bytes),
            other => py_value(v, other, types, depth),
        },
        Ty::Tuple(ts) => PyVal::Tuple(py_values(v->Tuple_0, ts, ts.len(), types, depth)),
        Ty::Array(t, n) => if *t is U8 && n % 8 == 0 {
            PyVal::Bytes(bytes_of(v->List_0)->Some_0)
        } else {
            PyVal::List(py_items(v->List_0, *t, n, types, depth))
        },
        Ty::Named(name) => match lookup(types, name) {
            Some(Decl::Enum(e)) => if depth == 0 {
                PyVal::Nothing
            } else {
                py_variant(v, e, types, (depth - 1) as nat)
            },
            _ => PyVal::Object(name, v->Object_0),
        },
        _ => PyVal::Int(v->Int_2),
    }
}

pub open spec fn py_values(
    vs: Seq<Val>,
    ts: Seq<Ty>,
    n: nat,
    types: Seq<Decl>,
    depth: nat,
) -> Seq<PyVal>
    decreases 4 * depth, ts, n,
{
    if n == 0 || n > ts.len() {
        Seq::empty()
    } else {
        py_values(vs, ts, (n - 1) as nat, types, depth).push(
            py_value(vs[n - 1], ts[n - 1], types, depth),
        )
    }
}

pub open spec fn py_items(
    vs: Seq<Val>,
    t: Ty,
    n: nat,
    types: Seq<Decl>,
    depth: nat,
) -> Seq<PyVal>
    decreases 4 * depth, t, 1 + n,
{
    if n == 0 {
        Seq::empty()
    } else {
        py_items(vs, t, (n - 1) as nat, types, depth).push(py_value(vs[n - 1], t, types, depth))
    }
}

pub open spec fn py_variant(v: Val, e: EnumModel, types: Seq<Decl>, depth: nat) -> PyVal
    decreases 4 * depth + 2, e, 0nat,
{
    let i = variant_from(e.variants, v->Variant_1, 0);
    PyVal::Variant(
        e.name,
        v->Variant_1,
        if i < e.variants.len() {
            py_values(
                v->Variant_2,
                e.variants[i as int].fields,
                e.variants[i as int].fields.len(),
                types,
                depth,
            )
        } else {
            Seq::empty()
        },
    )
}

// ---------------------------------------------------------------------------
// The expression that reads
// ---------------------------------------------------------------------------

pub open spec fn raw(r: Seq<char>) -> Py {
    Py::Read(r, Get::Raw)
}

pub open spec fn option_py(r: Seq<char>, inner: Py) -> Py {
    Py::If(
        Box::new(Py::Nothing),
        Box::new(Py::Eq(Box::new(raw(r)), 0)),
        Box::new(inner),
    )
}

/// What stands at `__p`, of length `__n`.
pub open spec fn shown() -> Py {
    Py::StringAt(Box::new(Py::Name("__p"@)), Box::new(Py::Name("__n"@)))
}

pub open spec fn text_py(r: Seq<char>) -> Py {
    Py::Lambda(
        seq!["__p"@, "__n"@],
        Box::new(
            Py::If(
                Box::new(Py::Decode(Box::new(shown()))),
                Box::new(Py::Name("__p"@)),
                Box::new(Py::EmptyText),
            ),
        ),
        seq![raw(r), raw(r)],
    )
}

pub open spec fn bytes_py(r: Seq<char>) -> Py {
    Py::Lambda(
        seq!["__p"@, "__n"@],
        Box::new(
            Py::If(
                Box::new(shown()),
                Box::new(Py::Name("__p"@)),
                Box::new(Py::EmptyBytes),
            ),
        ),
        seq![raw(r), raw(r)],
    )
}

pub open spec fn handle_py(r: Seq<char>, class: Seq<char>) -> Py {
    Py::Lambda(
        seq!["__a"@, "__p"@, "__n"@, "__c"@],
        Box::new(
            Py::New(class, seq![Py::Name("__p"@), Py::Name("__n"@), Py::Name("__a"@)]),
        ),
        seq![raw(r), raw(r), raw(r), raw(r)],
    )
}

pub open spec fn word_py(r: Seq<char>) -> Py {
    Py::LeBytes(Box::new(Py::Read(r, Get::U64)))
}

/// `n` times the same expression.
pub open spec fn copies(e: Py, n: nat) -> Seq<Py> {
    Seq::new(n, |i: int| e)
}

/// The expression of [`py_read_code`].
pub open spec fn py_prog(ft: Ty, r: Seq<char>, types: Seq<Decl>, depth: nat) -> Py
    decreases 4 * depth, ft, 0nat,
{
    match ft {
        Ty::Unit => Py::Nothing,
        Ty::Bool => Py::Read(r, Get::Bool),
        Ty::U8 => Py::Read(r, Get::U8),
        Ty::U16 => Py::Read(r, Get::U16),
        Ty::U32 => Py::Read(r, Get::U32),
        Ty::U64 => Py::Read(r, Get::U64),
        Ty::I8 => Py::Read(r, Get::I8),
        Ty::I16 => Py::Read(r, Get::I16),
        Ty::I32 => Py::Read(r, Get::I32),
        Ty::I64 => Py::Read(r, Get::I64),
        Ty::F32 => Py::Read(r, Get::F32),
        Ty::F64 => Py::Read(r, Get::F64),
        Ty::Str => Py::Read(r, Get::Bytes),
        Ty::U8Slice => Py::Read(r, Get::Bytes),
        Ty::String => Py::Read(r, Get::Text),
        Ty::Vec(t) => match *t {
            Ty::U8 => Py::Read(r, Get::Bytes),
            Ty::String => Py::Read(r, Get::Texts),
            _ => Py::Read(r, Get::Lists),
        },
        Ty::OutU8Vec => Py::Nothing,
        Ty::RefMut(_) => Py::Nothing,
        Ty::DStr => text_py(r),
        Ty::DSlice(_) => bytes_py(r),
        Ty::DString => handle_py(r, "DStringHandle"@),
        Ty::DVec(_) => handle_py(r, "OwnedDVec"@),
        Ty::Option(t) => option_py(r, py_prog(*t, r, types, depth)),
        Ty::DOption(t) => option_py(r, py_prog(*t, r, types, depth)),
        Ty::Ref(t) => match *t {
            Ty::DString => text_py(r),
            Ty::DVec(_) => bytes_py(r),
            other => py_prog(other, r, types, depth),
        },
        Ty::Tuple(ts) => Py::Tuple(py_list(ts, ts.len(), r, types, depth)),
        Ty::Array(t, n) => if *t is U8 && n % 8 == 0 {
            Py::Join(copies(word_py(r), n / 8))
        } else {
            Py::List(copies(py_prog(*t, r, types, depth), n))
        },
        Ty::Named(name) => match lookup(types, name) {
            Some(Decl::Enum(e)) => if depth == 0 {
                Py::Name(Seq::empty())
            } else {
                Py::Lambda(
                    seq!["__d"@],
                    Box::new(py_choice(e, 0, r, types, (depth - 1) as nat)),
                    seq![raw(r)],
                )
            },
            _ => Py::FromPtr(name, Box::new(raw(r))),
        },
    }
}

pub open spec fn py_list(
    ts: Seq<Ty>,
    n: nat,
    r: Seq<char>,
    types: Seq<Decl>,
    depth: nat,
) -> Seq<Py>
    decreases 4 * depth, ts, n,
{
    if n == 0 || n > ts.len() {
        Seq::empty()
    } else {
        py_list(ts, (n - 1) as nat, r, types, depth).push(py_prog(ts[n - 1], r, types, depth))
    }
}

/// The choice between the variants from `i` on, whose number is in `__d`.
pub open spec fn py_choice(
    e: EnumModel,
    i: nat,
    r: Seq<char>,
    types: Seq<Decl>,
    depth: nat,
) -> Py
    decreases 4 * depth + 2, e.variants, e.variants.len() - i,
{
    if i >= e.variants.len() {
        Py::Invalid(e.name)
    } else {
        let v = e.variants[i as int];
        Py::If(
            Box::new(
                Py::Variant(
                    e.name,
                    v.name,
                    py_list(v.fields, v.fields.len(), r, types, depth),
                ),
            ),
            Box::new(Py::Eq(Box::new(Py::Name("__d"@)), i)),
            Box::new(py_choice(e, i + 1, r, types, depth)),
        )
    }
}

// ---------------------------------------------------------------------------
// Its text
// ---------------------------------------------------------------------------

proof fn cat_option(r: Seq<char>, inner: Seq<char>)
    ensures
        alike("None"@ + " if "@ + ((r + ".read()"@) + " == "@ + "0"@) + " else "@ + inner, "None if "@ + r + ".read() == 0 else "@ + inner),
{
    assert(alike("None if "@, "None"@ + " if "@)) by {
        reveal_strlit("None if ");
        reveal_strlit("None");
        reveal_strlit(" if ");
        assert("None if "@ =~= "None"@ + " if "@);
    }
    assert(alike(".read() == 0 else "@, ".read()"@ + " == "@ + "0"@ + " else "@)) by {
        reveal_strlit(".read() == 0 else ");
        reveal_strlit(".read()");
        reveal_strlit(" == ");
        reveal_strlit("0");
        reveal_strlit(" else ");
        assert(".read() == 0 else "@ =~= ".read()"@ + " == "@ + "0"@ + " else "@);
    }
    let k0 = Seq::<char>::empty();
    let k1 = inner + k0;
    let k2 = " else "@ + k1;
    let k3 = "0"@ + k2;
    let k4 = " == "@ + k3;
    let k5 = ".read()"@ + k4;
    let k6 = r + k5;
    let k7 = " if "@ + k6;
    let k8 = "None"@ + k7;
    lemma_regroup("None"@ + " if "@ + ((r + ".read()"@) + " == "@ + "0"@) + " else "@, inner, k0);
    lemma_regroup("None"@ + " if "@ + ((r + ".read()"@) + " == "@ + "0"@), " else "@, k1);
    lemma_regroup("None"@ + " if "@, ((r + ".read()"@) + " == "@ + "0"@), k2);
    lemma_regroup((r + ".read()"@) + " == "@, "0"@, k2);
    lemma_regroup((r + ".read()"@), " == "@, k3);
    lemma_regroup(r, ".read()"@, k4);
    lemma_regroup("None"@, " if "@, k6);
    lemma_regroup("None if "@ + r + ".read() == 0 else "@, inner, k0);
    lemma_regroup("None if "@ + r, ".read() == 0 else "@, k1);
    lemma_regroup(".read()"@ + " == "@ + "0"@, " else "@, k1);
    lemma_regroup(".read()"@ + " == "@, "0"@, k2);
    lemma_regroup(".read()"@, " == "@, k3);
    lemma_regroup("None if "@, r, k5);
    lemma_regroup("None"@, " if "@, k6);
    lemma_end("None"@ + " if "@ + ((r + ".read()"@) + " == "@ + "0"@) + " else "@ + inner, "None if "@ + r + ".read() == 0 else "@ + inner, k0);
}

proof fn cat_text(r: Seq<char>)
    ensures
        alike("(lambda "@ + ("__p"@ + ", "@ + "__n"@) + ": "@ + ((("ctypes.string_at("@ + "__p"@ + ", "@ + "__n"@ + ")"@) + ".decode('utf-8', 'replace')"@) + " if "@ + "__p"@ + " else "@ + "\"\""@) + ")("@ + ((r + ".read()"@) + ", "@ + (r + ".read()"@)) + ")"@, "(lambda __p, __n: ctypes.string_at(__p, __n).decode('utf-8', 'replace') if __p else \"\")("@ + r + ".read(), "@ + r + ".read())"@),
{
    assert(alike("(lambda __p, __n: ctypes.string_at(__p, __n).decode('utf-8', 'replace') if __p else \"\")("@, "(lambda "@ + "__p"@ + ", "@ + "__n"@ + ": "@ + "ctypes.string_at("@ + "__p"@ + ", "@ + "__n"@ + ")"@ + ".decode('utf-8', 'replace')"@ + " if "@ + "__p"@ + " else "@ + "\"\""@ + ")("@)) by {
        reveal_strlit("(lambda __p, __n: ctypes.string_at(__p, __n).decode('utf-8', 'replace') if __p else \"\")(");
        reveal_strlit("(lambda ");
        reveal_strlit("__p");
        reveal_strlit(", ");
        reveal_strlit("__n");
        reveal_strlit(": ");
        reveal_strlit("ctypes.string_at(");
        reveal_strlit(")");
        reveal_strlit(".decode('utf-8', 'replace')");
        reveal_strlit(" if ");
        reveal_strlit(" else ");
        reveal_strlit("\"\"");
        reveal_strlit(")(");
        assert("(lambda __p, __n: ctypes.string_at(__p, __n).decode('utf-8', 'replace') if __p else \"\")("@ =~= "(lambda "@ + "__p"@ + ", "@ + "__n"@ + ": "@ + "ctypes.string_at("@ + "__p"@ + ", "@ + "__n"@ + ")"@ + ".decode('utf-8', 'replace')"@ + " if "@ + "__p"@ + " else "@ + "\"\""@ + ")("@);
    }
    assert(alike(".read(), "@, ".read()"@ + ", "@)) by {
        reveal_strlit(".read(), ");
        reveal_strlit(".read()");
        reveal_strlit(", ");
        assert(".read(), "@ =~= ".read()"@ + ", "@);
    }
    assert(alike(".read())"@, ".read()"@ + ")"@)) by {
        reveal_strlit(".read())");
        reveal_strlit(".read()");
        reveal_strlit(")");
        assert(".read())"@ =~= ".read()"@ + ")"@);
    }
    let k0 = Seq::<char>::empty();
    let k1 = ")"@ + k0;
    let k2 = ".read()"@ + k1;
    let k3 = r + k2;
    let k4 = ", "@ + k3;
    let k5 = ".read()"@ + k4;
    let k6 = r + k5;
    let k7 = ")("@ + k6;
    let k8 = "\"\""@ + k7;
    let k9 = " else "@ + k8;
    let k10 = "__p"@ + k9;
    let k11 = " if "@ + k10;
    let k12 = ".decode('utf-8', 'replace')"@ + k11;
    let k13 = ")"@ + k12;
    let k14 = "__n"@ + k13;
    let k15 = ", "@ + k14;
    let k16 = "__p"@ + k15;
    let k17 = "ctypes.string_at("@ + k16;
    let k18 = ": "@ + k17;
    let k19 = "__n"@ + k18;
    let k20 = ", "@ + k19;
    let k21 = "__p"@ + k20;
    let k22 = "(lambda "@ + k21;
    lemma_regroup("(lambda "@ + ("__p"@ + ", "@ + "__n"@) + ": "@ + ((("ctypes.string_at("@ + "__p"@ + ", "@ + "__n"@ + ")"@) + ".decode('utf-8', 'replace')"@) + " if "@ + "__p"@ + " else "@ + "\"\""@) + ")("@ + ((r + ".read()"@) + ", "@ + (r + ".read()"@)), ")"@, k0);
    lemma_regroup("(lambda "@ + ("__p"@ + ", "@ + "__n"@) + ": "@ + ((("ctypes.string_at("@ + "__p"@ + ", "@ + "__n"@ + ")"@) + ".decode('utf-8', 'replace')"@) + " if "@ + "__p"@ + " else "@ + "\"\""@) + ")("@, ((r + ".read()"@) + ", "@ + (r + ".read()"@)), k1);
    lemma_regroup((r + ".read()"@) + ", "@, (r + ".read()"@), k1);
    lemma_regroup(r, ".read()"@, k1);
    lemma_regroup((r + ".read()"@), ", "@, k3);
    lemma_regroup(r, ".read()"@, k4);
    lemma_regroup("(lambda "@ + ("__p"@ + ", "@ + "__n"@) + ": "@ + ((("ctypes.string_at("@ + "__p"@ + ", "@ + "__n"@ + ")"@) + ".decode('utf-8', 'replace')"@) + " if "@ + "__p"@ + " else "@ + "\"\""@), ")("@, k6);
    lemma_regroup("(lambda "@ + ("__p"@ + ", "@ + "__n"@) + ": "@, ((("ctypes.string_at("@ + "__p"@ + ", "@ + "__n"@ + ")"@) + ".decode('utf-8', 'replace')"@) + " if "@ + "__p"@ + " else "@ + "\"\""@), k7);
    lemma_regroup((("ctypes.string_at("@ + "__p"@ + ", "@ + "__n"@ + ")"@) + ".decode('utf-8', 'replace')"@) + " if "@ + "__p"@ + " else "@, "\"\""@, k7);
    lemma_regroup((("ctypes.string_at("@ + "__p"@ + ", "@ + "__n"@ + ")"@) + ".decode('utf-8', 'replace')"@) + " if "@ + "__p"@, " else "@, k8);
    lemma_regroup((("ctypes.string_at("@ + "__p"@ + ", "@ + "__n"@ + ")"@) + ".decode('utf-8', 'replace')"@) + " if "@, "__p"@, k9);
    lemma_regroup((("ctypes.string_at("@ + "__p"@ + ", "@ + "__n"@ + ")"@) + ".decode('utf-8', 'replace')"@), " if "@, k10);
    lemma_regroup(("ctypes.string_at("@ + "__p"@ + ", "@ + "__n"@ + ")"@), ".decode('utf-8', 'replace')"@, k11);
    lemma_regroup("ctypes.string_at("@ + "__p"@ + ", "@ + "__n"@, ")"@, k12);
    lemma_regroup("ctypes.string_at("@ + "__p"@ + ", "@, "__n"@, k13);
    lemma_regroup("ctypes.string_at("@ + "__p"@, ", "@, k14);
    lemma_regroup("ctypes.string_at("@, "__p"@, k15);
    lemma_regroup("(lambda "@ + ("__p"@ + ", "@ + "__n"@), ": "@, k17);
    lemma_regroup("(lambda "@, ("__p"@ + ", "@ + "__n"@), k18);
    lemma_regroup("__p"@ + ", "@, "__n"@, k18);
    lemma_regroup("__p"@, ", "@, k19);
    lemma_regroup("(lambda __p, __n: ctypes.string_at(__p, __n).decode('utf-8', 'replace') if __p else \"\")("@ + r + ".read(), "@ + r, ".read())"@, k0);
    lemma_regroup(".read()"@, ")"@, k0);
    lemma_regroup("(lambda __p, __n: ctypes.string_at(__p, __n).decode('utf-8', 'replace') if __p else \"\")("@ + r + ".read(), "@, r, k2);
    lemma_regroup("(lambda __p, __n: ctypes.string_at(__p, __n).decode('utf-8', 'replace') if __p else \"\")("@ + r, ".read(), "@, k3);
    lemma_regroup(".read()"@, ", "@, k3);
    lemma_regroup("(lambda __p, __n: ctypes.string_at(__p, __n).decode('utf-8', 'replace') if __p else \"\")("@, r, k5);
    lemma_regroup("(lambda "@ + "__p"@ + ", "@ + "__n"@ + ": "@ + "ctypes.string_at("@ + "__p"@ + ", "@ + "__n"@ + ")"@ + ".decode('utf-8', 'replace')"@ + " if "@ + "__p"@ + " else "@ + "\"\""@, ")("@, k6);
    lemma_regroup("(lambda "@ + "__p"@ + ", "@ + "__n"@ + ": "@ + "ctypes.string_at("@ + "__p"@ + ", "@ + "__n"@ + ")"@ + ".decode('utf-8', 'replace')"@ + " if "@ + "__p"@ + " else "@, "\"\""@, k7);
    lemma_regroup("(lambda "@ + "__p"@ + ", "@ + "__n"@ + ": "@ + "ctypes.string_at("@ + "__p"@ + ", "@ + "__n"@ + ")"@ + ".decode('utf-8', 'replace')"@ + " if "@ + "__p"@, " else "@, k8);
    lemma_regroup("(lambda "@ + "__p"@ + ", "@ + "__n"@ + ": "@ + "ctypes.string_at("@ + "__p"@ + ", "@ + "__n"@ + ")"@ + ".decode('utf-8', 'replace')"@ + " if "@, "__p"@, k9);
    lemma_regroup("(lambda "@ + "__p"@ + ", "@ + "__n"@ + ": "@ + "ctypes.string_at("@ + "__p"@ + ", "@ + "__n"@ + ")"@ + ".decode('utf-8', 'replace')"@, " if "@, k10);
    lemma_regroup("(lambda "@ + "__p"@ + ", "@ + "__n"@ + ": "@ + "ctypes.string_at("@ + "__p"@ + ", "@ + "__n"@ + ")"@, ".decode('utf-8', 'replace')"@, k11);
    lemma_regroup("(lambda "@ + "__p"@ + ", "@ + "__n"@ + ": "@ + "ctypes.string_at("@ + "__p"@ + ", "@ + "__n"@, ")"@, k12);
    lemma_regroup("(lambda "@ + "__p"@ + ", "@ + "__n"@ + ": "@ + "ctypes.string_at("@ + "__p"@ + ", "@, "__n"@, k13);
    lemma_regroup("(lambda "@ + "__p"@ + ", "@ + "__n"@ + ": "@ + "ctypes.string_at("@ + "__p"@, ", "@, k14);
    lemma_regroup("(lambda "@ + "__p"@ + ", "@ + "__n"@ + ": "@ + "ctypes.string_at("@, "__p"@, k15);
    lemma_regroup("(lambda "@ + "__p"@ + ", "@ + "__n"@ + ": "@, "ctypes.string_at("@, k16);
    lemma_regroup("(lambda "@ + "__p"@ + ", "@ + "__n"@, ": "@, k17);
    lemma_regroup("(lambda "@ + "__p"@ + ", "@, "__n"@, k18);
    lemma_regroup("(lambda "@ + "__p"@, ", "@, k19);
    lemma_regroup("(lambda "@, "__p"@, k20);
    lemma_end("(lambda "@ + ("__p"@ + ", "@ + "__n"@) + ": "@ + ((("ctypes.string_at("@ + "__p"@ + ", "@ + "__n"@ + ")"@) + ".decode('utf-8', 'replace')"@) + " if "@ + "__p"@ + " else "@ + "\"\""@) + ")("@ + ((r + ".read()"@) + ", "@ + (r + ".read()"@)) + ")"@, "(lambda __p, __n: ctypes.string_at(__p, __n).decode('utf-8', 'replace') if __p else \"\")("@ + r + ".read(), "@ + r + ".read())"@, k0);
}

proof fn cat_bytes(r: Seq<char>)
    ensures
        alike("(lambda "@ + ("__p"@ + ", "@ + "__n"@) + ": "@ + (("ctypes.string_at("@ + "__p"@ + ", "@ + "__n"@ + ")"@) + " if "@ + "__p"@ + " else "@ + "b\"\""@) + ")("@ + ((r + ".read()"@) + ", "@ + (r + ".read()"@)) + ")"@, "(lambda __p, __n: ctypes.string_at(__p, __n) if __p else b\"\")("@ + r + ".read(), "@ + r + ".read())"@),
{
    assert(alike("(lambda __p, __n: ctypes.string_at(__p, __n) if __p else b\"\")("@, "(lambda "@ + "__p"@ + ", "@ + "__n"@ + ": "@ + "ctypes.string_at("@ + "__p"@ + ", "@ + "__n"@ + ")"@ + " if "@ + "__p"@ + " else "@ + "b\"\""@ + ")("@)) by {
        reveal_strlit("(lambda __p, __n: ctypes.string_at(__p, __n) if __p else b\"\")(");
        reveal_strlit("(lambda ");
        reveal_strlit("__p");
        reveal_strlit(", ");
        reveal_strlit("__n");
        reveal_strlit(": ");
        reveal_strlit("ctypes.string_at(");
        reveal_strlit(")");
        reveal_strlit(" if ");
        reveal_strlit(" else ");
        reveal_strlit("b\"\"");
        reveal_strlit(")(");
        assert("(lambda __p, __n: ctypes.string_at(__p, __n) if __p else b\"\")("@ =~= "(lambda "@ + "__p"@ + ", "@ + "__n"@ + ": "@ + "ctypes.string_at("@ + "__p"@ + ", "@ + "__n"@ + ")"@ + " if "@ + "__p"@ + " else "@ + "b\"\""@ + ")("@);
    }
    assert(alike(".read(), "@, ".read()"@ + ", "@)) by {
        reveal_strlit(".read(), ");
        reveal_strlit(".read()");
        reveal_strlit(", ");
        assert(".read(), "@ =~= ".read()"@ + ", "@);
    }
    assert(alike(".read())"@, ".read()"@ + ")"@)) by {
        reveal_strlit(".read())");
        reveal_strlit(".read()");
        reveal_strlit(")");
        assert(".read())"@ =~= ".read()"@ + ")"@);
    }
    let k0 = Seq::<char>::empty();
    let k1 = ")"@ + k0;
    let k2 = ".read()"@ + k1;
    let k3 = r + k2;
    let k4 = ", "@ + k3;
    let k5 = ".read()"@ + k4;
    let k6 = r + k5;
    let k7 = ")("@ + k6;
    let k8 = "b\"\""@ + k7;
    let k9 = " else "@ + k8;
    let k10 = "__p"@ + k9;
    let k11 = " if "@ + k10;
    let k12 = ")"@ + k11;
    let k13 = "__n"@ + k12;
    let k14 = ", "@ + k13;
    let k15 = "__p"@ + k14;
    let k16 = "ctypes.string_at("@ + k15;
    let k17 = ": "@ + k16;
    let k18 = "__n"@ + k17;
    let k19 = ", "@ + k18;
    let k20 = "__p"@ + k19;
    let k21 = "(lambda "@ + k20;
    lemma_regroup("(lambda "@ + ("__p"@ + ", "@ + "__n"@) + ": "@ + (("ctypes.string_at("@ + "__p"@ + ", "@ + "__n"@ + ")"@) + " if "@ + "__p"@ + " else "@ + "b\"\""@) + ")("@ + ((r + ".read()"@) + ", "@ + (r + ".read()"@)), ")"@, k0);
    lemma_regroup("(lambda "@ + ("__p"@ + ", "@ + "__n"@) + ": "@ + (("ctypes.string_at("@ + "__p"@ + ", "@ + "__n"@ + ")"@) + " if "@ + "__p"@ + " else "@ + "b\"\""@) + ")("@, ((r + ".read()"@) + ", "@ + (r + ".read()"@)), k1);
    lemma_regroup((r + ".read()"@) + ", "@, (r + ".read()"@), k1);
    lemma_regroup(r, ".read()"@, k1);
    lemma_regroup((r + ".read()"@), ", "@, k3);
    lemma_regroup(r, ".read()"@, k4);
    lemma_regroup("(lambda "@ + ("__p"@ + ", "@ + "__n"@) + ": "@ + (("ctypes.string_at("@ + "__p"@ + ", "@ + "__n"@ + ")"@) + " if "@ + "__p"@ + " else "@ + "b\"\""@), ")("@, k6);
    lemma_regroup("(lambda "@ + ("__p"@ + ", "@ + "__n"@) + ": "@, (("ctypes.string_at("@ + "__p"@ + ", "@ + "__n"@ + ")"@) + " if "@ + "__p"@ + " else "@ + "b\"\""@), k7);
    lemma_regroup(("ctypes.string_at("@ + "__p"@ + ", "@ + "__n"@ + ")"@) + " if "@ + "__p"@ + " else "@, "b\"\""@, k7);
    lemma_regroup(("ctypes.string_at("@ + "__p"@ + ", "@ + "__n"@ + ")"@) + " if "@ + "__p"@, " else "@, k8);
    lemma_regroup(("ctypes.string_at("@ + "__p"@ + ", "@ + "__n"@ + ")"@) + " if "@, "__p"@, k9);
    lemma_regroup(("ctypes.string_at("@ + "__p"@ + ", "@ + "__n"@ + ")"@), " if "@, k10);
    lemma_regroup("ctypes.string_at("@ + "__p"@ + ", "@ + "__n"@, ")"@, k11);
    lemma_regroup("ctypes.string_at("@ + "__p"@ + ", "@, "__n"@, k12);
    lemma_regroup("ctypes.string_at("@ + "__p"@, ", "@, k13);
    lemma_regroup("ctypes.string_at("@, "__p"@, k14);
    lemma_regroup("(lambda "@ + ("__p"@ + ", "@ + "__n"@), ": "@, k16);
    lemma_regroup("(lambda "@, ("__p"@ + ", "@ + "__n"@), k17);
    lemma_regroup("__p"@ + ", "@, "__n"@, k17);
    lemma_regroup("__p"@, ", "@, k18);
    lemma_regroup("(lambda __p, __n: ctypes.string_at(__p, __n) if __p else b\"\")("@ + r + ".read(), "@ + r, ".read())"@, k0);
    lemma_regroup(".read()"@, ")"@, k0);
    lemma_regroup("(lambda __p, __n: ctypes.string_at(__p, __n) if __p else b\"\")("@ + r + ".read(), "@, r, k2);
    lemma_regroup("(lambda __p, __n: ctypes.string_at(__p, __n) if __p else b\"\")("@ + r, ".read(), "@, k3);
    lemma_regroup(".read()"@, ", "@, k3);
    lemma_regroup("(lambda __p, __n: ctypes.string_at(__p, __n) if __p else b\"\")("@, r, k5);
    lemma_regroup("(lambda "@ + "__p"@ + ", "@ + "__n"@ + ": "@ + "ctypes.string_at("@ + "__p"@ + ", "@ + "__n"@ + ")"@ + " if "@ + "__p"@ + " else "@ + "b\"\""@, ")("@, k6);
    lemma_regroup("(lambda "@ + "__p"@ + ", "@ + "__n"@ + ": "@ + "ctypes.string_at("@ + "__p"@ + ", "@ + "__n"@ + ")"@ + " if "@ + "__p"@ + " else "@, "b\"\""@, k7);
    lemma_regroup("(lambda "@ + "__p"@ + ", "@ + "__n"@ + ": "@ + "ctypes.string_at("@ + "__p"@ + ", "@ + "__n"@ + ")"@ + " if "@ + "__p"@, " else "@, k8);
    lemma_regroup("(lambda "@ + "__p"@ + ", "@ + "__n"@ + ": "@ + "ctypes.string_at("@ + "__p"@ + ", "@ + "__n"@ + ")"@ + " if "@, "__p"@, k9);
    lemma_regroup("(lambda "@ + "__p"@ + ", "@ + "__n"@ + ": "@ + "ctypes.string_at("@ + "__p"@ + ", "@ + "__n"@ + ")"@, " if "@, k10);
    lemma_regroup("(lambda "@ + "__p"@ + ", "@ + "__n"@ + ": "@ + "ctypes.string_at("@ + "__p"@ + ", "@ + "__n"@, ")"@, k11);
    lemma_regroup("(lambda "@ + "__p"@ + ", "@ + "__n"@ + ": "@ + "ctypes.string_at("@ + "__p"@ + ", "@, "__n"@, k12);
    lemma_regroup("(lambda "@ + "__p"@ + ", "@ + "__n"@ + ": "@ + "ctypes.string_at("@ + "__p"@, ", "@, k13);
    lemma_regroup("(lambda "@ + "__p"@ + ", "@ + "__n"@ + ": "@ + "ctypes.string_at("@, "__p"@, k14);
    lemma_regroup("(lambda "@ + "__p"@ + ", "@ + "__n"@ + ": "@, "ctypes.string_at("@, k15);
    lemma_regroup("(lambda "@ + "__p"@ + ", "@ + "__n"@, ": "@, k16);
    lemma_regroup("(lambda "@ + "__p"@ + ", "@, "__n"@, k17);
    lemma_regroup("(lambda "@ + "__p"@, ", "@, k18);
    lemma_regroup("(lambda "@, "__p"@, k19);
    lemma_end("(lambda "@ + ("__p"@ + ", "@ + "__n"@) + ": "@ + (("ctypes.string_at("@ + "__p"@ + ", "@ + "__n"@ + ")"@) + " if "@ + "__p"@ + " else "@ + "b\"\""@) + ")("@ + ((r + ".read()"@) + ", "@ + (r + ".read()"@)) + ")"@, "(lambda __p, __n: ctypes.string_at(__p, __n) if __p else b\"\")("@ + r + ".read(), "@ + r + ".read())"@, k0);
}

proof fn cat_handle_text(r: Seq<char>)
    ensures
        alike("(lambda "@ + ((("__a"@ + ", "@ + "__p"@) + ", "@ + "__n"@) + ", "@ + "__c"@) + ": "@ + ("DStringHandle"@ + "(self, "@ + (("__p"@ + ", "@ + "__n"@) + ", "@ + "__a"@) + ")"@) + ")("@ + ((((r + ".read()"@) + ", "@ + (r + ".read()"@)) + ", "@ + (r + ".read()"@)) + ", "@ + (r + ".read()"@)) + ")"@, "(lambda __a, __p, __n, __c: DStringHandle(self, __p, __n, __a))("@ + r + ".read(), "@ + r + ".read(), "@ + r + ".read(), "@ + r + ".read())"@),
{
    assert(alike("(lambda __a, __p, __n, __c: DStringHandle(self, __p, __n, __a))("@, "(lambda "@ + "__a"@ + ", "@ + "__p"@ + ", "@ + "__n"@ + ", "@ + "__c"@ + ": "@ + "DStringHandle"@ + "(self, "@ + "__p"@ + ", "@ + "__n"@ + ", "@ + "__a"@ + ")"@ + ")("@)) by {
        reveal_strlit("(lambda __a, __p, __n, __c: DStringHandle(self, __p, __n, __a))(");
        reveal_strlit("(lambda ");
        reveal_strlit("__a");
        reveal_strlit(", ");
        reveal_strlit("__p");
        reveal_strlit("__n");
        reveal_strlit("__c");
        reveal_strlit(": ");
        reveal_strlit("DStringHandle");
        reveal_strlit("(self, ");
        reveal_strlit(")");
        reveal_strlit(")(");
        assert("(lambda __a, __p, __n, __c: DStringHandle(self, __p, __n, __a))("@ =~= "(lambda "@ + "__a"@ + ", "@ + "__p"@ + ", "@ + "__n"@ + ", "@ + "__c"@ + ": "@ + "DStringHandle"@ + "(self, "@ + "__p"@ + ", "@ + "__n"@ + ", "@ + "__a"@ + ")"@ + ")("@);
    }
    assert(alike(".read(), "@, ".read()"@ + ", "@)) by {
        reveal_strlit(".read(), ");
        reveal_strlit(".read()");
        reveal_strlit(", ");
        assert(".read(), "@ =~= ".read()"@ + ", "@);
    }
    assert(alike(".read())"@, ".read()"@ + ")"@)) by {
        reveal_strlit(".read())");
        reveal_strlit(".read()");
        reveal_strlit(")");
        assert(".read())"@ =~= ".read()"@ + ")"@);
    }
    let k0 = Seq::<char>::empty();
    let k1 = ")"@ + k0;
    let k2 = ".read()"@ + k1;
    let k3 = r + k2;
    let k4 = ", "@ + k3;
    let k5 = ".read()"@ + k4;
    let k6 = r + k5;
    let k7 = ", "@ + k6;
    let k8 = ".read()"@ + k7;
    let k9 = r + k8;
    let k10 = ", "@ + k9;
    let k11 = ".read()"@ + k10;
    let k12 = r + k11;
    let k13 = ")("@ + k12;
    let k14 = ")"@ + k13;
    let k15 = "__a"@ + k14;
    let k16 = ", "@ + k15;
    let k17 = "__n"@ + k16;
    let k18 = ", "@ + k17;
    let k19 = "__p"@ + k18;
    let k20 = "(self, "@ + k19;
    let k21 = "DStringHandle"@ + k20;
    let k22 = ": "@ + k21;
    let k23 = "__c"@ + k22;
    let k24 = ", "@ + k23;
    let k25 = "__n"@ + k24;
    let k26 = ", "@ + k25;
    let k27 = "__p"@ + k26;
    let k28 = ", "@ + k27;
    let k29 = "__a"@ + k28;
    let k30 = "(lambda "@ + k29;
    lemma_regroup("(lambda "@ + ((("__a"@ + ", "@ + "__p"@) + ", "@ + "__n"@) + ", "@ + "__c"@) + ": "@ + ("DStringHandle"@ + "(self, "@ + (("__p"@ + ", "@ + "__n"@) + ", "@ + "__a"@) + ")"@) + ")("@ + ((((r + ".read()"@) + ", "@ + (r + ".read()"@)) + ", "@ + (r + ".read()"@)) + ", "@ + (r + ".read()"@)), ")"@, k0);
    lemma_regroup("(lambda "@ + ((("__a"@ + ", "@ + "__p"@) + ", "@ + "__n"@) + ", "@ + "__c"@) + ": "@ + ("DStringHandle"@ + "(self, "@ + (("__p"@ + ", "@ + "__n"@) + ", "@ + "__a"@) + ")"@) + ")("@, ((((r + ".read()"@) + ", "@ + (r + ".read()"@)) + ", "@ + (r + ".read()"@)) + ", "@ + (r + ".read()"@)), k1);
    lemma_regroup((((r + ".read()"@) + ", "@ + (r + ".read()"@)) + ", "@ + (r + ".read()"@)) + ", "@, (r + ".read()"@), k1);
    lemma_regroup(r, ".read()"@, k1);
    lemma_regroup((((r + ".read()"@) + ", "@ + (r + ".read()"@)) + ", "@ + (r + ".read()"@)), ", "@, k3);
    lemma_regroup(((r + ".read()"@) + ", "@ + (r + ".read()"@)) + ", "@, (r + ".read()"@), k4);
    lemma_regroup(r, ".read()"@, k4);
    lemma_regroup(((r + ".read()"@) + ", "@ + (r + ".read()"@)), ", "@, k6);
    lemma_regroup((r + ".read()"@) + ", "@, (r + ".read()"@), k7);
    lemma_regroup(r, ".read()"@, k7);
    lemma_regroup((r + ".read()"@), ", "@, k9);
    lemma_regroup(r, ".read()"@, k10);
    lemma_regroup("(lambda "@ + ((("__a"@ + ", "@ + "__p"@) + ", "@ + "__n"@) + ", "@ + "__c"@) + ": "@ + ("DStringHandle"@ + "(self, "@ + (("__p"@ + ", "@ + "__n"@) + ", "@ + "__a"@) + ")"@), ")("@, k12);
    lemma_regroup("(lambda "@ + ((("__a"@ + ", "@ + "__p"@) + ", "@ + "__n"@) + ", "@ + "__c"@) + ": "@, ("DStringHandle"@ + "(self, "@ + (("__p"@ + ", "@ + "__n"@) + ", "@ + "__a"@) + ")"@), k13);
    lemma_regroup("DStringHandle"@ + "(self, "@ + (("__p"@ + ", "@ + "__n"@) + ", "@ + "__a"@), ")"@, k13);
    lemma_regroup("DStringHandle"@ + "(self, "@, (("__p"@ + ", "@ + "__n"@) + ", "@ + "__a"@), k14);
    lemma_regroup(("__p"@ + ", "@ + "__n"@) + ", "@, "__a"@, k14);
    lemma_regroup(("__p"@ + ", "@ + "__n"@), ", "@, k15);
    lemma_regroup("__p"@ + ", "@, "__n"@, k16);
    lemma_regroup("__p"@, ", "@, k17);
    lemma_regroup("DStringHandle"@, "(self, "@, k19);
    lemma_regroup("(lambda "@ + ((("__a"@ + ", "@ + "__p"@) + ", "@ + "__n"@) + ", "@ + "__c"@), ": "@, k21);
    lemma_regroup("(lambda "@, ((("__a"@ + ", "@ + "__p"@) + ", "@ + "__n"@) + ", "@ + "__c"@), k22);
    lemma_regroup((("__a"@ + ", "@ + "__p"@) + ", "@ + "__n"@) + ", "@, "__c"@, k22);
    lemma_regroup((("__a"@ + ", "@ + "__p"@) + ", "@ + "__n"@), ", "@, k23);
    lemma_regroup(("__a"@ + ", "@ + "__p"@) + ", "@, "__n"@, k24);
    lemma_regroup(("__a"@ + ", "@ + "__p"@), ", "@, k25);
    lemma_regroup("__a"@ + ", "@, "__p"@, k26);
    lemma_regroup("__a"@, ", "@, k27);
    lemma_regroup("(lambda __a, __p, __n, __c: DStringHandle(self, __p, __n, __a))("@ + r + ".read(), "@ + r + ".read(), "@ + r + ".read(), "@ + r, ".read())"@, k0);
    lemma_regroup(".read()"@, ")"@, k0);
    lemma_regroup("(lambda __a, __p, __n, __c: DStringHandle(self, __p, __n, __a))("@ + r + ".read(), "@ + r + ".read(), "@ + r + ".read(), "@, r, k2);
    lemma_regroup("(lambda __a, __p, __n, __c: DStringHandle(self, __p, __n, __a))("@ + r + ".read(), "@ + r + ".read(), "@ + r, ".read(), "@, k3);
    lemma_regroup(".read()"@, ", "@, k3);
    lemma_regroup("(lambda __a, __p, __n, __c: DStringHandle(self, __p, __n, __a))("@ + r + ".read(), "@ + r + ".read(), "@, r, k5);
    lemma_regroup("(lambda __a, __p, __n, __c: DStringHandle(self, __p, __n, __a))("@ + r + ".read(), "@ + r, ".read(), "@, k6);
    lemma_regroup(".read()"@, ", "@, k6);
    lemma_regroup("(lambda __a, __p, __n, __c: DStringHandle(self, __p, __n, __a))("@ + r + ".read(), "@, r, k8);
    lemma_regroup("(lambda __a, __p, __n, __c: DStringHandle(self, __p, __n, __a))("@ + r, ".read(), "@, k9);
    lemma_regroup(".read()"@, ", "@, k9);
    lemma_regroup("(lambda __a, __p, __n, __c: DStringHandle(self, __p, __n, __a))("@, r, k11);
    lemma_regroup("(lambda "@ + "__a"@ + ", "@ + "__p"@ + ", "@ + "__n"@ + ", "@ + "__c"@ + ": "@ + "DStringHandle"@ + "(self, "@ + "__p"@ + ", "@ + "__n"@ + ", "@ + "__a"@ + ")"@, ")("@, k12);
    lemma_regroup("(lambda "@ + "__a"@ + ", "@ + "__p"@ + ", "@ + "__n"@ + ", "@ + "__c"@ + ": "@ + "DStringHandle"@ + "(self, "@ + "__p"@ + ", "@ + "__n"@ + ", "@ + "__a"@, ")"@, k13);
    lemma_regroup("(lambda "@ + "__a"@ + ", "@ + "__p"@ + ", "@ + "__n"@ + ", "@ + "__c"@ + ": "@ + "DStringHandle"@ + "(self, "@ + "__p"@ + ", "@ + "__n"@ + ", "@, "__a"@, k14);
    lemma_regroup("(lambda "@ + "__a"@ + ", "@ + "__p"@ + ", "@ + "__n"@ + ", "@ + "__c"@ + ": "@ + "DStringHandle"@ + "(self, "@ + "__p"@ + ", "@ + "__n"@, ", "@, k15);
    lemma_regroup("(lambda "@ + "__a"@ + ", "@ + "__p"@ + ", "@ + "__n"@ + ", "@ + "__c"@ + ": "@ + "DStringHandle"@ + "(self, "@ + "__p"@ + ", "@, "__n"@, k16);
    lemma_regroup("(lambda "@ + "__a"@ + ", "@ + "__p"@ + ", "@ + "__n"@ + ", "@ + "__c"@ + ": "@ + "DStringHandle"@ + "(self, "@ + "__p"@, ", "@, k17);
    lemma_regroup("(lambda "@ + "__a"@ + ", "@ + "__p"@ + ", "@ + "__n"@ + ", "@ + "__c"@ + ": "@ + "DStringHandle"@ + "(self, "@, "__p"@, k18);
    lemma_regroup("(lambda "@ + "__a"@ + ", "@ + "__p"@ + ", "@ + "__n"@ + ", "@ + "__c"@ + ": "@ + "DStringHandle"@, "(self, "@, k19);
    lemma_regroup("(lambda "@ + "__a"@ + ", "@ + "__p"@ + ", "@ + "__n"@ + ", "@ + "__c"@ + ": "@, "DStringHandle"@, k20);
    lemma_regroup("(lambda "@ + "__a"@ + ", "@ + "__p"@ + ", "@ + "__n"@ + ", "@ + "__c"@, ": "@, k21);
    lemma_regroup("(lambda "@ + "__a"@ + ", "@ + "__p"@ + ", "@ + "__n"@ + ", "@, "__c"@, k22);
    lemma_regroup("(lambda "@ + "__a"@ + ", "@ + "__p"@ + ", "@ + "__n"@, ", "@, k23);
    lemma_regroup("(lambda "@ + "__a"@ + ", "@ + "__p"@ + ", "@, "__n"@, k24);
    lemma_regroup("(lambda "@ + "__a"@ + ", "@ + "__p"@, ", "@, k25);
    lemma_regroup("(lambda "@ + "__a"@ + ", "@, "__p"@, k26);
    lemma_regroup("(lambda "@ + "__a"@, ", "@, k27);
    lemma_regroup("(lambda "@, "__a"@, k28);
    lemma_end("(lambda "@ + ((("__a"@ + ", "@ + "__p"@) + ", "@ + "__n"@) + ", "@ + "__c"@) + ": "@ + ("DStringHandle"@ + "(self, "@ + (("__p"@ + ", "@ + "__n"@) + ", "@ + "__a"@) + ")"@) + ")("@ + ((((r + ".read()"@) + ", "@ + (r + ".read()"@)) + ", "@ + (r + ".read()"@)) + ", "@ + (r + ".read()"@)) + ")"@, "(lambda __a, __p, __n, __c: DStringHandle(self, __p, __n, __a))("@ + r + ".read(), "@ + r + ".read(), "@ + r + ".read(), "@ + r + ".read())"@, k0);
}

proof fn cat_handle_vec(r: Seq<char>)
    ensures
        alike("(lambda "@ + ((("__a"@ + ", "@ + "__p"@) + ", "@ + "__n"@) + ", "@ + "__c"@) + ": "@ + ("OwnedDVec"@ + "(self, "@ + (("__p"@ + ", "@ + "__n"@) + ", "@ + "__a"@) + ")"@) + ")("@ + ((((r + ".read()"@) + ", "@ + (r + ".read()"@)) + ", "@ + (r + ".read()"@)) + ", "@ + (r + ".read()"@)) + ")"@, "(lambda __a, __p, __n, __c: OwnedDVec(self, __p, __n, __a))("@ + r + ".read(), "@ + r + ".read(), "@ + r + ".read(), "@ + r + ".read())"@),
{
    assert(alike("(lambda __a, __p, __n, __c: OwnedDVec(self, __p, __n, __a))("@, "(lambda "@ + "__a"@ + ", "@ + "__p"@ + ", "@ + "__n"@ + ", "@ + "__c"@ + ": "@ + "OwnedDVec"@ + "(self, "@ + "__p"@ + ", "@ + "__n"@ + ", "@ + "__a"@ + ")"@ + ")("@)) by {
        reveal_strlit("(lambda __a, __p, __n, __c: OwnedDVec(self, __p, __n, __a))(");
        reveal_strlit("(lambda ");
        reveal_strlit("__a");
        reveal_strlit(", ");
        reveal_strlit("__p");
        reveal_strlit("__n");
        reveal_strlit("__c");
        reveal_strlit(": ");
        reveal_strlit("OwnedDVec");
        reveal_strlit("(self, ");
        reveal_strlit(")");
        reveal_strlit(")(");
        assert("(lambda __a, __p, __n, __c: OwnedDVec(self, __p, __n, __a))("@ =~= "(lambda "@ + "__a"@ + ", "@ + "__p"@ + ", "@ + "__n"@ + ", "@ + "__c"@ + ": "@ + "OwnedDVec"@ + "(self, "@ + "__p"@ + ", "@ + "__n"@ + ", "@ + "__a"@ + ")"@ + ")("@);
    }
    assert(alike(".read(), "@, ".read()"@ + ", "@)) by {
        reveal_strlit(".read(), ");
        reveal_strlit(".read()");
        reveal_strlit(", ");
        assert(".read(), "@ =~= ".read()"@ + ", "@);
    }
    assert(alike(".read())"@, ".read()"@ + ")"@)) by {
        reveal_strlit(".read())");
        reveal_strlit(".read()");
        reveal_strlit(")");
        assert(".read())"@ =~= ".read()"@ + ")"@);
    }
    let k0 = Seq::<char>::empty();
    let k1 = ")"@ + k0;
    let k2 = ".read()"@ + k1;
    let k3 = r + k2;
    let k4 = ", "@ + k3;
    let k5 = ".read()"@ + k4;
    let k6 = r + k5;
    let k7 = ", "@ + k6;
    let k8 = ".read()"@ + k7;
    let k9 = r + k8;
    let k10 = ", "@ + k9;
    let k11 = ".read()"@ + k10;
    let k12 = r + k11;
    let k13 = ")("@ + k12;
    let k14 = ")"@ + k13;
    let k15 = "__a"@ + k14;
    let k16 = ", "@ + k15;
    let k17 = "__n"@ + k16;
    let k18 = ", "@ + k17;
    let k19 = "__p"@ + k18;
    let k20 = "(self, "@ + k19;
    let k21 = "OwnedDVec"@ + k20;
    let k22 = ": "@ + k21;
    let k23 = "__c"@ + k22;
    let k24 = ", "@ + k23;
    let k25 = "__n"@ + k24;
    let k26 = ", "@ + k25;
    let k27 = "__p"@ + k26;
    let k28 = ", "@ + k27;
    let k29 = "__a"@ + k28;
    let k30 = "(lambda "@ + k29;
    lemma_regroup("(lambda "@ + ((("__a"@ + ", "@ + "__p"@) + ", "@ + "__n"@) + ", "@ + "__c"@) + ": "@ + ("OwnedDVec"@ + "(self, "@ + (("__p"@ + ", "@ + "__n"@) + ", "@ + "__a"@) + ")"@) + ")("@ + ((((r + ".read()"@) + ", "@ + (r + ".read()"@)) + ", "@ + (r + ".read()"@)) + ", "@ + (r + ".read()"@)), ")"@, k0);
    lemma_regroup("(lambda "@ + ((("__a"@ + ", "@ + "__p"@) + ", "@ + "__n"@) + ", "@ + "__c"@) + ": "@ + ("OwnedDVec"@ + "(self, "@ + (("__p"@ + ", "@ + "__n"@) + ", "@ + "__a"@) + ")"@) + ")("@, ((((r + ".read()"@) + ", "@ + (r + ".read()"@)) + ", "@ + (r + ".read()"@)) + ", "@ + (r + ".read()"@)), k1);
    lemma_regroup((((r + ".read()"@) + ", "@ + (r + ".read()"@)) + ", "@ + (r + ".read()"@)) + ", "@, (r + ".read()"@), k1);
    lemma_regroup(r, ".read()"@, k1);
    lemma_regroup((((r + ".read()"@) + ", "@ + (r + ".read()"@)) + ", "@ + (r + ".read()"@)), ", "@, k3);
    lemma_regroup(((r + ".read()"@) + ", "@ + (r + ".read()"@)) + ", "@, (r + ".read()"@), k4);
    lemma_regroup(r, ".read()"@, k4);
    lemma_regroup(((r + ".read()"@) + ", "@ + (r + ".read()"@)), ", "@, k6);
    lemma_regroup((r + ".read()"@) + ", "@, (r + ".read()"@), k7);
    lemma_regroup(r, ".read()"@, k7);
    lemma_regroup((r + ".read()"@), ", "@, k9);
    lemma_regroup(r, ".read()"@, k10);
    lemma_regroup("(lambda "@ + ((("__a"@ + ", "@ + "__p"@) + ", "@ + "__n"@) + ", "@ + "__c"@) + ": "@ + ("OwnedDVec"@ + "(self, "@ + (("__p"@ + ", "@ + "__n"@) + ", "@ + "__a"@) + ")"@), ")("@, k12);
    lemma_regroup("(lambda "@ + ((("__a"@ + ", "@ + "__p"@) + ", "@ + "__n"@) + ", "@ + "__c"@) + ": "@, ("OwnedDVec"@ + "(self, "@ + (("__p"@ + ", "@ + "__n"@) + ", "@ + "__a"@) + ")"@), k13);
    lemma_regroup("OwnedDVec"@ + "(self, "@ + (("__p"@ + ", "@ + "__n"@) + ", "@ + "__a"@), ")"@, k13);
    lemma_regroup("OwnedDVec"@ + "(self, "@, (("__p"@ + ", "@ + "__n"@) + ", "@ + "__a"@), k14);
    lemma_regroup(("__p"@ + ", "@ + "__n"@) + ", "@, "__a"@, k14);
    lemma_regroup(("__p"@ + ", "@ + "__n"@), ", "@, k15);
    lemma_regroup("__p"@ + ", "@, "__n"@, k16);
    lemma_regroup("__p"@, ", "@, k17);
    lemma_regroup("OwnedDVec"@, "(self, "@, k19);
    lemma_regroup("(lambda "@ + ((("__a"@ + ", "@ + "__p"@) + ", "@ + "__n"@) + ", "@ + "__c"@), ": "@, k21);
    lemma_regroup("(lambda "@, ((("__a"@ + ", "@ + "__p"@) + ", "@ + "__n"@) + ", "@ + "__c"@), k22);
    lemma_regroup((("__a"@ + ", "@ + "__p"@) + ", "@ + "__n"@) + ", "@, "__c"@, k22);
    lemma_regroup((("__a"@ + ", "@ + "__p"@) + ", "@ + "__n"@), ", "@, k23);
    lemma_regroup(("__a"@ + ", "@ + "__p"@) + ", "@, "__n"@, k24);
    lemma_regroup(("__a"@ + ", "@ + "__p"@), ", "@, k25);
    lemma_regroup("__a"@ + ", "@, "__p"@, k26);
    lemma_regroup("__a"@, ", "@, k27);
    lemma_regroup("(lambda __a, __p, __n, __c: OwnedDVec(self, __p, __n, __a))("@ + r + ".read(), "@ + r + ".read(), "@ + r + ".read(), "@ + r, ".read())"@, k0);
    lemma_regroup(".read()"@, ")"@, k0);
    lemma_regroup("(lambda __a, __p, __n, __c: OwnedDVec(self, __p, __n, __a))("@ + r + ".read(), "@ + r + ".read(), "@ + r + ".read(), "@, r, k2);
    lemma_regroup("(lambda __a, __p, __n, __c: OwnedDVec(self, __p, __n, __a))("@ + r + ".read(), "@ + r + ".read(), "@ + r, ".read(), "@, k3);
    lemma_regroup(".read()"@, ", "@, k3);
    lemma_regroup("(lambda __a, __p, __n, __c: OwnedDVec(self, __p, __n, __a))("@ + r + ".read(), "@ + r + ".read(), "@, r, k5);
    lemma_regroup("(lambda __a, __p, __n, __c: OwnedDVec(self, __p, __n, __a))("@ + r + ".read(), "@ + r, ".read(), "@, k6);
    lemma_regroup(".read()"@, ", "@, k6);
    lemma_regroup("(lambda __a, __p, __n, __c: OwnedDVec(self, __p, __n, __a))("@ + r + ".read(), "@, r, k8);
    lemma_regroup("(lambda __a, __p, __n, __c: OwnedDVec(self, __p, __n, __a))("@ + r, ".read(), "@, k9);
    lemma_regroup(".read()"@, ", "@, k9);
    lemma_regroup("(lambda __a, __p, __n, __c: OwnedDVec(self, __p, __n, __a))("@, r, k11);
    lemma_regroup("(lambda "@ + "__a"@ + ", "@ + "__p"@ + ", "@ + "__n"@ + ", "@ + "__c"@ + ": "@ + "OwnedDVec"@ + "(self, "@ + "__p"@ + ", "@ + "__n"@ + ", "@ + "__a"@ + ")"@, ")("@, k12);
    lemma_regroup("(lambda "@ + "__a"@ + ", "@ + "__p"@ + ", "@ + "__n"@ + ", "@ + "__c"@ + ": "@ + "OwnedDVec"@ + "(self, "@ + "__p"@ + ", "@ + "__n"@ + ", "@ + "__a"@, ")"@, k13);
    lemma_regroup("(lambda "@ + "__a"@ + ", "@ + "__p"@ + ", "@ + "__n"@ + ", "@ + "__c"@ + ": "@ + "OwnedDVec"@ + "(self, "@ + "__p"@ + ", "@ + "__n"@ + ", "@, "__a"@, k14);
    lemma_regroup("(lambda "@ + "__a"@ + ", "@ + "__p"@ + ", "@ + "__n"@ + ", "@ + "__c"@ + ": "@ + "OwnedDVec"@ + "(self, "@ + "__p"@ + ", "@ + "__n"@, ", "@, k15);
    lemma_regroup("(lambda "@ + "__a"@ + ", "@ + "__p"@ + ", "@ + "__n"@ + ", "@ + "__c"@ + ": "@ + "OwnedDVec"@ + "(self, "@ + "__p"@ + ", "@, "__n"@, k16);
    lemma_regroup("(lambda "@ + "__a"@ + ", "@ + "__p"@ + ", "@ + "__n"@ + ", "@ + "__c"@ + ": "@ + "OwnedDVec"@ + "(self, "@ + "__p"@, ", "@, k17);
    lemma_regroup("(lambda "@ + "__a"@ + ", "@ + "__p"@ + ", "@ + "__n"@ + ", "@ + "__c"@ + ": "@ + "OwnedDVec"@ + "(self, "@, "__p"@, k18);
    lemma_regroup("(lambda "@ + "__a"@ + ", "@ + "__p"@ + ", "@ + "__n"@ + ", "@ + "__c"@ + ": "@ + "OwnedDVec"@, "(self, "@, k19);
    lemma_regroup("(lambda "@ + "__a"@ + ", "@ + "__p"@ + ", "@ + "__n"@ + ", "@ + "__c"@ + ": "@, "OwnedDVec"@, k20);
    lemma_regroup("(lambda "@ + "__a"@ + ", "@ + "__p"@ + ", "@ + "__n"@ + ", "@ + "__c"@, ": "@, k21);
    lemma_regroup("(lambda "@ + "__a"@ + ", "@ + "__p"@ + ", "@ + "__n"@ + ", "@, "__c"@, k22);
    lemma_regroup("(lambda "@ + "__a"@ + ", "@ + "__p"@ + ", "@ + "__n"@, ", "@, k23);
    lemma_regroup("(lambda "@ + "__a"@ + ", "@ + "__p"@ + ", "@, "__n"@, k24);
    lemma_regroup("(lambda "@ + "__a"@ + ", "@ + "__p"@, ", "@, k25);
    lemma_regroup("(lambda "@ + "__a"@ + ", "@, "__p"@, k26);
    lemma_regroup("(lambda "@ + "__a"@, ", "@, k27);
    lemma_regroup("(lambda "@, "__a"@, k28);
    lemma_end("(lambda "@ + ((("__a"@ + ", "@ + "__p"@) + ", "@ + "__n"@) + ", "@ + "__c"@) + ": "@ + ("OwnedDVec"@ + "(self, "@ + (("__p"@ + ", "@ + "__n"@) + ", "@ + "__a"@) + ")"@) + ")("@ + ((((r + ".read()"@) + ", "@ + (r + ".read()"@)) + ", "@ + (r + ".read()"@)) + ", "@ + (r + ".read()"@)) + ")"@, "(lambda __a, __p, __n, __c: OwnedDVec(self, __p, __n, __a))("@ + r + ".read(), "@ + r + ".read(), "@ + r + ".read(), "@ + r + ".read())"@, k0);
}

proof fn cat_named(r: Seq<char>, name: Seq<char>)
    ensures
        alike(name + "._from_ptr(self, "@ + (r + ".read()"@) + ")"@, name + "._from_ptr(self, "@ + r + ".read())"@),
{
    assert(alike(".read())"@, ".read()"@ + ")"@)) by {
        reveal_strlit(".read())");
        reveal_strlit(".read()");
        reveal_strlit(")");
        assert(".read())"@ =~= ".read()"@ + ")"@);
    }
    let k0 = Seq::<char>::empty();
    let k1 = ")"@ + k0;
    let k2 = ".read()"@ + k1;
    let k3 = r + k2;
    let k4 = "._from_ptr(self, "@ + k3;
    let k5 = name + k4;
    lemma_regroup(name + "._from_ptr(self, "@ + (r + ".read()"@), ")"@, k0);
    lemma_regroup(name + "._from_ptr(self, "@, (r + ".read()"@), k1);
    lemma_regroup(r, ".read()"@, k1);
    lemma_regroup(name, "._from_ptr(self, "@, k3);
    lemma_regroup(name + "._from_ptr(self, "@ + r, ".read())"@, k0);
    lemma_regroup(".read()"@, ")"@, k0);
    lemma_regroup(name + "._from_ptr(self, "@, r, k2);
    lemma_regroup(name, "._from_ptr(self, "@, k3);
    lemma_end(name + "._from_ptr(self, "@ + (r + ".read()"@) + ")"@, name + "._from_ptr(self, "@ + r + ".read())"@, k0);
}

proof fn cat_word(r: Seq<char>)
    ensures
        alike((r + ".read_u64()"@) + ".to_bytes(8, 'little')"@, r + ".read_u64().to_bytes(8, 'little')"@),
{
    assert(alike(".read_u64().to_bytes(8, 'little')"@, ".read_u64()"@ + ".to_bytes(8, 'little')"@)) by {
        reveal_strlit(".read_u64().to_bytes(8, 'little')");
        reveal_strlit(".read_u64()");
        reveal_strlit(".to_bytes(8, 'little')");
        assert(".read_u64().to_bytes(8, 'little')"@ =~= ".read_u64()"@ + ".to_bytes(8, 'little')"@);
    }
    let k0 = Seq::<char>::empty();
    let k1 = ".to_bytes(8, 'little')"@ + k0;
    let k2 = ".read_u64()"@ + k1;
    let k3 = r + k2;
    lemma_regroup((r + ".read_u64()"@), ".to_bytes(8, 'little')"@, k0);
    lemma_regroup(r, ".read_u64()"@, k1);
    lemma_regroup(r, ".read_u64().to_bytes(8, 'little')"@, k0);
    lemma_regroup(".read_u64()"@, ".to_bytes(8, 'little')"@, k0);
    lemma_end((r + ".read_u64()"@) + ".to_bytes(8, 'little')"@, r + ".read_u64().to_bytes(8, 'little')"@, k0);
}

proof fn cat_unit(n: Seq<char>, vn: Seq<char>, di: Seq<char>)
    ensures
        alike((n + "('"@ + vn + "')"@) + " if "@ + ("__d"@ + " == "@ + di) + " else "@, n + "('"@ + vn + "') if __d == "@ + di + " else "@),
{
    assert(alike("') if __d == "@, "')"@ + " if "@ + "__d"@ + " == "@)) by {
        reveal_strlit("') if __d == ");
        reveal_strlit("')");
        reveal_strlit(" if ");
        reveal_strlit("__d");
        reveal_strlit(" == ");
        assert("') if __d == "@ =~= "')"@ + " if "@ + "__d"@ + " == "@);
    }
    let k0 = Seq::<char>::empty();
    let k1 = " else "@ + k0;
    let k2 = di + k1;
    let k3 = " == "@ + k2;
    let k4 = "__d"@ + k3;
    let k5 = " if "@ + k4;
    let k6 = "')"@ + k5;
    let k7 = vn + k6;
    let k8 = "('"@ + k7;
    let k9 = n + k8;
    lemma_regroup((n + "('"@ + vn + "')"@) + " if "@ + ("__d"@ + " == "@ + di), " else "@, k0);
    lemma_regroup((n + "('"@ + vn + "')"@) + " if "@, ("__d"@ + " == "@ + di), k1);
    lemma_regroup("__d"@ + " == "@, di, k1);
    lemma_regroup("__d"@, " == "@, k2);
    lemma_regroup((n + "('"@ + vn + "')"@), " if "@, k4);
    lemma_regroup(n + "('"@ + vn, "')"@, k5);
    lemma_regroup(n + "('"@, vn, k6);
    lemma_regroup(n, "('"@, k7);
    lemma_regroup(n + "('"@ + vn + "') if __d == "@ + di, " else "@, k0);
    lemma_regroup(n + "('"@ + vn + "') if __d == "@, di, k1);
    lemma_regroup(n + "('"@ + vn, "') if __d == "@, k2);
    lemma_regroup("')"@ + " if "@ + "__d"@, " == "@, k2);
    lemma_regroup("')"@ + " if "@, "__d"@, k3);
    lemma_regroup("')"@, " if "@, k4);
    lemma_regroup(n + "('"@, vn, k6);
    lemma_regroup(n, "('"@, k7);
    lemma_end((n + "('"@ + vn + "')"@) + " if "@ + ("__d"@ + " == "@ + di) + " else "@, n + "('"@ + vn + "') if __d == "@ + di + " else "@, k0);
}

proof fn cat_fields(n: Seq<char>, vn: Seq<char>, args: Seq<char>, di: Seq<char>)
    ensures
        alike((n + "('"@ + vn + "', "@ + args + ")"@) + " if "@ + ("__d"@ + " == "@ + di) + " else "@, n + "('"@ + vn + "', "@ + args + ") if __d == "@ + di + " else "@),
{
    assert(alike(") if __d == "@, ")"@ + " if "@ + "__d"@ + " == "@)) by {
        reveal_strlit(") if __d == ");
        reveal_strlit(")");
        reveal_strlit(" if ");
        reveal_strlit("__d");
        reveal_strlit(" == ");
        assert(") if __d == "@ =~= ")"@ + " if "@ + "__d"@ + " == "@);
    }
    let k0 = Seq::<char>::empty();
    let k1 = " else "@ + k0;
    let k2 = di + k1;
    let k3 = " == "@ + k2;
    let k4 = "__d"@ + k3;
    let k5 = " if "@ + k4;
    let k6 = ")"@ + k5;
    let k7 = args + k6;
    let k8 = "', "@ + k7;
    let k9 = vn + k8;
    let k10 = "('"@ + k9;
    let k11 = n + k10;
    lemma_regroup((n + "('"@ + vn + "', "@ + args + ")"@) + " if "@ + ("__d"@ + " == "@ + di), " else "@, k0);
    lemma_regroup((n + "('"@ + vn + "', "@ + args + ")"@) + " if "@, ("__d"@ + " == "@ + di), k1);
    lemma_regroup("__d"@ + " == "@, di, k1);
    lemma_regroup("__d"@, " == "@, k2);
    lemma_regroup((n + "('"@ + vn + "', "@ + args + ")"@), " if "@, k4);
    lemma_regroup(n + "('"@ + vn + "', "@ + args, ")"@, k5);
    lemma_regroup(n + "('"@ + vn + "', "@, args, k6);
    lemma_regroup(n + "('"@ + vn, "', "@, k7);
    lemma_regroup(n + "('"@, vn, k8);
    lemma_regroup(n, "('"@, k9);
    lemma_regroup(n + "('"@ + vn + "', "@ + args + ") if __d == "@ + di, " else "@, k0);
    lemma_regroup(n + "('"@ + vn + "', "@ + args + ") if __d == "@, di, k1);
    lemma_regroup(n + "('"@ + vn + "', "@ + args, ") if __d == "@, k2);
    lemma_regroup(")"@ + " if "@ + "__d"@, " == "@, k2);
    lemma_regroup(")"@ + " if "@, "__d"@, k3);
    lemma_regroup(")"@, " if "@, k4);
    lemma_regroup(n + "('"@ + vn + "', "@, args, k6);
    lemma_regroup(n + "('"@ + vn, "', "@, k7);
    lemma_regroup(n + "('"@, vn, k8);
    lemma_regroup(n, "('"@, k9);
    lemma_end((n + "('"@ + vn + "', "@ + args + ")"@) + " if "@ + ("__d"@ + " == "@ + di) + " else "@, n + "('"@ + vn + "', "@ + args + ") if __d == "@ + di + " else "@, k0);
}

proof fn cat_enum(n: Seq<char>, arms: Seq<char>, r: Seq<char>)
    ensures
        alike("(lambda "@ + "__d"@ + ": "@ + (arms + ("(_ for _ in ()).throw(DynSpireError('invalid "@ + n + " discriminant ' + str(__d)))"@)) + ")("@ + (r + ".read()"@) + ")"@, "(lambda __d: "@ + arms + "(_ for _ in ()).throw(DynSpireError('invalid "@ + n + " discriminant ' + str(__d))))("@ + r + ".read())"@),
{
    assert(alike("(lambda __d: "@, "(lambda "@ + "__d"@ + ": "@)) by {
        reveal_strlit("(lambda __d: ");
        reveal_strlit("(lambda ");
        reveal_strlit("__d");
        reveal_strlit(": ");
        assert("(lambda __d: "@ =~= "(lambda "@ + "__d"@ + ": "@);
    }
    assert(alike(" discriminant ' + str(__d))))("@, " discriminant ' + str(__d)))"@ + ")("@)) by {
        reveal_strlit(" discriminant ' + str(__d))))(");
        reveal_strlit(" discriminant ' + str(__d)))");
        reveal_strlit(")(");
        assert(" discriminant ' + str(__d))))("@ =~= " discriminant ' + str(__d)))"@ + ")("@);
    }
    assert(alike(".read())"@, ".read()"@ + ")"@)) by {
        reveal_strlit(".read())");
        reveal_strlit(".read()");
        reveal_strlit(")");
        assert(".read())"@ =~= ".read()"@ + ")"@);
    }
    let k0 = Seq::<char>::empty();
    let k1 = ")"@ + k0;
    let k2 = ".read()"@ + k1;
    let k3 = r + k2;
    let k4 = ")("@ + k3;
    let k5 = " discriminant ' + str(__d)))"@ + k4;
    let k6 = n + k5;
    let k7 = "(_ for _ in ()).throw(DynSpireError('invalid "@ + k6;
    let k8 = arms + k7;
    let k9 = ": "@ + k8;
    let k10 = "__d"@ + k9;
    let k11 = "(lambda "@ + k10;
    lemma_regroup("(lambda "@ + "__d"@ + ": "@ + (arms + ("(_ for _ in ()).throw(DynSpireError('invalid "@ + n + " discriminant ' + str(__d)))"@)) + ")("@ + (r + ".read()"@), ")"@, k0);
    lemma_regroup("(lambda "@ + "__d"@ + ": "@ + (arms + ("(_ for _ in ()).throw(DynSpireError('invalid "@ + n + " discriminant ' + str(__d)))"@)) + ")("@, (r + ".read()"@), k1);
    lemma_regroup(r, ".read()"@, k1);
    lemma_regroup("(lambda "@ + "__d"@ + ": "@ + (arms + ("(_ for _ in ()).throw(DynSpireError('invalid "@ + n + " discriminant ' + str(__d)))"@)), ")("@, k3);
    lemma_regroup("(lambda "@ + "__d"@ + ": "@, (arms + ("(_ for _ in ()).throw(DynSpireError('invalid "@ + n + " discriminant ' + str(__d)))"@)), k4);
    lemma_regroup(arms, ("(_ for _ in ()).throw(DynSpireError('invalid "@ + n + " discriminant ' + str(__d)))"@), k4);
    lemma_regroup("(_ for _ in ()).throw(DynSpireError('invalid "@ + n, " discriminant ' + str(__d)))"@, k4);
    lemma_regroup("(_ for _ in ()).throw(DynSpireError('invalid "@, n, k5);
    lemma_regroup("(lambda "@ + "__d"@, ": "@, k8);
    lemma_regroup("(lambda "@, "__d"@, k9);
    lemma_regroup("(lambda __d: "@ + arms + "(_ for _ in ()).throw(DynSpireError('invalid "@ + n + " discriminant ' + str(__d))))("@ + r, ".read())"@, k0);
    lemma_regroup(".read()"@, ")"@, k0);
    lemma_regroup("(lambda __d: "@ + arms + "(_ for _ in ()).throw(DynSpireError('invalid "@ + n + " discriminant ' + str(__d))))("@, r, k2);
    lemma_regroup("(lambda __d: "@ + arms + "(_ for _ in ()).throw(DynSpireError('invalid "@ + n, " discriminant ' + str(__d))))("@, k3);
    lemma_regroup(" discriminant ' + str(__d)))"@, ")("@, k3);
    lemma_regroup("(lambda __d: "@ + arms + "(_ for _ in ()).throw(DynSpireError('invalid "@, n, k5);
    lemma_regroup("(lambda __d: "@ + arms, "(_ for _ in ()).throw(DynSpireError('invalid "@, k6);
    lemma_regroup("(lambda __d: "@, arms, k7);
    lemma_regroup("(lambda "@ + "__d"@, ": "@, k8);
    lemma_regroup("(lambda "@, "__d"@, k9);
    lemma_end("(lambda "@ + "__d"@ + ": "@ + (arms + ("(_ for _ in ()).throw(DynSpireError('invalid "@ + n + " discriminant ' + str(__d)))"@)) + ")("@ + (r + ".read()"@) + ")"@, "(lambda __d: "@ + arms + "(_ for _ in ()).throw(DynSpireError('invalid "@ + n + " discriminant ' + str(__d))))("@ + r + ".read())"@, k0);
}

proof fn lemma_two_names()
    ensures
        names_text(seq!["__p"@, "__n"@], 2) == "__p"@ + ", "@ + "__n"@,
{
    let ps = seq!["__p"@, "__n"@];
    assert(names_text(ps, 1) == "__p"@);
}

proof fn lemma_four_names()
    ensures
        names_text(seq!["__a"@, "__p"@, "__n"@, "__c"@], 4) == "__a"@ + ", "@ + "__p"@ + ", "@
            + "__n"@ + ", "@ + "__c"@,
{
    let ps = seq!["__a"@, "__p"@, "__n"@, "__c"@];
    assert(names_text(ps, 1) == "__a"@);
    assert(names_text(ps, 2) == names_text(ps, 1) + ", "@ + "__p"@);
    assert(names_text(ps, 3) == names_text(ps, 2) + ", "@ + "__n"@);
}

proof fn lemma_shown_text()
    ensures
        py_text(shown()) == "ctypes.string_at("@ + "__p"@ + ", "@ + "__n"@ + ")"@,
{
    assert(py_text(Py::Name("__p"@)) == "__p"@);
    assert(py_text(Py::Name("__n"@)) == "__n"@);
}

proof fn lemma_text_py(r: Seq<char>)
    ensures
        py_text(text_py(r)) == "(lambda __p, __n: ctypes.string_at(__p, __n).decode('utf-8', 'replace') if __p else \"\")("@
            + r
            + ".read(), "@
            + r
            + ".read())"@,
        py_text(bytes_py(r)) == "(lambda __p, __n: ctypes.string_at(__p, __n) if __p else b\"\")("@
            + r
            + ".read(), "@
            + r
            + ".read())"@,
{
    let es = seq![raw(r), raw(r)];
    assert(py_text(raw(r)) == r + ".read()"@);
    assert(py_texts(es, 1) == py_text(raw(r)));
    assert(py_texts(es, 2) == py_texts(es, 1) + ", "@ + py_text(raw(r)));
    assert(es.len() == 2);
    lemma_two_names();
    assert(seq!["__p"@, "__n"@].len() == 2);
    lemma_shown_text();
    let p = Py::Name("__p"@);
    assert(py_text(p) == "__p"@);
    let d = Py::Decode(Box::new(shown()));
    assert(py_text(d) == py_text(shown()) + ".decode('utf-8', 'replace')"@);
    let a = Py::If(Box::new(d), Box::new(p), Box::new(Py::EmptyText));
    assert(py_text(Py::EmptyText) == "\"\""@);
    assert(py_text(a) == py_text(d) + " if "@ + "__p"@ + " else "@ + "\"\""@);
    cat_text(r);
    let b = Py::If(Box::new(shown()), Box::new(p), Box::new(Py::EmptyBytes));
    assert(py_text(Py::EmptyBytes) == "b\"\""@);
    assert(py_text(b) == py_text(shown()) + " if "@ + "__p"@ + " else "@ + "b\"\""@);
    cat_bytes(r);
}

proof fn lemma_handle_py(r: Seq<char>)
    ensures
        py_text(handle_py(r, "DStringHandle"@)) == "(lambda __a, __p, __n, __c: DStringHandle(self, __p, __n, __a))("@
            + r
            + ".read(), "@
            + r
            + ".read(), "@
            + r
            + ".read(), "@
            + r
            + ".read())"@,
        py_text(handle_py(r, "OwnedDVec"@)) == "(lambda __a, __p, __n, __c: OwnedDVec(self, __p, __n, __a))("@
            + r
            + ".read(), "@
            + r
            + ".read(), "@
            + r
            + ".read(), "@
            + r
            + ".read())"@,
{
    let es = seq![raw(r), raw(r), raw(r), raw(r)];
    let t = py_text(raw(r));
    assert(t == r + ".read()"@);
    assert(py_texts(es, 1) == t);
    assert(py_texts(es, 2) == py_texts(es, 1) + ", "@ + t);
    assert(py_texts(es, 3) == py_texts(es, 2) + ", "@ + t);
    assert(py_texts(es, 4) == py_texts(es, 3) + ", "@ + t);
    assert(es.len() == 4);
    lemma_four_names();
    assert(seq!["__a"@, "__p"@, "__n"@, "__c"@].len() == 4);
    let ns = seq![Py::Name("__p"@), Py::Name("__n"@), Py::Name("__a"@)];
    assert(py_text(Py::Name("__p"@)) == "__p"@);
    assert(py_text(Py::Name("__n"@)) == "__n"@);
    assert(py_text(Py::Name("__a"@)) == "__a"@);
    assert(py_texts(ns, 1) == "__p"@);
    assert(py_texts(ns, 2) == py_texts(ns, 1) + ", "@ + "__n"@);
    assert(py_texts(ns, 3) == py_texts(ns, 2) + ", "@ + "__a"@);
    assert(ns.len() == 3);
    assert(py_text(Py::New("DStringHandle"@, ns)) == "DStringHandle"@ + "(self, "@ + py_texts(ns, 3)
        + ")"@);
    assert(py_text(Py::New("OwnedDVec"@, ns)) == "OwnedDVec"@ + "(self, "@ + py_texts(ns, 3) + ")"@);
    cat_handle_text(r);
    cat_handle_vec(r);
}

proof fn lemma_option_py(r: Seq<char>, e: Py)
    ensures
        ({
            let inner = py_text(e);
            py_text(option_py(r, e)) == "None if "@ + r + ".read() == 0 else "@ + inner
        }),
{
    lemma_casts();
    assert(py_text(raw(r)) == r + ".read()"@);
    let c = Py::Eq(Box::new(raw(r)), 0);
    assert(py_text(c) == py_text(raw(r)) + " == "@ + "0"@);
    assert(py_text(Py::Nothing) == "None"@);
    cat_option(r, py_text(e));
}

proof fn lemma_py_texts_head(a: Seq<Py>, x: Py, n: nat)
    requires
        n <= a.len(),
    ensures
        py_texts(a.push(x), n) == py_texts(a, n),
    decreases n,
{
    if n > 0 {
        lemma_py_texts_head(a, x, (n - 1) as nat);
        assert(a.push(x)[n - 1] == a[n - 1]);
    }
}

proof fn lemma_copies_text(e: Py, n: nat, k: nat)
    requires
        k <= n,
    ensures
        py_texts(copies(e, n), k) == repeat_list(py_text(e), k),
    decreases k,
{
    if k > 1 {
        lemma_copies_text(e, n, (k - 1) as nat);
    }
}

proof fn lemma_py_text(ft: Ty, r: Seq<char>, types: Seq<Decl>, depth: nat)
    requires
        readable(ft, types, depth),
    ensures
        py_text(py_prog(ft, r, types, depth)) == py_read_code(ft, r, types, depth),
    decreases 4 * depth, ft, 0nat,
{
    match ft {
        Ty::Option(t) => {
            lemma_py_text(*t, r, types, depth);
            lemma_option_py(r, py_prog(*t, r, types, depth));
        },
        Ty::DOption(t) => {
            lemma_py_text(*t, r, types, depth);
            lemma_option_py(r, py_prog(*t, r, types, depth));
        },
        Ty::DStr | Ty::DSlice(_) => lemma_text_py(r),
        Ty::DString | Ty::DVec(_) => lemma_handle_py(r),
        Ty::Ref(t) => match *t {
            Ty::DString => lemma_text_py(r),
            Ty::DVec(_) => lemma_text_py(r),
            other => lemma_py_text(other, r, types, depth),
        },
        Ty::Tuple(ts) => {
            lemma_py_list_text(ts, ts.len(), r, types, depth);
        },
        Ty::Array(t, n) => {
            if *t is U8 && n % 8 == 0 {
                let w = word_py(r);
                assert(py_text(Py::Read(r, Get::U64)) == r + ".read_u64()"@);
                assert(py_text(w) == py_text(Py::Read(r, Get::U64)) + ".to_bytes(8, 'little')"@);
                cat_word(r);
                lemma_copies_text(w, n / 8, n / 8);
                assert(copies(w, n / 8).len() == n / 8);
            } else {
                lemma_py_text(*t, r, types, depth);
                lemma_copies_text(py_prog(*t, r, types, depth), n, n);
                assert(copies(py_prog(*t, r, types, depth), n).len() == n);
            }
        },
        Ty::Named(name) => match lookup(types, name) {
            Some(Decl::Enum(e)) => {
                let d = (depth - 1) as nat;
                let es = seq![raw(r)];
                let ps = seq!["__d"@];
                assert(py_text(raw(r)) == r + ".read()"@);
                assert(py_texts(es, 1) == py_text(raw(r)));
                assert(names_text(ps, 1) == "__d"@);
                assert(es.len() == 1 && ps.len() == 1);
                let k = e.variants.len();
                lemma_choice_text(e, 0, r, types, d);
                assert(py_text(Py::Invalid(e.name))
                    == "(_ for _ in ()).throw(DynSpireError('invalid "@ + e.name
                    + " discriminant ' + str(__d)))"@);
                let arms = py_read_arms(e.name, e.variants, k, r, types, d);
                cat_enum(e.name, arms, r);
                let first = py_read_arms(e.name, e.variants, 0, r, types, d);
                assert(first + py_text(py_choice(e, 0, r, types, d)) =~= py_text(
                    py_choice(e, 0, r, types, d),
                ));
                let n = e.name;
                assert(py_enum_read_expr(e, r, types, d) == "(lambda __d: "@
                    + arms
                    + "(_ for _ in ()).throw(DynSpireError('invalid "@
                    + n
                    + " discriminant ' + str(__d))))("@
                    + r
                    + ".read())"@);
            },
            _ => {
                assert(py_text(raw(r)) == r + ".read()"@);
                cat_named(r, name);
            },
        },
        _ => {},
    }
}

proof fn lemma_py_list_text(ts: Seq<Ty>, n: nat, r: Seq<char>, types: Seq<Decl>, depth: nat)
    requires
        n <= ts.len(),
        all_readable(ts, n, types, depth),
    ensures
        py_list(ts, n, r, types, depth).len() == n,
        py_texts(py_list(ts, n, r, types, depth), n) == py_read_list(ts, n, r, types, depth),
    decreases 4 * depth, ts, n,
{
    if n > 0 {
        let before = py_list(ts, (n - 1) as nat, r, types, depth);
        let x = py_prog(ts[n - 1], r, types, depth);
        lemma_py_list_text(ts, (n - 1) as nat, r, types, depth);
        lemma_py_text(ts[n - 1], r, types, depth);
        lemma_py_texts_head(before, x, (n - 1) as nat);
        assert(before.push(x)[n - 1] == x);
    }
}

proof fn lemma_all_readable(ts: Seq<Ty>, n: nat, types: Seq<Decl>, depth: nat)
    requires
        forall|j: int| 0 <= j < ts.len() ==> readable(#[trigger] ts[j], types, depth),
        n <= ts.len(),
    ensures
        all_readable(ts, n, types, depth),
    decreases n,
{
    if n > 0 {
        lemma_all_readable(ts, (n - 1) as nat, types, depth);
    }
}

proof fn lemma_variant_readable(e: EnumModel, i: nat, types: Seq<Decl>, depth: nat)
    requires
        enum_readable(e, types, depth),
        i < e.variants.len(),
    ensures
        all_readable(
            e.variants[i as int].fields,
            e.variants[i as int].fields.len(),
            types,
            depth,
        ),
        forall|j: int|
            0 <= j < e.variants[i as int].fields.len() ==> (
            #[trigger] e.variants[i as int].fields[j]).field_dtype()
                == e.variants[i as int].fields[j],
{
    let fs = e.variants[i as int].fields;
    assert forall|j: int| 0 <= j < fs.len() implies readable(#[trigger] fs[j], types, depth) by {
        assert(e.variants[i as int].fields[j] == fs[j]);
    }
    lemma_all_readable(fs, fs.len(), types, depth);
}

proof fn lemma_choice_text(e: EnumModel, i: nat, r: Seq<char>, types: Seq<Decl>, depth: nat)
    requires
        i <= e.variants.len(),
        enum_readable(e, types, depth),
    ensures
        py_read_arms(e.name, e.variants, i, r, types, depth) + py_text(
            py_choice(e, i, r, types, depth),
        ) == py_read_arms(e.name, e.variants, e.variants.len(), r, types, depth) + py_text(
            Py::Invalid(e.name),
        ),
    decreases 4 * depth + 2, e.variants, e.variants.len() - i,
{
    if i < e.variants.len() {
        lemma_choice_text(e, i + 1, r, types, depth);
        let v = e.variants[i as int];
        let fs = v.fields;
        lemma_variant_readable(e, i, types, depth);
        lemma_py_list_text(fs, fs.len(), r, types, depth);
        let es = py_list(fs, fs.len(), r, types, depth);
        let x = Py::Variant(e.name, v.name, es);
        let c = Py::Eq(Box::new(Py::Name("__d"@)), i);
        let rest = py_choice(e, i + 1, r, types, depth);
        let di = dec(i);
        assert(py_text(Py::Name("__d"@)) == "__d"@);
        assert(py_text(c) == "__d"@ + " == "@ + di);
        let args = py_read_list(fs, fs.len(), r, types, depth);
        let head = py_text(x) + " if "@ + py_text(c) + " else "@;
        if fs.len() == 0 {
            assert(py_text(x) == e.name + "('"@ + v.name + "')"@);
            cat_unit(e.name, v.name, di);
        } else {
            assert(py_text(x) == e.name + "('"@ + v.name + "', "@ + args + ")"@);
            cat_fields(e.name, v.name, args, di);
        }
        let now = py_read_arms(e.name, e.variants, i, r, types, depth);
        let next = py_read_arms(e.name, e.variants, i + 1, r, types, depth);
        assert(next == now + head);
        assert(py_text(py_choice(e, i, r, types, depth)) == head + py_text(rest));
        lemma_regroup(now, head, py_text(rest));
    }
}

// ---------------------------------------------------------------------------
// What it comes to
// ---------------------------------------------------------------------------

/// Whether an expression comes to `v` and takes these slots of the reader `r`,
/// whatever is behind them.
pub open spec fn py_takes(
    e: Py,
    r: Seq<char>,
    env: Map<Seq<char>, PyVal>,
    slots: Seq<u64>,
    v: PyVal,
) -> bool {
    forall|m: PyState|
        m.env == env && m.reader == r && slots.is_prefix_of(m.ins) ==> #[trigger] py_eval(e, m)
            == Some((v, PyState { ins: m.ins.skip(slots.len() as int), ..m }))
}

/// Whether the first `n` expressions come to these values.
pub open spec fn py_takes_all(
    es: Seq<Py>,
    n: nat,
    r: Seq<char>,
    env: Map<Seq<char>, PyVal>,
    slots: Seq<u64>,
    vs: Seq<PyVal>,
) -> bool {
    forall|m: PyState|
        m.env == env && m.reader == r && slots.is_prefix_of(m.ins) ==> #[trigger] py_eval_all(
            es,
            n,
            m,
        ) == Some((vs, PyState { ins: m.ins.skip(slots.len() as int), ..m }))
}

proof fn lemma_prefix(slots: Seq<u64>, ins: Seq<u64>)
    requires
        slots.is_prefix_of(ins),
    ensures
        forall|i: int| 0 <= i < slots.len() ==> slots[i] == #[trigger] ins[i],
{
    assert forall|i: int| 0 <= i < slots.len() implies slots[i] == #[trigger] ins[i] by {
        assert(ins.subrange(0, slots.len() as int)[i] == ins[i]);
    }
}

proof fn lemma_got(
    r: Seq<char>,
    g: Get,
    slots: Seq<u64>,
    env: Map<Seq<char>, PyVal>,
    v: PyVal,
)
    requires
        slots.len() == 1 || slots.len() == 2,
        got(g, slots) == Some((v, slots.len())),
    ensures
        py_takes(Py::Read(r, g), r, env, slots, v),
{
    assert forall|m: PyState|
        m.env == env && m.reader == r && slots.is_prefix_of(m.ins) implies #[trigger] py_eval(
        Py::Read(r, g),
        m,
    ) == Some((v, PyState { ins: m.ins.skip(slots.len() as int), ..m })) by {
        lemma_prefix(slots, m.ins);
        assert(slots[0] == m.ins[0]);
        if slots.len() == 2 {
            assert(slots[1] == m.ins[1]);
        }
        assert(got(g, m.ins) == got(g, slots));
    }
}

proof fn lemma_py_takes_none(es: Seq<Py>, r: Seq<char>, env: Map<Seq<char>, PyVal>)
    ensures
        py_takes_all(es, 0, r, env, Seq::empty(), Seq::empty()),
{
    assert forall|m: PyState| #![trigger py_eval_all(es, 0, m)] m.ins.skip(0) == m.ins by {
        assert(m.ins.skip(0) =~= m.ins);
    }
}

/// One more of the expressions.
proof fn lemma_py_takes_more(
    es: Seq<Py>,
    n: nat,
    r: Seq<char>,
    env: Map<Seq<char>, PyVal>,
    slots: Seq<u64>,
    vs: Seq<PyVal>,
    more: Seq<u64>,
    v: PyVal,
)
    requires
        n < es.len(),
        py_takes_all(es, n, r, env, slots, vs),
        py_takes(es[n as int], r, env, more, v),
    ensures
        py_takes_all(es, n + 1, r, env, slots + more, vs.push(v)),
{
    let all = slots + more;
    assert forall|m: PyState|
        m.env == env && m.reader == r && all.is_prefix_of(m.ins) implies #[trigger] py_eval_all(
        es,
        n + 1,
        m,
    ) == Some((vs.push(v), PyState { ins: m.ins.skip(all.len() as int), ..m })) by {
        lemma_split(slots, more, m.ins);
        let m1 = PyState { ins: m.ins.skip(slots.len() as int), ..m };
        assert(py_eval_all(es, n, m) == Some((vs, m1)));
        assert(py_eval(es[n as int], m1) == Some(
            (v, PyState { ins: m1.ins.skip(more.len() as int), ..m1 }),
        ));
    }
}

proof fn lemma_py_all_head(a: Seq<Py>, x: Py, n: nat, m: PyState)
    requires
        n <= a.len(),
    ensures
        py_eval_all(a.push(x), n, m) == py_eval_all(a, n, m),
    decreases n,
{
    if n > 0 {
        lemma_py_all_head(a, x, (n - 1) as nat, m);
        assert(a.push(x)[n - 1] == a[n - 1]);
    }
}

proof fn lemma_py_all_pushed(
    a: Seq<Py>,
    x: Py,
    r: Seq<char>,
    env: Map<Seq<char>, PyVal>,
    slots: Seq<u64>,
    vs: Seq<PyVal>,
)
    requires
        py_takes_all(a, a.len(), r, env, slots, vs),
    ensures
        py_takes_all(a.push(x), a.len(), r, env, slots, vs),
{
    assert forall|m: PyState|
        m.env == env && m.reader == r && slots.is_prefix_of(m.ins) implies #[trigger] py_eval_all(
        a.push(x),
        a.len(),
        m,
    ) == Some((vs, PyState { ins: m.ins.skip(slots.len() as int), ..m })) by {
        lemma_py_all_head(a, x, a.len(), m);
    }
}

/// A call of a function with as many slots as it has parameters.
proof fn lemma_lambda(
    ps: Seq<Seq<char>>,
    a: Py,
    r: Seq<char>,
    env: Map<Seq<char>, PyVal>,
    slots: Seq<u64>,
    more: Seq<u64>,
    vs: Seq<PyVal>,
    v: PyVal,
    es: Seq<Py>,
)
    requires
        es.len() == ps.len(),
        vs.len() == ps.len(),
        py_takes_all(es, es.len(), r, env, slots, vs),
        py_takes(a, r, bound(env, ps, vs, ps.len()), more, v),
    ensures
        py_takes(Py::Lambda(ps, Box::new(a), es), r, env, slots + more, v),
{
    let e = Py::Lambda(ps, Box::new(a), es);
    let all = slots + more;
    let inside = bound(env, ps, vs, ps.len());
    assert forall|m: PyState|
        m.env == env && m.reader == r && all.is_prefix_of(m.ins) implies #[trigger] py_eval(e, m)
        == Some((v, PyState { ins: m.ins.skip(all.len() as int), ..m })) by {
        lemma_split(slots, more, m.ins);
        let m1 = PyState { ins: m.ins.skip(slots.len() as int), ..m };
        assert(py_eval_all(es, es.len(), m) == Some((vs, m1)));
        let m2 = PyState { env: inside, ..m1 };
        assert(py_eval(a, m2) == Some(
            (v, PyState { ins: m2.ins.skip(more.len() as int), ..m2 }),
        ));
    }
}

/// `n` slots, each as it is.
proof fn lemma_raw_slots(
    r: Seq<char>,
    es: Seq<Py>,
    slots: Seq<u64>,
    n: nat,
    env: Map<Seq<char>, PyVal>,
)
    requires
        n <= slots.len() == es.len(),
        forall|i: int| 0 <= i < es.len() ==> #[trigger] es[i] == raw(r),
    ensures
        py_takes_all(
            es,
            n,
            r,
            env,
            slots.take(n as int),
            Seq::new(n, |i: int| PyVal::Int(slots[i] as int)),
        ),
    decreases n,
{
    let f = |i: int| PyVal::Int(slots[i] as int);
    if n == 0 {
        lemma_py_takes_none(es, r, env);
        assert(slots.take(0) =~= Seq::empty());
        assert(Seq::new(0, f) =~= Seq::empty());
    } else {
        let k = (n - 1) as nat;
        lemma_raw_slots(r, es, slots, k, env);
        let one = seq![slots[n - 1]];
        let v = PyVal::Int(slots[n - 1] as int);
        assert(one[0] == slots[n - 1]);
        lemma_got(r, Get::Raw, one, env, v);
        assert(es[k as int] == raw(r));
        lemma_py_takes_more(es, k, r, env, slots.take(k as int), Seq::new(k, f), one, v);
        assert(slots.take(k as int) + one =~= slots.take(n as int));
        assert(Seq::new(k, f).push(v) =~= Seq::new(n, f));
    }
}

proof fn lemma_param_names()
    ensures
        "__a"@ != "__p"@,
        "__a"@ != "__n"@,
        "__a"@ != "__c"@,
        "__p"@ != "__n"@,
        "__p"@ != "__c"@,
        "__n"@ != "__c"@,
{
    reveal_strlit("__a");
    reveal_strlit("__p");
    reveal_strlit("__n");
    reveal_strlit("__c");
    assert("__a"@[2] == 'a');
    assert("__p"@[2] == 'p');
    assert("__n"@[2] == 'n');
    assert("__c"@[2] == 'c');
}

proof fn lemma_view_py(v: Val, r: Seq<char>, env: Map<Seq<char>, PyVal>)
    requires
        v is View,
        *v->View_1 is Ptr,
        is_address((*v->View_1)->Ptr_0),
        *v->View_2 is Int,
        is_address((*v->View_2)->Int_2),
    ensures
        py_takes(text_py(r), r, env, view_wire(v), py_view(v, Kind::Text)),
        py_takes(bytes_py(r), r, env, view_wire(v), py_view(v, Kind::Bytes)),
{
    let slots = view_wire(v);
    let p = (*v->View_1)->Ptr_0;
    let n = (*v->View_2)->Int_2;
    fitting_numbers_are_kept(n);
    let es = seq![raw(r), raw(r)];
    let ps = seq!["__p"@, "__n"@];
    let vs = Seq::new(2, |i: int| PyVal::Int(slots[i] as int));
    lemma_raw_slots(r, es, slots, 2, env);
    assert(slots.take(2) =~= slots);
    let inside = bound(env, ps, vs, 2);
    lemma_param_names();
    assert(bound(env, ps, vs, 0) == env);
    assert(bound(env, ps, vs, 1) == env.insert("__p"@, vs[0]));
    assert(inside == env.insert("__p"@, PyVal::Int(p)).insert("__n"@, PyVal::Int(n)));
    let none = Seq::<u64>::empty();
    let np = Py::Name("__p"@);
    let d = Py::Decode(Box::new(shown()));
    let a = Py::If(Box::new(d), Box::new(np), Box::new(Py::EmptyText));
    let b = Py::If(Box::new(shown()), Box::new(np), Box::new(Py::EmptyBytes));
    assert forall|m: PyState|
        m.env == inside && m.reader == r && none.is_prefix_of(m.ins) implies #[trigger] py_eval(
        a,
        m,
    ) == Some((py_view(v, Kind::Text), PyState { ins: m.ins.skip(none.len() as int), ..m })) by {
        assert(m.ins.skip(0) =~= m.ins);
        assert(py_eval(np, m) == Some((PyVal::Int(p), m)));
        assert(py_eval(Py::Name("__n"@), m) == Some((PyVal::Int(n), m)));
        assert(py_eval(shown(), m) == Some((PyVal::At(Kind::Bytes, p, n), m)));
        assert(py_eval(d, m) == Some((PyVal::At(Kind::Text, p, n), m)));
        assert(py_eval(Py::EmptyText, m) == Some((PyVal::Empty(Kind::Text), m)));
    }
    assert forall|m: PyState|
        m.env == inside && m.reader == r && none.is_prefix_of(m.ins) implies #[trigger] py_eval(
        b,
        m,
    ) == Some((py_view(v, Kind::Bytes), PyState { ins: m.ins.skip(none.len() as int), ..m })) by {
        assert(m.ins.skip(0) =~= m.ins);
        assert(py_eval(np, m) == Some((PyVal::Int(p), m)));
        assert(py_eval(Py::Name("__n"@), m) == Some((PyVal::Int(n), m)));
        assert(py_eval(shown(), m) == Some((PyVal::At(Kind::Bytes, p, n), m)));
        assert(py_eval(Py::EmptyBytes, m) == Some((PyVal::Empty(Kind::Bytes), m)));
    }
    lemma_lambda(ps, a, r, env, slots, none, vs, py_view(v, Kind::Text), es);
    lemma_lambda(ps, b, r, env, slots, none, vs, py_view(v, Kind::Bytes), es);
    assert(slots + none =~= slots);
}

proof fn lemma_managed_py(v: Val, r: Seq<char>, env: Map<Seq<char>, PyVal>, class: Seq<char>)
    requires
        v is Managed,
        *v->Managed_1 is Ptr,
        is_address((*v->Managed_1)->Ptr_0),
        *v->Managed_2 is Ptr,
        is_address((*v->Managed_2)->Ptr_0),
        *v->Managed_3 is Int,
        is_address((*v->Managed_3)->Int_2),
    ensures
        py_takes(handle_py(r, class), r, env, managed_wire(v), py_handle(v, class)),
{
    let slots = managed_wire(v);
    let n = (*v->Managed_3)->Int_2;
    fitting_numbers_are_kept(n);
    let es = seq![raw(r), raw(r), raw(r), raw(r)];
    let ps = seq!["__a"@, "__p"@, "__n"@, "__c"@];
    let vs = Seq::new(4, |i: int| PyVal::Int(slots[i] as int));
    lemma_raw_slots(r, es, slots, 4, env);
    assert(slots.take(4) =~= slots);
    let inside = bound(env, ps, vs, 4);
    lemma_param_names();
    let e1 = bound(env, ps, vs, 1);
    let e2 = bound(env, ps, vs, 2);
    let e3 = bound(env, ps, vs, 3);
    assert(bound(env, ps, vs, 0) == env);
    assert(e1 == env.insert("__a"@, vs[0]));
    assert(e2 == e1.insert("__p"@, vs[1]));
    assert(e3 == e2.insert("__n"@, vs[2]));
    assert(inside == e3.insert("__c"@, vs[3]));
    let none = Seq::<u64>::empty();
    let ns = seq![Py::Name("__p"@), Py::Name("__n"@), Py::Name("__a"@)];
    let a = Py::New(class, ns);
    let x = py_handle(v, class);
    assert forall|m: PyState|
        m.env == inside && m.reader == r && none.is_prefix_of(m.ins) implies #[trigger] py_eval(
        a,
        m,
    ) == Some((x, PyState { ins: m.ins.skip(none.len() as int), ..m })) by {
        assert(m.ins.skip(0) =~= m.ins);
        assert(py_eval(ns[0], m) == Some((vs[1], m)));
        assert(py_eval(ns[1], m) == Some((vs[2], m)));
        assert(py_eval(ns[2], m) == Some((vs[0], m)));
        let q = Seq::<PyVal>::empty();
        assert(py_eval_all(ns, 0, m) == Some((q, m)));
        assert(py_eval_all(ns, 1, m) == Some((q.push(vs[1]), m)));
        assert(py_eval_all(ns, 2, m) == Some((q.push(vs[1]).push(vs[2]), m)));
        assert(py_eval_all(ns, 3, m) == Some((q.push(vs[1]).push(vs[2]).push(vs[0]), m)));
        assert(q.push(vs[1]).push(vs[2]).push(vs[0]) =~= x->Handle_1);
    }
    lemma_lambda(ps, a, r, env, slots, none, vs, x, es);
    assert(slots + none =~= slots);
}

proof fn lemma_py_option(
    v: Val,
    inner: Py,
    r: Seq<char>,
    env: Map<Seq<char>, PyVal>,
    slots: Seq<u64>,
    x: PyVal,
)
    requires
        match v {
            Val::Nil => slots == seq![0u64] && x == PyVal::Nothing,
            Val::Just(_) => exists|rest: Seq<u64>| #[trigger]
                py_takes(inner, r, env, rest, x) && slots == seq![1u64] + rest,
            _ => false,
        },
    ensures
        py_takes(option_py(r, inner), r, env, slots, x),
{
    let tag: u64 = if v is Nil {
        0
    } else {
        1
    };
    let rest = if v is Nil {
        Seq::<u64>::empty()
    } else {
        choose|rest: Seq<u64>| #[trigger]
            py_takes(inner, r, env, rest, x) && slots == seq![1u64] + rest
    };
    assert(slots =~= seq![tag] + rest);
    let t = PyVal::Int(tag as int);
    assert(seq![tag][0] == tag);
    lemma_got(r, Get::Raw, seq![tag], env, t);
    let c = Py::Eq(Box::new(raw(r)), 0);
    let e = option_py(r, inner);
    assert forall|m: PyState|
        m.env == env && m.reader == r && slots.is_prefix_of(m.ins) implies #[trigger] py_eval(e, m)
        == Some((x, PyState { ins: m.ins.skip(slots.len() as int), ..m })) by {
        lemma_split(seq![tag], rest, m.ins);
        let m1 = PyState { ins: m.ins.skip(1), ..m };
        assert(py_eval(raw(r), m) == Some((t, m1)));
        assert(py_eval(c, m) == Some((PyVal::Bool(tag == 0), m1)));
        if tag == 0 {
            assert(py_eval(Py::Nothing, m1) == Some((PyVal::Nothing, m1)));
        } else {
            assert(py_eval(inner, m1) == Some(
                (x, PyState { ins: m1.ins.skip(rest.len() as int), ..m1 }),
            ));
        }
    }
}

proof fn lemma_py_get(
    ft: Ty,
    v: Val,
    r: Seq<char>,
    env: Map<Seq<char>, PyVal>,
    types: Seq<Decl>,
    depth: nat,
)
    requires
        has_type(v, ft, types, depth),
        readable(ft, types, depth),
    ensures
        py_takes(
            py_prog(ft, r, types, depth),
            r,
            env,
            wire(v, ft, types, depth),
            py_value(v, ft, types, depth),
        ),
    decreases 4 * depth, ft, 0nat,
{
    match ft {
        Ty::Unit => {
            assert forall|m: PyState| #![trigger py_eval(Py::Nothing, m)] m.ins.skip(0)
                == m.ins by {
                assert(m.ins.skip(0) =~= m.ins);
            }
        },
        Ty::Bool => {
            lemma_got(r, Get::Bool, seq![slot(v)], env, py_value(v, ft, types, depth));
        },
        Ty::U8 => {
            slots_hold_integers(v->Int_2, false, 8);
            lemma_got(r, Get::U8, seq![slot(v)], env, py_value(v, ft, types, depth));
        },
        Ty::U16 => {
            slots_hold_integers(v->Int_2, false, 16);
            lemma_got(r, Get::U16, seq![slot(v)], env, py_value(v, ft, types, depth));
        },
        Ty::U32 => {
            slots_hold_integers(v->Int_2, false, 32);
            lemma_got(r, Get::U32, seq![slot(v)], env, py_value(v, ft, types, depth));
        },
        Ty::I8 => {
            slots_hold_integers(v->Int_2, true, 8);
            lemma_got(r, Get::I8, seq![slot(v)], env, py_value(v, ft, types, depth));
        },
        Ty::I16 => {
            slots_hold_integers(v->Int_2, true, 16);
            lemma_got(r, Get::I16, seq![slot(v)], env, py_value(v, ft, types, depth));
        },
        Ty::I32 => {
            slots_hold_integers(v->Int_2, true, 32);
            lemma_got(r, Get::I32, seq![slot(v)], env, py_value(v, ft, types, depth));
        },
        Ty::I64 => {
            slots_hold_integers(v->Int_2, true, 64);
            lemma_got(r, Get::I64, seq![slot(v)], env, py_value(v, ft, types, depth));
        },
        Ty::U64 => {
            assert(v->Int_2 % 0x1_0000_0000_0000_0000 == v->Int_2);
            lemma_got(r, Get::U64, seq![slot(v)], env, py_value(v, ft, types, depth));
        },
        Ty::F32 => {
            assert(v->Float_1 % 0x1_0000_0000 == v->Float_1);
            lemma_got(r, Get::F32, seq![slot(v)], env, py_value(v, ft, types, depth));
        },
        Ty::F64 => {
            lemma_got(r, Get::F64, seq![slot(v)], env, py_value(v, ft, types, depth));
        },
        Ty::Str | Ty::U8Slice => {
            lemma_got(r, Get::Bytes, slice_wire(v), env, py_value(v, ft, types, depth));
        },
        Ty::String => {
            lemma_got(r, Get::Text, slice_wire(v), env, py_value(v, ft, types, depth));
        },
        Ty::Vec(t) => {
            let g = match *t {
                Ty::U8 => Get::Bytes,
                Ty::String => Get::Texts,
                _ => Get::Lists,
            };
            lemma_got(r, g, slice_wire(v), env, py_value(v, ft, types, depth));
        },
        Ty::OutU8Vec | Ty::RefMut(_) => {},
        Ty::DStr | Ty::DSlice(_) => lemma_view_py(v, r, env),
        Ty::DString => lemma_managed_py(v, r, env, "DStringHandle"@),
        Ty::DVec(_) => lemma_managed_py(v, r, env, "OwnedDVec"@),
        Ty::Option(t) => {
            lemma_py_some(*t, v, r, env, types, depth);
            lemma_py_option(
                v,
                py_prog(*t, r, types, depth),
                r,
                env,
                wire(v, ft, types, depth),
                py_value(v, ft, types, depth),
            );
        },
        Ty::DOption(t) => {
            lemma_py_some(*t, v, r, env, types, depth);
            lemma_py_option(
                v,
                py_prog(*t, r, types, depth),
                r,
                env,
                wire(v, ft, types, depth),
                py_value(v, ft, types, depth),
            );
        },
        Ty::Ref(t) => match *t {
            Ty::DString => lemma_view_py(v, r, env),
            Ty::DVec(_) => lemma_view_py(v, r, env),
            other => lemma_py_get(other, v, r, env, types, depth),
        },
        Ty::Tuple(ts) => {
            let vs = v->Tuple_0;
            let es = py_list(ts, ts.len(), r, types, depth);
            let xs = py_values(vs, ts, ts.len(), types, depth);
            let slots = wire(v, ft, types, depth);
            lemma_py_get_list(ts, ts.len(), vs, r, env, types, depth);
            assert forall|m: PyState|
                m.env == env && m.reader == r && slots.is_prefix_of(m.ins) implies
                #[trigger] py_eval(Py::Tuple(es), m) == Some(
                (PyVal::Tuple(xs), PyState { ins: m.ins.skip(slots.len() as int), ..m }),
            ) by {
                assert(py_eval_all(es, es.len(), m) == Some(
                    (xs, PyState { ins: m.ins.skip(slots.len() as int), ..m }),
                ));
            }
        },
        Ty::Array(t, n) => {
            let vs = v->List_0;
            let slots = wire(v, ft, types, depth);
            if *t is U8 && n % 8 == 0 {
                assert forall|i: int| 0 <= i < vs.len() implies unsigned(
                    #[trigger] vs[i],
                    8,
                ) is Some && 0 <= vs[i]->Int_2 < 256 by {
                    assert(has_type(vs[i], *t, types, depth));
                }
                let es = copies(word_py(r), n / 8);
                let xs = lemma_py_words(n / 8, n / 8, vs, r, env);
                assert(vs.take(8 * (n / 8) as int) =~= vs);
                assert forall|m: PyState|
                    m.env == env && m.reader == r && slots.is_prefix_of(m.ins) implies
                    #[trigger] py_eval(Py::Join(es), m) == Some(
                    (
                        py_value(v, ft, types, depth),
                        PyState { ins: m.ins.skip(slots.len() as int), ..m },
                    ),
                ) by {
                    assert(py_eval_all(es, es.len(), m) == Some(
                        (xs, PyState { ins: m.ins.skip(slots.len() as int), ..m }),
                    ));
                }
            } else {
                let es = copies(py_prog(*t, r, types, depth), n);
                let xs = py_items(vs, *t, n, types, depth);
                lemma_py_get_items(*t, n, n, vs, r, env, types, depth);
                assert forall|m: PyState|
                    m.env == env && m.reader == r && slots.is_prefix_of(m.ins) implies
                    #[trigger] py_eval(Py::List(es), m) == Some(
                    (PyVal::List(xs), PyState { ins: m.ins.skip(slots.len() as int), ..m }),
                ) by {
                    assert(py_eval_all(es, es.len(), m) == Some(
                        (xs, PyState { ins: m.ins.skip(slots.len() as int), ..m }),
                    ));
                }
            }
        },
        Ty::Named(name) => match lookup(types, name) {
            Some(Decl::Enum(e)) => {
                lemma_py_get_enum(e, v, r, env, types, (depth - 1) as nat);
            },
            _ => {
                let t = PyVal::Int(v->Object_0);
                let slots = seq![slot(v)];
                assert(slots[0] == slot(v));
                lemma_got(r, Get::Raw, slots, env, t);
                let e = Py::FromPtr(name, Box::new(raw(r)));
                assert forall|m: PyState|
                    m.env == env && m.reader == r && slots.is_prefix_of(m.ins) implies
                    #[trigger] py_eval(e, m) == Some(
                    (
                        PyVal::Object(name, v->Object_0),
                        PyState { ins: m.ins.skip(slots.len() as int), ..m },
                    ),
                ) by {
                    assert(py_eval(raw(r), m) == Some(
                        (t, PyState { ins: m.ins.skip(slots.len() as int), ..m }),
                    ));
                }
            },
        },
    }
}

proof fn lemma_py_some(
    t: Ty,
    v: Val,
    r: Seq<char>,
    env: Map<Seq<char>, PyVal>,
    types: Seq<Decl>,
    depth: nat,
)
    requires
        readable(t, types, depth),
        match v {
            Val::Nil => true,
            Val::Just(x) => has_type(*x, t, types, depth),
            _ => false,
        },
    ensures
        v matches Val::Just(x) ==> py_takes(
            py_prog(t, r, types, depth),
            r,
            env,
            wire(*x, t, types, depth),
            py_value(*x, t, types, depth),
        ),
    decreases 4 * depth, t, 1nat,
{
    match v {
        Val::Just(x) => lemma_py_get(t, *x, r, env, types, depth),
        _ => {},
    }
}

proof fn lemma_py_get_list(
    ts: Seq<Ty>,
    n: nat,
    vs: Seq<Val>,
    r: Seq<char>,
    env: Map<Seq<char>, PyVal>,
    types: Seq<Decl>,
    depth: nat,
)
    requires
        n <= ts.len() == vs.len(),
        all_readable(ts, n, types, depth),
        have_types(vs, ts, n, types, depth),
    ensures
        py_list(ts, n, r, types, depth).len() == n,
        py_takes_all(
            py_list(ts, n, r, types, depth),
            n,
            r,
            env,
            tuple_wire(vs, ts, n, types, depth),
            py_values(vs, ts, n, types, depth),
        ),
    decreases 4 * depth, ts, n,
{
    let es = py_list(ts, n, r, types, depth);
    if n == 0 {
        lemma_py_takes_none(es, r, env);
    } else {
        let k = (n - 1) as nat;
        let before = py_list(ts, k, r, types, depth);
        let x = py_prog(ts[n - 1], r, types, depth);
        let slots = tuple_wire(vs, ts, k, types, depth);
        let xs = py_values(vs, ts, k, types, depth);
        lemma_py_get_list(ts, k, vs, r, env, types, depth);
        lemma_py_get(ts[n - 1], vs[n - 1], r, env, types, depth);
        lemma_py_all_pushed(before, x, r, env, slots, xs);
        assert(es == before.push(x));
        assert(es[k as int] == x);
        lemma_py_takes_more(
            es,
            k,
            r,
            env,
            slots,
            xs,
            wire(vs[n - 1], ts[n - 1], types, depth),
            py_value(vs[n - 1], ts[n - 1], types, depth),
        );
    }
}

proof fn lemma_py_get_items(
    t: Ty,
    total: nat,
    n: nat,
    vs: Seq<Val>,
    r: Seq<char>,
    env: Map<Seq<char>, PyVal>,
    types: Seq<Decl>,
    depth: nat,
)
    requires
        n <= total == vs.len(),
        readable(t, types, depth),
        forall|i: int| 0 <= i < vs.len() ==> has_type(#[trigger] vs[i], t, types, depth),
    ensures
        py_takes_all(
            copies(py_prog(t, r, types, depth), total),
            n,
            r,
            env,
            list_wire(vs, t, n, types, depth),
            py_items(vs, t, n, types, depth),
        ),
    decreases 4 * depth, t, 1 + n,
{
    let es = copies(py_prog(t, r, types, depth), total);
    if n == 0 {
        lemma_py_takes_none(es, r, env);
    } else {
        let k = (n - 1) as nat;
        lemma_py_get_items(t, total, k, vs, r, env, types, depth);
        lemma_py_get(t, vs[n - 1], r, env, types, depth);
        lemma_py_takes_more(
            es,
            k,
            r,
            env,
            list_wire(vs, t, k, types, depth),
            py_items(vs, t, k, types, depth),
            wire(vs[n - 1], t, types, depth),
            py_value(vs[n - 1], t, types, depth),
        );
    }
}

/// The words of a byte array.
proof fn lemma_py_words(
    total: nat,
    n: nat,
    vs: Seq<Val>,
    r: Seq<char>,
    env: Map<Seq<char>, PyVal>,
) -> (xs: Seq<PyVal>)
    requires
        n <= total,
        8 * total == vs.len(),
        forall|i: int|
            0 <= i < vs.len() ==> unsigned(#[trigger] vs[i], 8) is Some && 0 <= vs[i]->Int_2 < 256,
    ensures
        xs.len() == n,
        py_takes_all(copies(word_py(r), total), n, r, env, words(vs, n), xs),
        joined_bytes(xs, n) == bytes_of(vs.take(8 * n as int)),
    decreases n,
{
    let es = copies(word_py(r), total);
    if n == 0 {
        lemma_py_takes_none(es, r, env);
        assert(bytes_of(vs.take(0)) is Some);
        assert(bytes_of(vs.take(0))->Some_0 =~= Seq::empty());
        Seq::empty()
    } else {
        let k = (n - 1) as nat;
        let before = lemma_py_words(total, k, vs, r, env);
        let part = vs.subrange((n - 1) * 8, (n - 1) * 8 + 8);
        let now = vs.take(8 * n as int);
        let old_part = vs.take(8 * k as int);
        assert forall|i: int| 0 <= i < now.len() implies unsigned(#[trigger] now[i], 8) is Some
            && 0 <= now[i]->Int_2 < 256 by {
            assert(now[i] == vs[i]);
        }
        assert forall|i: int| 0 <= i < part.len() implies unsigned(#[trigger] part[i], 8) is Some
            && 0 <= part[i]->Int_2 < 256 by {
            assert(part[i] == vs[(n - 1) * 8 + i]);
        }
        assert forall|i: int| 0 <= i < old_part.len() implies unsigned(
            #[trigger] old_part[i],
            8,
        ) is Some && 0 <= old_part[i]->Int_2 < 256 by {
            assert(old_part[i] == vs[i]);
        }
        let bs = bytes_of(part)->Some_0;
        let word = spec_u64_from_le_bytes(bs);
        lemma_auto_spec_u64_to_from_le_bytes();
        assert(spec_u64_to_le_bytes(word) == bs);
        let one = seq![word];
        let t = PyVal::Int(word as int);
        assert(one[0] == word);
        lemma_got(r, Get::U64, one, env, t);
        let x = PyVal::Bytes(bs);
        assert forall|m: PyState|
            m.env == env && m.reader == r && one.is_prefix_of(m.ins) implies #[trigger] py_eval(
            word_py(r),
            m,
        ) == Some((x, PyState { ins: m.ins.skip(one.len() as int), ..m })) by {
            assert(py_eval(Py::Read(r, Get::U64), m) == Some(
                (t, PyState { ins: m.ins.skip(one.len() as int), ..m }),
            ));
        }
        assert(es[k as int] == word_py(r));
        lemma_py_takes_more(es, k, r, env, words(vs, k), before, one, x);
        assert(words(vs, k) + one =~= words(vs, n));
        let xs = before.push(x);
        lemma_joined_head(before, x, k);
        assert(bytes_of(old_part)->Some_0 + bs =~= bytes_of(now)->Some_0);
        xs
    }
}

proof fn lemma_joined_head(a: Seq<PyVal>, x: PyVal, n: nat)
    requires
        n <= a.len(),
    ensures
        joined_bytes(a.push(x), n) == joined_bytes(a, n),
    decreases n,
{
    if n > 0 {
        lemma_joined_head(a, x, (n - 1) as nat);
        assert(a.push(x)[n - 1] == a[n - 1]);
    }
}

/// Fields laid out as they are declared have the slots of the elements of a
/// tuple.
proof fn lemma_same_layout(vs: Seq<Val>, fs: Seq<Ty>, n: nat, types: Seq<Decl>, depth: nat)
    requires
        n <= fs.len() == vs.len(),
        forall|j: int| 0 <= j < fs.len() ==> (#[trigger] fs[j]).field_dtype() == fs[j],
    ensures
        fields_wire(vs, fs, n, types, depth) == tuple_wire(vs, fs, n, types, depth),
        fields_have_types(vs, fs, n, types, depth) == have_types(vs, fs, n, types, depth),
    decreases n,
{
    if n > 0 {
        lemma_same_layout(vs, fs, (n - 1) as nat, types, depth);
        assert(fs[n - 1].field_dtype() == fs[n - 1]);
    }
}

proof fn lemma_py_choose(
    e: EnumModel,
    i: nat,
    name: Seq<char>,
    r: Seq<char>,
    types: Seq<Decl>,
    depth: nat,
    m: PyState,
)
    requires
        i <= variant_from(e.variants, name, 0) < e.variants.len(),
        m.env.contains_key("__d"@),
        m.env["__d"@] == PyVal::Int(variant_from(e.variants, name, 0) as int),
    ensures
        ({
            let k = variant_from(e.variants, name, 0);
            let v = e.variants[k as int];
            py_eval(py_choice(e, i, r, types, depth), m) == py_eval(
                Py::Variant(
                    e.name,
                    v.name,
                    py_list(v.fields, v.fields.len(), r, types, depth),
                ),
                m,
            )
        }),
    decreases e.variants.len() - i,
{
    let k = variant_from(e.variants, name, 0);
    let d = Py::Name("__d"@);
    let c = Py::Eq(Box::new(d), i);
    assert(py_eval(d, m) == Some((PyVal::Int(k as int), m)));
    assert(py_eval(c, m) == Some((PyVal::Bool(k == i), m)));
    if i < k {
        lemma_py_choose(e, i + 1, name, r, types, depth, m);
    }
}

proof fn lemma_named(vs: Seq<VariantModel>, name: Seq<char>, i: nat)
    requires
        variant_from(vs, name, i) < vs.len(),
    ensures
        vs[variant_from(vs, name, i) as int].name == name,
    decreases vs.len() - i,
{
    if i < vs.len() && vs[i as int].name != name {
        lemma_named(vs, name, i + 1);
    }
}

proof fn lemma_py_get_enum(
    e: EnumModel,
    v: Val,
    r: Seq<char>,
    env: Map<Seq<char>, PyVal>,
    types: Seq<Decl>,
    depth: nat,
)
    requires
        is_variant(v, e, types, depth),
        enum_readable(e, types, depth),
    ensures
        py_takes(
            Py::Lambda(
                seq!["__d"@],
                Box::new(py_choice(e, 0, r, types, depth)),
                seq![raw(r)],
            ),
            r,
            env,
            variant_wire(v, e, types, depth),
            py_variant(v, e, types, depth),
        ),
    decreases 4 * depth + 2, e.variants, 0nat,
{
    let name = v->Variant_1;
    let vs = v->Variant_2;
    let k = variant_from(e.variants, name, 0);
    let fs = e.variants[k as int].fields;
    lemma_named(e.variants, name, 0);
    lemma_variant_readable(e, k, types, depth);
    assert forall|j: int| 0 <= j < fs.len() implies (#[trigger] fs[j]).field_dtype() == fs[j] by {
        assert(e.variants[k as int].fields[j] == fs[j]);
    }
    lemma_same_layout(vs, fs, fs.len(), types, depth);
    let head = seq![k as u64];
    let rest = tuple_wire(vs, fs, fs.len(), types, depth);
    let es = seq![raw(r)];
    let ps = seq!["__d"@];
    let xs = Seq::new(1, |i: int| PyVal::Int(head[i] as int));
    lemma_raw_slots(r, es, head, 1, env);
    assert(head.take(1) =~= head);
    let inside = bound(env, ps, xs, 1);
    assert(bound(env, ps, xs, 0) == env);
    assert(inside == env.insert("__d"@, PyVal::Int(k as int)));
    lemma_py_get_list(fs, fs.len(), vs, r, inside, types, depth);
    let a = py_choice(e, 0, r, types, depth);
    let fields = py_list(fs, fs.len(), r, types, depth);
    let ys = py_values(vs, fs, fs.len(), types, depth);
    let x = py_variant(v, e, types, depth);
    assert forall|m: PyState|
        m.env == inside && m.reader == r && rest.is_prefix_of(m.ins) implies #[trigger] py_eval(
        a,
        m,
    ) == Some((x, PyState { ins: m.ins.skip(rest.len() as int), ..m })) by {
        lemma_py_choose(e, 0, name, r, types, depth, m);
        assert(py_eval_all(fields, fields.len(), m) == Some(
            (ys, PyState { ins: m.ins.skip(rest.len() as int), ..m }),
        ));
        assert(py_eval(Py::Variant(e.name, name, fields), m) == Some(
            (x, PyState { ins: m.ins.skip(rest.len() as int), ..m }),
        ));
    }
    lemma_lambda(ps, a, r, env, head, rest, xs, x, es);
}

// ---------------------------------------------------------------------------
// The law
// ---------------------------------------------------------------------------

/// The state in which `r` is a reader of these slots, and no name stands for
/// anything.
pub open spec fn py_reading(r: Seq<char>, ins: Seq<u64>) -> PyState {
    PyState { env: Map::empty(), reader: r, ins }
}

/// Whether `code`, run where `r` is a reader of these slots, with anything
/// behind them, comes to `v` and takes exactly these slots.
pub open spec fn py_reads_slots(code: Seq<char>, r: Seq<char>, slots: Seq<u64>, v: PyVal) -> bool {
    exists|q: Py| #[trigger]
        py_text(q) == code && forall|rest: Seq<u64>| #[trigger]
            py_eval(q, py_reading(r, slots + rest)) == Some((v, py_reading(r, rest)))
}

/// What generated Rust writes, generated Python reads: for a value of any type
/// the writing code puts the slots of the value, and the expression that reads
/// in Python, run on these slots, comes to that value and leaves what is behind
/// them.
pub proof fn what_rust_writes_python_reads(
    own: bool,
    ft: Ty,
    v: Val,
    x: Seq<char>,
    w: Seq<char>,
    r: Seq<char>,
    types: Seq<Decl>,
    depth: nat,
)
    requires
        has_type(v, ft, types, depth),
        readable(ft, types, depth),
        is_free(w),
        x != w,
    ensures
        kept(own, ft, types, depth) && no_single(ft, types, depth) ==> writes(
            write_code(own, ft, x, w, types, depth),
            x,
            v,
            w,
            wire(v, ft, types, depth),
        ),
        py_reads_slots(
            py_read_code(ft, r, types, depth),
            r,
            wire(v, ft, types, depth),
            py_value(v, ft, types, depth),
        ),
{
    let slots = wire(v, ft, types, depth);
    if kept(own, ft, types, depth) && no_single(ft, types, depth) {
        what_is_written_is_read_back(own, ft, v, x, w, w, types, depth);
    }
    lemma_py_text(ft, r, types, depth);
    lemma_py_get(ft, v, r, Map::empty(), types, depth);
    let q = py_prog(ft, r, types, depth);
    assert(py_text(q) == py_read_code(ft, r, types, depth));
    assert forall|rest: Seq<u64>| #[trigger]
        py_eval(q, py_reading(r, slots + rest)) == Some(
        (py_value(v, ft, types, depth), py_reading(r, rest)),
    ) by {
        let m = py_reading(r, slots + rest);
        assert(slots =~= m.ins.subrange(0, slots.len() as int));
        assert(m.ins.skip(slots.len() as int) =~= rest);
    }
}

/// An optional value in Python: for `None` Rust puts the tag 0 and nothing
/// else, and Python, reading it, comes to `None` and takes no further slot; for
/// a value it puts the tag 1 and the slots of the value, from which Python reads
/// the value.
pub proof fn tags_mean_the_same(
    t: Ty,
    x: Val,
    r: Seq<char>,
    types: Seq<Decl>,
    depth: nat,
)
    requires
        has_type(x, t, types, depth),
        readable(t, types, depth),
    ensures
        py_reads_slots(
            py_read_code(Ty::Option(Box::new(t)), r, types, depth),
            r,
            seq![0u64],
            PyVal::Nothing,
        ),
        py_reads_slots(
            py_read_code(Ty::Option(Box::new(t)), r, types, depth),
            r,
            seq![1u64] + wire(x, t, types, depth),
            py_value(x, t, types, depth),
        ),
        wire(Val::Nil, Ty::Option(Box::new(t)), types, depth) == seq![0u64],
        wire(Val::Just(Box::new(x)), Ty::Option(Box::new(t)), types, depth) == seq![1u64] + wire(
            x,
            t,
            types,
            depth,
        ),
{
    let o = Ty::Option(Box::new(t));
    let free = seq!['a'];
    lemma_free(free);
    assert(free != seq!['b']) by {
        assert(free[0] != seq!['b'][0]);
    }
    what_rust_writes_python_reads(false, o, Val::Nil, seq!['b'], free, r, types, depth);
    what_rust_writes_python_reads(
        false,
        o,
        Val::Just(Box::new(x)),
        seq!['b'],
        free,
        r,
        types,
        depth,
    );
}

proof fn lemma_free(x: Seq<char>)
    requires
        x.len() == 1,
        x[0] != '_',
    ensures
        is_free(x),
{
    reveal_strlit("__v");
    reveal_strlit("__tag");
    reveal_strlit("__p");
    reveal_strlit("__l");
    reveal_strlit("__arr");
    reveal_strlit("__alloc");
    reveal_strlit("__ptr");
    reveal_strlit("__len");
    reveal_strlit("__cap");
    reveal_strlit("_");
    reveal_strlit("__f");
    assert("_"@[0] == '_');
    assert forall|i: nat| x != #[trigger] field_name(i) by {
        assert(field_name(i).len() >= 3);
    }
}

} // verus!
