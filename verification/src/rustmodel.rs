//! A small part of Rust: how its statements are written and what they do.
//!
//! Generated code is text. This says what such a text does when it is run: a
//! program is a tree, [`text`] and [`lines`] write it down, and [`eval`] and
//! [`run`] run it on a machine that reads slots, puts slots and keeps names.
use vstd::bytes::{spec_u64_from_le_bytes, spec_u64_to_le_bytes};
use vstd::prelude::*;

use crate::text::dec;

verus! {

// ---------------------------------------------------------------------------
// Values
// ---------------------------------------------------------------------------

/// The structs of the managed memory, with the Rust type of their elements.
pub enum Rec {
    DStr,
    DSlice(Seq<char>),
    DString,
    DVec(Seq<char>),
}

/// A value.
pub enum Val {
    Bool(bool),
    /// An integer: whether it is signed, its bits, and the number.
    Int(bool, nat, int),
    /// A floating point number: its size and its bits.
    Float(nat, int),
    /// An address, and the type of what stands there.
    Ptr(int, Seq<char>),
    /// Elements that stand side by side: address, number and type. Without
    /// elements there is no address.
    Slice(int, int, Seq<char>),
    /// A view: pointer and length.
    View(Rec, Box<Val>, Box<Val>),
    /// A managed text or vector: allocator, pointer, length and capacity.
    Managed(Rec, Box<Val>, Box<Val>, Box<Val>, Box<Val>),
    Nil,
    Just(Box<Val>),
    Tuple(Seq<Val>),
    List(Seq<Val>),
    /// A variant of an enum.
    Variant(Seq<char>, Seq<char>, Seq<Val>),
    /// What stands at an address, and its type.
    Object(int, Seq<char>),
    /// A struct without fields.
    Nothing(Seq<char>),
    /// A result: what was wanted, or an error.
    Fine(Box<Val>),
    Wrong(Box<Val>),
    /// What slots are read from, and put to.
    Reader,
    Writer,
}

/// The number of values that an integer of so many bits has.
pub open spec fn span(bits: nat) -> int {
    if bits == 8 {
        0x100
    } else if bits == 16 {
        0x1_0000
    } else if bits == 32 {
        0x1_0000_0000
    } else {
        0x1_0000_0000_0000_0000
    }
}

/// `n` cut to an integer type.
pub open spec fn wrap(n: int, signed: bool, bits: nat) -> int {
    let m = n % span(bits);
    if signed && 2 * m >= span(bits) {
        m - span(bits)
    } else {
        m
    }
}

/// Whether `n` is a number of an integer type.
pub open spec fn in_range(n: int, signed: bool, bits: nat) -> bool {
    if signed {
        -span(bits) <= 2 * n < span(bits)
    } else {
        0 <= n < span(bits)
    }
}

/// Cutting a number that fits to a slot and back changes nothing.
pub proof fn slots_hold_integers(n: int, signed: bool, bits: nat)
    requires
        bits == 8 || bits == 16 || bits == 32 || bits == 64,
        in_range(n, signed, bits),
    ensures
        wrap(wrap(n, false, 64), signed, bits) == n,
        in_range(wrap(n, false, 64), false, 64),
{
    let m: int = 0x1_0000_0000_0000_0000;
    if n >= 0 {
        assert(n % m == n);
    } else {
        assert(n % m == n + m);
    }
    if bits == 8 {
        assert((n + m) % 0x100 == n % 0x100);
    } else if bits == 16 {
        assert((n + m) % 0x1_0000 == n % 0x1_0000);
    } else if bits == 32 {
        assert((n + m) % 0x1_0000_0000 == n % 0x1_0000_0000);
    }
}

/// A number that fits a slot is not cut.
pub proof fn fitting_numbers_are_kept(n: int)
    requires
        0 <= n < 0x1_0000_0000_0000_0000,
    ensures
        wrap(n, false, 64) == n,
{
    assert(n % 0x1_0000_0000_0000_0000 == n);
}

// ---------------------------------------------------------------------------
// Programs
// ---------------------------------------------------------------------------

/// A field of a managed value or of an option.
pub enum Fld {
    Allocator,
    Ptr,
    Len,
    Cap,
    Tag,
    Value,
}

/// A method without arguments.
pub enum Meth {
    ReadU64,
    ToBits,
    AsPtr,
    Len,
    IsNull,
    IsSome,
    IsEmpty,
    ToVec,
    Clone,
    TryInto,
    Unwrap,
    ToLeBytes,
    IntoRaw,
}

/// A function.
pub enum Fun {
    F32FromBits,
    F64FromBits,
    FromLeBytes,
    RawParts,
    StrUnchecked,
    StringUnchecked,
    StringNew,
    /// Of elements of the type that is wanted.
    VecNew(Seq<char>),
    AddrOf,
    Just,
    OwnString,
    OwnVec(Seq<char>),
    Fine,
    Wrong,
}

/// The type that a value is cast to.
pub enum Cast {
    Int(bool, nat),
    Usize,
    Const(Seq<char>),
    Mut(Seq<char>),
    Bytes,
}

/// An expression.
pub enum Ex {
    Name(Seq<char>),
    Num(nat),
    Field(Box<Ex>, Fld),
    Part(Box<Ex>, nat),
    At(Box<Ex>, nat),
    Range(Box<Ex>, nat, nat),
    Star(Box<Ex>),
    Paren(Box<Ex>),
    Ref(Box<Ex>),
    RefMut(Box<Ex>),
    Call(Box<Ex>, Meth),
    Apply(Fun, Seq<Ex>),
    As(Box<Ex>, Cast),
    Eq(Box<Ex>, nat),
    Ne(Box<Ex>, nat),
    Or(Box<Ex>, Box<Ex>),
    If(Box<Ex>, Box<Ex>, Box<Ex>),
    EmptyText,
    EmptySlice,
    Zeros(nat),
    Tuple(Seq<Ex>),
    List(Seq<Ex>),
    Record(Rec, Seq<(Fld, Ex)>),
    Variant(Seq<char>, Seq<char>, Seq<Ex>),
    UnitStruct(Seq<char>),
    Nil,
    DNil(Seq<char>),
    DSome(Seq<char>, Box<Ex>),
    Block(bool, Seq<St>, Box<Ex>),
    /// A match on a number; of the enum of that name there are no others.
    Match(Box<Ex>, Seq<Ex>, Seq<char>),
}

/// A statement.
pub enum St {
    /// Blanks and line ends.
    Blank(Seq<char>),
    Put(Seq<char>, Ex),
    Let(bool, Seq<char>, Ex),
    LetTyped(Seq<char>, Seq<char>, Ex),
    Copy(Seq<char>, nat, nat, Ex),
    If(Ex, Seq<St>, Seq<St>),
    IfSome(Seq<char>, Ex, Seq<St>, Seq<St>),
    Match(Ex, Seq<Arm>),
    /// A match on a result: the value is `__v`, the error `__e`.
    MatchResult(Ex, Seq<St>, Seq<St>),
}

/// An arm of a match on an enum: the enum, the variant, the number of the
/// fields, whether they are borrowed, and what is done.
pub struct Arm {
    pub of: Seq<char>,
    pub variant: Seq<char>,
    pub fields: nat,
    pub borrow: bool,
    pub body: Seq<St>,
}

// ---------------------------------------------------------------------------
// How programs are written
// ---------------------------------------------------------------------------

pub open spec fn fld_text(f: Fld) -> Seq<char> {
    match f {
        Fld::Allocator => "allocator"@,
        Fld::Ptr => "ptr"@,
        Fld::Len => "len"@,
        Fld::Cap => "cap"@,
        Fld::Tag => "tag"@,
        Fld::Value => "value"@,
    }
}

pub open spec fn meth_text(m: Meth) -> Seq<char> {
    match m {
        Meth::ReadU64 => ".read_u64()"@,
        Meth::ToBits => ".to_bits()"@,
        Meth::AsPtr => ".as_ptr()"@,
        Meth::Len => ".len()"@,
        Meth::IsNull => ".is_null()"@,
        Meth::IsSome => ".is_some()"@,
        Meth::IsEmpty => ".is_empty()"@,
        Meth::ToVec => ".to_vec()"@,
        Meth::Clone => ".clone()"@,
        Meth::TryInto => ".try_into()"@,
        Meth::Unwrap => ".unwrap()"@,
        Meth::ToLeBytes => ".to_le_bytes()"@,
        Meth::IntoRaw => ".into_raw()"@,
    }
}

pub open spec fn fun_text(f: Fun) -> Seq<char> {
    match f {
        Fun::F32FromBits => "f32::from_bits"@,
        Fun::F64FromBits => "f64::from_bits"@,
        Fun::FromLeBytes => "u64::from_le_bytes"@,
        Fun::RawParts => "core::slice::from_raw_parts"@,
        Fun::StrUnchecked => "core::str::from_utf8_unchecked"@,
        Fun::StringUnchecked => "String::from_utf8_unchecked"@,
        Fun::StringNew => "String::new"@,
        Fun::VecNew(_) => "Vec::new"@,
        Fun::AddrOf => "core::ptr::addr_of!"@,
        Fun::Just => "Some"@,
        Fun::OwnString => "dynspire::managed::OwnedDString::from_raw"@,
        Fun::OwnVec(t) => "dynspire::managed::OwnedDVec::<"@ + t + ">::from_raw"@,
        Fun::Fine => "Ok"@,
        Fun::Wrong => "Err"@,
    }
}

pub open spec fn rec_text(r: Rec) -> Seq<char> {
    match r {
        Rec::DStr => "dynspire::managed::DStr"@,
        Rec::DSlice(t) => "dynspire::managed::DSlice::<"@ + t + ">"@,
        Rec::DString => "dynspire::managed::DString"@,
        Rec::DVec(t) => "dynspire::managed::DVec::<"@ + t + ">"@,
    }
}

pub open spec fn cast_text(c: Cast) -> Seq<char> {
    match c {
        Cast::Int(signed, bits) => (if signed {
            "i"@
        } else {
            "u"@
        }) + dec(bits),
        Cast::Usize => "usize"@,
        Cast::Const(t) => "*const "@ + t,
        Cast::Mut(t) => "*mut "@ + t,
        Cast::Bytes => "&[u8]"@,
    }
}

/// An expression in Rust.
pub open spec fn text(e: Ex) -> Seq<char>
    decreases e, 0nat,
{
    match e {
        Ex::Name(x) => x,
        Ex::Num(n) => dec(n),
        Ex::Field(a, f) => text(*a) + "."@ + fld_text(f),
        Ex::Part(a, i) => text(*a) + "."@ + dec(i),
        Ex::At(a, i) => text(*a) + "["@ + dec(i) + "]"@,
        Ex::Range(a, i, j) => text(*a) + "["@ + dec(i) + ".."@ + dec(j) + "]"@,
        Ex::Star(a) => "*"@ + text(*a),
        Ex::Paren(a) => "("@ + text(*a) + ")"@,
        Ex::Ref(a) => "&"@ + text(*a),
        Ex::RefMut(a) => "&mut "@ + text(*a),
        Ex::Call(a, m) => text(*a) + meth_text(m),
        Ex::Apply(f, es) => fun_text(f) + "("@ + texts(es, es.len()) + ")"@,
        Ex::As(a, c) => text(*a) + " as "@ + cast_text(c),
        Ex::Eq(a, n) => text(*a) + " == "@ + dec(n),
        Ex::Ne(a, n) => text(*a) + " != "@ + dec(n),
        Ex::Or(a, b) => text(*a) + " || "@ + text(*b),
        Ex::If(c, a, b) => "if "@ + text(*c) + " { "@ + text(*a) + " } else { "@ + text(*b) + " }"@,
        Ex::EmptyText => "\"\""@,
        Ex::EmptySlice => "&[]"@,
        Ex::Zeros(n) => "[0u8; "@ + dec(n) + "]"@,
        Ex::Tuple(es) => if es.len() == 1 {
            "("@ + texts(es, 1) + ",)"@
        } else {
            "("@ + texts(es, es.len()) + ")"@
        },
        Ex::List(es) => "["@ + items(es, es.len()) + "]"@,
        Ex::Record(r, fs) => rec_text(r) + " { "@ + field_texts(fs, fs.len()) + " }"@,
        Ex::Variant(n, v, es) => if es.len() == 0 {
            n + "::"@ + v
        } else {
            n + "::"@ + v + "("@ + texts(es, es.len()) + ")"@
        },
        Ex::UnitStruct(n) => n,
        Ex::Nil => "None"@,
        Ex::DNil(t) => "dynspire::managed::DOption::<"@ + t + ">::none()"@,
        Ex::DSome(t, a) => "dynspire::managed::DOption::<"@ + t + ">::some("@ + text(*a) + ")"@,
        Ex::Block(open, ss, a) => (if open {
            "unsafe { "@
        } else {
            "{ "@
        }) + lines(ss, ss.len()) + text(*a) + " }"@,
        Ex::Match(a, es, n) => "match "@ + text(*a) + " { "@ + choices(es, es.len())
            + " _ => panic!(\"invalid discriminant for "@ + n + "\") }"@,
    }
}

/// The first `n` expressions, separated by commas.
pub open spec fn texts(es: Seq<Ex>, n: nat) -> Seq<char>
    decreases es, n,
{
    if n == 0 || n > es.len() {
        Seq::empty()
    } else if n == 1 {
        text(es[0])
    } else {
        texts(es, (n - 1) as nat) + ", "@ + text(es[n - 1])
    }
}

/// The first `n` expressions, each with a comma.
pub open spec fn items(es: Seq<Ex>, n: nat) -> Seq<char>
    decreases es, n,
{
    if n == 0 || n > es.len() {
        Seq::empty()
    } else {
        items(es, (n - 1) as nat) + (text(es[n - 1]) + ","@)
    }
}

/// The first `n` fields of a struct.
pub open spec fn field_texts(fs: Seq<(Fld, Ex)>, n: nat) -> Seq<char>
    decreases fs, n,
{
    if n == 0 || n > fs.len() {
        Seq::empty()
    } else if n == 1 {
        fld_text(fs[0].0) + ": "@ + text(fs[0].1)
    } else {
        field_texts(fs, (n - 1) as nat) + ", "@ + fld_text(fs[n - 1].0) + ": "@ + text(fs[n - 1].1)
    }
}

/// The first `n` arms of a match on a number.
pub open spec fn choices(es: Seq<Ex>, n: nat) -> Seq<char>
    decreases es, n,
{
    if n == 0 || n > es.len() {
        Seq::empty()
    } else {
        choices(es, (n - 1) as nat) + (dec((n - 1) as nat) + " => "@ + text(es[n - 1]) + ", "@)
    }
}

/// The names that a pattern binds the first `n` fields to.
pub open spec fn binders(borrow: bool, n: nat) -> Seq<char>
    decreases n,
{
    if n == 0 {
        Seq::empty()
    } else {
        let one = (if borrow {
            "ref "@
        } else {
            ""@
        }) + field_name((n - 1) as nat);
        if n == 1 {
            one
        } else {
            binders(borrow, (n - 1) as nat) + ", "@ + one
        }
    }
}

/// The name of field `i` in a pattern.
pub open spec fn field_name(i: nat) -> Seq<char> {
    "__f"@ + dec(i)
}

/// A statement in Rust.
pub open spec fn line(s: St) -> Seq<char>
    decreases s, 0nat,
{
    match s {
        St::Blank(t) => t,
        St::Put(w, e) => w + ".write_u64("@ + text(e) + ");"@,
        St::Let(mutable, x, e) => (if mutable {
            "let mut "@
        } else {
            "let "@
        }) + x + " = "@ + text(e) + ";"@,
        St::LetTyped(x, t, e) => "let "@ + x + ": "@ + t + " = "@ + text(e) + ";"@,
        St::Copy(x, i, j, e) => x + "["@ + dec(i) + ".."@ + dec(j) + "].copy_from_slice("@ + text(e)
            + ");"@,
        St::If(c, a, b) => "if "@ + text(c) + " { "@ + lines(a, a.len()) + " } else { "@ + lines(
            b,
            b.len(),
        ) + " }"@,
        St::IfSome(x, e, a, b) => "if let Some("@ + x + ") = "@ + text(e) + " { "@ + lines(
            a,
            a.len(),
        ) + " } else { "@ + lines(b, b.len()) + " }"@,
        St::Match(e, arms) => "match "@ + text(e) + " { "@ + arm_texts(arms, arms.len()) + " }"@,
        St::MatchResult(e, a, b) => "match "@ + text(e) + " {\nOk(__v) => { "@ + lines(a, a.len())
            + " }\nErr(__e) => { "@ + lines(b, b.len()) + " }\n}\n"@,
    }
}

/// The first `n` statements.
pub open spec fn lines(ss: Seq<St>, n: nat) -> Seq<char>
    decreases ss, n,
{
    if n == 0 || n > ss.len() {
        Seq::empty()
    } else {
        lines(ss, (n - 1) as nat) + line(ss[n - 1])
    }
}

/// The first `n` arms of a match on an enum.
pub open spec fn arm_texts(arms: Seq<Arm>, n: nat) -> Seq<char>
    decreases arms, n,
{
    if n == 0 || n > arms.len() {
        Seq::empty()
    } else {
        let a = arms[n - 1];
        arm_texts(arms, (n - 1) as nat) + (a.of + "::"@ + a.variant + (if a.fields == 0 {
            ""@
        } else {
            "("@ + binders(a.borrow, a.fields) + ")"@
        }) + " => { "@ + lines(a.body, a.body.len()) + " } "@)
    }
}

// ---------------------------------------------------------------------------
// What programs do
// ---------------------------------------------------------------------------

/// The state of a run: what names stand for, the slots still to be read, and
/// those put so far.
pub struct Machine {
    pub env: Map<Seq<char>, Val>,
    pub ins: Seq<u64>,
    pub outs: Seq<u64>,
}

/// A field of a value.
pub open spec fn get_field(v: Val, f: Fld) -> Option<Val> {
    match v {
        Val::View(_, p, l) => match f {
            Fld::Ptr => Some(*p),
            Fld::Len => Some(*l),
            _ => None,
        },
        Val::Managed(_, a, p, l, c) => match f {
            Fld::Allocator => Some(*a),
            Fld::Ptr => Some(*p),
            Fld::Len => Some(*l),
            Fld::Cap => Some(*c),
            _ => None,
        },
        Val::Nil => match f {
            Fld::Tag => Some(Val::Int(false, 8, 0)),
            _ => None,
        },
        Val::Just(x) => match f {
            Fld::Tag => Some(Val::Int(false, 8, 1)),
            Fld::Value => Some(*x),
            _ => None,
        },
        _ => None,
    }
}

/// A struct of the managed memory with these fields.
pub open spec fn make_record(r: Rec, names: Seq<(Fld, Ex)>, vs: Seq<Val>) -> Option<Val> {
    match r {
        Rec::DStr => make_view(r, names, vs),
        Rec::DSlice(_) => make_view(r, names, vs),
        Rec::DString => make_managed(r, names, vs),
        Rec::DVec(_) => make_managed(r, names, vs),
    }
}

pub open spec fn make_view(r: Rec, names: Seq<(Fld, Ex)>, vs: Seq<Val>) -> Option<Val> {
    if names.len() == 2 && vs.len() == 2 && names[0].0 is Ptr && names[1].0 is Len {
        Some(Val::View(r, Box::new(vs[0]), Box::new(vs[1])))
    } else {
        None
    }
}

pub open spec fn make_managed(r: Rec, names: Seq<(Fld, Ex)>, vs: Seq<Val>) -> Option<Val> {
    if names.len() == 4 && vs.len() == 4 && names[0].0 is Allocator && names[1].0 is Ptr
        && names[2].0 is Len && names[3].0 is Cap {
        Some(
            Val::Managed(
                r,
                Box::new(vs[0]),
                Box::new(vs[1]),
                Box::new(vs[2]),
                Box::new(vs[3]),
            ),
        )
    } else {
        None
    }
}

/// The number in an unsigned integer of so many bits.
pub open spec fn unsigned(v: Val, bits: nat) -> Option<int> {
    match v {
        Val::Int(signed, b, n) => if !signed && b == bits {
            Some(n)
        } else {
            None
        },
        _ => None,
    }
}

/// The bytes in a list of values.
pub open spec fn bytes_of(vs: Seq<Val>) -> Option<Seq<u8>> {
    if forall|i: int|
        0 <= i < vs.len() ==> unsigned(#[trigger] vs[i], 8) is Some && 0 <= vs[i]->Int_2 < 256 {
        Some(vs.map_values(|v: Val| v->Int_2 as u8))
    } else {
        None
    }
}

/// Bytes as values.
pub open spec fn byte_values(bs: Seq<u8>) -> Seq<Val> {
    bs.map_values(|b: u8| Val::Int(false, 8, b as int))
}

/// What a method does with a value.
pub open spec fn call(v: Val, m: Meth) -> Option<Val> {
    match m {
        Meth::ReadU64 => None,
        Meth::ToBits => match v {
            Val::Float(bits, n) => Some(Val::Int(false, bits, n)),
            _ => None,
        },
        Meth::AsPtr => match v {
            // Without elements the pointer points nowhere, but is not null.
            Val::Slice(a, n, t) => Some(
                Val::Ptr(
                    if n == 0 {
                        1
                    } else {
                        a
                    },
                    t,
                ),
            ),
            _ => None,
        },
        Meth::Len => match v {
            Val::Slice(_, n, _) => Some(Val::Int(false, 64, n)),
            _ => None,
        },
        Meth::IsNull => match v {
            Val::Ptr(a, _) => Some(Val::Bool(a == 0)),
            _ => None,
        },
        Meth::IsSome => match v {
            Val::Just(_) => Some(Val::Bool(true)),
            Val::Nil => Some(Val::Bool(false)),
            _ => None,
        },
        Meth::IsEmpty => match v {
            Val::Slice(_, n, _) => Some(Val::Bool(n == 0)),
            _ => None,
        },
        Meth::ToLeBytes => match unsigned(v, 64) {
            Some(n) => Some(Val::List(byte_values(spec_u64_to_le_bytes(n as u64)))),
            None => None,
        },
        // A copy is like what it is a copy of, and a value like its owner.
        Meth::ToVec => Some(v),
        Meth::Clone => Some(v),
        Meth::TryInto => Some(v),
        Meth::Unwrap => Some(v),
        Meth::IntoRaw => Some(v),
    }
}

/// What a function makes of values.
pub open spec fn apply(f: Fun, vs: Seq<Val>) -> Option<Val> {
    match f {
        Fun::StringNew => if vs.len() == 0 {
            Some(Val::Slice(0, 0, "u8"@))
        } else {
            None
        },
        Fun::VecNew(t) => if vs.len() == 0 {
            Some(Val::Slice(0, 0, t))
        } else {
            None
        },
        Fun::RawParts => if vs.len() == 2 {
            match (vs[0], vs[1]) {
                (Val::Ptr(a, t), Val::Int(_, _, n)) => Some(
                    Val::Slice(
                        if n == 0 {
                            0
                        } else {
                            a
                        },
                        n,
                        t,
                    ),
                ),
                _ => None,
            }
        } else {
            None
        },
        _ => if vs.len() != 1 {
            None
        } else {
            match f {
                Fun::F32FromBits => match unsigned(vs[0], 32) {
                    Some(n) => Some(Val::Float(32, n)),
                    None => None,
                },
                Fun::F64FromBits => match unsigned(vs[0], 64) {
                    Some(n) => Some(Val::Float(64, n)),
                    None => None,
                },
                Fun::FromLeBytes => match vs[0] {
                    Val::List(bs) => match bytes_of(bs) {
                        Some(b) => if b.len() == 8 {
                            Some(Val::Int(false, 64, spec_u64_from_le_bytes(b) as int))
                        } else {
                            None
                        },
                        None => None,
                    },
                    _ => None,
                },
                Fun::AddrOf => match vs[0] {
                    Val::Object(a, t) => Some(Val::Ptr(a, t)),
                    Val::Nothing(t) => Some(Val::Ptr(1, t)),
                    _ => None,
                },
                Fun::Just => Some(Val::Just(Box::new(vs[0]))),
                Fun::StrUnchecked => Some(vs[0]),
                Fun::StringUnchecked => Some(vs[0]),
                Fun::OwnString => Some(vs[0]),
                Fun::OwnVec(_) => Some(vs[0]),
                Fun::Fine => Some(Val::Fine(Box::new(vs[0]))),
                Fun::Wrong => Some(Val::Wrong(Box::new(vs[0]))),
                _ => None,
            }
        },
    }
}

/// A value of another type.
pub open spec fn cast(v: Val, c: Cast) -> Option<Val> {
    match c {
        Cast::Int(signed, bits) => match v {
            Val::Int(_, _, n) => Some(Val::Int(signed, bits, wrap(n, signed, bits))),
            Val::Ptr(a, _) => Some(Val::Int(signed, bits, wrap(a, signed, bits))),
            _ => None,
        },
        Cast::Usize => match v {
            Val::Int(_, _, n) => Some(Val::Int(false, 64, wrap(n, false, 64))),
            _ => None,
        },
        Cast::Const(t) => cast_ptr(v, t),
        Cast::Mut(t) => cast_ptr(v, t),
        Cast::Bytes => Some(v),
    }
}

pub open spec fn cast_ptr(v: Val, t: Seq<char>) -> Option<Val> {
    match v {
        Val::Int(_, _, n) => Some(Val::Ptr(n, t)),
        Val::Ptr(a, u) => if t == u {
            Some(v)
        } else {
            None
        },
        _ => None,
    }
}

/// The number in a value.
pub open spec fn number_in(v: Val) -> Option<int> {
    match v {
        Val::Int(_, _, n) => Some(n),
        _ => None,
    }
}

/// What an expression comes to, and the state after it.
pub open spec fn eval(e: Ex, m: Machine) -> Option<(Val, Machine)>
    decreases e, 0nat,
{
    match e {
        Ex::Name(x) => if m.env.contains_key(x) {
            Some((m.env[x], m))
        } else {
            None
        },
        Ex::Num(n) => Some((Val::Int(false, 64, n as int), m)),
        Ex::Field(a, f) => match eval(*a, m) {
            Some((v, m1)) => match get_field(v, f) {
                Some(x) => Some((x, m1)),
                None => None,
            },
            None => None,
        },
        Ex::Part(a, i) => match eval(*a, m) {
            Some((Val::Tuple(vs), m1)) => if i < vs.len() {
                Some((vs[i as int], m1))
            } else {
                None
            },
            _ => None,
        },
        Ex::At(a, i) => match eval(*a, m) {
            Some((Val::List(vs), m1)) => if i < vs.len() {
                Some((vs[i as int], m1))
            } else {
                None
            },
            _ => None,
        },
        Ex::Range(a, i, j) => match eval(*a, m) {
            Some((Val::List(vs), m1)) => if i <= j <= vs.len() {
                Some((Val::List(vs.subrange(i as int, j as int)), m1))
            } else {
                None
            },
            _ => None,
        },
        // A name that a pattern binds to a field stands for the field itself.
        Ex::Star(a) => match eval(*a, m) {
            Some((Val::Ptr(x, t), m1)) => Some((Val::Object(x, t), m1)),
            other => other,
        },
        Ex::Paren(a) => eval(*a, m),
        Ex::Ref(a) => match eval(*a, m) {
            Some((Val::Object(x, t), m1)) => Some((Val::Ptr(x, t), m1)),
            other => other,
        },
        Ex::RefMut(a) => match eval(*a, m) {
            Some((Val::Object(x, t), m1)) => Some((Val::Ptr(x, t), m1)),
            _ => None,
        },
        Ex::Call(a, k) => match eval(*a, m) {
            Some((v, m1)) => if v is Reader && k is ReadU64 {
                if m1.ins.len() > 0 {
                    Some(
                        (
                            Val::Int(false, 64, m1.ins[0] as int),
                            Machine { ins: m1.ins.skip(1), ..m1 },
                        ),
                    )
                } else {
                    None
                }
            } else {
                match call(v, k) {
                    Some(x) => Some((x, m1)),
                    None => None,
                }
            },
            None => None,
        },
        Ex::Apply(f, es) => match eval_list(es, es.len(), m) {
            Some((vs, m1)) => match apply(f, vs) {
                Some(x) => Some((x, m1)),
                None => None,
            },
            None => None,
        },
        Ex::As(a, c) => match eval(*a, m) {
            Some((v, m1)) => match cast(v, c) {
                Some(x) => Some((x, m1)),
                None => None,
            },
            None => None,
        },
        Ex::Eq(a, n) => match eval(*a, m) {
            Some((v, m1)) => match number_in(v) {
                Some(x) => Some((Val::Bool(x == n), m1)),
                None => None,
            },
            None => None,
        },
        Ex::Ne(a, n) => match eval(*a, m) {
            Some((v, m1)) => match number_in(v) {
                Some(x) => Some((Val::Bool(x != n), m1)),
                None => None,
            },
            None => None,
        },
        Ex::Or(a, b) => match eval(*a, m) {
            Some((Val::Bool(x), m1)) => if x {
                Some((Val::Bool(true), m1))
            } else {
                eval(*b, m1)
            },
            _ => None,
        },
        Ex::If(c, a, b) => match eval(*c, m) {
            Some((Val::Bool(x), m1)) => if x {
                eval(*a, m1)
            } else {
                eval(*b, m1)
            },
            _ => None,
        },
        Ex::EmptyText => Some((Val::Slice(0, 0, "u8"@), m)),
        Ex::EmptySlice => Some((Val::Slice(0, 0, "u8"@), m)),
        Ex::Zeros(n) => Some((Val::List(Seq::new(n, |i: int| Val::Int(false, 8, 0))), m)),
        Ex::Tuple(es) => match eval_list(es, es.len(), m) {
            Some((vs, m1)) => Some((Val::Tuple(vs), m1)),
            None => None,
        },
        Ex::List(es) => match eval_list(es, es.len(), m) {
            Some((vs, m1)) => Some((Val::List(vs), m1)),
            None => None,
        },
        Ex::Record(r, fs) => match eval_fields(fs, fs.len(), m) {
            Some((vs, m1)) => match make_record(r, fs, vs) {
                Some(x) => Some((x, m1)),
                None => None,
            },
            None => None,
        },
        Ex::Variant(n, v, es) => match eval_list(es, es.len(), m) {
            Some((vs, m1)) => Some((Val::Variant(n, v, vs), m1)),
            None => None,
        },
        Ex::UnitStruct(n) => Some((Val::Nothing(n), m)),
        Ex::Nil => Some((Val::Nil, m)),
        Ex::DNil(_) => Some((Val::Nil, m)),
        Ex::DSome(_, a) => match eval(*a, m) {
            Some((v, m1)) => Some((Val::Just(Box::new(v)), m1)),
            None => None,
        },
        Ex::Block(_, ss, a) => match run(ss, ss.len(), m) {
            Some(m1) => match eval(*a, m1) {
                Some((v, m2)) => Some((v, Machine { env: m.env, ..m2 })),
                None => None,
            },
            None => None,
        },
        Ex::Match(a, es, _) => match eval(*a, m) {
            Some((v, m1)) => match number_in(v) {
                Some(x) => if 0 <= x < es.len() {
                    eval(es[x], m1)
                } else {
                    None
                },
                None => None,
            },
            None => None,
        },
    }
}

/// What the first `n` expressions come to, one after the other.
pub open spec fn eval_list(es: Seq<Ex>, n: nat, m: Machine) -> Option<(Seq<Val>, Machine)>
    decreases es, n,
{
    if n == 0 || n > es.len() {
        Some((Seq::empty(), m))
    } else {
        match eval_list(es, (n - 1) as nat, m) {
            Some((vs, m1)) => match eval(es[n - 1], m1) {
                Some((v, m2)) => Some((vs.push(v), m2)),
                None => None,
            },
            None => None,
        }
    }
}

/// What the first `n` fields come to.
pub open spec fn eval_fields(fs: Seq<(Fld, Ex)>, n: nat, m: Machine) -> Option<
    (Seq<Val>, Machine),
>
    decreases fs, n,
{
    if n == 0 || n > fs.len() {
        Some((Seq::empty(), m))
    } else {
        match eval_fields(fs, (n - 1) as nat, m) {
            Some((vs, m1)) => match eval(fs[n - 1].1, m1) {
                Some((v, m2)) => Some((vs.push(v), m2)),
                None => None,
            },
            None => None,
        }
    }
}

/// Whether a text is blank.
pub open spec fn is_space(t: Seq<char>) -> bool {
    forall|i: int| 0 <= i < t.len() ==> #[trigger] t[i] == ' ' || t[i] == '\n'
}

/// The state after a name has been bound to a value.
pub open spec fn bind(m: Machine, x: Seq<char>, v: Val) -> Machine {
    Machine { env: m.env.insert(x, v), ..m }
}

/// The state after the names of a pattern have been bound to `n` fields.
pub open spec fn bind_fields(m: Machine, vs: Seq<Val>, n: nat) -> Machine
    decreases n,
{
    if n == 0 || n > vs.len() {
        m
    } else {
        bind(bind_fields(m, vs, (n - 1) as nat), field_name((n - 1) as nat), vs[n - 1])
    }
}

/// The state after a block, whose names are forgotten.
pub open spec fn leave(before: Machine, after: Option<Machine>) -> Option<Machine> {
    match after {
        Some(m) => Some(Machine { env: before.env, ..m }),
        None => None,
    }
}

/// The state after a statement.
pub open spec fn step(s: St, m: Machine) -> Option<Machine>
    decreases s, 0nat,
{
    match s {
        St::Blank(t) => if is_space(t) {
            Some(m)
        } else {
            None
        },
        St::Put(w, e) => if m.env.contains_key(w) && m.env[w] is Writer {
            match eval(e, m) {
                Some((v, m1)) => match unsigned(v, 64) {
                    Some(n) => Some(Machine { outs: m1.outs.push(n as u64), ..m1 }),
                    None => None,
                },
                None => None,
            }
        } else {
            None
        },
        St::Let(_, x, e) => match eval(e, m) {
            Some((v, m1)) => Some(bind(m1, x, v)),
            None => None,
        },
        St::LetTyped(x, _, e) => match eval(e, m) {
            Some((v, m1)) => Some(bind(m1, x, v)),
            None => None,
        },
        St::Copy(x, i, j, e) => match eval(e, m) {
            Some((Val::List(bs), m1)) => if m1.env.contains_key(x) {
                match m1.env[x] {
                    Val::List(vs) => if i <= j <= vs.len() && bs.len() == j - i {
                        Some(
                            bind(m1, x, Val::List(vs.take(i as int) + bs + vs.skip(j as int))),
                        )
                    } else {
                        None
                    },
                    _ => None,
                }
            } else {
                None
            },
            _ => None,
        },
        St::If(c, a, b) => match eval(c, m) {
            Some((Val::Bool(x), m1)) => leave(
                m1,
                if x {
                    run(a, a.len(), m1)
                } else {
                    run(b, b.len(), m1)
                },
            ),
            _ => None,
        },
        St::IfSome(x, e, a, b) => match eval(e, m) {
            Some((Val::Just(v), m1)) => leave(m1, run(a, a.len(), bind(m1, x, *v))),
            Some((Val::Nil, m1)) => leave(m1, run(b, b.len(), m1)),
            _ => None,
        },
        St::Match(e, arms) => match eval(e, m) {
            Some((Val::Variant(n, v, vs), m1)) => leave(m1, choose_arm(arms, 0, n, v, vs, m1)),
            _ => None,
        },
        St::MatchResult(e, a, b) => match eval(e, m) {
            Some((Val::Fine(v), m1)) => leave(m1, run(a, a.len(), bind(m1, "__v"@, *v))),
            Some((Val::Wrong(v), m1)) => leave(m1, run(b, b.len(), bind(m1, "__e"@, *v))),
            _ => None,
        },
    }
}

/// The state after the first `n` statements.
pub open spec fn run(ss: Seq<St>, n: nat, m: Machine) -> Option<Machine>
    decreases ss, n,
{
    if n == 0 || n > ss.len() {
        Some(m)
    } else {
        match run(ss, (n - 1) as nat, m) {
            Some(m1) => step(ss[n - 1], m1),
            None => None,
        }
    }
}

/// The state after the first arm from `i` on that is for the variant.
pub open spec fn choose_arm(
    arms: Seq<Arm>,
    i: nat,
    n: Seq<char>,
    v: Seq<char>,
    vs: Seq<Val>,
    m: Machine,
) -> Option<Machine>
    decreases arms, arms.len() - i,
{
    if i >= arms.len() {
        None
    } else if arms[i as int].of == n && arms[i as int].variant == v {
        if arms[i as int].fields == vs.len() {
            run(arms[i as int].body, arms[i as int].body.len(), bind_fields(m, vs, vs.len()))
        } else {
            None
        }
    } else {
        choose_arm(arms, i + 1, n, v, vs, m)
    }
}

} // verus!
