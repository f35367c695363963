//! The words for types, and what they mean.
use vstd::prelude::*;
use vstd::utf8::encode_utf8;

use crate::ast::{InterfaceModel, Ty};
use crate::canonical::canonical_forms_parse_back;
use crate::grammar::lawful;
use crate::lexer::ErrorModel;
use crate::parser::{named_type, parse_model};
use crate::text::dec;

verus! {

/// What kind of number a type is, and of how many bits.
pub enum Number {
    Unsigned(nat),
    Signed(nat),
    Float(nat),
}

/// The number that a type holds.
pub open spec fn number(t: Ty) -> Option<Number> {
    match t {
        Ty::U8 => Some(Number::Unsigned(8)),
        Ty::U16 => Some(Number::Unsigned(16)),
        Ty::U32 => Some(Number::Unsigned(32)),
        Ty::U64 => Some(Number::Unsigned(64)),
        Ty::I8 => Some(Number::Signed(8)),
        Ty::I16 => Some(Number::Signed(16)),
        Ty::I32 => Some(Number::Signed(32)),
        Ty::I64 => Some(Number::Signed(64)),
        Ty::F32 => Some(Number::Float(32)),
        Ty::F64 => Some(Number::Float(64)),
        _ => None,
    }
}

/// The word for a number: `u`, `i` or `f`, and the number of bits.
pub open spec fn number_word(n: Number) -> Seq<char> {
    match n {
        Number::Unsigned(bits) => seq!['u'] + dec(bits),
        Number::Signed(bits) => seq!['i'] + dec(bits),
        Number::Float(bits) => seq!['f'] + dec(bits),
    }
}

/// The source of an interface with one method `m`, whose parameter `x` and whose
/// result are of the types that the texts say.
pub open spec fn source(param: Seq<char>, ret: Seq<char>) -> Seq<char> {
    "interface I { fn m(x: "@ + param + ") -> "@ + ret + "; }"@
}

/// The types of the parameter and the result of the one method of an interface.
pub open spec fn only_method(iface: InterfaceModel, param: Ty, ret: Ty) -> bool {
    &&& iface.methods.len() == 1
    &&& iface.methods[0].params.len() == 1
    &&& iface.methods[0].params[0].ty == param
    &&& iface.methods[0].return_type == ret
}

proof fn lemma_decimals()
    ensures
        dec(8) == seq!['8'],
        dec(16) == seq!['1', '6'],
        dec(32) == seq!['3', '2'],
        dec(64) == seq!['6', '4'],
{
    reveal_with_fuel(dec, 3);
    assert(dec(16) =~= seq!['1', '6']);
    assert(dec(32) =~= seq!['3', '2']);
    assert(dec(64) =~= seq!['6', '4']);
}

proof fn lemma_word(t: Ty)
    requires
        number(t) is Some,
    ensures
        t.rust_type() == number_word(number(t)->Some_0),
        t.canonical() == number_word(number(t)->Some_0),
{
    lemma_decimals();
    reveal_strlit("u8");
    reveal_strlit("u16");
    reveal_strlit("u32");
    reveal_strlit("u64");
    reveal_strlit("i8");
    reveal_strlit("i16");
    reveal_strlit("i32");
    reveal_strlit("i64");
    reveal_strlit("f32");
    reveal_strlit("f64");
    assert(t.rust_type() =~= number_word(number(t)->Some_0));
    assert(t.canonical() =~= number_word(number(t)->Some_0));
}

/// A number is written in the source as it is in Rust: the letter of its kind
/// and the number of its bits. That word is read as this very type, and is its
/// canonical form and its Rust type.
pub proof fn number_words_are_read(t: Ty, u: Ty)
    requires
        number(t) is Some,
        number(u) is Some,
    ensures
        t.rust_type() == number_word(number(t)->Some_0),
        t.canonical() == number_word(number(t)->Some_0),
        named_type(number_word(number(t)->Some_0)) == t,
        parse_model(
            encode_utf8(
                source(number_word(number(t)->Some_0), number_word(number(u)->Some_0)),
            ),
        ) matches Ok(iface) && only_method(iface, t, u),
{
    lemma_word(t);
    lemma_word(u);
    canonical_forms_parse_back(t, u);
    lemma_named(t);
}

proof fn lemma_named(t: Ty)
    requires
        number(t) is Some,
    ensures
        named_type(t.canonical()) == t,
{
    reveal_strlit("bool");
    reveal_strlit("u8");
    reveal_strlit("u16");
    reveal_strlit("u32");
    reveal_strlit("u64");
    reveal_strlit("i8");
    reveal_strlit("i16");
    reveal_strlit("i32");
    reveal_strlit("i64");
    reveal_strlit("f32");
    reveal_strlit("f64");
    assert("bool"@.len() == 4 && "bool"@[0] == 'b' && "bool"@[1] == 'o');
    assert("u8"@.len() == 2 && "u8"@[0] == 'u' && "u8"@[1] == '8');
    assert("u16"@.len() == 3 && "u16"@[0] == 'u' && "u16"@[1] == '1');
    assert("u32"@.len() == 3 && "u32"@[0] == 'u' && "u32"@[1] == '3');
    assert("u64"@.len() == 3 && "u64"@[0] == 'u' && "u64"@[1] == '6');
    assert("i8"@.len() == 2 && "i8"@[0] == 'i' && "i8"@[1] == '8');
    assert("i16"@.len() == 3 && "i16"@[0] == 'i' && "i16"@[1] == '1');
    assert("i32"@.len() == 3 && "i32"@[0] == 'i' && "i32"@[1] == '3');
    assert("i64"@.len() == 3 && "i64"@[0] == 'i' && "i64"@[1] == '6');
    assert("f32"@.len() == 3 && "f32"@[0] == 'f' && "f32"@[1] == '3');
    assert("f64"@.len() == 3 && "f64"@[0] == 'f' && "f64"@[1] == '6');
}

} // verus!
