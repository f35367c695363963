//! Canonical forms can be read back.
use vstd::prelude::*;
use vstd::utf8::{encode_utf8, is_ascii_chars_encode_utf8};

use crate::ast::{
    canonical_decls, canonical_fields, canonical_list, canonical_method, canonical_methods,
    canonical_params, canonical_variant, canonical_variants, Decl, InterfaceModel, MethodModel,
    ParamModel, Ty, VariantModel,
};
use crate::grammar::{
    all_lawful, lawful, lawful_decl, lawful_decls, lawful_fields, lawful_interface, lawful_method,
    lawful_variant, parsed_interfaces_are_lawful,
};
use crate::lexer::{
    ascii_text, digits_value, in_ident, is_blank, is_digit, is_name, punctuation, starts_ident,
    tokens, word, ErrorModel, Tok, TokenModel,
};
use crate::parser::{
    after_name, array, borrow, directives, enum_decl, enum_variants, generic, interface,
    is_byte_slice, items, kind, method, method_params, named_type, paren, parse_model, source_file,
    struct_decl, struct_fields, tuple_rest, ty, variant, variant_types, Parsed,
};
use crate::spelling::{
    both, digits_len, first_token, ident_len, kinds, kinds_of, open_comment, runs_are_within,
    runs_on, separate_texts_join, tokens_are_of_these_kinds,
};
use crate::text::{dec, digit};

verus! {

// ---------------------------------------------------------------------------
// What texts spell
// ---------------------------------------------------------------------------

/// The bytes of an ASCII text.
pub open spec fn ascii(s: Seq<char>) -> Seq<u8> {
    s.map_values(|c: char| c as u8)
}

/// Whether a text is ASCII, without slashes and bars.
pub open spec fn plain(s: Seq<char>) -> bool {
    forall|i: int| 0 <= i < s.len() ==> (#[trigger] s[i]) as u32 <= 127 && s[i] != '/' && s[i] != '|'
}

/// Whether a plain text spells the tokens `ks`.
pub open spec fn spells(s: Seq<char>, ks: Seq<Tok>) -> bool {
    plain(s) && kinds(ascii(s)) == Some(ks)
}

pub(crate) proof fn lemma_no_comment(b: Seq<u8>)
    requires
        forall|i: int| 0 <= i < b.len() ==> #[trigger] b[i] != 47u8,
    ensures
        !open_comment(b),
    decreases b.len(),
{
    if b.len() > 0 {
        runs_are_within(b, 10u8);
        runs_are_within(b.skip(1), 34u8);
        assert(b[0] != 47u8);
        if is_blank(b[0]) {
            lemma_no_comment(b.skip(1));
        } else if let Some((_, n)) = first_token(b) {
            lemma_no_comment(b.skip(n as int));
        }
    }
}

/// Whether a word would run on from `a` into `b`.
pub open spec fn glues(a: Seq<char>, b: Seq<char>) -> bool {
    a.len() > 0 && b.len() > 0 && in_ident(a.last() as u8) && in_ident(b[0] as u8)
}

proof fn lemma_char(c: char)
    requires
        c as u32 <= 127,
    ensures
        (c as u8) as char == c,
        c as u8 == 47u8 ==> c == '/',
{
    assert(c as u8 == c as u32);
}

pub(crate) proof fn lemma_then(a: Seq<char>, ka: Seq<Tok>, b: Seq<char>, kb: Seq<Tok>)
    requires
        spells(a, ka),
        spells(b, kb),
        !glues(a, b),
    ensures
        spells(a + b, ka + kb),
{
    assert(ascii(a + b) =~= ascii(a) + ascii(b));
    assert forall|i: int| 0 <= i < ascii(a).len() implies #[trigger] ascii(a)[i] != 47u8 by {
        lemma_char(a[i]);
    }
    lemma_no_comment(ascii(a));
    assert(!runs_on(ascii(a), ascii(b)));
    separate_texts_join(ascii(a), ascii(b));
}

proof fn lemma_mark(c: char, k: Tok)
    requires
        c as u32 <= 127,
        punctuation(c as u8) == Some(k),
    ensures
        spells(seq![c], seq![k]),
{
    let b = ascii(seq![c]);
    assert(b =~= seq![c as u8]);
    assert(b.skip(1) =~= Seq::empty());
    assert(kinds(b.skip(1)) == Some(Seq::<Tok>::empty()));
    assert(seq![k] + Seq::<Tok>::empty() =~= seq![k]);
}

proof fn lemma_blank()
    ensures
        spells(seq![' '], Seq::empty()),
{
    let b = ascii(seq![' ']);
    assert(b =~= seq![32u8]);
    assert(b.skip(1) =~= Seq::empty());
    assert(kinds(b.skip(1)) == Some(Seq::<Tok>::empty()));
}

proof fn lemma_arrow()
    ensures
        spells(seq!['-', '>'], seq![Tok::Arrow]),
{
    let b = ascii(seq!['-', '>']);
    assert(b =~= seq![45u8, 62u8]);
    assert(b.skip(2) =~= Seq::empty());
    assert(kinds(b.skip(2)) == Some(Seq::<Tok>::empty()));
    assert(seq![Tok::Arrow] + Seq::<Tok>::empty() =~= seq![Tok::Arrow]);
}

proof fn lemma_ident_len(s: Seq<u8>)
    requires
        forall|i: int| 0 <= i < s.len() ==> in_ident(#[trigger] s[i]),
    ensures
        ident_len(s) == s.len(),
    decreases s.len(),
{
    if s.len() > 0 {
        lemma_ident_len(s.skip(1));
    }
}

/// Whether a text consists of identifier characters and does not start with a
/// digit.
pub open spec fn is_word(s: Seq<char>) -> bool {
    &&& s.len() > 0
    &&& starts_ident(s[0] as u8)
    &&& forall|i: int| 0 <= i < s.len() ==> (#[trigger] s[i]) as u32 <= 127 && in_ident(s[i] as u8)
}

proof fn lemma_word(s: Seq<char>)
    requires
        is_word(s),
    ensures
        spells(s, seq![word(s)]),
{
    let b = ascii(s);
    lemma_ident_len(b);
    assert forall|i: int| 0 <= i < s.len() implies ascii_text(b, 0, b.len())[i] == #[trigger] s[i] by {
        lemma_char(s[i]);
    }
    assert(ascii_text(b, 0, b.len()) =~= s);
    assert(b.skip(b.len() as int) =~= Seq::empty());
    assert(kinds(b.skip(b.len() as int)) == Some(Seq::<Tok>::empty()));
    assert(b[0] == s[0] as u8);
    assert(seq![word(s)] + Seq::<Tok>::empty() =~= seq![word(s)]);
    assert forall|i: int| 0 <= i < s.len() implies (#[trigger] s[i]) as u32 <= 127 && s[i] != '/'
        && s[i] != '|' by {
        assert(in_ident(s[i] as u8));
    }
}

proof fn lemma_digits(n: nat)
    ensures
        dec(n).len() > 0,
        forall|i: int|
            0 <= i < dec(n).len() ==> (#[trigger] dec(n)[i]) as u32 <= 127 && is_digit(
                dec(n)[i] as u8,
            ),
        digits_value(ascii(dec(n)), 0, dec(n).len()) == n,
    decreases n,
{
    if n < 10 {
        assert(dec(n) =~= seq![digit(n as int)]);
        reveal_with_fuel(digits_value, 2);
        assert(ascii(dec(n))[0] == digit(n as int) as u8);
    } else {
        lemma_digits(n / 10);
        let d = dec(n / 10);
        let c = digit((n % 10) as int);
        let b = ascii(d);
        assert(ascii(d.push(c)) =~= b.push(c as u8));
        lemma_value_push(b, c as u8, b.len());
    }
}

proof fn lemma_value_push(b: Seq<u8>, c: u8, n: nat)
    requires
        n <= b.len(),
    ensures
        digits_value(b.push(c), 0, n) == digits_value(b, 0, n),
    decreases n,
{
    if n > 0 {
        lemma_value_push(b, c, (n - 1) as nat);
    }
}

proof fn lemma_digits_len(s: Seq<u8>)
    requires
        forall|i: int| 0 <= i < s.len() ==> is_digit(#[trigger] s[i]),
    ensures
        digits_len(s) == s.len(),
    decreases s.len(),
{
    if s.len() > 0 {
        lemma_digits_len(s.skip(1));
    }
}

proof fn lemma_number(n: nat)
    requires
        n <= usize::MAX,
    ensures
        spells(dec(n), seq![Tok::Int(n as usize)]),
{
    lemma_digits(n);
    let b = ascii(dec(n));
    assert forall|i: int| 0 <= i < b.len() implies is_digit(#[trigger] b[i]) by {
        assert(is_digit(dec(n)[i] as u8));
    }
    lemma_digits_len(b);
    assert(b.skip(b.len() as int) =~= Seq::empty());
    assert(kinds(b.skip(b.len() as int)) == Some(Seq::<Tok>::empty()));
    assert(seq![Tok::Int(n as usize)] + Seq::<Tok>::empty() =~= seq![Tok::Int(n as usize)]);
    assert forall|i: int| 0 <= i < dec(n).len() implies (#[trigger] dec(n)[i]) as u32 <= 127 && dec(
        n,
    )[i] != '/' && dec(n)[i] != '|' by {
        assert(is_digit(dec(n)[i] as u8));
    }
}

// ---------------------------------------------------------------------------
// Names of types
// ---------------------------------------------------------------------------

/// A word is an identifier if it is none of the keywords: those start with other
/// letters, go on with a letter, and `struct` is no word of three letters.
proof fn lemma_type_word(w: Seq<char>)
    requires
        is_word(w),
        w.len() > 1,
        ({
            ||| !(w[0] == 'i' || w[0] == 's' || w[0] == 'e' || w[0] == 'o' || w[0] == 'f' || w[0]
                == 'm')
            ||| is_digit(w[1] as u8)
            ||| w[0] == 's' && w.len() == 3
        }),
    ensures
        is_name(w),
{
    reveal_strlit("interface");
    reveal_strlit("struct");
    reveal_strlit("enum");
    reveal_strlit("opaque");
    reveal_strlit("fn");
    reveal_strlit("mut");
    reveal_strlit("include");
    assert(word(w) == Tok::Ident(w));
}

/// The words that the grammar gives a meaning as types are identifiers.
proof fn lemma_names()
    ensures
        is_name("bool"@),
        is_name("u8"@),
        is_name("u16"@),
        is_name("u32"@),
        is_name("u64"@),
        is_name("i8"@),
        is_name("i16"@),
        is_name("i32"@),
        is_name("i64"@),
        is_name("f32"@),
        is_name("f64"@),
        is_name("str"@),
        is_name("String"@),
        is_name("Vec"@),
        is_name("Option"@),
        is_name("DStr"@),
        is_name("DSlice"@),
        is_name("DString"@),
        is_name("DVec"@),
        is_name("DOption"@),
{
    assert(is_name("bool"@)) by {
        reveal_strlit("bool");
        lemma_type_word("bool"@);
    }
    assert(is_name("u8"@)) by {
        reveal_strlit("u8");
        lemma_type_word("u8"@);
    }
    assert(is_name("u16"@)) by {
        reveal_strlit("u16");
        lemma_type_word("u16"@);
    }
    assert(is_name("u32"@)) by {
        reveal_strlit("u32");
        lemma_type_word("u32"@);
    }
    assert(is_name("u64"@)) by {
        reveal_strlit("u64");
        lemma_type_word("u64"@);
    }
    assert(is_name("i8"@)) by {
        reveal_strlit("i8");
        lemma_type_word("i8"@);
    }
    assert(is_name("i16"@)) by {
        reveal_strlit("i16");
        lemma_type_word("i16"@);
    }
    assert(is_name("i32"@)) by {
        reveal_strlit("i32");
        lemma_type_word("i32"@);
    }
    assert(is_name("i64"@)) by {
        reveal_strlit("i64");
        lemma_type_word("i64"@);
    }
    assert(is_name("f32"@)) by {
        reveal_strlit("f32");
        lemma_type_word("f32"@);
    }
    assert(is_name("f64"@)) by {
        reveal_strlit("f64");
        lemma_type_word("f64"@);
    }
    assert(is_name("str"@)) by {
        reveal_strlit("str");
        lemma_type_word("str"@);
    }
    assert(is_name("String"@)) by {
        reveal_strlit("String");
        lemma_type_word("String"@);
    }
    assert(is_name("Vec"@)) by {
        reveal_strlit("Vec");
        lemma_type_word("Vec"@);
    }
    assert(is_name("Option"@)) by {
        reveal_strlit("Option");
        lemma_type_word("Option"@);
    }
    assert(is_name("DStr"@)) by {
        reveal_strlit("DStr");
        lemma_type_word("DStr"@);
    }
    assert(is_name("DSlice"@)) by {
        reveal_strlit("DSlice");
        lemma_type_word("DSlice"@);
    }
    assert(is_name("DString"@)) by {
        reveal_strlit("DString");
        lemma_type_word("DString"@);
    }
    assert(is_name("DVec"@)) by {
        reveal_strlit("DVec");
        lemma_type_word("DVec"@);
    }
    assert(is_name("DOption"@)) by {
        reveal_strlit("DOption");
        lemma_type_word("DOption"@);
    }
}

// ---------------------------------------------------------------------------
// The tokens of canonical forms
// ---------------------------------------------------------------------------

/// The tokens of a type with one type argument.
pub open spec fn generic_toks(name: Seq<char>, inner: Seq<Tok>) -> Seq<Tok> {
    seq![Tok::Ident(name), Tok::Lt] + inner + seq![Tok::Gt]
}

/// The tokens of the canonical form of a type.
pub open spec fn ty_toks(t: Ty) -> Seq<Tok>
    decreases t, 0nat,
{
    match t {
        Ty::Unit => seq![Tok::LParen, Tok::RParen],
        Ty::Bool => seq![Tok::Ident("bool"@)],
        Ty::U8 => seq![Tok::Ident("u8"@)],
        Ty::U16 => seq![Tok::Ident("u16"@)],
        Ty::U32 => seq![Tok::Ident("u32"@)],
        Ty::U64 => seq![Tok::Ident("u64"@)],
        Ty::I8 => seq![Tok::Ident("i8"@)],
        Ty::I16 => seq![Tok::Ident("i16"@)],
        Ty::I32 => seq![Tok::Ident("i32"@)],
        Ty::I64 => seq![Tok::Ident("i64"@)],
        Ty::F32 => seq![Tok::Ident("f32"@)],
        Ty::F64 => seq![Tok::Ident("f64"@)],
        Ty::DString => seq![Tok::Ident("DString"@)],
        Ty::DStr => seq![Tok::Ident("DStr"@)],
        Ty::String => seq![Tok::Ident("String"@)],
        Ty::Str => seq![Tok::Amp, Tok::Ident("str"@)],
        Ty::U8Slice => seq![Tok::Amp, Tok::LBracket, Tok::Ident("u8"@), Tok::RBracket],
        Ty::OutU8Vec => seq![Tok::Amp, Tok::Mut] + generic_toks("Vec"@, seq![Tok::Ident("u8"@)]),
        Ty::Vec(t) => generic_toks("Vec"@, ty_toks(*t)),
        Ty::Option(t) => generic_toks("Option"@, ty_toks(*t)),
        Ty::DSlice(t) => generic_toks("DSlice"@, ty_toks(*t)),
        Ty::DVec(t) => generic_toks("DVec"@, ty_toks(*t)),
        Ty::DOption(t) => generic_toks("DOption"@, ty_toks(*t)),
        Ty::Ref(t) => seq![Tok::Amp] + ty_toks(*t),
        Ty::RefMut(t) => seq![Tok::Amp, Tok::Mut] + ty_toks(*t),
        Ty::Tuple(ts) => seq![Tok::LParen] + list_toks(ts, ts.len()) + seq![Tok::RParen],
        Ty::Array(t, n) => seq![Tok::LBracket] + ty_toks(*t) + seq![
            Tok::Semicolon,
            Tok::Int(n as usize),
            Tok::RBracket,
        ],
        Ty::Named(n) => seq![Tok::Ident(n)],
    }
}

/// The tokens of the first `n` types, separated by commas.
pub open spec fn list_toks(ts: Seq<Ty>, n: nat) -> Seq<Tok>
    decreases ts, n,
{
    if n == 0 || n > ts.len() {
        Seq::empty()
    } else if n == 1 {
        ty_toks(ts[0])
    } else {
        list_toks(ts, (n - 1) as nat) + seq![Tok::Comma] + ty_toks(ts[n - 1])
    }
}

pub(crate) proof fn lemma_marks()
    ensures
        spells(seq!['('], seq![Tok::LParen]),
        spells(seq![')'], seq![Tok::RParen]),
        spells(seq!['['], seq![Tok::LBracket]),
        spells(seq![']'], seq![Tok::RBracket]),
        spells(seq!['{'], seq![Tok::LBrace]),
        spells(seq!['}'], seq![Tok::RBrace]),
        spells(seq!['<'], seq![Tok::Lt]),
        spells(seq!['>'], seq![Tok::Gt]),
        spells(seq!['&'], seq![Tok::Amp]),
        spells(seq![','], seq![Tok::Comma]),
        spells(seq![':'], seq![Tok::Colon]),
        spells(seq![';'], seq![Tok::Semicolon]),
        spells(seq![' '], Seq::empty()),
        spells(seq!['-', '>'], seq![Tok::Arrow]),
{
    lemma_mark('(', Tok::LParen);
    lemma_mark(')', Tok::RParen);
    lemma_mark('[', Tok::LBracket);
    lemma_mark(']', Tok::RBracket);
    lemma_mark('{', Tok::LBrace);
    lemma_mark('}', Tok::RBrace);
    lemma_mark('<', Tok::Lt);
    lemma_mark('>', Tok::Gt);
    lemma_mark('&', Tok::Amp);
    lemma_mark(',', Tok::Comma);
    lemma_mark(':', Tok::Colon);
    lemma_mark(';', Tok::Semicolon);
    lemma_blank();
    lemma_arrow();
}

proof fn lemma_name(s: Seq<char>)
    requires
        is_name(s),
    ensures
        spells(s, seq![Tok::Ident(s)]),
{
    lemma_word(s);
}

proof fn lemma_mut()
    ensures
        spells("&mut "@, seq![Tok::Amp, Tok::Mut]),
{
    lemma_marks();
    reveal_strlit("mut");
    assert("mut"@ =~= seq!['m', 'u', 't']);
    reveal_strlit("interface");
    reveal_strlit("struct");
    reveal_strlit("enum");
    reveal_strlit("opaque");
    reveal_strlit("fn");
    lemma_word("mut"@);
    lemma_then(seq!['&'], seq![Tok::Amp], "mut"@, seq![Tok::Mut]);
    lemma_then(seq!['&'] + "mut"@, seq![Tok::Amp] + seq![Tok::Mut], seq![' '], Seq::empty());
    reveal_strlit("&mut ");
    assert("&mut "@ =~= seq!['&'] + "mut"@ + seq![' ']);
    assert(seq![Tok::Amp, Tok::Mut] =~= seq![Tok::Amp] + seq![Tok::Mut] + Seq::<Tok>::empty());
}

/// `name<inner>` spells the tokens of a type with one type argument.
proof fn lemma_angle(name: Seq<char>, inner: Seq<char>, ks: Seq<Tok>)
    requires
        is_name(name),
        spells(inner, ks),
    ensures
        spells(name + seq!['<'] + inner + seq!['>'], generic_toks(name, ks)),
{
    lemma_marks();
    lemma_name(name);
    let a = name + seq!['<'];
    let ka = seq![Tok::Ident(name)] + seq![Tok::Lt];
    lemma_then(name, seq![Tok::Ident(name)], seq!['<'], seq![Tok::Lt]);
    lemma_then(a, ka, inner, ks);
    lemma_then(a + inner, ka + ks, seq!['>'], seq![Tok::Gt]);
    assert(ka + ks + seq![Tok::Gt] =~= generic_toks(name, ks));
}

proof fn lemma_literals()
    ensures
        "Vec<"@ == "Vec"@ + seq!['<'],
        "Option<"@ == "Option"@ + seq!['<'],
        "DSlice<"@ == "DSlice"@ + seq!['<'],
        "DVec<"@ == "DVec"@ + seq!['<'],
        "DOption<"@ == "DOption"@ + seq!['<'],
        ">"@ == seq!['>'],
        "&"@ == seq!['&'],
        "("@ == seq!['('],
        ")"@ == seq![')'],
        "["@ == seq!['['],
        "]"@ == seq![']'],
        ";"@ == seq![';'],
        ","@ == seq![','],
        ":"@ == seq![':'],
        "{"@ == seq!['{'],
        "}"@ == seq!['}'],
        "()"@ == seq!['('] + seq![')'],
        "&str"@ == seq!['&'] + "str"@,
        "&[u8]"@ == seq!['&'] + seq!['['] + "u8"@ + seq![']'],
        "&mut Vec<u8>"@ == "&mut "@ + ("Vec"@ + seq!['<'] + "u8"@ + seq!['>']),
{
    reveal_strlit("Vec<");
    reveal_strlit("Option<");
    reveal_strlit("DSlice<");
    reveal_strlit("DVec<");
    reveal_strlit("DOption<");
    reveal_strlit(">");
    reveal_strlit("&");
    reveal_strlit("(");
    reveal_strlit(")");
    reveal_strlit("[");
    reveal_strlit("]");
    reveal_strlit(";");
    reveal_strlit(",");
    reveal_strlit(":");
    reveal_strlit("{");
    reveal_strlit("}");
    reveal_strlit("()");
    reveal_strlit("&str");
    reveal_strlit("&[u8]");
    reveal_strlit("&mut Vec<u8>");
    reveal_strlit("&mut ");
    reveal_strlit("Vec");
    reveal_strlit("Option");
    reveal_strlit("DSlice");
    reveal_strlit("DVec");
    reveal_strlit("DOption");
    reveal_strlit("str");
    reveal_strlit("u8");
    assert("Vec<"@ =~= "Vec"@ + seq!['<']);
    assert("Option<"@ =~= "Option"@ + seq!['<']);
    assert("DSlice<"@ =~= "DSlice"@ + seq!['<']);
    assert("DVec<"@ =~= "DVec"@ + seq!['<']);
    assert("DOption<"@ =~= "DOption"@ + seq!['<']);
    assert(">"@ =~= seq!['>']);
    assert("&"@ =~= seq!['&']);
    assert("("@ =~= seq!['(']);
    assert(")"@ =~= seq![')']);
    assert("["@ =~= seq!['[']);
    assert("]"@ =~= seq![']']);
    assert(";"@ =~= seq![';']);
    assert(","@ =~= seq![',']);
    assert(":"@ =~= seq![':']);
    assert("{"@ =~= seq!['{']);
    assert("}"@ =~= seq!['}']);
    assert("()"@ =~= seq!['('] + seq![')']);
    assert("&str"@ =~= seq!['&'] + "str"@);
    assert("&[u8]"@ =~= seq!['&'] + seq!['['] + "u8"@ + seq![']']);
    assert("&mut Vec<u8>"@ =~= "&mut "@ + ("Vec"@ + seq!['<'] + "u8"@ + seq!['>']));
}

proof fn lemma_borrows()
    ensures
        spells("&str"@, ty_toks(Ty::Str)),
        spells("&[u8]"@, ty_toks(Ty::U8Slice)),
        spells("&mut Vec<u8>"@, ty_toks(Ty::OutU8Vec)),
        spells("()"@, ty_toks(Ty::Unit)),
{
    lemma_marks();
    lemma_names();
    lemma_literals();
    lemma_mut();
    lemma_name("str"@);
    lemma_name("u8"@);
    let amp = seq![Tok::Amp];
    let u8_tok = seq![Tok::Ident("u8"@)];
    lemma_then(seq!['('], seq![Tok::LParen], seq![')'], seq![Tok::RParen]);
    assert(seq![Tok::LParen] + seq![Tok::RParen] =~= ty_toks(Ty::Unit));
    lemma_then(seq!['&'], amp, "str"@, seq![Tok::Ident("str"@)]);
    assert(amp + seq![Tok::Ident("str"@)] =~= ty_toks(Ty::Str));
    lemma_then(seq!['&'], amp, seq!['['], seq![Tok::LBracket]);
    lemma_then(seq!['&'] + seq!['['], amp + seq![Tok::LBracket], "u8"@, u8_tok);
    lemma_then(
        seq!['&'] + seq!['['] + "u8"@,
        amp + seq![Tok::LBracket] + u8_tok,
        seq![']'],
        seq![Tok::RBracket],
    );
    assert(amp + seq![Tok::LBracket] + u8_tok + seq![Tok::RBracket] =~= ty_toks(Ty::U8Slice));
    lemma_angle("Vec"@, "u8"@, u8_tok);
    reveal_strlit("&mut ");
    lemma_then(
        "&mut "@,
        seq![Tok::Amp, Tok::Mut],
        "Vec"@ + seq!['<'] + "u8"@ + seq!['>'],
        generic_toks("Vec"@, u8_tok),
    );
}

/// The canonical form of a type spells its tokens.
proof fn lemma_canonical(t: Ty)
    requires
        lawful(t, true),
    ensures
        spells(t.canonical(), ty_toks(t)),
    decreases t, 0nat,
{
    lemma_names();
    lemma_literals();
    match t {
        Ty::Unit | Ty::Str | Ty::U8Slice | Ty::OutU8Vec => lemma_borrows(),
        Ty::Bool => lemma_name("bool"@),
        Ty::U8 => lemma_name("u8"@),
        Ty::U16 => lemma_name("u16"@),
        Ty::U32 => lemma_name("u32"@),
        Ty::U64 => lemma_name("u64"@),
        Ty::I8 => lemma_name("i8"@),
        Ty::I16 => lemma_name("i16"@),
        Ty::I32 => lemma_name("i32"@),
        Ty::I64 => lemma_name("i64"@),
        Ty::F32 => lemma_name("f32"@),
        Ty::F64 => lemma_name("f64"@),
        Ty::DString => lemma_name("DString"@),
        Ty::DStr => lemma_name("DStr"@),
        Ty::String => lemma_name("String"@),
        Ty::Vec(inner) => {
            lemma_canonical(*inner);
            lemma_angle("Vec"@, inner.canonical(), ty_toks(*inner));
        },
        Ty::Option(inner) => {
            lemma_canonical(*inner);
            lemma_angle("Option"@, inner.canonical(), ty_toks(*inner));
        },
        Ty::DSlice(inner) => {
            lemma_canonical(*inner);
            lemma_angle("DSlice"@, inner.canonical(), ty_toks(*inner));
        },
        Ty::DVec(inner) => {
            lemma_canonical(*inner);
            lemma_angle("DVec"@, inner.canonical(), ty_toks(*inner));
        },
        Ty::DOption(inner) => {
            lemma_canonical(*inner);
            lemma_angle("DOption"@, inner.canonical(), ty_toks(*inner));
        },
        Ty::Ref(inner) => {
            lemma_marks();
            lemma_canonical(*inner);
            lemma_then(seq!['&'], seq![Tok::Amp], inner.canonical(), ty_toks(*inner));
        },
        Ty::RefMut(inner) => {
            lemma_mut();
            reveal_strlit("&mut ");
            lemma_canonical(*inner);
            lemma_then("&mut "@, seq![Tok::Amp, Tok::Mut], inner.canonical(), ty_toks(*inner));
        },
        Ty::Tuple(ts) => {
            lemma_marks();
            lemma_canonical_list(ts, ts.len());
            let list = canonical_list(ts, ts.len());
            let ks = list_toks(ts, ts.len());
            lemma_then(seq!['('], seq![Tok::LParen], list, ks);
            lemma_then(seq!['('] + list, seq![Tok::LParen] + ks, seq![')'], seq![Tok::RParen]);
        },
        Ty::Array(inner, n) => {
            lemma_marks();
            lemma_number(n);
            lemma_canonical(*inner);
            let a = inner.canonical();
            let ka = ty_toks(*inner);
            let num = seq![Tok::Int(n as usize)];
            lemma_then(seq!['['], seq![Tok::LBracket], a, ka);
            lemma_then(seq!['['] + a, seq![Tok::LBracket] + ka, seq![';'], seq![Tok::Semicolon]);
            let b = seq!['['] + a + seq![';'];
            let kb = seq![Tok::LBracket] + ka + seq![Tok::Semicolon];
            lemma_then(b, kb, dec(n), num);
            lemma_then(b + dec(n), kb + num, seq![']'], seq![Tok::RBracket]);
            assert(kb + num + seq![Tok::RBracket] =~= ty_toks(t));
        },
        Ty::Named(n) => lemma_name(n),
    }
}

proof fn lemma_canonical_list(ts: Seq<Ty>, n: nat)
    requires
        all_lawful(ts, n, true),
        n <= ts.len(),
    ensures
        spells(canonical_list(ts, n), list_toks(ts, n)),
    decreases ts, n,
{
    if n == 0 {
        assert(ascii(Seq::<char>::empty()) =~= Seq::empty());
    } else if n == 1 {
        assert(all_lawful(ts, 0, true));
        lemma_canonical(ts[0]);
    } else {
        lemma_marks();
        lemma_literals();
        lemma_canonical_list(ts, (n - 1) as nat);
        lemma_canonical(ts[n - 1]);
        let a = canonical_list(ts, (n - 1) as nat);
        let ka = list_toks(ts, (n - 1) as nat);
        lemma_then(a, ka, seq![','], seq![Tok::Comma]);
        lemma_then(
            a + seq![','],
            ka + seq![Tok::Comma],
            ts[n - 1].canonical(),
            ty_toks(ts[n - 1]),
        );
    }
}

// ---------------------------------------------------------------------------
// Reading the tokens of a type
// ---------------------------------------------------------------------------

/// Whether the tokens `ks` stand in `ts` from position `p` on.
pub open spec fn stands_at(ts: Seq<TokenModel>, p: nat, ks: Seq<Tok>) -> bool {
    &&& p + ks.len() <= ts.len()
    &&& forall|i: int| 0 <= i < ks.len() ==> (#[trigger] ts[p + i]).kind == ks[i]
}

pub(crate) proof fn lemma_split(ts: Seq<TokenModel>, p: nat, a: Seq<Tok>, b: Seq<Tok>)
    requires
        stands_at(ts, p, a + b),
    ensures
        stands_at(ts, p, a),
        stands_at(ts, p + a.len(), b),
{
    let ab = a + b;
    assert forall|i: int| 0 <= i < a.len() implies (#[trigger] ts[p + i]).kind == a[i] by {
        assert(ab[i] == a[i]);
    }
    assert forall|i: int| 0 <= i < b.len() implies (#[trigger] ts[p + a.len() + i]).kind == b[i] by {
        assert(ts[(p + (a.len() + i)) as int].kind == ab[a.len() + i]);
    }
}

proof fn lemma_builtin_words()
    ensures
        "str"@ != "u8"@,
        "DOption"@ != "DVec"@,
        "DSlice"@ != "DVec"@,
        "DSlice"@ != "DOption"@,
        "String"@ != "DVec"@ && "String"@ != "DOption"@ && "String"@ != "DSlice"@ && "String"@ != "str"@,
        "Vec"@ != "DVec"@ && "Vec"@ != "DOption"@ && "Vec"@ != "DSlice"@ && "Vec"@ != "str"@
            && "Vec"@ != "String"@,
        "Option"@ != "DVec"@ && "Option"@ != "DOption"@ && "Option"@ != "DSlice"@ && "Option"@
            != "str"@ && "Option"@ != "String"@ && "Option"@ != "Vec"@,
        "String"@ != "u8"@ && "Vec"@ != "u8"@ && "Option"@ != "u8"@ && "DVec"@ != "u8"@ && "DOption"@
            != "u8"@ && "DSlice"@ != "u8"@,
        "DVec"@ != "str"@ && "DOption"@ != "str"@ && "DSlice"@ != "str"@,
{
    reveal_strlit("str");
    assert("str"@.len() == 3 && "str"@[0] == 's' && "str"@[1] == 't');
    reveal_strlit("u8");
    assert("u8"@.len() == 2 && "u8"@[0] == 'u' && "u8"@[1] == '8');
    reveal_strlit("DVec");
    assert("DVec"@.len() == 4 && "DVec"@[0] == 'D' && "DVec"@[1] == 'V');
    reveal_strlit("DOption");
    assert("DOption"@.len() == 7 && "DOption"@[0] == 'D' && "DOption"@[1] == 'O');
    reveal_strlit("DSlice");
    assert("DSlice"@.len() == 6 && "DSlice"@[0] == 'D' && "DSlice"@[1] == 'S');
    reveal_strlit("String");
    assert("String"@.len() == 6 && "String"@[0] == 'S' && "String"@[1] == 't');
    reveal_strlit("Vec");
    assert("Vec"@.len() == 3 && "Vec"@[0] == 'V' && "Vec"@[1] == 'e');
    reveal_strlit("Option");
    assert("Option"@.len() == 6 && "Option"@[0] == 'O' && "Option"@[1] == 'p');
}

/// The type that stands for itself by one word, if `t` is one.
spec fn one_word(t: Ty) -> Option<Seq<char>> {
    match t {
        Ty::Bool => Some("bool"@),
        Ty::U8 => Some("u8"@),
        Ty::U16 => Some("u16"@),
        Ty::U32 => Some("u32"@),
        Ty::U64 => Some("u64"@),
        Ty::I8 => Some("i8"@),
        Ty::I16 => Some("i16"@),
        Ty::I32 => Some("i32"@),
        Ty::I64 => Some("i64"@),
        Ty::F32 => Some("f32"@),
        Ty::F64 => Some("f64"@),
        Ty::DString => Some("DString"@),
        Ty::DStr => Some("DStr"@),
        Ty::Named(n) => Some(n),
        _ => None,
    }
}

proof fn lemma_one_word(t: Ty)
    requires
        lawful(t, true),
        one_word(t) is Some,
    ensures
        ({
            let w = one_word(t)->Some_0;
            &&& named_type(w) == t
            &&& w != "DVec"@ && w != "DOption"@ && w != "DSlice"@ && w != "str"@
            &&& w != "String"@ && w != "Vec"@ && w != "Option"@
            &&& w == "u8"@ ==> t is U8
            &&& ty_toks(t) == seq![Tok::Ident(w)]
        }),
{
    reveal_strlit("bool");
    assert("bool"@.len() == 4 && "bool"@[0] == 'b' && "bool"@[1] == 'o');
    reveal_strlit("u8");
    assert("u8"@.len() == 2 && "u8"@[0] == 'u' && "u8"@[1] == '8');
    reveal_strlit("u16");
    assert("u16"@.len() == 3 && "u16"@[0] == 'u' && "u16"@[1] == '1');
    reveal_strlit("u32");
    assert("u32"@.len() == 3 && "u32"@[0] == 'u' && "u32"@[1] == '3');
    reveal_strlit("u64");
    assert("u64"@.len() == 3 && "u64"@[0] == 'u' && "u64"@[1] == '6');
    reveal_strlit("i8");
    assert("i8"@.len() == 2 && "i8"@[0] == 'i' && "i8"@[1] == '8');
    reveal_strlit("i16");
    assert("i16"@.len() == 3 && "i16"@[0] == 'i' && "i16"@[1] == '1');
    reveal_strlit("i32");
    assert("i32"@.len() == 3 && "i32"@[0] == 'i' && "i32"@[1] == '3');
    reveal_strlit("i64");
    assert("i64"@.len() == 3 && "i64"@[0] == 'i' && "i64"@[1] == '6');
    reveal_strlit("f32");
    assert("f32"@.len() == 3 && "f32"@[0] == 'f' && "f32"@[1] == '3');
    reveal_strlit("f64");
    assert("f64"@.len() == 3 && "f64"@[0] == 'f' && "f64"@[1] == '6');
    reveal_strlit("DString");
    assert("DString"@.len() == 7 && "DString"@[0] == 'D' && "DString"@[1] == 'S');
    reveal_strlit("DStr");
    assert("DStr"@.len() == 4 && "DStr"@[0] == 'D' && "DStr"@[1] == 'S');
    reveal_strlit("DVec");
    assert("DVec"@.len() == 4 && "DVec"@[0] == 'D' && "DVec"@[1] == 'V');
    reveal_strlit("DOption");
    assert("DOption"@.len() == 7 && "DOption"@[0] == 'D' && "DOption"@[1] == 'O');
    reveal_strlit("DSlice");
    assert("DSlice"@.len() == 6 && "DSlice"@[0] == 'D' && "DSlice"@[1] == 'S');
    reveal_strlit("str");
    assert("str"@.len() == 3 && "str"@[0] == 's' && "str"@[1] == 't');
    reveal_strlit("String");
    assert("String"@.len() == 6 && "String"@[0] == 'S' && "String"@[1] == 't');
    reveal_strlit("Vec");
    assert("Vec"@.len() == 3 && "Vec"@[0] == 'V' && "Vec"@[1] == 'e');
    reveal_strlit("Option");
    assert("Option"@.len() == 6 && "Option"@[0] == 'O' && "Option"@[1] == 'p');
}

/// How the tokens of a type start.
proof fn lemma_first(t: Ty)
    requires
        lawful(t, true),
    ensures
        ty_toks(t).len() > 0,
        ty_toks(t)[0] !is Mut,
        ty_toks(t)[0] !is RParen,
        ty_toks(t)[0] != Tok::Ident("str"@),
        ty_toks(t)[0] == Tok::Ident("u8"@) ==> t is U8,
{
    lemma_builtin_words();
    if one_word(t) is Some {
        lemma_one_word(t);
    }
}

/// What is lawful by reference is lawful where native types are allowed.
proof fn lemma_native(t: Ty)
    requires
        lawful(t, false),
    ensures
        lawful(t, true),
    decreases t, 0nat,
{
    match t {
        Ty::Tuple(ts) => lemma_native_list(ts, ts.len()),
        Ty::Array(inner, _) => lemma_native(*inner),
        Ty::DVec(inner) => lemma_native(*inner),
        Ty::DOption(inner) => lemma_native(*inner),
        Ty::DSlice(inner) => lemma_native(*inner),
        Ty::Ref(inner) => lemma_native(*inner),
        _ => {},
    }
}

proof fn lemma_native_list(ts: Seq<Ty>, n: nat)
    requires
        all_lawful(ts, n, false),
        n <= ts.len(),
    ensures
        all_lawful(ts, n, true),
    decreases ts, n,
{
    if n > 0 {
        lemma_native(ts[n - 1]);
        lemma_native_list(ts, (n - 1) as nat);
    }
}

proof fn lemma_lawful_true(t: Ty, native: bool)
    requires
        lawful(t, native),
    ensures
        lawful(t, true),
{
    if !native {
        lemma_native(t);
    }
}

proof fn lemma_read_generic(name: Seq<char>, inner: Ty, ts: Seq<TokenModel>, p: nat, native: bool)
    requires
        lawful(inner, native),
        stands_at(ts, p, generic_toks(name, ty_toks(inner))),
    ensures
        ts[p as int].kind == Tok::Ident(name),
        generic(ts, p + 1, native) == Ok::<(Ty, nat), ErrorModel>(
            (inner, p + generic_toks(name, ty_toks(inner)).len()),
        ),
    decreases inner, 2nat,
{
    let ks = ty_toks(inner);
    let head = seq![Tok::Ident(name), Tok::Lt];
    lemma_split(ts, p, head + ks, seq![Tok::Gt]);
    lemma_split(ts, p, head, ks);
    assert(ts[(p + 0) as int].kind == head[0]);
    assert(ts[(p + 1) as int].kind == head[1]);
    assert(ts[(p + (head + ks).len() + 0) as int].kind == seq![Tok::Gt][0]);
    lemma_read_ty(inner, ts, p + 2, native);
}

proof fn lemma_read_word(t: Ty, ts: Seq<TokenModel>, p: nat, native: bool)
    requires
        lawful(t, native),
        one_word(t) is Some || t is String,
        stands_at(ts, p, ty_toks(t)),
    ensures
        ty(ts, p, native) == Ok::<(Ty, nat), ErrorModel>((t, p + ty_toks(t).len())),
{
    lemma_lawful_true(t, native);
    lemma_builtin_words();
    assert(ts[(p + 0) as int].kind == ty_toks(t)[0]);
    if one_word(t) is Some {
        lemma_one_word(t);
    }
}

proof fn lemma_read_borrow(t: Ty, ts: Seq<TokenModel>, p: nat, native: bool)
    requires
        t is Unit || t is Str || t is U8Slice || t is OutU8Vec,
        stands_at(ts, p, ty_toks(t)),
    ensures
        ty(ts, p, native) == Ok::<(Ty, nat), ErrorModel>((t, p + ty_toks(t).len())),
{
    let ks = ty_toks(t);
    lemma_builtin_words();
    assert(ts[(p + 0) as int].kind == ks[0]);
    assert(ts[(p + 1) as int].kind == ks[1]);
    if t is U8Slice {
        assert(ts[(p + 2) as int].kind == ks[2]);
        assert(ts[(p + 3) as int].kind == ks[3]);
    }
    if t is OutU8Vec {
        let inner = seq![Tok::Ident("u8"@)];
        let g = generic_toks("Vec"@, inner);
        assert(ty_toks(Ty::U8) == inner);
        lemma_split(ts, p, seq![Tok::Amp, Tok::Mut], g);
        assert(ts[(p + 2 + 0) as int].kind == g[0]);
        assert(ts[(p + 2 + 1) as int].kind == g[1]);
        assert(ts[(p + 2 + 2) as int].kind == g[2]);
        assert(ts[(p + 2 + 3) as int].kind == g[3]);
        lemma_one_word(Ty::U8);
        let r: Parsed<Ty> = Ok((Ty::U8, p + 5));
        assert(after_name(ts, "u8"@, p + 5, true) == r);
        assert(ty(ts, p + 4, true) == r);
        assert(generic(ts, p + 3, true) == Ok::<(Ty, nat), ErrorModel>((Ty::U8, p + 6)));
        assert(after_name(ts, "Vec"@, p + 3, true) == Ok::<(Ty, nat), ErrorModel>(
            (Ty::Vec(Box::new(Ty::U8)), p + 6),
        ));
        assert(ty(ts, p + 2, true) == Ok::<(Ty, nat), ErrorModel>(
            (Ty::Vec(Box::new(Ty::U8)), p + 6),
        ));
        assert(borrow(ts, p + 1, native) == Ok::<(Ty, nat), ErrorModel>((Ty::OutU8Vec, p + 6)));
    }
}

proof fn lemma_read_ref(inner: Ty, ts: Seq<TokenModel>, p: nat, native: bool)
    requires
        lawful(inner, native),
        stands_at(ts, p, ty_toks(Ty::Ref(Box::new(inner)))),
    ensures
        ty(ts, p, native) == Ok::<(Ty, nat), ErrorModel>(
            (Ty::Ref(Box::new(inner)), p + 1 + ty_toks(inner).len()),
        ),
    decreases inner, 2nat,
{
    lemma_split(ts, p, seq![Tok::Amp], ty_toks(inner));
    lemma_lawful_true(inner, native);
    lemma_first(inner);
    assert(ts[(p + 0) as int].kind == seq![Tok::Amp][0]);
    assert(ts[(p + 1 + 0) as int].kind == ty_toks(inner)[0]);
    lemma_no_byte_slice(inner, ts, p + 1);
    lemma_read_ty(inner, ts, p + 1, native);
    assert(borrow(ts, p + 1, native) == Ok::<(Ty, nat), ErrorModel>(
        (Ty::Ref(Box::new(inner)), p + 1 + ty_toks(inner).len()),
    ));
}

proof fn lemma_read_out(inner: Ty, ts: Seq<TokenModel>, p: nat, native: bool)
    requires
        lawful(inner, true),
        inner is DVec,
        stands_at(ts, p, ty_toks(Ty::RefMut(Box::new(inner)))),
    ensures
        ty(ts, p, native) == Ok::<(Ty, nat), ErrorModel>(
            (Ty::RefMut(Box::new(inner)), p + 2 + ty_toks(inner).len()),
        ),
    decreases inner, 2nat,
{
    let head = seq![Tok::Amp, Tok::Mut];
    lemma_split(ts, p, head, ty_toks(inner));
    assert(ts[(p + 0) as int].kind == head[0]);
    assert(ts[(p + 1) as int].kind == head[1]);
    lemma_read_ty(inner, ts, p + 2, true);
    assert(borrow(ts, p + 1, native) == Ok::<(Ty, nat), ErrorModel>(
        (Ty::RefMut(Box::new(inner)), p + 2 + ty_toks(inner).len()),
    ));
}

proof fn lemma_read_array(inner: Ty, n: nat, ts: Seq<TokenModel>, p: nat, native: bool)
    requires
        lawful(inner, native),
        0 < n <= usize::MAX,
        n % 8 == 0,
        stands_at(ts, p, ty_toks(Ty::Array(Box::new(inner), n))),
    ensures
        ty(ts, p, native) == Ok::<(Ty, nat), ErrorModel>(
            (Ty::Array(Box::new(inner), n), p + ty_toks(inner).len() + 4),
        ),
    decreases inner, 2nat,
{
    let tail = seq![Tok::Semicolon, Tok::Int(n as usize), Tok::RBracket];
    lemma_split(ts, p, seq![Tok::LBracket] + ty_toks(inner), tail);
    lemma_split(ts, p, seq![Tok::LBracket], ty_toks(inner));
    let q = p + 1 + ty_toks(inner).len();
    assert(ts[(p + 0) as int].kind == seq![Tok::LBracket][0]);
    assert(ts[(q + 0) as int].kind == tail[0]);
    assert(ts[(q + 1) as int].kind == tail[1]);
    assert(ts[(q + 2) as int].kind == tail[2]);
    lemma_read_ty(inner, ts, p + 1, native);
    assert(array(ts, p, native) == Ok::<(Ty, nat), ErrorModel>(
        (Ty::Array(Box::new(inner), n), q + 3),
    ));
}

proof fn lemma_read_paren(list: Seq<Ty>, ts: Seq<TokenModel>, p: nat, native: bool)
    requires
        2 <= list.len() <= 8,
        all_lawful(list, list.len(), native),
        stands_at(ts, p, ty_toks(Ty::Tuple(list))),
    ensures
        ty(ts, p, native) == Ok::<(Ty, nat), ErrorModel>(
            (Ty::Tuple(list), p + list_toks(list, list.len()).len() + 2),
        ),
    decreases list, list.len(),
{
    let lk = list_toks(list, list.len());
    lemma_split(ts, p, seq![Tok::LParen] + lk, seq![Tok::RParen]);
    lemma_split(ts, p, seq![Tok::LParen], lk);
    assert(ts[(p + 0) as int].kind == seq![Tok::LParen][0]);
    lemma_item_at(list, list.len(), 0, ts, p + 1);
    lemma_lawful_at(list, list.len(), 0, native);
    lemma_lawful_true(list[0], native);
    lemma_first(list[0]);
    assert(ts[(p + 1 + 0) as int].kind == ty_toks(list[0])[0]);
    lemma_read_ty(list[0], ts, p + 1, native);
    assert(list_toks(list, 1) == ty_toks(list[0]));
    lemma_item_at(list, list.len(), 1, ts, p + 1);
    let r = p + 1 + list_toks(list, 1).len();
    assert(ts[(r + 0) as int].kind == seq![Tok::Comma][0]);
    assert(list.take(1) =~= seq![list[0]]);
    lemma_read_tuple(list, 1, ts, p + 1, native);
    assert(paren(ts, p, native) == Ok::<(Ty, nat), ErrorModel>((Ty::Tuple(list), p + lk.len() + 2)));
}

/// A type is read back from the tokens of its canonical form.
proof fn lemma_read_ty(t: Ty, ts: Seq<TokenModel>, p: nat, native: bool)
    requires
        lawful(t, native),
        stands_at(ts, p, ty_toks(t)),
    ensures
        ty(ts, p, native) == Ok::<(Ty, nat), ErrorModel>((t, p + ty_toks(t).len())),
    decreases t, 1nat,
{
    lemma_builtin_words();
    match t {
        Ty::Unit | Ty::Str | Ty::U8Slice | Ty::OutU8Vec => lemma_read_borrow(t, ts, p, native),
        Ty::Vec(inner) => lemma_read_generic("Vec"@, *inner, ts, p, native),
        Ty::Option(inner) => lemma_read_generic("Option"@, *inner, ts, p, native),
        Ty::DSlice(inner) => lemma_read_generic("DSlice"@, *inner, ts, p, native),
        Ty::DVec(inner) => lemma_read_generic("DVec"@, *inner, ts, p, native),
        Ty::DOption(inner) => lemma_read_generic("DOption"@, *inner, ts, p, native),
        Ty::Ref(inner) => lemma_read_ref(*inner, ts, p, native),
        Ty::RefMut(inner) => lemma_read_out(*inner, ts, p, native),
        Ty::Tuple(list) => lemma_read_paren(list, ts, p, native),
        Ty::Array(inner, n) => lemma_read_array(*inner, n, ts, p, native),
        _ => lemma_read_word(t, ts, p, native),
    }
}

proof fn lemma_no_byte_slice(t: Ty, ts: Seq<TokenModel>, p: nat)
    requires
        lawful(t, true),
        stands_at(ts, p, ty_toks(t)),
    ensures
        !is_byte_slice(ts, p),
{
    let ks = ty_toks(t);
    lemma_first(t);
    assert(ts[(p + 0) as int].kind == ks[0]);
    if one_word(t) is Some {
        lemma_one_word(t);
    }
    if let Ty::Array(inner, n) = t {
        let tail = seq![Tok::Semicolon, Tok::Int(n as usize), Tok::RBracket];
        lemma_first(*inner);
        lemma_split(ts, p, seq![Tok::LBracket] + ty_toks(*inner), tail);
        lemma_split(ts, p, seq![Tok::LBracket], ty_toks(*inner));
        assert(ts[(p + 1 + 0) as int].kind == ty_toks(*inner)[0]);
        if *inner is U8 {
            assert(ty_toks(*inner).len() == 1);
            assert(ts[(p + 2 + 0) as int].kind == tail[0]);
        }
    }
}

proof fn lemma_lawful_at(list: Seq<Ty>, n: nat, k: int, native: bool)
    requires
        all_lawful(list, n, native),
        0 <= k < n <= list.len(),
    ensures
        lawful(list[k], native),
    decreases n,
{
    if k < n - 1 {
        lemma_lawful_at(list, (n - 1) as nat, k, native);
    }
}

/// The place of item `k` among the tokens of a list.
spec fn place(list: Seq<Ty>, k: nat) -> nat {
    if k == 0 {
        0
    } else {
        list_toks(list, k).len() + 1
    }
}

proof fn lemma_item_at(list: Seq<Ty>, n: nat, k: nat, ts: Seq<TokenModel>, p: nat)
    requires
        k < n <= list.len(),
        stands_at(ts, p, list_toks(list, n)),
    ensures
        stands_at(ts, p + place(list, k), ty_toks(list[k as int])),
        k > 0 ==> stands_at(ts, p + list_toks(list, k).len(), seq![Tok::Comma]),
        place(list, k) + ty_toks(list[k as int]).len() == list_toks(list, k + 1).len(),
        place(list, k) + ty_toks(list[k as int]).len() <= list_toks(list, n).len(),
    decreases n,
{
    if n > 1 {
        let before = list_toks(list, (n - 1) as nat);
        lemma_split(ts, p, before + seq![Tok::Comma], ty_toks(list[n - 1]));
        lemma_split(ts, p, before, seq![Tok::Comma]);
        if k < n - 1 {
            lemma_item_at(list, (n - 1) as nat, k, ts, p);
        }
    }
}

proof fn lemma_read_tuple(list: Seq<Ty>, k: nat, ts: Seq<TokenModel>, p: nat, native: bool)
    requires
        1 <= k < list.len(),
        all_lawful(list, list.len(), native),
        stands_at(ts, p, list_toks(list, list.len())),
        stands_at(ts, p + list_toks(list, list.len()).len(), seq![Tok::RParen]),
    ensures
        tuple_rest(ts, p + list_toks(list, k).len(), native, list.take(k as int)) == Ok::<
            (Seq<Ty>, nat),
            ErrorModel,
        >((list, p + list_toks(list, list.len()).len() + 1)),
    decreases list, list.len() - k,
{
    lemma_item_at(list, list.len(), k, ts, p);
    lemma_lawful_at(list, list.len(), k as int, native);
    lemma_lawful_true(list[k as int], native);
    lemma_first(list[k as int]);
    let c = p + list_toks(list, k).len();
    assert(ts[(c + 0) as int].kind == seq![Tok::Comma][0]);
    assert(ts[(c + 1 + 0) as int].kind == ty_toks(list[k as int])[0]);
    lemma_read_ty(list[k as int], ts, c + 1, native);
    assert(list.take(k as int).push(list[k as int]) =~= list.take(k as int + 1));
    if k + 1 == list.len() {
        assert(list.take(k as int + 1) =~= list);
        assert(ts[(p + list_toks(list, list.len()).len() + 0) as int].kind == seq![Tok::RParen][0]);
    } else {
        lemma_item_at(list, list.len(), k + 1, ts, p);
        assert(ts[(p + list_toks(list, k + 1).len() + 0) as int].kind == seq![Tok::Comma][0]);
        lemma_read_tuple(list, k + 1, ts, p, native);
    }
}

/// Tokens of these kinds.
spec fn some_tokens(ks: Seq<Tok>) -> Seq<TokenModel> {
    Seq::new(ks.len(), |i: int| TokenModel { kind: ks[i], line: 1, col: 1 })
}

proof fn lemma_some_tokens(ks: Seq<Tok>)
    ensures
        stands_at(some_tokens(ks), 0, ks),
{
}

/// Distinct types have distinct canonical forms.
pub proof fn canonical_forms_are_distinct(a: Ty, b: Ty)
    requires
        lawful(a, true),
        lawful(b, true),
        a.canonical() == b.canonical(),
    ensures
        a == b,
{
    lemma_canonical(a);
    lemma_canonical(b);
    let ts = some_tokens(ty_toks(a));
    lemma_some_tokens(ty_toks(a));
    lemma_read_ty(a, ts, 0, true);
    lemma_read_ty(b, ts, 0, true);
}

// ---------------------------------------------------------------------------
// Reading a method back
// ---------------------------------------------------------------------------

pub(crate) proof fn lemma_keywords()
    ensures
        spells("interface"@, seq![Tok::Interface]),
        spells("fn"@, seq![Tok::Fn]),
        spells("struct"@, seq![Tok::Struct]),
        spells("enum"@, seq![Tok::Enum]),
        spells("opaque"@, seq![Tok::Opaque]),
{
    reveal_strlit("interface");
    reveal_strlit("struct");
    reveal_strlit("enum");
    reveal_strlit("opaque");
    reveal_strlit("fn");
    assert("interface"@ =~= seq!['i', 'n', 't', 'e', 'r', 'f', 'a', 'c', 'e']);
    assert("struct"@ =~= seq!['s', 't', 'r', 'u', 'c', 't']);
    assert("enum"@ =~= seq!['e', 'n', 'u', 'm']);
    assert("opaque"@ =~= seq!['o', 'p', 'a', 'q', 'u', 'e']);
    assert("fn"@ =~= seq!['f', 'n']);
    lemma_word("interface"@);
    lemma_word("struct"@);
    lemma_word("enum"@);
    lemma_word("opaque"@);
    lemma_word("fn"@);
}

pub(crate) proof fn lemma_letter(c: char)
    requires
        starts_ident(c as u8),
        c as u32 <= 127,
    ensures
        spells(seq![c], seq![Tok::Ident(seq![c])]),
{
    let s = seq![c];
    reveal_strlit("interface");
    reveal_strlit("struct");
    reveal_strlit("enum");
    reveal_strlit("opaque");
    reveal_strlit("fn");
    reveal_strlit("mut");
    reveal_strlit("include");
    assert(s.len() == 1);
    lemma_word(s);
}

/// `word` and a blank after a text that ends in no word.
pub(crate) proof fn lemma_spaced(a: Seq<char>, ka: Seq<Tok>, w: Seq<char>, k: Tok)
    requires
        spells(a, ka),
        spells(w, seq![k]),
        w.len() > 0,
        a.len() == 0 || !in_ident(a.last() as u8),
    ensures
        spells(a + w + seq![' '], ka.push(k)),
{
    lemma_blank();
    lemma_then(a, ka, w, seq![k]);
    lemma_then(a + w, ka + seq![k], seq![' '], Seq::empty());
    assert(ka + seq![k] + Seq::<Tok>::empty() =~= ka.push(k));
}

spec fn head_toks() -> Seq<Tok> {
    seq![
        Tok::Interface,
        Tok::Ident(seq!['I']),
        Tok::LBrace,
        Tok::Fn,
        Tok::Ident(seq!['m']),
        Tok::LParen,
        Tok::Ident(seq!['x']),
        Tok::Colon,
    ]
}

proof fn lemma_head()
    ensures
        spells("interface I { fn m(x: "@, head_toks()),
{
    lemma_keywords();
    lemma_marks();
    lemma_letter('I');
    lemma_letter('m');
    lemma_letter('x');
    assert(ascii(Seq::<char>::empty()) =~= Seq::empty());
    let e = Seq::<char>::empty();
    let k0 = Seq::<Tok>::empty();
    reveal_strlit("interface");
    reveal_strlit("fn");
    lemma_spaced(e, k0, "interface"@, Tok::Interface);
    let a1 = e + "interface"@ + seq![' '];
    let k1 = k0.push(Tok::Interface);
    lemma_spaced(a1, k1, seq!['I'], Tok::Ident(seq!['I']));
    let a2 = a1 + seq!['I'] + seq![' '];
    let k2 = k1.push(Tok::Ident(seq!['I']));
    lemma_spaced(a2, k2, seq!['{'], Tok::LBrace);
    let a3 = a2 + seq!['{'] + seq![' '];
    let k3 = k2.push(Tok::LBrace);
    lemma_spaced(a3, k3, "fn"@, Tok::Fn);
    let a4 = a3 + "fn"@ + seq![' '];
    let k4 = k3.push(Tok::Fn);
    lemma_then(a4, k4, seq!['m'], seq![Tok::Ident(seq!['m'])]);
    let a5 = a4 + seq!['m'];
    let k5 = k4 + seq![Tok::Ident(seq!['m'])];
    lemma_then(a5, k5, seq!['('], seq![Tok::LParen]);
    let a6 = a5 + seq!['('];
    let k6 = k5 + seq![Tok::LParen];
    lemma_then(a6, k6, seq!['x'], seq![Tok::Ident(seq!['x'])]);
    let a7 = a6 + seq!['x'];
    let k7 = k6 + seq![Tok::Ident(seq!['x'])];
    lemma_then(a7, k7, seq![':'], seq![Tok::Colon]);
    let a8 = a7 + seq![':'];
    let k8 = k7 + seq![Tok::Colon];
    lemma_then(a8, k8, seq![' '], Seq::empty());
    reveal_strlit("interface I { fn m(x: ");
    assert("interface I { fn m(x: "@ =~= a8 + seq![' ']);
    assert(k8 + Seq::<Tok>::empty() =~= head_toks());
}

proof fn lemma_middle()
    ensures
        spells(") -> "@, seq![Tok::RParen, Tok::Arrow]),
        spells("; }"@, seq![Tok::Semicolon, Tok::RBrace]),
        ") -> "@[0] == ')',
        ") -> "@.last() == ' ',
        ") -> "@.len() == 5,
        "; }"@[0] == ';',
        "; }"@.len() == 3,
{
    lemma_marks();
    lemma_spaced_mark();
    let a = seq![')'] + seq![' '];
    let k = seq![Tok::RParen];
    lemma_then(a, k, seq!['-', '>'], seq![Tok::Arrow]);
    lemma_then(a + seq!['-', '>'], k + seq![Tok::Arrow], seq![' '], Seq::empty());
    reveal_strlit(") -> ");
    assert(") -> "@ =~= a + seq!['-', '>'] + seq![' ']);
    assert(k + seq![Tok::Arrow] + Seq::<Tok>::empty() =~= seq![Tok::RParen, Tok::Arrow]);
    let b = seq![';'] + seq![' '];
    lemma_then(b, seq![Tok::Semicolon], seq!['}'], seq![Tok::RBrace]);
    reveal_strlit("; }");
    assert("; }"@ =~= b + seq!['}']);
    assert(seq![Tok::Semicolon] + seq![Tok::RBrace] =~= seq![Tok::Semicolon, Tok::RBrace]);
}

proof fn lemma_spaced_mark()
    ensures
        spells(seq![')'] + seq![' '], seq![Tok::RParen]),
        spells(seq![';'] + seq![' '], seq![Tok::Semicolon]),
{
    lemma_marks();
    lemma_then(seq![')'], seq![Tok::RParen], seq![' '], Seq::empty());
    lemma_then(seq![';'], seq![Tok::Semicolon], seq![' '], Seq::empty());
    assert(seq![Tok::RParen] + Seq::<Tok>::empty() =~= seq![Tok::RParen]);
    assert(seq![Tok::Semicolon] + Seq::<Tok>::empty() =~= seq![Tok::Semicolon]);
}

/// An interface with one method of one parameter, in the words of the canonical
/// forms of its types.
pub open spec fn one_method_text(param: Ty, ret: Ty) -> Seq<char> {
    "interface I { fn m(x: "@ + param.canonical() + ") -> "@ + ret.canonical() + "; }"@
}

/// The interface that such a text spells.
pub open spec fn one_method(param: Ty, ret: Ty) -> InterfaceModel {
    InterfaceModel {
        name: seq!['I'],
        includes: Seq::empty(),
        types: Seq::empty(),
        methods: seq![
            MethodModel {
                name: seq!['m'],
                params: seq![ParamModel { name: seq!['x'], ty: param }],
                return_type: ret,
            },
        ],
    }
}

proof fn lemma_one_method(ts: Seq<TokenModel>, param: Ty, ret: Ty)
    requires
        lawful(param, false),
        lawful(ret, true),
        stands_at(
            ts,
            0,
            head_toks() + ty_toks(param) + seq![Tok::RParen, Tok::Arrow] + ty_toks(ret) + seq![
                Tok::Semicolon,
                Tok::RBrace,
            ] + seq![Tok::Eof],
        ),
    ensures
        source_file(ts) == Ok::<InterfaceModel, ErrorModel>(one_method(param, ret)),
{
    let h = head_toks();
    let ka = ty_toks(param);
    let mid = seq![Tok::RParen, Tok::Arrow];
    let kr = ty_toks(ret);
    let tail = seq![Tok::Semicolon, Tok::RBrace];
    lemma_split(ts, 0, h + ka + mid + kr + tail, seq![Tok::Eof]);
    lemma_split(ts, 0, h + ka + mid + kr, tail);
    lemma_split(ts, 0, h + ka + mid, kr);
    lemma_split(ts, 0, h + ka, mid);
    lemma_split(ts, 0, h, ka);
    lemma_read_ty(param, ts, 8, false);
    let u = 8 + ka.len();
    assert(ts[(0nat + 0) as int].kind == h[0]);
    assert(ts[(0nat + 1) as int].kind == h[1]);
    assert(ts[(0nat + 2) as int].kind == h[2]);
    assert(ts[(0nat + 3) as int].kind == h[3]);
    assert(ts[(0nat + 4) as int].kind == h[4]);
    assert(ts[(0nat + 5) as int].kind == h[5]);
    assert(ts[(0nat + 6) as int].kind == h[6]);
    assert(ts[(0nat + 7) as int].kind == h[7]);
    assert(ts[(u + 0) as int].kind == mid[0]);
    assert(ts[(u + 1) as int].kind == mid[1]);
    lemma_read_ty(ret, ts, u + 2, true);
    let w = u + 2 + kr.len();
    assert(ts[(w + 0) as int].kind == tail[0]);
    assert(ts[(w + 1) as int].kind == tail[1]);
    assert(ts[(w + 2 + 0) as int].kind == seq![Tok::Eof][0]);
    let p = ParamModel { name: seq!['x'], ty: param };
    let ps = Seq::<ParamModel>::empty().push(p);
    assert(ps =~= seq![p]);
    assert(method_params(ts, 6, Seq::empty()) == Ok::<(Seq<ParamModel>, nat), ErrorModel>(
        (ps, u + 1),
    ));
    let m = MethodModel { name: seq!['m'], params: seq![p], return_type: ret };
    assert(method(ts, 3) == Ok::<(MethodModel, nat), ErrorModel>((m, w + 1)));
    let no = Seq::<Decl>::empty();
    let ms = Seq::<MethodModel>::empty().push(m);
    assert(ms =~= seq![m]);
    assert(items(ts, w + 1, no, ms) == Ok::<((Seq<Decl>, Seq<MethodModel>), nat), ErrorModel>(
        ((no, ms), w + 2),
    ));
    assert(items(ts, 3, no, Seq::empty()) == items(ts, w + 1, no, ms));
    assert(directives(ts, 0, Seq::empty()) == Ok::<(Seq<Seq<char>>, nat), ErrorModel>(
        (Seq::empty(), 0),
    ));
    assert(interface(ts, 0, Seq::empty()) == Ok::<(InterfaceModel, nat), ErrorModel>(
        (one_method(param, ret), w + 2),
    ));
}

/// Parsing the canonical form of a type gives the type back, as a parameter and
/// as a result. Native strings, vectors and options are no parameters.
pub proof fn canonical_forms_parse_back(param: Ty, ret: Ty)
    requires
        lawful(param, false),
        lawful(ret, true),
    ensures
        parse_model(encode_utf8(one_method_text(param, ret))) == Ok::<InterfaceModel, ErrorModel>(
            one_method(param, ret),
        ),
{
    lemma_head();
    lemma_middle();
    lemma_lawful_true(param, false);
    lemma_canonical(param);
    lemma_canonical(ret);
    let head = "interface I { fn m(x: "@;
    reveal_strlit("interface I { fn m(x: ");
    assert(head.last() == ' ');
    let a = param.canonical();
    let r = ret.canonical();
    let mid = seq![Tok::RParen, Tok::Arrow];
    let tail = seq![Tok::Semicolon, Tok::RBrace];
    lemma_then(head, head_toks(), a, ty_toks(param));
    lemma_then(head + a, head_toks() + ty_toks(param), ") -> "@, mid);
    let b = head + a + ") -> "@;
    let kb = head_toks() + ty_toks(param) + mid;
    lemma_then(b, kb, r, ty_toks(ret));
    lemma_then(b + r, kb + ty_toks(ret), "; }"@, tail);
    let text = one_method_text(param, ret);
    lemma_utf8(text);
    tokens_are_of_these_kinds(ascii(text));
    let ts = tokens(ascii(text))->Ok_0;
    let ks = kb + ty_toks(ret) + tail;
    assert(ks + seq![Tok::Eof] =~= ks.push(Tok::Eof));
    lemma_kinds_stand(ts, ks + seq![Tok::Eof]);
    lemma_one_method(ts, param, ret);
}

proof fn lemma_ascii(c: char)
    requires
        c as u32 <= 127,
    ensures
        '\0' <= c <= '\u{7f}',
{
    assert(c as u32 == c as int);
}

proof fn lemma_utf8(s: Seq<char>)
    requires
        plain(s),
    ensures
        encode_utf8(s) == ascii(s),
{
    assert forall|i: int| 0 <= i < s.len() implies '\0' <= #[trigger] s[i] <= '\u{7f}' by {
        lemma_ascii(s[i]);
    }
    is_ascii_chars_encode_utf8(s);
    assert(encode_utf8(s) =~= ascii(s));
}

pub(crate) proof fn lemma_kinds_stand(ts: Seq<TokenModel>, ks: Seq<Tok>)
    requires
        kinds_of(ts) == ks,
    ensures
        stands_at(ts, 0, ks),
{
    assert(kinds_of(ts).len() == ts.len());
    assert forall|i: int| 0 <= i < ks.len() implies (#[trigger] ts[0nat + i]).kind == ks[i] by {
        assert(kinds_of(ts)[i] == ts[i].kind);
    }
}

// ---------------------------------------------------------------------------
// Lists
// ---------------------------------------------------------------------------

/// The first `n` parts, with `sep` between them.
pub open spec fn joined(parts: Seq<Seq<Tok>>, sep: Tok, n: nat) -> Seq<Tok>
    decreases n,
{
    if n == 0 {
        Seq::empty()
    } else if n == 1 {
        parts[0]
    } else {
        joined(parts, sep, (n - 1) as nat) + seq![sep] + parts[n - 1]
    }
}

/// The place of part `k`.
spec fn part_place(parts: Seq<Seq<Tok>>, sep: Tok, k: nat) -> nat {
    if k == 0 {
        0
    } else {
        joined(parts, sep, k).len() + 1
    }
}

proof fn lemma_part_at(
    parts: Seq<Seq<Tok>>,
    sep: Tok,
    n: nat,
    k: nat,
    ts: Seq<TokenModel>,
    p: nat,
)
    requires
        k < n <= parts.len(),
        stands_at(ts, p, joined(parts, sep, n)),
    ensures
        stands_at(ts, p + part_place(parts, sep, k), parts[k as int]),
        part_place(parts, sep, k) + parts[k as int].len() == joined(parts, sep, k + 1).len(),
        k + 1 < n ==> stands_at(ts, p + joined(parts, sep, k + 1).len(), seq![sep]),
        joined(parts, sep, k + 1).len() <= joined(parts, sep, n).len(),
    decreases n,
{
    if n > 1 {
        let before = joined(parts, sep, (n - 1) as nat);
        lemma_split(ts, p, before + seq![sep], parts[n - 1]);
        lemma_split(ts, p, before, seq![sep]);
        if k < n - 1 {
            lemma_part_at(parts, sep, (n - 1) as nat, k, ts, p);
        }
    }
}

/// Whether no two places hold both `u` and `v` unless they are the same.
spec fn agrees(u: Seq<Tok>, v: Seq<Tok>) -> bool {
    forall|ts: Seq<TokenModel>, p: nat|
        #![trigger stands_at(ts, p, u), stands_at(ts, p, v)]
        stands_at(ts, p, u) && stands_at(ts, p, v) ==> u == v
}

/// Part `k` with what follows it: `sep`.
spec fn unit(parts: Seq<Seq<Tok>>, sep: Tok, k: int) -> Seq<Tok> {
    parts[k] + seq![sep]
}

proof fn lemma_unit_at(
    parts: Seq<Seq<Tok>>,
    sep: Tok,
    k: nat,
    ts: Seq<TokenModel>,
)
    requires
        k < parts.len(),
        stands_at(ts, 0, joined(parts, sep, parts.len()) + seq![sep]),
    ensures
        stands_at(ts, part_place(parts, sep, k), unit(parts, sep, k as int)),
{
    let all = joined(parts, sep, parts.len());
    lemma_split(ts, 0, all, seq![sep]);
    lemma_part_at(parts, sep, parts.len(), k, ts, 0);
    let q = part_place(parts, sep, k);
    let u = unit(parts, sep, k as int);
    let e = joined(parts, sep, k + 1).len();
    assert(stands_at(ts, e, seq![sep]));
    assert forall|i: int| 0 <= i < u.len() implies (#[trigger] ts[q + i]).kind == u[i] by {
        if i < parts[k as int].len() {
            assert(u[i] == parts[k as int][i]);
        } else {
            assert(ts[e + 0int].kind == seq![sep][0]);
            assert(q + i == e);
        }
    }
}

proof fn lemma_same_parts(
    xs: Seq<Seq<Tok>>,
    ys: Seq<Seq<Tok>>,
    sep: Tok,
    ts: Seq<TokenModel>,
    k: nat,
)
    requires
        k <= xs.len(),
        k <= ys.len(),
        stands_at(ts, 0, joined(xs, sep, xs.len()) + seq![sep]),
        stands_at(ts, 0, joined(ys, sep, ys.len()) + seq![sep]),
        forall|i: int, j: int|
            0 <= i < xs.len() && 0 <= j < ys.len() ==> agrees(
                #[trigger] unit(xs, sep, i),
                #[trigger] unit(ys, sep, j),
            ),
    ensures
        forall|i: int| 0 <= i < k ==> xs[i] == ys[i],
        joined(xs, sep, k) == joined(ys, sep, k),
    decreases k,
{
    if k > 0 {
        let j = (k - 1) as nat;
        lemma_same_parts(xs, ys, sep, ts, j);
        lemma_unit_at(xs, sep, j, ts);
        lemma_unit_at(ys, sep, j, ts);
        let u = unit(xs, sep, j as int);
        let v = unit(ys, sep, j as int);
        assert(agrees(u, v));
        assert(u == v);
        assert(xs[j as int] =~= u.drop_last());
        assert(ys[j as int] =~= v.drop_last());
    }
}

proof fn lemma_joined_grows(parts: Seq<Seq<Tok>>, sep: Tok, k: nat, n: nat)
    requires
        k < n <= parts.len(),
        forall|i: int| 0 <= i < parts.len() ==> (#[trigger] parts[i]).len() > 0,
    ensures
        joined(parts, sep, k).len() < joined(parts, sep, n).len(),
    decreases n,
{
    assert(parts[n - 1].len() > 0);
    if k < n - 1 {
        lemma_joined_grows(parts, sep, k, (n - 1) as nat);
    }
}

/// Lists of parts that can be told apart are the same if they are the same
/// when joined.
proof fn lemma_joined_unique(xs: Seq<Seq<Tok>>, ys: Seq<Seq<Tok>>, sep: Tok)
    requires
        joined(xs, sep, xs.len()) == joined(ys, sep, ys.len()),
        forall|i: int| 0 <= i < xs.len() ==> (#[trigger] xs[i]).len() > 0,
        forall|i: int| 0 <= i < ys.len() ==> (#[trigger] ys[i]).len() > 0,
        forall|i: int, j: int|
            0 <= i < xs.len() && 0 <= j < ys.len() ==> agrees(
                #[trigger] unit(xs, sep, i),
                #[trigger] unit(ys, sep, j),
            ),
    ensures
        xs == ys,
{
    let ks = joined(xs, sep, xs.len()) + seq![sep];
    let ts = some_tokens(ks);
    lemma_some_tokens(ks);
    let k: nat = if xs.len() < ys.len() {
        xs.len()
    } else {
        ys.len()
    };
    lemma_same_parts(xs, ys, sep, ts, k);
    if xs.len() < ys.len() {
        lemma_joined_grows(ys, sep, k, ys.len());
    }
    if ys.len() < xs.len() {
        lemma_joined_grows(xs, sep, k, xs.len());
    }
    assert(xs =~= ys);
}

// ---------------------------------------------------------------------------
// Declarations
// ---------------------------------------------------------------------------

/// The tokens of a field in canonical form.
pub open spec fn field_toks(f: (Seq<char>, Ty)) -> Seq<Tok> {
    seq![Tok::Ident(f.0), Tok::Colon] + ty_toks(f.1)
}

/// The tokens of each of a list of fields.
pub open spec fn field_parts(fs: Seq<(Seq<char>, Ty)>) -> Seq<Seq<Tok>> {
    Seq::new(fs.len(), |i: int| field_toks(fs[i]))
}

/// The tokens of a variant in canonical form.
pub open spec fn variant_toks(v: VariantModel) -> Seq<Tok> {
    if v.fields.len() == 0 {
        seq![Tok::Ident(v.name)]
    } else {
        seq![Tok::Ident(v.name), Tok::LParen] + list_toks(v.fields, v.fields.len()) + seq![
            Tok::RParen,
        ]
    }
}

/// The tokens of each of a list of variants.
pub open spec fn variant_parts(vs: Seq<VariantModel>) -> Seq<Seq<Tok>> {
    Seq::new(vs.len(), |i: int| variant_toks(vs[i]))
}

/// The tokens of a declaration in canonical form.
pub open spec fn decl_toks(d: Decl) -> Seq<Tok> {
    match d {
        Decl::Struct(s) => seq![Tok::Struct, Tok::Ident(s.name), Tok::LBrace] + joined(
            field_parts(s.fields),
            Tok::Comma,
            s.fields.len(),
        ) + seq![Tok::RBrace],
        Decl::Enum(e) => seq![Tok::Enum, Tok::Ident(e.name), Tok::LBrace] + joined(
            variant_parts(e.variants),
            Tok::Comma,
            e.variants.len(),
        ) + seq![Tok::RBrace],
        Decl::Opaque(name) => seq![Tok::Opaque, Tok::Ident(name)],
    }
}

/// The tokens of each of a list of declarations.
pub open spec fn decl_parts(ds: Seq<Decl>) -> Seq<Seq<Tok>> {
    Seq::new(ds.len(), |i: int| decl_toks(ds[i]))
}

/// The types of a list of parameters.
pub open spec fn param_types(ps: Seq<ParamModel>) -> Seq<Ty> {
    Seq::new(ps.len(), |i: int| ps[i].ty)
}

/// The tokens of a method in canonical form.
pub open spec fn method_toks(m: MethodModel) -> Seq<Tok> {
    seq![Tok::Ident(m.name), Tok::LParen] + list_toks(param_types(m.params), m.params.len()) + seq![
        Tok::RParen,
        Tok::Arrow,
    ] + ty_toks(m.return_type)
}

/// The tokens of each of a list of methods.
pub open spec fn method_parts(ms: Seq<MethodModel>) -> Seq<Seq<Tok>> {
    Seq::new(ms.len(), |i: int| method_toks(ms[i]))
}

proof fn lemma_all_lawful_list(list: Seq<Ty>, n: nat)
    requires
        n <= list.len(),
        forall|i: int| 0 <= i < list.len() ==> lawful(#[trigger] list[i], true),
    ensures
        all_lawful(list, n, true),
    decreases n,
{
    if n > 0 {
        lemma_all_lawful_list(list, (n - 1) as nat);
    }
}

pub(crate) proof fn lemma_empty_text()
    ensures
        spells(Seq::empty(), Seq::empty()),
{
    assert(ascii(Seq::<char>::empty()) =~= Seq::empty());
}

proof fn lemma_field_text(f: (Seq<char>, Ty))
    requires
        is_name(f.0),
        lawful(f.1, true),
    ensures
        spells(f.0 + ":"@ + f.1.canonical(), field_toks(f)),
{
    lemma_marks();
    lemma_literals();
    lemma_name(f.0);
    lemma_canonical(f.1);
    let k = seq![Tok::Ident(f.0)] + seq![Tok::Colon];
    lemma_then(f.0, seq![Tok::Ident(f.0)], seq![':'], seq![Tok::Colon]);
    lemma_then(f.0 + seq![':'], k, f.1.canonical(), ty_toks(f.1));
    assert(k =~= seq![Tok::Ident(f.0), Tok::Colon]);
}

proof fn lemma_comma(a: Seq<char>, ka: Seq<Tok>, b: Seq<char>, kb: Seq<Tok>)
    requires
        spells(a, ka),
        spells(b, kb),
    ensures
        spells(a + ","@ + b, ka + seq![Tok::Comma] + kb),
        spells(a + ";"@ + b, ka + seq![Tok::Semicolon] + kb),
{
    lemma_marks();
    lemma_literals();
    lemma_then(a, ka, seq![','], seq![Tok::Comma]);
    lemma_then(a + seq![','], ka + seq![Tok::Comma], b, kb);
    lemma_then(a, ka, seq![';'], seq![Tok::Semicolon]);
    lemma_then(a + seq![';'], ka + seq![Tok::Semicolon], b, kb);
}

proof fn lemma_fields_text(fs: Seq<(Seq<char>, Ty)>, n: nat)
    requires
        n <= fs.len(),
        lawful_fields(fs),
    ensures
        spells(canonical_fields(fs, n), joined(field_parts(fs), Tok::Comma, n)),
    decreases n,
{
    if n == 0 {
        lemma_empty_text();
    } else {
        lemma_field_text(fs[n - 1]);
        if n > 1 {
            lemma_fields_text(fs, (n - 1) as nat);
            let f = fs[n - 1];
            lemma_comma(
                canonical_fields(fs, (n - 1) as nat),
                joined(field_parts(fs), Tok::Comma, (n - 1) as nat),
                f.0 + ":"@ + f.1.canonical(),
                field_toks(f),
            );
        }
    }
}

proof fn lemma_variant_text(v: VariantModel)
    requires
        lawful_variant(v),
    ensures
        spells(canonical_variant(v), variant_toks(v)),
{
    lemma_name(v.name);
    if v.fields.len() > 0 {
        lemma_marks();
        lemma_literals();
        lemma_all_lawful_list(v.fields, v.fields.len());
        lemma_canonical_list(v.fields, v.fields.len());
        let list = canonical_list(v.fields, v.fields.len());
        let ks = list_toks(v.fields, v.fields.len());
        let k = seq![Tok::Ident(v.name)] + seq![Tok::LParen];
        lemma_then(v.name, seq![Tok::Ident(v.name)], seq!['('], seq![Tok::LParen]);
        lemma_then(v.name + seq!['('], k, list, ks);
        lemma_then(v.name + seq!['('] + list, k + ks, seq![')'], seq![Tok::RParen]);
        assert(k =~= seq![Tok::Ident(v.name), Tok::LParen]);
    }
}

proof fn lemma_variants_text(vs: Seq<VariantModel>, n: nat)
    requires
        n <= vs.len(),
        forall|i: int| 0 <= i < vs.len() ==> lawful_variant(#[trigger] vs[i]),
    ensures
        spells(canonical_variants(vs, n), joined(variant_parts(vs), Tok::Comma, n)),
    decreases n,
{
    if n == 0 {
        lemma_empty_text();
    } else {
        lemma_variant_text(vs[n - 1]);
        if n > 1 {
            lemma_variants_text(vs, (n - 1) as nat);
            lemma_comma(
                canonical_variants(vs, (n - 1) as nat),
                joined(variant_parts(vs), Tok::Comma, (n - 1) as nat),
                canonical_variant(vs[n - 1]),
                variant_toks(vs[n - 1]),
            );
        }
    }
}

proof fn lemma_block_text(
    word: Seq<char>,
    k: Tok,
    name: Seq<char>,
    body: Seq<char>,
    ks: Seq<Tok>,
)
    requires
        spells(word, seq![k]),
        word.len() > 0,
        is_name(name),
        spells(body, ks),
    ensures
        spells(
            word + seq![' '] + name + seq!['{'] + body + seq!['}'],
            seq![k, Tok::Ident(name), Tok::LBrace] + ks + seq![Tok::RBrace],
        ),
{
    lemma_marks();
    lemma_name(name);
    lemma_empty_text();
    lemma_spaced(Seq::empty(), Seq::empty(), word, k);
    let a = word + seq![' '];
    assert(Seq::<char>::empty() + word + seq![' '] =~= a);
    assert(Seq::<Tok>::empty().push(k) =~= seq![k]);
    lemma_then(a, seq![k], name, seq![Tok::Ident(name)]);
    let b = a + name;
    let kb = seq![k] + seq![Tok::Ident(name)];
    lemma_then(b, kb, seq!['{'], seq![Tok::LBrace]);
    let c = b + seq!['{'];
    let kc = kb + seq![Tok::LBrace];
    lemma_then(c, kc, body, ks);
    lemma_then(c + body, kc + ks, seq!['}'], seq![Tok::RBrace]);
    assert(kc =~= seq![k, Tok::Ident(name), Tok::LBrace]);
}

proof fn lemma_decl_text(d: Decl)
    requires
        lawful_decl(d),
    ensures
        spells(d.canonical(), decl_toks(d)),
{
    lemma_keywords();
    lemma_literals();
    reveal_strlit("struct");
    reveal_strlit("struct ");
    assert("struct "@ =~= "struct"@ + seq![' ']);
    reveal_strlit("enum");
    reveal_strlit("enum ");
    assert("enum "@ =~= "enum"@ + seq![' ']);
    reveal_strlit("opaque");
    reveal_strlit("opaque ");
    assert("opaque "@ =~= "opaque"@ + seq![' ']);
    match d {
        Decl::Struct(s) => {
            lemma_fields_text(s.fields, s.fields.len());
            lemma_block_text(
                "struct"@,
                Tok::Struct,
                s.name,
                canonical_fields(s.fields, s.fields.len()),
                joined(field_parts(s.fields), Tok::Comma, s.fields.len()),
            );
        },
        Decl::Enum(e) => {
            lemma_variants_text(e.variants, e.variants.len());
            lemma_block_text(
                "enum"@,
                Tok::Enum,
                e.name,
                canonical_variants(e.variants, e.variants.len()),
                joined(variant_parts(e.variants), Tok::Comma, e.variants.len()),
            );
        },
        Decl::Opaque(name) => {
            lemma_empty_text();
            lemma_name(name);
            lemma_spaced(Seq::empty(), Seq::empty(), "opaque"@, Tok::Opaque);
            assert(Seq::<char>::empty() + "opaque"@ + seq![' '] =~= "opaque "@);
            assert(Seq::<Tok>::empty().push(Tok::Opaque) =~= seq![Tok::Opaque]);
            lemma_then("opaque "@, seq![Tok::Opaque], name, seq![Tok::Ident(name)]);
            assert(seq![Tok::Opaque] + seq![Tok::Ident(name)] =~= decl_toks(d));
        },
    }
}

proof fn lemma_decls_text(ds: Seq<Decl>, n: nat)
    requires
        n <= ds.len(),
        lawful_decls(ds),
    ensures
        spells(canonical_decls(ds, n), joined(decl_parts(ds), Tok::Semicolon, n)),
    decreases n,
{
    if n == 0 {
        lemma_empty_text();
    } else {
        lemma_decl_text(ds[n - 1]);
        if n > 1 {
            lemma_decls_text(ds, (n - 1) as nat);
            lemma_comma(
                canonical_decls(ds, (n - 1) as nat),
                joined(decl_parts(ds), Tok::Semicolon, (n - 1) as nat),
                ds[n - 1].canonical(),
                decl_toks(ds[n - 1]),
            );
        }
    }
}

proof fn lemma_params(ps: Seq<ParamModel>, n: nat)
    requires
        n <= ps.len(),
    ensures
        canonical_params(ps, n) == canonical_list(param_types(ps), n),
    decreases n,
{
    if n > 1 {
        lemma_params(ps, (n - 1) as nat);
    }
}

/// The types of the parameters of a method are lawful.
proof fn lemma_param_types(m: MethodModel)
    requires
        lawful_method(m),
    ensures
        forall|i: int| 0 <= i < m.params.len() ==> lawful(#[trigger] param_types(m.params)[i], true),
        all_lawful(param_types(m.params), m.params.len(), true),
{
    let list = param_types(m.params);
    assert forall|i: int| 0 <= i < list.len() implies lawful(#[trigger] list[i], true) by {
        assert(lawful(m.params[i].ty, false));
        lemma_native(m.params[i].ty);
    }
    lemma_all_lawful_list(list, list.len());
}

proof fn lemma_method_text(m: MethodModel)
    requires
        lawful_method(m),
    ensures
        spells(canonical_method(m), method_toks(m)),
{
    lemma_marks();
    lemma_literals();
    lemma_name(m.name);
    lemma_params(m.params, m.params.len());
    lemma_param_types(m);
    let list = param_types(m.params);
    let n = m.params.len();
    lemma_canonical_list(list, n);
    lemma_canonical(m.return_type);
    let text = canonical_list(list, n);
    let ks = list_toks(list, n);
    let a = m.name + seq!['('];
    let ka = seq![Tok::Ident(m.name)] + seq![Tok::LParen];
    lemma_then(m.name, seq![Tok::Ident(m.name)], seq!['('], seq![Tok::LParen]);
    lemma_then(a, ka, text, ks);
    lemma_then(a + text, ka + ks, seq![')'], seq![Tok::RParen]);
    let b = a + text + seq![')'];
    let kb = ka + ks + seq![Tok::RParen];
    lemma_then(b, kb, seq!['-', '>'], seq![Tok::Arrow]);
    lemma_then(
        b + seq!['-', '>'],
        kb + seq![Tok::Arrow],
        m.return_type.canonical(),
        ty_toks(m.return_type),
    );
    reveal_strlit(")->");
    assert(")->"@ =~= seq![')'] + seq!['-', '>']);
    assert(canonical_method(m) =~= b + seq!['-', '>'] + m.return_type.canonical());
    assert(kb + seq![Tok::Arrow] + ty_toks(m.return_type) =~= method_toks(m));
}

proof fn lemma_methods_text(ms: Seq<MethodModel>, n: nat)
    requires
        n <= ms.len(),
        forall|i: int| 0 <= i < ms.len() ==> lawful_method(#[trigger] ms[i]),
    ensures
        spells(canonical_methods(ms, n), joined(method_parts(ms), Tok::Comma, n)),
    decreases n,
{
    if n == 0 {
        lemma_empty_text();
    } else {
        lemma_method_text(ms[n - 1]);
        if n > 1 {
            lemma_methods_text(ms, (n - 1) as nat);
            lemma_comma(
                canonical_methods(ms, (n - 1) as nat),
                joined(method_parts(ms), Tok::Comma, (n - 1) as nat),
                canonical_method(ms[n - 1]),
                method_toks(ms[n - 1]),
            );
        }
    }
}

// ---------------------------------------------------------------------------
// Reading declarations and methods back
// ---------------------------------------------------------------------------

proof fn lemma_read_types(list: Seq<Ty>, k: nat, ts: Seq<TokenModel>, p: nat)
    requires
        k < list.len() || (k == 0 && list.len() == 0),
        all_lawful(list, list.len(), true),
        stands_at(ts, p, list_toks(list, list.len())),
        stands_at(ts, p + list_toks(list, list.len()).len(), seq![Tok::RParen]),
    ensures
        variant_types(ts, p + place(list, k), list.take(k as int)) == Ok::<
            (Seq<Ty>, nat),
            ErrorModel,
        >((list, p + list_toks(list, list.len()).len() + 1)),
    decreases list.len() - k,
{
    let end = p + list_toks(list, list.len()).len();
    assert(ts[(end + 0) as int].kind == seq![Tok::RParen][0]);
    if list.len() == 0 {
        assert(list.take(0) =~= list);
    } else {
        let c = p + place(list, k);
        lemma_item_at(list, list.len(), k, ts, p);
        lemma_lawful_at(list, list.len(), k as int, true);
        lemma_first(list[k as int]);
        assert(ts[(c + 0) as int].kind == ty_toks(list[k as int])[0]);
        lemma_read_ty(list[k as int], ts, c, true);
        assert(list.take(k as int).push(list[k as int]) =~= list.take(k as int + 1));
        if k + 1 == list.len() {
            assert(list.take(k as int + 1) =~= list);
        } else {
            lemma_item_at(list, list.len(), k + 1, ts, p);
            assert(ts[(p + list_toks(list, k + 1).len() + 0) as int].kind == seq![Tok::Comma][0]);
            lemma_read_types(list, k + 1, ts, p);
        }
    }
}

/// A name and types in parentheses are read as a variant.
proof fn lemma_read_call(name: Seq<char>, list: Seq<Ty>, ts: Seq<TokenModel>, p: nat)
    requires
        all_lawful(list, list.len(), true),
        stands_at(
            ts,
            p,
            seq![Tok::Ident(name), Tok::LParen] + list_toks(list, list.len()) + seq![Tok::RParen],
        ),
    ensures
        variant(ts, p) == Ok::<(VariantModel, nat), ErrorModel>(
            (VariantModel { name, fields: list }, p + list_toks(list, list.len()).len() + 3),
        ),
{
    let head = seq![Tok::Ident(name), Tok::LParen];
    let lk = list_toks(list, list.len());
    lemma_split(ts, p, head + lk, seq![Tok::RParen]);
    lemma_split(ts, p, head, lk);
    assert(ts[(p + 0) as int].kind == head[0]);
    assert(ts[(p + 1) as int].kind == head[1]);
    lemma_read_types(list, 0, ts, p + 2);
    assert(list.take(0) =~= Seq::empty());
}

proof fn lemma_read_variant(v: VariantModel, ts: Seq<TokenModel>, p: nat)
    requires
        lawful_variant(v),
        stands_at(ts, p, variant_toks(v)),
        p + variant_toks(v).len() < ts.len(),
        ts[(p + variant_toks(v).len()) as int].kind !is LParen,
    ensures
        variant(ts, p) == Ok::<(VariantModel, nat), ErrorModel>((v, p + variant_toks(v).len())),
{
    if v.fields.len() == 0 {
        assert(ts[(p + 0) as int].kind == variant_toks(v)[0]);
        assert(v.fields =~= Seq::empty());
    } else {
        lemma_all_lawful_list(v.fields, v.fields.len());
        lemma_read_call(v.name, v.fields, ts, p);
    }
}

proof fn lemma_read_fields(fs: Seq<(Seq<char>, Ty)>, k: nat, ts: Seq<TokenModel>, p: nat)
    requires
        k < fs.len() || (k == 0 && fs.len() == 0),
        lawful_fields(fs),
        stands_at(ts, p, joined(field_parts(fs), Tok::Comma, fs.len())),
        stands_at(ts, p + joined(field_parts(fs), Tok::Comma, fs.len()).len(), seq![Tok::RBrace]),
    ensures
        struct_fields(ts, p + part_place(field_parts(fs), Tok::Comma, k), fs.take(k as int)) == Ok::<
            (Seq<(Seq<char>, Ty)>, nat),
            ErrorModel,
        >((fs, p + joined(field_parts(fs), Tok::Comma, fs.len()).len() + 1)),
    decreases fs.len() - k,
{
    let parts = field_parts(fs);
    let end = p + joined(parts, Tok::Comma, fs.len()).len();
    assert(ts[(end + 0) as int].kind == seq![Tok::RBrace][0]);
    if fs.len() == 0 {
        assert(fs.take(0) =~= fs);
    } else {
        let c = p + part_place(parts, Tok::Comma, k);
        let f = fs[k as int];
        lemma_part_at(parts, Tok::Comma, fs.len(), k, ts, p);
        assert(parts[k as int] == field_toks(f));
        let head = seq![Tok::Ident(f.0), Tok::Colon];
        lemma_split(ts, c, head, ty_toks(f.1));
        assert(ts[(c + 0) as int].kind == head[0]);
        assert(ts[(c + 1) as int].kind == head[1]);
        lemma_read_ty(f.1, ts, c + 2, true);
        assert(fs.take(k as int).push(f) =~= fs.take(k as int + 1));
        if k + 1 == fs.len() {
            assert(fs.take(k as int + 1) =~= fs);
        } else {
            assert(ts[(p + joined(parts, Tok::Comma, k + 1).len() + 0) as int].kind == seq![
                Tok::Comma,
            ][0]);
            lemma_read_fields(fs, k + 1, ts, p);
        }
    }
}

proof fn lemma_read_variants(vs: Seq<VariantModel>, k: nat, ts: Seq<TokenModel>, p: nat)
    requires
        k < vs.len() || (k == 0 && vs.len() == 0),
        forall|i: int| 0 <= i < vs.len() ==> lawful_variant(#[trigger] vs[i]),
        stands_at(ts, p, joined(variant_parts(vs), Tok::Comma, vs.len())),
        stands_at(ts, p + joined(variant_parts(vs), Tok::Comma, vs.len()).len(), seq![Tok::RBrace]),
    ensures
        enum_variants(ts, p + part_place(variant_parts(vs), Tok::Comma, k), vs.take(k as int))
            == Ok::<(Seq<VariantModel>, nat), ErrorModel>(
            (vs, p + joined(variant_parts(vs), Tok::Comma, vs.len()).len() + 1),
        ),
    decreases vs.len() - k,
{
    let parts = variant_parts(vs);
    let end = p + joined(parts, Tok::Comma, vs.len()).len();
    assert(ts[(end + 0) as int].kind == seq![Tok::RBrace][0]);
    if vs.len() == 0 {
        assert(vs.take(0) =~= vs);
    } else {
        let c = p + part_place(parts, Tok::Comma, k);
        let v = vs[k as int];
        lemma_part_at(parts, Tok::Comma, vs.len(), k, ts, p);
        assert(parts[k as int] == variant_toks(v));
        assert(variant_toks(v)[0] == Tok::Ident(v.name));
        assert(ts[(c + 0) as int].kind == variant_toks(v)[0]);
        assert(vs.take(k as int).push(v) =~= vs.take(k as int + 1));
        if k + 1 == vs.len() {
            lemma_read_variant(v, ts, c);
            assert(vs.take(k as int + 1) =~= vs);
        } else {
            assert(ts[(p + joined(parts, Tok::Comma, k + 1).len() + 0) as int].kind == seq![
                Tok::Comma,
            ][0]);
            lemma_read_variant(v, ts, c);
            lemma_read_variants(vs, k + 1, ts, p);
        }
    }
}

/// A declaration in canonical form at `p`, if there is one.
spec fn decl_at(ts: Seq<TokenModel>, p: nat) -> Option<Decl> {
    match kind(ts, p) {
        Tok::Struct => match struct_decl(ts, p) {
            Ok((d, _)) => Some(d),
            Err(_) => None,
        },
        Tok::Enum => match enum_decl(ts, p) {
            Ok((d, _)) => Some(d),
            Err(_) => None,
        },
        Tok::Opaque => match kind(ts, p + 1) {
            Tok::Ident(name) => Some(Decl::Opaque(name)),
            _ => None,
        },
        _ => None,
    }
}

proof fn lemma_read_decl(d: Decl, ts: Seq<TokenModel>, p: nat)
    requires
        lawful_decl(d),
        stands_at(ts, p, decl_toks(d)),
    ensures
        decl_at(ts, p) == Some(d),
{
    match d {
        Decl::Struct(s) => {
            let head = seq![Tok::Struct, Tok::Ident(s.name), Tok::LBrace];
            let ks = joined(field_parts(s.fields), Tok::Comma, s.fields.len());
            lemma_split(ts, p, head + ks, seq![Tok::RBrace]);
            lemma_split(ts, p, head, ks);
            assert(ts[(p + 0) as int].kind == head[0]);
            assert(ts[(p + 1) as int].kind == head[1]);
            assert(ts[(p + 2) as int].kind == head[2]);
            lemma_read_fields(s.fields, 0, ts, p + 3);
            assert(s.fields.take(0) =~= Seq::empty());
        },
        Decl::Enum(e) => {
            let head = seq![Tok::Enum, Tok::Ident(e.name), Tok::LBrace];
            let ks = joined(variant_parts(e.variants), Tok::Comma, e.variants.len());
            lemma_split(ts, p, head + ks, seq![Tok::RBrace]);
            lemma_split(ts, p, head, ks);
            assert(ts[(p + 0) as int].kind == head[0]);
            assert(ts[(p + 1) as int].kind == head[1]);
            assert(ts[(p + 2) as int].kind == head[2]);
            lemma_read_variants(e.variants, 0, ts, p + 3);
            assert(e.variants.take(0) =~= Seq::empty());
        },
        Decl::Opaque(name) => {
            assert(ts[(p + 0) as int].kind == decl_toks(d)[0]);
            assert(ts[(p + 1) as int].kind == decl_toks(d)[1]);
        },
    }
}

/// What of a method stands in its canonical form.
pub open spec fn shape(m: MethodModel) -> (Seq<char>, Seq<Ty>, Ty) {
    (m.name, param_types(m.params), m.return_type)
}

/// The shape of a method in canonical form at `p`, if there is one.
spec fn shape_at(ts: Seq<TokenModel>, p: nat) -> Option<(Seq<char>, Seq<Ty>, Ty)> {
    match variant(ts, p) {
        Err(_) => None,
        Ok((v, q)) => match ty(ts, q + 1, true) {
            Err(_) => None,
            Ok((ret, _)) => Some((v.name, v.fields, ret)),
        },
    }
}

proof fn lemma_read_method(m: MethodModel, ts: Seq<TokenModel>, p: nat)
    requires
        lawful_method(m),
        stands_at(ts, p, method_toks(m)),
    ensures
        shape_at(ts, p) == Some(shape(m)),
{
    lemma_param_types(m);
    let list = param_types(m.params);
    let lk = list_toks(list, list.len());
    let head = seq![Tok::Ident(m.name), Tok::LParen];
    let ret = ty_toks(m.return_type);
    let call = head + lk + seq![Tok::RParen];
    assert(method_toks(m) =~= call + (seq![Tok::Arrow] + ret));
    lemma_split(ts, p, call, seq![Tok::Arrow] + ret);
    lemma_split(ts, p + call.len(), seq![Tok::Arrow], ret);
    lemma_read_call(m.name, list, ts, p);
    lemma_read_ty(m.return_type, ts, p + call.len() + 1, true);
}

// ---------------------------------------------------------------------------
// The signature
// ---------------------------------------------------------------------------

proof fn lemma_bar(a: Seq<char>, b: Seq<char>, c: Seq<char>, d: Seq<char>)
    requires
        plain(a),
        plain(c),
        a + "|"@ + b == c + "|"@ + d,
    ensures
        a == c,
        b == d,
{
    reveal_strlit("|");
    let x = a + "|"@ + b;
    let y = c + "|"@ + d;
    if a.len() < c.len() {
        assert(x[a.len() as int] == '|');
        assert(y[a.len() as int] == c[a.len() as int]);
    }
    if c.len() < a.len() {
        assert(y[c.len() as int] == '|');
        assert(x[c.len() as int] == a[c.len() as int]);
    }
    assert(a =~= x.take(a.len() as int));
    assert(c =~= y.take(c.len() as int));
    assert(b =~= x.skip(a.len() as int + 1));
    assert(d =~= y.skip(c.len() as int + 1));
}

proof fn lemma_decls_unique(a: Seq<Decl>, b: Seq<Decl>)
    requires
        lawful_decls(a),
        lawful_decls(b),
        canonical_decls(a, a.len()) == canonical_decls(b, b.len()),
    ensures
        a == b,
{
    lemma_decls_text(a, a.len());
    lemma_decls_text(b, b.len());
    let xs = decl_parts(a);
    let ys = decl_parts(b);
    let sep = Tok::Semicolon;
    assert forall|i: int, j: int| 0 <= i < xs.len() && 0 <= j < ys.len() implies agrees(
        #[trigger] unit(xs, sep, i),
        #[trigger] unit(ys, sep, j),
    ) by {
        let u = unit(xs, sep, i);
        let v = unit(ys, sep, j);
        assert forall|ts: Seq<TokenModel>, p: nat|
            #![trigger stands_at(ts, p, u), stands_at(ts, p, v)]
            stands_at(ts, p, u) && stands_at(ts, p, v) implies u == v by {
            lemma_split(ts, p, decl_toks(a[i]), seq![sep]);
            lemma_split(ts, p, decl_toks(b[j]), seq![sep]);
            assert(lawful_decl(a[i]) && lawful_decl(b[j]));
            lemma_read_decl(a[i], ts, p);
            lemma_read_decl(b[j], ts, p);
        }
    }
    lemma_joined_unique(xs, ys, sep);
    assert forall|i: int| 0 <= i < a.len() implies a[i] == b[i] by {
        assert(xs[i] == ys[i]);
        let ks = decl_toks(a[i]);
        lemma_some_tokens(ks);
        assert(lawful_decl(a[i]) && lawful_decl(b[i]));
        lemma_read_decl(a[i], some_tokens(ks), 0);
        lemma_read_decl(b[i], some_tokens(ks), 0);
    }
    assert(xs.len() == a.len() && ys.len() == b.len());
    assert(a =~= b);
}

/// Whether two lists of methods have the same shapes.
pub open spec fn same_shapes(a: Seq<MethodModel>, b: Seq<MethodModel>) -> bool {
    &&& a.len() == b.len()
    &&& forall|i: int| 0 <= i < a.len() ==> shape(#[trigger] a[i]) == shape(b[i])
}

proof fn lemma_methods_unique(a: Seq<MethodModel>, b: Seq<MethodModel>)
    requires
        forall|i: int| 0 <= i < a.len() ==> lawful_method(#[trigger] a[i]),
        forall|i: int| 0 <= i < b.len() ==> lawful_method(#[trigger] b[i]),
        canonical_methods(a, a.len()) == canonical_methods(b, b.len()),
    ensures
        same_shapes(a, b),
{
    lemma_methods_text(a, a.len());
    lemma_methods_text(b, b.len());
    let xs = method_parts(a);
    let ys = method_parts(b);
    let sep = Tok::Comma;
    assert forall|i: int, j: int| 0 <= i < xs.len() && 0 <= j < ys.len() implies agrees(
        #[trigger] unit(xs, sep, i),
        #[trigger] unit(ys, sep, j),
    ) by {
        let u = unit(xs, sep, i);
        let v = unit(ys, sep, j);
        assert forall|ts: Seq<TokenModel>, p: nat|
            #![trigger stands_at(ts, p, u), stands_at(ts, p, v)]
            stands_at(ts, p, u) && stands_at(ts, p, v) implies u == v by {
            lemma_split(ts, p, method_toks(a[i]), seq![sep]);
            lemma_split(ts, p, method_toks(b[j]), seq![sep]);
            assert(lawful_method(a[i]) && lawful_method(b[j]));
            lemma_read_method(a[i], ts, p);
            lemma_read_method(b[j], ts, p);
            assert(shape(a[i]) == shape(b[j]));
            assert(param_types(a[i].params) == param_types(b[j].params));
            assert(a[i].params.len() == param_types(a[i].params).len());
            assert(b[j].params.len() == param_types(b[j].params).len());
            assert(method_toks(a[i]) == method_toks(b[j]));
        }
    }
    lemma_joined_unique(xs, ys, sep);
    assert(xs.len() == a.len() && ys.len() == b.len());
    assert forall|i: int| 0 <= i < a.len() implies shape(#[trigger] a[i]) == shape(b[i]) by {
        assert(xs[i] == ys[i]);
        let ks = method_toks(a[i]);
        lemma_some_tokens(ks);
        assert(lawful_method(a[i]) && lawful_method(b[i]));
        lemma_read_method(a[i], some_tokens(ks), 0);
        lemma_read_method(b[i], some_tokens(ks), 0);
    }
}

proof fn lemma_params_same(a: Seq<ParamModel>, b: Seq<ParamModel>)
    requires
        param_types(a) == param_types(b),
    ensures
        canonical_params(a, a.len()) == canonical_params(b, b.len()),
{
    assert(a.len() == param_types(a).len());
    assert(b.len() == param_types(b).len());
    lemma_params(a, a.len());
    lemma_params(b, b.len());
}

proof fn lemma_methods_same(a: Seq<MethodModel>, b: Seq<MethodModel>, n: nat)
    requires
        n <= a.len(),
        same_shapes(a, b),
    ensures
        canonical_methods(a, n) == canonical_methods(b, n),
    decreases n,
{
    if n > 0 {
        assert(shape(a[n - 1]) == shape(b[n - 1]));
        lemma_params_same(a[n - 1].params, b[n - 1].params);
        assert(canonical_method(a[n - 1]) == canonical_method(b[n - 1]));
        if n > 1 {
            lemma_methods_same(a, b, (n - 1) as nat);
        }
    }
}

/// Two interfaces that parse have the same canonical signature if and only if
/// they have the same name, the same declarations and methods of the same
/// shapes: name, parameter types and return type. The names of parameters do
/// not matter.
pub proof fn signatures_tell_interfaces_apart(a: InterfaceModel, b: InterfaceModel)
    requires
        lawful_interface(a),
        lawful_interface(b),
    ensures
        a.canonical_sig() == b.canonical_sig() <==> a.name == b.name && a.types == b.types
            && same_shapes(a.methods, b.methods),
{
    let da = canonical_decls(a.types, a.types.len());
    let db = canonical_decls(b.types, b.types.len());
    let ma = canonical_methods(a.methods, a.methods.len());
    let mb = canonical_methods(b.methods, b.methods.len());
    if a.canonical_sig() == b.canonical_sig() {
        lemma_name(a.name);
        lemma_name(b.name);
        lemma_decls_text(a.types, a.types.len());
        lemma_decls_text(b.types, b.types.len());
        assert(a.canonical_sig() =~= a.name + "|"@ + (da + "|"@ + ma));
        assert(b.canonical_sig() =~= b.name + "|"@ + (db + "|"@ + mb));
        lemma_bar(a.name, da + "|"@ + ma, b.name, db + "|"@ + mb);
        lemma_bar(da, ma, db, mb);
        lemma_decls_unique(a.types, b.types);
        lemma_methods_unique(a.methods, b.methods);
    }
    if a.name == b.name && a.types == b.types && same_shapes(a.methods, b.methods) {
        lemma_methods_same(a.methods, b.methods, a.methods.len());
    }
}

/// The same of two sources: what they parse to.
pub proof fn signatures_tell_sources_apart(a: Seq<u8>, b: Seq<u8>)
    requires
        parse_model(a) is Ok,
        parse_model(b) is Ok,
    ensures
        ({
            let x = parse_model(a)->Ok_0;
            let y = parse_model(b)->Ok_0;
            x.canonical_sig() == y.canonical_sig() <==> x.name == y.name && x.types == y.types
                && same_shapes(x.methods, y.methods)
        }),
{
    parsed_interfaces_are_lawful(a);
    parsed_interfaces_are_lawful(b);
    signatures_tell_interfaces_apart(parse_model(a)->Ok_0, parse_model(b)->Ok_0);
}

} // verus!
