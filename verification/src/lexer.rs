//! The tokenizer of `.dspi` files.
//!
//! It turns the bytes of a source text into a flat list of tokens, each with
//! its line and column.
use vstd::prelude::*;
use vstd::string::{StrSliceExecFns, StringExecFns, StringSliceAdditionalSpecFns};
use vstd::utf8::{
    decode_utf8, encode_utf8_decode_utf8, encode_utf8_valid_utf8,
    is_char_boundary_iff_not_is_continuation_byte, pop_first_scalar, valid_utf8, valid_utf8_split,
};

use crate::text::{dec, decimal, same, utf8_str};

verus! {

// ---------------------------------------------------------------------------
// Tokens
// ---------------------------------------------------------------------------

#[derive(Debug, PartialEq)]
pub enum TokenKind {
    // Keywords
    Interface,
    Struct,
    Enum,
    Opaque,
    Fn,
    Mut,
    Include,
    // Punctuation
    LBrace,
    RBrace,
    LParen,
    RParen,
    LBracket,
    RBracket,
    Lt,
    Gt,
    Amp,
    Comma,
    Colon,
    Semicolon,
    Arrow,
    // With content
    Ident(String),
    Str(String),
    Int(usize),
    Eof,
}

#[derive(Debug)]
pub struct Token {
    pub kind: TokenKind,
    pub line: usize,
    pub col: usize,
}

/// What stops the tokenizer, and where.
#[derive(Debug)]
pub struct LexError {
    pub line: usize,
    pub col: usize,
    pub msg: String,
}

/// The model of a [`TokenKind`].
pub enum Tok {
    Interface,
    Struct,
    Enum,
    Opaque,
    Fn,
    Mut,
    Include,
    LBrace,
    RBrace,
    LParen,
    RParen,
    LBracket,
    RBracket,
    Lt,
    Gt,
    Amp,
    Comma,
    Colon,
    Semicolon,
    Arrow,
    Ident(Seq<char>),
    Str(Seq<char>),
    Int(usize),
    Eof,
}

/// The model of a [`Token`].
pub struct TokenModel {
    pub kind: Tok,
    pub line: usize,
    pub col: usize,
}

/// The model of an error: a place and a message.
pub struct ErrorModel {
    pub line: usize,
    pub col: usize,
    pub msg: Seq<char>,
}

impl View for TokenKind {
    type V = Tok;

    open spec fn view(&self) -> Tok {
        match self {
            TokenKind::Interface => Tok::Interface,
            TokenKind::Struct => Tok::Struct,
            TokenKind::Enum => Tok::Enum,
            TokenKind::Opaque => Tok::Opaque,
            TokenKind::Fn => Tok::Fn,
            TokenKind::Mut => Tok::Mut,
            TokenKind::Include => Tok::Include,
            TokenKind::LBrace => Tok::LBrace,
            TokenKind::RBrace => Tok::RBrace,
            TokenKind::LParen => Tok::LParen,
            TokenKind::RParen => Tok::RParen,
            TokenKind::LBracket => Tok::LBracket,
            TokenKind::RBracket => Tok::RBracket,
            TokenKind::Lt => Tok::Lt,
            TokenKind::Gt => Tok::Gt,
            TokenKind::Amp => Tok::Amp,
            TokenKind::Comma => Tok::Comma,
            TokenKind::Colon => Tok::Colon,
            TokenKind::Semicolon => Tok::Semicolon,
            TokenKind::Arrow => Tok::Arrow,
            TokenKind::Ident(s) => Tok::Ident(s@),
            TokenKind::Str(s) => Tok::Str(s@),
            TokenKind::Int(n) => Tok::Int(*n),
            TokenKind::Eof => Tok::Eof,
        }
    }
}

impl View for Token {
    type V = TokenModel;

    open spec fn view(&self) -> TokenModel {
        TokenModel { kind: self.kind@, line: self.line, col: self.col }
    }
}

impl View for LexError {
    type V = ErrorModel;

    open spec fn view(&self) -> ErrorModel {
        ErrorModel { line: self.line, col: self.col, msg: self.msg@ }
    }
}

impl Tok {
    /// How error messages name a token.
    pub open spec fn kind_name(self) -> Seq<char> {
        match self {
            Tok::Interface => "keyword `interface`"@,
            Tok::Struct => "keyword `struct`"@,
            Tok::Enum => "keyword `enum`"@,
            Tok::Opaque => "keyword `opaque`"@,
            Tok::Fn => "keyword `fn`"@,
            Tok::Mut => "keyword `mut`"@,
            Tok::Include => "keyword `include`"@,
            Tok::LBrace => "`{`"@,
            Tok::RBrace => "`}`"@,
            Tok::LParen => "`(`"@,
            Tok::RParen => "`)`"@,
            Tok::LBracket => "`[`"@,
            Tok::RBracket => "`]`"@,
            Tok::Lt => "`<`"@,
            Tok::Gt => "`>`"@,
            Tok::Amp => "`&`"@,
            Tok::Comma => "`,`"@,
            Tok::Colon => "`:`"@,
            Tok::Semicolon => "`;`"@,
            Tok::Arrow => "`->`"@,
            Tok::Ident(_) => "identifier"@,
            Tok::Str(_) => "string literal"@,
            Tok::Int(_) => "integer literal"@,
            Tok::Eof => "end of file"@,
        }
    }
}

impl TokenKind {
    /// How error messages name the token.
    pub fn kind_name(&self) -> (r: &'static str)
        ensures
            r@ == self@.kind_name(),
    {
        match self {
            TokenKind::Interface => "keyword `interface`",
            TokenKind::Struct => "keyword `struct`",
            TokenKind::Enum => "keyword `enum`",
            TokenKind::Opaque => "keyword `opaque`",
            TokenKind::Fn => "keyword `fn`",
            TokenKind::Mut => "keyword `mut`",
            TokenKind::Include => "keyword `include`",
            TokenKind::LBrace => "`{`",
            TokenKind::RBrace => "`}`",
            TokenKind::LParen => "`(`",
            TokenKind::RParen => "`)`",
            TokenKind::LBracket => "`[`",
            TokenKind::RBracket => "`]`",
            TokenKind::Lt => "`<`",
            TokenKind::Gt => "`>`",
            TokenKind::Amp => "`&`",
            TokenKind::Comma => "`,`",
            TokenKind::Colon => "`:`",
            TokenKind::Semicolon => "`;`",
            TokenKind::Arrow => "`->`",
            TokenKind::Ident(_) => "identifier",
            TokenKind::Str(_) => "string literal",
            TokenKind::Int(_) => "integer literal",
            TokenKind::Eof => "end of file",
        }
    }
}

impl Tok {
    /// The number of the kind of token, whatever it holds.
    pub open spec fn tag(self) -> u8 {
        match self {
            Tok::Interface => 0,
            Tok::Struct => 1,
            Tok::Enum => 2,
            Tok::Opaque => 3,
            Tok::Fn => 4,
            Tok::Mut => 5,
            Tok::Include => 6,
            Tok::LBrace => 7,
            Tok::RBrace => 8,
            Tok::LParen => 9,
            Tok::RParen => 10,
            Tok::LBracket => 11,
            Tok::RBracket => 12,
            Tok::Lt => 13,
            Tok::Gt => 14,
            Tok::Amp => 15,
            Tok::Comma => 16,
            Tok::Colon => 17,
            Tok::Semicolon => 18,
            Tok::Arrow => 19,
            Tok::Ident(_) => 20,
            Tok::Str(_) => 21,
            Tok::Int(_) => 22,
            Tok::Eof => 23,
        }
    }
}

impl TokenKind {
    fn tag(&self) -> (r: u8)
        ensures
            r == self@.tag(),
    {
        match self {
            TokenKind::Interface => 0,
            TokenKind::Struct => 1,
            TokenKind::Enum => 2,
            TokenKind::Opaque => 3,
            TokenKind::Fn => 4,
            TokenKind::Mut => 5,
            TokenKind::Include => 6,
            TokenKind::LBrace => 7,
            TokenKind::RBrace => 8,
            TokenKind::LParen => 9,
            TokenKind::RParen => 10,
            TokenKind::LBracket => 11,
            TokenKind::RBracket => 12,
            TokenKind::Lt => 13,
            TokenKind::Gt => 14,
            TokenKind::Amp => 15,
            TokenKind::Comma => 16,
            TokenKind::Colon => 17,
            TokenKind::Semicolon => 18,
            TokenKind::Arrow => 19,
            TokenKind::Ident(_) => 20,
            TokenKind::Str(_) => 21,
            TokenKind::Int(_) => 22,
            TokenKind::Eof => 23,
        }
    }

    /// Whether two tokens are of the same kind and hold the same.
    pub fn is(&self, other: &TokenKind) -> (r: bool)
        ensures
            r == (self@ == other@),
    {
        match (self, other) {
            (TokenKind::Ident(a), TokenKind::Ident(b)) => same(a.as_str(), b.as_str()),
            (TokenKind::Str(a), TokenKind::Str(b)) => same(a.as_str(), b.as_str()),
            (TokenKind::Int(a), TokenKind::Int(b)) => *a == *b,
            _ => self.tag() == other.tag(),
        }
    }
}

impl Clone for TokenKind {
    fn clone(&self) -> (r: Self)
        ensures
            r@ == self@,
    {
        match self {
            TokenKind::Interface => TokenKind::Interface,
            TokenKind::Struct => TokenKind::Struct,
            TokenKind::Enum => TokenKind::Enum,
            TokenKind::Opaque => TokenKind::Opaque,
            TokenKind::Fn => TokenKind::Fn,
            TokenKind::Mut => TokenKind::Mut,
            TokenKind::Include => TokenKind::Include,
            TokenKind::LBrace => TokenKind::LBrace,
            TokenKind::RBrace => TokenKind::RBrace,
            TokenKind::LParen => TokenKind::LParen,
            TokenKind::RParen => TokenKind::RParen,
            TokenKind::LBracket => TokenKind::LBracket,
            TokenKind::RBracket => TokenKind::RBracket,
            TokenKind::Lt => TokenKind::Lt,
            TokenKind::Gt => TokenKind::Gt,
            TokenKind::Amp => TokenKind::Amp,
            TokenKind::Comma => TokenKind::Comma,
            TokenKind::Colon => TokenKind::Colon,
            TokenKind::Semicolon => TokenKind::Semicolon,
            TokenKind::Arrow => TokenKind::Arrow,
            TokenKind::Ident(s) => TokenKind::Ident(s.clone()),
            TokenKind::Str(s) => TokenKind::Str(s.clone()),
            TokenKind::Int(n) => TokenKind::Int(*n),
            TokenKind::Eof => TokenKind::Eof,
        }
    }
}

/// The text of an error: its place, then its message.
pub open spec fn error_text(e: ErrorModel) -> Seq<char> {
    let line = e.line;
    let col = e.col;
    let msg = e.msg;
    dec(line as nat) + ":"@ + dec(col as nat) + ": "@ + msg
}

/// The text of an error at `line`, `col`.
pub fn place_message(line: usize, col: usize, msg: &str) -> (r: String)
    ensures
        r@ == error_text((ErrorModel { line, col, msg: msg@ })),
{
    String::from_str(decimal(line as u64).as_str())
        .concat(":")
        .concat(decimal(col as u64).as_str())
        .concat(": ")
        .concat(msg)
}

impl LexError {
    /// The text of the error: `line:col: message`.
    pub fn to_string(&self) -> (r: String)
        ensures
            r@ == error_text(self@),
    {
        place_message(self.line, self.col, self.msg.as_str())
    }
}

// ---------------------------------------------------------------------------
// What the tokens of a text are
// ---------------------------------------------------------------------------

/// A place in a source: byte offset, line and column. Lines and columns start
/// at 1; they stay put at the largest number.
pub struct Pos {
    pub at: nat,
    pub line: usize,
    pub col: usize,
}

/// The number after `n`, or `n` itself if it is the largest.
pub open spec fn bump(n: usize) -> usize {
    if n == usize::MAX {
        n
    } else {
        (n + 1) as usize
    }
}

/// The place after the byte at `p`.
pub open spec fn step(src: Seq<u8>, p: Pos) -> Pos {
    if src[p.at as int] == 10u8 {
        Pos { at: p.at + 1, line: bump(p.line), col: 1 }
    } else {
        Pos { at: p.at + 1, line: p.line, col: bump(p.col) }
    }
}

/// The byte at offset `i`, if there is one.
pub open spec fn byte_at(src: Seq<u8>, i: nat) -> Option<u8> {
    if i < src.len() {
        Some(src[i as int])
    } else {
        None
    }
}

/// A blank, a tab, a newline or a carriage return.
pub open spec fn is_blank(b: u8) -> bool {
    b == 32u8 || b == 9u8 || b == 10u8 || b == 13u8
}

/// A letter or an underscore.
pub open spec fn starts_ident(b: u8) -> bool {
    (97u8 <= b && b <= 122u8) || (65u8 <= b && b <= 90u8) || b == 95u8
}

/// A decimal digit.
pub open spec fn is_digit(b: u8) -> bool {
    48u8 <= b && b <= 57u8
}

/// A letter, a digit or an underscore.
pub open spec fn in_ident(b: u8) -> bool {
    starts_ident(b) || is_digit(b)
}

/// The end of the line that `p` is on.
pub open spec fn line_end(src: Seq<u8>, p: Pos) -> Pos
    decreases src.len() - p.at,
{
    if p.at >= src.len() || src[p.at as int] == 10u8 {
        p
    } else {
        line_end(src, step(src, p))
    }
}

/// The next place that is neither blank nor in a comment. A comment runs from
/// `//` to the end of its line.
pub open spec fn skip(src: Seq<u8>, p: Pos) -> Pos
    decreases src.len() - p.at,
{
    if p.at >= src.len() {
        p
    } else if is_blank(src[p.at as int]) {
        skip(src, step(src, p))
    } else if src[p.at as int] == 47u8 && byte_at(src, p.at + 1) == Some(47u8) {
        proof {
            line_end_advances(src, p);
        }
        skip(src, line_end(src, p))
    } else {
        p
    }
}

/// The end of the run of identifier bytes at `p`.
pub open spec fn ident_end(src: Seq<u8>, p: Pos) -> Pos
    decreases src.len() - p.at,
{
    if p.at >= src.len() || !in_ident(src[p.at as int]) {
        p
    } else {
        ident_end(src, step(src, p))
    }
}

/// The end of the run of digits at `p`.
pub open spec fn digits_end(src: Seq<u8>, p: Pos) -> Pos
    decreases src.len() - p.at,
{
    if p.at >= src.len() || !is_digit(src[p.at as int]) {
        p
    } else {
        digits_end(src, step(src, p))
    }
}

/// The next double quote at or after `p`, or the end of the source.
pub open spec fn quote_at(src: Seq<u8>, p: Pos) -> Pos
    decreases src.len() - p.at,
{
    if p.at >= src.len() || src[p.at as int] == 34u8 {
        p
    } else {
        quote_at(src, step(src, p))
    }
}

/// The characters of the ASCII bytes from `a` to `b`.
pub open spec fn ascii_text(src: Seq<u8>, a: nat, b: nat) -> Seq<char> {
    Seq::new((b - a) as nat, |i: int| src[a + i] as char)
}

/// The number that the decimal digits from `a` to `b` write.
pub open spec fn digits_value(src: Seq<u8>, a: nat, b: nat) -> nat
    decreases b,
{
    if b <= a {
        0
    } else {
        10 * digits_value(src, a, (b - 1) as nat) + (src[b - 1] - 48) as nat
    }
}

/// The token of a word: a keyword or an identifier.
pub open spec fn word(text: Seq<char>) -> Tok {
    if text == "interface"@ {
        Tok::Interface
    } else if text == "struct"@ {
        Tok::Struct
    } else if text == "enum"@ {
        Tok::Enum
    } else if text == "opaque"@ {
        Tok::Opaque
    } else if text == "fn"@ {
        Tok::Fn
    } else if text == "mut"@ {
        Tok::Mut
    } else if text == "include"@ {
        Tok::Include
    } else {
        Tok::Ident(text)
    }
}

/// The token that one byte makes by itself.
pub open spec fn punctuation(b: u8) -> Option<Tok> {
    if b == 123u8 {
        Some(Tok::LBrace)
    } else if b == 125u8 {
        Some(Tok::RBrace)
    } else if b == 40u8 {
        Some(Tok::LParen)
    } else if b == 41u8 {
        Some(Tok::RParen)
    } else if b == 91u8 {
        Some(Tok::LBracket)
    } else if b == 93u8 {
        Some(Tok::RBracket)
    } else if b == 60u8 {
        Some(Tok::Lt)
    } else if b == 62u8 {
        Some(Tok::Gt)
    } else if b == 38u8 {
        Some(Tok::Amp)
    } else if b == 44u8 {
        Some(Tok::Comma)
    } else if b == 58u8 {
        Some(Tok::Colon)
    } else if b == 59u8 {
        Some(Tok::Semicolon)
    } else {
        None
    }
}

/// The error at `p` with message `msg`.
pub open spec fn error_at(p: Pos, msg: Seq<char>) -> ErrorModel {
    ErrorModel { line: p.line, col: p.col, msg }
}

/// The token at `p`, a place that is not skipped, and the place after it.
pub open spec fn token_at(src: Seq<u8>, p: Pos) -> Result<(Tok, Pos), ErrorModel> {
    if p.at >= src.len() {
        Ok((Tok::Eof, p))
    } else {
        let b = src[p.at as int];
        if punctuation(b) is Some {
            Ok((punctuation(b)->Some_0, step(src, p)))
        } else if b == 45u8 && byte_at(src, p.at + 1) == Some(62u8) {
            Ok((Tok::Arrow, step(src, step(src, p))))
        } else if starts_ident(b) {
            let q = ident_end(src, p);
            Ok((word(ascii_text(src, p.at, q.at)), q))
        } else if is_digit(b) {
            let q = digits_end(src, p);
            let n = digits_value(src, p.at, q.at);
            if n <= usize::MAX {
                Ok((Tok::Int(n as usize), q))
            } else {
                Err(error_at(p, "integer literal out of range"@))
            }
        } else if b == 34u8 {
            let open = step(src, p);
            let q = quote_at(src, open);
            if q.at >= src.len() {
                Err(error_at(p, "unterminated string literal"@))
            } else {
                Ok(
                    (
                        Tok::Str(decode_utf8(src.subrange(open.at as int, q.at as int))),
                        step(src, q),
                    ),
                )
            }
        } else {
            Err(error_at(p, "unexpected character `"@.push(b as char) + "`"@))
        }
    }
}

/// The next token at or after `p`, and the place after it.
pub open spec fn next_at(src: Seq<u8>, p: Pos) -> Result<(TokenModel, Pos), ErrorModel> {
    let q = skip(src, p);
    match token_at(src, q) {
        Ok((kind, after)) => Ok((TokenModel { kind, line: q.line, col: q.col }, after)),
        Err(e) => Err(e),
    }
}

/// The end of a line is in the source, and past `p` unless `p` is there already.
pub proof fn line_end_advances(src: Seq<u8>, p: Pos)
    requires
        p.at <= src.len(),
    ensures
        p.at <= line_end(src, p).at <= src.len(),
        p.at < src.len() && src[p.at as int] != 10u8 ==> p.at < line_end(src, p).at,
    decreases src.len() - p.at,
{
    if p.at < src.len() && src[p.at as int] != 10u8 {
        line_end_advances(src, step(src, p));
    }
}

proof fn lemma_skip(src: Seq<u8>, p: Pos)
    requires
        p.at <= src.len(),
    ensures
        p.at <= skip(src, p).at <= src.len(),
    decreases src.len() - p.at,
{
    if p.at < src.len() {
        if is_blank(src[p.at as int]) {
            lemma_skip(src, step(src, p));
        } else if src[p.at as int] == 47u8 && byte_at(src, p.at + 1) == Some(47u8) {
            line_end_advances(src, p);
            lemma_skip(src, line_end(src, p));
        }
    }
}

proof fn lemma_ident_end(src: Seq<u8>, p: Pos)
    requires
        p.at <= src.len(),
    ensures
        p.at <= ident_end(src, p).at <= src.len(),
        p.at < src.len() && in_ident(src[p.at as int]) ==> p.at < ident_end(src, p).at,
    decreases src.len() - p.at,
{
    if p.at < src.len() && in_ident(src[p.at as int]) {
        lemma_ident_end(src, step(src, p));
    }
}

proof fn lemma_digits_end(src: Seq<u8>, p: Pos)
    requires
        p.at <= src.len(),
    ensures
        p.at <= digits_end(src, p).at <= src.len(),
        p.at < src.len() && is_digit(src[p.at as int]) ==> p.at < digits_end(src, p).at,
    decreases src.len() - p.at,
{
    if p.at < src.len() && is_digit(src[p.at as int]) {
        lemma_digits_end(src, step(src, p));
    }
}

proof fn lemma_quote_at(src: Seq<u8>, p: Pos)
    requires
        p.at <= src.len(),
    ensures
        p.at <= quote_at(src, p).at <= src.len(),
        quote_at(src, p).at < src.len() ==> src[quote_at(src, p).at as int] == 34u8,
    decreases src.len() - p.at,
{
    if p.at < src.len() && src[p.at as int] != 34u8 {
        lemma_quote_at(src, step(src, p));
    }
}

/// Every token but the end of the file takes at least one byte.
pub proof fn tokens_take_bytes(src: Seq<u8>, p: Pos)
    requires
        p.at <= src.len(),
    ensures
        next_at(src, p) matches Ok((t, q)) ==> p.at <= q.at <= src.len() && (t.kind !is Eof
            ==> p.at < q.at),
{
    lemma_skip(src, p);
    let q = skip(src, p);
    if q.at < src.len() {
        lemma_ident_end(src, q);
        lemma_digits_end(src, q);
        lemma_quote_at(src, step(src, q));
    }
}

/// The tokens from `p` on, after those of `acc`, up to and with the end of the
/// file; or the first error.
pub open spec fn tokens_from(src: Seq<u8>, p: Pos, acc: Seq<TokenModel>) -> Result<
    Seq<TokenModel>,
    ErrorModel,
>
    decreases src.len() - p.at,
{
    match next_at(src, p) {
        Err(e) => Err(e),
        Ok((t, q)) => if t.kind is Eof || p.at > src.len() {
            Ok(acc.push(t))
        } else {
            proof {
                tokens_take_bytes(src, p);
            }
            tokens_from(src, q, acc.push(t))
        },
    }
}

/// The tokens of a source.
pub open spec fn tokens(src: Seq<u8>) -> Result<Seq<TokenModel>, ErrorModel> {
    tokens_from(src, Pos { at: 0, line: 1, col: 1 }, Seq::empty())
}

/// A token list that the tokenizer gives: it ends with the end of the file, and
/// nowhere else does that token occur.
pub open spec fn ends_with_eof(ts: Seq<TokenModel>) -> bool {
    &&& ts.len() > 0
    &&& ts.last().kind is Eof
    &&& forall|i: int| 0 <= i < ts.len() - 1 ==> (#[trigger] ts[i]).kind !is Eof
}

proof fn lemma_tokens_from_eof(src: Seq<u8>, p: Pos, acc: Seq<TokenModel>)
    requires
        p.at <= src.len(),
        forall|i: int| 0 <= i < acc.len() ==> (#[trigger] acc[i]).kind !is Eof,
    ensures
        tokens_from(src, p, acc) matches Ok(ts) ==> ends_with_eof(ts),
    decreases src.len() - p.at,
{
    tokens_take_bytes(src, p);
    if let Ok((t, q)) = next_at(src, p) {
        if t.kind !is Eof {
            lemma_tokens_from_eof(src, q, acc.push(t));
        }
    }
}

/// The tokens of a source end with the end of the file, which occurs once.
pub proof fn tokens_end_with_eof(src: Seq<u8>)
    ensures
        tokens(src) matches Ok(ts) ==> ends_with_eof(ts),
{
    lemma_tokens_from_eof(src, Pos { at: 0, line: 1, col: 1 }, Seq::empty());
}

/// Whether a text is an identifier: letters, digits and underscores, with no
/// digit first, and no keyword.
pub open spec fn is_name(s: Seq<char>) -> bool {
    &&& s.len() > 0
    &&& starts_ident(s[0] as u8)
    &&& forall|i: int| 0 <= i < s.len() ==> (#[trigger] s[i]) as u32 <= 127 && in_ident(s[i] as u8)
    &&& word(s) == Tok::Ident(s)
}

/// Whether the identifiers of a token list are identifiers.
pub open spec fn names_are_names(ts: Seq<TokenModel>) -> bool {
    forall|i: int| 0 <= i < ts.len() ==> ((#[trigger] ts[i]).kind matches Tok::Ident(s) ==> is_name(s))
}

proof fn lemma_ident_bytes(src: Seq<u8>, p: Pos)
    requires
        p.at <= src.len(),
    ensures
        forall|i: int| p.at <= i < ident_end(src, p).at ==> in_ident(#[trigger] src[i]),
    decreases src.len() - p.at,
{
    if p.at < src.len() && in_ident(src[p.at as int]) {
        lemma_ident_bytes(src, step(src, p));
    }
}

proof fn lemma_tokens_from_names(src: Seq<u8>, p: Pos, acc: Seq<TokenModel>)
    requires
        p.at <= src.len(),
        names_are_names(acc),
    ensures
        tokens_from(src, p, acc) matches Ok(ts) ==> names_are_names(ts),
    decreases src.len() - p.at,
{
    tokens_take_bytes(src, p);
    lemma_skip(src, p);
    if let Ok((t, r)) = next_at(src, p) {
        if let Tok::Ident(s) = t.kind {
            let q = skip(src, p);
            lemma_ident_end(src, q);
            lemma_ident_bytes(src, q);
            let text = ascii_text(src, q.at, ident_end(src, q).at);
            assert(s == text);
            assert forall|i: int| 0 <= i < s.len() implies (#[trigger] s[i]) as u32 <= 127 && in_ident(
                s[i] as u8,
            ) by {
                assert(in_ident(src[q.at + i]));
            }
            assert(s[0] == src[q.at as int] as char);
        }
        if t.kind !is Eof {
            lemma_tokens_from_names(src, r, acc.push(t));
        }
    }
}

/// The identifiers that the tokenizer gives are identifiers.
pub proof fn tokens_hold_names(src: Seq<u8>)
    ensures
        tokens(src) matches Ok(ts) ==> names_are_names(ts),
{
    lemma_tokens_from_names(src, Pos { at: 0, line: 1, col: 1 }, Seq::empty());
}

// ---------------------------------------------------------------------------
// The tokenizer
// ---------------------------------------------------------------------------

proof fn lemma_between_quotes_is_utf8(src: Seq<u8>, a: int, b: int)
    requires
        valid_utf8(src),
        0 < a <= b < src.len(),
        src[a - 1] == 34u8,
        src[b] == 34u8,
    ensures
        valid_utf8(src.subrange(a, b)),
{
    let n = src.len() as int;
    is_char_boundary_iff_not_is_continuation_byte(src, a - 1);
    valid_utf8_split(src, a - 1);
    let s1 = src.subrange(a - 1, n);
    assert(pop_first_scalar(s1) =~= src.subrange(a, n));
    let s2 = src.subrange(a, n);
    assert(valid_utf8(s2));
    is_char_boundary_iff_not_is_continuation_byte(s2, b - a);
    valid_utf8_split(s2, b - a);
    assert(s2.subrange(0, b - a) =~= src.subrange(a, b));
}

fn ident_byte(b: u8) -> (r: bool)
    ensures
        r == in_ident(b),
{
    (97 <= b && b <= 122) || (65 <= b && b <= 90) || b == 95 || (48 <= b && b <= 57)
}

/// A tokenizer, on its way through a source.
pub struct Lexer<'a> {
    src: &'a [u8],
    pos: usize,
    line: usize,
    col: usize,
}

impl<'a> Lexer<'a> {
    /// The bytes of the source.
    pub closed spec fn source(&self) -> Seq<u8> {
        self.src@
    }

    /// The place that the tokenizer has reached.
    pub closed spec fn place(&self) -> Pos {
        Pos { at: self.pos as nat, line: self.line, col: self.col }
    }

    /// The source is UTF-8 and the place lies in it.
    pub closed spec fn wf(&self) -> bool {
        &&& self.pos <= self.src@.len()
        &&& valid_utf8(self.src@)
    }

    /// A tokenizer at the start of `src`.
    pub fn new(src: &'a str) -> (r: Self)
        ensures
            r.wf(),
            r.source() == src.spec_bytes(),
            r.place() == (Pos { at: 0, line: 1, col: 1 }),
    {
        broadcast use encode_utf8_valid_utf8;

        Lexer { src: src.as_bytes(), pos: 0, line: 1, col: 1 }
    }

    /// All tokens from here to the end of the file, or the first error.
    pub fn tokenize(self) -> (r: Result<Vec<Token>, LexError>)
        requires
            self.wf(),
        ensures
            match tokens_from(self.source(), self.place(), Seq::empty()) {
                Ok(ts) => r is Ok && token_models(r->Ok_0@) == ts,
                Err(e) => r is Err && r->Err_0@ == e,
            },
    {
        let ghost src = self.source();
        let ghost start = self.place();
        let mut lexer = self;
        let mut out: Vec<Token> = Vec::new();
        assert(token_models(out@) =~= Seq::empty());
        let mut done = false;
        while !done
            invariant
                lexer.wf(),
                lexer.source() == src,
                src == self.source(),
                start == self.place(),
                !done ==> tokens_from(src, start, Seq::empty()) == tokens_from(
                    src,
                    lexer.place(),
                    token_models(out@),
                ),
                done ==> tokens_from(src, start, Seq::empty()) == Ok::<
                    Seq<TokenModel>,
                    ErrorModel,
                >(token_models(out@)),
            decreases
                    (if done {
                        0
                    } else {
                        1 + src.len() - lexer.place().at
                    }),
        {
            let ghost before = token_models(out@);
            proof {
                tokens_take_bytes(src, lexer.place());
            }
            match lexer.next_token() {
                Err(e) => {
                    return Err(e);
                },
                Ok(token) => {
                    done = matches!(token.kind, TokenKind::Eof);
                    let ghost t = token@;
                    out.push(token);
                    assert(token_models(out@) =~= before.push(t));
                },
            }
        }
        Ok(out)
    }

    fn peek(&self) -> (r: Option<u8>)
        ensures
            r == byte_at(self.source(), self.place().at),
    {
        if self.pos < self.src.len() {
            Some(self.src[self.pos])
        } else {
            None
        }
    }

    fn peek_next(&self) -> (r: Option<u8>)
        requires
            self.place().at < self.source().len(),
        ensures
            r == byte_at(self.source(), self.place().at + 1),
    {
        if self.src.len() - self.pos > 1 {
            Some(self.src[self.pos + 1])
        } else {
            None
        }
    }

    fn advance(&mut self)
        requires
            old(self).wf(),
            old(self).place().at < old(self).source().len(),
        ensures
            final(self).wf(),
            final(self).source() == old(self).source(),
            final(self).place() == step(old(self).source(), old(self).place()),
    {
        let b = self.src[self.pos];
        self.pos = self.pos + 1;
        if b == 10 {
            if self.line < usize::MAX {
                self.line = self.line + 1;
            }
            self.col = 1;
        } else {
            if self.col < usize::MAX {
                self.col = self.col + 1;
            }
        }
    }

    fn skip_whitespace_and_comments(&mut self)
        requires
            old(self).wf(),
        ensures
            final(self).wf(),
            final(self).source() == old(self).source(),
            final(self).place() == skip(old(self).source(), old(self).place()),
    {
        let ghost src = self.source();
        let ghost start = self.place();
        loop
            invariant
                self.wf(),
                self.source() == src,
                skip(src, start) == skip(src, self.place()),
            ensures
                self.wf(),
                self.source() == src,
                self.place() == skip(src, start),
            decreases src.len() - self.place().at,
        {
            match self.peek() {
                Some(b) => {
                    if b == 32 || b == 9 || b == 10 || b == 13 {
                        self.advance();
                    } else if b == 47 && self.peek_next() == Some(47u8) {
                        let ghost here = self.place();
                        proof {
                            line_end_advances(src, here);
                        }
                        self.skip_line();
                    } else {
                        break;
                    }
                },
                None => {
                    break;
                },
            }
        }
    }

    fn skip_line(&mut self)
        requires
            old(self).wf(),
        ensures
            final(self).wf(),
            final(self).source() == old(self).source(),
            final(self).place() == line_end(old(self).source(), old(self).place()),
    {
        let ghost src = self.source();
        let ghost start = self.place();
        while self.pos < self.src.len() && self.src[self.pos] != 10
            invariant
                self.wf(),
                self.source() == src,
                line_end(src, start) == line_end(src, self.place()),
            decreases src.len() - self.place().at,
        {
            self.advance();
        }
    }

    fn next_token(&mut self) -> (r: Result<Token, LexError>)
        requires
            old(self).wf(),
        ensures
            final(self).wf(),
            final(self).source() == old(self).source(),
            match next_at(old(self).source(), old(self).place()) {
                Ok((t, q)) => r is Ok && r->Ok_0@ == t && final(self).place() == q,
                Err(e) => r is Err && r->Err_0@ == e,
            },
    {
        let ghost src = self.source();
        self.skip_whitespace_and_comments();
        let line: usize = self.line;
        let col: usize = self.col;
        let ghost here = self.place();
        let b: u8 = match self.peek() {
            Some(b) => b,
            None => {
                return Ok(Token { kind: TokenKind::Eof, line, col });
            },
        };
        let single = match b {
            123 => Some(TokenKind::LBrace),
            125 => Some(TokenKind::RBrace),
            40 => Some(TokenKind::LParen),
            41 => Some(TokenKind::RParen),
            91 => Some(TokenKind::LBracket),
            93 => Some(TokenKind::RBracket),
            60 => Some(TokenKind::Lt),
            62 => Some(TokenKind::Gt),
            38 => Some(TokenKind::Amp),
            44 => Some(TokenKind::Comma),
            58 => Some(TokenKind::Colon),
            59 => Some(TokenKind::Semicolon),
            _ => None,
        };
        if let Some(kind) = single {
            self.advance();
            return Ok(Token { kind, line, col });
        }
        if b == 45 && self.peek_next() == Some(62u8) {
            self.advance();
            self.advance();
            return Ok(Token { kind: TokenKind::Arrow, line, col });
        }
        if (97 <= b && b <= 122) || (65 <= b && b <= 90) || b == 95 {
            let kind = self.read_ident();
            return Ok(Token { kind, line, col });
        }
        if 48 <= b && b <= 57 {
            return match self.read_int() {
                Some(n) => Ok(Token { kind: TokenKind::Int(n), line, col }),
                None => Err(
                    LexError { line, col, msg: String::from_str("integer literal out of range") },
                ),
            };
        }
        if b == 34 {
            return match self.read_str() {
                Some(s) => Ok(Token { kind: TokenKind::Str(s), line, col }),
                None => Err(
                    LexError { line, col, msg: String::from_str("unterminated string literal") },
                ),
            };
        }
        let mut msg = String::from_str("unexpected character `");
        msg.push(b as char);
        Err(LexError { line, col, msg: msg.concat("`") })
    }

    fn read_ident(&mut self) -> (r: TokenKind)
        requires
            old(self).wf(),
        ensures
            final(self).wf(),
            final(self).source() == old(self).source(),
            final(self).place() == ident_end(old(self).source(), old(self).place()),
            r@ == word(
                ascii_text(old(self).source(), old(self).place().at, final(self).place().at),
            ),
    {
        let ghost src = self.source();
        let ghost start = self.place();
        let mut text = String::new();
        assert(text@ =~= ascii_text(src, start.at, start.at));
        while self.pos < self.src.len() && ident_byte(self.src[self.pos])
            invariant
                self.wf(),
                self.source() == src,
                start.at <= self.place().at,
                text@ == ascii_text(src, start.at, self.place().at),
                ident_end(src, start) == ident_end(src, self.place()),
            decreases src.len() - self.place().at,
        {
            let b: u8 = self.src[self.pos];
            text.push(b as char);
            self.advance();
            assert(text@ =~= ascii_text(src, start.at, self.place().at));
        }
        if same(text.as_str(), "interface") {
            TokenKind::Interface
        } else if same(text.as_str(), "struct") {
            TokenKind::Struct
        } else if same(text.as_str(), "enum") {
            TokenKind::Enum
        } else if same(text.as_str(), "opaque") {
            TokenKind::Opaque
        } else if same(text.as_str(), "fn") {
            TokenKind::Fn
        } else if same(text.as_str(), "mut") {
            TokenKind::Mut
        } else if same(text.as_str(), "include") {
            TokenKind::Include
        } else {
            TokenKind::Ident(text)
        }
    }

    fn read_int(&mut self) -> (r: Option<usize>)
        requires
            old(self).wf(),
        ensures
            final(self).wf(),
            final(self).source() == old(self).source(),
            final(self).place() == digits_end(old(self).source(), old(self).place()),
            match r {
                Some(n) => n == digits_value(
                    old(self).source(),
                    old(self).place().at,
                    final(self).place().at,
                ),
                None => digits_value(
                    old(self).source(),
                    old(self).place().at,
                    final(self).place().at,
                ) > usize::MAX,
            },
    {
        let ghost src = self.source();
        let ghost start = self.place();
        let mut value: Option<usize> = Some(0);
        while self.pos < self.src.len() && 48 <= self.src[self.pos] && self.src[self.pos] <= 57
            invariant
                self.wf(),
                self.source() == src,
                start.at <= self.place().at,
                digits_end(src, start) == digits_end(src, self.place()),
                match value {
                    Some(n) => n == digits_value(src, start.at, self.place().at),
                    None => digits_value(src, start.at, self.place().at) > usize::MAX,
                },
            decreases src.len() - self.place().at,
        {
            let d: usize = (self.src[self.pos] - 48) as usize;
            value = match value {
                None => None,
                Some(n) => match n.checked_mul(10) {
                    None => None,
                    Some(m) => m.checked_add(d),
                },
            };
            self.advance();
        }
        value
    }

    fn read_str(&mut self) -> (r: Option<String>)
        requires
            old(self).wf(),
            old(self).place().at < old(self).source().len(),
            old(self).source()[old(self).place().at as int] == 34u8,
        ensures
            final(self).wf(),
            final(self).source() == old(self).source(),
            ({
                let src = old(self).source();
                let open = step(src, old(self).place());
                let q = quote_at(src, open);
                if q.at >= src.len() {
                    r is None
                } else {
                    &&& r is Some
                    &&& r->Some_0@ == decode_utf8(src.subrange(open.at as int, q.at as int))
                    &&& final(self).place() == step(src, q)
                }
            }),
    {
        let ghost src = self.source();
        self.advance();
        let ghost open = self.place();
        let start: usize = self.pos;
        while self.pos < self.src.len() && self.src[self.pos] != 34
            invariant
                self.wf(),
                self.source() == src,
                start == open.at,
                start <= self.pos,
                quote_at(src, open) == quote_at(src, self.place()),
            decreases src.len() - self.place().at,
        {
            self.advance();
        }
        if self.pos >= self.src.len() {
            return None;
        }
        let end: usize = self.pos;
        let content = vstd::slice::slice_subrange(self.src, start, end);
        proof {
            lemma_between_quotes_is_utf8(src, start as int, end as int);
        }
        let text = utf8_str(content);
        self.advance();
        proof {
            encode_utf8_decode_utf8(text->Some_0@);
        }
        match text {
            Some(s) => Some(String::from_str(s)),
            None => None,
        }
    }
}

/// The models of a list of tokens.
pub open spec fn token_models(ts: Seq<Token>) -> Seq<TokenModel> {
    Seq::new(ts.len(), |i: int| ts[i]@)
}

} // verus!
