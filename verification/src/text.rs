//! Text: decimal and hexadecimal numerals, padding, letter case.
//!
//! Everything that the library writes is built by concatenation, so that the
//! text a function returns is, term for term, the text its contract states.
use vstd::prelude::*;
use vstd::string::{StrSliceExecFns, StringExecFns};

verus! {

// ---------------------------------------------------------------------------
// Numerals
// ---------------------------------------------------------------------------

/// The numeral of one hexadecimal (or decimal) digit, in lower case.
pub open spec fn digit(d: int) -> char {
    if d == 0 {
        '0'
    } else if d == 1 {
        '1'
    } else if d == 2 {
        '2'
    } else if d == 3 {
        '3'
    } else if d == 4 {
        '4'
    } else if d == 5 {
        '5'
    } else if d == 6 {
        '6'
    } else if d == 7 {
        '7'
    } else if d == 8 {
        '8'
    } else if d == 9 {
        '9'
    } else if d == 10 {
        'a'
    } else if d == 11 {
        'b'
    } else if d == 12 {
        'c'
    } else if d == 13 {
        'd'
    } else if d == 14 {
        'e'
    } else {
        'f'
    }
}

/// The decimal numeral of `n`, without leading zeros.
pub open spec fn dec(n: nat) -> Seq<char>
    decreases n,
{
    if n < 10 {
        seq![digit(n as int)]
    } else {
        dec(n / 10).push(digit((n % 10) as int))
    }
}

/// The hexadecimal numeral of `n` in exactly `width` digits.
pub open spec fn hex(n: nat, width: nat) -> Seq<char>
    decreases width,
{
    if width == 0 {
        Seq::empty()
    } else {
        hex(n / 16, (width - 1) as nat).push(digit((n % 16) as int))
    }
}

/// The hexadecimal numeral of `n` in sixteen digits.
pub open spec fn hex16(n: u64) -> Seq<char> {
    hex(n as nat, 16)
}

/// `String::push` appends one character.
pub assume_specification[ std::string::String::push ](s: &mut std::string::String, c: char)
    ensures
        final(s)@ == old(s)@.push(c),
;

/// The numeral of one digit.
pub fn digit_char(d: u64) -> (c: char)
    requires
        d < 16,
    ensures
        c == digit(d as int),
{
    if d == 0 {
        '0'
    } else if d == 1 {
        '1'
    } else if d == 2 {
        '2'
    } else if d == 3 {
        '3'
    } else if d == 4 {
        '4'
    } else if d == 5 {
        '5'
    } else if d == 6 {
        '6'
    } else if d == 7 {
        '7'
    } else if d == 8 {
        '8'
    } else if d == 9 {
        '9'
    } else if d == 10 {
        'a'
    } else if d == 11 {
        'b'
    } else if d == 12 {
        'c'
    } else if d == 13 {
        'd'
    } else if d == 14 {
        'e'
    } else {
        'f'
    }
}

/// Writes `n` in decimal.
pub fn decimal(n: u64) -> (s: String)
    ensures
        s@ == dec(n as nat),
    decreases n,
{
    if n < 10 {
        let mut s = String::new();
        s.push(digit_char(n));
        s
    } else {
        let mut s = decimal(n / 10);
        s.push(digit_char(n % 10));
        s
    }
}

fn hex_digits(n: u64, width: u64) -> (s: String)
    ensures
        s@ == hex(n as nat, width as nat),
    decreases width,
{
    if width == 0 {
        String::new()
    } else {
        let mut s = hex_digits(n / 16, width - 1);
        s.push(digit_char(n % 16));
        s
    }
}

/// Writes `n` in sixteen hexadecimal digits.
pub fn hexadecimal(n: u64) -> (s: String)
    ensures
        s@ == hex16(n),
{
    hex_digits(n, 16)
}

/// The hexadecimal numeral of `n`, in lower case and without leading zeros.
pub open spec fn short_hex(n: nat) -> Seq<char>
    decreases n,
{
    if n < 16 {
        seq![digit(n as int)]
    } else {
        short_hex(n / 16).push(digit((n % 16) as int))
    }
}

/// Writes `n` in hexadecimal, without leading zeros.
pub fn short_hexadecimal(n: u64) -> (s: String)
    ensures
        s@ == short_hex(n as nat),
    decreases n,
{
    let mut s = if n < 16 {
        String::new()
    } else {
        short_hexadecimal(n / 16)
    };
    s.push(digit_char(n % 16));
    assert(s@ =~= short_hex(n as nat));
    s
}

/// A copy of `b`.
pub(crate) fn copy_bytes(b: &[u8]) -> (r: Vec<u8>)
    ensures
        r@ == b@,
{
    let mut out: Vec<u8> = Vec::new();
    let mut i: usize = 0;
    while i < b.len()
        invariant
            i <= b.len(),
            out@ == b@.take(i as int),
        decreases b.len() - i,
    {
        out.push(b[i]);
        i = i + 1;
        assert(out@ =~= b@.take(i as int));
    }
    assert(out@ =~= b@);
    out
}

/// `std::str::from_utf8`: the text that the bytes encode, if they are UTF-8.
#[verifier::external_body]
pub(crate) fn utf8_str(bytes: &[u8]) -> (r: Option<&str>)
    ensures
        match r {
            Some(s) => vstd::utf8::encode_utf8(s@) == bytes@,
            None => !vstd::utf8::valid_utf8(bytes@),
        },
{
    std::str::from_utf8(bytes).ok()
}

/// What `String::from_utf8_lossy` makes of bytes that are not UTF-8.
pub uninterp spec fn lossy(bytes: Seq<u8>) -> Seq<char>;

/// The text that bytes encode, with replacements where they are not UTF-8.
pub open spec fn decoded_text(bytes: Seq<u8>) -> Seq<char> {
    if vstd::utf8::valid_utf8(bytes) {
        vstd::utf8::decode_utf8(bytes)
    } else {
        lossy(bytes)
    }
}

/// `String::from_utf8_lossy`: bytes that are UTF-8 give the text that they
/// encode; of other bytes it is only said that the result depends on them alone.
#[verifier::external_body]
pub(crate) fn lossy_text(bytes: &[u8]) -> (r: String)
    ensures
        vstd::utf8::valid_utf8(bytes@) ==> r@ == vstd::utf8::decode_utf8(bytes@),
        !vstd::utf8::valid_utf8(bytes@) ==> r@ == lossy(bytes@),
{
    String::from_utf8_lossy(bytes).into_owned()
}

/// `==` of two `str`: whether they hold the same characters.
#[verifier::external_body]
pub(crate) fn same(a: &str, b: &str) -> (r: bool)
    ensures
        r == (a@ == b@),
{
    a == b
}

// ---------------------------------------------------------------------------
// Letter case
// ---------------------------------------------------------------------------

/// `c` in upper case, for an ASCII character.
pub open spec fn ascii_upper(c: char) -> char {
    if 'a' <= c && c <= 'z' {
        ((c as u32) - 32) as char
    } else {
        c
    }
}

/// `c` in lower case, for an ASCII character.
pub open spec fn ascii_lower(c: char) -> char {
    if 'A' <= c && c <= 'Z' {
        ((c as u32) + 32) as char
    } else {
        c
    }
}

/// Whether every character of `s` is ASCII.
pub open spec fn all_ascii(s: Seq<char>) -> bool {
    forall|i: int| 0 <= i < s.len() ==> (#[trigger] s[i] as u32) < 128
}

/// What `str::to_uppercase` makes of a text that is not ASCII.
pub uninterp spec fn uppercase(s: Seq<char>) -> Seq<char>;

/// What `str::to_lowercase` makes of a text that is not ASCII.
pub uninterp spec fn lowercase(s: Seq<char>) -> Seq<char>;

/// What `char::to_uppercase` makes of a character that is not ASCII.
pub uninterp spec fn uppercase_char(c: char) -> Seq<char>;

/// A text in upper case.
pub open spec fn upper_text(s: Seq<char>) -> Seq<char> {
    if all_ascii(s) {
        s.map_values(|c: char| ascii_upper(c))
    } else {
        uppercase(s)
    }
}

/// A text in lower case.
pub open spec fn lower_text(s: Seq<char>) -> Seq<char> {
    if all_ascii(s) {
        s.map_values(|c: char| ascii_lower(c))
    } else {
        lowercase(s)
    }
}

/// A character in upper case; it may become several.
pub open spec fn upper_char(c: char) -> Seq<char> {
    if (c as u32) < 128 {
        seq![ascii_upper(c)]
    } else {
        uppercase_char(c)
    }
}

/// `str::to_uppercase`: an ASCII text is changed letter by letter; of any other
/// text it is only said that the result depends on it alone.
#[verifier::external_body]
pub(crate) fn to_upper(s: &str) -> (r: String)
    ensures
        all_ascii(s@) ==> r@ == s@.map_values(|c: char| ascii_upper(c)),
        !all_ascii(s@) ==> r@ == uppercase(s@),
{
    s.to_uppercase()
}

/// `str::to_lowercase`: an ASCII text is changed letter by letter; of any other
/// text it is only said that the result depends on it alone.
#[verifier::external_body]
pub(crate) fn to_lower(s: &str) -> (r: String)
    ensures
        all_ascii(s@) ==> r@ == s@.map_values(|c: char| ascii_lower(c)),
        !all_ascii(s@) ==> r@ == lowercase(s@),
{
    s.to_lowercase()
}

/// `char::to_uppercase`: an ASCII character gives one character; of any other it
/// is only said that the result depends on it alone.
#[verifier::external_body]
pub(crate) fn char_to_upper(c: char) -> (r: String)
    ensures
        (c as u32) < 128 ==> r@ == seq![ascii_upper(c)],
        (c as u32) >= 128 ==> r@ == uppercase_char(c),
{
    c.to_uppercase().to_string()
}

/// Whether `s` is made of ASCII letters, digits and underscores.
pub open spec fn is_word(s: Seq<char>) -> bool {
    forall|i: int| 0 <= i < s.len() ==> is_word_char(#[trigger] s[i])
}

/// Whether `c` is an ASCII letter or digit, or an underscore.
pub open spec fn is_word_char(c: char) -> bool {
    ('a' <= c && c <= 'z') || ('A' <= c && c <= 'Z') || ('0' <= c && c <= '9') || c == '_'
}

/// What the `Debug` format makes of a text that is no word.
pub uninterp spec fn debug_quoted(s: Seq<char>) -> Seq<char>;

/// A text in double quotes, with escapes where it needs them.
pub open spec fn quoted(s: Seq<char>) -> Seq<char> {
    if is_word(s) {
        "\""@ + s + "\""@
    } else {
        debug_quoted(s)
    }
}

/// The `Debug` format of `str`: the text in double quotes. Letters, digits and
/// underscores stand in it as they are; of a text with other characters it is
/// only said that the result depends on it alone.
#[verifier::external_body]
pub(crate) fn quote(s: &str) -> (r: String)
    ensures
        is_word(s@) ==> r@ == "\""@ + s@ + "\""@,
        !is_word(s@) ==> r@ == debug_quoted(s@),
{
    format!("{:?}", s)
}

// ---------------------------------------------------------------------------
// Signed numerals
// ---------------------------------------------------------------------------

/// The decimal numeral of `n`, with a minus sign if it is negative.
pub open spec fn signed_dec(n: int) -> Seq<char> {
    if n < 0 {
        "-"@ + dec((-n) as nat)
    } else {
        dec(n as nat)
    }
}

/// Writes `n` in decimal.
pub fn signed_decimal(n: i64) -> (s: String)
    ensures
        s@ == signed_dec(n as int),
{
    if n >= 0 {
        decimal(n as u64)
    } else {
        let m: u64 = (-((n + 1) as i128) + 1) as u64;
        String::from_str("-").concat(decimal(m).as_str())
    }
}

// ---------------------------------------------------------------------------
// Cutting
// ---------------------------------------------------------------------------

/// Whether a character is white: one of the 25 that Unicode gives the property
/// White_Space. Of the ASCII characters these are the blank and tab, newline,
/// vertical tab, form feed and carriage return.
pub open spec fn is_blank(c: char) -> bool {
    let n = c as u32;
    ||| 0x9 <= n <= 0xD
    ||| n == 0x20
    ||| n == 0x85
    ||| n == 0xA0
    ||| n == 0x1680
    ||| 0x2000 <= n <= 0x200A
    ||| 0x2028 <= n <= 0x2029
    ||| n == 0x202F
    ||| n == 0x205F
    ||| n == 0x3000
}

/// `char::is_whitespace`: whether the character has the property White_Space.
#[verifier::external_body]
pub(crate) fn is_white(c: char) -> (r: bool)
    ensures
        r == is_blank(c),
{
    c.is_whitespace()
}

/// `s` without white characters at its start.
pub open spec fn trim_start(s: Seq<char>) -> Seq<char>
    decreases s.len(),
{
    if s.len() > 0 && is_blank(s[0]) {
        trim_start(s.drop_first())
    } else {
        s
    }
}

/// `s` without white characters at its end.
pub open spec fn trim_end(s: Seq<char>) -> Seq<char>
    decreases s.len(),
{
    if s.len() > 0 && is_blank(s.last()) {
        trim_end(s.drop_last())
    } else {
        s
    }
}

/// `s` without white characters at either end.
pub open spec fn trimmed(s: Seq<char>) -> Seq<char> {
    trim_end(trim_start(s))
}

/// Removes white characters from both ends.
pub fn trim(s: &str) -> (r: String)
    ensures
        r@ == trimmed(s@),
{
    let n: usize = s.unicode_len();
    let mut a: usize = 0;
    assert(s@.skip(0) =~= s@);
    while a < n && is_white(s.get_char(a))
        invariant
            a <= n,
            n == s@.len(),
            trim_start(s@) == trim_start(s@.skip(a as int)),
        decreases n - a,
    {
        assert(s@.skip(a as int).drop_first() =~= s@.skip(a + 1));
        a = a + 1;
    }
    let mut b: usize = n;
    assert(s@.subrange(a as int, b as int) =~= s@.skip(a as int));
    while a < b && is_white(s.get_char(b - 1))
        invariant
            a <= b <= n,
            n == s@.len(),
            trimmed(s@) == trim_end(s@.subrange(a as int, b as int)),
        decreases b - a,
    {
        assert(s@.subrange(a as int, b as int).drop_last() =~= s@.subrange(a as int, b - 1));
        b = b - 1;
    }
    String::from_str(s.substring_char(a, b))
}

/// `s` without the character `q` at either end.
pub open spec fn unquoted(s: Seq<char>, q: char) -> Seq<char>
    decreases s.len(),
{
    if s.len() > 0 && s[0] == q {
        unquoted(s.drop_first(), q)
    } else if s.len() > 0 && s.last() == q {
        unquoted(s.drop_last(), q)
    } else {
        s
    }
}

/// Removes the character `q` from both ends.
pub fn trim_char(s: &str, q: char) -> (r: String)
    ensures
        r@ == unquoted(s@, q),
{
    let n: usize = s.unicode_len();
    let mut a: usize = 0;
    let mut b: usize = n;
    assert(s@.subrange(0, n as int) =~= s@);
    while a < b && (s.get_char(a) == q || s.get_char(b - 1) == q)
        invariant
            a <= b <= n,
            n == s@.len(),
            unquoted(s@, q) == unquoted(s@.subrange(a as int, b as int), q),
        decreases b - a,
    {
        let ghost cur = s@.subrange(a as int, b as int);
        assert(cur.drop_first() =~= s@.subrange(a + 1, b as int));
        assert(cur.drop_last() =~= s@.subrange(a as int, b - 1));
        if s.get_char(a) == q {
            a = a + 1;
        } else {
            b = b - 1;
        }
    }
    String::from_str(s.substring_char(a, b))
}

/// The parts of `s` between commas, each trimmed, from place `i` on: the part
/// at hand starts at `start`, `open` parentheses are open, and `acc` holds the
/// parts before. Commas in parentheses do not count if `nested`.
pub open spec fn parts_from(
    s: Seq<char>,
    nested: bool,
    i: nat,
    start: nat,
    open: nat,
    acc: Seq<Seq<char>>,
) -> Seq<Seq<char>>
    decreases s.len() - i,
{
    if i >= s.len() {
        acc.push(trimmed(s.subrange(start as int, s.len() as int)))
    } else if s[i as int] == ',' && (open == 0 || !nested) {
        parts_from(
            s,
            nested,
            i + 1,
            i + 1,
            open,
            acc.push(trimmed(s.subrange(start as int, i as int))),
        )
    } else if s[i as int] == '(' {
        parts_from(s, nested, i + 1, start, open + 1, acc)
    } else if s[i as int] == ')' && open > 0 {
        parts_from(s, nested, i + 1, start, (open - 1) as nat, acc)
    } else {
        parts_from(s, nested, i + 1, start, open, acc)
    }
}

/// The parts of `s` between commas, each trimmed.
pub open spec fn parts(s: Seq<char>, nested: bool) -> Seq<Seq<char>> {
    parts_from(s, nested, 0, 0, 0, Seq::empty())
}

/// The characters of a list of strings.
pub open spec fn strings_model(v: Seq<String>) -> Seq<Seq<char>> {
    Seq::new(v.len(), |i: int| v[i]@)
}

/// Cuts `s` at its commas and trims the parts.
pub fn split_commas(s: &str, nested: bool) -> (r: Vec<String>)
    ensures
        strings_model(r@) == parts(s@, nested),
{
    let n: usize = s.unicode_len();
    let mut acc: Vec<String> = Vec::new();
    assert(strings_model(acc@) =~= Seq::empty());
    let mut start: usize = 0;
    let mut open: usize = 0;
    let mut i: usize = 0;
    while i < n
        invariant
            start <= i <= n,
            open <= i,
            n == s@.len(),
            parts(s@, nested) == parts_from(
                s@,
                nested,
                i as nat,
                start as nat,
                open as nat,
                strings_model(acc@),
            ),
        decreases n - i,
    {
        let ghost before = strings_model(acc@);
        let c = s.get_char(i);
        if c == ',' && (open == 0 || !nested) {
            let part = trim(s.substring_char(start, i));
            let ghost pm = part@;
            acc.push(part);
            assert(strings_model(acc@) =~= before.push(pm));
            start = i + 1;
        } else if c == '(' {
            open = open + 1;
        } else if c == ')' && open > 0 {
            open = open - 1;
        }
        i = i + 1;
    }
    let ghost before = strings_model(acc@);
    let part = trim(s.substring_char(start, n));
    let ghost pm = part@;
    acc.push(part);
    assert(strings_model(acc@) =~= before.push(pm));
    acc
}

/// `s` without the character `c`.
pub open spec fn without_char(s: Seq<char>, c: char) -> Seq<char> {
    s.filter(|x: char| x != c)
}

/// Removes every `c` from `s`.
pub fn remove_char(s: &str, c: char) -> (r: String)
    ensures
        r@ == without_char(s@, c),
{
    let n: usize = s.unicode_len();
    let mut out = String::new();
    let mut i: usize = 0;
    proof {
        reveal(Seq::filter);
        assert(out@ =~= without_char(s@.take(0), c));
    }
    while i < n
        invariant
            i <= n,
            n == s@.len(),
            out@ == without_char(s@.take(i as int), c),
        decreases n - i,
    {
        proof {
            reveal(Seq::filter);
            assert(s@.take(i + 1).drop_last() =~= s@.take(i as int));
        }
        let x = s.get_char(i);
        if x != c {
            out.push(x);
        }
        i = i + 1;
    }
    assert(s@.take(n as int) =~= s@);
    out
}

} // verus!
