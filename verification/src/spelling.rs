//! What texts spell, wherever their tokens stand.
use vstd::prelude::*;
use vstd::utf8::decode_utf8;

use crate::ast::idl_hash;
use crate::grammar::{agree, layout_does_not_matter, same_kinds};
use crate::lexer::{
    ascii_text, byte_at, digits_end, digits_value, ident_end, in_ident, is_blank, is_digit,
    line_end, line_end_advances, next_at, punctuation, quote_at, skip, starts_ident, step, token_at,
    tokens, tokens_from, tokens_take_bytes, word, Pos, Tok, TokenModel,
};
use crate::parser::parse_model;

verus! {

// ---------------------------------------------------------------------------
// Tokens without their places
// ---------------------------------------------------------------------------

/// The number of identifier bytes that `s` starts with.
pub open spec fn ident_len(s: Seq<u8>) -> nat
    decreases s.len(),
{
    if s.len() == 0 || !in_ident(s[0]) {
        0
    } else {
        1 + ident_len(s.skip(1))
    }
}

/// The number of digits that `s` starts with.
pub open spec fn digits_len(s: Seq<u8>) -> nat
    decreases s.len(),
{
    if s.len() == 0 || !is_digit(s[0]) {
        0
    } else {
        1 + digits_len(s.skip(1))
    }
}

/// The number of bytes of `s` before the first that is `b`.
pub open spec fn len_before(s: Seq<u8>, b: u8) -> nat
    decreases s.len(),
{
    if s.len() == 0 || s[0] == b {
        0
    } else {
        1 + len_before(s.skip(1), b)
    }
}

/// Whether `s` starts with a comment.
pub open spec fn starts_comment(s: Seq<u8>) -> bool {
    s.len() > 1 && s[0] == 47u8 && s[1] == 47u8
}

/// The token that `s` starts with, and its length.
pub open spec fn first_token(s: Seq<u8>) -> Option<(Tok, nat)> {
    let b = s[0];
    if punctuation(b) is Some {
        Some((punctuation(b)->Some_0, 1))
    } else if b == 45u8 && s.len() > 1 && s[1] == 62u8 {
        Some((Tok::Arrow, 2))
    } else if starts_ident(b) {
        Some((word(ascii_text(s, 0, ident_len(s))), ident_len(s)))
    } else if is_digit(b) {
        if digits_value(s, 0, digits_len(s)) <= usize::MAX {
            Some((Tok::Int(digits_value(s, 0, digits_len(s)) as usize), digits_len(s)))
        } else {
            None
        }
    } else if b == 34u8 {
        let n = len_before(s.skip(1), 34u8);
        if n + 1 >= s.len() {
            None
        } else {
            Some((Tok::Str(decode_utf8(s.subrange(1, n as int + 1))), n + 2))
        }
    } else {
        None
    }
}

/// Such runs are no longer than the text, and not empty where they start.
pub proof fn runs_are_within(s: Seq<u8>, b: u8)
    ensures
        ident_len(s) <= s.len(),
        digits_len(s) <= s.len(),
        len_before(s, b) <= s.len(),
        s.len() > 0 && in_ident(s[0]) ==> ident_len(s) > 0,
        s.len() > 0 && is_digit(s[0]) ==> digits_len(s) > 0,
        s.len() > 0 && s[0] != b ==> len_before(s, b) > 0,
    decreases s.len(),
{
    if s.len() > 0 {
        runs_are_within(s.skip(1), b);
    }
}

/// The kinds of the tokens of a source, without the end of the file, if it has
/// no error.
pub open spec fn kinds(s: Seq<u8>) -> Option<Seq<Tok>>
    decreases s.len(),
{
    if s.len() == 0 {
        Some(Seq::empty())
    } else if is_blank(s[0]) {
        kinds(s.skip(1))
    } else if starts_comment(s) {
        proof {
            runs_are_within(s, 10u8);
        }
        kinds(s.skip(len_before(s, 10u8) as int))
    } else {
        match first_token(s) {
            None => None,
            Some((k, n)) => {
                proof {
                    runs_are_within(s, 10u8);
                    runs_are_within(s.skip(1), 34u8);
                }
                match kinds(s.skip(n as int)) {
                    None => None,
                    Some(ks) => Some(seq![k] + ks),
                }
            },
        }
    }
}

/// The kinds of a list of tokens.
pub open spec fn kinds_of(ts: Seq<TokenModel>) -> Seq<Tok> {
    ts.map_values(|t: TokenModel| t.kind)
}

proof fn lemma_ends(src: Seq<u8>, p: Pos)
    requires
        p.at <= src.len(),
    ensures
        ident_end(src, p).at == p.at + ident_len(src.skip(p.at as int)),
        digits_end(src, p).at == p.at + digits_len(src.skip(p.at as int)),
        line_end(src, p).at == p.at + len_before(src.skip(p.at as int), 10u8),
        quote_at(src, p).at == p.at + len_before(src.skip(p.at as int), 34u8),
    decreases src.len() - p.at,
{
    if p.at < src.len() {
        lemma_ends(src, step(src, p));
        assert(src.skip(p.at as int).skip(1) =~= src.skip(p.at as int + 1));
    }
}

proof fn lemma_value(src: Seq<u8>, a: nat, n: nat)
    requires
        a + n <= src.len(),
    ensures
        digits_value(src, a, a + n) == digits_value(src.skip(a as int), 0, n),
    decreases n,
{
    if n > 0 {
        lemma_value(src, a, (n - 1) as nat);
    }
}

proof fn lemma_token(src: Seq<u8>, p: Pos)
    requires
        p.at < src.len(),
    ensures
        match token_at(src, p) {
            Ok((k, q)) => p.at < q.at <= src.len() && k !is Eof && first_token(
                src.skip(p.at as int),
            ) == Some((k, (q.at - p.at) as nat)),
            Err(_) => first_token(src.skip(p.at as int)) is None,
        },
{
    let s = src.skip(p.at as int);
    lemma_ends(src, p);
    lemma_ends(src, step(src, p));
    runs_are_within(s, 10u8);
    lemma_value(src, p.at, digits_len(s));
    assert(ascii_text(src, p.at, p.at + ident_len(s)) =~= ascii_text(s, 0, ident_len(s)));
    assert(s.skip(1) =~= src.skip(p.at as int + 1));
    let n = len_before(s.skip(1), 34u8);
    runs_are_within(s.skip(1), 34u8);
    if n + 1 < s.len() {
        assert(s.subrange(1, n as int + 1) =~= src.subrange(p.at as int + 1, p.at as int + 1 + n));
    }
}

proof fn lemma_skipped(src: Seq<u8>, p: Pos)
    requires
        p.at <= src.len(),
    ensures
        p.at <= skip(src, p).at <= src.len(),
        kinds(src.skip(p.at as int)) == kinds(src.skip(skip(src, p).at as int)),
        skip(src, p).at < src.len() ==> {
            let s = src.skip(skip(src, p).at as int);
            !is_blank(s[0]) && !starts_comment(s)
        },
    decreases src.len() - p.at,
{
    let s = src.skip(p.at as int);
    if p.at < src.len() {
        if is_blank(src[p.at as int]) {
            assert(s.skip(1) =~= src.skip(p.at as int + 1));
            lemma_skipped(src, step(src, p));
        } else if src[p.at as int] == 47u8 && byte_at(src, p.at + 1) == Some(47u8) {
            line_end_advances(src, p);
            lemma_ends(src, p);
            assert(s.skip(len_before(s, 10u8) as int) =~= src.skip(line_end(src, p).at as int));
            lemma_skipped(src, line_end(src, p));
        }
    }
}

proof fn lemma_kinds_from(src: Seq<u8>, p: Pos, acc: Seq<TokenModel>)
    requires
        p.at <= src.len(),
    ensures
        match tokens_from(src, p, acc) {
            Ok(ts) => kinds(src.skip(p.at as int)) is Some && kinds_of(ts) == kinds_of(acc) + kinds(
                src.skip(p.at as int),
            )->Some_0 + seq![Tok::Eof],
            Err(_) => kinds(src.skip(p.at as int)) is None,
        },
    decreases src.len() - p.at,
{
    lemma_skipped(src, p);
    tokens_take_bytes(src, p);
    let q = skip(src, p);
    if q.at >= src.len() {
        let t = next_at(src, p)->Ok_0.0;
        assert(src.skip(q.at as int) =~= Seq::empty());
        assert(kinds_of(acc.push(t)) =~= kinds_of(acc) + Seq::<Tok>::empty() + seq![Tok::Eof]);
    } else {
        lemma_token(src, q);
        if let Ok((t, r)) = next_at(src, p) {
            assert(src[q.at as int] == src.skip(q.at as int)[0]);
            assert(t.kind !is Eof);
            lemma_kinds_from(src, r, acc.push(t));
            assert(src.skip(q.at as int).skip(r.at - q.at) =~= src.skip(r.at as int));
            assert(kinds_of(acc.push(t)) =~= kinds_of(acc).push(t.kind));
            if let Some(ks) = kinds(src.skip(r.at as int)) {
                assert(kinds_of(acc).push(t.kind) + ks + seq![Tok::Eof] =~= kinds_of(acc) + (
                seq![t.kind] + ks) + seq![Tok::Eof]);
            }
        }
    }
}

/// The tokens of a source are of the kinds that its bytes spell, and then the
/// file ends.
pub proof fn tokens_are_of_these_kinds(src: Seq<u8>)
    ensures
        tokens(src) is Ok <==> kinds(src) is Some,
        tokens(src) matches Ok(ts) ==> kinds_of(ts) == kinds(src)->Some_0.push(Tok::Eof),
{
    lemma_kinds_from(src, Pos { at: 0, line: 1, col: 1 }, Seq::empty());
    assert(src.skip(0) =~= src);
    if let Ok(ts) = tokens(src) {
        assert(kinds_of(Seq::<TokenModel>::empty()) + kinds(src)->Some_0 + seq![Tok::Eof]
            =~= kinds(src)->Some_0.push(Tok::Eof));
    }
}

// ---------------------------------------------------------------------------
// Texts side by side
// ---------------------------------------------------------------------------

/// Whether `s` ends in a comment that no line end closes.
pub open spec fn open_comment(s: Seq<u8>) -> bool
    decreases s.len(),
{
    if s.len() == 0 {
        false
    } else if is_blank(s[0]) {
        open_comment(s.skip(1))
    } else if starts_comment(s) {
        proof {
            runs_are_within(s, 10u8);
        }
        len_before(s, 10u8) == s.len() || open_comment(s.skip(len_before(s, 10u8) as int))
    } else {
        match first_token(s) {
            None => false,
            Some((_, n)) => {
                proof {
                    runs_are_within(s, 10u8);
                    runs_are_within(s.skip(1), 34u8);
                }
                open_comment(s.skip(n as int))
            },
        }
    }
}

/// Whether a word or a number would run on from `a` into `b`.
pub open spec fn runs_on(a: Seq<u8>, b: Seq<u8>) -> bool {
    a.len() > 0 && b.len() > 0 && in_ident(a.last()) && in_ident(b[0])
}

/// The tokens of `x`, and then those of `y`, if neither has an error.
pub open spec fn both(x: Option<Seq<Tok>>, y: Option<Seq<Tok>>) -> Option<Seq<Tok>> {
    match (x, y) {
        (Some(a), Some(b)) => Some(a + b),
        _ => None,
    }
}

proof fn lemma_lens_join(a: Seq<u8>, b: Seq<u8>, c: u8)
    ensures
        ident_len(a) < a.len() || !runs_on(a, b) ==> ident_len(a + b) == ident_len(a)
            || a.len() == 0,
        digits_len(a) < a.len() || !runs_on(a, b) ==> digits_len(a + b) == digits_len(a)
            || a.len() == 0,
        len_before(a, c) < a.len() ==> len_before(a + b, c) == len_before(a, c),
        len_before(a, c) == a.len() ==> len_before(a + b, c) == a.len() + len_before(b, c),
    decreases a.len(),
{
    let s = a + b;
    if a.len() > 0 {
        assert(s[0] == a[0]);
        assert(s.skip(1) =~= a.skip(1) + b);
        runs_are_within(a, c);
        lemma_lens_join(a.skip(1), b, c);
        if a.len() == 1 {
            assert(a.skip(1) + b =~= b);
            assert(a.skip(1) =~= Seq::empty());
            assert(ident_len(a.skip(1)) == 0 && digits_len(a.skip(1)) == 0);
            if b.len() > 0 && !in_ident(b[0]) {
                assert(ident_len(b) == 0 && digits_len(b) == 0);
            }
            if b.len() == 0 {
                assert(s =~= a);
            }
        } else {
            assert(a.skip(1).last() == a.last());
        }
    } else {
        assert(s =~= b);
    }
}

proof fn lemma_value_join(a: Seq<u8>, b: Seq<u8>, n: nat)
    requires
        n <= a.len(),
    ensures
        digits_value(a + b, 0, n) == digits_value(a, 0, n),
    decreases n,
{
    if n > 0 {
        lemma_value_join(a, b, (n - 1) as nat);
    }
}

proof fn lemma_first_join(a: Seq<u8>, b: Seq<u8>)
    requires
        a.len() > 0,
        !runs_on(a, b),
        first_token(a) is Some,
    ensures
        first_token(a + b) == first_token(a),
{
    let s = a + b;
    assert(s[0] == a[0]);
    runs_are_within(a, 10u8);
    lemma_lens_join(a, b, 10u8);
    lemma_value_join(a, b, digits_len(a));
    assert(ascii_text(s, 0, ident_len(a)) =~= ascii_text(a, 0, ident_len(a)));
    assert(s.skip(1) =~= a.skip(1) + b);
    lemma_lens_join(a.skip(1), b, 34u8);
    runs_are_within(a.skip(1), 34u8);
    let n = len_before(a.skip(1), 34u8);
    if n + 1 < a.len() {
        assert(s.subrange(1, n as int + 1) =~= a.subrange(1, n as int + 1));
    }
}

/// Two texts side by side spell the tokens of the one and then those of the
/// other, unless a word runs on from the one into the other or the second
/// starts in a comment of the first.
pub proof fn separate_texts_join(a: Seq<u8>, b: Seq<u8>)
    requires
        kinds(a) is Some,
        !runs_on(a, b),
        !open_comment(a) || b.len() == 0 || b[0] == 10u8,
    ensures
        kinds(a + b) == both(kinds(a), kinds(b)),
    decreases a.len(),
{
    let s = a + b;
    if a.len() == 0 {
        assert(s =~= b);
        if let Some(kb) = kinds(b) {
            assert(Seq::<Tok>::empty() + kb =~= kb);
        }
    } else {
        assert(s[0] == a[0]);
        runs_are_within(a, 10u8);
        if is_blank(a[0]) {
            assert(s.skip(1) =~= a.skip(1) + b);
            lemma_tail(a, b, 1);
            separate_texts_join(a.skip(1), b);
        } else if starts_comment(a) {
            let n = len_before(a, 10u8);
            lemma_lens_join(a, b, 10u8);
            assert(starts_comment(s));
            if n < a.len() {
                assert(s.skip(n as int) =~= a.skip(n as int) + b);
                lemma_tail(a, b, n as int);
                separate_texts_join(a.skip(n as int), b);
            } else {
                assert(a.skip(n as int) =~= Seq::empty());
                assert(kinds(a) == Some(Seq::<Tok>::empty()));
                if b.len() == 0 {
                    assert(s =~= a);
                    assert(Seq::<Tok>::empty() + Seq::<Tok>::empty() =~= Seq::<Tok>::empty());
                } else {
                    assert(s.skip(n as int) =~= b);
                    if let Some(kb) = kinds(b) {
                        assert(Seq::<Tok>::empty() + kb =~= kb);
                    }
                }
            }
        } else {
            let (k, n) = first_token(a)->Some_0;
            lemma_first_join(a, b);
            runs_are_within(a.skip(1), 34u8);
            assert(!starts_comment(s)) by {
                if a[0] == 47u8 {
                    assert(first_token(a) is None);
                }
            }
            assert(s.skip(n as int) =~= a.skip(n as int) + b);
            lemma_tail(a, b, n as int);
            separate_texts_join(a.skip(n as int), b);
            let ka = kinds(a.skip(n as int))->Some_0;
            if let Some(kb) = kinds(b) {
                assert(seq![k] + (ka + kb) =~= (seq![k] + ka) + kb);
            }
        }
    }
}

proof fn lemma_tail(a: Seq<u8>, b: Seq<u8>, n: int)
    requires
        0 <= n <= a.len(),
        !runs_on(a, b),
    ensures
        !runs_on(a.skip(n), b),
{
    if n < a.len() {
        assert(a.skip(n).last() == a.last());
    }
}

/// Whether `g` is made of blanks and of comments with their line ends.
pub open spec fn is_gap(g: Seq<u8>) -> bool
    decreases g.len(),
{
    if g.len() == 0 {
        true
    } else if is_blank(g[0]) {
        is_gap(g.skip(1))
    } else {
        proof {
            runs_are_within(g, 10u8);
        }
        &&& starts_comment(g)
        &&& len_before(g, 10u8) < g.len()
        &&& is_gap(g.skip(len_before(g, 10u8) as int))
    }
}

proof fn lemma_gap(g: Seq<u8>)
    requires
        is_gap(g),
    ensures
        kinds(g) == Some(Seq::<Tok>::empty()),
        !open_comment(g),
    decreases g.len(),
{
    if g.len() > 0 {
        runs_are_within(g, 10u8);
        if is_blank(g[0]) {
            lemma_gap(g.skip(1));
        } else {
            lemma_gap(g.skip(len_before(g, 10u8) as int));
        }
    }
}

proof fn lemma_around_gap(a: Seq<u8>, g: Seq<u8>, b: Seq<u8>)
    requires
        kinds(a) is Some,
        is_gap(g),
        g.len() > 0,
        !open_comment(a) || g[0] == 10u8,
        g.last() == 10u8 || !runs_on(g, b),
    ensures
        kinds(a + g + b) == both(kinds(a), kinds(b)),
{
    lemma_gap(g);
    assert(!in_ident(g[0]));
    assert(!runs_on(a, g + b));
    separate_texts_join(g, b);
    if let Some(kb) = kinds(b) {
        assert(Seq::<Tok>::empty() + kb =~= kb);
    }
    assert(a + g + b =~= a + (g + b));
    separate_texts_join(a, g + b);
}

proof fn lemma_gap_end(g: Seq<u8>)
    requires
        is_gap(g),
        g.len() > 0,
    ensures
        is_blank(g.last()),
    decreases g.len(),
{
    runs_are_within(g, 10u8);
    let n: int = if is_blank(g[0]) {
        1
    } else {
        len_before(g, 10u8) as int
    };
    if n < g.len() {
        assert(g.skip(n).last() == g.last());
        lemma_gap_end(g.skip(n));
    }
}

/// Blanks and comments between tokens do not matter. Two texts with a gap
/// between them spell the tokens of the one and then those of the other,
/// whatever stands in the gap; a comment at the end of the first has to be
/// closed by a line end.
pub proof fn gaps_do_not_matter(a: Seq<u8>, g: Seq<u8>, h: Seq<u8>, b: Seq<u8>)
    requires
        kinds(a) is Some,
        is_gap(g) && g.len() > 0,
        is_gap(h) && h.len() > 0,
        open_comment(a) ==> g[0] == 10u8 && h[0] == 10u8,
    ensures
        kinds(a + g + b) == both(kinds(a), kinds(b)),
        tokens(a + g + b) is Ok <==> tokens(b) is Ok,
        tokens(a + g + b) is Ok <==> tokens(a + h + b) is Ok,
        tokens(a + g + b) is Ok ==> same_kinds(tokens(a + g + b)->Ok_0, tokens(a + h + b)->Ok_0),
        agree(parse_model(a + g + b), parse_model(a + h + b)),
        parse_model(a + g + b) matches Ok(iface) ==> idl_hash(iface) == idl_hash(
            parse_model(a + h + b)->Ok_0,
        ),
{
    lemma_gap_end(g);
    lemma_gap_end(h);
    lemma_around_gap(a, g, b);
    lemma_around_gap(a, h, b);
    tokens_are_of_these_kinds(b);
    tokens_are_of_these_kinds(a + g + b);
    tokens_are_of_these_kinds(a + h + b);
    if let Ok(ta) = tokens(a + g + b) {
        let tb = tokens(a + h + b)->Ok_0;
        lemma_same_kinds(ta, tb);
        layout_does_not_matter(a + g + b, a + h + b, ta, tb);
    }
}

/// Whether the place `k` in `s` stands before, after or between what `s` is
/// made of: blanks, comments and tokens.
pub open spec fn is_seam(s: Seq<u8>, k: nat) -> bool
    decreases s.len(),
{
    if k == 0 {
        true
    } else if s.len() == 0 {
        false
    } else if is_blank(s[0]) {
        is_seam(s.skip(1), (k - 1) as nat)
    } else if starts_comment(s) {
        let n = len_before(s, 10u8);
        proof {
            runs_are_within(s, 10u8);
        }
        n <= k && is_seam(s.skip(n as int), (k - n) as nat)
    } else {
        match first_token(s) {
            None => false,
            Some((_, n)) => {
                proof {
                    runs_are_within(s, 10u8);
                    runs_are_within(s.skip(1), 34u8);
                }
                n <= k && is_seam(s.skip(n as int), (k - n) as nat)
            },
        }
    }
}

/// `s` with `g` put in at the place `k`.
pub open spec fn put_in(s: Seq<u8>, k: nat, g: Seq<u8>) -> Seq<u8> {
    s.take(k as int) + g + s.skip(k as int)
}

/// `s` with each of `gaps` put in at its place of `cuts`, from the last to the
/// first.
pub open spec fn with_gaps(s: Seq<u8>, cuts: Seq<nat>, gaps: Seq<Seq<u8>>) -> Seq<u8>
    decreases cuts.len(),
{
    if cuts.len() == 0 {
        s
    } else {
        with_gaps(put_in(s, cuts.last(), gaps.last()), cuts.drop_last(), gaps.drop_last())
    }
}

proof fn lemma_seam_within(s: Seq<u8>, k: nat)
    requires
        is_seam(s, k),
    ensures
        k <= s.len(),
    decreases s.len(),
{
    if k > 0 {
        runs_are_within(s, 10u8);
        runs_are_within(s.skip(1), 34u8);
        if is_blank(s[0]) {
            lemma_seam_within(s.skip(1), (k - 1) as nat);
        } else if starts_comment(s) {
            let n = len_before(s, 10u8);
            lemma_seam_within(s.skip(n as int), (k - n) as nat);
        } else {
            let n = first_token(s)->Some_0.1;
            lemma_seam_within(s.skip(n as int), (k - n) as nat);
        }
    }
}

proof fn lemma_lens_agree(s: Seq<u8>, t: Seq<u8>, n: nat, c: u8)
    requires
        n <= s.len() && n <= t.len(),
        s.take(n as int) == t.take(n as int),
    ensures
        ident_len(s) == n && (t.len() == n || !in_ident(t[n as int])) ==> ident_len(t) == n,
        digits_len(s) == n && (t.len() == n || !is_digit(t[n as int])) ==> digits_len(t) == n,
        ident_len(s) == n && n < s.len() ==> !in_ident(s[n as int]),
        digits_len(s) == n && n < s.len() ==> !is_digit(s[n as int]),
        len_before(s, c) < n ==> len_before(t, c) == len_before(s, c),
    decreases n,
{
    if n > 0 {
        assert(s[0] == s.take(n as int)[0] && t[0] == t.take(n as int)[0]);
        assert(s.skip(1).take(n - 1) =~= s.take(n as int).skip(1));
        assert(t.skip(1).take(n - 1) =~= t.take(n as int).skip(1));
        lemma_lens_agree(s.skip(1), t.skip(1), (n - 1) as nat, c);
    }
}

proof fn lemma_first_agrees(s: Seq<u8>, t: Seq<u8>)
    requires
        s.len() > 0,
        first_token(s) matches Some((_, n)) && n <= t.len() && s.take(n as int) == t.take(n as int)
            && (n == t.len() || n < s.len() && s[n as int] == t[n as int] || !in_ident(
            t[n as int],
        )),
    ensures
        first_token(t) == first_token(s),
        t.len() > 0 && t[0] == s[0],
        0 < first_token(s)->Some_0.1 <= s.len(),
{
    let n = first_token(s)->Some_0.1;
    runs_are_within(s, 10u8);
    runs_are_within(s.skip(1), 34u8);
    assert forall|i: int| 0 <= i < n implies s[i] == t[i] by {
        assert(s[i] == s.take(n as int)[i] && t[i] == t.take(n as int)[i]);
    }
    lemma_lens_agree(s, t, n, 34u8);
    lemma_value_join(s.take(n as int), s.skip(n as int), n);
    lemma_value_join(t.take(n as int), t.skip(n as int), n);
    assert(s.take(n as int) + s.skip(n as int) =~= s);
    assert(t.take(n as int) + t.skip(n as int) =~= t);
    assert(ascii_text(s, 0, n) =~= ascii_text(t, 0, n));
    if s[0] == 34u8 {
        let m = len_before(s.skip(1), 34u8);
        assert(s.skip(1).take(n - 1) =~= s.take(n as int).skip(1));
        assert(t.skip(1).take(n - 1) =~= t.take(n as int).skip(1));
        lemma_lens_agree(s.skip(1), t.skip(1), (n - 1) as nat, 34u8);
        assert(s.subrange(1, m as int + 1) =~= t.subrange(1, m as int + 1));
    }
}

proof fn lemma_gap_first(g: Seq<u8>, b: Seq<u8>)
    requires
        is_gap(g),
    ensures
        kinds(g + b) == kinds(b),
{
    lemma_gap(g);
    if g.len() > 0 {
        lemma_gap_end(g);
        separate_texts_join(g, b);
        if let Some(kb) = kinds(b) {
            assert(Seq::<Tok>::empty() + kb =~= kb);
        }
    } else {
        assert(g + b =~= b);
    }
}

proof fn lemma_gap_line(g: Seq<u8>)
    requires
        is_gap(g),
    ensures
        is_gap(g.skip(len_before(g, 10u8) as int)),
    decreases g.len(),
{
    runs_are_within(g, 10u8);
    if g.len() == 0 || g[0] == 10u8 {
        assert(g.skip(0) =~= g);
    } else if is_blank(g[0]) {
        lemma_gap_line(g.skip(1));
        let n = len_before(g.skip(1), 10u8);
        runs_are_within(g.skip(1), 10u8);
        assert(g.skip(1).skip(n as int) =~= g.skip(n as int + 1));
    }
}

proof fn lemma_put_tail(s: Seq<u8>, k: nat, g: Seq<u8>, n: nat)
    requires
        n <= k <= s.len(),
    ensures
        put_in(s, k, g).skip(n as int) == put_in(s.skip(n as int), (k - n) as nat, g),
        put_in(s, k, g).take(n as int) == s.take(n as int),
        n < k ==> put_in(s, k, g)[n as int] == s[n as int],
        n == k && g.len() > 0 ==> put_in(s, k, g)[n as int] == g[0],
        put_in(s, k, g) == s.take(k as int) + (g + s.skip(k as int)),
{
    let t = put_in(s, k, g);
    assert(t.skip(n as int) =~= put_in(s.skip(n as int), (k - n) as nat, g));
    assert(t.take(n as int) =~= s.take(n as int));
    assert(t =~= s.take(k as int) + (g + s.skip(k as int)));
}

proof fn lemma_gap_start(g: Seq<u8>)
    requires
        is_gap(g),
        g.len() > 0,
    ensures
        !in_ident(g[0]),
{
}

proof fn lemma_comment_put(s: Seq<u8>, k: nat, g: Seq<u8>)
    requires
        starts_comment(s),
        len_before(s, 10u8) <= k <= s.len(),
    ensures
        starts_comment(put_in(s, k, g)),
        2 <= len_before(s, 10u8),
        len_before(s, 10u8) < k ==> len_before(put_in(s, k, g), 10u8) == len_before(s, 10u8),
        len_before(s, 10u8) == k ==> len_before(put_in(s, k, g), 10u8) == k + len_before(
            g + s.skip(k as int),
            10u8,
        ) && len_before(s.skip(k as int), 10u8) == 0,
{
    let a = s.take(k as int);
    let b = s.skip(k as int);
    reveal_with_fuel(len_before, 3);
    assert(s.skip(1)[0] == s[1]);
    lemma_put_tail(s, k, g, 0);
    assert(a + b =~= s);
    runs_are_within(a, 10u8);
    lemma_lens_join(a, b, 10u8);
    lemma_lens_join(a, g + b, 10u8);
    let t = put_in(s, k, g);
    assert(t[0] == s[0] && t[1] == s[1]);
}

/// A gap put in at a seam does not change the kinds of the tokens.
proof fn lemma_put_in(s: Seq<u8>, k: nat, g: Seq<u8>)
    requires
        is_seam(s, k),
        is_gap(g),
    ensures
        kinds(put_in(s, k, g)) == kinds(s),
    decreases s.len(),
{
    let t = put_in(s, k, g);
    lemma_seam_within(s, k);
    lemma_put_tail(s, k, g, 0);
    if g.len() == 0 {
        assert(t =~= s);
    } else if k == 0 {
        assert(t =~= g + s);
        lemma_gap_first(g, s);
    } else if is_blank(s[0]) {
        lemma_put_tail(s, k, g, 1);
        lemma_put_in(s.skip(1), (k - 1) as nat, g);
    } else if starts_comment(s) {
        let n = len_before(s, 10u8);
        lemma_comment_put(s, k, g);
        if n < k {
            lemma_put_tail(s, k, g, n);
            lemma_put_in(s.skip(n as int), (k - n) as nat, g);
        } else {
            let rest = s.skip(k as int);
            let m = len_before(g + rest, 10u8);
            assert(t[0] == s[0]);
            runs_are_within(g, 10u8);
            runs_are_within(g + rest, 10u8);
            lemma_lens_join(g, rest, 10u8);
            lemma_gap_line(g);
            let h = g.skip(len_before(g, 10u8) as int);
            assert(t.skip((k + m) as int) =~= h + rest);
            lemma_gap_first(h, rest);
        }
    } else {
        let n = first_token(s)->Some_0.1;
        lemma_gap_start(g);
        runs_are_within(s, 10u8);
        runs_are_within(s.skip(1), 34u8);
        lemma_put_tail(s, k, g, n);
        lemma_first_agrees(s, t);
        assert(!starts_comment(t)) by {
            if s[0] == 47u8 {
                assert(first_token(s) is None);
            }
        }
        lemma_put_in(s.skip(n as int), (k - n) as nat, g);
    }
}

proof fn lemma_seam_stays(s: Seq<u8>, j: nat, k: nat, g: Seq<u8>)
    requires
        is_seam(s, j),
        is_seam(s, k),
        j < k,
    ensures
        is_seam(put_in(s, k, g), j),
    decreases s.len(),
{
    let t = put_in(s, k, g);
    lemma_seam_within(s, k);
    lemma_put_tail(s, k, g, 0);
    if j > 0 {
        assert(t[0] == s[0]);
        runs_are_within(s, 10u8);
        runs_are_within(s.skip(1), 34u8);
        if is_blank(s[0]) {
            lemma_put_tail(s, k, g, 1);
            lemma_seam_stays(s.skip(1), (j - 1) as nat, (k - 1) as nat, g);
        } else if starts_comment(s) {
            let n = len_before(s, 10u8);
            lemma_comment_put(s, k, g);
            lemma_put_tail(s, k, g, n);
            lemma_seam_stays(s.skip(n as int), (j - n) as nat, (k - n) as nat, g);
        } else {
            let n = first_token(s)->Some_0.1;
            lemma_put_tail(s, k, g, n);
            lemma_first_agrees(s, t);
            assert(!starts_comment(t)) by {
                if s[0] == 47u8 {
                    assert(first_token(s) is None);
                }
            }
            lemma_seam_stays(s.skip(n as int), (j - n) as nat, (k - n) as nat, g);
        }
    }
}

proof fn lemma_with_gaps(s: Seq<u8>, cuts: Seq<nat>, gaps: Seq<Seq<u8>>)
    requires
        cuts.len() == gaps.len(),
        forall|i: int, j: int| 0 <= i < j < cuts.len() ==> cuts[i] < cuts[j],
        forall|i: int| 0 <= i < cuts.len() ==> is_seam(s, #[trigger] cuts[i]),
        forall|i: int| 0 <= i < gaps.len() ==> is_gap(#[trigger] gaps[i]),
    ensures
        kinds(with_gaps(s, cuts, gaps)) == kinds(s),
    decreases cuts.len(),
{
    if cuts.len() > 0 {
        let t = put_in(s, cuts.last(), gaps.last());
        lemma_put_in(s, cuts.last(), gaps.last());
        assert forall|i: int| 0 <= i < cuts.len() - 1 implies is_seam(
            t,
            #[trigger] cuts.drop_last()[i],
        ) by {
            lemma_seam_stays(s, cuts[i], cuts.last(), gaps.last());
        }
        lemma_with_gaps(t, cuts.drop_last(), gaps.drop_last());
    }
}

/// Blanks and comments may be put before, after and between the tokens of a
/// source, in any number of places, also where nothing stood: the tokens stay
/// of the same kinds, and the source spells the same interface, or fails, as it
/// did.
pub proof fn gaps_may_be_put_in(s: Seq<u8>, cuts: Seq<nat>, gaps: Seq<Seq<u8>>)
    requires
        cuts.len() == gaps.len(),
        forall|i: int, j: int| 0 <= i < j < cuts.len() ==> cuts[i] < cuts[j],
        forall|i: int| 0 <= i < cuts.len() ==> is_seam(s, #[trigger] cuts[i]),
        forall|i: int| 0 <= i < gaps.len() ==> is_gap(#[trigger] gaps[i]),
    ensures
        kinds(with_gaps(s, cuts, gaps)) == kinds(s),
        tokens(with_gaps(s, cuts, gaps)) is Ok <==> tokens(s) is Ok,
        tokens(s) matches Ok(ts) ==> same_kinds(ts, tokens(with_gaps(s, cuts, gaps))->Ok_0),
        agree(parse_model(s), parse_model(with_gaps(s, cuts, gaps))),
        parse_model(s) matches Ok(iface) ==> idl_hash(iface) == idl_hash(
            parse_model(with_gaps(s, cuts, gaps))->Ok_0,
        ),
{
    let t = with_gaps(s, cuts, gaps);
    lemma_with_gaps(s, cuts, gaps);
    tokens_are_of_these_kinds(s);
    tokens_are_of_these_kinds(t);
    if let Ok(ts) = tokens(s) {
        let tt = tokens(t)->Ok_0;
        lemma_same_kinds(ts, tt);
        layout_does_not_matter(s, t, ts, tt);
    }
}

proof fn lemma_same_kinds(a: Seq<TokenModel>, b: Seq<TokenModel>)
    requires
        kinds_of(a) == kinds_of(b),
    ensures
        same_kinds(a, b),
{
    assert(kinds_of(a).len() == a.len());
    assert(kinds_of(b).len() == b.len());
    assert forall|i: int| 0 <= i < a.len() implies (#[trigger] a[i]).kind == b[i].kind by {
        assert(kinds_of(a)[i] == a[i].kind);
        assert(kinds_of(b)[i] == b[i].kind);
    }
}

} // verus!
