//! How often a text stands in another.
use vstd::prelude::*;

use crate::ast::Ty;

verus! {

/// Whether `s` does not hold `c`.
pub open spec fn lacks(s: Seq<char>, c: char) -> bool {
    forall|i: int| 0 <= i < s.len() ==> #[trigger] s[i] != c
}

/// Whether no name in a type holds `c`.
pub open spec fn names_lack(ft: Ty, c: char) -> bool
    decreases ft, 0nat,
{
    match ft {
        Ty::Named(name) => lacks(name, c),
        Ty::Vec(t) => names_lack(*t, c),
        Ty::Option(t) => names_lack(*t, c),
        Ty::DSlice(t) => names_lack(*t, c),
        Ty::DVec(t) => names_lack(*t, c),
        Ty::DOption(t) => names_lack(*t, c),
        Ty::Ref(t) => names_lack(*t, c),
        Ty::RefMut(t) => names_lack(*t, c),
        Ty::Array(t, _) => names_lack(*t, c),
        Ty::Tuple(ts) => all_names_lack(ts, ts.len(), c),
        _ => true,
    }
}

/// Whether no name in the first `n` of `ts` holds `c`.
pub open spec fn all_names_lack(ts: Seq<Ty>, n: nat, c: char) -> bool
    decreases ts, n,
{
    n == 0 || n > ts.len() || (names_lack(ts[n - 1], c) && all_names_lack(ts, (n - 1) as nat, c))
}

/// Whether `p` stands in `s` at the place `i`.
pub open spec fn stands_at(p: Seq<char>, s: Seq<char>, i: int) -> bool {
    0 <= i && i + p.len() <= s.len() && s.subrange(i, i + p.len()) == p
}

/// The number of places before `n` at which `p` stands in `s`.
pub open spec fn count_before(p: Seq<char>, s: Seq<char>, n: nat) -> nat
    decreases n,
{
    if n == 0 {
        0
    } else if stands_at(p, s, n - 1) {
        count_before(p, s, (n - 1) as nat) + 1
    } else {
        count_before(p, s, (n - 1) as nat)
    }
}

/// The number of places at which `p` stands in `s`.
pub open spec fn occurrences(p: Seq<char>, s: Seq<char>) -> nat {
    count_before(p, s, s.len())
}

/// What stands at a place stands there character by character.
pub(crate) proof fn lemma_stands(p: Seq<char>, s: Seq<char>, i: int)
    ensures
        stands_at(p, s, i) <==> 0 <= i && i + p.len() <= s.len() && (forall|j: int|
            0 <= j < p.len() ==> s[i + j] == #[trigger] p[j]),
{
    if 0 <= i && i + p.len() <= s.len() {
        let t = s.subrange(i, i + p.len());
        if t == p {
            assert forall|j: int| 0 <= j < p.len() implies s[i + j] == #[trigger] p[j] by {
                assert(t[j] == s[i + j]);
            }
        }
        if forall|j: int| 0 <= j < p.len() ==> s[i + j] == #[trigger] p[j] {
            assert(t =~= p);
        }
    }
}

/// Where nothing is counted, nothing stands.
pub(crate) proof fn lemma_none(p: Seq<char>, s: Seq<char>, n: nat, i: int)
    requires
        count_before(p, s, n) == 0,
        0 <= i < n,
    ensures
        !stands_at(p, s, i),
    decreases n,
{
    if i < n - 1 {
        lemma_none(p, s, (n - 1) as nat, i);
    }
}

/// Where nothing stands, nothing is counted.
pub(crate) proof fn lemma_zero(p: Seq<char>, s: Seq<char>, n: nat)
    requires
        forall|i: int| 0 <= i < n ==> !stands_at(p, s, i),
    ensures
        count_before(p, s, n) == 0,
    decreases n,
{
    if n > 0 {
        lemma_zero(p, s, (n - 1) as nat);
    }
}

proof fn lemma_same_places(p: Seq<char>, s: Seq<char>, t: Seq<char>, n: nat)
    requires
        forall|i: int| 0 <= i < n ==> stands_at(p, s, i) == stands_at(p, t, i),
    ensures
        count_before(p, s, n) == count_before(p, t, n),
    decreases n,
{
    if n > 0 {
        lemma_same_places(p, s, t, (n - 1) as nat);
    }
}

proof fn lemma_later_places(p: Seq<char>, x: Seq<char>, y: Seq<char>, n: nat)
    requires
        p.len() > 0,
        forall|i: int| #[trigger]
            stands_at(p, x + y, i) <==> stands_at(p, x, i) || stands_at(p, y, i - x.len()),
    ensures
        count_before(p, x + y, x.len() + n) == count_before(p, x, x.len()) + count_before(p, y, n),
    decreases n,
{
    if n > 0 {
        lemma_later_places(p, x, y, (n - 1) as nat);
        let i = x.len() + n - 1;
        assert(stands_at(p, x + y, i) <==> stands_at(p, x, i) || stands_at(p, y, i - x.len()));
    } else {
        assert forall|i: int| 0 <= i < x.len() implies stands_at(p, x + y, i) == stands_at(
            p,
            x,
            i,
        ) by {
            assert(stands_at(p, x + y, i) <==> stands_at(p, x, i) || stands_at(p, y, i - x.len()));
        }
        lemma_same_places(p, x + y, x, x.len());
    }
}

/// If `p` stands in two texts side by side only where it stands in one of them,
/// its numbers add up.
pub(crate) proof fn lemma_add_up(p: Seq<char>, x: Seq<char>, y: Seq<char>)
    requires
        p.len() > 0,
        forall|i: int| #[trigger]
            stands_at(p, x + y, i) <==> stands_at(p, x, i) || stands_at(p, y, i - x.len()),
    ensures
        occurrences(p, x + y) == occurrences(p, x) + occurrences(p, y),
{
    lemma_later_places(p, x, y, y.len());
}

// ---------------------------------------------------------------------------
// Lines
// ---------------------------------------------------------------------------

/// Whether a line of `s` starts at the place `i`.
pub open spec fn starts_line(s: Seq<char>, i: int) -> bool {
    i == 0 || s[i - 1] == '\n'
}

/// The number of lines of `s` that start before the place `n`, and with `p`.
pub open spec fn lines_before(p: Seq<char>, s: Seq<char>, n: nat) -> nat
    decreases n,
{
    if n == 0 {
        0
    } else if starts_line(s, n - 1) && stands_at(p, s, n - 1) {
        lines_before(p, s, (n - 1) as nat) + 1
    } else {
        lines_before(p, s, (n - 1) as nat)
    }
}

/// The number of lines of `s` that start with `p`.
pub open spec fn lines_with(p: Seq<char>, s: Seq<char>) -> nat {
    lines_before(p, s, s.len())
}

/// Whether the last line of `s` is closed.
pub open spec fn whole_lines(s: Seq<char>) -> bool {
    s.len() == 0 || s.last() == '\n'
}

proof fn lemma_first_lines(p: Seq<char>, x: Seq<char>, y: Seq<char>, n: nat)
    requires
        lacks(p, '\n'),
        whole_lines(x),
        n <= x.len(),
    ensures
        lines_before(p, x + y, n) == lines_before(p, x, n),
    decreases n,
{
    if n > 0 {
        lemma_first_lines(p, x, y, (n - 1) as nat);
        let s = x + y;
        let i = n - 1;
        lemma_stands(p, s, i);
        lemma_stands(p, x, i);
        if stands_at(p, s, i) && i + p.len() > x.len() {
            assert(s[i + (x.len() - 1 - i)] == p[x.len() - 1 - i]);
        }
    }
}

proof fn lemma_last_lines(p: Seq<char>, x: Seq<char>, y: Seq<char>, n: nat)
    requires
        p.len() > 0,
        lacks(p, '\n'),
        whole_lines(x),
        n <= y.len(),
    ensures
        lines_before(p, x + y, x.len() + n) == lines_with(p, x) + lines_before(p, y, n),
    decreases n,
{
    if n > 0 {
        lemma_last_lines(p, x, y, (n - 1) as nat);
        let s = x + y;
        let i = x.len() + n - 1;
        lemma_stands(p, s, i);
        lemma_stands(p, y, n - 1);
        if stands_at(p, s, i) {
            assert forall|j: int| 0 <= j < p.len() implies y[n - 1 + j] == #[trigger] p[j] by {
                assert(s[i + j] == p[j]);
            }
        }
        if stands_at(p, y, n - 1) {
            assert forall|j: int| 0 <= j < p.len() implies s[i + j] == #[trigger] p[j] by {
                assert(y[n - 1 + j] == p[j]);
            }
        }
    } else {
        lemma_first_lines(p, x, y, x.len());
    }
}

/// Behind closed lines, the numbers of lines add up.
pub(crate) proof fn lemma_lines_add_up(p: Seq<char>, x: Seq<char>, y: Seq<char>)
    requires
        p.len() > 0,
        lacks(p, '\n'),
        whole_lines(x),
    ensures
        lines_with(p, x + y) == lines_with(p, x) + lines_with(p, y),
{
    lemma_last_lines(p, x, y, y.len());
}

/// Where no line starts with `p`, none is counted.
pub(crate) proof fn lemma_no_lines(p: Seq<char>, s: Seq<char>, n: nat)
    requires
        n <= s.len(),
        forall|i: int| 0 <= i < n && #[trigger] stands_at(p, s, i) ==> !starts_line(s, i),
    ensures
        lines_before(p, s, n) == 0,
    decreases n,
{
    if n > 0 {
        lemma_no_lines(p, s, (n - 1) as nat);
    }
}

/// Of a single line at most one line is counted.
pub(crate) proof fn lemma_single_line(p: Seq<char>, s: Seq<char>, n: nat)
    requires
        0 < n <= s.len(),
        lacks(s.drop_last(), '\n'),
    ensures
        lines_before(p, s, n) == if stands_at(p, s, 0) {
            1nat
        } else {
            0
        },
    decreases n,
{
    if n > 1 {
        lemma_single_line(p, s, (n - 1) as nat);
        assert(s.drop_last()[n - 2] != '\n');
    } else {
        assert(lines_before(p, s, 0) == 0);
    }
}

} // verus!
