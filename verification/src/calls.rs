//! The calls in generated code, counted.
use vstd::prelude::*;

use crate::ast::{rust_type_list, Decl, Ty};
use crate::codec::{
    all_fixed, array_read_code, array_write_code, bytes_read_code, bytes_write_code, fixed,
    list_width, lookup, read_code, slice_read_code, tuple_read_code, tuple_write_code, width,
    write_code,
};
use crate::counting::{
    all_names_lack, count_before, lacks, lemma_add_up, lemma_none, lemma_stands, lemma_zero,
    names_lack, occurrences, stands_at,
};
use crate::text::dec;

verus! {

// ---------------------------------------------------------------------------
// Texts with calls
// ---------------------------------------------------------------------------

/// Whether `p` starts with a dot, and holds no other.
spec fn is_call(p: Seq<char>) -> bool {
    p.len() > 1 && p[0] == '.' && forall|j: int| 1 <= j < p.len() ==> #[trigger] p[j] != '.'
}

/// Whether no beginning of `p` but the empty one ends `s`.
spec fn ends_apart(p: Seq<char>, s: Seq<char>) -> bool {
    forall|i: int| 0 <= i < s.len() < i + p.len() ==> #[trigger] s.skip(i) != p.take(s.len() - i)
}

/// Whether `w` stands before every `p` in `s`.
spec fn called_on(p: Seq<char>, w: Seq<char>, s: Seq<char>) -> bool {
    forall|i: int| #[trigger]
        stands_at(p, s, i) ==> w.len() <= i && s.subrange(i - w.len(), i) == w
}

/// Whether `p` stands in `s` `n` times, each time behind `w`, and whatever
/// follows `s` adds no further one.
spec fn calls(p: Seq<char>, w: Seq<char>, s: Seq<char>, n: nat) -> bool {
    occurrences(p, s) == n && called_on(p, w, s) && ends_apart(p, s)
}

/// Whether every dot in `s` from the place `from` on is followed by something
/// other than `c`.
spec fn no_dot(s: Seq<char>, from: int, c: char) -> bool {
    forall|i: int| from <= i < s.len() && #[trigger] s[i] == '.' ==> i + 1 < s.len() && s[i
        + 1] != c
}

proof fn lemma_join(p: Seq<char>, w: Seq<char>, x: Seq<char>, m: nat, y: Seq<char>, n: nat)
    requires
        p.len() > 0,
        calls(p, w, x, m),
        calls(p, w, y, n),
    ensures
        calls(p, w, x + y, m + n),
{
    let s = x + y;
    assert forall|i: int| #[trigger]
        stands_at(p, s, i) <==> stands_at(p, x, i) || stands_at(p, y, i - x.len()) by {
        if 0 <= i && i + p.len() <= x.len() {
            assert(s.subrange(i, i + p.len()) =~= x.subrange(i, i + p.len()));
        } else if i >= x.len() && i + p.len() <= s.len() {
            assert(s.subrange(i, i + p.len()) =~= y.subrange(i - x.len(), i - x.len() + p.len()));
        } else if 0 <= i && stands_at(p, s, i) {
            assert(x.skip(i) =~= s.subrange(i, i + p.len()).take(x.len() - i));
        }
    }
    lemma_add_up(p, x, y);
    assert forall|i: int| #[trigger] stands_at(p, s, i) implies w.len() <= i && s.subrange(
        i - w.len(),
        i,
    ) == w by {
        if stands_at(p, x, i) {
            assert(s.subrange(i - w.len(), i) =~= x.subrange(i - w.len(), i));
        } else {
            let k = i - x.len();
            assert(stands_at(p, y, k));
            assert(s.subrange(i - w.len(), i) =~= y.subrange(k - w.len(), k));
        }
    }
    assert forall|i: int| 0 <= i < s.len() < i + p.len() implies #[trigger] s.skip(i) != p.take(
        s.len() - i,
    ) by {
        if i >= x.len() {
            assert(s.skip(i) =~= y.skip(i - x.len()));
        } else if s.skip(i) == p.take(s.len() - i) {
            assert(x.skip(i) =~= s.skip(i).take(x.len() - i));
            assert(x.skip(i) =~= p.take(x.len() - i));
        }
    }
}

proof fn lemma_quiet(p: Seq<char>, w: Seq<char>, s: Seq<char>)
    requires
        is_call(p),
        no_dot(s, 0, p[1]),
    ensures
        calls(p, w, s, 0),
{
    assert forall|i: int| !#[trigger] stands_at(p, s, i) by {
        lemma_stands(p, s, i);
        if stands_at(p, s, i) {
            assert(s[i + 0] == p[0] && s[i + 1] == p[1]);
        }
    }
    lemma_zero(p, s, s.len());
    assert forall|i: int| 0 <= i < s.len() < i + p.len() implies #[trigger] s.skip(i) != p.take(
        s.len() - i,
    ) by {
        if s.skip(i) == p.take(s.len() - i) {
            assert(s.skip(i)[0] == s[i] && p.take(s.len() - i)[0] == p[0]);
            assert(s.skip(i)[1] == s[i + 1] && p.take(s.len() - i)[1] == p[1]);
        }
    }
}

proof fn lemma_counts_itself(p: Seq<char>, n: nat)
    requires
        0 < n <= p.len(),
    ensures
        count_before(p, p, n) == 1,
    decreases n,
{
    assert(p.subrange(0, p.len() as int) =~= p);
    if n > 1 {
        lemma_counts_itself(p, (n - 1) as nat);
    } else {
        assert(count_before(p, p, 0) == 0);
    }
}

proof fn lemma_call(p: Seq<char>, w: Seq<char>)
    requires
        is_call(p),
        occurrences(p, w) == 0,
    ensures
        calls(p, w, w + p, 1),
{
    let s = w + p;
    let n = w.len() as int;
    assert forall|i: int| #![trigger stands_at(p, s, i)]
        (stands_at(p, s, i) <==> stands_at(p, w, i) || stands_at(p, p, i - n)) && (stands_at(
            p,
            s,
            i,
        ) ==> i == n) by {
        lemma_stands(p, s, i);
        if 0 <= i < n {
            lemma_none(p, w, w.len(), i);
            if stands_at(p, s, i) {
                if i + p.len() <= n {
                    assert(s.subrange(i, i + p.len()) =~= w.subrange(i, i + p.len()));
                } else {
                    assert(s[i + (n - i)] == p[n - i]);
                }
            }
        } else if i == n {
            assert(s.subrange(n, n + p.len()) =~= p);
            assert(p.subrange(0, p.len() as int) =~= p);
        }
    }
    lemma_add_up(p, w, p);
    lemma_counts_itself(p, p.len());
    assert(s.subrange(0, n) =~= w);
    assert forall|i: int| 0 <= i < s.len() < i + p.len() implies #[trigger] s.skip(i) != p.take(
        s.len() - i,
    ) by {
        assert(s.skip(i)[0] == p[i - n]);
        assert(p.take(s.len() - i)[0] == p[0]);
    }
}

/// A text without a call, and what follows it: nothing that goes on in a call.
proof fn lemma_followed(p: Seq<char>, w: Seq<char>, e: Seq<char>, l: Seq<char>)
    requires
        is_call(p),
        occurrences(p, e) == 0,
        l.len() > 0,
        no_dot(l, 0, p[1]),
        forall|j: int| 1 <= j < p.len() ==> #[trigger] p[j] != l[0],
    ensures
        calls(p, w, e + l, 0),
{
    let s = e + l;
    let n = e.len() as int;
    lemma_quiet(p, w, l);
    assert forall|i: int| !#[trigger] stands_at(p, s, i) by {
        lemma_stands(p, s, i);
        if stands_at(p, s, i) {
            if i >= n {
                lemma_none(p, l, l.len(), i - n);
                assert(s.subrange(i, i + p.len()) =~= l.subrange(i - n, i - n + p.len()));
            } else if i + p.len() <= n {
                lemma_none(p, e, e.len(), i);
                assert(s.subrange(i, i + p.len()) =~= e.subrange(i, i + p.len()));
            } else {
                assert(s[i + (n - i)] == p[n - i]);
            }
        }
    }
    lemma_zero(p, s, s.len());
    assert forall|i: int| 0 <= i < s.len() < i + p.len() implies #[trigger] s.skip(i) != p.take(
        s.len() - i,
    ) by {
        if i >= n {
            assert(s.skip(i) =~= l.skip(i - n));
        } else if s.skip(i) == p.take(s.len() - i) {
            assert(s.skip(i)[n - i] == l[0]);
            assert(p.take(s.len() - i)[n - i] == p[n - i]);
        }
    }
}

proof fn lemma_on(p: Seq<char>, w: Seq<char>, s: Seq<char>, n: nat)
    requires
        p.len() > 0,
        called_on(p, w, s),
    ensures
        count_before(w + p, s, n) == count_before(p, s, n + w.len()),
    decreases n,
{
    let k = w.len() as int;
    if n > 0 {
        lemma_on(p, w, s, (n - 1) as nat);
        let i = n - 1;
        if stands_at(w + p, s, i) {
            assert(s.subrange(i + k, i + k + p.len()) =~= s.subrange(i, i + k + p.len()).skip(k));
            assert((w + p).skip(k) =~= p);
        }
        if stands_at(p, s, i + k) {
            assert(s.subrange(i, i + k + p.len()) =~= s.subrange(i, i + k) + s.subrange(
                i + k,
                i + k + p.len(),
            ));
        }
    } else {
        lemma_zero(p, s, w.len());
    }
}

/// Calls of `p` on `w` are counted as `w` and `p` side by side.
proof fn lemma_calls_on(p: Seq<char>, w: Seq<char>, s: Seq<char>, n: nat)
    requires
        p.len() > 0,
        calls(p, w, s, n),
    ensures
        occurrences(w + p, s) == n,
{
    lemma_on(p, w, s, s.len());
    lemma_past_end(p, s, w.len());
}

proof fn lemma_past_end(p: Seq<char>, s: Seq<char>, k: nat)
    requires
        p.len() > 0,
    ensures
        count_before(p, s, s.len() + k) == occurrences(p, s),
    decreases k,
{
    if k > 0 {
        lemma_past_end(p, s, (k - 1) as nat);
    }
}

// ---------------------------------------------------------------------------
// The text of types and numbers
// ---------------------------------------------------------------------------

proof fn lemma_dec(n: nat)
    ensures
        dec(n).len() > 0,
        forall|i: int| 0 <= i < dec(n).len() ==> '0' <= #[trigger] dec(n)[i] <= '9',
    decreases n,
{
    if n >= 10 {
        lemma_dec(n / 10);
    }
}

proof fn lemma_rust_type(ft: Ty)
    requires
        names_lack(ft, '.'),
    ensures
        lacks(ft.rust_type(), '.'),
    decreases ft, 0nat,
{
    reveal_strlit("()");
    reveal_strlit("bool");
    reveal_strlit("u8");
    reveal_strlit("u16");
    reveal_strlit("u32");
    reveal_strlit("u64");
    reveal_strlit("i8");
    reveal_strlit("i16");
    reveal_strlit("i32");
    reveal_strlit("i64");
    reveal_strlit("f32");
    reveal_strlit("f64");
    match ft {
        Ty::Str => reveal_strlit("&str"),
        Ty::U8Slice => reveal_strlit("&[u8]"),
        Ty::OutU8Vec => reveal_strlit("&mut Vec<u8>"),
        Ty::String => reveal_strlit("String"),
        Ty::DStr => reveal_strlit("dynspire::managed::DStr"),
        Ty::DString => reveal_strlit("dynspire::managed::DString"),
        Ty::Vec(t) => {
            reveal_strlit("Vec<");
            reveal_strlit(">");
            lemma_rust_type(*t);
        },
        Ty::Option(t) => {
            reveal_strlit("Option<");
            reveal_strlit(">");
            lemma_rust_type(*t);
        },
        Ty::DSlice(t) => {
            reveal_strlit("dynspire::managed::DSlice<");
            reveal_strlit(">");
            lemma_rust_type(*t);
        },
        Ty::DVec(t) => {
            reveal_strlit("dynspire::managed::DVec<");
            reveal_strlit(">");
            lemma_rust_type(*t);
        },
        Ty::DOption(t) => {
            reveal_strlit("dynspire::managed::DOption<");
            reveal_strlit(">");
            lemma_rust_type(*t);
        },
        Ty::Ref(t) => match *t {
            Ty::DString => reveal_strlit("dynspire::managed::DStr"),
            Ty::DVec(e) => {
                reveal_strlit("dynspire::managed::DSlice<");
                reveal_strlit(">");
                assert(names_lack(*t, '.'));
                lemma_rust_type(*e);
            },
            other => lemma_rust_type(other),
        },
        Ty::RefMut(t) => {
            reveal_strlit("&mut ");
            lemma_rust_type(*t);
        },
        Ty::Tuple(ts) => {
            reveal_strlit("(");
            reveal_strlit(")");
            lemma_rust_types(ts, ts.len());
        },
        Ty::Array(t, n) => {
            reveal_strlit("[");
            reveal_strlit("; ");
            reveal_strlit("]");
            lemma_rust_type(*t);
            lemma_dec(n);
        },
        _ => {},
    }
}

proof fn lemma_rust_types(ts: Seq<Ty>, n: nat)
    requires
        n <= ts.len(),
        all_names_lack(ts, n, '.'),
    ensures
        lacks(rust_type_list(ts, n), '.'),
    decreases ts, n,
{
    if n > 0 {
        reveal_strlit(", ");
        lemma_rust_types(ts, (n - 1) as nat);
        lemma_rust_type(ts[n - 1]);
    }
}

// ---------------------------------------------------------------------------
// Reads and writes
// ---------------------------------------------------------------------------

/// Whether `l` starts with `p`, and holds nothing else that starts like it.
spec fn starts_call(p: Seq<char>, l: Seq<char>) -> bool {
    &&& p.len() <= l.len()
    &&& forall|j: int| 0 <= j < p.len() ==> #[trigger] l[j] == p[j]
    &&& no_dot(l, p.len() as int, p[1])
}

proof fn lemma_more(
    p: Seq<char>,
    w: Seq<char>,
    x: Seq<char>,
    m: nat,
    v: Seq<char>,
) -> (s: Seq<char>)
    requires
        is_call(p),
        calls(p, w, x, m),
        no_dot(v, 0, p[1]),
    ensures
        s == x + v,
        calls(p, w, x + v, m),
{
    lemma_quiet(p, w, v);
    lemma_join(p, w, x, m, v, 0);
    x + v
}

proof fn lemma_and_call(
    p: Seq<char>,
    w: Seq<char>,
    x: Seq<char>,
    m: nat,
    l: Seq<char>,
) -> (s: Seq<char>)
    requires
        is_call(p),
        occurrences(p, w) == 0,
        calls(p, w, x, m),
        starts_call(p, l),
    ensures
        s == x + w + l,
        calls(p, w, x + w + l, m + 1),
{
    let rest = l.skip(p.len() as int);
    lemma_call(p, w);
    lemma_join(p, w, x, m, w + p, 1);
    lemma_more(p, w, x + (w + p), m + 1, rest);
    assert(l.take(p.len() as int) =~= p);
    assert(x + w + l =~= x + (w + p) + rest);
    x + w + l
}

proof fn lemma_and_put(
    p: Seq<char>,
    w: Seq<char>,
    x: Seq<char>,
    m: nat,
    l: Seq<char>,
    expr: Seq<char>,
    end: Seq<char>,
) -> (s: Seq<char>)
    requires
        is_call(p),
        occurrences(p, w) == 0,
        occurrences(p, expr) == 0,
        calls(p, w, x, m),
        starts_call(p, l),
        end.len() > 0,
        no_dot(end, 0, p[1]),
        forall|j: int| 1 <= j < p.len() ==> #[trigger] p[j] != end[0],
    ensures
        s == x + w + l + expr + end,
        calls(p, w, x + w + l + expr + end, m + 1),
{
    lemma_and_call(p, w, x, m, l);
    lemma_followed(p, w, expr, end);
    lemma_join(p, w, x + w + l, m + 1, expr + end, 0);
    assert(x + w + l + expr + end =~= x + w + l + (expr + end));
    x + w + l + expr + end
}

proof fn lemma_scalar(r: Seq<char>, l: Seq<char>)
    requires
        occurrences(".read_u64()"@, r) == 0,
        starts_call(".read_u64()"@, l),
    ensures
        calls(".read_u64()"@, r, r + l, 1),
{
    let p = ".read_u64()"@;
    reveal_strlit(".read_u64()");
    lemma_quiet(p, r, Seq::empty());
    lemma_and_call(p, r, Seq::empty(), 0, l);
    assert(Seq::<char>::empty() + r + l =~= r + l);
}

proof fn lemma_one(r: Seq<char>, open: Seq<char>, l: Seq<char>)
    requires
        occurrences(".read_u64()"@, r) == 0,
        no_dot(open, 0, 'r'),
        starts_call(".read_u64()"@, l),
    ensures
        calls(".read_u64()"@, r, open + r + l, 1),
{
    let p = ".read_u64()"@;
    reveal_strlit(".read_u64()");
    lemma_quiet(p, r, open);
    lemma_and_call(p, r, open, 0, l);
}

proof fn lemma_two(r: Seq<char>, open: Seq<char>, l: Seq<char>, end: Seq<char>)
    requires
        occurrences(".read_u64()"@, r) == 0,
        no_dot(open, 0, 'r'),
        starts_call(".read_u64()"@, l),
        starts_call(".read_u64()"@, end),
    ensures
        calls(".read_u64()"@, r, open + r + l + r + end, 2),
{
    let p = ".read_u64()"@;
    reveal_strlit(".read_u64()");
    lemma_one(r, open, l);
    lemma_and_call(p, r, open + r + l, 1, end);
}

proof fn lemma_refmut(r: Seq<char>, t: Ty, types: Seq<Decl>, depth: nat)
    requires
        occurrences(".read_u64()"@, r) == 0,
        names_lack(t, '.'),
    ensures
        calls(".read_u64()"@, r, read_code(false, Ty::RefMut(Box::new(t)), r, types, depth), 1),
{
    let p = ".read_u64()"@;
    reveal_strlit(".read_u64()");
    let rt = t.rust_type();
    lemma_rust_type(t);
    reveal_strlit("unsafe { &mut *(");
    reveal_strlit(".read_u64() as *mut ");
    reveal_strlit(") }");
    lemma_one(r, "unsafe { &mut *("@, ".read_u64() as *mut "@);
    let b = "unsafe { &mut *("@ + r + ".read_u64() as *mut "@;
    let c = lemma_more(p, r, b, 1, rt);
    lemma_more(p, r, c, 1, ") }"@);
}

proof fn lemma_vec(r: Seq<char>, t: Ty, types: Seq<Decl>, depth: nat)
    requires
        occurrences(".read_u64()"@, r) == 0,
        names_lack(t, '.'),
    ensures
        calls(".read_u64()"@, r, read_code(false, Ty::Vec(Box::new(t)), r, types, depth), 2),
{
    let p = ".read_u64()"@;
    reveal_strlit(".read_u64()");
    let rt = t.rust_type();
    lemma_rust_type(t);
    reveal_strlit("unsafe { let __p = ");
    reveal_strlit(".read_u64() as *const ");
    reveal_strlit("; let __l = ");
    reveal_strlit(".read_u64() as usize; if __p.is_null() || __l == 0 { Vec::new() } else { core::slice::from_raw_parts(__p, __l).to_vec() } }");
    let a = "unsafe { let __p = "@;
    lemma_quiet(p, r, a);
    let b = lemma_and_call(p, r, a, 0, ".read_u64() as *const "@);
    let c = lemma_more(p, r, b, 1, rt);
    let d = lemma_more(p, r, c, 1, "; let __l = "@);
    lemma_and_call(p, r, d, 1,
        ".read_u64() as usize; if __p.is_null() || __l == 0 { Vec::new() } else { core::slice::from_raw_parts(__p, __l).to_vec() } }"@);
}

proof fn lemma_dslice(r: Seq<char>, t: Ty)
    requires
        occurrences(".read_u64()"@, r) == 0,
        names_lack(t, '.'),
    ensures
        calls(".read_u64()"@, r, slice_read_code(t, r), 2),
{
    let p = ".read_u64()"@;
    reveal_strlit(".read_u64()");
    let rt = t.rust_type();
    lemma_rust_type(t);
    reveal_strlit("dynspire::managed::DSlice::<");
    reveal_strlit("> { ptr: ");
    reveal_strlit(".read_u64() as *const ");
    reveal_strlit(", len: ");
    reveal_strlit(".read_u64() as usize }");
    let a = "dynspire::managed::DSlice::<"@;
    lemma_quiet(p, r, a);
    let b = lemma_more(p, r, a, 0, rt);
    let c = lemma_more(p, r, b, 0, "> { ptr: "@);
    let d = lemma_and_call(p, r, c, 0, ".read_u64() as *const "@);
    let e = lemma_more(p, r, d, 1, rt);
    let f = lemma_more(p, r, e, 1, ", len: "@);
    lemma_and_call(p, r, f, 1, ".read_u64() as usize }"@);
}

proof fn lemma_dstring(r: Seq<char>, types: Seq<Decl>, depth: nat)
    requires
        occurrences(".read_u64()"@, r) == 0,
    ensures
        calls(".read_u64()"@, r, read_code(false, Ty::DString, r, types, depth), 4),
{
    let p = ".read_u64()"@;
    reveal_strlit(".read_u64()");
    reveal_strlit("dynspire::managed::DString { allocator: ");
    reveal_strlit(".read_u64() as *mut dynspire::managed::DynSpireAllocator, ptr: ");
    reveal_strlit(".read_u64() as *mut u8, len: ");
    reveal_strlit(".read_u64() as usize, cap: ");
    reveal_strlit(".read_u64() as usize }");
    let a = "dynspire::managed::DString { allocator: "@;
    lemma_quiet(p, r, a);
    let b = lemma_and_call(p, r, a, 0,
        ".read_u64() as *mut dynspire::managed::DynSpireAllocator, ptr: "@);
    let c = lemma_and_call(p, r, b, 1, ".read_u64() as *mut u8, len: "@);
    let d = lemma_and_call(p, r, c, 2, ".read_u64() as usize, cap: "@);
    lemma_and_call(p, r, d, 3, ".read_u64() as usize }"@);
}

proof fn lemma_dvec(r: Seq<char>, t: Ty, types: Seq<Decl>, depth: nat)
    requires
        occurrences(".read_u64()"@, r) == 0,
        names_lack(t, '.'),
    ensures
        calls(".read_u64()"@, r, read_code(false, Ty::DVec(Box::new(t)), r, types, depth), 4),
{
    let p = ".read_u64()"@;
    reveal_strlit(".read_u64()");
    let rt = t.rust_type();
    lemma_rust_type(t);
    reveal_strlit("dynspire::managed::DVec::<");
    reveal_strlit("> { allocator: ");
    reveal_strlit(".read_u64() as *mut dynspire::managed::DynSpireAllocator, ptr: ");
    reveal_strlit(".read_u64() as *mut ");
    reveal_strlit(", len: ");
    reveal_strlit(".read_u64() as usize, cap: ");
    reveal_strlit(".read_u64() as usize }");
    let a = "dynspire::managed::DVec::<"@;
    lemma_quiet(p, r, a);
    let b = lemma_more(p, r, a, 0, rt);
    let c = lemma_more(p, r, b, 0, "> { allocator: "@);
    let d = lemma_and_call(p, r, c, 0,
        ".read_u64() as *mut dynspire::managed::DynSpireAllocator, ptr: "@);
    let e = lemma_and_call(p, r, d, 1, ".read_u64() as *mut "@);
    let f = lemma_more(p, r, e, 2, rt);
    let g = lemma_more(p, r, f, 2, ", len: "@);
    let h = lemma_and_call(p, r, g, 2, ".read_u64() as usize, cap: "@);
    lemma_and_call(p, r, h, 3, ".read_u64() as usize }"@);
}

proof fn lemma_named(r: Seq<char>, name: Seq<char>, types: Seq<Decl>, depth: nat)
    requires
        occurrences(".read_u64()"@, r) == 0,
        lacks(name, '.'),
        fixed(false, Ty::Named(name), types),
    ensures
        calls(".read_u64()"@, r, read_code(false, Ty::Named(name), r, types, depth), 1),
{
    let p = ".read_u64()"@;
    reveal_strlit(".read_u64()");
    if lookup(types, name) matches Some(Decl::Struct(s)) && s.fields.len() == 0 {
        reveal_strlit("{ let _ = ");
        reveal_strlit(".read_u64(); ");
        reveal_strlit(" }");
        let a = "{ let _ = "@;
        lemma_quiet(p, r, a);
        let b = lemma_and_call(p, r, a, 0, ".read_u64(); "@);
        let c = lemma_more(p, r, b, 1, name);
        lemma_more(p, r, c, 1, " }"@);
    } else {
        reveal_strlit("unsafe { (*(");
        reveal_strlit(".read_u64() as *const ");
        reveal_strlit(")).clone() }");
        let a = "unsafe { (*("@;
        lemma_quiet(p, r, a);
        let b = lemma_and_call(p, r, a, 0, ".read_u64() as *const "@);
        let c = lemma_more(p, r, b, 1, name);
        lemma_more(p, r, c, 1, ")).clone() }"@);
    }
}

proof fn lemma_range(p: Seq<char>, n: nat)
    requires
        p.len() > 1,
        !('0' <= p[1] <= '9'),
        p[1] != '.',
    ensures
        no_dot(".."@ + dec(n), 0, p[1]),
        no_dot(dec(n), 0, p[1]),
{
    reveal_strlit("..");
    lemma_dec(n);
}

proof fn lemma_chunks(n: nat, r: Seq<char>)
    requires
        occurrences(".read_u64()"@, r) == 0,
    ensures
        calls(".read_u64()"@, r, bytes_read_code(n, r), n),
    decreases n,
{
    let p = ".read_u64()"@;
    reveal_strlit(".read_u64()");
    if n == 0 {
        lemma_quiet(p, r, Seq::empty());
    } else {
        let start = (n - 1) * 8;
        let end = start + 8;
        lemma_chunks((n - 1) as nat, r);
        reveal_strlit("__arr[");
        reveal_strlit("..");
        reveal_strlit("].copy_from_slice(&");
        reveal_strlit(".read_u64().to_le_bytes());");
        lemma_range(p, start as nat);
        lemma_range(p, end as nat);
        let a = "__arr["@;
        lemma_quiet(p, r, a);
        let b = lemma_more(p, r, a, 0, dec(start as nat));
        let c = b + (".."@ + dec(end as nat));
        lemma_more(p, r, b, 0, ".."@ + dec(end as nat));
        let d = lemma_more(p, r, c, 0, "].copy_from_slice(&"@);
        let e = lemma_and_call(p, r, d, 0, ".read_u64().to_le_bytes());"@);
        assert(e =~= ("__arr["@ + dec(start as nat) + ".."@ + dec(end as nat)
            + "].copy_from_slice(&"@ + r + ".read_u64().to_le_bytes());"@));
        lemma_join(p, r, bytes_read_code((n - 1) as nat, r), (n - 1) as nat, e, 1);
    }
}

proof fn lemma_wrapped(r: Seq<char>, x: Seq<char>, m: nat, open: Seq<char>, close: Seq<char>)
    requires
        calls(".read_u64()"@, r, x, m),
        no_dot(open, 0, 'r'),
        no_dot(close, 0, 'r'),
    ensures
        calls(".read_u64()"@, r, open + x + close, m),
{
    let p = ".read_u64()"@;
    reveal_strlit(".read_u64()");
    lemma_quiet(p, r, open);
    lemma_join(p, r, open, 0, x, m);
    lemma_more(p, r, open + x, m, close);
}

proof fn lemma_read(ft: Ty, r: Seq<char>, types: Seq<Decl>, depth: nat)
    requires
        fixed(false, ft, types),
        names_lack(ft, '.'),
        occurrences(".read_u64()"@, r) == 0,
    ensures
        calls(".read_u64()"@, r, read_code(false, ft, r, types, depth), width(ft)),
    decreases ft, 0nat,
{
    let p = ".read_u64()"@;
    reveal_strlit(".read_u64()");
    match ft {
        Ty::Unit => {
            reveal_strlit("()");
            lemma_quiet(p, r, "()"@);
        },
        Ty::Bool => {
            reveal_strlit(".read_u64() != 0");
            lemma_scalar(r, ".read_u64() != 0"@);
        },
        Ty::U8 => {
            reveal_strlit(".read_u64() as u8");
            lemma_scalar(r, ".read_u64() as u8"@);
        },
        Ty::U16 => {
            reveal_strlit(".read_u64() as u16");
            lemma_scalar(r, ".read_u64() as u16"@);
        },
        Ty::U32 => {
            reveal_strlit(".read_u64() as u32");
            lemma_scalar(r, ".read_u64() as u32"@);
        },
        Ty::U64 => lemma_scalar(r, ".read_u64()"@),
        Ty::I8 => {
            reveal_strlit(".read_u64() as i8");
            lemma_scalar(r, ".read_u64() as i8"@);
        },
        Ty::I16 => {
            reveal_strlit(".read_u64() as i16");
            lemma_scalar(r, ".read_u64() as i16"@);
        },
        Ty::I32 => {
            reveal_strlit(".read_u64() as i32");
            lemma_scalar(r, ".read_u64() as i32"@);
        },
        Ty::I64 => {
            reveal_strlit(".read_u64() as i64");
            lemma_scalar(r, ".read_u64() as i64"@);
        },
        Ty::F32 => {
            reveal_strlit("f32::from_bits(");
            reveal_strlit(".read_u64() as u32)");
            lemma_one(r, "f32::from_bits("@, ".read_u64() as u32)"@);
        },
        Ty::F64 => {
            reveal_strlit("f64::from_bits(");
            reveal_strlit(".read_u64())");
            lemma_one(r, "f64::from_bits("@, ".read_u64())"@);
        },
        Ty::Str => {
            reveal_strlit("unsafe { let __p = ");
            reveal_strlit(".read_u64() as *const u8; let __l = ");
            reveal_strlit(".read_u64() as usize; if __p.is_null() || __l == 0 { \"\" } else { core::str::from_utf8_unchecked(core::slice::from_raw_parts(__p, __l)) } }");
            lemma_two(r, "unsafe { let __p = "@, ".read_u64() as *const u8; let __l = "@,
                ".read_u64() as usize; if __p.is_null() || __l == 0 { \"\" } else { core::str::from_utf8_unchecked(core::slice::from_raw_parts(__p, __l)) } }"@);
        },
        Ty::U8Slice => {
            reveal_strlit("unsafe { let __p = ");
            reveal_strlit(".read_u64() as *const u8; let __l = ");
            reveal_strlit(".read_u64() as usize; if __p.is_null() || __l == 0 { &[] as &[u8] } else { core::slice::from_raw_parts(__p, __l) } }");
            lemma_two(r, "unsafe { let __p = "@, ".read_u64() as *const u8; let __l = "@,
                ".read_u64() as usize; if __p.is_null() || __l == 0 { &[] as &[u8] } else { core::slice::from_raw_parts(__p, __l) } }"@);
        },
        Ty::OutU8Vec => {
            reveal_strlit("unsafe { &mut *(");
            reveal_strlit(".read_u64() as *mut Vec<u8>) }");
            lemma_one(r, "unsafe { &mut *("@, ".read_u64() as *mut Vec<u8>) }"@);
        },
        Ty::String => {
            reveal_strlit("unsafe { let __p = ");
            reveal_strlit(".read_u64() as *const u8; let __l = ");
            reveal_strlit(".read_u64() as usize; if __p.is_null() || __l == 0 { String::new() } else { String::from_utf8_unchecked(core::slice::from_raw_parts(__p, __l).to_vec()) } }");
            lemma_two(r, "unsafe { let __p = "@, ".read_u64() as *const u8; let __l = "@,
                ".read_u64() as usize; if __p.is_null() || __l == 0 { String::new() } else { String::from_utf8_unchecked(core::slice::from_raw_parts(__p, __l).to_vec()) } }"@);
        },
        Ty::Vec(t) => {
            lemma_vec(r, *t, types, depth);
        },
        Ty::DStr => {
            reveal_strlit("dynspire::managed::DStr { ptr: ");
            reveal_strlit(".read_u64() as *const u8, len: ");
            reveal_strlit(".read_u64() as usize }");
            lemma_two(r, "dynspire::managed::DStr { ptr: "@, ".read_u64() as *const u8, len: "@,
                ".read_u64() as usize }"@);
        },
        Ty::DSlice(t) => {
            lemma_dslice(r, *t);
        },
        Ty::DString => lemma_dstring(r, types, depth),
        Ty::DVec(t) => {
            lemma_dvec(r, *t, types, depth);
        },
        Ty::Ref(t) => match *t {
            Ty::DString => {
                reveal_strlit("dynspire::managed::DStr { ptr: ");
                reveal_strlit(".read_u64() as *const u8, len: ");
                reveal_strlit(".read_u64() as usize }");
                lemma_two(r, "dynspire::managed::DStr { ptr: "@, ".read_u64() as *const u8, len: "@,
                    ".read_u64() as usize }"@);
            },
            Ty::DVec(e) => {
                assert(names_lack(*t, '.'));
                lemma_dslice(r, *e);
            },
            other => lemma_read(other, r, types, depth),
        },
        Ty::RefMut(t) => {
            lemma_refmut(r, *t, types, depth);
        },
        Ty::Tuple(ts) => {
            let parts = tuple_read_code(false, ts, ts.len(), r, types, depth);
            lemma_read_list(ts, ts.len(), r, types, depth);
            reveal_strlit("(");
            reveal_strlit(")");
            lemma_wrapped(r, parts, width(ft), "("@, ")"@);
        },
        Ty::Array(t, len) => if *t is U8 && len % 8 == 0 {
            let chunks = bytes_read_code(len / 8, r);
            lemma_chunks(len / 8, r);
            reveal_strlit("{ let mut __arr = [0u8; ");
            reveal_strlit("]; ");
            reveal_strlit(" __arr }");
            lemma_dec(len);
            lemma_wrapped(
                r,
                chunks,
                len / 8,
                "{ let mut __arr = [0u8; "@ + dec(len) + "]; "@,
                " __arr }"@,
            );
        } else {
            let inits = array_read_code(false, *t, len, r, types, depth);
            lemma_read_array(*t, len, r, types, depth);
            reveal_strlit("[");
            reveal_strlit("]");
            lemma_wrapped(r, inits, width(ft), "["@, "]"@);
        },
        Ty::Named(name) => {
            lemma_named(r, name, types, depth);
        },
        _ => {},
    }
}

proof fn lemma_read_list(ts: Seq<Ty>, n: nat, r: Seq<char>, types: Seq<Decl>, depth: nat)
    requires
        n <= ts.len(),
        all_fixed(false, ts, n, types),
        all_names_lack(ts, n, '.'),
        occurrences(".read_u64()"@, r) == 0,
    ensures
        calls(
            ".read_u64()"@,
            r,
            tuple_read_code(false, ts, n, r, types, depth),
            list_width(ts, n),
        ),
    decreases ts, n,
{
    let p = ".read_u64()"@;
    reveal_strlit(".read_u64()");
    if n == 0 {
        lemma_quiet(p, r, Seq::empty());
    } else {
        let x = tuple_read_code(false, ts, (n - 1) as nat, r, types, depth);
        let y = read_code(false, ts[n - 1], r, types, depth);
        lemma_read(ts[n - 1], r, types, depth);
        lemma_read_list(ts, (n - 1) as nat, r, types, depth);
        if n == 1 {
            assert(list_width(ts, 0) == 0);
        } else {
            reveal_strlit(", ");
            lemma_more(p, r, x, list_width(ts, (n - 1) as nat), ", "@);
            lemma_join(p, r, x + ", "@, list_width(ts, (n - 1) as nat), y, width(ts[n - 1]));
        }
    }
}

proof fn lemma_read_array(elem: Ty, n: nat, r: Seq<char>, types: Seq<Decl>, depth: nat)
    requires
        fixed(false, elem, types),
        names_lack(elem, '.'),
        occurrences(".read_u64()"@, r) == 0,
    ensures
        calls(
            ".read_u64()"@,
            r,
            array_read_code(false, elem, n, r, types, depth),
            n * width(elem),
        ),
    decreases elem, 1 + n,
{
    let p = ".read_u64()"@;
    reveal_strlit(".read_u64()");
    if n == 0 {
        lemma_quiet(p, r, Seq::empty());
        assert(0 * width(elem) == 0);
    } else {
        let i = (n - 1) as nat;
        let x = array_read_code(false, elem, i, r, types, depth);
        let y = read_code(false, elem, r, types, depth);
        lemma_read(elem, r, types, depth);
        lemma_read_array(elem, i, r, types, depth);
        reveal_strlit(",");
        lemma_more(p, r, y, width(elem), ","@);
        lemma_join(p, r, x, i * width(elem), y + ","@, width(elem));
        assert(n * width(elem) == i * width(elem) + width(elem)) by (nonlinear_arith)
            requires
                n == i + 1,
        ;
    }
}

proof fn lemma_write_native(expr: Seq<char>, w: Seq<char>, types: Seq<Decl>, depth: nat)
    requires
        occurrences(".write_u64("@, w) == 0,
        occurrences(".write_u64("@, expr) == 0,
    ensures
        calls(".write_u64("@, w, write_code(false, Ty::Str, expr, w, types, depth), 2),
{
    let p = ".write_u64("@;
    reveal_strlit(".write_u64(");
    reveal_strlit(".as_ptr() as u64); ");
    reveal_strlit(".len() as u64);");
    lemma_put(expr, w, ".write_u64("@, ".as_ptr() as u64); "@);
    let a = w + ".write_u64("@ + expr + ".as_ptr() as u64); "@;
    lemma_and_put(p, w, a, 1, ".write_u64("@, expr, ".len() as u64);"@);
}

proof fn lemma_write_view(expr: Seq<char>, w: Seq<char>, types: Seq<Decl>, depth: nat)
    requires
        occurrences(".write_u64("@, w) == 0,
        occurrences(".write_u64("@, expr) == 0,
    ensures
        calls(".write_u64("@, w, write_code(false, Ty::DStr, expr, w, types, depth), 2),
{
    let p = ".write_u64("@;
    reveal_strlit(".write_u64(");
    reveal_strlit(".ptr as u64); ");
    reveal_strlit(".len as u64);");
    lemma_put(expr, w, ".write_u64("@, ".ptr as u64); "@);
    let a = w + ".write_u64("@ + expr + ".ptr as u64); "@;
    lemma_and_put(p, w, a, 1, ".write_u64("@, expr, ".len as u64);"@);
}

proof fn lemma_write_managed(expr: Seq<char>, w: Seq<char>, types: Seq<Decl>, depth: nat)
    requires
        occurrences(".write_u64("@, w) == 0,
        occurrences(".write_u64("@, expr) == 0,
    ensures
        calls(".write_u64("@, w, write_code(false, Ty::DString, expr, w, types, depth), 4),
{
    let p = ".write_u64("@;
    reveal_strlit(".write_u64(");
    reveal_strlit(".allocator as u64); ");
    reveal_strlit(".ptr as u64); ");
    reveal_strlit(".len as u64); ");
    reveal_strlit(".cap as u64);");
    lemma_put(expr, w, ".write_u64("@, ".allocator as u64); "@);
    let a = w + ".write_u64("@ + expr + ".allocator as u64); "@;
    let b = lemma_and_put(p, w, a, 1, ".write_u64("@, expr, ".ptr as u64); "@);
    let c = lemma_and_put(p, w, b, 2, ".write_u64("@, expr, ".len as u64); "@);
    lemma_and_put(p, w, c, 3, ".write_u64("@, expr, ".cap as u64);"@);
}

proof fn lemma_put(expr: Seq<char>, w: Seq<char>, l: Seq<char>, end: Seq<char>)
    requires
        occurrences(".write_u64("@, w) == 0,
        occurrences(".write_u64("@, expr) == 0,
        starts_call(".write_u64("@, l),
        end.len() > 0,
        no_dot(end, 0, 'w'),
        end[0] == ' ' || end[0] == ')' || end[0] == '.' || end[0] == '[',
    ensures
        calls(".write_u64("@, w, w + l + expr + end, 1),
{
    let p = ".write_u64("@;
    reveal_strlit(".write_u64(");
    lemma_quiet(p, w, Seq::empty());
    lemma_and_put(p, w, Seq::empty(), 0, l, expr, end);
    assert(Seq::<char>::empty() + w + l + expr + end =~= w + l + expr + end);
}

/// Parts of a value are written like the value: what names them holds no call
/// either.
proof fn lemma_part(expr: Seq<char>, open: Seq<char>, i: nat, close: Seq<char>)
    requires
        occurrences(".write_u64("@, expr) == 0,
        open == "."@ && close == Seq::<char>::empty() || open == "["@ && close == "]"@,
    ensures
        occurrences(".write_u64("@, expr + open + dec(i) + close) == 0,
{
    let p = ".write_u64("@;
    reveal_strlit(".write_u64(");
    reveal_strlit(".");
    reveal_strlit("[");
    reveal_strlit("]");
    lemma_dec(i);
    let l = open + dec(i) + close;
    lemma_followed(p, Seq::empty(), expr, l);
    assert(expr + open + dec(i) + close =~= expr + l);
}

proof fn lemma_write_chunks(n: nat, expr: Seq<char>, w: Seq<char>)
    requires
        occurrences(".write_u64("@, w) == 0,
        occurrences(".write_u64("@, expr) == 0,
    ensures
        calls(".write_u64("@, w, bytes_write_code(n, expr, w), n),
    decreases n,
{
    let p = ".write_u64("@;
    reveal_strlit(".write_u64(");
    if n == 0 {
        lemma_quiet(p, w, Seq::empty());
    } else {
        let start = (n - 1) * 8;
        let end = start + 8;
        lemma_write_chunks((n - 1) as nat, expr, w);
        reveal_strlit(".write_u64(u64::from_le_bytes(");
        reveal_strlit("[");
        reveal_strlit("..");
        reveal_strlit("].try_into().unwrap()));");
        lemma_range(p, start as nat);
        lemma_range(p, end as nat);
        let a = w + ".write_u64(u64::from_le_bytes("@ + expr + "["@;
        lemma_put(expr, w, ".write_u64(u64::from_le_bytes("@, "["@);
        let b = lemma_more(p, w, a, 1, dec(start as nat));
        let c = b + (".."@ + dec(end as nat));
        lemma_more(p, w, b, 1, ".."@ + dec(end as nat));
        let d = lemma_more(p, w, c, 1, "].try_into().unwrap()));"@);
        assert(d =~= (w + ".write_u64(u64::from_le_bytes("@ + expr + "["@ + dec(start as nat)
            + ".."@ + dec(end as nat) + "].try_into().unwrap()));"@));
        lemma_join(p, w, bytes_write_code((n - 1) as nat, expr, w), (n - 1) as nat, d, 1);
    }
}

proof fn lemma_write(ft: Ty, expr: Seq<char>, w: Seq<char>, types: Seq<Decl>, depth: nat)
    requires
        fixed(false, ft, types),
        names_lack(ft, '.'),
        occurrences(".write_u64("@, w) == 0,
        occurrences(".write_u64("@, expr) == 0,
    ensures
        calls(".write_u64("@, w, write_code(false, ft, expr, w, types, depth), width(ft)),
    decreases ft, 0nat,
{
    let p = ".write_u64("@;
    reveal_strlit(".write_u64(");
    match ft {
        Ty::Unit => lemma_quiet(p, w, Seq::empty()),
        Ty::Bool => {
            reveal_strlit(".write_u64(if ");
            reveal_strlit(" { 1 } else { 0 });");
            lemma_put(expr, w, ".write_u64(if "@, " { 1 } else { 0 });"@);
        },
        Ty::U64 => {
            reveal_strlit(");");
            lemma_put(expr, w, ".write_u64("@, ");"@);
        },
        Ty::F32 => {
            reveal_strlit(".to_bits() as u64);");
            lemma_put(expr, w, ".write_u64("@, ".to_bits() as u64);"@);
        },
        Ty::F64 => {
            reveal_strlit(".to_bits());");
            lemma_put(expr, w, ".write_u64("@, ".to_bits());"@);
        },
        Ty::OutU8Vec => {
            reveal_strlit(".write_u64(core::ptr::addr_of!(*");
            reveal_strlit(") as u64);");
            lemma_put(expr, w, ".write_u64(core::ptr::addr_of!(*"@, ") as u64);"@);
        },
        Ty::Str => lemma_write_native(expr, w, types, depth),
        Ty::U8Slice => lemma_write_native(expr, w, types, depth),
        Ty::String => lemma_write_native(expr, w, types, depth),
        Ty::Vec(_) => lemma_write_native(expr, w, types, depth),
        Ty::DStr => lemma_write_view(expr, w, types, depth),
        Ty::DSlice(_) => lemma_write_view(expr, w, types, depth),
        Ty::DString => lemma_write_managed(expr, w, types, depth),
        Ty::DVec(_) => lemma_write_managed(expr, w, types, depth),
        Ty::Ref(t) => match *t {
            Ty::DString => lemma_write_view(expr, w, types, depth),
            Ty::DVec(_) => lemma_write_view(expr, w, types, depth),
            other => lemma_write(other, expr, w, types, depth),
        },
        Ty::RefMut(_) => {
            reveal_strlit(".write_u64(core::ptr::addr_of!(*");
            reveal_strlit(") as u64);");
            lemma_put(expr, w, ".write_u64(core::ptr::addr_of!(*"@, ") as u64);"@);
        },
        Ty::Tuple(ts) => lemma_write_list(ts, ts.len(), expr, w, types, depth),
        Ty::Array(t, len) => if *t is U8 && len % 8 == 0 {
            lemma_write_chunks(len / 8, expr, w);
        } else {
            lemma_write_array(*t, len, expr, w, types, depth);
        },
        Ty::Named(name) => if lookup(types, name) matches Some(Decl::Struct(s)) && s.fields.len()
            == 0 {
            reveal_strlit(".write_u64(core::ptr::addr_of!(");
            reveal_strlit(") as u64);");
            lemma_put(expr, w, ".write_u64(core::ptr::addr_of!("@, ") as u64);"@);
        } else {
            reveal_strlit(".write_u64(&");
            reveal_strlit(" as *const ");
            reveal_strlit(" as u64);");
            let a = w + ".write_u64(&"@ + expr + " as *const "@;
            lemma_put(expr, w, ".write_u64(&"@, " as *const "@);
            lemma_more(p, w, a, 1, name);
            lemma_more(p, w, a + name, 1, " as u64);"@);
        },
        _ => {
            reveal_strlit(" as u64);");
            lemma_put(expr, w, ".write_u64("@, " as u64);"@);
        },
    }
}

proof fn lemma_write_list(
    ts: Seq<Ty>,
    n: nat,
    expr: Seq<char>,
    w: Seq<char>,
    types: Seq<Decl>,
    depth: nat,
)
    requires
        n <= ts.len(),
        all_fixed(false, ts, n, types),
        all_names_lack(ts, n, '.'),
        occurrences(".write_u64("@, w) == 0,
        occurrences(".write_u64("@, expr) == 0,
    ensures
        calls(
            ".write_u64("@,
            w,
            tuple_write_code(false, ts, n, expr, w, types, depth),
            list_width(ts, n),
        ),
    decreases ts, n,
{
    let p = ".write_u64("@;
    reveal_strlit(".write_u64(");
    if n == 0 {
        lemma_quiet(p, w, Seq::empty());
    } else {
        let i = (n - 1) as nat;
        let part = expr + "."@ + dec(i);
        lemma_part(expr, "."@, i, Seq::empty());
        assert(part + Seq::<char>::empty() =~= part);
        lemma_write(ts[n - 1], part, w, types, depth);
        lemma_write_list(ts, i, expr, w, types, depth);
        lemma_join(
            p,
            w,
            tuple_write_code(false, ts, i, expr, w, types, depth),
            list_width(ts, i),
            write_code(false, ts[n - 1], part, w, types, depth),
            width(ts[n - 1]),
        );
    }
}

proof fn lemma_write_array(
    elem: Ty,
    n: nat,
    expr: Seq<char>,
    w: Seq<char>,
    types: Seq<Decl>,
    depth: nat,
)
    requires
        fixed(false, elem, types),
        names_lack(elem, '.'),
        occurrences(".write_u64("@, w) == 0,
        occurrences(".write_u64("@, expr) == 0,
    ensures
        calls(
            ".write_u64("@,
            w,
            array_write_code(elem, n, expr, w, types, depth),
            n * width(elem),
        ),
    decreases elem, 1 + n,
{
    let p = ".write_u64("@;
    reveal_strlit(".write_u64(");
    if n == 0 {
        lemma_quiet(p, w, Seq::empty());
        assert(0 * width(elem) == 0);
    } else {
        let i = (n - 1) as nat;
        let part = expr + "["@ + dec(i) + "]"@;
        lemma_part(expr, "["@, i, "]"@);
        lemma_write(elem, part, w, types, depth);
        lemma_write_array(elem, i, expr, w, types, depth);
        lemma_join(
            p,
            w,
            array_write_code(elem, i, expr, w, types, depth),
            i * width(elem),
            write_code(false, elem, part, w, types, depth),
            width(elem),
        );
        assert(n * width(elem) == i * width(elem) + width(elem)) by (nonlinear_arith)
            requires
                n == i + 1,
        ;
    }
}

/// The text that reads a value calls the reader as often as the text that
/// writes it calls the writer, and that is the number of slots of the value:
/// none for the unit, one for a number, two for a view, four for a managed text
/// or vector, one for every eight bytes of a byte array, and for a tuple the
/// sum of its parts. The reader, the writer and the value are named by texts
/// without such calls.
pub proof fn reads_call_as_often_as_writes(
    ft: Ty,
    expr: Seq<char>,
    w: Seq<char>,
    r: Seq<char>,
    types: Seq<Decl>,
    depth: nat,
)
    requires
        fixed(false, ft, types),
        names_lack(ft, '.'),
        occurrences(".write_u64("@, expr) == 0,
        occurrences(".write_u64("@, w) == 0,
        occurrences(".read_u64()"@, r) == 0,
    ensures
        occurrences(w + ".write_u64("@, write_code(false, ft, expr, w, types, depth)) == width(ft),
        occurrences(r + ".read_u64()"@, read_code(false, ft, r, types, depth)) == width(ft),
{
    lemma_write(ft, expr, w, types, depth);
    lemma_read(ft, r, types, depth);
    reveal_strlit(".write_u64(");
    reveal_strlit(".read_u64()");
    lemma_calls_on(".write_u64("@, w, write_code(false, ft, expr, w, types, depth), width(ft));
    lemma_calls_on(".read_u64()"@, r, read_code(false, ft, r, types, depth), width(ft));
}

} // verus!
