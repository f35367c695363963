//! Calls by reflection: arguments become slots and slots become values, as the
//! types of a schema say.
//!
//! Addresses stay outside: an argument that crosses as an address and a length
//! is named, not placed, and a value that came as an address and a length is
//! handed on as such.
use vstd::prelude::*;
use vstd::string::StringExecFns;

use crate::reflect::{
    moved_node, struct_id, struct_id_at, struct_name, struct_name_at, with_types, EnumInfo, MethodInfo, ParamInfo,
    SchemaData, TypeNode, VariantInfo,
};
use crate::slots::{SlotReader, SlotWriter};
use crate::text::{
    quoted, dec, decimal, quote, same, signed_dec, signed_decimal, strings_model,
};
use crate::typetable::{wf_node, wf_table, IdlKind, IdlTypeNode, Table};

verus! {

// ---------------------------------------------------------------------------
// What a call reaches
// ---------------------------------------------------------------------------

/// How deep tuples are nested in the type at `i`, up to `limit` deep.
pub open spec fn tuple_depth(types: Seq<TypeNode>, i: int, limit: nat) -> nat
    decreases limit,
{
    if limit == 0 || !(0 <= i < types.len()) || types[i].kind != Some(IdlKind::Tuple) {
        0
    } else {
        let a = tuple_depth(types, types[i].child0 as int, (limit - 1) as nat);
        let b = tuple_depth(types, types[i].child1 as int, (limit - 1) as nat);
        1 + if a < b {
            b
        } else {
            a
        }
    }
}

/// How deep tuples are nested in the type at `i`.
pub open spec fn nesting(data: SchemaData, i: int) -> nat {
    tuple_depth(data.types@, i, data.types@.len())
}

/// Whether `i` is a position in the table of types.
pub open spec fn in_table(data: SchemaData, i: int) -> bool {
    0 <= i < data.types@.len()
}

/// Whether the element type at `child` of a vector is there, and if it is a
/// vector, its own element type as well.
pub open spec fn element_there(data: SchemaData, child: int) -> bool {
    &&& in_table(data, child)
    &&& is_kind(data, child, IdlKind::Vec) ==> in_table(data, data.types@[child].child0 as int)
}

/// Whether the node at `i` has the children that are looked at when a value of
/// its type is read from slots or, if `reading` is false, written to them. A
/// tuple is nested deeper than its parts, so that it does not hold itself.
pub open spec fn node_sound(data: SchemaData, i: int, reading: bool) -> bool {
    &&& in_table(data, i)
    &&& match data.types@[i].kind {
        Some(IdlKind::Slice) => !reading ==> in_table(data, data.types@[i].child0 as int),
        Some(IdlKind::Vec) => element_there(data, data.types@[i].child0 as int),
        Some(IdlKind::Tuple) => reading ==> {
            &&& data.types@[i].child0 >= 0 ==> nesting(data, data.types@[i].child0 as int)
                < nesting(data, i)
            &&& data.types@[i].child1 >= 0 ==> nesting(data, data.types@[i].child1 as int)
                < nesting(data, i)
        },
        _ => true,
    }
}

/// Whether some field of the variants `vs` has type `j`.
pub open spec fn has_field(vs: Seq<VariantInfo>, j: int) -> bool {
    exists|v: int, k: int|
        0 <= v < vs.len() && 0 <= k < vs[v].field_type_idxs@.len()
            && #[trigger] vs[v].field_type_idxs@[k] == j
}

/// Whether a value of type `i` can hold one of type `j`: that is read, or if
/// `reading` is false written, as part of it.
pub open spec fn leads(data: SchemaData, i: int, j: int, reading: bool) -> bool {
    let t = data.types@[i];
    match t.kind {
        Some(IdlKind::Option) => reading && j == t.child0,
        Some(IdlKind::Tuple) => reading && j >= 0 && (j == t.child0 || j == t.child1),
        Some(IdlKind::Enum) => 0 <= t.child0 < data.enums@.len() && has_field(
            data.enums@[t.child0 as int].variants@,
            j,
        ),
        _ => false,
    }
}

/// Whether a set of types is sound and leads to no type outside it.
pub open spec fn closed_under(data: SchemaData, r: Set<int>, reading: bool) -> bool {
    &&& forall|i: int| #[trigger] r.contains(i) ==> node_sound(data, i, reading)
    &&& forall|i: int, j: int|
        #![trigger r.contains(i), leads(data, i, j, reading)]
        r.contains(i) && leads(data, i, j, reading) ==> r.contains(j)
}

/// Whether every node that is reached from type `idx`, when a value of it is
/// read from slots or, if `reading` is false, written to them, is sound. What
/// is not reached does not matter.
pub open spec fn sound(data: SchemaData, idx: int, reading: bool) -> bool {
    exists|r: Set<int>| #[trigger] closed_under(data, r, reading) && r.contains(idx)
}

proof fn lemma_sound(data: SchemaData, idx: int, reading: bool)
    requires
        sound(data, idx, reading),
    ensures
        node_sound(data, idx, reading),
        forall|j: int| #[trigger] leads(data, idx, j, reading) ==> sound(data, j, reading),
{
    let r = choose|r: Set<int>| #[trigger] closed_under(data, r, reading) && r.contains(idx);
    assert forall|j: int| #[trigger] leads(data, idx, j, reading) implies sound(
        data,
        j,
        reading,
    ) by {
        assert(closed_under(data, r, reading) && r.contains(j));
    }
}

proof fn lemma_sound_fields(data: SchemaData, idx: int, k: int, reading: bool)
    requires
        sound(data, idx, reading),
        is_kind(data, idx, IdlKind::Enum),
        0 <= data.types@[idx].child0 < data.enums@.len(),
        0 <= k < data.enums@[data.types@[idx].child0 as int].variants@.len(),
    ensures
        all_sound(
            data,
            data.enums@[data.types@[idx].child0 as int].variants@[k].field_type_idxs@,
            reading,
        ),
{
    lemma_sound(data, idx, reading);
    let vs = data.enums@[data.types@[idx].child0 as int].variants@;
    assert forall|f: int| 0 <= f < vs[k].field_type_idxs@.len() implies sound(
        data,
        #[trigger] vs[k].field_type_idxs@[f] as int,
        reading,
    ) by {
        assert(has_field(vs, vs[k].field_type_idxs@[f] as int));
        assert(leads(data, idx, vs[k].field_type_idxs@[f] as int, reading));
    }
}

/// Whether all of the types `idxs` are sound.
pub open spec fn all_sound(data: SchemaData, idxs: Seq<u32>, reading: bool) -> bool {
    forall|i: int| 0 <= i < idxs.len() ==> sound(data, #[trigger] idxs[i] as int, reading)
}

/// Whether the parameters of a method have types.
pub open spec fn params_there(data: SchemaData, m: MethodInfo) -> bool {
    forall|i: int| 0 <= i < m.params@.len() ==> in_table(data, (#[trigger] m.params@[i]).type_idx as int)
}

/// Whether the parameters of a method have types, and those that the caller
/// passes sound ones.
pub open spec fn params_sound(data: SchemaData, m: MethodInfo) -> bool {
    &&& params_there(data, m)
    &&& forall|i: int|
        0 <= i < m.params@.len() && !is_out(data, #[trigger] m.params@[i]) ==> sound(
            data,
            m.params@[i].type_idx as int,
            false,
        )
}

/// Whether a method can be called: all that its parameters and its result reach
/// is sound.
pub open spec fn callable(data: SchemaData, m: MethodInfo) -> bool {
    params_sound(data, m) && sound(data, m.return_type_idx as int, true)
}

// ---------------------------------------------------------------------------
// Checking it
// ---------------------------------------------------------------------------

fn depth_at(d: &Vec<usize>, i: i32) -> (r: usize)
    ensures
        r == if 0 <= i < d@.len() {
            d@[i as int]
        } else {
            0
        },
{
    if i >= 0 && (i as u64) < d.len() as u64 {
        d[i as usize]
    } else {
        0
    }
}

fn deepen(data: &SchemaData, d: &Vec<usize>, limit: usize) -> (r: Vec<usize>)
    requires
        limit < usize::MAX,
        d@.len() == data.types@.len(),
        forall|i: int|
            0 <= i < d@.len() ==> #[trigger] d@[i] == tuple_depth(data.types@, i, limit as nat) && d@[i]
                <= limit,
    ensures
        r@.len() == data.types@.len(),
        forall|i: int|
            0 <= i < r@.len() ==> #[trigger] r@[i] == tuple_depth(
                data.types@,
                i,
                (limit + 1) as nat,
            ) && r@[i] <= limit + 1,
{
    let mut out: Vec<usize> = Vec::new();
    let mut i: usize = 0;
    while i < data.types.len()
        invariant
            limit < usize::MAX,
            i <= data.types@.len(),
            out@.len() == i,
            d@.len() == data.types@.len(),
            forall|k: int|
                0 <= k < d@.len() ==> #[trigger] d@[k] == tuple_depth(data.types@, k, limit as nat)
                    && d@[k] <= limit,
            forall|k: int|
                0 <= k < i ==> #[trigger] out@[k] == tuple_depth(data.types@, k, (limit + 1) as nat)
                    && out@[k] <= limit + 1,
        decreases data.types.len() - i,
    {
        let t: TypeNode = data.types[i];
        let one: usize = match t.kind {
            Some(IdlKind::Tuple) => {
                let a: usize = depth_at(d, t.child0);
                let b: usize = depth_at(d, t.child1);
                if a < b {
                    b + 1
                } else {
                    a + 1
                }
            },
            _ => 0,
        };
        proof {
            reveal_with_fuel(tuple_depth, 2);
        }
        out.push(one);
        i = i + 1;
    }
    out
}

fn depths(data: &SchemaData) -> (r: Vec<usize>)
    ensures
        r@.len() == data.types@.len(),
        forall|i: int| 0 <= i < r@.len() ==> #[trigger] r@[i] == nesting(*data, i),
{
    let n: usize = data.types.len();
    let mut d: Vec<usize> = Vec::new();
    let mut i: usize = 0;
    while i < n
        invariant
            n == data.types@.len(),
            i <= n,
            d@.len() == i,
            forall|k: int| 0 <= k < i ==> #[trigger] d@[k] == tuple_depth(data.types@, k, 0),
        decreases n - i,
    {
        d.push(0);
        i = i + 1;
    }
    let mut f: usize = 0;
    while f < n
        invariant
            n == data.types@.len(),
            f <= n,
            d@.len() == n,
            forall|k: int|
                0 <= k < n ==> #[trigger] d@[k] == tuple_depth(data.types@, k, f as nat) && d@[k] <= f,
        decreases n - f,
    {
        d = deepen(data, &d, f);
        f = f + 1;
    }
    d
}

fn has_place(n: usize, i: i32) -> (r: bool)
    ensures
        r == (0 <= i < n),
{
    i >= 0 && (i as u64) < n as u64
}

fn check_node(data: &SchemaData, d: &Vec<usize>, i: usize, reading: bool) -> (r: bool)
    requires
        i < data.types@.len(),
        d@.len() == data.types@.len(),
        forall|k: int| 0 <= k < d@.len() ==> #[trigger] d@[k] == nesting(*data, k),
    ensures
        r == node_sound(*data, i as int, reading),
{
    let n: usize = data.types.len();
    let t: TypeNode = data.types[i];
    match t.kind {
        Some(IdlKind::Slice) => reading || has_place(n, t.child0),
        Some(IdlKind::Vec) => {
            if !has_place(n, t.child0) {
                return false;
            }
            let c: TypeNode = data.types[t.child0 as usize];
            match c.kind {
                Some(IdlKind::Vec) => has_place(n, c.child0),
                _ => true,
            }
        },
        Some(IdlKind::Tuple) => {
            if !reading {
                return true;
            }
            (t.child0 < 0 || depth_at(d, t.child0) < d[i]) && (t.child1 < 0 || depth_at(d, t.child1)
                < d[i])
        },
        _ => true,
    }
}

/// Whether `j` is a position in `good` that is marked.
pub open spec fn marked(good: Seq<bool>, j: int) -> bool {
    0 <= j < good.len() && good[j]
}

fn is_marked(good: &Vec<bool>, j: i64) -> (r: bool)
    ensures
        r == marked(good@, j as int),
{
    j >= 0 && (j as u64) < good.len() as u64 && good[j as usize]
}

fn fields_marked(good: &Vec<bool>, vs: &Vec<VariantInfo>) -> (r: bool)
    ensures
        r == (forall|j: int| #[trigger] has_field(vs@, j) ==> marked(good@, j)),
{
    let mut v: usize = 0;
    while v < vs.len()
        invariant
            v <= vs@.len(),
            forall|a: int, k: int|
                0 <= a < v && 0 <= k < vs@[a].field_type_idxs@.len() ==> marked(
                    good@,
                    #[trigger] vs@[a].field_type_idxs@[k] as int,
                ),
        decreases vs.len() - v,
    {
        let idxs = &vs[v].field_type_idxs;
        let mut k: usize = 0;
        while k < idxs.len()
            invariant
                v < vs@.len(),
                *idxs == vs@[v as int].field_type_idxs,
                k <= idxs@.len(),
                forall|b: int| 0 <= b < k ==> marked(good@, #[trigger] idxs@[b] as int),
            decreases idxs.len() - k,
        {
            if !is_marked(good, idxs[k] as i64) {
                proof {
                    let j = vs@[v as int].field_type_idxs@[k as int] as int;
                    assert(has_field(vs@, j));
                }
                return false;
            }
            k = k + 1;
        }
        v = v + 1;
    }
    true
}

/// Whether type `i` leads to marked types only.
pub open spec fn leads_to_marked(data: SchemaData, good: Seq<bool>, i: int, reading: bool) -> bool {
    forall|j: int| #[trigger] leads(data, i, j, reading) ==> marked(good, j)
}

fn check_leads(data: &SchemaData, good: &Vec<bool>, i: usize, reading: bool) -> (r: bool)
    requires
        i < data.types@.len(),
    ensures
        r == leads_to_marked(*data, good@, i as int, reading),
{
    let t: TypeNode = data.types[i];
    match t.kind {
        Some(IdlKind::Option) => {
            let r = !reading || is_marked(good, t.child0 as i64);
            assert(reading ==> leads(*data, i as int, t.child0 as int, reading));
            r
        },
        Some(IdlKind::Tuple) => {
            let r = !reading || ((t.child0 < 0 || is_marked(good, t.child0 as i64)) && (t.child1 < 0
                || is_marked(good, t.child1 as i64)));
            assert(reading && t.child0 >= 0 ==> leads(*data, i as int, t.child0 as int, reading));
            assert(reading && t.child1 >= 0 ==> leads(*data, i as int, t.child1 as int, reading));
            r
        },
        Some(IdlKind::Enum) => {
            if t.child0 < 0 || t.child0 as u64 >= data.enums.len() as u64 {
                return true;
            }
            let vs = &data.enums[t.child0 as usize].variants;
            let r = fields_marked(good, vs);
            proof {
                if !r {
                    let j = choose|j: int| #[trigger] has_field(vs@, j) && !marked(good@, j);
                    assert(leads(*data, i as int, j, reading));
                }
            }
            r
        },
        _ => true,
    }
}

/// Whether `good` marks every type of every closed set.
pub open spec fn marks_enough(data: SchemaData, good: Seq<bool>, reading: bool) -> bool {
    forall|r: Set<int>, i: int|
        #![trigger closed_under(data, r, reading), r.contains(i)]
        closed_under(data, r, reading) && r.contains(i) ==> marked(good, i)
}

/// How many of the first `n` are marked.
pub open spec fn mark_count(good: Seq<bool>, n: nat) -> nat
    decreases n,
{
    if n == 0 {
        0
    } else {
        mark_count(good, (n - 1) as nat) + if good[n - 1] {
            1nat
        } else {
            0
        }
    }
}

proof fn lemma_unmark(good: Seq<bool>, i: int, n: nat)
    requires
        0 <= i < good.len(),
        n <= good.len(),
        good[i],
    ensures
        mark_count(good.update(i, false), n) == mark_count(good, n) - if i < n {
            1int
        } else {
            0
        },
    decreases n,
{
    if n > 0 {
        lemma_unmark(good, i, (n - 1) as nat);
    }
}

/// For each type whether all that is reached from it is sound.
pub fn sound_types(data: &SchemaData, reading: bool) -> (r: Vec<bool>)
    ensures
        r@.len() == data.types@.len(),
        forall|i: int| 0 <= i < r@.len() ==> #[trigger] r@[i] == sound(*data, i, reading),
{
    let n: usize = data.types.len();
    let d = depths(data);
    let mut good: Vec<bool> = Vec::new();
    let mut i: usize = 0;
    while i < n
        invariant
            n == data.types@.len(),
            i <= n,
            good@.len() == i,
            d@.len() == n,
            forall|k: int| 0 <= k < d@.len() ==> #[trigger] d@[k] == nesting(*data, k),
            forall|k: int| 0 <= k < i ==> #[trigger] good@[k] == node_sound(*data, k, reading),
        decreases n - i,
    {
        good.push(check_node(data, &d, i, reading));
        i = i + 1;
    }
    assert(marks_enough(*data, good@, reading)) by {
        assert forall|r: Set<int>, i: int| closed_under(*data, r, reading) && r.contains(i) implies marked(
            good@,
            i,
        ) by {
            assert(node_sound(*data, i, reading));
        }
    }
    let mut changed = true;
    while changed
        invariant
            n == data.types@.len(),
            good@.len() == n,
            forall|k: int| 0 <= k < n && #[trigger] good@[k] ==> node_sound(*data, k, reading),
            marks_enough(*data, good@, reading),
            !changed ==> forall|k: int|
                0 <= k < n && #[trigger] good@[k] ==> leads_to_marked(*data, good@, k, reading),
        decreases
                mark_count(good@, n as nat) + if changed {
                    1nat
                } else {
                    0
                },
    {
        changed = false;
        let ghost before = mark_count(good@, n as nat);
        let ghost start = good@;
        let mut k: usize = 0;
        while k < n
            invariant
                n == data.types@.len(),
                k <= n,
                good@.len() == n,
                forall|a: int| 0 <= a < n && #[trigger] good@[a] ==> node_sound(*data, a, reading),
                marks_enough(*data, good@, reading),
                changed ==> mark_count(good@, n as nat) < before,
                !changed ==> good@ == start && before == mark_count(start, n as nat) && forall|a: int|
                    0 <= a < k && #[trigger] good@[a] ==> leads_to_marked(*data, good@, a, reading),
            decreases n - k,
        {
            if good[k] && !check_leads(data, &good, k, reading) {
                let ghost old_good = good@;
                good.set(k, false);
                changed = true;
                proof {
                    lemma_unmark(old_good, k as int, n as nat);
                    let bad = choose|j: int|
                        #[trigger] leads(*data, k as int, j, reading) && !marked(old_good, j);
                    assert forall|r: Set<int>, i: int|
                        closed_under(*data, r, reading) && r.contains(i) implies marked(good@, i) by {
                        assert(marked(old_good, i));
                        if i == k {
                            assert(leads(*data, i, bad, reading));
                            assert(r.contains(bad));
                            assert(marked(old_good, bad));
                        }
                    }
                }
            }
            k = k + 1;
        }
    }
    proof {
        let r = Set::new(|i: int| marked(good@, i));
        assert(closed_under(*data, r, reading)) by {
            assert forall|i: int, j: int| r.contains(i) && leads(*data, i, j, reading) implies r.contains(
                j,
            ) by {
                assert(good@[i]);
                assert(leads_to_marked(*data, good@, i, reading));
            }
        }
        assert forall|i: int| 0 <= i < n implies #[trigger] good@[i] == sound(*data, i, reading) by {
            if good@[i] {
                assert(r.contains(i));
            }
            if sound(*data, i, reading) {
                let q = choose|q: Set<int>| #[trigger] closed_under(*data, q, reading) && q.contains(i);
                assert(marked(good@, i));
            }
        }
    }
    good
}

proof fn lemma_sound_in_table(data: SchemaData, i: int, reading: bool)
    ensures
        sound(data, i, reading) ==> in_table(data, i),
{
    if sound(data, i, reading) {
        lemma_sound(data, i, reading);
    }
}

/// Whether a method can be called: all that its parameters and its result reach
/// is sound.
pub fn is_callable(data: &SchemaData, m: &MethodInfo) -> (r: bool)
    ensures
        r == callable(*data, *m),
{
    let written = sound_types(data, false);
    let read = sound_types(data, true);
    let mut i: usize = 0;
    while i < m.params.len()
        invariant
            i <= m.params@.len(),
            written@.len() == data.types@.len(),
            forall|k: int| 0 <= k < written@.len() ==> #[trigger] written@[k] == sound(*data, k, false),
            forall|k: int|
                0 <= k < i ==> in_table(*data, (#[trigger] m.params@[k]).type_idx as int) && (is_out(
                    *data,
                    m.params@[k],
                ) || sound(*data, m.params@[k].type_idx as int, false)),
        decreases m.params.len() - i,
    {
        let idx: u32 = m.params[i].type_idx;
        if idx as u64 >= data.types.len() as u64 {
            assert(!in_table(*data, m.params@[i as int].type_idx as int));
            return false;
        }
        if !param_is_out(data, &m.params[i]) && !written[idx as usize] {
            assert(!is_out(*data, m.params@[i as int]));
            return false;
        }
        i = i + 1;
    }
    proof {
        lemma_sound_in_table(*data, m.return_type_idx as int, true);
    }
    is_marked(&read, m.return_type_idx as i64)
}

// ---------------------------------------------------------------------------
// Consistent schemas
// ---------------------------------------------------------------------------

/// Whether a node at position `i` of a table with `n` nodes has the children
/// that its kind needs. The parts of a tuple stand before it.
pub open spec fn node_consistent(t: TypeNode, i: int, n: int) -> bool {
    match t.kind {
        Some(IdlKind::Slice) => 0 <= t.child0 < n,
        Some(IdlKind::Vec) => 0 <= t.child0 < n,
        Some(IdlKind::Option) => 0 <= t.child0 < n,
        Some(IdlKind::Tuple) => t.child0 < i && t.child1 < i,
        _ => true,
    }
}

/// Whether all of `idxs` are positions in a table with `n` nodes.
pub open spec fn all_below(idxs: Seq<u32>, n: int) -> bool {
    forall|i: int| 0 <= i < idxs.len() ==> #[trigger] idxs[i] < n
}

/// Whether the variants of an enum have types in a table with `n` nodes.
pub open spec fn enum_consistent(e: EnumInfo, n: int) -> bool {
    forall|i: int| 0 <= i < e.variants@.len() ==> all_below((#[trigger] e.variants@[i]).field_type_idxs@, n)
}

/// Whether a method has types in a table with `n` nodes.
pub open spec fn method_consistent(m: MethodInfo, n: int) -> bool {
    &&& forall|i: int| 0 <= i < m.params@.len() ==> (#[trigger] m.params@[i]).type_idx < n
    &&& m.return_type_idx < n
}

/// Whether every node of a table has the children that its kind needs.
pub open spec fn table_consistent(types: Seq<TypeNode>) -> bool {
    forall|i: int|
        0 <= i < types.len() ==> node_consistent(#[trigger] types[i], i, types.len() as int)
}

proof fn lemma_depth(types: Seq<TypeNode>, i: int, f: nat, g: nat)
    requires
        table_consistent(types),
        i < f,
        i < g,
    ensures
        tuple_depth(types, i, f) == tuple_depth(types, i, g),
    decreases i,
{
    reveal_with_fuel(tuple_depth, 2);
    if 0 <= i < types.len() && types[i].kind == Some(IdlKind::Tuple) {
        assert(node_consistent(types[i], i, types.len() as int));
        let c0 = types[i].child0 as int;
        let c1 = types[i].child1 as int;
        if c0 >= 0 {
            lemma_depth(types, c0, (f - 1) as nat, (g - 1) as nat);
        }
        if c1 >= 0 {
            lemma_depth(types, c1, (f - 1) as nat, (g - 1) as nat);
        }
    }
}

/// In a table whose nodes have the children that their kinds need, every type
/// is sound, and every method with types in it can be called.
pub proof fn consistent_schemas_are_callable(data: SchemaData, m: MethodInfo, idx: int, reading: bool)
    requires
        table_consistent(data.types@),
        forall|i: int|
            0 <= i < data.enums@.len() ==> enum_consistent(
                #[trigger] data.enums@[i],
                data.types@.len() as int,
            ),
        method_consistent(m, data.types@.len() as int),
        0 <= idx < data.types@.len(),
    ensures
        sound(data, idx, reading),
        callable(data, m),
{
    lemma_all_sound(data, reading);
    lemma_all_sound(data, false);
    lemma_all_sound(data, true);
}

proof fn lemma_all_sound(data: SchemaData, reading: bool)
    requires
        table_consistent(data.types@),
        forall|i: int|
            0 <= i < data.enums@.len() ==> enum_consistent(
                #[trigger] data.enums@[i],
                data.types@.len() as int,
            ),
    ensures
        forall|i: int| in_table(data, i) ==> #[trigger] sound(data, i, reading),
{
    let types = data.types@;
    let n = types.len();
    let r = Set::new(|i: int| 0 <= i < n);
    assert forall|i: int| #[trigger] r.contains(i) implies node_sound(data, i, reading) by {
        assert(node_consistent(types[i], i, n as int));
        let c0 = types[i].child0 as int;
        let c1 = types[i].child1 as int;
        if types[i].kind == Some(IdlKind::Vec) {
            assert(node_consistent(types[c0], c0, n as int));
        }
        if types[i].kind == Some(IdlKind::Tuple) {
            if c0 >= 0 {
                lemma_depth(types, c0, n, (n - 1) as nat);
            }
            if c1 >= 0 {
                lemma_depth(types, c1, n, (n - 1) as nat);
            }
        }
    }
    assert forall|i: int, j: int| r.contains(i) && leads(data, i, j, reading) implies r.contains(
        j,
    ) by {
        assert(node_consistent(types[i], i, n as int));
        if types[i].kind == Some(IdlKind::Enum) {
            let e = data.enums@[types[i].child0 as int];
            assert(enum_consistent(e, n as int));
            let (v, k) = choose|v: int, k: int|
                0 <= v < e.variants@.len() && 0 <= k < e.variants@[v].field_type_idxs@.len()
                    && #[trigger] e.variants@[v].field_type_idxs@[k] == j;
            assert(all_below(e.variants@[v].field_type_idxs@, n as int));
        }
    }
    assert(closed_under(data, r, reading));
    assert forall|i: int| in_table(data, i) implies #[trigger] sound(data, i, reading) by {
        assert(r.contains(i));
    }
}

/// A node as a spier stores it.
pub open spec fn stored(n: IdlTypeNode, code: u8) -> TypeNode {
    TypeNode {
        code,
        kind: Some(n.kind),
        size: n.size,
        child0: match n.child0 {
            Some(c) => c as i32,
            None => -1i32,
        },
        child1: match n.child1 {
            Some(c) => c as i32,
            None => -1i32,
        },
    }
}

/// The tables that the macros build are consistent.
pub proof fn built_tables_are_consistent(t: Table, types: Seq<TypeNode>)
    requires
        wf_table(t),
        t.nodes.len() <= i32::MAX,
        types.len() == t.nodes.len(),
        forall|i: int|
            0 <= i < types.len() ==> (#[trigger] types[i]) == stored(t.nodes[i], types[i].code),
    ensures
        table_consistent(types),
{
    assert forall|i: int| 0 <= i < types.len() implies node_consistent(
        #[trigger] types[i],
        i,
        types.len() as int,
    ) by {
        assert(wf_node(t.nodes[i], i, t.enums.len(), t.structs.len()));
    }
}

/// Appending the table of an enum keeps a table consistent.
pub proof fn merging_keeps_consistency(table: Seq<TypeNode>, types: Seq<TypeNode>)
    requires
        table_consistent(table),
        table_consistent(types),
        table.len() + types.len() <= i32::MAX,
    ensures
        table_consistent(with_types(table, types)),
{
    let all = with_types(table, types);
    assert forall|i: int| 0 <= i < all.len() implies node_consistent(
        #[trigger] all[i],
        i,
        all.len() as int,
    ) by {
        if i < table.len() {
            assert(node_consistent(table[i], i, table.len() as int));
        } else {
            let k = i - table.len();
            assert(node_consistent(types[k], k, types.len() as int));
            assert(all[i] == moved_node(types[k], table.len() as int));
        }
    }
}

// ---------------------------------------------------------------------------
// Arguments
// ---------------------------------------------------------------------------

/// An argument: what it is under each conversion, where it has one. A float is
/// given by its bits. The caller knows it again by `id`.
pub struct Arg {
    pub id: usize,
    pub truth: Option<bool>,
    pub word32: Option<u32>,
    pub word64: Option<u64>,
    pub bits32: Option<u32>,
    pub bits64: Option<u64>,
    pub text: Option<String>,
    pub bytes: Option<Vec<u8>>,
    pub bytes_list: Option<Vec<Vec<u8>>>,
    pub form: ArgForm,
}

/// What an argument is besides.
pub enum ArgForm {
    /// An opaque value: the type it came as, and its address.
    Handle(u32, u64),
    /// An enum value: its variant and its fields.
    Enum(String, Vec<Arg>),
    /// Anything else, of a type with this name.
    Other(String),
}

/// A piece of the input of a call. Texts, byte strings and lists take two
/// slots, an address and a length; the others take one.
pub enum Piece<'a> {
    Word(u64),
    Text(&'a String),
    Bytes(&'a Vec<u8>),
    BytesList(&'a Vec<Vec<u8>>),
    /// A fresh byte vector that the method fills.
    OutVec,
}

/// The model of a [`Piece`].
pub enum PieceModel {
    Word(u64),
    Text(Seq<char>),
    Bytes(Seq<u8>),
    BytesList(Seq<Vec<u8>>),
    OutVec,
}

impl<'a> View for Piece<'a> {
    type V = PieceModel;

    open spec fn view(&self) -> PieceModel {
        match *self {
            Piece::Word(w) => PieceModel::Word(w),
            Piece::Text(s) => PieceModel::Text(s@),
            Piece::Bytes(b) => PieceModel::Bytes(b@),
            Piece::BytesList(l) => PieceModel::BytesList(l@),
            Piece::OutVec => PieceModel::OutVec,
        }
    }
}

/// The models of a list of pieces.
pub open spec fn pieces_model(v: Seq<Piece>) -> Seq<PieceModel> {
    Seq::new(v.len(), |i: int| v[i]@)
}

/// What a type asks an argument to convert to.
#[derive(Clone, Copy, Debug, PartialEq, Eq, Structural)]
pub enum Wanted {
    Truth,
    Word32,
    Word64,
    Bits32,
    Bits64,
    Text,
    Bytes,
    BytesList,
    Enum,
}

/// Why an argument cannot be encoded.
pub enum EncodeError {
    /// The argument with this id does not convert to what its type asks for.
    Conversion(usize, Wanted),
    /// Its value is not one that can be passed.
    Value(String),
    /// It is not of the type that is asked for.
    Type(String),
}

/// The model of an [`EncodeError`].
pub enum EncodeFailure {
    Conversion(usize, Wanted),
    Value(Seq<char>),
    Type(Seq<char>),
}

impl View for EncodeError {
    type V = EncodeFailure;

    open spec fn view(&self) -> EncodeFailure {
        match *self {
            EncodeError::Conversion(id, w) => EncodeFailure::Conversion(id, w),
            EncodeError::Value(s) => EncodeFailure::Value(s@),
            EncodeError::Type(s) => EncodeFailure::Type(s@),
        }
    }
}

/// What encoding yields.
pub type Encoded = Result<Seq<PieceModel>, EncodeFailure>;

/// One slot, if the argument converts.
pub open spec fn one_word(id: usize, wanted: Wanted, v: Option<u64>) -> Encoded {
    match v {
        Some(w) => Ok(seq![PieceModel::Word(w)]),
        None => Err(EncodeFailure::Conversion(id, wanted)),
    }
}

/// A number as a slot.
pub open spec fn widened(v: Option<u32>) -> Option<u64> {
    match v {
        Some(w) => Some(w as u64),
        None => None,
    }
}

/// A byte string, if the argument converts to one.
pub open spec fn byte_piece(arg: Arg) -> Encoded {
    match arg.bytes {
        Some(b) => Ok(seq![PieceModel::Bytes(b@)]),
        None => Err(EncodeFailure::Conversion(arg.id, Wanted::Bytes)),
    }
}

/// Whether type `idx` is of kind `kind`.
pub open spec fn is_kind(data: SchemaData, idx: int, kind: IdlKind) -> bool {
    data.types@[idx].kind == Some(kind)
}

/// A vector argument: of bytes, or of vectors of bytes.
pub open spec fn encoded_vec(data: SchemaData, child: int, arg: Arg) -> Encoded {
    if is_kind(data, child, IdlKind::U8) {
        byte_piece(arg)
    } else if is_kind(data, child, IdlKind::Vec) && is_kind(
        data,
        data.types@[child].child0 as int,
        IdlKind::U8,
    ) {
        match arg.bytes_list {
            Some(l) => Ok(seq![PieceModel::BytesList(l@)]),
            None => Err(EncodeFailure::Conversion(arg.id, Wanted::BytesList)),
        }
    } else {
        Err(
            EncodeFailure::Value(
                "unsupported Vec element kind "@ + dec(data.types@[child].code as nat),
            ),
        )
    }
}

/// A struct argument: an opaque value of the same struct.
pub open spec fn encoded_struct(data: SchemaData, idx: int, arg: Arg) -> Encoded {
    let expected = struct_name(data.types@, data.struct_names@, idx);
    match arg.form {
        ArgForm::Handle(ty, ptr) => if struct_id(data.types@, ty as int) != struct_id(
            data.types@,
            idx,
        ) {
            Err(
                EncodeFailure::Type(
                    "expected "@ + expected + ", got "@ + struct_name(
                        data.types@,
                        data.struct_names@,
                        ty as int,
                    ),
                ),
            )
        } else {
            Ok(seq![PieceModel::Word(ptr)])
        },
        ArgForm::Enum(_, _) => Err(
            EncodeFailure::Type("expected "@ + expected + " (OpaqueHandle), got SpierEnumValue"@),
        ),
        ArgForm::Other(name) => Err(
            EncodeFailure::Type("expected "@ + expected + " (OpaqueHandle), got "@ + name@),
        ),
    }
}

/// The position of the first variant called `name`, from `i` on.
pub open spec fn variant_named(vs: Seq<VariantInfo>, name: Seq<char>, i: nat) -> Option<nat>
    decreases vs.len() - i,
{
    if i >= vs.len() {
        None
    } else if vs[i as int].name@ == name {
        Some(i)
    } else {
        variant_named(vs, name, i + 1)
    }
}

/// The message for an enum that the schema does not list.
pub open spec fn no_enum(child: i32) -> Seq<char> {
    "enum index "@ + signed_dec(child as int) + " out of range"@
}

/// The pieces of an argument of type `idx`, or why it cannot be passed.
pub open spec fn encoded(data: SchemaData, idx: int, arg: Arg) -> Encoded
    decreases arg, 1nat,
{
    let t = data.types@[idx];
    match t.kind {
        Some(IdlKind::Unit) => Ok(Seq::empty()),
        Some(IdlKind::Bool) => match arg.truth {
            Some(b) => Ok(
                seq![
                    PieceModel::Word(
                        if b {
                            1
                        } else {
                            0
                        },
                    ),
                ],
            ),
            None => Err(EncodeFailure::Conversion(arg.id, Wanted::Truth)),
        },
        Some(IdlKind::U32) => one_word(arg.id, Wanted::Word32, widened(arg.word32)),
        Some(IdlKind::U64) => one_word(arg.id, Wanted::Word64, arg.word64),
        Some(IdlKind::F32) => one_word(arg.id, Wanted::Bits32, widened(arg.bits32)),
        Some(IdlKind::F64) => one_word(arg.id, Wanted::Bits64, arg.bits64),
        Some(IdlKind::U8) => match arg.word32 {
            Some(w) => Ok(seq![PieceModel::Word((w % 256) as u64)]),
            None => Err(EncodeFailure::Conversion(arg.id, Wanted::Word32)),
        },
        Some(IdlKind::Str) | Some(IdlKind::String) => match arg.text {
            Some(s) => Ok(seq![PieceModel::Text(s@)]),
            None => Err(EncodeFailure::Conversion(arg.id, Wanted::Text)),
        },
        Some(IdlKind::Slice) => if is_kind(data, t.child0 as int, IdlKind::U8) {
            byte_piece(arg)
        } else {
            Err(EncodeFailure::Value("only &[u8] slices supported"@))
        },
        Some(IdlKind::Vec) => encoded_vec(data, t.child0 as int, arg),
        Some(IdlKind::Struct) => encoded_struct(data, idx, arg),
        Some(IdlKind::Enum) => match arg.form {
            ArgForm::Enum(variant, fields) => if !(0 <= t.child0 < data.enums@.len()) {
                Err(EncodeFailure::Value(no_enum(t.child0)))
            } else {
                let e = data.enums@[t.child0 as int];
                match variant_named(e.variants@, variant@, 0) {
                    None => Err(
                        EncodeFailure::Value(
                            "enum "@ + e.name@ + " has no variant "@ + quoted(variant@),
                        ),
                    ),
                    Some(k) => {
                        let v = e.variants@[k as int];
                        let idxs = v.field_type_idxs@;
                        if fields@.len() != idxs.len() {
                            Err(
                                EncodeFailure::Value(
                                    "variant "@ + quoted(variant@) + " expects "@ + dec(
                                        idxs.len(),
                                    ) + " field(s), got "@ + dec(fields@.len()),
                                ),
                            )
                        } else {
                            match encoded_fields(data, idxs, fields@, fields@.len()) {
                                Ok(ps) => Ok(seq![PieceModel::Word(v.disc as u64)] + ps),
                                Err(e) => Err(e),
                            }
                        }
                    },
                }
            },
            _ => Err(EncodeFailure::Conversion(arg.id, Wanted::Enum)),
        },
        _ => Err(EncodeFailure::Value("unsupported input type kind "@ + dec(t.code as nat))),
    }
}

/// The pieces of the first `n` fields.
pub open spec fn encoded_fields(data: SchemaData, idxs: Seq<u32>, args: Seq<Arg>, n: nat) -> Encoded
    decreases args, n,
{
    if n == 0 || n > args.len() {
        Ok(Seq::empty())
    } else {
        match encoded_fields(data, idxs, args, (n - 1) as nat) {
            Ok(before) => match encoded(data, idxs[n - 1] as int, args[n - 1]) {
                Ok(ps) => Ok(before + ps),
                Err(e) => Err(e),
            },
            Err(e) => Err(e),
        }
    }
}

/// Whether `r` is the result `e` describes.
pub open spec fn encodes(r: Result<Vec<Piece>, EncodeError>, e: Encoded) -> bool {
    match r {
        Ok(ps) => e == Ok::<Seq<PieceModel>, EncodeFailure>(pieces_model(ps@)),
        Err(x) => e == Err::<Seq<PieceModel>, EncodeFailure>(x@),
    }
}

fn single<'a>(p: Piece<'a>) -> (r: Result<Vec<Piece<'a>>, EncodeError>)
    ensures
        encodes(r, Ok(seq![p@])),
{
    let mut v: Vec<Piece<'a>> = Vec::new();
    v.push(p);
    assert(pieces_model(v@) =~= seq![p@]);
    Ok(v)
}

fn word<'a>(id: usize, wanted: Wanted, v: Option<u64>) -> (r: Result<Vec<Piece<'a>>, EncodeError>)
    ensures
        encodes(r, one_word(id, wanted, v)),
{
    match v {
        Some(w) => single(Piece::Word(w)),
        None => Err(EncodeError::Conversion(id, wanted)),
    }
}

fn short_word<'a>(id: usize, wanted: Wanted, v: Option<u32>) -> (r: Result<Vec<Piece<'a>>, EncodeError>)
    ensures
        encodes(r, one_word(id, wanted, widened(v))),
{
    match v {
        Some(w) => single(Piece::Word(w as u64)),
        None => Err(EncodeError::Conversion(id, wanted)),
    }
}

fn byte_string<'a>(arg: &'a Arg) -> (r: Result<Vec<Piece<'a>>, EncodeError>)
    ensures
        encodes(r, byte_piece(*arg)),
{
    match &arg.bytes {
        Some(b) => single(Piece::Bytes(b)),
        None => Err(EncodeError::Conversion(arg.id, Wanted::Bytes)),
    }
}

fn has_kind(data: &SchemaData, idx: usize, kind: IdlKind) -> (r: bool)
    requires
        idx < data.types@.len(),
    ensures
        r == is_kind(*data, idx as int, kind),
{
    match data.types[idx].kind {
        Some(k) => k == kind,
        None => false,
    }
}

fn encode_vec<'a>(data: &SchemaData, child: usize, arg: &'a Arg) -> (r: Result<
    Vec<Piece<'a>>,
    EncodeError,
>)
    requires
        element_there(*data, child as int),
    ensures
        encodes(r, encoded_vec(*data, child as int, *arg)),
{
    if has_kind(data, child, IdlKind::U8) {
        return byte_string(arg);
    }
    if has_kind(data, child, IdlKind::Vec) {
        if has_kind(data, data.types[child].child0 as usize, IdlKind::U8) {
            return match &arg.bytes_list {
                Some(l) => single(Piece::BytesList(l)),
                None => Err(EncodeError::Conversion(arg.id, Wanted::BytesList)),
            };
        }
    }
    Err(
        EncodeError::Value(
            String::from_str("unsupported Vec element kind ").concat(
                decimal(data.types[child].code as u64).as_str(),
            ),
        ),
    )
}

fn encode_struct<'a>(data: &SchemaData, idx: u32, arg: &'a Arg) -> (r: Result<
    Vec<Piece<'a>>,
    EncodeError,
>)
    ensures
        encodes(r, encoded_struct(*data, idx as int, *arg)),
{
    let expected = struct_name_at(data, idx);
    match &arg.form {
        ArgForm::Handle(ty, ptr) => {
            if struct_id_at(data, *ty) != struct_id_at(data, idx) {
                Err(
                    EncodeError::Type(
                        String::from_str("expected ").concat(expected.as_str()).concat(
                            ", got ",
                        ).concat(struct_name_at(data, *ty).as_str()),
                    ),
                )
            } else {
                single(Piece::Word(*ptr))
            }
        },
        ArgForm::Enum(_, _) => Err(
            EncodeError::Type(
                String::from_str("expected ").concat(expected.as_str()).concat(
                    " (OpaqueHandle), got SpierEnumValue",
                ),
            ),
        ),
        ArgForm::Other(name) => Err(
            EncodeError::Type(
                String::from_str("expected ").concat(expected.as_str()).concat(
                    " (OpaqueHandle), got ",
                ).concat(name.as_str()),
            ),
        ),
    }
}

fn find_variant(vs: &Vec<VariantInfo>, name: &str) -> (r: Option<usize>)
    ensures
        match r {
            Some(i) => variant_named(vs@, name@, 0) == Some(i as nat) && i < vs@.len(),
            None => variant_named(vs@, name@, 0) is None,
        },
{
    let mut i: usize = 0;
    while i < vs.len()
        invariant
            i <= vs.len(),
            variant_named(vs@, name@, 0) == variant_named(vs@, name@, i as nat),
        decreases vs.len() - i,
    {
        if same(vs[i].name.as_str(), name) {
            return Some(i);
        }
        i = i + 1;
    }
    None
}

/// Encodes an argument of type `type_idx`.
pub fn encode_value<'a>(data: &SchemaData, type_idx: u32, arg: &'a Arg) -> (r: Result<
    Vec<Piece<'a>>,
    EncodeError,
>)
    requires
        sound(*data, type_idx as int, false),
    ensures
        encodes(r, encoded(*data, type_idx as int, *arg)),
    decreases *arg, 1nat,
{
    proof {
        lemma_sound(*data, type_idx as int, false);
    }
    let t: TypeNode = data.types[type_idx as usize];
    match t.kind {
        Some(IdlKind::Unit) => {
            let none: Vec<Piece<'a>> = Vec::new();
            assert(pieces_model(none@) =~= Seq::empty());
            Ok(none)
        },
        Some(IdlKind::Bool) => match arg.truth {
            Some(b) => single(
                Piece::Word(
                    if b {
                        1
                    } else {
                        0
                    },
                ),
            ),
            None => Err(EncodeError::Conversion(arg.id, Wanted::Truth)),
        },
        Some(IdlKind::U32) => short_word(arg.id, Wanted::Word32, arg.word32),
        Some(IdlKind::U64) => word(arg.id, Wanted::Word64, arg.word64),
        Some(IdlKind::F32) => short_word(arg.id, Wanted::Bits32, arg.bits32),
        Some(IdlKind::F64) => word(arg.id, Wanted::Bits64, arg.bits64),
        Some(IdlKind::U8) => match arg.word32 {
            Some(w) => single(Piece::Word((w % 256) as u64)),
            None => Err(EncodeError::Conversion(arg.id, Wanted::Word32)),
        },
        Some(IdlKind::Str) | Some(IdlKind::String) => match &arg.text {
            Some(s) => single(Piece::Text(s)),
            None => Err(EncodeError::Conversion(arg.id, Wanted::Text)),
        },
        Some(IdlKind::Slice) => {
            if has_kind(data, t.child0 as usize, IdlKind::U8) {
                byte_string(arg)
            } else {
                Err(EncodeError::Value(String::from_str("only &[u8] slices supported")))
            }
        },
        Some(IdlKind::Vec) => encode_vec(data, t.child0 as usize, arg),
        Some(IdlKind::Struct) => encode_struct(data, type_idx, arg),
        Some(IdlKind::Enum) => match &arg.form {
            ArgForm::Enum(variant, fields) => {
                if t.child0 < 0 || t.child0 as u64 >= data.enums.len() as u64 {
                    return Err(
                        EncodeError::Value(
                            String::from_str("enum index ").concat(
                                signed_decimal(t.child0 as i64).as_str(),
                            ).concat(" out of range"),
                        ),
                    );
                }
                let e = &data.enums[t.child0 as usize];
                let k = match find_variant(&e.variants, variant.as_str()) {
                    Some(k) => k,
                    None => {
                        return Err(
                            EncodeError::Value(
                                String::from_str("enum ").concat(e.name.as_str()).concat(
                                    " has no variant ",
                                ).concat(quote(variant.as_str()).as_str()),
                            ),
                        );
                    },
                };
                let v = &e.variants[k];
                if fields.len() != v.field_type_idxs.len() {
                    return Err(
                        EncodeError::Value(
                            String::from_str("variant ").concat(
                                quote(variant.as_str()).as_str(),
                            ).concat(" expects ").concat(
                                decimal(v.field_type_idxs.len() as u64).as_str(),
                            ).concat(" field(s), got ").concat(
                                decimal(fields.len() as u64).as_str(),
                            ),
                        ),
                    );
                }
                proof {
                    lemma_sound_fields(*data, type_idx as int, k as int, false);
                }
                match encode_fields(data, &v.field_type_idxs, fields) {
                    Ok(ps) => {
                        let mut out: Vec<Piece<'a>> = Vec::new();
                        out.push(Piece::Word(v.disc as u64));
                        let ghost rest = pieces_model(ps@);
                        let mut ps = ps;
                        out.append(&mut ps);
                        assert(pieces_model(out@) =~= seq![PieceModel::Word(v.disc as u64)] + rest);
                        Ok(out)
                    },
                    Err(e) => Err(e),
                }
            },
            _ => Err(EncodeError::Conversion(arg.id, Wanted::Enum)),
        },
        _ => Err(
            EncodeError::Value(
                String::from_str("unsupported input type kind ").concat(
                    decimal(t.code as u64).as_str(),
                ),
            ),
        ),
    }
}

proof fn lemma_fields_fail(data: SchemaData, idxs: Seq<u32>, args: Seq<Arg>, i: nat, n: nat)
    requires
        i <= n <= args.len(),
        encoded_fields(data, idxs, args, i) is Err,
    ensures
        encoded_fields(data, idxs, args, n) == encoded_fields(data, idxs, args, i),
    decreases n,
{
    if i < n {
        lemma_fields_fail(data, idxs, args, i, (n - 1) as nat);
    }
}

fn encode_fields<'a>(data: &SchemaData, idxs: &Vec<u32>, args: &'a Vec<Arg>) -> (r: Result<
    Vec<Piece<'a>>,
    EncodeError,
>)
    requires
        idxs@.len() == args@.len(),
        all_sound(*data, idxs@, false),
    ensures
        encodes(r, encoded_fields(*data, idxs@, args@, args@.len())),
    decreases args@, args@.len(),
{
    let mut out: Vec<Piece<'a>> = Vec::new();
    assert(pieces_model(out@) =~= Seq::empty());
    let mut i: usize = 0;
    while i < args.len()
        invariant
            i <= args.len(),
            idxs@.len() == args@.len(),
            all_sound(*data, idxs@, false),
            encoded_fields(*data, idxs@, args@, i as nat) == Ok::<Seq<PieceModel>, EncodeFailure>(
                pieces_model(out@),
            ),
        decreases args.len() - i,
    {
        assert(sound(*data, idxs@[i as int] as int, false));
        match encode_value(data, idxs[i], &args[i]) {
            Ok(ps) => {
                let ghost before = pieces_model(out@);
                let ghost rest = pieces_model(ps@);
                let mut ps = ps;
                out.append(&mut ps);
                assert(pieces_model(out@) =~= before + rest);
            },
            Err(e) => {
                proof {
                    lemma_fields_fail(*data, idxs@, args@, (i + 1) as nat, args@.len());
                }
                return Err(e);
            },
        }
        i = i + 1;
    }
    Ok(out)
}

// ---------------------------------------------------------------------------
// Values
// ---------------------------------------------------------------------------

/// Memory that a spier hands over: where it starts, and how many items it holds.
#[derive(Clone, Copy, Debug, PartialEq, Eq, Structural)]
pub struct Buffer {
    pub ptr: u64,
    pub len: u64,
}

/// A returned value. A float is given by its bits; `None` in place of a buffer
/// stands for no items.
pub enum Value {
    Nothing,
    Bool(bool),
    Int(u64),
    Float32(u32),
    Float64(u64),
    Text(Option<Buffer>),
    Bytes(Option<Buffer>),
    BytesList(Option<Buffer>),
    TextList(Option<Buffer>),
    Pair(Box<Value>, Box<Value>),
    /// An opaque value: its type and its address.
    Handle(u32, u64),
    /// An enum value: its variant and its fields.
    Enum(String, Vec<Value>),
}

/// The model of a [`Value`].
pub enum ValueModel {
    Nothing,
    Bool(bool),
    Int(u64),
    Float32(u32),
    Float64(u64),
    Text(Option<Buffer>),
    Bytes(Option<Buffer>),
    BytesList(Option<Buffer>),
    TextList(Option<Buffer>),
    Pair(Box<ValueModel>, Box<ValueModel>),
    Handle(u32, u64),
    Enum(Seq<char>, Seq<ValueModel>),
}

impl Value {
    /// The model of a value.
    pub open spec fn model(self) -> ValueModel
        decreases self,
    {
        match self {
            Value::Nothing => ValueModel::Nothing,
            Value::Bool(b) => ValueModel::Bool(b),
            Value::Int(n) => ValueModel::Int(n),
            Value::Float32(n) => ValueModel::Float32(n),
            Value::Float64(n) => ValueModel::Float64(n),
            Value::Text(b) => ValueModel::Text(b),
            Value::Bytes(b) => ValueModel::Bytes(b),
            Value::BytesList(b) => ValueModel::BytesList(b),
            Value::TextList(b) => ValueModel::TextList(b),
            Value::Pair(a, b) => ValueModel::Pair(Box::new(a.model()), Box::new(b.model())),
            Value::Handle(t, p) => ValueModel::Handle(t, p),
            Value::Enum(v, fs) => ValueModel::Enum(
                v@,
                Seq::new(
                    fs@.len(),
                    |i: int|
                        if 0 <= i < fs@.len() {
                            fs@[i].model()
                        } else {
                            ValueModel::Nothing
                        },
                ),
            ),
        }
    }
}

/// The models of a list of values.
pub open spec fn values_model(v: Seq<Value>) -> Seq<ValueModel> {
    Seq::new(v.len(), |i: int| v[i].model())
}

/// Why a value cannot be decoded.
pub enum DecodeError {
    /// The slots end before the value does.
    Exhausted,
    /// The slots hold no value that can be returned.
    Value(String),
}

/// The model of a [`DecodeError`].
pub enum DecodeFailure {
    Exhausted,
    Value(Seq<char>),
}

impl View for DecodeError {
    type V = DecodeFailure;

    open spec fn view(&self) -> DecodeFailure {
        match *self {
            DecodeError::Exhausted => DecodeFailure::Exhausted,
            DecodeError::Value(s) => DecodeFailure::Value(s@),
        }
    }
}

/// What decoding yields: a value, and the slots behind it.
pub type Decoded = Result<(ValueModel, Seq<u64>), DecodeFailure>;

/// The buffer that an address and a length describe.
pub open spec fn buffer(ptr: u64, len: u64) -> Option<Buffer> {
    if ptr == 0 || len == 0 {
        None
    } else {
        Some(Buffer { ptr, len })
    }
}

/// The low 32 bits of a slot.
pub open spec fn low_half(w: u64) -> u32 {
    (w % 0x1_0000_0000) as u32
}

/// The value of a vector with the given items, if its element type, at `child`,
/// is one that can be returned.
pub open spec fn vec_value(data: SchemaData, child: int, items: Option<Buffer>) -> Option<ValueModel> {
    if is_kind(data, child, IdlKind::U8) {
        Some(ValueModel::Bytes(items))
    } else if is_kind(data, child, IdlKind::Vec) && is_kind(
        data,
        data.types@[child].child0 as int,
        IdlKind::U8,
    ) {
        Some(ValueModel::BytesList(items))
    } else if is_kind(data, child, IdlKind::String) {
        Some(ValueModel::TextList(items))
    } else {
        None
    }
}

/// The vector of the element type at `child` that the slots `s` start with.
pub open spec fn decoded_vec(data: SchemaData, child: int, s: Seq<u64>) -> Decoded {
    if vec_value(data, child, None) is None {
        Err(
            DecodeFailure::Value(
                "unsupported Vec element kind "@ + dec(data.types@[child].code as nat),
            ),
        )
    } else if s.len() < 2 {
        Err(DecodeFailure::Exhausted)
    } else {
        Ok((vec_value(data, child, buffer(s[0], s[1]))->Some_0, s.skip(2)))
    }
}

/// The position of the first variant with discriminant `disc`, from `i` on.
pub open spec fn variant_numbered(vs: Seq<VariantInfo>, disc: u32, i: nat) -> Option<nat>
    decreases vs.len() - i,
{
    if i >= vs.len() {
        None
    } else if vs[i as int].disc == disc {
        Some(i)
    } else {
        variant_numbered(vs, disc, i + 1)
    }
}

/// The value of type `idx` that the slots `s` start with.
pub open spec fn decoded(data: SchemaData, idx: int, s: Seq<u64>) -> Decoded
    decreases s.len(), 0nat, nesting(data, idx), 1nat,
{
    let t = data.types@[idx];
    match t.kind {
        Some(IdlKind::Unit) => Ok((ValueModel::Nothing, s)),
        Some(IdlKind::String) => if s.len() >= 2 {
            Ok((ValueModel::Text(buffer(s[0], s[1])), s.skip(2)))
        } else {
            Err(DecodeFailure::Exhausted)
        },
        Some(IdlKind::Vec) => decoded_vec(data, t.child0 as int, s),
        Some(IdlKind::Tuple) => decoded_pair(data, idx, t.child0 as int, t.child1 as int, s),
        Some(IdlKind::Enum) => decoded_enum(data, t.child0, s),
        Some(IdlKind::Bool)
        | Some(IdlKind::U8)
        | Some(IdlKind::U32)
        | Some(IdlKind::U64)
        | Some(IdlKind::F32)
        | Some(IdlKind::F64)
        | Some(IdlKind::Option)
        | Some(IdlKind::Struct) => if s.len() == 0 {
            Err(DecodeFailure::Exhausted)
        } else {
            let w = s[0];
            let rest = s.drop_first();
            match t.kind {
                Some(IdlKind::Bool) => Ok((ValueModel::Bool(w != 0), rest)),
                Some(IdlKind::U8) => Ok((ValueModel::Int((w % 256) as u64), rest)),
                Some(IdlKind::F32) => Ok((ValueModel::Float32(low_half(w)), rest)),
                Some(IdlKind::F64) => Ok((ValueModel::Float64(w), rest)),
                Some(IdlKind::Struct) => Ok((ValueModel::Handle(idx as u32, w), rest)),
                Some(IdlKind::Option) => if w == 0 {
                    Ok((ValueModel::Nothing, rest))
                } else {
                    decoded(data, t.child0 as int, rest)
                },
                _ => Ok((ValueModel::Int(w), rest)),
            }
        },
        _ => Err(DecodeFailure::Value("unsupported return type kind "@ + dec(t.code as nat))),
    }
}

/// The value of enum `child` that the slots `s` start with: the discriminant,
/// then the fields of the variant that has it.
pub open spec fn decoded_enum(data: SchemaData, child: i32, s: Seq<u64>) -> Decoded
    decreases s.len(), 0nat, 0nat, 0nat,
{
    if !(0 <= child < data.enums@.len()) {
        Err(DecodeFailure::Value(no_enum(child)))
    } else if s.len() == 0 {
        Err(DecodeFailure::Exhausted)
    } else {
        let e = data.enums@[child as int];
        let disc = low_half(s[0]);
        match variant_numbered(e.variants@, disc, 0) {
            None => Err(
                DecodeFailure::Value(
                    "enum "@ + e.name@ + " unknown discriminant "@ + dec(disc as nat),
                ),
            ),
            Some(k) => {
                let v = e.variants@[k as int];
                match decoded_fields(
                    data,
                    v.field_type_idxs@,
                    v.field_type_idxs@.len(),
                    s.drop_first(),
                ) {
                    Ok((fs, rest)) => Ok((ValueModel::Enum(v.name@, fs), rest)),
                    Err(x) => Err(x),
                }
            },
        }
    }
}

/// The parts of the tuple at `idx`: a pair, or its first part alone.
pub open spec fn decoded_pair(data: SchemaData, idx: int, c0: int, c1: int, s: Seq<u64>) -> Decoded
    decreases s.len(), 0nat, nesting(data, idx), 0nat,
    when (c0 >= 0 ==> nesting(data, c0) < nesting(data, idx)) && (c1 >= 0 ==> nesting(data, c1)
        < nesting(data, idx))
{
    let a: Decoded = if c0 >= 0 {
        decoded(data, c0, s)
    } else {
        Ok((ValueModel::Nothing, s))
    };
    match a {
        Err(x) => Err(x),
        Ok((va, s1)) => if c1 < 0 {
            Ok((va, s1))
        } else if s1.len() > s.len() {
            Err(DecodeFailure::Exhausted)
        } else {
            match decoded(data, c1, s1) {
                Err(x) => Err(x),
                Ok((vb, s2)) => if c0 >= 0 {
                    Ok((ValueModel::Pair(Box::new(va), Box::new(vb)), s2))
                } else {
                    Ok((ValueModel::Nothing, s2))
                },
            }
        },
    }
}

/// What decoding a list of fields yields: the values, and the slots behind them.
pub type DecodedFields = Result<(Seq<ValueModel>, Seq<u64>), DecodeFailure>;

/// The values of the first `n` of the types `idxs` that the slots `s` start
/// with.
pub open spec fn decoded_fields(data: SchemaData, idxs: Seq<u32>, n: nat, s: Seq<u64>) -> DecodedFields
    decreases s.len(), 1nat, n, 0nat,
{
    if n == 0 {
        Ok((Seq::empty(), s))
    } else {
        match decoded_fields(data, idxs, (n - 1) as nat, s) {
            Err(x) => Err(x),
            Ok((before, s1)) => if s1.len() > s.len() {
                Err(DecodeFailure::Exhausted)
            } else {
                match decoded(data, idxs[n - 1] as int, s1) {
                    Err(x) => Err(x),
                    Ok((v, s2)) => Ok((before.push(v), s2)),
                }
            },
        }
    }
}

/// Decoding takes slots from the front: what is left is a tail of what there
/// was.
pub proof fn decoding_leaves_a_tail(data: SchemaData, idx: int, s: Seq<u64>)
    requires
        sound(data, idx, true),
    ensures
        decoded(data, idx, s) matches Ok((_, rest)) ==> is_tail(rest, s),
    decreases s.len(), 0nat, nesting(data, idx), 1nat,
{
    lemma_sound(data, idx, true);
    let t = data.types@[idx];
    match t.kind {
        Some(IdlKind::Tuple) => {
            let c0 = t.child0 as int;
            let c1 = t.child1 as int;
            assert(decoded(data, idx, s) == decoded_pair(data, idx, c0, c1, s));
            assert(c0 >= 0 ==> leads(data, idx, c0, true));
            assert(c1 >= 0 ==> leads(data, idx, c1, true));
            if c0 >= 0 {
                decoding_leaves_a_tail(data, c0, s);
                if let Ok((_, s1)) = decoded(data, c0, s) {
                    if c1 >= 0 {
                        decoding_leaves_a_tail(data, c1, s1);
                        if let Ok((_, s2)) = decoded(data, c1, s1) {
                            lemma_tails(s2, s1, s);
                        }
                    }
                }
            } else {
                lemma_own_tail(s);
                if c1 >= 0 {
                    decoding_leaves_a_tail(data, c1, s);
                }
            }
        },
        Some(IdlKind::Enum) => {
            assert(decoded(data, idx, s) == decoded_enum(data, t.child0, s));
            if 0 <= t.child0 < data.enums@.len() && s.len() > 0 {
                let e = data.enums@[t.child0 as int];
                if let Some(k) = variant_numbered(e.variants@, low_half(s[0]), 0) {
                    lemma_variant_in(e.variants@, low_half(s[0]), 0);
                    let idxs = e.variants@[k as int].field_type_idxs@;
                    lemma_sound_fields(data, idx, k as int, true);
                    lemma_fields_tail(data, idxs, idxs.len(), s.drop_first());
                    if let Ok((_, rest)) = decoded_fields(data, idxs, idxs.len(), s.drop_first()) {
                        lemma_first_tail(s);
                        lemma_tails(rest, s.drop_first(), s);
                    }
                }
            }
        },
        Some(IdlKind::Option) => {
            if s.len() > 0 {
                lemma_first_tail(s);
                if s[0] != 0 {
                    assert(leads(data, idx, t.child0 as int, true));
                    decoding_leaves_a_tail(data, t.child0 as int, s.drop_first());
                    if let Ok((_, rest)) = decoded(data, t.child0 as int, s.drop_first()) {
                        lemma_tails(rest, s.drop_first(), s);
                    }
                }
            }
        },
        _ => {
            lemma_own_tail(s);
            if s.len() > 0 {
                lemma_first_tail(s);
            }
        },
    }
}

/// Whether `rest` is what is left of `s` after some of its first items.
pub open spec fn is_tail(rest: Seq<u64>, s: Seq<u64>) -> bool {
    rest.len() <= s.len() && rest == s.skip(s.len() - rest.len())
}

proof fn lemma_own_tail(s: Seq<u64>)
    ensures
        is_tail(s, s),
{
    assert(s =~= s.skip(0));
}

proof fn lemma_first_tail(s: Seq<u64>)
    requires
        s.len() > 0,
    ensures
        is_tail(s.drop_first(), s),
{
    assert(s.drop_first() =~= s.skip(1));
}

proof fn lemma_tails(a: Seq<u64>, b: Seq<u64>, c: Seq<u64>)
    requires
        is_tail(a, b),
        is_tail(b, c),
    ensures
        is_tail(a, c),
{
    assert(a =~= c.skip(c.len() - a.len()));
}

proof fn lemma_variant_in(vs: Seq<VariantInfo>, disc: u32, i: nat)
    ensures
        match variant_numbered(vs, disc, i) {
            Some(k) => i <= k < vs.len() && vs[k as int].disc == disc,
            None => true,
        },
    decreases vs.len() - i,
{
    if i < vs.len() && vs[i as int].disc != disc {
        lemma_variant_in(vs, disc, i + 1);
    }
}

proof fn lemma_fields_tail(data: SchemaData, idxs: Seq<u32>, n: nat, s: Seq<u64>)
    requires
        n <= idxs.len(),
        all_sound(data, idxs, true),
    ensures
        decoded_fields(data, idxs, n, s) matches Ok((_, rest)) ==> is_tail(rest, s),
    decreases s.len(), 1nat, n, 0nat,
{
    if n == 0 {
        lemma_own_tail(s);
    } else {
        lemma_fields_tail(data, idxs, (n - 1) as nat, s);
        if let Ok((_, s1)) = decoded_fields(data, idxs, (n - 1) as nat, s) {
            assert(sound(data, idxs[n - 1] as int, true));
            decoding_leaves_a_tail(data, idxs[n - 1] as int, s1);
            if let Ok((_, s2)) = decoded(data, idxs[n - 1] as int, s1) {
                lemma_tails(s2, s1, s);
            }
        }
    }
}

// ---------------------------------------------------------------------------
// Decoding
// ---------------------------------------------------------------------------

/// Whether `r`, with `rest` left, is the result `d` describes.
pub open spec fn decodes(r: Result<Value, DecodeError>, rest: Seq<u64>, d: Decoded) -> bool {
    match r {
        Ok(v) => d == Ok::<(ValueModel, Seq<u64>), DecodeFailure>((v.model(), rest)),
        Err(x) => d == Err::<(ValueModel, Seq<u64>), DecodeFailure>(x@),
    }
}

fn read_buffer(r: &mut SlotReader) -> (b: Option<Option<Buffer>>)
    ensures
        match b {
            Some(b) => old(r)@.len() >= 2 && b == buffer(old(r)@[0], old(r)@[1]) && final(r)@
                == old(r)@.skip(2),
            None => old(r)@.len() < 2,
        },
{
    let ghost s = r@;
    if r.remaining() < 2 {
        return None;
    }
    let ptr: u64 = r.read_u64();
    let len: u64 = r.read_u64();
    assert(r@ =~= s.skip(2));
    if ptr == 0 || len == 0 {
        Some(None)
    } else {
        Some(Some(Buffer { ptr, len }))
    }
}

fn decode_vec(data: &SchemaData, child: usize, r: &mut SlotReader) -> (v: Result<
    Value,
    DecodeError,
>)
    requires
        element_there(*data, child as int),
    ensures
        decodes(v, final(r)@, decoded_vec(*data, child as int, old(r)@)),
{
    let bytes = has_kind(data, child, IdlKind::U8);
    let list = has_kind(data, child, IdlKind::Vec) && has_kind(
        data,
        data.types[child].child0 as usize,
        IdlKind::U8,
    );
    let texts = has_kind(data, child, IdlKind::String);
    if !bytes && !list && !texts {
        return Err(
            DecodeError::Value(
                String::from_str("unsupported Vec element kind ").concat(
                    decimal(data.types[child].code as u64).as_str(),
                ),
            ),
        );
    }
    match read_buffer(r) {
        None => Err(DecodeError::Exhausted),
        Some(b) => {
            if bytes {
                Ok(Value::Bytes(b))
            } else if list {
                Ok(Value::BytesList(b))
            } else {
                Ok(Value::TextList(b))
            }
        },
    }
}

fn find_disc(vs: &Vec<VariantInfo>, disc: u32) -> (r: Option<usize>)
    ensures
        match r {
            Some(i) => variant_numbered(vs@, disc, 0) == Some(i as nat) && i < vs@.len(),
            None => variant_numbered(vs@, disc, 0) is None,
        },
{
    let mut i: usize = 0;
    while i < vs.len()
        invariant
            i <= vs.len(),
            variant_numbered(vs@, disc, 0) == variant_numbered(vs@, disc, i as nat),
        decreases vs.len() - i,
    {
        if vs[i].disc == disc {
            return Some(i);
        }
        i = i + 1;
    }
    None
}

fn decode_pair(data: &SchemaData, type_idx: u32, c0: i32, c1: i32, r: &mut SlotReader) -> (v: Result<
    Value,
    DecodeError,
>)
    requires
        sound(*data, type_idx as int, true),
        is_kind(*data, type_idx as int, IdlKind::Tuple),
        data.types@[type_idx as int].child0 == c0,
        data.types@[type_idx as int].child1 == c1,
    ensures
        decodes(
            v,
            final(r)@,
            decoded_pair(*data, type_idx as int, c0 as int, c1 as int, old(r)@),
        ),
    decreases old(r)@.len(), 0nat, nesting(*data, type_idx as int), 0nat,
{
    let ghost s = r@;
    proof {
        lemma_sound(*data, type_idx as int, true);
        assert(c0 >= 0 ==> leads(*data, type_idx as int, c0 as int, true));
        assert(c1 >= 0 ==> leads(*data, type_idx as int, c1 as int, true));
    }
    if c0 < 0 {
        if c1 < 0 {
            return Ok(Value::Nothing);
        }
        return match decode_value(data, c1 as u32, r) {
            Ok(_) => Ok(Value::Nothing),
            Err(x) => Err(x),
        };
    }
    proof {
        decoding_leaves_a_tail(*data, c0 as int, s);
    }
    match decode_value(data, c0 as u32, r) {
        Err(x) => Err(x),
        Ok(a) => {
            if c1 < 0 {
                return Ok(a);
            }
            match decode_value(data, c1 as u32, r) {
                Err(x) => Err(x),
                Ok(b) => {
                    let v = Value::Pair(Box::new(a), Box::new(b));
                    assert(v.model() == ValueModel::Pair(
                        Box::new(a.model()),
                        Box::new(b.model()),
                    ));
                    Ok(v)
                },
            }
        },
    }
}

fn decode_enum(data: &SchemaData, type_idx: u32, child: i32, r: &mut SlotReader) -> (v: Result<
    Value,
    DecodeError,
>)
    requires
        sound(*data, type_idx as int, true),
        is_kind(*data, type_idx as int, IdlKind::Enum),
        data.types@[type_idx as int].child0 == child,
    ensures
        decodes(v, final(r)@, decoded_enum(*data, child, old(r)@)),
    decreases old(r)@.len(), 0nat, 0nat, 0nat,
{
    if child < 0 || child as u64 >= data.enums.len() as u64 {
        return Err(
            DecodeError::Value(
                String::from_str("enum index ").concat(
                    signed_decimal(child as i64).as_str(),
                ).concat(" out of range"),
            ),
        );
    }
    if r.remaining() == 0 {
        return Err(DecodeError::Exhausted);
    }
    let e = &data.enums[child as usize];
    let disc: u32 = (r.read_u64() % 0x1_0000_0000) as u32;
    let k = match find_disc(&e.variants, disc) {
        Some(k) => k,
        None => {
            return Err(
                DecodeError::Value(
                    String::from_str("enum ").concat(e.name.as_str()).concat(
                        " unknown discriminant ",
                    ).concat(decimal(disc as u64).as_str()),
                ),
            );
        },
    };
    proof {
        lemma_sound_fields(*data, type_idx as int, k as int, true);
    }
    let vi = &e.variants[k];
    match decode_fields(data, &vi.field_type_idxs, r) {
        Ok(fs) => {
            let v = Value::Enum(vi.name.clone(), fs);
            assert(v.model()->Enum_1 =~= values_model(fs@));
            Ok(v)
        },
        Err(x) => Err(x),
    }
}

fn decode_fields(data: &SchemaData, idxs: &Vec<u32>, r: &mut SlotReader) -> (v: Result<
    Vec<Value>,
    DecodeError,
>)
    requires
        all_sound(*data, idxs@, true),
    ensures
        match v {
            Ok(vs) => decoded_fields(*data, idxs@, idxs@.len(), old(r)@) == Ok::<
                (Seq<ValueModel>, Seq<u64>),
                DecodeFailure,
            >((values_model(vs@), final(r)@)),
            Err(x) => decoded_fields(*data, idxs@, idxs@.len(), old(r)@) == Err::<
                (Seq<ValueModel>, Seq<u64>),
                DecodeFailure,
            >(x@),
        },
    decreases old(r)@.len(), 1nat, 0nat, 0nat,
{
    let ghost s = r@;
    let mut out: Vec<Value> = Vec::new();
    assert(values_model(out@) =~= Seq::empty());
    let mut i: usize = 0;
    while i < idxs.len()
        invariant
            i <= idxs.len(),
            all_sound(*data, idxs@, true),
            s == old(r)@,
            r@.len() <= s.len(),
            decoded_fields(*data, idxs@, i as nat, s) == Ok::<
                (Seq<ValueModel>, Seq<u64>),
                DecodeFailure,
            >((values_model(out@), r@)),
        decreases idxs.len() - i,
    {
        assert(sound(*data, idxs@[i as int] as int, true));
        proof {
            decoding_leaves_a_tail(*data, idxs@[i as int] as int, r@);
        }
        let ghost before = values_model(out@);
        match decode_value(data, idxs[i], r) {
            Ok(v) => {
                out.push(v);
                assert(values_model(out@) =~= before.push(v.model()));
            },
            Err(x) => {
                proof {
                    lemma_fields_stop(*data, idxs@, (i + 1) as nat, idxs@.len(), s);
                }
                return Err(x);
            },
        }
        i = i + 1;
    }
    Ok(out)
}

proof fn lemma_fields_stop(data: SchemaData, idxs: Seq<u32>, i: nat, n: nat, s: Seq<u64>)
    requires
        i <= n,
        decoded_fields(data, idxs, i, s) is Err,
    ensures
        decoded_fields(data, idxs, n, s) == decoded_fields(data, idxs, i, s),
    decreases n,
{
    if i < n {
        lemma_fields_stop(data, idxs, i, (n - 1) as nat, s);
    }
}

/// Decodes a value of type `type_idx` from the slots that `r` has left.
pub fn decode_value(data: &SchemaData, type_idx: u32, r: &mut SlotReader) -> (v: Result<
    Value,
    DecodeError,
>)
    requires
        sound(*data, type_idx as int, true),
    ensures
        decodes(v, final(r)@, decoded(*data, type_idx as int, old(r)@)),
    decreases old(r)@.len(), 0nat, nesting(*data, type_idx as int), 1nat,
{
    proof {
        lemma_sound(*data, type_idx as int, true);
    }
    let t: TypeNode = data.types[type_idx as usize];
    let one_slot = match t.kind {
        Some(IdlKind::Unit) => {
            return Ok(Value::Nothing);
        },
        Some(IdlKind::String) => {
            return match read_buffer(r) {
                Some(b) => Ok(Value::Text(b)),
                None => Err(DecodeError::Exhausted),
            };
        },
        Some(IdlKind::Vec) => {
            return decode_vec(data, t.child0 as usize, r);
        },
        Some(IdlKind::Tuple) => {
            return decode_pair(data, type_idx, t.child0, t.child1, r);
        },
        Some(IdlKind::Enum) => {
            return decode_enum(data, type_idx, t.child0, r);
        },
        Some(IdlKind::Bool)
        | Some(IdlKind::U8)
        | Some(IdlKind::U32)
        | Some(IdlKind::U64)
        | Some(IdlKind::F32)
        | Some(IdlKind::F64)
        | Some(IdlKind::Option)
        | Some(IdlKind::Struct) => true,
        _ => false,
    };
    if !one_slot {
        return Err(
            DecodeError::Value(
                String::from_str("unsupported return type kind ").concat(
                    decimal(t.code as u64).as_str(),
                ),
            ),
        );
    }
    if r.remaining() == 0 {
        return Err(DecodeError::Exhausted);
    }
    let w: u64 = r.read_u64();
    match t.kind {
        Some(IdlKind::Bool) => Ok(Value::Bool(w != 0)),
        Some(IdlKind::U8) => Ok(Value::Int(w % 256)),
        Some(IdlKind::F32) => Ok(Value::Float32((w % 0x1_0000_0000) as u32)),
        Some(IdlKind::F64) => Ok(Value::Float64(w)),
        Some(IdlKind::Struct) => Ok(Value::Handle(type_idx, w)),
        Some(IdlKind::Option) => {
            if w == 0 {
                Ok(Value::Nothing)
            } else {
                assert(leads(*data, type_idx as int, t.child0 as int, true));
                proof {
                    lemma_sound_in_table(*data, t.child0 as int, true);
                }
                decode_value(data, t.child0 as u32, r)
            }
        },
        _ => Ok(Value::Int(w)),
    }
}

// ---------------------------------------------------------------------------
// What crosses as words comes back
// ---------------------------------------------------------------------------

/// Whether all pieces are single slots with a known content.
pub open spec fn all_words(ps: Seq<PieceModel>) -> bool {
    forall|i: int| 0 <= i < ps.len() ==> #[trigger] ps[i] is Word
}

/// The slots of such pieces.
pub open spec fn words(ps: Seq<PieceModel>) -> Seq<u64> {
    ps.map_values(|p: PieceModel| p->Word_0)
}

/// Whether no two variants of an enum have the same discriminant.
pub open spec fn distinct_discs(e: EnumInfo) -> bool {
    forall|i: int, j: int|
        0 <= i < j < e.variants@.len() ==> (#[trigger] e.variants@[i]).disc != (
        #[trigger] e.variants@[j]).disc
}

/// The value that an argument of type `idx` stands for, where it is a number, a
/// truth value, an opaque value, or an enum value made of such.
pub open spec fn value_of(data: SchemaData, idx: int, arg: Arg) -> ValueModel
    decreases arg, 1nat,
{
    match data.types@[idx].kind {
        Some(IdlKind::Bool) => ValueModel::Bool(arg.truth->Some_0),
        Some(IdlKind::U8) => ValueModel::Int((arg.word32->Some_0 % 256) as u64),
        Some(IdlKind::U32) => ValueModel::Int(arg.word32->Some_0 as u64),
        Some(IdlKind::U64) => ValueModel::Int(arg.word64->Some_0),
        Some(IdlKind::F32) => ValueModel::Float32(arg.bits32->Some_0),
        Some(IdlKind::F64) => ValueModel::Float64(arg.bits64->Some_0),
        Some(IdlKind::Struct) => match arg.form {
            ArgForm::Handle(_, ptr) => ValueModel::Handle(idx as u32, ptr),
            _ => ValueModel::Nothing,
        },
        Some(IdlKind::Enum) => match arg.form {
            ArgForm::Enum(variant, fields) => {
                let e = data.enums@[data.types@[idx].child0 as int];
                let k = variant_named(e.variants@, variant@, 0)->Some_0;
                ValueModel::Enum(
                    variant@,
                    field_values(
                        data,
                        e.variants@[k as int].field_type_idxs@,
                        fields@,
                        fields@.len(),
                    ),
                )
            },
            _ => ValueModel::Nothing,
        },
        _ => ValueModel::Nothing,
    }
}

/// The values that the first `n` fields stand for.
pub open spec fn field_values(data: SchemaData, idxs: Seq<u32>, args: Seq<Arg>, n: nat) -> Seq<
    ValueModel,
>
    decreases args, n,
{
    if n == 0 || n > args.len() {
        Seq::empty()
    } else {
        field_values(data, idxs, args, (n - 1) as nat).push(
            value_of(data, idxs[n - 1] as int, args[n - 1]),
        )
    }
}

/// An argument that crosses as words alone comes back as the value that it
/// stands for, and the slots behind it are left.
pub proof fn words_round_trip(
    data: SchemaData,
    idx: int,
    arg: Arg,
    ps: Seq<PieceModel>,
    rest: Seq<u64>,
)
    requires
        forall|i: int| 0 <= i < data.enums@.len() ==> distinct_discs(#[trigger] data.enums@[i]),
        encoded(data, idx, arg) == Ok::<Seq<PieceModel>, EncodeFailure>(ps),
        all_words(ps),
    ensures
        decoded(data, idx, words(ps) + rest) == Ok::<(ValueModel, Seq<u64>), DecodeFailure>(
            (value_of(data, idx, arg), rest),
        ),
    decreases arg, 1nat,
{
    let t = data.types@[idx];
    let s = words(ps) + rest;
    match t.kind {
        Some(IdlKind::Unit) => {
            assert(s =~= rest);
        },
        Some(IdlKind::Enum) => {
            let variant = arg.form->Enum_0;
            let fields = arg.form->Enum_1;
            let e = data.enums@[t.child0 as int];
            lemma_named_in(e.variants@, variant@, 0);
            let k = variant_named(e.variants@, variant@, 0)->Some_0;
            let v = e.variants@[k as int];
            let idxs = v.field_type_idxs@;
            let fp = encoded_fields(data, idxs, fields@, fields@.len())->Ok_0;
            assert(ps =~= seq![PieceModel::Word(v.disc as u64)] + fp);
            assert(fp =~= ps.drop_first());
            assert(all_words(fp)) by {
                assert forall|i: int| 0 <= i < fp.len() implies #[trigger] fp[i] is Word by {
                    assert(ps[i + 1] is Word);
                }
            }
            lemma_fields_round_trip(data, idxs, fields@, fields@.len(), fp, rest);
            assert(ps[0] == PieceModel::Word(v.disc as u64));
            assert(s[0] == v.disc as u64);
            assert(s.drop_first() =~= words(fp) + rest);
            assert(distinct_discs(e));
            lemma_numbered(e.variants@, v.disc, k, 0);
            assert(low_half(s[0]) == v.disc);
            assert(decoded(data, idx, s) == decoded_enum(data, t.child0, s));
        },
        Some(IdlKind::Str) | Some(IdlKind::String) | Some(IdlKind::Slice) | Some(IdlKind::Vec) => {
            assert(!(ps[0] is Word));
        },
        _ => {
            assert(ps.len() == 1);
            assert(s[0] == ps[0]->Word_0);
            assert(s.drop_first() =~= rest);
        },
    }
}

proof fn lemma_named_in(vs: Seq<VariantInfo>, name: Seq<char>, i: nat)
    ensures
        match variant_named(vs, name, i) {
            Some(k) => i <= k < vs.len() && vs[k as int].name@ == name,
            None => true,
        },
    decreases vs.len() - i,
{
    if i < vs.len() && vs[i as int].name@ != name {
        lemma_named_in(vs, name, i + 1);
    }
}

proof fn lemma_numbered(vs: Seq<VariantInfo>, disc: u32, k: nat, i: nat)
    requires
        i <= k < vs.len(),
        vs[k as int].disc == disc,
        forall|a: int, b: int|
            0 <= a < b < vs.len() ==> (#[trigger] vs[a]).disc != (#[trigger] vs[b]).disc,
    ensures
        variant_numbered(vs, disc, i) == Some(k),
    decreases k - i,
{
    if i < k {
        assert(vs[i as int].disc != vs[k as int].disc);
        lemma_numbered(vs, disc, k, i + 1);
    }
}

proof fn lemma_fields_round_trip(
    data: SchemaData,
    idxs: Seq<u32>,
    args: Seq<Arg>,
    n: nat,
    ps: Seq<PieceModel>,
    rest: Seq<u64>,
)
    requires
        n <= args.len(),
        idxs.len() == args.len(),
        forall|i: int| 0 <= i < data.enums@.len() ==> distinct_discs(#[trigger] data.enums@[i]),
        encoded_fields(data, idxs, args, n) == Ok::<Seq<PieceModel>, EncodeFailure>(ps),
        all_words(ps),
    ensures
        decoded_fields(data, idxs, n, words(ps) + rest) == Ok::<
            (Seq<ValueModel>, Seq<u64>),
            DecodeFailure,
        >((field_values(data, idxs, args, n), rest)),
    decreases args, n,
{
    let s = words(ps) + rest;
    if n == 0 {
        assert(s =~= rest);
    } else {
        let before = encoded_fields(data, idxs, args, (n - 1) as nat)->Ok_0;
        let last = encoded(data, idxs[n - 1] as int, args[n - 1])->Ok_0;
        assert(ps =~= before + last);
        assert(all_words(before)) by {
            assert forall|i: int| 0 <= i < before.len() implies #[trigger] before[i] is Word by {
                assert(ps[i] is Word);
            }
        }
        assert(all_words(last)) by {
            assert forall|i: int| 0 <= i < last.len() implies #[trigger] last[i] is Word by {
                assert(ps[before.len() + i] is Word);
            }
        }
        lemma_fields_round_trip(
            data,
            idxs,
            args,
            (n - 1) as nat,
            before,
            words(last) + rest,
        );
        assert(s =~= words(before) + (words(last) + rest));
        words_round_trip(data, idxs[n - 1] as int, args[n - 1], last, rest);
    }
}

// ---------------------------------------------------------------------------
// Calls
// ---------------------------------------------------------------------------

/// Whether a parameter is filled by the method and not passed by the caller.
pub open spec fn is_out(data: SchemaData, p: ParamInfo) -> bool {
    is_kind(data, p.type_idx as int, IdlKind::OutVec)
}

/// The names of those of the first `n` parameters that the caller passes.
pub open spec fn input_names(data: SchemaData, ps: Seq<ParamInfo>, n: nat) -> Seq<Seq<char>>
    decreases n,
{
    if n == 0 {
        Seq::empty()
    } else if is_out(data, ps[n - 1]) {
        input_names(data, ps, (n - 1) as nat)
    } else {
        input_names(data, ps, (n - 1) as nat).push(ps[n - 1].name@)
    }
}

/// The names of the parameters that the caller passes.
pub open spec fn inputs(data: SchemaData, m: MethodInfo) -> Seq<Seq<char>> {
    input_names(data, m.params@, m.params@.len())
}

fn param_is_out(data: &SchemaData, p: &ParamInfo) -> (r: bool)
    requires
        p.type_idx < data.types@.len(),
    ensures
        r == is_out(*data, *p),
{
    has_kind(data, p.type_idx as usize, IdlKind::OutVec)
}

fn list_inputs(data: &SchemaData, m: &MethodInfo) -> (r: Vec<String>)
    requires
        params_there(*data, *m),
    ensures
        strings_model(r@) == inputs(*data, *m),
        r@.len() <= m.params@.len(),
{
    let mut out: Vec<String> = Vec::new();
    assert(strings_model(out@) =~= Seq::empty());
    let mut i: usize = 0;
    while i < m.params.len()
        invariant
            i <= m.params.len(),
            params_there(*data, *m),
            out@.len() <= i,
            strings_model(out@) == input_names(*data, m.params@, i as nat),
        decreases m.params.len() - i,
    {
        let ghost before = strings_model(out@);
        assert(in_table(*data, m.params@[i as int].type_idx as int));
        if !param_is_out(data, &m.params[i]) {
            out.push(m.params[i].name.clone());
            assert(strings_model(out@) =~= before.push(m.params@[i as int].name@));
        }
        i = i + 1;
    }
    out
}

/// Whether a method has a parameter that it fills.
pub open spec fn any_out(data: SchemaData, m: MethodInfo) -> bool {
    exists|i: int| 0 <= i < m.params@.len() && is_out(data, #[trigger] m.params@[i])
}

/// Whether a method has a parameter that it fills.
pub fn has_outvec(data: &SchemaData, m: &MethodInfo) -> (r: bool)
    requires
        params_there(*data, *m),
    ensures
        r == any_out(*data, *m),
{
    let mut i: usize = 0;
    while i < m.params.len()
        invariant
            i <= m.params.len(),
            params_there(*data, *m),
            forall|k: int| 0 <= k < i ==> !is_out(*data, #[trigger] m.params@[k]),
        decreases m.params.len() - i,
    {
        assert(in_table(*data, m.params@[i as int].type_idx as int));
        if param_is_out(data, &m.params[i]) {
            return true;
        }
        i = i + 1;
    }
    false
}

/// Where an argument comes from.
#[derive(Clone, Copy, Debug, PartialEq, Eq, Structural)]
pub enum Source {
    /// The positional argument at this position.
    Positional(usize),
    /// The keyword argument at this position.
    Keyword(usize),
    /// The entry at this position of a dictionary that was passed alone.
    Entry(usize),
}

/// The position of the last of the first `n` names that is `name`.
pub open spec fn last_named(names: Seq<Seq<char>>, name: Seq<char>, n: nat) -> Option<nat>
    decreases n,
{
    if n == 0 {
        None
    } else if names[n - 1] == name {
        Some((n - 1) as nat)
    } else {
        last_named(names, name, (n - 1) as nat)
    }
}

/// How many positional arguments meet a parameter.
pub open spec fn bound_count(names: Seq<Seq<char>>, argc: nat) -> nat {
    if argc < names.len() {
        argc
    } else {
        names.len()
    }
}

/// Where the argument called `name` comes from: a keyword argument, else the
/// positional argument at its place.
pub open spec fn keyword_source(
    names: Seq<Seq<char>>,
    argc: nat,
    keys: Seq<Seq<char>>,
    name: Seq<char>,
) -> Option<Source> {
    match last_named(keys, name, keys.len()) {
        Some(k) => Some(Source::Keyword(k as usize)),
        None => match last_named(names, name, bound_count(names, argc)) {
            Some(j) => Some(Source::Positional(j as usize)),
            None => None,
        },
    }
}

/// Where the argument called `name` comes from in a dictionary.
pub open spec fn entry_source(keys: Seq<Seq<char>>, name: Seq<char>) -> Option<Source> {
    match last_named(keys, name, keys.len()) {
        Some(k) => Some(Source::Entry(k as usize)),
        None => None,
    }
}

/// What a call passes: positional arguments, keyword arguments, and the keys of
/// the dictionary that is its only positional argument, if it is one.
pub struct Passed {
    pub argc: usize,
    pub keywords: Vec<String>,
    pub dict: Option<Vec<String>>,
}

/// Where the argument called `name` comes from in a call by name.
pub open spec fn source(names: Seq<Seq<char>>, by: Passed, name: Seq<char>) -> Option<Source> {
    if by.keywords@.len() > 0 {
        keyword_source(names, by.argc as nat, strings_model(by.keywords@), name)
    } else {
        entry_source(strings_model(by.dict->Some_0@), name)
    }
}

/// Whether a call passes its arguments by name.
pub open spec fn by_name(by: Passed) -> bool {
    by.keywords@.len() > 0 || (by.argc == 1 && by.dict is Some)
}

/// The sources of the first `n` arguments of a call by name, or the message
/// for the first that is missing.
pub open spec fn sources(names: Seq<Seq<char>>, by: Passed, n: nat) -> Result<Seq<Source>, Seq<char>>
    decreases n,
{
    if n == 0 {
        Ok(Seq::empty())
    } else {
        match sources(names, by, (n - 1) as nat) {
            Err(e) => Err(e),
            Ok(before) => match source(names, by, names[n - 1]) {
                Some(x) => Ok(before.push(x)),
                None => Err("missing keyword argument "@ + quoted(names[n - 1])),
            },
        }
    }
}

/// The message for a wrong number of positional arguments.
pub open spec fn count_message(data: SchemaData, m: MethodInfo, argc: nat) -> Seq<char> {
    if any_out(data, m) {
        m.name@ + " expects "@ + dec(inputs(data, m).len())
            + " input arg(s) (excluding out-vecs), got "@ + dec(argc)
    } else {
        m.name@ + " expects "@ + dec(m.params@.len()) + " args, got "@ + dec(argc)
    }
}

/// Where the arguments of a call come from, one for each parameter that the
/// caller passes, or why the call cannot be made.
pub open spec fn arranged(data: SchemaData, m: MethodInfo, by: Passed) -> Result<
    Seq<Source>,
    Seq<char>,
> {
    let names = inputs(data, m);
    if by_name(by) {
        sources(names, by, names.len())
    } else if by.argc != names.len() {
        Err(count_message(data, m, by.argc as nat))
    } else {
        Ok(Seq::new(names.len(), |i: int| Source::Positional(i as usize)))
    }
}

fn find_last(names: &Vec<String>, name: &str, n: usize) -> (r: Option<usize>)
    requires
        n <= names@.len(),
    ensures
        match r {
            Some(i) => last_named(strings_model(names@), name@, n as nat) == Some(i as nat),
            None => last_named(strings_model(names@), name@, n as nat) is None,
        },
{
    let ghost m = strings_model(names@);
    let mut i: usize = n;
    while i > 0
        invariant
            i <= n <= names@.len(),
            m == strings_model(names@),
            last_named(m, name@, n as nat) == last_named(m, name@, i as nat),
        decreases i,
    {
        if same(names[i - 1].as_str(), name) {
            return Some(i - 1);
        }
        i = i - 1;
    }
    None
}

fn find_source(names: &Vec<String>, by: &Passed, name: &str) -> (r: Option<Source>)
    requires
        by_name(*by),
    ensures
        r == source(strings_model(names@), *by, name@),
{
    if by.keywords.len() > 0 {
        match find_last(&by.keywords, name, by.keywords.len()) {
            Some(k) => Some(Source::Keyword(k)),
            None => {
                let n: usize = if by.argc < names.len() {
                    by.argc
                } else {
                    names.len()
                };
                match find_last(names, name, n) {
                    Some(j) => Some(Source::Positional(j)),
                    None => None,
                }
            },
        }
    } else {
        match &by.dict {
            Some(keys) => match find_last(keys, name, keys.len()) {
                Some(k) => Some(Source::Entry(k)),
                None => None,
            },
            None => None,
        }
    }
}

proof fn lemma_sources_stop(names: Seq<Seq<char>>, by: Passed, i: nat, n: nat)
    requires
        i <= n,
        sources(names, by, i) is Err,
    ensures
        sources(names, by, n) == sources(names, by, i),
    decreases n,
{
    if i < n {
        lemma_sources_stop(names, by, i, (n - 1) as nat);
    }
}

fn arrange_by_name(names: &Vec<String>, by: &Passed) -> (r: Result<Vec<Source>, String>)
    requires
        by_name(*by),
    ensures
        match r {
            Ok(v) => sources(strings_model(names@), *by, names@.len()) == Ok::<
                Seq<Source>,
                Seq<char>,
            >(v@),
            Err(e) => sources(strings_model(names@), *by, names@.len()) == Err::<
                Seq<Source>,
                Seq<char>,
            >(e@),
        },
{
    let ghost nm = strings_model(names@);
    let mut out: Vec<Source> = Vec::new();
    let mut i: usize = 0;
    while i < names.len()
        invariant
            i <= names.len(),
            by_name(*by),
            nm == strings_model(names@),
            sources(nm, *by, i as nat) == Ok::<Seq<Source>, Seq<char>>(out@),
        decreases names.len() - i,
    {
        match find_source(names, by, names[i].as_str()) {
            Some(x) => {
                out.push(x);
            },
            None => {
                proof {
                    lemma_sources_stop(nm, *by, (i + 1) as nat, names@.len());
                }
                return Err(
                    String::from_str("missing keyword argument ").concat(
                        quote(names[i].as_str()).as_str(),
                    ),
                );
            },
        }
        i = i + 1;
    }
    Ok(out)
}

/// The caller passes every parameter of a method that fills none.
pub proof fn all_params_are_inputs(data: SchemaData, m: MethodInfo)
    requires
        !any_out(data, m),
    ensures
        inputs(data, m).len() == m.params@.len(),
{
    lemma_inputs_len(data, m.params@, m.params@.len());
}

proof fn lemma_inputs_len(data: SchemaData, ps: Seq<ParamInfo>, n: nat)
    requires
        n <= ps.len(),
    ensures
        input_names(data, ps, n).len() <= n,
        (forall|i: int| 0 <= i < n ==> !is_out(data, #[trigger] ps[i])) ==> input_names(
            data,
            ps,
            n,
        ).len() == n,
    decreases n,
{
    if n > 0 {
        lemma_inputs_len(data, ps, (n - 1) as nat);
    }
}

/// Decides where the arguments of a call come from.
pub fn arrange(data: &SchemaData, m: &MethodInfo, by: &Passed) -> (r: Result<Vec<Source>, String>)
    requires
        params_there(*data, *m),
    ensures
        match r {
            Ok(v) => arranged(*data, *m, *by) == Ok::<Seq<Source>, Seq<char>>(v@),
            Err(e) => arranged(*data, *m, *by) == Err::<Seq<Source>, Seq<char>>(e@),
        },
{
    let names = list_inputs(data, m);
    if by.keywords.len() > 0 || (by.argc == 1 && by.dict.is_some()) {
        return arrange_by_name(&names, by);
    }
    if by.argc != names.len() {
        let name = m.name.clone().concat(" expects ");
        let got = decimal(by.argc as u64);
        return Err(
            if has_outvec(data, m) {
                name.concat(decimal(names.len() as u64).as_str()).concat(
                    " input arg(s) (excluding out-vecs), got ",
                ).concat(got.as_str())
            } else {
                name.concat(decimal(m.params.len() as u64).as_str()).concat(" args, got ").concat(
                    got.as_str(),
                )
            },
        );
    }
    let mut out: Vec<Source> = Vec::new();
    let ghost all = Seq::new(names@.len(), |i: int| Source::Positional(i as usize));
    let mut i: usize = 0;
    assert(out@ =~= all.take(0));
    while i < names.len()
        invariant
            i <= names.len(),
            all == Seq::new(names@.len(), |i: int| Source::Positional(i as usize)),
            out@ == all.take(i as int),
        decreases names.len() - i,
    {
        out.push(Source::Positional(i));
        assert(out@ =~= all.take(i + 1));
        i = i + 1;
    }
    assert(out@ =~= all);
    Ok(out)
}

/// A keyword argument takes precedence over a positional one, and without
/// keyword arguments the positional ones are taken in order.
pub proof fn keywords_take_precedence(data: SchemaData, m: MethodInfo, by: Passed, i: int)
    requires
        0 <= i < inputs(data, m).len(),
        arranged(data, m, by) is Ok,
    ensures
        arranged(data, m, by)->Ok_0.len() == inputs(data, m).len(),
        by.keywords@.len() > 0 && strings_model(by.keywords@).contains(inputs(data, m)[i])
            ==> arranged(data, m, by)->Ok_0[i] is Keyword,
        !by_name(by) ==> arranged(data, m, by)->Ok_0[i] == Source::Positional(i as usize),
{
    let names = inputs(data, m);
    if by_name(by) {
        lemma_sources(names, by, names.len(), i);
        if by.keywords@.len() > 0 && strings_model(by.keywords@).contains(names[i]) {
            lemma_last_named(strings_model(by.keywords@), names[i], by.keywords@.len());
        }
    }
}

proof fn lemma_sources(names: Seq<Seq<char>>, by: Passed, n: nat, i: int)
    requires
        0 <= i < n <= names.len(),
        sources(names, by, n) is Ok,
    ensures
        sources(names, by, n)->Ok_0.len() == n,
        source(names, by, names[i]) == Some(sources(names, by, n)->Ok_0[i]),
    decreases n,
{
    if i < n - 1 {
        lemma_sources(names, by, (n - 1) as nat, i);
    } else {
        if n > 1 {
            lemma_sources(names, by, (n - 1) as nat, 0);
        }
    }
}

proof fn lemma_last_named(names: Seq<Seq<char>>, name: Seq<char>, n: nat)
    requires
        n <= names.len(),
        exists|k: int| 0 <= k < n && #[trigger] names[k] == name,
    ensures
        last_named(names, name, n) is Some,
    decreases n,
{
    if names[n - 1] != name {
        lemma_last_named(names, name, (n - 1) as nat);
    }
}

/// How many of the first `n` parameters the caller passes.
pub open spec fn input_count(data: SchemaData, ps: Seq<ParamInfo>, n: nat) -> nat {
    input_names(data, ps, n).len()
}

/// The input of a call: the pieces of the first `n` parameters, in order.
pub open spec fn encoded_params(data: SchemaData, ps: Seq<ParamInfo>, args: Seq<Arg>, n: nat) -> Encoded
    decreases n,
{
    if n == 0 {
        Ok(Seq::empty())
    } else {
        match encoded_params(data, ps, args, (n - 1) as nat) {
            Err(e) => Err(e),
            Ok(before) => if is_out(data, ps[n - 1]) {
                Ok(before.push(PieceModel::OutVec))
            } else {
                match encoded(
                    data,
                    ps[n - 1].type_idx as int,
                    args[input_count(data, ps, (n - 1) as nat) as int],
                ) {
                    Ok(one) => Ok(before + one),
                    Err(e) => Err(e),
                }
            },
        }
    }
}

proof fn lemma_params_stop(data: SchemaData, ps: Seq<ParamInfo>, args: Seq<Arg>, i: nat, n: nat)
    requires
        i <= n,
        encoded_params(data, ps, args, i) is Err,
    ensures
        encoded_params(data, ps, args, n) == encoded_params(data, ps, args, i),
    decreases n,
{
    if i < n {
        lemma_params_stop(data, ps, args, i, (n - 1) as nat);
    }
}

proof fn lemma_count_grows(data: SchemaData, ps: Seq<ParamInfo>, i: nat, n: nat)
    requires
        i <= n,
    ensures
        input_count(data, ps, i) <= input_count(data, ps, n),
    decreases n,
{
    if i < n {
        lemma_count_grows(data, ps, i, (n - 1) as nat);
    }
}

/// Encodes the arguments of a call in the order of the parameters.
pub fn encode_call<'a>(data: &SchemaData, m: &MethodInfo, args: &'a Vec<Arg>) -> (r: Result<
    Vec<Piece<'a>>,
    EncodeError,
>)
    requires
        params_sound(*data, *m),
        args@.len() == inputs(*data, *m).len(),
    ensures
        encodes(r, encoded_params(*data, m.params@, args@, m.params@.len())),
{
    let ghost ps = m.params@;
    let mut out: Vec<Piece<'a>> = Vec::new();
    assert(pieces_model(out@) =~= Seq::empty());
    let mut next: usize = 0;
    let mut i: usize = 0;
    while i < m.params.len()
        invariant
            i <= m.params.len(),
            ps == m.params@,
            params_sound(*data, *m),
            args@.len() == inputs(*data, *m).len(),
            next == input_count(*data, ps, i as nat),
            next <= i,
            encoded_params(*data, ps, args@, i as nat) == Ok::<Seq<PieceModel>, EncodeFailure>(
                pieces_model(out@),
            ),
        decreases m.params.len() - i,
    {
        let ghost before = pieces_model(out@);
        assert(in_table(*data, m.params@[i as int].type_idx as int));
        if param_is_out(data, &m.params[i]) {
            out.push(Piece::OutVec);
            assert(pieces_model(out@) =~= before.push(PieceModel::OutVec));
        } else {
            proof {
                lemma_count_grows(*data, ps, (i + 1) as nat, ps.len());
            }
            match encode_value(data, m.params[i].type_idx, &args[next]) {
                Ok(one) => {
                    let ghost rest = pieces_model(one@);
                    let mut one = one;
                    out.append(&mut one);
                    assert(pieces_model(out@) =~= before + rest);
                },
                Err(e) => {
                    proof {
                        lemma_params_stop(*data, ps, args@, (i + 1) as nat, ps.len());
                    }
                    return Err(e);
                },
            }
            next = next + 1;
        }
        i = i + 1;
    }
    Ok(out)
}

/// The slots of a piece that is at `addr`.
pub open spec fn piece_slots(p: PieceModel, addr: u64) -> Seq<u64> {
    match p {
        PieceModel::Word(w) => seq![w],
        PieceModel::Text(s) => seq![addr, vstd::utf8::encode_utf8(s).len() as u64],
        PieceModel::Bytes(b) => seq![addr, b.len() as u64],
        PieceModel::BytesList(l) => seq![addr, l.len() as u64],
        PieceModel::OutVec => seq![addr],
    }
}

/// The slots of the first `n` pieces, which are at `addrs`.
pub open spec fn call_slots(ps: Seq<PieceModel>, addrs: Seq<u64>, n: nat) -> Seq<u64>
    decreases n,
{
    if n == 0 {
        Seq::empty()
    } else {
        call_slots(ps, addrs, (n - 1) as nat) + piece_slots(ps[n - 1], addrs[n - 1])
    }
}

/// Writes the slots of a call's input. `addrs` holds the address of each piece;
/// that of a plain word is not looked at.
pub fn write_pieces(w: &mut SlotWriter, pieces: &Vec<Piece>, addrs: &Vec<u64>)
    requires
        old(w).wf(),
        addrs@.len() == pieces@.len(),
    ensures
        final(w).wf(),
        final(w)@ == old(w)@ + call_slots(pieces_model(pieces@), addrs@, pieces@.len()),
{
    let ghost before = w@;
    let ghost ps = pieces_model(pieces@);
    let mut i: usize = 0;
    assert(w@ =~= before + call_slots(ps, addrs@, 0));
    while i < pieces.len()
        invariant
            i <= pieces.len(),
            addrs@.len() == pieces@.len(),
            ps == pieces_model(pieces@),
            w.wf(),
            w@ == before + call_slots(ps, addrs@, i as nat),
        decreases pieces.len() - i,
    {
        let ghost now = w@;
        let addr: u64 = addrs[i];
        match &pieces[i] {
            Piece::Word(n) => {
                w.write_u64(*n);
            },
            Piece::Text(s) => {
                w.write_u64(addr);
                w.write_u64(s.as_str().as_bytes().len() as u64);
            },
            Piece::Bytes(b) => {
                w.write_u64(addr);
                w.write_u64(b.len() as u64);
            },
            Piece::BytesList(l) => {
                w.write_u64(addr);
                w.write_u64(l.len() as u64);
            },
            Piece::OutVec => {
                w.write_u64(addr);
            },
        }
        assert(w@ =~= now + piece_slots(ps[i as int], addr));
        assert(w@ =~= before + call_slots(ps, addrs@, (i + 1) as nat));
        i = i + 1;
    }
}

/// Pieces that are plain words take one slot each, wherever they are.
pub proof fn words_are_their_slots(ps: Seq<PieceModel>, addrs: Seq<u64>, n: nat)
    requires
        n <= ps.len(),
        all_words(ps),
    ensures
        call_slots(ps, addrs, n) == words(ps).take(n as int),
    decreases n,
{
    if n > 0 {
        words_are_their_slots(ps, addrs, (n - 1) as nat);
        assert(ps[n - 1] is Word);
        assert(words(ps).take(n as int) =~= words(ps).take(n - 1).push(words(ps)[n - 1]));
        assert(call_slots(ps, addrs, n) =~= words(ps).take(n as int));
    } else {
        assert(call_slots(ps, addrs, n) =~= words(ps).take(0));
    }
}

/// What a method has answered.
pub enum Reply {
    /// Its value.
    Value(Value),
    /// The text of its error.
    SpierError(Option<Buffer>),
    /// Slots that hold neither.
    Failed(DecodeError),
}

/// Reads the slots of an answer: 1 and an error text, or another number and a
/// value of type `type_idx`.
pub fn decode_reply(data: &SchemaData, type_idx: u32, out: &[u64]) -> (r: Reply)
    requires
        out@.len() > 0 && out@[0] != 1 ==> sound(*data, type_idx as int, true),
    ensures
        match r {
            Reply::SpierError(b) => out@.len() >= 3 && out@[0] == 1 && b == buffer(
                out@[1],
                out@[2],
            ),
            Reply::Value(v) => {
                &&& out@.len() > 0 && out@[0] != 1
                &&& decoded(*data, type_idx as int, out@.drop_first()) matches Ok((x, _)) && x
                    == v.model()
            },
            Reply::Failed(e) => if out@.len() > 0 && out@[0] != 1 {
                decoded(*data, type_idx as int, out@.drop_first()) == Err::<
                    (ValueModel, Seq<u64>),
                    DecodeFailure,
                >(e@)
            } else {
                out@.len() < 3 && e@ == DecodeFailure::Exhausted
            },
        },
{
    let mut r = SlotReader::new(out);
    if r.remaining() == 0 {
        return Reply::Failed(DecodeError::Exhausted);
    }
    let tag: u64 = r.read_u64();
    if tag == 1 {
        return match read_buffer(&mut r) {
            Some(b) => Reply::SpierError(b),
            None => Reply::Failed(DecodeError::Exhausted),
        };
    }
    match decode_value(data, type_idx, &mut r) {
        Ok(v) => Reply::Value(v),
        Err(e) => Reply::Failed(e),
    }
}

} // verus!
