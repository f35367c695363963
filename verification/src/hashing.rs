//! What the hash is for: texts that differ have different hashes.
use vstd::prelude::*;
use vstd::utf8::encode_utf8;

use crate::ast::{fnv1a, idl_hash, InterfaceModel};
use crate::expand::{trait_hash, trait_sig, MethodItem};

verus! {

/// The number that undoes a multiplication by the prime of 64-bit FNV.
pub open spec fn prime_inverse() -> int {
    0xce965057aff6957b
}

/// Whether `a` and `b` are as long as each other and differ in the place `i`
/// alone.
pub open spec fn differ_at(a: Seq<u8>, b: Seq<u8>, i: int) -> bool {
    &&& a.len() == b.len()
    &&& 0 <= i < a.len()
    &&& a[i] != b[i]
    &&& forall|j: int| 0 <= j < a.len() && j != i ==> #[trigger] a[j] == b[j]
}

proof fn lemma_product(x: u64)
    ensures
        x.wrapping_mul(0x100000001b3) * prime_inverse() % 0x1_0000_0000_0000_0000 == x,
{
    let m: int = 0x1_0000_0000_0000_0000;
    let p: int = 0x100000001b3;
    let q: int = prime_inverse();
    let y: int = x * p % m;
    assert(x.wrapping_mul(0x100000001b3) == y);
    vstd::arithmetic::div_mod::lemma_mul_mod_noop_left(x * p, q, m);
    assert(p * q == 887285111055 * m + 1);
    assert(x * p * q == m * (887285111055 * x) + x) by (nonlinear_arith)
        requires
            p * q == 887285111055 * m + 1,
    ;
    vstd::arithmetic::div_mod::lemma_mod_multiples_vanish(887285111055 * x, x as int, m);
}

/// The hash of a text gives back the hash of the text without its last byte:
/// multiplied by the inverse of the prime it is that hash, with the last byte
/// put over it.
pub proof fn last_byte_can_be_undone(data: Seq<u8>, last: u8)
    ensures
        fnv1a(data.push(last)) * prime_inverse() % 0x1_0000_0000_0000_0000 == fnv1a(data) ^ (
        last as u64),
{
    assert(data.push(last).drop_last() =~= data);
    lemma_product(fnv1a(data) ^ (last as u64));
}

/// Behind different bytes the same text has different hashes.
pub proof fn last_bytes_tell_apart(data: Seq<u8>, x: u8, y: u8)
    requires
        x != y,
    ensures
        fnv1a(data.push(x)) != fnv1a(data.push(y)),
{
    last_byte_can_be_undone(data, x);
    last_byte_can_be_undone(data, y);
    let h = fnv1a(data);
    assert(h ^ (x as u64) != h ^ (y as u64)) by (bit_vector)
        requires
            x != y,
    ;
}

/// What follows two texts neither brings their hashes together nor apart.
pub proof fn same_ends_keep_apart(a: Seq<u8>, b: Seq<u8>, end: Seq<u8>)
    ensures
        fnv1a(a + end) == fnv1a(b + end) <==> fnv1a(a) == fnv1a(b),
    decreases end.len(),
{
    if end.len() == 0 {
        assert(a + end =~= a && b + end =~= b);
    } else {
        let e = end.drop_last();
        let c = end.last();
        same_ends_keep_apart(a, b, e);
        assert(a + end =~= (a + e).push(c));
        assert(b + end =~= (b + e).push(c));
        last_byte_can_be_undone(a + e, c);
        last_byte_can_be_undone(b + e, c);
        let x = fnv1a(a + e);
        let y = fnv1a(b + e);
        assert(x ^ (c as u64) == y ^ (c as u64) ==> x == y) by (bit_vector);
        if x == y {
            assert((a + e).push(c).drop_last() =~= a + e);
            assert((b + e).push(c).drop_last() =~= b + e);
        }
    }
}

/// The hash depends on every byte: texts that differ in one place have different
/// hashes.
pub proof fn every_byte_counts(a: Seq<u8>, b: Seq<u8>, i: int)
    requires
        differ_at(a, b, i),
    ensures
        fnv1a(a) != fnv1a(b),
{
    let head = a.take(i);
    let end = a.skip(i + 1);
    assert(a =~= head.push(a[i]) + end);
    assert(b =~= head.push(b[i]) + end);
    last_bytes_tell_apart(head, a[i], b[i]);
    same_ends_keep_apart(head.push(a[i]), head.push(b[i]), end);
}

/// Interfaces whose signatures differ in one place have different hashes: the
/// one is refused where the other is expected.
pub proof fn interfaces_that_differ_are_refused(a: InterfaceModel, b: InterfaceModel, i: int)
    requires
        differ_at(encode_utf8(a.canonical_sig()), encode_utf8(b.canonical_sig()), i),
    ensures
        idl_hash(a) != idl_hash(b),
{
    every_byte_counts(encode_utf8(a.canonical_sig()), encode_utf8(b.canonical_sig()), i);
}

/// The same of traits.
pub proof fn traits_that_differ_are_refused(
    name: Seq<char>,
    a: Seq<MethodItem>,
    b: Seq<MethodItem>,
    i: int,
)
    requires
        differ_at(encode_utf8(trait_sig(name, a)), encode_utf8(trait_sig(name, b)), i),
    ensures
        trait_hash(name, a) != trait_hash(name, b),
{
    every_byte_counts(encode_utf8(trait_sig(name, a)), encode_utf8(trait_sig(name, b)), i);
}

/// The published values of 64-bit FNV-1a for the empty text, `a`, `b` and
/// `foobar`.
pub proof fn published_values()
    ensures
        fnv1a(seq![]) == 0xcbf29ce484222325,
        fnv1a(seq![97u8]) == 0xaf63dc4c8601ec8c,
        fnv1a(seq![98u8]) == 0xaf63df4c8601f1a5,
        fnv1a(seq![102u8, 111u8, 111u8, 98u8, 97u8, 114u8]) == 0x85944171f73967e8,
{
    assert(0xcbf29ce484222325u64 ^ 97u64 == 0xcbf29ce484222344u64
        && 0xcbf29ce484222325u64 ^ 98u64 == 0xcbf29ce484222347u64
        && 0xcbf29ce484222325u64 ^ 102u64 == 0xcbf29ce484222343u64
        && 0xaf63db4c8601ead9u64 ^ 111u64 == 0xaf63db4c8601eab6u64
        && 0x8985907b541d342u64 ^ 111u64 == 0x8985907b541d32du64
        && 0xdcb27518fed9d577u64 ^ 98u64 == 0xdcb27518fed9d515u64
        && 0xdd120e790c2512afu64 ^ 97u64 == 0xdd120e790c2512ceu64
        && 0xcac165afa2fef40au64 ^ 114u64 == 0xcac165afa2fef478u64) by (bit_vector);
    lemma_step(seq![], 97, 0xcbf29ce484222325, 0xcbf29ce484222344, 0xaf63dc4c8601ec8c);
    lemma_step(seq![], 98, 0xcbf29ce484222325, 0xcbf29ce484222347, 0xaf63df4c8601f1a5);
    assert(Seq::<u8>::empty().push(97) =~= seq![97u8]);
    assert(Seq::<u8>::empty().push(98) =~= seq![98u8]);
    lemma_step(seq![], 102, 0xcbf29ce484222325, 0xcbf29ce484222343, 0xaf63db4c8601ead9);
    assert(Seq::<u8>::empty().push(102) =~= seq![102u8]);
    lemma_step(seq![102u8], 111, 0xaf63db4c8601ead9, 0xaf63db4c8601eab6, 0x8985907b541d342);
    assert(seq![102u8].push(111) =~= seq![102u8, 111u8]);
    lemma_step(seq![102u8, 111u8], 111, 0x8985907b541d342, 0x8985907b541d32d, 0xdcb27518fed9d577);
    assert(seq![102u8, 111u8].push(111) =~= seq![102u8, 111u8, 111u8]);
    lemma_step(seq![102u8, 111u8, 111u8], 98, 0xdcb27518fed9d577, 0xdcb27518fed9d515, 0xdd120e790c2512af);
    assert(seq![102u8, 111u8, 111u8].push(98) =~= seq![102u8, 111u8, 111u8, 98u8]);
    lemma_step(seq![102u8, 111u8, 111u8, 98u8], 97, 0xdd120e790c2512af, 0xdd120e790c2512ce, 0xcac165afa2fef40a);
    assert(seq![102u8, 111u8, 111u8, 98u8].push(97) =~= seq![102u8, 111u8, 111u8, 98u8, 97u8]);
    lemma_step(seq![102u8, 111u8, 111u8, 98u8, 97u8], 114, 0xcac165afa2fef40a, 0xcac165afa2fef478, 0x85944171f73967e8);
    assert(seq![102u8, 111u8, 111u8, 98u8, 97u8].push(114) =~= seq![102u8, 111u8, 111u8, 98u8, 97u8, 114u8]);
}

proof fn lemma_step(data: Seq<u8>, b: u8, before: u64, mixed: u64, after: u64)
    requires
        fnv1a(data) == before,
        mixed == before ^ (b as u64),
        after == mixed * 0x100000001b3 % 0x1_0000_0000_0000_0000,
    ensures
        fnv1a(data.push(b)) == after,
{
    assert(data.push(b).drop_last() =~= data);
}

} // verus!
