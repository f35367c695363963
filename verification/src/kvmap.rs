//! Key-value maps: the configuration that a spier is created with, as text.
use vstd::prelude::*;
use vstd::utf8::encode_utf8;

use crate::text::{ascii_upper, copy_bytes, digit, same};

verus! {

// ---------------------------------------------------------------------------
// Maps
// ---------------------------------------------------------------------------

/// A map from text to text, in the order in which the keys were first set.
pub struct KvMap {
    pub pairs: Vec<(String, String)>,
}

/// The model of a list of pairs.
pub open spec fn pairs_model(v: Seq<(String, String)>) -> Seq<(Seq<char>, Seq<char>)> {
    Seq::new(v.len(), |i: int| (v[i].0@, v[i].1@))
}

/// The map that the first `n` pairs make; a later pair replaces an earlier one
/// with the same key.
pub open spec fn map_of(ps: Seq<(Seq<char>, Seq<char>)>, n: nat) -> Map<Seq<char>, Seq<char>>
    decreases n,
{
    if n == 0 {
        Map::empty()
    } else {
        map_of(ps, (n - 1) as nat).insert(ps[n - 1].0, ps[n - 1].1)
    }
}

/// Whether no two pairs have the same key.
pub open spec fn distinct_keys(ps: Seq<(Seq<char>, Seq<char>)>) -> bool {
    forall|i: int, j: int| 0 <= i < j < ps.len() ==> (#[trigger] ps[i]).0 != (#[trigger] ps[j]).0
}

impl View for KvMap {
    type V = Map<Seq<char>, Seq<char>>;

    open spec fn view(&self) -> Map<Seq<char>, Seq<char>> {
        map_of(pairs_model(self.pairs@), self.pairs@.len())
    }
}

proof fn lemma_map_prefix(
    a: Seq<(Seq<char>, Seq<char>)>,
    b: Seq<(Seq<char>, Seq<char>)>,
    n: nat,
)
    requires
        n <= a.len(),
        n <= b.len(),
        forall|i: int| 0 <= i < n ==> a[i] == #[trigger] b[i],
    ensures
        map_of(a, n) == map_of(b, n),
    decreases n,
{
    if n > 0 {
        lemma_map_prefix(a, b, (n - 1) as nat);
        assert(a[n - 1] == b[n - 1]);
    }
}

proof fn lemma_map_lookup(ps: Seq<(Seq<char>, Seq<char>)>, n: nat, i: int)
    requires
        0 <= i < n <= ps.len(),
        distinct_keys(ps),
    ensures
        map_of(ps, n).contains_key(ps[i].0),
        map_of(ps, n)[ps[i].0] == ps[i].1,
    decreases n,
{
    if i < n - 1 {
        lemma_map_lookup(ps, (n - 1) as nat, i);
        assert(ps[i].0 != ps[n - 1].0);
    }
}

proof fn lemma_map_keys(ps: Seq<(Seq<char>, Seq<char>)>, n: nat, key: Seq<char>)
    requires
        n <= ps.len(),
        map_of(ps, n).contains_key(key),
    ensures
        exists|i: int| 0 <= i < n && #[trigger] ps[i].0 == key,
    decreases n,
{
    if n > 0 {
        if ps[n - 1].0 == key {
            assert(ps[n - 1].0 == key);
        } else {
            lemma_map_keys(ps, (n - 1) as nat, key);
        }
    }
}

impl KvMap {
    /// A map in which every key has one value.
    pub open spec fn wf(self) -> bool {
        distinct_keys(pairs_model(self.pairs@))
    }

    /// An empty map.
    pub fn new() -> (r: KvMap)
        ensures
            r.wf(),
            r@ == Map::<Seq<char>, Seq<char>>::empty(),
    {
        KvMap { pairs: Vec::new() }
    }

    fn position(&self, key: &str) -> (r: Option<usize>)
        ensures
            match r {
                Some(i) => i < self.pairs@.len() && self.pairs@[i as int].0@ == key@,
                None => forall|i: int|
                    0 <= i < self.pairs@.len() ==> (#[trigger] self.pairs@[i]).0@ != key@,
            },
    {
        let mut i: usize = 0;
        while i < self.pairs.len()
            invariant
                i <= self.pairs.len(),
                forall|k: int| 0 <= k < i ==> (#[trigger] self.pairs@[k]).0@ != key@,
            decreases self.pairs.len() - i,
        {
            if same(self.pairs[i].0.as_str(), key) {
                return Some(i);
            }
            i = i + 1;
        }
        None
    }

    /// Sets the value of a key.
    pub fn insert(&mut self, key: String, value: String)
        requires
            old(self).wf(),
        ensures
            final(self).wf(),
            final(self)@ == old(self)@.insert(key@, value@),
    {
        let ghost before = pairs_model(self.pairs@);
        let ghost n = before.len();
        let at = self.position(key.as_str());
        match at {
            Some(i) => {
                self.pairs.set(i, (key, value));
                let ghost after = pairs_model(self.pairs@);
                proof {
                    assert(after =~= before.update(i as int, (key@, value@)));
                    assert(distinct_keys(after)) by {
                        assert forall|a: int, b: int| 0 <= a < b < after.len() implies (
                        #[trigger] after[a]).0 != (#[trigger] after[b]).0 by {
                            assert(after[a].0 == before[a].0);
                            assert(after[b].0 == before[b].0);
                        }
                    }
                    lemma_replace(before, i as int, value@);
                }
            },
            None => {
                self.pairs.push((key, value));
                let ghost after = pairs_model(self.pairs@);
                proof {
                    assert(after =~= before.push((key@, value@)));
                    lemma_map_prefix(before, after, n);
                    assert(distinct_keys(after)) by {
                        assert forall|a: int, b: int| 0 <= a < b < after.len() implies (
                        #[trigger] after[a]).0 != (#[trigger] after[b]).0 by {
                            assert(after[a] == before[a]);
                            assert(old(self).pairs@[a].0@ != key@);
                            if b < n {
                                assert(after[b] == before[b]);
                            }
                        }
                    }
                }
            },
        }
    }

    /// The value of a key.
    pub fn get(&self, key: &str) -> (r: Option<&String>)
        requires
            self.wf(),
        ensures
            match r {
                Some(v) => self@.contains_key(key@) && self@[key@] == v@,
                None => !self@.contains_key(key@),
            },
    {
        let ghost ps = pairs_model(self.pairs@);
        match self.position(key) {
            Some(i) => {
                proof {
                    lemma_map_lookup(ps, ps.len(), i as int);
                }
                Some(&self.pairs[i].1)
            },
            None => {
                proof {
                    if self@.contains_key(key@) {
                        lemma_map_keys(ps, ps.len(), key@);
                        let i = choose|i: int| 0 <= i < ps.len() && #[trigger] ps[i].0 == key@;
                        assert(self.pairs@[i].0@ == key@);
                    }
                }
                None
            },
        }
    }

    /// The number of keys.
    pub fn len(&self) -> (r: usize)
        requires
            self.wf(),
        ensures
            r == self@.len(),
    {
        proof {
            let ps = pairs_model(self.pairs@);
            lemma_map_len(ps, ps.len());
        }
        self.pairs.len()
    }

    /// Whether the map is empty.
    pub fn is_empty(&self) -> (r: bool)
        requires
            self.wf(),
        ensures
            r == (self@ == Map::<Seq<char>, Seq<char>>::empty()),
    {
        proof {
            let ps = pairs_model(self.pairs@);
            if ps.len() > 0 {
                lemma_map_lookup(ps, ps.len(), 0);
            }
        }
        self.pairs.len() == 0
    }
}

proof fn lemma_map_len(ps: Seq<(Seq<char>, Seq<char>)>, n: nat)
    requires
        n <= ps.len(),
        distinct_keys(ps),
    ensures
        map_of(ps, n).len() == n,
        map_of(ps, n).dom().finite(),
    decreases n,
{
    if n > 0 {
        lemma_map_len(ps, (n - 1) as nat);
        if map_of(ps, (n - 1) as nat).contains_key(ps[n - 1].0) {
            lemma_map_keys(ps, (n - 1) as nat, ps[n - 1].0);
            let i = choose|i: int| 0 <= i < n - 1 && #[trigger] ps[i].0 == ps[n - 1].0;
            assert(ps[i].0 != ps[n - 1].0);
        }
    }
}

proof fn lemma_replace(ps: Seq<(Seq<char>, Seq<char>)>, i: int, value: Seq<char>)
    requires
        0 <= i < ps.len(),
        distinct_keys(ps),
    ensures
        map_of(ps.update(i, (ps[i].0, value)), ps.len()) == map_of(ps, ps.len()).insert(
            ps[i].0,
            value,
        ),
{
    let after = ps.update(i, (ps[i].0, value));
    let n = ps.len();
    let a = map_of(after, n);
    let b = map_of(ps, n).insert(ps[i].0, value);
    assert(distinct_keys(after)) by {
        assert forall|x: int, y: int| 0 <= x < y < after.len() implies (#[trigger] after[x]).0 != (
        #[trigger] after[y]).0 by {
            assert(after[x].0 == ps[x].0);
            assert(after[y].0 == ps[y].0);
        }
    }
    assert forall|k: Seq<char>| a.contains_key(k) <==> b.contains_key(k) by {
        if a.contains_key(k) {
            lemma_map_keys(after, n, k);
            let j = choose|j: int| 0 <= j < n && #[trigger] after[j].0 == k;
            assert(ps[j].0 == k);
            lemma_map_lookup(ps, n, j);
        }
        if b.contains_key(k) {
            if k == ps[i].0 {
                lemma_map_lookup(after, n, i);
            } else {
                lemma_map_keys(ps, n, k);
                let j = choose|j: int| 0 <= j < n && #[trigger] ps[j].0 == k;
                assert(after[j].0 == k);
                lemma_map_lookup(after, n, j);
            }
        }
    }
    assert forall|k: Seq<char>| a.contains_key(k) implies #[trigger] a[k] == b[k] by {
        lemma_map_keys(after, n, k);
        let j = choose|j: int| 0 <= j < n && #[trigger] after[j].0 == k;
        lemma_map_lookup(after, n, j);
        if j != i {
            assert(ps[j] == after[j]);
            lemma_map_lookup(ps, n, j);
            if j < i {
                assert(ps[j].0 != ps[i].0);
            } else {
                assert(ps[i].0 != ps[j].0);
            }
        }
    }
    assert(a =~= b);
}

// ---------------------------------------------------------------------------
// Form encoding
// ---------------------------------------------------------------------------

/// Whether a byte stands for itself.
pub open spec fn unreserved(b: u8) -> bool {
    ||| b == 42
    ||| b == 45
    ||| b == 46
    ||| 48 <= b <= 57
    ||| 65 <= b <= 90
    ||| b == 95
    ||| 97 <= b <= 122
}

/// A byte in a form: itself, `+` for a blank, or `%` and two upper-case
/// hexadecimal digits.
pub open spec fn form_byte(b: u8) -> Seq<char> {
    if unreserved(b) {
        seq![b as char]
    } else if b == 32 {
        seq!['+']
    } else {
        seq!['%', ascii_upper(digit((b / 16) as int)), ascii_upper(digit((b % 16) as int))]
    }
}

/// The first `n` bytes in a form.
pub open spec fn form_bytes(bs: Seq<u8>, n: nat) -> Seq<char>
    decreases n,
{
    if n == 0 {
        Seq::empty()
    } else {
        form_bytes(bs, (n - 1) as nat) + form_byte(bs[n - 1])
    }
}

/// A text in a form.
pub open spec fn form_text(s: Seq<char>) -> Seq<char> {
    form_bytes(encode_utf8(s), encode_utf8(s).len())
}

/// A form after one more pair: `name=value`, behind `&` unless it is the first.
pub open spec fn with_pair(form: Seq<char>, name: Seq<char>, value: Seq<char>) -> Seq<char> {
    (if form.len() > 0 {
        form + "&"@
    } else {
        form
    }) + form_text(name) + "="@ + form_text(value)
}

/// The form of the first `n` pairs.
pub open spec fn form(ps: Seq<(Seq<char>, Seq<char>)>, n: nat) -> Seq<char>
    decreases n,
{
    if n == 0 {
        Seq::empty()
    } else {
        with_pair(form(ps, (n - 1) as nat), ps[n - 1].0, ps[n - 1].1)
    }
}

/// What `form_urlencoded::parse` makes of bytes.
pub uninterp spec fn form_pairs(data: Seq<u8>) -> Seq<(Seq<char>, Seq<char>)>;

/// `form_urlencoded::Serializer::append_pair` on a serializer that has been made
/// with `form`, and its `finish`: the pair is appended, each byte of the name
/// and the value encoded on its own.
#[verifier::external_body]
fn append_pair(form: String, name: &str, value: &str) -> (r: String)
    ensures
        r@ == with_pair(form@, name@, value@),
{
    let mut s = form_urlencoded::Serializer::new(form);
    s.append_pair(name, value);
    s.finish()
}

/// `form_urlencoded::parse` and its `into_owned`: the pairs depend on the bytes
/// alone, and those of a form are the pairs that it was made from. What bytes
/// that are no such form give is left unsaid.
#[verifier::external_body]
fn parse_form(data: &[u8]) -> (r: Vec<(String, String)>)
    ensures
        pairs_model(r@) == form_pairs(data@),
        forall|ps: Seq<(Seq<char>, Seq<char>)>|
            data@ == encode_utf8(#[trigger] form(ps, ps.len())) ==> pairs_model(r@) == ps,
{
    form_urlencoded::parse(data).into_owned().collect()
}

/// The bytes of a map.
pub open spec fn serialized(config: KvMap) -> Seq<u8> {
    encode_utf8(form(pairs_model(config.pairs@), config.pairs@.len()))
}

/// Writes a map as `key=value&key2=value2`, with what is special encoded.
pub fn serialize_kvmap(config: &KvMap) -> (r: Vec<u8>)
    ensures
        r@ == serialized(*config),
{
    let ghost ps = pairs_model(config.pairs@);
    let mut out = String::new();
    assert(out@ =~= Seq::empty());
    let mut i: usize = 0;
    while i < config.pairs.len()
        invariant
            i <= config.pairs.len(),
            ps == pairs_model(config.pairs@),
            out@ == form(ps, i as nat),
        decreases config.pairs.len() - i,
    {
        out = append_pair(out, config.pairs[i].0.as_str(), config.pairs[i].1.as_str());
        i = i + 1;
    }
    copy_bytes(out.as_str().as_bytes())
}

/// The map of pairs that have been read; a later pair replaces an earlier one
/// with the same key.
pub fn collect_pairs(pairs: Vec<(String, String)>) -> (r: KvMap)
    ensures
        r.wf(),
        r@ == map_of(pairs_model(pairs@), pairs@.len()),
{
    let ghost ps = pairs_model(pairs@);
    let mut out = KvMap::new();
    let mut i: usize = 0;
    while i < pairs.len()
        invariant
            i <= pairs.len(),
            ps == pairs_model(pairs@),
            out.wf(),
            out@ == map_of(ps, i as nat),
        decreases pairs.len() - i,
    {
        out.insert(pairs[i].0.clone(), pairs[i].1.clone());
        i = i + 1;
    }
    out
}

/// Reads a map. No bytes give an empty map; what [`serialize_kvmap`] has written
/// of a map gives that map.
pub fn deserialize_kvmap(data: &[u8]) -> (r: KvMap)
    ensures
        r.wf(),
        data@.len() > 0 ==> r@ == map_of(form_pairs(data@), form_pairs(data@).len()),
        data@.len() == 0 ==> r@ == Map::<Seq<char>, Seq<char>>::empty(),
        forall|m: KvMap| data@ == #[trigger] serialized(m) ==> r@ == m@,
{
    if data.len() == 0 {
        proof {
            assert forall|m: KvMap| data@ == #[trigger] serialized(m) implies m@
                == Map::<Seq<char>, Seq<char>>::empty() by {
                lemma_empty_form(pairs_model(m.pairs@), m.pairs@.len());
            }
        }
        return KvMap::new();
    }
    let pairs = parse_form(data);
    proof {
        assert forall|m: KvMap| data@ == #[trigger] serialized(m) implies map_of(
            pairs_model(pairs@),
            pairs@.len(),
        ) == m@ by {
            let ps = pairs_model(m.pairs@);
            assert(data@ == encode_utf8(form(ps, ps.len())));
        }
    }
    collect_pairs(pairs)
}

proof fn lemma_empty_form(ps: Seq<(Seq<char>, Seq<char>)>, n: nat)
    requires
        encode_utf8(form(ps, n)).len() == 0,
    ensures
        n == 0,
{
    if n > 0 {
        let f = form(ps, n);
        reveal_strlit("=");
        assert(f.len() > 0);
        vstd::utf8::encode_utf8_decode_utf8(f);
        assert(encode_utf8(f) =~= Seq::empty());
        assert(encode_utf8(Seq::<char>::empty()) =~= Seq::empty());
        vstd::utf8::encode_utf8_decode_utf8(Seq::<char>::empty());
    }
}

} // verus!
