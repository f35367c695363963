//! Run-length encoding: the engine of the demonstration spier.
//!
//! A run of up to 255 equal bytes is encoded as two bytes, its length and the
//! byte.
use vstd::prelude::*;
use vstd::string::StringExecFns;

use crate::managed::{released_at, DOption, DSlice, DStr, DString, DVec, Heap, ReprC};
use crate::text::{copy_bytes, dec, decimal, decoded_text, digit, digit_char, lossy_text, strings_model};

verus! {

// ---------------------------------------------------------------------------
// What the encoding is
// ---------------------------------------------------------------------------

/// The length of the run at the start of `data`, from `n` equal bytes on, cut
/// at 255.
pub open spec fn run_from(data: Seq<u8>, n: nat) -> nat
    decreases 255 - n,
{
    if n < 255 && n < data.len() && data[n as int] == data[0] {
        run_from(data, n + 1)
    } else {
        n
    }
}

/// The length of the run at the start of `data`, cut at 255.
pub open spec fn run_len(data: Seq<u8>) -> nat {
    run_from(data, 1)
}

proof fn lemma_run_from(data: Seq<u8>, n: nat)
    requires
        1 <= n <= 255,
        n <= data.len(),
        forall|i: int| 0 <= i < n ==> #[trigger] data[i] == data[0],
    ensures
        n <= run_from(data, n) <= 255,
        run_from(data, n) <= data.len(),
        forall|i: int| 0 <= i < run_from(data, n) ==> #[trigger] data[i] == data[0],
        run_from(data, n) < 255 && run_from(data, n) < data.len() ==> data[run_from(
            data,
            n,
        ) as int] != data[0],
    decreases 255 - n,
{
    if n < 255 && n < data.len() && data[n as int] == data[0] {
        lemma_run_from(data, n + 1);
    }
}

/// A run is as long as its bytes are equal, but at most 255.
pub proof fn runs_are_maximal(data: Seq<u8>)
    requires
        data.len() > 0,
    ensures
        1 <= run_len(data) <= 255,
        run_len(data) <= data.len(),
        forall|i: int| 0 <= i < run_len(data) ==> #[trigger] data[i] == data[0],
        run_len(data) < 255 && run_len(data) < data.len() ==> data[run_len(data) as int] != data[0],
{
    lemma_run_from(data, 1);
}

/// The encoding of `data`: each run in order, as its length and its byte.
pub open spec fn compressed(data: Seq<u8>) -> Seq<u8>
    decreases data.len(),
{
    if data.len() == 0 {
        Seq::empty()
    } else {
        proof {
            runs_are_maximal(data);
        }
        seq![run_len(data) as u8, data[0]] + compressed(data.skip(run_len(data) as int))
    }
}

/// What the first `n` pairs of `data` expand to.
pub open spec fn expanded(data: Seq<u8>, n: nat) -> Seq<u8>
    decreases n,
{
    if n == 0 {
        Seq::empty()
    } else {
        expanded(data, (n - 1) as nat) + Seq::new(
            data[2 * (n - 1)] as nat,
            |i: int| data[2 * (n - 1) + 1],
        )
    }
}

/// The decoding of `data`: `None` if its length is odd.
pub open spec fn decompressed(data: Seq<u8>) -> Option<Seq<u8>> {
    if data.len() % 2 != 0 {
        None
    } else {
        Some(expanded(data, data.len() / 2))
    }
}

proof fn lemma_expanded_head(a: u8, b: u8, rest: Seq<u8>, n: nat)
    requires
        2 * n <= rest.len(),
    ensures
        expanded(seq![a, b] + rest, n + 1) == Seq::new(a as nat, |i: int| b) + expanded(rest, n),
    decreases n,
{
    let data = seq![a, b] + rest;
    if n == 0 {
        assert(expanded(data, 1) =~= expanded(data, 0) + Seq::new(
            data[0] as nat,
            |i: int| data[1],
        ));
        assert(expanded(data, 1) =~= Seq::new(a as nat, |i: int| b) + expanded(rest, 0));
    } else {
        lemma_expanded_head(a, b, rest, (n - 1) as nat);
        assert(data[2 * n as int] == rest[2 * n - 2]);
        assert(data[2 * n as int + 1] == rest[2 * n - 1]);
        let tail = Seq::new(rest[2 * n - 2] as nat, |i: int| rest[2 * n - 1]);
        assert(Seq::new(data[2 * n as int] as nat, |i: int| data[2 * n as int + 1]) =~= tail);
        assert(expanded(data, n + 1) =~= Seq::new(a as nat, |i: int| b) + expanded(rest, n));
    }
}

proof fn lemma_compressed_even(data: Seq<u8>)
    ensures
        compressed(data).len() % 2 == 0,
        compressed(data).len() <= 2 * data.len(),
    decreases data.len(),
{
    if data.len() > 0 {
        runs_are_maximal(data);
        lemma_compressed_even(data.skip(run_len(data) as int));
    }
}

proof fn lemma_expand_compressed(data: Seq<u8>)
    ensures
        expanded(compressed(data), compressed(data).len() / 2) == data,
    decreases data.len(),
{
    if data.len() > 0 {
        runs_are_maximal(data);
        let k = run_len(data);
        let rest = data.skip(k as int);
        let c = compressed(rest);
        lemma_compressed_even(rest);
        lemma_expand_compressed(rest);
        lemma_expanded_head(k as u8, data[0], c, c.len() / 2);
        assert(compressed(data).len() / 2 == c.len() / 2 + 1);
        assert(Seq::new(k, |i: int| data[0]) + rest =~= data);
        assert(Seq::new((k as u8) as nat, |i: int| data[0]) =~= Seq::new(k, |i: int| data[0]));
    } else {
        assert(expanded(compressed(data), 0) =~= data);
    }
}

/// Decoding undoes encoding, for every input.
pub proof fn rle_round_trip(data: Seq<u8>)
    ensures
        decompressed(compressed(data)) == Some(data),
{
    lemma_compressed_even(data);
    lemma_expand_compressed(data);
}

/// The encoding has an even length, at most twice that of the input.
pub proof fn compressed_size(data: Seq<u8>)
    ensures
        compressed(data).len() % 2 == 0,
        compressed(data).len() <= 2 * data.len(),
{
    lemma_compressed_even(data);
}

// ---------------------------------------------------------------------------
// Encoding and decoding
// ---------------------------------------------------------------------------

/// Encodes `data`.
pub fn rle_compress(data: &[u8]) -> (out: Vec<u8>)
    ensures
        out@ == compressed(data@),
{
    let mut out: Vec<u8> = Vec::new();
    let mut i: usize = 0;
    assert(data@.skip(0) =~= data@);
    assert(out@ + compressed(data@) =~= compressed(data@));
    while i < data.len()
        invariant
            i <= data.len(),
            out@ + compressed(data@.skip(i as int)) == compressed(data@),
        decreases data.len() - i,
    {
        let ghost rest = data@.skip(i as int);
        let ghost done = out@;
        let byte: u8 = data[i];
        let mut count: usize = 1;
        while count < data.len() - i && data[i + count] == byte && count < 255
            invariant
                i < data.len(),
                1 <= count <= 255,
                count <= data.len() - i,
                rest == data@.skip(i as int),
                byte == rest[0],
                run_from(rest, 1) == run_from(rest, count as nat),
            decreases 255 - count,
        {
            count = count + 1;
        }
        proof {
            runs_are_maximal(rest);
            assert(run_len(rest) == count);
            assert(rest.skip(count as int) =~= data@.skip(i + count));
        }
        out.push(count as u8);
        out.push(byte);
        assert(out@ + compressed(rest.skip(count as int)) =~= done + compressed(rest));
        i = i + count;
    }
    assert(data@.skip(i as int) =~= Seq::<u8>::empty());
    assert(out@ + Seq::<u8>::empty() =~= out@);
    out
}

/// Decodes `data`, which must be of even length.
pub fn rle_decompress(data: &[u8]) -> (r: Result<Vec<u8>, String>)
    ensures
        match decompressed(data@) {
            Some(out) => r is Ok && r->Ok_0@ == out,
            None => r is Err && r->Err_0@ == "corrupted RLE stream: odd length"@,
        },
{
    if data.len() % 2 != 0 {
        return Err(String::from_str("corrupted RLE stream: odd length"));
    }
    let mut out: Vec<u8> = Vec::new();
    let mut i: usize = 0;
    while i < data.len()
        invariant
            i <= data.len(),
            i % 2 == 0,
            data.len() % 2 == 0,
            out@ == expanded(data@, (i / 2) as nat),
        decreases data.len() - i,
    {
        let ghost before = out@;
        let n: u8 = data[i];
        let byte: u8 = data[i + 1];
        let mut k: u8 = 0;
        assert(out@ =~= before + Seq::new(0, |j: int| byte));
        while k < n
            invariant
                k <= n,
                out@ == before + Seq::new(k as nat, |j: int| byte),
            decreases n - k,
        {
            out.push(byte);
            k = k + 1;
            assert(out@ =~= before + Seq::new(k as nat, |j: int| byte));
        }
        assert(out@ =~= expanded(data@, (i / 2 + 1) as nat)) by {
            let q = (i / 2) as int;
            assert(2 * q == i);
        }
        i = i + 2;
    }
    Ok(out)
}

// ---------------------------------------------------------------------------
// The engine
// ---------------------------------------------------------------------------

/// The state of the engine; it has none.
pub struct RleState;

/// Bytes that a host holds without looking into them.
pub struct Snapshot {
    pub data: Vec<u8>,
}

impl Clone for Snapshot {
    fn clone(&self) -> (r: Self)
        ensures
            r.data@ == self.data@,
    {
        Snapshot { data: copy_bytes(self.data.as_slice()) }
    }
}

/// How loud bytes are.
#[derive(Clone, Copy, Debug, PartialEq, Eq, Structural)]
pub enum Tone {
    Quiet,
    Normal,
    Loud(u8),
}

impl ReprC for Tone {
    open spec fn zero() -> Self {
        Tone::Quiet
    }

    fn zeroed() -> (r: Self) {
        Tone::Quiet
    }
}

/// What an encoding saves.
#[derive(Clone, Copy, Debug, PartialEq, Eq, Structural)]
pub struct RunReport {
    pub original_size: u64,
    pub compressed_size: u64,
    pub runs: u64,
}

impl ReprC for RunReport {
    open spec fn zero() -> Self {
        RunReport { original_size: 0, compressed_size: 0, runs: 0 }
    }

    fn zeroed() -> (r: Self) {
        RunReport { original_size: 0, compressed_size: 0, runs: 0 }
    }
}

/// Whether `m` is the largest of `data`.
pub open spec fn is_max(data: Seq<u8>, m: u8) -> bool {
    &&& data.contains(m)
    &&& forall|i: int| 0 <= i < data.len() ==> #[trigger] data[i] <= m
}

/// The report on `data`.
pub open spec fn report_of(data: Seq<u8>) -> RunReport {
    RunReport {
        original_size: data.len() as u64,
        compressed_size: compressed(data).len() as u64,
        runs: (compressed(data).len() / 2) as u64,
    }
}

/// The label of run `i` of an encoding: its length, `x` and its byte as a
/// character.
pub open spec fn run_label(c: Seq<u8>, i: int) -> Seq<char> {
    (dec(c[2 * i] as nat) + "x"@).push(c[2 * i + 1] as char)
}

/// Run `i` of an encoding.
pub open spec fn run(c: Seq<u8>, i: int) -> Seq<u8> {
    Seq::new(c[2 * i] as nat, |k: int| c[2 * i + 1])
}

/// The models of a list of byte strings.
pub open spec fn byte_strings(v: Seq<Vec<u8>>) -> Seq<Seq<u8>> {
    Seq::new(v.len(), |i: int| v[i]@)
}

/// The first `n` of a list of byte strings, one behind the other.
pub open spec fn joined(parts: Seq<Seq<u8>>, n: nat) -> Seq<u8>
    decreases n,
{
    if n == 0 {
        Seq::empty()
    } else {
        joined(parts, (n - 1) as nat) + parts[n - 1]
    }
}

/// The runs of `data`, one behind the other, are `data`.
pub proof fn runs_make_data(data: Seq<u8>)
    ensures
        ({
            let c = compressed(data);
            let n = c.len() / 2;
            joined(Seq::new(n, |i: int| run(c, i)), n) == data
        }),
{
    let c = compressed(data);
    let n = c.len() / 2;
    lemma_joined_runs(c, n, n);
    lemma_expand_compressed(data);
}

proof fn lemma_joined_runs(c: Seq<u8>, all: nat, n: nat)
    requires
        n <= all,
    ensures
        joined(Seq::new(all, |i: int| run(c, i)), n) == expanded(c, n),
    decreases n,
{
    if n > 0 {
        lemma_joined_runs(c, all, (n - 1) as nat);
        assert(run(c, n - 1) =~= Seq::new(c[2 * (n - 1)] as nat, |i: int| c[2 * (n - 1) + 1]));
    }
}

/// Makes the state. The configuration is not looked at.
pub fn init() -> (r: Result<RleState, String>)
    ensures
        r is Ok,
{
    Ok(RleState)
}

fn append_bytes(out: &mut Vec<u8>, bytes: &Vec<u8>)
    ensures
        final(out)@ == old(out)@ + bytes@,
{
    let ghost before = out@;
    let mut i: usize = 0;
    assert(out@ =~= before + bytes@.take(0));
    while i < bytes.len()
        invariant
            i <= bytes.len(),
            out@ == before + bytes@.take(i as int),
        decreases bytes.len() - i,
    {
        out.push(bytes[i]);
        i = i + 1;
        assert(out@ =~= before + bytes@.take(i as int));
    }
    assert(bytes@.take(bytes@.len() as int) =~= bytes@);
}

fn largest(data: &[u8]) -> (m: u8)
    requires
        data@.len() > 0,
    ensures
        is_max(data@, m),
{
    let mut m: u8 = data[0];
    let mut i: usize = 1;
    assert(data@[0] == m);
    while i < data.len()
        invariant
            1 <= i <= data.len(),
            data@.contains(m),
            forall|k: int| 0 <= k < i ==> #[trigger] data@[k] <= m,
        decreases data.len() - i,
    {
        if data[i] > m {
            m = data[i];
            assert(data@[i as int] == m);
        }
        i = i + 1;
    }
    m
}

impl RleState {
    /// Encodes `data`.
    pub fn compress(&self, data: DSlice<u8>) -> (r: Result<Vec<u8>, String>)
        requires
            data.wf(),
        ensures
            r is Ok,
            r->Ok_0@ == compressed(data.items()),
    {
        Ok(rle_compress(data.as_slice()))
    }

    /// Decodes `data`.
    pub fn decompress(&self, data: DSlice<u8>) -> (r: Result<Vec<u8>, String>)
        requires
            data.wf(),
        ensures
            match decompressed(data.items()) {
                Some(out) => r is Ok && r->Ok_0@ == out,
                None => r is Err && r->Err_0@ == "corrupted RLE stream: odd length"@,
            },
    {
        rle_decompress(data.as_slice())
    }

    /// Appends the encoding of `data` to `out`.
    pub fn compress_into(&self, data: DSlice<u8>, out: &mut Vec<u8>) -> (r: Result<(), String>)
        requires
            data.wf(),
        ensures
            r is Ok,
            final(out)@ == old(out)@ + compressed(data.items()),
    {
        let c = rle_compress(data.as_slice());
        append_bytes(out, &c);
        Ok(())
    }

    /// Appends the encoding of `data` to `out`, and says whether `out` holds
    /// anything then.
    pub fn compress_into_checked(&self, data: DSlice<u8>, out: &mut Vec<u8>) -> (r: Result<
        bool,
        String,
    >)
        requires
            data.wf(),
        ensures
            final(out)@ == old(out)@ + compressed(data.items()),
            r == Ok::<bool, String>(final(out)@.len() > 0),
    {
        let c = rle_compress(data.as_slice());
        append_bytes(out, &c);
        Ok(out.len() > 0)
    }

    /// The sizes of `data` and of its encoding.
    pub fn stats(&self, data: DSlice<u8>) -> (r: Result<(u64, u64), String>)
        requires
            data.wf(),
        ensures
            r is Ok,
            r->Ok_0.0 == data.items().len(),
            r->Ok_0.1 == compressed(data.items()).len(),
    {
        let slice = data.as_slice();
        let c = rle_compress(slice);
        Ok((slice.len() as u64, c.len() as u64))
    }

    /// The report on `data`.
    pub fn analyze(&self, data: DSlice<u8>) -> (r: Result<RunReport, String>)
        requires
            data.wf(),
        ensures
            r == Ok::<RunReport, String>(report_of(data.items())),
    {
        let slice = data.as_slice();
        let c = rle_compress(slice);
        Ok(
            RunReport {
                original_size: slice.len() as u64,
                compressed_size: c.len() as u64,
                runs: c.len() as u64 / 2,
            },
        )
    }

    /// The report on `data`, if there is any.
    pub fn try_analyze(&self, data: DSlice<u8>) -> (r: Result<DOption<RunReport>, String>)
        requires
            data.wf(),
        ensures
            r is Ok,
            r->Ok_0.option() == if data.items().len() == 0 {
                None
            } else {
                Some(report_of(data.items()))
            },
    {
        if data.as_slice().len() == 0 {
            return Ok(DOption::none());
        }
        match self.analyze(data) {
            Ok(report) => Ok(DOption::some(report)),
            Err(e) => Err(e),
        }
    }

    /// A report as text, with the given percentage.
    pub fn report_summary(&self, report: RunReport, percent: &str) -> (r: Result<String, String>)
        ensures
            r is Ok,
            r->Ok_0@ == "original="@
                + dec(report.original_size as nat)
                + " compressed="@
                + dec(report.compressed_size as nat)
                + " ratio="@
                + percent@
                + "% runs="@
                + dec(report.runs as nat),
    {
        Ok(String::from_str("original=")
            .concat(decimal(report.original_size as u64).as_str())
            .concat(" compressed=")
            .concat(decimal(report.compressed_size as u64).as_str())
            .concat(" ratio=")
            .concat(percent)
            .concat("% runs=")
            .concat(decimal(report.runs as u64).as_str()))
    }

    /// The labels of the runs of `data`.
    pub fn run_labels(&self, data: DSlice<u8>) -> (r: Result<Vec<String>, String>)
        requires
            data.wf(),
        ensures
            r is Ok,
            ({
                let c = compressed(data.items());
                strings_model(r->Ok_0@) == Seq::new(c.len() / 2, |i: int| run_label(c, i))
            }),
    {
        let c = rle_compress(data.as_slice());
        let mut out: Vec<String> = Vec::new();
        let ghost all = Seq::new((c@.len() / 2) as nat, |i: int| run_label(c@, i));
        let n: usize = c.len() / 2;
        let mut i: usize = 0;
        assert(strings_model(out@) =~= all.take(0));
        while i < n
            invariant
                i <= n,
                n == c@.len() / 2,
                all == Seq::new((c@.len() / 2) as nat, |i: int| run_label(c@, i)),
                strings_model(out@) == all.take(i as int),
            decreases n - i,
        {
            let ghost before = strings_model(out@);
            assert(2 * i + 1 < c.len());
            let mut label = decimal(c[2 * i] as u64).concat("x");
            label.push(c[2 * i + 1] as char);
            out.push(label);
            assert(strings_model(out@) =~= before.push(label@));
            assert(label@ == all[i as int]);
            assert(strings_model(out@) =~= all.take(i + 1));
            i = i + 1;
        }
        assert(strings_model(out@) =~= all);
        Ok(out)
    }

    /// The runs of `data`.
    pub fn split_runs(&self, data: DSlice<u8>) -> (r: Result<Vec<Vec<u8>>, String>)
        requires
            data.wf(),
        ensures
            r is Ok,
            ({
                let c = compressed(data.items());
                byte_strings(r->Ok_0@) == Seq::new(c.len() / 2, |i: int| run(c, i))
            }),
    {
        let c = rle_compress(data.as_slice());
        let mut out: Vec<Vec<u8>> = Vec::new();
        let ghost all = Seq::new((c@.len() / 2) as nat, |i: int| run(c@, i));
        let n: usize = c.len() / 2;
        let mut i: usize = 0;
        assert(byte_strings(out@) =~= all.take(0));
        while i < n
            invariant
                i <= n,
                n == c@.len() / 2,
                all == Seq::new((c@.len() / 2) as nat, |i: int| run(c@, i)),
                byte_strings(out@) == all.take(i as int),
            decreases n - i,
        {
            let ghost before = byte_strings(out@);
            assert(2 * i + 1 < c.len());
            let one: Vec<u8> = repeat(c[2 * i + 1], c[2 * i]);
            out.push(one);
            assert(one@ =~= run(c@, i as int));
            assert(byte_strings(out@) =~= before.push(one@));
            assert(byte_strings(out@) =~= all.take(i + 1));
            i = i + 1;
        }
        assert(byte_strings(out@) =~= all);
        Ok(out)
    }

    /// The first byte of `data`.
    pub fn first_byte(&self, data: DSlice<u8>) -> (r: Result<DOption<u8>, String>)
        requires
            data.wf(),
        ensures
            r is Ok,
            r->Ok_0.option() == if data.items().len() == 0 {
                None
            } else {
                Some(data.items()[0])
            },
    {
        let slice = data.as_slice();
        if slice.len() == 0 {
            Ok(DOption::none())
        } else {
            Ok(DOption::some(slice[0]))
        }
    }

    /// The first byte of `data`.
    pub fn probe(&self, data: DSlice<u8>) -> (r: Result<DOption<u8>, String>)
        requires
            data.wf(),
        ensures
            r is Ok,
            r->Ok_0.option() == if data.items().len() == 0 {
                None
            } else {
                Some(data.items()[0])
            },
    {
        self.first_byte(data)
    }

    /// The largest byte of `data`.
    pub fn opt_classify(&self, data: DSlice<u8>) -> (r: Result<DOption<u8>, String>)
        requires
            data.wf(),
        ensures
            r is Ok,
            match r->Ok_0.option() {
                Some(m) => is_max(data.items(), m),
                None => data.items().len() == 0,
            },
    {
        let slice = data.as_slice();
        if slice.len() == 0 {
            Ok(DOption::none())
        } else {
            Ok(DOption::some(largest(slice)))
        }
    }

    /// How loud `data` is: quiet if it is empty, normal if its largest byte is
    /// below 64.
    pub fn classify(&self, data: DSlice<u8>) -> (r: Result<Tone, String>)
        requires
            data.wf(),
        ensures
            r is Ok,
            match r->Ok_0 {
                Tone::Quiet => data.items().len() == 0,
                Tone::Normal => exists|m: u8| is_max(data.items(), m) && m < 64,
                Tone::Loud(m) => is_max(data.items(), m) && m >= 64,
            },
    {
        let slice = data.as_slice();
        if slice.len() == 0 {
            return Ok(Tone::Quiet);
        }
        let m: u8 = largest(slice);
        if m < 64 {
            Ok(Tone::Normal)
        } else {
            Ok(Tone::Loud(m))
        }
    }

    /// How loud `data` is, if there is any.
    pub fn try_classify(&self, data: DSlice<u8>) -> (r: Result<DOption<Tone>, String>)
        requires
            data.wf(),
        ensures
            r is Ok,
            match r->Ok_0.option() {
                None => data.items().len() == 0,
                Some(Tone::Quiet) => false,
                Some(Tone::Normal) => exists|m: u8| is_max(data.items(), m) && m < 64,
                Some(Tone::Loud(m)) => is_max(data.items(), m) && m >= 64,
            },
    {
        if data.as_slice().len() == 0 {
            return Ok(DOption::none());
        }
        match self.classify(data) {
            Ok(tone) => Ok(DOption::some(tone)),
            Err(e) => Err(e),
        }
    }

    /// A word for a tone.
    pub fn describe_tone(&self, tone: Tone) -> (r: Result<String, String>)
        ensures
            r is Ok,
            r->Ok_0@ == match tone {
                Tone::Quiet => "silence"@,
                Tone::Normal => "audible"@,
                Tone::Loud(v) => "loud("@ + dec(v as nat) + ")"@,
            },
    {
        Ok(
            match tone {
                Tone::Quiet => String::from_str("silence"),
                Tone::Normal => String::from_str("audible"),
                Tone::Loud(v) => String::from_str("loud(").concat(
                    decimal(v as u64).as_str(),
                ).concat(")"),
            },
        )
    }

    /// A snapshot of `data`.
    pub fn make_snapshot(&self, data: DSlice<u8>) -> (r: Result<Snapshot, String>)
        requires
            data.wf(),
        ensures
            r is Ok,
            r->Ok_0.data@ == data.items(),
    {
        Ok(Snapshot { data: copy_bytes(data.as_slice()) })
    }

    /// The size of a snapshot.
    pub fn snapshot_len(&self, snap: Snapshot) -> (r: Result<u64, String>)
        ensures
            r is Ok,
            r->Ok_0 == snap.data@.len(),
    {
        Ok(snap.data.len() as u64)
    }

    /// A copy of `data`.
    pub fn echo_bytes(&self, data: DSlice<u8>) -> (r: Result<Vec<u8>, String>)
        requires
            data.wf(),
        ensures
            r is Ok,
            r->Ok_0@ == data.items(),
    {
        Ok(copy_bytes(data.as_slice()))
    }

    /// The text that `data` encodes.
    pub fn build_string(&self, data: DSlice<u8>) -> (r: Result<String, String>)
        requires
            data.wf(),
        ensures
            r is Ok,
            r->Ok_0@ == decoded_text(data.items()),
    {
        Ok(lossy_text(data.as_slice()))
    }

    /// The number of elements of a vector, which is given up.
    pub fn consume_dvec(&self, data: DVec<u8>, heap: &mut Heap<u8>) -> (r: Result<u64, String>)
        requires
            old(heap).wf(),
            data.lives_in(*old(heap)),
        ensures
            r is Ok,
            r->Ok_0 == data.items(*old(heap)).len(),
            final(heap).wf(),
            released_at(*old(heap), *final(heap), data.ptr),
    {
        let n: u64 = data.len() as u64;
        data.drop_in(heap);
        Ok(n)
    }

    /// The number of bytes of a text, which is given up.
    pub fn consume_dstring(&self, s: DString, heap: &mut Heap<u8>) -> (r: Result<u64, String>)
        requires
            old(heap).wf(),
            s.lives_in(*old(heap)),
        ensures
            r is Ok,
            r->Ok_0 == s.bytes(*old(heap)).len(),
            final(heap).wf(),
            released_at(*old(heap), *final(heap), s.ptr),
    {
        let n: u64 = s.len() as u64;
        s.drop_in(heap);
        Ok(n)
    }

    /// The number of bytes in view.
    pub fn view_len(&self, s: DStr) -> (r: Result<u64, String>)
        ensures
            r is Ok,
            r->Ok_0 == s.len,
    {
        Ok(s.len() as u64)
    }

    /// The number of bytes in view.
    pub fn view_slice(&self, data: DSlice<u8>) -> (r: Result<u64, String>)
        requires
            data.wf(),
        ensures
            r is Ok,
            r->Ok_0 == data.items().len(),
    {
        Ok(data.as_slice().len() as u64)
    }
}

fn repeat(byte: u8, n: u8) -> (r: Vec<u8>)
    ensures
        r@ == Seq::new(n as nat, |i: int| byte),
{
    let mut out: Vec<u8> = Vec::new();
    let mut i: u8 = 0;
    assert(out@ =~= Seq::new(0, |i: int| byte));
    while i < n
        invariant
            i <= n,
            out@ == Seq::new(i as nat, |i: int| byte),
        decreases n - i,
    {
        out.push(byte);
        i = i + 1;
        assert(out@ =~= Seq::new(i as nat, |i: int| byte));
    }
    out
}

// ---------------------------------------------------------------------------
// Texts for display
// ---------------------------------------------------------------------------

/// The first `n` bytes as pairs of hexadecimal digits, separated by blanks.
pub open spec fn hex_list(bytes: Seq<u8>, n: nat) -> Seq<char>
    decreases n,
{
    if n == 0 {
        Seq::empty()
    } else {
        let b = bytes[n - 1];
        let one = seq![digit((b / 16) as int), digit((b % 16) as int)];
        if n == 1 {
            one
        } else {
            hex_list(bytes, (n - 1) as nat) + " "@ + one
        }
    }
}

/// Bytes as pairs of hexadecimal digits, separated by blanks.
pub fn hex(bytes: &[u8]) -> (r: String)
    ensures
        r@ == hex_list(bytes@, bytes@.len()),
{
    let mut out = String::new();
    assert(out@ =~= Seq::empty());
    let mut i: usize = 0;
    while i < bytes.len()
        invariant
            i <= bytes.len(),
            out@ == hex_list(bytes@, i as nat),
        decreases bytes.len() - i,
    {
        if i > 0 {
            out = out.concat(" ");
        }
        let ghost before = out@;
        out.push(digit_char((bytes[i] / 16) as u64));
        out.push(digit_char((bytes[i] % 16) as u64));
        assert(out@ =~= before + seq![
            digit((bytes@[i as int] / 16) as int),
            digit((bytes@[i as int] % 16) as int),
        ]);
        assert(i == 0 ==> before =~= Seq::empty());
        assert(out@ =~= hex_list(bytes@, (i + 1) as nat));
        i = i + 1;
    }
    out
}

/// An optional byte as text.
pub fn show_option(o: DOption<u8>) -> (r: String)
    ensures
        r@ == match o.option() {
            None => "None"@,
            Some(v) => "Some("@ + dec(v as nat) + ")"@,
        },
{
    if o.tag == 0 {
        String::from_str("None")
    } else {
        String::from_str("Some(").concat(decimal(o.value as u64).as_str()).concat(")")
    }
}

} // verus!
