//! Slots: the 64-bit words in which arguments and results cross the boundary.
use vstd::prelude::*;

verus! {

/// The number of input slots that are kept inline before they spill to the
/// heap.
pub const MAX_IN_SLOTS: usize = 16;

/// The number of output slots of a dispatch.
pub const MAX_OUT_SLOTS: usize = 8;

/// Collects slots in order: up to [`MAX_IN_SLOTS`] of them inline, more on the
/// heap.
pub struct SlotWriter {
    inline: [u64; MAX_IN_SLOTS],
    inline_len: usize,
    heap: Option<Vec<u64>>,
}

impl View for SlotWriter {
    type V = Seq<u64>;

    closed spec fn view(&self) -> Seq<u64> {
        match self.heap {
            Some(h) => h@,
            None => self.inline@.take(self.inline_len as int),
        }
    }
}

impl SlotWriter {
    /// At most [`MAX_IN_SLOTS`] slots are inline.
    pub closed spec fn wf(&self) -> bool {
        self.inline_len <= MAX_IN_SLOTS
    }

    /// A writer that holds nothing.
    pub fn new() -> (r: SlotWriter)
        ensures
            r.wf(),
            r@ == Seq::<u64>::empty(),
    {
        let r = SlotWriter { inline: [0;MAX_IN_SLOTS], inline_len: 0, heap: None };
        assert(r@ =~= Seq::<u64>::empty());
        r
    }

    /// Appends one slot.
    pub fn write_u64(&mut self, val: u64)
        requires
            old(self).wf(),
        ensures
            final(self).wf(),
            final(self)@ == old(self)@.push(val),
    {
        if let Some(h) = &mut self.heap {
            h.push(val);
        } else if self.inline_len < MAX_IN_SLOTS {
            let n: usize = self.inline_len;
            self.inline[n] = val;
            self.inline_len = n + 1;
            assert(self@ =~= old(self)@.push(val));
        } else {
            let mut h: Vec<u64> = Vec::new();
            let mut i: usize = 0;
            while i < MAX_IN_SLOTS
                invariant
                    i <= MAX_IN_SLOTS,
                    *self == *old(self),
                    self.heap is None,
                    h@ == self.inline@.take(i as int),
                decreases MAX_IN_SLOTS - i,
            {
                h.push(self.inline[i]);
                i = i + 1;
                assert(h@ =~= self.inline@.take(i as int));
            }
            h.push(val);
            self.heap = Some(h);
        }
    }

    /// The slots written so far.
    pub fn as_slice(&self) -> (r: &[u64])
        requires
            self.wf(),
        ensures
            r@ == self@,
    {
        match &self.heap {
            Some(h) => h.as_slice(),
            None => {
                let r = vstd::slice::slice_subrange(
                    vstd::array::array_as_slice(&self.inline),
                    0,
                    self.inline_len,
                );
                assert(r@ =~= self.inline@.take(self.inline_len as int));
                r
            },
        }
    }

    /// The number of slots written so far.
    pub fn len(&self) -> (r: usize)
        requires
            self.wf(),
        ensures
            r == self@.len(),
    {
        match &self.heap {
            Some(h) => h.len(),
            None => self.inline_len,
        }
    }
}

impl Default for SlotWriter {
    fn default() -> (r: Self)
        ensures
            r.wf(),
            r@ == Seq::<u64>::empty(),
    {
        SlotWriter::new()
    }
}

/// Reads slots in order.
pub struct SlotReader<'a> {
    slots: &'a [u64],
    pos: usize,
}

impl<'a> View for SlotReader<'a> {
    type V = Seq<u64>;

    /// The slots that have not been read.
    closed spec fn view(&self) -> Seq<u64> {
        self.slots@.skip(self.pos as int)
    }
}

impl<'a> SlotReader<'a> {
    #[verifier::type_invariant]
    spec fn inv(&self) -> bool {
        self.pos <= self.slots@.len()
    }

    /// A reader at the first of `slots`.
    pub fn new(slots: &'a [u64]) -> (r: Self)
        ensures
            r@ == slots@,
    {
        let r = SlotReader { slots, pos: 0 };
        assert(r@ =~= slots@);
        r
    }

    /// The number of slots that have not been read.
    pub fn remaining(&self) -> (n: usize)
        ensures
            n == self@.len(),
    {
        proof {
            use_type_invariant(self);
        }
        self.slots.len() - self.pos
    }

    /// Reads one slot.
    pub fn read_u64(&mut self) -> (r: u64)
        requires
            old(self)@.len() > 0,
        ensures
            r == old(self)@[0],
            final(self)@ == old(self)@.drop_first(),
    {
        proof {
            use_type_invariant(&*self);
        }
        let n: usize = self.pos;
        let val: u64 = self.slots[n];
        self.pos = n + 1;
        assert(self@ =~= old(self)@.drop_first());
        val
    }
}

/// What a writer holds after `vals` have been written to one that held `s`.
pub open spec fn written(s: Seq<u64>, vals: Seq<u64>) -> Seq<u64>
    decreases vals.len(),
{
    if vals.len() == 0 {
        s
    } else {
        written(s, vals.drop_last()).push(vals.last())
    }
}

/// What a reader of `s` has left after `n` reads.
pub open spec fn after_reads(s: Seq<u64>, n: nat) -> Seq<u64>
    decreases n,
{
    if n == 0 {
        s
    } else {
        after_reads(s, (n - 1) as nat).drop_first()
    }
}

proof fn lemma_written(s: Seq<u64>, vals: Seq<u64>)
    ensures
        written(s, vals) == s + vals,
    decreases vals.len(),
{
    if vals.len() > 0 {
        lemma_written(s, vals.drop_last());
        assert(s + vals =~= (s + vals.drop_last()).push(vals.last()));
    } else {
        assert(s + vals =~= s);
    }
}

proof fn lemma_after_reads(s: Seq<u64>, n: nat)
    requires
        n <= s.len(),
    ensures
        after_reads(s, n) == s.skip(n as int),
    decreases n,
{
    if n > 0 {
        lemma_after_reads(s, (n - 1) as nat);
        assert(s.skip(n as int) =~= s.skip(n - 1).drop_first());
    } else {
        assert(s.skip(0) =~= s);
    }
}

/// What is written is read back, in order, whether or not it has spilled to the
/// heap; and then nothing is left.
pub proof fn slots_round_trip(vals: Seq<u64>, i: nat)
    requires
        i <= vals.len(),
    ensures
        i < vals.len() ==> after_reads(written(Seq::empty(), vals), i)[0] == vals[i as int],
        i == vals.len() ==> after_reads(written(Seq::empty(), vals), i).len() == 0,
{
    lemma_written(Seq::empty(), vals);
    assert(Seq::<u64>::empty() + vals =~= vals);
    lemma_after_reads(vals, i);
}

} // verus!
