//! Zero-padding of a message to a whole number of `K`-bit pieces.
use vstd::prelude::*;

use crate::{C, K};

verus! {

/// The number of zero bits that bring a message of `n` bits to a multiple of `K`.
pub open spec fn padding_len(n: nat) -> nat {
    if n % (K as nat) == 0 {
        0
    } else {
        (K as nat - n % (K as nat)) as nat
    }
}

/// `n` zero bits.
pub open spec fn zeros(n: nat) -> Seq<bool> {
    Seq::new(n, |i: int| false)
}

/// A message followed by the fewest zero bits that make its length a multiple of `K`.
pub open spec fn pad_bits(bits: Seq<bool>) -> Seq<bool> {
    bits + zeros(padding_len(bits.len()))
}

/// Pads the given bits (which MUST have length <= K * C) with zero-bits to a
/// multiple of `K` bits, yielding them one at a time.
pub struct Pad<'a> {
    /// The bits we are padding.
    inner: &'a [bool],
    /// How many bits of `inner` have been yielded so far.
    len: usize,
    /// The amount of padding that remains to be emitted, once `inner` has ended.
    padding_left: Option<usize>,
}

impl<'a> Pad<'a> {
    /// The state is one that `new` and `next` can reach.
    pub closed spec fn wf(&self) -> bool {
        &&& self.len <= self.inner@.len() <= K * C
        &&& (self.padding_left matches Some(n) ==> self.len == self.inner@.len() && n
            <= padding_len(self.inner@.len()))
    }

    /// The bits that are still to be yielded.
    pub closed spec fn remaining(&self) -> Seq<bool> {
        match self.padding_left {
            None => self.inner@.skip(self.len as int) + zeros(padding_len(self.inner@.len())),
            Some(n) => zeros(n as nat),
        }
    }

    pub fn new(inner: &'a [bool]) -> (p: Pad<'a>)
        requires
            inner@.len() <= K * C,
        ensures
            p.wf(),
            p.remaining() == pad_bits(inner@),
    {
        let p = Pad { inner, len: 0, padding_left: None };
        assert(inner@.skip(0) =~= inner@);
        p
    }

    /// Yields the next bit; `None` once every bit and every padding bit has been yielded,
    /// and on every call after that.
    pub fn next(&mut self) -> (r: Option<bool>)
        requires
            old(self).wf(),
        ensures
            final(self).wf(),
            old(self).remaining().len() == 0 ==> r is None && final(self).remaining()
                == old(self).remaining(),
            r is None ==> final(self).remaining().len() == 0,
            old(self).remaining().len() > 0 ==> r == Some(old(self).remaining()[0])
                && final(self).remaining() == old(self).remaining().drop_first(),
    {
        loop
            invariant
                self.wf(),
                self.remaining() == old(self).remaining(),
            decreases
                if self.padding_left is None {
                    1nat
                } else {
                    0nat
                },
        {
            match self.padding_left {
                Some(n) => {
                    if n == 0 {
                        // Either all the padding was emitted, or none was required.
                        return None;
                    } else {
                        // Emit the next padding bit.
                        self.padding_left = Some(n - 1);
                        assert(self.remaining() =~= old(self).remaining().drop_first());
                        return Some(false);
                    }
                },
                None => {
                    if self.len < self.inner.len() {
                        // The bits have not ended yet.
                        let ret = self.inner[self.len];
                        let ghost before = self.remaining();
                        self.len = self.len + 1;
                        assert(self.remaining() =~= before.drop_first());
                        return Some(ret);
                    } else {
                        // The bits just ended, so now their length is known.
                        let rem = self.len % K;
                        if rem > 0 {
                            // The bits require padding in the range [1, K).
                            self.padding_left = Some(K - rem);
                        } else {
                            // No padding required.
                            self.padding_left = Some(0);
                        }
                        assert(self.remaining() =~= old(self).remaining());
                    }
                },
            }
        }
    }

    /// Every bit that is still to be yielded, in order.
    pub fn collect(self) -> (v: Vec<bool>)
        requires
            self.wf(),
        ensures
            v@ == self.remaining(),
    {
        let ghost all = self.remaining();
        let mut pad = self;
        let mut v: Vec<bool> = Vec::new();
        loop
            invariant
                pad.wf(),
                all == self.remaining(),
                all == v@ + pad.remaining(),
            decreases pad.remaining().len(),
        {
            match pad.next() {
                Some(b) => {
                    let ghost before = v@;
                    v.push(b);
                    assert(before + (seq![b] + pad.remaining()) =~= v@ + pad.remaining());
                },
                None => {
                    assert(pad.remaining().len() == 0);
                    assert(v@ + pad.remaining() =~= v@);
                    return v;
                },
            }
        }
    }
}

} // verus!
