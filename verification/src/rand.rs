//! Deterministic substitutes for a random-number source.
//!
//! Randomized algorithms under known-answer tests need their "random" input
//! pinned to the test vector. Each source here scripts the output of the
//! one capability real generators offer — fill a caller-supplied buffer —
//! and its contract says exactly which bytes a fill writes.

use crate::errors::Unspecified;
use vstd::pervasive::VecAdditionalExecFns;
use vstd::prelude::*;

verus! {

/// A source of random bytes, as callers of randomized algorithms see one.
pub trait SecureRandom: Sized {
    /// When a fill of a buffer of length `dest_len` is within contract.
    spec fn fill_req(&self, dest_len: nat) -> bool;

    /// The bytes such a fill writes.
    spec fn fill_data(&self, dest_len: nat) -> Seq<u8>;

    /// The source's state after a fill.
    spec fn post_fill(&self) -> Self;

    /// Overwrite all of `dest` with this source's next output.
    fn fill(&mut self, dest: &mut Vec<u8>) -> (r: Result<(), Unspecified>)
        requires
            old(self).fill_req(old(dest)@.len() as nat),
        ensures
            r is Ok,
            final(dest)@ == old(self).fill_data(old(dest)@.len() as nat),
            *final(self) == old(self).post_fill(),
    ;
}

/// A source that fills every buffer entirely with one given byte.
#[derive(Debug)]
pub struct FixedByteRandom {
    pub byte: u8,
}

impl SecureRandom for FixedByteRandom {
    open spec fn fill_req(&self, dest_len: nat) -> bool {
        true
    }

    open spec fn fill_data(&self, dest_len: nat) -> Seq<u8> {
        Seq::new(dest_len, |i: int| self.byte)
    }

    open spec fn post_fill(&self) -> Self {
        FixedByteRandom { byte: self.byte }
    }

    #[verifier::loop_isolation(false)]
    fn fill(&mut self, dest: &mut Vec<u8>) -> (r: Result<(), Unspecified>) {
        let n = dest.len();
        let mut i: usize = 0;
        while i < n
            invariant
                i <= n,
                dest@.len() == n,
                *self == *old(self),
                forall|j: int| 0 <= j < i ==> dest@[j] == self.byte,
            decreases n - i,
        {
            dest.set(i, self.byte);
            i = i + 1;
        }
        proof {
            assert(dest@ =~= old(self).fill_data(old(dest)@.len() as nat));
        }
        Ok(())
    }
}

/// A source that fills every buffer with one fixed byte string; the buffer
/// must have exactly that string's length.
#[derive(Debug)]
pub struct FixedSliceRandom {
    pub bytes: Vec<u8>,
}

impl SecureRandom for FixedSliceRandom {
    open spec fn fill_req(&self, dest_len: nat) -> bool {
        dest_len == self.bytes@.len()
    }

    open spec fn fill_data(&self, dest_len: nat) -> Seq<u8> {
        self.bytes@
    }

    open spec fn post_fill(&self) -> Self {
        FixedSliceRandom { bytes: self.bytes }
    }

    #[verifier::loop_isolation(false)]
    fn fill(&mut self, dest: &mut Vec<u8>) -> (r: Result<(), Unspecified>) {
        let n = dest.len();
        let mut i: usize = 0;
        while i < n
            invariant
                i <= n,
                dest@.len() == n,
                *self == *old(self),
                forall|j: int| 0 <= j < i ==> dest@[j] == self.bytes@[j],
            decreases n - i,
        {
            dest.set(i, self.bytes[i]);
            i = i + 1;
        }
        proof {
            assert(dest@ =~= old(self).fill_data(old(dest)@.len() as nat));
        }
        Ok(())
    }
}

/// A source scripted with an ordered sequence of byte strings: the first
/// fill hands out the first string, the second fill the second, and so on.
/// Each buffer must match its string's length exactly, and the source must
/// be invoked exactly once per string before it is retired — check that
/// with [`FixedSliceSequenceRandom::all_consumed`]. Not for concurrent use:
/// the cursor is a plain field guarded only by exclusive access.
#[derive(Debug)]
pub struct FixedSliceSequenceRandom {
    /// The scripted outputs, in the order they are handed out.
    pub bytes: Vec<Vec<u8>>,
    /// How many fills have happened; start it at zero.
    pub current: usize,
}

impl SecureRandom for FixedSliceSequenceRandom {
    open spec fn fill_req(&self, dest_len: nat) -> bool {
        self.current < self.bytes@.len() && dest_len == self.bytes@[self.current as int]@.len()
    }

    open spec fn fill_data(&self, dest_len: nat) -> Seq<u8> {
        self.bytes@[self.current as int]@
    }

    open spec fn post_fill(&self) -> Self {
        FixedSliceSequenceRandom { bytes: self.bytes, current: (self.current + 1) as usize }
    }

    #[verifier::loop_isolation(false)]
    fn fill(&mut self, dest: &mut Vec<u8>) -> (r: Result<(), Unspecified>) {
        let cur = self.current;
        let n = dest.len();
        let mut i: usize = 0;
        while i < n
            invariant
                i <= n,
                dest@.len() == n,
                *self == *old(self),
                cur == self.current,
                forall|j: int| 0 <= j < i ==> dest@[j] == self.bytes@[cur as int]@[j],
            decreases n - i,
        {
            let b = self.bytes[cur][i];
            dest.set(i, b);
            i = i + 1;
        }
        // Remember that this vector was handed out and move to the next.
        let total = self.bytes.len();
        proof {
            assert(cur < total);
        }
        self.current = cur + 1;
        proof {
            assert(dest@ =~= old(self).fill_data(old(dest)@.len() as nat));
        }
        Ok(())
    }
}

impl FixedSliceSequenceRandom {
    /// The exactly-once check: whether every scripted vector has been
    /// handed out. Run it when the source is retired; `false` means the
    /// test made too few fill calls.
    pub fn all_consumed(&self) -> (r: bool)
        ensures
            r == (self.current as int == self.bytes@.len()),
    {
        self.current == self.bytes.len()
    }
}

/// A sequence source scripted with three vectors hands them out in order:
/// each of three successive fills of matching length is within contract and
/// returns the next vector; after the third the script is exactly
/// exhausted, a fourth fill violates the contract whatever the buffer
/// length, and retiring the source any earlier fails the exactly-once
/// check.
pub proof fn lemma_sequence_fills_in_order(r: FixedSliceSequenceRandom)
    requires
        r.current == 0,
        r.bytes@.len() == 3,
    ensures
        r.fill_req(r.bytes@[0]@.len() as nat),
        r.fill_data(r.bytes@[0]@.len() as nat) == r.bytes@[0]@,
        r.post_fill().fill_req(r.bytes@[1]@.len() as nat),
        r.post_fill().fill_data(r.bytes@[1]@.len() as nat) == r.bytes@[1]@,
        r.post_fill().post_fill().fill_req(r.bytes@[2]@.len() as nat),
        r.post_fill().post_fill().fill_data(r.bytes@[2]@.len() as nat) == r.bytes@[2]@,
        r.post_fill().post_fill().post_fill().current as int == r.bytes@.len(),
        forall|l: nat| !r.post_fill().post_fill().post_fill().fill_req(l),
        r.current as int != r.bytes@.len(),
        r.post_fill().current as int != r.bytes@.len(),
        r.post_fill().post_fill().current as int != r.bytes@.len(),
{
}

} // verus!
