//! The versioned single-slot container: a writer stamps the slot with an odd
//! version while a write is in flight and an even one once it settles; a
//! reader accepts a copy only after seeing the same even version on both
//! sides of it.

use vstd::prelude::*;

verus! {

/// Outcome of a generation-checked read that could not deliver a value.
#[derive(Clone, Copy, Debug, PartialEq, Eq, Structural)]
pub enum ReadError {
    /// The requested generation has not been produced yet.
    Empty,
    /// The writer has already advanced past the requested generation and
    /// overwritten the data.
    SpedPast,
}

/// The version counter after one completed write: two more, wrapping at the
/// machine word so that the counter stays even forever.
pub open spec fn next_write_version(v: usize) -> usize {
    vstd::wrapping::usize_specs::wrapping_add(v, 2)
}

/// The machine word's maximum value is odd, so a wrapped step of two
/// preserves the parity of a counter.
pub proof fn lemma_usize_max_odd()
    ensures
        usize::MAX % 2 == 1,
{
    broadcast use vstd::layout::layout_of_primitives;

    vstd::layout::unsigned_int_max_values();
    vstd::layout::usize_size_pow2();
    reveal(vstd::arithmetic::power2::is_pow2);
    assert(size_of::<usize>() >= 1);
    vstd::arithmetic::power2::lemma_pow2_unfold(usize::BITS as nat);
    vstd::arithmetic::power2::lemma_pow2_pos((usize::BITS - 1) as nat);
}

/// A write leaves an even counter even.
pub proof fn lemma_next_write_version_even(v: usize)
    requires
        v % 2 == 0,
    ensures
        next_write_version(v) % 2 == 0,
{
    lemma_usize_max_odd();
}

/// The versioned single-slot container. The payload type must be plain,
/// fixed-size data: the slot copies it wholesale on every access.
pub struct Seqlock<T> {
    version: usize,
    data: T,
}

impl<T: Copy> Seqlock<T> {
    /// The value of the version counter.
    pub closed spec fn ver(&self) -> usize {
        self.version
    }

    /// The payload the last completed write stored.
    pub closed spec fn value(&self) -> T {
        self.data
    }

    /// Quiescent state: the counter is even, so no write is in progress.
    pub open spec fn well_formed(&self) -> bool {
        self.ver() % 2 == 0
    }

    pub fn new(data: T) -> (r: Self)
        ensures
            r.well_formed(),
            r.ver() == 0,
            r.value() == data,
    {
        Seqlock { version: 0, data }
    }

    /// Optimistic snapshot read: copy the payload, then keep the copy only if
    /// the version was even and unchanged around it. A completed read returns
    /// exactly the last written payload, never a blend of two writes.
    pub fn read(&self, result: &mut T)
        requires
            self.well_formed(),
        ensures
            *final(result) == self.value(),
    {
        loop
            invariant
                self.well_formed(),
            decreases 0int,
        {
            let v1 = self.version;
            *result = self.data;
            let v2 = self.version;
            if v1 == v2 && v1 & 1 == 0 {
                return;
            }
            // A shared borrow admits no concurrent writer, so the validity
            // check cannot fail here: the retry edge is unreachable.
            proof {
                assert(v1 & 1 == v1 % 2) by (bit_vector);
                assert(false);
            }
        }
    }

    /// Snapshot read that first waits for the counter to turn even before
    /// copying, trading latency for fewer wasted copies under contention.
    pub fn pessimistic_read(&self, result: &mut T)
        requires
            self.well_formed(),
        ensures
            *final(result) == self.value(),
    {
        loop
            invariant
                self.well_formed(),
            decreases 0int,
        {
            let v1 = self.version;
            if v1 & 1 == 1 {
                // A shared borrow admits no concurrent writer, so the counter
                // cannot be caught odd: the wait edge is unreachable.
                proof {
                    assert(v1 & 1 == v1 % 2) by (bit_vector);
                    assert(false);
                }
                continue;
            }
            *result = self.data;
            let v2 = self.version;
            if v1 == v2 {
                return;
            }
            proof {
                assert(false);
            }
        }
    }

    /// Snapshot read of one expected generation: waits until no write is in
    /// flight, then delivers the payload only if the settled version equals
    /// `expected`. A smaller version means the generation has not been
    /// produced yet; a larger one means the writer has already overwritten it.
    /// The scratch buffer is left untouched unless the call succeeds.
    pub fn read_with_version(&self, result: &mut T, expected: usize) -> (r: Result<(), ReadError>)
        requires
            self.well_formed(),
        ensures
            r is Ok <==> self.ver() == expected,
            r == Err::<(), ReadError>(ReadError::Empty) <==> self.ver() < expected,
            r == Err::<(), ReadError>(ReadError::SpedPast) <==> self.ver() > expected,
            r is Ok ==> *final(result) == self.value(),
            r is Err ==> *final(result) == *old(result),
    {
        loop
            invariant
                self.well_formed(),
                *result == *old(result),
            decreases 0int,
        {
            let v1 = self.version;
            if v1 & 1 == 1 {
                // A shared borrow admits no concurrent writer, so the counter
                // cannot be caught odd: the wait edge is unreachable.
                proof {
                    assert(v1 & 1 == v1 % 2) by (bit_vector);
                    assert(false);
                }
                continue;
            }
            if v1 == expected {
                *result = self.data;
                let v2 = self.version;
                if v1 == v2 {
                    return Ok(());
                }
                proof {
                    assert(false);
                }
            } else if v1 < expected {
                return Err(ReadError::Empty);
            } else {
                return Err(ReadError::SpedPast);
            }
        }
    }

    /// Single-writer write: step the counter to odd, overwrite the payload,
    /// then settle the counter two past where it started. Always completes;
    /// there is no partial-success state.
    pub fn write(&mut self, val: &T)
        requires
            old(self).well_formed(),
        ensures
            final(self).well_formed(),
            final(self).value() == *val,
            final(self).ver() == next_write_version(old(self).ver()),
    {
        let v = self.version;
        self.version = v.wrapping_add(1);
        self.data = *val;
        self.version = v.wrapping_add(2);
        proof {
            lemma_next_write_version_even(old(self).ver());
        }
    }

    /// The write protocol in its plainest form, kept alongside `write`: the
    /// same counter dance with the same contract.
    pub fn write_old(&mut self, val: &T)
        requires
            old(self).well_formed(),
        ensures
            final(self).well_formed(),
            final(self).value() == *val,
            final(self).ver() == next_write_version(old(self).ver()),
    {
        let v = self.version.wrapping_add(1);
        self.version = v;
        self.data = *val;
        self.version = v.wrapping_add(1);
        proof {
            lemma_next_write_version_even(old(self).ver());
            lemma_usize_max_odd();
        }
    }
}

impl<T: Copy + Default> Default for Seqlock<T> {
    /// A quiescent slot holding the payload type's default value.
    fn default() -> (r: Self)
        ensures
            r.well_formed(),
            r.ver() == 0,
            call_ensures(T::default, (), r.value()),
    {
        Seqlock::new(T::default())
    }
}

/// A pared-down variant of the same container, offering only `new`, `read`
/// and `write`.
#[derive(Default)]
pub struct SeqLock<T> {
    version: usize,
    data: T,
}

impl<T: Copy> SeqLock<T> {
    /// The value of the version counter.
    pub closed spec fn ver(&self) -> usize {
        self.version
    }

    /// The payload the last completed write stored.
    pub closed spec fn value(&self) -> T {
        self.data
    }

    /// Quiescent state: the counter is even, so no write is in progress.
    pub open spec fn well_formed(&self) -> bool {
        self.ver() % 2 == 0
    }

    pub fn new(data: T) -> (r: Self)
        ensures
            r.well_formed(),
            r.ver() == 0,
            r.value() == data,
    {
        SeqLock { version: 0, data }
    }

    /// Optimistic snapshot read; see [`Seqlock::read`].
    pub fn read(&self, result: &mut T)
        requires
            self.well_formed(),
        ensures
            *final(result) == self.value(),
    {
        loop
            invariant
                self.well_formed(),
            decreases 0int,
        {
            let v1 = self.version;
            *result = self.data;
            let v2 = self.version;
            if v1 == v2 && v1 & 1 == 0 {
                return;
            }
            // A shared borrow admits no concurrent writer, so the validity
            // check cannot fail here: the retry edge is unreachable.
            proof {
                assert(v1 & 1 == v1 % 2) by (bit_vector);
                assert(false);
            }
        }
    }

    /// Single-writer write; see [`Seqlock::write`].
    pub fn write(&mut self, val: &T)
        requires
            old(self).well_formed(),
        ensures
            final(self).well_formed(),
            final(self).value() == *val,
            final(self).ver() == next_write_version(old(self).ver()),
    {
        let v = self.version;
        self.version = v.wrapping_add(1);
        self.data = *val;
        self.version = v.wrapping_add(2);
        proof {
            lemma_next_write_version_even(old(self).ver());
        }
    }
}

} // verus!
