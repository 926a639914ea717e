//! A fixed-length array of independently versioned slots sharing one backing
//! region: a header recording element size and length, followed by the slots.
//! Reads and writes go through each slot's snapshot protocol; there is no
//! consistency guarantee across different slots.

use vstd::prelude::*;

use crate::seqlock::Seqlock;

verus! {

/// Metadata at the head of a vector's backing region: the size in bytes of
/// one slot and the number of usable slots.
#[derive(Debug)]
pub struct VectorHeader {
    elsize: usize,
    bufsize: usize,
}

/// The versioned vector. The usable length is fixed at construction and never
/// required to be a power of two.
pub struct SeqlockVector<T> {
    header: VectorHeader,
    buffer: Vec<Seqlock<T>>,
}

/// A restartable forward iterator handing out snapshot copies of the payloads
/// in index order.
pub struct VectorIterator<'a, T> {
    vector: &'a SeqlockVector<T>,
    next_id: usize,
}

impl<T: Copy> SeqlockVector<T> {
    /// The number of usable slots.
    pub closed spec fn spec_len(&self) -> int {
        self.header.bufsize as int
    }

    /// The payload currently stored at index `i`.
    pub closed spec fn value(&self, i: int) -> T {
        self.buffer@[i].value()
    }

    /// The usable length never exceeds the backing region and every slot is
    /// quiescent.
    pub closed spec fn well_formed(&self) -> bool {
        &&& self.header.bufsize <= self.buffer.len()
        &&& forall|i: int|
            0 <= i < self.buffer@.len() ==> (#[trigger] self.buffer@[i]).well_formed()
    }

    /// The size in bytes of a backing region for `len` slots: the header
    /// followed immediately by the slots.
    pub fn size_of(len: usize) -> (r: usize)
        requires
            size_of::<VectorHeader>() + len * size_of::<Seqlock<T>>() <= usize::MAX,
        ensures
            r == size_of::<VectorHeader>() + len * size_of::<Seqlock<T>>(),
    {
        core::mem::size_of::<VectorHeader>() + len * core::mem::size_of::<Seqlock<T>>()
    }

    /// Adopts a zero-initialized backing region as a vector of `len` slots,
    /// recording element size and length in the header. The region must be
    /// exactly `len` slots of quiescent, never-written storage.
    pub fn from_uninitialized_ptr(region: Vec<Seqlock<T>>, len: usize) -> (r: Self)
        requires
            region.len() == len,
            forall|i: int| 0 <= i < region.len() ==> (#[trigger] region[i]).ver() == 0,
        ensures
            r.well_formed(),
            r.spec_len() == len,
            forall|i: int| 0 <= i < len ==> r.value(i) == region[i].value(),
    {
        SeqlockVector {
            header: VectorHeader {
                elsize: core::mem::size_of::<Seqlock<T>>(),
                bufsize: len,
            },
            buffer: region,
        }
    }

    /// Reattaches to an already-initialized region, trusting its stored
    /// length (the region's slot count) and failing if the caller requests a
    /// length larger than what is stored; a refused region is dropped with
    /// the error. On success the contents are adopted unchanged: nothing is
    /// reset or copied.
    pub fn from_initialized_ptr(region: Vec<Seqlock<T>>, len: usize) -> (r: Result<
        Self,
        &'static str,
    >)
        requires
            forall|i: int| 0 <= i < region.len() ==> (#[trigger] region[i]).well_formed(),
        ensures
            r is Ok <==> len <= region.len(),
            r matches Ok(v) ==> {
                &&& v.well_formed()
                &&& v.spec_len() == len
                &&& forall|i: int| 0 <= i < len ==> v.value(i) == region[i].value()
            },
    {
        if region.len() < len {
            Err("Existing region too small")
        } else {
            Ok(
                SeqlockVector {
                    header: VectorHeader {
                        elsize: core::mem::size_of::<Seqlock<T>>(),
                        bufsize: len,
                    },
                    buffer: region,
                },
            )
        }
    }

    /// The number of usable slots.
    pub fn len(&self) -> (r: usize)
        ensures
            r == self.spec_len(),
    {
        self.header.bufsize
    }

    /// Writes `item` into slot `pos` through the slot's write protocol,
    /// leaving every other slot untouched.
    pub fn write_unchecked(&mut self, pos: usize, item: &T)
        requires
            old(self).well_formed(),
            pos < old(self).spec_len(),
        ensures
            final(self).well_formed(),
            final(self).spec_len() == old(self).spec_len(),
            final(self).value(pos as int) == *item,
            forall|i: int|
                0 <= i < old(self).spec_len() && i != pos ==> final(self).value(i) == old(
                    self,
                ).value(i),
    {
        let lock = &mut self.buffer[pos];
        lock.write(item);
    }

    /// Bounds-checked write; out-of-range indices are a caller error and are
    /// excluded outright.
    pub fn write(&mut self, pos: usize, item: &T)
        requires
            old(self).well_formed(),
            pos < old(self).spec_len(),
        ensures
            final(self).well_formed(),
            final(self).spec_len() == old(self).spec_len(),
            final(self).value(pos as int) == *item,
            forall|i: int|
                0 <= i < old(self).spec_len() && i != pos ==> final(self).value(i) == old(
                    self,
                ).value(i),
    {
        self.write_unchecked(pos, item);
    }

    /// Snapshot-reads slot `pos` into `result`.
    pub fn read_unchecked(&self, pos: usize, result: &mut T)
        requires
            self.well_formed(),
            pos < self.spec_len(),
        ensures
            *final(result) == self.value(pos as int),
    {
        let lock = &self.buffer[pos];
        lock.read(result);
    }

    /// Bounds-checked snapshot read.
    pub fn read(&self, pos: usize, result: &mut T)
        requires
            self.well_formed(),
            pos < self.spec_len(),
        ensures
            *final(result) == self.value(pos as int),
    {
        self.read_unchecked(pos, result)
    }
}

impl<T: Copy + Default> SeqlockVector<T> {
    /// Builds a vector of `len` slots over a fresh zeroed region: every slot
    /// starts quiescent at version zero and holds the payload type's default
    /// value, the same value at every index.
    pub fn new(len: usize) -> (r: Self)
        ensures
            r.well_formed(),
            r.spec_len() == len,
            exists|d: T|
                #[trigger] call_ensures(T::default, (), d) && forall|i: int|
                    0 <= i < len ==> r.value(i) == d,
            forall|i: int, j: int| 0 <= i < len && 0 <= j < len ==> r.value(i) == r.value(j),
    {
        let d = T::default();
        let mut buffer: Vec<Seqlock<T>> = Vec::new();
        let mut i: usize = 0;
        while i < len
            invariant
                i <= len,
                buffer.len() == i,
                forall|j: int|
                    0 <= j < i ==> (#[trigger] buffer[j]).ver() == 0 && buffer[j].value() == d,
            decreases len - i,
        {
            buffer.push(Seqlock::new(d));
            i += 1;
        }
        Self::from_uninitialized_ptr(buffer, len)
    }

    /// Snapshot-reads slot `pos` and returns the copy.
    pub fn read_copy_unchecked(&self, pos: usize) -> (r: T)
        requires
            self.well_formed(),
            pos < self.spec_len(),
        ensures
            r == self.value(pos as int),
    {
        let mut out = T::default();
        let lock = &self.buffer[pos];
        lock.read(&mut out);
        out
    }

    /// Bounds-checked snapshot read returning the copy.
    pub fn read_copy(&self, pos: usize) -> (r: T)
        requires
            self.well_formed(),
            pos < self.spec_len(),
        ensures
            r == self.value(pos as int),
    {
        self.read_copy_unchecked(pos)
    }

    /// A fresh iterator over the payloads, starting at index zero.
    pub fn iter(&self) -> (it: VectorIterator<'_, T>)
        ensures
            it.target() == self,
            it.cursor() == 0,
    {
        VectorIterator { vector: self, next_id: 0 }
    }
}

impl<'a, T: Copy + Default> VectorIterator<'a, T> {
    /// The vector being walked.
    pub closed spec fn target(&self) -> &'a SeqlockVector<T> {
        self.vector
    }

    /// The index the next call will read.
    pub closed spec fn cursor(&self) -> int {
        self.next_id as int
    }

    /// Snapshot-reads the next payload, or reports the end of the vector.
    /// Each element is read through the slot protocol independently; there is
    /// no cross-element consistency guarantee.
    pub fn next(&mut self) -> (r: Option<T>)
        requires
            old(self).target().well_formed(),
        ensures
            final(self).target() == old(self).target(),
            old(self).cursor() < old(self).target().spec_len() ==> {
                &&& r == Some(old(self).target().value(old(self).cursor()))
                &&& final(self).cursor() == old(self).cursor() + 1
            },
            old(self).cursor() >= old(self).target().spec_len() ==> {
                &&& r is None
                &&& final(self).cursor() == old(self).cursor()
            },
    {
        if self.next_id >= self.vector.len() {
            None
        } else {
            let out = self.vector.read_copy(self.next_id);
            self.next_id = self.next_id.wrapping_add(1);
            Some(out)
        }
    }
}

} // verus!
