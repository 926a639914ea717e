//! A power-of-two ring of versioned slots plus a monotonic production
//! counter. Producers claim the next logical position and write into
//! `position mod capacity`; each consumer tracks its own cursor and expected
//! generation and can always tell "nothing produced yet" from "the producer
//! lapped me and overwrote this".

use vstd::prelude::*;

use vstd::arithmetic::div_mod::lemma_div_is_ordered;
use vstd::arithmetic::div_mod::lemma_div_nonincreasing;
use vstd::arithmetic::div_mod::lemma_fundamental_div_mod;
use vstd::arithmetic::div_mod::lemma_fundamental_div_mod_converse;
use vstd::arithmetic::div_mod::lemma_mod_bound;
use vstd::arithmetic::power2::pow2;

use crate::seqlock::ReadError;
use crate::seqlock::Seqlock;

verus! {

/// Construction-time failures. Per-call outcomes (`Empty`, `SpedPast`) are
/// reported through [`ReadError`] instead.
#[derive(Debug, Clone, Copy, PartialEq, Eq, Structural)]
pub enum QueueError {
    /// A region was attached as if initialized, but no constructor ever
    /// initialized it.
    UnInitialized,
    /// The stored or requested slot count is not a power of two.
    LengthNotPowerOfTwo,
    /// Reserved: an element size that does not suit the layout. No
    /// constructor currently raises it.
    ElementSizeNotPowerTwo,
}

/// The queue discipline: how a producer claims the next logical position.
#[derive(Debug, Clone, Copy, PartialEq, Eq, Structural)]
pub enum QueueType {
    /// No discipline recorded; producing is refused.
    Unknown,
    /// Multi-producer: positions are claimed by an atomic fetch-and-add.
    MPMC,
    /// Single-producer: positions are claimed by a plain load-then-store,
    /// correct only if the caller guarantees one producer.
    SPMC,
}

/// Productions beyond this bound are refused so that position and generation
/// arithmetic can never overflow a machine word.
pub const COUNT_LIMIT: usize = usize::MAX / 4;

/// A power of two: at least one, with a single set bit.
pub open spec fn is_power_of_two(n: usize) -> bool {
    n >= 1 && n & ((n - 1) as usize) == 0
}

/// The machine word is at least eight bits wide.
proof fn lemma_usize_bits()
    ensures
        usize::BITS >= 8,
{
    broadcast use vstd::layout::layout_of_primitives;

    vstd::layout::usize_size_pow2();
    reveal(vstd::arithmetic::power2::is_pow2);
    assert(size_of::<usize>() >= 1);
}

/// A power of two that fits in the machine word has an exponent below the
/// word's bit width.
proof fn lemma_pow2_within_bits(n: nat)
    requires
        pow2(n) <= usize::MAX,
    ensures
        n < usize::BITS,
{
    vstd::layout::unsigned_int_max_values();
    if n >= usize::BITS {
        if n > usize::BITS {
            vstd::arithmetic::power2::lemma_pow2_strictly_increases(usize::BITS as nat, n);
        }
    }
}

/// Every power of two in mask form has an exponent, and it fits the word.
proof fn lemma_pow2_exponent(cap: usize) -> (n: nat)
    requires
        is_power_of_two(cap),
    ensures
        pow2(n) == cap,
        n < usize::BITS,
    decreases cap,
{
    if cap == 1 {
        vstd::arithmetic::power2::lemma2_to64();
        lemma_usize_bits();
        0
    } else {
        assert(cap >= 2 && cap & ((cap - 1) as usize) == 0 ==> cap % 2 == 0 && (cap / 2) >= 1 && (
        cap / 2) & (((cap / 2) - 1) as usize) == 0) by (bit_vector);
        let n0 = lemma_pow2_exponent(cap / 2);
        vstd::arithmetic::power2::lemma_pow2_unfold(n0 + 1);
        lemma_pow2_within_bits(n0 + 1);
        n0 + 1
    }
}

/// The converse: two to any in-word exponent is a power of two in mask form.
proof fn lemma_exponent_pow2(n: nat)
    requires
        n < usize::BITS,
    ensures
        pow2(n) <= usize::MAX,
        is_power_of_two((pow2(n) as usize)),
{
    vstd::layout::unsigned_int_max_values();
    vstd::arithmetic::power2::lemma_pow2_pos(n);
    vstd::arithmetic::power2::lemma_pow2_strictly_increases(n, usize::BITS as nat);
    let p = pow2(n) as usize;
    vstd::bits::lemma_usize_low_bits_mask_is_mod(p, n);
    assert(vstd::bits::low_bits_mask(n) == ((p - 1) as usize) as nat);
    vstd::arithmetic::div_mod::lemma_mod_self_0(p as int);
}

/// For a power-of-two capacity, masking with `capacity - 1` is reduction
/// modulo the capacity.
pub proof fn lemma_mask_is_mod(x: usize, cap: usize)
    requires
        is_power_of_two(cap),
    ensures
        x & ((cap - 1) as usize) == x % cap,
{
    let n = lemma_pow2_exponent(cap);
    vstd::bits::lemma_usize_low_bits_mask_is_mod(x, n);
    assert(vstd::bits::low_bits_mask(n) == ((cap - 1) as usize) as nat);
}

/// Whether `n` is a power of two, decided at run time.
fn power_of_two_check(n: usize) -> (r: bool)
    ensures
        r == is_power_of_two(n),
{
    n >= 1 && n & (n - 1) == 0
}

/// Between one power of two and a larger one there is room to double.
proof fn lemma_pow2_double_le(p: usize, len: usize)
    requires
        is_power_of_two(p),
        is_power_of_two(len),
        p < len,
    ensures
        2 * p <= len,
{
    let a = lemma_pow2_exponent(p);
    let b = lemma_pow2_exponent(len);
    if a >= b {
        if a > b {
            vstd::arithmetic::power2::lemma_pow2_strictly_increases(b, a);
        }
    }
    vstd::arithmetic::power2::lemma_pow2_unfold(a + 1);
    if a + 1 < b {
        vstd::arithmetic::power2::lemma_pow2_strictly_increases(a + 1, b);
    }
}

/// Doubling a power of two gives a power of two.
proof fn lemma_double_power_of_two(p: usize)
    requires
        is_power_of_two(p),
        p <= usize::MAX / 2,
    ensures
        is_power_of_two((2 * p) as usize),
{
    let n = lemma_pow2_exponent(p);
    vstd::arithmetic::power2::lemma_pow2_unfold(n + 1);
    lemma_pow2_within_bits(n + 1);
    lemma_exponent_pow2(n + 1);
}

/// The number of factors of two in `v`: the largest `n` with `v` a multiple
/// of two to the `n`.
pub fn power_of_two(v: usize) -> (n: usize)
    requires
        v >= 1,
    ensures
        exists|m: nat| m % 2 == 1 && v as nat == #[trigger] (m * pow2(n as nat)),
{
    let mut rest = v;
    let mut n: usize = 0;
    proof {
        vstd::arithmetic::power2::lemma2_to64();
    }
    while rest % 2 == 0
        invariant
            rest >= 1,
            n < usize::MAX,
            v as nat == rest as nat * pow2(n as nat),
            pow2(n as nat) <= v as nat,
        decreases rest,
    {
        let old_rest: usize = rest;
        let ghost old_n = n;
        rest = rest / 2;
        n = n + 1;
        proof {
            vstd::arithmetic::power2::lemma_pow2_unfold(n as nat);
            assert(old_rest as nat * pow2(old_n as nat) == rest as nat * pow2(n as nat)
                && pow2(n as nat) <= rest as nat * pow2(n as nat)) by (nonlinear_arith)
                requires
                    old_rest % 2 == 0,
                    old_rest >= 1,
                    rest == old_rest / 2,
                    pow2(n as nat) == 2 * pow2(old_n as nat),
            ;
            lemma_pow2_gt(n as nat);
        }
    }
    proof {
        assert(rest as nat % 2 == 1 && v as nat == rest as nat * pow2(n as nat));
    }
    n
}

/// Two to the `n` exceeds `n`.
proof fn lemma_pow2_gt(n: nat)
    ensures
        pow2(n) > n,
    decreases n,
{
    if n == 0 {
        vstd::arithmetic::power2::lemma2_to64();
    } else {
        lemma_pow2_gt((n - 1) as nat);
        vstd::arithmetic::power2::lemma_pow2_unfold(n);
    }
}

/// The capacity a requested length is rounded up to: the smallest power of
/// two at least `len`, and one for a `len` of zero.
pub open spec fn rounded_capacity(len: usize) -> int
    decreases len,
{
    if len <= 1 {
        1
    } else {
        2 * rounded_capacity((((len + 1) / 2) as usize))
    }
}

/// The rounded capacity is a power of two, covers the request, and stays
/// within a factor of two of it.
pub proof fn lemma_rounded_capacity_props(len: usize)
    requires
        len <= usize::MAX / 2 + 1,
    ensures
        1 <= rounded_capacity(len) <= usize::MAX,
        is_power_of_two((rounded_capacity(len) as usize)),
        rounded_capacity(len) >= len,
        len >= 1 ==> rounded_capacity(len) < 2 * len,
        len >= 2 ==> rounded_capacity(len) <= 2 * (len - 1),
        len == 0 ==> rounded_capacity(len) == 1,
    decreases len,
{
    if len <= 1 {
        assert(1usize & ((1usize - 1) as usize) == 0) by (bit_vector);
    } else {
        let m = ((len + 1) / 2) as usize;
        lemma_rounded_capacity_props(m);
        lemma_double_power_of_two((rounded_capacity(m)) as usize);
    }
}

/// The smallest power of two at least `len` (one, for a `len` of zero).
fn next_power_of_two_exec(len: usize) -> (r: usize)
    requires
        len <= usize::MAX / 2 + 1,
    ensures
        r == rounded_capacity(len),
        is_power_of_two(r),
        r >= len,
        len >= 1 ==> r < 2 * len,
        len == 0 ==> r == 1,
        is_power_of_two(len) ==> r == len,
{
    let mut p: usize = 1;
    proof {
        assert(1usize & ((1usize - 1) as usize) == 0) by (bit_vector);
    }
    while p < len
        invariant
            len <= usize::MAX / 2 + 1,
            is_power_of_two(p),
            p < len ==> p <= usize::MAX / 2,
            len >= 1 ==> p < 2 * len,
            len == 0 ==> p == 1,
            is_power_of_two(len) ==> p <= len,
        decreases 2 * len - p,
    {
        proof {
            lemma_double_power_of_two(p);
            if is_power_of_two(len) {
                lemma_pow2_double_le(p, len);
            }
        }
        p = p * 2;
    }
    proof {
        lemma_rounded_capacity_props(len);
        let rc = (rounded_capacity(len)) as usize;
        if p < rc {
            lemma_pow2_double_le(p, rc);
        }
        if rc < p {
            lemma_pow2_double_le(rc, p);
        }
    }
    p
}

/// Metadata at the head of a queue's backing region: the discipline tag, the
/// initialized flag, the element size in bytes, the capacity mask, and the
/// monotonic production counter.
#[derive(Debug)]
pub struct QueueHeader {
    pub queue_type: QueueType,
    pub is_initialized: u8,
    pub elsize: u32,
    mask: usize,
    pub count: usize,
}

impl QueueHeader {
    /// The capacity mask: one less than the (power-of-two) slot count.
    pub closed spec fn spec_mask(&self) -> usize {
        self.mask
    }

    /// The element size recorded in the header.
    pub closed spec fn spec_elsize(&self) -> u32 {
        self.elsize
    }

    /// The production counter.
    pub closed spec fn spec_count(&self) -> usize {
        self.count
    }

    /// The discipline tag.
    pub closed spec fn spec_queue_type(&self) -> QueueType {
        self.queue_type
    }

    /// The initialized flag.
    pub closed spec fn spec_initialized(&self) -> u8 {
        self.is_initialized
    }

    /// The slot storage size in bytes.
    pub fn sizeof(&self) -> (r: usize)
        requires
            self.spec_mask() < usize::MAX,
            (self.spec_mask() + 1) * (self.spec_elsize() as int) <= usize::MAX,
        ensures
            r == (self.spec_mask() + 1) * (self.spec_elsize() as int),
    {
        (self.mask + 1) * (self.elsize as usize)
    }

    /// The number of slots.
    pub fn n_elements(&self) -> (r: usize)
        requires
            self.spec_mask() < usize::MAX,
        ensures
            r == self.spec_mask() + 1,
    {
        self.mask + 1
    }
}

/// The ring buffer: a header and a power-of-two number of versioned slots.
/// The ghost production history records every value ever produced, in order;
/// the live slots hold its last lap.
pub struct Queue<T> {
    header: QueueHeader,
    buffer: Vec<Seqlock<T>>,
    hist: Ghost<Seq<T>>,
}

impl<T: Copy> Queue<T> {
    /// The element size a queue header records: the slot's byte size, as the
    /// header's 32-bit field holds it.
    pub open spec fn slot_size_field() -> u32 {
        size_of::<Seqlock<T>>() as u32
    }

    /// The element size this queue's header records.
    pub closed spec fn recorded_elsize(&self) -> u32 {
        self.header.elsize
    }

    /// The number of slots in the ring.
    pub closed spec fn capacity(&self) -> int {
        self.buffer.len() as int
    }

    /// Every value ever produced, oldest first.
    pub closed spec fn produced(&self) -> Seq<T> {
        self.hist@
    }

    /// The discipline recorded at construction.
    pub closed spec fn queue_type_spec(&self) -> QueueType {
        self.header.queue_type
    }

    /// The slot at ring index `i`.
    closed spec fn slot(&self, i: int) -> Seqlock<T> {
        self.buffer@[i]
    }

    /// The logical position of the latest write to ring index `i`, out of
    /// `c` productions. Meaningful only when `i < c`.
    closed spec fn last_write(c: int, cap: int, i: int) -> int {
        i + ((c - 1 - i) / cap) * cap
    }

    /// Ring index `i` reflects the most recent production aimed at it: its
    /// version counts the writes it has received (two per write), and its
    /// payload is the value of its latest write. A never-written slot is
    /// still zeroed.
    spec fn slot_ok(&self, i: int) -> bool {
        let c = self.produced().len() as int;
        let cap = self.capacity();
        &&& (i < c ==> self.slot(i).ver() == 2 * ((c - 1 - i) / cap) + 2 && self.slot(i).value()
            == self.produced()[Self::last_write(c, cap, i)])
        &&& (i >= c ==> self.slot(i).ver() == 0)
    }

    /// Every slot reflects the production history.
    spec fn slots_consistent(&self) -> bool {
        forall|i: int| 0 <= i < self.capacity() ==> #[trigger] self.slot_ok(i)
    }

    /// The queue's invariant: a power-of-two ring with a matching mask, a
    /// counter equal to the length of the production history, and slots that
    /// reflect that history.
    pub closed spec fn well_formed(&self) -> bool {
        &&& self.buffer.len() >= 1
        &&& is_power_of_two(self.buffer.len())
        &&& self.header.mask == self.buffer.len() - 1
        &&& self.header.count == self.produced().len()
        &&& self.produced().len() <= COUNT_LIMIT
        &&& self.header.is_initialized == 1
        &&& self.header.elsize == Self::slot_size_field()
        &&& self.slots_consistent()
    }

    /// The size in bytes of a backing region for a queue of at least `len`
    /// slots: the header followed immediately by the rounded-up number of
    /// slots, exactly.
    pub fn size_of(len: usize) -> (r: usize)
        requires
            len <= usize::MAX / 2 + 1,
            size_of::<QueueHeader>() + (2 * len + 1) * size_of::<Seqlock<T>>() <= usize::MAX,
        ensures
            r == size_of::<QueueHeader>() + rounded_capacity(len) * size_of::<Seqlock<T>>(),
            r >= size_of::<QueueHeader>() + len * size_of::<Seqlock<T>>(),
    {
        let cap = next_power_of_two_exec(len);
        proof {
            vstd::arithmetic::mul::lemma_mul_inequality(
                len as int,
                cap as int,
                size_of::<Seqlock<T>>() as int,
            );
            vstd::arithmetic::mul::lemma_mul_inequality(
                cap as int,
                2 * len as int + 1,
                size_of::<Seqlock<T>>() as int,
            );
        }
        core::mem::size_of::<QueueHeader>() + cap * core::mem::size_of::<Seqlock<T>>()
    }

    /// Adopts a zero-initialized backing region as an empty queue, recording
    /// the discipline, the mask and the element size in the header. Fails
    /// if and only if the region's slot count is not a power of two; a
    /// refused region is dropped with the error.
    pub fn from_uninitialized_ptr(region: Vec<Seqlock<T>>, len: usize, queue_type: QueueType) -> (r:
        Result<Self, QueueError>)
        requires
            region.len() == len,
            forall|i: int| 0 <= i < region.len() ==> (#[trigger] region[i]).ver() == 0,
        ensures
            r is Ok <==> is_power_of_two(len),
            !is_power_of_two(len) ==> r == Err::<Self, QueueError>(QueueError::LengthNotPowerOfTwo),
            r matches Ok(q) ==> {
                &&& q.well_formed()
                &&& q.capacity() == len
                &&& q.produced() == Seq::<T>::empty()
                &&& q.queue_type_spec() == queue_type
                &&& q.recorded_elsize() == Self::slot_size_field()
            },
    {
        if !power_of_two_check(len) {
            return Err(QueueError::LengthNotPowerOfTwo);
        }
        let q = Queue {
            header: QueueHeader {
                queue_type,
                is_initialized: 1,
                elsize: #[verifier::truncate] (core::mem::size_of::<Seqlock<T>>() as u32),
                mask: len - 1,
                count: 0,
            },
            buffer: region,
            hist: Ghost(Seq::empty()),
        };
        Ok(q)
    }

    /// The header at the head of the backing region.
    pub fn header(&self) -> (h: &QueueHeader)
        requires
            self.well_formed(),
        ensures
            h.spec_mask() < usize::MAX,
            h.spec_mask() + 1 == self.capacity(),
            h.spec_count() == self.produced().len(),
            h.spec_queue_type() == self.queue_type_spec(),
            h.spec_initialized() == 1,
            h.spec_elsize() == Self::slot_size_field(),
    {
        &self.header
    }

    /// The live production count: how many values have ever been produced.
    pub fn count(&self) -> (r: usize)
        requires
            self.well_formed(),
        ensures
            r == self.produced().len(),
    {
        self.header.count
    }

    /// The number of slots in the ring.
    fn len(&self) -> (r: usize)
        requires
            self.well_formed(),
        ensures
            r == self.capacity(),
    {
        self.header.mask + 1
    }

    /// The slot at ring index `pos`.
    fn load(&self, pos: usize) -> (l: &Seqlock<T>)
        requires
            pos < self.capacity(),
        ensures
            *l == self.slot(pos as int),
    {
        &self.buffer[pos]
    }

    /// The generation the producer is currently writing at: two per
    /// completed lap, offset by two.
    #[allow(dead_code)]
    fn version(&self) -> (r: usize)
        requires
            self.well_formed(),
        ensures
            r == 2 * ((self.produced().len() as int) / self.capacity()) + 2,
    {
        let c = self.count();
        let g = c / (self.header.mask + 1);
        proof {
            lemma_div_nonincreasing(c as int, self.capacity());
            vstd::arithmetic::div_mod::lemma_div_pos_is_pos(c as int, self.capacity());
            lemma_usize_bits();
            vstd::arithmetic::power2::lemma2_to64();
            vstd::bits::lemma_usize_shl_is_mul(g, 1);
        }
        (g << 1usize) + 2
    }

    /// Claims the next logical position: by fetch-and-add under the
    /// multi-producer discipline, by a plain load-then-store under the
    /// single-producer one. Refused for an unknown discipline.
    fn next_count(&mut self) -> (c: usize)
        requires
            old(self).well_formed(),
            old(self).produced().len() < COUNT_LIMIT,
            !(old(self).queue_type_spec() is Unknown),
        ensures
            c == old(self).produced().len(),
            final(self).header.count == old(self).header.count + 1,
            final(self).header.queue_type == old(self).header.queue_type,
            final(self).header.mask == old(self).header.mask,
            final(self).header.is_initialized == old(self).header.is_initialized,
            final(self).header.elsize == old(self).header.elsize,
            final(self).buffer == old(self).buffer,
            final(self).hist == old(self).hist,
    {
        match self.header.queue_type {
            QueueType::Unknown => unreached(),
            QueueType::MPMC => {
                let c = self.header.count;
                self.header.count = c + 1;
                c
            },
            QueueType::SPMC => {
                let c = self.header.count;
                self.header.count = c.wrapping_add(1);
                c
            },
        }
    }

    /// Writes `item` into the slot of the next logical position and returns
    /// that position: monotonically increasing, never reused numerically
    /// even though the physical slot is.
    fn produce(&mut self, item: &T) -> (pos: usize)
        requires
            old(self).well_formed(),
            old(self).produced().len() < COUNT_LIMIT,
            !(old(self).queue_type_spec() is Unknown),
        ensures
            final(self).well_formed(),
            pos == old(self).produced().len(),
            final(self).produced() == old(self).produced().push(*item),
            final(self).capacity() == old(self).capacity(),
            final(self).queue_type_spec() == old(self).queue_type_spec(),
    {
        let ghost c = self.produced().len() as int;
        let ghost cap = self.capacity();
        let ghost h0 = self.produced();
        let p = self.next_count();
        let index = p & self.header.mask;
        proof {
            lemma_mask_is_mod(p, (cap) as usize);
            lemma_ring_step_written(c, cap);
            assert(old(self).slot_ok(index as int));
            if index < c {
                vstd::arithmetic::div_mod::lemma_div_pos_is_pos(c - 1 - index, cap);
                lemma_div_nonincreasing(c - 1 - index, cap);
            }
            lemma_usize_max_large();
            assert(self.buffer@[index as int].well_formed());
            assert(self.buffer@[index as int].ver() + 2 <= usize::MAX);
        }
        let lock = &mut self.buffer[index];
        lock.write(item);
        self.hist = Ghost(self.hist@.push(*item));
        proof {
            assert(self.produced() =~= h0.push(*item));
            assert forall|i: int| 0 <= i < self.capacity() implies #[trigger] self.slot_ok(i) by {
                if i == index {
                    assert(Self::last_write(c + 1, cap, i) == c);
                } else {
                    assert(old(self).slot_ok(i));
                    lemma_ring_step_other(c, cap, i);
                    if i < c {
                        lemma_last_write_in_range(c, cap, i);
                    }
                }
            }
        }
        p
    }

    /// Snapshot-reads ring index `ri` at expected generation `ri_ver`; see
    /// [`Seqlock::read_with_version`].
    fn consume(&self, el: &mut T, ri: usize, ri_ver: usize) -> (r: Result<(), ReadError>)
        requires
            self.well_formed(),
            ri < self.capacity(),
        ensures
            r is Ok <==> self.slot(ri as int).ver() == ri_ver,
            r == Err::<(), ReadError>(ReadError::Empty) <==> self.slot(ri as int).ver() < ri_ver,
            r == Err::<(), ReadError>(ReadError::SpedPast) <==> self.slot(ri as int).ver()
                > ri_ver,
            r is Ok ==> *final(el) == self.slot(ri as int).value(),
            r is Err ==> *final(el) == *old(el),
    {
        proof {
            assert(self.slot_ok(ri as int));
        }
        self.load(ri).read_with_version(el, ri_ver)
    }
}

/// The machine word holds at least the eight-bit range.
proof fn lemma_usize_max_large()
    ensures
        usize::MAX >= 255,
{
    lemma_usize_bits();
    vstd::layout::unsigned_int_max_values();
    vstd::arithmetic::power2::lemma2_to64();
    if usize::BITS > 8 {
        vstd::arithmetic::power2::lemma_pow2_strictly_increases(8, usize::BITS as nat);
    }
}

/// Production `c` lands in ring index `c % cap`: that index's latest write
/// becomes `c` itself, and its generation steps by two (from zero if the
/// slot had never been written, which happens exactly on the first lap).
proof fn lemma_ring_step_written(c: int, cap: int)
    requires
        cap >= 1,
        c >= 0,
    ensures
        ({
            let i = c % cap;
            &&& 0 <= i < cap
            &&& i <= c
            &&& (c + 1 - 1 - i) / cap == c / cap
            &&& i + ((c + 1 - 1 - i) / cap) * cap == c
            &&& (i < c ==> 2 * ((c - 1 - i) / cap) + 2 + 2 == 2 * (c / cap) + 2)
            &&& (i >= c ==> i == c && c / cap == 0)
        }),
{
    let i = c % cap;
    let q = c / cap;
    lemma_mod_bound(c, cap);
    lemma_fundamental_div_mod(c, cap);
    vstd::arithmetic::div_mod::lemma_div_pos_is_pos(c, cap);
    vstd::arithmetic::mul::lemma_mul_is_commutative(cap, q);
    vstd::arithmetic::mul::lemma_mul_nonnegative(q, cap);
    lemma_fundamental_div_mod_converse(c - i, cap, q, 0);
    if i < c {
        assert(q >= 1) by (nonlinear_arith)
            requires
                q * cap == c - i,
                c - i >= 1,
                cap >= 1,
                q >= 0,
        ;
        assert(c - 1 - i == (q - 1) * cap + (cap - 1)) by (nonlinear_arith)
            requires
                q * cap == c - i,
        ;
        lemma_fundamental_div_mod_converse(c - 1 - i, cap, q - 1, cap - 1);
    }
    if i >= c {
        assert(q * cap == c - i <= 0);
        assert(q == 0) by (nonlinear_arith)
            requires
                q * cap <= 0,
                cap >= 1,
                q >= 0,
        ;
    }
}

/// A production elsewhere leaves ring index `i`'s bookkeeping untouched: the
/// latest write to `i` out of `c + 1` productions is the same as out of `c`,
/// and a slot the first `c` productions never reached is not reached by the
/// production at `c` either.
proof fn lemma_ring_step_other(c: int, cap: int, i: int)
    requires
        cap >= 1,
        c >= 0,
        0 <= i < cap,
        i != c % cap,
    ensures
        i < c ==> (c + 1 - 1 - i) / cap == (c - 1 - i) / cap,
        i >= c ==> i > c,
{
    lemma_mod_bound(c, cap);
    lemma_fundamental_div_mod(c, cap);
    if i >= c {
        if i == c {
            vstd::arithmetic::div_mod::lemma_small_mod(c as nat, cap as nat);
        }
    } else {
        let x = c - i;
        let qx = x / cap;
        let rx = x % cap;
        lemma_mod_bound(x, cap);
        lemma_fundamental_div_mod(x, cap);
        vstd::arithmetic::mul::lemma_mul_is_commutative(cap, qx);
        if rx == 0 {
            // Then c == qx * cap + i with i in range, so c % cap == i.
            lemma_fundamental_div_mod_converse(c, cap, qx, i);
        }
        lemma_fundamental_div_mod_converse(x - 1, cap, qx, rx - 1);
    }
}

/// The latest write to a live ring index lies within the history.
proof fn lemma_last_write_in_range(c: int, cap: int, i: int)
    requires
        cap >= 1,
        0 <= i < cap,
        i < c,
    ensures
        0 <= i + ((c - 1 - i) / cap) * cap <= c - 1,
{
    let q = (c - 1 - i) / cap;
    lemma_fundamental_div_mod(c - 1 - i, cap);
    lemma_mod_bound(c - 1 - i, cap);
    vstd::arithmetic::div_mod::lemma_div_pos_is_pos(c - 1 - i, cap);
    vstd::arithmetic::mul::lemma_mul_is_commutative(cap, q);
    vstd::arithmetic::mul::lemma_mul_nonnegative(q, cap);
}

/// How a slot's generation compares with a consumer's expectation `2g + 2`
/// at logical position `l = g * cap + pos`: behind it if the producer has
/// not reached `l`, equal while the producer is within one lap past `l`,
/// and ahead of it once the producer has lapped the consumer.
proof fn lemma_generation_trichotomy(c: int, cap: int, g: int, pos: int)
    requires
        cap >= 1,
        c >= 0,
        g >= 0,
        0 <= pos < cap,
    ensures
        ({
            let l = g * cap + pos;
            &&& (c <= pos ==> c <= l)
            &&& (c <= l && pos < c ==> 2 * ((c - 1 - pos) / cap) + 2 < 2 * g + 2)
            &&& (l < c <= l + cap ==> (c - 1 - pos) / cap == g && pos + ((c - 1 - pos) / cap) * cap
                == l)
            &&& (c > l + cap ==> 2 * ((c - 1 - pos) / cap) + 2 > 2 * g + 2)
        }),
{
    let l = g * cap + pos;
    vstd::arithmetic::mul::lemma_mul_nonnegative(g, cap);
    if c <= l && pos < c {
        assert(g >= 1) by (nonlinear_arith)
            requires
                c <= g * cap + pos,
                pos < c,
                cap >= 1,
                g >= 0,
        ;
        assert(g * cap - 1 == (g - 1) * cap + (cap - 1)) by (nonlinear_arith);
        lemma_fundamental_div_mod_converse(g * cap - 1, cap, g - 1, cap - 1);
        lemma_div_is_ordered(c - 1 - pos, g * cap - 1, cap);
    }
    if l < c <= l + cap {
        lemma_fundamental_div_mod_converse(c - 1 - pos, cap, g, c - 1 - l);
    }
    if c > l + cap {
        assert(l + cap - pos == (g + 1) * cap) by (nonlinear_arith)
            requires
                l == g * cap + pos,
        ;
        assert((g + 1) * cap == (g + 1) * cap + 0);
        lemma_fundamental_div_mod_converse((g + 1) * cap, cap, g + 1, 0);
        lemma_div_is_ordered((g + 1) * cap, c - 1 - pos, cap);
    }
}

/// The stateless producing view of a queue: it claims positions from the
/// queue's shared counter each call and carries no position of its own.
pub struct Producer {}

impl Producer {
    /// Binds a producing view to a queue.
    pub fn from<T: Copy>(_queue: &Queue<T>) -> (p: Producer) {
        Producer {  }
    }

    /// Produces `msg`: claims the next logical position, writes the value
    /// into `position mod capacity`, and returns the claimed position.
    pub fn produce<T: Copy>(&mut self, queue: &mut Queue<T>, msg: &T) -> (pos: usize)
        requires
            old(queue).well_formed(),
            old(queue).produced().len() < COUNT_LIMIT,
            !(old(queue).queue_type_spec() is Unknown),
        ensures
            final(queue).well_formed(),
            pos == old(queue).produced().len(),
            final(queue).produced() == old(queue).produced().push(*msg),
            final(queue).capacity() == old(queue).capacity(),
            final(queue).queue_type_spec() == old(queue).queue_type_spec(),
    {
        queue.produce(msg)
    }
}

/// A consuming view of a queue: a private ring cursor plus the generation it
/// expects the next slot to carry. Consumers are independent of each other
/// and of the producer; ring entries are not removed on consumption.
#[derive(Debug)]
pub struct Consumer {
    pos: usize,
    mask: usize,
    expected_version: usize,
}

impl Consumer {
    /// The ring index the consumer will read next.
    pub closed spec fn spec_pos(&self) -> int {
        self.pos as int
    }

    /// The capacity mask copied from the queue at creation.
    pub closed spec fn spec_mask(&self) -> int {
        self.mask as int
    }

    /// The generation the consumer expects the next slot to carry.
    pub closed spec fn spec_expected(&self) -> int {
        self.expected_version as int
    }

    /// The logical position in the production stream the consumer will
    /// consume next: completed laps times capacity, plus the ring index.
    pub open spec fn logical(&self) -> int {
        ((self.spec_expected() - 2) / 2) * (self.spec_mask() + 1) + self.spec_pos()
    }

    /// The consumer matches the queue's geometry, expects a well-shaped
    /// (even, positive) generation, and has not run ahead of production.
    pub open spec fn valid_for<T: Copy>(&self, queue: &Queue<T>) -> bool {
        &&& self.spec_mask() + 1 == queue.capacity()
        &&& 0 <= self.spec_pos() <= self.spec_mask()
        &&& self.spec_expected() >= 2
        &&& self.spec_expected() % 2 == 0
        &&& self.logical() <= queue.produced().len()
    }

    /// Builds a consumer from a snapshot of the queue's current production
    /// count: it sees the stream from this point onward.
    pub fn from<T: Copy>(queue: &Queue<T>) -> (c: Consumer)
        requires
            queue.well_formed(),
        ensures
            c.valid_for(queue),
            c.logical() == queue.produced().len(),
    {
        let ghost cap = queue.capacity();
        let count = queue.count();
        let pos = count & queue.header.mask;
        let g = count / queue.len();
        proof {
            lemma_mask_is_mod(count, (cap) as usize);
            lemma_mod_bound(count as int, cap);
            lemma_fundamental_div_mod(count as int, cap);
            vstd::arithmetic::mul::lemma_mul_is_commutative(cap, g as int);
            lemma_div_nonincreasing(count as int, cap);
            vstd::arithmetic::div_mod::lemma_div_pos_is_pos(count as int, cap);
            lemma_usize_max_large();
            lemma_usize_bits();
            vstd::arithmetic::power2::lemma2_to64();
            vstd::bits::lemma_usize_shl_is_mul(g, 1);
            vstd::arithmetic::div_mod::lemma_div_multiples_vanish(g as int, 2);
        }
        let expected_version = (g << 1usize) + 2;
        Consumer { pos, mask: queue.header.mask, expected_version }
    }

    /// Advances the cursor one slot, stepping the expected generation by
    /// two when the ring index wraps back to zero.
    fn update_pos(&mut self)
        requires
            old(self).spec_mask() < usize::MAX,
            is_power_of_two(((old(self).spec_mask() + 1) as usize)),
            0 <= old(self).spec_pos() <= old(self).spec_mask(),
            old(self).spec_expected() >= 2,
            old(self).spec_expected() % 2 == 0,
            old(self).spec_expected() <= usize::MAX - 2,
        ensures
            final(self).spec_mask() == old(self).spec_mask(),
            0 <= final(self).spec_pos() <= final(self).spec_mask(),
            final(self).spec_expected() >= 2,
            final(self).spec_expected() % 2 == 0,
            final(self).logical() == old(self).logical() + 1,
    {
        let ghost cap = old(self).spec_mask() + 1;
        let ghost g = (old(self).spec_expected() - 2) / 2;
        proof {
            lemma_fundamental_div_mod(old(self).spec_expected() - 2, 2);
            lemma_mask_is_mod((self.pos + 1) as usize, (cap) as usize);
            if old(self).spec_pos() + 1 < cap {
                vstd::arithmetic::div_mod::lemma_small_mod(
                    (old(self).spec_pos() + 1) as nat,
                    cap as nat,
                );
            } else {
                vstd::arithmetic::div_mod::lemma_mod_self_0(cap);
            }
        }
        self.pos = (self.pos + 1) & self.mask;
        if self.pos == 0 {
            self.expected_version = self.expected_version + 2;
            proof {
                vstd::arithmetic::div_mod::lemma_div_multiples_vanish(g + 1, 2);
                assert((g + 1) * cap == g * cap + cap) by (nonlinear_arith);
            }
        }
    }

    /// Nonblocking consume of the consumer's next logical position `l`. With
    /// `n` values produced into a ring of `capacity` slots: while `n` has
    /// not passed `l` the call reports `Empty` and moves nothing; while the
    /// producer is within one lap past `l` the call succeeds and delivers
    /// the `l`-th produced value; once the producer is more than a lap past
    /// `l` the call reports `SpedPast` — never silently overwritten data —
    /// and the cursor still advances past the stale slot.
    pub fn try_consume<T: Copy>(&mut self, queue: &Queue<T>, el: &mut T) -> (r: Result<
        (),
        ReadError,
    >)
        requires
            queue.well_formed(),
            old(self).valid_for(queue),
        ensures
            final(self).valid_for(queue),
            ({
                let l = old(self).logical();
                let n = queue.produced().len() as int;
                let cap = queue.capacity();
                &&& (r is Ok <==> l < n <= l + cap)
                &&& (r == Err::<(), ReadError>(ReadError::Empty) <==> n <= l)
                &&& (r == Err::<(), ReadError>(ReadError::SpedPast) <==> n > l + cap)
                &&& (r is Ok ==> *final(el) == queue.produced()[l] && final(self).logical() == l
                    + 1)
                &&& (r is Err ==> *final(el) == *old(el))
                &&& (r == Err::<(), ReadError>(ReadError::Empty) ==> *final(self) == *old(self))
                &&& (r == Err::<(), ReadError>(ReadError::SpedPast) ==> final(self).logical() == l
                    + 1)
            }),
    {
        let ghost cap = queue.capacity();
        let ghost n = queue.produced().len() as int;
        let ghost g = (old(self).spec_expected() - 2) / 2;
        let ghost l = old(self).logical();
        proof {
            lemma_fundamental_div_mod(old(self).spec_expected() - 2, 2);
            vstd::arithmetic::div_mod::lemma_div_pos_is_pos(old(self).spec_expected() - 2, 2);
            vstd::arithmetic::mul::lemma_mul_nonnegative(g, cap);
            lemma_generation_trichotomy(n, cap, g, old(self).spec_pos());
            assert(queue.slot_ok(old(self).spec_pos()));
            assert(g <= g * cap) by (nonlinear_arith)
                requires
                    cap >= 1,
                    g >= 0,
            ;
            lemma_usize_max_large();
        }
        let r = queue.consume(el, self.pos, self.expected_version);
        match r {
            Ok(()) => {
                self.update_pos();
                Ok(())
            },
            Err(ReadError::Empty) => Err(ReadError::Empty),
            Err(ReadError::SpedPast) => {
                self.update_pos();
                Err(ReadError::SpedPast)
            },
        }
    }
}

impl<T: Copy + Default> Queue<T> {
    /// Builds a queue over a fresh zeroed region of the next power of two at
    /// least `len` slots. The rounding means construction cannot fail.
    pub fn new(len: usize, queue_type: QueueType) -> (r: Result<Self, QueueError>)
        requires
            len <= usize::MAX / 2 + 1,
        ensures
            r is Ok,
            r matches Ok(q) ==> {
                &&& q.well_formed()
                &&& q.produced() == Seq::<T>::empty()
                &&& q.queue_type_spec() == queue_type
                &&& q.capacity() == rounded_capacity(len)
                &&& q.recorded_elsize() == Self::slot_size_field()
                &&& is_power_of_two((q.capacity()) as usize)
                &&& q.capacity() >= len
                &&& (len >= 1 ==> q.capacity() < 2 * len)
                &&& (len == 0 ==> q.capacity() == 1)
                &&& (is_power_of_two(len) ==> q.capacity() == len)
            },
    {
        let real_len = next_power_of_two_exec(len);
        let d = T::default();
        let mut region: Vec<Seqlock<T>> = Vec::new();
        let mut i: usize = 0;
        while i < real_len
            invariant
                i <= real_len,
                region.len() == i,
                forall|j: int| 0 <= j < i ==> (#[trigger] region[j]).ver() == 0,
            decreases real_len - i,
        {
            region.push(Seqlock::new(d));
            i += 1;
        }
        Self::from_uninitialized_ptr(region, real_len, queue_type)
    }
}

/// An owned backing region released by a queue: the header and slots as
/// they stand, together with the production history they reflect. Attaching
/// to it trusts the stored header, as the byte-layout contract demands.
pub struct QueueRegion<T> {
    header: QueueHeader,
    buffer: Vec<Seqlock<T>>,
    hist: Ghost<Seq<T>>,
}

impl<T: Copy> QueueRegion<T> {
    /// The slot storage the region holds.
    pub closed spec fn stored_slots(&self) -> Seq<Seqlock<T>> {
        self.buffer@
    }

    /// A region of quiescent storage that no constructor has ever
    /// initialized, its header zeroed, as a process finds freshly allocated
    /// shared memory.
    pub fn uninitialized(slots: Vec<Seqlock<T>>) -> (r: QueueRegion<T>)
        ensures
            r.well_formed(),
            !r.initialized(),
            r.stored_slots() == slots@,
            r.spec_mask() == 0,
            r.queue_type_spec() is Unknown,
    {
        QueueRegion {
            header: QueueHeader {
                queue_type: QueueType::Unknown,
                is_initialized: 0,
                elsize: 0,
                mask: 0,
                count: 0,
            },
            buffer: slots,
            hist: Ghost(Seq::empty()),
        }
    }

    /// The stored capacity mask.
    pub closed spec fn spec_mask(&self) -> usize {
        self.header.mask
    }

    /// Whether the header's initialized flag is set.
    pub open spec fn initialized(&self) -> bool {
        self.flag() == 1
    }

    /// The header's initialized flag.
    pub closed spec fn flag(&self) -> u8 {
        self.header.is_initialized
    }

    /// The slot count the header claims: one past the stored mask.
    pub open spec fn stored_len(&self) -> int {
        self.spec_mask() as int + 1
    }

    /// The stored slot count is a representable power of two.
    pub open spec fn stored_len_power_of_two(&self) -> bool {
        self.spec_mask() < usize::MAX && is_power_of_two(((self.spec_mask() + 1) as usize))
    }

    /// The production history the region carries.
    pub closed spec fn contents(&self) -> Seq<T> {
        self.hist@
    }

    /// The discipline recorded in the header.
    pub closed spec fn queue_type_spec(&self) -> QueueType {
        self.header.queue_type
    }

    /// The queue this region's bytes spell, were it attached as one.
    spec fn as_queue(&self) -> Queue<T> {
        Queue { header: self.header, buffer: self.buffer, hist: self.hist }
    }

    /// A region claiming to be initialized with a sound slot count really
    /// carries what an initialized structure left: that is the trust a
    /// process attaching to foreign memory extends, per the layout contract.
    pub closed spec fn well_formed(&self) -> bool {
        self.initialized() && self.stored_len_power_of_two() ==> {
            &&& self.buffer.len() == self.stored_len()
            &&& self.as_queue().well_formed()
        }
    }
}

impl<T: Copy> Queue<T> {
    /// Releases the queue's backing region, contents intact, so that it can
    /// be attached again later (the region outlives the handle).
    pub fn into_region(self) -> (r: QueueRegion<T>)
        requires
            self.well_formed(),
        ensures
            r.well_formed(),
            r.initialized(),
            r.stored_len_power_of_two(),
            r.stored_len() == self.capacity(),
            r.contents() == self.produced(),
            r.queue_type_spec() == self.queue_type_spec(),
    {
        QueueRegion { header: self.header, buffer: self.buffer, hist: self.hist }
    }

    /// Attaches to an already-initialized region: fails with
    /// `LengthNotPowerOfTwo` if the stored slot count is no representable
    /// power of two, with `UnInitialized` if no constructor ever initialized
    /// the region, and otherwise adopts the storage unchanged — the handle
    /// observes exactly the contents the region held, with nothing
    /// duplicated and nothing reset.
    pub fn from_initialized_ptr(region: QueueRegion<T>) -> (r: Result<Self, QueueError>)
        requires
            region.well_formed(),
        ensures
            r is Ok <==> region.stored_len_power_of_two() && region.initialized(),
            !region.stored_len_power_of_two() ==> r == Err::<Self, QueueError>(
                QueueError::LengthNotPowerOfTwo,
            ),
            region.stored_len_power_of_two() && !region.initialized() ==> r == Err::<
                Self,
                QueueError,
            >(QueueError::UnInitialized),
            r matches Ok(q) ==> {
                &&& q.well_formed()
                &&& q.capacity() == region.stored_len()
                &&& q.produced() == region.contents()
                &&& q.queue_type_spec() == region.queue_type_spec()
                &&& q.recorded_elsize() == Self::slot_size_field()
            },
    {
        if region.header.mask == usize::MAX {
            return Err(QueueError::LengthNotPowerOfTwo);
        }
        let len = region.header.mask + 1;
        if !power_of_two_check(len) {
            return Err(QueueError::LengthNotPowerOfTwo);
        }
        if region.header.is_initialized != 1 {
            return Err(QueueError::UnInitialized);
        }
        Ok(Queue { header: region.header, buffer: region.buffer, hist: region.hist })
    }
}

/// FIFO order: while the productions in a queue reach at most one lap past
/// a consumer's starting point, the consume at each logical position `l` it
/// passes is owed success — and by [`Consumer::try_consume`]'s contract the
/// value delivered there is the `l`-th value produced. Draining a queue
/// that holds `capacity` productions from their start therefore yields
/// every value, in production order, with no errors.
pub proof fn lemma_fifo_order<T: Copy>(queue: &Queue<T>, start: int, l: int)
    requires
        queue.well_formed(),
        0 <= start <= l < queue.produced().len(),
        queue.produced().len() <= start + queue.capacity(),
    ensures
        l < queue.produced().len() <= l + queue.capacity(),
{
}

/// Overrun is reported: once the producer stands more than a full lap past
/// a consumer's position — `capacity + k` productions ahead, for any
/// `k >= 1` — the consume there is owed `SpedPast` rather than silently
/// overwritten data, and by [`Consumer::try_consume`]'s contract the cursor
/// still advances past the stale slot.
pub proof fn lemma_sped_past_on_overrun<T: Copy>(queue: &Queue<T>, cons: &Consumer, k: int)
    requires
        queue.well_formed(),
        cons.valid_for(queue),
        k >= 1,
        queue.produced().len() >= cons.logical() + queue.capacity() + k,
    ensures
        queue.produced().len() > cons.logical() + queue.capacity(),
{
}

/// Conservation: the values a consumer is owed while draining from logical
/// position `start` to the production count — the value at `start`, then
/// `start + 1`, and so on, one per successful consume — are exactly the
/// produced subsequence over that range: every produced value accounted
/// for once, none lost, none duplicated. With several producers emitting
/// disjoint sequences, what the drained range delivers is exactly their
/// merged output.
pub proof fn lemma_conservation<T: Copy>(queue: &Queue<T>, start: int)
    requires
        queue.well_formed(),
        0 <= start <= queue.produced().len(),
    ensures
        Seq::new((queue.produced().len() - start) as nat, |j: int| queue.produced()[start + j])
            =~= queue.produced().subrange(start, queue.produced().len() as int),
{
}

} // verus!
