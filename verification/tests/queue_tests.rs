//! Exercises for the ring buffer: ordering, underrun, overrun, conservation
//! across producers and consumers, region reattachment, and the
//! construction errors.

use versioned_slots::queue::power_of_two;
use versioned_slots::Consumer;
use versioned_slots::Producer;
use versioned_slots::Queue;
use versioned_slots::QueueError;
use versioned_slots::QueueRegion;
use versioned_slots::QueueType;
use versioned_slots::ReadError;
use versioned_slots::Seqlock;

#[test]
fn power_of_two_test() {
    let t: usize = 128;
    assert_eq!(power_of_two(t), 7);
}

#[test]
fn power_of_two_counts_factors() {
    assert_eq!(power_of_two(1), 0);
    assert_eq!(power_of_two(12), 2);
    assert_eq!(power_of_two(96), 5);
}

#[test]
fn basic() {
    for typ in [QueueType::SPMC, QueueType::MPMC] {
        let mut q: Queue<i32> = Queue::new(16, typ).unwrap();
        let mut p = Producer::from(&q);
        let mut c = Consumer::from(&q);
        p.produce(&mut q, &1);
        let mut m: i32 = 0;

        assert_eq!(c.try_consume(&q, &mut m), Ok(()));
        assert_eq!(m, 1);
        assert!(matches!(c.try_consume(&q, &mut m), Err(ReadError::Empty)));
        for i in 0..16 {
            p.produce(&mut q, &i);
        }
        for i in 0..16 {
            c.try_consume(&q, &mut m).unwrap();
            assert_eq!(m, i);
        }

        assert!(matches!(c.try_consume(&q, &mut m), Err(ReadError::Empty)));

        for _i in 0..20 {
            p.produce(&mut q, &1);
        }

        assert!(matches!(c.try_consume(&q, &mut m), Err(ReadError::SpedPast)));
    }
}

#[test]
fn empty_on_underrun_leaves_cursor() {
    let mut q: Queue<u32> = Queue::new(4, QueueType::SPMC).unwrap();
    let mut p = Producer::from(&q);
    let mut c = Consumer::from(&q);
    let mut m: u32 = 99;
    assert!(matches!(c.try_consume(&q, &mut m), Err(ReadError::Empty)));
    assert_eq!(m, 99); // nothing was delivered
    // the cursor did not move: the next production is the one consumed
    p.produce(&mut q, &7);
    assert_eq!(c.try_consume(&q, &mut m), Ok(()));
    assert_eq!(m, 7);
}

#[test]
fn sped_past_on_overrun_advances_cursor() {
    let mut q: Queue<u32> = Queue::new(8, QueueType::MPMC).unwrap();
    let mut p = Producer::from(&q);
    let mut c = Consumer::from(&q);
    // capacity plus three productions without a consume in between
    for i in 0..11u32 {
        p.produce(&mut q, &i);
    }
    let mut m: u32 = 0;
    // the first three logical positions were overwritten a lap later
    assert!(matches!(c.try_consume(&q, &mut m), Err(ReadError::SpedPast)));
    assert!(matches!(c.try_consume(&q, &mut m), Err(ReadError::SpedPast)));
    assert!(matches!(c.try_consume(&q, &mut m), Err(ReadError::SpedPast)));
    // the cursor advanced past each stale slot; live data follows
    assert_eq!(c.try_consume(&q, &mut m), Ok(()));
    assert_eq!(m, 3);
}

#[test]
fn conservation_interleaved_producers() {
    // two producers emitting disjoint sequences, two independent consumers:
    // each consumer drains every value exactly once, so each sees the sum of
    // both producers' output
    let mut q: Queue<u64> = Queue::new(32, QueueType::MPMC).unwrap();
    let mut p1 = Producer::from(&q);
    let mut p2 = Producer::from(&q);
    let mut c1 = Consumer::from(&q);
    let mut c2 = Consumer::from(&q);
    let total: u64 = 12;
    let mut next1: u64 = 0; // the evens
    let mut next2: u64 = 1; // the odds
    while next1 < total || next2 < total {
        if next1 < total {
            p1.produce(&mut q, &next1);
            next1 += 2;
        }
        if next2 < total {
            p2.produce(&mut q, &next2);
            next2 += 2;
        }
    }
    let expected: u64 = (0..total).sum();
    for c in [&mut c1, &mut c2] {
        let mut sum: u64 = 0;
        let mut m: u64 = 0;
        let mut seen: u64 = 0;
        while seen < total {
            match c.try_consume(&q, &mut m) {
                Ok(()) => {
                    sum += m;
                    seen += 1;
                },
                Err(ReadError::Empty) => break,
                Err(ReadError::SpedPast) => panic!("the capacity was large enough"),
            }
        }
        assert_eq!(seen, total);
        assert_eq!(sum, expected);
    }
}

#[test]
fn reopen_preserves_contents() {
    let mut q: Queue<u16> = Queue::new(4, QueueType::SPMC).unwrap();
    let mut p = Producer::from(&q);
    let mut c = Consumer::from(&q);
    for i in 0..3u16 {
        p.produce(&mut q, &i);
    }
    // release the region and attach to it again: same storage, same stream
    let mut q2 = Queue::from_initialized_ptr(q.into_region()).unwrap();
    let mut m: u16 = 0;
    for i in 0..3u16 {
        assert_eq!(c.try_consume(&q2, &mut m), Ok(()));
        assert_eq!(m, i);
    }
    // a second detach-and-attach still carries the stream, and a handle
    // created before it observes writes made after it
    let mut p2 = Producer::from(&q2);
    p2.produce(&mut q2, &9);
    let q3 = Queue::from_initialized_ptr(q2.into_region()).unwrap();
    assert_eq!(c.try_consume(&q3, &mut m), Ok(()));
    assert_eq!(m, 9);
}

#[test]
fn construction_errors() {
    // a region whose slot count is not a power of two is refused
    let mut region: Vec<Seqlock<u8>> = Vec::new();
    for _i in 0..3 {
        region.push(Seqlock::new(0u8));
    }
    match Queue::from_uninitialized_ptr(region, 3, QueueType::MPMC) {
        Err(QueueError::LengthNotPowerOfTwo) => {},
        _ => panic!("a slot count of three must be refused"),
    }
    // a never-initialized region is refused on attach
    let mut slots: Vec<Seqlock<u8>> = Vec::new();
    slots.push(Seqlock::new(0u8));
    match Queue::from_initialized_ptr(QueueRegion::uninitialized(slots)) {
        Err(QueueError::UnInitialized) => {},
        _ => panic!("an uninitialized region must be refused"),
    }
}

#[test]
fn from_uninitialized_region_accepts_power_of_two() {
    let mut region: Vec<Seqlock<u8>> = Vec::new();
    for _i in 0..4 {
        region.push(Seqlock::new(0u8));
    }
    let mut q = Queue::from_uninitialized_ptr(region, 4, QueueType::MPMC).unwrap();
    let mut p = Producer::from(&q);
    let mut c = Consumer::from(&q);
    p.produce(&mut q, &5u8);
    let mut m: u8 = 0;
    assert_eq!(c.try_consume(&q, &mut m), Ok(()));
    assert_eq!(m, 5);
}

#[test]
fn header_reports_geometry() {
    // a requested length of ten rounds up to the next power of two
    let q: Queue<u64> = Queue::new(10, QueueType::MPMC).unwrap();
    assert_eq!(q.header().n_elements(), 16);
    assert_eq!(q.header().sizeof(), 16 * std::mem::size_of::<Seqlock<u64>>());
    assert_eq!(q.header().elsize, std::mem::size_of::<Seqlock<u64>>() as u32);
    assert_eq!(q.count(), 0);
}

#[test]
fn zero_length_queue_rounds_to_one_slot() {
    let mut q: Queue<u32> = Queue::new(0, QueueType::MPMC).unwrap();
    assert_eq!(q.header().n_elements(), 1);
    let mut p = Producer::from(&q);
    let mut c = Consumer::from(&q);
    p.produce(&mut q, &17);
    let mut m: u32 = 0;
    assert_eq!(c.try_consume(&q, &mut m), Ok(()));
    assert_eq!(m, 17);
}

#[test]
fn produce_returns_monotonic_positions() {
    let mut q: Queue<u32> = Queue::new(2, QueueType::MPMC).unwrap();
    let mut p = Producer::from(&q);
    // logical positions keep rising even though the two slots are reused
    for expect in 0..6usize {
        assert_eq!(p.produce(&mut q, &0), expect);
    }
    assert_eq!(q.count(), 6);
}

#[test]
fn region_size_is_header_plus_rounded_slots() {
    let header = std::mem::size_of::<versioned_slots::QueueHeader>();
    let slot = std::mem::size_of::<Seqlock<u64>>();
    // a request of ten rounds to sixteen slots; of zero, to one
    assert_eq!(Queue::<u64>::size_of(10), header + 16 * slot);
    assert_eq!(Queue::<u64>::size_of(16), header + 16 * slot);
    assert_eq!(Queue::<u64>::size_of(17), header + 32 * slot);
    assert_eq!(Queue::<u64>::size_of(0), header + slot);
    assert!(Queue::<u64>::size_of(10) <= Queue::<u64>::size_of(17));
}
