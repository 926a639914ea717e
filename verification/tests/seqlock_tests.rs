//! Exercises for the full-featured single-slot container: snapshot
//! consistency across payload sizes, both write paths, and the
//! generation-checked read.

use versioned_slots::ReadError;
use versioned_slots::Seqlock;

fn read_test<const N: usize>() {
    let mut lock = Seqlock::new([0usize; N]);
    let mut count: usize = 1;
    while count <= 100 {
        let mut msg = [0usize; N];
        msg.fill(count);
        lock.write(&msg);
        let mut out = [0usize; N];
        lock.read(&mut out);
        let first = out[0];
        for i in out {
            assert_eq!(first, i); // data consistency is verified here
        }
        count = count.wrapping_add(1);
    }
    let mut msg = [0usize; N];
    lock.read(&mut msg);
    assert_ne!(msg[0], 0)
}

#[test]
fn read_16() {
    read_test::<16>()
}

#[test]
fn read_32() {
    read_test::<32>()
}

#[test]
fn read_64() {
    read_test::<64>()
}

#[test]
fn read_128() {
    read_test::<128>()
}

#[test]
fn read_large() {
    read_test::<{ 2usize.pow(16) }>()
}

#[test]
fn pessimistic_read_returns_last_write() {
    let mut lock = Seqlock::new(0u64);
    lock.write(&41);
    lock.write(&42);
    let mut out: u64 = 0;
    lock.pessimistic_read(&mut out);
    assert_eq!(out, 42);
}

#[test]
fn write_old_matches_write() {
    let mut a = Seqlock::new(0u32);
    let mut b = Seqlock::new(0u32);
    a.write(&7);
    b.write_old(&7);
    let mut out_a: u32 = 0;
    let mut out_b: u32 = 0;
    a.read(&mut out_a);
    b.read(&mut out_b);
    assert_eq!(out_a, out_b);
}

#[test]
fn read_with_version_distinguishes_empty_and_sped_past() {
    let mut lock = Seqlock::new(0u64);
    lock.write(&7); // one completed write: the slot is at generation two
    let mut out: u64 = 1;
    assert_eq!(lock.read_with_version(&mut out, 2), Ok(()));
    assert_eq!(out, 7);
    out = 1;
    // a later generation has not been produced yet
    assert!(matches!(lock.read_with_version(&mut out, 4), Err(ReadError::Empty)));
    assert_eq!(out, 1); // the scratch buffer is untouched on failure
    // an earlier generation has been overwritten
    assert!(matches!(lock.read_with_version(&mut out, 0), Err(ReadError::SpedPast)));
    assert_eq!(out, 1);
}

#[test]
fn uniform_sentinel_never_blends() {
    // every element was set to one sentinel; a completed read must show that
    // sentinel everywhere, never a mix of two writer generations
    let mut lock = Seqlock::new([0u8; 32]);
    lock.write(&[170u8; 32]);
    lock.write(&[85u8; 32]);
    let mut out = [0u8; 32];
    lock.read(&mut out);
    for x in out {
        assert_eq!(x, 85);
    }
}
