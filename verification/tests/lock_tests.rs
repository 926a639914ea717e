//! Snapshot-consistency exercises for the pared-down single-slot container.

use versioned_slots::SeqLock;

fn read_test<const N: usize>() {
    let mut lock = SeqLock::new([0usize; N]);
    let mut count: usize = 1;
    while count <= 100 {
        let mut msg = [0usize; N];
        msg.fill(count);
        lock.write(&msg);
        let mut out = [0usize; N];
        lock.read(&mut out);
        let first = out[0];
        for i in out {
            assert_eq!(first, i); // data consistency is verified here
        }
        count = count.wrapping_add(1);
    }
    let mut msg = [0usize; N];
    lock.read(&mut msg);
    assert_ne!(msg[0], 0)
}

#[test]
fn lib_read_16() {
    read_test::<16>()
}

#[test]
fn lib_read_32() {
    read_test::<32>()
}

#[test]
fn lib_read_64() {
    read_test::<64>()
}

#[test]
fn lib_read_128() {
    read_test::<128>()
}

#[test]
fn lib_read_large() {
    read_test::<{ 2usize.pow(16) }>()
}
