//! Exercises for the versioned vector: default content, checked and
//! unchecked accessors, the iterator, and region adoption.

use versioned_slots::Seqlock;
use versioned_slots::SeqlockVector;
use versioned_slots::VectorHeader;

#[test]
fn vector_default_content() {
    // a fresh vector reads the payload type's default at every index
    let v: SeqlockVector<u32> = SeqlockVector::new(5);
    assert_eq!(v.len(), 5);
    for i in 0..5 {
        assert_eq!(v.read_copy(i), 0);
    }
}

#[test]
fn vector_write_and_read_back() {
    let mut v: SeqlockVector<u64> = SeqlockVector::new(4);
    v.write(0, &10);
    v.write_unchecked(3, &13);
    let mut out: u64 = 0;
    v.read(0, &mut out);
    assert_eq!(out, 10);
    v.read_unchecked(3, &mut out);
    assert_eq!(out, 13);
    assert_eq!(v.read_copy_unchecked(3), 13);
    // untouched slots keep the default
    assert_eq!(v.read_copy(1), 0);
}

#[test]
fn vector_iterator_walks_in_index_order() {
    let mut v: SeqlockVector<u32> = SeqlockVector::new(6);
    for i in 0..6u32 {
        v.write(i as usize, &(i * i));
    }
    let mut it = v.iter();
    let mut idx: u32 = 0;
    while let Some(x) = it.next() {
        assert_eq!(x, idx * idx);
        idx += 1;
    }
    assert_eq!(idx, 6);
    // the iterator restarts by constructing it anew
    let mut it2 = v.iter();
    assert_eq!(it2.next(), Some(0));
}

#[test]
fn vector_region_adoption() {
    let mut region: Vec<Seqlock<u16>> = Vec::new();
    for _i in 0..3 {
        region.push(Seqlock::new(0u16));
    }
    let mut v = SeqlockVector::from_uninitialized_ptr(region, 3);
    v.write(2, &44);
    assert_eq!(v.read_copy(2), 44);
}

#[test]
fn vector_reattach_respects_stored_length() {
    // requesting more slots than the region stores fails
    let mut stored: Vec<Seqlock<u16>> = Vec::new();
    for i in 0..4u16 {
        stored.push(Seqlock::new(i));
    }
    assert!(SeqlockVector::from_initialized_ptr(stored, 9).is_err());
    // requesting no more than is stored adopts the contents unchanged
    let mut stored2: Vec<Seqlock<u16>> = Vec::new();
    for i in 0..4u16 {
        stored2.push(Seqlock::new(i));
    }
    let v = SeqlockVector::from_initialized_ptr(stored2, 2).unwrap();
    assert_eq!(v.len(), 2);
    assert_eq!(v.read_copy(1), 1);
}

#[test]
fn vector_size_of_is_header_plus_slots() {
    assert_eq!(
        SeqlockVector::<u32>::size_of(7),
        std::mem::size_of::<VectorHeader>() + 7 * std::mem::size_of::<Seqlock<u32>>()
    );
}
