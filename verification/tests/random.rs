//! The deterministic random sources hand out exactly their scripted bytes.

use vectest::rand::FixedByteRandom;
use vectest::rand::FixedSliceRandom;
use vectest::rand::FixedSliceSequenceRandom;
use vectest::rand::SecureRandom;

#[test]
fn fixed_byte_fills_with_one_byte() {
    let mut source = FixedByteRandom { byte: 42 };
    let mut dest = vec![0u8; 5];
    assert!(source.fill(&mut dest).is_ok());
    assert_eq!(dest, vec![42, 42, 42, 42, 42]);

    let mut empty: Vec<u8> = Vec::new();
    assert!(source.fill(&mut empty).is_ok());
    assert_eq!(empty, Vec::<u8>::new());
}

#[test]
fn fixed_slice_fills_with_its_bytes() {
    let mut source = FixedSliceRandom { bytes: vec![1, 2, 3] };
    let mut dest = vec![0u8; 3];
    assert!(source.fill(&mut dest).is_ok());
    assert_eq!(dest, vec![1, 2, 3]);
}

#[test]
fn sequence_source_hands_out_vectors_in_order() {
    let mut source = FixedSliceSequenceRandom {
        bytes: vec![vec![0xa1], vec![0xb2, 0xb3], vec![0xc4]],
        current: 0,
    };
    let mut first = vec![0u8; 1];
    assert!(source.fill(&mut first).is_ok());
    assert_eq!(first, vec![0xa1]);

    let mut second = vec![0u8; 2];
    assert!(source.fill(&mut second).is_ok());
    assert_eq!(second, vec![0xb2, 0xb3]);

    assert!(!source.all_consumed());

    let mut third = vec![0u8; 1];
    assert!(source.fill(&mut third).is_ok());
    assert_eq!(third, vec![0xc4]);

    assert!(source.all_consumed());
}

#[test]
fn sequence_source_reports_early_retirement() {
    let source = FixedSliceSequenceRandom { bytes: vec![vec![1], vec![2]], current: 0 };
    assert!(!source.all_consumed());

    let empty = FixedSliceSequenceRandom { bytes: Vec::new(), current: 0 };
    assert!(empty.all_consumed());
}
