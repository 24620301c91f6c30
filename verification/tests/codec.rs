use ledger_primitives::bytes::{bytes_equal, extended};
use ledger_primitives::codec::{append_encoded, Slicable};
use ledger_primitives::hash::H512;
use ledger_primitives::runtime_function::{Function, FunctionId};

#[test]
fn u8_codec() {
    assert_eq!(0x7fu8.to_vec(), vec![0x7f]);
    assert_eq!(0x7fu8.as_slice_then(|s| s.to_vec()), vec![0x7f]);
    let v = [5u8, 6];
    let mut cursor = &v[..];
    assert_eq!(u8::from_slice(&mut cursor), Some(5));
    assert_eq!(cursor, &[6]);
    assert_eq!(u8::from_slice(&mut cursor), Some(6));
    assert_eq!(u8::from_slice(&mut cursor), None);
    assert!(cursor.is_empty());
}

#[test]
fn u64_codec_is_little_endian() {
    assert_eq!(999u64.to_vec(), vec![0xe7, 0x03, 0, 0, 0, 0, 0, 0]);
    assert_eq!(u64::MAX.to_vec(), vec![0xff; 8]);
    assert_eq!(0u64.to_vec(), vec![0; 8]);
    assert_eq!(0x1122334455667788u64.as_slice_then(|s| s[0]), 0x88);

    let v = [0xdf, 0x0f, 0x02, 0, 0, 0, 0, 0, 0xaa];
    let mut cursor = &v[..];
    assert_eq!(u64::from_slice(&mut cursor), Some(135135));
    assert_eq!(cursor, &[0xaa]);
    assert_eq!(u64::from_slice(&mut cursor), None);
    assert_eq!(cursor, &[0xaa]);
    assert_eq!(u64::from_slice(&mut &v[..7]), None);
}

#[test]
fn array_codec_is_the_bytes_themselves() {
    let mut a = [0u8; 32];
    for (i, byte) in a.iter_mut().enumerate() {
        *byte = i as u8;
    }
    assert_eq!(a.to_vec(), &a[..]);
    assert_eq!(a.as_slice_then(|s| s.len()), 32);

    let mut v = a.to_vec();
    v.push(0xff);
    let mut cursor = &v[..];
    assert_eq!(<[u8; 32]>::from_slice(&mut cursor), Some(a));
    assert_eq!(cursor, &[0xff]);
    assert_eq!(<[u8; 32]>::from_slice(&mut &v[..31]), None);

    let empty: [u8; 0] = [];
    assert_eq!(empty.to_vec(), Vec::<u8>::new());
    assert_eq!(<[u8; 0]>::from_slice(&mut &v[..]), Some(empty));
}

#[test]
fn h512_codec_is_the_bytes_themselves() {
    let mut bytes = [0u8; 64];
    for (i, byte) in bytes.iter_mut().enumerate() {
        *byte = 200 - i as u8;
    }
    let h = H512(bytes);
    assert_eq!(h.to_vec(), &bytes[..]);
    assert_eq!(h.as_slice_then(|s| s.to_vec()), &bytes[..]);

    let mut v = h.to_vec();
    v.push(1);
    let mut cursor = &v[..];
    assert_eq!(H512::from_slice(&mut cursor), Some(h));
    assert_eq!(cursor, &[1]);
    for n in 0..64 {
        assert_eq!(H512::from_slice(&mut &v[..n]), None);
    }
}

#[test]
fn h512_equality_compares_bytes() {
    let a = H512([3; 64]);
    let mut b = a;
    assert_eq!(a, b);
    b.0[17] = 4;
    assert_ne!(a, b);
}

#[test]
fn function_encodings() {
    assert_eq!(Function::TimestampSet(135135).to_vec(), vec![0x00, 0xdf, 0x0f, 0x02, 0, 0, 0, 0, 0]);
    assert_eq!(Function::StakingStake.to_vec(), vec![0x20]);
    assert_eq!(Function::StakingUnstake.to_vec(), vec![0x21]);

    let mut expected = vec![0x10];
    expected.extend_from_slice(&[7; 32]);
    assert_eq!(Function::SessionSetKey([7; 32]).to_vec(), expected);

    let mut expected = vec![0x22];
    expected.extend_from_slice(&[9; 32]);
    expected.extend_from_slice(&[0x39, 0x30, 0, 0, 0, 0, 0, 0]);
    assert_eq!(Function::StakingTransfer([9; 32], 12345).to_vec(), expected);
    assert_eq!(Function::StakingTransfer([9; 32], 12345).as_slice_then(|s| s.to_vec()), expected);
}

#[test]
fn function_round_trips_and_rejects_truncation() {
    let all = [
        Function::TimestampSet(1),
        Function::SessionSetKey([2; 32]),
        Function::StakingStake,
        Function::StakingUnstake,
        Function::StakingTransfer([3; 32], u64::MAX),
    ];
    for function in all {
        let mut v = function.to_vec();
        for n in 0..v.len() {
            assert_eq!(Function::from_slice(&mut &v[..n]), None);
        }
        v.push(0x55);
        let mut cursor = &v[..];
        assert_eq!(Function::from_slice(&mut cursor), Some(function));
        assert_eq!(cursor, &[0x55]);
    }
}

#[test]
fn function_rejects_unknown_tags() {
    for tag in 0..=255u8 {
        let known = matches!(tag, 0x00 | 0x10 | 0x20 | 0x21 | 0x22);
        let mut v = vec![tag];
        v.extend_from_slice(&[0; 40]);
        assert_eq!(Function::from_slice(&mut &v[..]).is_some(), known);
        assert_eq!(FunctionId::from_u8(tag).is_some(), known);
    }
}

#[test]
fn function_equality() {
    assert_eq!(Function::StakingStake, Function::StakingStake);
    assert_ne!(Function::StakingStake, Function::StakingUnstake);
    assert_ne!(Function::TimestampSet(1), Function::TimestampSet(2));
    assert_ne!(Function::TimestampSet(1), Function::StakingStake);
    assert_eq!(Function::SessionSetKey([1; 32]), Function::SessionSetKey([1; 32]));
    assert_ne!(Function::SessionSetKey([1; 32]), Function::SessionSetKey([2; 32]));
    assert_eq!(Function::StakingTransfer([1; 32], 5), Function::StakingTransfer([1; 32], 5));
    assert_ne!(Function::StakingTransfer([1; 32], 5), Function::StakingTransfer([1; 32], 6));
    assert_ne!(Function::StakingTransfer([1; 32], 5), Function::StakingTransfer([2; 32], 5));
}

#[test]
fn function_id_tags() {
    let all = [
        (FunctionId::TimestampSet, 0x00),
        (FunctionId::SessionSetKey, 0x10),
        (FunctionId::StakingStake, 0x20),
        (FunctionId::StakingUnstake, 0x21),
        (FunctionId::StakingTransfer, 0x22),
    ];
    for (id, tag) in all {
        assert_eq!(id.to_u8(), tag);
        assert_eq!(FunctionId::from_u8(tag), Some(id));
    }
    assert_eq!(FunctionId::from_u8(0x23), None);
}

#[test]
fn append_encoded_adds_at_the_end() {
    let v = append_encoded(vec![1, 2], &0x0403u64);
    assert_eq!(v, vec![1, 2, 3, 4, 0, 0, 0, 0, 0, 0]);
    let v = append_encoded(v, &Function::StakingStake);
    assert_eq!(v, vec![1, 2, 3, 4, 0, 0, 0, 0, 0, 0, 0x20]);
}

#[test]
fn byte_helpers() {
    assert!(bytes_equal(&[], &[]));
    assert!(bytes_equal(&[1, 2, 3], &[1, 2, 3]));
    assert!(!bytes_equal(&[1, 2, 3], &[1, 2, 4]));
    assert!(!bytes_equal(&[1, 2, 3], &[1, 2]));
    assert!(!bytes_equal(&[1, 2], &[1, 2, 3]));
    assert_eq!(extended(vec![1], &[2, 3]), vec![1, 2, 3]);
    assert_eq!(extended(vec![], &[]), Vec::<u8>::new());
}

#[test]
fn function_failed_read_leaves_the_cursor_where_it_left_off() {
    // No tag: nothing was read.
    let mut cursor: &[u8] = &[];
    assert_eq!(Function::from_slice(&mut cursor), None);
    assert!(cursor.is_empty());

    // A tag that names no variant: the tag was read.
    let v = [0x23u8, 1, 2];
    let mut cursor = &v[..];
    assert_eq!(Function::from_slice(&mut cursor), None);
    assert_eq!(cursor, &[1, 2]);

    // Too short for the fields of one field: the tag was read.
    let v = [0x00u8, 1, 2, 3];
    let mut cursor = &v[..];
    assert_eq!(Function::from_slice(&mut cursor), None);
    assert_eq!(cursor, &[1, 2, 3]);
    let v = [0x10u8; 32];
    let mut cursor = &v[..];
    assert_eq!(Function::from_slice(&mut cursor), None);
    assert_eq!(cursor, &v[1..]);

    // Too short for the first of two fields: the tag was read.
    let mut v = vec![0x22u8];
    v.extend_from_slice(&[9; 31]);
    let mut cursor = &v[..];
    assert_eq!(Function::from_slice(&mut cursor), None);
    assert_eq!(cursor, &v[1..]);

    // Too short for the second of two fields: the tag and the first were read.
    v.extend_from_slice(&[9, 5, 5, 5]);
    let mut cursor = &v[..];
    assert_eq!(Function::from_slice(&mut cursor), None);
    assert_eq!(cursor, &[5, 5, 5]);
}

#[test]
fn leaf_failed_read_does_not_move() {
    let v = [1u8, 2, 3];
    let mut cursor = &v[..];
    assert_eq!(u64::from_slice(&mut cursor), None);
    assert_eq!(cursor, &v[..]);
    assert_eq!(<[u8; 32]>::from_slice(&mut cursor), None);
    assert_eq!(cursor, &v[..]);
    assert_eq!(H512::from_slice(&mut cursor), None);
    assert_eq!(cursor, &v[..]);
}
