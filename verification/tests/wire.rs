use adobe::wire::{decode, encode_repay, push_be_u64, push_le_u64, read_be_u64, read_le_u64, Payload, REPAY_OPCODE};

#[test]
fn the_repay_opcode_is_written_most_significant_byte_first() {
    let mut out = Vec::new();
    push_be_u64(&mut out, REPAY_OPCODE);
    assert_eq!(out, vec![0xea, 0x67, 0x43, 0x52, 0xd0, 0xea, 0xdb, 0xa6]);
    assert_eq!(read_be_u64(&out, 0), Some(REPAY_OPCODE));
    assert_eq!(read_le_u64(&out, 0), Some(0xa6dbead0524367ea));
}

#[test]
fn an_amount_is_written_least_significant_byte_first() {
    let mut out = vec![7u8];
    push_le_u64(&mut out, 1_000_000);
    assert_eq!(out, vec![7, 0x40, 0x42, 0x0f, 0, 0, 0, 0, 0]);
    assert_eq!(read_le_u64(&out, 1), Some(1_000_000));
    assert_eq!(read_le_u64(&out, 2), None);
    assert_eq!(read_be_u64(&out, 1), Some(0x40420f0000000000));
}

#[test]
fn reading_past_the_end_gives_nothing() {
    let data = [1u8, 2, 3, 4, 5, 6, 7];
    assert_eq!(read_be_u64(&data, 0), None);
    assert_eq!(read_le_u64(&data, 0), None);
    assert_eq!(read_be_u64(&[], usize::MAX), None);
    assert_eq!(read_le_u64(&[0u8; 8], 1), None);
    assert_eq!(read_le_u64(&[0xffu8; 8], 0), Some(u64::MAX));
    assert_eq!(read_be_u64(&[0xffu8; 8], 0), Some(u64::MAX));
}

#[test]
fn an_encoded_repay_decodes_to_itself() {
    for amount in [0u64, 1, 255, 256, 1_000_000, u64::MAX] {
        let data = encode_repay(amount);
        assert_eq!(data.len(), 16);
        assert_eq!(&data[..8], &REPAY_OPCODE.to_be_bytes());
        assert_eq!(&data[8..], &amount.to_le_bytes());
        assert_eq!(decode(&data), Payload::Repay { amount });
    }
}

#[test]
fn a_payload_is_read_by_its_first_sixteen_bytes() {
    let mut data = encode_repay(42);
    data.extend_from_slice(&[9, 9, 9]);
    assert_eq!(decode(&data), Payload::Repay { amount: 42 });
    assert_eq!(decode(&data[..15]), Payload::Truncated);
    assert_eq!(decode(&data[..8]), Payload::Truncated);
    assert_eq!(decode(&data[..7]), Payload::Other);
    assert_eq!(decode(&[]), Payload::Other);
    data[0] ^= 1;
    assert_eq!(decode(&data), Payload::Other);
}
