use snake::packet::{declared_payload_len, Opcode, Packet, HEADER_SIZE};

fn packet_with(opcode: Opcode, payload: &[u8]) -> Packet {
    let mut p = Packet::new(opcode, payload.len());
    p.push_data(payload);
    p
}

#[test]
fn round_trip_sync() {
    let payload = [0, 0, 0, 0, 0, 0, 0, 9];
    let p = packet_with(Opcode::Sync, &payload);
    let decoded = Packet::decode(&p.encode()).unwrap();
    assert_eq!(decoded.opcode(), Opcode::Sync);
    assert_eq!(decoded.data().as_slice(), &payload);
}

#[test]
fn round_trip_new_direction() {
    let payload = [2];
    let p = packet_with(Opcode::NewDirection, &payload);
    let decoded = Packet::decode(&p.encode()).unwrap();
    assert_eq!(decoded.opcode(), Opcode::NewDirection);
    assert_eq!(decoded.data().as_slice(), &payload);
}

#[test]
fn round_trip_new_target() {
    let payload = [5, 6];
    let p = packet_with(Opcode::NewTarget, &payload);
    let decoded = Packet::decode(&p.encode()).unwrap();
    assert_eq!(decoded.opcode(), Opcode::NewTarget);
    assert_eq!(decoded.data().as_slice(), &payload);
}

#[test]
fn encode_exact_bytes() {
    let p = packet_with(Opcode::Sync, &[0, 0, 0, 0, 0, 0, 0, 1]);
    let encoded = p.encode();
    let expected: Vec<u8> = vec![
        0xae, 0xfd, 0xb8, 0x7f, 0xe7, 0x53, 0xba, 0x07, // magic
        0x00, 0x01, // opcode
        0x00, 0x08, // payload length
        0, 0, 0, 0, 0, 0, 0, 1, // payload
    ];
    assert_eq!(encoded, expected);
}

#[test]
fn decode_rejects_short_buffer() {
    assert!(Packet::decode(&[]).is_none());
    assert!(Packet::decode(&[0xae]).is_none());
    let p = packet_with(Opcode::NewDirection, &[1]);
    let encoded = p.encode();
    assert!(Packet::decode(&encoded[..HEADER_SIZE - 1]).is_none());
}

#[test]
fn decode_rejects_wrong_magic() {
    let p = packet_with(Opcode::NewDirection, &[1]);
    let mut encoded = p.encode();
    encoded[0] ^= 0xff;
    assert!(Packet::decode(&encoded).is_none());
    let mut encoded = p.encode();
    encoded[7] = encoded[7].wrapping_add(1);
    assert!(Packet::decode(&encoded).is_none());
}

#[test]
fn decode_rejects_unknown_opcode() {
    let p = packet_with(Opcode::NewTarget, &[4, 4]);
    let mut encoded = p.encode();
    encoded[9] = 0x00;
    assert!(Packet::decode(&encoded).is_none());
    let mut encoded = p.encode();
    encoded[9] = 0x04;
    assert!(Packet::decode(&encoded).is_none());
}

#[test]
fn decode_rejects_length_mismatch() {
    let p = packet_with(Opcode::NewTarget, &[4, 4]);
    let mut encoded = p.encode();
    encoded.push(0);
    assert!(Packet::decode(&encoded).is_none());
    let mut encoded = p.encode();
    encoded.pop();
    assert!(Packet::decode(&encoded).is_none());
    let mut encoded = p.encode();
    encoded[11] = 3;
    assert!(Packet::decode(&encoded).is_none());
}

#[test]
fn push_data_accumulates() {
    let mut p = Packet::new(Opcode::Sync, 8);
    p.push_data(&[1, 2, 3, 4]);
    p.push_data(&[5, 6, 7, 8]);
    assert_eq!(p.data().as_slice(), &[1, 2, 3, 4, 5, 6, 7, 8]);
    assert_eq!(p.opcode(), Opcode::Sync);
}

#[test]
fn header_declares_the_payload_length() {
    let p = packet_with(Opcode::Sync, &[9, 8, 7, 6, 5, 4, 3, 2]);
    let encoded = p.encode();
    assert_eq!(declared_payload_len(&encoded[..HEADER_SIZE]), 8);
    let p = Packet::new(Opcode::Sync, 0);
    assert_eq!(declared_payload_len(&p.encode()), 0);
}

#[test]
fn decode_accepts_empty_payload() {
    let p = Packet::new(Opcode::Sync, 0);
    let decoded = Packet::decode(&p.encode()).unwrap();
    assert_eq!(decoded.opcode(), Opcode::Sync);
    assert!(decoded.data().is_empty());
}
