use synapse_core::codec::{decode_records, encode_record, DecodeError, RECORD_SIZE};
use synapse_core::record::{decode_status, encode_status, AgentState, AgentStatus, OpLog};

fn record(id: u8, tx: u64, ts: i64, status: AgentStatus, mo: u32, ps: u32) -> OpLog {
    OpLog {
        agent_id: [id; 16],
        state: AgentState { transaction_id: tx, timestamp: ts, status, memory_offset: mo },
        payload_size: ps,
    }
}

#[test]
fn status_round_trip() {
    let all = [
        AgentStatus::Idle,
        AgentStatus::Reasoning,
        AgentStatus::ToolExecution,
        AgentStatus::Halted,
    ];
    for s in all {
        assert_eq!(decode_status(encode_status(s)), Some(s));
    }
    assert_eq!(encode_status(AgentStatus::Idle), 0);
    assert_eq!(encode_status(AgentStatus::Reasoning), 1);
    assert_eq!(encode_status(AgentStatus::ToolExecution), 2);
    assert_eq!(encode_status(AgentStatus::Halted), 3);
    assert_eq!(decode_status(4), None);
    assert_eq!(decode_status(255), None);
}

#[test]
fn encode_record_exact_layout() {
    let r = record(0xAB, 0x0102030405060708, 0x1112131415161718, AgentStatus::Halted, 0x21222324, 0x31323334);
    let bytes = encode_record(&r);
    assert_eq!(bytes.len(), RECORD_SIZE);
    let mut expected = vec![0xABu8; 16];
    expected.extend_from_slice(&[0x08, 0x07, 0x06, 0x05, 0x04, 0x03, 0x02, 0x01]);
    expected.extend_from_slice(&[0x18, 0x17, 0x16, 0x15, 0x14, 0x13, 0x12, 0x11]);
    expected.push(3);
    expected.extend_from_slice(&[0x24, 0x23, 0x22, 0x21]);
    expected.extend_from_slice(&[0x34, 0x33, 0x32, 0x31]);
    assert_eq!(bytes, expected);
}

#[test]
fn encode_negative_timestamp() {
    let r = record(1, 7, -1, AgentStatus::Idle, 0, 0);
    let bytes = encode_record(&r);
    assert_eq!(&bytes[24..32], &[0xFF; 8]);
    let back = decode_records(&bytes).expect("decodes");
    assert_eq!(back[0].state.timestamp, -1);
}

#[test]
fn decode_empty_stream() {
    let decoded = decode_records(&[]).expect("empty file holds no records");
    assert_eq!(decoded.len(), 0);
}

#[test]
fn decode_bad_length() {
    let bytes = vec![0u8; RECORD_SIZE - 1];
    assert_eq!(decode_records(&bytes), Err(DecodeError::BadLength));
    let bytes = vec![0u8; RECORD_SIZE + 1];
    assert_eq!(decode_records(&bytes), Err(DecodeError::BadLength));
}

#[test]
fn decode_invalid_status() {
    let r = record(2, 1, 10, AgentStatus::Idle, 0, 0);
    let mut bytes = encode_record(&r);
    bytes[32] = 7;
    assert_eq!(decode_records(&bytes), Err(DecodeError::InvalidStatus));
}

#[test]
fn round_trip_preserves_order_and_fields() {
    let rs = [
        record(1, 1, 1000, AgentStatus::Reasoning, 5, 42),
        record(2, 2, 1001, AgentStatus::ToolExecution, 6, 7),
        record(3, 3, -50, AgentStatus::Halted, 7, 0),
    ];
    let mut file = Vec::new();
    for r in &rs {
        file.extend_from_slice(&encode_record(r));
    }
    let decoded = decode_records(&file).expect("well-formed stream");
    assert_eq!(decoded.len(), 3);
    for (got, want) in decoded.iter().zip(rs.iter()) {
        assert_eq!(got, want);
    }
}

#[test]
fn flat_concatenation_of_batches() {
    let batch_one = [record(1, 1, 10, AgentStatus::Idle, 0, 1)];
    let batch_two = [
        record(2, 2, 20, AgentStatus::Reasoning, 1, 2),
        record(3, 3, 30, AgentStatus::Halted, 2, 3),
    ];
    let mut file = Vec::new();
    for r in batch_one.iter().chain(batch_two.iter()) {
        file.extend_from_slice(&encode_record(r));
    }
    let decoded = decode_records(&file).expect("well-formed stream");
    assert_eq!(decoded.len(), 3);
    assert_eq!(decoded[0].state.transaction_id, 1);
    assert_eq!(decoded[1].state.transaction_id, 2);
    assert_eq!(decoded[2].state.transaction_id, 3);
}
