//! The wire codec: the fixed, version-stable binary layout of a record
//! sequence, with executable encode and decode and the round-trip and
//! concatenation lemmas that make replay of the log file exact.
//!
//! Each record occupies exactly 41 bytes, in field order: `agent_id`
//! as 16 raw bytes, `transaction_id` as 8 little-endian bytes,
//! `timestamp` as 8 little-endian bytes of its two's-complement image,
//! `status` as a 1-byte discriminant, `memory_offset` and
//! `payload_size` as 4 little-endian bytes each. A file is a flat
//! concatenation of records: batch boundaries leave no mark, and the
//! record count is inferable from the length.

use vstd::prelude::*;
use vstd::bytes::{
    spec_u64_to_le_bytes, spec_u64_from_le_bytes, spec_u32_to_le_bytes, spec_u32_from_le_bytes,
    lemma_auto_spec_u64_to_from_le_bytes, lemma_auto_spec_u32_to_from_le_bytes, u64_to_le_bytes,
    u64_from_le_bytes, u32_to_le_bytes, u32_from_le_bytes,
};
use vstd::slice::slice_subrange;
use crate::record::{
    OpLog, OpLogModel, AgentState, status_byte, status_of_byte, encode_status, decode_status,
    views, lemma_op_log_view_wf,
};

verus! {

/// Number of bytes one record occupies on the wire.
pub const RECORD_SIZE: usize = 41;

/// The wire image of one record.
pub open spec fn record_bytes(r: OpLogModel) -> Seq<u8> {
    r.agent_id + spec_u64_to_le_bytes(r.transaction_id) + spec_u64_to_le_bytes(r.timestamp as u64)
        + seq![status_byte(r.status)] + spec_u32_to_le_bytes(r.memory_offset)
        + spec_u32_to_le_bytes(r.payload_size)
}

/// The wire image of an ordered record sequence: the flat
/// concatenation of the records' images, in order.
pub open spec fn records_bytes(rs: Seq<OpLogModel>) -> Seq<u8>
    decreases rs.len(),
{
    if rs.len() == 0 {
        Seq::empty()
    } else {
        record_bytes(rs[0]) + records_bytes(rs.skip(1))
    }
}

/// The record a 41-byte chunk denotes, or `None` if its status byte
/// denotes no status.
pub open spec fn parse_record(b: Seq<u8>) -> Option<OpLogModel>
    recommends
        b.len() == RECORD_SIZE,
{
    match status_of_byte(b[32]) {
        None => None,
        Some(st) => Some(
            OpLogModel {
                agent_id: b.subrange(0, 16),
                transaction_id: spec_u64_from_le_bytes(b.subrange(16, 24)),
                timestamp: spec_u64_from_le_bytes(b.subrange(24, 32)) as i64,
                status: st,
                memory_offset: spec_u32_from_le_bytes(b.subrange(33, 37)),
                payload_size: spec_u32_from_le_bytes(b.subrange(37, 41)),
            },
        ),
    }
}

/// The record sequence a byte stream denotes: 41-byte chunks parsed in
/// order. `None` if the length is no multiple of 41 or some chunk's
/// status byte denotes no status.
pub open spec fn parse_records(b: Seq<u8>) -> Option<Seq<OpLogModel>>
    decreases b.len(),
{
    if b.len() == 0 {
        Some(Seq::empty())
    } else if b.len() < RECORD_SIZE {
        None
    } else {
        match parse_record(b.subrange(0, RECORD_SIZE as int)) {
            None => None,
            Some(r) => match parse_records(b.skip(RECORD_SIZE as int)) {
                None => None,
                Some(rest) => Some(seq![r] + rest),
            },
        }
    }
}

/// Round trip through the two's-complement image of a signed 64-bit
/// value.
proof fn lemma_i64_u64_round_trip(x: i64)
    ensures
        (x as u64) as i64 == x,
{
    assert((x as u64) as i64 == x) by (bit_vector);
}

/// Parsing the wire image of a well-formed record yields exactly that
/// record.
pub proof fn lemma_record_round_trip(r: OpLogModel)
    requires
        r.wf(),
    ensures
        record_bytes(r).len() == RECORD_SIZE,
        parse_record(record_bytes(r)) == Some(r),
{
    lemma_auto_spec_u64_to_from_le_bytes();
    lemma_auto_spec_u32_to_from_le_bytes();
    let b = record_bytes(r);
    assert(b.subrange(0, 16) =~= r.agent_id);
    assert(b.subrange(16, 24) =~= spec_u64_to_le_bytes(r.transaction_id));
    assert(b.subrange(24, 32) =~= spec_u64_to_le_bytes(r.timestamp as u64));
    assert(b[32] == status_byte(r.status));
    assert(b.subrange(33, 37) =~= spec_u32_to_le_bytes(r.memory_offset));
    assert(b.subrange(37, 41) =~= spec_u32_to_le_bytes(r.payload_size));
    assert(status_of_byte(status_byte(r.status)) == Some(r.status));
    lemma_i64_u64_round_trip(r.timestamp);
    assert(parse_record(record_bytes(r)) == Some(r));
}

/// Parsing the wire image of a sequence of well-formed records yields
/// exactly that sequence: every record present, in full, in order,
/// exactly once.
pub proof fn lemma_records_round_trip(rs: Seq<OpLogModel>)
    requires
        forall|i: int| 0 <= i < rs.len() ==> (#[trigger] rs[i]).wf(),
    ensures
        records_bytes(rs).len() == RECORD_SIZE * rs.len(),
        parse_records(records_bytes(rs)) == Some(rs),
    decreases rs.len(),
{
    if rs.len() == 0 {
    } else {
        let head = rs[0];
        let tail = rs.skip(1);
        lemma_record_round_trip(head);
        lemma_records_round_trip(tail);
        let b = records_bytes(rs);
        assert(b == record_bytes(head) + records_bytes(tail));
        assert(b.len() == RECORD_SIZE + RECORD_SIZE * tail.len());
        assert(RECORD_SIZE + RECORD_SIZE * (rs.len() - 1) == RECORD_SIZE * rs.len()) by (nonlinear_arith);
        assert(b.subrange(0, RECORD_SIZE as int) =~= record_bytes(head));
        assert(b.skip(RECORD_SIZE as int) =~= records_bytes(tail));
        assert(seq![head] + tail =~= rs);
    }
}

/// The wire image of a concatenation is the concatenation of the wire
/// images: a file appended to cycle by cycle reads back as one flat
/// record sequence, regardless of which cycle wrote which record.
pub proof fn lemma_records_bytes_concat(xs: Seq<OpLogModel>, ys: Seq<OpLogModel>)
    ensures
        records_bytes(xs + ys) == records_bytes(xs) + records_bytes(ys),
    decreases xs.len(),
{
    if xs.len() == 0 {
        assert(xs + ys =~= ys);
        assert(records_bytes(xs) + records_bytes(ys) =~= records_bytes(ys));
    } else {
        lemma_records_bytes_concat(xs.skip(1), ys);
        assert((xs + ys).skip(1) =~= xs.skip(1) + ys);
        assert((xs + ys)[0] == xs[0]);
        assert(records_bytes(xs + ys) == record_bytes(xs[0]) + (records_bytes(xs.skip(1))
            + records_bytes(ys)));
        assert(record_bytes(xs[0]) + (records_bytes(xs.skip(1)) + records_bytes(ys))
            =~= (record_bytes(xs[0]) + records_bytes(xs.skip(1))) + records_bytes(ys));
    }
}

/// Replay across cycles: a file holding earlier cycles' records,
/// extended by one more committed batch, parses back to exactly the
/// earlier records followed by the batch — each record in the order
/// the worker observed it, none lost, none duplicated, no batch
/// boundary visible.
pub proof fn lemma_replay_across_cycles(earlier: Seq<OpLogModel>, batch: Seq<OpLogModel>)
    requires
        forall|i: int| 0 <= i < earlier.len() ==> (#[trigger] earlier[i]).wf(),
        forall|i: int| 0 <= i < batch.len() ==> (#[trigger] batch[i]).wf(),
    ensures
        parse_records(records_bytes(earlier) + records_bytes(batch)) == Some(earlier + batch),
{
    lemma_records_bytes_concat(earlier, batch);
    assert(forall|i: int|
        0 <= i < (earlier + batch).len() ==> (#[trigger] (earlier + batch)[i]).wf());
    lemma_records_round_trip(earlier + batch);
}

/// Encodes one record into its 41-byte wire image.
pub fn encode_record(r: &OpLog) -> (out: Vec<u8>)
    ensures
        out@ == record_bytes(r@),
        out@.len() == RECORD_SIZE,
{
    proof {
        lemma_op_log_view_wf(*r);
        lemma_auto_spec_u64_to_from_le_bytes();
        lemma_auto_spec_u32_to_from_le_bytes();
    }
    let mut out: Vec<u8> = Vec::new();
    let mut i: usize = 0;
    while i < 16
        invariant
            i <= 16,
            out@ == r.agent_id@.subrange(0, i as int),
        decreases 16 - i,
    {
        out.push(r.agent_id[i]);
        assert(out@ =~= r.agent_id@.subrange(0, i + 1));
        i += 1;
    }
    assert(out@ =~= r.agent_id@);
    let mut tx = u64_to_le_bytes(r.state.transaction_id);
    out.append(&mut tx);
    let mut ts = u64_to_le_bytes(r.state.timestamp as u64);
    out.append(&mut ts);
    out.push(encode_status(r.state.status));
    let mut mo = u32_to_le_bytes(r.state.memory_offset);
    out.append(&mut mo);
    let mut ps = u32_to_le_bytes(r.payload_size);
    out.append(&mut ps);
    assert(out@ =~= record_bytes(r@));
    out
}

/// Why a byte stream denotes no record sequence.
#[derive(Clone, Copy, Debug, PartialEq, Eq, Structural)]
pub enum DecodeError {
    /// The length is no whole number of 41-byte records.
    BadLength,
    /// Some record's status byte denotes no status.
    InvalidStatus,
}

/// Decodes the 41-byte record starting at `off`.
fn decode_record_at(bytes: &[u8], off: usize) -> (r: Result<OpLog, DecodeError>)
    requires
        off + RECORD_SIZE <= bytes@.len(),
    ensures
        match r {
            Ok(rec) => parse_record(bytes@.subrange(off as int, off + RECORD_SIZE)) == Some(rec@),
            Err(e) => {
                &&& parse_record(bytes@.subrange(off as int, off + RECORD_SIZE)) is None
                &&& e == DecodeError::InvalidStatus
            },
        },
{
    let ghost chunk = bytes@.subrange(off as int, off + RECORD_SIZE);
    let total: usize = bytes.len();
    assert(off + RECORD_SIZE <= total);
    let id_slice = slice_subrange(bytes, off, off + 16);
    let agent_id: [u8; 16] = [
        *vstd::slice::slice_index_get(id_slice, 0),
        *vstd::slice::slice_index_get(id_slice, 1),
        *vstd::slice::slice_index_get(id_slice, 2),
        *vstd::slice::slice_index_get(id_slice, 3),
        *vstd::slice::slice_index_get(id_slice, 4),
        *vstd::slice::slice_index_get(id_slice, 5),
        *vstd::slice::slice_index_get(id_slice, 6),
        *vstd::slice::slice_index_get(id_slice, 7),
        *vstd::slice::slice_index_get(id_slice, 8),
        *vstd::slice::slice_index_get(id_slice, 9),
        *vstd::slice::slice_index_get(id_slice, 10),
        *vstd::slice::slice_index_get(id_slice, 11),
        *vstd::slice::slice_index_get(id_slice, 12),
        *vstd::slice::slice_index_get(id_slice, 13),
        *vstd::slice::slice_index_get(id_slice, 14),
        *vstd::slice::slice_index_get(id_slice, 15),
    ];
    assert(agent_id@ =~= chunk.subrange(0, 16));
    let tx = u64_from_le_bytes(slice_subrange(bytes, off + 16, off + 24));
    assert(bytes@.subrange(off + 16, off + 24) =~= chunk.subrange(16, 24));
    let ts_image = u64_from_le_bytes(slice_subrange(bytes, off + 24, off + 32));
    assert(bytes@.subrange(off + 24, off + 32) =~= chunk.subrange(24, 32));
    let status_b = *vstd::slice::slice_index_get(bytes, off + 32);
    assert(status_b == chunk[32]);
    let mo = u32_from_le_bytes(slice_subrange(bytes, off + 33, off + 37));
    assert(bytes@.subrange(off + 33, off + 37) =~= chunk.subrange(33, 37));
    let ps = u32_from_le_bytes(slice_subrange(bytes, off + 37, off + 41));
    assert(bytes@.subrange(off + 37, off + 41) =~= chunk.subrange(37, 41));
    match decode_status(status_b) {
        None => Err(DecodeError::InvalidStatus),
        Some(st) => {
            let rec = OpLog {
                agent_id,
                state: AgentState {
                    transaction_id: tx,
                    timestamp: #[verifier::truncate] (ts_image as i64),
                    status: st,
                    memory_offset: mo,
                },
                payload_size: ps,
            };
            assert(rec@ =~= parse_record(chunk).unwrap());
            Ok(rec)
        },
    }
}

/// Decodes a byte stream back into the record sequence it denotes.
/// Returns `Ok` exactly on streams some record sequence encodes to;
/// `BadLength` exactly when the length is no multiple of 41, and
/// `InvalidStatus` when the length divides evenly but some record's
/// status byte denotes no status.
pub fn decode_records(bytes: &[u8]) -> (r: Result<Vec<OpLog>, DecodeError>)
    ensures
        match r {
            Ok(v) => parse_records(bytes@) == Some(views(v@)),
            Err(e) => {
                &&& parse_records(bytes@) is None
                &&& (e == DecodeError::BadLength <==> (bytes@.len() as int) % (RECORD_SIZE as int) != 0)
            },
        },
{
    let n = bytes.len();
    if n % RECORD_SIZE != 0 {
        proof {
            lemma_parse_bad_length(bytes@);
        }
        return Err(DecodeError::BadLength);
    }
    let mut out: Vec<OpLog> = Vec::new();
    let mut off: usize = 0;
    proof {
        assert(bytes@.skip(0) =~= bytes@);
        if parse_records(bytes@) is Some {
            assert(views(out@) + parse_records(bytes@).unwrap() =~= parse_records(
                bytes@,
            ).unwrap());
        }
    }
    while off < n
        invariant
            off <= n,
            n == bytes@.len(),
            off % RECORD_SIZE == 0,
            n % RECORD_SIZE == 0,
            parse_records(bytes@) == parse_then_prepend(views(out@), bytes@.skip(off as int)),
        decreases n - off,
    {
        let ghost tail = bytes@.skip(off as int);
        assert(tail.len() == n - off);
        assert(tail.len() >= RECORD_SIZE) by {
            assert(n - off > 0);
            assert((n - off) % (RECORD_SIZE as int) == 0) by (nonlinear_arith)
                requires
                    (n as int) % (RECORD_SIZE as int) == 0,
                    (off as int) % (RECORD_SIZE as int) == 0,
                    n >= off,
            ;
            assert(n - off >= RECORD_SIZE) by (nonlinear_arith)
                requires
                    (n - off) % (RECORD_SIZE as int) == 0,
                    n - off > 0,
            ;
        }
        proof {
            assert(tail.subrange(0, RECORD_SIZE as int) =~= bytes@.subrange(
                off as int,
                off + RECORD_SIZE,
            ));
            assert(tail.skip(RECORD_SIZE as int) =~= bytes@.skip(off + RECORD_SIZE));
        }
        match decode_record_at(bytes, off) {
            Err(e) => {
                proof {
                    assert(parse_records(tail) is None);
                }
                return Err(e);
            },
            Ok(rec) => {
                let ghost old_views = views(out@);
                out.push(rec);
                proof {
                    assert(views(out@) =~= old_views.push(rec@));
                    let next = bytes@.skip(off + RECORD_SIZE);
                    if parse_records(next) is Some {
                        let rest2 = parse_records(next).unwrap();
                        assert(parse_records(tail) == Some(seq![rec@] + rest2));
                        assert(old_views + (seq![rec@] + rest2) =~= views(out@) + rest2);
                    } else {
                        assert(parse_records(tail) is None);
                    }
                }
                off = off + RECORD_SIZE;
            },
        }
    }
    proof {
        assert(bytes@.skip(off as int) =~= Seq::<u8>::empty());
        assert(parse_records(bytes@.skip(off as int)) == Some(Seq::<OpLogModel>::empty()));
        assert(views(out@) + Seq::<OpLogModel>::empty() =~= views(out@));
    }
    Ok(out)
}

/// The records a whole stream denotes, given the records already
/// decoded ahead of a suffix: `None` propagates, and on success the
/// decoded prefix stands in front.
pub open spec fn parse_then_prepend(pre: Seq<OpLogModel>, b: Seq<u8>) -> Option<Seq<OpLogModel>> {
    match parse_records(b) {
        None => None,
        Some(rest) => Some(pre + rest),
    }
}

/// A stream whose length is no multiple of 41 denotes no record
/// sequence.
proof fn lemma_parse_bad_length(b: Seq<u8>)
    requires
        (b.len() as int) % (RECORD_SIZE as int) != 0,
    ensures
        parse_records(b) is None,
    decreases b.len(),
{
    if b.len() == 0 {
    } else if b.len() < RECORD_SIZE {
    } else {
        assert(b.skip(RECORD_SIZE as int).len() == b.len() - RECORD_SIZE);
        assert((b.len() - RECORD_SIZE) % (RECORD_SIZE as int) != 0) by (nonlinear_arith)
            requires
                (b.len() as int) % (RECORD_SIZE as int) != 0,
                b.len() >= RECORD_SIZE,
        ;
        lemma_parse_bad_length(b.skip(RECORD_SIZE as int));
    }
}

} // verus!
