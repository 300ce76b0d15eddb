use synapse_core::codec::decode_records;
use synapse_core::commit::{caller_result, AppendError, CommitCycle, CommitOutcome};
use synapse_core::mailbox::{Mailbox, SendOutcome};
use synapse_core::record::{AgentState, AgentStatus, OpLog};
use synapse_core::wal::{run_commit_cycle, DurableLog};

fn record(id: u8, tx: u64, ts: i64, status: AgentStatus, ps: u32) -> OpLog {
    OpLog {
        agent_id: [id; 16],
        state: AgentState { transaction_id: tx, timestamp: ts, status, memory_offset: 0 },
        payload_size: ps,
    }
}

#[test]
fn idle_mailbox_commits_nothing() {
    let mut mb = Mailbox::new(8);
    let mut log = DurableLog::new();
    assert_eq!(run_commit_cycle(&mut mb, &mut log, true, true), None);
    assert!(log.bytes().is_empty());
}

#[test]
fn group_commit_batches_all_pending() {
    let mut mb = Mailbox::new(8);
    let mut log = DurableLog::new();
    for tx in 1..=3u64 {
        assert_eq!(mb.send(record(1, tx, 100, AgentStatus::Reasoning, 8)), SendOutcome::Enqueued);
    }
    // One turn of the worker drains and commits all three records as
    // one contiguous block: one write, one sync, not three.
    let outcome = run_commit_cycle(&mut mb, &mut log, true, true);
    assert_eq!(outcome, Some(CommitOutcome::Durable));
    assert_eq!(mb.len(), 0);
    let replayed = decode_records(log.bytes()).expect("log re-parses");
    let ids: Vec<u64> = replayed.iter().map(|r| r.state.transaction_id).collect();
    assert_eq!(ids, vec![1, 2, 3]);
}

#[test]
fn sync_fault_gives_no_acknowledgment() {
    let mut mb = Mailbox::new(8);
    let mut log = DurableLog::new();
    assert_eq!(mb.send(record(1, 1, 5, AgentStatus::Idle, 0)), SendOutcome::Enqueued);
    let outcome = run_commit_cycle(&mut mb, &mut log, true, false);
    assert_eq!(outcome, Some(CommitOutcome::SyncFault));
    // The caller sees the fault, never a false success.
    assert_eq!(caller_result(CommitOutcome::SyncFault), Err(AppendError::SyncFault));
}

#[test]
fn write_fault_leaves_file_untouched() {
    let mut mb = Mailbox::new(8);
    let mut log = DurableLog::new();
    assert_eq!(mb.send(record(1, 1, 5, AgentStatus::Idle, 0)), SendOutcome::Enqueued);
    let outcome = run_commit_cycle(&mut mb, &mut log, false, true);
    assert_eq!(outcome, Some(CommitOutcome::WriteFault));
    assert!(log.bytes().is_empty());
    assert_eq!(caller_result(CommitOutcome::WriteFault), Err(AppendError::WriteFault));
}

#[test]
fn caller_sees_success_only_when_durable() {
    assert_eq!(caller_result(CommitOutcome::Durable), Ok(()));
    assert_eq!(caller_result(CommitOutcome::SyncFault), Err(AppendError::SyncFault));
    assert_eq!(caller_result(CommitOutcome::WriteFault), Err(AppendError::WriteFault));
}

#[test]
fn order_within_one_cycle_is_kept() {
    let mut mb = Mailbox::new(8);
    let mut log = DurableLog::new();
    let r1 = record(1, 10, 1, AgentStatus::Idle, 1);
    let r2 = record(2, 20, 2, AgentStatus::Reasoning, 2);
    let r3 = record(3, 30, 3, AgentStatus::Halted, 3);
    mb.send(r1);
    mb.send(r2);
    mb.send(r3);
    // The worker seeds the cycle with the first record and drains the
    // rest, exactly as run_commit_cycle does, spelled out step by
    // step.
    let first = mb.receive_first().expect("a record is queued");
    let mut cycle = CommitCycle::begin(first);
    cycle.drain_pending(&mut mb);
    assert_eq!(cycle.len(), 3);
    let outcome = log.commit(cycle, true, true);
    assert_eq!(outcome, CommitOutcome::Durable);
    let replayed = decode_records(log.bytes()).expect("log re-parses");
    assert_eq!(replayed, vec![r1, r2, r3]);
}

#[test]
fn two_concurrent_appends_scenario() {
    // Two callers race to append; the worker observes some order,
    // commits both in one cycle, and the re-read file yields exactly
    // those two records with every field intact.
    let mut mb = Mailbox::new(100_000);
    let mut log = DurableLog::new();
    let a = OpLog {
        agent_id: [1; 16],
        state: AgentState {
            transaction_id: 1,
            timestamp: 1000,
            status: AgentStatus::Reasoning,
            memory_offset: 0,
        },
        payload_size: 42,
    };
    let b = OpLog {
        agent_id: [1; 16],
        state: AgentState {
            transaction_id: 2,
            timestamp: 1000,
            status: AgentStatus::ToolExecution,
            memory_offset: 0,
        },
        payload_size: 7,
    };
    assert_eq!(mb.send(a), SendOutcome::Enqueued);
    assert_eq!(mb.send(b), SendOutcome::Enqueued);
    let outcome = run_commit_cycle(&mut mb, &mut log, true, true);
    assert_eq!(outcome, Some(CommitOutcome::Durable));
    let replayed = decode_records(log.bytes()).expect("log re-parses");
    assert_eq!(replayed.len(), 2);
    let ids: Vec<u64> = replayed.iter().map(|r| r.state.transaction_id).collect();
    assert!(ids == vec![1, 2] || ids == vec![2, 1]);
    for r in &replayed {
        if r.state.transaction_id == 1 {
            assert_eq!(*r, a);
        } else {
            assert_eq!(*r, b);
        }
    }
}

#[test]
fn durability_across_cycles() {
    let mut mb = Mailbox::new(8);
    let mut log = DurableLog::new();
    mb.send(record(1, 1, 10, AgentStatus::Idle, 0));
    assert_eq!(run_commit_cycle(&mut mb, &mut log, true, true), Some(CommitOutcome::Durable));
    // A later cycle whose sync fails still leaves every earlier
    // acknowledged record in the file.
    mb.send(record(2, 2, 20, AgentStatus::Reasoning, 0));
    assert_eq!(run_commit_cycle(&mut mb, &mut log, true, false), Some(CommitOutcome::SyncFault));
    mb.send(record(3, 3, 30, AgentStatus::Halted, 0));
    assert_eq!(run_commit_cycle(&mut mb, &mut log, true, true), Some(CommitOutcome::Durable));
    let replayed = decode_records(log.bytes()).expect("log re-parses");
    let ids: Vec<u64> = replayed.iter().map(|r| r.state.transaction_id).collect();
    // The acknowledged records 1 and 3 are both present, in order,
    // exactly once, among everything the file holds.
    assert_eq!(ids, vec![1, 2, 3]);
}
