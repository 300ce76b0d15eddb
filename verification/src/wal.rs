//! The durable log: a model of the append-only file the worker owns,
//! together with the ghost history of what was written and what was
//! acknowledged. Its invariant is the heart of the engine: a caller
//! is acknowledged only for a record that a successfully written and
//! synced batch carried, so re-parsing the file always yields every
//! acknowledged record, in order, exactly once.

use vstd::prelude::*;
use crate::record::OpLogModel;
use crate::codec::{records_bytes, parse_records, lemma_records_round_trip};
use crate::commit::{CommitCycle, CommitOutcome, commit_outcome, lemma_cycle_records_wf};
use crate::mailbox::Mailbox;
use crate::subseq::{subseq_of, lemma_subseq_extend_right, lemma_subseq_append_both};

verus! {

/// The worker-owned log file and the ghost history of the commit
/// protocol.
pub struct DurableLog {
    file: Vec<u8>,
    durable: Ghost<Seq<OpLogModel>>,
    acked: Ghost<Seq<OpLogModel>>,
    writes: Ghost<int>,
    syncs: Ghost<int>,
}

impl DurableLog {
    /// The bytes the file holds.
    pub closed spec fn contents(self) -> Seq<u8> {
        self.file@
    }

    /// The records written to the file, oldest first.
    pub closed spec fn durable_records(self) -> Seq<OpLogModel> {
        self.durable@
    }

    /// The records whose callers have been told `Durable`, in
    /// acknowledgment order.
    pub closed spec fn acked_records(self) -> Seq<OpLogModel> {
        self.acked@
    }

    /// How many file writes the worker has issued.
    pub closed spec fn write_count(self) -> int {
        self.writes@
    }

    /// How many syncs to stable storage the worker has issued.
    pub closed spec fn sync_count(self) -> int {
        self.syncs@
    }

    /// The commit protocol's invariant: the file is exactly the wire
    /// image of the durable records, every durable record is well
    /// formed, and the acknowledged records embed into the durable
    /// ones in order, each acknowledgment matched to its own record.
    pub closed spec fn inv(self) -> bool {
        &&& self.file@ == records_bytes(self.durable@)
        &&& forall|i: int| 0 <= i < self.durable@.len() ==> (#[trigger] self.durable@[i]).wf()
        &&& subseq_of(self.acked@, self.durable@)
    }

    /// An empty log: nothing written, nothing acknowledged.
    pub fn new() -> (l: DurableLog)
        ensures
            l.inv(),
            l.contents() == Seq::<u8>::empty(),
            l.durable_records() == Seq::<OpLogModel>::empty(),
            l.acked_records() == Seq::<OpLogModel>::empty(),
            l.write_count() == 0,
            l.sync_count() == 0,
    {
        DurableLog {
            file: Vec::new(),
            durable: Ghost(Seq::empty()),
            acked: Ghost(Seq::empty()),
            writes: Ghost(0),
            syncs: Ghost(0),
        }
    }

    /// The file's bytes, as a re-opening reader would see them.
    pub fn bytes(&self) -> (b: &Vec<u8>)
        ensures
            b@ == self.contents(),
    {
        &self.file
    }

    /// One commit: serializes the cycle's batch into a single
    /// contiguous block, issues exactly one write and — only after a
    /// successful write — exactly one sync, and acknowledges every
    /// caller in the batch exactly when both succeeded. `write_ok`
    /// and `sync_ok` are the storage's verdicts on those two
    /// operations. However many records the batch carries, the cycle
    /// never costs more than one write and one sync.
    pub fn commit(&mut self, cycle: CommitCycle, write_ok: bool, sync_ok: bool) -> (o:
        CommitOutcome)
        requires
            old(self).inv(),
        ensures
            final(self).inv(),
            o == CommitOutcome::Durable <==> write_ok && sync_ok,
            o == CommitOutcome::WriteFault <==> !write_ok,
            o == CommitOutcome::SyncFault <==> write_ok && !sync_ok,
            final(self).write_count() == old(self).write_count() + 1,
            final(self).sync_count() == old(self).sync_count() + if write_ok {
                1int
            } else {
                0int
            },
            write_ok ==> final(self).durable_records() == old(self).durable_records()
                + cycle.records() && final(self).contents() == old(self).contents()
                + records_bytes(cycle.records()),
            !write_ok ==> final(self).durable_records() == old(self).durable_records()
                && final(self).contents() == old(self).contents(),
            o == CommitOutcome::Durable ==> final(self).acked_records()
                == old(self).acked_records() + cycle.records(),
            o != CommitOutcome::Durable ==> final(self).acked_records()
                == old(self).acked_records(),
    {
        let ghost recs = cycle.records();
        proof {
            lemma_cycle_records_wf(cycle);
        }
        let mut block = cycle.serialize();
        self.writes = Ghost(self.writes@ + 1);
        if write_ok {
            self.file.append(&mut block);
            proof {
                crate::codec::lemma_records_bytes_concat(self.durable@, recs);
            }
            self.durable = Ghost(self.durable@ + recs);
            self.syncs = Ghost(self.syncs@ + 1);
            if sync_ok {
                proof {
                    lemma_subseq_append_both(self.acked@, old(self).durable@, recs);
                }
                self.acked = Ghost(self.acked@ + recs);
            } else {
                proof {
                    lemma_subseq_extend_right(self.acked@, old(self).durable@, recs);
                }
            }
        }
        commit_outcome(write_ok, sync_ok)
    }
}

/// Durability, stated of any state the protocol can reach: re-opening
/// and parsing the file yields exactly the durably written records,
/// and the acknowledged records embed among them in order, each
/// acknowledgment to its own record — present, in full, exactly once.
pub proof fn lemma_durability(l: DurableLog)
    requires
        l.inv(),
    ensures
        parse_records(l.contents()) == Some(l.durable_records()),
        subseq_of(l.acked_records(), l.durable_records()),
{
    lemma_records_round_trip(l.durable_records());
}

/// One full turn of the group-commit worker against a mailbox: blocks
/// for the first record (here: takes it, or reports the mailbox idle),
/// drains every record queued behind it in enqueue order, and commits
/// the whole batch as one block. The worker observes the queue's
/// order and the file receives exactly that order.
pub fn run_commit_cycle(mailbox: &mut Mailbox, log: &mut DurableLog, write_ok: bool, sync_ok: bool)
    -> (o: Option<CommitOutcome>)
    requires
        old(mailbox).wf(),
        old(log).inv(),
    ensures
        final(mailbox).wf(),
        final(log).inv(),
        final(mailbox).cap() == old(mailbox).cap(),
        final(mailbox).is_closed() == old(mailbox).is_closed(),
        old(mailbox).queue().len() == 0 ==> o is None && *final(log) == *old(log)
            && final(mailbox).queue() == old(mailbox).queue(),
        old(mailbox).queue().len() > 0 ==> {
            &&& final(mailbox).queue() == Seq::<OpLogModel>::empty()
            &&& o == Some(
                if write_ok && sync_ok {
                    CommitOutcome::Durable
                } else if !write_ok {
                    CommitOutcome::WriteFault
                } else {
                    CommitOutcome::SyncFault
                },
            )
            &&& final(log).write_count() == old(log).write_count() + 1
            &&& final(log).sync_count() == old(log).sync_count() + if write_ok {
                1int
            } else {
                0int
            }
            &&& write_ok ==> final(log).contents() == old(log).contents() + records_bytes(
                old(mailbox).queue(),
            )
            &&& write_ok ==> final(log).durable_records() == old(log).durable_records()
                + old(mailbox).queue()
            &&& !write_ok ==> final(log).contents() == old(log).contents()
            &&& (write_ok && sync_ok) ==> final(log).acked_records() == old(log).acked_records()
                + old(mailbox).queue()
            &&& !(write_ok && sync_ok) ==> final(log).acked_records() == old(log).acked_records()
        },
{
    match mailbox.receive_first() {
        None => None,
        Some(first) => {
            let mut cycle = CommitCycle::begin(first);
            cycle.drain_pending(mailbox);
            proof {
                assert(cycle.records() =~= old(mailbox).queue());
            }
            let o = log.commit(cycle, write_ok, sync_ok);
            Some(o)
        },
    }
}

} // verus!
