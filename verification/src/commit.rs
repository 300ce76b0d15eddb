//! The group-commit cycle: the worker-owned batch built from one
//! blocking receive plus one non-blocking drain, serialized into a
//! single contiguous buffer, and resolved into exactly one outcome for
//! every caller whose record the batch holds.

use vstd::prelude::*;
use crate::record::{OpLog, OpLogModel, views};
use crate::codec::{records_bytes, encode_record, lemma_records_bytes_concat, RECORD_SIZE};
use crate::mailbox::Mailbox;

verus! {

/// How one commit cycle ended, for every caller in its batch alike.
#[derive(Clone, Copy, Debug, PartialEq, Eq, Structural)]
pub enum CommitOutcome {
    /// The batch was written and forced to stable storage: every
    /// record in it is durable.
    Durable,
    /// The file write failed: nothing of the batch may be taken as
    /// durable.
    WriteFault,
    /// The write landed in the OS buffer but forcing it to stable
    /// storage failed: no durability acknowledgment may be given.
    SyncFault,
}

/// What a caller of `append` may be told instead of success.
#[derive(Clone, Copy, Debug, PartialEq, Eq, Structural)]
pub enum AppendError {
    /// The mailbox is permanently closed; the record was never
    /// accepted.
    ChannelClosed,
    /// The worker went away before resolving the call; nothing is
    /// known of the record's durability.
    Aborted,
    /// The worker could not write the batch holding the record.
    WriteFault,
    /// The worker wrote the batch but could not force it to stable
    /// storage.
    SyncFault,
}

/// One commit cycle's batch: the ordered records collected during one
/// drain, exactly as the worker observed them.
pub struct CommitCycle {
    batch: Vec<OpLog>,
}

impl CommitCycle {
    /// The batch's records, in worker-observed order.
    pub closed spec fn records(self) -> Seq<OpLogModel> {
        views(self.batch@)
    }

    /// Seeds a cycle with the first record of the cycle, the one the
    /// worker blocked for.
    pub fn begin(first: OpLog) -> (c: CommitCycle)
        ensures
            c.records() == seq![first@],
    {
        let mut batch: Vec<OpLog> = Vec::new();
        batch.push(first);
        proof {
            assert(views(batch@) =~= seq![first@]);
        }
        CommitCycle { batch }
    }

    /// Absorbs one more record behind those already in the batch, in
    /// the order the worker observed it.
    pub fn absorb(&mut self, log: OpLog)
        ensures
            final(self).records() == old(self).records().push(log@),
    {
        self.batch.push(log);
        proof {
            assert(views(self.batch@) =~= old(self).records().push(log@));
        }
    }

    /// The group-commit window: absorbs every record still queued, in
    /// strict enqueue order, behind those already in the batch, and
    /// leaves the mailbox empty. The window closes by itself the
    /// moment the mailbox has nothing pending.
    pub fn drain_pending(&mut self, mailbox: &mut Mailbox)
        requires
            old(mailbox).wf(),
        ensures
            final(mailbox).wf(),
            final(mailbox).cap() == old(mailbox).cap(),
            final(mailbox).is_closed() == old(mailbox).is_closed(),
            final(mailbox).queue() == Seq::<OpLogModel>::empty(),
            final(self).records() == old(self).records() + old(mailbox).queue(),
    {
        let mut pending = mailbox.try_receive_all_pending();
        self.batch.append(&mut pending);
        proof {
            assert(views(self.batch@) =~= old(self).records() + old(mailbox).queue());
        }
    }

    /// How many records the batch holds.
    pub fn len(&self) -> (n: usize)
        ensures
            n == self.records().len(),
    {
        self.batch.len()
    }

    /// Serializes the whole batch into one contiguous buffer: the one
    /// block this cycle will write, however many callers it carries.
    /// The verified encoder is total, so serialization of an in-memory
    /// batch cannot fault.
    pub fn serialize(&self) -> (buf: Vec<u8>)
        ensures
            buf@ == records_bytes(self.records()),
            buf@.len() == RECORD_SIZE * self.records().len(),
    {
        let mut buf: Vec<u8> = Vec::new();
        let mut i: usize = 0;
        let n = self.batch.len();
        while i < n
            invariant
                i <= n,
                n == self.batch@.len(),
                buf@ == records_bytes(self.records().take(i as int)),
                buf@.len() == RECORD_SIZE * i,
            decreases n - i,
        {
            let mut one = encode_record(&self.batch[i]);
            buf.append(&mut one);
            proof {
                let head = self.records().take(i as int);
                let next = self.records().take(i + 1);
                let single = seq![self.records()[i as int]];
                assert(next =~= head + single);
                lemma_records_bytes_concat(head, single);
                assert(single.skip(1) =~= Seq::<OpLogModel>::empty());
                assert(records_bytes(single) == crate::codec::record_bytes(single[0])
                    + records_bytes(single.skip(1)));
                assert(records_bytes(Seq::<OpLogModel>::empty()) == Seq::<u8>::empty());
                assert(records_bytes(single) =~= crate::codec::record_bytes(single[0]));
                assert(RECORD_SIZE * i + RECORD_SIZE == RECORD_SIZE * (i + 1)) by (nonlinear_arith);
            }
            i += 1;
        }
        proof {
            assert(self.records().take(n as int) =~= self.records());
        }
        buf
    }

}

/// Every record of a batch is well formed: each came from an
/// executable record, whose identifier field is a 16-byte array.
pub proof fn lemma_cycle_records_wf(c: CommitCycle)
    ensures
        forall|i: int| 0 <= i < c.records().len() ==> (#[trigger] c.records()[i]).wf(),
{
    assert forall|i: int| 0 <= i < c.records().len() implies (#[trigger] c.records()[i]).wf() by {
        crate::record::lemma_op_log_view_wf(c.batch@[i]);
    }
}

/// The acknowledgment rule of the commit protocol: every caller in the
/// batch is told `Durable` exactly when both the write and the sync
/// succeeded; a write fault and a sync fault are each named as
/// themselves, so no caller is left waiting and none is falsely
/// acknowledged.
pub fn commit_outcome(write_ok: bool, sync_ok: bool) -> (o: CommitOutcome)
    ensures
        o == CommitOutcome::Durable <==> write_ok && sync_ok,
        o == CommitOutcome::WriteFault <==> !write_ok,
        o == CommitOutcome::SyncFault <==> write_ok && !sync_ok,
{
    if !write_ok {
        CommitOutcome::WriteFault
    } else if !sync_ok {
        CommitOutcome::SyncFault
    } else {
        CommitOutcome::Durable
    }
}

/// What one caller of `append` is handed for a cycle's outcome:
/// success exactly when its batch became durable, and the fault named
/// as an error otherwise.
pub fn caller_result(o: CommitOutcome) -> (r: Result<(), AppendError>)
    ensures
        r is Ok <==> o == CommitOutcome::Durable,
        o == CommitOutcome::WriteFault <==> r == Result::<(), AppendError>::Err(
            AppendError::WriteFault,
        ),
        o == CommitOutcome::SyncFault <==> r == Result::<(), AppendError>::Err(
            AppendError::SyncFault,
        ),
{
    match o {
        CommitOutcome::Durable => Ok(()),
        CommitOutcome::WriteFault => Err(AppendError::WriteFault),
        CommitOutcome::SyncFault => Err(AppendError::SyncFault),
    }
}

} // verus!
