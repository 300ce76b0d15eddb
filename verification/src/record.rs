//! The record model: the typed shape of one log entry (agent state plus
//! metadata) and its mathematical view.

use vstd::prelude::*;

verus! {

/// The agent's execution phase at the moment the record was made.
/// `Halted` denotes forced interdiction by an external security layer,
/// not a normal exit.
#[derive(Clone, Copy, Debug, PartialEq, Eq, Structural)]
pub enum AgentStatus {
    Idle,
    Reasoning,
    ToolExecution,
    Halted,
}

/// The wire discriminant of a status: 0 = Idle, 1 = Reasoning,
/// 2 = ToolExecution, 3 = Halted.
pub open spec fn status_byte(s: AgentStatus) -> u8 {
    match s {
        AgentStatus::Idle => 0,
        AgentStatus::Reasoning => 1,
        AgentStatus::ToolExecution => 2,
        AgentStatus::Halted => 3,
    }
}

/// The status a wire discriminant denotes; bytes above 3 denote none.
pub open spec fn status_of_byte(b: u8) -> Option<AgentStatus> {
    if b == 0 {
        Some(AgentStatus::Idle)
    } else if b == 1 {
        Some(AgentStatus::Reasoning)
    } else if b == 2 {
        Some(AgentStatus::ToolExecution)
    } else if b == 3 {
        Some(AgentStatus::Halted)
    } else {
        None
    }
}

/// Encodes a status as its 1-byte wire discriminant.
pub fn encode_status(s: AgentStatus) -> (b: u8)
    ensures
        b == status_byte(s),
{
    match s {
        AgentStatus::Idle => 0,
        AgentStatus::Reasoning => 1,
        AgentStatus::ToolExecution => 2,
        AgentStatus::Halted => 3,
    }
}

/// Decodes a 1-byte wire discriminant back into a status.
pub fn decode_status(b: u8) -> (r: Option<AgentStatus>)
    ensures
        r == status_of_byte(b),
{
    if b == 0 {
        Some(AgentStatus::Idle)
    } else if b == 1 {
        Some(AgentStatus::Reasoning)
    } else if b == 2 {
        Some(AgentStatus::ToolExecution)
    } else if b == 3 {
        Some(AgentStatus::Halted)
    } else {
        None
    }
}

/// A snapshot of an agent's execution state. `transaction_id` is
/// caller-assigned; `memory_offset` indexes an external append-only
/// memory log and is carried as opaque data.
#[derive(Clone, Copy, Debug, PartialEq, Eq, Structural)]
pub struct AgentState {
    pub transaction_id: u64,
    pub timestamp: i64,
    pub status: AgentStatus,
    pub memory_offset: u32,
}

/// The unit of durability: one logged operation. Only the size of the
/// associated payload is recorded; the payload bytes themselves are
/// stored elsewhere and are not part of this log.
#[derive(Clone, Copy, Debug, PartialEq)]
pub struct OpLog {
    pub agent_id: [u8; 16],
    pub state: AgentState,
    pub payload_size: u32,
}

/// Mathematical model of one log record.
#[verifier::ext_equal]
pub struct OpLogModel {
    pub agent_id: Seq<u8>,
    pub transaction_id: u64,
    pub timestamp: i64,
    pub status: AgentStatus,
    pub memory_offset: u32,
    pub payload_size: u32,
}

impl OpLogModel {
    /// A well-formed record carries a 16-byte agent identifier.
    pub open spec fn wf(self) -> bool {
        self.agent_id.len() == 16
    }
}

impl View for OpLog {
    type V = OpLogModel;

    open spec fn view(&self) -> OpLogModel {
        OpLogModel {
            agent_id: self.agent_id@,
            transaction_id: self.state.transaction_id,
            timestamp: self.state.timestamp,
            status: self.state.status,
            memory_offset: self.state.memory_offset,
            payload_size: self.payload_size,
        }
    }
}

/// The models of a sequence of records.
pub open spec fn views(s: Seq<OpLog>) -> Seq<OpLogModel> {
    s.map_values(|r: OpLog| r@)
}

/// Every view of an executable record is well formed: the identifier
/// field is a 16-byte array.
pub broadcast proof fn lemma_op_log_view_wf(r: OpLog)
    ensures
        (#[trigger] r@).wf(),
{
    broadcast use vstd::array::array_len_matches_n;

}

} // verus!
