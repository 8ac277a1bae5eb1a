use vstd::prelude::*;
use crate::address::Address;

verus! {

/// Where a swap record stands in its lifecycle.
#[derive(Clone, Copy, Debug, PartialEq, Eq, Structural)]
pub enum SwapStatus {
    Pending,
    Executed,
    Finalized,
}

/// Why an operation on a swap record was refused.
#[derive(Clone, Copy, Debug, PartialEq, Eq, Structural)]
pub enum ErrorCode {
    /// The record is not in the state the operation starts from.
    InvalidSwapStatus,
    /// Finalization was asked for before execution.
    SwapNotExecuted,
    /// The record's address is not the one derived from its owner and bump.
    AddressMismatch,
    /// The signer is not the record's owner.
    Unauthorized,
    /// A live record already sits at the derived address.
    DuplicateRecord,
    /// No bump yields a usable address.
    DerivationExhausted,
    /// No record is stored at the given address.
    RecordNotFound,
    /// The clock gave no usable timestamp.
    ClockUnavailable,
}

/// A swap record, laid out as it is persisted.
#[derive(Clone, Copy, Debug, PartialEq, Eq)]
pub struct Swap {
    pub user: Address,
    pub amount_in: u64,
    pub minimum_amount_out: u64,
    pub status: SwapStatus,
    pub executed_at: i64,
    pub bump: u8,
}


/// Position of a status in the lifecycle `Pending, Executed, Finalized`.
pub open spec fn status_rank(s: SwapStatus) -> int {
    match s {
        SwapStatus::Pending => 0,
        SwapStatus::Executed => 1,
        SwapStatus::Finalized => 2,
    }
}

/// The statuses in lifecycle order.
pub open spec fn lifecycle() -> Seq<SwapStatus> {
    seq![SwapStatus::Pending, SwapStatus::Executed, SwapStatus::Finalized]
}

/// The transition table: a status may only move one step forward.
pub open spec fn allowed_transition(from: SwapStatus, to: SwapStatus) -> bool {
    ||| from == SwapStatus::Pending && to == SwapStatus::Executed
    ||| from == SwapStatus::Executed && to == SwapStatus::Finalized
}

/// Checks a status change against the transition table.
pub fn can_transition(from: SwapStatus, to: SwapStatus) -> (r: bool)
    ensures
        r == allowed_transition(from, to),
{
    match (from, to) {
        (SwapStatus::Pending, SwapStatus::Executed) => true,
        (SwapStatus::Executed, SwapStatus::Finalized) => true,
        _ => false,
    }
}

impl Swap {
    /// Bytes of a persisted record, without the storage header.
    pub const LEN: usize = 32 + 8 + 8 + 1 + 8 + 1;

    /// A record is well formed when its amount is positive and its timestamp
    /// is set exactly when it has been executed.
    pub open spec fn wf(&self) -> bool {
        &&& self.amount_in > 0
        &&& (self.executed_at != 0 <==> self.status != SwapStatus::Pending)
    }
}

/// The owner guard: only the record's owner may sign for it.
pub fn check_owner(record: &Swap, signer: &Address) -> (r: Result<(), ErrorCode>)
    ensures
        r is Ok <==> signer@ == record.user@,
        r is Err ==> r == Err::<(), ErrorCode>(ErrorCode::Unauthorized),
{
    if signer.same_as(&record.user) {
        Ok(())
    } else {
        Err(ErrorCode::Unauthorized)
    }
}

/// The statuses of a run of observations with repeats of the same status
/// collapsed into one.
pub open spec fn collapse_repeats(s: Seq<SwapStatus>) -> Seq<SwapStatus>
    decreases s.len(),
{
    if s.len() <= 1 {
        s
    } else if s.last() == s.drop_last().last() {
        collapse_repeats(s.drop_last())
    } else {
        collapse_repeats(s.drop_last()).push(s.last())
    }
}

/// Observations of one record that start at `Pending` and change only along
/// the transition table pass through the lifecycle in order: with repeats
/// collapsed they are a prefix of `Pending, Executed, Finalized`.
pub proof fn lemma_observations_follow_lifecycle(obs: Seq<SwapStatus>)
    requires
        obs.len() > 0,
        obs[0] == SwapStatus::Pending,
        forall|i: int| 0 <= i < obs.len() - 1 ==> obs[i + 1] == obs[i]
            || allowed_transition(obs[i], #[trigger] obs[i + 1]),
    ensures
        collapse_repeats(obs) == lifecycle().take(status_rank(obs.last()) + 1),
        lifecycle().take(collapse_repeats(obs).len() as int) == collapse_repeats(obs),
    decreases obs.len(),
{
    if obs.len() == 1 {
        assert(collapse_repeats(obs) =~= lifecycle().take(1));
    } else {
        let prev = obs.drop_last();
        assert forall|i: int| 0 <= i < prev.len() - 1 implies prev[i + 1] == prev[i]
            || allowed_transition(prev[i], #[trigger] prev[i + 1]) by {
            assert(obs[i + 1] == obs[i] || allowed_transition(obs[i], obs[i + 1]));
        }
        lemma_observations_follow_lifecycle(prev);
        let k = obs.len() - 2;
        assert(obs[k + 1] == obs[k] || allowed_transition(obs[k], obs[k + 1]));
        if obs.last() != prev.last() {
            assert(collapse_repeats(obs) =~= lifecycle().take(status_rank(obs.last()) + 1));
        }
    }
    assert(lifecycle().take(collapse_repeats(obs).len() as int) =~= collapse_repeats(obs));
}

} // verus!
