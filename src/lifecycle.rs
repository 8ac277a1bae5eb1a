use vstd::prelude::*;
use anchor_lang::prelude::{Clock, SolanaSysvar};
use crate::address::{derive_swap_address, find_swap_address, is_chosen_bump, swap_address, Address};
use crate::record::{
    allowed_transition, can_transition, collapse_repeats, lemma_observations_follow_lifecycle, lifecycle,
    ErrorCode, Swap, SwapStatus,
};
use crate::store::{SwapEntry, SwapStore};

verus! {

/// Accounts of a record creation: the address the caller names for the new
/// record, the signing owner and, optionally, the bump the caller proposes.
pub struct InitializeSwap {
    pub program_id: Address,
    pub swap: Address,
    pub user: Address,
    pub bump: Option<u8>,
}

/// Accounts of a handoff to an execution validator.
pub struct DelegateSwap {
    pub program_id: Address,
    pub swap: Address,
    pub validator: Address,
    pub payer: Address,
}

/// Accounts of an execution.
pub struct ExecuteSwap {
    pub program_id: Address,
    pub swap: Address,
}

/// Accounts of a finalization.
pub struct FinalizeSwap {
    pub program_id: Address,
    pub swap: Address,
    pub payer: Address,
}

/// The record at `key` is derived from its own owner and bump.
pub open spec fn address_checked(program: Seq<u8>, key: Seq<u8>, r: Swap) -> bool {
    swap_address(program, r.user@, r.bump) == Some(key)
}

/// What loading the record at `key` gives: the entry, or why it is refused.
pub open spec fn load_outcome(m: Map<Seq<u8>, SwapEntry>, program: Seq<u8>, key: Seq<u8>) -> Result<SwapEntry, ErrorCode> {
    if !m.contains_key(key) {
        Err(ErrorCode::RecordNotFound)
    } else if !address_checked(program, key, m[key].record) {
        Err(ErrorCode::AddressMismatch)
    } else {
        Ok(m[key])
    }
}

/// Every entry is filed under its own address and holds a well-formed record.
pub open spec fn records_wf(m: Map<Seq<u8>, SwapEntry>) -> bool {
    forall|k: Seq<u8>| #[trigger] m.contains_key(k) ==> m[k].address@ == k && m[k].record.wf()
}

/// A fresh record of `user`.
pub open spec fn new_record(user: Address, amount_in: u64, minimum_amount_out: u64, bump: u8) -> Swap {
    Swap {
        user,
        amount_in,
        minimum_amount_out,
        status: SwapStatus::Pending,
        executed_at: 0,
        bump,
    }
}

/// What a successful operation may do to a record's status: keep it, or move
/// it one step along the transition table.
pub open spec fn lifecycle_step(before: Swap, after: Swap) -> bool {
    after.status == before.status || allowed_transition(before.status, after.status)
}

/// `e` with its record executed at `now`.
pub open spec fn executed(e: SwapEntry, now: i64) -> SwapEntry {
    SwapEntry { record: Swap { status: SwapStatus::Executed, executed_at: now, ..e.record }, ..e }
}

/// `e` with its record finalized.
pub open spec fn finalized(e: SwapEntry) -> SwapEntry {
    SwapEntry { record: Swap { status: SwapStatus::Finalized, ..e.record }, ..e }
}

/// `e` in the custody of `validator`.
pub open spec fn delegated(e: SwapEntry, validator: Address) -> SwapEntry {
    SwapEntry { custodian: Some(validator), ..e }
}

/// The address guard: loads the record at `key` and checks that its address
/// is the one derived from its owner and stored bump.
pub fn load_checked(store: &SwapStore, program: &Address, key: &Address) -> (r: Result<SwapEntry, ErrorCode>)
    requires
        store.wf(),
    ensures
        r == load_outcome(store@, program@, key@),
        r is Ok ==> r->Ok_0.address@ == key@,
{
    let e = match store.get(key) {
        Some(e) => e,
        None => {
            return Err(ErrorCode::RecordNotFound);
        },
    };
    match derive_swap_address(program, &e.record.user, e.record.bump) {
        Some(a) => {
            if a.same_as(key) {
                Ok(e)
            } else {
                Err(ErrorCode::AddressMismatch)
            }
        },
        None => Err(ErrorCode::AddressMismatch),
    }
}

/// Creates the swap record of `ctx.user` at the address derived from the
/// owner, holding `Pending` and no timestamp.
pub fn initialize_swap(store: &mut SwapStore, ctx: &InitializeSwap, amount_in: u64, minimum_amount_out: u64) -> (r: Result<Swap, ErrorCode>)
    requires
        old(store).wf(),
        amount_in > 0,
    ensures
        final(store).wf(),
        records_wf(old(store)@) ==> records_wf(final(store)@),
        match r {
            Ok(rec) => {
                &&& is_chosen_bump(ctx.program_id@, ctx.user@, ctx.bump, rec.bump)
                &&& swap_address(ctx.program_id@, ctx.user@, rec.bump) == Some(ctx.swap@)
                &&& !old(store)@.contains_key(ctx.swap@)
                &&& rec == new_record(ctx.user, amount_in, minimum_amount_out, rec.bump)
                &&& rec.status == SwapStatus::Pending && rec.executed_at == 0 && rec.wf()
                &&& final(store)@ == old(store)@.insert(
                    ctx.swap@,
                    (SwapEntry { address: ctx.swap, record: rec, custodian: None }),
                )
            },
            Err(ErrorCode::DerivationExhausted) => {
                &&& forall|c: u8| (#[trigger] swap_address(ctx.program_id@, ctx.user@, c)) is None
                &&& final(store)@ == old(store)@
            },
            Err(ErrorCode::AddressMismatch) => {
                &&& exists|b: u8| #[trigger] is_chosen_bump(ctx.program_id@, ctx.user@, ctx.bump, b)
                    && swap_address(ctx.program_id@, ctx.user@, b) != Some(ctx.swap@)
                &&& final(store)@ == old(store)@
            },
            Err(ErrorCode::DuplicateRecord) => {
                &&& exists|b: u8| #[trigger] is_chosen_bump(ctx.program_id@, ctx.user@, ctx.bump, b)
                    && swap_address(ctx.program_id@, ctx.user@, b) == Some(ctx.swap@)
                &&& old(store)@.contains_key(ctx.swap@)
                &&& final(store)@ == old(store)@
            },
            Err(_) => false,
        },
{
    let (a, bump) = match find_swap_address(&ctx.program_id, &ctx.user, ctx.bump) {
        Ok(found) => found,
        Err(e) => {
            return Err(e);
        },
    };
    if !a.same_as(&ctx.swap) {
        return Err(ErrorCode::AddressMismatch);
    }
    if store.contains(&ctx.swap) {
        return Err(ErrorCode::DuplicateRecord);
    }
    let record = Swap {
        user: ctx.user,
        amount_in,
        minimum_amount_out,
        status: SwapStatus::Pending,
        executed_at: 0,
        bump,
    };
    store.put(SwapEntry { address: ctx.swap, record, custodian: None });
    Ok(record)
}

/// Hands the record to `ctx.validator` for private execution. Any payer may
/// sign; the status does not change, and a later handoff replaces an
/// earlier one.
pub fn delegate_swap(store: &mut SwapStore, ctx: &DelegateSwap) -> (r: Result<(), ErrorCode>)
    requires
        old(store).wf(),
    ensures
        final(store).wf(),
        records_wf(old(store)@) ==> records_wf(final(store)@),
        r is Ok ==> lifecycle_step(old(store)@[ctx.swap@].record, final(store)@[ctx.swap@].record),
        match load_outcome(old(store)@, ctx.program_id@, ctx.swap@) {
            Ok(e) => {
                &&& r is Ok
                &&& final(store)@ == old(store)@.insert(ctx.swap@, delegated(e, ctx.validator))
                &&& final(store)@[ctx.swap@].record == e.record
            },
            Err(err) => r == Err::<(), ErrorCode>(err) && final(store)@ == old(store)@,
        },
{
    let e = match load_checked(store, &ctx.program_id, &ctx.swap) {
        Ok(e) => e,
        Err(err) => {
            return Err(err);
        },
    };
    store.put(SwapEntry { custodian: Some(ctx.validator), ..e });
    Ok(())
}

/// Moves a `Pending` record to `Executed`, stamped with `now`.
pub fn execute_swap_at(store: &mut SwapStore, ctx: &ExecuteSwap, now: i64) -> (r: Result<(), ErrorCode>)
    requires
        old(store).wf(),
        now > 0,
    ensures
        old(store)@.contains_key(ctx.swap@) && address_checked(ctx.program_id@, ctx.swap@, old(store)@[ctx.swap@].record)
            && old(store)@[ctx.swap@].record.status != SwapStatus::Pending
            ==> r == Err::<(), ErrorCode>(ErrorCode::InvalidSwapStatus) && final(store)@ == old(store)@,
        final(store).wf(),
        records_wf(old(store)@) ==> records_wf(final(store)@),
        r is Ok ==> lifecycle_step(old(store)@[ctx.swap@].record, final(store)@[ctx.swap@].record),
        match load_outcome(old(store)@, ctx.program_id@, ctx.swap@) {
            Ok(e) => if e.record.status == SwapStatus::Pending {
                &&& r is Ok
                &&& final(store)@ == old(store)@.insert(ctx.swap@, executed(e, now))
                &&& allowed_transition(e.record.status, final(store)@[ctx.swap@].record.status)
            } else {
                r == Err::<(), ErrorCode>(ErrorCode::InvalidSwapStatus) && final(store)@ == old(store)@
            },
            Err(err) => r == Err::<(), ErrorCode>(err) && final(store)@ == old(store)@,
        },
{
    let e = match load_checked(store, &ctx.program_id, &ctx.swap) {
        Ok(e) => e,
        Err(err) => {
            return Err(err);
        },
    };
    if !can_transition(e.record.status, SwapStatus::Executed) {
        return Err(ErrorCode::InvalidSwapStatus);
    }
    let record = Swap { status: SwapStatus::Executed, executed_at: now, ..e.record };
    store.put(SwapEntry { record, ..e });
    Ok(())
}

/// Moves a `Pending` record to `Executed`, stamped with a clock `reading`;
/// a missing reading, or one that is not after the epoch, fails the
/// operation and leaves the store as it was.
pub fn execute_swap_with_clock(store: &mut SwapStore, ctx: &ExecuteSwap, reading: Option<i64>) -> (r: Result<(), ErrorCode>)
    requires
        old(store).wf(),
    ensures
        final(store).wf(),
        records_wf(old(store)@) ==> records_wf(final(store)@),
        r is Ok ==> lifecycle_step(old(store)@[ctx.swap@].record, final(store)@[ctx.swap@].record),
        match load_outcome(old(store)@, ctx.program_id@, ctx.swap@) {
            Ok(e) => if e.record.status != SwapStatus::Pending {
                r == Err::<(), ErrorCode>(ErrorCode::InvalidSwapStatus) && final(store)@ == old(store)@
            } else if reading is Some && reading->0 > 0 {
                r is Ok && final(store)@ == old(store)@.insert(ctx.swap@, executed(e, reading->0))
            } else {
                r == Err::<(), ErrorCode>(ErrorCode::ClockUnavailable) && final(store)@ == old(store)@
            },
            Err(err) => r == Err::<(), ErrorCode>(err) && final(store)@ == old(store)@,
        },
{
    let e = match load_checked(store, &ctx.program_id, &ctx.swap) {
        Ok(e) => e,
        Err(err) => {
            return Err(err);
        },
    };
    if !can_transition(e.record.status, SwapStatus::Executed) {
        return Err(ErrorCode::InvalidSwapStatus);
    }
    match reading {
        Some(now) => {
            if now > 0 {
                execute_swap_at(store, ctx, now)
            } else {
                Err(ErrorCode::ClockUnavailable)
            }
        },
        None => Err(ErrorCode::ClockUnavailable),
    }
}

/// Relies on `Clock::get` (the ledger's clock sysvar) for the current unix
/// timestamp; `None` where the runtime offers no clock. Nothing is known of
/// the value.
#[verifier::external_body]
fn clock_unix_timestamp() -> (r: Option<i64>) {
    <Clock as SolanaSysvar>::get().ok().map(|c| c.unix_timestamp)
}

/// Moves a `Pending` record to `Executed`, stamped with the ledger clock's
/// current time.
pub fn execute_swap(store: &mut SwapStore, ctx: &ExecuteSwap) -> (r: Result<(), ErrorCode>)
    requires
        old(store).wf(),
    ensures
        final(store).wf(),
        records_wf(old(store)@) ==> records_wf(final(store)@),
        r is Ok ==> lifecycle_step(old(store)@[ctx.swap@].record, final(store)@[ctx.swap@].record),
        match load_outcome(old(store)@, ctx.program_id@, ctx.swap@) {
            Ok(e) => if e.record.status == SwapStatus::Pending {
                ||| r is Ok && exists|t: i64| t > 0 && final(store)@ == old(store)@.insert(ctx.swap@, #[trigger] executed(e, t))
                ||| r == Err::<(), ErrorCode>(ErrorCode::ClockUnavailable) && final(store)@ == old(store)@
            } else {
                r == Err::<(), ErrorCode>(ErrorCode::InvalidSwapStatus) && final(store)@ == old(store)@
            },
            Err(err) => r == Err::<(), ErrorCode>(err) && final(store)@ == old(store)@,
        },
{
    let reading = clock_unix_timestamp();
    execute_swap_with_clock(store, ctx, reading)
}

/// Moves an `Executed` record to `Finalized`, its terminal status.
pub fn finalize_swap(store: &mut SwapStore, ctx: &FinalizeSwap) -> (r: Result<(), ErrorCode>)
    requires
        old(store).wf(),
    ensures
        final(store).wf(),
        records_wf(old(store)@) ==> records_wf(final(store)@),
        r is Ok ==> lifecycle_step(old(store)@[ctx.swap@].record, final(store)@[ctx.swap@].record),
        match load_outcome(old(store)@, ctx.program_id@, ctx.swap@) {
            Ok(e) => if e.record.status == SwapStatus::Executed {
                &&& r is Ok
                &&& final(store)@ == old(store)@.insert(ctx.swap@, finalized(e))
                &&& allowed_transition(e.record.status, final(store)@[ctx.swap@].record.status)
            } else {
                r == Err::<(), ErrorCode>(ErrorCode::SwapNotExecuted) && final(store)@ == old(store)@
            },
            Err(err) => r == Err::<(), ErrorCode>(err) && final(store)@ == old(store)@,
        },
{
    let e = match load_checked(store, &ctx.program_id, &ctx.swap) {
        Ok(e) => e,
        Err(err) => {
            return Err(err);
        },
    };
    if !can_transition(e.record.status, SwapStatus::Finalized) {
        return Err(ErrorCode::SwapNotExecuted);
    }
    let record = Swap { status: SwapStatus::Finalized, ..e.record };
    store.put(SwapEntry { record, ..e });
    Ok(())
}


/// The statuses a record shows along a history of the store.
pub open spec fn status_history(hist: Seq<Map<Seq<u8>, SwapEntry>>, key: Seq<u8>) -> Seq<SwapStatus> {
    Seq::new(hist.len(), |i: int| hist[i][key].record.status)
}

/// A history of the store in which the record at `key` was created
/// `Pending` and each later state came from a failed operation (store
/// unchanged) or a successful one (a `lifecycle_step`, as every operation
/// promises) passes the record through the lifecycle in order: its statuses,
/// repeats collapsed, are a prefix of `Pending, Executed, Finalized`.
pub proof fn lemma_store_history_follows_lifecycle(hist: Seq<Map<Seq<u8>, SwapEntry>>, key: Seq<u8>)
    requires
        hist.len() > 0,
        forall|i: int| 0 <= i < hist.len() ==> (#[trigger] hist[i]).contains_key(key),
        hist[0][key].record.status == SwapStatus::Pending,
        forall|i: int| 0 <= i < hist.len() - 1 ==> hist[i + 1] == hist[i]
            || lifecycle_step(hist[i][key].record, (#[trigger] hist[i + 1])[key].record),
    ensures
        lifecycle().take(collapse_repeats(status_history(hist, key)).len() as int)
            == collapse_repeats(status_history(hist, key)),
{
    let obs = status_history(hist, key);
    assert forall|i: int| 0 <= i < obs.len() - 1 implies obs[i + 1] == obs[i]
        || allowed_transition(obs[i], #[trigger] obs[i + 1]) by {
        assert(hist[i + 1] == hist[i] || lifecycle_step(hist[i][key].record, hist[i + 1][key].record));
    }
    lemma_observations_follow_lifecycle(obs);
}

} // verus!
