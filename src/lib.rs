//! Lifecycle of a confidential swap order: a record created by its owner,
//! handed to an execution validator, executed, then finalized.

mod address;
mod layout;
mod lifecycle;
mod record;
mod store;

pub use address::{
    derive_swap_address, find_swap_address, is_chosen_bump, lemma_derivation_deterministic,
    program_address_of, swap_address, swap_tag, Address,
};
pub use record::{
    allowed_transition, can_transition, check_owner, collapse_repeats,
    lemma_observations_follow_lifecycle, lifecycle, status_rank, ErrorCode, Swap, SwapStatus,
};
pub use layout::{lemma_swap_bytes_injective, status_tag, swap_bytes};
pub use store::{entries_map, keys_unique, SwapEntry, SwapStore};
pub use lifecycle::{
    address_checked, delegate_swap, delegated, executed, execute_swap, execute_swap_at,
    execute_swap_with_clock, lemma_store_history_follows_lifecycle, lifecycle_step, status_history,
    finalize_swap, finalized, initialize_swap, load_checked, load_outcome, new_record, records_wf,
    DelegateSwap, ExecuteSwap, FinalizeSwap, InitializeSwap,
};
