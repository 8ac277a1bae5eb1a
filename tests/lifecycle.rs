use anchor_lang::prelude::Pubkey;
use triton_privacy::{
    can_transition, check_owner, delegate_swap, derive_swap_address, execute_swap,
    execute_swap_at, execute_swap_with_clock, finalize_swap, find_swap_address, initialize_swap, load_checked, Address,
    DelegateSwap, ErrorCode, ExecuteSwap, FinalizeSwap, InitializeSwap, Swap, SwapEntry,
    SwapStatus, SwapStore,
};

const NOW: i64 = 1_700_000_000;

fn program() -> Address {
    Address::new([0u8; 32])
}

fn owner() -> Address {
    Address::new([7u8; 32])
}

fn validator() -> Address {
    Address::new([9u8; 32])
}

fn record_address(user: &Address) -> Address {
    find_swap_address(&program(), user, None).unwrap().0
}

fn init_ctx(user: Address) -> InitializeSwap {
    InitializeSwap { program_id: program(), swap: record_address(&user), user, bump: None }
}

fn exec_ctx(user: &Address) -> ExecuteSwap {
    ExecuteSwap { program_id: program(), swap: record_address(user) }
}

fn fin_ctx(user: &Address) -> FinalizeSwap {
    FinalizeSwap { program_id: program(), swap: record_address(user), payer: *user }
}

fn stored(store: &SwapStore, user: &Address) -> SwapEntry {
    store.get(&record_address(user)).unwrap()
}

#[test]
fn full_lifecycle_scenario() {
    let u = owner();
    let mut store = SwapStore::new();
    let rec = initialize_swap(&mut store, &init_ctx(u), 1000, 950).unwrap();
    assert_eq!(rec.status, SwapStatus::Pending);
    assert_eq!(rec.amount_in, 1000);
    assert_eq!(rec.minimum_amount_out, 950);
    assert_eq!(rec.executed_at, 0);
    assert_eq!(rec.user, u);

    let dctx = DelegateSwap { program_id: program(), swap: record_address(&u), validator: validator(), payer: u };
    assert_eq!(delegate_swap(&mut store, &dctx), Ok(()));
    let e = stored(&store, &u);
    assert_eq!(e.custodian, Some(validator()));
    assert_eq!(e.record.status, SwapStatus::Pending);

    assert_eq!(execute_swap_at(&mut store, &exec_ctx(&u), NOW), Ok(()));
    let e = stored(&store, &u);
    assert_eq!(e.record.status, SwapStatus::Executed);
    assert_eq!(e.record.executed_at, NOW);
    assert!(e.record.executed_at > 0);

    assert_eq!(finalize_swap(&mut store, &fin_ctx(&u)), Ok(()));
    assert_eq!(stored(&store, &u).record.status, SwapStatus::Finalized);

    assert_eq!(execute_swap_at(&mut store, &exec_ctx(&u), NOW + 5), Err(ErrorCode::InvalidSwapStatus));
    let e = stored(&store, &u);
    assert_eq!(e.record.status, SwapStatus::Finalized);
    assert_eq!(e.record.executed_at, NOW);
}

#[test]
fn execute_without_delegation_succeeds() {
    let u = owner();
    let mut store = SwapStore::new();
    initialize_swap(&mut store, &init_ctx(u), 500, 1).unwrap();
    assert_eq!(execute_swap_at(&mut store, &exec_ctx(&u), NOW), Ok(()));
    let e = stored(&store, &u);
    assert_eq!(e.record.status, SwapStatus::Executed);
    assert_eq!(e.custodian, None);
}

#[test]
fn initialize_yields_pending_record_for_any_positive_amount() {
    for (i, amount) in [1u64, 2, 1000, u64::MAX].iter().enumerate() {
        let u = Address::new([i as u8 + 1; 32]);
        let mut store = SwapStore::new();
        let rec = initialize_swap(&mut store, &init_ctx(u), *amount, 0).unwrap();
        assert_eq!(rec.status, SwapStatus::Pending);
        assert_eq!(rec.executed_at, 0);
        assert_eq!(rec.amount_in, *amount);
        assert_eq!(stored(&store, &u).record, rec);
    }
}

#[test]
fn execute_twice_fails_with_invalid_status() {
    let u = owner();
    let mut store = SwapStore::new();
    initialize_swap(&mut store, &init_ctx(u), 10, 10).unwrap();
    execute_swap_at(&mut store, &exec_ctx(&u), NOW).unwrap();
    assert_eq!(execute_swap_at(&mut store, &exec_ctx(&u), NOW + 1), Err(ErrorCode::InvalidSwapStatus));
    assert_eq!(stored(&store, &u).record.executed_at, NOW);
}

#[test]
fn finalize_pending_fails_with_not_executed() {
    let u = owner();
    let mut store = SwapStore::new();
    initialize_swap(&mut store, &init_ctx(u), 10, 10).unwrap();
    assert_eq!(finalize_swap(&mut store, &fin_ctx(&u)), Err(ErrorCode::SwapNotExecuted));
    assert_eq!(stored(&store, &u).record.status, SwapStatus::Pending);
}

#[test]
fn finalize_twice_fails_with_not_executed() {
    let u = owner();
    let mut store = SwapStore::new();
    initialize_swap(&mut store, &init_ctx(u), 10, 10).unwrap();
    execute_swap_at(&mut store, &exec_ctx(&u), NOW).unwrap();
    finalize_swap(&mut store, &fin_ctx(&u)).unwrap();
    assert_eq!(finalize_swap(&mut store, &fin_ctx(&u)), Err(ErrorCode::SwapNotExecuted));
}

#[test]
fn observed_statuses_follow_lifecycle_order() {
    let u = owner();
    let mut store = SwapStore::new();
    let mut seen = vec![initialize_swap(&mut store, &init_ctx(u), 10, 10).unwrap().status];
    let dctx = DelegateSwap { program_id: program(), swap: record_address(&u), validator: validator(), payer: u };
    let attempts: Vec<u8> = vec![2, 0, 1, 2, 1, 0, 2];
    for op in attempts {
        let ok = match op {
            0 => delegate_swap(&mut store, &dctx).is_ok(),
            1 => execute_swap_at(&mut store, &exec_ctx(&u), NOW).is_ok(),
            _ => finalize_swap(&mut store, &fin_ctx(&u)).is_ok(),
        };
        if ok {
            let s = stored(&store, &u).record.status;
            if *seen.last().unwrap() != s {
                seen.push(s);
            }
        }
    }
    assert_eq!(seen, vec![SwapStatus::Pending, SwapStatus::Executed, SwapStatus::Finalized]);
}

#[test]
fn second_initialize_is_duplicate() {
    let u = owner();
    let mut store = SwapStore::new();
    initialize_swap(&mut store, &init_ctx(u), 1000, 950).unwrap();
    assert_eq!(initialize_swap(&mut store, &init_ctx(u), 5, 5), Err(ErrorCode::DuplicateRecord));
    assert_eq!(stored(&store, &u).record.amount_in, 1000);
}

#[test]
fn initialize_at_wrong_address_is_mismatch() {
    let u = owner();
    let mut store = SwapStore::new();
    let ctx = InitializeSwap { program_id: program(), swap: Address::new([3u8; 32]), user: u, bump: None };
    assert_eq!(initialize_swap(&mut store, &ctx, 1000, 950), Err(ErrorCode::AddressMismatch));
    assert!(!store.contains(&Address::new([3u8; 32])));
    assert!(!store.contains(&record_address(&u)));
}

#[test]
fn record_filed_under_foreign_address_is_mismatch() {
    let u = owner();
    let bogus = Address::new([3u8; 32]);
    let bump = find_swap_address(&program(), &u, None).unwrap().1;
    let record = Swap {
        user: u,
        amount_in: 1,
        minimum_amount_out: 1,
        status: SwapStatus::Pending,
        executed_at: 0,
        bump,
    };
    let mut store = SwapStore::new();
    store.put(SwapEntry { address: bogus, record, custodian: None });
    let ectx = ExecuteSwap { program_id: program(), swap: bogus };
    assert_eq!(execute_swap_at(&mut store, &ectx, NOW), Err(ErrorCode::AddressMismatch));
    let dctx = DelegateSwap { program_id: program(), swap: bogus, validator: validator(), payer: u };
    assert_eq!(delegate_swap(&mut store, &dctx), Err(ErrorCode::AddressMismatch));
    let fctx = FinalizeSwap { program_id: program(), swap: bogus, payer: u };
    assert_eq!(finalize_swap(&mut store, &fctx), Err(ErrorCode::AddressMismatch));
    assert_eq!(store.get(&bogus).unwrap().record.status, SwapStatus::Pending);
}

#[test]
fn missing_record_is_not_found() {
    let u = owner();
    let mut store = SwapStore::new();
    assert_eq!(execute_swap_at(&mut store, &exec_ctx(&u), NOW), Err(ErrorCode::RecordNotFound));
    assert_eq!(finalize_swap(&mut store, &fin_ctx(&u)), Err(ErrorCode::RecordNotFound));
    assert_eq!(load_checked(&store, &program(), &record_address(&u)), Err(ErrorCode::RecordNotFound));
}

#[test]
fn execute_without_ledger_clock_fails_closed() {
    let u = owner();
    let mut store = SwapStore::new();
    initialize_swap(&mut store, &init_ctx(u), 10, 10).unwrap();
    assert_eq!(execute_swap(&mut store, &exec_ctx(&u)), Err(ErrorCode::ClockUnavailable));
    let e = stored(&store, &u);
    assert_eq!(e.record.status, SwapStatus::Pending);
    assert_eq!(e.record.executed_at, 0);
}

#[test]
fn execute_with_clock_checks_status_first() {
    let u = owner();
    let mut store = SwapStore::new();
    initialize_swap(&mut store, &init_ctx(u), 10, 10).unwrap();
    execute_swap_at(&mut store, &exec_ctx(&u), NOW).unwrap();
    assert_eq!(execute_swap(&mut store, &exec_ctx(&u)), Err(ErrorCode::InvalidSwapStatus));
}

#[test]
fn owner_guard() {
    let rec = Swap {
        user: owner(),
        amount_in: 1,
        minimum_amount_out: 0,
        status: SwapStatus::Pending,
        executed_at: 0,
        bump: 255,
    };
    assert_eq!(check_owner(&rec, &owner()), Ok(()));
    assert_eq!(check_owner(&rec, &validator()), Err(ErrorCode::Unauthorized));
}

#[test]
fn transition_table() {
    let all = [SwapStatus::Pending, SwapStatus::Executed, SwapStatus::Finalized];
    for from in all {
        for to in all {
            let expected = matches!(
                (from, to),
                (SwapStatus::Pending, SwapStatus::Executed) | (SwapStatus::Executed, SwapStatus::Finalized)
            );
            assert_eq!(can_transition(from, to), expected);
        }
    }
}

#[test]
fn record_width() {
    assert_eq!(Swap::LEN, 58);
}

#[test]
fn derivation_matches_ledger_search() {
    let u = owner();
    let (addr, bump) = find_swap_address(&program(), &u, None).unwrap();
    let (expected, expected_bump) =
        Pubkey::find_program_address(&[b"swap", &u.bytes], &Pubkey::new_from_array(program().bytes));
    assert_eq!(bump, expected_bump);
    assert_eq!(addr.bytes, expected.to_bytes());
    assert_ne!(addr, u);
    assert_ne!(addr, program());
}

#[test]
fn derivation_is_deterministic_and_input_sensitive() {
    let u = owner();
    let (a, bump) = find_swap_address(&program(), &u, None).unwrap();
    assert_eq!(derive_swap_address(&program(), &u, bump), Some(a));
    assert_eq!(derive_swap_address(&program(), &u, bump), derive_swap_address(&program(), &u, bump));
    let other = find_swap_address(&program(), &validator(), None).unwrap().0;
    assert_ne!(a, other);
    let other_program = Address::new([1u8; 32]);
    assert_ne!(derive_swap_address(&other_program, &u, bump), Some(a));
    let mut b = bump;
    while b > 0 {
        b -= 1;
        if let Some(x) = derive_swap_address(&program(), &u, b) {
            assert_ne!(x, a);
            break;
        }
    }
}

#[test]
fn preferred_bump_is_kept_when_usable() {
    let u = owner();
    let (canonical, canonical_bump) = find_swap_address(&program(), &u, None).unwrap();
    let mut b = canonical_bump;
    let mut usable = None;
    while b > 0 {
        b -= 1;
        if let Some(x) = derive_swap_address(&program(), &u, b) {
            usable = Some((x, b));
            break;
        }
    }
    let (x, b) = usable.unwrap();
    assert_eq!(find_swap_address(&program(), &u, Some(b)), Ok((x, b)));
    let mut unusable = None;
    for c in (0..=255u8).rev() {
        if derive_swap_address(&program(), &u, c).is_none() {
            unusable = Some(c);
            break;
        }
    }
    let c = unusable.unwrap();
    assert_eq!(find_swap_address(&program(), &u, Some(c)), Ok((canonical, canonical_bump)));
}

#[test]
fn initialize_with_preferred_bump_stores_it() {
    let u = owner();
    let (canonical, canonical_bump) = find_swap_address(&program(), &u, None).unwrap();
    let mut store = SwapStore::new();
    let ctx = InitializeSwap { program_id: program(), swap: canonical, user: u, bump: Some(canonical_bump) };
    let rec = initialize_swap(&mut store, &ctx, 42, 40).unwrap();
    assert_eq!(rec.bump, canonical_bump);
    assert_eq!(load_checked(&store, &program(), &canonical).unwrap().record, rec);
}

#[test]
fn clock_reading_decides_execution() {
    let u = owner();
    let mut store = SwapStore::new();
    initialize_swap(&mut store, &init_ctx(u), 10, 10).unwrap();
    for reading in [None, Some(0), Some(-5), Some(i64::MIN)] {
        assert_eq!(execute_swap_with_clock(&mut store, &exec_ctx(&u), reading), Err(ErrorCode::ClockUnavailable));
        let e = stored(&store, &u);
        assert_eq!(e.record.status, SwapStatus::Pending);
        assert_eq!(e.record.executed_at, 0);
    }
    assert_eq!(execute_swap_with_clock(&mut store, &exec_ctx(&u), Some(1)), Ok(()));
    let e = stored(&store, &u);
    assert_eq!(e.record.status, SwapStatus::Executed);
    assert_eq!(e.record.executed_at, 1);
}

#[test]
fn status_is_checked_before_clock_reading() {
    let u = owner();
    let mut store = SwapStore::new();
    initialize_swap(&mut store, &init_ctx(u), 10, 10).unwrap();
    execute_swap_with_clock(&mut store, &exec_ctx(&u), Some(NOW)).unwrap();
    assert_eq!(execute_swap_with_clock(&mut store, &exec_ctx(&u), None), Err(ErrorCode::InvalidSwapStatus));
    assert_eq!(execute_swap_with_clock(&mut store, &exec_ctx(&u), Some(NOW + 9)), Err(ErrorCode::InvalidSwapStatus));
    assert_eq!(stored(&store, &u).record.executed_at, NOW);
    let other = validator();
    assert_eq!(execute_swap_with_clock(&mut store, &exec_ctx(&other), Some(NOW)), Err(ErrorCode::RecordNotFound));
}
