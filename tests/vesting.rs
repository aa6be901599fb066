use stake_accounts::{
    derive_stake_account_address, new_stake_accounts, to_instructions, vesting_allocations,
    Address, Allocation, Lockup, SignerKeys, SignerRole, StakeAccountsError, StakeInstruction,
    VestingSchedule,
};

fn key(b: u8) -> Address {
    Address::new([b; 32])
}

fn schedule(numerator: u64, denominator: u64, unlocks: u64) -> VestingSchedule {
    VestingSchedule {
        cliff_numerator: numerator,
        cliff_denominator: denominator,
        start_timestamp: 100,
        cliff_seconds: 50,
        unlock_interval_seconds: 10,
        unlocks,
    }
}

fn a(lamports: u64, unix_timestamp: i64) -> Allocation {
    Allocation { lamports, unix_timestamp }
}

#[test]
fn even_schedule() {
    assert_eq!(
        vesting_allocations(1000, &schedule(1, 4, 3)),
        Some(vec![a(250, 150), a(250, 160), a(250, 170), a(250, 180)])
    );
}

#[test]
fn uneven_split_goes_to_the_last_bucket() {
    let v = vesting_allocations(1001, &schedule(1, 4, 3)).unwrap();
    assert_eq!(v, vec![a(250, 150), a(250, 160), a(250, 170), a(251, 180)]);
    assert_eq!(v.iter().map(|x| x.lamports).sum::<u64>(), 1001);
}

#[test]
fn schedule_without_unlocks_is_one_account() {
    assert_eq!(vesting_allocations(1000, &schedule(1, 4, 0)), Some(vec![a(1000, 150)]));
}

#[test]
fn whole_cliff_and_largest_total() {
    let v = vesting_allocations(u64::MAX, &schedule(1, 1, 2)).unwrap();
    assert_eq!(v, vec![a(u64::MAX, 150), a(0, 160), a(0, 170)]);
}

#[test]
fn invalid_schedules() {
    assert_eq!(vesting_allocations(1000, &schedule(5, 4, 3)), None);
    assert_eq!(vesting_allocations(1000, &schedule(0, 0, 3)), None);
    let mut late = schedule(1, 4, 3);
    late.start_timestamp = i64::MAX - 60;
    assert_eq!(vesting_allocations(1000, &late), None);
    late.start_timestamp = i64::MAX - 80;
    assert!(vesting_allocations(1000, &late).is_some());
}

#[test]
fn new_accounts_follow_the_schedule() {
    let base = key(1);
    let program = Address::new(solana_stake_program::id().to_bytes());
    let signers = SignerKeys {
        stake_authority: None,
        withdraw_authority: None,
        fee_payer: Some(key(12)),
        sender: Some(key(13)),
    };
    let plans = new_stake_accounts(
        &base,
        &program,
        &signers,
        &key(20),
        &key(21),
        &key(22),
        1000,
        &schedule(1, 4, 3),
    )
    .unwrap();
    assert_eq!(plans.len(), 4);
    for (k, plan) in plans.iter().enumerate() {
        assert_eq!(plan.fee_payer, key(12));
        assert_eq!(
            plan.instructions,
            vec![StakeInstruction::CreateWithSeed {
                funder: key(13),
                stake_account: derive_stake_account_address(&base, k, &program),
                base,
                seed: k.to_string(),
                staker: key(20),
                withdrawer: key(21),
                lockup: Lockup {
                    unix_timestamp: 150 + 10 * k as i64,
                    epoch: 0,
                    custodian: key(22),
                },
                lamports: 250,
            }]
        );
        assert_eq!(to_instructions(plan).len(), 2);
    }
    let mut missing = signers;
    missing.sender = None;
    assert_eq!(
        new_stake_accounts(&base, &program, &missing, &key(20), &key(21), &key(22), 1000, &schedule(1, 4, 3)),
        Err(StakeAccountsError::MissingSigner(SignerRole::Sender))
    );
    assert_eq!(
        new_stake_accounts(&base, &program, &signers, &key(20), &key(21), &key(22), 1000, &schedule(5, 4, 3)),
        Err(StakeAccountsError::InvalidSchedule)
    );
}
