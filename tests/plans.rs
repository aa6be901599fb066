use stake_accounts::{
    authorize_stake_accounts, check_signers, create_authorize_instructions,
    create_move_transaction, derive_stake_account_address, move_stake_accounts,
    is_required, required_signers, to_instructions, to_transaction, withdraw_stake_account, Address,
    IntentKind, SignerKeys, SignerRole, StakeAccountsError, StakeAuthorize, StakeInstruction,
    TransferStakeKeys,
};

fn key(b: u8) -> Address {
    Address::new([b; 32])
}

fn program() -> Address {
    Address::new(solana_stake_program::id().to_bytes())
}

fn all_signers() -> SignerKeys {
    SignerKeys {
        stake_authority: Some(key(10)),
        withdraw_authority: Some(key(11)),
        fee_payer: Some(key(12)),
        sender: None,
    }
}

fn keys() -> TransferStakeKeys {
    TransferStakeKeys {
        stake_authority: key(10),
        withdraw_authority: key(11),
        fee_payer: key(12),
        new_stake_authority: key(20),
        new_withdraw_authority: key(21),
    }
}

fn authorize_target(ix: &StakeInstruction) -> Address {
    match ix {
        StakeInstruction::Authorize { stake_account, .. } => *stake_account,
        _ => panic!("not an authorize instruction"),
    }
}

#[test]
fn authorize_is_two_instructions_on_one_account() {
    let account = key(30);
    let ixs = create_authorize_instructions(&account, &keys());
    assert_eq!(
        ixs,
        vec![
            StakeInstruction::Authorize {
                stake_account: account,
                authority: key(10),
                new_authority: key(20),
                stake_authorize: StakeAuthorize::Staker,
            },
            StakeInstruction::Authorize {
                stake_account: account,
                authority: key(11),
                new_authority: key(21),
                stake_authorize: StakeAuthorize::Withdrawer,
            },
        ]
    );
}

#[test]
fn authorize_batch_covers_each_account() {
    let base = key(1);
    let plans =
        authorize_stake_accounts(&base, &program(), &all_signers(), &key(20), &key(21), 3).unwrap();
    assert_eq!(plans.len(), 3);
    for (i, plan) in plans.iter().enumerate() {
        let account = derive_stake_account_address(&base, i, &program());
        assert_eq!(plan.fee_payer, key(12));
        assert_eq!(plan.instructions, create_authorize_instructions(&account, &keys()));
        assert_eq!(authorize_target(&plan.instructions[0]), account);
        assert_eq!(authorize_target(&plan.instructions[1]), account);
    }
}

#[test]
fn authorize_batch_rejected_without_a_required_signer() {
    let base = key(1);
    let mut signers = all_signers();
    signers.withdraw_authority = None;
    assert_eq!(
        authorize_stake_accounts(&base, &program(), &signers, &key(20), &key(21), 3),
        Err(StakeAccountsError::MissingSigner(SignerRole::WithdrawAuthority))
    );
    let mut signers = all_signers();
    signers.stake_authority = None;
    signers.fee_payer = None;
    assert_eq!(
        authorize_stake_accounts(&base, &program(), &signers, &key(20), &key(21), 0),
        Err(StakeAccountsError::MissingSigner(SignerRole::StakeAuthority))
    );
}

#[test]
fn relocate_example() {
    let base = key(1);
    let new_base = key(2);
    let source = derive_stake_account_address(&base, 2, &program());
    let plan = create_move_transaction(&source, &keys(), 500, 2, &new_base, &program());
    let destination = derive_stake_account_address(&new_base, 2, &program());
    assert_eq!(plan.instructions.len(), 3);
    assert_eq!(
        plan.instructions[0],
        StakeInstruction::SplitWithSeed {
            stake_account: source,
            authority: key(10),
            lamports: 500,
            split_account: destination,
            base: new_base,
            seed: "2".to_string(),
        }
    );
    assert_eq!(plan.instructions[1..].to_vec(), create_authorize_instructions(&destination, &keys()));
    assert_eq!(plan.fee_payer, key(12));
}

#[test]
fn move_batch_uses_each_balance() {
    let base = key(1);
    let new_base = key(2);
    let balances = vec![100, 200, 300];
    let plans = move_stake_accounts(
        &base,
        &new_base,
        &program(),
        &all_signers(),
        &key(20),
        &key(21),
        &balances,
    )
    .unwrap();
    assert_eq!(plans.len(), 3);
    for (i, plan) in plans.iter().enumerate() {
        let source = derive_stake_account_address(&base, i, &program());
        assert_eq!(*plan, create_move_transaction(&source, &keys(), balances[i], i, &new_base, &program()));
    }
    let mut signers = all_signers();
    signers.fee_payer = None;
    assert_eq!(
        move_stake_accounts(&base, &new_base, &program(), &signers, &key(20), &key(21), &balances),
        Err(StakeAccountsError::MissingSigner(SignerRole::FeePayer))
    );
}

#[test]
fn withdraw_from_one_account() {
    let base = key(1);
    let signers = SignerKeys {
        stake_authority: None,
        withdraw_authority: Some(key(11)),
        fee_payer: Some(key(12)),
        sender: None,
    };
    let plan = withdraw_stake_account(&base, &program(), &signers, 4, &key(40), 777).unwrap();
    assert_eq!(plan.fee_payer, key(12));
    assert_eq!(
        plan.instructions,
        vec![StakeInstruction::Withdraw {
            stake_account: derive_stake_account_address(&base, 4, &program()),
            withdraw_authority: key(11),
            recipient: key(40),
            lamports: 777,
        }]
    );
    let mut signers = signers;
    signers.withdraw_authority = None;
    assert_eq!(
        withdraw_stake_account(&base, &program(), &signers, 4, &key(40), 777),
        Err(StakeAccountsError::MissingSigner(SignerRole::WithdrawAuthority))
    );
}

#[test]
fn required_signer_sets() {
    assert_eq!(
        required_signers(IntentKind::Authorize),
        vec![SignerRole::StakeAuthority, SignerRole::WithdrawAuthority, SignerRole::FeePayer]
    );
    assert_eq!(required_signers(IntentKind::Relocate), required_signers(IntentKind::Authorize));
    assert_eq!(
        required_signers(IntentKind::Withdraw),
        vec![SignerRole::WithdrawAuthority, SignerRole::FeePayer]
    );
    assert_eq!(
        required_signers(IntentKind::Deposit),
        vec![SignerRole::Sender, SignerRole::FeePayer]
    );
    assert!(is_required(IntentKind::Withdraw, SignerRole::FeePayer));
    assert!(!is_required(IntentKind::Withdraw, SignerRole::StakeAuthority));
    assert!(!is_required(IntentKind::Relocate, SignerRole::Sender));
    assert_eq!(check_signers(IntentKind::Authorize, &all_signers()), Ok(()));
    assert_eq!(check_signers(IntentKind::Deposit, &all_signers()), Err(SignerRole::Sender));
}

#[test]
fn ledger_instructions_of_a_move() {
    let base = key(1);
    let new_base = key(2);
    let source = derive_stake_account_address(&base, 0, &program());
    let plan = create_move_transaction(&source, &keys(), 500, 0, &new_base, &program());
    let ixs = to_instructions(&plan);
    assert_eq!(ixs.len(), 4);
    let stake_id = solana_stake_program::id();
    let destination = derive_stake_account_address(&new_base, 0, &program()).to_bytes();
    // the split itself, then the two authority changes, all on the stake program
    for ix in &ixs[1..] {
        assert_eq!(ix.program_id, stake_id);
    }
    assert_eq!(ixs[1].accounts[0].pubkey.to_bytes(), source.to_bytes());
    assert_eq!(ixs[1].accounts[1].pubkey.to_bytes(), destination);
    assert_eq!(ixs[2].accounts[0].pubkey.to_bytes(), destination);
    assert_eq!(ixs[3].accounts[0].pubkey.to_bytes(), destination);
    assert_ne!(ixs[2].data, ixs[3].data);
}

#[test]
fn ledger_transaction_is_paid_by_the_fee_payer() {
    let plan = withdraw_stake_account(&key(1), &program(), &all_signers(), 0, &key(40), 5).unwrap();
    let tx = to_transaction(&plan);
    assert_eq!(tx.message.account_keys[0].to_bytes(), key(12).to_bytes());
    assert_eq!(tx.message.instructions.len(), 1);
    let ixs = to_instructions(&plan);
    assert_eq!(ixs.len(), 1);
    assert_eq!(ixs[0].program_id, solana_stake_program::id());
    assert_eq!(ixs[0].accounts[1].pubkey.to_bytes(), key(40).to_bytes());
}
