use vstd::prelude::*;
use crate::address::Address;
use crate::plan::{Lockup, StakeAuthorize, StakeInstruction, TransactionPlan};
use solana_sdk::instruction::Instruction;
use solana_sdk::pubkey::Pubkey;
use solana_sdk::transaction::Transaction;

verus! {

/// solana_sdk's ledger instruction, carried through unopened.
#[verifier::external_type_specification]
#[verifier::external_body]
pub struct ExInstruction(Instruction);

/// solana_sdk's unsigned transaction, carried through unopened.
#[verifier::external_type_specification]
#[verifier::external_body]
pub struct ExTransaction(Transaction);

/// The number of ledger instructions that one planned instruction becomes.
pub open spec fn ledger_len(ix: StakeInstruction) -> nat {
    match ix {
        StakeInstruction::Authorize { .. } => 1,
        StakeInstruction::Withdraw { .. } => 1,
        StakeInstruction::SplitWithSeed { .. } => 2,
        StakeInstruction::CreateWithSeed { .. } => 2,
    }
}

/// The number of ledger instructions that a sequence of planned ones becomes.
pub open spec fn ledger_len_all(ixs: Seq<StakeInstruction>) -> nat
    decreases ixs.len(),
{
    if ixs.len() == 0 {
        0
    } else {
        ledger_len_all(ixs.drop_last()) + ledger_len(ixs.last())
    }
}

/// Relies on solana_stake_program::stake_instruction::authorize, which encodes
/// the reassignment of one authority of a stake account.
#[verifier::external_body]
fn authorize_instruction(
    stake_account: &Address,
    authority: &Address,
    new_authority: &Address,
    stake_authorize: StakeAuthorize,
) -> (r: Instruction) {
    let stake_authorize = match stake_authorize {
        StakeAuthorize::Staker => solana_stake_program::stake_state::StakeAuthorize::Staker,
        StakeAuthorize::Withdrawer => solana_stake_program::stake_state::StakeAuthorize::Withdrawer,
    };
    solana_stake_program::stake_instruction::authorize(
        &Pubkey::new_from_array(stake_account.bytes),
        &Pubkey::new_from_array(authority.bytes),
        &Pubkey::new_from_array(new_authority.bytes),
        stake_authorize,
    )
}

/// Relies on solana_stake_program::stake_instruction::split_with_seed, which
/// returns two instructions: allocating the new account, then the split.
#[verifier::external_body]
fn split_with_seed_instructions(
    stake_account: &Address,
    authority: &Address,
    lamports: u64,
    split_account: &Address,
    base: &Address,
    seed: &str,
) -> (r: Vec<Instruction>)
    ensures
        r@.len() == 2,
{
    solana_stake_program::stake_instruction::split_with_seed(
        &Pubkey::new_from_array(stake_account.bytes),
        &Pubkey::new_from_array(authority.bytes),
        lamports,
        &Pubkey::new_from_array(split_account.bytes),
        &Pubkey::new_from_array(base.bytes),
        seed,
    )
}

/// Relies on solana_stake_program::stake_instruction::withdraw, which encodes a
/// payment out of a stake account; no custodian is named.
#[verifier::external_body]
fn withdraw_instruction(
    stake_account: &Address,
    withdraw_authority: &Address,
    recipient: &Address,
    lamports: u64,
) -> (r: Instruction) {
    solana_stake_program::stake_instruction::withdraw(
        &Pubkey::new_from_array(stake_account.bytes),
        &Pubkey::new_from_array(withdraw_authority.bytes),
        &Pubkey::new_from_array(recipient.bytes),
        lamports,
        None,
    )
}

/// Relies on solana_stake_program::stake_instruction::create_account_with_seed,
/// which returns two instructions: creating and funding the account, then
/// initializing it with its authorities and lockup.
#[verifier::external_body]
fn create_with_seed_instructions(
    funder: &Address,
    stake_account: &Address,
    base: &Address,
    seed: &str,
    staker: &Address,
    withdrawer: &Address,
    lockup: &Lockup,
    lamports: u64,
) -> (r: Vec<Instruction>)
    ensures
        r@.len() == 2,
{
    let authorized = solana_stake_program::stake_state::Authorized {
        staker: Pubkey::new_from_array(staker.bytes),
        withdrawer: Pubkey::new_from_array(withdrawer.bytes),
    };
    let lockup = solana_stake_program::stake_state::Lockup {
        unix_timestamp: lockup.unix_timestamp,
        epoch: lockup.epoch,
        custodian: Pubkey::new_from_array(lockup.custodian.bytes),
    };
    let (from, stake) = (Pubkey::new_from_array(funder.bytes), Pubkey::new_from_array(stake_account.bytes));
    let base = Pubkey::new_from_array(base.bytes);
    solana_stake_program::stake_instruction::create_account_with_seed(
        &from, &stake, &base, seed, &authorized, &lockup, lamports,
    )
}

/// Relies on solana_sdk::transaction::Transaction::new_with_payer, which makes
/// an unsigned transaction of the instructions, in order, paid by `fee_payer`.
#[verifier::external_body]
fn transaction_with_payer(instructions: Vec<Instruction>, fee_payer: &Address) -> (r: Transaction) {
    Transaction::new_with_payer(instructions, Some(&Pubkey::new_from_array(fee_payer.bytes)))
}

/// The ledger instructions of `plan`, in order: each planned instruction
/// becomes the one or two that the stake program defines for it.
pub fn to_instructions(plan: &TransactionPlan) -> (r: Vec<Instruction>)
    ensures
        r@.len() == ledger_len_all(plan.instructions@),
{
    let mut r: Vec<Instruction> = Vec::new();
    for k in 0..plan.instructions.len()
        invariant
            r@.len() == ledger_len_all(plan.instructions@.take(k as int)),
    {
        proof {
            let t = plan.instructions@.take(k + 1);
            assert(t.drop_last() == plan.instructions@.take(k as int));
            assert(t.last() == plan.instructions@[k as int]);
        }
        match &plan.instructions[k] {
            StakeInstruction::Authorize { stake_account, authority, new_authority, stake_authorize } => {
                r.push(authorize_instruction(stake_account, authority, new_authority, *stake_authorize));
            },
            StakeInstruction::SplitWithSeed { stake_account, authority, lamports, split_account, base, seed } => {
                let mut ixs = split_with_seed_instructions(
                    stake_account,
                    authority,
                    *lamports,
                    split_account,
                    base,
                    seed.as_str(),
                );
                r.append(&mut ixs);
            },
            StakeInstruction::Withdraw { stake_account, withdraw_authority, recipient, lamports } => {
                r.push(withdraw_instruction(stake_account, withdraw_authority, recipient, *lamports));
            },
            StakeInstruction::CreateWithSeed {
                funder,
                stake_account,
                base,
                seed,
                staker,
                withdrawer,
                lockup,
                lamports,
            } => {
                let mut ixs = create_with_seed_instructions(
                    funder,
                    stake_account,
                    base,
                    seed.as_str(),
                    staker,
                    withdrawer,
                    lockup,
                    *lamports,
                );
                r.append(&mut ixs);
            },
        }
    }
    assert(plan.instructions@.take(plan.instructions@.len() as int) == plan.instructions@);
    r
}

/// The unsigned ledger transaction of `plan`: its instructions in order, paid
/// by its fee payer.
pub fn to_transaction(plan: &TransactionPlan) -> Transaction {
    let instructions = to_instructions(plan);
    transaction_with_payer(instructions, &plan.fee_payer)
}

/// The unsigned ledger transactions of `plans`, one each, in order.
pub fn to_transactions(plans: &Vec<TransactionPlan>) -> (r: Vec<Transaction>)
    ensures
        r@.len() == plans@.len(),
{
    let mut r: Vec<Transaction> = Vec::new();
    for k in 0..plans.len()
        invariant
            r@.len() == k,
    {
        r.push(to_transaction(&plans[k]));
    }
    r
}

} // verus!
