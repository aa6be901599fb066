use vstd::prelude::*;
use crate::address::{
    decimal, derive_stake_account_address, derive_stake_account_addresses, derived_address,
    index_seed, Address,
};
use crate::signers::{check_signers, first_missing_role, IntentKind, SignerKeys, SignerRole};

verus! {

/// Which authority of a stake account an `Authorize` instruction reassigns.
#[derive(Clone, Copy, Debug, PartialEq, Eq)]
pub enum StakeAuthorize {
    Staker,
    Withdrawer,
}

/// The lockup of a stake account: until `unix_timestamp` and `epoch` have
/// passed, only `custodian` may lift it.
#[derive(Clone, Copy, Debug, PartialEq, Eq)]
pub struct Lockup {
    pub unix_timestamp: i64,
    pub epoch: u64,
    pub custodian: Address,
}

/// One step of a transaction on stake accounts, with every address it names.
#[derive(Clone, Debug, PartialEq, Eq)]
pub enum StakeInstruction {
    /// Hands the `stake_authorize` authority of `stake_account` from `authority`
    /// to `new_authority`.
    Authorize {
        stake_account: Address,
        authority: Address,
        new_authority: Address,
        stake_authorize: StakeAuthorize,
    },
    /// Moves `lamports` out of `stake_account` into the new account
    /// `split_account`, derived from `base` and `seed`.
    SplitWithSeed {
        stake_account: Address,
        authority: Address,
        lamports: u64,
        split_account: Address,
        base: Address,
        seed: String,
    },
    /// Pays `lamports` out of `stake_account` to `recipient`.
    Withdraw {
        stake_account: Address,
        withdraw_authority: Address,
        recipient: Address,
        lamports: u64,
    },
    /// Creates `stake_account`, derived from `base` and `seed`, funds it with
    /// `lamports` from `funder`, and initializes it with its authorities and lockup.
    CreateWithSeed {
        funder: Address,
        stake_account: Address,
        base: Address,
        seed: String,
        staker: Address,
        withdrawer: Address,
        lockup: Lockup,
        lamports: u64,
    },
}

/// The instructions of one transaction, in order, and who pays its fee.
#[derive(Clone, Debug, PartialEq, Eq)]
pub struct TransactionPlan {
    pub instructions: Vec<StakeInstruction>,
    pub fee_payer: Address,
}

/// The errors of building a batch.
#[derive(Clone, Copy, Debug, PartialEq, Eq)]
pub enum StakeAccountsError {
    /// The batch needs a signature of this role and no signer was supplied for it.
    MissingSigner(SignerRole),
    /// The vesting schedule cannot be laid out: its cliff fraction exceeds one,
    /// its denominator is zero, or its last unlock time is past the largest
    /// timestamp.
    InvalidSchedule,
}

/// Current authorities, fee payer and new authorities of an authority change.
#[derive(Clone, Copy, Debug, PartialEq, Eq)]
pub struct TransferStakeKeys {
    pub stake_authority: Address,
    pub withdraw_authority: Address,
    pub fee_payer: Address,
    pub new_stake_authority: Address,
    pub new_withdraw_authority: Address,
}

/// The two instructions that move both authorities of `stake_account`: the
/// staker first, then the withdrawer.
pub open spec fn authorize_pair(stake_account: Address, keys: TransferStakeKeys) -> Seq<
    StakeInstruction,
> {
    seq![
        StakeInstruction::Authorize {
            stake_account,
            authority: keys.stake_authority,
            new_authority: keys.new_stake_authority,
            stake_authorize: StakeAuthorize::Staker,
        },
        StakeInstruction::Authorize {
            stake_account,
            authority: keys.withdraw_authority,
            new_authority: keys.new_withdraw_authority,
            stake_authorize: StakeAuthorize::Withdrawer,
        },
    ]
}

/// `ix` splits `lamports` out of `source` into the account at index `i` under `new_base`.
pub open spec fn is_split_to_index(
    ix: StakeInstruction,
    source: Address,
    authority: Address,
    lamports: u64,
    new_base: Address,
    i: nat,
    program_id: Seq<u8>,
) -> bool {
    &&& ix matches StakeInstruction::SplitWithSeed {
        stake_account,
        authority: a,
        lamports: l,
        split_account,
        base,
        seed,
    }
    &&& stake_account == source
    &&& a == authority
    &&& l == lamports
    &&& split_account.bytes@ == derived_address(new_base.bytes@, i, program_id)
    &&& base == new_base
    &&& seed@ == decimal(i)
}

/// `plan` relocates the account `source` at index `i` to the same index under
/// `new_base`: one split that moves `lamports`, then both authorities of the new
/// account handed over, with `keys.fee_payer` paying.
pub open spec fn is_move_plan(
    plan: TransactionPlan,
    source: Address,
    keys: TransferStakeKeys,
    lamports: u64,
    new_base: Address,
    i: nat,
    program_id: Seq<u8>,
) -> bool {
    let ixs = plan.instructions@;
    &&& ixs.len() == 3
    &&& is_split_to_index(ixs[0], source, keys.stake_authority, lamports, new_base, i, program_id)
    &&& ixs[0] matches StakeInstruction::SplitWithSeed { split_account, .. } && ixs.subrange(1, 3)
        == authorize_pair(split_account, keys)
    &&& plan.fee_payer == keys.fee_payer
}

/// The keys of an authority change, when the signers of every role it needs are there.
pub open spec fn transfer_keys(
    signers: SignerKeys,
    new_stake_authority: Address,
    new_withdraw_authority: Address,
) -> TransferStakeKeys {
    TransferStakeKeys {
        stake_authority: signers.stake_authority->Some_0,
        withdraw_authority: signers.withdraw_authority->Some_0,
        fee_payer: signers.fee_payer->Some_0,
        new_stake_authority,
        new_withdraw_authority,
    }
}

/// The two instructions that hand both authorities of `stake_account` to the
/// new authorities in `keys`; in one transaction they take effect together.
pub fn create_authorize_instructions(stake_account: &Address, keys: &TransferStakeKeys) -> (r: Vec<
    StakeInstruction,
>)
    ensures
        r@ == authorize_pair(*stake_account, *keys),
{
    let instruction0 = StakeInstruction::Authorize {
        stake_account: *stake_account,
        authority: keys.stake_authority,
        new_authority: keys.new_stake_authority,
        stake_authorize: StakeAuthorize::Staker,
    };
    let instruction1 = StakeInstruction::Authorize {
        stake_account: *stake_account,
        authority: keys.withdraw_authority,
        new_authority: keys.new_withdraw_authority,
        stake_authorize: StakeAuthorize::Withdrawer,
    };
    vec![instruction0, instruction1]
}

/// The transaction that relocates `stake_account`, the account at index `i`,
/// to index `i` under `new_base`, moving `lamports`, and hands the new account's
/// authorities over.
pub fn create_move_transaction(
    stake_account: &Address,
    keys: &TransferStakeKeys,
    lamports: u64,
    i: usize,
    new_base: &Address,
    program_id: &Address,
) -> (r: TransactionPlan)
    ensures
        is_move_plan(r, *stake_account, *keys, lamports, *new_base, i as nat, program_id.bytes@),
{
    let new_stake_account_address = derive_stake_account_address(new_base, i, program_id);
    let split = StakeInstruction::SplitWithSeed {
        stake_account: *stake_account,
        authority: keys.stake_authority,
        lamports,
        split_account: new_stake_account_address,
        base: *new_base,
        seed: index_seed(i),
    };
    let mut instructions = vec![split];
    let mut authorize_instructions = create_authorize_instructions(&new_stake_account_address, keys);
    instructions.append(&mut authorize_instructions);
    assert(instructions@.subrange(1, 3) == authorize_pair(new_stake_account_address, *keys));
    TransactionPlan { instructions, fee_payer: keys.fee_payer }
}

/// One transaction per account at indices `0..num_accounts` under `base`, each
/// handing both authorities to the new ones. Fails before building anything
/// when a signer the batch needs is missing.
pub fn authorize_stake_accounts(
    base: &Address,
    program_id: &Address,
    signers: &SignerKeys,
    new_stake_authority: &Address,
    new_withdraw_authority: &Address,
    num_accounts: usize,
) -> (r: Result<Vec<TransactionPlan>, StakeAccountsError>)
    ensures
        r is Err <==> first_missing_role(IntentKind::Authorize, *signers) is Some,
        r matches Err(StakeAccountsError::MissingSigner(role)) ==> first_missing_role(
            IntentKind::Authorize,
            *signers,
        ) == Some(role),
        r matches Ok(plans) ==> {
            let keys = transfer_keys(*signers, *new_stake_authority, *new_withdraw_authority);
            &&& plans@.len() == num_accounts
            &&& forall|i: int|
                0 <= i < num_accounts ==> {
                    &&& (#[trigger] plans@[i]).fee_payer == keys.fee_payer
                    &&& plans@[i].instructions@.len() == 2
                    &&& plans@[i].instructions@[0] matches StakeInstruction::Authorize {
                        stake_account,
                        ..
                    } && stake_account.bytes@ == derived_address(
                        base.bytes@,
                        i as nat,
                        program_id.bytes@,
                    ) && plans@[i].instructions@ == authorize_pair(stake_account, keys)
                }
        },
{
    if let Err(role) = check_signers(IntentKind::Authorize, signers) {
        return Err(StakeAccountsError::MissingSigner(role));
    }
    assert(signers.spec_signer(SignerRole::StakeAuthority) is Some);
    assert(signers.spec_signer(SignerRole::WithdrawAuthority) is Some);
    assert(signers.spec_signer(SignerRole::FeePayer) is Some);
    let keys = TransferStakeKeys {
        stake_authority: signers.stake_authority.unwrap(),
        withdraw_authority: signers.withdraw_authority.unwrap(),
        fee_payer: signers.fee_payer.unwrap(),
        new_stake_authority: *new_stake_authority,
        new_withdraw_authority: *new_withdraw_authority,
    };
    assert(keys == transfer_keys(*signers, *new_stake_authority, *new_withdraw_authority));
    let addresses = derive_stake_account_addresses(base, num_accounts, program_id);
    let mut plans: Vec<TransactionPlan> = Vec::new();
    for i in 0..num_accounts
        invariant
            addresses@.len() == num_accounts,
            forall|j: int|
                0 <= j < num_accounts ==> #[trigger] addresses@[j].bytes@ == derived_address(
                    base.bytes@,
                    j as nat,
                    program_id.bytes@,
                ),
            plans@.len() == i,
            forall|j: int|
                0 <= j < i ==> {
                    &&& (#[trigger] plans@[j]).fee_payer == keys.fee_payer
                    &&& plans@[j].instructions@.len() == 2
                    &&& plans@[j].instructions@[0] matches StakeInstruction::Authorize {
                        stake_account,
                        ..
                    } && stake_account.bytes@ == derived_address(
                        base.bytes@,
                        j as nat,
                        program_id.bytes@,
                    ) && plans@[j].instructions@ == authorize_pair(stake_account, keys)
                },
    {
        let instructions = create_authorize_instructions(&addresses[i], &keys);
        plans.push(TransactionPlan { instructions, fee_payer: keys.fee_payer });
    }
    Ok(plans)
}

/// One transaction per account under `base`, the `i`-th relocating the account
/// at index `i` with the balance `balances[i]` to index `i` under `new_base`
/// and handing its authorities to the new ones. Fails before building anything
/// when a signer the batch needs is missing. A batch that was partly submitted
/// must not be built again from the same balances: the accounts already split
/// are empty now, so read the balances anew first.
pub fn move_stake_accounts(
    base: &Address,
    new_base: &Address,
    program_id: &Address,
    signers: &SignerKeys,
    new_stake_authority: &Address,
    new_withdraw_authority: &Address,
    balances: &Vec<u64>,
) -> (r: Result<Vec<TransactionPlan>, StakeAccountsError>)
    ensures
        r is Err <==> first_missing_role(IntentKind::Relocate, *signers) is Some,
        r matches Err(StakeAccountsError::MissingSigner(role)) ==> first_missing_role(
            IntentKind::Relocate,
            *signers,
        ) == Some(role),
        r matches Ok(plans) ==> {
            let keys = transfer_keys(*signers, *new_stake_authority, *new_withdraw_authority);
            &&& plans@.len() == balances@.len()
            &&& forall|i: int|
                0 <= i < balances@.len() ==> {
                    &&& (#[trigger] plans@[i]).instructions@[0] matches StakeInstruction::SplitWithSeed {
                        stake_account,
                        ..
                    } && stake_account.bytes@ == derived_address(
                        base.bytes@,
                        i as nat,
                        program_id.bytes@,
                    ) && is_move_plan(
                        plans@[i],
                        stake_account,
                        keys,
                        balances@[i],
                        *new_base,
                        i as nat,
                        program_id.bytes@,
                    )
                }
        },
{
    if let Err(role) = check_signers(IntentKind::Relocate, signers) {
        return Err(StakeAccountsError::MissingSigner(role));
    }
    assert(signers.spec_signer(SignerRole::StakeAuthority) is Some);
    assert(signers.spec_signer(SignerRole::WithdrawAuthority) is Some);
    assert(signers.spec_signer(SignerRole::FeePayer) is Some);
    let keys = TransferStakeKeys {
        stake_authority: signers.stake_authority.unwrap(),
        withdraw_authority: signers.withdraw_authority.unwrap(),
        fee_payer: signers.fee_payer.unwrap(),
        new_stake_authority: *new_stake_authority,
        new_withdraw_authority: *new_withdraw_authority,
    };
    assert(keys == transfer_keys(*signers, *new_stake_authority, *new_withdraw_authority));
    let num_accounts = balances.len();
    let addresses = derive_stake_account_addresses(base, num_accounts, program_id);
    let mut plans: Vec<TransactionPlan> = Vec::new();
    for i in 0..num_accounts
        invariant
            num_accounts == balances@.len(),
            addresses@.len() == num_accounts,
            forall|j: int|
                0 <= j < num_accounts ==> #[trigger] addresses@[j].bytes@ == derived_address(
                    base.bytes@,
                    j as nat,
                    program_id.bytes@,
                ),
            plans@.len() == i,
            forall|j: int|
                0 <= j < i ==> {
                    &&& (#[trigger] plans@[j]).instructions@[0] matches StakeInstruction::SplitWithSeed {
                        stake_account,
                        ..
                    } && stake_account.bytes@ == derived_address(
                        base.bytes@,
                        j as nat,
                        program_id.bytes@,
                    ) && is_move_plan(
                        plans@[j],
                        stake_account,
                        keys,
                        balances@[j],
                        *new_base,
                        j as nat,
                        program_id.bytes@,
                    )
                },
    {
        let plan = create_move_transaction(&addresses[i], &keys, balances[i], i, new_base, program_id);
        plans.push(plan);
    }
    Ok(plans)
}

/// The transaction that pays `lamports` out of the account at `index` under
/// `base` to `recipient`. Whether the account holds that much is for the ledger
/// to decide when the transaction runs. Fails when a signer it needs is missing.
pub fn withdraw_stake_account(
    base: &Address,
    program_id: &Address,
    signers: &SignerKeys,
    index: usize,
    recipient: &Address,
    lamports: u64,
) -> (r: Result<TransactionPlan, StakeAccountsError>)
    ensures
        r is Err <==> first_missing_role(IntentKind::Withdraw, *signers) is Some,
        r matches Err(StakeAccountsError::MissingSigner(role)) ==> first_missing_role(
            IntentKind::Withdraw,
            *signers,
        ) == Some(role),
        r matches Ok(plan) ==> {
            &&& plan.fee_payer == signers.fee_payer->Some_0
            &&& plan.instructions@.len() == 1
            &&& plan.instructions@[0] matches StakeInstruction::Withdraw {
                stake_account,
                withdraw_authority,
                recipient: to,
                lamports: l,
            }
            &&& stake_account.bytes@ == derived_address(
                base.bytes@,
                index as nat,
                program_id.bytes@,
            )
            &&& withdraw_authority == signers.withdraw_authority->Some_0
            &&& to == *recipient
            &&& l == lamports
        },
{
    if let Err(role) = check_signers(IntentKind::Withdraw, signers) {
        return Err(StakeAccountsError::MissingSigner(role));
    }
    assert(signers.spec_signer(SignerRole::WithdrawAuthority) is Some);
    assert(signers.spec_signer(SignerRole::FeePayer) is Some);
    let stake_account = derive_stake_account_address(base, index, program_id);
    let withdraw = StakeInstruction::Withdraw {
        stake_account,
        withdraw_authority: signers.withdraw_authority.unwrap(),
        recipient: *recipient,
        lamports,
    };
    Ok(TransactionPlan { instructions: vec![withdraw], fee_payer: signers.fee_payer.unwrap() })
}

/// An authority change is two instructions on one and the same account, the
/// staker first and the withdrawer second, each from the current authority to
/// the new one; placed in one transaction they commit or fail together.
pub proof fn lemma_authorize_pair_one_account(stake_account: Address, keys: TransferStakeKeys)
    ensures
        authorize_pair(stake_account, keys).len() == 2,
        forall|k: int|
            0 <= k < 2 ==> ((#[trigger] authorize_pair(stake_account, keys)[k]) matches StakeInstruction::Authorize {
                stake_account: s,
                ..
            } && s == stake_account),
        authorize_pair(stake_account, keys)[0] matches StakeInstruction::Authorize {
            stake_authorize: StakeAuthorize::Staker,
            ..
        },
        authorize_pair(stake_account, keys)[1] matches StakeInstruction::Authorize {
            stake_authorize: StakeAuthorize::Withdrawer,
            ..
        },
{
}

} // verus!
