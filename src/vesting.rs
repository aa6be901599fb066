use vstd::prelude::*;
use crate::address::{decimal, derive_stake_account_address, derived_address, index_seed, Address};
use crate::plan::{Lockup, StakeAccountsError, StakeInstruction, TransactionPlan};
use crate::signers::{check_signers, first_missing_role, IntentKind, SignerKeys, SignerRole};

verus! {

/// How a deposit is spread over new accounts: the first account holds the
/// cliff fraction `cliff_numerator / cliff_denominator` of the total and
/// unlocks `cliff_seconds` after `start_timestamp`; the rest is split evenly
/// over `unlocks` more accounts, the `k`-th unlocking `k` intervals of
/// `unlock_interval_seconds` after the cliff.
#[derive(Clone, Copy, Debug, PartialEq, Eq)]
pub struct VestingSchedule {
    pub cliff_numerator: u64,
    pub cliff_denominator: u64,
    pub start_timestamp: i64,
    pub cliff_seconds: u64,
    pub unlock_interval_seconds: u64,
    pub unlocks: u64,
}

/// The share of one account: its lamports and the time its lockup ends.
#[derive(Clone, Copy, Debug, PartialEq, Eq)]
pub struct Allocation {
    pub lamports: u64,
    pub unix_timestamp: i64,
}

/// The time the account at index `k` unlocks.
pub open spec fn unlock_time(s: VestingSchedule, k: nat) -> int {
    s.start_timestamp + s.cliff_seconds + k * s.unlock_interval_seconds
}

/// A schedule can be laid out: its fraction is at most one, its last unlock
/// time is a timestamp, and its accounts can be counted.
pub open spec fn schedule_valid(s: VestingSchedule) -> bool {
    &&& s.cliff_denominator > 0
    &&& s.cliff_numerator <= s.cliff_denominator
    &&& unlock_time(s, s.unlocks as nat) <= i64::MAX
    &&& s.unlocks < usize::MAX
}

/// The number of accounts a schedule spreads a deposit over.
pub open spec fn allocation_count(s: VestingSchedule) -> nat {
    (s.unlocks + 1) as nat
}

pub open spec fn cliff_lamports(total: u64, s: VestingSchedule) -> int {
    (total * s.cliff_numerator) / (s.cliff_denominator as int)
}

pub open spec fn bucket_lamports(total: u64, s: VestingSchedule) -> int {
    (total - cliff_lamports(total, s)) / (s.unlocks as int)
}

/// The lamports of the account at index `k`: the cliff share first, then even
/// buckets, the last of which also takes what the even split leaves over.
/// Without unlocks the one account holds the whole deposit.
pub open spec fn allocation_lamports(total: u64, s: VestingSchedule, k: nat) -> int {
    if s.unlocks == 0 {
        total as int
    } else if k == 0 {
        cliff_lamports(total, s)
    } else if k < s.unlocks {
        bucket_lamports(total, s)
    } else {
        total - cliff_lamports(total, s) - (s.unlocks - 1) * bucket_lamports(total, s)
    }
}

pub open spec fn sum_lamports(allocations: Seq<Allocation>) -> int
    decreases allocations.len(),
{
    if allocations.len() == 0 {
        0
    } else {
        sum_lamports(allocations.drop_last()) + allocations.last().lamports
    }
}

proof fn lemma_split_bounds(total: u64, s: VestingSchedule)
    requires
        s.cliff_denominator > 0,
        s.cliff_numerator <= s.cliff_denominator,
    ensures
        0 <= cliff_lamports(total, s) <= total,
        s.unlocks > 0 ==> 0 <= bucket_lamports(total, s),
        s.unlocks > 0 ==> s.unlocks * bucket_lamports(total, s) <= total - cliff_lamports(
            total,
            s,
        ),
{
    let t = total as int;
    let n = s.cliff_numerator as int;
    let d = s.cliff_denominator as int;
    assert(t * n <= t * d) by (nonlinear_arith)
        requires
            0 <= t,
            n <= d,
    ;
    assert(0 <= (t * n) / d <= t) by (nonlinear_arith)
        requires
            t * n <= t * d,
            0 <= t,
            0 <= n,
            d > 0,
    ;
    if s.unlocks > 0 {
        let rest = t - cliff_lamports(total, s);
        let u = s.unlocks as int;
        assert(0 <= rest / u && u * (rest / u) <= rest) by (nonlinear_arith)
            requires
                0 <= rest,
                u > 0,
        ;
    }
}

/// The allocations of `total` lamports under `s`, one per account in index
/// order; `None` exactly when the schedule cannot be laid out.
pub fn vesting_allocations(total: u64, s: &VestingSchedule) -> (r: Option<Vec<Allocation>>)
    ensures
        r is None <==> !schedule_valid(*s),
        r matches Some(v) ==> {
            &&& v@.len() == allocation_count(*s)
            &&& forall|k: int|
                0 <= k < v@.len() ==> {
                    &&& (#[trigger] v@[k]).lamports == allocation_lamports(total, *s, k as nat)
                    &&& v@[k].unix_timestamp == unlock_time(*s, k as nat)
                }
        },
{
    if s.cliff_denominator == 0 || s.cliff_numerator > s.cliff_denominator || s.unlocks
        == u64::MAX || s.unlocks as u128 >= usize::MAX as u128 {
        return None;
    }
    assert(s.unlocks * s.unlock_interval_seconds <= 0xffff_ffff_ffff_ffff * 0xffff_ffff_ffff_ffffint)
        by (nonlinear_arith)
        requires
            s.unlocks <= 0xffff_ffff_ffff_ffffint,
            s.unlock_interval_seconds <= 0xffff_ffff_ffff_ffffint,
            0 <= s.unlocks,
            0 <= s.unlock_interval_seconds,
    ;
    let span: u128 = s.cliff_seconds as u128 + (s.unlocks as u128) * (s.unlock_interval_seconds as u128);
    if span > u64::MAX as u128 {
        return None;
    }
    let last: i128 = s.start_timestamp as i128 + span as i128;
    if last > i64::MAX as i128 {
        return None;
    }
    proof {
        lemma_split_bounds(total, *s);
    }
    assert(total * s.cliff_numerator <= 0xffff_ffff_ffff_ffff * 0xffff_ffff_ffff_ffffint)
        by (nonlinear_arith)
        requires
            total <= 0xffff_ffff_ffff_ffffint,
            s.cliff_numerator <= 0xffff_ffff_ffff_ffffint,
            0 <= total,
            0 <= s.cliff_numerator,
    ;
    let cliff: u64 = ((total as u128 * s.cliff_numerator as u128) / s.cliff_denominator as u128) as u64;
    let rest: u64 = total - cliff;
    let mut v: Vec<Allocation> = Vec::new();
    if s.unlocks == 0 {
        v.push(Allocation { lamports: total, unix_timestamp: (s.start_timestamp as i128 + s.cliff_seconds as i128) as i64 });
        return Some(v);
    }
    let bucket: u64 = rest / s.unlocks;
    let n: usize = s.unlocks as usize;
    let mut k: usize = 0;
    while k <= n
        invariant
            schedule_valid(*s),
            s.unlocks > 0,
            n == s.unlocks,
            k <= n + 1,
            cliff == cliff_lamports(total, *s),
            bucket == bucket_lamports(total, *s),
            rest == total - cliff,
            s.unlocks * bucket_lamports(total, *s) <= rest,
            v@.len() == k,
            forall|j: int|
                0 <= j < k ==> {
                    &&& (#[trigger] v@[j]).lamports == allocation_lamports(total, *s, j as nat)
                    &&& v@[j].unix_timestamp == unlock_time(*s, j as nat)
                },
        decreases n + 1 - k,
    {
        let lamports: u64 = if k == 0 {
            cliff
        } else if k < n {
            bucket
        } else {
            assert((s.unlocks - 1) * bucket <= s.unlocks * bucket) by (nonlinear_arith)
                requires
                    s.unlocks >= 1,
            ;
            rest - (n as u64 - 1) * bucket
        };
        assert(unlock_time(*s, k as nat) <= unlock_time(*s, s.unlocks as nat)) by (nonlinear_arith)
            requires
                k <= s.unlocks,
        ;
        assert(k * s.unlock_interval_seconds >= 0) by (nonlinear_arith);
        let t: i128 = s.start_timestamp as i128 + s.cliff_seconds as i128 + (k as i128) * (
        s.unlock_interval_seconds as i128);
        v.push(Allocation { lamports, unix_timestamp: t as i64 });
        k = k + 1;
    }
    Some(v)
}

/// The allocations of a schedule account for every lamport of the deposit.
pub proof fn lemma_allocations_sum_to_total(total: u64, s: VestingSchedule, v: Seq<Allocation>)
    requires
        schedule_valid(s),
        v.len() == allocation_count(s),
        forall|k: int|
            0 <= k < v.len() ==> (#[trigger] v[k]).lamports == allocation_lamports(
                total,
                s,
                k as nat,
            ),
    ensures
        sum_lamports(v) == total,
{
    if s.unlocks == 0 {
        assert(v.drop_last().len() == 0);
        assert(sum_lamports(v.drop_last()) == 0);
        assert(v.last() == v[0]);
    } else {
        lemma_prefix_sum(total, s, v, s.unlocks as nat);
        assert(v.take(s.unlocks as int) == v.drop_last());
        assert(v.last() == v[s.unlocks as int]);
        assert(v[s.unlocks as int].lamports == allocation_lamports(total, s, s.unlocks as nat));
    }
}

proof fn lemma_prefix_sum(total: u64, s: VestingSchedule, v: Seq<Allocation>, k: nat)
    requires
        s.unlocks > 0,
        1 <= k <= s.unlocks,
        v.len() == allocation_count(s),
        forall|j: int|
            0 <= j < v.len() ==> (#[trigger] v[j]).lamports == allocation_lamports(
                total,
                s,
                j as nat,
            ),
    ensures
        sum_lamports(v.take(k as int)) == cliff_lamports(total, s) + (k - 1) * bucket_lamports(
            total,
            s,
        ),
    decreases k,
{
    let p = v.take(k as int);
    if k == 1 {
        assert(p.drop_last().len() == 0);
        assert(sum_lamports(p.drop_last()) == 0);
        assert(p.last() == v[0]);
        assert(v[0].lamports == allocation_lamports(total, s, 0));
    } else {
        lemma_prefix_sum(total, s, v, (k - 1) as nat);
        assert(p.drop_last() == v.take(k - 1));
        assert(p.last() == v[k - 1]);
        assert(v[k - 1].lamports == allocation_lamports(total, s, (k - 1) as nat));
        assert((k - 2) * bucket_lamports(total, s) + bucket_lamports(total, s) == (k - 1)
            * bucket_lamports(total, s)) by (nonlinear_arith);
    }
}

/// One transaction per allocation of `total_lamports` under `schedule`: the
/// `k`-th creates the account at index `k` under `base`, funds it from the
/// sender with its share, and sets its authorities and its lockup, which ends at
/// the allocation's time under `custodian`. Missing signers are reported first,
/// then a schedule that cannot be laid out.
pub fn new_stake_accounts(
    base: &Address,
    program_id: &Address,
    signers: &SignerKeys,
    stake_authority: &Address,
    withdraw_authority: &Address,
    custodian: &Address,
    total_lamports: u64,
    schedule: &VestingSchedule,
) -> (r: Result<Vec<TransactionPlan>, StakeAccountsError>)
    ensures
        (r matches Err(StakeAccountsError::MissingSigner(_))) <==> first_missing_role(
            IntentKind::Deposit,
            *signers,
        ) is Some,
        r matches Err(StakeAccountsError::MissingSigner(role)) ==> first_missing_role(
            IntentKind::Deposit,
            *signers,
        ) == Some(role),
        r == Err::<Vec<TransactionPlan>, _>(StakeAccountsError::InvalidSchedule) <==> (
        first_missing_role(IntentKind::Deposit, *signers) is None && !schedule_valid(*schedule)),
        r matches Ok(plans) ==> {
            &&& plans@.len() == allocation_count(*schedule)
            &&& forall|k: int|
                0 <= k < plans@.len() ==> {
                    &&& (#[trigger] plans@[k]).fee_payer == signers.fee_payer->Some_0
                    &&& plans@[k].instructions@.len() == 1
                    &&& plans@[k].instructions@[0] matches StakeInstruction::CreateWithSeed {
                        funder,
                        stake_account,
                        base: b,
                        seed,
                        staker,
                        withdrawer,
                        lockup,
                        lamports,
                    }
                    &&& funder == signers.sender->Some_0
                    &&& stake_account.bytes@ == derived_address(
                        base.bytes@,
                        k as nat,
                        program_id.bytes@,
                    )
                    &&& b == *base
                    &&& seed@ == decimal(k as nat)
                    &&& staker == *stake_authority
                    &&& withdrawer == *withdraw_authority
                    &&& lockup == (Lockup {
                        unix_timestamp: unlock_time(*schedule, k as nat) as i64,
                        epoch: 0,
                        custodian: *custodian,
                    })
                    &&& lamports == allocation_lamports(total_lamports, *schedule, k as nat)
                }
        },
{
    if let Err(role) = check_signers(IntentKind::Deposit, signers) {
        return Err(StakeAccountsError::MissingSigner(role));
    }
    assert(signers.spec_signer(SignerRole::Sender) is Some);
    assert(signers.spec_signer(SignerRole::FeePayer) is Some);
    let funder = signers.sender.unwrap();
    let fee_payer = signers.fee_payer.unwrap();
    let allocations = match vesting_allocations(total_lamports, schedule) {
        Some(v) => v,
        None => {
            return Err(StakeAccountsError::InvalidSchedule);
        },
    };
    let mut plans: Vec<TransactionPlan> = Vec::new();
    for k in 0..allocations.len()
        invariant
            allocations@.len() == allocation_count(*schedule),
            forall|j: int|
                0 <= j < allocations@.len() ==> {
                    &&& (#[trigger] allocations@[j]).lamports == allocation_lamports(
                        total_lamports,
                        *schedule,
                        j as nat,
                    )
                    &&& allocations@[j].unix_timestamp == unlock_time(*schedule, j as nat)
                },
            funder == signers.sender->Some_0,
            fee_payer == signers.fee_payer->Some_0,
            plans@.len() == k,
            forall|j: int|
                0 <= j < k ==> {
                    &&& (#[trigger] plans@[j]).fee_payer == fee_payer
                    &&& plans@[j].instructions@.len() == 1
                    &&& plans@[j].instructions@[0] matches StakeInstruction::CreateWithSeed {
                        funder: f,
                        stake_account,
                        base: b,
                        seed,
                        staker,
                        withdrawer,
                        lockup,
                        lamports,
                    }
                    &&& f == funder
                    &&& stake_account.bytes@ == derived_address(
                        base.bytes@,
                        j as nat,
                        program_id.bytes@,
                    )
                    &&& b == *base
                    &&& seed@ == decimal(j as nat)
                    &&& staker == *stake_authority
                    &&& withdrawer == *withdraw_authority
                    &&& lockup == (Lockup {
                        unix_timestamp: unlock_time(*schedule, j as nat) as i64,
                        epoch: 0,
                        custodian: *custodian,
                    })
                    &&& lamports == allocation_lamports(total_lamports, *schedule, j as nat)
                },
    {
        let allocation = allocations[k];
        let create = StakeInstruction::CreateWithSeed {
            funder,
            stake_account: derive_stake_account_address(base, k, program_id),
            base: *base,
            seed: index_seed(k),
            staker: *stake_authority,
            withdrawer: *withdraw_authority,
            lockup: Lockup {
                unix_timestamp: allocation.unix_timestamp,
                epoch: 0,
                custodian: *custodian,
            },
            lamports: allocation.lamports,
        };
        plans.push(TransactionPlan { instructions: vec![create], fee_payer });
    }
    Ok(plans)
}

} // verus!
