use vstd::prelude::*;
use crate::address::{derive_stake_account_address, derive_stake_account_addresses, derived_address, Address};

verus! {

/// What a discovery knows: where it derives from, how many accounts it has
/// found, and whether it has stopped.
pub struct DiscoveryView {
    pub base: Seq<u8>,
    pub program_id: Seq<u8>,
    pub count: nat,
    pub done: bool,
}

/// A fresh discovery. With an explicit count nothing is probed: the family is
/// taken to hold exactly that many accounts.
pub open spec fn discovery_start(
    base: Seq<u8>,
    program_id: Seq<u8>,
    num_accounts: Option<usize>,
) -> DiscoveryView {
    match num_accounts {
        Some(n) => DiscoveryView { base, program_id, count: n as nat, done: true },
        None => DiscoveryView { base, program_id, count: 0, done: false },
    }
}

/// The address a discovery asks the balance of next, if any.
pub open spec fn discovery_probe(v: DiscoveryView) -> Option<Seq<u8>> {
    if v.done {
        None
    } else {
        Some(derived_address(v.base, v.count, v.program_id))
    }
}

/// A discovery after learning the balance of the address it probed: a funded
/// account is counted, the first empty one ends the walk. The walk also ends
/// once the count reaches the last index a `usize` can hold.
pub open spec fn discovery_step(v: DiscoveryView, lamports: u64) -> DiscoveryView {
    if v.done {
        v
    } else if lamports == 0 {
        DiscoveryView { done: true, ..v }
    } else {
        DiscoveryView { count: v.count + 1, done: v.count + 1 == usize::MAX, ..v }
    }
}

/// A discovery after learning, in order, the balances of the addresses it probed.
pub open spec fn discovery_run(v: DiscoveryView, balances: Seq<u64>) -> DiscoveryView
    decreases balances.len(),
{
    if balances.len() == 0 {
        v
    } else {
        discovery_run(discovery_step(v, balances[0]), balances.drop_first())
    }
}

/// Walks the indices `0, 1, 2, ...` of a family of derived accounts, one balance
/// at a time, and stops at the first index whose balance is zero. Accounts past
/// such a gap are not seen.
pub struct StakeAccountDiscovery {
    base: Address,
    program_id: Address,
    count: usize,
    done: bool,
}

impl View for StakeAccountDiscovery {
    type V = DiscoveryView;

    closed spec fn view(&self) -> DiscoveryView {
        DiscoveryView {
            base: self.base.bytes@,
            program_id: self.program_id.bytes@,
            count: self.count as nat,
            done: self.done,
        }
    }
}

impl StakeAccountDiscovery {
    pub closed spec fn wf(&self) -> bool {
        !self.done ==> self.count < usize::MAX
    }

    pub fn new(base: Address, program_id: Address, num_accounts: Option<usize>) -> (r: Self)
        ensures
            r.wf(),
            r@ == discovery_start(base.bytes@, program_id.bytes@, num_accounts),
    {
        match num_accounts {
            Some(n) => StakeAccountDiscovery { base, program_id, count: n, done: true },
            None => StakeAccountDiscovery { base, program_id, count: 0, done: false },
        }
    }

    /// The address whose balance is needed next; `None` once the walk is over.
    pub fn next_probe(&self) -> (r: Option<Address>)
        requires
            self.wf(),
        ensures
            r is None <==> discovery_probe(self@) is None,
            r matches Some(a) ==> discovery_probe(self@) == Some(a.bytes@),
    {
        if self.done {
            None
        } else {
            Some(derive_stake_account_address(&self.base, self.count, &self.program_id))
        }
    }

    /// Takes in the balance of the address that `next_probe` gave.
    pub fn record_balance(&mut self, lamports: u64)
        requires
            old(self).wf(),
        ensures
            final(self).wf(),
            final(self)@ == discovery_step(old(self)@, lamports),
    {
        if !self.done {
            if lamports == 0 {
                self.done = true;
            } else {
                self.count = self.count + 1;
                self.done = self.count == usize::MAX;
            }
        }
    }

    pub fn is_done(&self) -> (r: bool)
        ensures
            r == self@.done,
    {
        self.done
    }

    /// The number of accounts found so far.
    pub fn count(&self) -> (r: usize)
        ensures
            r == self@.count,
    {
        self.count
    }

    /// The addresses of the accounts found so far, in index order.
    pub fn addresses(&self) -> (r: Vec<Address>)
        ensures
            r@.len() == self@.count,
            forall|i: int|
                0 <= i < r@.len() ==> #[trigger] r@[i].bytes@ == derived_address(
                    self@.base,
                    i as nat,
                    self@.program_id,
                ),
    {
        derive_stake_account_addresses(&self.base, self.count, &self.program_id)
    }
}

/// With an explicit count a discovery probes nothing, whatever balances it
/// would be told, and holds exactly that many accounts.
pub proof fn lemma_explicit_count_probes_nothing(
    base: Seq<u8>,
    program_id: Seq<u8>,
    n: usize,
    balances: Seq<u64>,
)
    ensures
        discovery_probe(discovery_start(base, program_id, Some(n))) is None,
        discovery_run(discovery_start(base, program_id, Some(n)), balances) == discovery_start(
            base,
            program_id,
            Some(n),
        ),
    decreases balances.len(),
{
    if balances.len() > 0 {
        lemma_explicit_count_probes_nothing(base, program_id, n, balances.drop_first());
    }
}

proof fn lemma_run_funded_prefix(v: DiscoveryView, balances: Seq<u64>, k: nat)
    requires
        !v.done,
        v.count + k < usize::MAX,
        k <= balances.len(),
        forall|i: int| 0 <= i < k ==> #[trigger] balances[i] > 0,
    ensures
        discovery_run(v, balances) == discovery_run(
            DiscoveryView { count: v.count + k, ..v },
            balances.skip(k as int),
        ),
    decreases k,
{
    if k == 0 {
        assert(balances.skip(0) == balances);
        assert(DiscoveryView { count: v.count + k, ..v } == v);
    } else {
        let v1 = discovery_step(v, balances[0]);
        assert(v1 == DiscoveryView { count: v.count + 1, ..v });
        let rest = balances.drop_first();
        assert forall|i: int| 0 <= i < k - 1 implies #[trigger] rest[i] > 0 by {
            assert(rest[i] == balances[i + 1]);
        }
        lemma_run_funded_prefix(v1, rest, (k - 1) as nat);
        assert(rest.skip(k - 1) == balances.skip(k as int));
    }
}

/// Probing stops at the first empty account: when the accounts at indices
/// `0..k` are funded and the one at `k` is empty, a discovery without an
/// explicit count finds exactly `k` accounts and stops, and balances told after
/// that change nothing.
pub proof fn lemma_discovery_stops_at_first_empty(
    base: Seq<u8>,
    program_id: Seq<u8>,
    balances: Seq<u64>,
    k: nat,
)
    requires
        k < balances.len(),
        k < usize::MAX,
        forall|i: int| 0 <= i < k ==> #[trigger] balances[i] > 0,
        balances[k as int] == 0,
    ensures
        discovery_run(discovery_start(base, program_id, None), balances) == (DiscoveryView {
            base,
            program_id,
            count: k,
            done: true,
        }),
{
    let v0 = discovery_start(base, program_id, None);
    lemma_run_funded_prefix(v0, balances, k);
    let vk = DiscoveryView { count: k, ..v0 };
    let rest = balances.skip(k as int);
    assert(rest[0] == 0);
    let stopped = DiscoveryView { done: true, ..vk };
    assert(discovery_step(vk, rest[0]) == stopped);
    lemma_run_after_done(stopped, rest.drop_first());
}

proof fn lemma_run_after_done(v: DiscoveryView, balances: Seq<u64>)
    requires
        v.done,
    ensures
        discovery_run(v, balances) == v,
    decreases balances.len(),
{
    if balances.len() > 0 {
        lemma_run_after_done(v, balances.drop_first());
    }
}

/// The sum of a sequence of balances.
pub open spec fn sum_balances(balances: Seq<u64>) -> int
    decreases balances.len(),
{
    if balances.len() == 0 {
        0
    } else {
        sum_balances(balances.drop_last()) + balances.last()
    }
}

/// The combined balance of a family of accounts, exact: a sum of `u64`
/// balances, one per account, always fits in a `u128`.
pub fn total_balance(balances: &Vec<u64>) -> (r: u128)
    ensures
        r == sum_balances(balances@),
{
    let mut total: u128 = 0;
    for k in 0..balances.len()
        invariant
            total == sum_balances(balances@.take(k as int)),
            total <= k * 0xffff_ffff_ffff_ffffint,
            balances@.len() <= usize::MAX,
    {
        proof {
            let t = balances@.take(k + 1);
            assert(t.drop_last() == balances@.take(k as int));
            assert(t.last() == balances@[k as int]);
            assert(k * 0xffff_ffff_ffff_ffffint + 0xffff_ffff_ffff_ffffint <= 0xffff_ffff_ffff_ffff_0000_0000_0000_0000int)
                by (nonlinear_arith)
                requires
                    k < 0xffff_ffff_ffff_ffffint,
            ;
        }
        total = total + balances[k] as u128;
    }
    assert(balances@.take(balances@.len() as int) == balances@);
    total
}

} // verus!
