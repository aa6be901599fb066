//! Derived stake accounts: addressing, discovery, and the transactions that
//! authorize, relocate, fund and withdraw from a family of accounts derived from
//! one base address.

pub mod address;
pub mod batch;
pub mod discovery;
pub mod ledger;
pub mod plan;
pub mod signers;
pub mod vesting;

pub use address::{
    create_with_seed, derive_stake_account_address, derive_stake_account_addresses,
    index_seed, Address, PubkeyError, MAX_SEED_LEN,
};
pub use discovery::{total_balance, StakeAccountDiscovery};
pub use signers::{check_signers, is_required, required_signers, IntentKind, SignerKeys, SignerRole};
pub use plan::{
    authorize_stake_accounts, create_authorize_instructions, create_move_transaction,
    move_stake_accounts, withdraw_stake_account, Lockup, StakeAccountsError, StakeAuthorize,
    StakeInstruction, TransactionPlan, TransferStakeKeys,
};
pub use batch::{BatchOutcome, BatchSubmission};
pub use vesting::{new_stake_accounts, vesting_allocations, Allocation, VestingSchedule};
pub use ledger::{to_instructions, to_transaction, to_transactions};
