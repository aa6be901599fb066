use vstd::prelude::*;
use crate::address::Address;

verus! {

/// A role whose signature a transaction may need.
#[derive(Clone, Copy, Debug, PartialEq, Eq)]
pub enum SignerRole {
    StakeAuthority,
    WithdrawAuthority,
    FeePayer,
    Sender,
}

/// The kinds of batch this library builds; each needs a fixed set of signers.
#[derive(Clone, Copy, Debug, PartialEq, Eq)]
pub enum IntentKind {
    Authorize,
    Relocate,
    Withdraw,
    Deposit,
}

/// Whether a batch of the given kind needs a signature for `role`.
pub open spec fn role_required(kind: IntentKind, role: SignerRole) -> bool {
    match kind {
        IntentKind::Authorize | IntentKind::Relocate => role != SignerRole::Sender,
        IntentKind::Withdraw => role == SignerRole::WithdrawAuthority || role
            == SignerRole::FeePayer,
        IntentKind::Deposit => role == SignerRole::Sender || role == SignerRole::FeePayer,
    }
}

/// The signers supplied for one invocation, each by its address; `None` where
/// the signer of a role was not supplied.
#[derive(Clone, Copy, Debug, PartialEq, Eq)]
pub struct SignerKeys {
    pub stake_authority: Option<Address>,
    pub withdraw_authority: Option<Address>,
    pub fee_payer: Option<Address>,
    pub sender: Option<Address>,
}

impl SignerKeys {
    pub open spec fn spec_signer(&self, role: SignerRole) -> Option<Address> {
        match role {
            SignerRole::StakeAuthority => self.stake_authority,
            SignerRole::WithdrawAuthority => self.withdraw_authority,
            SignerRole::FeePayer => self.fee_payer,
            SignerRole::Sender => self.sender,
        }
    }

    /// The address of the signer for `role`, if one was supplied.
    pub fn signer(&self, role: SignerRole) -> (r: Option<Address>)
        ensures
            r == self.spec_signer(role),
    {
        match role {
            SignerRole::StakeAuthority => self.stake_authority,
            SignerRole::WithdrawAuthority => self.withdraw_authority,
            SignerRole::FeePayer => self.fee_payer,
            SignerRole::Sender => self.sender,
        }
    }
}

/// A batch of `kind` needs a signature of `role` and no signer was supplied for it.
pub open spec fn role_missing(kind: IntentKind, keys: SignerKeys, role: SignerRole) -> bool {
    role_required(kind, role) && keys.spec_signer(role) is None
}

/// The first missing role of a batch of `kind`, checking the stake authority,
/// the withdraw authority, the fee payer and the sender in that order.
pub open spec fn first_missing_role(kind: IntentKind, keys: SignerKeys) -> Option<SignerRole> {
    if role_missing(kind, keys, SignerRole::StakeAuthority) {
        Some(SignerRole::StakeAuthority)
    } else if role_missing(kind, keys, SignerRole::WithdrawAuthority) {
        Some(SignerRole::WithdrawAuthority)
    } else if role_missing(kind, keys, SignerRole::FeePayer) {
        Some(SignerRole::FeePayer)
    } else if role_missing(kind, keys, SignerRole::Sender) {
        Some(SignerRole::Sender)
    } else {
        None
    }
}

/// Whether `role` is needed by a batch of `kind`.
pub fn is_required(kind: IntentKind, role: SignerRole) -> (r: bool)
    ensures
        r == role_required(kind, role),
{
    match kind {
        IntentKind::Authorize | IntentKind::Relocate => match role {
            SignerRole::Sender => false,
            _ => true,
        },
        IntentKind::Withdraw => match role {
            SignerRole::WithdrawAuthority | SignerRole::FeePayer => true,
            _ => false,
        },
        IntentKind::Deposit => match role {
            SignerRole::Sender | SignerRole::FeePayer => true,
            _ => false,
        },
    }
}

/// The roles a batch of `kind` needs, each once: the stake authority, the
/// withdraw authority, the fee payer and the sender, in that order.
pub fn required_signers(kind: IntentKind) -> (r: Vec<SignerRole>)
    ensures
        forall|role: SignerRole| r@.contains(role) <==> role_required(kind, role),
        r@.no_duplicates(),
{
    let r = match kind {
        IntentKind::Authorize | IntentKind::Relocate => vec![
            SignerRole::StakeAuthority,
            SignerRole::WithdrawAuthority,
            SignerRole::FeePayer,
        ],
        IntentKind::Withdraw => vec![SignerRole::WithdrawAuthority, SignerRole::FeePayer],
        IntentKind::Deposit => vec![SignerRole::Sender, SignerRole::FeePayer],
    };
    proof {
        assert forall|role: SignerRole| r@.contains(role) <==> role_required(kind, role) by {
            if role_required(kind, role) {
                let i: int = if r@[0] == role {
                    0
                } else if r@[1] == role {
                    1
                } else {
                    2
                };
                assert(r@[i] == role);
            }
        }
    }
    r
}

/// Checks, once for a whole batch, that every role a batch of `kind` needs has
/// a signer; otherwise names the first role, in the order of
/// `first_missing_role`, that has none.
pub fn check_signers(kind: IntentKind, keys: &SignerKeys) -> (r: Result<(), SignerRole>)
    ensures
        r is Ok <==> first_missing_role(kind, *keys) is None,
        r matches Err(role) ==> first_missing_role(kind, *keys) == Some(role),
        r is Ok <==> forall|role: SignerRole|
            role_required(kind, role) ==> (#[trigger] keys.spec_signer(role)) is Some,
{
    proof {
        assert(forall|role: SignerRole|
            role_required(kind, role) && (#[trigger] keys.spec_signer(role)) is None ==> role_missing(kind, *keys, role));
    }
    let order = [
        SignerRole::StakeAuthority,
        SignerRole::WithdrawAuthority,
        SignerRole::FeePayer,
        SignerRole::Sender,
    ];
    let mut k: usize = 0;
    while k < 4
        invariant
            k <= 4,
            order@ == seq![
                SignerRole::StakeAuthority,
                SignerRole::WithdrawAuthority,
                SignerRole::FeePayer,
                SignerRole::Sender,
            ],
            forall|j: int| 0 <= j < k ==> !role_missing(kind, *keys, #[trigger] order@[j]),
        decreases 4 - k,
    {
        let role = order[k];
        if is_required(kind, role) && keys.signer(role).is_none() {
            return Err(role);
        }
        k = k + 1;
    }
    proof {
        assert(!role_missing(kind, *keys, order@[0]));
        assert(!role_missing(kind, *keys, order@[1]));
        assert(!role_missing(kind, *keys, order@[2]));
        assert(!role_missing(kind, *keys, order@[3]));
    }
    Ok(())
}

} // verus!
