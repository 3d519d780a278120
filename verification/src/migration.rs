//! Whether a stored contract may be migrated to the running code, and the
//! refusals of the marketplace's submessage replies.
use vstd::prelude::*;
use crate::collection::Collection;
use crate::errors::{MarketError, StdError};
use crate::market::Market;
use crate::ordering::{key_lt, lex_lt, push_str_key, str_key};

verus! {

/// The contract name the account collection records.
pub const ACCOUNT_CONTRACT: &'static str = "crates.io:terp721-account";

/// The contract name the marketplace records.
pub const ACCOUNT_MANIFOLD_CONTRACT: &'static str = "crates.io:terp721-account-manifold";

/// Whether version `a` sorts at or after version `b` as strings do: byte by
/// byte, a prefix first.
pub open spec fn version_at_least(a: Seq<char>, b: Seq<char>) -> bool {
    !lex_lt(str_key(a), str_key(b))
}

/// Whether `a` sorts at or after `b`, comparing their bytes.
pub fn str_at_least(a: &str, b: &str) -> (r: bool)
    ensures
        r == version_at_least(a@, b@),
{
    let mut ka: Vec<u128> = Vec::new();
    push_str_key(&mut ka, a);
    let mut kb: Vec<u128> = Vec::new();
    push_str_key(&mut kb, b);
    proof {
        assert(ka@ =~= str_key(a@));
        assert(kb@ =~= str_key(b@));
    }
    !key_lt(&ka, &kb)
}

/// A migration to `version` of the contract `contract` goes ahead only when
/// the stored record names that contract with an older version; otherwise it
/// is refused with `refusal`.
pub open spec fn migration_allowed(stored_contract: Seq<char>, stored_version: Seq<char>, contract: Seq<char>,
    version: Seq<char>) -> bool {
    stored_contract == contract && !version_at_least(stored_version, version)
}

/// Checks a migration: the stored version record (`stored_contract`,
/// `stored_version`) against the running `contract` at `version`.
pub fn migration_check(stored_contract: &str, stored_version: &str, contract: &str, version: &str, refusal: &str)
    -> (r: Result<(), StdError>)
    ensures
        r is Ok <==> migration_allowed(stored_contract@, stored_version@, contract@, version@),
        r matches Err(e) ==> (e matches StdError::GenericErr { msg } && msg@ == refusal@),
{
    let mut kc: Vec<u128> = Vec::new();
    push_str_key(&mut kc, stored_contract);
    let mut kd: Vec<u128> = Vec::new();
    push_str_key(&mut kd, contract);
    let same = !key_lt(&kc, &kd) && !key_lt(&kd, &kc);
    proof {
        assert(kc@ =~= str_key(stored_contract@));
        assert(kd@ =~= str_key(contract@));
        crate::ordering::lemma_lex_order(kc@, kd@, kd@);
        if kc@ == kd@ {
            crate::ordering::lemma_str_key_injective(stored_contract@, contract@);
        }
    }
    if str_at_least(stored_version, version) || !same {
        return Err(StdError::GenericErr { msg: refusal.to_string() });
    }
    Ok(())
}

impl Market {
    /// Whether the marketplace recorded as (`stored_contract`,
    /// `stored_version`) may migrate to `version` of the running code.
    pub fn migrate(stored_contract: &str, stored_version: &str, version: &str) -> (r: Result<(), StdError>)
        ensures
            r is Ok <==> migration_allowed(stored_contract@, stored_version@, ACCOUNT_MANIFOLD_CONTRACT@, version@),
            r matches Err(e) ==> (e matches StdError::GenericErr { msg } && msg@ == "unable to migrate terp721-account minter."@),
    {
        migration_check(stored_contract, stored_version, ACCOUNT_MANIFOLD_CONTRACT, version,
            "unable to migrate terp721-account minter.")
    }
}

impl Collection {
    /// Whether the collection recorded as (`stored_contract`,
    /// `stored_version`) may migrate to `version` of the running code.
    pub fn migrate(stored_contract: &str, stored_version: &str, version: &str) -> (r: Result<(), StdError>)
        ensures
            r is Ok <==> migration_allowed(stored_contract@, stored_version@, ACCOUNT_CONTRACT@, version@),
            r matches Err(e) ==> (e matches StdError::GenericErr { msg } && msg@ == "unable to migrate terp721-account."@),
    {
        migration_check(stored_contract, stored_version, ACCOUNT_CONTRACT, version, "unable to migrate terp721-account.")
    }
}

/// Which hook list a submessage reply comes from: asks (1), sales (2) or
/// bids (3).
#[derive(Clone, Copy, Debug, PartialEq, Eq)]
pub enum HookReply {
    Ask,
    Sale,
    Bid,
}

/// The hook list behind reply id `id`, for the three ids in use.
pub open spec fn hook_reply_of(id: u64) -> HookReply {
    if id == 1 { HookReply::Ask } else if id == 2 { HookReply::Sale } else { HookReply::Bid }
}

impl HookReply {
    /// The hook list behind reply id `id`, which must be 1, 2 or 3.
    pub fn from_id(id: u64) -> (r: HookReply)
        requires
            1 <= id <= 3,
        ensures
            r == hook_reply_of(id),
    {
        if id == 1 {
            HookReply::Ask
        } else if id == 2 {
            HookReply::Sale
        } else {
            HookReply::Bid
        }
    }
}

impl Market {
    /// A hook's submessage only calls back when it failed: the whole message
    /// is then refused with the hook's error, whichever list it came from.
    pub fn reply(id: u64, error: String) -> (r: MarketError)
        requires
            1 <= id <= 3,
        ensures
            r == MarketError::Std(error),
    {
        match HookReply::from_id(id) {
            HookReply::Ask => MarketError::Std(error),
            HookReply::Sale => MarketError::Std(error),
            HookReply::Bid => MarketError::Std(error),
        }
    }
}

} // verus!
