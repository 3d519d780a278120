//! A stand-in abstract account: it records who governs it and answers the
//! ownership query the collection asks abstract accounts.
use vstd::prelude::*;

verus! {

/// Who governs an abstract account, as far as account tokens are concerned.
#[derive(Debug, PartialEq, Eq)]
pub enum Governance {
    /// Governed by whoever holds token `token_id` of the collection `collection_addr`.
    Nft { collection_addr: String, token_id: String },
    /// Any other form of governance (a single owner, a sub-account, none), described.
    Other(String),
}

impl Clone for Governance {
    fn clone(&self) -> (r: Self)
        ensures
            r == *self,
    {
        match self {
            Governance::Nft { collection_addr, token_id } => Governance::Nft {
                collection_addr: collection_addr.clone(),
                token_id: token_id.clone(),
            },
            Governance::Other(d) => Governance::Other(d.clone()),
        }
    }
}

/// What the account is created with.
#[derive(Debug, PartialEq, Eq)]
pub struct InstantiateMsg {
    pub ownership: Governance,
}

impl InstantiateMsg {
    /// An account governed by token `token` of the collection `contract`.
    pub fn new(contract: &String, token: &str) -> (m: Self)
        ensures
            m.ownership matches Governance::Nft { collection_addr, token_id }
                && collection_addr@ == contract@ && token_id@ == token@,
    {
        InstantiateMsg {
            ownership: Governance::Nft { collection_addr: contract.clone(), token_id: token.to_owned() },
        }
    }
}

/// The one message the account takes: a new governance.
#[derive(Debug, PartialEq, Eq)]
pub enum ExecuteMsg {
    UpdateOwnership { ownership: Governance },
}

/// The one query the account answers: its governance.
#[derive(Clone, Copy, Debug, PartialEq, Eq)]
pub enum QueryMsg {
    Ownership {},
}

/// The state of the account.
#[derive(Debug, PartialEq, Eq)]
pub struct OwnershipVerifier {
    pub owner: Governance,
}

impl OwnershipVerifier {
    /// Creates the account with the governance it is given.
    pub fn instantiate(msg: InstantiateMsg) -> (v: Self)
        ensures
            v.owner == msg.ownership,
    {
        OwnershipVerifier { owner: msg.ownership }
    }

    /// Replaces the governance, whoever asks.
    pub fn execute(&mut self, msg: ExecuteMsg)
        ensures
            match msg {
                ExecuteMsg::UpdateOwnership { ownership } => final(self).owner == ownership,
            },
    {
        match msg {
            ExecuteMsg::UpdateOwnership { ownership } => {
                self.owner = ownership;
            },
        }
    }

    /// Answers a query.
    pub fn query(&self, msg: QueryMsg) -> (r: Governance)
        ensures
            match msg {
                QueryMsg::Ownership {} => r == self.owner,
            },
    {
        match msg {
            QueryMsg::Ownership {} => self.owner.clone(),
        }
    }
}

} // verus!
