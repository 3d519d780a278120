//! The messages of the account collection, and how those it shares with a
//! base cw721 collection are handed to it.
use vstd::prelude::*;
use crate::collection::{Collection, SudoParams};
use crate::collection_keys::no_mapping_msg;
use crate::errors::StdError;
use crate::types::{Expiration, Nft, TextRecord};

verus! {

/// A signed proof that the sender controls a non-native address.
#[derive(Debug, PartialEq, Eq)]
pub struct CosmosArbitrary {
    pub pubkey: Vec<u8>,
    pub signature: Vec<u8>,
    pub message: Vec<u8>,
    pub hrp: Option<String>,
}

/// The messages the collection executes; `T` is the token extension.
#[derive(Debug, PartialEq, Eq)]
pub enum ExecuteMsg<T> {
    SetMarketplace { address: String },
    AssociateAddress { account: String, address: Option<String> },
    UpdateImageNft { account: String, nft: Option<Nft> },
    AddTextRecord { account: String, record: TextRecord },
    RemoveTextRecord { account: String, record_account: String },
    UpdateTextRecord { account: String, record: TextRecord },
    VerifyTextRecord { account: String, record_account: String, result: bool },
    UpdateVerifier { verifier: Option<String> },
    TransferNft { recipient: String, token_id: String },
    SendNft { contract: String, token_id: String, msg: Vec<u8> },
    Approve { spender: String, token_id: String, expires: Option<Expiration> },
    Revoke { spender: String, token_id: String },
    ApproveAllViaMarket { owner: String, expires: Option<Expiration> },
    ApproveAll { operator: String, expires: Option<Expiration> },
    UpdateAbsAccSupport { token_id: String, abs_account: Option<String> },
    RevokeAll { operator: String },
    Mint { token_id: String, owner: String, token_uri: Option<String>, extension: T },
    Burn { token_id: String },
    FreezeCollectionInfo {},
    UpdateMyReverseMapKey { to_add: Vec<CosmosArbitrary>, to_remove: Vec<String> },
}

/// The messages a base cw721 collection executes.
#[derive(Debug, PartialEq, Eq)]
pub enum BaseExecuteMsg<T> {
    TransferNft { recipient: String, token_id: String },
    SendNft { contract: String, token_id: String, msg: Vec<u8> },
    Approve { spender: String, token_id: String, expires: Option<Expiration> },
    ApproveAll { operator: String, expires: Option<Expiration> },
    Revoke { spender: String, token_id: String },
    RevokeAll { operator: String },
    Burn { token_id: String },
    Mint { token_id: String, owner: String, token_uri: Option<String>, extension: T },
}

/// Whether the base collection handles `msg` as it is.
pub open spec fn is_base_execute<T>(msg: ExecuteMsg<T>) -> bool {
    match msg {
        ExecuteMsg::TransferNft { .. } | ExecuteMsg::SendNft { .. } | ExecuteMsg::Approve { .. }
        | ExecuteMsg::ApproveAll { .. } | ExecuteMsg::Revoke { .. } | ExecuteMsg::RevokeAll { .. }
        | ExecuteMsg::Burn { .. } | ExecuteMsg::Mint { .. } => true,
        _ => false,
    }
}

/// The base-collection message that `msg` stands for.
pub open spec fn base_execute_of<T>(msg: ExecuteMsg<T>) -> BaseExecuteMsg<T>
    recommends
        is_base_execute(msg),
{
    match msg {
        ExecuteMsg::TransferNft { recipient, token_id } => BaseExecuteMsg::TransferNft { recipient, token_id },
        ExecuteMsg::SendNft { contract, token_id, msg } => BaseExecuteMsg::SendNft { contract, token_id, msg },
        ExecuteMsg::Approve { spender, token_id, expires } => BaseExecuteMsg::Approve { spender, token_id, expires },
        ExecuteMsg::ApproveAll { operator, expires } => BaseExecuteMsg::ApproveAll { operator, expires },
        ExecuteMsg::Revoke { spender, token_id } => BaseExecuteMsg::Revoke { spender, token_id },
        ExecuteMsg::RevokeAll { operator } => BaseExecuteMsg::RevokeAll { operator },
        ExecuteMsg::Burn { token_id } => BaseExecuteMsg::Burn { token_id },
        ExecuteMsg::Mint { token_id, owner, token_uri, extension } => BaseExecuteMsg::Mint { token_id, owner, token_uri, extension },
        _ => BaseExecuteMsg::Burn { token_id: arbitrary() },
    }
}

/// Hands a message the base collection understands over to it, unchanged;
/// the collection's own messages have no counterpart there.
pub fn into_base_execute<T>(msg: ExecuteMsg<T>) -> (r: BaseExecuteMsg<T>)
    requires
        is_base_execute(msg),
    ensures
        r == base_execute_of(msg),
{
    match msg {
        ExecuteMsg::TransferNft { recipient, token_id } => BaseExecuteMsg::TransferNft { recipient, token_id },
        ExecuteMsg::SendNft { contract, token_id, msg } => BaseExecuteMsg::SendNft { contract, token_id, msg },
        ExecuteMsg::Approve { spender, token_id, expires } => BaseExecuteMsg::Approve { spender, token_id, expires },
        ExecuteMsg::ApproveAll { operator, expires } => BaseExecuteMsg::ApproveAll { operator, expires },
        ExecuteMsg::Revoke { spender, token_id } => BaseExecuteMsg::Revoke { spender, token_id },
        ExecuteMsg::RevokeAll { operator } => BaseExecuteMsg::RevokeAll { operator },
        ExecuteMsg::Burn { token_id } => BaseExecuteMsg::Burn { token_id },
        ExecuteMsg::Mint { token_id, owner, token_uri, extension } => BaseExecuteMsg::Mint { token_id, owner, token_uri, extension },
        _ => {
            proof {
                assert(false);
            }
            BaseExecuteMsg::Burn { token_id: String::new() }
        },
    }
}

/// The queries the collection answers.
#[derive(Debug, PartialEq, Eq)]
pub enum Terp721AccountsQueryMsg {
    Params {},
    AccountMarketplace {},
    Account { address: String },
    AssociatedAddress { account: String },
    ReverseMapAddress { address: String },
    ReverseMapAccount { address: String },
    ImageNFT { account: String },
    TextRecords { account: String },
    IsTwitterVerified { account: String },
    Verifier {},
    OwnerOf { token_id: String, include_expired: Option<bool> },
    Approval { token_id: String, spender: String, include_expired: Option<bool> },
    NumTokens {},
    ContractInfo {},
    NftInfo { token_id: String },
    AllNftInfo { token_id: String, include_expired: Option<bool> },
    Tokens { owner: String, start_after: Option<String>, limit: Option<u32> },
    AllTokens { start_after: Option<String>, limit: Option<u32> },
    Minter {},
    Operator { owner: String, operator: String, include_expired: Option<bool> },
    Ownership {},
}

/// The queries a base cw721 collection answers.
#[derive(Debug, PartialEq, Eq)]
pub enum BaseQueryMsg {
    OwnerOf { token_id: String, include_expired: Option<bool> },
    Approval { token_id: String, spender: String, include_expired: Option<bool> },
    NumTokens {},
    GetCollectionInfoAndExtension {},
    NftInfo { token_id: String },
    AllNftInfo { token_id: String, include_expired: Option<bool> },
    Tokens { owner: String, start_after: Option<String>, limit: Option<u32> },
    AllTokens { start_after: Option<String>, limit: Option<u32> },
    GetMinterOwnership {},
    Operator { owner: String, operator: String, include_expired: Option<bool> },
}

/// Whether the base collection answers `msg`.
pub open spec fn is_base_query(msg: Terp721AccountsQueryMsg) -> bool {
    match msg {
        Terp721AccountsQueryMsg::OwnerOf { .. } | Terp721AccountsQueryMsg::Approval { .. }
        | Terp721AccountsQueryMsg::NumTokens { .. } | Terp721AccountsQueryMsg::ContractInfo { .. }
        | Terp721AccountsQueryMsg::NftInfo { .. } | Terp721AccountsQueryMsg::AllNftInfo { .. }
        | Terp721AccountsQueryMsg::Tokens { .. } | Terp721AccountsQueryMsg::AllTokens { .. }
        | Terp721AccountsQueryMsg::Minter { .. } | Terp721AccountsQueryMsg::Operator { .. } => true,
        _ => false,
    }
}

/// The base-collection query that `msg` stands for.
pub open spec fn base_query_of(msg: Terp721AccountsQueryMsg) -> BaseQueryMsg
    recommends
        is_base_query(msg),
{
    match msg {
        Terp721AccountsQueryMsg::OwnerOf { token_id, include_expired } => BaseQueryMsg::OwnerOf { token_id, include_expired },
        Terp721AccountsQueryMsg::Approval { token_id, spender, include_expired } => BaseQueryMsg::Approval { token_id, spender, include_expired },
        Terp721AccountsQueryMsg::NumTokens {} => BaseQueryMsg::NumTokens {},
        Terp721AccountsQueryMsg::ContractInfo {} => BaseQueryMsg::GetCollectionInfoAndExtension {},
        Terp721AccountsQueryMsg::NftInfo { token_id } => BaseQueryMsg::NftInfo { token_id },
        Terp721AccountsQueryMsg::AllNftInfo { token_id, include_expired } => BaseQueryMsg::AllNftInfo { token_id, include_expired },
        Terp721AccountsQueryMsg::Tokens { owner, start_after, limit } => BaseQueryMsg::Tokens { owner, start_after, limit },
        Terp721AccountsQueryMsg::AllTokens { start_after, limit } => BaseQueryMsg::AllTokens { start_after, limit },
        Terp721AccountsQueryMsg::Minter {} => BaseQueryMsg::GetMinterOwnership {},
        Terp721AccountsQueryMsg::Operator { owner, operator, include_expired } => BaseQueryMsg::Operator { owner, operator, include_expired },
        _ => BaseQueryMsg::NumTokens {},
    }
}

/// Hands a query the base collection answers over to it: the contract-info
/// query becomes its collection-info query and the minter query its
/// minter-ownership query; the others keep their form.
pub fn into_base_query(msg: Terp721AccountsQueryMsg) -> (r: BaseQueryMsg)
    requires
        is_base_query(msg),
    ensures
        r == base_query_of(msg),
{
    match msg {
        Terp721AccountsQueryMsg::OwnerOf { token_id, include_expired } => BaseQueryMsg::OwnerOf { token_id, include_expired },
        Terp721AccountsQueryMsg::Approval { token_id, spender, include_expired } => BaseQueryMsg::Approval { token_id, spender, include_expired },
        Terp721AccountsQueryMsg::NumTokens {} => BaseQueryMsg::NumTokens {},
        Terp721AccountsQueryMsg::ContractInfo {} => BaseQueryMsg::GetCollectionInfoAndExtension {},
        Terp721AccountsQueryMsg::NftInfo { token_id } => BaseQueryMsg::NftInfo { token_id },
        Terp721AccountsQueryMsg::AllNftInfo { token_id, include_expired } => BaseQueryMsg::AllNftInfo { token_id, include_expired },
        Terp721AccountsQueryMsg::Tokens { owner, start_after, limit } => BaseQueryMsg::Tokens { owner, start_after, limit },
        Terp721AccountsQueryMsg::AllTokens { start_after, limit } => BaseQueryMsg::AllTokens { start_after, limit },
        Terp721AccountsQueryMsg::Minter {} => BaseQueryMsg::GetMinterOwnership {},
        Terp721AccountsQueryMsg::Operator { owner, operator, include_expired } => BaseQueryMsg::Operator { owner, operator, include_expired },
        _ => {
            proof {
                assert(false);
            }
            BaseQueryMsg::NumTokens {}
        },
    }
}

/// What the collection answers to a query.
#[derive(Debug, PartialEq, Eq)]
pub enum AccountQueryResponse {
    Params(SudoParams),
    Marketplace(String),
    /// An account name.
    Account(String),
    /// An address.
    Address(String),
    ImageNft(Option<Nft>),
    TextRecords(Vec<TextRecord>),
    IsTwitterVerified(bool),
    Verifier(Option<String>),
    /// Answered from the collection's ownership record.
    Ownership,
    /// Answered by the base collection.
    Base(BaseQueryMsg),
}

impl Collection {
    /// Answers a query. The ownership query added to the base ones has no
    /// answer (it cannot be handed to the base collection) and is left out.
    pub fn query(&self, msg: Terp721AccountsQueryMsg) -> (r: Result<AccountQueryResponse, StdError>)
        requires
            self.wf(),
            !(msg is Ownership),
        ensures
            is_base_query(msg) && !(msg is Minter) ==> r == Ok::<AccountQueryResponse, StdError>(AccountQueryResponse::Base(base_query_of(msg))),
            msg is Minter ==> r == Ok::<AccountQueryResponse, StdError>(AccountQueryResponse::Ownership),
            match msg {
                Terp721AccountsQueryMsg::Params {} => r == Ok::<AccountQueryResponse, StdError>(AccountQueryResponse::Params(self.params)),
                Terp721AccountsQueryMsg::AccountMarketplace {} => r == Ok::<AccountQueryResponse, StdError>(AccountQueryResponse::Marketplace(self.manifold)),
                Terp721AccountsQueryMsg::Verifier {} => r == Ok::<AccountQueryResponse, StdError>(AccountQueryResponse::Verifier(self.verifier)),
                Terp721AccountsQueryMsg::Account { address } | Terp721AccountsQueryMsg::ReverseMapAccount { address } => {
                    &&& r matches Ok(a) ==> (a matches AccountQueryResponse::Account(n)
                        && crate::collection_keys::account_lookup(*self, address@) == Ok::<String, Seq<char>>(n))
                    &&& r is Err ==> (r matches Err(StdError::GenericErr { msg })
                        && crate::collection_keys::account_lookup(*self, address@) == Err::<String, Seq<char>>(msg@))
                },
                Terp721AccountsQueryMsg::ReverseMapAddress { address } => {
                    &&& r is Ok <==> self.reverse_map_keys@.contains_key(address@)
                    &&& r matches Ok(a) ==> a == AccountQueryResponse::Address(self.reverse_map_keys@[address@].addr)
                    &&& r is Err ==> (r matches Err(StdError::GenericErr { msg }) && msg@ == no_mapping_msg())
                },
                Terp721AccountsQueryMsg::AssociatedAddress { account } => {
                    &&& r is Ok <==> self.tokens@.contains_key(account@)
                    &&& r matches Ok(a) ==> a == AccountQueryResponse::Address(match self.tokens@[account@].token_uri {
                        Some(u) => u,
                        None => self.tokens@[account@].owner,
                    })
                },
                Terp721AccountsQueryMsg::ImageNFT { account } => {
                    &&& r is Ok <==> self.tokens@.contains_key(account@)
                    &&& r matches Ok(a) ==> a == AccountQueryResponse::ImageNft(self.tokens@[account@].extension.image_nft)
                },
                Terp721AccountsQueryMsg::TextRecords { account } => {
                    &&& r is Ok <==> self.tokens@.contains_key(account@)
                    &&& r matches Ok(a) ==> (a matches AccountQueryResponse::TextRecords(v)
                        && v@ == self.tokens@[account@].extension.records@)
                },
                Terp721AccountsQueryMsg::IsTwitterVerified { account } => {
                    &&& r is Ok <==> self.tokens@.contains_key(account@)
                    &&& r matches Ok(a) ==> a == AccountQueryResponse::IsTwitterVerified(
                        crate::records::twitter_verified(self.tokens@[account@].extension.records@))
                },
                _ => true,
            },
    {
        match msg {
            Terp721AccountsQueryMsg::Params {} => Ok(AccountQueryResponse::Params(self.query_params())),
            Terp721AccountsQueryMsg::AccountMarketplace {} => Ok(AccountQueryResponse::Marketplace(self.query_profile_marketplace())),
            Terp721AccountsQueryMsg::Account { address } => match self.query_account(&address) {
                Ok(a) => Ok(AccountQueryResponse::Account(a)),
                Err(e) => Err(e),
            },
            Terp721AccountsQueryMsg::Verifier {} => Ok(AccountQueryResponse::Verifier(crate::collection::clone_opt_str(&self.verifier))),
            Terp721AccountsQueryMsg::AssociatedAddress { account } => match self.query_associated_address(&account) {
                Ok(a) => Ok(AccountQueryResponse::Address(a)),
                Err(e) => Err(e),
            },
            Terp721AccountsQueryMsg::ImageNFT { account } => match self.query_image_nft(&account) {
                Ok(a) => Ok(AccountQueryResponse::ImageNft(a)),
                Err(e) => Err(e),
            },
            Terp721AccountsQueryMsg::TextRecords { account } => match self.query_text_records(&account) {
                Ok(a) => Ok(AccountQueryResponse::TextRecords(a)),
                Err(e) => Err(e),
            },
            Terp721AccountsQueryMsg::IsTwitterVerified { account } => match self.query_is_twitter_verified(&account) {
                Ok(a) => Ok(AccountQueryResponse::IsTwitterVerified(a)),
                Err(e) => Err(e),
            },
            Terp721AccountsQueryMsg::Minter {} => Ok(AccountQueryResponse::Ownership),
            Terp721AccountsQueryMsg::ReverseMapAccount { address } => match self.query_account(&address) {
                Ok(a) => Ok(AccountQueryResponse::Account(a)),
                Err(e) => Err(e),
            },
            Terp721AccountsQueryMsg::ReverseMapAddress { address } => match self.transcode(&address) {
                Ok(a) => Ok(AccountQueryResponse::Address(a)),
                Err(e) => Err(e),
            },
            Terp721AccountsQueryMsg::Ownership {} => {
                proof {
                    assert(false);
                }
                Ok(AccountQueryResponse::Ownership)
            },
            base => Ok(AccountQueryResponse::Base(into_base_query(base))),
        }
    }
}

} // verus!
