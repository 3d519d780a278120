//! Plain-value types shared by the account collection and the marketplace.
use vstd::prelude::*;

verus! {

/// The only denomination that the contracts accept.
pub const NATIVE_DENOM: &'static str = "uthiol";

/// Longest text-record key or value, in bytes.
pub const MAX_TEXT_LENGTH: u32 = 512;

/// Page size of a listing query when none is asked for.
pub const DEFAULT_QUERY_LIMIT: u32 = 10;

/// Largest page size of a listing query.
pub const MAX_QUERY_LIMIT: u32 = 100;

/// Length in bytes of a string with the given characters (its UTF-8 encoding).
pub open spec fn byte_len(s: Seq<char>) -> nat {
    vstd::utf8::encode_utf8(s).len()
}

/// Length in bytes of `s`.
pub fn str_byte_len(s: &str) -> (n: usize)
    ensures
        n == byte_len(s@),
{
    s.as_bytes().len()
}

/// `cosmwasm_std::Timestamp::plus_seconds` on nanosecond times: `secs` seconds
/// after `nanos`. It panics when the result overflows, which `requires` rules out.
#[verifier::external_body]
pub(crate) fn plus_seconds(nanos: u64, secs: u64) -> (r: u64)
    requires
        nanos + secs * 1_000_000_000 <= u64::MAX,
    ensures
        r == nanos + secs * 1_000_000_000,
{
    cosmwasm_std::Timestamp::from_nanos(nanos).plus_seconds(secs).nanos()
}

/// An amount of one denomination, as sent along with a message.
#[derive(Debug, PartialEq, Eq)]
pub struct Coin {
    pub denom: String,
    pub amount: u128,
}

impl Clone for Coin {
    fn clone(&self) -> (r: Self)
        ensures
            r == *self,
    {
        Coin { denom: self.denom.clone(), amount: self.amount }
    }
}

/// A user-defined record attached to an account token ("twitter" => handle).
/// `verified` is only ever set by the verification oracle.
#[derive(Debug, PartialEq, Eq)]
pub struct TextRecord {
    pub account: String,
    pub value: String,
    pub verified: Option<bool>,
}

impl Clone for TextRecord {
    fn clone(&self) -> (r: Self)
        ensures
            r == *self,
    {
        TextRecord { account: self.account.clone(), value: self.value.clone(), verified: self.verified }
    }
}

impl TextRecord {
    /// An unverified record.
    pub fn new(account: &str, value: &str) -> (r: Self)
        ensures
            r.account@ == account@,
            r.value@ == value@,
            r.verified is None,
    {
        TextRecord { account: account.to_owned(), value: value.to_owned(), verified: None }
    }
}

/// A token of another collection, used as the image of an account.
#[derive(Debug, PartialEq, Eq)]
pub struct Nft {
    pub collection: String,
    pub token_id: String,
}

impl Clone for Nft {
    fn clone(&self) -> (r: Self)
        ensures
            r == *self,
    {
        Nft { collection: self.collection.clone(), token_id: self.token_id.clone() }
    }
}

/// The extension stored with every account token.
#[derive(Debug, PartialEq, Eq)]
pub struct Metadata {
    pub image_nft: Option<Nft>,
    pub records: Vec<TextRecord>,
    /// The token is the ownership key of the abstract account in `token_uri`.
    pub account_ownership: bool,
}

impl Metadata {
    /// No image, no records, no abstract-account ownership.
    pub fn default() -> (m: Self)
        ensures
            m.image_nft is None,
            m.records@.len() == 0,
            !m.account_ownership,
    {
        Metadata { image_nft: None, records: Vec::new(), account_ownership: false }
    }

    /// No image, no records, but the token keys an abstract account.
    pub fn default_with_account() -> (m: Self)
        ensures
            m.image_nft is None,
            m.records@.len() == 0,
            m.account_ownership,
    {
        Metadata { image_nft: None, records: Vec::new(), account_ownership: true }
    }
}

/// What the collection answers about a token: its URI (for a token that keys
/// an abstract account, that account's address) and its extension.
#[derive(Debug, PartialEq, Eq)]
pub struct NftInfo {
    pub token_uri: Option<String>,
    pub extension: Metadata,
}

/// An account token listed on the marketplace.
#[derive(Debug, PartialEq, Eq)]
pub struct Ask {
    pub token_id: String,
    pub id: u32,
    pub seller: String,
}

impl Clone for Ask {
    fn clone(&self) -> (r: Self)
        ensures
            r == *self,
    {
        Ask { token_id: self.token_id.clone(), id: self.id, seller: self.seller.clone() }
    }
}

/// A bid held in escrow by the marketplace; `created_time` is in nanoseconds.
#[derive(Debug, PartialEq, Eq)]
pub struct Bid {
    pub token_id: String,
    pub bidder: String,
    pub amount: u128,
    pub created_time: u64,
}

impl Clone for Bid {
    fn clone(&self) -> (r: Self)
        ensures
            r == *self,
    {
        Bid {
            token_id: self.token_id.clone(),
            bidder: self.bidder.clone(),
            amount: self.amount,
            created_time: self.created_time,
        }
    }
}

/// The key of a bid: the token bid on and the bidder.
#[derive(Debug, PartialEq, Eq)]
pub struct BidKey {
    pub token_id: String,
    pub bidder: String,
}

impl Clone for BidKey {
    fn clone(&self) -> (r: Self)
        ensures
            r == *self,
    {
        BidKey { token_id: self.token_id.clone(), bidder: self.bidder.clone() }
    }
}

/// An accepted bid waiting out its cooldown; `unlock_time` is in nanoseconds.
#[derive(Debug, PartialEq, Eq)]
pub struct PendingBid {
    pub ask: Ask,
    pub new_owner: String,
    pub amount: u128,
    pub unlock_time: u64,
}

impl Clone for PendingBid {
    fn clone(&self) -> (r: Self)
        ensures
            r == *self,
    {
        PendingBid {
            ask: self.ask.clone(),
            new_owner: self.new_owner.clone(),
            amount: self.amount,
            unlock_time: self.unlock_time,
        }
    }
}

/// The height and time (in nanoseconds) of the block being executed.
#[derive(Clone, Copy, Debug, PartialEq, Eq)]
pub struct BlockInfo {
    pub height: u64,
    pub time: u64,
}

/// When an approval lapses.
#[derive(Clone, Copy, Debug, PartialEq, Eq)]
pub enum Expiration {
    AtHeight(u64),
    AtTime(u64),
    Never,
}

impl Expiration {
    pub open spec fn spec_is_expired(self, block: BlockInfo) -> bool {
        match self {
            Expiration::AtHeight(h) => block.height >= h,
            Expiration::AtTime(t) => block.time >= t,
            Expiration::Never => false,
        }
    }

    /// Whether the approval has lapsed at `block`.
    pub fn is_expired(&self, block: &BlockInfo) -> (r: bool)
        ensures
            r == self.spec_is_expired(*block),
    {
        match self {
            Expiration::AtHeight(h) => block.height >= *h,
            Expiration::AtTime(t) => block.time >= *t,
            Expiration::Never => false,
        }
    }
}

} // verus!
