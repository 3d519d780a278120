//! Verified core of the Terp account-token contracts: the account-name
//! rules, the payment rules, the text-record and reverse-map bookkeeping of
//! the account collection, and the ask/bid/cooldown marketplace that mints
//! and trades account tokens.
use vstd::prelude::*;

pub mod types;
pub mod events;
pub mod strmap;
pub mod funds;
pub mod errors;
pub mod records;
pub mod account_name;
pub mod pricing;
pub mod ordering;
pub mod paging;
pub mod market;
pub mod market_admin;
pub mod market_bids;
pub mod market_trade;
pub mod market_sale;
pub mod market_listing;
pub mod market_queries;
pub mod collection;
pub mod ownership_verifier;
pub mod collection_links;
pub mod collection_keys;
pub mod collection_transfer;
pub mod collection_msgs;
pub mod migration;
pub mod laws;

verus! {
} // verus!
