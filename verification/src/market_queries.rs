//! The listings the marketplace answers: asks and bids looked up by key,
//! and pages of them in the order of the storage indexes.
use vstd::prelude::*;
use crate::errors::StdError;
use crate::market::{ask_idx, bid_idx, bid_is, cooldown_idx, hooks_of, hook_list, Market, MarketParams};
use crate::ordering::{keys_unique, lemma_prefixed_injective, lemma_str_key_injective, prefixed_key, push_prefixed_str_key,
    push_str_key, str_key};
use crate::paging::{is_page, items_of, lemma_page_same_cands, opt_key, past, take_page};
use crate::types::{Ask, Bid, PendingBid, DEFAULT_QUERY_LIMIT, MAX_QUERY_LIMIT};

verus! {

broadcast use vstd::seq_lib::group_seq_properties;

/// The order key of an ask in the id index: its id, then its token.
pub open spec fn ask_id_key(a: Ask) -> Seq<u128> {
    seq![a.id as u128] + str_key(a.token_id@)
}

/// The exclusive bound past which the asks by id are those with an id above
/// `s`: no key of an ask with id `s` reaches it.
pub open spec fn after_id(s: u32) -> Seq<u128> {
    seq![s as u128, u128::MAX]
}

/// An ask lies past `after_id(s)` exactly when its id is above `s`.
pub proof fn lemma_past_id(a: Ask, s: u32)
    ensures
        past(ask_id_key(a), Some(after_id(s)), false) <==> a.id > s,
{
    let k = ask_id_key(a);
    let b = after_id(s);
    reveal_with_fuel(crate::ordering::lex_lt_from, 3);
    if a.id == s && k.len() > 1 {
        assert(k[1] == str_key(a.token_id@)[0]);
        assert(k[1] < u128::MAX);
    }
}

/// The order key of an ask within a seller's asks: its token.
pub open spec fn ask_token_key(a: Ask) -> Seq<u128> {
    str_key(a.token_id@)
}

/// The order key of a bid by its primary key: its token, then its bidder.
pub open spec fn bid_pk_key(b: Bid) -> Seq<u128> {
    prefixed_key(b.token_id@) + str_key(b.bidder@)
}

/// The order key of a bid within a token's bids: its bidder.
pub open spec fn bidder_key(b: Bid) -> Seq<u128> {
    str_key(b.bidder@)
}

/// The order key of a bid in the price index: its token, its amount, then
/// its bidder.
pub open spec fn price_index_key(b: Bid) -> Seq<u128> {
    prefixed_key(b.token_id@) + seq![b.amount as u128] + str_key(b.bidder@)
}

/// A listing of bids: which bids, and in which order.
#[derive(Debug, PartialEq, Eq)]
pub enum BidListing {
    /// The bids on a token, by bidder.
    OfToken(String),
    /// The bids of a bidder, by token.
    OfBidder(String),
    /// All bids, by token, price and bidder.
    ByPrice,
    /// The bids on a token, by price and bidder.
    OfTokenByPrice(String),
}

/// Whether the listing holds bid `b`.
pub open spec fn listing_holds(l: BidListing, b: Bid) -> bool {
    match l {
        BidListing::OfToken(t) => b.token_id@ == t@,
        BidListing::OfBidder(w) => b.bidder@ == w@,
        BidListing::ByPrice => true,
        BidListing::OfTokenByPrice(t) => b.token_id@ == t@,
    }
}

/// The order key of bid `b` in the listing.
pub open spec fn listing_key(l: BidListing) -> spec_fn(Bid) -> Seq<u128> {
    match l {
        BidListing::OfToken(_) => |b: Bid| bidder_key(b),
        BidListing::OfBidder(_) => |b: Bid| bid_pk_key(b),
        BidListing::ByPrice => |b: Bid| price_index_key(b),
        BidListing::OfTokenByPrice(_) => |b: Bid| price_index_key(b),
    }
}

/// The bids of the listing.
pub open spec fn listed_bids(bids: Seq<Bid>, l: BidListing) -> Seq<Bid> {
    bids.filter(|b: Bid| listing_holds(l, b))
}

/// Every listed bid is one of the bids.
pub proof fn lemma_listed_in_bids(bids: Seq<Bid>, l: BidListing)
    ensures
        forall|b: Bid| #[trigger] listed_bids(bids, l).contains(b) ==> bids.contains(b),
{
    lemma_filter_within(bids, |b: Bid| listing_holds(l, b));
}

/// What a filter keeps comes from the filtered sequence.
proof fn lemma_filter_within(s: Seq<Bid>, pred: spec_fn(Bid) -> bool)
    ensures
        forall|b: Bid| #[trigger] s.filter(pred).contains(b) ==> s.contains(b),
    decreases s.len(),
{
    reveal(Seq::filter);
    if s.len() > 0 {
        let rest = s.drop_last();
        lemma_filter_within(rest, pred);
        assert forall|b: Bid| #[trigger] s.filter(pred).contains(b) implies s.contains(b) by {
            let f = s.filter(pred);
            let sub = rest.filter(pred);
            let i = choose|i: int| 0 <= i < f.len() && f[i] == b;
            if i < sub.len() {
                assert(sub[i] == b);
                assert(sub.contains(b));
                let j = choose|j: int| 0 <= j < rest.len() && rest[j] == b;
                assert(s[j] == b);
            } else {
                assert(b == s.last());
                assert(s[s.len() - 1] == b);
            }
        }
    }
}

/// Two bids with the same price-index key have the same token, amount and
/// bidder.
pub proof fn lemma_price_key_injective(x: Bid, y: Bid)
    requires
        price_index_key(x) == price_index_key(y),
        crate::types::byte_len(x.token_id@) <= usize::MAX,
        crate::types::byte_len(y.token_id@) <= usize::MAX,
    ensures
        x.token_id@ == y.token_id@,
        x.amount == y.amount,
        x.bidder@ == y.bidder@,
{
    let sx = seq![x.amount as u128] + str_key(x.bidder@);
    let sy = seq![y.amount as u128] + str_key(y.bidder@);
    assert(price_index_key(x) =~= prefixed_key(x.token_id@) + sx);
    assert(price_index_key(y) =~= prefixed_key(y.token_id@) + sy);
    lemma_prefixed_injective(x.token_id@, sx, y.token_id@, sy);
    assert(sx[0] == sy[0]);
    crate::ordering::lemma_key_parts(seq![x.amount as u128], str_key(x.bidder@), seq![y.amount as u128], str_key(y.bidder@));
    lemma_str_key_injective(x.bidder@, y.bidder@);
}

/// Whether `s` holds exactly the asks that pass `f`, each from `asks`.
pub open spec fn asks_where(asks: Seq<Ask>, seller: Option<String>) -> Seq<Ask> {
    asks.filter(|a: Ask| seller matches Some(s) ==> a.seller@ == s@)
}

/// The page size asked for: ten by default, at most a hundred.
pub open spec fn page_limit(limit: Option<u32>) -> nat {
    let l = match limit { Some(l) => l, None => DEFAULT_QUERY_LIMIT };
    if l < MAX_QUERY_LIMIT { l as nat } else { MAX_QUERY_LIMIT as nat }
}

/// The page size asked for.
pub fn query_limit(limit: Option<u32>) -> (n: usize)
    ensures
        n == page_limit(limit),
        limit matches Some(l) ==> (l <= 100 ==> n == l),
        limit matches Some(l) ==> (l > 100 ==> n == 100),
        limit is None ==> n == 10,
{
    let l = match limit {
        Some(l) => l,
        None => DEFAULT_QUERY_LIMIT,
    };
    if l < MAX_QUERY_LIMIT { l as usize } else { MAX_QUERY_LIMIT as usize }
}

/// Where a page of bids sorted by price starts (or ends): a bid's token,
/// price and bidder.
#[derive(Debug, PartialEq, Eq)]
pub struct BidOffset {
    pub price: u128,
    pub token_id: String,
    pub bidder: String,
}

/// The price-index key of an offset.
pub open spec fn offset_key(o: BidOffset) -> Seq<u128> {
    prefixed_key(o.token_id@) + seq![o.price] + str_key(o.bidder@)
}

impl Market {
    /// The keyed bids of a listing.
    fn bid_items(&self, l: &BidListing) -> (r: Vec<(Vec<u128>, Bid)>)
        requires
            self.wf(),
        ensures
            keys_unique(r@),
            forall|i: int| 0 <= i < r@.len() ==> (listing_key(*l))(#[trigger] r@[i].1) == r@[i].0@,
            forall|b: Bid| items_of(r@).contains(b) <==> listed_bids(self.bids@, *l).contains(b),
    {
        let mut items: Vec<(Vec<u128>, Bid)> = Vec::new();
        let n = self.bids.len();
        let ghost key = listing_key(*l);
        let ghost pred = |b: Bid| listing_holds(*l, b);
        for i in 0..n
            invariant
                n == self.bids@.len(),
                self.wf(),
                key == listing_key(*l),
                pred == (|b: Bid| listing_holds(*l, b)),
                keys_unique(items@),
                forall|a: int| 0 <= a < items@.len() ==> key(#[trigger] items@[a].1) == items@[a].0@
                    && crate::types::byte_len(items@[a].1.token_id@) <= usize::MAX,
                forall|a: int| 0 <= a < items@.len() ==> self.bids@.take(i as int).contains(#[trigger] items@[a].1),
                items_of(items@) == self.bids@.take(i as int).filter(pred),
        {
            let b = &self.bids[i];
            let holds = match l {
                BidListing::OfToken(t) => b.token_id == *t,
                BidListing::OfBidder(w) => b.bidder == *w,
                BidListing::ByPrice => true,
                BidListing::OfTokenByPrice(t) => b.token_id == *t,
            };
            proof {
                self.bids@.take(i as int).lemma_filter_push(*b, pred);
                assert(self.bids@.take(i as int).push(*b) =~= self.bids@.take(i + 1));
                self.bids@.take(i as int).filter_lemma(pred);
            }
            let ghost prev = items@;
            proof {
                assert forall|a: int| 0 <= a < prev.len() implies self.bids@.take(i + 1).contains(#[trigger] prev[a].1) by {
                    let j = choose|j: int| 0 <= j < i && self.bids@.take(i as int)[j] == prev[a].1;
                    assert(self.bids@.take(i + 1)[j] == prev[a].1);
                }
            }
            if holds {
                let mut k: Vec<u128> = Vec::new();
                match l {
                    BidListing::OfToken(_) => push_str_key(&mut k, b.bidder.as_str()),
                    BidListing::OfBidder(_) => {
                        push_prefixed_str_key(&mut k, b.token_id.as_str());
                        push_str_key(&mut k, b.bidder.as_str());
                    },
                    _ => {
                        push_prefixed_str_key(&mut k, b.token_id.as_str());
                        k.push(b.amount);
                        push_str_key(&mut k, b.bidder.as_str());
                    },
                }
                let _ = crate::types::str_byte_len(b.token_id.as_str());
                proof {
                    assert(k@ =~= key(*b));
                    assert forall|a: int| 0 <= a < prev.len() implies prev[a].0@ != k@ by {
                        let c = prev[a].1;
                        assert(self.bids@.take(i as int).contains(c));
                        let j = choose|j: int| 0 <= j < i && self.bids@.take(i as int)[j] == c;
                        assert(self.bids@[j] == c);
                        assert(items_of(prev)[a] == c);
                        assert(pred(c));
                        if prev[a].0@ == k@ {
                            match *l {
                                BidListing::OfToken(t) => {
                                    lemma_str_key_injective(c.bidder@, b.bidder@);
                                    assert(self.bids@.take(i as int).contains(c));
                                    assert(c.token_id@ == t@);
                                },
                                BidListing::OfBidder(w) => {
                                    lemma_prefixed_injective(c.token_id@, str_key(c.bidder@), b.token_id@, str_key(b.bidder@));
                                    lemma_str_key_injective(c.bidder@, b.bidder@);
                                },
                                _ => {
                                    assert(prefixed_key(c.token_id@) + (seq![c.amount as u128] + str_key(c.bidder@))
                                        =~= price_index_key(c));
                                    assert(prefixed_key(b.token_id@) + (seq![b.amount as u128] + str_key(b.bidder@))
                                        =~= price_index_key(*b));
                                    lemma_prefixed_injective(c.token_id@, seq![c.amount as u128] + str_key(c.bidder@),
                                        b.token_id@, seq![b.amount as u128] + str_key(b.bidder@));
                                    crate::ordering::lemma_key_parts(seq![c.amount as u128], str_key(c.bidder@),
                                        seq![b.amount as u128], str_key(b.bidder@));
                                    lemma_str_key_injective(c.bidder@, b.bidder@);
                                },
                            }
                            assert(bid_is(self.bids@[j], self.bids@[i as int].token_id@, self.bids@[i as int].bidder@));
                        }
                    }
                }
                items.push((k, b.clone()));
                proof {
                    assert(items_of(items@) =~= items_of(prev).push(*b));
                    assert forall|a: int| 0 <= a < items@.len() implies self.bids@.take(i + 1).contains(#[trigger] items@[a].1) by {
                        if a < prev.len() {
                            assert(items@[a] == prev[a]);
                        } else {
                            assert(self.bids@.take(i + 1)[i as int] == items@[a].1);
                        }
                    }
                }
            }
        }
        proof {
            assert(self.bids@.take(n as int) =~= self.bids@);
        }
        items
    }

    /// A page of the bids of listing `l`, past `bound`, in the listing's
    /// order (descending with `desc`).
    pub fn bids_page(&self, l: &BidListing, bound: &Option<Vec<u128>>, limit: usize, desc: bool) -> (r: Vec<Bid>)
        requires
            self.wf(),
        ensures
            is_page(r@, listed_bids(self.bids@, *l), listing_key(*l), opt_key(*bound), limit as nat, desc),
    {
        let items = self.bid_items(l);
        let ghost cands = items_of(items@);
        let r = take_page(items, Ghost(listing_key(*l)), bound, limit, desc);
        proof {
            lemma_page_same_cands(r@, cands, listed_bids(self.bids@, *l), listing_key(*l), opt_key(*bound), limit as nat, desc);
        }
        r
    }

    /// The bid of `bidder` on `token_id`, if any.
    pub fn query_bid(&self, token_id: &String, bidder: &String) -> (r: Option<Bid>)
        requires
            self.wf(),
        ensures
            r is None <==> bid_idx(self.bids@, token_id@, bidder@) < 0,
            r matches Some(b) ==> b == self.bids@[bid_idx(self.bids@, token_id@, bidder@)],
    {
        match self.find_bid(token_id, bidder) {
            Some(i) => Some(self.bids[i].clone()),
            None => None,
        }
    }

    /// The ask of `token_id`, if any.
    pub fn query_ask(&self, token_id: &String) -> (r: Option<Ask>)
        requires
            self.wf(),
        ensures
            r is None <==> ask_idx(self.asks@, token_id@) < 0,
            r matches Some(a) ==> a == self.asks@[ask_idx(self.asks@, token_id@)],
    {
        match self.find_ask(token_id) {
            Some(i) => Some(self.asks[i].clone()),
            None => None,
        }
    }

    /// The number of asks ever made; an error before the first.
    pub fn query_ask_count(&self) -> (r: Result<u32, StdError>)
        ensures
            match self.ask_count {
                Some(c) => r == Ok::<u32, StdError>(c),
                None => r matches Err(StdError::NotFound { .. }),
            },
    {
        match self.ask_count {
            Some(c) => Ok(c),
            None => Err(StdError::NotFound { kind: String::from_str("u32") }),
        }
    }

    /// The pending sale of `token_id`, if any.
    pub fn query_cooldown(&self, token_id: &String) -> (r: Option<PendingBid>)
        requires
            self.wf(),
        ensures
            r is None <==> cooldown_idx(self.cooldowns@, token_id@) < 0,
            r matches Some(p) ==> p == self.cooldowns@[cooldown_idx(self.cooldowns@, token_id@)],
    {
        match self.find_cooldown(token_id) {
            Some(i) => Some(self.cooldowns[i].clone()),
            None => None,
        }
    }

    /// The bids on `token_id` past bidder `start_after`, by bidder.
    pub fn query_bids(&self, token_id: &String, start_after: Option<String>, limit: Option<u32>) -> (r: Vec<Bid>)
        requires
            self.wf(),
        ensures
            is_page(r@, listed_bids(self.bids@, BidListing::OfToken(*token_id)), |b: Bid| bidder_key(b),
                match start_after { Some(s) => Some(str_key(s@)), None => None }, page_limit(limit), false),
    {
        let bound = match &start_after {
            Some(s) => {
                let mut k: Vec<u128> = Vec::new();
                push_str_key(&mut k, s.as_str());
                Some(k)
            },
            None => None,
        };
        let n = query_limit(limit);
        let l = BidListing::OfToken(token_id.clone());
        let r = self.bids_page(&l, &bound, n, false);
        proof {
            assert(listing_key(l) =~= (|b: Bid| bidder_key(b)));
            assert(listed_bids(self.bids@, l) == listed_bids(self.bids@, BidListing::OfToken(*token_id)));
        }
        r
    }

    /// The bids of `bidder` past token `start_after`, by token.
    pub fn query_bids_by_bidder(&self, bidder: &String, start_after: Option<String>, limit: Option<u32>) -> (r: Vec<Bid>)
        requires
            self.wf(),
        ensures
            is_page(r@, listed_bids(self.bids@, BidListing::OfBidder(*bidder)), |b: Bid| bid_pk_key(b),
                match start_after { Some(s) => Some(prefixed_key(s@) + str_key(bidder@)), None => None }, page_limit(limit), false),
    {
        let bound = match &start_after {
            Some(s) => {
                let mut k: Vec<u128> = Vec::new();
                push_prefixed_str_key(&mut k, s.as_str());
                push_str_key(&mut k, bidder.as_str());
                Some(k)
            },
            None => None,
        };
        let n = query_limit(limit);
        let l = BidListing::OfBidder(bidder.clone());
        let r = self.bids_page(&l, &bound, n, false);
        proof {
            assert(listing_key(l) =~= (|b: Bid| bid_pk_key(b)));
            assert(listed_bids(self.bids@, l) == listed_bids(self.bids@, BidListing::OfBidder(*bidder)));
        }
        r
    }

    /// All bids past `start_after`, by token, price and bidder.
    pub fn query_bids_sorted_by_price(&self, start_after: Option<BidOffset>, limit: Option<u32>) -> (r: Vec<Bid>)
        requires
            self.wf(),
        ensures
            is_page(r@, listed_bids(self.bids@, BidListing::ByPrice), |b: Bid| price_index_key(b),
                match start_after { Some(o) => Some(offset_key(o)), None => None }, page_limit(limit), false),
    {
        let bound = offset_bound(&start_after);
        let n = query_limit(limit);
        let l = BidListing::ByPrice;
        let r = self.bids_page(&l, &bound, n, false);
        proof {
            assert(listing_key(l) =~= (|b: Bid| price_index_key(b)));
        }
        r
    }

    /// All bids before `start_before`, from the last by token, price and bidder.
    pub fn reverse_query_bids_sorted_by_price(&self, start_before: Option<BidOffset>, limit: Option<u32>) -> (r: Vec<Bid>)
        requires
            self.wf(),
        ensures
            is_page(r@, listed_bids(self.bids@, BidListing::ByPrice), |b: Bid| price_index_key(b),
                match start_before { Some(o) => Some(offset_key(o)), None => None }, page_limit(limit), true),
    {
        let bound = offset_bound(&start_before);
        let n = query_limit(limit);
        let l = BidListing::ByPrice;
        let r = self.bids_page(&l, &bound, n, true);
        proof {
            assert(listing_key(l) =~= (|b: Bid| price_index_key(b)));
        }
        r
    }

    /// The highest bid on `token_id` (among equal amounts, the last bidder).
    pub fn query_highest_bid(&self, token_id: &String) -> (r: Option<Bid>)
        requires
            self.wf(),
        ensures
            ({
                let cands = listed_bids(self.bids@, BidListing::OfTokenByPrice(*token_id));
                &&& r is None <==> cands.len() == 0
                &&& r matches Some(b) ==> cands.contains(b) && forall|c: Bid| cands.contains(c) && c != b
                    ==> crate::ordering::lex_lt(price_index_key(c), price_index_key(b))
            }),
    {
        let l = BidListing::OfTokenByPrice(token_id.clone());
        let mut page = self.bids_page(&l, &None, 1, true);
        proof {
            let cands = listed_bids(self.bids@, l);
            assert(listed_bids(self.bids@, l) == listed_bids(self.bids@, BidListing::OfTokenByPrice(*token_id)));
            if cands.len() > 0 {
                assert(cands.contains(cands[0]));
                if page@.len() == 0 {
                    assert(page@.len() == 1);
                }
            }
            if page@.len() > 0 {
                assert(page@.contains(page@[0]));
                assert forall|c: Bid| cands.contains(c) && c != page@[0]
                    implies crate::ordering::lex_lt(price_index_key(c), price_index_key(page@[0])) by {
                    if page@.contains(c) {
                        let q = choose|q: int| 0 <= q < page@.len() && page@[q] == c;
                    }
                }
            }
        }
        page.pop()
    }

    /// The account collection the marketplace mints into.
    pub fn query_collection(&self) -> (r: String)
        ensures
            r == self.collection,
    {
        self.collection.clone()
    }

    /// The parameters governance sets.
    pub fn query_params(&self) -> (r: MarketParams)
        ensures
            r == self.params,
    {
        self.params.clone()
    }

    /// When public minting opens, in nanoseconds.
    pub fn query_config(&self) -> (r: u64)
        ensures
            r == self.public_mint_start_time,
    {
        self.public_mint_start_time
    }

    /// The asks with an id above `start_after` (zero by default), by id.
    pub fn query_asks(&self, start_after: Option<u32>, limit: Option<u32>) -> (r: Vec<Ask>)
        requires
            self.wf(),
        ensures
            is_page(r@, asks_where(self.asks@, None), |a: Ask| ask_id_key(a),
                Some(after_id(match start_after { Some(s) => s, None => 0 })), page_limit(limit), false),
            forall|a: Ask| #[trigger] r@.contains(a) ==> a.id > (match start_after { Some(s) => s, None => 0 }),
    {
        let start: u32 = match start_after {
            Some(s) => s,
            None => 0,
        };
        let mut bound: Vec<u128> = Vec::new();
        bound.push(start as u128);
        bound.push(u128::MAX);
        let n = query_limit(limit);
        let items = self.ask_items(&None, true);
        let ghost cands = items_of(items@);
        let ghost b = Some(bound@);
        proof {
            assert(bound@ == after_id(start));
        }
        let r = take_page(items, Ghost(|a: Ask| ask_id_key(a)), &Some(bound), n, false);
        proof {
            lemma_page_same_cands(r@, cands, asks_where(self.asks@, None), |a: Ask| ask_id_key(a), b, n as nat, false);
            assert forall|a: Ask| #[trigger] r@.contains(a) implies a.id > start by {
                lemma_past_id(a, start);
            }
        }
        r
    }

    /// The asks of `seller` past token `start_after`, by token.
    pub fn query_asks_by_seller(&self, seller: &String, start_after: Option<String>, limit: Option<u32>) -> (r: Vec<Ask>)
        requires
            self.wf(),
        ensures
            is_page(r@, asks_where(self.asks@, Some(*seller)), |a: Ask| ask_token_key(a),
                match start_after { Some(s) => Some(str_key(s@)), None => None }, page_limit(limit), false),
    {
        let bound = match &start_after {
            Some(s) => {
                let mut k: Vec<u128> = Vec::new();
                push_str_key(&mut k, s.as_str());
                Some(k)
            },
            None => None,
        };
        let n = query_limit(limit);
        let items = self.ask_items(&Some(seller.clone()), false);
        let ghost cands = items_of(items@);
        let r = take_page(items, Ghost(|a: Ask| ask_token_key(a)), &bound, n, false);
        proof {
            lemma_page_same_cands(r@, cands, asks_where(self.asks@, Some(*seller)), |a: Ask| ask_token_key(a), opt_key(bound), n as nat, false);
        }
        r
    }

    /// The keyed asks of `seller` (of everyone without one), keyed by id
    /// (`by_id`) or by token.
    fn ask_items(&self, seller: &Option<String>, by_id: bool) -> (r: Vec<(Vec<u128>, Ask)>)
        requires
            self.wf(),
        ensures
            keys_unique(r@),
            forall|i: int| 0 <= i < r@.len() ==> (if by_id { ask_id_key(#[trigger] r@[i].1) } else { ask_token_key(r@[i].1) }) == r@[i].0@,
            forall|a: Ask| items_of(r@).contains(a) <==> asks_where(self.asks@, *seller).contains(a),
    {
        let mut items: Vec<(Vec<u128>, Ask)> = Vec::new();
        let n = self.asks.len();
        let ghost pred = |a: Ask| seller matches Some(s) ==> a.seller@ == s@;
        for i in 0..n
            invariant
                n == self.asks@.len(),
                self.wf(),
                pred == (|a: Ask| seller matches Some(s) ==> a.seller@ == s@),
                keys_unique(items@),
                forall|a: int| 0 <= a < items@.len() ==> (if by_id { ask_id_key(#[trigger] items@[a].1) } else { ask_token_key(items@[a].1) }) == items@[a].0@,
                forall|a: int| 0 <= a < items@.len() ==> self.asks@.take(i as int).contains(#[trigger] items@[a].1),
                items_of(items@) == self.asks@.take(i as int).filter(pred),
        {
            let a = &self.asks[i];
            let holds = match seller {
                Some(s) => a.seller == *s,
                None => true,
            };
            proof {
                self.asks@.take(i as int).lemma_filter_push(*a, pred);
                assert(self.asks@.take(i as int).push(*a) =~= self.asks@.take(i + 1));
            }
            let ghost prev = items@;
            proof {
                assert forall|q: int| 0 <= q < prev.len() implies self.asks@.take(i + 1).contains(#[trigger] prev[q].1) by {
                    let j = choose|j: int| 0 <= j < i && self.asks@.take(i as int)[j] == prev[q].1;
                    assert(self.asks@.take(i + 1)[j] == prev[q].1);
                }
            }
            if holds {
                let mut k: Vec<u128> = Vec::new();
                if by_id {
                    k.push(a.id as u128);
                }
                push_str_key(&mut k, a.token_id.as_str());
                proof {
                    assert forall|q: int| 0 <= q < prev.len() implies prev[q].0@ != k@ by {
                        let c = prev[q].1;
                        assert(self.asks@.take(i as int).contains(c));
                        let j = choose|j: int| 0 <= j < i && self.asks@.take(i as int)[j] == c;
                        assert(self.asks@[j] == c);
                        if prev[q].0@ == k@ {
                            if by_id {
                                crate::ordering::lemma_key_parts(seq![c.id as u128], str_key(c.token_id@),
                                    seq![a.id as u128], str_key(a.token_id@));
                            }
                            lemma_str_key_injective(c.token_id@, a.token_id@);
                            assert(self.asks@[j].token_id@ == self.asks@[i as int].token_id@);
                        }
                    }
                }
                items.push((k, a.clone()));
                proof {
                    assert(items_of(items@) =~= items_of(prev).push(*a));
                    assert forall|q: int| 0 <= q < items@.len() implies self.asks@.take(i + 1).contains(#[trigger] items@[q].1) by {
                        if q < prev.len() {
                            assert(items@[q] == prev[q]);
                        } else {
                            assert(self.asks@.take(i + 1)[i as int] == items@[q].1);
                        }
                    }
                }
            }
        }
        proof {
            assert(self.asks@.take(n as int) =~= self.asks@);
        }
        items
    }
}

/// The price-index key of an optional offset.
fn offset_bound(o: &Option<BidOffset>) -> (r: Option<Vec<u128>>)
    ensures
        opt_key(r) == (match *o { Some(o) => Some(offset_key(o)), None => None }),
{
    match o {
        Some(o) => {
            let mut k: Vec<u128> = Vec::new();
            push_prefixed_str_key(&mut k, o.token_id.as_str());
            k.push(o.price);
            push_str_key(&mut k, o.bidder.as_str());
            proof {
                assert(k@ =~= offset_key(*o));
            }
            Some(k)
        },
        None => None,
    }
}

/// The bids of consecutive listings, one after another.
pub open spec fn concat_pages(pages: Seq<Seq<Bid>>) -> Seq<Bid>
    decreases pages.len(),
{
    if pages.len() == 0 {
        Seq::empty()
    } else {
        concat_pages(pages.drop_last()) + pages.last()
    }
}

/// `r` lists, for a page of the asks of `seller` past the offset's token,
/// all the bids on each asked token, by bidder.
pub open spec fn bids_for_seller(m: Market, seller: String, start_after: Option<BidOffset>, limit: Option<u32>, r: Seq<Bid>) -> bool {
    exists|ap: Seq<Ask>, pages: Seq<Seq<Bid>>|
        #[trigger] seller_asks_page(m, seller, start_after, limit, ap)
        && pages.len() == ap.len()
        && (forall|i: int| 0 <= i < ap.len() ==> is_page(#[trigger] pages[i], listed_bids(m.bids@, BidListing::OfToken(ap[i].token_id)),
            |b: Bid| bidder_key(b), None, m.bids@.len(), false))
        && r == #[trigger] concat_pages(pages)
}

/// `ap` is the page of the asks of `seller` past the offset's token.
pub open spec fn seller_asks_page(m: Market, seller: String, start_after: Option<BidOffset>, limit: Option<u32>, ap: Seq<Ask>) -> bool {
    is_page(ap, asks_where(m.asks@, Some(seller)), |a: Ask| ask_token_key(a),
        match start_after { Some(o) => Some(str_key(o.token_id@)), None => None }, page_limit(limit), false)
}

impl Market {
    /// The bids on the tokens a seller lists: a page of the seller's asks
    /// past the offset's token, and for each all the bids on it, by bidder.
    pub fn query_bids_for_seller(&self, seller: &String, start_after: Option<BidOffset>, limit: Option<u32>) -> (r: Vec<Bid>)
        requires
            self.wf(),
        ensures
            bids_for_seller(*self, *seller, start_after, limit, r@),
    {
        let bound = match &start_after {
            Some(o) => {
                let mut k: Vec<u128> = Vec::new();
                push_str_key(&mut k, o.token_id.as_str());
                Some(k)
            },
            None => None,
        };
        let n = query_limit(limit);
        let items = self.ask_items(&Some(seller.clone()), false);
        let ghost cands = items_of(items@);
        let mut asks = take_page(items, Ghost(|a: Ask| ask_token_key(a)), &bound, n, false);
        let ghost ap = asks@;
        proof {
            lemma_page_same_cands(ap, cands, asks_where(self.asks@, Some(*seller)), |a: Ask| ask_token_key(a), opt_key(bound), n as nat, false);
        }
        let mut out: Vec<Bid> = Vec::new();
        let ghost mut pages: Seq<Seq<Bid>> = Seq::empty();
        let m = asks.len();
        let all = self.bids.len();
        for i in 0..m
            invariant
                m == ap.len(),
                asks@ == ap,
                all == self.bids@.len(),
                self.wf(),
                pages.len() == i,
                forall|q: int| 0 <= q < i ==> is_page(#[trigger] pages[q], listed_bids(self.bids@, BidListing::OfToken(ap[q].token_id)),
                    |b: Bid| bidder_key(b), None, self.bids@.len(), false),
                out@ == concat_pages(pages),
        {
            let l = BidListing::OfToken(asks[i].token_id.clone());
            let page = self.bids_page(&l, &None, all, false);
            proof {
                assert(listing_key(l) =~= (|b: Bid| bidder_key(b)));
                let old_pages = pages;
                pages = pages.push(page@);
                assert(pages.drop_last() =~= old_pages);
                assert forall|q: int| 0 <= q < i + 1 implies is_page(#[trigger] pages[q], listed_bids(self.bids@, BidListing::OfToken(ap[q].token_id)),
                    |b: Bid| bidder_key(b), None, self.bids@.len(), false) by {
                    if q < i {
                        assert(pages[q] == old_pages[q]);
                    }
                }
            }
            let mut more = page;
            out.append(&mut more);
        }
        proof {
            assert(opt_key(bound) == (match start_after { Some(o) => Some(str_key(o.token_id@)), None => None }));
            assert(seller_asks_page(*self, *seller, start_after, limit, ap));
            assert(out@ == concat_pages(pages));
        }
        out
    }
}

/// The listings the marketplace answers.
#[derive(Debug, PartialEq, Eq)]
pub enum QueryMsg {
    Ownership {},
    Collection {},
    Params {},
    Config {},
    Ask { token_id: String },
    Asks { start_after: Option<u32>, limit: Option<u32> },
    AsksBySeller { seller: String, start_after: Option<String>, limit: Option<u32> },
    AskCount {},
    Bid { token_id: String, bidder: String },
    Bids { token_id: String, start_after: Option<String>, limit: Option<u32> },
    BidsByBidder { bidder: String, start_after: Option<String>, limit: Option<u32> },
    BidsSortedByPrice { start_after: Option<BidOffset>, limit: Option<u32> },
    ReverseBidsSortedByPrice { start_before: Option<BidOffset>, limit: Option<u32> },
    BidsForSeller { seller: String, start_after: Option<BidOffset>, limit: Option<u32> },
    HighestBid { token_id: String },
    AskHooks {},
    BidHooks {},
    SaleHooks {},
    Cooldown { token_id: String },
}

/// What the marketplace answers to a query.
#[derive(Debug, PartialEq, Eq)]
pub enum MarketQueryResponse {
    /// Answered from the marketplace's ownership record.
    Ownership,
    Collection(String),
    Params(MarketParams),
    /// When public minting opens, in nanoseconds.
    Config(u64),
    Ask(Option<Ask>),
    Asks(Vec<Ask>),
    AskCount(u32),
    Bid(Option<Bid>),
    Bids(Vec<Bid>),
    Hooks(Vec<String>),
    Cooldown(Option<PendingBid>),
}

impl Market {
    /// Answers a query (addresses in it already validated).
    pub fn query(&self, msg: QueryMsg) -> (r: Result<MarketQueryResponse, StdError>)
        requires
            self.wf(),
        ensures
            r is Err ==> msg is AskCount && self.ask_count is None,
            match msg {
                QueryMsg::Ownership {} => r == Ok::<MarketQueryResponse, StdError>(MarketQueryResponse::Ownership),
                QueryMsg::Collection {} => r == Ok::<MarketQueryResponse, StdError>(MarketQueryResponse::Collection(self.collection)),
                QueryMsg::Params {} => r == Ok::<MarketQueryResponse, StdError>(MarketQueryResponse::Params(self.params)),
                QueryMsg::Config {} => r == Ok::<MarketQueryResponse, StdError>(MarketQueryResponse::Config(self.public_mint_start_time)),
                QueryMsg::Ask { token_id } => r == Ok::<MarketQueryResponse, StdError>(MarketQueryResponse::Ask(
                    if ask_idx(self.asks@, token_id@) < 0 { None } else { Some(self.asks@[ask_idx(self.asks@, token_id@)]) })),
                QueryMsg::Asks { start_after, limit } => r matches Ok(MarketQueryResponse::Asks(v))
                    && is_page(v@, asks_where(self.asks@, None), |a: Ask| ask_id_key(a),
                        Some(after_id(match start_after { Some(s) => s, None => 0 })), page_limit(limit), false),
                QueryMsg::AsksBySeller { seller, start_after, limit } => r matches Ok(MarketQueryResponse::Asks(v))
                    && is_page(v@, asks_where(self.asks@, Some(seller)), |a: Ask| ask_token_key(a),
                        match start_after { Some(s) => Some(str_key(s@)), None => None }, page_limit(limit), false),
                QueryMsg::AskCount {} => match self.ask_count {
                    Some(c) => r == Ok::<MarketQueryResponse, StdError>(MarketQueryResponse::AskCount(c)),
                    None => r is Err,
                },
                QueryMsg::Bid { token_id, bidder } => r == Ok::<MarketQueryResponse, StdError>(MarketQueryResponse::Bid(
                    if bid_idx(self.bids@, token_id@, bidder@) < 0 { None } else { Some(self.bids@[bid_idx(self.bids@, token_id@, bidder@)]) })),
                QueryMsg::Bids { token_id, start_after, limit } => r matches Ok(MarketQueryResponse::Bids(v))
                    && is_page(v@, listed_bids(self.bids@, BidListing::OfToken(token_id)), |b: Bid| bidder_key(b),
                        match start_after { Some(s) => Some(str_key(s@)), None => None }, page_limit(limit), false),
                QueryMsg::BidsByBidder { bidder, start_after, limit } => r matches Ok(MarketQueryResponse::Bids(v))
                    && is_page(v@, listed_bids(self.bids@, BidListing::OfBidder(bidder)), |b: Bid| bid_pk_key(b),
                        match start_after { Some(s) => Some(prefixed_key(s@) + str_key(bidder@)), None => None }, page_limit(limit), false),
                QueryMsg::BidsSortedByPrice { start_after, limit } => r matches Ok(MarketQueryResponse::Bids(v))
                    && is_page(v@, listed_bids(self.bids@, BidListing::ByPrice), |b: Bid| price_index_key(b),
                        match start_after { Some(o) => Some(offset_key(o)), None => None }, page_limit(limit), false),
                QueryMsg::ReverseBidsSortedByPrice { start_before, limit } => r matches Ok(MarketQueryResponse::Bids(v))
                    && is_page(v@, listed_bids(self.bids@, BidListing::ByPrice), |b: Bid| price_index_key(b),
                        match start_before { Some(o) => Some(offset_key(o)), None => None }, page_limit(limit), true),
                QueryMsg::BidsForSeller { seller, start_after, limit } => r matches Ok(MarketQueryResponse::Bids(v))
                    && bids_for_seller(*self, seller, start_after, limit, v@),
                QueryMsg::HighestBid { token_id } => r matches Ok(MarketQueryResponse::Bid(h)) && ({
                    let cands = listed_bids(self.bids@, BidListing::OfTokenByPrice(token_id));
                    &&& h is None <==> cands.len() == 0
                    &&& h matches Some(b) ==> cands.contains(b) && forall|c: Bid| cands.contains(c) && c != b
                        ==> crate::ordering::lex_lt(price_index_key(c), price_index_key(b))
                }),
                QueryMsg::AskHooks {} => r matches Ok(MarketQueryResponse::Hooks(h)) && h@ == hooks_of(self.ask_hooks),
                QueryMsg::BidHooks {} => r matches Ok(MarketQueryResponse::Hooks(h)) && h@ == hooks_of(self.bid_hooks),
                QueryMsg::SaleHooks {} => r matches Ok(MarketQueryResponse::Hooks(h)) && h@ == hooks_of(self.sale_hooks),
                QueryMsg::Cooldown { token_id } => r == Ok::<MarketQueryResponse, StdError>(MarketQueryResponse::Cooldown(
                    if cooldown_idx(self.cooldowns@, token_id@) < 0 { None } else { Some(self.cooldowns@[cooldown_idx(self.cooldowns@, token_id@)]) })),
            },
    {
        match msg {
            QueryMsg::Ownership {} => Ok(MarketQueryResponse::Ownership),
            QueryMsg::Collection {} => Ok(MarketQueryResponse::Collection(self.query_collection())),
            QueryMsg::Params {} => Ok(MarketQueryResponse::Params(self.query_params())),
            QueryMsg::Config {} => Ok(MarketQueryResponse::Config(self.query_config())),
            QueryMsg::Ask { token_id } => Ok(MarketQueryResponse::Ask(self.query_ask(&token_id))),
            QueryMsg::Asks { start_after, limit } => Ok(MarketQueryResponse::Asks(self.query_asks(start_after, limit))),
            QueryMsg::AsksBySeller { seller, start_after, limit } => {
                Ok(MarketQueryResponse::Asks(self.query_asks_by_seller(&seller, start_after, limit)))
            },
            QueryMsg::AskCount {} => match self.query_ask_count() {
                Ok(c) => Ok(MarketQueryResponse::AskCount(c)),
                Err(e) => Err(e),
            },
            QueryMsg::Bid { token_id, bidder } => Ok(MarketQueryResponse::Bid(self.query_bid(&token_id, &bidder))),
            QueryMsg::Bids { token_id, start_after, limit } => Ok(MarketQueryResponse::Bids(self.query_bids(&token_id, start_after, limit))),
            QueryMsg::BidsByBidder { bidder, start_after, limit } => {
                Ok(MarketQueryResponse::Bids(self.query_bids_by_bidder(&bidder, start_after, limit)))
            },
            QueryMsg::BidsSortedByPrice { start_after, limit } => {
                Ok(MarketQueryResponse::Bids(self.query_bids_sorted_by_price(start_after, limit)))
            },
            QueryMsg::ReverseBidsSortedByPrice { start_before, limit } => {
                Ok(MarketQueryResponse::Bids(self.reverse_query_bids_sorted_by_price(start_before, limit)))
            },
            QueryMsg::BidsForSeller { seller, start_after, limit } => {
                Ok(MarketQueryResponse::Bids(self.query_bids_for_seller(&seller, start_after, limit)))
            },
            QueryMsg::HighestBid { token_id } => Ok(MarketQueryResponse::Bid(self.query_highest_bid(&token_id))),
            QueryMsg::AskHooks {} => Ok(MarketQueryResponse::Hooks(hook_list(&self.ask_hooks))),
            QueryMsg::BidHooks {} => Ok(MarketQueryResponse::Hooks(hook_list(&self.bid_hooks))),
            QueryMsg::SaleHooks {} => Ok(MarketQueryResponse::Hooks(hook_list(&self.sale_hooks))),
            QueryMsg::Cooldown { token_id } => Ok(MarketQueryResponse::Cooldown(self.query_cooldown(&token_id))),
        }
    }
}

} // verus!
