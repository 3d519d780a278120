//! The marketplace ("manifold") that mints account tokens and trades them:
//! its state, the lookups in it, and its administrative messages. The bid
//! lifecycle is in `market_bids`, the listings in `market_queries`.
use vstd::prelude::*;
use crate::errors::MarketError;
use crate::pricing::fee_rate_of_bps;
use crate::types::{Ask, Bid, BidKey, Coin, PendingBid};

verus! {

broadcast use vstd::seq_lib::group_seq_properties;

/// Largest trading fee, in basis points (100%).
pub const MAX_FEE_BPS: u64 = 10000;

/// Most bids refunded by one message; the rest wait in the overflow queue.
pub const MAX_REMOVE_BID_LIMIT: u64 = 30;

/// Seconds after which a listing is due for renewal.
pub const RENEWAL_SECONDS: u64 = 31536000;

/// The parameters that only governance (sudo) changes.
#[derive(Debug, PartialEq, Eq)]
pub struct MarketParams {
    pub min_account_length: u32,
    pub max_account_length: u32,
    pub base_price: u128,
    pub base_delegation: u128,
    /// The trading fee, as the atomics of a `Decimal` (10^18 is 100%).
    pub trading_fee_rate: u128,
    pub min_price: u128,
    pub ask_interval: u64,
    pub valid_bid_query_limit: u32,
    /// Seconds an accepted bid waits before it can be finalized.
    pub cooldown_duration: u64,
    pub cooldown_fee: Coin,
    pub hooks_admin: String,
}

impl Clone for MarketParams {
    fn clone(&self) -> (r: Self)
        ensures
            r == *self,
    {
        MarketParams {
            min_account_length: self.min_account_length,
            max_account_length: self.max_account_length,
            base_price: self.base_price,
            base_delegation: self.base_delegation,
            trading_fee_rate: self.trading_fee_rate,
            min_price: self.min_price,
            ask_interval: self.ask_interval,
            valid_bid_query_limit: self.valid_bid_query_limit,
            cooldown_duration: self.cooldown_duration,
            cooldown_fee: self.cooldown_fee.clone(),
            hooks_admin: self.hooks_admin.clone(),
        }
    }
}

/// The bids of one token still waiting to be refunded.
#[derive(Debug, PartialEq, Eq)]
pub struct OverflowEntry {
    pub token_id: String,
    pub keys: Vec<BidKey>,
}

/// The kind of change a hook is told about.
#[derive(Clone, Copy, Debug, PartialEq, Eq)]
pub enum HookAction {
    Create,
    Update,
    Delete,
}

/// A message the marketplace sends once the message it handles succeeds.
/// Amounts are in the native denomination.
#[derive(Debug, PartialEq, Eq)]
pub enum MarketMsg {
    /// Pays `amount` to `to`.
    Send { to: String, amount: u128 },
    /// Burns `amount` taken as a fee.
    Burn { amount: u128 },
    /// Asks the collection to mint `token_id` to `owner`.
    Mint { collection: String, token_id: String, owner: String },
    /// Asks the collection to transfer `token_id` to `recipient`.
    TransferNft { collection: String, token_id: String, recipient: String },
    /// Asks the collection to make the marketplace an operator of `owner`.
    ApproveAllViaMarket { collection: String, owner: String },
    AskHook { hook: String, ask: Ask, action: HookAction },
    BidHook { hook: String, bid: Bid, action: HookAction },
    SaleHook { hook: String, token_id: String, ask_id: u32, seller: String, buyer: String },
    /// Instantiates the account collection at the address computed for it.
    InstantiateCollection { code_id: u64, admin: String, minter: String, verifier: Option<String>, funds: Vec<Coin> },
}

/// The state of the marketplace.
#[derive(Debug)]
pub struct Market {
    pub paused: bool,
    /// Nanoseconds from which anyone may mint.
    pub public_mint_start_time: u64,
    pub params: MarketParams,
    /// The account collection contract.
    pub collection: String,
    pub asks: Vec<Ask>,
    /// How many asks were ever created; `None` before the first.
    pub ask_count: Option<u32>,
    pub bids: Vec<Bid>,
    /// Accepted bids waiting out their cooldown.
    pub cooldowns: Vec<PendingBid>,
    /// Bids still to be refunded, per token.
    pub overflow: Vec<OverflowEntry>,
    /// The hook lists; `None` until a hook of the kind is first added.
    pub ask_hooks: Option<Vec<String>>,
    pub bid_hooks: Option<Vec<String>>,
    pub sale_hooks: Option<Vec<String>>,
    /// Receives half of the fee paid to cancel a cooldown.
    pub deployment_dao: String,
}

/// How many asks were ever created, given the stored count.
pub open spec fn count_of(ask_count: Option<u32>) -> int {
    match ask_count {
        Some(c) => c as int,
        None => 0,
    }
}

/// The id of `a` is one already handed out (between 1 and `count`), and no
/// ask of another token, listed or waiting out a cooldown, has it.
pub open spec fn id_fits(asks: Seq<Ask>, pending: Seq<PendingBid>, count: int, a: Ask) -> bool {
    &&& 1 <= a.id <= count
    &&& forall|x: Ask| #[trigger] asks.contains(x) && x.token_id@ != a.token_id@ ==> x.id != a.id
    &&& forall|p: PendingBid| #[trigger] pending.contains(p) && p.ask.token_id@ != a.token_id@ ==> p.ask.id != a.id
}

/// Every listed ask and every ask waiting out a cooldown has a fitting id.
pub open spec fn ids_fit(asks: Seq<Ask>, pending: Seq<PendingBid>, count: int) -> bool {
    &&& forall|x: Ask| #[trigger] asks.contains(x) ==> id_fits(asks, pending, count, x)
    &&& forall|p: PendingBid| #[trigger] pending.contains(p) ==> id_fits(asks, pending, count, p.ask)
}

/// Dropping asks or pending sales, or counting more asks, keeps ids fitting.
pub proof fn lemma_ids_fit_shrink(asks: Seq<Ask>, pending: Seq<PendingBid>, count: int, asks2: Seq<Ask>,
    pending2: Seq<PendingBid>, count2: int)
    requires
        ids_fit(asks, pending, count),
        forall|x: Ask| #[trigger] asks2.contains(x) ==> asks.contains(x),
        forall|p: PendingBid| #[trigger] pending2.contains(p) ==> pending.contains(p),
        count <= count2,
    ensures
        ids_fit(asks2, pending2, count2),
{
    assert forall|x: Ask| #[trigger] asks2.contains(x) implies id_fits(asks2, pending2, count2, x) by {
        assert(asks.contains(x));
        assert(id_fits(asks, pending, count, x));
    }
    assert forall|p: PendingBid| #[trigger] pending2.contains(p) implies id_fits(asks2, pending2, count2, p.ask) by {
        assert(pending.contains(p));
        assert(id_fits(asks, pending, count, p.ask));
    }
}

/// An ask with the token and id of a fitting one fits among fewer asks and
/// pending sales too.
pub proof fn lemma_id_fits_same(asks: Seq<Ask>, pending: Seq<PendingBid>, count: int, a: Ask, asks2: Seq<Ask>,
    pending2: Seq<PendingBid>, a2: Ask)
    requires
        id_fits(asks, pending, count, a),
        forall|x: Ask| #[trigger] asks2.contains(x) ==> asks.contains(x),
        forall|p: PendingBid| #[trigger] pending2.contains(p) ==> pending.contains(p),
        a2.id == a.id,
        a2.token_id@ == a.token_id@,
    ensures
        id_fits(asks2, pending2, count, a2),
{
    assert forall|x: Ask| #[trigger] asks2.contains(x) && x.token_id@ != a2.token_id@ implies x.id != a2.id by {
        assert(asks.contains(x));
    }
    assert forall|p: PendingBid| #[trigger] pending2.contains(p) && p.ask.token_id@ != a2.token_id@ implies p.ask.id != a2.id by {
        assert(pending.contains(p));
    }
}

/// Putting a fitting ask `a` among the asks, in place of any ask of its token,
/// keeps ids fitting.
pub proof fn lemma_ids_fit_put_ask(asks: Seq<Ask>, pending: Seq<PendingBid>, count: int, a: Ask, asks2: Seq<Ask>)
    requires
        ids_fit(asks, pending, count),
        id_fits(asks, pending, count, a),
        forall|x: Ask| #[trigger] asks2.contains(x) ==> x == a || (asks.contains(x) && x.token_id@ != a.token_id@),
    ensures
        ids_fit(asks2, pending, count),
{
    assert forall|x: Ask| #[trigger] asks2.contains(x) implies id_fits(asks2, pending, count, x) by {
        if x != a {
            assert(id_fits(asks, pending, count, x));
            assert forall|y: Ask| #[trigger] asks2.contains(y) && y.token_id@ != x.token_id@ implies y.id != x.id by {
                if y != a {
                    assert(asks.contains(y));
                }
            }
        } else {
            assert forall|y: Ask| #[trigger] asks2.contains(y) && y.token_id@ != x.token_id@ implies y.id != x.id by {
                assert(asks.contains(y));
            }
        }
    }
    assert forall|p: PendingBid| #[trigger] pending.contains(p) implies id_fits(asks2, pending, count, p.ask) by {
        assert(id_fits(asks, pending, count, p.ask));
        assert forall|y: Ask| #[trigger] asks2.contains(y) && y.token_id@ != p.ask.token_id@ implies y.id != p.ask.id by {
            if y != a {
                assert(asks.contains(y));
            }
        }
    }
}

/// Putting a pending sale `q` whose ask fits, in place of any pending sale of
/// its token, keeps ids fitting.
pub proof fn lemma_ids_fit_put_pending(asks: Seq<Ask>, pending: Seq<PendingBid>, count: int, q: PendingBid,
    pending2: Seq<PendingBid>)
    requires
        ids_fit(asks, pending, count),
        id_fits(asks, pending, count, q.ask),
        forall|p: PendingBid| #[trigger] pending2.contains(p) ==> p == q
            || (pending.contains(p) && p.ask.token_id@ != q.ask.token_id@),
    ensures
        ids_fit(asks, pending2, count),
{
    assert forall|x: Ask| #[trigger] asks.contains(x) implies id_fits(asks, pending2, count, x) by {
        assert(id_fits(asks, pending, count, x));
        assert forall|p: PendingBid| #[trigger] pending2.contains(p) && p.ask.token_id@ != x.token_id@ implies p.ask.id != x.id by {
            if p != q {
                assert(pending.contains(p));
            }
        }
    }
    assert forall|p: PendingBid| #[trigger] pending2.contains(p) implies id_fits(asks, pending2, count, p.ask) by {
        if p != q {
            assert(pending.contains(p));
            assert(id_fits(asks, pending, count, p.ask));
            assert forall|o: PendingBid| #[trigger] pending2.contains(o) && o.ask.token_id@ != p.ask.token_id@ implies o.ask.id != p.ask.id by {
                if o != q {
                    assert(pending.contains(o));
                }
            }
        } else {
            assert forall|o: PendingBid| #[trigger] pending2.contains(o) && o.ask.token_id@ != p.ask.token_id@ implies o.ask.id != p.ask.id by {
                assert(pending.contains(o));
            }
        }
    }
}

/// The position of the ask for token `t`, or -1.
pub open spec fn ask_idx(asks: Seq<Ask>, t: Seq<char>) -> int {
    if exists|i: int| 0 <= i < asks.len() && asks[i].token_id@ == t {
        choose|i: int| 0 <= i < asks.len() && asks[i].token_id@ == t
    } else {
        -1
    }
}

/// Whether bid `b` is the bid of `bidder` on token `t`.
pub open spec fn bid_is(b: Bid, t: Seq<char>, bidder: Seq<char>) -> bool {
    b.token_id@ == t && b.bidder@ == bidder
}

/// The position of the bid of `bidder` on token `t`, or -1.
pub open spec fn bid_idx(bids: Seq<Bid>, t: Seq<char>, bidder: Seq<char>) -> int {
    if exists|i: int| 0 <= i < bids.len() && bid_is(bids[i], t, bidder) {
        choose|i: int| 0 <= i < bids.len() && bid_is(bids[i], t, bidder)
    } else {
        -1
    }
}

/// Whether some bid is on token `t`.
pub open spec fn has_bid_on(bids: Seq<Bid>, t: Seq<char>) -> bool {
    exists|i: int| 0 <= i < bids.len() && bids[i].token_id@ == t
}

/// The position of the pending sale of token `t`, or -1.
pub open spec fn cooldown_idx(cooldowns: Seq<PendingBid>, t: Seq<char>) -> int {
    if exists|i: int| 0 <= i < cooldowns.len() && cooldowns[i].ask.token_id@ == t {
        choose|i: int| 0 <= i < cooldowns.len() && cooldowns[i].ask.token_id@ == t
    } else {
        -1
    }
}

/// The position of the overflow queue of token `t`, or -1.
pub open spec fn overflow_idx(overflow: Seq<OverflowEntry>, t: Seq<char>) -> int {
    if exists|i: int| 0 <= i < overflow.len() && overflow[i].token_id@ == t {
        choose|i: int| 0 <= i < overflow.len() && overflow[i].token_id@ == t
    } else {
        -1
    }
}

/// The bid keys queued for refund for token `t`.
pub open spec fn overflow_of(overflow: Seq<OverflowEntry>, t: Seq<char>) -> Seq<BidKey> {
    let i = overflow_idx(overflow, t);
    if i >= 0 {
        overflow[i].keys@
    } else {
        Seq::empty()
    }
}

/// The hook messages sent to every ask hook.
pub open spec fn ask_hook_msgs(hooks: Seq<String>, ask: Ask, action: HookAction) -> Seq<MarketMsg> {
    Seq::new(hooks.len(), |i: int| MarketMsg::AskHook { hook: hooks[i], ask, action })
}

/// The hook messages sent to every bid hook.
pub open spec fn bid_hook_msgs(hooks: Seq<String>, bid: Bid, action: HookAction) -> Seq<MarketMsg> {
    Seq::new(hooks.len(), |i: int| MarketMsg::BidHook { hook: hooks[i], bid, action })
}

/// The hook messages sent to every sale hook.
pub open spec fn sale_hook_msgs(hooks: Seq<String>, ask: Ask, buyer: String) -> Seq<MarketMsg> {
    Seq::new(hooks.len(), |i: int| MarketMsg::SaleHook {
        hook: hooks[i],
        token_id: ask.token_id,
        ask_id: ask.id,
        seller: ask.seller,
        buyer,
    })
}

/// No two hooks of one list are the same address.
pub open spec fn hooks_distinct(hooks: Seq<String>) -> bool {
    forall|i: int, j: int| 0 <= i < hooks.len() && 0 <= j < hooks.len() && i != j ==> hooks[i]@ != hooks[j]@
}

/// The hooks of a list, none when it was never created.
pub open spec fn hooks_of(hooks: Option<Vec<String>>) -> Seq<String> {
    match hooks {
        Some(h) => h@,
        None => Seq::empty(),
    }
}

/// Whether `hook` is in the list.
pub open spec fn has_hook(hooks: Seq<String>, hook: Seq<char>) -> bool {
    exists|i: int| 0 <= i < hooks.len() && hooks[i]@ == hook
}

impl Market {
    /// The state invariant: at most one ask, one pending sale and one overflow
    /// queue per token, at most one bid per token and bidder, distinct hooks,
    /// a trading fee of at most 100%, and ask ids among those handed out,
    /// never shared by asks (listed or waiting out a cooldown) of two tokens.
    pub open spec fn wf(&self) -> bool {
        &&& forall|i: int, j: int| 0 <= i < self.asks@.len() && 0 <= j < self.asks@.len() && i != j
            ==> self.asks@[i].token_id@ != self.asks@[j].token_id@
        &&& forall|i: int, j: int| 0 <= i < self.bids@.len() && 0 <= j < self.bids@.len() && i != j
            ==> !bid_is(self.bids@[i], self.bids@[j].token_id@, self.bids@[j].bidder@)
        &&& forall|i: int, j: int| 0 <= i < self.cooldowns@.len() && 0 <= j < self.cooldowns@.len() && i != j
            ==> self.cooldowns@[i].ask.token_id@ != self.cooldowns@[j].ask.token_id@
        &&& forall|i: int, j: int| 0 <= i < self.overflow@.len() && 0 <= j < self.overflow@.len() && i != j
            ==> self.overflow@[i].token_id@ != self.overflow@[j].token_id@
        &&& hooks_distinct(hooks_of(self.ask_hooks))
        &&& hooks_distinct(hooks_of(self.bid_hooks))
        &&& hooks_distinct(hooks_of(self.sale_hooks))
        &&& self.params.trading_fee_rate <= fee_rate_of_bps(MAX_FEE_BPS)
        &&& ids_fit(self.asks@, self.cooldowns@, count_of(self.ask_count))
    }

    /// The position of the ask for `token_id`.
    pub fn find_ask(&self, token_id: &String) -> (r: Option<usize>)
        requires
            self.wf(),
        ensures
            r is None <==> ask_idx(self.asks@, token_id@) == -1,
            r matches Some(i) ==> i == ask_idx(self.asks@, token_id@) && i < self.asks@.len(),
    {
        let n = self.asks.len();
        for i in 0..n
            invariant
                self.wf(),
                n == self.asks@.len(),
                forall|j: int| 0 <= j < i ==> self.asks@[j].token_id@ != token_id@,
        {
            if self.asks[i].token_id == *token_id {
                return Some(i);
            }
        }
        None
    }

    /// The position of the bid of `bidder` on `token_id`.
    pub fn find_bid(&self, token_id: &String, bidder: &String) -> (r: Option<usize>)
        requires
            self.wf(),
        ensures
            r is None <==> bid_idx(self.bids@, token_id@, bidder@) == -1,
            r matches Some(i) ==> i == bid_idx(self.bids@, token_id@, bidder@) && i < self.bids@.len(),
    {
        let n = self.bids.len();
        for i in 0..n
            invariant
                self.wf(),
                n == self.bids@.len(),
                forall|j: int| 0 <= j < i ==> !bid_is(self.bids@[j], token_id@, bidder@),
        {
            if self.bids[i].token_id == *token_id && self.bids[i].bidder == *bidder {
                return Some(i);
            }
        }
        None
    }

    /// Whether any bid is on `token_id`.
    pub fn any_bid_on(&self, token_id: &String) -> (r: bool)
        ensures
            r == has_bid_on(self.bids@, token_id@),
    {
        let n = self.bids.len();
        for i in 0..n
            invariant
                n == self.bids@.len(),
                forall|j: int| 0 <= j < i ==> self.bids@[j].token_id@ != token_id@,
        {
            if self.bids[i].token_id == *token_id {
                return true;
            }
        }
        false
    }

    /// The position of the pending sale of `token_id`.
    pub fn find_cooldown(&self, token_id: &String) -> (r: Option<usize>)
        requires
            self.wf(),
        ensures
            r is None <==> cooldown_idx(self.cooldowns@, token_id@) == -1,
            r matches Some(i) ==> i == cooldown_idx(self.cooldowns@, token_id@) && i < self.cooldowns@.len(),
    {
        let n = self.cooldowns.len();
        for i in 0..n
            invariant
                self.wf(),
                n == self.cooldowns@.len(),
                forall|j: int| 0 <= j < i ==> self.cooldowns@[j].ask.token_id@ != token_id@,
        {
            if self.cooldowns[i].ask.token_id == *token_id {
                return Some(i);
            }
        }
        None
    }

    /// The position of the overflow queue of `token_id`.
    pub fn find_overflow(&self, token_id: &String) -> (r: Option<usize>)
        requires
            self.wf(),
        ensures
            r is None <==> overflow_idx(self.overflow@, token_id@) == -1,
            r matches Some(i) ==> i == overflow_idx(self.overflow@, token_id@) && i < self.overflow@.len(),
    {
        let n = self.overflow.len();
        for i in 0..n
            invariant
                self.wf(),
                n == self.overflow@.len(),
                forall|j: int| 0 <= j < i ==> self.overflow@[j].token_id@ != token_id@,
        {
            if self.overflow[i].token_id == *token_id {
                return Some(i);
            }
        }
        None
    }
}

/// The key of the ask on `token_id`: the token itself.
pub fn ask_key(token_id: &str) -> (k: String)
    ensures
        k@ == token_id@,
{
    token_id.to_string()
}

/// The key of the bid of `bidder` on `token_id`.
pub fn bid_key(token_id: &str, bidder: &String) -> (k: BidKey)
    ensures
        k.token_id@ == token_id@,
        k.bidder == *bidder,
{
    BidKey { token_id: token_id.to_string(), bidder: bidder.clone() }
}

/// One message per ask hook, in the order the hooks were added.
pub fn prepare_ask_hook(hooks: &Vec<String>, ask: &Ask, action: HookAction) -> (r: Vec<MarketMsg>)
    ensures
        r@ == ask_hook_msgs(hooks@, *ask, action),
{
    let mut out: Vec<MarketMsg> = Vec::new();
    let n = hooks.len();
    for i in 0..n
        invariant
            n == hooks@.len(),
            out@ == ask_hook_msgs(hooks@.take(i as int), *ask, action),
    {
        out.push(MarketMsg::AskHook { hook: hooks[i].clone(), ask: ask.clone(), action });
        proof {
            assert(ask_hook_msgs(hooks@.take(i + 1), *ask, action) =~= ask_hook_msgs(hooks@.take(i as int), *ask, action).push(
                MarketMsg::AskHook { hook: hooks@[i as int], ask: *ask, action }));
        }
    }
    proof {
        assert(hooks@.take(n as int) =~= hooks@);
    }
    out
}

/// One message per bid hook, in the order the hooks were added.
pub fn prepare_bid_hook(hooks: &Vec<String>, bid: &Bid, action: HookAction) -> (r: Vec<MarketMsg>)
    ensures
        r@ == bid_hook_msgs(hooks@, *bid, action),
{
    let mut out: Vec<MarketMsg> = Vec::new();
    let n = hooks.len();
    for i in 0..n
        invariant
            n == hooks@.len(),
            out@ == bid_hook_msgs(hooks@.take(i as int), *bid, action),
    {
        out.push(MarketMsg::BidHook { hook: hooks[i].clone(), bid: bid.clone(), action });
        proof {
            assert(bid_hook_msgs(hooks@.take(i + 1), *bid, action) =~= bid_hook_msgs(hooks@.take(i as int), *bid, action).push(
                MarketMsg::BidHook { hook: hooks@[i as int], bid: *bid, action }));
        }
    }
    proof {
        assert(hooks@.take(n as int) =~= hooks@);
    }
    out
}

/// One message per sale hook, in the order the hooks were added.
pub fn prepare_sale_hook(hooks: &Vec<String>, ask: &Ask, buyer: &String) -> (r: Vec<MarketMsg>)
    ensures
        r@ == sale_hook_msgs(hooks@, *ask, *buyer),
{
    let mut out: Vec<MarketMsg> = Vec::new();
    let n = hooks.len();
    for i in 0..n
        invariant
            n == hooks@.len(),
            out@ == sale_hook_msgs(hooks@.take(i as int), *ask, *buyer),
    {
        out.push(MarketMsg::SaleHook {
            hook: hooks[i].clone(),
            token_id: ask.token_id.clone(),
            ask_id: ask.id,
            seller: ask.seller.clone(),
            buyer: buyer.clone(),
        });
        proof {
            assert(sale_hook_msgs(hooks@.take(i + 1), *ask, *buyer) =~= sale_hook_msgs(hooks@.take(i as int), *ask, *buyer).push(
                MarketMsg::SaleHook { hook: hooks@[i as int], token_id: ask.token_id, ask_id: ask.id, seller: ask.seller, buyer: *buyer }));
        }
    }
    proof {
        assert(hooks@.take(n as int) =~= hooks@);
    }
    out
}

/// The hooks of a list, none when it was never created.
pub fn hook_list(hooks: &Option<Vec<String>>) -> (r: Vec<String>)
    ensures
        r@ == hooks_of(*hooks),
{
    match hooks {
        Some(h) => {
            let c = h.clone();
            proof {
                assert(c@ =~= h@);
            }
            c
        },
        None => Vec::new(),
    }
}

/// Appends `more` to `msgs`.
pub fn append_msgs(msgs: &mut Vec<MarketMsg>, more: Vec<MarketMsg>)
    ensures
        final(msgs)@ == old(msgs)@ + more@,
{
    let mut more = more;
    msgs.append(&mut more);
}

} // verus!
