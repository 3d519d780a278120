//! Trading on the marketplace: minting and listing, bids, acceptance, the
//! cooldown of an accepted bid, and the finalized sale.
use vstd::prelude::*;
use crate::events::{event2, priced2, priced_event, texts_event, Event};
use crate::account_name::{account_name_check, validate_account};
use crate::errors::MarketError;
use crate::funds::{lemma_must_pay, must_pay, must_pay_result, nonpayable, pays_in, PaymentError};
use crate::market::{count_of, id_fits, lemma_ids_fit_put_ask, lemma_ids_fit_put_pending, lemma_ids_fit_shrink, ask_hook_msgs, ask_idx, bid_hook_msgs, bid_idx, cooldown_idx, has_bid_on, hooks_of,
    overflow_of, append_msgs, hook_list, prepare_ask_hook, prepare_bid_hook, prepare_sale_hook,
    sale_hook_msgs, HookAction, Market, MarketMsg};
use crate::market_bids::{batch, by_price, keys_refundable, removal_done};
use crate::pricing::{fee_from_rate, fee_of, fee_rate_of_bps, decimal_fractional};
use crate::types::{plus_seconds, Ask, Bid, BlockInfo, Coin, Expiration, PendingBid, NATIVE_DENOM};

verus! {

/// The asks with `ask` stored under its token: replacing the ask of that
/// token if there is one, added otherwise.
pub open spec fn asks_put(asks: Seq<Ask>, ask: Ask) -> Seq<Ask> {
    let i = ask_idx(asks, ask.token_id@);
    if i >= 0 {
        asks.update(i, ask)
    } else {
        asks.push(ask)
    }
}

/// The pending sales with `p` stored under its token.
pub open spec fn cooldowns_put(cds: Seq<PendingBid>, p: PendingBid) -> Seq<PendingBid> {
    let i = cooldown_idx(cds, p.ask.token_id@);
    if i >= 0 {
        cds.update(i, p)
    } else {
        cds.push(p)
    }
}

/// The messages that pay out a sale of `price`: the fee is burnt (when not
/// zero) and the rest is paid to `seller`.
pub open spec fn payout_msgs(price: u128, rate: u128, seller: String) -> Seq<MarketMsg> {
    let fee = fee_of(price, rate);
    (if fee > 0 { seq![MarketMsg::Burn { amount: fee as u128 }] } else { Seq::empty() })
        + seq![MarketMsg::Send { to: seller, amount: (price - fee) as u128 }]
}

/// The refund owed to the buyer of a sale of token `t` still waiting out its
/// cooldown, if there is one.
pub open spec fn pending_refund(cooldowns: Seq<PendingBid>, t: Seq<char>) -> Seq<MarketMsg> {
    let i = cooldown_idx(cooldowns, t);
    if i >= 0 {
        seq![MarketMsg::Send { to: cooldowns[i].new_owner, amount: cooldowns[i].amount }]
    } else {
        Seq::empty()
    }
}

impl Market {
    /// Stores `ask` under its token.
    pub fn store_ask(&mut self, ask: Ask)
        requires
            old(self).wf(),
            id_fits(old(self).asks@, old(self).cooldowns@, count_of(old(self).ask_count), ask),
        ensures
            final(self).wf(),
            *final(self) == (Market { asks: final(self).asks, ..*old(self) }),
            final(self).asks@ == asks_put(old(self).asks@, ask),
    {
        match self.find_ask(&ask.token_id) {
            Some(i) => {
                self.asks.set(i, ask);
                proof {
                    assert forall|x: Ask| #[trigger] self.asks@.contains(x) implies x == ask
                        || (old(self).asks@.contains(x) && x.token_id@ != ask.token_id@) by {
                        let j = choose|j: int| 0 <= j < self.asks@.len() && self.asks@[j] == x;
                        if j != i {
                            assert(old(self).asks@[j] == x);
                            assert(old(self).asks@[i as int].token_id@ == ask.token_id@);
                        }
                    }
                    lemma_ids_fit_put_ask(old(self).asks@, old(self).cooldowns@, count_of(old(self).ask_count), ask, self.asks@);
                    assert forall|a: int, b: int| 0 <= a < self.asks@.len() && 0 <= b < self.asks@.len() && a != b
                        implies self.asks@[a].token_id@ != self.asks@[b].token_id@ by {
                        if a != i && b != i {
                            assert(self.asks@[a] == old(self).asks@[a]);
                            assert(self.asks@[b] == old(self).asks@[b]);
                        } else if a == i {
                            assert(self.asks@[b] == old(self).asks@[b]);
                        } else {
                            assert(self.asks@[a] == old(self).asks@[a]);
                        }
                    }
                }
            },
            None => {
                self.asks.push(ask);
                proof {
                    assert forall|x: Ask| #[trigger] self.asks@.contains(x) implies x == ask
                        || (old(self).asks@.contains(x) && x.token_id@ != ask.token_id@) by {
                        let j = choose|j: int| 0 <= j < self.asks@.len() && self.asks@[j] == x;
                        if j < old(self).asks@.len() {
                            assert(old(self).asks@[j] == x);
                        }
                    }
                    lemma_ids_fit_put_ask(old(self).asks@, old(self).cooldowns@, count_of(old(self).ask_count), ask, self.asks@);
                    assert forall|a: int, b: int| 0 <= a < self.asks@.len() && 0 <= b < self.asks@.len() && a != b
                        implies self.asks@[a].token_id@ != self.asks@[b].token_id@ by {
                        if a < old(self).asks@.len() && b < old(self).asks@.len() {
                            assert(self.asks@[a] == old(self).asks@[a]);
                            assert(self.asks@[b] == old(self).asks@[b]);
                        } else if a < old(self).asks@.len() {
                            assert(self.asks@[a] == old(self).asks@[a]);
                        } else {
                            assert(self.asks@[b] == old(self).asks@[b]);
                        }
                    }
                }
            },
        }
    }

    /// Stores a pending sale under its token.
    pub fn store_cooldown(&mut self, p: PendingBid)
        requires
            old(self).wf(),
            id_fits(old(self).asks@, old(self).cooldowns@, count_of(old(self).ask_count), p.ask),
        ensures
            final(self).wf(),
            *final(self) == (Market { cooldowns: final(self).cooldowns, ..*old(self) }),
            final(self).cooldowns@ == cooldowns_put(old(self).cooldowns@, p),
    {
        match self.find_cooldown(&p.ask.token_id) {
            Some(i) => {
                self.cooldowns.set(i, p);
                proof {
                    assert forall|x: PendingBid| #[trigger] self.cooldowns@.contains(x) implies x == p
                        || (old(self).cooldowns@.contains(x) && x.ask.token_id@ != p.ask.token_id@) by {
                        let j = choose|j: int| 0 <= j < self.cooldowns@.len() && self.cooldowns@[j] == x;
                        if j != i {
                            assert(old(self).cooldowns@[j] == x);
                            assert(old(self).cooldowns@[i as int].ask.token_id@ == p.ask.token_id@);
                        }
                    }
                    lemma_ids_fit_put_pending(old(self).asks@, old(self).cooldowns@, count_of(old(self).ask_count), p, self.cooldowns@);
                    assert forall|a: int, b: int| 0 <= a < self.cooldowns@.len() && 0 <= b < self.cooldowns@.len() && a != b
                        implies self.cooldowns@[a].ask.token_id@ != self.cooldowns@[b].ask.token_id@ by {
                        if a != i && b != i {
                            assert(self.cooldowns@[a] == old(self).cooldowns@[a]);
                            assert(self.cooldowns@[b] == old(self).cooldowns@[b]);
                        } else if a == i {
                            assert(self.cooldowns@[b] == old(self).cooldowns@[b]);
                        } else {
                            assert(self.cooldowns@[a] == old(self).cooldowns@[a]);
                        }
                    }
                }
            },
            None => {
                self.cooldowns.push(p);
                proof {
                    assert forall|x: PendingBid| #[trigger] self.cooldowns@.contains(x) implies x == p
                        || (old(self).cooldowns@.contains(x) && x.ask.token_id@ != p.ask.token_id@) by {
                        let j = choose|j: int| 0 <= j < self.cooldowns@.len() && self.cooldowns@[j] == x;
                        if j < old(self).cooldowns@.len() {
                            assert(old(self).cooldowns@[j] == x);
                        }
                    }
                    lemma_ids_fit_put_pending(old(self).asks@, old(self).cooldowns@, count_of(old(self).ask_count), p, self.cooldowns@);
                    assert forall|a: int, b: int| 0 <= a < self.cooldowns@.len() && 0 <= b < self.cooldowns@.len() && a != b
                        implies self.cooldowns@[a].ask.token_id@ != self.cooldowns@[b].ask.token_id@ by {
                        if a < old(self).cooldowns@.len() && b < old(self).cooldowns@.len() {
                            assert(self.cooldowns@[a] == old(self).cooldowns@[a]);
                            assert(self.cooldowns@[b] == old(self).cooldowns@[b]);
                        } else if a < old(self).cooldowns@.len() {
                            assert(self.cooldowns@[a] == old(self).cooldowns@[a]);
                        } else {
                            assert(self.cooldowns@[b] == old(self).cooldowns@[b]);
                        }
                    }
                }
            },
        }
    }

    /// Removes the pending sale at position `i`.
    pub fn drop_cooldown(&mut self, i: usize)
        requires
            old(self).wf(),
            i < old(self).cooldowns@.len(),
        ensures
            final(self).wf(),
            *final(self) == (Market { cooldowns: final(self).cooldowns, ..*old(self) }),
            final(self).cooldowns@ == old(self).cooldowns@.remove(i as int),
    {
        self.cooldowns.remove(i);
        proof {
            old(self).cooldowns@.remove_ensures(i as int);
            assert forall|a: int, b: int| 0 <= a < self.cooldowns@.len() && 0 <= b < self.cooldowns@.len() && a != b
                implies self.cooldowns@[a].ask.token_id@ != self.cooldowns@[b].ask.token_id@ by {
                let a0 = if a < i { a } else { a + 1 };
                let b0 = if b < i { b } else { b + 1 };
                assert(self.cooldowns@[a] == old(self).cooldowns@[a0]);
                assert(self.cooldowns@[b] == old(self).cooldowns@[b0]);
            }
            assert forall|x: PendingBid| #[trigger] self.cooldowns@.contains(x) implies old(self).cooldowns@.contains(x) by {
                let j = choose|j: int| 0 <= j < self.cooldowns@.len() && self.cooldowns@[j] == x;
                let j0 = if j < i { j } else { j + 1 };
                assert(old(self).cooldowns@[j0] == x);
            }
            lemma_ids_fit_shrink(old(self).asks@, old(self).cooldowns@, count_of(old(self).ask_count),
                self.asks@, self.cooldowns@, count_of(self.ask_count));
        }
    }

    /// Removes the bid at position `k`.
    pub fn drop_bid(&mut self, k: usize)
        requires
            old(self).wf(),
            k < old(self).bids@.len(),
        ensures
            final(self).wf(),
            *final(self) == (Market { bids: final(self).bids, ..*old(self) }),
            final(self).bids@ == old(self).bids@.remove(k as int),
    {
        self.bids.remove(k);
        proof {
            old(self).bids@.remove_ensures(k as int);
            assert forall|a: int, b: int| 0 <= a < self.bids@.len() && 0 <= b < self.bids@.len() && a != b
                implies !crate::market::bid_is(self.bids@[a], self.bids@[b].token_id@, self.bids@[b].bidder@) by {
                let a0 = if a < k { a } else { a + 1 };
                let b0 = if b < k { b } else { b + 1 };
                assert(self.bids@[a] == old(self).bids@[a0]);
                assert(self.bids@[b] == old(self).bids@[b0]);
            }
        }
    }

    /// Refunds every bid on `token_id`, lowest price first, in batches.
    pub fn refund_all_bids(&mut self, token_id: &String) -> (r: Vec<MarketMsg>)
        requires
            old(self).wf(),
        ensures
            final(self).wf(),
            exists|keys: Seq<crate::types::BidKey>| by_price(old(self).bids@, token_id@, keys)
                && removal_done(*old(self), *final(self), keys, token_id@, r@),
    {
        let keys = self.bid_keys_by_price(token_id);
        let ghost k = keys@;
        proof {
            lemma_by_price_refundable(self.bids@, token_id@, k);
        }
        match self.checked_bid_removal(keys, token_id) {
            Ok(msgs) => msgs,
            Err(_) => {
                proof {
                    assert(false);
                }
                Vec::new()
            },
        }
    }

    /// Places (or replaces) the sender's bid on a listed token, escrowing the
    /// one coin sent; a replaced bid is refunded first.
    pub fn execute_set_bid(&mut self, sender: &String, funds: &Vec<Coin>, now: u64, token_id: &String) -> (r: Result<(Vec<MarketMsg>, Event), MarketError>)
        requires
            old(self).wf(),
        ensures
            final(self).wf(),
            r is Err ==> *final(self) == *old(self),
            ask_idx(old(self).asks@, token_id@) < 0 ==> r matches Err(MarketError::Std(_)),
            ask_idx(old(self).asks@, token_id@) >= 0 && !pays_in(funds@, NATIVE_DENOM@) ==> exists|e: PaymentError|
                must_pay_result(funds@, NATIVE_DENOM@, Err(e)) && r == Err::<(Vec<MarketMsg>, Event), MarketError>(MarketError::Payment(e)),
            ask_idx(old(self).asks@, token_id@) >= 0 && pays_in(funds@, NATIVE_DENOM@) && funds@[0].amount < old(self).params.min_price
                ==> r == Err::<(Vec<MarketMsg>, Event), MarketError>(MarketError::PriceTooSmall(funds@[0].amount)),
            ask_idx(old(self).asks@, token_id@) >= 0 && pays_in(funds@, NATIVE_DENOM@) && funds@[0].amount >= old(self).params.min_price
                ==> r is Ok,
            r matches Ok((msgs, ev)) ==> {
                let k = bid_idx(old(self).bids@, token_id@, sender@);
                let nb = Bid { token_id: *token_id, bidder: *sender, amount: funds@[0].amount, created_time: now };
                &&& priced_event(ev, "set-bid"@, seq![("token_id"@, token_id@), ("bidder"@, sender@)], "bid_price"@, funds@[0].amount)
                &&& final(self).bids@ == (if k >= 0 { old(self).bids@.remove(k) } else { old(self).bids@ }).push(nb)
                &&& msgs@ == (if k >= 0 { seq![MarketMsg::Send { to: *sender, amount: old(self).bids@[k].amount }] } else { Seq::empty() })
                    + bid_hook_msgs(hooks_of(old(self).bid_hooks), nb, HookAction::Create)
                &&& *final(self) == (Market { bids: final(self).bids, ..*old(self) })
            },
    {
        if self.find_ask(token_id).is_none() {
            return Err(MarketError::Std(String::from_str("ask not found")));
        }
        let paid = must_pay(funds, NATIVE_DENOM);
        proof {
            lemma_must_pay(funds@, NATIVE_DENOM@, paid);
        }
        let bid_price = match paid {
            Ok(p) => p,
            Err(e) => return Err(MarketError::Payment(e)),
        };
        if bid_price < self.params.min_price {
            return Err(MarketError::PriceTooSmall(bid_price));
        }
        let mut msgs: Vec<MarketMsg> = Vec::new();
        let ghost before = self.bids@;
        match self.find_bid(token_id, sender) {
            Some(k) => {
                let amount = self.bids[k].amount;
                self.drop_bid(k);
                msgs.push(MarketMsg::Send { to: sender.clone(), amount });
            },
            None => {},
        }
        let bid = Bid { token_id: token_id.clone(), bidder: sender.clone(), amount: bid_price, created_time: now };
        let ghost mid = self.bids@;
        self.bids.push(bid.clone());
        proof {
            assert forall|a: int, b: int| 0 <= a < self.bids@.len() && 0 <= b < self.bids@.len() && a != b
                implies !crate::market::bid_is(self.bids@[a], self.bids@[b].token_id@, self.bids@[b].bidder@) by {
                if a < mid.len() && b < mid.len() {
                    assert(self.bids@[a] == mid[a]);
                    assert(self.bids@[b] == mid[b]);
                } else if a < mid.len() {
                    assert(self.bids@[a] == mid[a]);
                    if crate::market::bid_is(mid[a], token_id@, sender@) {
                        let k = bid_idx(before, token_id@, sender@);
                        let a0 = if a < k { a } else { a + 1 };
                        assert(mid[a] == before[a0]);
                    }
                } else {
                    assert(self.bids@[b] == mid[b]);
                    if crate::market::bid_is(mid[b], token_id@, sender@) {
                        let k = bid_idx(before, token_id@, sender@);
                        let b0 = if b < k { b } else { b + 1 };
                        assert(mid[b] == before[b0]);
                    }
                }
            }
        }
        let hooks = hook_list(&self.bid_hooks);
        let hook_msgs = prepare_bid_hook(&hooks, &bid, HookAction::Create);
        append_msgs(&mut msgs, hook_msgs);
        Ok((msgs, priced2("set-bid", "token_id", token_id, "bidder", sender, "bid_price", bid_price)))
    }

    /// The sender withdraws their bid on `token_id`: it is refunded, then the
    /// bid hooks are told.
    pub fn execute_remove_bid(&mut self, sender: &String, funds: &Vec<Coin>, token_id: &String) -> (r: Result<(Vec<MarketMsg>, Event), MarketError>)
        requires
            old(self).wf(),
        ensures
            final(self).wf(),
            r is Err ==> *final(self) == *old(self),
            funds@.len() != 0 ==> r == Err::<(Vec<MarketMsg>, Event), MarketError>(MarketError::Payment(PaymentError::NonPayable)),
            funds@.len() == 0 && bid_idx(old(self).bids@, token_id@, sender@) < 0 ==> r matches Err(MarketError::Std(_)),
            funds@.len() == 0 && bid_idx(old(self).bids@, token_id@, sender@) >= 0 ==> r is Ok,
            r matches Ok((msgs, ev)) ==> {
                let k = bid_idx(old(self).bids@, token_id@, sender@);
                let b = old(self).bids@[k];
                &&& texts_event(ev, "remove-bid"@, seq![("token_id"@, token_id@), ("bidder"@, sender@)])
                &&& final(self).bids@ == old(self).bids@.remove(k)
                &&& msgs@ == seq![MarketMsg::Send { to: b.bidder, amount: b.amount }]
                    + bid_hook_msgs(hooks_of(old(self).bid_hooks), b, HookAction::Delete)
                &&& *final(self) == (Market { bids: final(self).bids, ..*old(self) })
            },
    {
        if let Err(e) = nonpayable(funds) {
            return Err(MarketError::Payment(e));
        }
        let k = match self.find_bid(token_id, sender) {
            Some(k) => k,
            None => return Err(MarketError::Std(String::from_str("bid not found"))),
        };
        let bid = self.bids[k].clone();
        self.drop_bid(k);
        let mut msgs: Vec<MarketMsg> = Vec::new();
        msgs.push(MarketMsg::Send { to: bid.bidder.clone(), amount: bid.amount });
        let hooks = hook_list(&self.bid_hooks);
        let hook_msgs = prepare_bid_hook(&hooks, &bid, HookAction::Delete);
        append_msgs(&mut msgs, hook_msgs);
        Ok((msgs, event2("remove-bid", "token_id", token_id, "bidder", sender)))
    }

    /// The collection asks to refund every bid on `token_id` (after the
    /// token's associations changed); only the collection may.
    pub fn execute_remove_bids(&mut self, sender: &String, token_id: &String) -> (r: Result<Vec<MarketMsg>, MarketError>)
        requires
            old(self).wf(),
        ensures
            final(self).wf(),
            sender@ != old(self).collection@ <==> r is Err,
            r is Err ==> r == Err::<Vec<MarketMsg>, MarketError>(MarketError::Unauthorized) && *final(self) == *old(self),
            r matches Ok(msgs) ==> exists|keys: Seq<crate::types::BidKey>| by_price(old(self).bids@, token_id@, keys)
                && removal_done(*old(self), *final(self), keys, token_id@, msgs@),
    {
        if !(*sender == self.collection) {
            return Err(MarketError::Unauthorized);
        }
        Ok(self.refund_all_bids(token_id))
    }

    /// Refunds the next batch of the bids queued for `token_id`; the rest stay
    /// queued. Fails (nothing changed) when a queued bid no longer exists.
    pub fn execute_removed_overflow_bids(&mut self, token_id: &String) -> (r: Result<Vec<MarketMsg>, MarketError>)
        requires
            old(self).wf(),
        ensures
            final(self).wf(),
            ({
                let queued = overflow_of(old(self).overflow@, token_id@);
                let now = batch(queued);
                &&& r is Ok <==> keys_refundable(old(self).bids@, now)
                &&& r is Err ==> *final(self) == *old(self)
                &&& r matches Ok(msgs) ==> {
                    &&& msgs@ == crate::market_bids::refund_msgs(old(self).bids@, hooks_of(old(self).bid_hooks), now)
                    &&& forall|b: Bid| #![trigger final(self).bids@.contains(b)] #![trigger old(self).bids@.contains(b)]
                        final(self).bids@.contains(b) <==> (old(self).bids@.contains(b) && !crate::market_bids::keyed_by(now, b))
                    &&& crate::market_bids::bid_total(final(self).bids@) + crate::market_bids::refund_total(old(self).bids@, now)
                        == crate::market_bids::bid_total(old(self).bids@)
                    &&& overflow_of(final(self).overflow@, token_id@) == queued.skip(crate::market_bids::batch_len(queued.len()))
                    &&& forall|u: Seq<char>| u != token_id@ ==> overflow_of(final(self).overflow@, u) == overflow_of(old(self).overflow@, u)
                    &&& *final(self) == (Market { bids: final(self).bids, overflow: final(self).overflow, ..*old(self) })
                }
            }),
    {
        let queued: Vec<crate::types::BidKey> = match self.find_overflow(token_id) {
            Some(p) => {
                let q = self.overflow[p].keys.clone();
                proof {
                    assert(q@ =~= self.overflow@[p as int].keys@);
                }
                q
            },
            None => Vec::new(),
        };
        let ghost q = queued@;
        let total = queued.len();
        let n: usize = if total < crate::market::MAX_REMOVE_BID_LIMIT as usize { total } else { crate::market::MAX_REMOVE_BID_LIMIT as usize };
        let mut now = queued;
        let rest = now.split_off(n);
        proof {
            assert(now@ =~= batch(q));
            assert(batch(now@) =~= now@);
            assert(now@.skip(crate::market_bids::batch_len(now@.len())) =~= Seq::<crate::types::BidKey>::empty());
        }
        let ghost start = *self;
        let msgs = self.checked_bid_removal(now, token_id)?;
        proof {
            assert(overflow_of(self.overflow@, token_id@) =~= q);
        }
        self.set_overflow(token_id, rest);
        Ok(msgs)
    }

    /// The owner of a listed token accepts the bid of `bidder`: the bid leaves
    /// the book, every other bid on the token is refunded, and the sale waits
    /// out the cooldown. A sale of the token already waiting is replaced, and
    /// its buyer gets the bid back first. `owner` is the token's owner as the collection reports
    /// it, `approval` whether the collection answers the approval query.
    pub fn execute_accept_bid(&mut self, sender: &String, funds: &Vec<Coin>, now: u64, token_id: &String, bidder: &String,
        owner: Result<String, String>, approval: Result<(), String>) -> (r: Result<(Vec<MarketMsg>, Event), MarketError>)
        requires
            old(self).wf(),
            funds@.len() == 0 && (owner matches Ok(o) && o@ == sender@) && ask_idx(old(self).asks@, token_id@) >= 0
                && bid_idx(old(self).bids@, token_id@, bidder@) >= 0 && approval is Ok
                ==> now + old(self).params.cooldown_duration * 1_000_000_000 <= u64::MAX,
        ensures
            final(self).wf(),
            r is Err ==> *final(self) == *old(self),
            funds@.len() != 0 ==> r == Err::<(Vec<MarketMsg>, Event), MarketError>(MarketError::Payment(PaymentError::NonPayable)),
            funds@.len() == 0 && owner is Err ==> r matches Err(MarketError::Std(_)),
            funds@.len() == 0 && (owner matches Ok(o) && o@ != sender@) ==> r == Err::<(Vec<MarketMsg>, Event), MarketError>(MarketError::UnauthorizedOwner),
            funds@.len() == 0 && (owner matches Ok(o) && o@ == sender@) && (ask_idx(old(self).asks@, token_id@) < 0
                || bid_idx(old(self).bids@, token_id@, bidder@) < 0 || approval is Err) ==> r matches Err(MarketError::Std(_)),
            funds@.len() == 0 && (owner matches Ok(o) && o@ == sender@) && ask_idx(old(self).asks@, token_id@) >= 0
                && bid_idx(old(self).bids@, token_id@, bidder@) >= 0 && approval is Ok ==> r is Ok,
            r matches Ok((msgs, ev)) ==> {
                let k = bid_idx(old(self).bids@, token_id@, bidder@);
                let b = old(self).bids@[k];
                let ask = old(self).asks@[ask_idx(old(self).asks@, token_id@)];
                &&& priced_event(ev, "accept-bid"@, seq![("token_id"@, token_id@), ("bidder"@, bidder@)], "price"@, old(self).bids@[bid_idx(old(self).bids@, token_id@, bidder@)].amount)
                &&& final(self).cooldowns@ == cooldowns_put(old(self).cooldowns@, PendingBid {
                        ask,
                        new_owner: *bidder,
                        amount: b.amount,
                        unlock_time: (now + old(self).params.cooldown_duration * 1_000_000_000) as u64,
                    })
                &&& msgs@.len() >= pending_refund(old(self).cooldowns@, token_id@).len()
                &&& msgs@.take(pending_refund(old(self).cooldowns@, token_id@).len() as int)
                    == pending_refund(old(self).cooldowns@, token_id@)
                &&& exists|mid: Market, keys: Seq<crate::types::BidKey>|
                        mid == (Market { bids: mid.bids, ..*old(self) }) && mid.bids@ == old(self).bids@.remove(k)
                        && by_price(mid.bids@, token_id@, keys)
                        && removal_done(mid, Market { cooldowns: mid.cooldowns, ..*final(self) }, keys, token_id@,
                            msgs@.skip(pending_refund(old(self).cooldowns@, token_id@).len() as int))
            },
    {
        if let Err(e) = nonpayable(funds) {
            return Err(MarketError::Payment(e));
        }
        let owner = match owner {
            Ok(o) => o,
            Err(e) => return Err(MarketError::Std(e)),
        };
        if !(owner == *sender) {
            return Err(MarketError::UnauthorizedOwner);
        }
        let ai = match self.find_ask(token_id) {
            Some(i) => i,
            None => return Err(MarketError::Std(String::from_str("ask not found"))),
        };
        let k = match self.find_bid(token_id, bidder) {
            Some(k) => k,
            None => return Err(MarketError::Std(String::from_str("bid not found"))),
        };
        if let Err(e) = approval {
            return Err(MarketError::Std(e));
        }
        let ask = self.asks[ai].clone();
        let amount = self.bids[k].amount;
        let mut out: Vec<MarketMsg> = Vec::new();
        match self.find_cooldown(token_id) {
            Some(ci) => {
                out.push(MarketMsg::Send { to: self.cooldowns[ci].new_owner.clone(), amount: self.cooldowns[ci].amount });
            },
            None => {},
        }
        let ghost prior = out@;
        proof {
            assert(prior =~= pending_refund(old(self).cooldowns@, token_id@));
        }
        self.drop_bid(k);
        let ghost mid = *self;
        let msgs = self.refund_all_bids(token_id);
        let ghost refunded = *self;
        let ghost rest = msgs@;
        append_msgs(&mut out, msgs);
        let unlock_time = plus_seconds(now, self.params.cooldown_duration);
        proof {
            assert(old(self).asks@.contains(old(self).asks@[ai as int]));
            crate::market::lemma_id_fits_same(old(self).asks@, old(self).cooldowns@, count_of(old(self).ask_count),
                old(self).asks@[ai as int], self.asks@, self.cooldowns@, ask);
        }
        self.store_cooldown(PendingBid { ask, new_owner: bidder.clone(), amount, unlock_time });
        proof {
            assert(refunded == (Market { cooldowns: mid.cooldowns, ..*self }));
            assert(out@.take(prior.len() as int) =~= prior);
            assert(out@.skip(prior.len() as int) =~= rest);
        }
        Ok((out, priced2("accept-bid", "token_id", token_id, "bidder", bidder, "price", amount)))
    }
}

/// The keys of a token's bids in price order can all be refunded.
pub proof fn lemma_by_price_refundable(bids: Seq<Bid>, t: Seq<char>, keys: Seq<crate::types::BidKey>)
    requires
        by_price(bids, t, keys),
    ensures
        keys_refundable(bids, batch(keys)),
{
    let b = batch(keys);
    assert forall|i: int| 0 <= i < b.len() implies bid_idx(bids, (#[trigger] b[i]).token_id@, b[i].bidder@) >= 0 by {
        assert(b[i] == keys[i]);
    }
    assert forall|i: int, j: int| 0 <= i < j < b.len() implies
        !(b[i].token_id@ == b[j].token_id@ && b[i].bidder@ == b[j].bidder@) by {
        assert(b[i] == keys[i]);
        assert(b[j] == keys[j]);
        let x = crate::market_bids::price_key(bids[bid_idx(bids, t, keys[i].bidder@)]);
        crate::ordering::lemma_lex_order(x, x, x);
    }
}

} // verus!
