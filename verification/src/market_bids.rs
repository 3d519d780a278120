//! The bids of the marketplace: ordering them by price, refunding them in
//! bounded batches, and the escrow they hold.
use vstd::prelude::*;
use crate::errors::MarketError;
use crate::market::{bid_hook_msgs, bid_idx, bid_is, hooks_of, prepare_bid_hook, overflow_of, overflow_idx,
    append_msgs, hook_list, HookAction, Market, MarketMsg, OverflowEntry, MAX_REMOVE_BID_LIMIT};
use crate::ordering::{keys_sorted, keys_unique, lemma_lex_order, lemma_str_key_injective, lex_lt, push_str_key,
    sort_by_key, str_key};
use crate::types::{Bid, BidKey};

verus! {

/// The sum of the amounts of the bids.
pub open spec fn bid_total(bids: Seq<Bid>) -> int
    decreases bids.len(),
{
    if bids.len() == 0 {
        0
    } else {
        bid_total(bids.drop_last()) + bids.last().amount
    }
}

/// Removing a bid takes its amount off the total.
pub proof fn lemma_bid_total_remove(bids: Seq<Bid>, i: int)
    requires
        0 <= i < bids.len(),
    ensures
        bid_total(bids.remove(i)) == bid_total(bids) - bids[i].amount,
    decreases bids.len(),
{
    if i == bids.len() - 1 {
        assert(bids.remove(i) =~= bids.drop_last());
    } else {
        lemma_bid_total_remove(bids.drop_last(), i);
        assert(bids.remove(i).drop_last() =~= bids.drop_last().remove(i));
        assert(bids.remove(i).last() == bids.last());
    }
}

/// Adding a bid adds its amount to the total.
pub proof fn lemma_bid_total_push(bids: Seq<Bid>, b: Bid)
    ensures
        bid_total(bids.push(b)) == bid_total(bids) + b.amount,
{
    assert(bids.push(b).drop_last() =~= bids);
}

/// The order key of a bid in the price index of its token: the amount, then
/// the bidder.
pub open spec fn price_key(b: Bid) -> Seq<u128> {
    seq![b.amount as u128] + str_key(b.bidder@)
}

/// `keys` lists the bids on token `t`, each once, in increasing price order.
pub open spec fn by_price(bids: Seq<Bid>, t: Seq<char>, keys: Seq<BidKey>) -> bool {
    &&& forall|i: int| 0 <= i < keys.len() ==> (#[trigger] keys[i]).token_id@ == t && bid_idx(bids, t, keys[i].bidder@) >= 0
    &&& forall|j: int| 0 <= j < bids.len() && (#[trigger] bids[j]).token_id@ == t
        ==> exists|i: int| 0 <= i < keys.len() && keys[i].bidder@ == bids[j].bidder@
    &&& forall|i: int, k: int| 0 <= i < k < keys.len() ==> lex_lt(
        price_key(bids[bid_idx(bids, t, keys[i].bidder@)]),
        price_key(bids[bid_idx(bids, t, keys[k].bidder@)]))
}

/// The messages that refund the bids keyed `keys`, in order: for each, the
/// bid hooks are told of its deletion, then the bidder is paid back.
pub open spec fn refund_msgs(bids: Seq<Bid>, hooks: Seq<String>, keys: Seq<BidKey>) -> Seq<MarketMsg>
    decreases keys.len(),
{
    if keys.len() == 0 {
        Seq::empty()
    } else {
        let k = keys.last();
        let b = bids[bid_idx(bids, k.token_id@, k.bidder@)];
        refund_msgs(bids, hooks, keys.drop_last()) + bid_hook_msgs(hooks, b, HookAction::Delete)
            + seq![MarketMsg::Send { to: b.bidder, amount: b.amount }]
    }
}

/// The total refunded for the bids keyed `keys`.
pub open spec fn refund_total(bids: Seq<Bid>, keys: Seq<BidKey>) -> int
    decreases keys.len(),
{
    if keys.len() == 0 {
        0
    } else {
        let k = keys.last();
        refund_total(bids, keys.drop_last()) + bids[bid_idx(bids, k.token_id@, k.bidder@)].amount
    }
}

/// Whether bid `b` is keyed by one of `keys`.
pub open spec fn keyed_by(keys: Seq<BidKey>, b: Bid) -> bool {
    exists|i: int| 0 <= i < keys.len() && bid_is(b, keys[i].token_id@, keys[i].bidder@)
}

/// Every key names a bid, and no key is repeated.
pub open spec fn keys_refundable(bids: Seq<Bid>, keys: Seq<BidKey>) -> bool {
    &&& forall|i: int| 0 <= i < keys.len() ==> bid_idx(bids, (#[trigger] keys[i]).token_id@, keys[i].bidder@) >= 0
    &&& forall|i: int, j: int| 0 <= i < j < keys.len() ==>
        !(keys[i].token_id@ == keys[j].token_id@ && keys[i].bidder@ == keys[j].bidder@)
}

/// `new` is `old` after refunding the bids keyed `keys` on token `t` (the
/// first batch refunded, in `msgs`, the rest queued), all else unchanged.
pub open spec fn removal_done(old: Market, new: Market, keys: Seq<BidKey>, t: Seq<char>, msgs: Seq<MarketMsg>) -> bool {
    &&& keys_refundable(old.bids@, batch(keys))
    &&& msgs == refund_msgs(old.bids@, hooks_of(old.bid_hooks), batch(keys))
    &&& forall|b: Bid| #![trigger new.bids@.contains(b)] #![trigger old.bids@.contains(b)]
        new.bids@.contains(b) <==> (old.bids@.contains(b) && !keyed_by(batch(keys), b))
    &&& bid_total(new.bids@) + refund_total(old.bids@, batch(keys)) == bid_total(old.bids@)
    &&& overflow_of(new.overflow@, t) == overflow_of(old.overflow@, t) + keys.skip(batch_len(keys.len()))
    &&& forall|u: Seq<char>| u != t ==> overflow_of(new.overflow@, u) == overflow_of(old.overflow@, u)
    &&& new == (Market { bids: new.bids, overflow: new.overflow, ..old })
}

/// The keys refunded now: the first `MAX_REMOVE_BID_LIMIT`.
pub open spec fn batch(keys: Seq<BidKey>) -> Seq<BidKey> {
    keys.take(batch_len(keys.len()))
}

/// How many bids one message refunds at most.
pub open spec fn batch_len(n: nat) -> int {
    if n < MAX_REMOVE_BID_LIMIT { n as int } else { MAX_REMOVE_BID_LIMIT as int }
}

impl Market {
    /// The keys of the bids on `token_id`, lowest price first, ties broken by bidder.
    pub fn bid_keys_by_price(&self, token_id: &String) -> (r: Vec<BidKey>)
        requires
            self.wf(),
        ensures
            by_price(self.bids@, token_id@, r@),
    {
        let mut items: Vec<(Vec<u128>, BidKey)> = Vec::new();
        let ghost mut src: Seq<int> = Seq::empty();
        let n = self.bids.len();
        let mut j: usize = 0;
        while j < n
            invariant
                self.wf(),
                n == self.bids@.len(),
                j <= n,
                keys_unique(items@),
                src.len() == items@.len(),
                forall|a: int| 0 <= a < items@.len() ==> 0 <= #[trigger] src[a] < j
                    && self.bids@[src[a]].token_id@ == token_id@
                    && items@[a].1.bidder@ == self.bids@[src[a]].bidder@
                    && items@[a].1.token_id@ == token_id@
                    && items@[a].0@ == price_key(self.bids@[src[a]]),
                forall|b: int| 0 <= b < j && (#[trigger] self.bids@[b]).token_id@ == token_id@
                    ==> exists|a: int| 0 <= a < items@.len() && src[a] == b,
            decreases n - j,
        {
            let b = &self.bids[j];
            if b.token_id == *token_id {
                let mut key: Vec<u128> = Vec::new();
                key.push(b.amount);
                push_str_key(&mut key, b.bidder.as_str());
                let ghost old_items = items@;
                let ghost old_src = src;
                proof {
                    assert(key@ =~= price_key(*b));
                    assert forall|a: int| 0 <= a < old_items.len() implies old_items[a].0@ != key@ by {
                        let bb = old_src[a];
                        if old_items[a].0@ == key@ {
                            assert(price_key(self.bids@[bb]).subrange(1, price_key(self.bids@[bb]).len() as int) =~= str_key(self.bids@[bb].bidder@));
                            assert(key@.subrange(1, key@.len() as int) =~= str_key(b.bidder@));
                            lemma_str_key_injective(self.bids@[bb].bidder@, b.bidder@);
                            assert(bid_is(self.bids@[bb], self.bids@[j as int].token_id@, self.bids@[j as int].bidder@));
                        }
                    }
                }
                items.push((key, BidKey { token_id: b.token_id.clone(), bidder: b.bidder.clone() }));
                proof {
                    src = src.push(j as int);
                    assert forall|a: int| 0 <= a < items@.len() implies 0 <= #[trigger] src[a] < j + 1
                        && self.bids@[src[a]].token_id@ == token_id@
                        && items@[a].1.bidder@ == self.bids@[src[a]].bidder@
                        && items@[a].1.token_id@ == token_id@
                        && items@[a].0@ == price_key(self.bids@[src[a]]) by {
                        if a < old_items.len() {
                            assert(items@[a] == old_items[a]);
                            assert(src[a] == old_src[a]);
                        }
                    }
                    assert forall|bb: int| 0 <= bb < j + 1 && (#[trigger] self.bids@[bb]).token_id@ == token_id@
                        implies exists|a: int| 0 <= a < items@.len() && src[a] == bb by {
                        if bb < j {
                            let a = choose|a: int| 0 <= a < old_items.len() && old_src[a] == bb;
                            assert(src[a] == old_src[a]);
                        } else {
                            assert(src[old_items.len() as int] == bb);
                        }
                    }
                }
            }
            j = j + 1;
        }
        let sorted = sort_by_key(items);
        let mut out: Vec<BidKey> = Vec::new();
        let m = sorted.len();
        for i in 0..m
            invariant
                m == sorted@.len(),
                out@.len() == i,
                forall|a: int| 0 <= a < i ==> out@[a] == (#[trigger] sorted@[a]).1,
        {
            out.push(sorted[i].1.clone());
        }
        proof {
            assert forall|i: int| 0 <= i < out@.len() implies (#[trigger] out@[i]).token_id@ == token_id@
                && bid_idx(self.bids@, token_id@, out@[i].bidder@) >= 0
                && self.bids@[bid_idx(self.bids@, token_id@, out@[i].bidder@)].bidder@ == out@[i].bidder@
                && price_key(self.bids@[bid_idx(self.bids@, token_id@, out@[i].bidder@)]) == sorted@[i].0@ by {
                assert(sorted@.contains(sorted@[i]));
                let a = choose|a: int| 0 <= a < items@.len() && items@[a] == sorted@[i];
                let bb = src[a];
                assert(bid_is(self.bids@[bb], token_id@, out@[i].bidder@));
                let k = bid_idx(self.bids@, token_id@, out@[i].bidder@);
                assert(k == bb);
            }
            assert forall|j: int| 0 <= j < self.bids@.len() && (#[trigger] self.bids@[j]).token_id@ == token_id@
                implies exists|i: int| 0 <= i < out@.len() && out@[i].bidder@ == self.bids@[j].bidder@ by {
                let a = choose|a: int| 0 <= a < items@.len() && src[a] == j;
                assert(items@.contains(items@[a]));
                assert(sorted@.contains(items@[a]));
                let i = choose|i: int| 0 <= i < sorted@.len() && sorted@[i] == items@[a];
                assert(out@[i].bidder@ == self.bids@[j].bidder@);
            }
        }
        out
    }

    /// Makes `keys` the overflow queue of `token_id`.
    pub fn set_overflow(&mut self, token_id: &String, keys: Vec<BidKey>)
        requires
            old(self).wf(),
        ensures
            final(self).wf(),
            overflow_of(final(self).overflow@, token_id@) == keys@,
            forall|t: Seq<char>| t != token_id@ ==> overflow_of(final(self).overflow@, t) == overflow_of(old(self).overflow@, t),
            *final(self) == (Market { overflow: final(self).overflow, ..*old(self) }),
    {
        match self.find_overflow(token_id) {
            Some(p) => {
                let ghost before = self.overflow@;
                let mut entry = self.overflow.remove(p);
                entry.keys = keys;
                self.overflow.insert(p, entry);
                proof {
                    before.remove_ensures(p as int);
                    assert(self.overflow@ =~= before.update(p as int, self.overflow@[p as int]));
                    assert forall|t: Seq<char>| t != token_id@ implies overflow_of(self.overflow@, t) == overflow_of(before, t) by {
                        if exists|i: int| 0 <= i < before.len() && before[i].token_id@ == t {
                            let i = choose|i: int| 0 <= i < before.len() && before[i].token_id@ == t;
                            assert(self.overflow@[i] == before[i]);
                            let k = overflow_idx(self.overflow@, t);
                            assert(self.overflow@[k].token_id@ == t);
                        } else {
                            assert(!exists|i: int| 0 <= i < self.overflow@.len() && self.overflow@[i].token_id@ == t) by {
                                if exists|i: int| 0 <= i < self.overflow@.len() && self.overflow@[i].token_id@ == t {
                                    let i = choose|i: int| 0 <= i < self.overflow@.len() && self.overflow@[i].token_id@ == t;
                                    if i != p {
                                        assert(before[i] == self.overflow@[i]);
                                    }
                                }
                            }
                        }
                    }
                    assert(overflow_idx(self.overflow@, token_id@) == p as int);
                }
            },
            None => {
                self.queue_overflow(token_id, keys);
                proof {
                    assert(overflow_of(old(self).overflow@, token_id@) =~= Seq::<BidKey>::empty());
                }
            },
        }
    }

    /// Appends `keys` to the overflow queue of `token_id`, creating it if needed.
    pub fn queue_overflow(&mut self, token_id: &String, keys: Vec<BidKey>)
        requires
            old(self).wf(),
        ensures
            final(self).wf(),
            overflow_of(final(self).overflow@, token_id@) == overflow_of(old(self).overflow@, token_id@) + keys@,
            forall|t: Seq<char>| t != token_id@ ==> overflow_of(final(self).overflow@, t) == overflow_of(old(self).overflow@, t),
            *final(self) == (Market { overflow: final(self).overflow, ..*old(self) }),
    {
        match self.find_overflow(token_id) {
            Some(p) => {
                let ghost before = self.overflow@;
                let mut entry = self.overflow.remove(p);
                let mut more = keys;
                entry.keys.append(&mut more);
                self.overflow.insert(p, entry);
                proof {
                    before.remove_ensures(p as int);
                    self.overflow@.len();
                    assert(self.overflow@ =~= before.update(p as int, self.overflow@[p as int]));
                    assert forall|t: Seq<char>| t != token_id@ implies overflow_of(self.overflow@, t) == overflow_of(before, t) by {
                        if exists|i: int| 0 <= i < before.len() && before[i].token_id@ == t {
                            let i = choose|i: int| 0 <= i < before.len() && before[i].token_id@ == t;
                            assert(self.overflow@[i] == before[i]);
                            let k = overflow_idx(self.overflow@, t);
                            assert(self.overflow@[k].token_id@ == t);
                        } else {
                            assert(!exists|i: int| 0 <= i < self.overflow@.len() && self.overflow@[i].token_id@ == t) by {
                                if exists|i: int| 0 <= i < self.overflow@.len() && self.overflow@[i].token_id@ == t {
                                    let i = choose|i: int| 0 <= i < self.overflow@.len() && self.overflow@[i].token_id@ == t;
                                    if i != p {
                                        assert(before[i] == self.overflow@[i]);
                                    }
                                }
                            }
                        }
                    }
                    assert(overflow_idx(self.overflow@, token_id@) == p as int);
                }
            },
            None => {
                let ghost before = self.overflow@;
                self.overflow.push(OverflowEntry { token_id: token_id.clone(), keys });
                proof {
                    assert forall|t: Seq<char>| t != token_id@ implies overflow_of(self.overflow@, t) == overflow_of(before, t) by {
                        if exists|i: int| 0 <= i < before.len() && before[i].token_id@ == t {
                            let i = choose|i: int| 0 <= i < before.len() && before[i].token_id@ == t;
                            assert(self.overflow@[i] == before[i]);
                            let k = overflow_idx(self.overflow@, t);
                            assert(self.overflow@[k].token_id@ == t);
                        } else {
                            assert(!exists|i: int| 0 <= i < self.overflow@.len() && self.overflow@[i].token_id@ == t) by {
                                if exists|i: int| 0 <= i < self.overflow@.len() && self.overflow@[i].token_id@ == t {
                                    let i = choose|i: int| 0 <= i < self.overflow@.len() && self.overflow@[i].token_id@ == t;
                                    if i < before.len() {
                                        assert(before[i] == self.overflow@[i]);
                                    }
                                }
                            }
                        }
                    }
                    let last = before.len() as int;
                    assert(self.overflow@[last].token_id@ == token_id@);
                    assert(overflow_idx(self.overflow@, token_id@) == last);
                    assert(self.overflow@[last].keys@ =~= Seq::<BidKey>::empty() + keys@);
                }
            },
        }
    }

    /// Refunds the bids keyed `keys` on `token_id`: the first
    /// `MAX_REMOVE_BID_LIMIT` of them are removed and their bidders paid back
    /// (each after its bid hooks), the rest are queued in the overflow queue of
    /// the token. Fails (with nothing changed) when a refunded key names no bid
    /// or repeats.
    #[verifier::loop_isolation(false)]
    pub fn checked_bid_removal(&mut self, keys: Vec<BidKey>, token_id: &String) -> (r: Result<Vec<MarketMsg>, MarketError>)
        requires
            old(self).wf(),
        ensures
            final(self).wf(),
            keys_refundable(old(self).bids@, batch(keys@)) ==> r is Ok,
            r is Ok ==> keys_refundable(old(self).bids@, batch(keys@)),
            r is Err ==> (r matches Err(MarketError::Std(_))) && *final(self) == *old(self),
            r matches Ok(msgs) ==> removal_done(*old(self), *final(self), keys@, token_id@, msgs@),
    {
        let total = keys.len();
        let n: usize = if total < MAX_REMOVE_BID_LIMIT as usize { total } else { MAX_REMOVE_BID_LIMIT as usize };
        let mut keys = keys;
        let ghost all_keys = keys@;
        let remaining = keys.split_off(n);
        let done = keys;
        proof {
            assert(done@ =~= all_keys.take(n as int));
            assert(remaining@ =~= all_keys.skip(n as int));
        }
        let hooks = hook_list(&self.bid_hooks);
        let ghost old_bids = self.bids@;
        let mut bids = self.bids.clone();
        proof {
            assert(bids@ =~= old_bids);
        }
        let mut msgs: Vec<MarketMsg> = Vec::new();
        let mut i: usize = 0;
        while i < n
            invariant
                i <= n,
                n == done@.len(),
                old_bids == self.bids@,
                self.wf(),
                hooks@ == hooks_of(self.bid_hooks),
                keys_refundable(old_bids, done@.take(i as int)),
                msgs@ == refund_msgs(old_bids, hooks@, done@.take(i as int)),
                forall|b: Bid| #![trigger bids@.contains(b)] #![trigger old_bids.contains(b)] bids@.contains(b) <==> (old_bids.contains(b) && !keyed_by(done@.take(i as int), b)),
                bids_unique(bids@),
                bid_total(bids@) + refund_total(old_bids, done@.take(i as int)) == bid_total(old_bids),
            decreases n - i,
        {
            let key = &done[i];
            let ghost cur = bids@;
            let found = bid_pos(&bids, &key.token_id, &key.bidder);
            let j = match found {
                None => {
                    proof {
                        lemma_refund_missing(old_bids, done@, i as int, cur);
                        lemma_refundable_prefix(old_bids, done@, i as int + 1, n as int);
                        assert(done@.take(n as int) =~= done@);
                    }
                    return Err(MarketError::Std(String::from_str("bid not found")));
                },
                Some(j) => j,
            };
            let bid = bids.remove(j);
            proof {
                lemma_refund_step(old_bids, done@, i as int, cur, j as int);
                assert(bids@ == cur.remove(j as int));
                assert forall|b: Bid| #![trigger bids@.contains(b)] #![trigger old_bids.contains(b)] bids@.contains(b) <==> (old_bids.contains(b) && !keyed_by(done@.take(i + 1), b)) by {
                    assert(cur.remove(j as int).contains(b) <==> (old_bids.contains(b) && !keyed_by(done@.take(i + 1), b)));
                }
                lemma_bid_total_remove(cur, j as int);
                let d1 = done@.take(i + 1);
                assert(d1.drop_last() =~= done@.take(i as int));
                assert(d1.last() == done@[i as int]);
            }
            let hook_msgs = prepare_bid_hook(&hooks, &bid, HookAction::Delete);
            append_msgs(&mut msgs, hook_msgs);
            msgs.push(MarketMsg::Send { to: bid.bidder.clone(), amount: bid.amount });
            proof {
                let d1 = done@.take(i + 1);
                assert(d1.drop_last() =~= done@.take(i as int));
                assert(msgs@ =~= refund_msgs(old_bids, hooks@, d1));

            }
            i = i + 1;
        }
        proof {
            assert(done@.take(n as int) =~= done@);
        }
        self.bids = bids;
        self.queue_overflow(token_id, remaining);
        Ok(msgs)
    }
}

/// The position of the bid of `bidder` on `token_id` in `bids`.
pub fn bid_pos(bids: &Vec<Bid>, token_id: &String, bidder: &String) -> (r: Option<usize>)
    ensures
        r matches Some(j) ==> j < bids@.len() && bid_is(bids@[j as int], token_id@, bidder@),
        r is None ==> forall|c: int| 0 <= c < bids@.len() ==> !bid_is(bids@[c], token_id@, bidder@),
{
    let n = bids.len();
    for j in 0..n
        invariant
            n == bids@.len(),
            forall|c: int| 0 <= c < j ==> !bid_is(bids@[c], token_id@, bidder@),
    {
        if bids[j].token_id == *token_id && bids[j].bidder == *bidder {
            return Some(j);
        }
    }
    None
}

/// No two bids share a token and bidder.
pub open spec fn bids_unique(bids: Seq<Bid>) -> bool {
    forall|a: int, c: int| 0 <= a < bids.len() && 0 <= c < bids.len() && a != c
        ==> !bid_is(bids[a], bids[c].token_id@, bids[c].bidder@)
}

/// A key with no bid left makes the keys so far unrefundable.
proof fn lemma_refund_missing(old_bids: Seq<Bid>, done: Seq<BidKey>, i: int, cur: Seq<Bid>)
    requires
        0 <= i < done.len(),
        bids_unique(old_bids),
        forall|b: Bid| #![trigger cur.contains(b)] #![trigger old_bids.contains(b)] cur.contains(b) <==> (old_bids.contains(b) && !keyed_by(done.take(i), b)),
        forall|c: int| 0 <= c < cur.len() ==> !bid_is(cur[c], done[i].token_id@, done[i].bidder@),
    ensures
        !keys_refundable(old_bids, done.take(i + 1)),
{
    let key = done[i];
    let d1 = done.take(i + 1);
    if keys_refundable(old_bids, d1) {
        assert(d1[i] == key);
        let k = bid_idx(old_bids, key.token_id@, key.bidder@);
        assert(k >= 0);
        let ob = old_bids[k];
        assert(old_bids.contains(ob));
        if keyed_by(done.take(i), ob) {
            let q = choose|q: int| 0 <= q < i && bid_is(ob, done.take(i)[q].token_id@, done.take(i)[q].bidder@);
            assert(d1[q] == done.take(i)[q]);
        } else {
            assert(cur.contains(ob));
        }
    }
}

/// Removing the bid of the next key keeps the loop's invariants.
proof fn lemma_refund_step(old_bids: Seq<Bid>, done: Seq<BidKey>, i: int, cur: Seq<Bid>, j: int)
    requires
        0 <= i < done.len(),
        bids_unique(old_bids),
        bids_unique(cur),
        keys_refundable(old_bids, done.take(i)),
        forall|b: Bid| #![trigger cur.contains(b)] #![trigger old_bids.contains(b)] cur.contains(b) <==> (old_bids.contains(b) && !keyed_by(done.take(i), b)),
        0 <= j < cur.len(),
        bid_is(cur[j], done[i].token_id@, done[i].bidder@),
    ensures
        keys_refundable(old_bids, done.take(i + 1)),
        old_bids[bid_idx(old_bids, done[i].token_id@, done[i].bidder@)] == cur[j],
        forall|b: Bid| #![trigger cur.remove(j).contains(b)] #![trigger old_bids.contains(b)] cur.remove(j).contains(b) <==> (old_bids.contains(b) && !keyed_by(done.take(i + 1), b)),
        bids_unique(cur.remove(j)),
{
    let key = done[i];
    let b = cur[j];
    assert(cur.contains(b));
    assert(old_bids.contains(b));
    let ob = choose|q: int| 0 <= q < old_bids.len() && old_bids[q] == b;
    assert(bid_is(old_bids[ob], key.token_id@, key.bidder@));
    let k = bid_idx(old_bids, key.token_id@, key.bidder@);
    assert(k == ob);
    assert(!keyed_by(done.take(i), b));
    let d0 = done.take(i);
    let d1 = done.take(i + 1);
    assert forall|a: int| 0 <= a < d1.len() implies bid_idx(old_bids, (#[trigger] d1[a]).token_id@, d1[a].bidder@) >= 0 by {
        if a < i {
            assert(d1[a] == d0[a]);
        }
    }
    assert forall|a: int, c: int| 0 <= a < c < d1.len() implies
        !(d1[a].token_id@ == d1[c].token_id@ && d1[a].bidder@ == d1[c].bidder@) by {
        assert(d1[a] == d0[a] || a == i);
        if c == i {
            if d1[a].token_id@ == d1[c].token_id@ && d1[a].bidder@ == d1[c].bidder@ {
                assert(d0[a] == d1[a]);
                assert(keyed_by(d0, b));
            }
        } else {
            assert(d1[a] == d0[a]);
            assert(d1[c] == d0[c]);
        }
    }
    let after = cur.remove(j);
    cur.remove_ensures(j);
    assert forall|x: Bid| after.contains(x) <==> (old_bids.contains(x) && !keyed_by(d1, x)) by {
        if after.contains(x) {
            let q = choose|q: int| 0 <= q < after.len() && after[q] == x;
            let q0 = if q < j { q } else { q + 1 };
            assert(cur[q0] == x);
            assert(cur.contains(x));
            if keyed_by(d1, x) {
                let w = choose|w: int| 0 <= w < d1.len() && bid_is(x, d1[w].token_id@, d1[w].bidder@);
                if w < i {
                    assert(d0[w] == d1[w]);
                    assert(keyed_by(d0, x));
                } else {
                    assert(q0 != j);
                }
            }
        }
        if old_bids.contains(x) && !keyed_by(d1, x) {
            assert(!keyed_by(d0, x)) by {
                if keyed_by(d0, x) {
                    let w = choose|w: int| 0 <= w < i && bid_is(x, d0[w].token_id@, d0[w].bidder@);
                    assert(d1[w] == d0[w]);
                }
            }
            assert(cur.contains(x));
            let q = choose|q: int| 0 <= q < cur.len() && cur[q] == x;
            if q == j {
                assert(bid_is(x, d1[i].token_id@, d1[i].bidder@));
            } else if q < j {
                assert(after[q] == x);
            } else {
                assert(after[q - 1] == x);
            }
        }
    }
    assert forall|a: int, c: int| 0 <= a < after.len() && 0 <= c < after.len() && a != c
        implies !bid_is(after[a], after[c].token_id@, after[c].bidder@) by {
        let a0 = if a < j { a } else { a + 1 };
        let c0 = if c < j { c } else { c + 1 };
        assert(after[a] == cur[a0]);
        assert(after[c] == cur[c0]);
    }
}

/// A prefix that cannot be refunded stays so when extended.
proof fn lemma_refundable_prefix(bids: Seq<Bid>, keys: Seq<BidKey>, i: int, n: int)
    requires
        0 <= i <= n <= keys.len(),
        !keys_refundable(bids, keys.take(i)),
    ensures
        !keys_refundable(bids, keys.take(n)),
{
    let a = keys.take(i);
    let b = keys.take(n);
    if keys_refundable(bids, b) {
        assert forall|x: int| 0 <= x < a.len() implies bid_idx(bids, (#[trigger] a[x]).token_id@, a[x].bidder@) >= 0 by {
            assert(a[x] == b[x]);
        }
        assert forall|x: int, y: int| 0 <= x < y < a.len() implies
            !(a[x].token_id@ == a[y].token_id@ && a[x].bidder@ == a[y].bidder@) by {
            assert(a[x] == b[x]);
            assert(a[y] == b[y]);
        }
    }
}

} // verus!
