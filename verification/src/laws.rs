//! Properties that hold across the operations of the marketplace and the
//! collection: where the escrowed funds go, what one call undoes of
//! another, and what a lookup gives back after an update.
use vstd::prelude::*;
use crate::collection::{Collection, TokenInfo};
use crate::collection_keys::{account_lookup, add_fold, add_step, KeyState};
use crate::collection_links::{associated, linked};
use crate::collection_transfer::{keeps_link, reset_done};
use crate::errors::MarketError;
use crate::market::{id_fits, count_of, bid_hook_msgs, bid_idx, hooks_distinct, hooks_of, has_hook, Market, MarketMsg, HookAction};
use crate::market_admin::{hook_added, hook_removed};
use crate::market_bids::{batch, bid_total, lemma_bid_total_push, lemma_bid_total_remove, refund_msgs, refund_total,
    removal_done};
use crate::market_sale::cancel_msgs;
use crate::market_trade::payout_msgs;
use crate::ownership_verifier::Governance;
use crate::pricing::{fee_of, fee_rate_of_bps, lemma_fee_within};
use crate::market_queries::{lemma_listed_in_bids, lemma_price_key_injective, listed_bids, listing_holds, price_index_key, BidListing};
use crate::paging::{is_page, lemma_desc_page_reverses};
use crate::records::{has_key, other_key, without_key};
use crate::types::TextRecord;
use crate::types::{Bid, BidKey};

verus! {

broadcast use vstd::seq_lib::group_seq_properties;

/// The native funds that `msgs` take out of the marketplace: what they pay
/// and what they burn.
pub open spec fn funds_out(msgs: Seq<MarketMsg>) -> int
    decreases msgs.len(),
{
    if msgs.len() == 0 {
        0
    } else {
        funds_out(msgs.drop_last()) + match msgs.last() {
            MarketMsg::Send { amount, .. } => amount as int,
            MarketMsg::Burn { amount } => amount as int,
            _ => 0,
        }
    }
}

/// The funds of two message lists add up.
pub proof fn lemma_funds_out_concat(a: Seq<MarketMsg>, b: Seq<MarketMsg>)
    ensures
        funds_out(a + b) == funds_out(a) + funds_out(b),
    decreases b.len(),
{
    if b.len() > 0 {
        lemma_funds_out_concat(a, b.drop_last());
        assert((a + b).drop_last() =~= a + b.drop_last());
    } else {
        assert(a + b =~= a);
    }
}

/// Hook messages move no funds.
pub proof fn lemma_hook_msgs_move_nothing(hooks: Seq<String>, b: Bid, action: HookAction)
    ensures
        funds_out(bid_hook_msgs(hooks, b, action)) == 0,
    decreases hooks.len(),
{
    if hooks.len() > 0 {
        lemma_hook_msgs_move_nothing(hooks.drop_last(), b, action);
        assert(bid_hook_msgs(hooks, b, action).drop_last() =~= bid_hook_msgs(hooks.drop_last(), b, action));
    }
}

/// A sale pays out exactly its price: the fee burnt and the seller's share
/// together make the price, when the fee rate is at most 100%.
pub proof fn law_payout_splits_price(price: u128, rate: u128, seller: String)
    requires
        rate <= fee_rate_of_bps(10000),
    ensures
        funds_out(payout_msgs(price, rate, seller)) == price,
        payout_msgs(price, rate, seller).last() == (MarketMsg::Send { to: seller, amount: (price - fee_of(price, rate)) as u128 }),
{
    lemma_fee_within(price, rate);
    let fee = fee_of(price, rate);
    let head: Seq<MarketMsg> = if fee > 0 { seq![MarketMsg::Burn { amount: fee as u128 }] } else { Seq::empty() };
    let tail = seq![MarketMsg::Send { to: seller, amount: (price - fee) as u128 }];
    lemma_funds_out_concat(head, tail);
    if fee > 0 {
        assert(head.drop_last() =~= Seq::<MarketMsg>::empty());
    }
    assert(tail.drop_last() =~= Seq::<MarketMsg>::empty());
}

/// Cancelling a cooldown pays out the bid and the cancellation fee, no more
/// and no less; the developers get half the fee (rounded down).
pub proof fn law_cancel_pays_bid_and_fee(amount: u128, fee: u128, new_owner: String, dao: String)
    requires
        amount + (fee - fee / 2) <= u128::MAX,
    ensures
        funds_out(cancel_msgs(amount, fee, new_owner, dao)) == amount + fee,
        cancel_msgs(amount, fee, new_owner, dao)[1] == (MarketMsg::Send { to: dao, amount: (fee / 2) as u128 }),
{
    reveal_with_fuel(funds_out, 3);
    let m = cancel_msgs(amount, fee, new_owner, dao);
    assert(m.drop_last().drop_last() =~= Seq::<MarketMsg>::empty());
    assert(m.drop_last() =~= seq![m[0]]);
    assert(funds_out(m.drop_last()) == amount + (fee - fee / 2));
    assert(funds_out(m) == funds_out(m.drop_last()) + fee / 2);
}

/// Refunding bids pays back exactly their amounts.
pub proof fn law_refunds_pay_back_bids(bids: Seq<Bid>, hooks: Seq<String>, keys: Seq<BidKey>)
    ensures
        funds_out(refund_msgs(bids, hooks, keys)) == refund_total(bids, keys),
    decreases keys.len(),
{
    if keys.len() > 0 {
        let k = keys.last();
        let b = bids[bid_idx(bids, k.token_id@, k.bidder@)];
        law_refunds_pay_back_bids(bids, hooks, keys.drop_last());
        let prev = refund_msgs(bids, hooks, keys.drop_last());
        let h = bid_hook_msgs(hooks, b, HookAction::Delete);
        let s = seq![MarketMsg::Send { to: b.bidder, amount: b.amount }];
        lemma_funds_out_concat(prev, h);
        lemma_funds_out_concat(prev + h, s);
        lemma_hook_msgs_move_nothing(hooks, b, HookAction::Delete);
        assert(s.drop_last() =~= Seq::<MarketMsg>::empty());
    }
}

/// A bid removal keeps the escrow whole: what stays escrowed and what is
/// paid back add up to what was escrowed.
pub proof fn law_bid_removal_keeps_escrow(old: Market, new: Market, keys: Seq<BidKey>, t: Seq<char>, msgs: Seq<MarketMsg>)
    requires
        removal_done(old, new, keys, t, msgs),
    ensures
        bid_total(new.bids@) + funds_out(msgs) == bid_total(old.bids@),
{
    law_refunds_pay_back_bids(old.bids@, hooks_of(old.bid_hooks), batch(keys));
}

/// Placing a bid escrows exactly the coin sent: the escrow grows by the new
/// bid, less a replaced bid of the same bidder, which is paid back.
pub proof fn law_set_bid_escrow(bids: Seq<Bid>, k: int, nb: Bid, sender: String, hooks: Seq<String>)
    requires
        -1 <= k < bids.len(),
    ensures
        ({
            let new_bids = (if k >= 0 { bids.remove(k) } else { bids }).push(nb);
            let msgs = (if k >= 0 { seq![MarketMsg::Send { to: sender, amount: bids[k].amount }] } else { Seq::empty() })
                + bid_hook_msgs(hooks, nb, HookAction::Create);
            bid_total(new_bids) + funds_out(msgs) == bid_total(bids) + nb.amount
        }),
{
    let kept = if k >= 0 { bids.remove(k) } else { bids };
    if k >= 0 {
        lemma_bid_total_remove(bids, k);
    }
    lemma_bid_total_push(kept, nb);
    let head: Seq<MarketMsg> = if k >= 0 { seq![MarketMsg::Send { to: sender, amount: bids[k].amount }] } else { Seq::empty() };
    lemma_funds_out_concat(head, bid_hook_msgs(hooks, nb, HookAction::Create));
    lemma_hook_msgs_move_nothing(hooks, nb, HookAction::Create);
    if k >= 0 {
        reveal_with_fuel(funds_out, 2);
        assert(head.drop_last() =~= Seq::<MarketMsg>::empty());
        assert(funds_out(head) == bids[k].amount);
    } else {
        assert(funds_out(head) == 0);
    }
}

/// Withdrawing a bid pays back exactly its amount.
pub proof fn law_remove_bid_escrow(bids: Seq<Bid>, k: int, hooks: Seq<String>)
    requires
        0 <= k < bids.len(),
    ensures
        ({
            let b = bids[k];
            let msgs = seq![MarketMsg::Send { to: b.bidder, amount: b.amount }] + bid_hook_msgs(hooks, b, HookAction::Delete);
            bid_total(bids.remove(k)) + funds_out(msgs) == bid_total(bids)
        }),
{
    let b = bids[k];
    lemma_bid_total_remove(bids, k);
    let head = seq![MarketMsg::Send { to: b.bidder, amount: b.amount }];
    lemma_funds_out_concat(head, bid_hook_msgs(hooks, b, HookAction::Delete));
    lemma_hook_msgs_move_nothing(hooks, b, HookAction::Delete);
    reveal_with_fuel(funds_out, 2);
    assert(head.drop_last() =~= Seq::<MarketMsg>::empty());
    assert(funds_out(head) == b.amount);
}

/// Removing a hook just added restores the hook list.
pub proof fn law_hook_remove_undoes_add(before: Option<Vec<String>>, hook: String, mid: Option<Vec<String>>,
    after: Option<Vec<String>>, r2: Result<(), MarketError>)
    requires
        hooks_distinct(hooks_of(before)),
        !has_hook(hooks_of(before), hook@),
        hook_added(before, hook, mid, Ok(())),
        hook_removed(mid, hook, after, r2),
    ensures
        r2 is Ok,
        hooks_of(after) == hooks_of(before),
{
    let h = hooks_of(before);
    let m = hooks_of(mid);
    assert(m[h.len() as int] == hook);
    assert(has_hook(m, hook@));
    let p = choose|p: int| 0 <= p < m.len() && m[p]@ == hook@ && hooks_of(after) == m.remove(p);
    if p < h.len() {
        assert(m[p] == h[p]);
    }
    assert(p == h.len());
    assert(m.remove(p) =~= h);
}

/// After an address is associated with an account, looking the address up
/// gives the account back, and the account's associated address is that
/// address.
pub proof fn law_associate_then_lookup(old: Collection, new: Collection, account: String, a: String, kept: bool,
    dropped: bool, canon: Seq<char>)
    requires
        old.tokens@.contains_key(account@),
        associated(old, new, account, Some(a), kept, dropped, canon),
    ensures
        new.reverse_map@.contains_key(a@) && new.reverse_map@[a@] == account,
        new.tokens@.contains_key(account@) && new.tokens@[account@].token_uri == Some(a),
        a@.len() >= 4 && a@.subrange(0, 4) == "terp"@ ==> account_lookup(new, a@) == Ok::<String, Seq<char>>(account),
{
}

/// Every address mapped by a successful update of the mapped addresses maps
/// to the sender, the count grows by one per address, and it stays within
/// the limit.
pub proof fn law_added_keys_map_to_sender(s: KeyState, adds: Seq<Result<String, String>>, canon: String, sender: String,
    max: u32, t: KeyState)
    requires
        add_fold(s, adds, canon, sender, max) == Ok::<KeyState, crate::errors::AccountError>(t),
    ensures
        t.2 == s.2 + adds.len(),
        adds.len() > 0 ==> t.2 <= max,
        forall|i: int| 0 <= i < adds.len() ==> (#[trigger] adds[i]) is Ok && t.0.contains_key(adds[i]->Ok_0@)
            && t.0[adds[i]->Ok_0@].addr == sender && t.0[adds[i]->Ok_0@].canon == canon,
    decreases adds.len(),
{
    if adds.len() > 0 {
        let prev = add_fold(s, adds.drop_last(), canon, sender, max);
        let u = prev->Ok_0;
        law_added_keys_map_to_sender(s, adds.drop_last(), canon, sender, max, u);
        assert forall|i: int| 0 <= i < adds.len() implies (#[trigger] adds[i]) is Ok && t.0.contains_key(adds[i]->Ok_0@)
            && t.0[adds[i]->Ok_0@].addr == sender && t.0[adds[i]->Ok_0@].canon == canon by {
            if i < adds.len() - 1 {
                assert(adds.drop_last()[i] == adds[i]);
            }
        }
    }
}

/// Moving a token that does not key a still-valid abstract account drops
/// its associated address and the address's reverse mapping; the account's
/// associated address is then its owner.
pub proof fn law_move_clears_link(old: Collection, mid: Collection, account: Seq<char>, aa_owner: Result<Governance, String>,
    oca: Seq<char>)
    requires
        old.tokens@.contains_key(account),
        reset_done(old, mid, account, aa_owner, oca),
        !keeps_link(old.tokens@[account], aa_owner, oca, account),
    ensures
        mid.tokens@.contains_key(account),
        mid.tokens@[account].token_uri is None,
        old.tokens@[account].token_uri matches Some(u) ==> !mid.reverse_map@.contains_key(u@),
{
}

/// No two asks share an id: not two listed asks, nor a listed ask and a sale
/// of another token waiting out its cooldown; and every id is one the ask
/// counter has already handed out.
pub proof fn law_ask_ids_distinct(m: Market)
    requires
        m.wf(),
    ensures
        forall|i: int, j: int| 0 <= i < m.asks@.len() && 0 <= j < m.asks@.len() && i != j
            ==> #[trigger] m.asks@[i].id != #[trigger] m.asks@[j].id,
        forall|i: int| 0 <= i < m.asks@.len() ==> 1 <= #[trigger] m.asks@[i].id <= m.asks_made(),
        forall|i: int, j: int| 0 <= i < m.asks@.len() && 0 <= j < m.cooldowns@.len()
            && #[trigger] m.asks@[i].token_id@ != #[trigger] m.cooldowns@[j].ask.token_id@
            ==> m.asks@[i].id != m.cooldowns@[j].ask.id,
{
    let c = count_of(m.ask_count);
    assert forall|i: int, j: int| 0 <= i < m.asks@.len() && 0 <= j < m.asks@.len() && i != j
        implies #[trigger] m.asks@[i].id != #[trigger] m.asks@[j].id by {
        assert(m.asks@.contains(m.asks@[i]));
        assert(m.asks@.contains(m.asks@[j]));
        assert(id_fits(m.asks@, m.cooldowns@, c, m.asks@[i]));
    }
    assert forall|i: int| 0 <= i < m.asks@.len() implies 1 <= #[trigger] m.asks@[i].id <= m.asks_made() by {
        assert(m.asks@.contains(m.asks@[i]));
    }
    assert forall|i: int, j: int| 0 <= i < m.asks@.len() && 0 <= j < m.cooldowns@.len()
        && #[trigger] m.asks@[i].token_id@ != #[trigger] m.cooldowns@[j].ask.token_id@
        implies m.asks@[i].id != m.cooldowns@[j].ask.id by {
        assert(m.asks@.contains(m.asks@[i]));
        assert(m.cooldowns@.contains(m.cooldowns@[j]));
        assert(id_fits(m.asks@, m.cooldowns@, c, m.asks@[i]));
    }
}

/// The bids by price from the top are those from the bottom reversed: a page
/// of the bids in descending price order from the start lists, in reverse
/// order, the last bids of a complete ascending listing (one that is not full,
/// or whose limit covers every bid), and is cut short only by its limit; with
/// a limit covering every bid it is that listing reversed. (Token ids are
/// strings held in memory, so their length fits a `usize`.)
pub proof fn law_reverse_price_page(m: Market, up: Seq<Bid>, down: Seq<Bid>, l1: nat, l2: nat)
    requires
        m.wf(),
        forall|b: Bid| #[trigger] m.bids@.contains(b) ==> crate::types::byte_len(b.token_id@) <= usize::MAX,
        is_page(up, listed_bids(m.bids@, BidListing::ByPrice), |b: Bid| price_index_key(b), None, l1, false),
        up.len() < l1 || m.bids@.len() <= l1,
        is_page(down, listed_bids(m.bids@, BidListing::ByPrice), |b: Bid| price_index_key(b), None, l2, true),
    ensures
        down.len() <= up.len(),
        down == up.reverse().take(down.len() as int),
        down.len() == l2 || down.len() == up.len(),
        m.bids@.len() <= l2 ==> down == up.reverse(),
{
    let cands = listed_bids(m.bids@, BidListing::ByPrice);
    let key = |b: Bid| price_index_key(b);
    m.bids@.lemma_filter_len(|b: Bid| listing_holds(BidListing::ByPrice, b));
    assert(cands.len() <= m.bids@.len());
    crate::paging::lemma_page_complete(up, cands, key, l1);
    lemma_listed_in_bids(m.bids@, BidListing::ByPrice);
    assert forall|x: Bid, y: Bid| #[trigger] cands.contains(x) && #[trigger] cands.contains(y) && key(x) == key(y)
        implies x == y by {
        assert(m.bids@.contains(x));
        assert(m.bids@.contains(y));
        lemma_price_key_injective(x, y);
        let i = choose|i: int| 0 <= i < m.bids@.len() && m.bids@[i] == x;
        let j = choose|j: int| 0 <= j < m.bids@.len() && m.bids@[j] == y;
        if i != j {
            assert(!crate::market::bid_is(m.bids@[i], m.bids@[j].token_id@, m.bids@[j].bidder@));
        }
    }
    lemma_desc_page_reverses(up, down, cands, key, l1, l2);
    if m.bids@.len() <= l2 {
        up.lemma_cardinality_of_set();
        assert(up.len() <= cands.len()) by {
            assert forall|i: int, j: int| 0 <= i < up.len() && 0 <= j < up.len() && i != j
                implies up[i] != up[j] by {
                if i < j {
                    assert(crate::paging::before(key(up[i]), key(up[j]), false));
                } else {
                    assert(crate::paging::before(key(up[j]), key(up[i]), false));
                }
                crate::ordering::lemma_lex_order(key(up[i]), key(up[i]), key(up[i]));
            }
            up.unique_seq_to_set();
            cands.lemma_cardinality_of_set();
            assert(up.to_set().subset_of(cands.to_set())) by {
                assert forall|y: Bid| up.to_set().contains(y) implies cands.to_set().contains(y) by {
                    assert(up.contains(y));
                }
            }
            vstd::set_lib::lemma_len_subset(up.to_set(), cands.to_set());
        }
        assert(up.reverse().take(up.len() as int) =~= up.reverse());
    }
}

/// A filter that every item passes keeps the sequence as it is.
proof fn lemma_filter_keeps_all(s: Seq<TextRecord>, pred: spec_fn(TextRecord) -> bool)
    requires
        forall|i: int| 0 <= i < s.len() ==> pred(#[trigger] s[i]),
    ensures
        s.filter(pred) == s,
    decreases s.len(),
{
    reveal(Seq::filter);
    if s.len() > 0 {
        lemma_filter_keeps_all(s.drop_last(), pred);
        assert(s.drop_last().push(s.last()) =~= s);
    }
}

/// Removing the text records under a key twice is removing them once: after
/// the first removal no record has that key, and a removal of a key that no
/// record has changes nothing. So two successful removals leave the second
/// collection's token with the records, owner, address, image and flag that
/// the first left.
pub proof fn law_remove_record_twice(old: Collection, mid: Collection, new: Collection, account: Seq<char>, key: Seq<char>)
    requires
        old.tokens@.contains_key(account),
        crate::collection::records_set(old, mid, account, without_key(old.tokens@[account].extension.records@, key)),
        crate::collection::records_set(mid, new, account, without_key(mid.tokens@[account].extension.records@, key)),
    ensures
        !has_key(without_key(old.tokens@[account].extension.records@, key), key),
        forall|r: Seq<TextRecord>| !has_key(r, key) ==> #[trigger] without_key(r, key) == r,
        new.tokens@[account].extension.records@ == mid.tokens@[account].extension.records@,
        crate::collection::same_but_records(new.tokens@[account], mid.tokens@[account]),
        new.tokens@.dom() == mid.tokens@.dom(),
        forall|a: Seq<char>| a != account && #[trigger] new.tokens@.contains_key(a) ==> new.tokens@[a] == mid.tokens@[a],
        new == (Collection { tokens: new.tokens, ..mid }),
{
    broadcast use vstd::seq_lib::group_filter_ensures;
    let once = without_key(old.tokens@[account].extension.records@, key);
    assert forall|i: int| 0 <= i < once.len() implies once[i].account@ != key by {
        assert((other_key(key))(once[i]));
    }
    assert forall|r: Seq<TextRecord>| !has_key(r, key) implies #[trigger] without_key(r, key) == r by {
        assert forall|i: int| 0 <= i < r.len() implies (other_key(key))(#[trigger] r[i]) by {
            if r[i].account@ == key {
                assert(has_key(r, key));
            }
        }
        lemma_filter_keeps_all(r, other_key(key));
    }
    assert(mid.tokens@[account].extension.records@ == once);
}

/// Associating an account anew takes its previous address out of the reverse
/// map when that address is not an abstract account, or is one that this
/// token no longer governs: afterwards the old address finds the account only
/// if it is the new address itself. (Clearing an association, `address` being
/// `None`, leaves the old address mapped to nothing.) An abstract account
/// that this token still governs keeps its mapping.
pub proof fn law_plain_address_leaves_on_reassociation(old: Collection, new: Collection, account: String,
    address: Option<String>, prev_owner: Result<Governance, String>, oca: String, canon: Seq<char>)
    requires
        old.tokens@.contains_key(account@),
        old.tokens@[account@].token_uri is Some,
        associated(old, new, account, address,
            crate::collection_links::aa_kept(old.tokens@[account@], prev_owner, oca@, account@),
            crate::collection_links::prev_dropped(old.tokens@[account@], prev_owner, oca@, account@), canon),
    ensures
        ({
            let t = old.tokens@[account@];
            let u = t.token_uri->0;
            let governed = prev_owner matches Ok(Governance::Nft { collection_addr, token_id })
                && collection_addr@ == oca@ && token_id@ == account@;
            &&& (!t.extension.account_ownership || (prev_owner is Ok && !governed))
                ==> (new.reverse_map@.contains_key(u@) ==> (address matches Some(a) && a@ == u@))
            &&& (t.extension.account_ownership && governed && old.reverse_map@.contains_key(u@))
                ==> new.reverse_map@.contains_key(u@)
        }),
{
}

/// Unmapping addresses leaves every one of them unmapped (so `transcode`
/// refuses them), and maps no address that was not mapped before.
pub proof fn law_removed_addresses_stay_unmapped(s: KeyState, rems: Seq<String>, sender: String)
    ensures
        crate::collection_keys::rem_fold(s, rems, sender) matches Ok(t) ==> {
            &&& forall|i: int| 0 <= i < rems.len() ==> !t.0.contains_key(#[trigger] rems[i]@)
            &&& forall|k: Seq<char>| #[trigger] t.0.contains_key(k) ==> s.0.contains_key(k)
        },
{
    crate::collection_keys::lemma_rem_fold_unmaps(s, rems, sender);
}

/// Every lower-case ASCII letter may appear in an account name, and a name of
/// lower-case letters whose length lies within the bounds is accepted.
pub proof fn law_lowercase_names_are_valid(name: Seq<char>, min: u32, max: u32)
    requires
        forall|i: int| 0 <= i < name.len() ==> 'a' <= #[trigger] name[i] <= 'z',
        min <= name.len() < max,
    ensures
        forall|c: char| 'a' <= c <= 'z' ==> #[trigger] crate::account_name::name_char_ok(c),
        forall|b: u8| 97 <= b <= 122 ==> #[trigger] crate::account_name::name_byte_ok(b),
        crate::account_name::account_name_check(name, min, max) == Ok::<(), MarketError>(()),
{
    assert(vstd::utf8::is_ascii_chars(name));
    vstd::utf8::is_ascii_chars_encode_utf8(name);
    assert(crate::types::byte_len(name) == name.len());
    assert forall|i: int| 0 <= i < name.len() implies crate::account_name::name_char_ok(#[trigger] name[i]) by {
        assert('a' <= name[i] <= 'z');
    }
    if name.len() > 0 {
        assert(!crate::account_name::is_hyphen(name[0]));
        assert(!crate::account_name::is_hyphen(name.last()));
    }
    if name.len() > 4 {
        assert(!crate::account_name::is_hyphen(name[2]));
    }
}

/// A page asked for with an explicit limit of at most the maximum (100) has
/// exactly that size: it lists every candidate when there are no more than
/// the limit, and is cut at the limit otherwise. Without a limit the page
/// size is the default (10); a larger limit is capped at 100.
pub proof fn law_explicit_page_limit(l: u32, r: Seq<Bid>, cands: Seq<Bid>, key: spec_fn(Bid) -> Seq<u128>)
    requires
        l <= 100,
        is_page(r, cands, key, None, crate::market_queries::page_limit(Some(l)), false),
    ensures
        crate::market_queries::page_limit(Some(l)) == l,
        crate::market_queries::page_limit(None) == 10,
        forall|m: u32| m > 100 ==> #[trigger] crate::market_queries::page_limit(Some(m)) == 100,
        r.len() <= l,
        cands.len() <= l ==> forall|x: Bid| #[trigger] cands.contains(x) ==> r.contains(x),
        forall|x: Bid| #[trigger] cands.contains(x) && !r.contains(x) ==> r.len() == l,
{
    if cands.len() <= l {
        crate::paging::lemma_page_complete(r, cands, key, l as nat);
    }
}

} // verus!
