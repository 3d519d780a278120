//! Listing account tokens on the marketplace: minting a new account and
//! listing it, and the asks the collection updates or removes.
use vstd::prelude::*;
use crate::account_name::{account_name_check, trim_name, trimmed, is_white_space, validate_account};
use crate::errors::MarketError;
use crate::events::{event1, event2, priced2, priced_event, texts_event, Event};
use crate::funds::{must_pay_result, nonpayable, pays_in, PaymentError};
use crate::market::{ask_hook_msgs, ask_idx, has_bid_on, hooks_of, hook_list, prepare_ask_hook, Market, MarketMsg,
    HookAction};
use crate::market_bids::{by_price, removal_done};
use crate::market_trade::{asks_put, lemma_by_price_refundable};
use crate::pricing::{name_price, payment_check, required_delegation, total, validate_payment, validate_staking};
use crate::types::{byte_len, str_byte_len, Ask, Coin, NATIVE_DENOM};

verus! {

broadcast use vstd::seq_lib::group_seq_properties;

/// Whether `funds` pay the mint price of a name `len` bytes long: the price is
/// zero, or the funds are exactly that amount of the native denomination.
pub open spec fn payment_ok(len: nat, funds: Seq<Coin>, base_price: u128) -> bool {
    match name_price(len, base_price) {
        None => false,
        Some(a) => a == 0 || (pays_in(funds, NATIVE_DENOM@) && funds[0].amount == a),
    }
}

/// The messages of a result that may also carry an event.
pub open spec fn msgs_of<E>(r: Result<(Vec<MarketMsg>, Event), E>) -> Result<Vec<MarketMsg>, E> {
    match r {
        Ok((m, _)) => Ok(m),
        Err(e) => Err(e),
    }
}

/// The event of minting and listing `account` for `owner` at `price` (zero
/// when the name is free).
pub open spec fn mint_event(e: Event, account: Seq<char>, owner: Seq<char>, price: u128) -> bool {
    priced_event(e, "mint-and-list"@, seq![("account"@, account), ("owner"@, owner)], "price"@, price)
}

impl Market {
    /// The arithmetic of minting and listing the (trimmed) name `name` stays
    /// within bounds, on the calls that get as far as it: the price once the
    /// name is accepted, the required stake and the sum of the delegations
    /// once the price is paid, the next ask id once every check has passed.
    pub open spec fn mint_fits(self, now: u64, name: Seq<char>, funds: Seq<Coin>,
        delegations: Result<Vec<u128>, String>, operator: Result<(), String>) -> bool {
        let p = self.params;
        let len = byte_len(name);
        let named = !self.paused && now >= self.public_mint_start_time
            && account_name_check(name, p.min_account_length, p.max_account_length) is Ok;
        let paid = named && payment_ok(len, funds, p.base_price);
        &&& named ==> (len == 3 ==> p.base_price * 100 <= u128::MAX) && (len == 4 ==> p.base_price * 10 <= u128::MAX)
        &&& paid ==> required_delegation(len, p.base_delegation) <= u128::MAX
        &&& paid ==> (delegations matches Ok(d) ==> total(d@) <= u128::MAX)
        &&& paid && (delegations matches Ok(d) && total(d@) >= required_delegation(len, p.base_delegation))
            && operator is Ok ==> self.asks_made() < u32::MAX
    }

    /// How many asks were ever created.
    pub open spec fn asks_made(self) -> int {
        match self.ask_count {
            Some(c) => c as int,
            None => 0,
        }
    }

    /// What minting and listing the (trimmed) name `name` does: the checks in
    /// order, then the new ask and the messages that burn the price and mint
    /// the token to the sender.
    pub open spec fn mint_outcome(self, new: Market, sender: String, funds: Seq<Coin>, now: u64, name: Seq<char>,
        delegations: Result<Vec<u128>, String>, operator: Result<(), String>, r: Result<Vec<MarketMsg>, MarketError>) -> bool {
        let p = self.params;
        let len = byte_len(name);
        let named = account_name_check(name, p.min_account_length, p.max_account_length);
        let paid = payment_ok(len, funds, p.base_price);
        &&& r is Err ==> new == self
        &&& self.paused ==> r == Err::<Vec<MarketMsg>, MarketError>(MarketError::MintingPaused)
        &&& !self.paused && now < self.public_mint_start_time ==> r == Err::<Vec<MarketMsg>, MarketError>(MarketError::MintingNotStarted)
        &&& !self.paused && now >= self.public_mint_start_time && named is Err ==> r == Err::<Vec<MarketMsg>, MarketError>(named->Err_0)
        &&& !self.paused && now >= self.public_mint_start_time && named is Ok && !paid
            ==> (r matches Err(e) && payment_check(len, funds, p.base_price, Err(e)))
        &&& !self.paused && now >= self.public_mint_start_time && named is Ok && paid && delegations is Err
            ==> (r matches Err(MarketError::Std(_)))
        &&& !self.paused && now >= self.public_mint_start_time && named is Ok && paid && (delegations matches Ok(d)
            && total(d@) < required_delegation(len, p.base_delegation))
            ==> r == Err::<Vec<MarketMsg>, MarketError>(MarketError::IncorrectDelegation {
                got: total(delegations->Ok_0@) as u128,
                expected: required_delegation(len, p.base_delegation) as u128,
            })
        &&& !self.paused && now >= self.public_mint_start_time && named is Ok && paid && (delegations matches Ok(d)
            && total(d@) >= required_delegation(len, p.base_delegation)) && operator is Err
            ==> (r matches Err(MarketError::Std(_)))
        &&& !self.paused && now >= self.public_mint_start_time && named is Ok && paid && (delegations matches Ok(d)
            && total(d@) >= required_delegation(len, p.base_delegation)) && operator is Ok ==> r is Ok
        &&& r matches Ok(msgs) ==> {
            let id = (self.asks_made() + 1) as u32;
            let price = name_price(len, p.base_price)->0;
            &&& new.ask_count == Some(id)
            &&& new == (Market { asks: new.asks, ask_count: new.ask_count, ..self })
            &&& exists|tok: String| tok@ == name
                && new.asks@ == asks_put(self.asks@, Ask { token_id: tok, id, seller: sender })
                && msgs@ == (if price > 0 { seq![MarketMsg::Burn { amount: price as u128 }] } else { Seq::empty() })
                    + seq![MarketMsg::Mint { collection: self.collection, token_id: tok, owner: sender }]
        }
    }
}

impl Market {
    /// How many asks were ever created; zero before the first.
    pub fn ask_count(&self) -> (r: u32)
        ensures
            r == self.asks_made(),
    {
        match self.ask_count {
            Some(c) => c,
            None => 0,
        }
    }

    /// Counts one more ask and answers the new count, the id of that ask.
    pub fn increment_asks(&mut self) -> (r: u32)
        requires
            old(self).asks_made() < u32::MAX,
        ensures
            r == old(self).asks_made() + 1,
            *final(self) == (Market { ask_count: Some(r), ..*old(self) }),
            old(self).wf() ==> final(self).wf(),
    {
        proof {
            if old(self).wf() {
                crate::market::lemma_ids_fit_shrink(self.asks@, self.cooldowns@, crate::market::count_of(self.ask_count),
                    self.asks@, self.cooldowns@, self.asks_made() + 1);
            }
        }
        let val = self.ask_count() + 1;
        self.ask_count = Some(val);
        val
    }

    /// Counts one ask less and answers the new count.
    pub fn decrement_asks(&mut self) -> (r: u32)
        requires
            old(self).asks_made() >= 1,
        ensures
            r == old(self).asks_made() - 1,
            *final(self) == (Market { ask_count: Some(r), ..*old(self) }),
    {
        let val = self.ask_count() - 1;
        self.ask_count = Some(val);
        val
    }
}

impl Market {
    /// Lists `token_id` for `seller` under the next ask id and tells the ask
    /// hooks. `operator` is the collection's answer to whether the marketplace
    /// may transfer the seller's tokens; listing is refused without it.
    pub fn execute_set_ask(&mut self, token_id: &String, seller: &String, operator: Result<(), String>) -> (r: Result<Vec<MarketMsg>, MarketError>)
        requires
            old(self).wf(),
            operator is Ok ==> old(self).asks_made() < u32::MAX,
        ensures
            final(self).wf(),
            operator is Err ==> (r matches Err(MarketError::Std(_))) && *final(self) == *old(self),
            operator is Ok ==> r is Ok,
            r matches Ok(msgs) ==> {
                let ask = Ask { token_id: *token_id, id: (old(self).asks_made() + 1) as u32, seller: *seller };
                &&& final(self).asks@ == asks_put(old(self).asks@, ask)
                &&& final(self).ask_count == Some(ask.id)
                &&& msgs@ == ask_hook_msgs(hooks_of(old(self).ask_hooks), ask, HookAction::Create)
                &&& *final(self) == (Market { asks: final(self).asks, ask_count: final(self).ask_count, ..*old(self) })
            },
    {
        if let Err(e) = operator {
            return Err(MarketError::Std(e));
        }
        let id = self.increment_asks();
        let ask = Ask { token_id: token_id.clone(), id, seller: seller.clone() };
        self.store_ask(ask.clone());
        let hooks = hook_list(&self.ask_hooks);
        Ok(prepare_ask_hook(&hooks, &ask, HookAction::Create))
    }

    /// Mints the account `account` (trimmed of surrounding white space) to the
    /// sender and lists it: minting must be open, the name valid, the price
    /// paid in full and the sender's stake (`delegations`, as the chain reports
    /// it) large enough; `operator` is the collection's answer to whether the
    /// marketplace may transfer the sender's tokens. The price is burnt. The
    /// ask hooks are not told of this listing.
    pub fn execute_mint_and_list(&mut self, sender: &String, funds: &Vec<Coin>, now: u64, account: &str,
        delegations: Result<Vec<u128>, String>, operator: Result<(), String>) -> (r: Result<(Vec<MarketMsg>, Event), MarketError>)
        requires
            old(self).wf(),
            forall|n: Seq<char>| trimmed(account@, n) ==> old(self).mint_fits(now, n, funds@, delegations, operator),
        ensures
            final(self).wf(),
            exists|n: Seq<char>| trimmed(account@, n) && old(self).mint_outcome(*final(self), *sender, funds@, now, n,
                delegations, operator, msgs_of(r)) && (r matches Ok((_, ev)) ==> mint_event(ev, n, sender@,
                    name_price(byte_len(n), old(self).params.base_price)->0 as u128)),
    {
        let name = trim_name(account);
        proof {
            assert(trimmed(account@, name@));
        }
        self.mint_and_list_name(sender, funds, now, &name, delegations, operator)
    }

    /// Whether minting and listing `account` with these answers stays within
    /// the bounds that `execute_mint_and_list` requires.
    pub fn mint_fits_check(&self, now: u64, account: &str, funds: &Vec<Coin>, delegations: &Result<Vec<u128>, String>,
        operator: &Result<(), String>) -> (r: bool)
        ensures
            r <==> forall|n: Seq<char>| trimmed(account@, n) ==> self.mint_fits(now, n, funds@, *delegations, *operator),
    {
        let name = trim_name(account);
        proof {
            assert forall|n: Seq<char>| trimmed(account@, n) implies n == name@ by {
                crate::account_name::lemma_trimmed_unique(account@, n, name@);
            }
        }
        let p = &self.params;
        if self.paused || now < self.public_mint_start_time {
            return true;
        }
        if validate_account(name.as_str(), p.min_account_length, p.max_account_length).is_err() {
            return true;
        }
        let len = str_byte_len(name.as_str());
        if (len == 3 && p.base_price > u128::MAX / 100) || (len == 4 && p.base_price > u128::MAX / 10) {
            return false;
        }
        match validate_payment(len, funds, p.base_price) {
            Ok(_) => {},
            Err(_) => return true,
        }
        if (len == 3 && p.base_delegation > u128::MAX / 5) || (len == 4 && p.base_delegation > u128::MAX / 3) {
            return false;
        }
        let required: u128 = if len == 3 {
            p.base_delegation * 5
        } else if len == 4 {
            p.base_delegation * 3
        } else {
            p.base_delegation
        };
        let sum = match delegations {
            Ok(d) => match crate::pricing::checked_total(d) {
                Some(t) => t,
                None => return false,
            },
            Err(_) => return true,
        };
        !(sum >= required && operator.is_ok() && self.ask_count() == u32::MAX)
    }

    /// Mints and lists the already trimmed name `name`.
    fn mint_and_list_name(&mut self, sender: &String, funds: &Vec<Coin>, now: u64, name: &String,
        delegations: Result<Vec<u128>, String>, operator: Result<(), String>) -> (r: Result<(Vec<MarketMsg>, Event), MarketError>)
        requires
            old(self).wf(),
            old(self).mint_fits(now, name@, funds@, delegations, operator),
        ensures
            final(self).wf(),
            old(self).mint_outcome(*final(self), *sender, funds@, now, name@, delegations, operator, msgs_of(r)),
            r matches Ok((_, ev)) ==> mint_event(ev, name@, sender@,
                name_price(byte_len(name@), old(self).params.base_price)->0 as u128),
    {
        if self.paused {
            return Err(MarketError::MintingPaused);
        }
        if now < self.public_mint_start_time {
            return Err(MarketError::MintingNotStarted);
        }
        match validate_account(name.as_str(), self.params.min_account_length, self.params.max_account_length) {
            Ok(()) => {},
            Err(e) => return Err(e),
        }
        let len = str_byte_len(name.as_str());
        let price = match validate_payment(len, funds, self.params.base_price) {
            Ok(p) => p,
            Err(e) => return Err(e),
        };
        let d = match delegations {
            Ok(d) => d,
            Err(e) => return Err(MarketError::Std(e)),
        };
        match validate_staking(&d, len, self.params.base_delegation) {
            Ok(()) => {},
            Err(e) => return Err(e),
        }
        let mut msgs: Vec<MarketMsg> = Vec::new();
        match &price {
            Some(c) => {
                if c.amount > 0 {
                    msgs.push(MarketMsg::Burn { amount: c.amount });
                }
            },
            None => {},
        }
        let ghost before = *self;
        match self.execute_set_ask(name, sender, operator) {
            Ok(_) => {},
            Err(e) => return Err(e),
        }
        msgs.push(MarketMsg::Mint { collection: self.collection.clone(), token_id: name.clone(), owner: sender.clone() });
        proof {
            let pr = name_price(byte_len(name@), old(self).params.base_price)->0;
            assert(pr > 0 <==> price is Some);
            assert(price matches Some(c) ==> c.amount == pr);
            assert(msgs@ =~= (if pr > 0 { seq![MarketMsg::Burn { amount: pr as u128 }] } else { Seq::empty() })
                + seq![MarketMsg::Mint { collection: old(self).collection, token_id: *name, owner: *sender }]);
            assert(self.asks@ == asks_put(before.asks@, Ask { token_id: *name, id: (before.asks_made() + 1) as u32, seller: *sender }));
        }
        let paid: u128 = match &price {
            Some(c) => c.amount,
            None => 0,
        };
        let ev = priced2("mint-and-list", "account", name, "owner", sender, "price", paid);
        Ok((msgs, ev))
    }

    /// Removes the position-`i` ask.
    pub fn drop_ask(&mut self, i: usize)
        requires
            old(self).wf(),
            i < old(self).asks@.len(),
        ensures
            final(self).wf(),
            *final(self) == (Market { asks: final(self).asks, ..*old(self) }),
            final(self).asks@ == old(self).asks@.remove(i as int),
    {
        self.asks.remove(i);
        proof {
            old(self).asks@.remove_ensures(i as int);
            assert forall|a: int, b: int| 0 <= a < self.asks@.len() && 0 <= b < self.asks@.len() && a != b
                implies self.asks@[a].token_id@ != self.asks@[b].token_id@ by {
                let a0 = if a < i { a } else { a + 1 };
                let b0 = if b < i { b } else { b + 1 };
                assert(self.asks@[a] == old(self).asks@[a0]);
                assert(self.asks@[b] == old(self).asks@[b0]);
            }
            assert forall|x: Ask| #[trigger] self.asks@.contains(x) implies old(self).asks@.contains(x) by {
                let j = choose|j: int| 0 <= j < self.asks@.len() && self.asks@[j] == x;
                let j0 = if j < i { j } else { j + 1 };
                assert(old(self).asks@[j0] == x);
            }
            crate::market::lemma_ids_fit_shrink(old(self).asks@, old(self).cooldowns@, crate::market::count_of(old(self).ask_count),
                self.asks@, self.cooldowns@, crate::market::count_of(self.ask_count));
        }
    }

    /// The collection removes the ask of a burnt token; refused while bids
    /// remain on it. The ask hooks are told.
    pub fn execute_remove_ask(&mut self, sender: &String, funds: &Vec<Coin>, token_id: &String) -> (r: Result<(Vec<MarketMsg>, Event), MarketError>)
        requires
            old(self).wf(),
        ensures
            final(self).wf(),
            r is Err ==> *final(self) == *old(self),
            funds@.len() != 0 ==> r == Err::<(Vec<MarketMsg>, Event), MarketError>(MarketError::Payment(PaymentError::NonPayable)),
            funds@.len() == 0 && sender@ != old(self).collection@ ==> r == Err::<(Vec<MarketMsg>, Event), MarketError>(MarketError::Unauthorized),
            funds@.len() == 0 && sender@ == old(self).collection@ && has_bid_on(old(self).bids@, token_id@)
                ==> r == Err::<(Vec<MarketMsg>, Event), MarketError>(MarketError::ExistingBids),
            funds@.len() == 0 && sender@ == old(self).collection@ && !has_bid_on(old(self).bids@, token_id@)
                && ask_idx(old(self).asks@, token_id@) < 0 ==> (r matches Err(MarketError::Std(_))),
            funds@.len() == 0 && sender@ == old(self).collection@ && !has_bid_on(old(self).bids@, token_id@)
                && ask_idx(old(self).asks@, token_id@) >= 0 ==> r is Ok,
            r matches Ok((msgs, ev)) ==> {
                let i = ask_idx(old(self).asks@, token_id@);
                &&& texts_event(ev, "remove-ask"@, seq![("token_id"@, token_id@)])
                &&& final(self).asks@ == old(self).asks@.remove(i)
                &&& msgs@ == ask_hook_msgs(hooks_of(old(self).ask_hooks), old(self).asks@[i], HookAction::Delete)
                &&& *final(self) == (Market { asks: final(self).asks, ..*old(self) })
            },
    {
        if let Err(e) = nonpayable(funds) {
            return Err(MarketError::Payment(e));
        }
        if !(*sender == self.collection) {
            return Err(MarketError::Unauthorized);
        }
        if self.any_bid_on(token_id) {
            return Err(MarketError::ExistingBids);
        }
        let i = match self.find_ask(token_id) {
            Some(i) => i,
            None => return Err(MarketError::Std(String::from_str("ask not found"))),
        };
        let ask = self.asks[i].clone();
        self.drop_ask(i);
        let hooks = hook_list(&self.ask_hooks);
        Ok((prepare_ask_hook(&hooks, &ask, HookAction::Delete), event1("remove-ask", "token_id", token_id)))
    }

    /// The collection reports a transfer of `token_id` to `seller`: the ask
    /// changes hands and every bid on the token is refunded.
    pub fn execute_update_ask(&mut self, sender: &String, token_id: &String, seller: &String) -> (r: Result<(Vec<MarketMsg>, Event), MarketError>)
        requires
            old(self).wf(),
        ensures
            final(self).wf(),
            r is Err ==> *final(self) == *old(self),
            sender@ != old(self).collection@ ==> r == Err::<(Vec<MarketMsg>, Event), MarketError>(MarketError::Unauthorized),
            sender@ == old(self).collection@ && ask_idx(old(self).asks@, token_id@) < 0 ==> (r matches Err(MarketError::Std(_))),
            sender@ == old(self).collection@ && ask_idx(old(self).asks@, token_id@) >= 0 ==> r is Ok,
            r matches Ok((msgs, ev)) ==> {
                let i = ask_idx(old(self).asks@, token_id@);
                let a = old(self).asks@[i];
                &&& texts_event(ev, "update-ask"@, seq![("token_id"@, token_id@), ("seller"@, seller@)])
                &&& final(self).asks@ == old(self).asks@.update(i, Ask { token_id: a.token_id, id: a.id, seller: *seller })
                &&& exists|keys: Seq<crate::types::BidKey>| by_price(old(self).bids@, token_id@, keys)
                    && removal_done(Market { asks: final(self).asks, ..*old(self) }, *final(self), keys, token_id@, msgs@)
            },
    {
        if !(*sender == self.collection) {
            return Err(MarketError::Unauthorized);
        }
        let i = match self.find_ask(token_id) {
            Some(i) => i,
            None => return Err(MarketError::Std(String::from_str("ask not found"))),
        };
        let a = &self.asks[i];
        let ask = Ask { token_id: a.token_id.clone(), id: a.id, seller: seller.clone() };
        proof {
            assert(self.asks@.contains(self.asks@[i as int]));
            crate::market::lemma_id_fits_same(self.asks@, self.cooldowns@, crate::market::count_of(self.ask_count),
                self.asks@[i as int], self.asks@, self.cooldowns@, ask);
        }
        self.store_ask(ask);
        proof {
            assert(ask_idx(old(self).asks@, ask.token_id@) == i);
            assert(self.asks@ =~= old(self).asks@.update(i as int, ask));
        }
        let msgs = self.refund_all_bids(token_id);
        Ok((msgs, event2("update-ask", "token_id", token_id, "seller", seller)))
    }
}

} // verus!
