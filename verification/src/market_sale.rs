//! The end of an accepted bid: cancelling its cooldown, or finalizing the
//! sale once the cooldown is over.
use vstd::prelude::*;
use crate::collection_links::{governed_by, is_governed_by};
use crate::ownership_verifier::Governance;
use crate::events::{priced3, priced_event, Event};
use crate::errors::MarketError;
use crate::funds::{lemma_must_pay, must_pay, must_pay_result, pays_in, PaymentError};
use crate::market::{cooldown_idx, hooks_of, hook_list, prepare_sale_hook, append_msgs, sale_hook_msgs,
    Market, MarketMsg};
use crate::market_bids::{by_price, removal_done};
use crate::market_trade::{asks_put, payout_msgs};
use crate::pricing::{fee_from_rate, fee_of, lemma_fee_within};
use crate::types::{Ask, BlockInfo, Coin, Expiration, NftInfo, PendingBid, NATIVE_DENOM};

verus! {

/// The messages that refund a cancelled cooldown: the buyer gets the bid back
/// with the fee less the developers' half, the developers get their half.
pub open spec fn cancel_msgs(amount: u128, fee: u128, new_owner: String, dao: String) -> Seq<MarketMsg> {
    seq![
        MarketMsg::Send { to: new_owner, amount: (amount + (fee - fee / 2)) as u128 },
        MarketMsg::Send { to: dao, amount: (fee / 2) as u128 },
    ]
}

/// Whether the marketplace must approve itself again before transferring: the
/// collection reported no approval, or one that has lapsed.
pub open spec fn needs_approval(approval: Result<Expiration, String>, block: BlockInfo) -> bool {
    match approval {
        Ok(e) => e.spec_is_expired(block),
        Err(_) => true,
    }
}

/// Who is paid for a finalized sale: the seller, unless the token keys an
/// abstract account that no longer names it as its owner, in which case the
/// buyer is refunded.
pub open spec fn sale_payee(seller: String, buyer: String, token: NftInfo, aa_owner: Result<Governance, String>,
    collection: Seq<char>, token_id: Seq<char>) -> String {
    let keyed = token.token_uri is Some && governed_by(aa_owner, collection, token_id);
    if token.extension.account_ownership && !keyed { buyer } else { seller }
}

/// Pays out a sale of `price` to `recipient`: the fee at `rate` (`Decimal`
/// atomics) is burnt and the rest paid. Refused when the fee would exceed the
/// price.
pub fn payout(price: u128, rate: u128, recipient: &String) -> (r: Result<Vec<MarketMsg>, MarketError>)
    requires
        fee_of(price, rate) <= u128::MAX,
    ensures
        fee_of(price, rate) > price ==> (r matches Err(MarketError::Std(_))),
        fee_of(price, rate) <= price ==> (r matches Ok(m) && m@ == payout_msgs(price, rate, *recipient)),
{
    let fee = fee_from_rate(price, rate);
    if fee > price {
        return Err(MarketError::Std(String::from_str("Fees exceed payment")));
    }
    let mut msgs: Vec<MarketMsg> = Vec::new();
    if fee > 0 {
        msgs.push(MarketMsg::Burn { amount: fee });
    }
    msgs.push(MarketMsg::Send { to: recipient.clone(), amount: price - fee });
    proof {
        assert(msgs@ =~= payout_msgs(price, rate, *recipient));
    }
    Ok(msgs)
}

impl Market {
    /// Completes the sale of `ask` to `buyer` at `price`: the payout to the
    /// ask's seller, the transfer of the token, and the sale hooks.
    pub fn finalize_sale(&self, ask: &Ask, price: u128, buyer: &String) -> (r: Result<Vec<MarketMsg>, MarketError>)
        requires
            fee_of(price, self.params.trading_fee_rate) <= u128::MAX,
        ensures
            fee_of(price, self.params.trading_fee_rate) > price ==> (r matches Err(MarketError::Std(_))),
            fee_of(price, self.params.trading_fee_rate) <= price ==> (r matches Ok(m)
                && m@ == payout_msgs(price, self.params.trading_fee_rate, ask.seller)
                    + seq![MarketMsg::TransferNft { collection: self.collection, token_id: ask.token_id, recipient: *buyer }]
                    + sale_hook_msgs(hooks_of(self.sale_hooks), *ask, *buyer)),
    {
        let mut msgs = match payout(price, self.params.trading_fee_rate, &ask.seller) {
            Ok(m) => m,
            Err(e) => return Err(e),
        };
        msgs.push(MarketMsg::TransferNft { collection: self.collection.clone(), token_id: ask.token_id.clone(), recipient: buyer.clone() });
        let hooks = hook_list(&self.sale_hooks);
        let hook_msgs = prepare_sale_hook(&hooks, ask, buyer);
        append_msgs(&mut msgs, hook_msgs);
        Ok(msgs)
    }

    /// The seller of a token whose accepted bid is in cooldown calls the sale
    /// off. While a cooldown is configured the seller must pay exactly the
    /// cancellation fee before the cooldown ends; the fee is split between the
    /// buyer (who also gets the bid back) and the developers. Without a
    /// cooldown the buyer just gets the bid back.
    pub fn execute_cancel_cooldown(&mut self, sender: &String, funds: &Vec<Coin>, now: u64, token_id: &String) -> (r: Result<Vec<MarketMsg>, MarketError>)
        requires
            old(self).wf(),
            ({
                let i = cooldown_idx(old(self).cooldowns@, token_id@);
                let p = old(self).cooldowns@[i];
                let fee = old(self).params.cooldown_fee.amount;
                i >= 0 && sender@ == p.ask.seller@ && old(self).params.cooldown_duration != 0
                    && pays_in(funds@, NATIVE_DENOM@) && funds@[0].amount == fee && now < p.unlock_time
                    ==> p.amount + (fee - fee / 2) <= u128::MAX
            }),
        ensures
            final(self).wf(),
            r is Err ==> *final(self) == *old(self),
            ({
                let i = cooldown_idx(old(self).cooldowns@, token_id@);
                let p = old(self).cooldowns@[i];
                let fee = old(self).params.cooldown_fee.amount;
                let charged = old(self).params.cooldown_duration != 0;
                &&& i < 0 ==> r == Err::<Vec<MarketMsg>, MarketError>(MarketError::AskNotFound)
                &&& i >= 0 && sender@ != p.ask.seller@ ==> r == Err::<Vec<MarketMsg>, MarketError>(MarketError::Unauthorized)
                &&& i >= 0 && sender@ == p.ask.seller@ && charged && !pays_in(funds@, NATIVE_DENOM@) ==> exists|e: PaymentError|
                    must_pay_result(funds@, NATIVE_DENOM@, Err(e)) && r == Err::<Vec<MarketMsg>, MarketError>(MarketError::Payment(e))
                &&& i >= 0 && sender@ == p.ask.seller@ && charged && pays_in(funds@, NATIVE_DENOM@) && funds@[0].amount != fee
                    ==> r == Err::<Vec<MarketMsg>, MarketError>(MarketError::IncorrectPayment { got: funds@[0].amount, expected: fee })
                &&& i >= 0 && sender@ == p.ask.seller@ && charged && pays_in(funds@, NATIVE_DENOM@) && funds@[0].amount == fee
                    && now >= p.unlock_time ==> r == Err::<Vec<MarketMsg>, MarketError>(MarketError::InvalidDuration)
                &&& i >= 0 && sender@ == p.ask.seller@ && (!charged || (pays_in(funds@, NATIVE_DENOM@) && funds@[0].amount == fee
                    && now < p.unlock_time)) ==> r is Ok
                &&& r matches Ok(msgs) ==> {
                    &&& final(self).cooldowns@ == old(self).cooldowns@.remove(i)
                    &&& *final(self) == (Market { cooldowns: final(self).cooldowns, ..*old(self) })
                    &&& msgs@ == (if charged {
                        cancel_msgs(p.amount, fee, p.new_owner, old(self).deployment_dao)
                    } else {
                        seq![MarketMsg::Send { to: p.new_owner, amount: p.amount }]
                    })
                }
            }),
    {
        let i = match self.find_cooldown(token_id) {
            Some(i) => i,
            None => return Err(MarketError::AskNotFound),
        };
        if !(*sender == self.cooldowns[i].ask.seller) {
            return Err(MarketError::Unauthorized);
        }
        let mut msgs: Vec<MarketMsg> = Vec::new();
        if self.params.cooldown_duration != 0 {
            let paid = must_pay(funds, NATIVE_DENOM);
            proof {
                lemma_must_pay(funds@, NATIVE_DENOM@, paid);
            }
            let payment = match paid {
                Ok(p) => p,
                Err(e) => return Err(MarketError::Payment(e)),
            };
            let fee = self.params.cooldown_fee.amount;
            if payment != fee {
                return Err(MarketError::IncorrectPayment { got: payment, expected: fee });
            }
            if now >= self.cooldowns[i].unlock_time {
                return Err(MarketError::InvalidDuration);
            }
            let dev_cut = fee / 2;
            msgs.push(MarketMsg::Send {
                to: self.cooldowns[i].new_owner.clone(),
                amount: self.cooldowns[i].amount + (fee - dev_cut),
            });
            msgs.push(MarketMsg::Send { to: self.deployment_dao.clone(), amount: dev_cut });
        } else {
            msgs.push(MarketMsg::Send { to: self.cooldowns[i].new_owner.clone(), amount: self.cooldowns[i].amount });
        }
        self.drop_cooldown(i);
        Ok(msgs)
    }

    /// Completes the sale of `token_id` once its cooldown is over: the
    /// marketplace re-approves itself if its approval lapsed, the fee is burnt
    /// and the rest paid out, the token goes to the buyer, the sale hooks are
    /// told, every other bid on the token is refunded and the token is listed
    /// again under its new owner. `approval` is the marketplace's approval as
    /// the collection reports it, `token` the token's info, and `aa_owner` the
    /// answer of the account at the token's associated address to the
    /// governance query: the token still keys it when that account is governed
    /// by this token of the collection. A token flagged as keying an abstract
    /// account but with no associated address keys none. When the token keys no
    /// such account any more, the buyer is refunded and still gets the token.
    pub fn execute_finalize_bid(&mut self, block: &BlockInfo, token_id: &String, approval: Result<Expiration, String>,
        token: Result<NftInfo, String>, aa_owner: Result<Governance, String>) -> (r: Result<(Vec<MarketMsg>, Event), MarketError>)
        requires
            old(self).wf(),
        ensures
            final(self).wf(),
            r is Err ==> *final(self) == *old(self),
            ({
                let i = cooldown_idx(old(self).cooldowns@, token_id@);
                let p = old(self).cooldowns@[i];
                &&& i < 0 ==> r == Err::<(Vec<MarketMsg>, Event), MarketError>(MarketError::AskNotFound)
                &&& i >= 0 && block.time < p.unlock_time ==> r == Err::<(Vec<MarketMsg>, Event), MarketError>(MarketError::InvalidDuration)
                &&& i >= 0 && block.time >= p.unlock_time && token is Err ==> (r matches Err(MarketError::Std(_)))
                &&& i >= 0 && block.time >= p.unlock_time && token is Ok ==> r is Ok
                &&& r matches Ok((msgs, ev)) ==> {
                    let payee = sale_payee(p.ask.seller, p.new_owner, token->Ok_0, aa_owner, old(self).collection@, token_id@);
                    let sold = Ask { token_id: p.ask.token_id, id: p.ask.id, seller: payee };
                    let head = (if needs_approval(approval, *block) {
                            seq![MarketMsg::ApproveAllViaMarket { collection: old(self).collection, owner: p.ask.seller }]
                        } else {
                            Seq::empty()
                        })
                        + payout_msgs(p.amount, old(self).params.trading_fee_rate, payee)
                        + seq![MarketMsg::TransferNft { collection: old(self).collection, token_id: p.ask.token_id, recipient: p.new_owner }]
                        + sale_hook_msgs(hooks_of(old(self).sale_hooks), sold, p.new_owner);
                    &&& priced_event(ev, "finalize-sale"@, seq![("token_id"@, p.ask.token_id@), ("seller"@, sale_payee(p.ask.seller, p.new_owner, token->Ok_0, aa_owner, old(self).collection@, token_id@)@), ("buyer"@, p.new_owner@)], "price"@, p.amount)
                    &&& final(self).asks@ == asks_put(old(self).asks@, Ask { token_id: *token_id, id: p.ask.id, seller: p.new_owner })
                    &&& msgs@.len() >= head.len() && msgs@.take(head.len() as int) == head
                    &&& exists|mid: Market, keys: Seq<crate::types::BidKey>|
                        #![trigger mid.cooldowns, by_price(old(self).bids@, token_id@, keys)]
                        mid == (Market { cooldowns: mid.cooldowns, ..*old(self) })
                        && mid.cooldowns@ == old(self).cooldowns@.remove(i)
                        && by_price(old(self).bids@, token_id@, keys)
                        && removal_done(mid, Market { asks: mid.asks, ..*final(self) }, keys, token_id@, msgs@.skip(head.len() as int))
                }
            }),
    {
        let i = match self.find_cooldown(token_id) {
            Some(i) => i,
            None => return Err(MarketError::AskNotFound),
        };
        if block.time < self.cooldowns[i].unlock_time {
            return Err(MarketError::InvalidDuration);
        }
        let mut msgs: Vec<MarketMsg> = Vec::new();
        let approve = match &approval {
            Ok(e) => e.is_expired(block),
            Err(_) => true,
        };
        if approve {
            msgs.push(MarketMsg::ApproveAllViaMarket {
                collection: self.collection.clone(),
                owner: self.cooldowns[i].ask.seller.clone(),
            });
        }
        let token = match token {
            Ok(t) => t,
            Err(e) => return Err(MarketError::Std(e)),
        };
        let p = &self.cooldowns[i];
        let keyed = token.token_uri.is_some() && is_governed_by(&aa_owner, &self.collection, token_id);
        let payee = if token.extension.account_ownership && !keyed { p.new_owner.clone() } else { p.ask.seller.clone() };
        let sold = Ask { token_id: p.ask.token_id.clone(), id: p.ask.id, seller: payee.clone() };
        let buyer = p.new_owner.clone();
        let price = p.amount;
        let ask_id = p.ask.id;
        let ev = priced3("finalize-sale", "token_id", &sold.token_id, "seller", &payee, "buyer", &buyer, "price", price);
        proof {
            lemma_fee_within(price, self.params.trading_fee_rate);
        }
        let sale = match self.finalize_sale(&sold, price, &buyer) {
            Ok(m) => m,
            Err(e) => {
                proof {
                    assert(false);
                }
                return Err(e);
            },
        };
        append_msgs(&mut msgs, sale);
        let ghost head = msgs@;
        self.drop_cooldown(i);
        let ghost mid = *self;
        let refunds = self.refund_all_bids(token_id);
        let ghost refunded = *self;
        append_msgs(&mut msgs, refunds);
        let resold = Ask { token_id: token_id.clone(), id: ask_id, seller: buyer };
        proof {
            let pa = old(self).cooldowns@[i as int];
            assert(old(self).cooldowns@.contains(pa));
            assert forall|x: PendingBid| #[trigger] self.cooldowns@.contains(x) implies old(self).cooldowns@.contains(x) by {
                assert(mid.cooldowns@.contains(x));
            }
            crate::market::lemma_id_fits_same(old(self).asks@, old(self).cooldowns@, crate::market::count_of(old(self).ask_count),
                pa.ask, self.asks@, self.cooldowns@, resold);
        }
        self.store_ask(resold);
        proof {
            assert(refunded == (Market { asks: mid.asks, ..*self }));
            assert(msgs@.take(head.len() as int) =~= head);
            assert(msgs@.skip(head.len() as int) =~= refunds@);
            let payout = payout_msgs(price, old(self).params.trading_fee_rate, payee);
            assert(head =~= (if needs_approval(approval, *block) {
                    seq![MarketMsg::ApproveAllViaMarket { collection: old(self).collection, owner: old(self).cooldowns@[i as int].ask.seller }]
                } else {
                    Seq::empty()
                }) + payout
                + seq![MarketMsg::TransferNft { collection: old(self).collection, token_id: old(self).cooldowns@[i as int].ask.token_id, recipient: buyer }]
                + sale_hook_msgs(hooks_of(old(self).sale_hooks), sold, buyer));
        }
        Ok((msgs, ev))
    }
}

} // verus!
