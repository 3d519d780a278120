//! Setting up the marketplace and its administrative messages: pausing,
//! the mint start time, hooks, and the parameters governance sets.
use vstd::prelude::*;
use crate::events::{event1, texts_event, Event};
use crate::errors::{MarketError, OwnershipError};
use crate::market::{has_hook, hook_list, hooks_distinct, hooks_of, Market, MarketMsg, MarketParams, MAX_FEE_BPS};
use crate::pricing::{fee_rate_from_bps, fee_rate_of_bps};
use crate::types::{plus_seconds, Coin};

verus! {

broadcast use vstd::seq_lib::group_seq_properties;

/// What the marketplace is instantiated with.
#[derive(Debug)]
pub struct MarketInit {
    pub verifier: Option<String>,
    pub collection_code_id: u64,
    pub min_account_length: u32,
    pub max_account_length: u32,
    pub base_price: u128,
    pub base_delegation: u128,
    pub trading_fee_bps: u64,
    pub min_price: u128,
    pub ask_interval: u64,
    pub valid_bid_query_limit: u32,
    pub cooldown_timeframe: u64,
    pub cooldown_cancel_fee: Coin,
    /// The marketplace's owner; the sender when none is given.
    pub admin: Option<String>,
    pub hooks_admin: Option<String>,
    /// Seconds from instantiation until public minting opens; one by default.
    pub mint_start_delay: Option<u64>,
}

/// A change to one of the hook lists.
#[derive(Debug, PartialEq, Eq)]
pub enum ManageHooksAction {
    AddSaleHook(String),
    RemoveSaleHook(String),
    AddAskHook(String),
    RemoveAskHook(String),
    AddBidHook(String),
    RemoveBidHook(String),
}

/// The parameters `p` with each given value in place of the old one; a fee
/// in basis points becomes the rate `Decimal::percent(bps) / 100`.
pub open spec fn updated_params(p: MarketParams, min_account_length: Option<u32>, max_account_length: Option<u32>,
    base_price: Option<u128>, base_delegation: Option<u128>, trading_fee_bps: Option<u64>,
    min_price: Option<u128>, ask_interval: Option<u64>, cooldown_duration: Option<u64>,
    cooldown_cancel_fee: Option<Coin>) -> MarketParams {
    MarketParams {
        min_account_length: match min_account_length { Some(v) => v, None => p.min_account_length },
        max_account_length: match max_account_length { Some(v) => v, None => p.max_account_length },
        base_price: match base_price { Some(v) => v, None => p.base_price },
        base_delegation: match base_delegation { Some(v) => v, None => p.base_delegation },
        trading_fee_rate: match trading_fee_bps { Some(v) => fee_rate_of_bps(v) as u128, None => p.trading_fee_rate },
        min_price: match min_price { Some(v) => v, None => p.min_price },
        ask_interval: match ask_interval { Some(v) => v, None => p.ask_interval },
        valid_bid_query_limit: p.valid_bid_query_limit,
        cooldown_duration: match cooldown_duration { Some(v) => v, None => p.cooldown_duration },
        cooldown_fee: match cooldown_cancel_fee { Some(v) => v, None => p.cooldown_fee },
        hooks_admin: p.hooks_admin,
    }
}

/// The governance messages of the marketplace.
#[derive(Debug, PartialEq, Eq)]
pub enum SudoMsg {
    UpdateParams {
        min_account_length: Option<u32>,
        max_account_length: Option<u32>,
        base_price: Option<u128>,
        base_delegation: Option<u128>,
        trading_fee_bps: Option<u64>,
        min_price: Option<u128>,
        ask_interval: Option<u64>,
        cooldown_duration: Option<u64>,
        cooldown_cancel_fee: Option<Coin>,
    },
    /// Points the marketplace at `collection` (an address already validated).
    UpdateAccountCollection { collection: String },
}

/// A fresh marketplace: not paused, with no asks, bids, pending sales or
/// hooks, minting open `delay` seconds after `now`.
pub open spec fn instantiated(m: Market, sender: String, now: u64, collection: String, init: MarketInit, dao: String) -> bool {
    &&& !m.paused
    &&& m.public_mint_start_time == now + (match init.mint_start_delay { Some(d) => d, None => 1 }) * 1_000_000_000
    &&& m.collection == collection
    &&& m.asks@.len() == 0 && m.ask_count is None && m.bids@.len() == 0
    &&& m.cooldowns@.len() == 0 && m.overflow@.len() == 0
    &&& m.ask_hooks is None && m.bid_hooks is None && m.sale_hooks is None
    &&& m.deployment_dao == dao
    &&& m.params.min_account_length == init.min_account_length
    &&& m.params.max_account_length == init.max_account_length
    &&& m.params.base_price == init.base_price
    &&& m.params.base_delegation == init.base_delegation
    &&& m.params.trading_fee_rate == fee_rate_of_bps(init.trading_fee_bps)
    &&& m.params.min_price == init.min_price
    &&& m.params.ask_interval == init.ask_interval
    &&& m.params.valid_bid_query_limit == init.valid_bid_query_limit
    &&& m.params.cooldown_duration == init.cooldown_timeframe
    &&& m.params.cooldown_fee == init.cooldown_cancel_fee
    &&& m.params.hooks_admin == (match init.hooks_admin { Some(h) => h, None => sender })
}

impl Market {
    /// Sets up the marketplace. `contract` is its own address and `collection`
    /// the address at which the account collection will be instantiated (it
    /// is derived from the collection code and the block height). The one
    /// message instantiates that collection with the marketplace as minter and
    /// the sender as admin, forwarding `funds`. The third part of the result
    /// is the owner to set up: `init.admin`, or the sender. Refused when the
    /// trading fee exceeds 100%.
    pub fn instantiate(sender: String, contract: String, now: u64, funds: Vec<Coin>, collection: String,
        init: MarketInit, deployment_dao: String) -> (r: Result<(Market, Vec<MarketMsg>, String), MarketError>)
        requires
            now + (match init.mint_start_delay { Some(d) => d, None => 1 }) * 1_000_000_000 <= u64::MAX,
        ensures
            init.trading_fee_bps > MAX_FEE_BPS <==> r == Err::<(Market, Vec<MarketMsg>, String), MarketError>(
                MarketError::InvalidTradingFeeBps(init.trading_fee_bps)),
            init.trading_fee_bps <= MAX_FEE_BPS ==> r is Ok,
            r matches Ok((m, msgs, owner)) ==> {
                &&& owner == (match init.admin { Some(a) => a, None => sender })
                &&& instantiated(m, sender, now, collection, init, deployment_dao)
                &&& m.wf()
                &&& msgs@ == seq![MarketMsg::InstantiateCollection {
                    code_id: init.collection_code_id,
                    admin: sender,
                    minter: contract,
                    verifier: init.verifier,
                    funds,
                }]
            },
    {
        let rate = fee_rate_from_bps(init.trading_fee_bps);
        let delay = match init.mint_start_delay {
            Some(d) => d,
            None => 1,
        };
        let start = plus_seconds(now, delay);
        if init.trading_fee_bps > MAX_FEE_BPS {
            return Err(MarketError::InvalidTradingFeeBps(init.trading_fee_bps));
        }
        let owner = match init.admin {
            Some(a) => a,
            None => sender.clone(),
        };
        let hooks_admin = match init.hooks_admin {
            Some(h) => h,
            None => sender.clone(),
        };
        let params = MarketParams {
            min_account_length: init.min_account_length,
            max_account_length: init.max_account_length,
            base_price: init.base_price,
            base_delegation: init.base_delegation,
            trading_fee_rate: rate,
            min_price: init.min_price,
            ask_interval: init.ask_interval,
            valid_bid_query_limit: init.valid_bid_query_limit,
            cooldown_duration: init.cooldown_timeframe,
            cooldown_fee: init.cooldown_cancel_fee,
            hooks_admin,
        };
        let m = Market {
            paused: false,
            public_mint_start_time: start,
            params,
            collection,
            asks: Vec::new(),
            ask_count: None,
            bids: Vec::new(),
            cooldowns: Vec::new(),
            overflow: Vec::new(),
            ask_hooks: None,
            bid_hooks: None,
            sale_hooks: None,
            deployment_dao,
        };
        let mut msgs: Vec<MarketMsg> = Vec::new();
        msgs.push(MarketMsg::InstantiateCollection {
            code_id: init.collection_code_id,
            admin: sender,
            minter: contract,
            verifier: init.verifier,
            funds,
        });
        proof {
            assert(fee_rate_of_bps(init.trading_fee_bps) <= fee_rate_of_bps(MAX_FEE_BPS));
        }
        Ok((m, msgs, owner))
    }

    /// Pauses or resumes minting; only the admin may (`owner_check` is the
    /// answer of the ownership check for the sender).
    pub fn execute_pause(&mut self, owner_check: Result<(), OwnershipError>, pause: bool) -> (r: Result<Event, MarketError>)
        ensures
            owner_check matches Err(e) ==> r == Err::<Event, MarketError>(MarketError::Ownership(e)) && *final(self) == *old(self),
            owner_check is Ok ==> r is Ok && final(self).paused == pause
                && *final(self) == (Market { paused: pause, ..*old(self) }),
            r matches Ok(ev) ==> texts_event(ev, "pause"@, seq![("pause"@, if pause { "true"@ } else { "false"@ })]),
    {
        match owner_check {
            Err(e) => return Err(MarketError::Ownership(e)),
            Ok(()) => {},
        }
        self.paused = pause;
        let shown = if pause { "true".to_owned() } else { "false".to_owned() };
        Ok(event1("pause", "pause", &shown))
    }

    /// Moves the start of public minting; only the admin may, and not to a
    /// time before the current block (`now`).
    pub fn execute_update_config(&mut self, sender: &String, owner_check: Result<(), OwnershipError>, now: u64,
        public_mint_start_time: u64) -> (r: Result<Event, MarketError>)
        ensures
            owner_check matches Err(e) ==> r == Err::<Event, MarketError>(MarketError::Ownership(e)),
            owner_check is Ok && now > public_mint_start_time ==> r == Err::<Event, MarketError>(
                MarketError::InvalidTradingStartTime(now, public_mint_start_time)),
            r matches Ok(ev) ==> texts_event(ev, "update-config"@, seq![("address"@, sender@)]),
            r is Err ==> *final(self) == *old(self),
            owner_check is Ok && now <= public_mint_start_time ==> r is Ok
                && *final(self) == (Market { public_mint_start_time, ..*old(self) }),
    {
        match owner_check {
            Err(e) => return Err(MarketError::Ownership(e)),
            Ok(()) => {},
        }
        if now > public_mint_start_time {
            return Err(MarketError::InvalidTradingStartTime(now, public_mint_start_time));
        }
        self.public_mint_start_time = public_mint_start_time;
        Ok(event1("update-config", "address", sender))
    }

    /// Governance changes any of the parameters; a trading fee above 100% is
    /// refused with nothing changed. A fee in basis points becomes the rate
    /// `Decimal::percent(bps) / 100`.
    pub fn sudo_update_params(&mut self, min_account_length: Option<u32>, max_account_length: Option<u32>,
        base_price: Option<u128>, base_delegation: Option<u128>, trading_fee_bps: Option<u64>,
        min_price: Option<u128>, ask_interval: Option<u64>, cooldown_duration: Option<u64>,
        cooldown_cancel_fee: Option<Coin>) -> (r: Result<(), MarketError>)
        requires
            old(self).wf(),
        ensures
            final(self).wf(),
            (trading_fee_bps matches Some(b) && b > MAX_FEE_BPS) <==> r is Err,
            r matches Err(e) ==> e == MarketError::InvalidTradingFeeBps(trading_fee_bps->0) && *final(self) == *old(self),
            r is Ok ==> *final(self) == (Market {
                params: updated_params(old(self).params, min_account_length, max_account_length, base_price,
                    base_delegation, trading_fee_bps, min_price, ask_interval, cooldown_duration, cooldown_cancel_fee),
                ..*old(self)
            }),
    {
        if let Some(bps) = trading_fee_bps {
            if bps > MAX_FEE_BPS {
                return Err(MarketError::InvalidTradingFeeBps(bps));
            }
        }
        if let Some(v) = ask_interval { self.params.ask_interval = v; }
        if let Some(v) = base_delegation { self.params.base_delegation = v; }
        if let Some(v) = base_price { self.params.base_price = v; }
        if let Some(v) = cooldown_duration { self.params.cooldown_duration = v; }
        if let Some(v) = cooldown_cancel_fee { self.params.cooldown_fee = v; }
        if let Some(v) = min_price { self.params.min_price = v; }
        if let Some(v) = max_account_length { self.params.max_account_length = v; }
        if let Some(v) = min_account_length { self.params.min_account_length = v; }
        if let Some(bps) = trading_fee_bps {
            self.params.trading_fee_rate = fee_rate_from_bps(bps);
        }
        Ok(())
    }

    /// Governance points the marketplace at another collection.
    pub fn sudo_update_account_collection(&mut self, collection: String)
        ensures
            *final(self) == (Market { collection, ..*old(self) }),
    {
        self.collection = collection;
    }

    /// Handles a governance message.
    pub fn sudo(&mut self, msg: SudoMsg) -> (r: Result<(), MarketError>)
        requires
            old(self).wf(),
        ensures
            final(self).wf(),
            match msg {
                SudoMsg::UpdateParams { min_account_length, max_account_length, base_price, base_delegation,
                    trading_fee_bps, min_price, ask_interval, cooldown_duration, cooldown_cancel_fee } => {
                    &&& (trading_fee_bps matches Some(b) && b > MAX_FEE_BPS) <==> r is Err
                    &&& r matches Err(e) ==> e == MarketError::InvalidTradingFeeBps(trading_fee_bps->0) && *final(self) == *old(self)
                    &&& r is Ok ==> *final(self) == (Market {
                        params: updated_params(old(self).params, min_account_length, max_account_length, base_price,
                            base_delegation, trading_fee_bps, min_price, ask_interval, cooldown_duration, cooldown_cancel_fee),
                        ..*old(self)
                    })
                },
                SudoMsg::UpdateAccountCollection { collection } => r is Ok && *final(self) == (Market { collection, ..*old(self) }),
            },
    {
        match msg {
            SudoMsg::UpdateParams { min_account_length, max_account_length, base_price, base_delegation,
                trading_fee_bps, min_price, ask_interval, cooldown_duration, cooldown_cancel_fee } => {
                self.sudo_update_params(min_account_length, max_account_length, base_price, base_delegation,
                    trading_fee_bps, min_price, ask_interval, cooldown_duration, cooldown_cancel_fee)
            },
            SudoMsg::UpdateAccountCollection { collection } => {
                self.sudo_update_account_collection(collection);
                Ok(())
            },
        }
    }

    /// Adds or removes a hook; only the hooks admin may. `hook_valid` says
    /// whether the hook is a valid address. Adding a hook already present is
    /// refused (`HookAlreadyRegistered`), as is removing one absent
    /// (`HookNotRegistered`, or a not-found error when the list was never made).
    pub fn manage_hooks(&mut self, sender: &String, action: ManageHooksAction, hook_valid: bool) -> (r: Result<(), MarketError>)
        requires
            old(self).wf(),
        ensures
            final(self).wf(),
            sender@ != old(self).params.hooks_admin@ ==> r == Err::<(), MarketError>(MarketError::UnauthorizedMinter),
            sender@ == old(self).params.hooks_admin@ && !hook_valid ==> r matches Err(MarketError::Std(_)),
            r is Err ==> *final(self) == *old(self),
            r is Ok ==> sender@ == old(self).params.hooks_admin@ && hook_valid,
            sender@ == old(self).params.hooks_admin@ && hook_valid ==> match action {
                ManageHooksAction::AddSaleHook(h) => hook_added(old(self).sale_hooks, h, final(self).sale_hooks, r)
                    && final(self).ask_hooks == old(self).ask_hooks && final(self).bid_hooks == old(self).bid_hooks,
                ManageHooksAction::RemoveSaleHook(h) => hook_removed(old(self).sale_hooks, h, final(self).sale_hooks, r)
                    && final(self).ask_hooks == old(self).ask_hooks && final(self).bid_hooks == old(self).bid_hooks,
                ManageHooksAction::AddAskHook(h) => hook_added(old(self).ask_hooks, h, final(self).ask_hooks, r)
                    && final(self).sale_hooks == old(self).sale_hooks && final(self).bid_hooks == old(self).bid_hooks,
                ManageHooksAction::RemoveAskHook(h) => hook_removed(old(self).ask_hooks, h, final(self).ask_hooks, r)
                    && final(self).sale_hooks == old(self).sale_hooks && final(self).bid_hooks == old(self).bid_hooks,
                ManageHooksAction::AddBidHook(h) => hook_added(old(self).bid_hooks, h, final(self).bid_hooks, r)
                    && final(self).sale_hooks == old(self).sale_hooks && final(self).ask_hooks == old(self).ask_hooks,
                ManageHooksAction::RemoveBidHook(h) => hook_removed(old(self).bid_hooks, h, final(self).bid_hooks, r)
                    && final(self).sale_hooks == old(self).sale_hooks && final(self).ask_hooks == old(self).ask_hooks,
            },
            r is Ok ==> final(self).asks == old(self).asks && final(self).bids == old(self).bids
                && final(self).cooldowns == old(self).cooldowns && final(self).overflow == old(self).overflow
                && final(self).params == old(self).params && final(self).collection == old(self).collection,
    {
        if !(*sender == self.params.hooks_admin) {
            return Err(MarketError::UnauthorizedMinter);
        }
        if !hook_valid {
            return Err(MarketError::Std(String::from_str("invalid hook address")));
        }
        match action {
            ManageHooksAction::AddSaleHook(h) => add_hook(&mut self.sale_hooks, h),
            ManageHooksAction::RemoveSaleHook(h) => remove_hook(&mut self.sale_hooks, &h),
            ManageHooksAction::AddAskHook(h) => add_hook(&mut self.ask_hooks, h),
            ManageHooksAction::RemoveAskHook(h) => remove_hook(&mut self.ask_hooks, &h),
            ManageHooksAction::AddBidHook(h) => add_hook(&mut self.bid_hooks, h),
            ManageHooksAction::RemoveBidHook(h) => remove_hook(&mut self.bid_hooks, &h),
        }
    }
}

/// `hook` was added at the end of the list, or refused as already present.
pub open spec fn hook_added(before: Option<Vec<String>>, hook: String, after: Option<Vec<String>>, r: Result<(), MarketError>) -> bool {
    if has_hook(hooks_of(before), hook@) {
        r == Err::<(), MarketError>(MarketError::HookAlreadyRegistered) && after == before
    } else {
        r is Ok && after is Some && hooks_of(after) == hooks_of(before).push(hook)
    }
}

/// The first (only) occurrence of `hook` was removed, or the removal refused.
pub open spec fn hook_removed(before: Option<Vec<String>>, hook: String, after: Option<Vec<String>>, r: Result<(), MarketError>) -> bool {
    match before {
        None => r matches Err(MarketError::Std(_)) && after == before,
        Some(h) => if has_hook(h@, hook@) {
            r is Ok && after is Some && exists|p: int| 0 <= p < h@.len() && h@[p]@ == hook@
                && hooks_of(after) == h@.remove(p)
        } else {
            r == Err::<(), MarketError>(MarketError::HookNotRegistered) && after == before
        },
    }
}

/// Adds `hook` to a hook list unless present.
pub fn add_hook(hooks: &mut Option<Vec<String>>, hook: String) -> (r: Result<(), MarketError>)
    requires
        hooks_distinct(hooks_of(*old(hooks))),
    ensures
        hooks_distinct(hooks_of(*final(hooks))),
        hook_added(*old(hooks), hook, *final(hooks), r),
{
    let mut list = hook_list(hooks);
    let n = list.len();
    for i in 0..n
        invariant
            n == list@.len(),
            list@ == hooks_of(*hooks),
            *hooks == *old(hooks),
            hooks_distinct(hooks_of(*old(hooks))),
            forall|j: int| 0 <= j < i ==> list@[j]@ != hook@,
    {
        if list[i] == hook {
            return Err(MarketError::HookAlreadyRegistered);
        }
    }
    list.push(hook);
    *hooks = Some(list);
    Ok(())
}

/// Removes `hook` from a hook list if present.
pub fn remove_hook(hooks: &mut Option<Vec<String>>, hook: &String) -> (r: Result<(), MarketError>)
    requires
        hooks_distinct(hooks_of(*old(hooks))),
    ensures
        hooks_distinct(hooks_of(*final(hooks))),
        hook_removed(*old(hooks), *hook, *final(hooks), r),
{
    if hooks.is_none() {
        return Err(MarketError::Std(String::from_str("hooks not found")));
    }
    let mut list = hook_list(hooks);
    let n = list.len();
    for i in 0..n
        invariant
            n == list@.len(),
            list@ == hooks_of(*hooks),
            *hooks is Some,
            *hooks == *old(hooks),
            hooks_distinct(hooks_of(*old(hooks))),
            forall|j: int| 0 <= j < i ==> list@[j]@ != hook@,
    {
        if list[i] == *hook {
            let ghost before = list@;
            list.remove(i);
            proof {
                before.remove_ensures(i as int);
                assert forall|a: int, b: int| 0 <= a < list@.len() && 0 <= b < list@.len() && a != b
                    implies list@[a]@ != list@[b]@ by {
                    let a0 = if a < i { a } else { a + 1 };
                    let b0 = if b < i { b } else { b + 1 };
                    assert(list@[a] == before[a0]);
                    assert(list@[b] == before[b0]);
                }
            }
            *hooks = Some(list);
            return Ok(());
        }
    }
    Err(MarketError::HookNotRegistered)
}

} // verus!
