use std::collections::{HashMap, HashSet};

use terp_accounts::collection::{AccountMsg, Collection, SudoMsg};
use terp_accounts::collection_links::AddressFacts;
use terp_accounts::events::{AttrValue, Attribute, Event};
use terp_accounts::errors::{AccountError, MarketError, OwnershipError};
use terp_accounts::funds::PaymentError;
use terp_accounts::market::{Market, MarketMsg};
use terp_accounts::market_admin::MarketInit;
use terp_accounts::market_queries::BidOffset;
use terp_accounts::ownership_verifier::{ExecuteMsg as OwnerMsg, Governance, InstantiateMsg as OwnerInit, OwnershipVerifier, QueryMsg as OwnerQuery};
use terp_accounts::types::{BlockInfo, Coin, Expiration, Metadata, NftInfo, TextRecord};

const MARKET: &str = "terp1market";
const COLLECTION: &str = "terp1collection";
const DAO: &str = "terp1deploymentdao";
const ADMIN: &str = "terp1admin";
const VERIFIER: &str = "terp1verifier";
const BASE_PRICE: u128 = 100_000_000;
const BASE_DELEGATION: u128 = 2_100_000_000;
const BID_AMOUNT: u128 = 1_000_000_000;
const NANOS: u64 = 1_000_000_000;

fn coin(amount: u128, denom: &str) -> Coin {
    Coin { denom: denom.to_string(), amount }
}

fn s(x: &str) -> String {
    x.to_string()
}

fn text(key: &str, v: &str) -> Attribute {
    Attribute { key: s(key), value: AttrValue::Text(s(v)) }
}

fn amount(key: &str, v: u128) -> Attribute {
    Attribute { key: s(key), value: AttrValue::Amount(v) }
}

fn canon(addr: &str) -> String {
    format!("canon:{}", addr)
}

/// A contract deployed beside the marketplace: its name, admin and creator.
struct Contract {
    name: String,
    admin: Option<String>,
    creator: String,
    minter: Option<String>,
}

/// The marketplace, the collection and the bank they move funds through.
struct Suite {
    market: Market,
    coll: Collection,
    bank: HashMap<String, u128>,
    burnt: u128,
    time: u64,
    height: u64,
    delegations: HashMap<String, u128>,
    /// Operators approved through the base collection: (owner, operator).
    operators: HashSet<(String, String)>,
    /// Token approvals through the base collection: (token, spender).
    approvals: HashSet<(String, String)>,
    /// Abstract accounts by address.
    accounts: HashMap<String, OwnershipVerifier>,
    contracts: HashMap<String, Contract>,
    /// The events reported so far, oldest first.
    events: Vec<Event>,
}

impl Suite {
    fn new() -> Suite {
        let init = MarketInit {
            verifier: Some(s(VERIFIER)),
            collection_code_id: 1,
            min_account_length: 3,
            max_account_length: 128,
            base_price: BASE_PRICE,
            base_delegation: BASE_DELEGATION,
            trading_fee_bps: 0,
            min_price: 100,
            ask_interval: 30,
            valid_bid_query_limit: 100,
            cooldown_timeframe: 60,
            cooldown_cancel_fee: coin(500_000_000, "uthiol"),
            admin: None,
            hooks_admin: None,
            mint_start_delay: Some(200),
        };
        let now = 1_700_000_000 * NANOS;
        let (market, msgs, owner) = Market::instantiate(s(ADMIN), s(MARKET), now, vec![], s(COLLECTION), init, s(DAO)).unwrap();
        assert_eq!(msgs.len(), 1);
        assert_eq!(owner, s(ADMIN));
        let coll = Collection::instantiate(s(MARKET), Some(s(VERIFIER)), s(MARKET));
        let mut suite = Suite {
            market,
            coll,
            bank: HashMap::new(),
            burnt: 0,
            time: now,
            height: 1,
            delegations: HashMap::new(),
            operators: HashSet::new(),
            approvals: HashSet::new(),
            accounts: HashMap::new(),
            contracts: HashMap::new(),
            events: Vec::new(),
        };
        suite.delegate(ADMIN, 10_500_000_000);
        suite
    }

    fn wait(&mut self, secs: u64) {
        self.time += secs * NANOS;
        self.height += secs / 5 + 1;
    }

    fn block(&self) -> BlockInfo {
        BlockInfo { height: self.height, time: self.time }
    }

    fn balance(&self, who: &str) -> u128 {
        *self.bank.get(who).unwrap_or(&0)
    }

    fn fund(&mut self, who: &str, amount: u128) {
        *self.bank.entry(s(who)).or_insert(0) += amount;
    }

    fn spend(&mut self, who: &str, funds: &Vec<Coin>) {
        for c in funds {
            let b = self.bank.entry(s(who)).or_insert(0);
            assert!(*b >= c.amount, "not enough funds");
            *b -= c.amount;
        }
    }

    fn delegate(&mut self, who: &str, amount: u128) {
        *self.delegations.entry(s(who)).or_insert(0) += amount;
    }

    fn owner_of(&self, token: &str) -> Option<String> {
        self.coll.tokens.get(&s(token)).map(|t| t.owner.clone())
    }

    fn in_cooldown(&self, token: &str) -> bool {
        self.market.query_cooldown(&s(token)).is_some()
    }

    /// Who governs the abstract account at `addr`, as it answers.
    fn governance(&self, addr: &Option<String>) -> Result<Governance, String> {
        match addr {
            Some(a) => match self.accounts.get(a) {
                Some(v) => Ok(v.query(OwnerQuery::Ownership {})),
                None => Err(s("not an abstract account")),
            },
            None => Err(s("no address")),
        }
    }

    fn may_move(&self, sender: &str, token: &str) -> Result<(), String> {
        let owner = self.owner_of(token).ok_or(s("token not found"))?;
        if owner == sender
            || self.operators.contains(&(owner.clone(), s(sender)))
            || self.approvals.contains(&(s(token), s(sender)))
            || self.coll.operators.iter().any(|o| o.owner == owner && o.operator == sender)
        {
            Ok(())
        } else {
            Err(s("Caller is not the contract's current owner"))
        }
    }

    fn nft_info(&self, token: &str) -> Result<NftInfo, String> {
        match self.coll.tokens.get(&s(token)) {
            Some(t) => Ok(NftInfo {
                token_uri: t.token_uri.clone(),
                extension: Metadata {
                    image_nft: t.extension.image_nft.as_ref().map(|n| n.clone()),
                    records: t.extension.records.iter().map(|r| r.clone()).collect(),
                    account_ownership: t.extension.account_ownership,
                },
            }),
            None => Err(s("token not found")),
        }
    }

    fn run_market(&mut self, msgs: Vec<MarketMsg>) -> Result<(), String> {
        for m in msgs {
            match m {
                MarketMsg::Send { to, amount } => self.fund(&to, amount),
                MarketMsg::Burn { amount } => self.burnt += amount,
                MarketMsg::Mint { token_id, owner, .. } => {
                    let ev = self.coll
                        .execute_mint(&s(MARKET), &token_id, &owner, Metadata::default(), &canon(&owner))
                        .map_err(|e| format!("{:?}", e))?;
                    self.events.push(ev);
                },
                MarketMsg::TransferNft { token_id, recipient, .. } => {
                    self.transfer(MARKET, &recipient, &token_id).map_err(|e| format!("{:?}", e))?;
                },
                MarketMsg::ApproveAllViaMarket { owner, .. } => {
                    let block = self.block();
                    self.coll
                        .execute_approve_all_via_market(&s(MARKET), &block, &owner, None)
                        .map_err(|e| format!("{:?}", e))?;
                },
                _ => {},
            }
        }
        Ok(())
    }

    fn run_account(&mut self, msgs: Vec<AccountMsg>) -> Result<(), String> {
        for m in msgs {
            let more = match m {
                AccountMsg::RemoveBids { token_id, .. } => {
                    self.market.execute_remove_bids(&s(COLLECTION), &token_id).map(|m| (m, None))
                },
                AccountMsg::UpdateAsk { token_id, seller, .. } => {
                    self.market.execute_update_ask(&s(COLLECTION), &token_id, &seller).map(|(m, e)| (m, Some(e)))
                },
                AccountMsg::RemoveAsk { token_id, .. } => {
                    self.market.execute_remove_ask(&s(COLLECTION), &vec![], &token_id).map(|(m, e)| (m, Some(e)))
                },
            };
            let more = match more.map_err(|e| format!("{:?}", e))? {
                (msgs, Some(ev)) => {
                    self.events.push(ev);
                    msgs
                },
                (msgs, None) => msgs,
            };
            self.run_market(more)?;
        }
        Ok(())
    }

    fn mint_and_list(&mut self, name: &str, user: &str) -> Result<(), MarketError> {
        self.operators.insert((s(user), s(MARKET)));
        let amount = match name.len() {
            0..=2 => BASE_PRICE,
            3 => BASE_PRICE * 100,
            4 => BASE_PRICE * 10,
            _ => BASE_PRICE,
        };
        let funds = vec![coin(amount, "uthiol")];
        self.fund(user, amount);
        let delegations = vec![*self.delegations.get(user).unwrap_or(&0)];
        let operator = if self.operators.contains(&(s(user), s(MARKET))) { Ok(()) } else { Err(s("not an operator")) };
        let (msgs, ev) = self.market.execute_mint_and_list(&s(user), &funds, self.time, name, Ok(delegations), operator)?;
        self.events.push(ev);
        self.spend(user, &funds);
        self.run_market(msgs).unwrap();
        Ok(())
    }

    fn bid(&mut self, token: &str, bidder: &str, amount: u128) -> Result<(), MarketError> {
        let funds = vec![coin(amount, "uthiol")];
        self.fund(bidder, amount);
        let (msgs, ev) = self.market.execute_set_bid(&s(bidder), &funds, self.time, &s(token))?;
        self.events.push(ev);
        self.spend(bidder, &funds);
        self.run_market(msgs).unwrap();
        let b = self.market.query_bid(&s(token), &s(bidder)).unwrap();
        assert_eq!(b.token_id, token);
        assert_eq!(b.bidder, bidder);
        assert_eq!(b.amount, amount);
        Ok(())
    }

    fn accept(&mut self, sender: &str, token: &str, bidder: &str) -> Result<(), MarketError> {
        let owner = self.owner_of(token).ok_or(s("not found"));
        let (msgs, ev) = self.market.execute_accept_bid(&s(sender), &vec![], self.time, &s(token), &s(bidder), owner, Ok(()))?;
        self.events.push(ev);
        self.run_market(msgs).unwrap();
        Ok(())
    }

    fn finalize(&mut self, token: &str) -> Result<(), MarketError> {
        let block = self.block();
        let approval = if self.approvals.contains(&(s(token), s(MARKET))) {
            Ok(Expiration::Never)
        } else {
            Err(s("Approval not found"))
        };
        let info = self.nft_info(token);
        let aa_owner = match &info {
            Ok(i) => self.governance(&i.token_uri),
            Err(e) => Err(e.clone()),
        };
        let (msgs, ev) = self.market.execute_finalize_bid(&block, &s(token), approval, info, aa_owner)?;
        self.events.push(ev);
        self.run_market(msgs).unwrap();
        Ok(())
    }

    fn cancel(&mut self, sender: &str, token: &str, funds: Vec<Coin>) -> Result<(), MarketError> {
        let msgs = self.market.execute_cancel_cooldown(&s(sender), &funds, self.time, &s(token))?;
        self.spend(sender, &funds);
        self.run_market(msgs).unwrap();
        Ok(())
    }

    fn transfer(&mut self, sender: &str, recipient: &str, token: &str) -> Result<(), AccountError> {
        let cooldown = Ok(self.in_cooldown(token));
        let info = self.nft_info(token).ok();
        let aa = self.governance(&info.and_then(|i| i.token_uri));
        let moved = self.may_move(sender, token);
        let owner_canon = canon(&self.owner_of(token).unwrap_or(s(sender)));
        let (msgs, ev) = self.coll.execute_transfer_nft(&s(sender), &vec![], &s(recipient), &s(token), &s(COLLECTION), &owner_canon, cooldown, aa, moved)?;
        self.events.push(ev);
        self.approvals.retain(|(t, _)| t != token);
        self.run_account(msgs).unwrap();
        Ok(())
    }

    fn send(&mut self, sender: &str, contract: &str, token: &str) -> Result<(), AccountError> {
        let cooldown = Ok(self.in_cooldown(token));
        let info = self.nft_info(token).ok();
        let aa = self.governance(&info.and_then(|i| i.token_uri));
        let moved = self.may_move(sender, token);
        let owner_canon = canon(&self.owner_of(token).unwrap_or(s(sender)));
        let (msgs, ev) = self.coll.execute_send_nft(&s(sender), &s(contract), &s(token), &s(COLLECTION), &owner_canon, cooldown, aa, moved)?;
        self.events.push(ev);
        self.approvals.retain(|(t, _)| t != token);
        self.run_account(msgs).unwrap();
        Ok(())
    }

    fn burn(&mut self, sender: &str, token: &str) -> Result<(), AccountError> {
        let cooldown = Ok(self.in_cooldown(token));
        let burnt = self.may_move(sender, token);
        let (msgs, ev) = self.coll.execute_burn(&vec![], &s(token), cooldown, burnt)?;
        self.events.push(ev);
        self.run_account(msgs).unwrap();
        Ok(())
    }

    fn facts(&self, addr: &str) -> AddressFacts {
        match self.contracts.get(addr) {
            Some(c) => AddressFacts {
                contract_name: Ok(c.name.clone()),
                minter: Ok(c.minter.clone()),
                admin_and_creator: Ok((c.admin.clone(), c.creator.clone())),
                creator_admin: match self.contracts.get(&c.creator) {
                    Some(cc) => Ok(cc.admin.clone()),
                    None => Err(s("not a contract")),
                },
            },
            None => AddressFacts {
                contract_name: Err(s("not a contract")),
                minter: Err(s("not a contract")),
                admin_and_creator: Err(s("not a contract")),
                creator_admin: Err(s("not a contract")),
            },
        }
    }

    fn associate(&mut self, sender: &str, token: &str, address: Option<&str>) -> Result<(), AccountError> {
        let cooldown = Ok(self.in_cooldown(token));
        let prev = self.coll.tokens.get(&s(token)).and_then(|t| t.token_uri.clone());
        let prev_owner = self.governance(&prev);
        let facts = match address {
            Some(a) => self.facts(a),
            None => self.facts(""),
        };
        let (msgs, ev) = self.coll.associate_address(&s(sender), &s(COLLECTION), &s(token), address.map(s), &canon(sender), cooldown,
            prev_owner, Ok(()), &facts)?;
        self.events.push(ev);
        self.run_account(msgs).unwrap();
        Ok(())
    }

    fn account_of(&self, addr: &str) -> Result<String, String> {
        self.coll.query_account(&s(addr)).map_err(|e| e.to_string())
    }
}

// ---- minting and listing ----

#[test]
fn test_check_approvals() {
    let mut suite = Suite::new();
    let owner = ADMIN;
    suite.wait(200);
    suite.mint_and_list("bandura", owner).unwrap();
    let ops = suite.operators.iter().filter(|(o, _)| o == owner).count();
    assert_eq!(ops, 1);
}

#[test]
fn test_mint() {
    let mut suite = Suite::new();
    let owner = ADMIN;
    let token_id = "bandura";
    suite.wait(200);
    suite.mint_and_list(token_id, owner).unwrap();
    assert_eq!(
        &suite.events[suite.events.len() - 2..],
        &[
            Event {
                kind: s("mint-and-list"),
                attributes: vec![text("account", token_id), text("owner", owner), amount("price", BASE_PRICE)],
            },
            Event { kind: s("mint"), attributes: vec![text("minter", MARKET), text("token_id", token_id), text("owner", owner)] },
        ][..]
    );
    let res = suite.market.query_ask(&s(token_id)).unwrap();
    assert_eq!(res.token_id, token_id);
    assert_eq!(suite.coll.num_tokens, 1);
    assert_eq!(suite.owner_of(token_id).unwrap(), owner);
    // the price was burnt
    assert_eq!(suite.burnt, BASE_PRICE);
}

#[test]
fn test_bid() {
    let mut suite = Suite::new();
    suite.wait(200);
    suite.mint_and_list("bandura", ADMIN).unwrap();
    suite.bid("bandura", "terp1bidder", BID_AMOUNT).unwrap();
}

#[test]
fn test_mint_before_start() {
    let mut suite = Suite::new();
    let user4 = "terp1user4";
    suite.fund(user4, 10_000_000_000);
    suite.delegate(user4, 10_000_000_000);
    assert_eq!(suite.mint_and_list("bandura", ADMIN), Err(MarketError::MintingNotStarted));
    assert_eq!(suite.mint_and_list("bandura", user4), Err(MarketError::MintingNotStarted));
}

#[test]
fn test_update_start_time() {
    let mut suite = Suite::new();
    assert_eq!(suite.market.public_mint_start_time, suite.time + 200 * NANOS);
    let start = suite.time + 2 * NANOS;
    suite.market.execute_update_config(&s(ADMIN), Ok(()), suite.time, start).unwrap();
    assert_eq!(suite.market.public_mint_start_time, suite.time + 2 * NANOS);
    // a start in the past is refused
    assert_eq!(
        suite.market.execute_update_config(&s(ADMIN), Ok(()), suite.time, suite.time - 1),
        Err(MarketError::InvalidTradingStartTime(suite.time, suite.time - 1))
    );
    assert_eq!(
        suite.market.execute_update_config(&s(ADMIN), Err(OwnershipError::NotOwner), suite.time, start),
        Err(MarketError::Ownership(OwnershipError::NotOwner))
    );
}

#[test]
fn test_pause() {
    let mut suite = Suite::new();
    let admin2 = "terp1admin2";
    suite.fund(admin2, 10_000_000_000);
    suite.delegate(admin2, 10_000_000_000);
    suite.wait(200);
    suite.mint_and_list("bandura", admin2).unwrap();
    suite.market.execute_pause(Ok(()), true).unwrap();
    suite.wait(200);
    assert_eq!(suite.mint_and_list("bandura", admin2), Err(MarketError::MintingPaused));
}

#[test]
fn test_mint_with_delegation_tiers() {
    let mut suite = Suite::new();
    suite.wait(200);
    let base_delegation = 2_100_000_000u128;
    let user3 = "terp1user3";
    suite.fund(user3, 10_500_000_000);
    suite.delegate(user3, base_delegation * 5);
    suite.mint_and_list("rep", user3).unwrap();
    let user4 = "terp1user4abcd";
    suite.fund(user4, 10_000_000_000);
    suite.delegate(user4, base_delegation * 3);
    suite.mint_and_list("repe", user4).unwrap();
    let user5 = "terp1user5abcde";
    suite.fund(user5, 10_000_000_000);
    suite.delegate(user5, base_delegation);
    suite.mint_and_list("repea", user5).unwrap();
    let poor = "terp1user3_insufficient";
    suite.fund(poor, 10_000_440);
    suite.delegate(poor, 10_000_440);
    assert_eq!(
        suite.mint_and_list("repeat", poor),
        Err(MarketError::IncorrectDelegation { got: 10_000_440, expected: base_delegation })
    );
}

#[test]
fn test_update_mkt_sudo() {
    let mut suite = Suite::new();
    suite.wait(200);
    suite.mint_and_list("bandura", ADMIN).unwrap();
    suite
        .market
        .sudo_update_params(None, None, None, None, Some(1000), Some(1000), Some(1000), Some(69), Some(coin(69, "jerets")))
        .unwrap();
    assert_eq!(
        suite.market.sudo_update_params(None, None, None, None, Some(20000), Some(1000), Some(1000), Some(69),
            Some(coin(69, "jerets"))),
        Err(MarketError::InvalidTradingFeeBps(20000))
    );
    // 10%, as the atomics of a decimal
    assert_eq!(suite.market.params.trading_fee_rate, 100_000_000_000_000_000);
    assert_eq!(suite.market.params.min_price, 1000);
    assert_eq!(suite.market.params.ask_interval, 1000);
    assert_eq!(suite.market.params.cooldown_duration, 69);
    assert_eq!(suite.market.params.cooldown_fee, coin(69, "jerets"));
}

// ---- bids, sales and cooldowns ----

#[test]
fn test_accept_bid() {
    let mut suite = Suite::new();
    let owner = ADMIN;
    let bidder = "terp1bidder";
    let token_id = "bandura";
    suite.wait(200);
    suite.mint_and_list(token_id, owner).unwrap();
    let balance = suite.balance(bidder);
    // an overwritten bid returns the funds of the first
    suite.bid(token_id, bidder, BID_AMOUNT * 2).unwrap();
    suite.bid(token_id, bidder, BID_AMOUNT).unwrap();
    let balance2 = suite.balance(bidder);
    assert_eq!(balance, 0);
    assert_eq!(balance2, BID_AMOUNT * 2);
    // bid smaller than minimum
    assert_eq!(suite.bid(token_id, bidder, 99), Err(MarketError::PriceTooSmall(99)));
    // ask only removed by the collection
    assert_eq!(suite.market.execute_remove_ask(&s(owner), &vec![], &s(token_id)), Err(MarketError::Unauthorized));
    assert_eq!(suite.market.execute_remove_ask(&s(COLLECTION), &vec![], &s(token_id)), Err(MarketError::ExistingBids));
    assert_eq!(suite.balance(owner), 0);
    assert_eq!(suite.market.execute_update_ask(&s(owner), &s(token_id), &s(bidder)), Err(MarketError::Unauthorized));
    let expected = terp_accounts::types::Bid { token_id: s(token_id), bidder: s(bidder), amount: BID_AMOUNT, created_time: suite.time };
    assert_eq!(suite.market.query_bids(&s(token_id), None, None), vec![expected.clone()]);
    assert_eq!(suite.market.query_bids_sorted_by_price(None, None), vec![expected.clone()]);
    assert_eq!(suite.market.reverse_query_bids_sorted_by_price(None, None), vec![expected]);
    assert_eq!(suite.accept(bidder, token_id, bidder), Err(MarketError::UnauthorizedOwner));
    suite.accept(owner, token_id, bidder).unwrap();
    suite.wait(60);
    suite.finalize(token_id).unwrap();
    assert!(suite.market.query_bid(&s(token_id), &s(bidder)).is_none());
    assert_eq!(suite.owner_of(token_id).unwrap(), bidder);
    assert_eq!(suite.balance(owner), BID_AMOUNT);
    let res = suite.market.query_ask(&s(token_id)).unwrap();
    assert_eq!(res.seller, bidder);
    assert_eq!(res.token_id, token_id);
    // burning removes the ask
    let before = suite.events.len();
    suite.burn(bidder, token_id).unwrap();
    assert_eq!(
        &suite.events[before..],
        &[
            Event { kind: s("burn-account"), attributes: vec![text("account", token_id)] },
            Event { kind: s("remove-ask"), attributes: vec![text("token_id", token_id)] },
        ][..]
    );
    assert_eq!(suite.market.query_ask(&s(token_id)), None);
}

#[test]
fn test_two_sales_cycles() {
    let mut suite = Suite::new();
    let owner = ADMIN;
    let bidder = "terp1bidder";
    let bidder2 = "terp1bidder2";
    let token_id = "bandura";
    suite.wait(200);
    suite.mint_and_list(token_id, owner).unwrap();
    suite.bid(token_id, bidder, BID_AMOUNT).unwrap();
    suite.accept(owner, token_id, bidder).unwrap();
    suite.wait(60);
    suite.finalize(token_id).unwrap();
    suite.bid(token_id, bidder2, BID_AMOUNT).unwrap();
    suite.approvals.insert((s(token_id), s(MARKET)));
    suite.accept(bidder, token_id, bidder2).unwrap();
    suite.wait(60);
    suite.finalize(token_id).unwrap();
    assert_eq!(suite.owner_of(token_id).unwrap(), bidder2);
    assert_eq!(suite.balance(bidder), BID_AMOUNT);
}

#[test]
fn test_cooldown_period_operator_approve() {
    let mut suite = Suite::new();
    suite.wait(200);
    let owner = ADMIN;
    suite.fund(owner, 10_000_000_000);
    let bidder = "terp1bidder";
    let account = "account";
    suite.mint_and_list(account, owner).unwrap();
    suite.bid(account, bidder, BID_AMOUNT).unwrap();
    suite.accept(owner, account, bidder).unwrap();
    // the owner revokes the marketplace as operator
    suite.operators.remove(&(s(owner), s(MARKET)));
    suite.wait(60);
    suite.finalize(account).unwrap();
    // the marketplace approved itself again
    assert!(suite.coll.operators.iter().any(|o| o.owner == owner && o.operator == MARKET));
    assert_eq!(suite.market.query_ask(&s(account)).unwrap().seller, bidder);
}

#[test]
fn test_cooldown_period() {
    let mut suite = Suite::new();
    suite.wait(200);
    let owner = ADMIN;
    suite.fund(owner, 10_000_000_000);
    let bidder = "terp1bidder";
    let account = "account";
    suite.mint_and_list(account, owner).unwrap();
    suite.bid(account, bidder, BID_AMOUNT).unwrap();
    let owner_a = suite.balance(owner);
    let bidder_a = suite.balance(bidder);
    suite.accept(owner, account, bidder).unwrap();
    let owner_b = suite.balance(owner);
    let bidder_b = suite.balance(bidder);
    suite.wait(10);
    assert_eq!(owner_a, owner_b);
    assert_eq!(bidder_a, bidder_b);
    let p = suite.market.query_cooldown(&s(account)).unwrap();
    assert_eq!(p.ask.token_id, account);
    assert_eq!(p.ask.id, 1);
    assert_eq!(p.ask.seller, owner);
    assert_eq!(p.new_owner, bidder);
    assert_eq!(p.amount, BID_AMOUNT);
    assert_eq!(p.unlock_time, suite.time + 50 * NANOS);
    assert_eq!(suite.burn(owner, account), Err(AccountError::AccountCannotBeTransfered));
    assert_eq!(suite.transfer(owner, bidder, account), Err(AccountError::AccountCannotBeTransfered));
    assert_eq!(suite.send(owner, MARKET, account), Err(AccountError::AccountCannotBeTransfered));
    assert!(suite.time < suite.market.query_cooldown(&s(account)).unwrap().unlock_time);
    assert_eq!(suite.finalize(account), Err(MarketError::InvalidDuration));
    suite.wait(50);
    // cannot cancel after the cooldown completes
    assert_eq!(suite.cancel(owner, account, vec![coin(500_000_000, "uthiol")]), Err(MarketError::InvalidDuration));
    assert_eq!(suite.cancel(owner, "babber", vec![coin(500_000_000, "uthiol")]), Err(MarketError::AskNotFound));
    assert_eq!(suite.finalize("babber"), Err(MarketError::AskNotFound));
    suite.finalize(account).unwrap();
    assert!(suite.market.query_cooldown(&s(account)).is_none());
    let owner_c = suite.balance(owner);
    let bidder_c = suite.balance(bidder);
    assert_eq!(owner_c, owner_b + BID_AMOUNT);
    assert_eq!(bidder_b, bidder_c);
}

#[test]
fn test_cancel_cooldown_period() {
    let mut suite = Suite::new();
    suite.wait(200);
    let owner = ADMIN;
    suite.fund(owner, 10_000_000_000);
    let bidder = "terp1bidder";
    suite.fund(owner, 10_000_000_000);
    let account = "account";
    suite.mint_and_list(account, owner).unwrap();
    suite.bid(account, bidder, BID_AMOUNT).unwrap();
    let owner_a = suite.balance(owner);
    let bidder_a = suite.balance(bidder);
    suite.accept(owner, account, bidder).unwrap();
    let owner_b = suite.balance(owner);
    let bidder_b = suite.balance(bidder);
    suite.wait(10);
    assert_eq!(owner_a, owner_b);
    assert_eq!(bidder_a, bidder_b);
    assert_eq!(suite.market.query_cooldown(&s(account)).unwrap().unlock_time, suite.time + 50 * NANOS);
    suite.wait(49);
    assert_eq!(suite.cancel(bidder, account, vec![]), Err(MarketError::Unauthorized));
    assert_eq!(suite.cancel(owner, account, vec![]), Err(MarketError::Payment(PaymentError::NoFunds)));
    assert_eq!(
        suite.cancel(owner, account, vec![coin(499_000_000, "uthiol")]),
        Err(MarketError::IncorrectPayment { got: 499_000_000, expected: 500_000_000 })
    );
    suite.cancel(owner, account, vec![coin(500_000_000, "uthiol")]).unwrap();
    assert_eq!(suite.balance(bidder), BID_AMOUNT + 250_000_000);
    assert_eq!(suite.balance(DAO), 250_000_000);
    assert!(suite.market.query_cooldown(&s(account)).is_none());
}

#[test]
fn test_transfer_nft() {
    let mut suite = Suite::new();
    suite.wait(200);
    suite.mint_and_list("bandura", ADMIN).unwrap();
    suite.transfer(ADMIN, "terp1new-addr", "bandura").unwrap();
    assert_eq!(suite.owner_of("bandura").unwrap(), "terp1new-addr");
    assert_eq!(suite.market.query_ask(&s("bandura")).unwrap().seller, "terp1new-addr");
}

#[test]
fn test_send_nft() {
    let mut suite = Suite::new();
    suite.wait(200);
    suite.mint_and_list("bandura", ADMIN).unwrap();
    suite.send(ADMIN, "terp1new-addr", "bandura").unwrap();
    assert_eq!(suite.owner_of("bandura").unwrap(), "terp1new-addr");
}

#[test]
fn test_transfer_nft_and_bid() {
    let mut suite = Suite::new();
    let bidder1 = "terp1bidder1";
    let user1 = "terp1user1";
    let token_id = "bandura";
    suite.wait(200);
    suite.mint_and_list(token_id, ADMIN).unwrap();
    suite.transfer(ADMIN, user1, token_id).unwrap();
    suite.bid(token_id, bidder1, BID_AMOUNT * 3).unwrap();
    suite.approvals.insert((s(token_id), s(MARKET)));
    suite.accept(user1, token_id, bidder1).unwrap();
    assert!(suite.market.query_cooldown(&s(token_id)).is_some());
}

#[test]
fn test_transfer_to_eoa() {
    let mut suite = Suite::new();
    let nft_addr = "terp1test2collection";
    suite.contracts.insert(s(nft_addr), Contract { name: s("crates.io:terp721-account"), admin: Some(s(ADMIN)), creator: s(ADMIN), minter: Some(s(MARKET)) });
    suite.wait(200);
    suite.mint_and_list("bandura", ADMIN).unwrap();
    suite.transfer(ADMIN, nft_addr, "bandura").unwrap();
    assert_eq!(suite.owner_of("bandura").unwrap(), nft_addr);
}

// ---- queries ----

#[test]
fn test_query_ask() {
    let mut suite = Suite::new();
    let admin2 = "terp1admin2";
    suite.fund(admin2, 10_000_000_000);
    suite.delegate(admin2, 10_000_000_000);
    suite.wait(200);
    suite.mint_and_list("bandura", admin2).unwrap();
    assert_eq!(suite.market.query_ask(&s("bandura")).unwrap().token_id, "bandura");
}

#[test]
fn test_query_asks() {
    let mut suite = Suite::new();
    let admin2 = "terp1admin2";
    suite.fund(admin2, 10_000_000_000);
    suite.delegate(admin2, 10_000_000_000);
    suite.wait(200);
    suite.mint_and_list("bandura", ADMIN).unwrap();
    suite.mint_and_list("hack", admin2).unwrap();
    let asks = suite.market.query_asks(None, None);
    assert_eq!(asks[0].id, 1);
    assert_eq!(asks.len(), 2);
    assert_eq!(suite.market.query_asks(Some(1), None).len(), 1);
}

#[test]
fn test_query_asks_by_seller() {
    let mut suite = Suite::new();
    let admin2 = "terp1admin2";
    suite.fund(admin2, 10_000_000_000);
    suite.delegate(admin2, 10_000_000_000);
    suite.wait(200);
    suite.mint_and_list("bandura", ADMIN).unwrap();
    suite.mint_and_list("hack", admin2).unwrap();
    assert_eq!(suite.market.query_asks_by_seller(&s(ADMIN), None, None).len(), 1);
}

#[test]
fn test_query_ask_count() {
    let mut suite = Suite::new();
    let admin2 = "terp1admin2";
    suite.fund(admin2, 10_000_000_000);
    suite.delegate(admin2, 10_000_000_000);
    suite.wait(200);
    suite.mint_and_list("bandura", ADMIN).unwrap();
    suite.mint_and_list("hack", admin2).unwrap();
    assert_eq!(suite.market.query_ask_count(), Ok(2));
}

#[test]
fn test_query_top_bids() {
    let mut suite = Suite::new();
    let admin = ADMIN;
    // the mock chain's address for "bidder2" sorts before its address for "bidder1"
    let bidder1 = "terp1ybidder1";
    let bidder2 = "terp1xbidder2";
    let token_id = "bandura";
    suite.wait(200);
    suite.mint_and_list(token_id, admin).unwrap();
    suite.bid(token_id, bidder1, BID_AMOUNT).unwrap();
    suite.bid(token_id, bidder2, BID_AMOUNT * 5).unwrap();
    let res = suite.market.query_bids_for_seller(&s(admin), None, None);
    assert_eq!(res.len(), 2);
    assert_eq!(res[1].amount, BID_AMOUNT);
    let filter = || Some(BidOffset { price: BID_AMOUNT, token_id: s(token_id), bidder: s(bidder1) });
    assert_eq!(suite.market.query_bids_for_seller(&s(admin), filter(), None).len(), 0);
    suite.wait(60);
    let account = "jump";
    suite.wait(200);
    suite.mint_and_list(account, admin).unwrap();
    suite.bid(account, bidder1, BID_AMOUNT * 3).unwrap();
    suite.bid(account, bidder2, BID_AMOUNT * 2).unwrap();
    assert_eq!(suite.market.query_bids_for_seller(&s(admin), filter(), None).len(), 2);
    assert_eq!(
        suite.market.execute_remove_bid(&s(bidder1), &vec![coin(1, "uthiol")], &s(account)),
        Err(MarketError::Payment(PaymentError::NonPayable))
    );
    let (msgs, ev) = suite.market.execute_remove_bid(&s(bidder1), &vec![], &s(account)).unwrap();
    assert_eq!(ev.kind, "remove-bid");
    assert_eq!(ev.attributes, vec![text("token_id", account), text("bidder", bidder1)]);
    assert_eq!(msgs[0], MarketMsg::Send { to: s(bidder1), amount: BID_AMOUNT * 3 });
    suite.run_market(msgs).unwrap();
    assert_eq!(suite.market.query_bids_for_seller(&s(admin), filter(), None).len(), 1);
}

#[test]
fn test_query_bids_by_seller() {
    let mut suite = Suite::new();
    let admin = ADMIN;
    // the mock chain's address for "bidder2" sorts before its address for "bidder1"
    let bidder1 = "terp1ybidder1";
    let bidder2 = "terp1xbidder2";
    let token_id = "bandura";
    suite.wait(200);
    suite.mint_and_list(token_id, admin).unwrap();
    suite.bid(token_id, bidder1, BID_AMOUNT).unwrap();
    suite.bid(token_id, bidder2, BID_AMOUNT * 5).unwrap();
    let res = suite.market.query_bids_for_seller(&s(admin), None, None);
    assert_eq!(res.len(), 2);
    assert_eq!(res[1].amount, BID_AMOUNT);
    let offset = || Some(BidOffset { price: BID_AMOUNT, token_id: s(token_id), bidder: s(bidder1) });
    assert_eq!(suite.market.query_bids_for_seller(&s(admin), offset(), None).len(), 0);
    suite.wait(60);
    suite.mint_and_list("jump", admin).unwrap();
    suite.bid("jump", bidder1, BID_AMOUNT * 3).unwrap();
    suite.bid("jump", bidder2, BID_AMOUNT * 2).unwrap();
    assert_eq!(suite.market.query_bids_for_seller(&s(admin), offset(), None).len(), 2);
}

#[test]
fn test_query_highest_bid() {
    let mut suite = Suite::new();
    suite.wait(200);
    suite.mint_and_list("bandura", ADMIN).unwrap();
    suite.bid("bandura", "terp1bidder1", BID_AMOUNT).unwrap();
    suite.bid("bandura", "terp1bidder2", BID_AMOUNT * 5).unwrap();
    assert_eq!(suite.market.query_highest_bid(&s("bandura")).unwrap().amount, BID_AMOUNT * 5);
}

#[test]
fn test_query_account() {
    let mut suite = Suite::new();
    let admin = ADMIN;
    suite.wait(200);
    suite.mint_and_list("bandura", admin).unwrap();
    // an account name is no address
    assert!(suite.account_of("bandura").is_err());
    suite.mint_and_list("yoyo", admin).unwrap();
    suite.associate(admin, "yoyo", Some(admin)).unwrap();
    assert_eq!(suite.account_of(admin).unwrap(), "yoyo");
}

// ---- the collection ----

#[test]
fn test_reverse_map() {
    let mut suite = Suite::new();
    suite.wait(200);
    let admin2 = "terp1admin2";
    suite.fund(admin2, 10_000_000_000);
    suite.delegate(admin2, 10_000_000_000);
    suite.mint_and_list("bandura", admin2).unwrap();
    // without an associated address, the owner answers
    assert_eq!(suite.coll.query_associated_address(&s("bandura")).unwrap(), admin2);
    suite.associate(admin2, "bandura", Some(admin2)).unwrap();
    assert_eq!(suite.coll.query_associated_address(&s("bandura")).unwrap(), admin2);
    suite.wait(60);
    suite.mint_and_list("exam", admin2).unwrap();
    suite.associate(admin2, "exam", Some(admin2)).unwrap();
    assert_eq!(suite.account_of(admin2).unwrap(), "exam");
    // the address left the first account
    assert_eq!(suite.coll.query_associated_address(&s("bandura")).unwrap(), admin2);
    assert_eq!(suite.coll.tokens.get(&s("bandura")).unwrap().token_uri, None);
}

#[test]
fn test_reverse_map_contract_address() {}

#[test]
fn test_reverse_map_not_contract_address_admin() {
    let mut suite = Suite::new();
    let not_admin = "terp1not-admin";
    suite.fund(not_admin, 11_000_000_000);
    suite.delegate(not_admin, 10_000_000_000);
    suite.contracts.insert(s(MARKET), Contract { name: s("crates.io:terp721-account-manifold"), admin: Some(s(ADMIN)), creator: s(ADMIN), minter: None });
    suite.wait(200);
    suite.mint_and_list("bandura", not_admin).unwrap();
    // the suite's default sender owns nothing here
    assert!(suite.associate(ADMIN, "bandura", Some(MARKET)).is_err());
    assert_eq!(suite.associate(not_admin, "bandura", Some(MARKET)), Err(AccountError::UnauthorizedCreatorOrAdmin));
}

#[test]
fn test_reverse_map_not_owner() {
    let mut suite = Suite::new();
    let admin2 = "terp1admin2";
    suite.fund(admin2, 10_000_000_000);
    suite.delegate(admin2, 10_000_000_000);
    suite.wait(200);
    suite.mint_and_list("bandura", admin2).unwrap();
    assert_eq!(
        suite.associate(ADMIN, "bandura", Some(admin2)),
        Err(AccountError::Ownership(OwnershipError::NotOwner))
    );
}

#[test]
fn test_transfer_nft_with_reverse_map() {
    let mut suite = Suite::new();
    let user = "terp1user";
    let user2 = "terp1user2";
    suite.fund(user, 10_000_000_000);
    suite.delegate(user, 10_000_000_000);
    suite.wait(200);
    suite.mint_and_list("bandura", user).unwrap();
    suite.associate(user, "bandura", Some(user)).unwrap();
    assert_eq!(suite.account_of(user).unwrap(), "bandura");
    suite.transfer(user, user2, "bandura").unwrap();
    assert!(suite.account_of(user).is_err());
    assert!(suite.account_of(user2).is_err());
}

#[test]
fn test_associate_with_a_contract_with_no_admin() {
    let mut suite = Suite::new();
    let creator = "terp1creatorcontract";
    let no_admin = "terp1collectionwithnoadmin";
    suite.contracts.insert(s(creator), Contract { name: s("crates.io:terp721-account"), admin: Some(s(ADMIN)), creator: s(ADMIN), minter: Some(s(MARKET)) });
    suite.contracts.insert(s(no_admin), Contract { name: s("crates.io:terp721-account"), admin: None, creator: s(creator), minter: Some(s(MARKET)) });
    suite.wait(200);
    suite.mint_and_list("bandura", ADMIN).unwrap();
    suite.associate(ADMIN, "bandura", Some(no_admin)).unwrap();
    assert_eq!(suite.coll.query_associated_address(&s("bandura")).unwrap(), no_admin);
}

#[test]
fn test_associate_with_a_contract_with_no_admin_fail() {
    let mut suite = Suite::new();
    let admin_user = "terp1admin-user";
    let user4 = "terp1user4";
    suite.fund(user4, 10_000_000_000);
    suite.delegate(user4, 10_000_000_000);
    let creator = "terp1creatorcontract";
    let no_admin = "terp1collectionwithnoadmin";
    suite.contracts.insert(s(creator), Contract { name: s("crates.io:terp721-account"), admin: Some(s(admin_user)), creator: s(admin_user), minter: Some(s(MARKET)) });
    suite.contracts.insert(s(no_admin), Contract { name: s("crates.io:terp721-account"), admin: None, creator: s(creator), minter: Some(s(MARKET)) });
    suite.wait(200);
    suite.mint_and_list("bandura", user4).unwrap();
    assert_eq!(suite.associate(user4, "bandura", Some(no_admin)), Err(AccountError::UnauthorizedCreatorOrAdmin));
}

#[test]
fn test_associate_with_a_contract_with_an_admin_fail() {
    let mut suite = Suite::new();
    let admin_user = "terp1admin-user";
    let user4 = "terp1user4";
    suite.fund(user4, 10_000_000_000);
    suite.delegate(user4, 10_000_000_000);
    let contract = "terp1somecontract";
    suite.contracts.insert(s(contract), Contract { name: s("crates.io:terp721-account"), admin: Some(s(admin_user)), creator: s(admin_user), minter: Some(s(MARKET)) });
    suite.wait(200);
    suite.mint_and_list("bandura", user4).unwrap();
    assert_eq!(suite.associate(user4, "bandura", Some(contract)), Err(AccountError::UnauthorizedCreatorOrAdmin));
}

#[test]
fn test_abstract_account_workflow() {
    let mut suite = Suite::new();
    let admin_user = ADMIN;
    let token_id = "bandura";
    let bidder = "terp1bidder";
    let aa = "terp1abstractaccount";
    suite.wait(200);
    suite.mint_and_list(token_id, admin_user).unwrap();
    suite.accounts.insert(s(aa), OwnershipVerifier::instantiate(OwnerInit::new(&s(COLLECTION), token_id)));
    // link the account token to the abstract account
    let new_owner = suite.governance(&Some(s(aa)));
    let old_owner = suite.governance(&None);
    let msgs = suite
        .coll
        .execute_update_abstract_account_support(&s(admin_user), &s(COLLECTION), &s(token_id), Some(s(aa)), Ok(false), new_owner, old_owner)
        .unwrap();
    assert!(msgs.is_empty());
    assert_eq!(suite.coll.query_associated_address(&s(token_id)).unwrap(), aa);
    // the abstract account changes its owner before the sale completes
    suite.accounts.get_mut(aa).unwrap().execute(OwnerMsg::UpdateOwnership { ownership: Governance::Other(s("renounced")) });
    let owner_bal = suite.balance(admin_user);
    let bidder_bal = suite.balance(bidder);
    suite.bid(token_id, bidder, BID_AMOUNT).unwrap();
    assert_eq!(bidder_bal, 0);
    suite.accept(admin_user, token_id, bidder).unwrap();
    suite.wait(60);
    suite.finalize(token_id).unwrap();
    // the bidder is refunded and still gets the token
    assert_eq!(suite.balance(bidder), BID_AMOUNT);
    assert_eq!(suite.balance(admin_user), owner_bal);
    assert_eq!(suite.owner_of(token_id).unwrap(), bidder);
}

#[test]
fn test_verify_twitter() {
    let mut suite = Suite::new();
    suite.wait(200);
    let admin_user = ADMIN;
    suite.mint_and_list("bandura", admin_user).unwrap();
    suite.coll.execute_add_text_record(&s(admin_user), &vec![], &s("bandura"), TextRecord::new("twitter", "loaf0bred")).unwrap();
    let recs = suite.coll.query_text_records(&s("bandura")).unwrap();
    assert_eq!(recs[0].account, "twitter");
    assert_eq!(recs[0].verified, None);
    assert_eq!(
        suite.coll.execute_verify_text_record(&s(admin_user), &vec![], &s("bandura"), &s("twitter"), true),
        Err(AccountError::NotAdmin)
    );
    suite.coll.execute_verify_text_record(&s(VERIFIER), &vec![], &s("bandura"), &s("twitter"), true).unwrap();
    let recs = suite.coll.query_text_records(&s("bandura")).unwrap();
    assert_eq!(recs[0].account, "twitter");
    assert_eq!(recs[0].verified, Some(true));
    assert_eq!(suite.coll.query_is_twitter_verified(&s("bandura")), Ok(true));
}

#[test]
fn test_verify_false() {
    let mut suite = Suite::new();
    suite.wait(200);
    suite.mint_and_list("bandura", ADMIN).unwrap();
    suite.coll.execute_add_text_record(&s(ADMIN), &vec![], &s("bandura"), TextRecord::new("twitter", "loaf0bred")).unwrap();
    suite.coll.execute_verify_text_record(&s(VERIFIER), &vec![], &s("bandura"), &s("twitter"), false).unwrap();
    let recs = suite.coll.query_text_records(&s("bandura")).unwrap();
    assert_eq!(recs[0].account, "twitter");
    assert_eq!(recs[0].verified, Some(false));
}

#[test]
fn test_verified_text_record() {
    let mut suite = Suite::new();
    suite.wait(200);
    let token_id = "bandura";
    suite.mint_and_list(token_id, ADMIN).unwrap();
    suite.coll.execute_add_text_record(&s(ADMIN), &vec![], &s(token_id), TextRecord::new("twitter", "loaf0bred")).unwrap();
    let recs = suite.coll.query_text_records(&s(token_id)).unwrap();
    assert_eq!(recs[0].account, "twitter");
    assert_eq!(recs[0].verified, None);
    // an update that claims verification is stored unverified
    suite
        .coll
        .execute_update_text_record(&s(ADMIN), &vec![], &s(token_id),
            TextRecord { account: s(token_id), value: s("some new value"), verified: Some(true) })
        .unwrap();
    let recs = suite.coll.query_text_records(&s(token_id)).unwrap();
    assert_eq!(recs[0].account, "twitter");
    assert_eq!(recs[0].verified, None);
    assert_eq!(recs[1].verified, None);
    assert_eq!(suite.coll.query_image_nft(&s(token_id)), Ok(None));
}

#[test]
fn test_sudo_update() {
    let mut suite = Suite::new();
    let max_record_count = suite.coll.query_params().max_record_count;
    let max_rev_key_count = suite.coll.query_params().max_reverse_map_key_limit;
    suite.coll.sudo(SudoMsg::UpdateParams { max_record_count: max_record_count + 1, max_rev_map_count: max_rev_key_count + 4 });
    assert_eq!(suite.coll.query_params().max_record_count, max_record_count + 1);
    assert_eq!(suite.coll.query_params().max_reverse_map_key_limit, max_record_count + 4);
}

#[test]
fn test_burn_function() {
    let mut suite = Suite::new();
    let addr = "terp1babber23";
    let token_id = "enterprise";
    suite.wait(200);
    suite.mint_and_list(token_id, ADMIN).unwrap();
    assert_eq!(
        suite.burn(addr, token_id),
        Err(AccountError::Std(s("Caller is not the contract's current owner")))
    );
    suite.burn(ADMIN, token_id).unwrap();
    assert!(suite.coll.query_associated_address(&s(token_id)).is_err());
    assert!(suite.account_of(ADMIN).is_err());
}

#[test]
fn test_query_accounts() {
    let suite = Suite::new();
    let addr = "terp1babber";
    assert_eq!(
        suite.account_of(addr).unwrap_err(),
        format!("Generic error: No account associated with address {}", addr)
    );
}

#[test]
fn escrow_is_paid_out_exactly() {
    let mut suite = Suite::new();
    suite.wait(200);
    suite.market.sudo_update_params(None, None, None, None, Some(250), None, None, None, None).unwrap();
    assert_eq!(suite.market.params.trading_fee_rate, 25_000_000_000_000_000);
    suite.mint_and_list("bandura", ADMIN).unwrap();
    let burnt_before = suite.burnt;
    for i in 0..5u128 {
        let who = format!("terp1bidder{}", i);
        suite.bid("bandura", &who, BID_AMOUNT + i).unwrap();
    }
    suite.accept(ADMIN, "bandura", "terp1bidder4").unwrap();
    // the other four bids were paid back
    for i in 0..4u128 {
        assert_eq!(suite.balance(&format!("terp1bidder{}", i)), BID_AMOUNT + i);
    }
    suite.wait(60);
    let owner_before = suite.balance(ADMIN);
    suite.finalize("bandura").unwrap();
    let price = BID_AMOUNT + 4;
    let fee = price * 25 / 1000;
    assert_eq!(suite.burnt - burnt_before, fee);
    assert_eq!(suite.balance(ADMIN) - owner_before, price - fee);
}

// ---- records, image and mapped addresses of a collection token ----

#[test]
fn mint_and_update() {
    let mut suite = Suite::new();
    let not_minter = "terp1notminter";
    let sender = ADMIN;
    let max_record_count = suite.coll.query_params().max_record_count;
    let token_id = s("Enterprise");

    assert_eq!(
        suite.coll.execute_mint(&s(not_minter), &token_id, &s(not_minter), Metadata::default(), &canon(not_minter)),
        Err(AccountError::UnauthorizedMinter)
    );
    suite.coll.execute_mint(&s(MARKET), &token_id, &s(sender), Metadata::default(), &canon(sender)).unwrap();

    // the token holds the metadata it was minted with
    let res = suite.nft_info("Enterprise").unwrap();
    assert_eq!(res.token_uri, None);
    assert_eq!(res.extension, Metadata::default());

    // update image
    let new_nft = terp_accounts::types::Nft { collection: s("contract"), token_id: s("token_id") };
    suite.coll.update_image_nft(&s(sender), &vec![], &token_id, Some(new_nft.clone())).unwrap();
    assert_eq!(suite.coll.query_image_nft(&token_id).unwrap(), Some(new_nft));

    // add text record
    let new_record = TextRecord::new("test", "test");
    suite.coll.execute_update_text_record(&s(sender), &vec![], &token_id, new_record.clone()).unwrap();
    let records = suite.coll.query_text_records(&token_id).unwrap();
    assert_eq!(records.len(), 1);
    assert_eq!(records[0], new_record);
    assert_eq!(records[0].account, "test");
    assert_eq!(records[0].value, "test");
    assert!(!suite.coll.query_is_twitter_verified(&token_id).unwrap());

    // trigger too many records error
    for i in 1..=max_record_count {
        let rec = TextRecord::new(&format!("key{:?}", i), "value");
        let res = suite.coll.execute_update_text_record(&s(sender), &vec![], &token_id, rec);
        if i == max_record_count {
            assert_eq!(res, Err(AccountError::TooManyRecords { max: max_record_count }));
            break;
        } else {
            res.unwrap();
        }
    }

    // rm text records
    suite.coll.execute_remove_text_record(&s(sender), &vec![], &token_id, &s("test")).unwrap();
    for i in 1..=max_record_count {
        suite.coll.execute_remove_text_record(&s(sender), &vec![], &token_id, &format!("key{:?}", i)).unwrap();
    }
    assert_eq!(suite.nft_info("Enterprise").unwrap().extension.records.len(), 0);

    // unauthorized add txt record
    assert_eq!(
        suite.coll.execute_add_text_record(&s(not_minter), &vec![], &token_id, new_record.clone()),
        Err(AccountError::Ownership(OwnershipError::NotOwner))
    );
    // passes
    suite.coll.execute_add_text_record(&s(sender), &vec![], &token_id, new_record.clone()).unwrap();
    assert_eq!(suite.nft_info("Enterprise").unwrap().extension.records.len(), 1);

    // add another txt record
    suite.coll.execute_add_text_record(&s(sender), &vec![], &token_id, TextRecord::new("twitter", "jackdorsey")).unwrap();
    assert_eq!(suite.nft_info("Enterprise").unwrap().extension.records.len(), 2);

    // add duplicate record
    let record = TextRecord::new("test", "testtesttest");
    assert_eq!(
        suite.coll.execute_add_text_record(&s(sender), &vec![], &token_id, record.clone()),
        Err(AccountError::RecordAccountAlreadyExists)
    );
    // update txt record
    suite.coll.execute_update_text_record(&s(sender), &vec![], &token_id, record.clone()).unwrap();
    let res = suite.nft_info("Enterprise").unwrap();
    assert_eq!(res.extension.records.len(), 2);
    assert_eq!(res.extension.records[1].value, record.value);
    // rm txt record
    suite.coll.execute_remove_text_record(&s(sender), &vec![], &token_id, &record.account).unwrap();
    assert_eq!(suite.nft_info("Enterprise").unwrap().extension.records.len(), 1);
}

#[test]
fn test_reverse_map_key_limit() {
    let mut suite = Suite::new();
    let minter = MARKET;
    let notminter = "terp1notminter";
    let sender = ADMIN;

    // twenty non-native addresses whose signatures check out, with their public keys
    let carbs: Vec<(String, String)> = (0..20).map(|i| (format!("cosmos1external{:02}", i), format!("pubkey{:02}", i))).collect();
    let fifth_carb = carbs[5].clone();

    let token_id = s("Enterprise");
    suite.coll.execute_mint(&s(minter), &token_id, &s(sender), Metadata::default(), &canon(sender)).unwrap();

    // try to set more than the limit of associated addresses in one go
    let all: Vec<Result<String, String>> = carbs.iter().map(|c| Ok(c.0.clone())).collect();
    assert_eq!(
        suite.coll.execute_update_reverse_map_keys(&s(sender), &vec![], &canon(sender), all, vec![]),
        Err(AccountError::TooManyReverseMaps { max: 10, have: 20 })
    );

    // not owner tries to update reverse map
    for i in 0..11 {
        assert_eq!(
            suite.coll.execute_update_reverse_map_keys(&s(minter), &vec![], &canon(minter), vec![Ok(carbs[i].0.clone())], vec![]),
            Err(AccountError::AccountNotFound)
        );
    }
    // owner sets the limit of associated addresses one by one
    for i in 0..10 {
        let res = suite.coll.execute_update_reverse_map_keys(&s(sender), &vec![], &canon(sender), vec![Ok(carbs[i].0.clone())], vec![]);
        assert!(res.is_ok());
    }

    // associate address with token owner
    suite.associate(sender, "Enterprise", Some(sender)).unwrap();
    // the account is found through the non-native address
    assert_eq!(suite.account_of(&fifth_carb.0).unwrap(), "Enterprise");
    for _ in 0..10 {
        assert_eq!(suite.coll.transcode(&fifth_carb.0).unwrap(), sender);
    }

    // try to remove more than exist at once
    let all_keys: Vec<String> = carbs.iter().map(|c| c.1.clone()).collect();
    assert_eq!(
        suite.coll.execute_update_reverse_map_keys(&s(sender), &vec![], &canon(sender), vec![], all_keys),
        Err(AccountError::CannotRemoveMoreThanWillExists)
    );

    // only the owner of a token can remove
    assert_eq!(
        suite.coll.execute_update_reverse_map_keys(&s(notminter), &vec![], &canon(notminter), vec![], vec![fifth_carb.1.clone()]),
        Err(AccountError::AccountNotFound)
    );

    for i in 0..10 {
        let res = suite.coll.execute_update_reverse_map_keys(&s(sender), &vec![], &canon(sender), vec![], vec![carbs[i].1.clone()]);
        assert!(res.is_ok());
    }
}

#[test]
fn account_test_transcode() {
    let mut suite = Suite::new();
    let cosmos1 = "cosmos1mappedaddress";
    let terp1 = "terp1owneraddress";
    let res = suite.coll.transcode(&s("cosmos1y54exmx84cqtasvjnskf9f63djuuj68p7hqf47"));
    assert_eq!(
        res.unwrap_err().to_string(),
        "Generic error: no mappping set. Set a non `terp1...` addr mapped to your`terp1..` that owns this account token with UpdateMyReverseMapKey"
    );

    // map the address to its owner
    suite.coll.execute_mint(&s(MARKET), &s("owned"), &s(terp1), Metadata::default(), &canon(terp1)).unwrap();
    suite.coll.execute_update_reverse_map_keys(&s(terp1), &vec![], &canon(terp1), vec![Ok(s(cosmos1))], vec![]).unwrap();

    let res = suite.coll.transcode(&s(cosmos1)).unwrap();
    assert_eq!(terp1.to_string(), res);
}

#[test]
fn commands_test_transcode() {
    let suite = Suite::new();
    let res = suite.coll.transcode(&s("akash1fxccvvhhy43tvet2ah7jqwq4cwl9k3dx3l2y8r")).unwrap_err();
    assert_eq!(
        res.to_string(),
        "Generic error: no mappping set. Set a non `terp1...` addr mapped to your`terp1..` that owns this account token with UpdateMyReverseMapKey"
    )
}

#[test]
fn test_metadata() {
    // default() sets account_ownership to false
    let default_metadata = Metadata::default();
    assert!(!default_metadata.account_ownership);
    assert_eq!(default_metadata.image_nft, None);
    assert_eq!(default_metadata.records, vec![]);

    // default_with_account() enables account_ownership
    let account_metadata = Metadata::default_with_account();
    assert!(account_metadata.account_ownership);
    assert_eq!(account_metadata.image_nft, None);
    assert_eq!(account_metadata.records, vec![]);

    // custom metadata with values
    let custom_metadata = Metadata {
        account_ownership: true,
        image_nft: Some(terp_accounts::types::Nft { token_id: s("1"), collection: s("contract123") }),
        records: vec![TextRecord { account: s("website"), value: s("terp.io"), verified: None }],
    };
    assert!(custom_metadata.account_ownership);
    assert_eq!(custom_metadata.records.len(), 1);
    assert_eq!(custom_metadata.image_nft.unwrap().collection, "contract123");
}

// ---- escrow and mapped addresses through cancellations and moves ----

#[test]
fn cancel_without_cooldown_refunds_the_buyer() {
    let mut suite = Suite::new();
    suite.market.sudo_update_params(None, None, None, None, None, None, None, Some(0), None).unwrap();
    suite.wait(200);
    suite.mint_and_list("bandura", ADMIN).unwrap();
    suite.bid("bandura", "terp1buyer", BID_AMOUNT).unwrap();
    assert_eq!(suite.balance("terp1buyer"), 0);
    suite.accept(ADMIN, "bandura", "terp1buyer").unwrap();
    suite.cancel(ADMIN, "bandura", vec![]).unwrap();
    assert_eq!(suite.balance("terp1buyer"), BID_AMOUNT);
    assert!(!suite.in_cooldown("bandura"));
}

#[test]
fn accepting_again_refunds_the_waiting_buyer() {
    let mut suite = Suite::new();
    suite.wait(200);
    suite.mint_and_list("bandura", ADMIN).unwrap();
    suite.bid("bandura", "terp1first", BID_AMOUNT).unwrap();
    suite.accept(ADMIN, "bandura", "terp1first").unwrap();
    suite.bid("bandura", "terp1second", BID_AMOUNT + 1).unwrap();
    suite.accept(ADMIN, "bandura", "terp1second").unwrap();
    assert_eq!(suite.balance("terp1first"), BID_AMOUNT);
    assert_eq!(suite.market.query_cooldown(&s("bandura")).unwrap().new_owner, "terp1second");
}

#[test]
fn a_move_unmaps_the_owners_addresses_and_clears_the_token() {
    let mut suite = Suite::new();
    let token = s("enterprise");
    suite.wait(200);
    suite.mint_and_list("enterprise", ADMIN).unwrap();
    let adds: Vec<Result<String, String>> = vec![Ok(s("cosmos1one")), Ok(s("cosmos1two"))];
    suite.coll.execute_update_reverse_map_keys(&s(ADMIN), &vec![], &canon(ADMIN), adds, vec![]).unwrap();
    suite.coll.execute_add_text_record(&s(ADMIN), &vec![], &token, TextRecord::new("twitter", "me")).unwrap();
    let image = terp_accounts::types::Nft { collection: s("terp1art"), token_id: s("1") };
    suite.coll.update_image_nft(&s(ADMIN), &vec![], &token, Some(image)).unwrap();
    assert_eq!(suite.coll.transcode(&s("cosmos1one")).unwrap(), ADMIN);

    suite.transfer(ADMIN, "terp1other", "enterprise").unwrap();
    assert!(suite.coll.transcode(&s("cosmos1one")).is_err());
    assert!(suite.coll.transcode(&s("cosmos1two")).is_err());
    assert_eq!(suite.coll.revmap_counts.get(&canon(ADMIN)), Some(&0));
    let info = suite.nft_info("enterprise").unwrap();
    assert_eq!(info.extension.records.len(), 0);
    assert_eq!(info.extension.image_nft, None);
    assert!(!info.extension.account_ownership);
}

#[test]
fn associating_keeps_the_mapped_address_count() {
    let mut suite = Suite::new();
    let token = s("Enterprise");
    suite.coll.execute_mint(&s(MARKET), &token, &s(ADMIN), Metadata::default(), &canon(ADMIN)).unwrap();
    let adds: Vec<Result<String, String>> = (0..3).map(|i| Ok(format!("cosmos1key{}", i))).collect();
    suite.coll.execute_update_reverse_map_keys(&s(ADMIN), &vec![], &canon(ADMIN), adds, vec![]).unwrap();
    suite.associate(ADMIN, "Enterprise", Some(ADMIN)).unwrap();
    assert_eq!(suite.coll.revmap_counts.get(&canon(ADMIN)), Some(&3));
    let more: Vec<Result<String, String>> = (3..11).map(|i| Ok(format!("cosmos1key{}", i))).collect();
    assert_eq!(
        suite.coll.execute_update_reverse_map_keys(&s(ADMIN), &vec![], &canon(ADMIN), more, vec![]),
        Err(AccountError::TooManyReverseMaps { max: 10, have: 11 })
    );
}

#[test]
fn a_flagged_token_without_account_refunds_the_buyer() {
    let mut suite = Suite::new();
    suite.wait(200);
    suite.mint_and_list("bandura", ADMIN).unwrap();
    suite.bid("bandura", "terp1buyer", BID_AMOUNT).unwrap();
    suite.accept(ADMIN, "bandura", "terp1buyer").unwrap();
    suite.wait(60);
    let block = suite.block();
    let info = NftInfo { token_uri: None, extension: Metadata::default_with_account() };
    let (msgs, _) = suite.market.execute_finalize_bid(&block, &s("bandura"), Ok(Expiration::Never), Ok(info), Err(s("no address"))).unwrap();
    suite.run_market(msgs).unwrap();
    // the buyer gets the token and the price back
    assert_eq!(suite.owner_of("bandura").unwrap(), "terp1buyer");
    assert_eq!(suite.balance("terp1buyer"), BID_AMOUNT);
}

#[test]
fn asks_get_distinct_increasing_ids() {
    let mut suite = Suite::new();
    suite.wait(200);
    suite.mint_and_list("bandura", ADMIN).unwrap();
    suite.mint_and_list("hack", ADMIN).unwrap();
    suite.mint_and_list("jump", ADMIN).unwrap();
    let asks = suite.market.query_asks(None, None);
    let mut ids: Vec<u32> = asks.iter().map(|a| a.id).collect();
    ids.sort();
    assert_eq!(ids, vec![1, 2, 3]);
    assert_eq!(suite.market.query_ask_count(), Ok(3));
}

#[test]
fn descending_bid_page_is_the_ascending_one_reversed() {
    let mut suite = Suite::new();
    suite.wait(200);
    suite.mint_and_list("bandura", ADMIN).unwrap();
    suite.mint_and_list("hack", ADMIN).unwrap();
    suite.bid("bandura", "terp1bidder1", BID_AMOUNT).unwrap();
    suite.bid("bandura", "terp1bidder2", BID_AMOUNT * 3).unwrap();
    suite.bid("hack", "terp1bidder1", BID_AMOUNT * 2).unwrap();
    let key = |b: &terp_accounts::types::Bid| (b.token_id.clone(), b.bidder.clone(), b.amount);
    let up: Vec<_> = suite.market.query_bids_sorted_by_price(None, Some(10)).iter().map(key).collect();
    let down: Vec<_> = suite.market.reverse_query_bids_sorted_by_price(None, Some(10)).iter().map(key).collect();
    assert_eq!(up.len(), 3);
    let mut reversed = up.clone();
    reversed.reverse();
    assert_eq!(down, reversed);
    let top: Vec<_> = suite.market.reverse_query_bids_sorted_by_price(None, Some(2)).iter().map(key).collect();
    assert_eq!(top, reversed[..2].to_vec());
}

#[test]
fn trades_report_their_events() {
    let mut suite = Suite::new();
    let bidder = "terp1bidder";
    suite.wait(200);
    suite.mint_and_list("bandura", ADMIN).unwrap();
    suite.bid("bandura", bidder, BID_AMOUNT).unwrap();
    assert_eq!(
        suite.events.last().unwrap().attributes,
        vec![text("token_id", "bandura"), text("bidder", bidder), amount("bid_price", BID_AMOUNT)]
    );
    suite.accept(ADMIN, "bandura", bidder).unwrap();
    assert_eq!(suite.events.last().unwrap().kind, "accept-bid");
    assert_eq!(suite.events.last().unwrap().attributes[2], amount("price", BID_AMOUNT));
    suite.wait(60);
    let before = suite.events.len();
    suite.finalize("bandura").unwrap();
    // the sale's own event comes first, then those of the token's move
    assert_eq!(
        suite.events.get(before),
        Some(&Event {
            kind: s("finalize-sale"),
            attributes: vec![text("token_id", "bandura"), text("seller", ADMIN), text("buyer", bidder), amount("price", BID_AMOUNT)],
        })
    );
    let before = suite.events.len();
    suite.transfer(bidder, "terp1friend", "bandura").unwrap();
    assert_eq!(
        &suite.events[before..],
        &[
            Event {
                kind: s("transfer"),
                attributes: vec![text("sender", bidder), text("recipient", "terp1friend"), text("token_id", "bandura")],
            },
            Event { kind: s("update-ask"), attributes: vec![text("token_id", "bandura"), text("seller", "terp1friend")] },
        ][..]
    );
}

#[test]
fn association_reports_the_address() {
    let mut suite = Suite::new();
    suite.wait(200);
    suite.mint_and_list("bandura", ADMIN).unwrap();
    suite.associate(ADMIN, "bandura", Some(ADMIN)).unwrap();
    assert_eq!(
        suite.events.last(),
        Some(&Event {
            kind: s("associate-address"),
            attributes: vec![text("account", "bandura"), text("owner", ADMIN), text("address", ADMIN)],
        })
    );
    suite.associate(ADMIN, "bandura", None).unwrap();
    assert_eq!(suite.events.last().unwrap().attributes, vec![text("account", "bandura"), text("owner", ADMIN)]);
}
