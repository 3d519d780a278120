use terp_accounts::collection_links::{validate_address, AddressFacts};
use terp_accounts::errors::{AccountError, MarketError};
use terp_accounts::funds::PaymentError;
use terp_accounts::market::{Market, MarketMsg};
use terp_accounts::market_admin::{ManageHooksAction, MarketInit};
use terp_accounts::market_queries::{MarketQueryResponse, QueryMsg};
use terp_accounts::market_sale::payout;
use terp_accounts::ownership_verifier::{ExecuteMsg, Governance, InstantiateMsg, OwnershipVerifier, QueryMsg as OwnerQuery};
use terp_accounts::pricing::validate_payment;
use terp_accounts::types::Coin;
use terp_accounts::collection::Collection;
use terp_accounts::errors::StdError;
use terp_accounts::migration::{migration_check, str_at_least};
use terp_accounts::migration::HookReply;
use terp_accounts::market_admin::SudoMsg;
use terp_accounts::market::{ask_key, bid_key};

const NANOS: u64 = 1_000_000_000;

fn s(x: &str) -> String {
    x.to_string()
}

fn coin(amount: u128, denom: &str) -> Coin {
    Coin { denom: s(denom), amount }
}

fn market() -> Market {
    let init = MarketInit {
        verifier: None,
        collection_code_id: 1,
        min_account_length: 3,
        max_account_length: 128,
        base_price: 100_000_000,
        base_delegation: 2_100_000_000,
        trading_fee_bps: 0,
        min_price: 100,
        ask_interval: 30,
        valid_bid_query_limit: 100,
        cooldown_timeframe: 60,
        cooldown_cancel_fee: coin(500_000_000, "uthiol"),
        admin: None,
        hooks_admin: None,
        mint_start_delay: Some(200),
    };
    Market::instantiate(s("terp1admin"), s("terp1market"), 1_000 * NANOS, vec![], s("terp1collection"), init, s("terp1dao"))
        .unwrap()
        .0
}

const TENTH: u128 = 100_000_000_000_000_000;

fn sudo_fee(m: &mut Market, bps: u64) {
    m.sudo(SudoMsg::UpdateParams {
        min_account_length: None,
        max_account_length: None,
        base_price: None,
        base_delegation: None,
        trading_fee_bps: Some(bps),
        min_price: None,
        ask_interval: None,
        cooldown_duration: None,
        cooldown_cancel_fee: None,
    })
    .unwrap();
}

#[test]
fn fee_rate_of_ten_percent() {
    // 1000 basis points is a tenth: 10^17 of the 10^18 atomics of one
    let mut m = market();
    assert_eq!(m.params.trading_fee_rate, 0);
    sudo_fee(&mut m, 1000);
    assert_eq!(m.params.trading_fee_rate, TENTH);
    sudo_fee(&mut m, 250);
    assert_eq!(m.params.trading_fee_rate, 25_000_000_000_000_000);
}

#[test]
fn fee_is_rounded_down() {
    assert_eq!(payout(1_000_000_000, TENTH, &s("seller")).unwrap()[0], MarketMsg::Burn { amount: 100_000_000 });
    assert_eq!(
        payout(19, TENTH, &s("seller")).unwrap(),
        vec![MarketMsg::Burn { amount: 1 }, MarketMsg::Send { to: s("seller"), amount: 18 }]
    );
    assert_eq!(payout(9, TENTH, &s("seller")).unwrap(), vec![MarketMsg::Send { to: s("seller"), amount: 9 }]);
}

#[test]
fn payout_splits_the_price() {
    let msgs = payout(1000, TENTH, &s("seller")).unwrap();
    assert_eq!(msgs, vec![MarketMsg::Burn { amount: 100 }, MarketMsg::Send { to: s("seller"), amount: 900 }]);
    // no fee: the seller gets it all and nothing is burnt
    let msgs = payout(1000, 0, &s("seller")).unwrap();
    assert_eq!(msgs, vec![MarketMsg::Send { to: s("seller"), amount: 1000 }]);
    // a fee above the price is refused
    assert!(matches!(payout(1000, 2_000_000_000_000_000_000, &s("seller")), Err(MarketError::Std(_))));
}

#[test]
fn payment_checks() {
    let price = 100_000_000;
    assert_eq!(validate_payment(5, &vec![coin(price, "uthiol")], price).unwrap().unwrap().amount, price);
    assert_eq!(validate_payment(5, &vec![], price), Err(MarketError::Payment(PaymentError::NoFunds)));
    assert_eq!(
        validate_payment(5, &vec![coin(price, "uatom")], price),
        Err(MarketError::Payment(PaymentError::MissingDenom(s("uthiol"))))
    );
    assert_eq!(
        validate_payment(5, &vec![coin(price, "uthiol"), coin(1, "uatom")], price),
        Err(MarketError::Payment(PaymentError::MultipleDenoms))
    );
    let mut m = market();
    assert_eq!(
        m.execute_remove_bid(&s("terp1bidder"), &vec![coin(1, "uthiol")], &s("bandura")),
        Err(MarketError::Payment(PaymentError::NonPayable))
    );
}

fn facts(name: &str, minter: Option<&str>, admin: Option<&str>) -> AddressFacts {
    AddressFacts {
        contract_name: Ok(s(name)),
        minter: Ok(minter.map(s)),
        admin_and_creator: Ok((admin.map(s), s("terp1creator"))),
        creator_admin: Ok(None),
    }
}

#[test]
fn cw721_collections_are_recognised_by_name() {
    let sender = s("terp1owner");
    let addr = s("terp1contract");
    // a collection whose minter is the sender
    assert_eq!(validate_address(&sender, &addr, &facts("crates.io:cw721-base", Some("terp1owner"), None)), Ok(()));
    // another contract is judged by its admin
    assert_eq!(
        validate_address(&sender, &addr, &facts("crates.io:terp721", Some("terp1owner"), None)),
        Err(AccountError::UnauthorizedCreatorOrAdmin)
    );
    assert_eq!(validate_address(&sender, &addr, &facts("crates.io:terp721", None, Some("terp1owner"))), Ok(()));
    // the sender's own address needs no check
    assert_eq!(validate_address(&sender, &sender, &facts("", None, None)), Ok(()));
}

#[test]
fn native_addresses_are_looked_up_directly() {
    let c = Collection::instantiate(s("terp1market"), None, s("terp1market"));
    // a native address is looked up as it is
    assert_eq!(
        c.query_account(&s("terp1nobody")),
        Err(StdError::GenericErr { msg: s("No account associated with address terp1nobody") })
    );
    // any other is first taken through its mapping
    assert_eq!(
        c.query_account(&s("cosmos1nobody")).unwrap_err().to_string(),
        "Generic error: no mappping set. Set a non `terp1...` addr mapped to your`terp1..` that owns this account token with UpdateMyReverseMapKey"
    );
}

#[test]
fn hook_removal_undoes_addition() {
    let mut m = market();
    let before = m.query(QueryMsg::SaleHooks {}).unwrap();
    m.manage_hooks(&s("terp1admin"), ManageHooksAction::AddSaleHook(s("terp1hook")), true).unwrap();
    assert_eq!(m.query(QueryMsg::SaleHooks {}).unwrap(), MarketQueryResponse::Hooks(vec![s("terp1hook")]));
    assert_eq!(
        m.manage_hooks(&s("terp1admin"), ManageHooksAction::AddSaleHook(s("terp1hook")), true),
        Err(MarketError::HookAlreadyRegistered)
    );
    m.manage_hooks(&s("terp1admin"), ManageHooksAction::RemoveSaleHook(s("terp1hook")), true).unwrap();
    assert_eq!(m.query(QueryMsg::SaleHooks {}).unwrap(), before);
    assert_eq!(
        m.manage_hooks(&s("terp1admin"), ManageHooksAction::RemoveSaleHook(s("terp1hook")), true),
        Err(MarketError::HookNotRegistered)
    );
    assert_eq!(
        m.manage_hooks(&s("terp1other"), ManageHooksAction::AddAskHook(s("terp1hook")), true),
        Err(MarketError::UnauthorizedMinter)
    );
}

#[test]
fn minting_opens_after_the_delay() {
    let m = market();
    assert_eq!(m.public_mint_start_time, 1_200 * NANOS);
}

#[test]
fn account_names_are_trimmed() {
    let mut m = market();
    let funds = vec![coin(100_000_000, "uthiol")];
    let (msgs, _) = m
        .execute_mint_and_list(&s("terp1user"), &funds, 1_300 * NANOS, "  bandura \n", Ok(vec![2_100_000_000]), Ok(()))
        .unwrap();
    assert_eq!(msgs[1], MarketMsg::Mint { collection: s("terp1collection"), token_id: s("bandura"), owner: s("terp1user") });
    assert_eq!(m.query_ask(&s("bandura")).unwrap().id, 1);
}

#[test]
fn abstract_account_reports_its_governance() {
    let mut v = OwnershipVerifier::instantiate(InstantiateMsg::new(&s("terp1collection"), "bandura"));
    assert_eq!(
        v.query(OwnerQuery::Ownership {}),
        Governance::Nft { collection_addr: s("terp1collection"), token_id: s("bandura") }
    );
    v.execute(ExecuteMsg::UpdateOwnership { ownership: Governance::Other(s("renounced")) });
    assert_eq!(v.query(OwnerQuery::Ownership {}), Governance::Other(s("renounced")));
}

#[test]
fn records_refuse_funds() {
    let mut c = Collection::instantiate(s("terp1market"), None, s("terp1market"));
    c.execute_mint(&s("terp1market"), &s("bandura"), &s("terp1user"), terp_accounts::types::Metadata::default(), &s("canon"))
        .unwrap();
    assert_eq!(
        c.execute_add_text_record(&s("terp1user"), &vec![coin(1, "uthiol")], &s("bandura"),
            terp_accounts::types::TextRecord::new("twitter", "me")),
        Err(AccountError::Payment(PaymentError::NonPayable))
    );
}

#[test]
fn migration_needs_an_older_version_of_the_same_contract() {
    assert!(Market::migrate("crates.io:terp721-account-manifold", "0.1.0", "0.2.0").is_ok());
    assert_eq!(
        Market::migrate("crates.io:terp721-account-manifold", "0.2.0", "0.2.0"),
        Err(StdError::GenericErr { msg: s("unable to migrate terp721-account minter.") })
    );
    assert!(Market::migrate("crates.io:terp721-account", "0.1.0", "0.2.0").is_err());
    assert!(Collection::migrate("crates.io:terp721-account", "0.1.0", "0.1.1").is_ok());
    assert_eq!(
        Collection::migrate("crates.io:terp721-account", "0.3.0", "0.2.9"),
        Err(StdError::GenericErr { msg: s("unable to migrate terp721-account.") })
    );
    // versions compare as strings do
    assert!(str_at_least("0.10.0", "0.9.0") == ("0.10.0" >= "0.9.0"));
    assert!(str_at_least("1.0", "1.0"));
    assert!(!str_at_least("1.0", "1.0.1"));
    assert!(migration_check("a", "1", "a", "2", "no").is_ok());
    assert!(migration_check("a", "1", "b", "2", "no").is_err());
}

#[test]
fn hook_replies_refuse_the_message() {
    assert_eq!(Market::reply(1, s("ask hook failed")), MarketError::Std(s("ask hook failed")));
    assert_eq!(Market::reply(3, s("bid hook failed")), MarketError::Std(s("bid hook failed")));
    assert_eq!(HookReply::from_id(2), HookReply::Sale);
}

#[test]
fn governance_messages() {
    let mut m = market();
    m.sudo(SudoMsg::UpdateAccountCollection { collection: s("terp1other") }).unwrap();
    assert_eq!(m.collection, "terp1other");
    assert_eq!(
        m.sudo(SudoMsg::UpdateParams {
            min_account_length: None,
            max_account_length: None,
            base_price: None,
            base_delegation: None,
            trading_fee_bps: Some(10_001),
            min_price: None,
            ask_interval: None,
            cooldown_duration: None,
            cooldown_cancel_fee: None,
        }),
        Err(MarketError::InvalidTradingFeeBps(10_001))
    );
    m.sudo(SudoMsg::UpdateParams {
        min_account_length: Some(4),
        max_account_length: None,
        base_price: Some(7),
        base_delegation: None,
        trading_fee_bps: Some(200),
        min_price: None,
        ask_interval: None,
        cooldown_duration: None,
        cooldown_cancel_fee: None,
    })
    .unwrap();
    assert_eq!(m.params.min_account_length, 4);
    assert_eq!(m.params.max_account_length, 128);
    assert_eq!(m.params.base_price, 7);
    assert_eq!(m.params.trading_fee_rate, 20_000_000_000_000_000);
}

#[test]
fn ask_counter_and_keys() {
    let mut m = market();
    assert_eq!(m.ask_count(), 0);
    assert_eq!(m.query_ask_count().is_err(), true);
    assert_eq!(m.increment_asks(), 1);
    assert_eq!(m.increment_asks(), 2);
    assert_eq!(m.decrement_asks(), 1);
    assert_eq!(m.query_ask_count(), Ok(1));
    assert_eq!(ask_key("bandura"), "bandura");
    let k = bid_key("bandura", &s("terp1bidder"));
    assert_eq!(k.token_id, "bandura");
    assert_eq!(k.bidder, "terp1bidder");
}

#[test]
fn paused_minting_refuses_before_pricing() {
    let mut m = market();
    m.sudo_update_params(None, None, Some(u128::MAX / 10), None, None, None, None, None, None).unwrap();
    m.execute_pause(Ok(()), true).unwrap();
    let funds = vec![coin(1, "uthiol")];
    let delegations: Result<Vec<u128>, String> = Ok(vec![u128::MAX, 1]);
    assert!(m.mint_fits_check(1_300 * NANOS, "abc", &funds, &delegations, &Ok(())));
    assert_eq!(
        m.execute_mint_and_list(&s("terp1user"), &funds, 1_300 * NANOS, "abc", delegations, Ok(())).map(|_| ()),
        Err(MarketError::MintingPaused)
    );
}

#[test]
fn an_unpaused_oversized_price_is_caught_before_the_call() {
    let mut m = market();
    m.sudo_update_params(None, None, Some(u128::MAX / 10), None, None, None, None, None, None).unwrap();
    let funds = vec![coin(1, "uthiol")];
    assert!(!m.mint_fits_check(1_300 * NANOS, " abc ", &funds, &Ok(vec![]), &Ok(())));
    assert!(m.mint_fits_check(1_300 * NANOS, " abcdefgh ", &funds, &Ok(vec![]), &Ok(())));
}

#[test]
fn the_owner_is_the_admin_or_the_sender() {
    let init = |admin: Option<&str>| MarketInit {
        verifier: None,
        collection_code_id: 1,
        min_account_length: 3,
        max_account_length: 128,
        base_price: 100,
        base_delegation: 100,
        trading_fee_bps: 0,
        min_price: 100,
        ask_interval: 30,
        valid_bid_query_limit: 100,
        cooldown_timeframe: 60,
        cooldown_cancel_fee: coin(5, "uthiol"),
        admin: admin.map(s),
        hooks_admin: None,
        mint_start_delay: None,
    };
    let (_, _, owner) = Market::instantiate(s("terp1sender"), s("terp1market"), 0, vec![], s("terp1c"), init(None), s("terp1dao")).unwrap();
    assert_eq!(owner, "terp1sender");
    let (_, _, owner) =
        Market::instantiate(s("terp1sender"), s("terp1market"), 0, vec![], s("terp1c"), init(Some("terp1boss")), s("terp1dao")).unwrap();
    assert_eq!(owner, "terp1boss");
}

#[test]
fn removing_a_record_twice_is_removing_it_once() {
    let mut c = Collection::instantiate(s("terp1market"), None, s("terp1market"));
    c.execute_mint(&s("terp1market"), &s("bandura"), &s("terp1user"), terp_accounts::types::Metadata::default(), &s("canon"))
        .unwrap();
    c.execute_add_text_record(&s("terp1user"), &vec![], &s("bandura"), terp_accounts::types::TextRecord::new("twitter", "me"))
        .unwrap();
    c.execute_add_text_record(&s("terp1user"), &vec![], &s("bandura"), terp_accounts::types::TextRecord::new("site", "x.y"))
        .unwrap();
    let ev = c.execute_remove_text_record(&s("terp1user"), &vec![], &s("bandura"), &s("twitter")).unwrap();
    assert_eq!(ev.kind, "remove-text-record");
    let once = c.query_text_records(&s("bandura")).unwrap();
    assert_eq!(once.len(), 1);
    assert_eq!(once[0].account, "site");
    c.execute_remove_text_record(&s("terp1user"), &vec![], &s("bandura"), &s("twitter")).unwrap();
    assert_eq!(c.query_text_records(&s("bandura")).unwrap(), once);
}
