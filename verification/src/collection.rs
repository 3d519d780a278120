//! The account collection: the state it keeps beside the tokens, minting,
//! the text records and image of an account, and its plain queries.
use vstd::prelude::*;
use crate::events::{event3, texts_event, Event};
use crate::errors::{AccountError, OwnershipError, StdError};
use crate::funds::{nonpayable, PaymentError};
use crate::records::{add_record, has_key, record_check, remove_record, update_record, validate_record, verify_record,
    without_key, is_twitter_verified, twitter_verified};
use crate::strmap::StrMap;
use crate::types::{BlockInfo, Coin, Expiration, Metadata, Nft, TextRecord};

verus! {

/// The limits that governance (sudo) sets on the collection.
#[derive(Clone, Copy, Debug, PartialEq, Eq)]
pub struct SudoParams {
    pub max_record_count: u32,
    /// How many non-native addresses one owner may map to itself.
    pub max_reverse_map_key_limit: u32,
}

/// The governance messages of the collection.
#[derive(Clone, Copy, Debug, PartialEq, Eq)]
pub enum SudoMsg {
    UpdateParams { max_record_count: u32, max_rev_map_count: u32 },
}

/// The (empty) migration message of the collection.
#[derive(Clone, Copy, Debug, PartialEq, Eq)]
pub struct MigrateMsg {}

/// What the collection keeps of an account token.
#[derive(Debug, PartialEq, Eq)]
pub struct TokenInfo {
    pub owner: String,
    /// The address associated with the account, if any.
    pub token_uri: Option<String>,
    pub extension: Metadata,
}

/// The owner a non-native address is mapped to: its canonical form and its
/// address.
#[derive(Debug, PartialEq, Eq)]
pub struct KeyOwner {
    pub canon: String,
    pub addr: String,
}

/// An operator allowed to move all tokens of `owner` until `expires`.
#[derive(Debug, PartialEq, Eq)]
pub struct Operator {
    pub owner: String,
    pub operator: String,
    pub expires: Expiration,
}

/// A message the collection sends to the marketplace once the message it
/// handles succeeds.
#[derive(Debug, PartialEq, Eq)]
pub enum AccountMsg {
    /// Refund every bid on `token_id`.
    RemoveBids { market: String, token_id: String },
    /// `token_id` now belongs to `seller`.
    UpdateAsk { market: String, token_id: String, seller: String },
    /// `token_id` was burnt.
    RemoveAsk { market: String, token_id: String },
}

/// The state of the collection.
#[derive(Debug)]
pub struct Collection {
    /// The tokens, by token id (the account name).
    pub tokens: StrMap<TokenInfo>,
    pub num_tokens: u64,
    /// Associated address to the account it is associated with.
    pub reverse_map: StrMap<String>,
    /// Non-native address to the owner that mapped it.
    pub reverse_map_keys: StrMap<KeyOwner>,
    /// Canonical owner address to how many addresses it mapped.
    pub revmap_counts: StrMap<u32>,
    pub params: SudoParams,
    /// The marketplace.
    pub manifold: String,
    /// The verification oracle.
    pub verifier: Option<String>,
    /// Who may mint.
    pub minter: Option<String>,
    /// The operators the collection itself grants.
    pub operators: Vec<Operator>,
}

/// The position of the operator entry for `owner` and `operator`, or -1.
pub open spec fn operator_idx(ops: Seq<Operator>, owner: Seq<char>, operator: Seq<char>) -> int {
    if exists|i: int| 0 <= i < ops.len() && ops[i].owner@ == owner && ops[i].operator@ == operator {
        choose|i: int| 0 <= i < ops.len() && ops[i].owner@ == owner && ops[i].operator@ == operator
    } else {
        -1
    }
}

/// `ops` with the entry for `owner` and `operator` set to `expires`.
pub open spec fn operators_put(ops: Seq<Operator>, o: Operator) -> Seq<Operator> {
    let i = operator_idx(ops, o.owner@, o.operator@);
    if i >= 0 { ops.update(i, o) } else { ops.push(o) }
}

/// Whether `sender` owns the token `token_id`.
pub open spec fn owns(c: Collection, sender: Seq<char>, token_id: Seq<char>) -> bool {
    c.tokens@.contains_key(token_id) && c.tokens@[token_id].owner@ == sender
}

/// The error `only_owner` gives when `sender` does not own `token_id`: a
/// generic one for a missing token, `NotOwner` otherwise.
pub open spec fn not_owner_err<T>(c: Collection, token_id: Seq<char>, r: Result<T, AccountError>) -> bool {
    &&& !c.tokens@.contains_key(token_id) ==> (r matches Err(AccountError::Std(_)))
    &&& c.tokens@.contains_key(token_id) ==> r == Err::<T, AccountError>(AccountError::Ownership(OwnershipError::NotOwner))
}

impl Collection {
    /// The state invariant: every map has distinct keys, the token count is
    /// the number of tokens, and there is at most one operator entry per owner
    /// and operator.
    pub open spec fn wf(&self) -> bool {
        &&& self.tokens.wf()
        &&& self.tokens.entries@.len() == self.num_tokens
        &&& self.reverse_map.wf()
        &&& self.reverse_map_keys.wf()
        &&& self.revmap_counts.wf()
        &&& forall|i: int, j: int| 0 <= i < self.operators@.len() && 0 <= j < self.operators@.len() && i != j
            ==> !(self.operators@[i].owner@ == self.operators@[j].owner@ && self.operators@[i].operator@ == self.operators@[j].operator@)
    }

    /// Sets up the collection: `manifold` (the instantiating marketplace) is
    /// its marketplace and `minter` may mint; records and mapped addresses are
    /// limited to ten each.
    pub fn instantiate(manifold: String, verifier: Option<String>, minter: String) -> (c: Collection)
        ensures
            c.wf(),
            c.tokens@ == Map::<Seq<char>, TokenInfo>::empty(),
            c.num_tokens == 0,
            c.reverse_map@ == Map::<Seq<char>, String>::empty(),
            c.reverse_map_keys@ == Map::<Seq<char>, KeyOwner>::empty(),
            c.revmap_counts@ == Map::<Seq<char>, u32>::empty(),
            c.params == (SudoParams { max_record_count: 10, max_reverse_map_key_limit: 10 }),
            c.manifold == manifold,
            c.verifier == verifier,
            c.minter == Some(minter),
            c.operators@.len() == 0,
    {
        Collection {
            tokens: StrMap::new(),
            num_tokens: 0,
            reverse_map: StrMap::new(),
            reverse_map_keys: StrMap::new(),
            revmap_counts: StrMap::new(),
            params: SudoParams { max_record_count: 10, max_reverse_map_key_limit: 10 },
            manifold,
            verifier,
            minter: Some(minter),
            operators: Vec::new(),
        }
    }

    /// Refuses unless `sender` owns `token_id`.
    pub fn only_owner(&self, sender: &String, token_id: &String) -> (r: Result<(), AccountError>)
        requires
            self.wf(),
        ensures
            r is Ok <==> owns(*self, sender@, token_id@),
            r is Err ==> not_owner_err(*self, token_id@, r),
    {
        match self.tokens.get(token_id) {
            None => Err(AccountError::Std(String::from_str("not found"))),
            Some(t) => {
                if t.owner == *sender {
                    Ok(())
                } else {
                    Err(AccountError::Ownership(OwnershipError::NotOwner))
                }
            },
        }
    }

    /// The owner of `account` adds a text record, unverified; its key must be
    /// new and the record count stays within the limit.
    pub fn execute_add_text_record(&mut self, sender: &String, funds: &Vec<Coin>, account: &String, record: TextRecord) -> (r: Result<(), AccountError>)
        requires
            old(self).wf(),
        ensures
            final(self).wf(),
            r is Err ==> *final(self) == *old(self),
            ({
                let rec = TextRecord { verified: None, ..record };
                let t = old(self).tokens@[account@];
                let max = old(self).params.max_record_count;
                &&& !owns(*old(self), sender@, account@) ==> not_owner_err(*old(self), account@, r)
                &&& owns(*old(self), sender@, account@) && funds@.len() != 0
                    ==> r == Err::<(), AccountError>(AccountError::Payment(PaymentError::NonPayable))
                &&& owns(*old(self), sender@, account@) && funds@.len() == 0 && record_check(rec) is Err
                    ==> r == record_check(rec)
                &&& owns(*old(self), sender@, account@) && funds@.len() == 0 && record_check(rec) is Ok
                    && has_key(t.extension.records@, rec.account@)
                    ==> r == Err::<(), AccountError>(AccountError::RecordAccountAlreadyExists)
                &&& owns(*old(self), sender@, account@) && funds@.len() == 0 && record_check(rec) is Ok
                    && !has_key(t.extension.records@, rec.account@) && t.extension.records@.len() + 1 > max
                    ==> r == Err::<(), AccountError>(AccountError::TooManyRecords { max })
                &&& owns(*old(self), sender@, account@) && funds@.len() == 0 && record_check(rec) is Ok
                    && !has_key(t.extension.records@, rec.account@) && t.extension.records@.len() + 1 <= max ==> r is Ok
                &&& r is Ok ==> records_set(*old(self), *final(self), account@, t.extension.records@.push(rec))
            }),
    {
        match self.only_owner(sender, account) {
            Ok(()) => {},
            Err(e) => return Err(e),
        }
        let mut record = record;
        record.verified = None;
        if let Err(e) = nonpayable(funds) {
            return Err(AccountError::Payment(e));
        }
        match validate_record(&record) {
            Ok(()) => {},
            Err(e) => return Err(e),
        }
        let t = self.tokens.get(account).unwrap();
        let mut recs = t.extension.records.clone();
        proof {
            assert(recs@ =~= t.extension.records@);
        }
        match add_record(&mut recs, record, self.params.max_record_count) {
            Ok(()) => {},
            Err(e) => return Err(e),
        }
        let nt = with_new_records(t, recs);
        self.tokens.insert(account.clone(), nt);
        Ok(())
    }

    /// The owner of `account` drops its records keyed `record_account`.
    pub fn execute_remove_text_record(&mut self, sender: &String, funds: &Vec<Coin>, account: &String, record_account: &String) -> (r: Result<Event, AccountError>)
        requires
            old(self).wf(),
        ensures
            final(self).wf(),
            r is Err ==> *final(self) == *old(self),
            !owns(*old(self), sender@, account@) ==> not_owner_err(*old(self), account@, r),
            owns(*old(self), sender@, account@) && funds@.len() != 0
                ==> r == Err::<Event, AccountError>(AccountError::Payment(PaymentError::NonPayable)),
            owns(*old(self), sender@, account@) && funds@.len() == 0 ==> r is Ok,
            r is Ok ==> records_set(*old(self), *final(self), account@,
                without_key(old(self).tokens@[account@].extension.records@, record_account@)),
            r matches Ok(ev) ==> texts_event(ev, "remove-text-record"@,
                seq![("sender"@, sender@), ("account"@, account@), ("record_account"@, record_account@)]),
    {
        match self.only_owner(sender, account) {
            Ok(()) => {},
            Err(e) => return Err(e),
        }
        if let Err(e) = nonpayable(funds) {
            return Err(AccountError::Payment(e));
        }
        let t = self.tokens.get(account).unwrap();
        let mut recs = t.extension.records.clone();
        proof {
            assert(recs@ =~= t.extension.records@);
        }
        remove_record(&mut recs, record_account);
        let nt = with_new_records(t, recs);
        self.tokens.insert(account.clone(), nt);
        Ok(event3("remove-text-record", "sender", sender, "account", account, "record_account", record_account))
    }

    /// The owner of `account` replaces its records keyed like `record` by
    /// `record`, unverified and placed last.
    pub fn execute_update_text_record(&mut self, sender: &String, funds: &Vec<Coin>, account: &String, record: TextRecord) -> (r: Result<(), AccountError>)
        requires
            old(self).wf(),
        ensures
            final(self).wf(),
            r is Err ==> *final(self) == *old(self),
            ({
                let rec = TextRecord { verified: None, ..record };
                let t = old(self).tokens@[account@];
                let max = old(self).params.max_record_count;
                let kept = without_key(t.extension.records@, rec.account@);
                &&& !owns(*old(self), sender@, account@) ==> not_owner_err(*old(self), account@, r)
                &&& owns(*old(self), sender@, account@) && funds@.len() != 0
                    ==> r == Err::<(), AccountError>(AccountError::Payment(PaymentError::NonPayable))
                &&& owns(*old(self), sender@, account@) && funds@.len() == 0 && record_check(rec) is Err
                    ==> r == record_check(rec)
                &&& owns(*old(self), sender@, account@) && funds@.len() == 0 && record_check(rec) is Ok
                    && kept.len() + 1 > max ==> r == Err::<(), AccountError>(AccountError::TooManyRecords { max })
                &&& owns(*old(self), sender@, account@) && funds@.len() == 0 && record_check(rec) is Ok
                    && kept.len() + 1 <= max ==> r is Ok
                &&& r is Ok ==> records_set(*old(self), *final(self), account@, kept.push(rec))
            }),
    {
        match self.only_owner(sender, account) {
            Ok(()) => {},
            Err(e) => return Err(e),
        }
        let mut record = record;
        record.verified = None;
        if let Err(e) = nonpayable(funds) {
            return Err(AccountError::Payment(e));
        }
        match validate_record(&record) {
            Ok(()) => {},
            Err(e) => return Err(e),
        }
        let t = self.tokens.get(account).unwrap();
        let mut recs = t.extension.records.clone();
        proof {
            assert(recs@ =~= t.extension.records@);
        }
        match update_record(&mut recs, record, self.params.max_record_count) {
            Ok(()) => {},
            Err(e) => return Err(e),
        }
        let nt = with_new_records(t, recs);
        self.tokens.insert(account.clone(), nt);
        Ok(())
    }

    /// The verification oracle marks the first record of `account` keyed
    /// `record_account` as verified or not; nothing changes without one.
    pub fn execute_verify_text_record(&mut self, sender: &String, funds: &Vec<Coin>, account: &String, record_account: &String,
        result: bool) -> (r: Result<(), AccountError>)
        requires
            old(self).wf(),
        ensures
            final(self).wf(),
            r is Err ==> *final(self) == *old(self),
            funds@.len() != 0 ==> r == Err::<(), AccountError>(AccountError::Payment(PaymentError::NonPayable)),
            funds@.len() == 0 && !(old(self).verifier matches Some(v) && v@ == sender@)
                ==> r == Err::<(), AccountError>(AccountError::NotAdmin),
            funds@.len() == 0 && (old(self).verifier matches Some(v) && v@ == sender@) && !old(self).tokens@.contains_key(account@)
                ==> r == Err::<(), AccountError>(AccountError::AccountNotFound),
            funds@.len() == 0 && (old(self).verifier matches Some(v) && v@ == sender@) && old(self).tokens@.contains_key(account@)
                ==> r is Ok,
            r is Ok ==> {
                let recs = old(self).tokens@[account@].extension.records@;
                &&& !has_key(recs, record_account@) ==> records_set(*old(self), *final(self), account@, recs)
                &&& has_key(recs, record_account@) ==> exists|k: int|
                    0 <= k < recs.len() && recs[k].account@ == record_account@
                    && (forall|j: int| 0 <= j < k ==> recs[j].account@ != record_account@)
                    && records_set(*old(self), *final(self), account@, recs.update(k, TextRecord {
                        account: recs[k].account,
                        value: recs[k].value,
                        verified: Some(result),
                    }))
            },
    {
        if let Err(e) = nonpayable(funds) {
            return Err(AccountError::Payment(e));
        }
        let is_admin = match &self.verifier {
            Some(v) => *v == *sender,
            None => false,
        };
        if !is_admin {
            return Err(AccountError::NotAdmin);
        }
        let t = match self.tokens.get(account) {
            Some(t) => t,
            None => return Err(AccountError::AccountNotFound),
        };
        let mut recs = t.extension.records.clone();
        proof {
            assert(recs@ =~= t.extension.records@);
        }
        verify_record(&mut recs, record_account, result);
        let nt = with_new_records(t, recs);
        self.tokens.insert(account.clone(), nt);
        Ok(())
    }

    /// The owner of `account` sets (or clears) its image.
    pub fn update_image_nft(&mut self, sender: &String, funds: &Vec<Coin>, account: &String, nft: Option<Nft>) -> (r: Result<(), AccountError>)
        requires
            old(self).wf(),
        ensures
            final(self).wf(),
            r is Err ==> *final(self) == *old(self),
            !owns(*old(self), sender@, account@) ==> not_owner_err(*old(self), account@, r),
            owns(*old(self), sender@, account@) && funds@.len() != 0
                ==> r == Err::<(), AccountError>(AccountError::Payment(PaymentError::NonPayable)),
            owns(*old(self), sender@, account@) && funds@.len() == 0 ==> r is Ok,
            r is Ok ==> {
                let t = old(self).tokens@[account@];
                let n = final(self).tokens@[account@];
                &&& final(self).tokens@ == old(self).tokens@.insert(account@, n)
                &&& n.extension.image_nft == nft
                &&& n.owner == t.owner && n.token_uri == t.token_uri
                &&& n.extension.records@ == t.extension.records@
                &&& n.extension.account_ownership == t.extension.account_ownership
                &&& *final(self) == (Collection { tokens: final(self).tokens, ..*old(self) })
            },
    {
        match self.only_owner(sender, account) {
            Ok(()) => {},
            Err(e) => return Err(e),
        }
        if let Err(e) = nonpayable(funds) {
            return Err(AccountError::Payment(e));
        }
        let t = self.tokens.get(account).unwrap();
        let recs = t.extension.records.clone();
        proof {
            assert(recs@ =~= t.extension.records@);
        }
        let nt = TokenInfo {
            owner: t.owner.clone(),
            token_uri: clone_opt_str(&t.token_uri),
            extension: Metadata { image_nft: nft, records: recs, account_ownership: t.extension.account_ownership },
        };
        self.tokens.insert(account.clone(), nt);
        Ok(())
    }

    /// The minter sets the marketplace (`address`, already validated).
    pub fn set_profile_marketplace(&mut self, sender: &String, funds: &Vec<Coin>, address: String) -> (r: Result<(), AccountError>)
        requires
            old(self).wf(),
        ensures
            final(self).wf(),
            r is Err ==> *final(self) == *old(self),
            funds@.len() != 0 ==> r == Err::<(), AccountError>(AccountError::Payment(PaymentError::NonPayable)),
            funds@.len() == 0 && !(old(self).minter matches Some(m) && m@ == sender@)
                ==> r == Err::<(), AccountError>(AccountError::Ownership(OwnershipError::NotOwner)),
            funds@.len() == 0 && (old(self).minter matches Some(m) && m@ == sender@) ==> r is Ok,
            r is Ok ==> *final(self) == (Collection { manifold: address, ..*old(self) }),
    {
        if let Err(e) = nonpayable(funds) {
            return Err(AccountError::Payment(e));
        }
        let is_minter = match &self.minter {
            Some(m) => *m == *sender,
            None => false,
        };
        if !is_minter {
            return Err(AccountError::Ownership(OwnershipError::NotOwner));
        }
        self.manifold = address;
        Ok(())
    }

    /// The minter mints `token_id` to `owner` (already validated; `owner_canon`
    /// is its canonical form) with no associated address; an owner not yet
    /// counted is counted with no mapped address.
    pub fn execute_mint(&mut self, sender: &String, token_id: &String, owner: &String, extension: Metadata, owner_canon: &String) -> (r: Result<Event, AccountError>)
        requires
            old(self).wf(),
            old(self).num_tokens < u64::MAX,
        ensures
            final(self).wf(),
            r is Err ==> *final(self) == *old(self),
            !(old(self).minter matches Some(m) && m@ == sender@) ==> r == Err::<Event, AccountError>(AccountError::UnauthorizedMinter),
            (old(self).minter matches Some(m) && m@ == sender@) && old(self).tokens@.contains_key(token_id@)
                ==> r == Err::<Event, AccountError>(AccountError::Claimed),
            (old(self).minter matches Some(m) && m@ == sender@) && !old(self).tokens@.contains_key(token_id@) ==> r is Ok,
            r matches Ok(ev) ==> texts_event(ev, "mint"@, seq![("minter"@, sender@), ("token_id"@, token_id@), ("owner"@, owner@)]),
            r is Ok ==> {
                &&& final(self).tokens@ == old(self).tokens@.insert(token_id@, TokenInfo { owner: *owner, token_uri: None, extension })
                &&& final(self).num_tokens == old(self).num_tokens + 1
                &&& final(self).revmap_counts@ == (if old(self).revmap_counts@.contains_key(owner_canon@) {
                    old(self).revmap_counts@
                } else {
                    old(self).revmap_counts@.insert(owner_canon@, 0)
                })
                &&& *final(self) == (Collection { tokens: final(self).tokens, num_tokens: final(self).num_tokens,
                    revmap_counts: final(self).revmap_counts, ..*old(self) })
            },
    {
        let is_minter = match &self.minter {
            Some(m) => *m == *sender,
            None => false,
        };
        if !is_minter {
            return Err(AccountError::UnauthorizedMinter);
        }
        if self.tokens.find(token_id).is_some() {
            return Err(AccountError::Claimed);
        }
        self.tokens.insert(token_id.clone(), TokenInfo { owner: owner.clone(), token_uri: None, extension });
        self.num_tokens = self.num_tokens + 1;
        if self.revmap_counts.find(owner_canon).is_none() {
            self.revmap_counts.insert(owner_canon.clone(), 0);
        }
        Ok(event3("mint", "minter", sender, "token_id", token_id, "owner", owner))
    }

    /// Grants `operator` the right to move all tokens of `owner` until `expires`.
    pub fn put_operator(&mut self, owner: &String, operator: &String, expires: Expiration)
        requires
            old(self).wf(),
        ensures
            final(self).wf(),
            final(self).operators@ == operators_put(old(self).operators@, Operator { owner: *owner, operator: *operator, expires }),
            *final(self) == (Collection { operators: final(self).operators, ..*old(self) }),
    {
        let n = self.operators.len();
        let o = Operator { owner: owner.clone(), operator: operator.clone(), expires };
        let ghost before = self.operators@;
        for i in 0..n
            invariant
                n == self.operators@.len(),
                self.operators@ == before,
                *self == *old(self),
                self.wf(),
                o.owner@ == owner@ && o.operator@ == operator@ && o == (Operator { owner: *owner, operator: *operator, expires }),
                forall|j: int| 0 <= j < i ==> !(before[j].owner@ == owner@ && before[j].operator@ == operator@),
        {
            if self.operators[i].owner == *owner && self.operators[i].operator == *operator {
                self.operators.set(i, o);
                proof {
                    assert(operator_idx(before, owner@, operator@) == i) by {
                        assert(before[i as int].owner@ == owner@ && before[i as int].operator@ == operator@);
                    }
                    assert forall|a: int, b: int| 0 <= a < self.operators@.len() && 0 <= b < self.operators@.len() && a != b
                        implies !(self.operators@[a].owner@ == self.operators@[b].owner@ && self.operators@[a].operator@ == self.operators@[b].operator@) by {
                        if a != i {
                            assert(self.operators@[a] == before[a]);
                        }
                        if b != i {
                            assert(self.operators@[b] == before[b]);
                        }
                    }
                }
                return;
            }
        }
        self.operators.push(o);
        proof {
            assert forall|a: int, b: int| 0 <= a < self.operators@.len() && 0 <= b < self.operators@.len() && a != b
                implies !(self.operators@[a].owner@ == self.operators@[b].owner@ && self.operators@[a].operator@ == self.operators@[b].operator@) by {
                if a < n {
                    assert(self.operators@[a] == before[a]);
                }
                if b < n {
                    assert(self.operators@[b] == before[b]);
                }
            }
        }
    }

    /// The marketplace makes itself an operator of `owner` (already
    /// validated) until `expires`, by default for ever; a lapsed expiry is refused.
    pub fn execute_approve_all_via_market(&mut self, sender: &String, block: &BlockInfo, owner: &String, expires: Option<Expiration>) -> (r: Result<(), AccountError>)
        requires
            old(self).wf(),
        ensures
            final(self).wf(),
            r is Err ==> *final(self) == *old(self),
            ({
                let e = match expires { Some(e) => e, None => Expiration::Never };
                &&& old(self).manifold@ != sender@ ==> r == Err::<(), AccountError>(AccountError::UnauthorizedCreatorOrAdmin)
                &&& old(self).manifold@ == sender@ && e.spec_is_expired(*block) ==> (r matches Err(AccountError::Std(_)))
                &&& old(self).manifold@ == sender@ && !e.spec_is_expired(*block) ==> r is Ok
                &&& r is Ok ==> final(self).operators@ == operators_put(old(self).operators@,
                        Operator { owner: *owner, operator: old(self).manifold, expires: e })
                    && *final(self) == (Collection { operators: final(self).operators, ..*old(self) })
            }),
    {
        if !(self.manifold == *sender) {
            return Err(AccountError::UnauthorizedCreatorOrAdmin);
        }
        let e = match expires {
            Some(e) => e,
            None => Expiration::Never,
        };
        if e.is_expired(block) {
            return Err(AccountError::Std(String::from_str("unauthorized")));
        }
        let market = self.manifold.clone();
        self.put_operator(owner, &market, e);
        Ok(())
    }

    /// Governance sets the record and mapped-address limits.
    pub fn sudo_update_params(&mut self, max_record_count: u32, max_reverse_map_key_limit: u32)
        ensures
            *final(self) == (Collection { params: SudoParams { max_record_count, max_reverse_map_key_limit }, ..*old(self) }),
    {
        self.params = SudoParams { max_record_count, max_reverse_map_key_limit };
    }

    /// Handles a governance message.
    pub fn sudo(&mut self, msg: SudoMsg)
        ensures
            match msg {
                SudoMsg::UpdateParams { max_record_count, max_rev_map_count } => *final(self) == (Collection {
                    params: SudoParams { max_record_count, max_reverse_map_key_limit: max_rev_map_count },
                    ..*old(self)
                }),
            },
    {
        match msg {
            SudoMsg::UpdateParams { max_record_count, max_rev_map_count } => {
                self.sudo_update_params(max_record_count, max_rev_map_count)
            },
        }
    }

    /// The limits on records and mapped addresses.
    pub fn query_params(&self) -> (r: SudoParams)
        ensures
            r == self.params,
    {
        self.params
    }

    /// The marketplace.
    pub fn query_profile_marketplace(&self) -> (r: String)
        ensures
            r == self.manifold,
    {
        self.manifold.clone()
    }

    /// The address associated with `account`: its associated address if it
    /// has one, its owner otherwise.
    pub fn query_associated_address(&self, account: &String) -> (r: Result<String, StdError>)
        requires
            self.wf(),
        ensures
            r is Ok <==> self.tokens@.contains_key(account@),
            r matches Ok(a) ==> a == (match self.tokens@[account@].token_uri {
                Some(u) => u,
                None => self.tokens@[account@].owner,
            }),
    {
        match self.tokens.get(account) {
            Some(t) => match &t.token_uri {
                Some(u) => Ok(u.clone()),
                None => Ok(t.owner.clone()),
            },
            None => Err(not_found()),
        }
    }

    /// The image of `account`.
    pub fn query_image_nft(&self, account: &String) -> (r: Result<Option<Nft>, StdError>)
        requires
            self.wf(),
        ensures
            r is Ok <==> self.tokens@.contains_key(account@),
            r matches Ok(n) ==> n == self.tokens@[account@].extension.image_nft,
    {
        match self.tokens.get(account) {
            Some(t) => Ok(clone_opt_nft(&t.extension.image_nft)),
            None => Err(not_found()),
        }
    }

    /// The text records of `account`.
    pub fn query_text_records(&self, account: &String) -> (r: Result<Vec<TextRecord>, StdError>)
        requires
            self.wf(),
        ensures
            r is Ok <==> self.tokens@.contains_key(account@),
            r matches Ok(v) ==> v@ == self.tokens@[account@].extension.records@,
    {
        match self.tokens.get(account) {
            Some(t) => {
                let v = t.extension.records.clone();
                proof {
                    assert(v@ =~= t.extension.records@);
                }
                Ok(v)
            },
            None => Err(not_found()),
        }
    }

    /// Whether the first "twitter" record of `account` is verified.
    pub fn query_is_twitter_verified(&self, account: &String) -> (r: Result<bool, StdError>)
        requires
            self.wf(),
        ensures
            r is Ok <==> self.tokens@.contains_key(account@),
            r matches Ok(b) ==> b == twitter_verified(self.tokens@[account@].extension.records@),
    {
        match self.tokens.get(account) {
            Some(t) => Ok(is_twitter_verified(&t.extension.records)),
            None => Err(not_found()),
        }
    }
}

/// `new` is `old` with the records of `account` set to `records`.
pub open spec fn records_set(old: Collection, new: Collection, account: Seq<char>, records: Seq<TextRecord>) -> bool {
    let t = new.tokens@[account];
    &&& new.tokens@ == old.tokens@.insert(account, t)
    &&& same_but_records(t, old.tokens@[account])
    &&& t.extension.records@ == records
    &&& new == (Collection { tokens: new.tokens, ..old })
}

/// `a` and `b` agree on all but their records.
pub open spec fn same_but_records(a: TokenInfo, b: TokenInfo) -> bool {
    &&& a.owner == b.owner
    &&& a.token_uri == b.token_uri
    &&& a.extension.image_nft == b.extension.image_nft
    &&& a.extension.account_ownership == b.extension.account_ownership
}

/// A copy of an optional string.
pub fn clone_opt_str(o: &Option<String>) -> (r: Option<String>)
    ensures
        r == *o,
{
    match o {
        Some(s) => Some(s.clone()),
        None => None,
    }
}

/// A copy of an optional image.
pub fn clone_opt_nft(o: &Option<Nft>) -> (r: Option<Nft>)
    ensures
        r == *o,
{
    match o {
        Some(s) => Some(s.clone()),
        None => None,
    }
}

/// `t` with `records` in place of its records.
pub fn with_new_records(t: &TokenInfo, records: Vec<TextRecord>) -> (r: TokenInfo)
    ensures
        same_but_records(r, *t),
        r.extension.records == records,
{
    TokenInfo {
        owner: t.owner.clone(),
        token_uri: clone_opt_str(&t.token_uri),
        extension: Metadata {
            image_nft: clone_opt_nft(&t.extension.image_nft),
            records,
            account_ownership: t.extension.account_ownership,
        },
    }
}

/// The error of a query about a token that does not exist.
pub fn not_found() -> (e: StdError)
    ensures
        e matches StdError::NotFound { kind } && kind@ == "account token"@,
{
    StdError::NotFound { kind: String::from_str("account token") }
}

} // verus!
