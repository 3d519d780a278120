//! Moving and burning account tokens: a token in a marketplace cooldown
//! cannot move, a moved token loses its image and text records and its
//! associated address (unless it keys an abstract account that still names
//! it), its owner's mapped non-native addresses are unmapped, and the
//! marketplace is told.
use vstd::prelude::*;
use crate::events::{event1, event3, texts_event, Event};
use crate::collection::{AccountMsg, Collection, Operator, TokenInfo, operators_put};
use crate::collection_links::linked;
use crate::collection_keys::{count_cleared, keys_without_owner};
use crate::errors::AccountError;
use crate::funds::{nonpayable, PaymentError};
use crate::ownership_verifier::Governance;
use crate::types::{Coin, Expiration, Metadata};

verus! {

/// What `ensure_not_in_cooldown` answers, given whether the marketplace
/// reports a pending sale of the token (or why it could not be asked).
pub open spec fn cooldown_check(cooldown: Result<bool, String>) -> Result<(), AccountError> {
    match cooldown {
        Err(e) => Err(AccountError::Std(e)),
        Ok(true) => Err(AccountError::AccountCannotBeTransfered),
        Ok(false) => Ok(()),
    }
}

/// Refuses while the token waits out a marketplace cooldown.
pub fn ensure_not_in_cooldown(cooldown: Result<bool, String>) -> (r: Result<(), AccountError>)
    ensures
        r == cooldown_check(cooldown),
{
    match cooldown {
        Err(e) => Err(AccountError::Std(e)),
        Ok(true) => Err(AccountError::AccountCannotBeTransfered),
        Ok(false) => Ok(()),
    }
}

/// The message telling the marketplace that `token_id` now belongs to `recipient`.
pub fn update_ask_on_marketplace(token_id: &String, recipient: &String, market: &String) -> (m: AccountMsg)
    ensures
        m == (AccountMsg::UpdateAsk { market: *market, token_id: *token_id, seller: *recipient }),
{
    AccountMsg::UpdateAsk { market: market.clone(), token_id: token_id.clone(), seller: recipient.clone() }
}

/// Whether the token `t` of `account` keeps its associated address when it
/// moves: it keys an abstract account that names it (in collection `oca`) as owner.
pub open spec fn keeps_link(t: TokenInfo, aa_owner: Result<Governance, String>, oca: Seq<char>, account: Seq<char>) -> bool {
    &&& t.token_uri is Some
    &&& t.extension.account_ownership
    &&& aa_owner matches Ok(Governance::Nft { collection_addr, token_id }) && collection_addr@ == oca && token_id@ == account
}

/// The token `n` is `t` reset for a move: no image and no text records, and
/// the associated address and the abstract-account flag stay only with a link
/// that is kept (`keep`).
pub open spec fn reset_token(t: TokenInfo, n: TokenInfo, keep: bool) -> bool {
    &&& n.owner == t.owner
    &&& n.token_uri == (if keep { t.token_uri } else { None::<String> })
    &&& n.extension.image_nft is None
    &&& n.extension.records@.len() == 0
    &&& n.extension.account_ownership == keep
}

/// The state after the token `account` (present in `old`) is reset for a move:
/// the token is reset, and its associated address loses its reverse mapping
/// unless the link is kept.
pub open spec fn reset_done(old: Collection, new: Collection, account: Seq<char>, aa_owner: Result<Governance, String>, oca: Seq<char>) -> bool {
    let t = old.tokens@[account];
    let keep = keeps_link(t, aa_owner, oca, account);
    &&& new.tokens@ == old.tokens@.insert(account, new.tokens@[account])
    &&& reset_token(t, new.tokens@[account], keep)
    &&& new.reverse_map@ == (if t.token_uri is Some && !keep { old.reverse_map@.remove(t.token_uri->0@) } else { old.reverse_map@ })
    &&& new == (Collection { tokens: new.tokens, reverse_map: new.reverse_map, ..old })
}

impl Collection {
    /// Drops the reverse mapping of the token `token_id` and its associated
    /// address, unless `keep` (the link to an abstract account was validated).
    fn remove_reverse_mapping(&mut self, token_id: &String, keep: bool)
        requires
            old(self).wf(),
            old(self).tokens@.contains_key(token_id@),
        ensures
            final(self).wf(),
            ({
                let t = old(self).tokens@[token_id@];
                if t.token_uri is Some && !keep {
                    &&& final(self).reverse_map@ == old(self).reverse_map@.remove(t.token_uri->0@)
                    &&& final(self).tokens@ == old(self).tokens@.insert(token_id@, linked(t, None, t.extension.account_ownership))
                    &&& *final(self) == (Collection { tokens: final(self).tokens, reverse_map: final(self).reverse_map, ..*old(self) })
                } else {
                    *final(self) == *old(self)
                }
            }),
    {
        let i = self.tokens.find(token_id).unwrap();
        let own = self.tokens.entries[i].1.extension.account_ownership;
        let uri = crate::collection::clone_opt_str(&self.tokens.entries[i].1.token_uri);
        match uri {
            Some(u) => {
                if !keep {
                    self.reverse_map.remove(&u);
                    self.relink(i, None, own);
                }
            },
            None => {},
        }
    }

    /// Clears the image and the text records of the token at position `i` and
    /// sets its abstract-account flag to `keep`.
    fn reset_extension(&mut self, i: usize, keep: bool)
        requires
            old(self).wf(),
            i < old(self).tokens.entries@.len(),
        ensures
            final(self).wf(),
            ({
                let k = old(self).tokens.entries@[i as int].0@;
                let t = old(self).tokens@[k];
                let n = final(self).tokens@[k];
                &&& final(self).tokens@ == old(self).tokens@.insert(k, n)
                &&& n.owner == t.owner && n.token_uri == t.token_uri
                &&& n.extension.image_nft is None
                &&& n.extension.records@.len() == 0
                &&& n.extension.account_ownership == keep
            }),
            *final(self) == (Collection { tokens: final(self).tokens, ..*old(self) }),
    {
        let ghost k = self.tokens.entries@[i as int].0@;
        proof {
            assert(crate::strmap::key_idx(self.tokens.entries@, k) == i) by {
                assert(self.tokens.entries@[i as int].0@ == k);
            }
        }
        let filler = TokenInfo { owner: String::new(), token_uri: None, extension: Metadata::default() };
        let mut t = self.tokens.replace_at(i, filler);
        t.extension = if keep { Metadata::default_with_account() } else { Metadata::default() };
        self.tokens.replace_at(i, t);
    }

    /// Prepares the token `account` to move: its image and text records are
    /// removed, and a token that keys an abstract account asks that account
    /// (`aa_owner`) whether it still names the token as owner; unless it
    /// does, the abstract-account feature is disabled and the token's
    /// associated address is dropped together with its reverse mapping.
    pub fn reset_token_metadata_and_reverse_map(&mut self, oca: &String, account: &String, aa_owner: Result<Governance, String>)
        -> (r: Result<(), AccountError>)
        requires
            old(self).wf(),
        ensures
            final(self).wf(),
            r is Err ==> *final(self) == *old(self),
            !old(self).tokens@.contains_key(account@) ==> (r matches Err(AccountError::Std(_))),
            old(self).tokens@.contains_key(account@) && old(self).tokens@[account@].token_uri is Some
                && old(self).tokens@[account@].extension.account_ownership && aa_owner is Err ==> (r matches Err(AccountError::Std(_))),
            old(self).tokens@.contains_key(account@) && !(old(self).tokens@[account@].token_uri is Some
                && old(self).tokens@[account@].extension.account_ownership && aa_owner is Err) ==> r is Ok,
            r is Ok ==> reset_done(*old(self), *final(self), account@, aa_owner, oca@),
    {
        let t = match self.tokens.get(account) {
            Some(t) => t,
            None => return Err(AccountError::Std(String::from_str("account token not found"))),
        };
        let mut keep = false;
        if t.token_uri.is_some() && t.extension.account_ownership {
            match &aa_owner {
                Err(e) => return Err(AccountError::Std(e.clone())),
                Ok(Governance::Nft { collection_addr, token_id }) => {
                    if *collection_addr == *oca && *token_id == *account {
                        keep = true;
                    }
                },
                Ok(_) => {},
            }
        }
        let i = self.tokens.find(account).unwrap();
        self.reset_extension(i, keep);
        self.remove_reverse_mapping(account, keep);
        proof {
            assert(self.tokens@ =~= old(self).tokens@.insert(account@, self.tokens@[account@]));
        }
        Ok(())
    }

    /// Makes the token `token_id` belong to `recipient` (what the base
    /// collection does once it allows a move).
    fn set_owner(&mut self, token_id: &String, recipient: &String)
        requires
            old(self).wf(),
            old(self).tokens@.contains_key(token_id@),
        ensures
            final(self).wf(),
            final(self).tokens@ == old(self).tokens@.insert(token_id@,
                TokenInfo { owner: *recipient, ..old(self).tokens@[token_id@] }),
            *final(self) == (Collection { tokens: final(self).tokens, ..*old(self) }),
    {
        let i = self.tokens.find(token_id).unwrap();
        proof {
            assert(crate::strmap::key_idx(self.tokens.entries@, token_id@) == i);
        }
        let filler = TokenInfo { owner: String::new(), token_uri: None, extension: crate::types::Metadata::default() };
        let mut t = self.tokens.replace_at(i, filler);
        t.owner = recipient.clone();
        self.tokens.replace_at(i, t);
    }

    /// Moves `token_id` to `recipient` on behalf of `sender`: the token is
    /// reset for the move, the non-native addresses its owner mapped
    /// (`owner_canon` is the owner's canonical address) are unmapped and its
    /// count set back to zero, the sender makes the marketplace its operator for
    /// ever, then the base collection moves the token (`moved` is its answer:
    /// whether `sender` may move it). Answers the message that tells the
    /// marketplace of the new owner.
    pub fn transfer_nft(&mut self, sender: &String, recipient: &String, token_id: &String, oca: &String, owner_canon: &String,
        aa_owner: Result<Governance, String>, moved: Result<(), String>) -> (r: Result<AccountMsg, AccountError>)
        requires
            old(self).wf(),
        ensures
            final(self).wf(),
            r is Err ==> *final(self) == *old(self),
            ({
                let t = old(self).tokens@[token_id@];
                let reset_fails = !old(self).tokens@.contains_key(token_id@)
                    || (t.token_uri is Some && t.extension.account_ownership && aa_owner is Err);
                &&& !old(self).tokens@.contains_key(token_id@) ==> (r matches Err(AccountError::Std(_)))
                &&& old(self).tokens@.contains_key(token_id@) && t.token_uri is Some && t.extension.account_ownership
                    && aa_owner is Err ==> r == Err::<AccountMsg, AccountError>(AccountError::Std(aa_owner->Err_0))
                &&& !reset_fails && moved is Err ==> r == Err::<AccountMsg, AccountError>(AccountError::Std(moved->Err_0))
                &&& !reset_fails && moved is Ok ==> r is Ok
                &&& r matches Ok(m) ==> {
                    &&& m == (AccountMsg::UpdateAsk { market: old(self).manifold, token_id: *token_id, seller: *recipient })
                    &&& final(self).reverse_map_keys@ == keys_without_owner(old(self).reverse_map_keys@, owner_canon@)
                    &&& final(self).revmap_counts@ == count_cleared(old(self).revmap_counts@, owner_canon@)
                    &&& exists|mid: Collection| #[trigger] reset_done(*old(self), mid, token_id@, aa_owner, oca@)
                        && final(self).operators@ == operators_put(mid.operators@, Operator { owner: *sender, operator: mid.manifold, expires: Expiration::Never })
                        && final(self).tokens@ == mid.tokens@.insert(token_id@, TokenInfo { owner: *recipient, ..mid.tokens@[token_id@] })
                        && *final(self) == (Collection { tokens: final(self).tokens, operators: final(self).operators,
                            reverse_map_keys: final(self).reverse_map_keys, revmap_counts: final(self).revmap_counts, ..mid })
                }
            }),
    {
        let market = self.manifold.clone();
        let msg = update_ask_on_marketplace(token_id, recipient, &market);
        match self.tokens.get(token_id) {
            None => return Err(AccountError::Std(String::from_str("account token not found"))),
            Some(t) => {
                if t.token_uri.is_some() && t.extension.account_ownership {
                    if let Err(e) = &aa_owner {
                        return Err(AccountError::Std(e.clone()));
                    }
                }
            },
        }
        if let Err(e) = moved {
            return Err(AccountError::Std(e));
        }
        match self.reset_token_metadata_and_reverse_map(oca, token_id, aa_owner) {
            Ok(()) => {},
            Err(e) => {
                proof {
                    assert(false);
                }
                return Err(e);
            },
        }
        let ghost mid = *self;
        self.remove_mapped_keys(owner_canon);
        self.put_operator(sender, &market, Expiration::Never);
        self.set_owner(token_id, recipient);
        Ok(msg)
    }

    /// The sender moves `token_id` to `recipient` (already validated), unless
    /// the token is in a marketplace cooldown (`cooldown`); see `transfer_nft`.
    pub fn execute_transfer_nft(&mut self, sender: &String, funds: &Vec<Coin>, recipient: &String, token_id: &String,
        oca: &String, owner_canon: &String, cooldown: Result<bool, String>, aa_owner: Result<Governance, String>, moved: Result<(), String>)
        -> (r: Result<(Vec<AccountMsg>, Event), AccountError>)
        requires
            old(self).wf(),
        ensures
            final(self).wf(),
            r is Err ==> *final(self) == *old(self),
            ({
                let t = old(self).tokens@[token_id@];
                let reset_fails = !old(self).tokens@.contains_key(token_id@)
                    || (t.token_uri is Some && t.extension.account_ownership && aa_owner is Err);
                &&& funds@.len() != 0 ==> r == Err::<(Vec<AccountMsg>, Event), AccountError>(AccountError::Payment(PaymentError::NonPayable))
                &&& funds@.len() == 0 && cooldown_check(cooldown) is Err
                    ==> r == Err::<(Vec<AccountMsg>, Event), AccountError>(cooldown_check(cooldown)->Err_0)
                &&& funds@.len() == 0 && cooldown_check(cooldown) is Ok && reset_fails ==> (r matches Err(AccountError::Std(_)))
                &&& funds@.len() == 0 && cooldown_check(cooldown) is Ok && !reset_fails && moved is Err
                    ==> r == Err::<(Vec<AccountMsg>, Event), AccountError>(AccountError::Std(moved->Err_0))
                &&& funds@.len() == 0 && cooldown_check(cooldown) is Ok && !reset_fails && moved is Ok ==> r is Ok
                &&& r matches Ok((msgs, ev)) ==> {
                    &&& texts_event(ev, "transfer"@, seq![("sender"@, sender@), ("recipient"@, recipient@), ("token_id"@, token_id@)])
                    &&& msgs@ == seq![AccountMsg::UpdateAsk { market: old(self).manifold, token_id: *token_id, seller: *recipient }]
                    &&& final(self).reverse_map_keys@ == keys_without_owner(old(self).reverse_map_keys@, owner_canon@)
                    &&& final(self).revmap_counts@ == count_cleared(old(self).revmap_counts@, owner_canon@)
                    &&& exists|mid: Collection| #[trigger] reset_done(*old(self), mid, token_id@, aa_owner, oca@)
                        && final(self).operators@ == operators_put(mid.operators@, Operator { owner: *sender, operator: mid.manifold, expires: Expiration::Never })
                        && final(self).tokens@ == mid.tokens@.insert(token_id@, TokenInfo { owner: *recipient, ..mid.tokens@[token_id@] })
                        && *final(self) == (Collection { tokens: final(self).tokens, operators: final(self).operators,
                            reverse_map_keys: final(self).reverse_map_keys, revmap_counts: final(self).revmap_counts, ..mid })
                }
            }),
    {
        if let Err(e) = nonpayable(funds) {
            return Err(AccountError::Payment(e));
        }
        match ensure_not_in_cooldown(cooldown) {
            Ok(()) => {},
            Err(e) => return Err(e),
        }
        match self.transfer_nft(sender, recipient, token_id, oca, owner_canon, aa_owner, moved) {
            Ok(m) => {
                let mut msgs: Vec<AccountMsg> = Vec::new();
                msgs.push(m);
                proof {
                    assert(msgs@ =~= seq![AccountMsg::UpdateAsk { market: old(self).manifold, token_id: *token_id, seller: *recipient }]);
                }
                Ok((msgs, event3("transfer", "sender", sender, "recipient", recipient, "token_id", token_id)))
            },
            Err(e) => Err(e),
        }
    }

    /// The sender sends `token_id` to the contract `contract` (already
    /// validated), unless the token is in a marketplace cooldown: the token is
    /// reset for the move and its owner's mapped addresses unmapped (as in
    /// `transfer_nft`), then the base collection moves it (`moved` is its
    /// answer). The base collection's notice to the receiving contract is not
    /// passed on; only the marketplace is told.
    pub fn execute_send_nft(&mut self, sender: &String, contract: &String, token_id: &String, oca: &String, owner_canon: &String, cooldown: Result<bool, String>,
        aa_owner: Result<Governance, String>, moved: Result<(), String>) -> (r: Result<(Vec<AccountMsg>, Event), AccountError>)
        requires
            old(self).wf(),
        ensures
            final(self).wf(),
            r is Err ==> *final(self) == *old(self),
            ({
                let t = old(self).tokens@[token_id@];
                let reset_fails = !old(self).tokens@.contains_key(token_id@)
                    || (t.token_uri is Some && t.extension.account_ownership && aa_owner is Err);
                &&& cooldown_check(cooldown) is Err ==> r == Err::<(Vec<AccountMsg>, Event), AccountError>(cooldown_check(cooldown)->Err_0)
                &&& cooldown_check(cooldown) is Ok && reset_fails ==> (r matches Err(AccountError::Std(_)))
                &&& cooldown_check(cooldown) is Ok && !reset_fails && moved is Err
                    ==> r == Err::<(Vec<AccountMsg>, Event), AccountError>(AccountError::Std(moved->Err_0))
                &&& cooldown_check(cooldown) is Ok && !reset_fails && moved is Ok ==> r is Ok
                &&& r matches Ok((msgs, ev)) ==> {
                    &&& texts_event(ev, "send"@, seq![("sender"@, sender@), ("contract"@, contract@), ("token_id"@, token_id@)])
                    &&& msgs@ == seq![AccountMsg::UpdateAsk { market: old(self).manifold, token_id: *token_id, seller: *contract }]
                    &&& final(self).reverse_map_keys@ == keys_without_owner(old(self).reverse_map_keys@, owner_canon@)
                    &&& final(self).revmap_counts@ == count_cleared(old(self).revmap_counts@, owner_canon@)
                    &&& exists|mid: Collection| #[trigger] reset_done(*old(self), mid, token_id@, aa_owner, oca@)
                        && final(self).tokens@ == mid.tokens@.insert(token_id@, TokenInfo { owner: *contract, ..mid.tokens@[token_id@] })
                        && *final(self) == (Collection { tokens: final(self).tokens, reverse_map_keys: final(self).reverse_map_keys,
                            revmap_counts: final(self).revmap_counts, ..mid })
                }
            }),
    {
        match ensure_not_in_cooldown(cooldown) {
            Ok(()) => {},
            Err(e) => return Err(e),
        }
        let market = self.manifold.clone();
        let msg = update_ask_on_marketplace(token_id, contract, &market);
        match self.tokens.get(token_id) {
            None => return Err(AccountError::Std(String::from_str("account token not found"))),
            Some(t) => {
                if t.token_uri.is_some() && t.extension.account_ownership {
                    if let Err(e) = &aa_owner {
                        return Err(AccountError::Std(e.clone()));
                    }
                }
            },
        }
        if let Err(e) = moved {
            return Err(AccountError::Std(e));
        }
        match self.reset_token_metadata_and_reverse_map(oca, token_id, aa_owner) {
            Ok(()) => {},
            Err(e) => {
                proof {
                    assert(false);
                }
                return Err(e);
            },
        }
        let ghost mid = *self;
        self.remove_mapped_keys(owner_canon);
        self.set_owner(token_id, contract);
        let mut msgs: Vec<AccountMsg> = Vec::new();
        msgs.push(msg);
        proof {
            assert(msgs@ =~= seq![AccountMsg::UpdateAsk { market: old(self).manifold, token_id: *token_id, seller: *contract }]);
        }
        Ok((msgs, event3("send", "sender", sender, "contract", contract, "token_id", token_id)))
    }

    /// The sender burns `account`, unless it is in a marketplace cooldown; the
    /// base collection decides whether the sender may (`burnt`). The
    /// marketplace is asked to remove the account's ask. The account's reverse
    /// mapping is left as it was.
    pub fn execute_burn(&mut self, funds: &Vec<Coin>, account: &String, cooldown: Result<bool, String>, burnt: Result<(), String>)
        -> (r: Result<(Vec<AccountMsg>, Event), AccountError>)
        requires
            old(self).wf(),
        ensures
            final(self).wf(),
            r is Err ==> *final(self) == *old(self),
            funds@.len() != 0 ==> r == Err::<(Vec<AccountMsg>, Event), AccountError>(AccountError::Payment(PaymentError::NonPayable)),
            funds@.len() == 0 && cooldown_check(cooldown) is Err
                ==> r == Err::<(Vec<AccountMsg>, Event), AccountError>(cooldown_check(cooldown)->Err_0),
            funds@.len() == 0 && cooldown_check(cooldown) is Ok && !old(self).tokens@.contains_key(account@)
                ==> (r matches Err(AccountError::Std(_))),
            funds@.len() == 0 && cooldown_check(cooldown) is Ok && old(self).tokens@.contains_key(account@) && burnt is Err
                ==> r == Err::<(Vec<AccountMsg>, Event), AccountError>(AccountError::Std(burnt->Err_0)),
            funds@.len() == 0 && cooldown_check(cooldown) is Ok && old(self).tokens@.contains_key(account@) && burnt is Ok
                ==> r is Ok,
            r matches Ok((msgs, ev)) ==> {
                &&& texts_event(ev, "burn-account"@, seq![("account"@, account@)])
                &&& msgs@ == seq![AccountMsg::RemoveAsk { market: old(self).manifold, token_id: *account }]
                &&& final(self).tokens@ == old(self).tokens@.remove(account@)
                &&& final(self).num_tokens == old(self).num_tokens - 1
                &&& *final(self) == (Collection { tokens: final(self).tokens, num_tokens: final(self).num_tokens, ..*old(self) })
            },
    {
        if let Err(e) = nonpayable(funds) {
            return Err(AccountError::Payment(e));
        }
        match ensure_not_in_cooldown(cooldown) {
            Ok(()) => {},
            Err(e) => return Err(e),
        }
        if self.tokens.find(account).is_none() {
            return Err(AccountError::Std(String::from_str("account token not found")));
        }
        if let Err(e) = burnt {
            return Err(AccountError::Std(e));
        }
        self.tokens.remove(account);
        self.num_tokens = self.num_tokens - 1;
        let mut msgs: Vec<AccountMsg> = Vec::new();
        msgs.push(AccountMsg::RemoveAsk { market: self.manifold.clone(), token_id: account.clone() });
        proof {
            assert(msgs@ =~= seq![AccountMsg::RemoveAsk { market: old(self).manifold, token_id: *account }]);
        }
        Ok((msgs, event1("burn-account", "account", account)))
    }
}

} // verus!
