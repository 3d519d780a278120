//! The addresses linked to account tokens: associating an address (or an
//! abstract account) with an account, mapping non-native addresses to their
//! owner, and looking either up.
use vstd::prelude::*;
use crate::events::{event2, event3, texts_event, Event};
use crate::collection::{clone_opt_str, not_owner_err, owns, AccountMsg, Collection, KeyOwner, TokenInfo};
use crate::errors::{AccountError, OwnershipError, StdError};
use crate::funds::{nonpayable, PaymentError};
use crate::ownership_verifier::Governance;
use crate::strmap::{key_idx, StrMap};
use crate::types::{Coin, Metadata};

verus! {

/// Whether `needle` occurs in `hay`.
pub open spec fn contains_seq(hay: Seq<char>, needle: Seq<char>) -> bool {
    exists|i: int| 0 <= i && i + needle.len() <= hay.len() && #[trigger] hay.subrange(i, i + needle.len()) == needle
}

/// `str::contains` with a string pattern: whether `needle` occurs in `hay`.
#[verifier::external_body]
pub(crate) fn str_contains(hay: &str, needle: &str) -> (r: bool)
    ensures
        r == contains_seq(hay@, needle@),
{
    hay.contains(needle)
}

/// `str::starts_with` with a string pattern: whether `s` begins with `prefix`.
#[verifier::external_body]
pub(crate) fn str_starts_with(s: &str, prefix: &str) -> (r: bool)
    ensures
        r == (prefix@.len() <= s@.len() && s@.subrange(0, prefix@.len() as int) == prefix@),
{
    s.starts_with(prefix)
}

/// What the chain answers about an address that an owner wants to associate
/// with an account.
#[derive(Debug, PartialEq, Eq)]
pub struct AddressFacts {
    /// The contract name the address records (cw2).
    pub contract_name: Result<String, String>,
    /// For a cw721 collection, who holds its minter rights.
    pub minter: Result<Option<String>, String>,
    /// The admin and the creator of the contract.
    pub admin_and_creator: Result<(Option<String>, String), String>,
    /// The admin of the creator contract.
    pub creator_admin: Result<Option<String>, String>,
}

/// What `validate_address` answers: the sender may associate its own
/// address, a cw721 collection whose minter it is, or a contract it
/// administers (directly, or, for a contract without admin, through the
/// contract that created it).
pub open spec fn address_check(sender: Seq<char>, addr: Seq<char>, f: AddressFacts) -> Result<(), AccountError> {
    if sender == addr {
        Ok(())
    } else {
        match f.contract_name {
            Err(e) => Err(AccountError::Std(e)),
            Ok(name) => {
                if contains_seq(name@, "cw721-base"@) && f.minter is Err {
                    Err(AccountError::Std(f.minter->Err_0))
                } else if contains_seq(name@, "cw721-base"@) && (f.minter matches Ok(Some(o)) && o@ == sender) {
                    Ok(())
                } else {
                    match f.admin_and_creator {
                        Err(e) => Err(AccountError::Std(e)),
                        Ok(ac) => match ac.0 {
                            Some(a) => if a@ == sender { Ok(()) } else { Err(AccountError::UnauthorizedCreatorOrAdmin) },
                            None => match f.creator_admin {
                                Err(e) => Err(AccountError::Std(e)),
                                Ok(ca) => if (ca matches Some(a) && a@ == sender) {
                                    Ok(())
                                } else {
                                    Err(AccountError::UnauthorizedCreatorOrAdmin)
                                },
                            },
                        },
                    }
                }
            },
        }
    }
}

/// Checks that `sender` may associate `addr` with its account.
pub fn validate_address(sender: &String, addr: &String, facts: &AddressFacts) -> (r: Result<(), AccountError>)
    ensures
        r == address_check(sender@, addr@, *facts),
{
    if *sender == *addr {
        return Ok(());
    }
    let name = match &facts.contract_name {
        Ok(n) => n,
        Err(e) => return Err(AccountError::Std(e.clone())),
    };
    if str_contains(name.as_str(), "cw721-base") {
        match &facts.minter {
            Err(e) => return Err(AccountError::Std(e.clone())),
            Ok(Some(o)) => {
                if *o == *sender {
                    return Ok(());
                }
            },
            Ok(None) => {},
        }
    }
    let admin = match &facts.admin_and_creator {
        Ok(ac) => &ac.0,
        Err(e) => return Err(AccountError::Std(e.clone())),
    };
    match admin {
        Some(a) => {
            if *a == *sender {
                Ok(())
            } else {
                Err(AccountError::UnauthorizedCreatorOrAdmin)
            }
        },
        None => match &facts.creator_admin {
            Err(e) => Err(AccountError::Std(e.clone())),
            Ok(Some(a)) => {
                if *a == *sender {
                    Ok(())
                } else {
                    Err(AccountError::UnauthorizedCreatorOrAdmin)
                }
            },
            Ok(None) => Err(AccountError::UnauthorizedCreatorOrAdmin),
        },
    }
}

/// The token `t` with associated address `uri` and abstract-account flag `own`.
pub open spec fn linked(t: TokenInfo, uri: Option<String>, own: bool) -> TokenInfo {
    TokenInfo { token_uri: uri, extension: Metadata { account_ownership: own, ..t.extension }, ..t }
}

/// Whether the abstract account previously associated with the token `t`
/// (of `account`, in collection `oca`) still names the token as its owner,
/// going by `prev_owner`, its answer to the ownership query.
pub open spec fn aa_kept(t: TokenInfo, prev_owner: Result<Governance, String>, oca: Seq<char>, account: Seq<char>) -> bool {
    &&& t.token_uri is Some
    &&& t.extension.account_ownership
    &&& prev_owner matches Ok(Governance::Nft { collection_addr, token_id }) && collection_addr@ == oca && token_id@ == account
}

/// The abstract account whose governance `g` answered is owned by token
/// `account` of the collection `oca`.
pub open spec fn governed_by(g: Result<Governance, String>, oca: Seq<char>, account: Seq<char>) -> bool {
    g matches Ok(Governance::Nft { collection_addr, token_id }) && collection_addr@ == oca && token_id@ == account
}

/// Whether `g` says that token `account` of the collection `oca` governs.
pub fn is_governed_by(g: &Result<Governance, String>, oca: &String, account: &String) -> (r: bool)
    ensures
        r == governed_by(*g, oca@, account@),
{
    match g {
        Ok(Governance::Nft { collection_addr, token_id }) => *collection_addr == *oca && *token_id == *account,
        _ => false,
    }
}

/// Whether the address previously associated with `t` loses its reverse
/// mapping: it does unless it is an abstract account still owned by the
/// token, or one whose ownership could not be asked.
pub open spec fn prev_dropped(t: TokenInfo, prev_owner: Result<Governance, String>, oca: Seq<char>, account: Seq<char>) -> bool {
    &&& t.token_uri is Some
    &&& (!t.extension.account_ownership || (prev_owner is Ok && !aa_kept(t, prev_owner, oca, account)))
}

/// The state after `account` (token `t` before) is associated with `address`.
pub open spec fn associated(old: Collection, new: Collection, account: String, address: Option<String>, kept: bool,
    dropped: bool, canon: Seq<char>) -> bool {
    let t = old.tokens@[account@];
    let rmap1 = if dropped { old.reverse_map@.remove(t.token_uri->0@) } else { old.reverse_map@ };
    let prev: Option<String> = match address {
        Some(a) => if rmap1.contains_key(a@) { Some(rmap1[a@]) } else { None },
        None => None,
    };
    let tokens1 = match prev {
        Some(p) => if old.tokens@.contains_key(p@) {
            old.tokens@.insert(p@, linked(old.tokens@[p@], None, old.tokens@[p@].extension.account_ownership))
        } else {
            old.tokens@
        },
        None => old.tokens@,
    };
    &&& new.tokens@ == tokens1.insert(account@, linked(tokens1[account@], address, kept))
    &&& new.reverse_map@ == (match address { Some(a) => rmap1.insert(a@, account), None => rmap1 })
    &&& new.revmap_counts@ == (if old.revmap_counts@.contains_key(canon) { old.revmap_counts@ } else { old.revmap_counts@.insert(canon, 0) })
    &&& new == (Collection { tokens: new.tokens, reverse_map: new.reverse_map, revmap_counts: new.revmap_counts, ..old })
}

impl Collection {
    /// Sets the associated address and the abstract-account flag of the token
    /// at position `i`.
    pub fn relink(&mut self, i: usize, uri: Option<String>, own: bool)
        requires
            old(self).wf(),
            i < old(self).tokens.entries@.len(),
        ensures
            final(self).wf(),
            ({
                let k = old(self).tokens.entries@[i as int].0@;
                final(self).tokens@ == old(self).tokens@.insert(k, linked(old(self).tokens@[k], uri, own))
            }),
            *final(self) == (Collection { tokens: final(self).tokens, ..*old(self) }),
    {
        let ghost k = self.tokens.entries@[i as int].0@;
        proof {
            assert(key_idx(self.tokens.entries@, k) == i) by {
                assert(self.tokens.entries@[i as int].0@ == k);
            }
        }
        let filler = TokenInfo { owner: String::new(), token_uri: None, extension: Metadata::default() };
        let mut t = self.tokens.replace_at(i, filler);
        t.token_uri = uri;
        t.extension.account_ownership = own;
        self.tokens.replace_at(i, t);
    }

    /// The owner of `account` associates `address` with it (or, with `None`,
    /// clears the association), unless the account is in a marketplace
    /// cooldown. The address must pass `validate_address` (after `address_valid`,
    /// the chain's check of its form), unless the account keys an abstract
    /// account that still names it as owner, which then stays so. The address
    /// leaves any other account it was associated with, the sender is counted
    /// (with no mapped address) if it was not yet, and the marketplace is asked to refund the
    /// bids on the account. `oca` is the collection's address, `sender_canon`
    /// the sender's canonical address, `cooldown` whether the marketplace
    /// reports a pending sale, `prev_owner` the previous abstract account's
    /// answer to the ownership query.
    pub fn associate_address(&mut self, sender: &String, oca: &String, account: &String, address: Option<String>,
        sender_canon: &String, cooldown: Result<bool, String>, prev_owner: Result<Governance, String>,
        address_valid: Result<(), String>, facts: &AddressFacts) -> (r: Result<(Vec<AccountMsg>, Event), AccountError>)
        requires
            old(self).wf(),
        ensures
            final(self).wf(),
            r is Err ==> *final(self) == *old(self),
            ({
                let t = old(self).tokens@[account@];
                let kept = aa_kept(t, prev_owner, oca@, account@);
                let ok_so_far = owns(*old(self), sender@, account@) && cooldown == Ok::<bool, String>(false);
                &&& !owns(*old(self), sender@, account@) ==> not_owner_err(*old(self), account@, r)
                &&& owns(*old(self), sender@, account@) && cooldown is Err ==> (r matches Err(AccountError::Std(_)))
                &&& owns(*old(self), sender@, account@) && cooldown == Ok::<bool, String>(true)
                    ==> r == Err::<(Vec<AccountMsg>, Event), AccountError>(AccountError::AccountCannotBeTransfered)
                &&& ok_so_far && address is Some && !kept && address_valid is Err ==> (r matches Err(AccountError::Std(_)))
                &&& ok_so_far && address is Some && !kept && address_valid is Ok
                    && address_check(sender@, address->0@, *facts) is Err
                    ==> r == Err::<(Vec<AccountMsg>, Event), AccountError>(address_check(sender@, address->0@, *facts)->Err_0)
                &&& ok_so_far && (address is None || kept || (address_valid is Ok && address_check(sender@, address->0@, *facts) is Ok))
                    ==> r is Ok
                &&& r is Ok && t.token_uri is Some && !t.extension.account_ownership
                    ==> (final(self).reverse_map@.contains_key(t.token_uri->0@) ==> (address matches Some(a) && a@ == t.token_uri->0@))
                &&& r matches Ok((msgs, ev)) ==> {
                    &&& texts_event(ev, "associate-address"@, seq![("account"@, account@), ("owner"@, sender@)] + (match address { Some(a) => seq![("address"@, a@)], None => Seq::empty() }))
                    &&& msgs@ == seq![AccountMsg::RemoveBids { market: old(self).manifold, token_id: *account }]
                    &&& associated(*old(self), *final(self), *account, address, kept,
                        prev_dropped(t, prev_owner, oca@, account@), sender_canon@)
                }
            }),
    {
        match self.only_owner(sender, account) {
            Ok(()) => {},
            Err(e) => return Err(e),
        }
        match cooldown {
            Err(e) => return Err(AccountError::Std(e)),
            Ok(true) => return Err(AccountError::AccountCannotBeTransfered),
            Ok(false) => {},
        }
        let t = self.tokens.get(account).unwrap();
        let kept = match &t.token_uri {
            Some(_) => t.extension.account_ownership && match &prev_owner {
                Ok(Governance::Nft { collection_addr, token_id }) => *collection_addr == *oca && *token_id == *account,
                _ => false,
            },
            None => false,
        };
        let dropped = match &t.token_uri {
            Some(_) => !t.extension.account_ownership || (prev_owner.is_ok() && !kept),
            None => false,
        };
        let prev_uri = clone_opt_str(&t.token_uri);
        match &address {
            Some(a) => {
                if !kept {
                    if let Err(e) = address_valid {
                        return Err(AccountError::Std(e));
                    }
                    match validate_address(sender, a, facts) {
                        Ok(()) => {},
                        Err(e) => return Err(e),
                    }
                }
            },
            None => {},
        }
        let ghost old_state = *self;
        if dropped {
            match &prev_uri {
                Some(u) => self.reverse_map.remove(u),
                None => {},
            }
        }
        let ghost rmap1 = self.reverse_map@;
        let prev: Option<String> = match &address {
            Some(a) => match self.reverse_map.get(a) {
                Some(p) => Some(p.clone()),
                None => None,
            },
            None => None,
        };
        match &prev {
            Some(p) => match self.tokens.find(p) {
                Some(j) => {
                    let own = self.tokens.entries[j].1.extension.account_ownership;
                    self.relink(j, None, own);
                },
                None => {},
            },
            None => {},
        }
        let ghost tokens1 = self.tokens@;
        let i = self.tokens.find(account).unwrap();
        self.relink(i, clone_opt_str(&address), kept);
        if self.revmap_counts.find(sender_canon).is_none() {
            self.revmap_counts.insert(sender_canon.clone(), 0);
        }
        let ev = match &address {
            Some(a) => event3("associate-address", "account", account, "owner", sender, "address", a),
            None => event2("associate-address", "account", account, "owner", sender),
        };
        proof {
            let named = seq![("account"@, account@), ("owner"@, sender@)];
            if address is Some {
                let a = address->0;
                assert(named + seq![("address"@, a@)] =~= seq![("account"@, account@), ("owner"@, sender@), ("address"@, a@)]);
            } else {
                assert(named + Seq::<(Seq<char>, Seq<char>)>::empty() =~= named);
            }
        }
        match address {
            Some(a) => self.reverse_map.insert(a, account.clone()),
            None => {},
        }
        let mut msgs: Vec<AccountMsg> = Vec::new();
        msgs.push(AccountMsg::RemoveBids { market: self.manifold.clone(), token_id: account.clone() });
        proof {
            assert(msgs@ =~= seq![AccountMsg::RemoveBids { market: old(self).manifold, token_id: *account }]);
        }
        Ok((msgs, ev))
    }

    /// The owner of `account` enables, moves or disables its use as the
    /// ownership key of an abstract account `abs_account`, unless the account
    /// is in a marketplace cooldown. A new abstract account must be governed
    /// by this token of the collection `oca` (`new_aa_owner` is its answer to
    /// the governance query); a previous one must no longer be
    /// (`old_aa_owner`), and loses its reverse mapping. Changing or disabling
    /// an existing link asks the marketplace to refund the bids on the account.
    pub fn execute_update_abstract_account_support(&mut self, sender: &String, oca: &String, account: &String,
        abs_account: Option<String>, cooldown: Result<bool, String>, new_aa_owner: Result<Governance, String>,
        old_aa_owner: Result<Governance, String>)
        -> (r: Result<Vec<AccountMsg>, AccountError>)
        requires
            old(self).wf(),
        ensures
            final(self).wf(),
            r is Err ==> *final(self) == *old(self),
            ({
                let t = old(self).tokens@[account@];
                let ok_so_far = owns(*old(self), sender@, account@) && cooldown == Ok::<bool, String>(false);
                let own = t.extension.account_ownership;
                let old_check_fails = t.token_uri is Some && governed_by(old_aa_owner, oca@, account@);
                &&& !owns(*old(self), sender@, account@) ==> not_owner_err(*old(self), account@, r)
                &&& owns(*old(self), sender@, account@) && cooldown is Err ==> (r matches Err(AccountError::Std(_)))
                &&& owns(*old(self), sender@, account@) && cooldown == Ok::<bool, String>(true)
                    ==> r == Err::<Vec<AccountMsg>, AccountError>(AccountError::AccountIsInCooldownStage)
                &&& ok_so_far && abs_account is Some && !governed_by(new_aa_owner, oca@, account@) ==> (r matches Err(AccountError::Std(_)))
                &&& ok_so_far && own && (abs_account is None || governed_by(new_aa_owner, oca@, account@)) && old_check_fails
                    ==> (r matches Err(AccountError::Std(_)))
                &&& ok_so_far && (abs_account is None || governed_by(new_aa_owner, oca@, account@)) && !(own && old_check_fails) ==> r is Ok
                &&& r matches Ok(msgs) ==> {
                    &&& msgs@ == (if own { seq![AccountMsg::RemoveBids { market: old(self).manifold, token_id: *account }] } else { Seq::empty() })
                    &&& *final(self) == (Collection { tokens: final(self).tokens, reverse_map: final(self).reverse_map, ..*old(self) })
                    &&& match abs_account {
                        Some(aa) => {
                            let rmap1 = if own && t.token_uri is Some { old(self).reverse_map@.remove(t.token_uri->0@) } else { old(self).reverse_map@ };
                            &&& final(self).reverse_map@ == rmap1.insert(aa@, *account)
                            &&& final(self).tokens@ == old(self).tokens@.insert(account@, linked(t, Some(aa), true))
                        },
                        None => if own {
                            &&& final(self).reverse_map@ == (if t.token_uri is Some { old(self).reverse_map@.remove(t.token_uri->0@) } else { old(self).reverse_map@ })
                            &&& final(self).tokens@ == old(self).tokens@.insert(account@, linked(t, t.token_uri, false))
                        } else {
                            &&& final(self).reverse_map@ == old(self).reverse_map@
                            &&& final(self).tokens@ == old(self).tokens@.insert(account@, linked(t, t.token_uri, own))
                        },
                    }
                }
            }),
    {
        match self.only_owner(sender, account) {
            Ok(()) => {},
            Err(e) => return Err(e),
        }
        match cooldown {
            Err(e) => return Err(AccountError::Std(e)),
            Ok(true) => return Err(AccountError::AccountIsInCooldownStage),
            Ok(false) => {},
        }
        let t = self.tokens.get(account).unwrap();
        let own = t.extension.account_ownership;
        let prev_uri = clone_opt_str(&t.token_uri);
        if abs_account.is_some() && !is_governed_by(&new_aa_owner, oca, account) {
            return Err(AccountError::Std(String::from_str("the abstract account is not governed by this account token")));
        }
        if own && prev_uri.is_some() && is_governed_by(&old_aa_owner, oca, account) {
            return Err(AccountError::Std(String::from_str("the previous abstract account is still governed by this account token")));
        }
        let i = self.tokens.find(account).unwrap();
        let mut msgs: Vec<AccountMsg> = Vec::new();
        if own {
            msgs.push(AccountMsg::RemoveBids { market: self.manifold.clone(), token_id: account.clone() });
            match &prev_uri {
                Some(u) => self.reverse_map.remove(u),
                None => {},
            }
        }
        match abs_account {
            Some(aa) => {
                self.reverse_map.insert(aa.clone(), account.clone());
                self.relink(i, Some(aa), true);
            },
            None => {
                let keep = false;
                self.relink(i, prev_uri, keep);
            },
        }
        proof {
            if own {
                assert(msgs@ =~= seq![AccountMsg::RemoveBids { market: old(self).manifold, token_id: *account }]);
            } else {
                assert(msgs@ =~= Seq::<AccountMsg>::empty());
            }
        }
        Ok(msgs)
    }
}

} // verus!
