//! Non-native addresses mapped to their owner's native address, and the
//! reverse lookups from an address to its account.
use vstd::prelude::*;
use crate::collection::{Collection, KeyOwner};
use crate::collection_links::str_starts_with;
use crate::errors::{AccountError, OwnershipError, StdError};
use crate::funds::{nonpayable, PaymentError};
use crate::strmap::StrMap;
use crate::types::Coin;

verus! {

/// The mapped addresses, the per-owner counts, and the running count of the
/// sender's mapped addresses.
pub type KeyState = (Map<Seq<char>, KeyOwner>, Map<Seq<char>, u32>, int);

/// Maps one more address, `add` (the checked address, or why the check
/// failed), to the sender.
pub open spec fn add_step(s: KeyState, add: Result<String, String>, canon: String, sender: String, max: u32) -> Result<KeyState, AccountError> {
    match add {
        Err(e) => Err(AccountError::Std(e)),
        Ok(h) => {
            let c = s.2 + 1;
            if c > max {
                Err(AccountError::TooManyReverseMaps { max, have: c as u32 })
            } else if s.0.contains_key(h@) && s.0[h@].canon@ != canon@ {
                Err(AccountError::RecordAccountAlreadyExists)
            } else {
                Ok((s.0.insert(h@, KeyOwner { canon, addr: sender }), s.1.insert(canon@, c as u32), c))
            }
        },
    }
}

/// Maps the addresses `adds`, in order.
pub open spec fn add_fold(s: KeyState, adds: Seq<Result<String, String>>, canon: String, sender: String, max: u32) -> Result<KeyState, AccountError>
    decreases adds.len(),
{
    if adds.len() == 0 {
        Ok(s)
    } else {
        match add_fold(s, adds.drop_last(), canon, sender, max) {
            Err(e) => Err(e),
            Ok(t) => add_step(t, adds.last(), canon, sender, max),
        }
    }
}

/// Unmaps address `rem`, which only the sender may do; an unmapped address is
/// passed over. The count never goes below zero.
pub open spec fn rem_step(s: KeyState, rem: String, sender: String) -> Result<KeyState, AccountError> {
    let c = if s.2 == 0 { 1 } else { s.2 };
    if s.0.contains_key(rem@) {
        let ko = s.0[rem@];
        if ko.addr@ == sender@ {
            Ok((s.0.remove(rem@), s.1.insert(ko.canon@, (c - 1) as u32), c - 1))
        } else {
            Err(AccountError::Ownership(OwnershipError::NotOwner))
        }
    } else {
        Ok((s.0, s.1, c))
    }
}

/// Unmaps the addresses `rems`, in order.
pub open spec fn rem_fold(s: KeyState, rems: Seq<String>, sender: String) -> Result<KeyState, AccountError>
    decreases rems.len(),
{
    if rems.len() == 0 {
        Ok(s)
    } else {
        match rem_fold(s, rems.drop_last(), sender) {
            Err(e) => Err(e),
            Ok(t) => rem_step(t, rems.last(), sender),
        }
    }
}

/// After unmapping the addresses `rems` one by one, none of them is mapped,
/// and no address became mapped that was not before.
pub proof fn lemma_rem_fold_unmaps(s: KeyState, rems: Seq<String>, sender: String)
    ensures
        rem_fold(s, rems, sender) matches Ok(t) ==> {
            &&& forall|i: int| 0 <= i < rems.len() ==> !t.0.contains_key(#[trigger] rems[i]@)
            &&& forall|k: Seq<char>| #[trigger] t.0.contains_key(k) ==> s.0.contains_key(k)
        },
    decreases rems.len(),
{
    if rems.len() > 0 {
        lemma_rem_fold_unmaps(s, rems.drop_last(), sender);
        if let Ok(t) = rem_fold(s, rems, sender) {
            let mid = rem_fold(s, rems.drop_last(), sender)->Ok_0;
            assert forall|i: int| 0 <= i < rems.len() implies !t.0.contains_key(#[trigger] rems[i]@) by {
                if i < rems.len() - 1 {
                    assert(rems.drop_last()[i] == rems[i]);
                }
            }
        }
    }
}

/// The check made before any change: the count after the additions, less
/// the removals, must stay within the limit, and no more may be removed than
/// will exist (or than the limit).
pub open spec fn keys_precheck(count: int, n_add: int, n_rem: int, max: u32) -> Result<(), AccountError> {
    let new_count = count + n_add;
    if (new_count != 0 && new_count < n_rem) || n_rem > max {
        Err(AccountError::CannotRemoveMoreThanWillExists)
    } else {
        let after = if new_count != 0 { new_count - n_rem } else { new_count };
        if after > max {
            Err(AccountError::TooManyReverseMaps { max, have: after as u32 })
        } else {
            Ok(())
        }
    }
}

/// A copy of a map of mapped addresses.
fn copy_keys(m: &StrMap<KeyOwner>) -> (r: StrMap<KeyOwner>)
    ensures
        r.entries@ == m.entries@,
{
    let mut v: Vec<(String, KeyOwner)> = Vec::new();
    let n = m.entries.len();
    for i in 0..n
        invariant
            n == m.entries@.len(),
            v@ == m.entries@.take(i as int),
    {
        let e = &m.entries[i];
        v.push((e.0.clone(), KeyOwner { canon: e.1.canon.clone(), addr: e.1.addr.clone() }));
        proof {
            assert(v@ =~= m.entries@.take(i + 1));
        }
    }
    proof {
        assert(m.entries@.take(n as int) =~= m.entries@);
    }
    StrMap { entries: v }
}

/// A copy of a map of counts.
fn copy_counts(m: &StrMap<u32>) -> (r: StrMap<u32>)
    ensures
        r.entries@ == m.entries@,
{
    let mut v: Vec<(String, u32)> = Vec::new();
    let n = m.entries.len();
    for i in 0..n
        invariant
            n == m.entries@.len(),
            v@ == m.entries@.take(i as int),
    {
        let e = &m.entries[i];
        v.push((e.0.clone(), e.1));
        proof {
            assert(v@ =~= m.entries@.take(i + 1));
        }
    }
    proof {
        assert(m.entries@.take(n as int) =~= m.entries@);
    }
    StrMap { entries: v }
}

/// The mapped addresses of `m` that do not belong to the owner `canon`.
pub open spec fn keys_without_owner(m: Map<Seq<char>, KeyOwner>, canon: Seq<char>) -> Map<Seq<char>, KeyOwner> {
    Map::new(|k: Seq<char>| m.contains_key(k) && m[k].canon@ != canon, |k: Seq<char>| m[k])
}

/// The counts `c` with the owner `canon`, if counted, back at zero.
pub open spec fn count_cleared(c: Map<Seq<char>, u32>, canon: Seq<char>) -> Map<Seq<char>, u32> {
    if c.contains_key(canon) { c.insert(canon, 0) } else { c }
}

impl Collection {
    /// Unmaps every non-native address the owner `canon` mapped, and sets its
    /// count back to zero.
    pub fn remove_mapped_keys(&mut self, canon: &String)
        requires
            old(self).wf(),
        ensures
            final(self).wf(),
            final(self).reverse_map_keys@ == keys_without_owner(old(self).reverse_map_keys@, canon@),
            final(self).revmap_counts@ == count_cleared(old(self).revmap_counts@, canon@),
            *final(self) == (Collection { reverse_map_keys: final(self).reverse_map_keys,
                revmap_counts: final(self).revmap_counts, ..*old(self) }),
    {
        let n = self.reverse_map_keys.entries.len();
        let mut kept: StrMap<KeyOwner> = StrMap::new();
        for i in 0..n
            invariant
                n == self.reverse_map_keys.entries@.len(),
                self.wf(),
                *self == *old(self),
                kept.wf(),
                forall|k: Seq<char>| #[trigger] kept@.contains_key(k) <==> (self.reverse_map_keys@.contains_key(k)
                    && crate::strmap::key_idx(self.reverse_map_keys.entries@, k) < i
                    && self.reverse_map_keys@[k].canon@ != canon@),
                forall|k: Seq<char>| #[trigger] kept@.contains_key(k) ==> kept@[k] == self.reverse_map_keys@[k],
        {
            let ghost e = self.reverse_map_keys.entries@;
            let ghost ki = e[i as int].0@;
            proof {
                assert(crate::strmap::key_idx(e, ki) == i) by {
                    assert(e[i as int].0@ == ki);
                }
                assert(self.reverse_map_keys@.contains_key(ki));
            }
            let k = &self.reverse_map_keys.entries[i].0;
            let o = &self.reverse_map_keys.entries[i].1;
            if !(o.canon == *canon) {
                kept.insert(k.clone(), KeyOwner { canon: o.canon.clone(), addr: o.addr.clone() });
            }
            proof {
                assert forall|k2: Seq<char>| #[trigger] self.reverse_map_keys@.contains_key(k2)
                    && crate::strmap::key_idx(e, k2) == i implies k2 == ki by {
                }
            }
        }
        proof {
            assert(kept@ =~= keys_without_owner(self.reverse_map_keys@, canon@));
        }
        self.reverse_map_keys = kept;
        if self.revmap_counts.find(canon).is_some() {
            self.revmap_counts.insert(canon.clone(), 0);
        }
        proof {
            assert(self.revmap_counts@ =~= count_cleared(old(self).revmap_counts@, canon@));
        }
    }
}

impl Collection {
    /// The sender maps the addresses `to_add` (each as its signature check
    /// answered: the address it proves the sender controls, or why it failed)
    /// to itself and unmaps `to_remove`, within the limit of mapped addresses
    /// per owner. The sender must have been counted (by a mint or an
    /// association); `sender_canon` is its canonical address. On any error
    /// nothing changes.
    #[verifier::loop_isolation(false)]
    pub fn execute_update_reverse_map_keys(&mut self, sender: &String, funds: &Vec<Coin>, sender_canon: &String,
        to_add: Vec<Result<String, String>>, to_remove: Vec<String>) -> (r: Result<(), AccountError>)
        requires
            old(self).wf(),
            to_add@.len() <= u32::MAX,
            to_remove@.len() <= u32::MAX,
            old(self).revmap_counts@.contains_key(sender_canon@)
                ==> old(self).revmap_counts@[sender_canon@] + to_add@.len() <= u32::MAX,
        ensures
            final(self).wf(),
            r is Err ==> *final(self) == *old(self),
            ({
                let max = old(self).params.max_reverse_map_key_limit;
                let counted = old(self).revmap_counts@.contains_key(sender_canon@);
                let count = old(self).revmap_counts@[sender_canon@] as int;
                let pre = keys_precheck(count, to_add@.len() as int, to_remove@.len() as int, max);
                let s0: KeyState = (old(self).reverse_map_keys@, old(self).revmap_counts@, count);
                let added = add_fold(s0, to_add@, *sender_canon, *sender, max);
                let removed = rem_fold(added->Ok_0, to_remove@, *sender);
                &&& funds@.len() != 0 ==> r == Err::<(), AccountError>(AccountError::Payment(PaymentError::NonPayable))
                &&& funds@.len() == 0 && !counted ==> r == Err::<(), AccountError>(AccountError::AccountNotFound)
                &&& funds@.len() == 0 && counted && pre is Err ==> r == pre
                &&& funds@.len() == 0 && counted && pre is Ok && added is Err ==> r == Err::<(), AccountError>(added->Err_0)
                &&& funds@.len() == 0 && counted && pre is Ok && added is Ok && removed is Err
                    ==> r == Err::<(), AccountError>(removed->Err_0)
                &&& funds@.len() == 0 && counted && pre is Ok && added is Ok && removed is Ok ==> r is Ok
                &&& r is Ok ==> {
                    &&& forall|i: int| 0 <= i < to_remove@.len() ==> !final(self).reverse_map_keys@.contains_key(#[trigger] to_remove@[i]@)
                    &&& final(self).reverse_map_keys@ == removed->Ok_0.0
                    &&& final(self).revmap_counts@ == removed->Ok_0.1
                    &&& *final(self) == (Collection { reverse_map_keys: final(self).reverse_map_keys,
                        revmap_counts: final(self).revmap_counts, ..*old(self) })
                }
            }),
    {
        if let Err(e) = nonpayable(funds) {
            return Err(AccountError::Payment(e));
        }
        let max = self.params.max_reverse_map_key_limit;
        let count0: u32 = match self.revmap_counts.get(sender_canon) {
            Some(c) => *c,
            None => return Err(AccountError::AccountNotFound),
        };
        let n_add = to_add.len() as u32;
        let n_rem = to_remove.len() as u32;
        let mut new_count: u32 = count0 + n_add;
        if (new_count != 0 && new_count < n_rem) || n_rem > max {
            return Err(AccountError::CannotRemoveMoreThanWillExists);
        }
        if new_count != 0 {
            new_count = new_count - n_rem;
        }
        if new_count > max {
            return Err(AccountError::TooManyReverseMaps { max, have: new_count });
        }
        let mut keys = copy_keys(&self.reverse_map_keys);
        let mut counts = copy_counts(&self.revmap_counts);
        let mut count: u32 = count0;
        let ghost s0: KeyState = (self.reverse_map_keys@, self.revmap_counts@, count0 as int);
        proof {
            assert(keys@ =~= self.reverse_map_keys@);
            assert(counts@ =~= self.revmap_counts@);
        }
        let n = to_add.len();
        let mut i: usize = 0;
        while i < n
            invariant
                i <= n,
                n == to_add@.len(),
                keys.wf(),
                counts.wf(),
                count0 + n <= u32::MAX,
                count <= count0 + i,
                add_fold(s0, to_add@.take(i as int), *sender_canon, *sender, max) == Ok::<KeyState, AccountError>((keys@, counts@, count as int)),
            decreases n - i,
        {
            proof {
                assert(to_add@.take(i + 1).drop_last() =~= to_add@.take(i as int));
                assert(to_add@.take(i + 1).last() == to_add@[i as int]);
            }
            let h = match &to_add[i] {
                Ok(h) => h,
                Err(e) => {
                    proof {
                        lemma_add_fold_err(s0, to_add@, i as int + 1, *sender_canon, *sender, max);
                        assert(to_add@.take(n as int) =~= to_add@);
                    }
                    return Err(AccountError::Std(e.clone()));
                },
            };
            count = count + 1;
            if count > max {
                proof {
                    lemma_add_fold_err(s0, to_add@, i as int + 1, *sender_canon, *sender, max);
                    assert(to_add@.take(n as int) =~= to_add@);
                }
                return Err(AccountError::TooManyReverseMaps { max, have: count });
            }
            match keys.get(h) {
                Some(ko) => {
                    if !(ko.canon == *sender_canon) {
                        proof {
                            lemma_add_fold_err(s0, to_add@, i as int + 1, *sender_canon, *sender, max);
                            assert(to_add@.take(n as int) =~= to_add@);
                        }
                        return Err(AccountError::RecordAccountAlreadyExists);
                    }
                },
                None => {},
            }
            counts.insert(sender_canon.clone(), count);
            keys.insert(h.clone(), KeyOwner { canon: sender_canon.clone(), addr: sender.clone() });
            i = i + 1;
        }
        proof {
            assert(to_add@.take(n as int) =~= to_add@);
        }
        let ghost s1: KeyState = (keys@, counts@, count as int);
        let m = to_remove.len();
        let mut j: usize = 0;
        while j < m
            invariant
                j <= m,
                m == to_remove@.len(),
                keys.wf(),
                counts.wf(),
                rem_fold(s1, to_remove@.take(j as int), *sender) == Ok::<KeyState, AccountError>((keys@, counts@, count as int)),
            decreases m - j,
        {
            proof {
                assert(to_remove@.take(j + 1).drop_last() =~= to_remove@.take(j as int));
                assert(to_remove@.take(j + 1).last() == to_remove@[j as int]);
            }
            if count == 0 {
                count = 1;
            }
            let rem = &to_remove[j];
            let found = match keys.get(rem) {
                Some(ko) => {
                    if ko.addr == *sender {
                        Some(ko.canon.clone())
                    } else {
                        proof {
                            lemma_rem_fold_err(s1, to_remove@, j as int + 1, *sender);
                            assert(to_remove@.take(m as int) =~= to_remove@);
                        }
                        return Err(AccountError::Ownership(OwnershipError::NotOwner));
                    }
                },
                None => None,
            };
            match found {
                Some(canon) => {
                    counts.insert(canon, count - 1);
                    keys.remove(rem);
                    count = count - 1;
                },
                None => {},
            }
            j = j + 1;
        }
        proof {
            assert(to_remove@.take(m as int) =~= to_remove@);
            lemma_rem_fold_unmaps(s1, to_remove@, *sender);
        }
        self.reverse_map_keys = keys;
        self.revmap_counts = counts;
        Ok(())
    }

    /// The native address a non-native address `addr` is mapped to.
    pub fn transcode(&self, addr: &String) -> (r: Result<String, StdError>)
        requires
            self.wf(),
        ensures
            r is Ok <==> self.reverse_map_keys@.contains_key(addr@),
            r matches Ok(a) ==> a == self.reverse_map_keys@[addr@].addr,
            r is Err ==> (r matches Err(StdError::GenericErr { msg }) && msg@ == no_mapping_msg()),
    {
        match self.reverse_map_keys.get(addr) {
            Some(ko) => Ok(ko.addr.clone()),
            None => Err(StdError::GenericErr {
                msg: String::from_str(
                    "no mappping set. Set a non `terp1...` addr mapped to your`terp1..` that owns this account token with UpdateMyReverseMapKey",
                ),
            }),
        }
    }

    /// The account associated with `address`; an address not starting with
    /// "terp" is first taken through its mapping to a native address.
    pub fn query_account(&self, address: &String) -> (r: Result<String, StdError>)
        requires
            self.wf(),
        ensures
            r matches Ok(a) ==> account_lookup(*self, address@) == Ok::<String, Seq<char>>(a),
            r is Err ==> (r matches Err(StdError::GenericErr { msg }) && account_lookup(*self, address@) == Err::<String, Seq<char>>(msg@)),
    {
        proof {
            reveal_strlit("terp");
        }
        let mut address = address.clone();
        if !str_starts_with(address.as_str(), "terp") {
            address = match self.transcode(&address) {
                Ok(a) => a,
                Err(e) => return Err(e),
            };
        }
        match self.reverse_map.get(&address) {
            Some(acct) => Ok(acct.clone()),
            None => Err(StdError::GenericErr {
                msg: String::from_str("No account associated with address ").concat(address.as_str()),
            }),
        }
    }
}

/// What `query_account` answers: the account, or the message of its error.
pub open spec fn account_lookup(c: Collection, address: Seq<char>) -> Result<String, Seq<char>> {
    let native = !(address.len() >= 4 && address.subrange(0, 4) == "terp"@);
    let mapped = c.reverse_map_keys@.contains_key(address);
    let a = if native { c.reverse_map_keys@[address].addr@ } else { address };
    if native && !mapped {
        Err(no_mapping_msg())
    } else if !c.reverse_map@.contains_key(a) {
        Err("No account associated with address "@ + a)
    } else {
        Ok(c.reverse_map@[a])
    }
}

/// The message given when a non-native address is not mapped.
pub open spec fn no_mapping_msg() -> Seq<char> {
    "no mappping set. Set a non `terp1...` addr mapped to your`terp1..` that owns this account token with UpdateMyReverseMapKey"@
}

/// Once mapping an address fails, mapping more fails the same way.
proof fn lemma_add_fold_err(s: KeyState, adds: Seq<Result<String, String>>, i: int, canon: String, sender: String, max: u32)
    requires
        0 <= i <= adds.len(),
        add_fold(s, adds.take(i), canon, sender, max) is Err,
    ensures
        add_fold(s, adds, canon, sender, max) == add_fold(s, adds.take(i), canon, sender, max),
    decreases adds.len() - i,
{
    if i < adds.len() {
        assert(adds.take(i + 1).drop_last() =~= adds.take(i));
        lemma_add_fold_err(s, adds, i + 1, canon, sender, max);
    } else {
        assert(adds.take(i) =~= adds);
    }
}

/// Once unmapping an address fails, unmapping more fails the same way.
proof fn lemma_rem_fold_err(s: KeyState, rems: Seq<String>, i: int, sender: String)
    requires
        0 <= i <= rems.len(),
        rem_fold(s, rems.take(i), sender) is Err,
    ensures
        rem_fold(s, rems, sender) == rem_fold(s, rems.take(i), sender),
    decreases rems.len() - i,
{
    if i < rems.len() {
        assert(rems.take(i + 1).drop_last() =~= rems.take(i));
        lemma_rem_fold_err(s, rems, i + 1, sender);
    } else {
        assert(rems.take(i) =~= rems);
    }
}

} // verus!
