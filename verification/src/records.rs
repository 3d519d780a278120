//! The text records of an account token: validation, and the add, update,
//! remove and verify operations on the list of records.
use vstd::prelude::*;
use crate::errors::AccountError;
use crate::types::{byte_len, str_byte_len, TextRecord, MAX_TEXT_LENGTH};

verus! {

broadcast use vstd::seq_lib::group_seq_properties;

/// The records kept when every record keyed `account` is dropped.
pub open spec fn without_key(records: Seq<TextRecord>, account: Seq<char>) -> Seq<TextRecord> {
    records.filter(other_key(account))
}

/// Holds of the records that are not keyed `account`.
pub open spec fn other_key(account: Seq<char>) -> spec_fn(TextRecord) -> bool {
    |r: TextRecord| r.account@ != account
}

/// Whether some record is keyed `account`.
pub open spec fn has_key(records: Seq<TextRecord>, account: Seq<char>) -> bool {
    exists|i: int| 0 <= i < records.len() && records[i].account@ == account
}

/// No two records share a key.
pub open spec fn keys_distinct(records: Seq<TextRecord>) -> bool {
    forall|i: int, j: int|
        0 <= i < records.len() && 0 <= j < records.len() && i != j
            ==> records[i].account@ != records[j].account@
}

/// What `validate_record` answers.
pub open spec fn record_check(record: TextRecord) -> Result<(), AccountError> {
    if record.verified is Some {
        Err(AccountError::UnauthorizedVerification)
    } else if byte_len(record.account@) > MAX_TEXT_LENGTH {
        Err(AccountError::RecordAccountTooLong)
    } else if byte_len(record.account@) == 0 {
        Err(AccountError::RecordAccountEmpty)
    } else if byte_len(record.value@) > MAX_TEXT_LENGTH {
        Err(AccountError::RecordValueTooLong)
    } else if byte_len(record.value@) == 0 {
        Err(AccountError::RecordValueEmpty)
    } else {
        Ok(())
    }
}

/// A record submitted by an owner carries no verification, and its key and
/// value are non-empty and at most `MAX_TEXT_LENGTH` bytes long.
pub fn validate_record(record: &TextRecord) -> (r: Result<(), AccountError>)
    ensures
        r == record_check(*record),
{
    if record.verified.is_some() {
        return Err(AccountError::UnauthorizedVerification);
    }
    let name_len = str_byte_len(record.account.as_str());
    if name_len > MAX_TEXT_LENGTH as usize {
        return Err(AccountError::RecordAccountTooLong);
    } else if name_len == 0 {
        return Err(AccountError::RecordAccountEmpty);
    }
    let value_len = str_byte_len(record.value.as_str());
    if value_len > MAX_TEXT_LENGTH as usize {
        return Err(AccountError::RecordValueTooLong);
    } else if value_len == 0 {
        return Err(AccountError::RecordValueEmpty);
    }
    Ok(())
}

/// Drops every record keyed `account`, keeping the others in order.
pub fn remove_record(records: &mut Vec<TextRecord>, account: &String)
    ensures
        final(records)@ == without_key(old(records)@, account@),
{
    let mut kept: Vec<TextRecord> = Vec::new();
    let n = records.len();
    for i in 0..n
        invariant
            n == records@.len(),
            records@ == old(records)@,
            kept@ == old(records)@.take(i as int).filter(other_key(account@)),
    {
        let r = &records[i];
        proof {
            old(records)@.take(i as int).lemma_filter_push(*r, other_key(account@));
            assert(old(records)@.take(i as int).push(*r) =~= old(records)@.take(i + 1));
        }
        if !(r.account == *account) {
            let c = r.clone();
            kept.push(c);
        }
    }
    proof {
        assert(old(records)@.take(n as int) =~= old(records)@);
    }
    *records = kept;
}

/// Adds `record` unless a record with its key exists (`RecordAccountAlreadyExists`)
/// or the list would then hold more than `max` records (`TooManyRecords`).
/// On an error the records are unchanged.
pub fn add_record(records: &mut Vec<TextRecord>, record: TextRecord, max: u32) -> (r: Result<(), AccountError>)
    ensures
        has_key(old(records)@, record.account@) ==> r == Err::<(), AccountError>(AccountError::RecordAccountAlreadyExists),
        !has_key(old(records)@, record.account@) && old(records)@.len() + 1 > max
            ==> r == Err::<(), AccountError>(AccountError::TooManyRecords { max }),
        !has_key(old(records)@, record.account@) && old(records)@.len() + 1 <= max ==> r is Ok,
        r is Ok ==> final(records)@ == old(records)@.push(record),
        r is Err ==> final(records)@ == old(records)@,
{
    let n = records.len();
    for i in 0..n
        invariant
            n == records@.len(),
            forall|j: int| 0 <= j < i ==> records@[j].account@ != record.account@,
    {
        if records[i].account == record.account {
            return Err(AccountError::RecordAccountAlreadyExists);
        }
    }
    if n >= max as usize {
        return Err(AccountError::TooManyRecords { max });
    }
    records.push(record);
    Ok(())
}

/// Replaces every record keyed like `record` by `record`, placed last; refused
/// with `TooManyRecords` (records unchanged) when more than `max` would remain.
pub fn update_record(records: &mut Vec<TextRecord>, record: TextRecord, max: u32) -> (r: Result<(), AccountError>)
    ensures
        r is Ok <==> without_key(old(records)@, record.account@).len() + 1 <= max,
        r is Err ==> r == Err::<(), AccountError>(AccountError::TooManyRecords { max }),
        r is Ok ==> final(records)@ == without_key(old(records)@, record.account@).push(record),
        r is Err ==> final(records)@ == old(records)@,
{
    let mut kept: Vec<TextRecord> = records.clone();
    proof {
        assert(kept@ =~= records@);
    }
    remove_record(&mut kept, &record.account);
    if kept.len() >= max as usize {
        return Err(AccountError::TooManyRecords { max });
    }
    kept.push(record);
    *records = kept;
    Ok(())
}

/// Sets the verification of the first record keyed `account`, if any.
pub fn verify_record(records: &mut Vec<TextRecord>, account: &String, result: bool)
    ensures
        final(records)@.len() == old(records)@.len(),
        !has_key(old(records)@, account@) ==> final(records)@ == old(records)@,
        has_key(old(records)@, account@) ==> exists|k: int|
            0 <= k < old(records)@.len()
            && old(records)@[k].account@ == account@
            && (forall|j: int| 0 <= j < k ==> old(records)@[j].account@ != account@)
            && final(records)@ == old(records)@.update(k, TextRecord {
                account: old(records)@[k].account,
                value: old(records)@[k].value,
                verified: Some(result),
            }),
{
    let n = records.len();
    let mut i: usize = 0;
    while i < n
        invariant
            n == records@.len(),
            records@ == old(records)@,
            i <= n,
            forall|j: int| 0 <= j < i ==> records@[j].account@ != account@,
        decreases n - i,
    {
        if records[i].account == *account {
            let updated = TextRecord {
                account: records[i].account.clone(),
                value: records[i].value.clone(),
                verified: Some(result),
            };
            records.set(i, updated);
            return;
        }
        i = i + 1;
    }
}

/// Whether the first record keyed "twitter" exists and is verified.
pub open spec fn twitter_verified(records: Seq<TextRecord>) -> bool {
    exists|k: int|
        0 <= k < records.len() && records[k].account@ == "twitter"@
        && (forall|j: int| 0 <= j < k ==> records[j].account@ != "twitter"@)
        && #[trigger] records[k].verified == Some(true)
}

/// Whether the first record keyed "twitter" is verified; false without one.
pub fn is_twitter_verified(records: &Vec<TextRecord>) -> (r: bool)
    ensures
        r == twitter_verified(records@),
{
    let twitter = String::from_str("twitter");
    let n = records.len();
    for i in 0..n
        invariant
            n == records@.len(),
            twitter@ == "twitter"@,
            forall|j: int| 0 <= j < i ==> records@[j].account@ != "twitter"@,
    {
        if records[i].account == twitter {
            return match records[i].verified {
                Some(v) => v,
                None => false,
            };
        }
    }
    false
}

/// Adding a record, updating one or removing one keeps the keys distinct;
/// so does a verification, which changes no key.
pub proof fn lemma_record_ops_keep_keys_distinct(records: Seq<TextRecord>, record: TextRecord, account: Seq<char>)
    requires
        keys_distinct(records),
    ensures
        !has_key(records, record.account@) ==> keys_distinct(records.push(record)),
        keys_distinct(without_key(records, account)),
        keys_distinct(without_key(records, record.account@).push(record)),
{
    lemma_filter_keeps_distinct(records, account);
    lemma_filter_keeps_distinct(records, record.account@);
    let w = without_key(records, record.account@);
    assert forall|i: int| 0 <= i < w.len() implies w[i].account@ != record.account@ by {
        records.lemma_filter_pred(other_key(record.account@), i);
    }
}

/// Filtering keeps keys distinct: the kept records are a subsequence.
proof fn lemma_filter_keeps_distinct(records: Seq<TextRecord>, account: Seq<char>)
    requires
        keys_distinct(records),
    ensures
        keys_distinct(without_key(records, account)),
    decreases records.len(),
{
    let pred = other_key(account);
    reveal(Seq::filter);
    if records.len() > 0 {
        let init = records.drop_last();
        assert(records.filter(pred) == if pred(records.last()) { init.filter(pred).push(records.last()) } else { init.filter(pred) });
        assert(keys_distinct(init));
        lemma_filter_keeps_distinct(init, account);
        let f = init.filter(pred);
        if pred(records.last()) {
            assert forall|i: int| 0 <= i < f.len() implies f[i].account@ != records.last().account@ by {
                init.lemma_filter_contains_rev(pred, f[i]);
                assert(f.contains(f[i]));
                assert(init.contains(f[i]));
                let j = choose|j: int| 0 <= j < init.len() && init[j] == f[i];
                assert(records[j] == init[j]);
            }
        }
    }
}

} // verus!
