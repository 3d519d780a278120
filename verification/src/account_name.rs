//! The rules for account names, those of Internet domain labels: lower-case
//! ASCII letters, digits and inner hyphens, within configured length bounds.
use vstd::prelude::*;
use vstd::utf8::*;
use crate::errors::MarketError;
use crate::types::{byte_len, str_byte_len};

verus! {

/// A character allowed in an account name.
pub open spec fn name_char_ok(c: char) -> bool {
    let v = c as u32;
    (48 <= v && v <= 57) || (97 <= v && v <= 122) || v == 45
}

/// The hyphen, `'-'`.
pub open spec fn is_hyphen(c: char) -> bool {
    c as u32 == 45
}

/// A byte that encodes an allowed character.
pub open spec fn name_byte_ok(b: u8) -> bool {
    (48 <= b && b <= 57) || (97 <= b && b <= 122) || b == 45
}

/// What `validate_account` answers for the name with characters `name`.
/// Lengths are counted in bytes, as a `u32`.
pub open spec fn account_name_check(name: Seq<char>, min: u32, max: u32) -> Result<(), MarketError> {
    let len = byte_len(name) as u32;
    if len < min {
        Err(MarketError::AccountTooShort)
    } else if len >= max {
        Err(MarketError::AccountTooLong)
    } else if exists|i: int| 0 <= i < name.len() && !name_char_ok(name[i]) {
        Err(MarketError::InvalidAccount)
    } else if name.len() > 0 && (is_hyphen(name[0]) || is_hyphen(name.last())) {
        Err(MarketError::InvalidAccount)
    } else if len > 4 && is_hyphen(name[2]) && is_hyphen(name[3]) {
        Err(MarketError::InvalidAccount)
    } else {
        Ok(())
    }
}

/// Whether `c` may not appear in an account name.
pub fn invalid_char(c: char) -> (r: bool)
    ensures
        r == !name_char_ok(c),
        'a' <= c <= 'z' || '0' <= c <= '9' || c == '-' ==> !r,
        !('a' <= c <= 'z' || '0' <= c <= '9' || c == '-') ==> r,
{
    let v = c as u32;
    let is_valid = (v >= 48 && v <= 57) || (v >= 97 && v <= 122) || v == 45;
    !is_valid
}

/// Checks an account name: its byte length lies in `[min, max)`; it holds only
/// lower-case letters, digits and hyphens; it neither starts nor ends with a
/// hyphen; and, when longer than four bytes, its third and fourth characters are
/// not both hyphens.
pub fn validate_account(account: &str, min: u32, max: u32) -> (r: Result<(), MarketError>)
    ensures
        r == account_name_check(account@, min, max),
{
    let n = str_byte_len(account);
    let len = #[verifier::truncate] (n as u32);
    if len < min {
        return Err(MarketError::AccountTooShort);
    } else if len >= max {
        return Err(MarketError::AccountTooLong);
    }
    let bytes = account.as_bytes();
    proof {
        assert(bytes@ == encode_utf8(account@));
    }
    for i in 0..n
        invariant
            n == bytes@.len(),
            bytes@ == encode_utf8(account@),
            forall|j: int| 0 <= j < i ==> name_byte_ok(bytes@[j]),
            n == byte_len(account@),
            len == #[verifier::truncate] (n as u32),
            min <= len < max,
    {
        let b = bytes[i];
        if !((b >= 48 && b <= 57) || (b >= 97 && b <= 122) || b == 45) {
            proof {
                lemma_bytes_ok_iff_chars_ok(account@);
                assert(!name_byte_ok(encode_utf8(account@)[i as int]));
                assert(!(forall|j: int| 0 <= j < encode_utf8(account@).len() ==> name_byte_ok(#[trigger] encode_utf8(account@)[j])));
                assert(!(forall|k: int| 0 <= k < account@.len() ==> name_char_ok(#[trigger] account@[k])));
                let k = choose|k: int| 0 <= k < account@.len() && !name_char_ok(account@[k]);
                assert(exists|k: int| 0 <= k < account@.len() && !name_char_ok(account@[k]));
            }
            return Err(MarketError::InvalidAccount);
        }
    }
    proof {
        lemma_bytes_ok_iff_chars_ok(account@);
        assert(forall|k: int| 0 <= k < account@.len() ==> name_char_ok(#[trigger] account@[k]));
        if n > 0 {
            assert(bytes@[0] as u32 == account@[0] as u32);
            assert(bytes@[n - 1] as u32 == account@[n - 1] as u32);
        }
        if n > 4 {
            assert(bytes@[2] as u32 == account@[2] as u32);
            assert(bytes@[3] as u32 == account@[3] as u32);
        }
    }
    if n > 0 && (bytes[0] == 45 || bytes[n - 1] == 45) {
        return Err(MarketError::InvalidAccount);
    }
    if len > 4 && bytes[2] == 45 && bytes[3] == 45 {
        return Err(MarketError::InvalidAccount);
    }
    Ok(())
}

/// The bytes of a string are all allowed exactly when its characters are, and
/// then the string is ASCII.
proof fn lemma_bytes_ok_iff_chars_ok(s: Seq<char>)
    ensures
        (forall|j: int| 0 <= j < encode_utf8(s).len() ==> name_byte_ok(#[trigger] encode_utf8(s)[j]))
            <==> (forall|i: int| 0 <= i < s.len() ==> name_char_ok(#[trigger] s[i])),
        (forall|i: int| 0 <= i < s.len() ==> name_char_ok(#[trigger] s[i])) ==> (encode_utf8(s).len() == s.len()
            && forall|k: int| 0 <= k < s.len() ==> #[trigger] encode_utf8(s)[k] as u32 == s[k] as u32),
    decreases s.len(),
{
    if s.len() == 0 {
        assert(encode_utf8(s) =~= Seq::<u8>::empty());
    } else {
        let rest = s.drop_first();
        lemma_bytes_ok_iff_chars_ok(rest);
        let c = s[0] as u32;
        let head = encode_scalar(c);
        let e = encode_utf8(s);
        assert(e == head + encode_utf8(rest));
        char_is_scalar(s[0]);
        if has_width_1_encoding(c) {
            assert(leading_byte_width_1(c) == c as u8) by (bit_vector)
                requires has_width_1_encoding(c);
            assert(head.len() == 1);
            assert(c <= 0x7F);
            assert(head[0] as u32 == c);
            assert((name_byte_ok(head[0])) <==> name_char_ok(s[0]));
            if forall|j: int| 0 <= j < e.len() ==> name_byte_ok(#[trigger] e[j]) {
                assert forall|j: int| 0 <= j < encode_utf8(rest).len() implies name_byte_ok(#[trigger] encode_utf8(rest)[j]) by {
                    assert(e[j + 1] == encode_utf8(rest)[j]);
                }
                assert(name_byte_ok(e[0]));
                assert forall|i: int| 0 <= i < s.len() implies name_char_ok(#[trigger] s[i]) by {
                    if i > 0 {
                        assert(s[i] == rest[i - 1]);
                    }
                }
            }
            if forall|i: int| 0 <= i < s.len() ==> name_char_ok(#[trigger] s[i]) {
                assert forall|i: int| 0 <= i < rest.len() implies name_char_ok(#[trigger] rest[i]) by {
                    assert(rest[i] == s[i + 1]);
                }
                assert(name_char_ok(s[0]));
                assert forall|j: int| 0 <= j < e.len() implies name_byte_ok(#[trigger] e[j]) by {
                    if j > 0 {
                        assert(e[j] == encode_utf8(rest)[j - 1]);
                    }
                }
                assert forall|k: int| 0 <= k < s.len() implies #[trigger] e[k] as u32 == s[k] as u32 by {
                    if k > 0 {
                        assert(e[k] == encode_utf8(rest)[k - 1]);
                        assert(s[k] == rest[k - 1]);
                    }
                }
            }
        } else {
            let b0 = head[0];
            assert(b0 >= 0xC0) by {
                if has_width_2_encoding(c) {
                    assert(leading_byte_width_2(c) >= 0xC0) by (bit_vector);
                } else if has_width_3_encoding(c) {
                    assert(leading_byte_width_3(c) >= 0xC0) by (bit_vector);
                } else {
                    assert(leading_byte_width_4(c) >= 0xC0) by (bit_vector);
                }
            }
            assert(e[0] == b0);
            assert(!name_byte_ok(e[0]));
            assert(!name_char_ok(s[0]));
        }
    }
}

/// A character of the Unicode `White_Space` property.
pub open spec fn is_white_space(c: char) -> bool {
    let v = c as u32;
    (0x09 <= v && v <= 0x0D) || v == 0x20 || v == 0x85 || v == 0xA0 || v == 0x1680
        || (0x2000 <= v && v <= 0x200A) || v == 0x2028 || v == 0x2029 || v == 0x202F
        || v == 0x205F || v == 0x3000
}

/// `r` is `s` with its leading and trailing white space removed.
pub open spec fn trimmed(s: Seq<char>, r: Seq<char>) -> bool {
    exists|a: int, b: int|
        #![trigger s.subrange(a, b)]
        0 <= a <= b <= s.len() && r == s.subrange(a, b)
            && (forall|i: int| 0 <= i < a ==> is_white_space(#[trigger] s[i]))
            && (forall|i: int| b <= i < s.len() ==> is_white_space(#[trigger] s[i]))
            && (r.len() > 0 ==> !is_white_space(r[0]) && !is_white_space(r.last()))
}

/// Trimming gives one result.
pub proof fn lemma_trimmed_unique(s: Seq<char>, r1: Seq<char>, r2: Seq<char>)
    requires
        trimmed(s, r1),
        trimmed(s, r2),
    ensures
        r1 == r2,
{
    let (a1, b1) = choose|a: int, b: int|
        #![trigger s.subrange(a, b)]
        0 <= a <= b <= s.len() && r1 == s.subrange(a, b)
            && (forall|i: int| 0 <= i < a ==> is_white_space(#[trigger] s[i]))
            && (forall|i: int| b <= i < s.len() ==> is_white_space(#[trigger] s[i]))
            && (r1.len() > 0 ==> !is_white_space(r1[0]) && !is_white_space(r1.last()));
    let (a2, b2) = choose|a: int, b: int|
        #![trigger s.subrange(a, b)]
        0 <= a <= b <= s.len() && r2 == s.subrange(a, b)
            && (forall|i: int| 0 <= i < a ==> is_white_space(#[trigger] s[i]))
            && (forall|i: int| b <= i < s.len() ==> is_white_space(#[trigger] s[i]))
            && (r2.len() > 0 ==> !is_white_space(r2[0]) && !is_white_space(r2.last()));
    if r1.len() > 0 && r2.len() > 0 {
        assert(s[a1] == r1[0]);
        assert(s[a2] == r2[0]);
        assert(s[b1 - 1] == r1.last());
        assert(s[b2 - 1] == r2.last());
        assert(a1 == a2);
        assert(b1 == b2);
        assert(r1 =~= r2);
    } else if r1.len() > 0 {
        assert(s[a1] == r1[0]);
        assert(a1 < a2 || a1 >= b2);
        assert(false);
    } else if r2.len() > 0 {
        assert(s[a2] == r2[0]);
        assert(a2 < a1 || a2 >= b1);
        assert(false);
    } else {
        assert(r1 =~= r2);
    }
}

/// `str::trim`: the name with the white space (in the sense of Unicode's
/// `White_Space` property) at both ends removed.
#[verifier::external_body]
pub(crate) fn trim_name(s: &str) -> (r: String)
    ensures
        trimmed(s@, r@),
{
    s.trim().to_string()
}

} // verus!
