use rand::Rng;
use vstd::prelude::*;
use vstd::string::{StringExecFns, StringSliceAdditionalSpecFns};

use crate::error::AppStateError;

verus! {

/// Whether the regular expression `pattern` matches somewhere in `text`, as
/// the regex crate decides it; `false` where the pattern does not compile.
pub uninterp spec fn regex_match_of(pattern: Seq<char>, text: Seq<char>) -> bool;

/// Relies on regex's `Regex::new` and `Regex::is_match`: the verdict depends
/// on the pattern and the text alone.
#[verifier::external_body]
pub(crate) fn regex_matches(pattern: &str, text: &str) -> (r: bool)
    ensures
        r == regex_match_of(pattern@, text@),
{
    match regex::Regex::new(pattern) {
        Ok(re) => re.is_match(text),
        Err(_) => false,
    }
}

/// The shape an e-mail address must have at signup.
pub const EMAIL_PATTERN: &'static str = r"^[a-zA-Z0-9.!#$%&'*+/=?^_`{|}~-]+@[a-zA-Z0-9-]+(?:\.[a-zA-Z0-9-]+)*$";

/// The shape an address must have where signups are restricted to the
/// institution's domain.
pub const INSTITUTIONAL_PATTERN: &'static str = r"^[a-z0-9.]+@(etud\.)?univ-ubs\.fr$";

pub const MIN_USERNAME_LEN: usize = 3;
pub const MAX_USERNAME_LEN: usize = 15;
pub const MIN_PASSWORD_LEN: usize = 8;
pub const MAX_PASSWORD_LEN: usize = 128;

/// Length of the code mailed to a new actor to verify its account.
pub const VERIFICATION_CODE_LEN: usize = 32;

/// A name's length (in UTF-8 bytes) is within bounds.
pub open spec fn username_len_ok(len: nat) -> bool {
    MIN_USERNAME_LEN <= len <= MAX_USERNAME_LEN
}

/// A password's length (in UTF-8 bytes) is within bounds.
pub open spec fn password_len_ok(len: nat) -> bool {
    MIN_PASSWORD_LEN <= len <= MAX_PASSWORD_LEN
}

/// The first rule a signup breaks, in the order they are checked: e-mail
/// shape, name length, password length, name uniqueness.
pub open spec fn signup_error(name_len: nat, password_len: nat, email_ok: bool, name_taken: bool) -> Option<AppStateError> {
    if !email_ok {
        Some(AppStateError::InvalidEmail)
    } else if !username_len_ok(name_len) {
        Some(AppStateError::InvalidUsername)
    } else if !password_len_ok(password_len) {
        Some(AppStateError::InvalidPassword)
    } else if name_taken {
        Some(AppStateError::NameTaken)
    } else {
        None
    }
}

/// Checks the fields of a signup, given whether the address has the required
/// shape and whether the name is already taken.
pub fn check_signup_fields(username: &str, password: &str, email_ok: bool, name_taken: bool) -> (r: Result<(), AppStateError>)
    ensures
        match signup_error(username.len() as nat, password.len() as nat, email_ok, name_taken) {
            Some(e) => r == Err::<(), AppStateError>(e),
            None => r is Ok,
        },
{
    if !email_ok {
        return Err(AppStateError::InvalidEmail);
    }
    let n = username.len();
    if n < MIN_USERNAME_LEN || n > MAX_USERNAME_LEN {
        return Err(AppStateError::InvalidUsername);
    }
    let p = password.len();
    if p < MIN_PASSWORD_LEN || p > MAX_PASSWORD_LEN {
        return Err(AppStateError::InvalidPassword);
    }
    if name_taken {
        return Err(AppStateError::NameTaken);
    }
    Ok(())
}

/// An ASCII letter or digit.
pub open spec fn is_alphanumeric(c: char) -> bool {
    ('A' <= c && c <= 'Z') || ('a' <= c && c <= 'z') || ('0' <= c && c <= '9')
}

/// Relies on rand's `thread_rng` sampled with `Alphanumeric`: one byte drawn
/// from `A`–`Z`, `a`–`z`, `0`–`9`.
#[verifier::external_body]
fn sample_alphanumeric() -> (r: u8)
    ensures
        is_alphanumeric(r as char),
{
    rand::thread_rng().sample(rand::distributions::Alphanumeric)
}

/// Relies on `String::push`: appends one character.
#[verifier::external_body]
fn push_char(s: &mut String, c: char)
    ensures
        final(s)@ == old(s)@.push(c),
{
    s.push(c)
}

/// The code spelled by drawn bytes, one character per byte.
pub fn code_from_bytes(bytes: &Vec<u8>) -> (r: String)
    ensures
        r@ == bytes@.map_values(|b: u8| b as char),
{
    let mut code = String::new();
    let mut i: usize = 0;
    while i < bytes.len()
        invariant
            i <= bytes@.len(),
            code@ == bytes@.take(i as int).map_values(|b: u8| b as char),
        decreases bytes@.len() - i,
    {
        push_char(&mut code, bytes[i] as char);
        assert(bytes@.take(i + 1) == bytes@.take(i as int).push(bytes@[i as int]));
        i = i + 1;
        assert(code@ =~= bytes@.take(i as int).map_values(|b: u8| b as char));
    }
    assert(bytes@.take(bytes@.len() as int) == bytes@);
    code
}

/// A fresh random verification code of letters and digits.
pub fn generate_verification_code() -> (r: String)
    ensures
        r@.len() == VERIFICATION_CODE_LEN,
        forall|i: int| 0 <= i < r@.len() ==> is_alphanumeric(#[trigger] r@[i]),
{
    let mut bytes: Vec<u8> = Vec::new();
    let mut i: usize = 0;
    while i < VERIFICATION_CODE_LEN
        invariant
            i <= VERIFICATION_CODE_LEN,
            bytes@.len() == i,
            forall|j: int| 0 <= j < bytes@.len() ==> is_alphanumeric(#[trigger] bytes@[j] as char),
        decreases VERIFICATION_CODE_LEN - i,
    {
        let b = sample_alphanumeric();
        bytes.push(b);
        i = i + 1;
    }
    let code = code_from_bytes(&bytes);
    assert forall|j: int| 0 <= j < code@.len() implies is_alphanumeric(#[trigger] code@[j]) by {
        assert(code@[j] == bytes@[j] as char);
    }
    code
}

/// The decimal value of a string of ASCII digits.
pub open spec fn digits_value(s: Seq<u8>) -> nat
    decreases s.len(),
{
    if s.len() == 0 {
        0
    } else {
        digits_value(s.drop_last()) * 10 + (s.last() - 48) as nat
    }
}

pub open spec fn all_digits(s: Seq<u8>) -> bool {
    forall|i: int| 0 <= i < s.len() ==> 48 <= #[trigger] s[i] <= 57
}

/// `k` is the position of the first `@` of `s`.
pub open spec fn first_at(s: Seq<u8>, k: int) -> bool {
    &&& 0 <= k < s.len()
    &&& s[k] == 64
    &&& forall|j: int| 0 <= j < k ==> s[j] != 64
}

/// The member number of an institutional address: the local part (before
/// the first `@`) is one letter followed by the number in decimal.
pub open spec fn institutional_id_of(s: Seq<u8>) -> Option<u32> {
    if exists|k: int| first_at(s, k) {
        let k = choose|k: int| first_at(s, k);
        let d = s.subrange(1, k);
        if k >= 2 && all_digits(d) && digits_value(d) <= u32::MAX {
            Some(digits_value(d) as u32)
        } else {
            None
        }
    } else {
        None
    }
}

/// A longer string of digits is worth at least as much as any prefix of it.
proof fn lemma_digits_value_prefix(s: Seq<u8>, j: int)
    requires
        0 <= j <= s.len(),
    ensures
        digits_value(s.take(j)) <= digits_value(s),
    decreases s.len(),
{
    if j < s.len() {
        lemma_digits_value_prefix(s.drop_last(), j);
        assert(s.drop_last().take(j) == s.take(j));
    } else {
        assert(s.take(j) == s);
    }
}

/// Reads the member number from an institutional address.
pub fn institutional_id(email: &str) -> (r: Option<u32>)
    ensures
        r == institutional_id_of(email.spec_bytes()),
{
    let b = email.as_bytes();
    let n = b.len();
    let mut k: usize = 0;
    while k < n && b[k] != 64
        invariant
            n == b@.len(),
            k <= n,
            forall|j: int| 0 <= j < k ==> b@[j] != 64,
        decreases n - k,
    {
        k = k + 1;
    }
    if k == n {
        assert(!exists|k: int| first_at(b@, k));
        return None;
    }
    proof {
        assert(first_at(b@, k as int));
        let c = choose|c: int| first_at(b@, c);
        if c < k {
            assert(b@[c] != 64);
        } else if c > k {
            assert(b@[k as int] != 64);
        }
    }
    if k < 2 {
        return None;
    }
    let ghost d = b@.subrange(1, k as int);
    let mut acc: u64 = 0;
    let mut i: usize = 1;
    while i < k
        invariant
            n == b@.len(),
            b@ == email.spec_bytes(),
            (choose|c: int| first_at(b@, c)) == k,
            first_at(b@, k as int),
            2 <= k < n,
            d == b@.subrange(1, k as int),
            1 <= i <= k,
            acc == digits_value(d.take(i - 1)),
            acc <= u32::MAX,
            all_digits(d.take(i - 1)),
        decreases k - i,
    {
        let c = b[i];
        if c < 48 || c > 57 {
            assert(d[i - 1] == c);
            return None;
        }
        assert(d.take(i as int).drop_last() == d.take(i - 1));
        assert(d.take(i as int).last() == c);
        acc = acc * 10 + (c - 48) as u64;
        if acc > u32::MAX as u64 {
            proof {
                lemma_digits_value_prefix(d, i as int);
            }
            return None;
        }
        assert(all_digits(d.take(i as int))) by {
            assert forall|j: int| 0 <= j < i implies 48 <= #[trigger] d.take(i as int)[j] <= 57 by {
                if j < i - 1 {
                    assert(d.take(i as int)[j] == d.take(i - 1)[j]);
                }
            }
        }
        i = i + 1;
    }
    assert(d.take(k - 1) == d);
    Some(acc as u32)
}

/// The body of the mail that asks a new actor to verify its account: a link
/// to the verification endpoint of the site at `url`.
pub fn verification_mail_body(url: &str, token: &str) -> (r: String)
    ensures
        r@ == "Click on this link to verify your account: "@ + url@ + "/api/verify/"@ + token@,
{
    let mut body = String::from_str("Click on this link to verify your account: ");
    body.append(url);
    body.append("/api/verify/");
    body.append(token);
    body
}

} // verus!
