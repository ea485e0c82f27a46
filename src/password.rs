//! The password policy that gates every operation.

use vstd::prelude::*;

verus! {

/// What `char::is_uppercase` says of a character (the Unicode `Uppercase` property).
pub uninterp spec fn uppercase_property(c: char) -> bool;

/// What `char::is_lowercase` says of a character (the Unicode `Lowercase` property).
pub uninterp spec fn lowercase_property(c: char) -> bool;

/// Relies on `char::is_uppercase`: the answer depends on the character alone.
#[verifier::external_body]
fn char_is_uppercase(c: char) -> (r: bool)
    ensures
        r == uppercase_property(c),
{
    c.is_uppercase()
}

/// Relies on `char::is_lowercase`: the answer depends on the character alone.
#[verifier::external_body]
fn char_is_lowercase(c: char) -> (r: bool)
    ensures
        r == lowercase_property(c),
{
    c.is_lowercase()
}

/// The fewest characters a password may have.
pub const MIN_PASSWORD_CHARS: usize = 8;

/// The most characters a password may have.
pub const MAX_PASSWORD_CHARS: usize = 32;

/// A decimal digit, `0` to `9`.
pub open spec fn is_decimal_digit(c: char) -> bool {
    '0' <= c <= '9'
}

/// One of the characters `!@#$%^&*()_+-=[]{}|;:',.<>?`.
pub open spec fn is_special(c: char) -> bool {
    c == '!' || c == '@' || c == '#' || c == '$' || c == '%' || c == '^' || c == '&' || c == '*'
        || c == '(' || c == ')' || c == '_' || c == '+' || c == '-' || c == '=' || c == '['
        || c == ']' || c == '{' || c == '}' || c == '|' || c == ';' || c == ':' || c == '\''
        || c == ',' || c == '.' || c == '<' || c == '>' || c == '?'
}

/// Some character of `s` satisfies `p`.
pub open spec fn has_char(s: Seq<char>, p: spec_fn(char) -> bool) -> bool {
    exists|i: int| 0 <= i < s.len() && #[trigger] p(s[i])
}

/// The complexity rule: 8 to 32 characters, with at least one uppercase
/// letter, one lowercase letter, one decimal digit and one special character.
pub open spec fn password_ok(s: Seq<char>) -> bool {
    &&& MIN_PASSWORD_CHARS <= s.len() <= MAX_PASSWORD_CHARS
    &&& has_char(s, |c: char| uppercase_property(c))
    &&& has_char(s, |c: char| lowercase_property(c))
    &&& has_char(s, |c: char| is_decimal_digit(c))
    &&& has_char(s, |c: char| is_special(c))
}

fn char_is_special(c: char) -> (r: bool)
    ensures
        r == is_special(c),
{
    match c {
        '!' | '@' | '#' | '$' | '%' | '^' | '&' | '*' | '(' | ')' | '_' | '+' | '-' | '=' | '['
        | ']' | '{' | '}' | '|' | ';' | ':' | '\'' | ',' | '.' | '<' | '>' | '?' => true,
        _ => false,
    }
}

} // verus!

verus! {

use crate::keys::EncryptionError;

/// `has_char` over a prefix grows by one character at a time.
proof fn lemma_has_char_extend(s: Seq<char>, i: int, p: spec_fn(char) -> bool)
    requires
        0 <= i < s.len(),
    ensures
        has_char(s.subrange(0, i + 1), p) == (has_char(s.subrange(0, i), p) || p(s[i])),
{
    let longer = s.subrange(0, i + 1);
    let shorter = s.subrange(0, i);
    if has_char(shorter, p) {
        let j = choose|j: int| 0 <= j < shorter.len() && #[trigger] p(shorter[j]);
        assert(longer[j] == shorter[j]);
    }
    if p(s[i]) {
        assert(longer[i] == s[i]);
    }
    if has_char(longer, p) {
        let j = choose|j: int| 0 <= j < longer.len() && #[trigger] p(longer[j]);
        if j < i {
            assert(shorter[j] == longer[j]);
        }
    }
}

/// The message that names the first rule `s` breaks, in the order length,
/// uppercase, lowercase, digit, special character.
pub open spec fn first_failure_message(s: Seq<char>) -> Seq<char> {
    if s.len() < MIN_PASSWORD_CHARS {
        "Password must be at least 8 characters long"@
    } else if s.len() > MAX_PASSWORD_CHARS {
        "Password must not exceed 32 characters"@
    } else if !has_char(s, |c: char| uppercase_property(c)) {
        "Password must contain at least one uppercase letter"@
    } else if !has_char(s, |c: char| lowercase_property(c)) {
        "Password must contain at least one lowercase letter"@
    } else if !has_char(s, |c: char| is_decimal_digit(c)) {
        "Password must contain at least one number"@
    } else {
        "Password must contain at least one special character"@
    }
}

fn refusal(message: &str) -> (r: Result<(), EncryptionError>)
    ensures
        r matches Err(EncryptionError::PasswordValidation(m)) && m@ == message@,
{
    Err(EncryptionError::PasswordValidation(String::from_str(message)))
}

/// Checks a candidate password against the complexity rule, before any
/// cryptographic work. Length counts characters.
pub fn validate_password(password: &str) -> (r: Result<(), EncryptionError>)
    ensures
        r is Ok <==> password_ok(password@),
        r is Err ==> (r matches Err(EncryptionError::PasswordValidation(m)) && m@
            == first_failure_message(password@)),
{
    let n = password.unicode_len();
    if n < MIN_PASSWORD_CHARS {
        return refusal("Password must be at least 8 characters long");
    }
    if n > MAX_PASSWORD_CHARS {
        return refusal("Password must not exceed 32 characters");
    }
    let ghost s = password@;
    let mut upper = false;
    let mut lower = false;
    let mut digit = false;
    let mut special = false;
    let mut i: usize = 0;
    while i < n
        invariant
            i <= n,
            n == s.len(),
            s == password@,
            upper == has_char(s.subrange(0, i as int), |c: char| uppercase_property(c)),
            lower == has_char(s.subrange(0, i as int), |c: char| lowercase_property(c)),
            digit == has_char(s.subrange(0, i as int), |c: char| is_decimal_digit(c)),
            special == has_char(s.subrange(0, i as int), |c: char| is_special(c)),
        decreases n - i,
    {
        let c = password.get_char(i);
        proof {
            lemma_has_char_extend(s, i as int, |c: char| uppercase_property(c));
            lemma_has_char_extend(s, i as int, |c: char| lowercase_property(c));
            lemma_has_char_extend(s, i as int, |c: char| is_decimal_digit(c));
            lemma_has_char_extend(s, i as int, |c: char| is_special(c));
        }
        upper = upper || char_is_uppercase(c);
        lower = lower || char_is_lowercase(c);
        digit = digit || ('0' <= c && c <= '9');
        special = special || char_is_special(c);
        i = i + 1;
    }
    assert(s.subrange(0, n as int) =~= s);
    if !upper {
        return refusal("Password must contain at least one uppercase letter");
    }
    if !lower {
        return refusal("Password must contain at least one lowercase letter");
    }
    if !digit {
        return refusal("Password must contain at least one number");
    }
    if !special {
        return refusal("Password must contain at least one special character");
    }
    Ok(())
}

} // verus!
