//! Password strength validation.
//!
//! The validator is stateless. It checks, in order, and reports the first
//! violated rule: at least 8 characters, an uppercase letter, a lowercase
//! letter, a numeric character, and at least one of a fixed set of special
//! characters.

use vstd::prelude::*;
use vstd::string::StrSliceExecFns;
use crate::errors::ValidationError;
use crate::password::PasswordPayload;

verus! {

/// Whether the character has the Unicode Uppercase property, exactly as
/// `char::is_uppercase` decides it.
pub uninterp spec fn is_unicode_uppercase(c: char) -> bool;

/// Whether the character has the Unicode Lowercase property, exactly as
/// `char::is_lowercase` decides it.
pub uninterp spec fn is_unicode_lowercase(c: char) -> bool;

/// Whether the character is numeric in Unicode, exactly as
/// `char::is_numeric` decides it.
pub uninterp spec fn is_unicode_numeric(c: char) -> bool;

/// Whether the character is an ASCII uppercase letter, 'A' to 'Z'.
pub open spec fn is_ascii_uppercase_char(c: char) -> bool {
    ('A' as u32) <= (c as u32) && (c as u32) <= ('Z' as u32)
}

/// Whether the character is an ASCII lowercase letter, 'a' to 'z'.
pub open spec fn is_ascii_lowercase_char(c: char) -> bool {
    ('a' as u32) <= (c as u32) && (c as u32) <= ('z' as u32)
}

/// Whether the character is an ASCII digit, '0' to '9'.
pub open spec fn is_ascii_digit_char(c: char) -> bool {
    ('0' as u32) <= (c as u32) && (c as u32) <= ('9' as u32)
}

/// Relies on char::is_uppercase: whether the character has the Unicode
/// Uppercase property. The result depends on the character alone; among
/// ASCII characters the property holds exactly of 'A' to 'Z'.
#[verifier::external_body]
fn char_is_uppercase(c: char) -> (r: bool)
    ensures
        r == is_unicode_uppercase(c),
        is_ascii_uppercase_char(c) ==> r,
        (c as u32) < 128 && !is_ascii_uppercase_char(c) ==> !r,
{
    c.is_uppercase()
}

/// Relies on char::is_lowercase: whether the character has the Unicode
/// Lowercase property. The result depends on the character alone; among
/// ASCII characters the property holds exactly of 'a' to 'z'.
#[verifier::external_body]
fn char_is_lowercase(c: char) -> (r: bool)
    ensures
        r == is_unicode_lowercase(c),
        is_ascii_lowercase_char(c) ==> r,
        (c as u32) < 128 && !is_ascii_lowercase_char(c) ==> !r,
{
    c.is_lowercase()
}

/// Relies on char::is_numeric: whether the character is numeric in Unicode.
/// The result depends on the character alone; among ASCII characters the
/// property holds exactly of the digits '0' to '9'.
#[verifier::external_body]
fn char_is_numeric(c: char) -> (r: bool)
    ensures
        r == is_unicode_numeric(c),
        is_ascii_digit_char(c) ==> r,
        (c as u32) < 128 && !is_ascii_digit_char(c) ==> !r,
{
    c.is_numeric()
}

/// Whether the character belongs to the fixed special-character set
/// `!@#$%^&*()_+-=[]{}|;:'",.<>?/`.
pub open spec fn is_special(c: char) -> bool {
    c == '!' || c == '@' || c == '#' || c == '$' || c == '%' || c == '^' || c == '&' || c == '*'
        || c == '(' || c == ')' || c == '_' || c == '+' || c == '-' || c == '=' || c == '['
        || c == ']' || c == '{' || c == '}' || c == '|' || c == ';' || c == ':' || c == '\''
        || c == '"' || c == ',' || c == '.' || c == '<' || c == '>' || c == '?' || c == '/'
}

/// Decides membership in the fixed special-character set.
pub fn is_special_char(c: char) -> (r: bool)
    ensures
        r == is_special(c),
{
    c == '!' || c == '@' || c == '#' || c == '$' || c == '%' || c == '^' || c == '&' || c == '*'
        || c == '(' || c == ')' || c == '_' || c == '+' || c == '-' || c == '=' || c == '['
        || c == ']' || c == '{' || c == '}' || c == '|' || c == ';' || c == ':' || c == '\''
        || c == '"' || c == ',' || c == '.' || c == '<' || c == '>' || c == '?' || c == '/'
}

/// The text has at least 8 characters.
pub open spec fn long_enough(s: Seq<char>) -> bool {
    s.len() >= 8
}

/// Some character of the text is Unicode uppercase.
pub open spec fn has_uppercase(s: Seq<char>) -> bool {
    exists|i: int| 0 <= i < s.len() && is_unicode_uppercase(s[i])
}

/// Some character of the text is Unicode lowercase.
pub open spec fn has_lowercase(s: Seq<char>) -> bool {
    exists|i: int| 0 <= i < s.len() && is_unicode_lowercase(s[i])
}

/// Some character of the text is numeric.
pub open spec fn has_digit(s: Seq<char>) -> bool {
    exists|i: int| 0 <= i < s.len() && is_unicode_numeric(s[i])
}

/// Some character of the text belongs to the special-character set.
pub open spec fn has_special(s: Seq<char>) -> bool {
    exists|i: int| 0 <= i < s.len() && is_special(s[i])
}

/// The text satisfies all five strength rules.
pub open spec fn is_valid(s: Seq<char>) -> bool {
    long_enough(s) && has_uppercase(s) && has_lowercase(s) && has_digit(s) && has_special(s)
}

/// Whether some character of `s` is Unicode uppercase.
fn scan_uppercase(s: &str) -> (r: bool)
    ensures
        r == has_uppercase(s@),
{
    let n = s.unicode_len();
    let mut i: usize = 0;
    while i < n
        invariant
            n == s@.len(),
            i <= n,
            forall|j: int| 0 <= j < i ==> !is_unicode_uppercase(s@[j]),
        decreases n - i,
    {
        if char_is_uppercase(s.get_char(i)) {
            return true;
        }
        i = i + 1;
    }
    false
}

/// Whether some character of `s` is Unicode lowercase.
fn scan_lowercase(s: &str) -> (r: bool)
    ensures
        r == has_lowercase(s@),
{
    let n = s.unicode_len();
    let mut i: usize = 0;
    while i < n
        invariant
            n == s@.len(),
            i <= n,
            forall|j: int| 0 <= j < i ==> !is_unicode_lowercase(s@[j]),
        decreases n - i,
    {
        if char_is_lowercase(s.get_char(i)) {
            return true;
        }
        i = i + 1;
    }
    false
}

/// Whether some character of `s` is numeric.
fn scan_digit(s: &str) -> (r: bool)
    ensures
        r == has_digit(s@),
{
    let n = s.unicode_len();
    let mut i: usize = 0;
    while i < n
        invariant
            n == s@.len(),
            i <= n,
            forall|j: int| 0 <= j < i ==> !is_unicode_numeric(s@[j]),
        decreases n - i,
    {
        if char_is_numeric(s.get_char(i)) {
            return true;
        }
        i = i + 1;
    }
    false
}

/// Whether some character of `s` belongs to the special-character set.
fn scan_special(s: &str) -> (r: bool)
    ensures
        r == has_special(s@),
{
    let n = s.unicode_len();
    let mut i: usize = 0;
    while i < n
        invariant
            n == s@.len(),
            i <= n,
            forall|j: int| 0 <= j < i ==> !is_special(s@[j]),
        decreases n - i,
    {
        if is_special_char(s.get_char(i)) {
            return true;
        }
        i = i + 1;
    }
    false
}

/// Checks the five strength rules in order and reports the first one the
/// text violates; succeeds exactly when the text satisfies them all.
pub fn validate_password(payload: &PasswordPayload) -> (r: Result<(), ValidationError>)
    ensures
        match r {
            Ok(()) => is_valid(payload@),
            Err(ValidationError::TooShort) => !long_enough(payload@),
            Err(ValidationError::NoUppercase) => long_enough(payload@) && !has_uppercase(
                payload@,
            ),
            Err(ValidationError::NoLowercase) => long_enough(payload@) && has_uppercase(payload@)
                && !has_lowercase(payload@),
            Err(ValidationError::NoDigit) => long_enough(payload@) && has_uppercase(payload@)
                && has_lowercase(payload@) && !has_digit(payload@),
            Err(ValidationError::NoSpecial) => long_enough(payload@) && has_uppercase(payload@)
                && has_lowercase(payload@) && has_digit(payload@) && !has_special(payload@),
        },
{
    let s = payload.value.as_str();
    if s.unicode_len() < 8 {
        return Err(ValidationError::TooShort);
    }
    if !scan_uppercase(s) {
        return Err(ValidationError::NoUppercase);
    }
    if !scan_lowercase(s) {
        return Err(ValidationError::NoLowercase);
    }
    if !scan_digit(s) {
        return Err(ValidationError::NoDigit);
    }
    if !scan_special(s) {
        return Err(ValidationError::NoSpecial);
    }
    Ok(())
}

} // verus!
