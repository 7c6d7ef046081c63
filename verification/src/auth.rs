//! Credential validation and the input sanitizer.

use vstd::prelude::*;
use vstd::string::StrSliceExecFns;
use crate::types::AppError;

verus! {

/// The marker glyph: both a domain signal (an active cell) and a character
/// the sanitizer lets through.
pub const MARKER: char = '\u{2694}';

/// Whether a character counts as alphanumeric, exactly as the Unicode
/// tables have it. A fixed function of the character alone.
pub uninterp spec fn char_is_alphanumeric(c: char) -> bool;

/// Whether a character counts as whitespace, exactly as the Unicode
/// tables have it. A fixed function of the character alone.
pub uninterp spec fn char_is_whitespace(c: char) -> bool;

/// Relies on char::is_alphanumeric: true exactly on Unicode alphabetic
/// characters and numbers, the same answer for the same character always.
pub assume_specification[ char::is_alphanumeric ](c: char) -> (r: bool)
    ensures
        r == char_is_alphanumeric(c),
;

/// Relies on char::is_whitespace: true exactly on Unicode whitespace,
/// the same answer for the same character always.
pub assume_specification[ char::is_whitespace ](c: char) -> (r: bool)
    ensures
        r == char_is_whitespace(c),
;

/// The sanitizer's allow-list: alphanumerics, whitespace, the marker
/// glyph and `#`.
pub open spec fn spec_allowed_char(c: char) -> bool {
    char_is_alphanumeric(c) || char_is_whitespace(c) || c == MARKER || c == '#'
}

/// What the sanitizer keeps of a string: the allow-listed characters,
/// in order, with nothing substituted for the rest.
pub open spec fn spec_sanitize(s: Seq<char>) -> Seq<char> {
    s.filter(|c: char| spec_allowed_char(c))
}

fn allowed_char(c: char) -> (r: bool)
    ensures
        r == spec_allowed_char(c),
{
    c.is_alphanumeric() || c.is_whitespace() || c == MARKER || c == '#'
}

/// Relies on String::push: appends the given character at the end.
#[verifier::external_body]
fn push_char(s: &mut String, c: char)
    ensures
        final(s)@ == old(s)@.push(c),
{
    s.push(c);
}

proof fn lemma_sanitize_step(s: Seq<char>, i: int)
    requires
        0 <= i < s.len(),
    ensures
        spec_sanitize(s.take(i + 1)) == if spec_allowed_char(s[i]) {
            spec_sanitize(s.take(i)).push(s[i])
        } else {
            spec_sanitize(s.take(i))
        },
{
    reveal(Seq::filter);
    assert(s.take(i + 1).len() == i + 1);
    assert(s.take(i + 1).drop_last() =~= s.take(i));
    assert(s.take(i + 1).last() == s[i]);
}

/// Strips a string to the allow-listed character set before it is used as
/// a cache key or echoed to a client. Pure, total, never fails.
pub fn sanitize(input: &str) -> (r: String)
    ensures
        r@ == spec_sanitize(input@),
{
    let n = input.unicode_len();
    let mut out = String::new();
    let mut i: usize = 0;
    while i < n
        invariant
            i <= n,
            n == input@.len(),
            out@ == spec_sanitize(input@.take(i as int)),
        decreases n - i,
    {
        let c = input.get_char(i);
        proof {
            lemma_sanitize_step(input@, i as int);
        }
        if allowed_char(c) {
            push_char(&mut out, c);
        }
        i += 1;
    }
    proof {
        assert(input@.take(n as int) =~= input@);
    }
    out
}

pub fn str_eq(a: &str, b: &str) -> (r: bool)
    ensures
        r == (a@ == b@),
{
    let n = a.unicode_len();
    let m = b.unicode_len();
    if n != m {
        return false;
    }
    let mut i: usize = 0;
    while i < n
        invariant
            i <= n,
            n == a@.len(),
            n == b@.len(),
            forall|j: int| 0 <= j < i ==> a@[j] == b@[j],
        decreases n - i,
    {
        if a.get_char(i) != b.get_char(i) {
            return false;
        }
        i += 1;
    }
    proof {
        assert(a@ =~= b@);
    }
    true
}

/// Validates a presented credential against the configured secret.
/// Succeeds exactly when a credential is present and equals the secret;
/// anything else is an unauthorized condition, never a panic.
pub fn is_valid_client(token: Option<&str>, secret: &str) -> (r: Result<(), AppError>)
    ensures
        (r is Ok) <==> (token is Some && token->0@ == secret@),
        r is Err ==> r->Err_0 == AppError::Unauthorized,
{
    match token {
        Some(t) => {
            if str_eq(t, secret) {
                Ok(())
            } else {
                Err(AppError::Unauthorized)
            }
        },
        None => Err(AppError::Unauthorized),
    }
}

/// The secret actually in force: the configured one where present, else
/// the known development placeholder.
pub fn auth_token_or_default(configured: Option<String>) -> (r: String)
    ensures
        configured is Some ==> r@ == configured->0@,
        configured is None ==> r@ == "test_token"@,
{
    match configured {
        Some(s) => s,
        None => "test_token".to_owned(),
    }
}

} // verus!
