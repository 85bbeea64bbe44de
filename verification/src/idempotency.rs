//! Idempotent-request persistence.
//!
//! An idempotency key is a client-supplied token that identifies one logical
//! write attempt across retries. `IdempotencyKey` is the validated form of
//! that token; `persistence` holds the claim/finalize/replay protocol built
//! on it.

pub mod persistence;

use vstd::prelude::*;
use vstd::string::StrSliceExecFns;

verus! {

/// Why a raw idempotency key was rejected.
#[derive(Clone, Copy, Debug, PartialEq, Eq, Structural)]
pub enum ValidationError {
    /// The input has no characters at all.
    Empty,
    /// The input exceeds `MAX_KEY_CHARS` characters.
    TooLong,
    /// The input holds a character outside the safe set
    /// (ASCII letters, digits and hyphen).
    InvalidCharacter,
}

impl ValidationError {
    /// A client-facing description of the rejection.
    pub fn message(&self) -> (r: &'static str)
        ensures
            self is Empty ==> r@ == "the idempotency key cannot be empty"@,
            self is TooLong ==> r@ == "the idempotency key is too long"@,
            self is InvalidCharacter ==> r@
                == "the idempotency key may hold only ASCII letters, digits and hyphens"@,
    {
        match self {
            ValidationError::Empty => "the idempotency key cannot be empty",
            ValidationError::TooLong => "the idempotency key is too long",
            ValidationError::InvalidCharacter => "the idempotency key may hold only ASCII letters, digits and hyphens",
        }
    }
}

/// Longest accepted idempotency key, in characters.
pub const MAX_KEY_CHARS: usize = 50;

/// The safe character set of an idempotency key: ASCII letters, digits
/// and hyphen. Whitespace is never in this set, so a non-empty key is
/// necessarily non-blank.
pub open spec fn is_key_char(c: char) -> bool {
    let u = c as u32;
    ||| (48 <= u && u <= 57)
    ||| (65 <= u && u <= 90)
    ||| (97 <= u && u <= 122)
    ||| u == 45
}

/// The validation invariant of `IdempotencyKey`.
pub open spec fn is_valid_key(s: Seq<char>) -> bool {
    &&& 1 <= s.len() <= MAX_KEY_CHARS
    &&& forall|i: int| 0 <= i < s.len() ==> is_key_char(s[i])
}

/// The error `parse` reports for an invalid input, checking emptiness, then
/// length, then the character set.
pub open spec fn key_rejection(s: Seq<char>) -> ValidationError {
    if s.len() == 0 {
        ValidationError::Empty
    } else if s.len() > MAX_KEY_CHARS {
        ValidationError::TooLong
    } else {
        ValidationError::InvalidCharacter
    }
}

fn check_key_char(c: char) -> (b: bool)
    ensures
        b == is_key_char(c),
{
    let u = c as u32;
    (48 <= u && u <= 57) || (65 <= u && u <= 90) || (97 <= u && u <= 122) || u == 45
}

/// A validated idempotency key. Construction through `parse` is the only
/// validation point; every instance in circulation satisfies
/// `is_valid_key`.
#[derive(Debug)]
pub struct IdempotencyKey(String);

impl View for IdempotencyKey {
    type V = Seq<char>;

    closed spec fn view(&self) -> Seq<char> {
        self.0@
    }
}

impl Clone for IdempotencyKey {
    fn clone(&self) -> (r: Self)
        ensures
            r == *self,
    {
        IdempotencyKey(self.0.clone())
    }
}

impl PartialEq for IdempotencyKey {
    fn eq(&self, other: &Self) -> (r: bool) {
        self.0 == other.0
    }
}

impl vstd::std_specs::cmp::PartialEqSpecImpl for IdempotencyKey {
    open spec fn obeys_eq_spec() -> bool {
        true
    }

    open spec fn eq_spec(&self, other: &Self) -> bool {
        self@ == other@
    }
}

impl IdempotencyKey {
    /// Returns an `IdempotencyKey` if and only if the input is non-empty,
    /// at most `MAX_KEY_CHARS` characters long, and restricted to ASCII
    /// letters, digits and hyphens; otherwise reports which rule failed.
    pub fn parse(s: String) -> (r: Result<IdempotencyKey, ValidationError>)
        ensures
            r is Ok <==> is_valid_key(s@),
            r matches Ok(k) ==> k@ == s@,
            r matches Err(e) ==> e == key_rejection(s@),
    {
        let n: usize = s.as_str().unicode_len();
        if n == 0 {
            return Err(ValidationError::Empty);
        }
        if n > MAX_KEY_CHARS {
            return Err(ValidationError::TooLong);
        }
        let mut i: usize = 0;
        while i < n
            invariant
                i <= n,
                n == s@.len(),
                1 <= n <= MAX_KEY_CHARS,
                forall|j: int| 0 <= j < i ==> is_key_char(s@[j]),
            decreases n - i,
        {
            if !check_key_char(s.as_str().get_char(i)) {
                return Err(ValidationError::InvalidCharacter);
            }
            i += 1;
        }
        Ok(IdempotencyKey(s))
    }

    /// Read-only access to the inner string.
    pub fn as_ref(&self) -> (r: &str)
        ensures
            r@ == self@,
    {
        self.0.as_str()
    }
}

} // verus!
