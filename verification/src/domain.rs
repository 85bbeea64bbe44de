//! Validated domain types for subscribers.
//!
//! `SubscriberName` follows the new-type pattern: the only way to obtain an
//! instance is through `parse`, so every value in circulation satisfies the
//! validation invariant and callers never need to re-validate.

use unicode_segmentation::UnicodeSegmentation;
use vstd::prelude::*;
use vstd::string::StrSliceExecFns;
use vstd::string::StringExecFns;

verus! {

/// Number of extended grapheme clusters ("user-perceived characters") in a
/// string. Unicode segmentation is a function of the characters alone.
pub uninterp spec fn grapheme_count(s: Seq<char>) -> nat;

/// Relies on unicode_segmentation's `graphemes`: with the extended grapheme
/// definition it yields the grapheme clusters of the string, determined by
/// the string's characters alone; counting them gives their number.
#[verifier::external_body]
fn count_graphemes(s: &str) -> (n: usize)
    ensures
        n == grapheme_count(s@),
{
    s.graphemes(true).count()
}

/// The characters that `str::trim` strips: Unicode's White_Space property.
pub open spec fn is_whitespace_char(c: char) -> bool {
    let u = c as u32;
    ||| (9 <= u && u <= 13)
    ||| u == 32
    ||| u == 0x85
    ||| u == 0xA0
    ||| u == 0x1680
    ||| (0x2000 <= u && u <= 0x200A)
    ||| u == 0x2028
    ||| u == 0x2029
    ||| u == 0x202F
    ||| u == 0x205F
    ||| u == 0x3000
}

/// Characters a subscriber name may not contain.
pub open spec fn is_forbidden_name_char(c: char) -> bool {
    ||| c == '/'
    ||| c == '('
    ||| c == ')'
    ||| c == '"'
    ||| c == '<'
    ||| c == '>'
    ||| c == '\\'
    ||| c == '{'
    ||| c == '}'
}

/// True for the empty string and for strings made of whitespace only,
/// exactly the strings whose trimmed form is empty.
pub open spec fn is_blank(s: Seq<char>) -> bool {
    forall|i: int| 0 <= i < s.len() ==> is_whitespace_char(s[i])
}

pub open spec fn has_forbidden_name_char(s: Seq<char>) -> bool {
    exists|i: int| 0 <= i < s.len() && is_forbidden_name_char(s[i])
}

/// The validation invariant of `SubscriberName`: not empty or
/// whitespace-only, at most 256 graphemes, and free of forbidden characters.
pub open spec fn is_valid_subscriber_name(s: Seq<char>) -> bool {
    &&& !is_blank(s)
    &&& grapheme_count(s) <= 256
    &&& !has_forbidden_name_char(s)
}

fn check_whitespace_char(c: char) -> (b: bool)
    ensures
        b == is_whitespace_char(c),
{
    let u = c as u32;
    (9 <= u && u <= 13) || u == 32 || u == 0x85 || u == 0xA0 || u == 0x1680 || (0x2000 <= u && u
        <= 0x200A) || u == 0x2028 || u == 0x2029 || u == 0x202F || u == 0x205F || u == 0x3000
}

fn check_forbidden_name_char(c: char) -> (b: bool)
    ensures
        b == is_forbidden_name_char(c),
{
    c == '/' || c == '(' || c == ')' || c == '"' || c == '<' || c == '>' || c == '\\' || c == '{'
        || c == '}'
}

/// A subscriber name that has passed validation.
#[derive(Debug)]
pub struct SubscriberName(String);

impl View for SubscriberName {
    type V = Seq<char>;

    closed spec fn view(&self) -> Seq<char> {
        self.0@
    }
}

impl SubscriberName {
    /// Returns an instance of `SubscriberName` if and only if the input
    /// satisfies all our validation constraints on subscriber names.
    pub fn parse(s: String) -> (r: Result<SubscriberName, String>)
        ensures
            r is Ok <==> is_valid_subscriber_name(s@),
            r matches Ok(name) ==> name@ == s@,
            r matches Err(e) ==> e@ == s@ + " is not a valid subscriber name."@,
    {
        let n: usize = s.as_str().unicode_len();

        // `is_blank` mirrors `trim().is_empty()`: every character whitespace.
        let mut is_empty_or_whitespace: bool = true;
        let mut i: usize = 0;
        while i < n
            invariant
                i <= n,
                n == s@.len(),
                is_empty_or_whitespace <==> (forall|j: int|
                    0 <= j < i ==> is_whitespace_char(s@[j])),
            decreases n - i,
        {
            if !check_whitespace_char(s.as_str().get_char(i)) {
                is_empty_or_whitespace = false;
            }
            i += 1;
        }

        // A grapheme is a "user-perceived" character and may span several
        // `char`s, so the length bound is counted in graphemes.
        let is_too_long = count_graphemes(s.as_str()) > 256;

        let mut contains_forbidden_characters: bool = false;
        let mut i: usize = 0;
        while i < n
            invariant
                i <= n,
                n == s@.len(),
                contains_forbidden_characters <==> (exists|j: int|
                    0 <= j < i && is_forbidden_name_char(s@[j])),
            decreases n - i,
        {
            if check_forbidden_name_char(s.as_str().get_char(i)) {
                contains_forbidden_characters = true;
            }
            i += 1;
        }

        if is_empty_or_whitespace || is_too_long || contains_forbidden_characters {
            Err(s.concat(" is not a valid subscriber name."))
        } else {
            Ok(SubscriberName(s))
        }
    }

    /// Read-only access to the inner string; the invariant cannot be broken
    /// through it.
    pub fn as_ref(&self) -> (r: &str)
        ensures
            r@ == self@,
    {
        self.0.as_str()
    }
}

/// A new subscriber as produced from the wire format: the name is validated,
/// the e-mail address is carried as received (its validator is an external
/// collaborator of this library).
pub struct NewSubscriber {
    pub email: String,
    pub name: SubscriberName,
}

impl NewSubscriber {
    /// Conversion from the url-decoded form fields to the domain model.
    pub fn new(email: String, name: String) -> (r: Result<NewSubscriber, String>)
        ensures
            r is Ok <==> is_valid_subscriber_name(name@),
            r matches Ok(ns) ==> ns.email@ == email@ && ns.name@ == name@,
            r matches Err(e) ==> e@ == name@ + " is not a valid subscriber name."@,
    {
        let name = SubscriberName::parse(name)?;
        Ok(NewSubscriber { email, name })
    }
}

} // verus!
