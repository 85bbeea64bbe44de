//! Types and helpers shared with the route handlers: the error types the
//! endpoints report, the rendering of an error chain, and the helpers of
//! the subscription flow.

use rand::Rng;
use rand::thread_rng;
use vstd::prelude::*;
use vstd::string::StringExecFns;

verus! {

/// Failure of the login endpoint. Both variants are reported to the client
/// with an internal-server-error status; the payload keeps the underlying
/// cause for the logs.
pub enum LoginError {
    AuthError(String),
    UnexpectedError(String),
}

impl LoginError {
    /// The HTTP status code this error is reported with.
    pub fn status_code(&self) -> (r: u16)
        ensures
            r == 500,
    {
        500
    }

    /// The client-facing description of the failure.
    pub fn message(&self) -> (r: &'static str)
        ensures
            self is AuthError ==> r@ == "Authentication failed"@,
            self is UnexpectedError ==> r@ == "Something went wrong"@,
    {
        match self {
            LoginError::AuthError(_) => "Authentication failed",
            LoginError::UnexpectedError(_) => "Something went wrong",
        }
    }
}

/// Failure of the subscribe endpoint: either the submitted form data was
/// invalid, or something unexpected happened underneath.
pub enum SubscribeError {
    ValidationError(String),
    UnexpectedError(String),
}

impl SubscribeError {
    /// The HTTP status code this error is reported with: a client error
    /// for invalid input, a server error otherwise.
    pub fn status_code(&self) -> (r: u16)
        ensures
            self is ValidationError ==> r == 400,
            self is UnexpectedError ==> r == 500,
    {
        match self {
            SubscribeError::ValidationError(_) => 400,
            SubscribeError::UnexpectedError(_) => 500,
        }
    }

    /// The description of the failure: the validation message itself, or
    /// the underlying cause verbatim.
    pub fn message(&self) -> (r: &String)
        ensures
            self matches SubscribeError::ValidationError(m) ==> r@ == m@,
            self matches SubscribeError::UnexpectedError(m) ==> r@ == m@,
    {
        match self {
            SubscribeError::ValidationError(m) => m,
            SubscribeError::UnexpectedError(m) => m,
        }
    }
}

/// A database failure while storing a subscription token; the payload
/// keeps the underlying database error's description as the root cause.
pub struct StoreTokenError(pub String);

impl StoreTokenError {
    /// The client-facing description of the failure.
    pub fn message(&self) -> (r: &'static str)
        ensures
            r@ == "A database error was encountered while trying to store a subscription token."@,
    {
        "A database error was encountered while trying to store a subscription token."
    }

    /// The root cause of this error.
    pub fn source(&self) -> (r: &String)
        ensures
            r@ == self.0@,
    {
        &self.0
    }
}

/// The query parameters the subscription-confirmation endpoint expects.
pub struct Parameters {
    pub subscription_token: String,
}

/// The rendering of one cause inside an error chain.
pub open spec fn cause_line(cause: Seq<char>) -> Seq<char> {
    "Caused by: \n\t"@ + cause + "\n"@
}

pub open spec fn cause_lines(causes: Seq<Seq<char>>) -> Seq<char>
    decreases causes.len(),
{
    if causes.len() == 0 {
        Seq::empty()
    } else {
        cause_line(causes[0]) + cause_lines(causes.drop_first())
    }
}

/// The full rendering of an error and its chain of causes: the error's own
/// description first, then one line per cause, outermost first.
pub open spec fn chain_text(top: Seq<char>, causes: Seq<Seq<char>>) -> Seq<char> {
    top + "\n\n"@ + cause_lines(causes)
}

proof fn lemma_cause_lines_push(causes: Seq<Seq<char>>, c: Seq<char>)
    ensures
        cause_lines(causes.push(c)) == cause_lines(causes) + cause_line(c),
    decreases causes.len(),
{
    if causes.len() == 0 {
        assert(causes.push(c).drop_first() =~= Seq::<Seq<char>>::empty());
        assert(cause_lines(causes.push(c)) == cause_line(c) + cause_lines(
            Seq::<Seq<char>>::empty(),
        ));
        assert(cause_line(c) + Seq::<char>::empty() =~= Seq::<char>::empty() + cause_line(c));
    } else {
        assert(causes.push(c).drop_first() =~= causes.drop_first().push(c));
        lemma_cause_lines_push(causes.drop_first(), c);
        assert(cause_lines(causes.push(c)) == cause_line(causes[0]) + (cause_lines(
            causes.drop_first(),
        ) + cause_line(c)));
        assert(cause_line(causes[0]) + (cause_lines(causes.drop_first()) + cause_line(c)) =~= (
        cause_line(causes[0]) + cause_lines(causes.drop_first())) + cause_line(c));
        assert(cause_lines(causes) == cause_line(causes[0]) + cause_lines(causes.drop_first()));
    }
}

/// Renders an error and the chain of its causes, walking outermost to
/// innermost, in the shape the logs show.
pub fn error_chain_fmt(message: &str, causes: &Vec<String>) -> (r: String)
    ensures
        r@ == chain_text(message@, causes@.map_values(|c: String| c@)),
{
    let ghost cs = causes@.map_values(|c: String| c@);
    let mut out = message.to_owned();
    out.append("\n\n");
    proof {
        assert(cs.take(0) =~= Seq::<Seq<char>>::empty());
        assert(out@ =~= chain_text(message@, cs.take(0)));
    }
    let mut i: usize = 0;
    while i < causes.len()
        invariant
            i <= causes@.len(),
            cs == causes@.map_values(|c: String| c@),
            out@ == chain_text(message@, cs.take(i as int)),
        decreases causes@.len() - i,
    {
        out.append("Caused by: \n\t");
        out.append(causes[i].as_str());
        out.append("\n");
        proof {
            assert(cs.take(i + 1) =~= cs.take(i as int).push(cs[i as int]));
            lemma_cause_lines_push(cs.take(i as int), cs[i as int]);
            assert(out@ =~= chain_text(message@, cs.take(i + 1)));
        }
        i += 1;
    }
    proof {
        assert(cs.take(causes@.len() as int) =~= cs);
    }
    out
}

/// An ASCII letter or digit.
pub open spec fn is_alphanumeric_char(c: char) -> bool {
    let u = c as u32;
    ||| (48 <= u && u <= 57)
    ||| (65 <= u && u <= 90)
    ||| (97 <= u && u <= 122)
}

/// A subscription token: 25 case-sensitive ASCII letters and digits.
pub open spec fn is_subscription_token(s: Seq<char>) -> bool {
    &&& s.len() == 25
    &&& forall|i: int| 0 <= i < s.len() ==> is_alphanumeric_char(s[i])
}

/// Relies on rand's `Alphanumeric` distribution sampled from the thread
/// rng: every sample is one of the 62 bytes `A`-`Z`, `a`-`z`, `0`-`9`.
/// Nothing more is assumed of a random value.
#[verifier::external_body]
fn sample_alphanumeric_byte() -> (b: u8)
    ensures
        (48 <= b && b <= 57) || (65 <= b && b <= 90) || (97 <= b && b <= 122),
{
    thread_rng().sample(rand::distributions::Alphanumeric)
}

/// Relies on `String::from_utf8`: bytes below 128 are valid UTF-8 and
/// decode one-to-one to the characters with the same code points.
#[verifier::external_body]
fn ascii_bytes_to_string(bytes: Vec<u8>) -> (s: String)
    requires
        forall|i: int| 0 <= i < bytes@.len() ==> bytes@[i] < 128,
    ensures
        s@.len() == bytes@.len(),
        forall|i: int| 0 <= i < bytes@.len() ==> s@[i] as u32 == bytes@[i],
{
    String::from_utf8(bytes).expect("ASCII bytes are valid UTF-8")
}

/// Generate a random 25-character case-sensitive subscription token. With
/// 62 possible characters per position there are about 10^45 tokens, far
/// more than this use case needs.
pub fn generate_subscription_token() -> (t: String)
    ensures
        is_subscription_token(t@),
{
    let mut bytes: Vec<u8> = Vec::new();
    let mut i: usize = 0;
    while i < 25
        invariant
            i <= 25,
            bytes@.len() == i,
            forall|j: int|
                0 <= j < i ==> ((48 <= bytes@[j] && bytes@[j] <= 57) || (65 <= bytes@[j]
                    && bytes@[j] <= 90) || (97 <= bytes@[j] && bytes@[j] <= 122)),
        decreases 25 - i,
    {
        bytes.push(sample_alphanumeric_byte());
        i += 1;
    }
    let t = ascii_bytes_to_string(bytes);
    proof {
        assert forall|j: int| 0 <= j < t@.len() implies is_alphanumeric_char(t@[j]) by {
            assert(t@[j] as u32 == bytes@[j]);
            assert((48 <= bytes@[j] && bytes@[j] <= 57) || (65 <= bytes@[j] && bytes@[j] <= 90)
                || (97 <= bytes@[j] && bytes@[j] <= 122));
        }
    }
    t
}

/// The confirmation link a new subscriber is mailed, built from the
/// application's base URL and the freshly stored subscription token.
pub fn confirmation_link(base_url: &str, subscription_token: &str) -> (r: String)
    ensures
        r@ == base_url@ + "/subscriptions/confirm?subscription_token="@ + subscription_token@,
{
    let mut link = base_url.to_owned();
    link.append("/subscriptions/confirm?subscription_token=");
    link.append(subscription_token);
    proof {
        assert(link@ =~= base_url@ + "/subscriptions/confirm?subscription_token="@
            + subscription_token@);
    }
    link
}

} // verus!
