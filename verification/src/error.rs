//! Why a source gave no table, and how an HTTP answer is classified.

use vstd::prelude::*;
use crate::text::{decimal_digits, decimal_text, join};

verus! {

/// Why a source strategy failed.
#[derive(Debug, PartialEq, Eq)]
pub enum Error {
    /// The source answered but held no version.
    NotFound,
    /// The provider refuses further requests for now; the text says for how long.
    RateLimited(String),
    /// The provider denied access, most likely for want of a credential.
    Forbidden(String),
    /// The network failed or the request timed out.
    Transient(String),
    /// The answer did not have the expected shape.
    Malformed(String),
    /// Anything else.
    Other(String),
}

/// An [`Error`] as plain values.
pub enum Failure {
    NotFound,
    RateLimited(Seq<char>),
    Forbidden(Seq<char>),
    Transient(Seq<char>),
    Malformed(Seq<char>),
    Other(Seq<char>),
}

impl View for Error {
    type V = Failure;

    open spec fn view(&self) -> Failure {
        match self {
            Error::NotFound => Failure::NotFound,
            Error::RateLimited(hint) => Failure::RateLimited(hint@),
            Error::Forbidden(why) => Failure::Forbidden(why@),
            Error::Transient(why) => Failure::Transient(why@),
            Error::Malformed(why) => Failure::Malformed(why@),
            Error::Other(why) => Failure::Other(why@),
        }
    }
}

impl Failure {
    /// Whether another provider may be tried after this failure: only refusals for quota
    /// or access are.
    pub open spec fn escalates(self) -> bool {
        self is RateLimited || self is Forbidden
    }

    /// The text that reports this failure.
    pub open spec fn message(self) -> Seq<char> {
        match self {
            Failure::NotFound => "collector not found"@,
            Failure::RateLimited(hint) => "rate limited: "@ + hint,
            Failure::Forbidden(why) => "forbidden: "@ + why,
            Failure::Transient(why) => "transient failure: "@ + why,
            Failure::Malformed(why) => "malformed response: "@ + why,
            Failure::Other(why) => why,
        }
    }
}

impl Clone for Error {
    fn clone(&self) -> (copy: Self)
        ensures
            copy@ == self@,
    {
        match self {
            Error::NotFound => Error::NotFound,
            Error::RateLimited(hint) => Error::RateLimited(hint.clone()),
            Error::Forbidden(why) => Error::Forbidden(why.clone()),
            Error::Transient(why) => Error::Transient(why.clone()),
            Error::Malformed(why) => Error::Malformed(why.clone()),
            Error::Other(why) => Error::Other(why.clone()),
        }
    }
}

impl Error {
    /// Whether another provider may be tried after this failure.
    pub fn is_retryable(&self) -> (retry: bool)
        ensures
            retry == self@.escalates(),
    {
        match self {
            Error::RateLimited(_) => true,
            Error::Forbidden(_) => true,
            _ => false,
        }
    }

    /// The text that reports this failure.
    pub fn message(&self) -> (text: String)
        ensures
            text@ == self@.message(),
    {
        match self {
            Error::NotFound => String::from_str("collector not found"),
            Error::RateLimited(hint) => join("rate limited: ", hint.as_str()),
            Error::Forbidden(why) => join("forbidden: ", why.as_str()),
            Error::Transient(why) => join("transient failure: ", why.as_str()),
            Error::Malformed(why) => join("malformed response: ", why.as_str()),
            Error::Other(why) => why.clone(),
        }
    }
}

/// What the rate-limit headers of an answer say, as numbers: the requests that remain,
/// the second at which the quota resets, and the second at which the answer came.
#[derive(Debug, Clone, Copy)]
pub struct RateLimit {
    pub remaining: Option<u64>,
    pub reset_at: Option<u64>,
    pub now: u64,
}

impl RateLimit {
    /// Whether the headers say that the quota is used up and when it resets.
    pub open spec fn exhausted(self) -> bool {
        self.remaining == Some(0u64) && self.reset_at is Some
    }

    /// The seconds to wait until the quota resets; none once that moment has passed.
    pub open spec fn wait_seconds(self) -> nat {
        if self.reset_at->0 >= self.now {
            (self.reset_at->0 - self.now) as nat
        } else {
            0
        }
    }
}

/// A wait of `seconds` in words: minutes and seconds.
pub open spec fn wait_text(seconds: nat) -> Seq<char> {
    "retry in "@ + decimal_digits(seconds / 60) + "m "@ + decimal_digits(seconds % 60) + "s"@
}

/// The hint that a rate-limited answer carries: the wait where the headers give it.
pub open spec fn rate_limit_hint(limit: RateLimit) -> Seq<char> {
    if limit.exhausted() {
        "API rate limit exceeded; "@ + wait_text(limit.wait_seconds())
    } else {
        "API rate limit exceeded"@
    }
}

/// The outcome that an HTTP status and the rate-limit headers stand for: success for
/// 200 to 299; a rate limit for 429, and for 403 with the quota used up; denied access for
/// any other 403; and an unclassified failure for the rest.
pub open spec fn classified(status: u16, limit: RateLimit) -> Option<Failure> {
    if 200 <= status <= 299 {
        None
    } else if status == 429 || (status == 403 && limit.exhausted()) {
        Some(Failure::RateLimited(rate_limit_hint(limit)))
    } else if status == 403 {
        Some(Failure::Forbidden("access denied; a token may be required"@))
    } else {
        Some(Failure::Other("request failed with status: "@ + decimal_digits(status as nat)))
    }
}

/// A failure, if any, as plain values.
pub open spec fn failure_view(error: Option<Error>) -> Option<Failure> {
    match error {
        Some(e) => Some(e@),
        None => None,
    }
}

/// Words a wait of `seconds`.
pub fn wait_hint(seconds: u64) -> (text: String)
    ensures
        text@ == wait_text(seconds as nat),
{
    let mut text = String::from_str("retry in ");
    let minutes = decimal_text(seconds / 60);
    text.append(minutes.as_str());
    text.append("m ");
    let rest = decimal_text(seconds % 60);
    text.append(rest.as_str());
    text.append("s");
    text
}

/// Words the hint of a rate-limited answer.
pub fn describe_rate_limit(limit: &RateLimit) -> (text: String)
    ensures
        text@ == rate_limit_hint(*limit),
{
    match (limit.remaining, limit.reset_at) {
        (Some(0), Some(reset_at)) => {
            let wait = if reset_at >= limit.now {
                reset_at - limit.now
            } else {
                0
            };
            let hint = wait_hint(wait);
            join("API rate limit exceeded; ", hint.as_str())
        },
        _ => String::from_str("API rate limit exceeded"),
    }
}

/// Classifies an HTTP answer by its status and rate-limit headers.
pub fn classify_status(status: u16, limit: &RateLimit) -> (failure: Option<Error>)
    ensures
        failure_view(failure) == classified(status, *limit),
        failure matches Some(e) ==> (e@.escalates() <==> status == 403 || status == 429),
{
    let exhausted = match (limit.remaining, limit.reset_at) {
        (Some(0), Some(_)) => true,
        _ => false,
    };
    if 200 <= status && status <= 299 {
        None
    } else if status == 429 || (status == 403 && exhausted) {
        Some(Error::RateLimited(describe_rate_limit(limit)))
    } else if status == 403 {
        Some(Error::Forbidden(String::from_str("access denied; a token may be required")))
    } else {
        let code = decimal_text(status as u64);
        Some(Error::Other(join("request failed with status: ", code.as_str())))
    }
}

} // verus!
