//! Points in time, held as whole seconds, and their reading from text.

use crate::error::{Error, ErrorKind};
use vstd::prelude::*;

verus! {

/// A date and time without a zone, as seconds since 1970-01-01 00:00:00.
#[derive(Clone, Copy, Debug, PartialEq, Eq, Structural)]
pub struct MyDatetime(pub i64);

/// The error that chrono reports for text that is no date and time.
#[verifier::external_type_specification]
#[verifier::external_body]
pub struct ExParseError(chrono::ParseError);

/// What `chrono::NaiveDateTime::parse_from_str` reads from `text` by the
/// pattern `format`, as the seconds since the epoch which
/// `and_utc().timestamp()` gives for it; `None` where chrono refuses the text.
pub uninterp spec fn parsed_seconds(text: Seq<char>, format: Seq<char>) -> Option<i64>;

/// Calls `chrono::NaiveDateTime::parse_from_str` and, on success, takes the
/// seconds since the epoch with `and_utc().timestamp()`. Nothing is proved of
/// the parser: the contract only gives its result a name, as a function of the
/// text and the pattern.
#[verifier::external_body]
fn parse_seconds(text: &str, format: &str) -> (r: Result<i64, chrono::ParseError>)
    ensures
        r is Ok <==> parsed_seconds(text@, format@) is Some,
        r is Ok ==> Some(r->Ok_0) == parsed_seconds(text@, format@),
{
    match chrono::NaiveDateTime::parse_from_str(text, format) {
        Ok(t) => Ok(t.and_utc().timestamp()),
        Err(e) => Err(e),
    }
}

/// The pattern of a date and time in a request: `2020-01-31 23:59:59`.
pub open spec fn form_pattern() -> Seq<char> {
    "%Y-%m-%d %H:%M:%S"@
}

impl MyDatetime {
    /// The point in time that a parser's outcome stands for: the seconds it
    /// read, or `InvalidArgument` where it refused the text.
    pub fn from_parsed(parsed: Result<i64, chrono::ParseError>) -> (r: Result<MyDatetime, Error>)
        ensures
            parsed is Ok ==> r == Ok::<MyDatetime, Error>(MyDatetime(parsed->Ok_0)),
            parsed is Err ==> r == Err::<MyDatetime, Error>(Error { kind: ErrorKind::InvalidArgument }),
    {
        match parsed {
            Ok(seconds) => Ok(MyDatetime(seconds)),
            Err(_) => Err(Error::new(ErrorKind::InvalidArgument)),
        }
    }

    /// Reads a form value such as `2020-01-31 23:59:59`.
    pub fn from_form_value(form_value: &str) -> (r: Result<MyDatetime, Error>)
        ensures
            r is Ok <==> parsed_seconds(form_value@, form_pattern()) is Some,
            r is Ok ==> Some(r.unwrap().0) == parsed_seconds(form_value@, form_pattern()),
            r is Err ==> r->Err_0.kind == ErrorKind::InvalidArgument,
    {
        MyDatetime::from_parsed(parse_seconds(form_value, "%Y-%m-%d %H:%M:%S"))
    }

    /// Whether this point lies in `[begin, end)`, where an absent bound does not bind.
    pub fn within(&self, begin: &Option<MyDatetime>, end: &Option<MyDatetime>) -> (b: bool)
        ensures
            b == in_period(Some(*self), *begin, *end),
    {
        let after: bool = match begin {
            Some(t) => t.0 <= self.0,
            None => true,
        };
        let before: bool = match end {
            Some(t) => self.0 < t.0,
            None => true,
        };
        after && before
    }
}

/// A possibly absent point in time lies in `[begin, end)`. An absent point
/// meets no bound; an absent bound does not bind.
pub open spec fn in_period(value: Option<MyDatetime>, begin: Option<MyDatetime>, end: Option<MyDatetime>) -> bool {
    &&& begin is Some ==> value is Some && begin.unwrap().0 <= value.unwrap().0
    &&& end is Some ==> value is Some && value.unwrap().0 < end.unwrap().0
}

/// Decides `in_period`.
pub fn period_holds(value: &Option<MyDatetime>, begin: &Option<MyDatetime>, end: &Option<MyDatetime>) -> (b: bool)
    ensures
        b == in_period(*value, *begin, *end),
{
    match value {
        Some(t) => t.within(begin, end),
        None => begin.is_none() && end.is_none(),
    }
}

} // verus!
