use vstd::prelude::*;
use vstd::string::*;

use crate::operation::OperationResult;
use crate::value::Value;

verus! {

/// The HTTP statuses the service answers with.
#[derive(Debug, Clone, Copy, PartialEq, Eq)]
pub enum HttpStatus {
    /// 200 OK.
    Success,
    Created,
    BadRequest,
    NotFound,
    InternalServerError,
}

/// What an answer carries.
#[derive(Debug, PartialEq)]
pub enum ReplyBody {
    /// No body.
    Empty,
    /// A plain-text body.
    Text(String),
    /// A JSON body.
    Json(Value),
    /// The JSON form of an operation result.
    Operation(OperationResult),
    /// A PNG image.
    Png(Vec<u8>),
}

/// An HTTP answer: its status and its body.
#[derive(Debug, PartialEq)]
pub struct Reply {
    pub status: HttpStatus,
    pub body: ReplyBody,
}

/// A line the service prints: to standard output or to standard error.
#[derive(Debug, PartialEq)]
pub enum LogLine {
    Stdout(String),
    Stderr(String),
}

/// `prefix` followed by `rest`.
pub fn concat(prefix: &str, rest: &str) -> (r: String)
    ensures
        r@ == prefix@ + rest@,
{
    let mut s = String::from_str(prefix);
    s.append(rest);
    s
}

/// `a`, then `b`, then `c`.
pub fn concat3(a: &str, b: &str, c: &str) -> (r: String)
    ensures
        r@ == a@ + b@ + c@,
{
    let mut s = String::from_str(a);
    s.append(b);
    s.append(c);
    s
}

/// The numbers of the 2xx statuses, which reqwest's `StatusCode::is_success`
/// accepts.
pub fn is_success_status(status: u16) -> (r: bool)
    ensures
        r == (200 <= status <= 299),
{
    200 <= status && status <= 299
}

} // verus!
