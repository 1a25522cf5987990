use vstd::prelude::*;
use vstd::string::*;

use crate::reply::{HttpStatus, Reply, ReplyBody};
use crate::value::{Document, Value, ValueView};

verus! {

/// The landing page's JSON: `{ "message": "Homepage landing" }`.
pub open spec fn landing_view() -> ValueView {
    ValueView::Doc(seq![("message"@, ValueView::Str("Homepage landing"@))])
}

/// The answer to `GET /`: 200 with the landing JSON.
pub fn index_reply() -> (r: Reply)
    ensures
        r.status == HttpStatus::Success,
        r.body matches ReplyBody::Json(v) && v@ == landing_view(),
{
    let d = Document::single(
        String::from_str("message"),
        Value::Str(String::from_str("Homepage landing")),
    );
    Reply { status: HttpStatus::Success, body: ReplyBody::Json(Value::Doc(d)) }
}

} // verus!
