use vstd::prelude::*;
use vstd::string::*;

use crate::handlers::book::{is_text_reply, text_reply};
use crate::reply::{concat, HttpStatus, Reply, ReplyBody};
use crate::time::{format_rfc3339, is_plain_instant, rfc3339_instant, rfc3339_text, Instant};
use crate::value::{inserted, view_wf, Document, Value, ValueView};

verus! {

/// The answer to `GET /submodels/{id}`: 200 with the stored submodel, else 500.
pub fn get_submodel_reply(found: Result<Document, String>) -> (r: Reply)
    ensures
        match found {
            Ok(d) => r.status == HttpStatus::Success && (r.body matches ReplyBody::Json(v) && v@
                == ValueView::Doc(d@)),
            Err(e) => is_text_reply(r, HttpStatus::InternalServerError, "Error getting submodel: "@ + e@),
        },
{
    match found {
        Ok(d) => Reply { status: HttpStatus::Success, body: ReplyBody::Json(Value::Doc(d)) },
        Err(e) => Reply {
            status: HttpStatus::InternalServerError,
            body: ReplyBody::Text(concat("Error getting submodel: ", e.as_str())),
        },
    }
}

/// The submodels whose patches are stamped with the time of the request.
pub open spec fn is_stamped_submodel(submodel_id_short: Seq<char>) -> bool {
    submodel_id_short == "SystemInformation"@ || submodel_id_short == "NetworkConfiguration"@
}

/// Exactly two submodels are stamped: `SystemInformation` and
/// `NetworkConfiguration`; a patch of any other submodel is stored as sent.
pub proof fn lemma_stamped_submodels(submodel_id_short: Seq<char>)
    ensures
        is_stamped_submodel(submodel_id_short) <==> (submodel_id_short == "SystemInformation"@
            || submodel_id_short == "NetworkConfiguration"@),
        is_stamped_submodel("SystemInformation"@),
        is_stamped_submodel("NetworkConfiguration"@),
{
}

/// Whether a patch of this submodel gets a `LastUpdate` member.
pub fn stamps_last_update(submodel_id_short: &String) -> (r: bool)
    ensures
        r == is_stamped_submodel(submodel_id_short@),
        r <==> (submodel_id_short@ == "SystemInformation"@ || submodel_id_short@ == "NetworkConfiguration"@),
{
    *submodel_id_short == String::from_str("SystemInformation") || *submodel_id_short
        == String::from_str("NetworkConfiguration")
}

/// The `LastUpdate` text for the instant `now`: chrono's RFC 3339 form, which
/// reads back as `now`.
pub fn last_update_stamp(now: &Instant) -> (r: String)
    requires
        is_plain_instant(now.secs, now.nanos),
    ensures
        rfc3339_text(now.secs, now.nanos) == Some(r@),
        rfc3339_instant(r@) == Some((now.secs, now.nanos)),
{
    match format_rfc3339(now) {
        Some(s) => s,
        None => String::new(),
    }
}

/// The body of a patch of a stamped submodel: the request's object with its
/// `LastUpdate` member set to `stamp` (in place when the member is there, else
/// added last); a `null` body becomes an object of that one member. A body
/// that could not be converted stays as it is.
pub fn stamp_body(body: Result<Value, String>, stamp: &String) -> (r: Result<Value, String>)
    requires
        body matches Ok(v) ==> (v is Doc || v is Null) && view_wf(v@),
    ensures
        match body {
            Ok(v) => r matches Ok(x) && view_wf(x@) && x@ == ValueView::Doc(
                match v@ {
                    ValueView::Doc(es) => inserted(es, "LastUpdate"@, ValueView::Str(stamp@)),
                    _ => seq![("LastUpdate"@, ValueView::Str(stamp@))],
                },
            ),
            Err(e) => r matches Err(m) && m@ == e@,
        },
{
    match body {
        Ok(Value::Doc(mut d)) => {
            d.insert(String::from_str("LastUpdate"), Value::Str(stamp.clone()));
            Ok(Value::Doc(d))
        },
        Ok(_) => Ok(
            Value::Doc(Document::single(String::from_str("LastUpdate"), Value::Str(stamp.clone()))),
        ),
        Err(e) => Err(e),
    }
}

/// What `PATCH /submodels/{id}` does once the database was patched: on
/// failure it answers 500 and stops; on success it also patches the server
/// (whose outcome the answer does not report) and answers 200.
pub fn patch_submodel_reply(database: Result<String, String>) -> (r: (Reply, bool))
    ensures
        match database {
            Ok(_) => is_text_reply(r.0, HttpStatus::Success, "Submodel patched successfully"@) && r.1,
            Err(e) => is_text_reply(
                r.0,
                HttpStatus::InternalServerError,
                "Error patching submodel in database: "@ + e@,
            ) && !r.1,
        },
{
    match database {
        Ok(_) => (text_reply(HttpStatus::Success, "Submodel patched successfully"), true),
        Err(e) => (
            Reply {
                status: HttpStatus::InternalServerError,
                body: ReplyBody::Text(concat("Error patching submodel in database: ", e.as_str())),
            },
            false,
        ),
    }
}

} // verus!
