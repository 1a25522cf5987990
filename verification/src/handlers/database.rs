use vstd::prelude::*;
use vstd::string::*;

use crate::aas_interfaces::not_a_document_text;
use crate::handlers::book::{is_text_reply, text_reply};
use crate::reply::{concat, concat3, HttpStatus, Reply, ReplyBody};
use crate::value::{view_wf, Document, Value, ValueView};

verus! {

/// The answer to `GET /database/{id}`: 200 with the document, 404 when it is
/// missing, else 500 with the message.
pub fn get_database_reply(found: Result<Value, String>) -> (r: Reply)
    ensures
        match found {
            Ok(v) => r.status == HttpStatus::Success && (r.body matches ReplyBody::Json(x) && x@ == v@),
            Err(m) => if m@ == "Document not found"@ {
                is_text_reply(r, HttpStatus::NotFound, m@)
            } else {
                is_text_reply(r, HttpStatus::InternalServerError, m@)
            },
        },
{
    match found {
        Ok(v) => Reply { status: HttpStatus::Success, body: ReplyBody::Json(v) },
        Err(m) => {
            if m == String::from_str("Document not found") {
                Reply { status: HttpStatus::NotFound, body: ReplyBody::Text(m) }
            } else {
                Reply { status: HttpStatus::InternalServerError, body: ReplyBody::Text(m) }
            }
        },
    }
}

/// The document a request body stores; a body that is not a document (or
/// could not be converted to BSON) is refused with 400.
pub fn database_document(body: &Result<Value, String>) -> (r: Result<Document, Reply>)
    requires
        body matches Ok(v) ==> view_wf(v@),
    ensures
        match body {
            Ok(v) => match v@ {
                ValueView::Doc(fields) => r matches Ok(d) && d@ == fields && d.wf(),
                _ => r matches Err(rep) && is_text_reply(
                    rep,
                    HttpStatus::BadRequest,
                    "Error converting JSON to BSON: "@ + not_a_document_text(v@),
                ),
            },
            Err(e) => r matches Err(rep) && is_text_reply(
                rep,
                HttpStatus::BadRequest,
                "Error converting JSON to BSON: "@ + e@,
            ),
        },
{
    match body {
        Ok(Value::Doc(fields)) => Ok(fields.clone()),
        Ok(other) => {
            let kind = other.element_type();
            let message = concat3(
                "Could not be serialized to Document, got ",
                kind.as_str(),
                " instead",
            );
            Err(
                Reply {
                    status: HttpStatus::BadRequest,
                    body: ReplyBody::Text(concat("Error converting JSON to BSON: ", message.as_str())),
                },
            )
        },
        Err(e) => Err(
            Reply {
                status: HttpStatus::BadRequest,
                body: ReplyBody::Text(concat("Error converting JSON to BSON: ", e.as_str())),
            },
        ),
    }
}

/// The answer to `POST /database/{id}`.
pub fn add_database_reply(stored: Result<String, String>) -> (r: Reply)
    ensures
        match stored {
            Ok(_) => is_text_reply(r, HttpStatus::Created, "Document added"@),
            Err(m) => is_text_reply(r, HttpStatus::InternalServerError, "Error adding document: "@ + m@),
        },
{
    match stored {
        Ok(_) => text_reply(HttpStatus::Created, "Document added"),
        Err(m) => Reply {
            status: HttpStatus::InternalServerError,
            body: ReplyBody::Text(concat("Error adding document: ", m.as_str())),
        },
    }
}

/// The answer to `PUT /database/{id}`.
pub fn update_database_reply(stored: Result<String, String>) -> (r: Reply)
    ensures
        match stored {
            Ok(_) => is_text_reply(r, HttpStatus::Created, "Document updated"@),
            Err(m) => is_text_reply(r, HttpStatus::InternalServerError, "Error adding document: "@ + m@),
        },
{
    match stored {
        Ok(_) => text_reply(HttpStatus::Created, "Document updated"),
        Err(m) => Reply {
            status: HttpStatus::InternalServerError,
            body: ReplyBody::Text(concat("Error adding document: ", m.as_str())),
        },
    }
}

} // verus!
