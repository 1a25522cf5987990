use vstd::prelude::*;
use vstd::string::*;

use crate::codec::{object_id_bytes, parse_object_id};
use crate::operation::{id_filter, id_filter_document, set_update, FindOutcome, UpdateCommand};
use crate::reply::{HttpStatus, Reply, ReplyBody};
use crate::value::{view_wf, Document, Value, ValueView};

verus! {

/// An answer with a plain-text body.
pub open spec fn is_text_reply(r: Reply, status: HttpStatus, text: Seq<char>) -> bool {
    &&& r.status == status
    &&& r.body matches ReplyBody::Text(t) && t@ == text
}

pub(crate) fn text_reply(status: HttpStatus, text: &str) -> (r: Reply)
    ensures
        is_text_reply(r, status, text@),
{
    Reply { status, body: ReplyBody::Text(String::from_str(text)) }
}

/// The filter for the book with object id `id`: `{ "_id": ObjectId(id) }`.
/// The id must be 24 hexadecimal digits: the service stops on any other id.
pub fn book_id_filter(id: &String) -> (r: Document)
    requires
        object_id_bytes(id@) is Some,
    ensures
        r@ == id_filter(ValueView::ObjectId(object_id_bytes(id@).unwrap())),
        r.wf(),
{
    match parse_object_id(id.as_str()) {
        Some(b) => id_filter_document(Value::ObjectId(b)),
        None => Document::new(),
    }
}

/// The answer to `GET /book`: 200 with the list of books.
pub fn books_reply(books: Vec<Value>) -> (r: Reply)
    ensures
        r.status == HttpStatus::Success,
        r.body matches ReplyBody::Json(v) && v == Value::Array(books),
{
    Reply { status: HttpStatus::Success, body: ReplyBody::Json(Value::Array(books)) }
}

/// The answer to `GET /book/{id}`: the book, 404 "Book not found", or 500.
pub fn book_reply(outcome: FindOutcome) -> (r: Reply)
    ensures
        match outcome {
            FindOutcome::Found(d) => r.status == HttpStatus::Success && (r.body matches ReplyBody::Json(v)
                && v@ == ValueView::Doc(d@)),
            FindOutcome::Missing => is_text_reply(r, HttpStatus::NotFound, "Book not found"@),
            FindOutcome::Failed(_) => is_text_reply(
                r,
                HttpStatus::InternalServerError,
                "Internal server error"@,
            ),
        },
{
    match outcome {
        FindOutcome::Found(d) => Reply { status: HttpStatus::Success, body: ReplyBody::Json(Value::Doc(d)) },
        FindOutcome::Missing => text_reply(HttpStatus::NotFound, "Book not found"),
        FindOutcome::Failed(_) => text_reply(HttpStatus::InternalServerError, "Internal server error"),
    }
}

/// The answer to `POST /book`: 201 with the new book's id, or 500 with the
/// driver's message.
pub fn add_book_reply(inserted: Result<Value, String>) -> (r: Reply)
    ensures
        match inserted {
            Ok(id) => r.status == HttpStatus::Created && (r.body matches ReplyBody::Json(v) && v == id),
            Err(e) => is_text_reply(r, HttpStatus::InternalServerError, e@),
        },
{
    match inserted {
        Ok(id) => Reply { status: HttpStatus::Created, body: ReplyBody::Json(id) },
        Err(e) => Reply { status: HttpStatus::InternalServerError, body: ReplyBody::Text(e) },
    }
}

/// The update for `PUT /book/{id}`: `$set` the book's fields on the book that
/// `filter` picks; `None` when the book is not a document.
pub fn book_update_command(filter: Document, book: &Value) -> (r: Option<UpdateCommand>)
    requires
        filter.wf(),
        view_wf(book@),
    ensures
        match book@ {
            ValueView::Doc(fields) => r matches Some(c) && c.filter@ == filter@ && c.update@
                == set_update(fields) && !c.upsert && c.update.wf(),
            _ => r is None,
        },
{
    match book {
        Value::Doc(fields) => Some(
            UpdateCommand {
                filter,
                update: Document::single(String::from_str("$set"), Value::Doc(fields.clone())),
                upsert: false,
            },
        ),
        _ => None,
    }
}

/// The answer to `PUT /book/{id}` given how many books matched.
pub fn update_book_reply(matched: Result<u64, String>) -> (r: Reply)
    ensures
        match matched {
            Ok(n) => if n == 1 {
                is_text_reply(r, HttpStatus::Success, "Book updated successfully"@)
            } else {
                is_text_reply(r, HttpStatus::NotFound, "Book not found"@)
            },
            Err(_) => is_text_reply(r, HttpStatus::InternalServerError, "Internal server error"@),
        },
{
    match matched {
        Ok(n) => if n == 1 {
            text_reply(HttpStatus::Success, "Book updated successfully")
        } else {
            text_reply(HttpStatus::NotFound, "Book not found")
        },
        Err(_) => text_reply(HttpStatus::InternalServerError, "Internal server error"),
    }
}

/// The answer to `DELETE /book/{id}` given how many books were deleted.
pub fn delete_book_reply(deleted: Result<u64, String>) -> (r: Reply)
    ensures
        match deleted {
            Ok(n) => if n == 1 {
                is_text_reply(r, HttpStatus::Success, "Book deleted successfully"@)
            } else {
                is_text_reply(r, HttpStatus::NotFound, "Book not found"@)
            },
            Err(_) => is_text_reply(r, HttpStatus::InternalServerError, "Internal server error"@),
        },
{
    match deleted {
        Ok(n) => if n == 1 {
            text_reply(HttpStatus::Success, "Book deleted successfully")
        } else {
            text_reply(HttpStatus::NotFound, "Book not found")
        },
        Err(_) => text_reply(HttpStatus::InternalServerError, "Internal server error"),
    }
}

} // verus!
