use vstd::prelude::*;
use vstd::string::*;

use crate::codec::{lemma_object_id_round_trip, object_id_bytes, object_id_hex, object_id_text, parse_object_id};
use crate::reply::{HttpStatus, Reply, ReplyBody};
use crate::value::{Document, Entries, Value, ValueView, view_wf};

verus! {

/// The outcome of a database operation as the JSON answer reports it.
#[derive(Debug, PartialEq)]
pub struct OperationResult {
    status: String,
    action: String,
    id: Option<String>,
    ack: Option<bool>,
    document: Option<Value>,
}

/// The model of an `OperationResult`.
pub struct OperationView {
    pub status: Seq<char>,
    pub action: Seq<char>,
    pub id: Option<Seq<char>>,
    pub ack: Option<bool>,
    pub document: Option<ValueView>,
}

pub open spec fn opt_text(s: Option<String>) -> Option<Seq<char>> {
    match s {
        Some(t) => Some(t@),
        None => None,
    }
}

pub open spec fn opt_value(v: Option<Value>) -> Option<ValueView> {
    match v {
        Some(x) => Some(x@),
        None => None,
    }
}

impl View for OperationResult {
    type V = OperationView;

    closed spec fn view(&self) -> OperationView {
        OperationView {
            status: self.status@,
            action: self.action@,
            id: opt_text(self.id),
            ack: self.ack,
            document: opt_value(self.document),
        }
    }
}

impl OperationResult {
    /// An operation result with these fields.
    pub fn new(
        status: &str,
        action: &str,
        id: Option<String>,
        ack: Option<bool>,
        document: Option<Value>,
    ) -> (r: OperationResult)
        ensures
            r@ == (OperationView {
                status: status@,
                action: action@,
                id: opt_text(id),
                ack: ack,
                document: opt_value(document),
            }),
    {
        OperationResult {
            status: String::from_str(status),
            action: String::from_str(action),
            id,
            ack,
            document,
        }
    }

    /// "Success", "Not Found" or "Error".
    pub fn status(&self) -> (r: &String)
        ensures
            r@ == self@.status,
    {
        &self.status
    }

    /// What was done, or what went wrong.
    pub fn action(&self) -> (r: &String)
        ensures
            r@ == self@.action,
    {
        &self.action
    }

    /// The id of the found or upserted document.
    pub fn id(&self) -> (r: &Option<String>)
        ensures
            opt_text(*r) == self@.id,
    {
        &self.id
    }

    /// Whether the operation was acknowledged.
    pub fn ack(&self) -> (r: Option<bool>)
        ensures
            r == self@.ack,
    {
        self.ack
    }

    /// The found document.
    pub fn document(&self) -> (r: &Option<Value>)
        ensures
            opt_value(*r) == self@.document,
    {
        &self.document
    }
}

/// A single-document update: the filter that picks the document, the update
/// to apply, and whether to insert a document when none matches.
#[derive(Debug, PartialEq)]
pub struct UpdateCommand {
    pub filter: Document,
    pub update: Document,
    pub upsert: bool,
}

/// What the database answered to an update.
#[derive(Debug, PartialEq)]
pub enum UpdateOutcome {
    /// A document matched and was updated.
    Updated,
    /// No document matched and one was inserted under `id`; `text` is how the
    /// driver prints that id.
    Upserted { id: Value, text: String },
    /// The operation failed; the driver's message.
    Failed(String),
}

/// What the database answered to a lookup of one document.
#[derive(Debug, PartialEq)]
pub enum FindOutcome {
    Found(Document),
    Missing,
    /// The lookup failed; the driver's message.
    Failed(String),
}

/// The filter `{ "_id": id }`.
pub open spec fn id_filter(id: ValueView) -> Entries {
    seq![("_id"@, id)]
}

/// The update `{ "$set": fields }`.
pub open spec fn set_update(fields: Entries) -> Entries {
    seq![("$set"@, ValueView::Doc(fields))]
}

/// The filter `{ "_id": id }`.
pub fn id_filter_document(id: Value) -> (d: Document)
    requires
        view_wf(id@),
    ensures
        d@ == id_filter(id@),
        d.wf(),
{
    Document::single(String::from_str("_id"), id)
}

/// `$set` the fields of `fields` on the document with id `id`.
pub fn set_command(id: Value, fields: Document, upsert: bool) -> (c: UpdateCommand)
    requires
        view_wf(id@),
        fields.wf(),
    ensures
        c.filter@ == id_filter(id@),
        c.update@ == set_update(fields@),
        c.filter.wf(),
        c.update.wf(),
        c.upsert == upsert,
{
    let filter = id_filter_document(id);
    let update = Document::single(String::from_str("$set"), Value::Doc(fields));
    UpdateCommand { filter, update, upsert }
}

/// An answer that carries an operation result.
pub open spec fn is_operation_reply(rep: Reply, status: HttpStatus, v: OperationView) -> bool {
    &&& rep.status == status
    &&& rep.body matches ReplyBody::Operation(o) && o@ == v
}

/// The operation result of a failed or refused request.
pub open spec fn error_view(action: Seq<char>) -> OperationView {
    OperationView { status: "Error"@, action, id: None, ack: Some(false), document: None }
}

fn operation_reply(status: HttpStatus, result: OperationResult) -> (r: Reply)
    ensures
        r.status == status,
        r.body matches ReplyBody::Operation(o) && o@ == result@,
{
    Reply { status, body: ReplyBody::Operation(result) }
}

/// The update that `update_one` sends for a request body: `$set` the body's
/// fields on the document `id`. A body that is not a document (or that could
/// not be converted to BSON) is refused with 400 "invalid JSON structure".
pub fn update_one_command(body: &Result<Value, String>, id: &String, upsert: bool) -> (r: Result<
    UpdateCommand,
    Reply,
>)
    requires
        body matches Ok(v) ==> view_wf(v@),
    ensures
        match body {
            Ok(v) => match v@ {
                ValueView::Doc(fields) => r matches Ok(c) && c.filter@ == id_filter(ValueView::Str(id@))
                    && c.update@ == set_update(fields) && c.upsert == upsert && c.filter.wf()
                    && c.update.wf(),
                _ => r matches Err(rep) && is_operation_reply(
                    rep,
                    HttpStatus::BadRequest,
                    error_view("invalid JSON structure"@),
                ),
            },
            Err(_) => r matches Err(rep) && is_operation_reply(
                rep,
                HttpStatus::BadRequest,
                error_view("invalid JSON structure"@),
            ),
        },
{
    match body {
        Ok(Value::Doc(fields)) => Ok(set_command(Value::Str(id.clone()), fields.clone(), upsert)),
        _ => Err(
            operation_reply(
                HttpStatus::BadRequest,
                OperationResult::new("Error", "invalid JSON structure", None, Some(false), None),
            ),
        ),
    }
}

/// The hexadecimal text of an upserted id, when it is an object id.
pub open spec fn upserted_id_text(id: ValueView) -> Option<Seq<char>> {
    match id {
        ValueView::ObjectId(b) => Some(object_id_text(b)),
        _ => None,
    }
}

/// The answer `update_one` gives for the database's outcome: 200 "upserted"
/// with the new id (when it is an object id), 200 "updated", or 500 when the
/// operation failed.
pub fn update_one_reply(outcome: UpdateOutcome) -> (r: Reply)
    ensures
        match outcome {
            UpdateOutcome::Upserted { id, .. } => is_operation_reply(
                r,
                HttpStatus::Success,
                OperationView {
                    status: "Success"@,
                    action: "upserted"@,
                    id: upserted_id_text(id@),
                    ack: Some(true),
                    document: None,
                },
            ),
            UpdateOutcome::Updated => is_operation_reply(
                r,
                HttpStatus::Success,
                OperationView {
                    status: "Success"@,
                    action: "updated"@,
                    id: None,
                    ack: Some(true),
                    document: None,
                },
            ),
            UpdateOutcome::Failed(_) => is_operation_reply(
                r,
                HttpStatus::InternalServerError,
                error_view("database operation failed"@),
            ),
        },
{
    match outcome {
        UpdateOutcome::Upserted { id, .. } => {
            let text = match id {
                Value::ObjectId(b) => Some(object_id_hex(b)),
                _ => None,
            };
            operation_reply(
                HttpStatus::Success,
                OperationResult::new("Success", "upserted", text, Some(true), None),
            )
        },
        UpdateOutcome::Updated => operation_reply(
            HttpStatus::Success,
            OperationResult::new("Success", "updated", None, Some(true), None),
        ),
        UpdateOutcome::Failed(_) => operation_reply(
            HttpStatus::InternalServerError,
            OperationResult::new("Error", "database operation failed", None, Some(false), None),
        ),
    }
}

/// The filter `find_one` looks up: `{ "_id": ObjectId(id) }` when `id` is 24
/// hexadecimal digits; any other id is refused with 400 "invalid ID format".
pub fn find_one_filter(id: &String) -> (r: Result<Document, Reply>)
    ensures
        match object_id_bytes(id@) {
            Some(b) => r matches Ok(f) && f@ == id_filter(ValueView::ObjectId(b)) && f.wf(),
            None => r matches Err(rep) && is_operation_reply(
                rep,
                HttpStatus::BadRequest,
                error_view("invalid ID format"@),
            ),
        },
{
    match parse_object_id(id.as_str()) {
        Some(b) => Ok(id_filter_document(Value::ObjectId(b))),
        None => Err(
            operation_reply(
                HttpStatus::BadRequest,
                OperationResult::new("Error", "invalid ID format", None, Some(false), None),
            ),
        ),
    }
}

/// The answer `find_one` gives for the database's outcome: 200 "found" with the
/// id and the document, 200 "Not Found", or 500 when the lookup failed.
pub fn find_one_reply(id: &String, outcome: FindOutcome) -> (r: Reply)
    ensures
        match outcome {
            FindOutcome::Found(d) => is_operation_reply(
                r,
                HttpStatus::Success,
                OperationView {
                    status: "Success"@,
                    action: "found"@,
                    id: Some(id@),
                    ack: Some(true),
                    document: Some(ValueView::Doc(d@)),
                },
            ),
            FindOutcome::Missing => is_operation_reply(
                r,
                HttpStatus::Success,
                OperationView {
                    status: "Not Found"@,
                    action: "find"@,
                    id: None,
                    ack: Some(false),
                    document: None,
                },
            ),
            FindOutcome::Failed(_) => is_operation_reply(
                r,
                HttpStatus::InternalServerError,
                error_view("database operation failed"@),
            ),
        },
{
    match outcome {
        FindOutcome::Found(d) => operation_reply(
            HttpStatus::Success,
            OperationResult::new("Success", "found", Some(id.clone()), Some(true), Some(Value::Doc(d))),
        ),
        FindOutcome::Missing => operation_reply(
            HttpStatus::Success,
            OperationResult::new("Not Found", "find", None, Some(false), None),
        ),
        FindOutcome::Failed(_) => operation_reply(
            HttpStatus::InternalServerError,
            OperationResult::new("Error", "database operation failed", None, Some(false), None),
        ),
    }
}

/// An upserted id is reported exactly when it is an object id, as 24
/// lower-case hexadecimal digits that read back as that id.
pub proof fn lemma_upserted_id_reported(id: ValueView)
    requires
        id matches ValueView::ObjectId(b) ==> b.len() == 12,
    ensures
        upserted_id_text(id) is Some <==> id is ObjectId,
        id matches ValueView::ObjectId(b) ==> object_id_bytes(upserted_id_text(id).unwrap()) == Some(b),
        upserted_id_text(id) matches Some(t) ==> t.len() == 24 && forall|i: int|
            0 <= i < 24 ==> ('0' <= #[trigger] t[i] <= '9' || 'a' <= t[i] <= 'f'),
{
    if let ValueView::ObjectId(b) = id {
        lemma_object_id_round_trip(b);
        let t = object_id_text(b);
        assert forall|i: int| 0 <= i < 24 implies ('0' <= #[trigger] t[i] <= '9' || 'a' <= t[i] <= 'f') by {
            let v = if i % 2 == 0 { b[i / 2] as int / 16 } else { b[i / 2] as int % 16 };
            assert(0 <= v < 16);
        }
    }
}

} // verus!
