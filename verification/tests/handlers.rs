use aas_edge::handlers::book::{
    add_book_reply, book_id_filter, book_reply, book_update_command, books_reply,
    delete_book_reply, update_book_reply,
};
use aas_edge::handlers::database::{
    add_database_reply, database_document, get_database_reply, update_database_reply,
};
use aas_edge::handlers::home::index_reply;
use aas_edge::handlers::submodels::{
    get_submodel_reply, last_update_stamp, patch_submodel_reply, stamp_body, stamps_last_update,
};
use aas_edge::handlers::thumbnail::{thumbnail_path, thumbnail_reply, ImageRead};
use aas_edge::operation::FindOutcome;
use aas_edge::reply::{is_success_status, HttpStatus, Reply, ReplyBody};
use aas_edge::time::Instant;
use aas_edge::value::{Document, Value};

fn s(text: &str) -> Value {
    Value::Str(text.to_string())
}

fn doc(pairs: Vec<(&str, Value)>) -> Document {
    let mut d = Document::new();
    for (k, v) in pairs {
        d.insert(k.to_string(), v);
    }
    d
}

fn text(status: HttpStatus, body: &str) -> Reply {
    Reply { status, body: ReplyBody::Text(body.to_string()) }
}

const OID_HEX: &str = "655f3a1000abcdef01234567";
const OID: [u8; 12] = [0x65, 0x5f, 0x3a, 0x10, 0x00, 0xab, 0xcd, 0xef, 0x01, 0x23, 0x45, 0x67];

#[test]
fn index_answers_the_landing_message() {
    assert_eq!(
        index_reply(),
        Reply {
            status: HttpStatus::Success,
            body: ReplyBody::Json(Value::Doc(doc(vec![("message", s("Homepage landing"))]))),
        }
    );
}

#[test]
fn thumbnail_reads_the_shells_picture() {
    assert_eq!(thumbnail_path("edge1"), "./static/asset_images/edge1.png");
    assert_eq!(thumbnail_reply(ImageRead::OpenFailed), text(HttpStatus::NotFound, "Image not found"));
    assert_eq!(
        thumbnail_reply(ImageRead::ReadFailed),
        Reply { status: HttpStatus::InternalServerError, body: ReplyBody::Empty }
    );
    assert_eq!(
        thumbnail_reply(ImageRead::Read(vec![0x89, b'P', b'N', b'G'])),
        Reply { status: HttpStatus::Success, body: ReplyBody::Png(vec![0x89, b'P', b'N', b'G']) }
    );
}

#[test]
fn book_ids_are_object_ids() {
    assert_eq!(book_id_filter(&OID_HEX.to_string()), doc(vec![("_id", Value::ObjectId(OID))]));
    assert_eq!(book_id_filter(&"655F3A1000ABCDEF01234567".to_string()), doc(vec![("_id", Value::ObjectId(OID))]));
    assert_eq!(
        book_id_filter(&"000000000000000000000000".to_string()),
        doc(vec![("_id", Value::ObjectId([0; 12]))])
    );
}

#[test]
fn book_replies_follow_the_outcome() {
    let book = doc(vec![("title", s("Dune"))]);
    assert_eq!(
        books_reply(vec![Value::Doc(book.clone())]),
        Reply { status: HttpStatus::Success, body: ReplyBody::Json(Value::Array(vec![Value::Doc(book.clone())])) }
    );
    assert_eq!(
        book_reply(FindOutcome::Found(book.clone())),
        Reply { status: HttpStatus::Success, body: ReplyBody::Json(Value::Doc(book.clone())) }
    );
    assert_eq!(book_reply(FindOutcome::Missing), text(HttpStatus::NotFound, "Book not found"));
    assert_eq!(
        book_reply(FindOutcome::Failed("x".to_string())),
        text(HttpStatus::InternalServerError, "Internal server error")
    );
    assert_eq!(
        add_book_reply(Ok(Value::ObjectId(OID))),
        Reply { status: HttpStatus::Created, body: ReplyBody::Json(Value::ObjectId(OID)) }
    );
    assert_eq!(add_book_reply(Err("dup".to_string())), text(HttpStatus::InternalServerError, "dup"));
}

#[test]
fn book_updates_set_the_books_fields() {
    let filter = doc(vec![("_id", Value::ObjectId(OID))]);
    let book = doc(vec![("title", s("Dune")), ("year", Value::Int32(1965))]);
    let c = book_update_command(filter.clone(), &Value::Doc(book.clone())).unwrap();
    assert_eq!(c.filter, filter);
    assert_eq!(c.update, doc(vec![("$set", Value::Doc(book))]));
    assert!(!c.upsert);
    assert!(book_update_command(filter, &s("no")).is_none());
}

#[test]
fn book_update_and_delete_answers_count_matches() {
    assert_eq!(update_book_reply(Ok(1)), text(HttpStatus::Success, "Book updated successfully"));
    assert_eq!(update_book_reply(Ok(0)), text(HttpStatus::NotFound, "Book not found"));
    assert_eq!(update_book_reply(Ok(2)), text(HttpStatus::NotFound, "Book not found"));
    assert_eq!(
        update_book_reply(Err("e".to_string())),
        text(HttpStatus::InternalServerError, "Internal server error")
    );
    assert_eq!(delete_book_reply(Ok(1)), text(HttpStatus::Success, "Book deleted successfully"));
    assert_eq!(delete_book_reply(Ok(0)), text(HttpStatus::NotFound, "Book not found"));
    assert_eq!(
        delete_book_reply(Err("e".to_string())),
        text(HttpStatus::InternalServerError, "Internal server error")
    );
}

#[test]
fn database_get_tells_missing_from_failed() {
    let v = Value::Doc(doc(vec![("a", Value::Int64(7))]));
    assert_eq!(
        get_database_reply(Ok(v.clone())),
        Reply { status: HttpStatus::Success, body: ReplyBody::Json(v) }
    );
    assert_eq!(
        get_database_reply(Err("Document not found".to_string())),
        text(HttpStatus::NotFound, "Document not found")
    );
    assert_eq!(
        get_database_reply(Err("Error finding document: x".to_string())),
        text(HttpStatus::InternalServerError, "Error finding document: x")
    );
}

#[test]
fn database_bodies_must_be_documents() {
    let d = doc(vec![("a", Value::Null)]);
    assert_eq!(database_document(&Ok(Value::Doc(d.clone()))), Ok(d));
    assert_eq!(
        database_document(&Ok(Value::Array(vec![]))),
        Err(text(
            HttpStatus::BadRequest,
            "Error converting JSON to BSON: Could not be serialized to Document, got Array instead"
        ))
    );
    assert_eq!(
        database_document(&Ok(Value::Int32(1))),
        Err(text(
            HttpStatus::BadRequest,
            "Error converting JSON to BSON: Could not be serialized to Document, got Int32 instead"
        ))
    );
    assert_eq!(
        database_document(&Err("bad".to_string())),
        Err(text(HttpStatus::BadRequest, "Error converting JSON to BSON: bad"))
    );
}

#[test]
fn database_add_and_update_answers() {
    assert_eq!(add_database_reply(Ok("x".to_string())), text(HttpStatus::Created, "Document added"));
    assert_eq!(
        add_database_reply(Err("e".to_string())),
        text(HttpStatus::InternalServerError, "Error adding document: e")
    );
    assert_eq!(update_database_reply(Ok("x".to_string())), text(HttpStatus::Created, "Document updated"));
    assert_eq!(
        update_database_reply(Err("e".to_string())),
        text(HttpStatus::InternalServerError, "Error adding document: e")
    );
}

#[test]
fn submodel_get_and_patch_answers() {
    let d = doc(vec![("idShort", s("X"))]);
    assert_eq!(
        get_submodel_reply(Ok(d.clone())),
        Reply { status: HttpStatus::Success, body: ReplyBody::Json(Value::Doc(d)) }
    );
    assert_eq!(
        get_submodel_reply(Err("Document not found".to_string())),
        text(HttpStatus::InternalServerError, "Error getting submodel: Document not found")
    );
    assert_eq!(
        patch_submodel_reply(Ok("Document updated successfully".to_string())),
        (text(HttpStatus::Success, "Submodel patched successfully"), true)
    );
    assert_eq!(
        patch_submodel_reply(Err("x".to_string())),
        (text(HttpStatus::InternalServerError, "Error patching submodel in database: x"), false)
    );
}

#[test]
fn only_system_and_network_submodels_are_stamped() {
    assert!(stamps_last_update(&"SystemInformation".to_string()));
    assert!(stamps_last_update(&"NetworkConfiguration".to_string()));
    assert!(!stamps_last_update(&"ManagedDevice".to_string()));
    assert!(!stamps_last_update(&"systeminformation".to_string()));
}

#[test]
fn last_update_stamp_is_rfc3339_in_utc() {
    assert_eq!(last_update_stamp(&Instant { secs: 1_700_000_000, nanos: 0 }), "2023-11-14T22:13:20+00:00");
    assert_eq!(last_update_stamp(&Instant { secs: 0, nanos: 0 }), "1970-01-01T00:00:00+00:00");
    assert_eq!(
        last_update_stamp(&Instant { secs: 1_700_000_000, nanos: 500_000_000 }),
        "2023-11-14T22:13:20.500+00:00"
    );
}

#[test]
fn text_helpers_and_statuses() {
    assert_eq!(aas_edge::reply::concat("ab", "cd"), "abcd");
    assert_eq!(aas_edge::reply::concat3("a", "", "c"), "ac");
    assert!(is_success_status(200));
    assert!(is_success_status(204));
    assert!(is_success_status(299));
    assert!(!is_success_status(199));
    assert!(!is_success_status(300));
    assert!(!is_success_status(404));
}

#[test]
fn stamping_sets_last_update() {
    let stamp = "2023-11-14T22:13:20+00:00".to_string();
    let body = Value::Doc(doc(vec![("LastUpdate", s("old")), ("Cpu", Value::Int32(3))]));
    assert_eq!(
        stamp_body(Ok(body), &stamp),
        Ok(Value::Doc(doc(vec![("LastUpdate", s(&stamp)), ("Cpu", Value::Int32(3))])))
    );
    let body = Value::Doc(doc(vec![("Cpu", Value::Int32(3))]));
    assert_eq!(
        stamp_body(Ok(body), &stamp),
        Ok(Value::Doc(doc(vec![("Cpu", Value::Int32(3)), ("LastUpdate", s(&stamp))])))
    );
    assert_eq!(stamp_body(Ok(Value::Null), &stamp), Ok(Value::Doc(doc(vec![("LastUpdate", s(&stamp))]))));
    assert_eq!(stamp_body(Err("too big".to_string()), &stamp), Err("too big".to_string()));
}
