use aas_edge::operation::{
    find_one_filter, find_one_reply, update_one_command, update_one_reply, FindOutcome,
    UpdateOutcome,
};
use aas_edge::reply::{HttpStatus, Reply, ReplyBody};
use aas_edge::value::{Document, Value};

fn doc(pairs: Vec<(&str, Value)>) -> Document {
    let mut d = Document::new();
    for (k, v) in pairs {
        d.insert(k.to_string(), v);
    }
    d
}

fn operation(reply: &Reply) -> (&str, &str, Option<String>, Option<bool>, Option<&Value>) {
    match &reply.body {
        ReplyBody::Operation(o) => (
            o.status().as_str(),
            o.action().as_str(),
            o.id().clone(),
            o.ack(),
            o.document().as_ref(),
        ),
        other => panic!("not an operation result: {:?}", other),
    }
}

const OID: [u8; 12] = [0x65, 0x5f, 0x3a, 0x10, 0x00, 0xab, 0xcd, 0xef, 0x01, 0x23, 0x45, 0x67];

#[test]
fn update_one_sets_the_fields_of_a_document_body() {
    let body = Ok(Value::Doc(doc(vec![("name", Value::Str("x".to_string()))])));
    let c = update_one_command(&body, &"id-1".to_string(), true).unwrap();
    assert_eq!(c.filter, doc(vec![("_id", Value::Str("id-1".to_string()))]));
    assert_eq!(
        c.update,
        doc(vec![("$set", Value::Doc(doc(vec![("name", Value::Str("x".to_string()))])))])
    );
    assert!(c.upsert);
}

#[test]
fn update_one_refuses_a_body_that_is_not_a_document() {
    for body in [Ok(Value::Array(vec![])), Err("BSON does not support unsigned integers".to_string())] {
        let r = update_one_command(&body, &"id".to_string(), false).unwrap_err();
        assert_eq!(r.status, HttpStatus::BadRequest);
        assert_eq!(operation(&r), ("Error", "invalid JSON structure", None, Some(false), None));
    }
}

#[test]
fn update_one_reports_an_upserted_object_id_in_hex() {
    let r = update_one_reply(UpdateOutcome::Upserted {
        id: Value::ObjectId(OID),
        text: "ObjectId(\"655f3a1000abcdef01234567\")".to_string(),
    });
    assert_eq!(r.status, HttpStatus::Success);
    assert_eq!(
        operation(&r),
        ("Success", "upserted", Some("655f3a1000abcdef01234567".to_string()), Some(true), None)
    );
    let r = update_one_reply(UpdateOutcome::Upserted {
        id: Value::Str("plain".to_string()),
        text: "String(\"plain\")".to_string(),
    });
    assert_eq!(operation(&r), ("Success", "upserted", None, Some(true), None));
}

#[test]
fn update_one_reports_updates_and_failures() {
    let r = update_one_reply(UpdateOutcome::Updated);
    assert_eq!(r.status, HttpStatus::Success);
    assert_eq!(operation(&r), ("Success", "updated", None, Some(true), None));
    let r = update_one_reply(UpdateOutcome::Failed("timeout".to_string()));
    assert_eq!(r.status, HttpStatus::InternalServerError);
    assert_eq!(operation(&r), ("Error", "database operation failed", None, Some(false), None));
}

#[test]
fn find_one_parses_object_ids_in_either_case() {
    let f = find_one_filter(&"655F3A1000ABCDEF01234567".to_string()).unwrap();
    assert_eq!(f, doc(vec![("_id", Value::ObjectId(OID))]));
    let f = find_one_filter(&"655f3a1000abcdef01234567".to_string()).unwrap();
    assert_eq!(f, doc(vec![("_id", Value::ObjectId(OID))]));
}

#[test]
fn find_one_refuses_malformed_ids() {
    for id in ["", "655f3a1000abcdef0123456", "655f3a1000abcdef0123456g", "655f3a1000abcdef012345678"] {
        let r = find_one_filter(&id.to_string()).unwrap_err();
        assert_eq!(r.status, HttpStatus::BadRequest);
        assert_eq!(operation(&r), ("Error", "invalid ID format", None, Some(false), None));
    }
}

#[test]
fn find_one_reports_what_was_found() {
    let found = doc(vec![("a", Value::Int32(1))]);
    let id = "655f3a1000abcdef01234567".to_string();
    let r = find_one_reply(&id, FindOutcome::Found(doc(vec![("a", Value::Int32(1))])));
    assert_eq!(r.status, HttpStatus::Success);
    assert_eq!(
        operation(&r),
        ("Success", "found", Some(id.clone()), Some(true), Some(&Value::Doc(found)))
    );
    let r = find_one_reply(&id, FindOutcome::Missing);
    assert_eq!(r.status, HttpStatus::Success);
    assert_eq!(operation(&r), ("Not Found", "find", None, Some(false), None));
    let r = find_one_reply(&id, FindOutcome::Failed("down".to_string()));
    assert_eq!(r.status, HttpStatus::InternalServerError);
    assert_eq!(operation(&r), ("Error", "database operation failed", None, Some(false), None));
}
