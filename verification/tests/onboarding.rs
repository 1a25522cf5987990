use aas_edge::database::aas_find_one_value;
use aas_edge::onboarding::{submodel_stored, submodel_upsert, submodel_url, SubmodelAnswer};
use aas_edge::operation::FindOutcome;
use aas_edge::value::{Document, Value};

fn s(text: &str) -> Value {
    Value::Str(text.to_string())
}

fn doc(pairs: Vec<(&str, Value)>) -> Document {
    let mut d = Document::new();
    for (k, v) in pairs {
        d.insert(k.to_string(), v);
    }
    d
}

const SERVER: &str = "http://aasx:5001";
const AAS_UID: &str = "https://example.com/ids/aas/1";
const SM_UID: &str = "https://example.com/ids/sm/ManagedDevice";

#[test]
fn submodel_url_uses_padded_base64() {
    assert_eq!(
        submodel_url(SERVER, AAS_UID, SM_UID),
        "http://aasx:5001/shells/aHR0cHM6Ly9leGFtcGxlLmNvbS9pZHMvYWFzLzE=/submodels/aHR0cHM6Ly9leGFtcGxlLmNvbS9pZHMvc20vTWFuYWdlZERldmljZQ=="
    );
}

#[test]
fn submodel_url_uses_the_url_safe_alphabet() {
    let url = submodel_url("s", "???", ">>>");
    assert_eq!(url, "s/shells/Pz8_/submodels/Pj4-");
    assert_eq!(submodel_url("s", "?~", "a"), "s/shells/P34=/submodels/YQ==");
}

#[test]
fn submodel_upsert_stores_the_body_under_its_id_short() {
    let url = "u".to_string();
    let body = doc(vec![("idShort", s("ManagedDevice")), ("BoardingStatus", s("ONBOARDED"))]);
    let c = submodel_upsert(&url, "edge1", SubmodelAnswer::Body(Value::Doc(body.clone()))).unwrap();
    assert_eq!(c.filter, doc(vec![("_id", s("edge1:ManagedDevice"))]));
    assert_eq!(c.update, doc(vec![("$set", Value::Doc(body))]));
    assert!(c.upsert);
}

#[test]
fn submodel_upsert_reports_each_failure() {
    let url = "http://aasx:5001/shells/a/submodels/b".to_string();
    assert_eq!(
        submodel_upsert(&url, "edge1", SubmodelAnswer::SendFailed).unwrap_err(),
        "Failed to send request to fetch submodel"
    );
    assert_eq!(
        submodel_upsert(&url, "edge1", SubmodelAnswer::Refused(404)).unwrap_err(),
        "Failed to fetch URL http://aasx:5001/shells/a/submodels/b. Status code: 404"
    );
    assert_eq!(
        submodel_upsert(&url, "edge1", SubmodelAnswer::UnreadableJson).unwrap_err(),
        "Failed to parse response body as JSON"
    );
    assert_eq!(
        submodel_upsert(&url, "edge1", SubmodelAnswer::NotBson(None)).unwrap_err(),
        "Failed to extract idShort from response body"
    );
    assert_eq!(
        submodel_upsert(&url, "edge1", SubmodelAnswer::NotBson(Some("X".to_string()))).unwrap_err(),
        "Failed to convert JSON body to BSON"
    );
    let no_id = Value::Doc(doc(vec![("idShort", Value::Int32(3))]));
    assert_eq!(
        submodel_upsert(&url, "edge1", SubmodelAnswer::Body(no_id)).unwrap_err(),
        "Failed to extract idShort from response body"
    );
    assert_eq!(
        submodel_upsert(&url, "edge1", SubmodelAnswer::Body(s("x"))).unwrap_err(),
        "Failed to extract idShort from response body"
    );
}

#[test]
fn submodel_stored_reports_a_failed_update() {
    assert_eq!(submodel_stored(Ok(())), Ok(()));
    assert_eq!(
        submodel_stored(Err("boom".to_string())),
        Err("Failed to update submodel in the database".to_string())
    );
}

#[test]
fn aas_find_one_value_drops_the_id() {
    let found = doc(vec![("_id", s("k")), ("a", Value::Bool(true))]);
    assert_eq!(
        aas_find_one_value(FindOutcome::Found(found)),
        Ok(Value::Doc(doc(vec![("a", Value::Bool(true))])))
    );
    assert_eq!(aas_find_one_value(FindOutcome::Missing), Err("Document not found".to_string()));
    assert_eq!(
        aas_find_one_value(FindOutcome::Failed("e".to_string())),
        Err("Error finding document: e".to_string())
    );
}

#[test]
fn refused_status_is_written_in_decimal() {
    let url = "u".to_string();
    for (status, text) in [(0u16, "0"), (9, "9"), (10, "10"), (204, "204"), (500, "500"), (65535, "65535")] {
        assert_eq!(
            submodel_upsert(&url, "edge1", SubmodelAnswer::Refused(status)).unwrap_err(),
            format!("Failed to fetch URL u. Status code: {}", text)
        );
    }
}
