use aas_edge::aas_interfaces::{
    aas_find_one_filter, aas_find_one_result, aas_update_one_command, aas_update_one_result,
    dictionary_key, fetch_finish, fetch_replacement, fetch_submodel_url, get_submodel_result,
    patch_accepted, patch_database_result, prepare_patch, server_patch_result, server_patch_url,
    submodel_key, FetchAnswer, HttpExchange,
};
use aas_edge::operation::{FindOutcome, UpdateOutcome};
use aas_edge::reply::LogLine;
use aas_edge::value::{Document, Value};

fn s(text: &str) -> Value {
    Value::Str(text.to_string())
}

fn doc(pairs: Vec<(&str, Value)>) -> Document {
    let mut d = Document::new();
    for (k, v) in pairs {
        d.insert(k.to_string(), v);
    }
    d
}

const AAS_UID: &str = "https://example.com/ids/aas/1";
const AAS_B64: &str = "aHR0cHM6Ly9leGFtcGxlLmNvbS9pZHMvYWFzLzE";
const SM_UID: &str = "https://example.com/ids/sm/ManagedDevice";
const SM_B64: &str = "aHR0cHM6Ly9leGFtcGxlLmNvbS9pZHMvc20vTWFuYWdlZERldmljZQ";

#[test]
fn keys_join_shell_and_submodel() {
    assert_eq!(submodel_key("edge1", "SystemInformation"), "edge1:SystemInformation");
    assert_eq!(dictionary_key("edge1"), "edge1:submodels_dictionary");
    assert_eq!(aas_find_one_filter(&"edge1:X".to_string()), doc(vec![("_id", s("edge1:X"))]));
}

#[test]
fn aas_find_one_strips_the_id() {
    let found = doc(vec![("_id", s("edge1:X")), ("a", Value::Int32(1))]);
    let r = aas_find_one_result(FindOutcome::Found(found)).unwrap();
    assert_eq!(r, doc(vec![("a", Value::Int32(1))]));
    assert_eq!(aas_find_one_result(FindOutcome::Missing).unwrap_err(), "Document not found");
    assert_eq!(
        aas_find_one_result(FindOutcome::Failed("boom".to_string())).unwrap_err(),
        "Error finding document: boom"
    );
}

#[test]
fn aas_update_one_sets_fields_and_reports() {
    let c = aas_update_one_command("k".to_string(), doc(vec![("a", Value::Int64(1))]), false);
    assert_eq!(c.filter, doc(vec![("_id", s("k"))]));
    assert_eq!(c.update, doc(vec![("$set", Value::Doc(doc(vec![("a", Value::Int64(1))])))]));
    assert!(!c.upsert);
    assert_eq!(
        aas_update_one_result(UpdateOutcome::Upserted { id: s("k"), text: "String(\"k\")".to_string() }),
        Ok("Document upserted with id: String(\"k\")".to_string())
    );
    assert_eq!(aas_update_one_result(UpdateOutcome::Updated), Ok("Document updated successfully".to_string()));
    assert_eq!(
        aas_update_one_result(UpdateOutcome::Failed("x".to_string())),
        Err("Error upserting document: x".to_string())
    );
}

#[test]
fn get_submodel_prefixes_errors() {
    assert_eq!(
        get_submodel_result(Err("Document not found".to_string())),
        Err("Error getting submodel: Document not found".to_string())
    );
    assert_eq!(get_submodel_result(Ok(Document::new())), Ok(Document::new()));
}

#[test]
fn prepare_patch_merges_the_body_into_the_stored_submodel() {
    let stored = doc(vec![("CPU", s("0%")), ("RAM", s("1GB")), ("LastUpdate", s("t0"))]);
    let body = Ok(Value::Doc(doc(vec![("RAM", s("2GB")), ("Bogus", s("x"))])));
    let p = prepare_patch(Ok(stored), &body).unwrap();
    assert_eq!(p, doc(vec![("RAM", s("2GB")), ("CPU", s("0%")), ("LastUpdate", s("t0"))]));
}

#[test]
fn prepare_patch_reports_what_is_missing() {
    assert_eq!(
        prepare_patch(Err("Document not found".to_string()), &Ok(Value::Doc(Document::new()))),
        Err("Error getting submodel: Document not found".to_string())
    );
    assert_eq!(
        prepare_patch(Ok(Document::new()), &Ok(Value::Array(vec![]))),
        Err("Error parsing request body: Could not be serialized to Document, got Array instead".to_string())
    );
    assert_eq!(
        prepare_patch(Ok(Document::new()), &Err("overflow".to_string())),
        Err("Error parsing request body: overflow".to_string())
    );
    assert_eq!(
        patch_database_result(Err("x".to_string())),
        Err("Error patching submodel: x".to_string())
    );
    assert_eq!(patch_database_result(Ok("done".to_string())), Ok("done".to_string()));
}

#[test]
fn server_patch_url_encodes_both_ids() {
    let dictionary = doc(vec![("ManagedDevice", s(SM_UID)), ("Bad", Value::Int32(3))]);
    let url = server_patch_url(Ok(dictionary), &"ManagedDevice".to_string(), "http://srv:5001/", AAS_UID).unwrap();
    assert_eq!(url, format!("http://srv:5001/shells/{}/submodels/{}/$value", AAS_B64, SM_B64));
}

#[test]
fn server_patch_url_needs_a_string_entry() {
    let dictionary = doc(vec![("Bad", Value::Int32(3))]);
    for id in ["Bad", "Missing"] {
        assert_eq!(
            server_patch_url(Ok(dictionary.clone()), &id.to_string(), "http://srv/", AAS_UID),
            Err("Submodel not found in dictionary".to_string())
        );
    }
    assert_eq!(
        server_patch_url(Err("Document not found".to_string()), &"X".to_string(), "http://srv/", AAS_UID),
        Err("Error getting submodels dictionary: Document not found".to_string())
    );
}

#[test]
fn server_patch_result_accepts_only_no_content() {
    assert!(patch_accepted(204));
    assert!(!patch_accepted(200));
    assert_eq!(
        server_patch_result(HttpExchange::Answered { status: 204, body: None }),
        Ok("Submodel patched successfully".to_string())
    );
    assert_eq!(
        server_patch_result(HttpExchange::Answered { status: 400, body: Some("bad".to_string()) }),
        Err("bad".to_string())
    );
    assert_eq!(
        server_patch_result(HttpExchange::Answered { status: 500, body: None }),
        Err("Unknown error".to_string())
    );
    assert_eq!(
        server_patch_result(HttpExchange::SendFailed("refused".to_string())),
        Err("Error sending patch request: refused".to_string())
    );
}

#[test]
fn fetch_url_has_a_slash_after_the_server() {
    let dictionary = doc(vec![("ManagedDevice", s(SM_UID))]);
    let url = fetch_submodel_url(Ok(dictionary), &"ManagedDevice".to_string(), "http://srv:5001", AAS_UID).unwrap();
    assert_eq!(url, format!("http://srv:5001/shells/{}/submodels/{}/$value", AAS_B64, SM_B64));
    assert_eq!(
        fetch_submodel_url(Ok(Document::new()), &"ManagedDevice".to_string(), "http://srv", AAS_UID),
        Err("Submodel not found in dictionary".to_string())
    );
}

#[test]
fn fetch_replacement_replaces_with_a_document_body() {
    let url = "http://srv/x".to_string();
    let body = doc(vec![("BoardingStatus", s("ONBOARDED"))]);
    let c = fetch_replacement(&url, "edge1", "ManagedDevice", FetchAnswer::Body(Value::Doc(body.clone()))).unwrap();
    assert_eq!(c.filter, doc(vec![("_id", s("edge1:ManagedDevice"))]));
    assert_eq!(c.replacement, body);
    assert!(!c.upsert);
}

#[test]
fn fetch_replacement_reports_each_failure() {
    let url = "http://srv/x".to_string();
    assert_eq!(
        fetch_replacement(&url, "e", "M", FetchAnswer::SendFailed).unwrap_err(),
        "Error sending GET request: Failed to send request to fetch submodel value from URL: http://srv/x"
    );
    assert_eq!(
        fetch_replacement(&url, "e", "M", FetchAnswer::Refused("Response { status: 404 }".to_string())).unwrap_err(),
        "Error fetching submodel: Response { status: 404 }"
    );
    assert_eq!(
        fetch_replacement(&url, "e", "M", FetchAnswer::UnreadableJson).unwrap_err(),
        "Error parsing JSON response: Failed to parse JSON response"
    );
    assert_eq!(
        fetch_replacement(&url, "e", "M", FetchAnswer::NotBson).unwrap_err(),
        "Error converting JSON to BSON: Failed to convert JSON to BSON"
    );
    assert_eq!(
        fetch_replacement(&url, "e", "M", FetchAnswer::Body(s("x"))).unwrap_err(),
        "Response body is not a BSON document"
    );
}

#[test]
fn fetch_finish_reports_the_replacement() {
    assert_eq!(
        fetch_finish(Ok(()), "ManagedDevice"),
        (Ok(()), Some(LogLine::Stdout("Successfully replaced submodel: ManagedDevice".to_string())))
    );
    assert_eq!(
        fetch_finish(Err("e".to_string()), "ManagedDevice"),
        (
            Err("Error replacing submodel in the database: Failed to replace submodel in the database".to_string()),
            None
        )
    );
}
