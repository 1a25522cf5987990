use vstd::prelude::*;
use vstd::string::*;
use vstd::utf8::encode_utf8;

use crate::codec::{base64_url, encode_base64, Base64Config};
use crate::merge::{merge_documents, merge_entries};
use crate::operation::{
    id_filter, id_filter_document, set_command, set_update, FindOutcome, UpdateCommand,
    UpdateOutcome,
};
use crate::reply::{concat, concat3, LogLine};
use crate::value::{
    element_type_name, has_key, lemma_removed, lookup, removed, view_wf, Document, Entries, Value, ValueAccessError,
    ValueView,
};

verus! {

/// The id under which a submodel of an asset administration shell is stored:
/// `"{aas_id_short}:{submodel_id_short}"`.
pub open spec fn submodel_key_text(aas_id_short: Seq<char>, submodel_id_short: Seq<char>) -> Seq<
    char,
> {
    aas_id_short + ":"@ + submodel_id_short
}

/// The id of a submodel.
pub fn submodel_key(aas_id_short: &str, submodel_id_short: &str) -> (r: String)
    ensures
        r@ == submodel_key_text(aas_id_short@, submodel_id_short@),
{
    concat3(aas_id_short, ":", submodel_id_short)
}

/// The id of the document that maps submodel id-shorts to submodel ids.
pub fn dictionary_key(aas_id_short: &str) -> (r: String)
    ensures
        r@ == aas_id_short@ + ":submodels_dictionary"@,
{
    concat(aas_id_short, ":submodels_dictionary")
}

/// The filter that `aas_find_one` looks up: `{ "_id": id }`.
pub fn aas_find_one_filter(id: &String) -> (f: Document)
    ensures
        f@ == id_filter(ValueView::Str(id@)),
        f.wf(),
{
    id_filter_document(Value::Str(id.clone()))
}

/// The result `aas_find_one` gives for the lookup's outcome: the found
/// document without its `_id`, "Document not found", or the driver's error.
pub fn aas_find_one_result(outcome: FindOutcome) -> (r: Result<Document, String>)
    requires
        outcome matches FindOutcome::Found(d) ==> d.wf(),
    ensures
        match outcome {
            FindOutcome::Found(d) => r matches Ok(x) && x@ == removed(d@, "_id"@) && x.wf()
                && !has_key(x@, "_id"@),
            FindOutcome::Missing => r matches Err(e) && e@ == "Document not found"@,
            FindOutcome::Failed(msg) => r matches Err(e) && e@ == "Error finding document: "@
                + msg@,
        },
{
    match outcome {
        FindOutcome::Found(d) => {
            let mut d = d;
            proof {
                lemma_removed(d@, "_id"@);
            }
            d.remove(&String::from_str("_id"));
            Ok(d)
        },
        FindOutcome::Missing => Err(String::from_str("Document not found")),
        FindOutcome::Failed(msg) => Err(concat("Error finding document: ", msg.as_str())),
    }
}

/// The update that `aas_update_one` sends: `$set` the fields of
/// `new_document` on the document `id`, inserting it when `upsert` holds and
/// none matches.
pub fn aas_update_one_command(id: String, new_document: Document, upsert: bool) -> (c:
    UpdateCommand)
    requires
        new_document.wf(),
    ensures
        c.filter@ == id_filter(ValueView::Str(id@)),
        c.update@ == set_update(new_document@),
        c.upsert == upsert,
        c.filter.wf(),
        c.update.wf(),
{
    set_command(Value::Str(id), new_document, upsert)
}

/// The result `aas_update_one` gives for the update's outcome.
pub fn aas_update_one_result(outcome: UpdateOutcome) -> (r: Result<String, String>)
    ensures
        match outcome {
            UpdateOutcome::Upserted { text, .. } => r matches Ok(m) && m@
                == "Document upserted with id: "@ + text@,
            UpdateOutcome::Updated => r matches Ok(m) && m@ == "Document updated successfully"@,
            UpdateOutcome::Failed(msg) => r matches Err(e) && e@ == "Error upserting document: "@
                + msg@,
        },
{
    match outcome {
        UpdateOutcome::Upserted { text, .. } => Ok(
            concat("Document upserted with id: ", text.as_str()),
        ),
        UpdateOutcome::Updated => Ok(String::from_str("Document updated successfully")),
        UpdateOutcome::Failed(msg) => Err(concat("Error upserting document: ", msg.as_str())),
    }
}

/// The result `get_submodel_database` gives for the stored submodel.
pub fn get_submodel_result(found: Result<Document, String>) -> (r: Result<Document, String>)
    ensures
        match found {
            Ok(d) => r matches Ok(x) && x@ == d@,
            Err(e) => r matches Err(m) && m@ == "Error getting submodel: "@ + e@,
        },
{
    match found {
        Ok(d) => Ok(d),
        Err(e) => Err(concat("Error getting submodel: ", e.as_str())),
    }
}

/// The message bson gives when a value other than a document is converted
/// into a document.
pub open spec fn not_a_document_text(v: ValueView) -> Seq<char> {
    "Could not be serialized to Document, got "@ + element_type_name(v) + " instead"@
}

/// The patch that a submodel gets from a request body: the body, which must
/// convert to a document, merged with the stored submodel (see
/// `merge_entries`). Without the stored submodel, or with a body that is not a
/// document, the patch is refused with a message.
pub fn prepare_patch(found: Result<Document, String>, body: &Result<Value, String>) -> (r: Result<
    Document,
    String,
>)
    requires
        found matches Ok(d) ==> d.wf(),
        body matches Ok(v) ==> view_wf(v@),
    ensures
        match found {
            Err(e) => r matches Err(m) && m@ == "Error getting submodel: "@ + e@,
            Ok(stored) => match body {
                Err(e) => r matches Err(m) && m@ == "Error parsing request body: "@ + e@,
                Ok(v) => match v@ {
                    ValueView::Doc(fields) => r matches Ok(p) && p@ == merge_entries(stored@, fields)
                        && p.wf(),
                    _ => r matches Err(m) && m@ == "Error parsing request body: "@
                        + not_a_document_text(v@),
                },
            },
        },
{
    let stored = match found {
        Ok(d) => d,
        Err(e) => {
            return Err(concat("Error getting submodel: ", e.as_str()));
        },
    };
    let mut patch = match body {
        Ok(Value::Doc(fields)) => fields.clone(),
        Ok(other) => {
            let kind = other.element_type();
            let message = concat3(
                "Could not be serialized to Document, got ",
                kind.as_str(),
                " instead",
            );
            return Err(concat("Error parsing request body: ", message.as_str()));
        },
        Err(e) => {
            return Err(concat("Error parsing request body: ", e.as_str()));
        },
    };
    merge_documents(&stored, &mut patch);
    Ok(patch)
}

/// The result `patch_submodel_database` gives for the update's result.
pub fn patch_database_result(updated: Result<String, String>) -> (r: Result<String, String>)
    ensures
        match updated {
            Ok(m) => r matches Ok(x) && x@ == m@,
            Err(e) => r matches Err(x) && x@ == "Error patching submodel: "@ + e@,
        },
{
    match updated {
        Ok(m) => Ok(m),
        Err(e) => Err(concat("Error patching submodel: ", e.as_str())),
    }
}

/// The URL of a submodel's value on the AASX server:
/// `{server}{separator}shells/{aas}/submodels/{submodel}/$value`, both ids in
/// unpadded URL-safe base64.
pub open spec fn submodel_value_url(
    server: Seq<char>,
    separator: Seq<char>,
    aas_uid_bytes: Seq<u8>,
    submodel_uid_bytes: Seq<u8>,
) -> Seq<char> {
    server + separator + "shells/"@ + base64_url(aas_uid_bytes, false) + "/submodels/"@
        + base64_url(submodel_uid_bytes, false) + "/$value"@
}

fn value_url(server: &str, separator: &str, aas_uid: &str, submodel_uid: &str) -> (r: String)
    ensures
        r@ == submodel_value_url(
            server@,
            separator@,
            encode_utf8(aas_uid@),
            encode_utf8(submodel_uid@),
        ),
{
    let aas = encode_base64(aas_uid, Base64Config::UrlSafeNoPad);
    let sub = encode_base64(submodel_uid, Base64Config::UrlSafeNoPad);
    let mut url = String::from_str(server);
    url.append(separator);
    url.append("shells/");
    url.append(aas.as_str());
    url.append("/submodels/");
    url.append(sub.as_str());
    url.append("/$value");
    url
}

/// The submodel id that the dictionary gives `submodel_id_short`.
pub open spec fn dictionary_uid(dictionary: Entries, submodel_id_short: Seq<char>) -> Option<
    Seq<char>,
> {
    match lookup(dictionary, submodel_id_short) {
        Some(ValueView::Str(uid)) => Some(uid),
        _ => None,
    }
}

/// Where `patch_submodel_server` sends its patch: the value URL of the
/// submodel whose id the dictionary gives `submodel_id_short`. Without the
/// dictionary, or without a string entry for the submodel, there is no URL
/// and a message says why.
pub fn server_patch_url(
    dictionary: Result<Document, String>,
    submodel_id_short: &String,
    aasx_server_url: &str,
    aas_uid: &str,
) -> (r: Result<String, String>)
    requires
        dictionary matches Ok(d) ==> d.wf(),
    ensures
        match dictionary {
            Err(e) => r matches Err(m) && m@ == "Error getting submodels dictionary: "@ + e@,
            Ok(d) => match dictionary_uid(d@, submodel_id_short@) {
                Some(uid) => r matches Ok(url) && url@ == submodel_value_url(
                    aasx_server_url@,
                    ""@,
                    encode_utf8(aas_uid@),
                    encode_utf8(uid),
                ),
                None => r matches Err(m) && m@ == "Submodel not found in dictionary"@,
            },
        },
{
    let d = match dictionary {
        Ok(d) => d,
        Err(e) => {
            return Err(concat("Error getting submodels dictionary: ", e.as_str()));
        },
    };
    match d.get_str(submodel_id_short) {
        Ok(uid) => Ok(value_url(aasx_server_url, "", aas_uid, uid.as_str())),
        Err(_) => Err(String::from_str("Submodel not found in dictionary")),
    }
}

/// How an HTTP exchange with the AASX server ended.
#[derive(Debug, PartialEq)]
pub enum HttpExchange {
    /// The request could not be sent; the client's message.
    SendFailed(String),
    /// The server answered with `status`; `body` is its text when it was read.
    Answered { status: u16, body: Option<String> },
}

/// Whether the server accepted a patch: it answers 204 No Content.
pub fn patch_accepted(status: u16) -> (r: bool)
    ensures
        r == (status == 204),
{
    status == 204
}

/// The result `patch_submodel_server` gives for the server's answer: success
/// on 204, otherwise the answer's text ("Unknown error" when it could not be
/// read), or why the request could not be sent.
pub fn server_patch_result(exchange: HttpExchange) -> (r: Result<String, String>)
    ensures
        match exchange {
            HttpExchange::SendFailed(e) => r matches Err(m) && m@ == "Error sending patch request: "@
                + e@,
            HttpExchange::Answered { status, body } => if status == 204 {
                r matches Ok(m) && m@ == "Submodel patched successfully"@
            } else {
                match body {
                    Some(t) => r matches Err(m) && m@ == t@,
                    None => r matches Err(m) && m@ == "Unknown error"@,
                }
            },
        },
{
    match exchange {
        HttpExchange::SendFailed(e) => Err(concat("Error sending patch request: ", e.as_str())),
        HttpExchange::Answered { status, body } => {
            if patch_accepted(status) {
                Ok(String::from_str("Submodel patched successfully"))
            } else {
                match body {
                    Some(t) => Err(t),
                    None => Err(String::from_str("Unknown error")),
                }
            }
        },
    }
}

/// Where `fetch_single_submodel_from_server` reads a submodel's value: the
/// value URL (with a `/` after the server) of the submodel whose id the
/// dictionary gives `submodel_id_short`; without the dictionary or a string
/// entry there is no URL and a message says why.
pub fn fetch_submodel_url(
    dictionary: Result<Document, String>,
    submodel_id_short: &String,
    aasx_server_url: &str,
    aas_uid: &str,
) -> (r: Result<String, String>)
    requires
        dictionary matches Ok(d) ==> d.wf(),
    ensures
        match dictionary {
            Err(e) => r matches Err(m) && m@ == "Error getting submodels dictionary: "@ + e@,
            Ok(d) => match dictionary_uid(d@, submodel_id_short@) {
                Some(uid) => r matches Ok(url) && url@ == submodel_value_url(
                    aasx_server_url@,
                    "/"@,
                    encode_utf8(aas_uid@),
                    encode_utf8(uid),
                ),
                None => r matches Err(m) && m@ == "Submodel not found in dictionary"@,
            },
        },
{
    let d = match dictionary {
        Ok(d) => d,
        Err(e) => {
            return Err(concat("Error getting submodels dictionary: ", e.as_str()));
        },
    };
    match d.get(submodel_id_short) {
        Some(Value::Str(uid)) => Ok(value_url(aasx_server_url, "/", aas_uid, uid.as_str())),
        _ => Err(String::from_str("Submodel not found in dictionary")),
    }
}

/// What came back when a submodel's value was read from the server.
#[derive(Debug, PartialEq)]
pub enum FetchAnswer {
    /// The request could not be sent.
    SendFailed,
    /// The server answered with a status outside 2xx; how the client prints the response.
    Refused(String),
    /// The body was not JSON.
    UnreadableJson,
    /// The JSON body could not be converted to BSON.
    NotBson,
    /// The body, converted to BSON.
    Body(Value),
}

/// Replace the document that `filter` picks by `replacement`.
#[derive(Debug, PartialEq)]
pub struct ReplaceCommand {
    pub filter: Document,
    pub replacement: Document,
    pub upsert: bool,
}

/// What `fetch_single_submodel_from_server` does with the server's answer: a
/// document body replaces the stored submodel (never inserting one); any other
/// answer ends with a message.
pub fn fetch_replacement(
    url: &String,
    aas_id_short: &str,
    submodel_id_short: &str,
    answer: FetchAnswer,
) -> (r: Result<ReplaceCommand, String>)
    requires
        answer matches FetchAnswer::Body(v) ==> view_wf(v@),
    ensures
        match answer {
            FetchAnswer::SendFailed => r matches Err(m) && m@
                == "Error sending GET request: Failed to send request to fetch submodel value from URL: "@
                + url@,
            FetchAnswer::Refused(shown) => r matches Err(m) && m@ == "Error fetching submodel: "@
                + shown@,
            FetchAnswer::UnreadableJson => r matches Err(m) && m@
                == "Error parsing JSON response: Failed to parse JSON response"@,
            FetchAnswer::NotBson => r matches Err(m) && m@
                == "Error converting JSON to BSON: Failed to convert JSON to BSON"@,
            FetchAnswer::Body(v) => match v@ {
                ValueView::Doc(fields) => r matches Ok(c) && c.filter@ == id_filter(
                    ValueView::Str(submodel_key_text(aas_id_short@, submodel_id_short@)),
                ) && c.replacement@ == fields && !c.upsert && c.filter.wf() && c.replacement.wf(),
                _ => r matches Err(m) && m@ == "Response body is not a BSON document"@,
            },
        },
{
    match answer {
        FetchAnswer::SendFailed => Err(
            concat(
                "Error sending GET request: Failed to send request to fetch submodel value from URL: ",
                url.as_str(),
            ),
        ),
        FetchAnswer::Refused(shown) => Err(concat("Error fetching submodel: ", shown.as_str())),
        FetchAnswer::UnreadableJson => Err(
            String::from_str("Error parsing JSON response: Failed to parse JSON response"),
        ),
        FetchAnswer::NotBson => Err(
            String::from_str("Error converting JSON to BSON: Failed to convert JSON to BSON"),
        ),
        FetchAnswer::Body(Value::Doc(fields)) => {
            let key = submodel_key(aas_id_short, submodel_id_short);
            Ok(
                ReplaceCommand {
                    filter: id_filter_document(Value::Str(key)),
                    replacement: fields,
                    upsert: false,
                },
            )
        },
        FetchAnswer::Body(_) => Err(String::from_str("Response body is not a BSON document")),
    }
}

/// How `fetch_single_submodel_from_server` ends once the replacement was
/// attempted: success is reported on standard output.
pub fn fetch_finish(replaced: Result<(), String>, submodel_id_short: &str) -> (r: (
    Result<(), String>,
    Option<LogLine>,
))
    ensures
        match replaced {
            Ok(()) => r.0 is Ok && (r.1 matches Some(LogLine::Stdout(l)) && l@
                == "Successfully replaced submodel: "@ + submodel_id_short@),
            Err(_) => r.0 matches Err(m) && m@
                == "Error replacing submodel in the database: Failed to replace submodel in the database"@
                && r.1 is None,
        },
{
    match replaced {
        Ok(()) => (
            Ok(()),
            Some(LogLine::Stdout(concat("Successfully replaced submodel: ", submodel_id_short))),
        ),
        Err(_) => (
            Err(
                String::from_str(
                    "Error replacing submodel in the database: Failed to replace submodel in the database",
                ),
            ),
            None,
        ),
    }
}

} // verus!
