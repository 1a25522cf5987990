use vstd::prelude::*;
use vstd::string::*;
use vstd::utf8::encode_utf8;

use crate::aas_interfaces::{submodel_key, submodel_key_text};
use crate::codec::{base64_url, decimal, encode_base64, u16_text, Base64Config};
use crate::operation::{id_filter, set_command, set_update, UpdateCommand};
use crate::reply::concat;
use crate::value::{lookup, view_wf, Value, ValueView};

verus! {

/// The URL of a submodel on the AASX server:
/// `{server}/shells/{aas}/submodels/{submodel}`, both ids in padded URL-safe
/// base64.
pub open spec fn submodel_url_text(server: Seq<char>, aas_uid: Seq<char>, submodel_uid: Seq<char>) -> Seq<
    char,
> {
    server + "/shells/"@ + base64_url(encode_utf8(aas_uid), true) + "/submodels/"@ + base64_url(
        encode_utf8(submodel_uid),
        true,
    )
}

/// Where `fetch_single_submodel` reads a submodel.
pub fn submodel_url(aasx_server_url: &str, aas_uid: &str, submodel_uid: &str) -> (r: String)
    ensures
        r@ == submodel_url_text(aasx_server_url@, aas_uid@, submodel_uid@),
{
    let aas = encode_base64(aas_uid, Base64Config::UrlSafe);
    let sub = encode_base64(submodel_uid, Base64Config::UrlSafe);
    let mut url = String::from_str(aasx_server_url);
    url.append("/shells/");
    url.append(aas.as_str());
    url.append("/submodels/");
    url.append(sub.as_str());
    url
}

/// What came back when a submodel was read from the server.
#[derive(Debug, PartialEq)]
pub enum SubmodelAnswer {
    /// The request could not be sent.
    SendFailed,
    /// The server answered with this status, outside 2xx.
    Refused(u16),
    /// The body was not JSON.
    UnreadableJson,
    /// The JSON body could not be converted to BSON; its `idShort` member when
    /// that is a string.
    NotBson(Option<String>),
    /// The body, converted to BSON.
    Body(Value),
}

/// The `idShort` string of a submodel body.
pub open spec fn id_short_of(body: ValueView) -> Option<Seq<char>> {
    match body {
        ValueView::Doc(es) => match lookup(es, "idShort"@) {
            Some(ValueView::Str(s)) => Some(s),
            _ => None,
        },
        _ => None,
    }
}

/// What `fetch_single_submodel` does with the server's answer: a submodel body
/// is stored (inserted or updated) under `"{aas_id_short}:{idShort}"` by
/// `$set`-ting its fields; any other answer ends with a message.
pub fn submodel_upsert(url: &String, aas_id_short: &str, answer: SubmodelAnswer) -> (r: Result<
    UpdateCommand,
    String,
>)
    requires
        answer matches SubmodelAnswer::Body(v) ==> view_wf(v@),
    ensures
        match answer {
            SubmodelAnswer::SendFailed => r matches Err(m) && m@
                == "Failed to send request to fetch submodel"@,
            SubmodelAnswer::Refused(status) => r matches Err(m) && m@ == "Failed to fetch URL "@
                + url@ + ". Status code: "@ + decimal(status as nat),
            SubmodelAnswer::UnreadableJson => r matches Err(m) && m@
                == "Failed to parse response body as JSON"@,
            SubmodelAnswer::NotBson(id_short) => r matches Err(m) && m@ == if id_short is Some {
                "Failed to convert JSON body to BSON"@
            } else {
                "Failed to extract idShort from response body"@
            },
            SubmodelAnswer::Body(v) => match id_short_of(v@) {
                Some(id_short) => r matches Ok(c) && c.filter@ == id_filter(
                    ValueView::Str(submodel_key_text(aas_id_short@, id_short)),
                ) && c.update@ == set_update(v@->Doc_0) && c.upsert && c.filter.wf()
                    && c.update.wf(),
                None => r matches Err(m) && m@ == "Failed to extract idShort from response body"@,
            },
        },
{
    match answer {
        SubmodelAnswer::SendFailed => Err(String::from_str("Failed to send request to fetch submodel")),
        SubmodelAnswer::Refused(status) => {
            let mut m = String::from_str("Failed to fetch URL ");
            m.append(url.as_str());
            m.append(". Status code: ");
            let code = u16_text(status);
            m.append(code.as_str());
            Err(m)
        },
        SubmodelAnswer::UnreadableJson => Err(String::from_str("Failed to parse response body as JSON")),
        SubmodelAnswer::NotBson(id_short) => match id_short {
            Some(_) => Err(String::from_str("Failed to convert JSON body to BSON")),
            None => Err(String::from_str("Failed to extract idShort from response body")),
        },
        SubmodelAnswer::Body(body) => {
            let id_short = match body.field(&String::from_str("idShort")) {
                Some(Value::Str(s)) => s.clone(),
                _ => {
                    return Err(String::from_str("Failed to extract idShort from response body"));
                },
            };
            match body {
                Value::Doc(fields) => {
                    let key = submodel_key(aas_id_short, id_short.as_str());
                    Ok(set_command(Value::Str(key), fields, true))
                },
                _ => Err(String::from_str("Conversion to Document failed.")),
            }
        },
    }
}

/// How `fetch_single_submodel` ends once the update was attempted.
pub fn submodel_stored(updated: Result<(), String>) -> (r: Result<(), String>)
    ensures
        match updated {
            Ok(()) => r is Ok,
            Err(_) => r matches Err(m) && m@ == "Failed to update submodel in the database"@,
        },
{
    match updated {
        Ok(()) => Ok(()),
        Err(_) => Err(String::from_str("Failed to update submodel in the database")),
    }
}

} // verus!
