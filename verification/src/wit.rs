use vstd::prelude::*;
use vstd::string::StringExecFns;
use std::collections::HashMap;

verus! {

/// An error reply from the classification service.
#[derive(Debug)]
pub struct Error {
    pub error: String,
    pub code: String,
}

/// A dynamic-entity payload sent along with a classification call.
#[derive(Debug)]
pub struct DynamicEntitiesList {
    pub entities: HashMap<String, Vec<DynamicEntitiesEntry>>,
}

/// One dynamic entity: a keyword and its synonyms.
#[derive(Debug)]
pub struct DynamicEntitiesEntry {
    pub keyword: String,
    pub synonyms: Vec<String>,
}

/// A structured entity value.
#[derive(Debug)]
pub enum Values {
    Interval(Interval),
}

/// A from-to pair of grained values.
#[derive(Debug)]
pub struct Interval {
    pub value_type: String,
    pub from: GrainnedValue,
    pub to: GrainnedValue,
}

/// A value together with the grain it was resolved at.
#[derive(Debug)]
pub struct GrainnedValue {
    pub grain: String,
    pub value: String,
}

/// What urlencoding::encode renders, a function of the text alone.
pub uninterp spec fn url_encoded(s: Seq<char>) -> Seq<char>;

/// Relies on urlencoding::encode: percent-encodes every byte outside
/// the unreserved ASCII set, depending on the input alone; an empty
/// input stays empty.
#[verifier::external_body]
fn url_encode(s: &str) -> (r: String)
    ensures
        r@ == url_encoded(s@),
        s@.len() == 0 ==> r@.len() == 0,
{
    urlencoding::encode(s).into_owned()
}

/// Builds the query URL of one classification call: the fixed
/// endpoint, then the message text URL-encoded, then any serialized
/// dynamic-entity payload URL-encoded right after it.
pub fn message_url(msg: &str, entity_json: &Option<String>) -> (r: String)
    ensures
        entity_json is None ==> r@ == "https://api.wit.ai/message?q="@ + url_encoded(msg@),
        entity_json matches Some(j) ==> r@ == "https://api.wit.ai/message?q="@ + url_encoded(msg@)
            + url_encoded(j@),
{
    let mut url = "https://api.wit.ai/message?q=".to_owned();
    let q = url_encode(msg);
    url.append(q.as_str());
    match entity_json {
        Some(j) => {
            let e = url_encode(j.as_str());
            url.append(e.as_str());
        },
        None => {},
    }
    url
}

/// Builds the bearer authorization header for the classification
/// call.
pub fn bearer_header(token: &str) -> (r: String)
    ensures
        r@ == "Bearer "@ + token@,
{
    let mut s = "Bearer ".to_owned();
    s.append(token);
    s
}

} // verus!
