//! The trusted boundary to serde_json. Each source's JSON payload is parsed
//! here, behind one wrapper per schema, into plain vectors of strings; what
//! a given body parses to is a fixed function of the body, named but not
//! spelled out. All reasoning about what is done with the parsed values is
//! verified in the callers.

use vstd::prelude::*;

verus! {

/// What an AlienVault passive-DNS document parses to: the `hostname` field
/// of every `passive_dns` entry, in order, or nothing when the document does
/// not have that shape.
pub uninterp spec fn alienvault_hosts_of(s: Seq<char>) -> Option<Seq<Seq<char>>>;

/// Relies on serde_json::from_str and serde_json::Value: parses
/// `{"passive_dns": [{"hostname": ...}, ...], "count": n}` and projects the
/// hostnames. The result depends on the body alone; an empty body is not a
/// JSON document and fails.
#[verifier::external_body]
pub fn parse_alienvault(s: &str) -> (r: Option<Vec<String>>)
    ensures
        r.deep_view() == alienvault_hosts_of(s@),
        s@.len() == 0 ==> r is None,
{
    let v: serde_json::Value = serde_json::from_str(s).ok()?;
    let arr = v.get("passive_dns")?.as_array()?;
    // the document shape also requires an integer record count
    v.get("count")?.as_i64()?;
    arr.iter()
        .map(|it| it.get("hostname").and_then(|h| h.as_str()).map(str::to_owned))
        .collect::<Option<Vec<String>>>()
}

/// What a crt.sh document parses to: the `name_value` field of every entry
/// of the top-level array, in order, or nothing when the document does not
/// have that shape.
pub uninterp spec fn crtsh_name_values_of(s: Seq<char>) -> Option<Seq<Seq<char>>>;

/// Relies on serde_json::from_str and serde_json::Value: parses
/// `[{"name_value": ...}, ...]` and projects the name values. The result
/// depends on the body alone; an empty body is not a JSON document and
/// fails.
#[verifier::external_body]
pub fn parse_crtsh(s: &str) -> (r: Option<Vec<String>>)
    ensures
        r.deep_view() == crtsh_name_values_of(s@),
        s@.len() == 0 ==> r is None,
{
    let v: serde_json::Value = serde_json::from_str(s).ok()?;
    let arr = v.as_array()?;
    arr.iter()
        .map(|it| it.get("name_value").and_then(|n| n.as_str()).map(str::to_owned))
        .collect::<Option<Vec<String>>>()
}

/// What a VirusTotal relationships page parses to: the `id` of every `data`
/// entry, in order, and the continuation cursor of the `meta` object if one
/// is there; or nothing when the document does not have that shape.
pub uninterp spec fn virustotal_page_of(s: Seq<char>) -> Option<(Seq<Seq<char>>, Option<Seq<char>>)>;

/// Relies on serde_json::from_str and serde_json::Value: parses
/// `{"data": [{"id": ...}, ...], "meta": {"cursor": ...}}` and projects the
/// ids and the optional cursor. The result depends on the body alone; an
/// empty body is not a JSON document and fails.
#[verifier::external_body]
pub fn parse_virustotal(s: &str) -> (r: Option<(Vec<String>, Option<String>)>)
    ensures
        r.deep_view() == virustotal_page_of(s@),
        s@.len() == 0 ==> r is None,
{
    let v: serde_json::Value = serde_json::from_str(s).ok()?;
    let data = v.get("data")?.as_array()?;
    let project = |d: &serde_json::Value| d.get("id").and_then(|i| i.as_str()).map(str::to_owned);
    let ids = data.iter().map(project).collect::<Option<Vec<String>>>()?;
    let meta = v.get("meta")?;
    if !meta.is_object() {
        return None;
    }
    let cursor = match meta.get("cursor") {
        None | Some(serde_json::Value::Null) => None,
        Some(serde_json::Value::String(c)) => Some(c.clone()),
        Some(_) => return None,
    };
    Some((ids, cursor))
}

} // verus!
