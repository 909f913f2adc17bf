//! Best-effort ASN enrichment: the query URL for the IP-metadata service and
//! the extraction of the `as` / `asname` fields from its JSON answer. The
//! HTTP call itself is the caller's business; enrichment failure never
//! affects resolution success.

use vstd::prelude::*;
use vstd::string::StringExecFns;

verus! {

/// Autonomous-system metadata for an IP address, as the enrichment service
/// reports it.
pub struct AsnInfo {
    pub asn: String,
    pub as_name: String,
}

/// What the enrichment extraction yields on a given body: the `as` and
/// `asname` member texts when the body parses as a JSON object carrying both
/// as strings, nothing otherwise. The extraction is a function of the body
/// alone, so it is given this name; what the name is on a given body is
/// stated nowhere, only that `extract_asn_fields` computes it.
pub uninterp spec fn asn_fields_of(body: Seq<char>) -> Option<(Seq<char>, Seq<char>)>;

/// Relies on `serde_json::from_str::<Value>`, `serde_json::Value::get` and
/// `serde_json::Value::as_str`: parses the body and reads the string members
/// `as` and `asname`; `None` on malformed JSON, a non-object document, a
/// missing member or a non-string member. Each step is deterministic in the
/// body, so the composite result is `asn_fields_of(body)`.
#[verifier::external_body]
fn extract_asn_fields(body: &str) -> (r: Option<(String, String)>)
    ensures
        (match r {
            Some(p) => asn_fields_of(body@) == Some((p.0@, p.1@)),
            None => asn_fields_of(body@) is None,
        }),
{
    let doc: serde_json::Value = serde_json::from_str(body).ok()?;
    let asn = doc.get("as")?.as_str()?;
    let as_name = doc.get("asname")?.as_str()?;
    Some((asn.to_string(), as_name.to_string()))
}

/// The metadata-service query for one IP address, asking for the `as` and
/// `asname` fields only.
pub fn asn_query_url(ip: &str) -> (r: String)
    ensures
        r@ == "http://ip-api.com/json/"@ + ip@ + "?fields=as,asname"@,
{
    let mut s = String::from_str("http://ip-api.com/json/");
    s.append(ip);
    s.append("?fields=as,asname");
    proof {
        assert(s@ =~= "http://ip-api.com/json/"@ + ip@ + "?fields=as,asname"@);
    }
    s
}

/// Extract the `as` and `asname` members of an enrichment answer: exactly
/// the fields that `asn_fields_of` names, present exactly when it is.
pub fn parse_asn_response(body: &str) -> (r: Option<AsnInfo>)
    ensures
        (match r {
            Some(info) => asn_fields_of(body@) == Some((info.asn@, info.as_name@)),
            None => asn_fields_of(body@) is None,
        }),
{
    match extract_asn_fields(body) {
        Some(p) => {
            let (asn, as_name) = p;
            Some(AsnInfo { asn, as_name })
        },
        None => None,
    }
}

} // verus!
