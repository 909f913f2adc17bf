//! The two record types the pipeline produces — one `ResolutionRecord` per
//! hostname entering the resolution stage, one `ProbeRecord` per probed
//! hostname — and the constructors that turn a stage outcome into a record.
//! Every failure mode becomes a record value; nothing here aborts a run.

use vstd::prelude::*;
use vstd::string::StringExecFns;
use crate::asn::AsnInfo;
use crate::timefmt::Timestamp;

verus! {

/// Mathematical model of a `ResolutionRecord`.
#[verifier::ext_equal]
pub ghost struct ResolutionRecordV {
    pub hostname: Seq<char>,
    pub ip_address: Option<Seq<char>>,
    pub asn: Option<Seq<char>>,
    pub as_name: Option<Seq<char>>,
    pub timestamp: Timestamp,
    pub success: bool,
    pub error: Option<Seq<char>>,
}

impl ResolutionRecordV {
    /// `success` holds exactly when an address was found, and ASN metadata
    /// never appears on a failed record.
    pub open spec fn wf(self) -> bool {
        &&& self.success <==> self.ip_address is Some
        &&& !self.success ==> self.asn is None && self.as_name is None
        &&& self.success <==> self.error is None
    }
}

/// One hostname's resolution outcome: address and ASN metadata on success,
/// the failure text otherwise.
pub struct ResolutionRecord {
    pub hostname: String,
    pub ip_address: Option<String>,
    pub asn: Option<String>,
    pub as_name: Option<String>,
    pub timestamp: Timestamp,
    pub success: bool,
    pub error: Option<String>,
}

impl View for ResolutionRecord {
    type V = ResolutionRecordV;

    open spec fn view(&self) -> ResolutionRecordV {
        ResolutionRecordV {
            hostname: self.hostname@,
            ip_address: self.ip_address.deep_view(),
            asn: self.asn.deep_view(),
            as_name: self.as_name.deep_view(),
            timestamp: self.timestamp,
            success: self.success,
            error: self.error.deep_view(),
        }
    }
}

/// Mathematical model of a `ProbeRecord`.
#[verifier::ext_equal]
pub ghost struct ProbeRecordV {
    pub hostname: Seq<char>,
    pub path: Seq<char>,
    pub status_code: u16,
    pub response_body: Option<Seq<char>>,
    pub timestamp: Timestamp,
    pub error: Option<Seq<char>>,
}

impl ProbeRecordV {
    /// A body is captured only for a 200 answer, and an error text appears
    /// only with the synthesized status 0.
    pub open spec fn wf(self) -> bool {
        &&& self.response_body is Some ==> self.status_code == 200
        &&& self.error is Some ==> self.status_code == 0
    }
}

/// One hostname's probe outcome: the received HTTP status, or status 0 with
/// an error text for a timeout or transport failure.
pub struct ProbeRecord {
    pub hostname: String,
    pub path: String,
    pub status_code: u16,
    pub response_body: Option<String>,
    pub timestamp: Timestamp,
    pub error: Option<String>,
}

impl View for ProbeRecord {
    type V = ProbeRecordV;

    open spec fn view(&self) -> ProbeRecordV {
        ProbeRecordV {
            hostname: self.hostname@,
            path: self.path@,
            status_code: self.status_code,
            response_body: self.response_body.deep_view(),
            timestamp: self.timestamp,
            error: self.error.deep_view(),
        }
    }
}

/// The `asn` column the record carries for a given enrichment outcome.
pub open spec fn spec_asn_field(info: Option<AsnInfo>) -> Option<Seq<char>> {
    match info {
        Some(i) => Some(i.asn@),
        None => None,
    }
}

/// The `as_name` column the record carries for a given enrichment outcome.
pub open spec fn spec_as_name_field(info: Option<AsnInfo>) -> Option<Seq<char>> {
    match info {
        Some(i) => Some(i.as_name@),
        None => None,
    }
}

/// The record for a lookup that the timeout cut off.
pub fn resolution_timed_out(hostname: String, timestamp: Timestamp) -> (r: ResolutionRecord)
    ensures
        r@ == (ResolutionRecordV {
            hostname: hostname@,
            ip_address: None,
            asn: None,
            as_name: None,
            timestamp,
            success: false,
            error: Some("Timeout"@),
        }),
        r@.wf(),
{
    ResolutionRecord {
        hostname,
        ip_address: None,
        asn: None,
        as_name: None,
        timestamp,
        success: false,
        error: Some(String::from_str("Timeout")),
    }
}

/// The record for a lookup that the resolver answered with an error.
pub fn resolution_failed(hostname: String, timestamp: Timestamp, error: String) -> (r:
    ResolutionRecord)
    ensures
        r@ == (ResolutionRecordV {
            hostname: hostname@,
            ip_address: None,
            asn: None,
            as_name: None,
            timestamp,
            success: false,
            error: Some(error@),
        }),
        r@.wf(),
{
    ResolutionRecord {
        hostname,
        ip_address: None,
        asn: None,
        as_name: None,
        timestamp,
        success: false,
        error: Some(error),
    }
}

/// The record for a lookup that returned in time: success with the first
/// address in resolver order and whatever ASN metadata was obtained —
/// enrichment never affects success — or a failed record when the answer
/// held no address at all.
pub fn resolution_resolved(
    hostname: String,
    timestamp: Timestamp,
    addresses: Vec<String>,
    asn_info: Option<AsnInfo>,
) -> (r: ResolutionRecord)
    ensures
        addresses@.len() >= 1 ==> r@ == (ResolutionRecordV {
            hostname: hostname@,
            ip_address: Some(addresses@[0]@),
            asn: spec_asn_field(asn_info),
            as_name: spec_as_name_field(asn_info),
            timestamp,
            success: true,
            error: None,
        }),
        addresses@.len() == 0 ==> r@ == (ResolutionRecordV {
            hostname: hostname@,
            ip_address: None,
            asn: None,
            as_name: None,
            timestamp,
            success: false,
            error: Some("no addresses returned"@),
        }),
        r@.wf(),
        addresses@.len() >= 1 && addresses@[0]@.len() >= 1 ==> (match r@.ip_address {
            Some(ip) => ip.len() >= 1,
            None => false,
        }),
{
    if addresses.len() >= 1 {
        let ip = addresses[0].clone();
        match asn_info {
            Some(info) => ResolutionRecord {
                hostname,
                ip_address: Some(ip),
                asn: Some(info.asn),
                as_name: Some(info.as_name),
                timestamp,
                success: true,
                error: None,
            },
            None => ResolutionRecord {
                hostname,
                ip_address: Some(ip),
                asn: None,
                as_name: None,
                timestamp,
                success: true,
                error: None,
            },
        }
    } else {
        ResolutionRecord {
            hostname,
            ip_address: None,
            asn: None,
            as_name: None,
            timestamp,
            success: false,
            error: Some(String::from_str("no addresses returned")),
        }
    }
}

/// The host program persists a resolution record exactly when an address was
/// found.
pub fn should_persist_resolution(r: &ResolutionRecord) -> (b: bool)
    ensures
        b == (r@.ip_address is Some),
{
    r.ip_address.is_some()
}

/// The probe target: `https://{hostname}{path}`.
pub fn probe_url(hostname: &str, path: &str) -> (r: String)
    ensures
        r@ == "https://"@ + hostname@ + path@,
{
    let mut s = String::from_str("https://");
    s.append(hostname);
    s.append(path);
    proof {
        assert(s@ =~= "https://"@ + hostname@ + path@);
    }
    s
}

/// The record for a probe that the timeout cut off.
pub fn probe_timed_out(hostname: String, path: String, timestamp: Timestamp) -> (r: ProbeRecord)
    ensures
        r@ == (ProbeRecordV {
            hostname: hostname@,
            path: path@,
            status_code: 0,
            response_body: None,
            timestamp,
            error: Some("Timeout"@),
        }),
        r@.wf(),
{
    ProbeRecord {
        hostname,
        path,
        status_code: 0,
        response_body: None,
        timestamp,
        error: Some(String::from_str("Timeout")),
    }
}

/// The record for a probe that failed below the HTTP layer (connection, TLS,
/// in-probe DNS): synthesized status 0 with the transport error text.
pub fn probe_transport_failed(hostname: String, path: String, timestamp: Timestamp, error: String)
    -> (r: ProbeRecord)
    ensures
        r@ == (ProbeRecordV {
            hostname: hostname@,
            path: path@,
            status_code: 0,
            response_body: None,
            timestamp,
            error: Some(error@),
        }),
        r@.wf(),
{
    ProbeRecord { hostname, path, status_code: 0, response_body: None, timestamp, error: Some(error) }
}

/// A body is read back only for a 200 answer.
pub fn probe_wants_body(status_code: u16) -> (b: bool)
    ensures
        b == (status_code == 200),
{
    status_code == 200
}

/// The record for a probe that received an HTTP answer: the actual status,
/// no error, and the body exactly when the status is 200 — a 200 answer
/// always carries one (the caller supplies it, see `probe_body_from_read`).
/// A non-200 answer is not an error; its body is discarded.
pub fn probe_responded(
    hostname: String,
    path: String,
    timestamp: Timestamp,
    status_code: u16,
    body: Option<String>,
) -> (r: ProbeRecord)
    requires
        status_code >= 1,
        status_code == 200 ==> body is Some,
    ensures
        r@ == (ProbeRecordV {
            hostname: hostname@,
            path: path@,
            status_code,
            response_body: if status_code == 200 {
                body.deep_view()
            } else {
                None
            },
            timestamp,
            error: None,
        }),
        r@.wf(),
        status_code == 200 ==> r@.response_body is Some,
{
    let response_body = if status_code == 200 {
        body
    } else {
        None
    };
    ProbeRecord { hostname, path, status_code, response_body, timestamp, error: None }
}

/// The body a 200 answer's record captures, from the outcome of reading the
/// response text: the full text when the read succeeded, the placeholder
/// otherwise. A body is always produced, so a 200 record never lacks one.
pub fn probe_body_from_read(read: Result<String, String>) -> (r: String)
    ensures
        (match read {
            Ok(t) => r@ == t@,
            Err(e) => r@ == "Error reading response: "@ + e@,
        }),
{
    match read {
        Ok(t) => t,
        Err(e) => body_read_fallback(e),
    }
}

/// The placeholder body captured when a 200 answer's body could not be
/// decoded: the probe itself still succeeded.
pub fn body_read_fallback(error: String) -> (r: String)
    ensures
        r@ == "Error reading response: "@ + error@,
{
    let mut s = String::from_str("Error reading response: ");
    s.append(error.as_str());
    proof {
        assert(s@ =~= "Error reading response: "@ + error@);
    }
    s
}

} // verus!
