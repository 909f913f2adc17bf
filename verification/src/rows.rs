//! The row codec for the persistence sink's two append-only tables:
//! `dns_results` rows for resolution records and `status` rows for probe
//! records. Encoding and decoding invert each other, so reading a persisted
//! set back reproduces every stored field exactly.

use vstd::prelude::*;
use crate::records::ProbeRecord;
use crate::records::ProbeRecordV;
use crate::records::ResolutionRecord;
use crate::records::ResolutionRecordV;
use crate::timefmt::format_rfc3339;
use crate::timefmt::lemma_rfc3339_round_trip;
use crate::timefmt::parse_rfc3339;
use crate::timefmt::spec_parse_rfc3339;
use crate::timefmt::spec_rfc3339;

verus! {

/// Mathematical model of a `dns_results` row.
#[verifier::ext_equal]
pub ghost struct DnsRowV {
    pub hostname: Seq<char>,
    pub ip_address: Option<Seq<char>>,
    pub asn: Option<Seq<char>>,
    pub as_name: Option<Seq<char>>,
    pub timestamp: Seq<char>,
    pub success: int,
    pub error: Option<Seq<char>>,
}

/// One `dns_results` row: the timestamp as RFC 3339 text and success as the
/// integer 0 or 1, as the storage column types have them.
pub struct DnsRow {
    pub hostname: String,
    pub ip_address: Option<String>,
    pub asn: Option<String>,
    pub as_name: Option<String>,
    pub timestamp: String,
    pub success: i64,
    pub error: Option<String>,
}

impl View for DnsRow {
    type V = DnsRowV;

    open spec fn view(&self) -> DnsRowV {
        DnsRowV {
            hostname: self.hostname@,
            ip_address: self.ip_address.deep_view(),
            asn: self.asn.deep_view(),
            as_name: self.as_name.deep_view(),
            timestamp: self.timestamp@,
            success: self.success as int,
            error: self.error.deep_view(),
        }
    }
}

/// Mathematical model of a `status` row.
#[verifier::ext_equal]
pub ghost struct StatusRowV {
    pub hostname: Seq<char>,
    pub status_code: int,
    pub path: Seq<char>,
    pub timestamp: Seq<char>,
    pub response: Option<Seq<char>>,
}

/// One `status` row. The schema has no error column: a probe's error text is
/// reported but not persisted.
pub struct StatusRow {
    pub hostname: String,
    pub status_code: i64,
    pub path: String,
    pub timestamp: String,
    pub response: Option<String>,
}

impl View for StatusRow {
    type V = StatusRowV;

    open spec fn view(&self) -> StatusRowV {
        StatusRowV {
            hostname: self.hostname@,
            status_code: self.status_code as int,
            path: self.path@,
            timestamp: self.timestamp@,
            response: self.response.deep_view(),
        }
    }
}

/// The row a resolution record is stored as.
pub open spec fn spec_dns_row(r: ResolutionRecordV) -> DnsRowV {
    DnsRowV {
        hostname: r.hostname,
        ip_address: r.ip_address,
        asn: r.asn,
        as_name: r.as_name,
        timestamp: spec_rfc3339(r.timestamp),
        success: if r.success {
            1
        } else {
            0
        },
        error: r.error,
    }
}

/// The resolution record a stored row denotes: `Some` exactly when the
/// timestamp text parses and the success column holds 0 or 1.
pub open spec fn spec_dns_record(row: DnsRowV) -> Option<ResolutionRecordV> {
    match spec_parse_rfc3339(row.timestamp) {
        Some(ts) => if row.success == 0 || row.success == 1 {
            Some(
                ResolutionRecordV {
                    hostname: row.hostname,
                    ip_address: row.ip_address,
                    asn: row.asn,
                    as_name: row.as_name,
                    timestamp: ts,
                    success: row.success == 1,
                    error: row.error,
                },
            )
        } else {
            None
        },
        None => None,
    }
}

/// The row a probe record is stored as. The record's error text has no
/// column and is dropped.
pub open spec fn spec_status_row(r: ProbeRecordV) -> StatusRowV {
    StatusRowV {
        hostname: r.hostname,
        status_code: r.status_code as int,
        path: r.path,
        timestamp: spec_rfc3339(r.timestamp),
        response: r.response_body,
    }
}

/// The probe record a stored row denotes: `Some` exactly when the timestamp
/// text parses and the status column fits a 16-bit code.
pub open spec fn spec_status_record(row: StatusRowV) -> Option<ProbeRecordV> {
    match spec_parse_rfc3339(row.timestamp) {
        Some(ts) => if 0 <= row.status_code <= u16::MAX {
            Some(
                ProbeRecordV {
                    hostname: row.hostname,
                    path: row.path,
                    status_code: row.status_code as u16,
                    response_body: row.response,
                    timestamp: ts,
                    error: None,
                },
            )
        } else {
            None
        },
        None => None,
    }
}

/// Copy an optional text column.
fn clone_opt(o: &Option<String>) -> (r: Option<String>)
    ensures
        r.deep_view() == o.deep_view(),
{
    match o {
        Some(s) => Some(s.clone()),
        None => None,
    }
}

/// Encode a resolution record as its `dns_results` row.
pub fn encode_dns_row(r: &ResolutionRecord) -> (row: DnsRow)
    requires
        r.timestamp.wf(),
    ensures
        row@ == spec_dns_row(r@),
{
    let row = DnsRow {
        hostname: r.hostname.clone(),
        ip_address: clone_opt(&r.ip_address),
        asn: clone_opt(&r.asn),
        as_name: clone_opt(&r.as_name),
        timestamp: format_rfc3339(&r.timestamp),
        success: if r.success {
            1
        } else {
            0
        },
        error: clone_opt(&r.error),
    };
    proof {
        assert(row@ =~= spec_dns_row(r@));
    }
    row
}

/// Decode a `dns_results` row back into a resolution record.
pub fn decode_dns_row(row: &DnsRow) -> (r: Option<ResolutionRecord>)
    ensures
        match r {
            Some(rec) => spec_dns_record(row@) == Some(rec@),
            None => spec_dns_record(row@) is None,
        },
{
    match parse_rfc3339(row.timestamp.as_str()) {
        Some(ts) => if row.success == 0 || row.success == 1 {
            let rec = ResolutionRecord {
                hostname: row.hostname.clone(),
                ip_address: clone_opt(&row.ip_address),
                asn: clone_opt(&row.asn),
                as_name: clone_opt(&row.as_name),
                timestamp: ts,
                success: row.success == 1,
                error: clone_opt(&row.error),
            };
            proof {
                assert(spec_dns_record(row@) == Some(rec@)) by {
                    assert(rec@ =~= spec_dns_record(row@)->Some_0);
                }
            }
            Some(rec)
        } else {
            None
        },
        None => None,
    }
}

/// Encode a probe record as its `status` row.
pub fn encode_status_row(r: &ProbeRecord) -> (row: StatusRow)
    requires
        r.timestamp.wf(),
    ensures
        row@ == spec_status_row(r@),
{
    let row = StatusRow {
        hostname: r.hostname.clone(),
        status_code: r.status_code as i64,
        path: r.path.clone(),
        timestamp: format_rfc3339(&r.timestamp),
        response: clone_opt(&r.response_body),
    };
    proof {
        assert(row@ =~= spec_status_row(r@));
    }
    row
}

/// Decode a `status` row back into a probe record.
pub fn decode_status_row(row: &StatusRow) -> (r: Option<ProbeRecord>)
    ensures
        match r {
            Some(rec) => spec_status_record(row@) == Some(rec@),
            None => spec_status_record(row@) is None,
        },
{
    match parse_rfc3339(row.timestamp.as_str()) {
        Some(ts) => if 0 <= row.status_code && row.status_code <= 65535 {
            let rec = ProbeRecord {
                hostname: row.hostname.clone(),
                path: row.path.clone(),
                status_code: row.status_code as u16,
                response_body: clone_opt(&row.response),
                timestamp: ts,
                error: None,
            };
            proof {
                assert(spec_status_record(row@) == Some(rec@)) by {
                    assert(rec@ =~= spec_status_record(row@)->Some_0);
                }
            }
            Some(rec)
        } else {
            None
        },
        None => None,
    }
}

/// Round trip: a resolution record with a well-formed timestamp, stored and
/// read back, reproduces every field exactly — present and absent nullable
/// columns included.
pub proof fn lemma_dns_row_round_trip(r: ResolutionRecordV)
    requires
        r.timestamp.wf(),
    ensures
        spec_dns_record(spec_dns_row(r)) == Some(r),
{
    lemma_rfc3339_round_trip(r.timestamp);
    assert(spec_dns_record(spec_dns_row(r))->Some_0 =~= r);
}

/// Round trip for probe records: every stored field comes back exactly. The
/// error text is the one field without a column, so the statement holds of
/// records whose error is absent; a transport-failure record comes back with
/// its status 0 row but without the error text.
pub proof fn lemma_status_row_round_trip(r: ProbeRecordV)
    requires
        r.timestamp.wf(),
        r.error is None,
    ensures
        spec_status_record(spec_status_row(r)) == Some(r),
{
    lemma_rfc3339_round_trip(r.timestamp);
    assert(spec_status_record(spec_status_row(r))->Some_0 =~= r);
}

} // verus!
