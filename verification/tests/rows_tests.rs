use hostprobe::asn::AsnInfo;
use hostprobe::records::probe_responded;
use hostprobe::records::probe_transport_failed;
use hostprobe::records::resolution_resolved;
use hostprobe::records::resolution_timed_out;
use hostprobe::rows::decode_dns_row;
use hostprobe::rows::decode_status_row;
use hostprobe::rows::encode_dns_row;
use hostprobe::rows::encode_status_row;
use hostprobe::rows::DnsRow;
use hostprobe::rows::StatusRow;
use hostprobe::timefmt::Timestamp;

fn ts() -> Timestamp {
    Timestamp { year: 2024, month: 6, day: 2, hour: 7, minute: 8, second: 9 }
}

#[test]
fn dns_row_round_trip_with_all_fields() {
    let rec = resolution_resolved(
        "a.com".to_string(),
        ts(),
        vec!["1.2.3.4".to_string()],
        Some(AsnInfo { asn: "AS1".to_string(), as_name: "ONE".to_string() }),
    );
    let row = encode_dns_row(&rec);
    assert_eq!(row.timestamp, "2024-06-02T07:08:09+00:00");
    assert_eq!(row.success, 1);
    let back = decode_dns_row(&row).expect("a stored row decodes");
    assert_eq!(back.hostname, rec.hostname);
    assert_eq!(back.ip_address, rec.ip_address);
    assert_eq!(back.asn, rec.asn);
    assert_eq!(back.as_name, rec.as_name);
    assert_eq!(back.timestamp, rec.timestamp);
    assert_eq!(back.success, rec.success);
    assert_eq!(back.error, rec.error);
}

#[test]
fn dns_row_round_trip_preserves_absent_fields() {
    let rec = resolution_timed_out("b.com".to_string(), ts());
    let row = encode_dns_row(&rec);
    assert_eq!(row.success, 0);
    assert!(row.ip_address.is_none());
    assert!(row.asn.is_none());
    assert_eq!(row.error.as_deref(), Some("Timeout"));
    let back = decode_dns_row(&row).expect("a stored row decodes");
    assert!(back.ip_address.is_none());
    assert!(back.asn.is_none());
    assert!(back.as_name.is_none());
    assert!(!back.success);
    assert_eq!(back.error.as_deref(), Some("Timeout"));
}

#[test]
fn dns_row_rejects_corrupt_columns() {
    let rec = resolution_timed_out("b.com".to_string(), ts());
    let mut row = encode_dns_row(&rec);
    row.success = 2;
    assert!(decode_dns_row(&row).is_none());
    let mut row2 = encode_dns_row(&rec);
    row2.timestamp = "yesterday".to_string();
    assert!(decode_dns_row(&row2).is_none());
}

#[test]
fn status_row_round_trip() {
    let rec = probe_responded(
        "a.com".to_string(),
        "/front/checkIp".to_string(),
        ts(),
        200,
        Some("body".to_string()),
    );
    let row = encode_status_row(&rec);
    assert_eq!(row.status_code, 200);
    assert_eq!(row.timestamp, "2024-06-02T07:08:09+00:00");
    let back = decode_status_row(&row).expect("a stored row decodes");
    assert_eq!(back.hostname, rec.hostname);
    assert_eq!(back.path, rec.path);
    assert_eq!(back.status_code, rec.status_code);
    assert_eq!(back.response_body, rec.response_body);
    assert_eq!(back.timestamp, rec.timestamp);
    assert!(back.error.is_none());
}

#[test]
fn status_row_keeps_failure_status_but_not_error_text() {
    let rec = probe_transport_failed(
        "a.com".to_string(),
        "/p".to_string(),
        ts(),
        "tls handshake failed".to_string(),
    );
    let row = encode_status_row(&rec);
    assert_eq!(row.status_code, 0);
    assert!(row.response.is_none());
    let back = decode_status_row(&row).expect("a stored row decodes");
    assert_eq!(back.status_code, 0);
    assert!(back.error.is_none());
}

#[test]
fn status_row_rejects_out_of_range_status() {
    let row = StatusRow {
        hostname: "a.com".to_string(),
        status_code: -1,
        path: "/p".to_string(),
        timestamp: "2024-06-02T07:08:09+00:00".to_string(),
        response: None,
    };
    assert!(decode_status_row(&row).is_none());
    let row2 = StatusRow { status_code: 70000, ..row };
    assert!(decode_status_row(&row2).is_none());
}

#[test]
fn dns_row_rejects_bad_timestamp_even_with_good_fields() {
    let row = DnsRow {
        hostname: "a.com".to_string(),
        ip_address: Some("1.2.3.4".to_string()),
        asn: None,
        as_name: None,
        timestamp: "2024-06-02T07:08:09Z".to_string(),
        success: 1,
        error: None,
    };
    assert!(decode_dns_row(&row).is_none());
}
