use hostprobe::asn::asn_query_url;
use hostprobe::asn::parse_asn_response;
use hostprobe::asn::AsnInfo;
use hostprobe::records::body_read_fallback;
use hostprobe::records::probe_body_from_read;
use hostprobe::records::probe_responded;
use hostprobe::records::probe_timed_out;
use hostprobe::records::probe_transport_failed;
use hostprobe::records::probe_url;
use hostprobe::records::probe_wants_body;
use hostprobe::records::resolution_failed;
use hostprobe::records::resolution_resolved;
use hostprobe::records::resolution_timed_out;
use hostprobe::records::should_persist_resolution;
use hostprobe::timefmt::format_rfc3339;
use hostprobe::timefmt::parse_rfc3339;
use hostprobe::timefmt::Timestamp;

fn ts() -> Timestamp {
    Timestamp { year: 2024, month: 1, day: 15, hour: 12, minute: 30, second: 45 }
}

#[test]
fn timestamp_formats_as_rfc3339() {
    assert_eq!(format_rfc3339(&ts()), "2024-01-15T12:30:45+00:00");
    let epoch = Timestamp { year: 1970, month: 1, day: 1, hour: 0, minute: 0, second: 0 };
    assert_eq!(format_rfc3339(&epoch), "1970-01-01T00:00:00+00:00");
}

#[test]
fn timestamp_round_trips() {
    assert_eq!(parse_rfc3339(&format_rfc3339(&ts())), Some(ts()));
}

#[test]
fn timestamp_rejects_bad_text() {
    assert_eq!(parse_rfc3339(""), None);
    assert_eq!(parse_rfc3339("2024-01-15 12:30:45+00:00"), None);
    assert_eq!(parse_rfc3339("2024-13-15T12:30:45+00:00"), None);
    assert_eq!(parse_rfc3339("2024-01-15T12:30:45+01:00"), None);
    assert_eq!(parse_rfc3339("2024-01-15T12:30:4x+00:00"), None);
}

#[test]
fn resolution_timeout_record() {
    let r = resolution_timed_out("a.com".to_string(), ts());
    assert_eq!(r.hostname, "a.com");
    assert!(!r.success);
    assert_eq!(r.error.as_deref(), Some("Timeout"));
    assert!(r.ip_address.is_none());
    assert!(r.asn.is_none());
    assert!(r.as_name.is_none());
    assert!(!should_persist_resolution(&r));
}

#[test]
fn resolution_error_record() {
    let r = resolution_failed("a.com".to_string(), ts(), "no records found".to_string());
    assert!(!r.success);
    assert_eq!(r.error.as_deref(), Some("no records found"));
    assert!(r.ip_address.is_none());
}

#[test]
fn resolution_success_takes_first_address() {
    let addrs = vec!["93.184.216.34".to_string(), "10.0.0.1".to_string()];
    let info = AsnInfo { asn: "AS15133".to_string(), as_name: "EDGECAST".to_string() };
    let r = resolution_resolved("a.com".to_string(), ts(), addrs, Some(info));
    assert!(r.success);
    assert_eq!(r.ip_address.as_deref(), Some("93.184.216.34"));
    assert_eq!(r.asn.as_deref(), Some("AS15133"));
    assert_eq!(r.as_name.as_deref(), Some("EDGECAST"));
    assert!(r.error.is_none());
    assert!(should_persist_resolution(&r));
}

#[test]
fn resolution_success_without_enrichment() {
    let addrs = vec!["93.184.216.34".to_string()];
    let r = resolution_resolved("a.com".to_string(), ts(), addrs, None);
    assert!(r.success);
    assert_eq!(r.ip_address.as_deref(), Some("93.184.216.34"));
    assert!(r.asn.is_none());
    assert!(r.as_name.is_none());
}

#[test]
fn resolution_with_no_addresses_fails() {
    let r = resolution_resolved("a.com".to_string(), ts(), Vec::new(), None);
    assert!(!r.success);
    assert!(r.ip_address.is_none());
    assert_eq!(r.error.as_deref(), Some("no addresses returned"));
}

#[test]
fn probe_timeout_record() {
    let r = probe_timed_out("a.com".to_string(), "/front/checkIp".to_string(), ts());
    assert_eq!(r.status_code, 0);
    assert_eq!(r.error.as_deref(), Some("Timeout"));
    assert!(r.response_body.is_none());
}

#[test]
fn probe_transport_failure_record() {
    let r = probe_transport_failed(
        "a.com".to_string(),
        "/front/checkIp".to_string(),
        ts(),
        "connection refused".to_string(),
    );
    assert_eq!(r.status_code, 0);
    let err = r.error.expect("transport failure carries an error");
    assert!(!err.is_empty());
    assert!(r.response_body.is_none());
}

#[test]
fn probe_response_keeps_body_only_for_200() {
    let ok = probe_responded(
        "a.com".to_string(),
        "/p".to_string(),
        ts(),
        200,
        Some("hello".to_string()),
    );
    assert_eq!(ok.status_code, 200);
    assert_eq!(ok.response_body.as_deref(), Some("hello"));
    assert!(ok.error.is_none());

    let redirect = probe_responded(
        "a.com".to_string(),
        "/p".to_string(),
        ts(),
        301,
        Some("ignored".to_string()),
    );
    assert_eq!(redirect.status_code, 301);
    assert!(redirect.response_body.is_none());
    assert!(redirect.error.is_none());
}

#[test]
fn body_is_requested_only_for_200() {
    assert!(probe_wants_body(200));
    assert!(!probe_wants_body(204));
    assert!(!probe_wants_body(301));
    assert!(!probe_wants_body(404));
}

#[test]
fn probe_url_is_https_host_path() {
    assert_eq!(probe_url("a.com", "/front/checkIp"), "https://a.com/front/checkIp");
}

#[test]
fn body_read_fallback_text() {
    assert_eq!(body_read_fallback("boom".to_string()), "Error reading response: boom");
}

#[test]
fn a_200_answer_always_gets_a_body() {
    assert_eq!(probe_body_from_read(Ok("payload".to_string())), "payload");
    assert_eq!(
        probe_body_from_read(Err("connection reset".to_string())),
        "Error reading response: connection reset"
    );
    let r = probe_responded(
        "a.com".to_string(),
        "/p".to_string(),
        ts(),
        200,
        Some(probe_body_from_read(Err("boom".to_string()))),
    );
    assert_eq!(r.response_body.as_deref(), Some("Error reading response: boom"));
}

#[test]
fn asn_url_shape() {
    assert_eq!(
        asn_query_url("93.184.216.34"),
        "http://ip-api.com/json/93.184.216.34?fields=as,asname"
    );
}

#[test]
fn asn_response_parses_both_fields() {
    let info = parse_asn_response("{\"as\":\"AS15169 Google LLC\",\"asname\":\"GOOGLE\"}")
        .expect("both fields present");
    assert_eq!(info.asn, "AS15169 Google LLC");
    assert_eq!(info.as_name, "GOOGLE");
}

#[test]
fn asn_response_rejects_bad_documents() {
    assert!(parse_asn_response("not json").is_none());
    assert!(parse_asn_response("{\"as\":\"AS1\"}").is_none());
    assert!(parse_asn_response("{\"as\":1,\"asname\":\"X\"}").is_none());
    assert!(parse_asn_response("[]").is_none());
}
