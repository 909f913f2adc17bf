//! The end-to-end shape of a small run: two hostnames at width two resolve
//! in one wave, both successes are probed in one wave, and two rows land in
//! each table.

use hostprobe::records::probe_responded;
use hostprobe::records::resolution_resolved;
use hostprobe::records::should_persist_resolution;
use hostprobe::records::ProbeRecord;
use hostprobe::records::ResolutionRecord;
use hostprobe::rows::encode_dns_row;
use hostprobe::rows::encode_status_row;
use hostprobe::schedule::run_schedule;
use hostprobe::schedule::wave_bounds;
use hostprobe::timefmt::Timestamp;

fn ts() -> Timestamp {
    Timestamp { year: 2024, month: 3, day: 9, hour: 1, minute: 2, second: 3 }
}

#[test]
fn two_hosts_at_width_two_fill_both_tables() {
    let hostnames = vec!["a.com".to_string(), "b.com".to_string()];

    // Both resolutions fit one wave.
    assert_eq!(wave_bounds(hostnames.len(), 2), vec![(0, 2)]);
    let resolutions: Vec<ResolutionRecord> = run_schedule(&hostnames, 2, |h: &String| {
        resolution_resolved(h.clone(), ts(), vec!["1.2.3.4".to_string()], None)
    });
    assert_eq!(resolutions.len(), 2);

    let successes: Vec<&ResolutionRecord> =
        resolutions.iter().filter(|r| should_persist_resolution(r)).collect();
    let dns_rows: Vec<_> = successes.iter().map(|r| encode_dns_row(r)).collect();
    assert_eq!(dns_rows.len(), 2);

    // Both probes fit one wave.
    assert_eq!(wave_bounds(successes.len(), 2), vec![(0, 2)]);
    let probes: Vec<ProbeRecord> = run_schedule(&resolutions, 2, |r: &ResolutionRecord| {
        probe_responded(
            r.hostname.clone(),
            "/front/checkIp".to_string(),
            ts(),
            200,
            Some("ok".to_string()),
        )
    });
    assert_eq!(probes.len(), 2);

    let status_rows: Vec<_> = probes.iter().map(encode_status_row).collect();
    assert_eq!(status_rows.len(), 2);
    assert_eq!(dns_rows[0].hostname, "a.com");
    assert_eq!(dns_rows[1].hostname, "b.com");
    assert_eq!(status_rows[0].status_code, 200);
    assert_eq!(status_rows[1].status_code, 200);
}
