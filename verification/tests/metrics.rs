use nesquic::metrics::{extract_metrics, sqlog_pattern, write_decimal};

#[test]
fn metrics_line_layout() {
    let line = extract_metrics(",iut=neqo,run=3", "12.345", 1_700_000_000_000_000_000);
    assert_eq!(line, "nesquic_qlog,iut=neqo,run=3 handshake_latency_ms=12.345 1700000000000000000");
}

#[test]
fn metrics_line_with_empty_tags() {
    assert_eq!(extract_metrics("", "0.5", 0), "nesquic_qlog handshake_latency_ms=0.5 0");
}

#[test]
fn metrics_timestamp_matches_std_formatting() {
    for ts in [0u128, 7, 10, 99, 100, 1234567890, u64::MAX as u128, u128::MAX] {
        let line = extract_metrics("", "1", ts);
        assert_eq!(line, format!("nesquic_qlog handshake_latency_ms=1 {}", ts));
    }
}

#[test]
fn decimal_round_trip() {
    for n in [0u128, 1, 9, 10, 11, 305, 1_000_000, u128::MAX] {
        let mut s = String::from("x");
        write_decimal(&mut s, n);
        assert_eq!(s[1..].parse::<u128>().unwrap(), n);
        assert!(n == 0 || !s[1..].starts_with('0'));
    }
}

#[test]
fn sqlog_pattern_layout() {
    assert_eq!(sqlog_pattern("/tmp/qlogs", "client"), "/tmp/qlogs/client/*qlog");
    assert_eq!(sqlog_pattern("out", "server"), "out/server/*qlog");
}
