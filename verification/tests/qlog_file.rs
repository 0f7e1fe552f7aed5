use nesquic::latency::{EventBody, HandshakeSpan, QlogError, QlogRecord};
use nesquic::qlog_file::{finish_measurement, read_client_log, to_record, LogError, RawRecord};

fn header(vantage: &str) -> String {
    format!(
        "\u{1e}{{\"qlog_version\":\"0.3\",\"qlog_format\":\"JSON-SEQ\",\"trace\":{{\"vantage_point\":{{\"type\":\"{}\"}}}}}}\n",
        vantage
    )
}

fn packet(time: f32, name: &str, ty: &str, number: Option<u64>) -> String {
    let number = match number {
        Some(n) => format!(",\"packet_number\":{}", n),
        None => String::new(),
    };
    format!(
        "\u{1e}{{\"time\":{:?},\"name\":\"transport:{}\",\"data\":{{\"header\":{{\"packet_type\":\"{}\"{}}}}}}}\n",
        time, name, ty, number
    )
}

fn client_file(handshake_number: Option<u64>) -> Vec<u8> {
    let mut s = header("client");
    s += &packet(0.25, "packet_sent", "initial", Some(0));
    s += &packet(1.5, "packet_received", "initial", Some(0));
    s += &packet(2.0, "packet_sent", "handshake", handshake_number);
    s += &packet(7.75, "packet_received", "1RTT", Some(3));
    s.into_bytes()
}

fn server_file() -> Vec<u8> {
    let mut s = header("server");
    s += &packet(0.5, "packet_received", "initial", Some(0));
    s += &packet(3.0, "packet_received", "handshake", Some(0));
    s += &packet(4.0, "packet_sent", "1RTT", Some(3));
    s.into_bytes()
}

#[test]
fn measurement_from_files() {
    let log = read_client_log(&client_file(Some(0))).unwrap().unwrap();
    assert_eq!(log.records.len(), 4);
    let m = finish_measurement(&log, &server_file()).unwrap().unwrap();
    assert_eq!(m.span, HandshakeSpan { start: 0, end: 3 });
    assert_eq!(m.start_time_bits, 0.25f32.to_bits());
    assert_eq!(m.end_time_bits, 7.75f32.to_bits());
    assert_eq!(f32::from_bits(m.end_time_bits) - f32::from_bits(m.start_time_bits), 7.5);
}

#[test]
fn client_file_without_header() {
    match read_client_log(b"") {
        Some(Err(LogError::Header { message })) => assert_eq!(message, "error reading file header bytes"),
        other => panic!("unexpected {:?}", other),
    }
}

#[test]
fn server_file_without_header() {
    let log = read_client_log(&client_file(Some(0))).unwrap().unwrap();
    assert!(matches!(finish_measurement(&log, b"\x1e"), Some(Err(LogError::Header { .. }))));
}

#[test]
fn client_file_out_of_order() {
    let mut s = header("client");
    s += &packet(2.0, "packet_received", "initial", Some(0));
    s += &packet(1.0, "packet_sent", "initial", Some(0));
    assert_eq!(
        read_client_log(s.as_bytes()).unwrap().unwrap_err(),
        LogError::Scan(QlogError::ClientOutOfOrder)
    );
}

#[test]
fn client_file_with_foreign_record() {
    let mut s = String::from_utf8(client_file(Some(0))).unwrap();
    s += "\u{1e}{\"time\":9.0,\"name\":\"custom:note\",\"data\":{}}\n";
    assert_eq!(
        read_client_log(s.as_bytes()).unwrap().unwrap_err(),
        LogError::Scan(QlogError::UnexpectedClientRecord)
    );
}

#[test]
fn client_file_without_handshake() {
    let mut s = header("client");
    s += &packet(0.25, "packet_sent", "initial", Some(0));
    assert_eq!(
        read_client_log(s.as_bytes()).unwrap().unwrap_err(),
        LogError::Scan(QlogError::NoClientHandshakeSent)
    );
}

#[test]
fn unnumbered_handshake_stops_the_measurement() {
    assert!(read_client_log(&client_file(None)).is_none());
}

#[test]
fn server_file_without_answer() {
    let log = read_client_log(&client_file(Some(0))).unwrap().unwrap();
    let mut s = header("server");
    s += &packet(3.0, "packet_received", "handshake", Some(0));
    assert_eq!(
        finish_measurement(&log, s.as_bytes()).unwrap().unwrap_err(),
        LogError::Scan(QlogError::NoServerOneRttSent)
    );
}

#[test]
fn time_keys_order_like_times() {
    let key = |t: f32| match to_record(&RawRecord { time_bits: t.to_bits(), body: Some(EventBody::Other) }) {
        QlogRecord::Qlog(e) => e.time_key,
        QlogRecord::Json => panic!("a qlog event"),
    };
    assert_eq!(key(0.0), 0);
    assert_eq!(key(-0.0), 0);
    assert_eq!(key(1.5), 1.5f32.to_bits() as i64);
    let times = [-1e30f32, -2.5, -1.0, -1e-40, 0.0, 1e-40, 0.5, 1.0, 3.25, 1e30, f32::INFINITY];
    for a in times {
        for b in times {
            assert_eq!(key(a) < key(b), a < b, "{} {}", a, b);
        }
    }
}

#[test]
fn foreign_record_is_json() {
    assert!(matches!(to_record(&RawRecord { time_bits: 0, body: None }), QlogRecord::Json));
}
