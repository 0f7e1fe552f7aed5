use nesquic::latency::{
    handshake_span, reaches_unnumbered_packet, Direction, EventBody, HandshakeSpan, PacketKind,
    QlogError, QlogEvent, QlogRecord,
};

fn pkt(key: i64, direction: Direction, kind: PacketKind, number: Option<u64>) -> QlogRecord {
    QlogRecord::Qlog(QlogEvent { time_key: key, body: EventBody::Packet { direction, kind, number } })
}

fn sent(key: i64, kind: PacketKind, n: u64) -> QlogRecord {
    pkt(key, Direction::Sent, kind, Some(n))
}

fn recv(key: i64, kind: PacketKind, n: u64) -> QlogRecord {
    pkt(key, Direction::Received, kind, Some(n))
}

fn other(key: i64) -> QlogRecord {
    QlogRecord::Qlog(QlogEvent { time_key: key, body: EventBody::Other })
}

/// A client log: Initial 0 and 1 sent, Handshake 0 and 1 sent, 1-RTT 5 received.
fn client_log() -> Vec<QlogRecord> {
    vec![
        other(0),
        sent(1, PacketKind::Initial, 0),
        recv(2, PacketKind::Initial, 0),
        sent(3, PacketKind::Initial, 1),
        sent(4, PacketKind::Handshake, 0),
        sent(5, PacketKind::Handshake, 1),
        recv(6, PacketKind::OneRtt, 4),
        recv(7, PacketKind::OneRtt, 5),
        recv(8, PacketKind::OneRtt, 5),
    ]
}

/// A server log: receives Handshake 0 and 1, then sends 1-RTT 5 and 6.
fn server_log() -> Vec<QlogRecord> {
    vec![
        recv(1, PacketKind::Initial, 0),
        sent(2, PacketKind::OneRtt, 4),
        recv(3, PacketKind::Handshake, 0),
        recv(4, PacketKind::Handshake, 1),
        sent(5, PacketKind::OneRtt, 5),
        sent(6, PacketKind::OneRtt, 6),
    ]
}

#[test]
fn span_of_a_complete_handshake() {
    let c = client_log();
    let s = server_log();
    assert!(!reaches_unnumbered_packet(&c, &s));
    assert_eq!(handshake_span(&c, &s), Ok(HandshakeSpan { start: 1, end: 7 }));
}

#[test]
fn span_start_is_first_initial_even_after_later_ones() {
    // The second Initial does not move the start.
    let c = client_log();
    let span = handshake_span(&c, &server_log()).unwrap();
    assert_eq!(span.start, 1);
}

#[test]
fn span_end_is_first_receipt_of_matching_packet() {
    // Client receives 1-RTT 5 twice; the first receipt counts.
    let span = handshake_span(&client_log(), &server_log()).unwrap();
    assert_eq!(span.end, 7);
}

#[test]
fn server_one_rtt_before_handshake_receipt_is_ignored() {
    // The 1-RTT packet 4 precedes the receipt of Handshake 1 and is not the answer.
    let mut c = client_log();
    c.truncate(7); // drop the receipts of packet 5
    assert_eq!(handshake_span(&c, &server_log()), Err(QlogError::NoClientOneRttReceived));
}

#[test]
fn json_record_in_client_log() {
    let mut c = client_log();
    c.insert(2, QlogRecord::Json);
    assert_eq!(handshake_span(&c, &server_log()), Err(QlogError::UnexpectedClientRecord));
}

#[test]
fn client_out_of_order() {
    let mut c = client_log();
    c[4] = sent(1, PacketKind::Handshake, 0); // earlier than the record before it
    assert_eq!(handshake_span(&c, &server_log()), Err(QlogError::ClientOutOfOrder));
}

#[test]
fn client_first_event_before_time_zero() {
    let c = vec![sent(-1, PacketKind::Initial, 0)];
    assert_eq!(handshake_span(&c, &server_log()), Err(QlogError::ClientOutOfOrder));
}

#[test]
fn client_order_only_checked_on_initial_and_handshake() {
    // A received packet that goes back in time is accepted.
    let mut c = client_log();
    c[2] = recv(-5, PacketKind::Initial, 0);
    assert!(handshake_span(&c, &server_log()).is_ok());
}

#[test]
fn no_client_handshake() {
    let c = vec![sent(1, PacketKind::Initial, 0)];
    assert_eq!(handshake_span(&c, &server_log()), Err(QlogError::NoClientHandshakeSent));
}

#[test]
fn json_record_in_server_log() {
    let mut s = server_log();
    s.insert(0, QlogRecord::Json);
    assert_eq!(handshake_span(&client_log(), &s), Err(QlogError::UnexpectedServerRecord));
}

#[test]
fn server_out_of_order() {
    let mut s = server_log();
    s[3] = recv(0, PacketKind::Handshake, 1);
    assert_eq!(handshake_span(&client_log(), &s), Err(QlogError::ServerOutOfOrder));
}

#[test]
fn server_records_after_the_answer_are_not_read() {
    // A JSON record after the server's first matching 1-RTT packet is never reached.
    let mut s = server_log();
    s.push(QlogRecord::Json);
    s.push(recv(0, PacketKind::Handshake, 1));
    assert_eq!(handshake_span(&client_log(), &s), Ok(HandshakeSpan { start: 1, end: 7 }));
}

#[test]
fn no_server_one_rtt() {
    let s = vec![recv(3, PacketKind::Handshake, 1)];
    assert_eq!(handshake_span(&client_log(), &s), Err(QlogError::NoServerOneRttSent));
}

#[test]
fn server_never_receives_last_handshake() {
    let s = vec![recv(3, PacketKind::Handshake, 0), sent(5, PacketKind::OneRtt, 5)];
    assert_eq!(handshake_span(&client_log(), &s), Err(QlogError::NoServerOneRttSent));
}

#[test]
fn no_client_initial() {
    let c = vec![sent(4, PacketKind::Handshake, 1), recv(7, PacketKind::OneRtt, 5)];
    assert_eq!(handshake_span(&c, &server_log()), Err(QlogError::NoClientInitialSent));
}

#[test]
fn no_client_one_rtt_receipt() {
    let c = vec![sent(1, PacketKind::Initial, 0), sent(4, PacketKind::Handshake, 1)];
    assert_eq!(handshake_span(&c, &server_log()), Err(QlogError::NoClientOneRttReceived));
}

#[test]
fn unnumbered_handshake_is_detected() {
    let mut c = client_log();
    c[5] = pkt(5, Direction::Sent, PacketKind::Handshake, None);
    assert!(reaches_unnumbered_packet(&c, &server_log()));
}

#[test]
fn unnumbered_packet_after_error_is_not_reached() {
    // The client pass fails on the JSON record before the unnumbered packet.
    let c = vec![QlogRecord::Json, pkt(1, Direction::Sent, PacketKind::Initial, None)];
    assert!(!reaches_unnumbered_packet(&c, &server_log()));
    assert_eq!(handshake_span(&c, &server_log()), Err(QlogError::UnexpectedClientRecord));
}

#[test]
fn unnumbered_second_initial_is_not_read() {
    // Only the first Initial's number is needed.
    let mut c = client_log();
    c[3] = pkt(3, Direction::Sent, PacketKind::Initial, None);
    assert!(!reaches_unnumbered_packet(&c, &server_log()));
    assert_eq!(handshake_span(&c, &server_log()), Ok(HandshakeSpan { start: 1, end: 7 }));
}

#[test]
fn unnumbered_server_one_rtt_after_answer_is_not_read() {
    let mut s = server_log();
    s.push(pkt(9, Direction::Sent, PacketKind::OneRtt, None));
    assert!(!reaches_unnumbered_packet(&client_log(), &s));
}

#[test]
fn error_messages() {
    assert_eq!(QlogError::ClientOutOfOrder.message(), "client qlog events are out of order");
    assert_eq!(
        QlogError::NoServerOneRttSent.message(),
        "could not find server_first_1rtt_pkt_sent"
    );
    assert_eq!(
        QlogError::UnexpectedServerRecord.message(),
        "unexpected non-qlog event in server file"
    );
    assert_eq!(
        QlogError::NoClientOneRttReceived.message(),
        "could not find client_first_1rtt_pkt_received"
    );
}

#[test]
fn server_times_do_not_matter_when_in_order() {
    let s2: Vec<QlogRecord> = server_log()
        .into_iter()
        .enumerate()
        .map(|(i, r)| match r {
            QlogRecord::Qlog(e) => QlogRecord::Qlog(QlogEvent { time_key: 100 * i as i64, body: e.body }),
            QlogRecord::Json => QlogRecord::Json,
        })
        .collect();
    assert_eq!(handshake_span(&client_log(), &s2), handshake_span(&client_log(), &server_log()));
}

#[test]
fn server_tail_after_answer_does_not_matter() {
    let mut prefix = server_log();
    prefix.truncate(5); // up to the selected 1-RTT packet 5
    let mut extended = prefix.clone();
    extended.push(recv(0, PacketKind::Handshake, 1));
    extended.push(sent(9, PacketKind::OneRtt, 4));
    assert_eq!(handshake_span(&client_log(), &prefix), handshake_span(&client_log(), &extended));
    assert_eq!(handshake_span(&client_log(), &prefix), handshake_span(&client_log(), &server_log()));
}
