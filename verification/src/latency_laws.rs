//! What a measured handshake span means, proved over the scan of `latency`.
use vstd::prelude::*;

use crate::latency::{
    lemma_receipt_scan_stops, lemma_server_scan_done, client_scan, client_stage, handshake_outcome, receipt_scan, server_done, server_scan, ClientScan,
    Direction, EventBody, HandshakeSpan, Halt, PacketKind, QlogError, QlogRecord, ServerScan,
};

verus! {

/// `r` is a qlog event of a packet of kind `kind` that the logging endpoint sent.
pub open spec fn sent_packet(r: QlogRecord, kind: PacketKind) -> bool {
    match r {
        QlogRecord::Qlog(e) => match e.body {
            EventBody::Packet { direction, kind: k, number } => direction == Direction::Sent && k == kind,
            EventBody::Other => false,
        },
        QlogRecord::Json => false,
    }
}

/// `r` is a qlog event of a packet of kind `kind` that the logging endpoint received.
pub open spec fn received_packet(r: QlogRecord, kind: PacketKind) -> bool {
    match r {
        QlogRecord::Qlog(e) => match e.body {
            EventBody::Packet { direction, kind: k, number } => direction == Direction::Received && k == kind,
            EventBody::Other => false,
        },
        QlogRecord::Json => false,
    }
}

/// The packet number that `r` carries, if it is a packet event with one.
pub open spec fn packet_number(r: QlogRecord) -> Option<u64> {
    match r {
        QlogRecord::Qlog(e) => match e.body {
            EventBody::Packet { direction, kind, number } => number,
            EventBody::Other => None,
        },
        QlogRecord::Json => None,
    }
}

/// The time key of `r` (0 for a record that is no qlog event).
pub open spec fn time_key(r: QlogRecord) -> i64 {
    match r {
        QlogRecord::Qlog(e) => e.time_key,
        QlogRecord::Json => 0,
    }
}

/// The time key before record `k`: that of record `k - 1`, or 0 (time zero) for the first.
pub open spec fn prev_key(ev: Seq<QlogRecord>, k: int) -> i64 {
    if k <= 0 { 0 } else { time_key(ev[k - 1]) }
}

/// `r` is a qlog event, not a foreign JSON record.
pub open spec fn is_qlog(r: QlogRecord) -> bool {
    r is Qlog
}

spec fn client_inv(ev: Seq<QlogRecord>, n: int, st: ClientScan) -> bool {
    &&& forall|k: int| 0 <= k < n ==> #[trigger] is_qlog(ev[k])
    &&& st.last_key == prev_key(ev, n)
    &&& forall|k: int|
        0 <= k < n && (sent_packet(ev[k], PacketKind::Initial) || sent_packet(ev[k], PacketKind::Handshake))
            ==> #[trigger] time_key(ev[k]) >= prev_key(ev, k)
    &&& match st.first_initial {
        Some(m) => {
            &&& m.index < n
            &&& sent_packet(ev[m.index as int], PacketKind::Initial)
            &&& packet_number(ev[m.index as int]) == Some(m.number)
            &&& forall|k: int| 0 <= k < m.index ==> !#[trigger] sent_packet(ev[k], PacketKind::Initial)
        },
        None => forall|k: int| 0 <= k < n ==> !#[trigger] sent_packet(ev[k], PacketKind::Initial),
    }
    &&& match st.last_handshake {
        Some(m) => {
            &&& m.index < n
            &&& sent_packet(ev[m.index as int], PacketKind::Handshake)
            &&& packet_number(ev[m.index as int]) == Some(m.number)
            &&& forall|k: int| m.index < k < n ==> !#[trigger] sent_packet(ev[k], PacketKind::Handshake)
        },
        None => forall|k: int| 0 <= k < n ==> !#[trigger] sent_packet(ev[k], PacketKind::Handshake),
    }
}

proof fn lemma_client_inv(ev: Seq<QlogRecord>, n: nat)
    requires
        n <= ev.len(),
        ev.len() <= usize::MAX,
        client_scan(ev, n) is Ok,
    ensures
        client_inv(ev, n as int, client_scan(ev, n)->Ok_0),
    decreases n,
{
    if n > 0 {
        lemma_client_inv(ev, (n - 1) as nat);
        let k = n - 1;
        assert(is_qlog(ev[k]));
        assert(prev_key(ev, k) == client_scan(ev, (n - 1) as nat)->Ok_0.last_key);
    }
}

/// How many server records the pass has read when it is in state `st` after `n` steps.
spec fn server_read(st: ServerScan, n: int) -> int {
    if server_done(st) { st.first_one_rtt_sent->Some_0.index + 1 } else { n }
}

spec fn server_inv(ev: Seq<QlogRecord>, hs: u64, n: int, st: ServerScan) -> bool {
    let read = server_read(st, n);
    &&& read <= n
    &&& forall|k: int| 0 <= k < read ==> #[trigger] is_qlog(ev[k])
    &&& st.last_key == prev_key(ev, read)
    &&& forall|k: int|
        0 <= k < read && (received_packet(ev[k], PacketKind::Handshake) || sent_packet(ev[k], PacketKind::OneRtt))
            ==> #[trigger] time_key(ev[k]) >= prev_key(ev, k)
    &&& st.first_one_rtt_sent is Some ==> st.handshake_received is Some
    &&& match st.handshake_received {
        Some(h) => {
            &&& h.index < read
            &&& received_packet(ev[h.index as int], PacketKind::Handshake)
            &&& packet_number(ev[h.index as int]) == Some(hs)
            &&& h.number == hs
            &&& match st.first_one_rtt_sent {
                Some(o) => {
                    &&& h.index < o.index
                    &&& sent_packet(ev[o.index as int], PacketKind::OneRtt)
                    &&& packet_number(ev[o.index as int]) == Some(o.number)
                    &&& forall|k: int| h.index < k < o.index ==> !#[trigger] sent_packet(ev[k], PacketKind::OneRtt)
                },
                None => forall|k: int| h.index < k < n ==> !#[trigger] sent_packet(ev[k], PacketKind::OneRtt),
            }
        },
        None => true,
    }
}

proof fn lemma_server_inv(ev: Seq<QlogRecord>, hs: u64, n: nat)
    requires
        n <= ev.len(),
        ev.len() <= usize::MAX,
        server_scan(ev, hs, n) is Ok,
    ensures
        server_inv(ev, hs, n as int, server_scan(ev, hs, n)->Ok_0),
    decreases n,
{
    if n > 0 {
        lemma_server_inv(ev, hs, (n - 1) as nat);
        let prev = server_scan(ev, hs, (n - 1) as nat)->Ok_0;
        if !server_done(prev) {
            let k = n - 1;
            assert(is_qlog(ev[k]));
            assert(prev_key(ev, k) == prev.last_key);
        }
    }
}

spec fn receipt_inv(ev: Seq<QlogRecord>, target: u64, n: int, found: Option<usize>) -> bool {
    match found {
        Some(i) => {
            &&& i < n
            &&& received_packet(ev[i as int], PacketKind::OneRtt)
            &&& packet_number(ev[i as int]) == Some(target)
            &&& forall|k: int| 0 <= k < i ==>
                !(#[trigger] received_packet(ev[k], PacketKind::OneRtt) && packet_number(ev[k]) == Some(target))
        },
        None => forall|k: int| 0 <= k < n ==>
            !(#[trigger] received_packet(ev[k], PacketKind::OneRtt) && packet_number(ev[k]) == Some(target)),
    }
}

proof fn lemma_receipt_inv(ev: Seq<QlogRecord>, target: u64, n: nat)
    requires
        n <= ev.len(),
        ev.len() <= usize::MAX,
        receipt_scan(ev, target, n) is Ok,
    ensures
        receipt_inv(ev, target, n as int, receipt_scan(ev, target, n)->Ok_0),
    decreases n,
{
    if n > 0 {
        lemma_receipt_inv(ev, target, (n - 1) as nat);
        let prev = receipt_scan(ev, target, (n - 1) as nat)->Ok_0;
        if prev is None {
            let r = ev[n - 1];
            assert(receipt_scan(ev, target, n) == crate::latency::receipt_step(target, n - 1, r));
            let cur = receipt_scan(ev, target, n)->Ok_0;
            if cur is Some {
                assert(cur == Some((n - 1) as usize));
                assert(received_packet(r, PacketKind::OneRtt));
            } else {
                assert(!(received_packet(r, PacketKind::OneRtt) && packet_number(r) == Some(target)));
            }
        }
    }
}

/// The start of a measured span is the client's first Initial packet sent:
/// that record is an Initial packet sent, and no record before it is one.
pub proof fn lemma_span_start_is_first_initial(client: Seq<QlogRecord>, server: Seq<QlogRecord>)
    requires
        client.len() <= usize::MAX,
        server.len() <= usize::MAX,
        handshake_outcome(client, server) is Ok,
    ensures
        ({
            let span = handshake_outcome(client, server)->Ok_0;
            &&& span.start < client.len()
            &&& sent_packet(client[span.start as int], PacketKind::Initial)
            &&& packet_number(client[span.start as int]) is Some
            &&& forall|k: int| 0 <= k < span.start ==> !#[trigger] sent_packet(client[k], PacketKind::Initial)
        }),
{
    lemma_client_inv(client, client.len());
}

/// The end of a measured span is the client's first receipt of the server's
/// first 1-RTT packet sent after the server received the client's last
/// Handshake packet: there is a last client Handshake packet sent (index `m`),
/// a server receipt of a packet with its number (index `h`), and after it the
/// server's 1-RTT packet (index `j`, with no 1-RTT packet sent in between)
/// whose number the client receives first at `span.end`.
pub proof fn lemma_span_end_answers_last_handshake(client: Seq<QlogRecord>, server: Seq<QlogRecord>)
    requires
        client.len() <= usize::MAX,
        server.len() <= usize::MAX,
        handshake_outcome(client, server) is Ok,
    ensures
        ({
            let span = handshake_outcome(client, server)->Ok_0;
            &&& span.end < client.len()
            &&& received_packet(client[span.end as int], PacketKind::OneRtt)
            &&& packet_number(client[span.end as int]) is Some
            &&& forall|k: int| 0 <= k < span.end ==>
                !(#[trigger] received_packet(client[k], PacketKind::OneRtt)
                    && packet_number(client[k]) == packet_number(client[span.end as int]))
            &&& exists|m: int, h: int, j: int| {
                &&& 0 <= m < client.len()
                &&& #[trigger] sent_packet(client[m], PacketKind::Handshake)
                &&& forall|k: int| m < k < client.len() ==> !#[trigger] sent_packet(client[k], PacketKind::Handshake)
                &&& 0 <= h < j < server.len()
                &&& #[trigger] received_packet(server[h], PacketKind::Handshake)
                &&& packet_number(server[h]) == packet_number(client[m])
                &&& packet_number(client[m]) is Some
                &&& #[trigger] sent_packet(server[j], PacketKind::OneRtt)
                &&& forall|k: int| h < k < j ==> !#[trigger] sent_packet(server[k], PacketKind::OneRtt)
                &&& packet_number(server[j]) == packet_number(client[span.end as int])
            }
        }),
{
    lemma_client_inv(client, client.len());
    let c = client_scan(client, client.len())->Ok_0;
    let hs = c.last_handshake->Some_0;
    lemma_server_inv(server, hs.number, server.len());
    let s = server_scan(server, hs.number, server.len())->Ok_0;
    let o = s.first_one_rtt_sent->Some_0;
    let h = s.handshake_received->Some_0;
    lemma_receipt_inv(client, o.number, client.len());
    let m = hs.index as int;
    assert(sent_packet(client[m], PacketKind::Handshake));
    assert(received_packet(server[h.index as int], PacketKind::Handshake));
    assert(sent_packet(server[o.index as int], PacketKind::OneRtt));
}

/// The errors that each pass can stop with.
proof fn lemma_pass_errors(client: Seq<QlogRecord>, server: Seq<QlogRecord>, hs: u64, target: u64, n: nat, m: nat)
    ensures
        client_scan(client, n) matches Err(Halt::Fail(e)) ==> e == QlogError::UnexpectedClientRecord
            || e == QlogError::ClientOutOfOrder,
        server_scan(server, hs, m) matches Err(Halt::Fail(e)) ==> e == QlogError::UnexpectedServerRecord
            || e == QlogError::ServerOutOfOrder,
        receipt_scan(client, target, n) matches Err(Halt::Fail(e)) ==> e == QlogError::UnexpectedClientRecord,
    decreases n + m,
{
    if n > 0 {
        lemma_pass_errors(client, server, hs, target, (n - 1) as nat, m);
    }
    if m > 0 {
        lemma_pass_errors(client, server, hs, target, n, (m - 1) as nat);
    }
}

/// The scan never ends with `NoServerHandshakeReceived`: the server pass only
/// records a 1-RTT packet sent after it has recorded the Handshake receipt.
pub proof fn lemma_no_missing_handshake_receipt(client: Seq<QlogRecord>, server: Seq<QlogRecord>)
    requires
        client.len() <= usize::MAX,
        server.len() <= usize::MAX,
    ensures
        handshake_outcome(client, server)
            != Err::<HandshakeSpan, Halt>(Halt::Fail(QlogError::NoServerHandshakeReceived)),
{
    lemma_pass_errors(client, server, 0, 0, client.len(), 0);
    if client_scan(client, client.len()) is Ok {
        let c = client_scan(client, client.len())->Ok_0;
        if c.last_handshake is Some {
            let hs = c.last_handshake->Some_0;
            lemma_pass_errors(client, server, hs.number, 0, 0, server.len());
            if server_scan(server, hs.number, server.len()) is Ok {
                let st = server_scan(server, hs.number, server.len())->Ok_0;
                if st.first_one_rtt_sent is Some {
                    lemma_pass_errors(client, server, 0, st.first_one_rtt_sent->Some_0.number, client.len(), 0);
                }
            }
            if server_scan(server, hs.number, server.len()) is Ok {
                lemma_server_inv(server, hs.number, server.len());
                let st = server_scan(server, hs.number, server.len())->Ok_0;
                assert(st.first_one_rtt_sent is Some ==> st.handshake_received is Some);
            }
        }
    }
}

/// A measured span certifies the order checks: every record of the client
/// log is a qlog event, and each client Initial or Handshake packet sent is
/// no earlier than the record before it (or than time zero, for the first).
pub proof fn lemma_span_client_in_order(client: Seq<QlogRecord>, server: Seq<QlogRecord>)
    requires
        client.len() <= usize::MAX,
        server.len() <= usize::MAX,
        handshake_outcome(client, server) is Ok,
    ensures
        forall|k: int| 0 <= k < client.len() ==> #[trigger] is_qlog(client[k]),
        forall|k: int|
            0 <= k < client.len()
                && (sent_packet(client[k], PacketKind::Initial) || sent_packet(client[k], PacketKind::Handshake))
                ==> #[trigger] time_key(client[k]) >= prev_key(client, k),
{
    lemma_client_inv(client, client.len());
}

/// A measured span certifies the server order checks up to the server's
/// 1-RTT packet it rests on: some index `j` holds a 1-RTT packet sent, every
/// record up to it is a qlog event, and each Handshake packet received or
/// 1-RTT packet sent up to it is no earlier than the record before it.
pub proof fn lemma_span_server_in_order(client: Seq<QlogRecord>, server: Seq<QlogRecord>)
    requires
        client.len() <= usize::MAX,
        server.len() <= usize::MAX,
        handshake_outcome(client, server) is Ok,
    ensures
        exists|j: int| {
            &&& 0 <= j < server.len()
            &&& #[trigger] sent_packet(server[j], PacketKind::OneRtt)
            &&& forall|k: int| 0 <= k <= j ==> #[trigger] is_qlog(server[k])
            &&& forall|k: int|
                0 <= k <= j
                    && (received_packet(server[k], PacketKind::Handshake) || sent_packet(server[k], PacketKind::OneRtt))
                    ==> #[trigger] time_key(server[k]) >= prev_key(server, k)
        },
{
    lemma_client_inv(client, client.len());
    let c = client_scan(client, client.len())->Ok_0;
    let hs = c.last_handshake->Some_0;
    lemma_server_inv(server, hs.number, server.len());
    let s = server_scan(server, hs.number, server.len())->Ok_0;
    let o = s.first_one_rtt_sent->Some_0;
    assert(sent_packet(server[o.index as int], PacketKind::OneRtt));
}

/// The client log is fit for the first pass: every record is a qlog event,
/// each Initial or Handshake packet sent is numbered and no earlier than the
/// record before it, and each 1-RTT packet received is numbered.
pub open spec fn client_log_ok(client: Seq<QlogRecord>) -> bool {
    &&& forall|k: int| 0 <= k < client.len() ==> #[trigger] is_qlog(client[k])
    &&& forall|k: int|
        0 <= k < client.len() && (sent_packet(client[k], PacketKind::Initial) || sent_packet(client[k], PacketKind::Handshake))
            ==> #[trigger] time_key(client[k]) >= prev_key(client, k) && packet_number(client[k]) is Some
    &&& forall|k: int|
        0 <= k < client.len() && #[trigger] received_packet(client[k], PacketKind::OneRtt) ==> packet_number(client[k]) is Some
}

/// The server log is fit for its pass up to record `j`: every record up to
/// it is a qlog event, and each Handshake packet received or 1-RTT packet
/// sent up to it is numbered and no earlier than the record before it.
pub open spec fn server_log_ok(server: Seq<QlogRecord>, j: int) -> bool {
    &&& forall|k: int| 0 <= k <= j ==> #[trigger] is_qlog(server[k])
    &&& forall|k: int|
        0 <= k <= j && (received_packet(server[k], PacketKind::Handshake) || sent_packet(server[k], PacketKind::OneRtt))
            ==> #[trigger] time_key(server[k]) >= prev_key(server, k) && packet_number(server[k]) is Some
}

proof fn lemma_client_pass_ok(client: Seq<QlogRecord>, n: nat)
    requires
        n <= client.len(),
        client.len() <= usize::MAX,
        client_log_ok(client),
    ensures
        client_scan(client, n) is Ok,
    decreases n,
{
    if n > 0 {
        lemma_client_pass_ok(client, (n - 1) as nat);
        lemma_client_inv(client, (n - 1) as nat);
        let k = n - 1;
        assert(is_qlog(client[k]));
        if sent_packet(client[k], PacketKind::Initial) || sent_packet(client[k], PacketKind::Handshake) {
            assert(time_key(client[k]) >= prev_key(client, k));
        }
    }
}

proof fn lemma_server_pass_prefix(server: Seq<QlogRecord>, hs: u64, h: int, j: int, n: nat)
    requires
        0 <= h < j < server.len(),
        server.len() <= usize::MAX,
        n <= j,
        server_log_ok(server, j),
        received_packet(server[h], PacketKind::Handshake),
        packet_number(server[h]) == Some(hs),
        forall|k: int| 0 <= k < h ==> !(#[trigger] received_packet(server[k], PacketKind::Handshake) && packet_number(server[k]) == Some(hs)),
        forall|k: int| h < k < j ==> !#[trigger] sent_packet(server[k], PacketKind::OneRtt),
    ensures
        server_scan(server, hs, n) is Ok,
        server_scan(server, hs, n)->Ok_0.first_one_rtt_sent is None,
        server_scan(server, hs, n)->Ok_0.handshake_received is Some <==> n > h,
    decreases n,
{
    if n > 0 {
        lemma_server_pass_prefix(server, hs, h, j, (n - 1) as nat);
        lemma_server_inv(server, hs, (n - 1) as nat);
        let k = n - 1;
        assert(is_qlog(server[k]));
        if received_packet(server[k], PacketKind::Handshake) || sent_packet(server[k], PacketKind::OneRtt) {
            assert(time_key(server[k]) >= prev_key(server, k));
        }
        if k < h && received_packet(server[k], PacketKind::Handshake) {
            assert(!(received_packet(server[k], PacketKind::Handshake) && packet_number(server[k]) == Some(hs)));
        }
        if k > h {
            assert(!sent_packet(server[k], PacketKind::OneRtt));
        }
    }
}

/// When a span is owed: if the client log is fit for its passes, `i0` is its
/// first Initial packet sent and `m` its last Handshake packet sent; the
/// server log is fit up to `j`, where `h` is the server's first receipt of a
/// packet numbered as the client's last Handshake packet and `j` the first
/// 1-RTT packet the server sent after it; and `e` is the client's first
/// receipt of a 1-RTT packet with `j`'s number; then the scan gives the span
/// from `i0` to `e`.
pub proof fn lemma_span_owed(client: Seq<QlogRecord>, server: Seq<QlogRecord>, i0: int, m: int, h: int, j: int, e: int)
    requires
        client.len() <= usize::MAX,
        server.len() <= usize::MAX,
        client_log_ok(client),
        0 <= i0 < client.len(),
        sent_packet(client[i0], PacketKind::Initial),
        forall|k: int| 0 <= k < i0 ==> !#[trigger] sent_packet(client[k], PacketKind::Initial),
        0 <= m < client.len(),
        sent_packet(client[m], PacketKind::Handshake),
        forall|k: int| m < k < client.len() ==> !#[trigger] sent_packet(client[k], PacketKind::Handshake),
        0 <= h < j < server.len(),
        server_log_ok(server, j),
        received_packet(server[h], PacketKind::Handshake),
        packet_number(server[h]) == packet_number(client[m]),
        forall|k: int| 0 <= k < h ==>
            !(#[trigger] received_packet(server[k], PacketKind::Handshake) && packet_number(server[k]) == packet_number(client[m])),
        sent_packet(server[j], PacketKind::OneRtt),
        forall|k: int| h < k < j ==> !#[trigger] sent_packet(server[k], PacketKind::OneRtt),
        0 <= e < client.len(),
        received_packet(client[e], PacketKind::OneRtt),
        packet_number(client[e]) == packet_number(server[j]),
        forall|k: int| 0 <= k < e ==>
            !(#[trigger] received_packet(client[k], PacketKind::OneRtt) && packet_number(client[k]) == packet_number(server[j])),
    ensures
        handshake_outcome(client, server) == Ok::<HandshakeSpan, Halt>(HandshakeSpan { start: i0 as usize, end: e as usize }),
{
    // The first client pass.
    lemma_client_pass_ok(client, client.len());
    lemma_client_inv(client, client.len());
    let c = client_scan(client, client.len())->Ok_0;
    assert(sent_packet(client[m], PacketKind::Handshake) && packet_number(client[m]) is Some);
    assert(sent_packet(client[i0], PacketKind::Initial));
    let fi = c.first_initial->Some_0;
    let lh = c.last_handshake->Some_0;
    if (fi.index as int) < i0 {
        assert(!sent_packet(client[fi.index as int], PacketKind::Initial));
    }
    if (fi.index as int) > i0 {
        assert(!sent_packet(client[i0], PacketKind::Initial));
    }
    if (lh.index as int) < m {
        assert(!sent_packet(client[m], PacketKind::Handshake));
    }
    if (lh.index as int) > m {
        assert(!sent_packet(client[lh.index as int], PacketKind::Handshake));
    }
    assert(fi.index == i0 && lh.index == m);
    let hs = lh.number;
    // The server pass, up to its first 1-RTT packet after the receipt.
    lemma_server_pass_prefix(server, hs, h, j, j as nat);
    lemma_server_inv(server, hs, j as nat);
    let sj = server_scan(server, hs, j as nat)->Ok_0;
    assert(is_qlog(server[j]));
    assert(time_key(server[j]) >= prev_key(server, j) && packet_number(server[j]) is Some);
    let s1 = server_scan(server, hs, (j + 1) as nat)->Ok_0;
    assert(server_scan(server, hs, (j + 1) as nat) is Ok);
    assert(s1.first_one_rtt_sent == Some(crate::latency::Mark { number: packet_number(server[j])->Some_0, index: j as usize }));
    assert(server_done(s1));
    lemma_server_scan_done(server, hs, (j + 1) as nat, server.len());
    let target = packet_number(server[j])->Some_0;
    // The second client pass.
    lemma_receipt_prefix(client, target, e, e as nat);
    assert(is_qlog(client[e]));
    assert(receipt_scan(client, target, (e + 1) as nat) == Ok::<Option<usize>, Halt>(Some(e as usize)));
    lemma_receipt_scan_stops(client, target, (e + 1) as nat, client.len());
}

proof fn lemma_receipt_prefix(client: Seq<QlogRecord>, target: u64, e: int, n: nat)
    requires
        0 <= e < client.len(),
        n <= e,
        client_log_ok(client),
        forall|k: int| 0 <= k < e ==>
            !(#[trigger] received_packet(client[k], PacketKind::OneRtt) && packet_number(client[k]) == Some(target)),
    ensures
        receipt_scan(client, target, n) == Ok::<Option<usize>, Halt>(None),
    decreases n,
{
    if n > 0 {
        lemma_receipt_prefix(client, target, e, (n - 1) as nat);
        let k = n - 1;
        assert(is_qlog(client[k]));
        if received_packet(client[k], PacketKind::OneRtt) {
            assert(packet_number(client[k]) is Some);
        }
    }
}

/// Two sequences agree on their first `n` records.
pub open spec fn same_prefix(a: Seq<QlogRecord>, b: Seq<QlogRecord>, n: int) -> bool {
    &&& n <= a.len()
    &&& n <= b.len()
    &&& forall|i: int| 0 <= i < n ==> a[i] == b[i]
}

proof fn lemma_server_scan_prefix(a: Seq<QlogRecord>, b: Seq<QlogRecord>, hs: u64, n: nat)
    requires
        same_prefix(a, b, n as int),
    ensures
        server_scan(a, hs, n) == server_scan(b, hs, n),
    decreases n,
{
    if n > 0 {
        lemma_server_scan_prefix(a, b, hs, (n - 1) as nat);
        assert(a[n - 1] == b[n - 1]);
    }
}

/// Server records after the selected 1-RTT packet never change the outcome:
/// once the server pass over the first `n` records has found both the
/// receipt of the client's last Handshake packet and the 1-RTT packet sent
/// after it, the outcome on those `n` records, on the whole log, and on those
/// `n` records followed by any records at all is the same.
pub proof fn lemma_server_tail_ignored(client: Seq<QlogRecord>, server: Seq<QlogRecord>, n: nat, tail: Seq<QlogRecord>)
    requires
        n <= server.len(),
        client_stage(client) is Ok,
        server_scan(server, client_stage(client)->Ok_0.last_handshake->Some_0.number, n) is Ok,
        server_done(server_scan(server, client_stage(client)->Ok_0.last_handshake->Some_0.number, n)->Ok_0),
    ensures
        handshake_outcome(client, server.take(n as int) + tail) == handshake_outcome(client, server.take(n as int)),
        handshake_outcome(client, server) == handshake_outcome(client, server.take(n as int)),
{
    let hs = client_stage(client)->Ok_0.last_handshake->Some_0.number;
    let pre = server.take(n as int);
    let ext = pre + tail;
    assert(same_prefix(server, pre, n as int));
    assert(same_prefix(server, ext, n as int));
    lemma_server_scan_prefix(server, pre, hs, n);
    lemma_server_scan_prefix(server, ext, hs, n);
    lemma_server_scan_done(server, hs, n, server.len());
    lemma_server_scan_done(pre, hs, n, pre.len());
    lemma_server_scan_done(ext, hs, n, ext.len());
}

/// Two logs with the same records but for their time keys.
pub open spec fn same_but_times(a: Seq<QlogRecord>, b: Seq<QlogRecord>) -> bool {
    &&& a.len() == b.len()
    &&& forall|i: int| 0 <= i < a.len() ==> match (#[trigger] a[i], b[i]) {
        (QlogRecord::Qlog(x), QlogRecord::Qlog(y)) => x.body == y.body,
        (QlogRecord::Json, QlogRecord::Json) => true,
        _ => false,
    }
}

/// Each record's time key is no smaller than the one before it (or than
/// time zero, for the first).
pub open spec fn keys_in_order(a: Seq<QlogRecord>) -> bool {
    forall|i: int| 0 <= i < a.len() ==> #[trigger] time_key(a[i]) >= prev_key(a, i)
}

spec fn scans_agree(r1: Result<ServerScan, Halt>, r2: Result<ServerScan, Halt>) -> bool {
    match (r1, r2) {
        (Err(h1), Err(h2)) => h1 == h2,
        (Ok(x), Ok(y)) => x.handshake_received == y.handshake_received && x.first_one_rtt_sent == y.first_one_rtt_sent,
        _ => false,
    }
}

proof fn lemma_server_scans_agree(a: Seq<QlogRecord>, b: Seq<QlogRecord>, hs: u64, n: nat)
    requires
        n <= a.len(),
        a.len() <= usize::MAX,
        same_but_times(a, b),
        keys_in_order(a),
        keys_in_order(b),
    ensures
        scans_agree(server_scan(a, hs, n), server_scan(b, hs, n)),
    decreases n,
{
    if n > 0 {
        lemma_server_scans_agree(a, b, hs, (n - 1) as nat);
        let k = n - 1;
        let ra = server_scan(a, hs, (n - 1) as nat);
        let rb = server_scan(b, hs, (n - 1) as nat);
        if ra is Ok {
            lemma_server_inv(a, hs, (n - 1) as nat);
            lemma_server_inv(b, hs, (n - 1) as nat);
            assert(time_key(a[k]) >= prev_key(a, k));
            assert(time_key(b[k]) >= prev_key(b, k));
            let x = a[k];
            let y = b[k];
            assert(match (x, y) {
                (QlogRecord::Qlog(p), QlogRecord::Qlog(q)) => p.body == q.body,
                (QlogRecord::Json, QlogRecord::Json) => true,
                _ => false,
            });
        }
    }
}

/// Server times never reach the outcome: two server logs with the same
/// records but for their time keys, each in order, give the same outcome
/// with any client log.
pub proof fn lemma_server_times_ignored(client: Seq<QlogRecord>, s1: Seq<QlogRecord>, s2: Seq<QlogRecord>)
    requires
        s1.len() <= usize::MAX,
        same_but_times(s1, s2),
        keys_in_order(s1),
        keys_in_order(s2),
    ensures
        handshake_outcome(client, s1) == handshake_outcome(client, s2),
{
    if client_stage(client) is Ok {
        let hs = client_stage(client)->Ok_0.last_handshake->Some_0.number;
        lemma_server_scans_agree(s1, s2, hs, s1.len());
    }
}

} // verus!
