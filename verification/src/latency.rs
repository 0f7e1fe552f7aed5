//! Handshake latency from a client and a server qlog.
//!
//! The latency is the time between the client's first Initial packet sent and
//! the client's receipt of the server's first 1-RTT packet. The server's first
//! 1-RTT packet is found by matching the client's last Handshake packet in the
//! server log. This module picks the two client events; their times are kept
//! by the caller, which subtracts them.
use vstd::prelude::*;

verus! {

/// Packet number space of a QUIC packet, as the qlog header names it.
#[derive(Clone, Copy, Debug, PartialEq, Eq, Structural)]
pub enum PacketKind {
    Initial,
    Handshake,
    OneRtt,
    Other,
}

/// Whether the logging endpoint sent or received the packet.
#[derive(Clone, Copy, Debug, PartialEq, Eq, Structural)]
pub enum Direction {
    Sent,
    Received,
}

/// What a qlog event says, as far as the latency scan reads it.
#[derive(Clone, Copy, Debug)]
pub enum EventBody {
    /// A `transport:packet_sent` or `transport:packet_received` event.
    Packet { direction: Direction, kind: PacketKind, number: Option<u64> },
    /// Any other event.
    Other,
}

/// A qlog event. `time_key` is an integer that orders events as their times
/// do (a smaller key is an earlier time, equal keys are equal times), with
/// key 0 standing for time 0.
#[derive(Clone, Copy, Debug)]
pub struct QlogEvent {
    pub time_key: i64,
    pub body: EventBody,
}

/// One record of a JSON-SEQ qlog file: a qlog event, or a JSON record that
/// is no qlog event.
#[derive(Clone, Copy, Debug)]
pub enum QlogRecord {
    Qlog(QlogEvent),
    Json,
}

/// Why no handshake latency can be measured.
#[derive(Clone, Copy, Debug, PartialEq, Eq, Structural)]
pub enum QlogError {
    /// The client log holds a record that is no qlog event.
    UnexpectedClientRecord,
    /// A client Initial or Handshake packet was sent before the event that precedes it.
    ClientOutOfOrder,
    /// The client log has no Handshake packet sent.
    NoClientHandshakeSent,
    /// The server log holds a record that is no qlog event.
    UnexpectedServerRecord,
    /// A server Handshake packet received or 1-RTT packet sent precedes the event before it.
    ServerOutOfOrder,
    /// The server sent no 1-RTT packet after receiving the client's last Handshake packet.
    NoServerOneRttSent,
    /// The server never received the client's last Handshake packet.
    NoServerHandshakeReceived,
    /// The client log has no Initial packet sent.
    NoClientInitialSent,
    /// The client never received the server's first 1-RTT packet.
    NoClientOneRttReceived,
}

impl QlogError {
    /// The error message, as the measurement tool reports it.
    pub fn message(&self) -> (m: &'static str)
        ensures
            m@ == error_message(*self),
    {
        match self {
            QlogError::UnexpectedClientRecord => "unexpected non-qlog event in client file",
            QlogError::ClientOutOfOrder => "client qlog events are out of order",
            QlogError::NoClientHandshakeSent => "could not find client_last_handshake_pkt_sent",
            QlogError::UnexpectedServerRecord => "unexpected non-qlog event in server file",
            QlogError::ServerOutOfOrder => "server qlog events are out of order",
            QlogError::NoServerOneRttSent => "could not find server_first_1rtt_pkt_sent",
            QlogError::NoServerHandshakeReceived =>
                "could not find server_last_handshake_pkt_received",
            QlogError::NoClientInitialSent => "could not find client_first_initial_pkt_sent",
            QlogError::NoClientOneRttReceived => "could not find client_first_1rtt_pkt_received",
        }
    }
}

/// The message of each error.
pub open spec fn error_message(e: QlogError) -> Seq<char> {
    match e {
        QlogError::UnexpectedClientRecord => "unexpected non-qlog event in client file"@,
        QlogError::ClientOutOfOrder => "client qlog events are out of order"@,
        QlogError::NoClientHandshakeSent => "could not find client_last_handshake_pkt_sent"@,
        QlogError::UnexpectedServerRecord => "unexpected non-qlog event in server file"@,
        QlogError::ServerOutOfOrder => "server qlog events are out of order"@,
        QlogError::NoServerOneRttSent => "could not find server_first_1rtt_pkt_sent"@,
        QlogError::NoServerHandshakeReceived =>
            "could not find server_last_handshake_pkt_received"@,
        QlogError::NoClientInitialSent => "could not find client_first_initial_pkt_sent"@,
        QlogError::NoClientOneRttReceived => "could not find client_first_1rtt_pkt_received"@,
    }
}

/// A packet found in a log: its packet number and the index of its record.
#[derive(Clone, Copy, Debug, PartialEq, Eq, Structural)]
pub struct Mark {
    pub number: u64,
    pub index: usize,
}

/// The two client records whose times give the handshake latency: `start`
/// is the first Initial packet sent, `end` the receipt of the server's first
/// 1-RTT packet. Both are indices into the client records.
#[derive(Clone, Copy, Debug, PartialEq, Eq, Structural)]
pub struct HandshakeSpan {
    pub start: usize,
    pub end: usize,
}

/// How a scan stops early: with an error, or on a packet without a packet
/// number where one is needed (there the measurement cannot go on).
#[derive(Clone, Copy, Debug, PartialEq, Eq, Structural)]
pub enum Halt {
    Fail(QlogError),
    Unnumbered,
}

/// State of the first pass over the client log.
#[derive(Clone, Copy, Debug)]
pub struct ClientScan {
    pub first_initial: Option<Mark>,
    pub last_handshake: Option<Mark>,
    pub last_key: i64,
}

/// State of the pass over the server log.
#[derive(Clone, Copy, Debug)]
pub struct ServerScan {
    pub handshake_received: Option<Mark>,
    pub first_one_rtt_sent: Option<Mark>,
    pub last_key: i64,
}

pub open spec fn client_scan_start() -> ClientScan {
    ClientScan { first_initial: None, last_handshake: None, last_key: 0 }
}

pub open spec fn server_scan_start() -> ServerScan {
    ServerScan { handshake_received: None, first_one_rtt_sent: None, last_key: 0 }
}

/// One step of the first client pass, on record `i`.
pub open spec fn client_step(st: ClientScan, i: int, r: QlogRecord) -> Result<ClientScan, Halt> {
    match r {
        QlogRecord::Json => Err(Halt::Fail(QlogError::UnexpectedClientRecord)),
        QlogRecord::Qlog(e) => {
            let late = e.time_key < st.last_key;
            let next: Result<ClientScan, Halt> = match e.body {
                EventBody::Packet { direction: Direction::Sent, kind: PacketKind::Initial, number } => {
                    if late {
                        Err(Halt::Fail(QlogError::ClientOutOfOrder))
                    } else if st.first_initial is Some {
                        Ok(st)
                    } else {
                        match number {
                            Some(n) => Ok(ClientScan {
                                first_initial: Some(Mark { number: n, index: i as usize }),
                                last_handshake: st.last_handshake,
                                last_key: st.last_key,
                            }),
                            None => Err(Halt::Unnumbered),
                        }
                    }
                },
                EventBody::Packet { direction: Direction::Sent, kind: PacketKind::Handshake, number } => {
                    if late {
                        Err(Halt::Fail(QlogError::ClientOutOfOrder))
                    } else {
                        match number {
                            Some(n) => Ok(ClientScan {
                                first_initial: st.first_initial,
                                last_handshake: Some(Mark { number: n, index: i as usize }),
                                last_key: st.last_key,
                            }),
                            None => Err(Halt::Unnumbered),
                        }
                    }
                },
                _ => Ok(st),
            };
            match next {
                Ok(s) => Ok(ClientScan {
                    first_initial: s.first_initial,
                    last_handshake: s.last_handshake,
                    last_key: e.time_key,
                }),
                Err(h) => Err(h),
            }
        },
    }
}

/// The first client pass over the first `n` records.
pub open spec fn client_scan(events: Seq<QlogRecord>, n: nat) -> Result<ClientScan, Halt>
    decreases n,
{
    if n == 0 {
        Ok(client_scan_start())
    } else {
        match client_scan(events, (n - 1) as nat) {
            Ok(st) => client_step(st, n - 1, events[n - 1]),
            Err(h) => Err(h),
        }
    }
}

/// Whether the server pass has found both packets and stops.
pub open spec fn server_done(st: ServerScan) -> bool {
    st.handshake_received is Some && st.first_one_rtt_sent is Some
}

/// One step of the server pass on record `i`; `hs` is the packet number of the
/// client's last Handshake packet.
pub open spec fn server_step(st: ServerScan, hs: u64, i: int, r: QlogRecord) -> Result<ServerScan, Halt> {
    match r {
        QlogRecord::Json => Err(Halt::Fail(QlogError::UnexpectedServerRecord)),
        QlogRecord::Qlog(e) => {
            let late = e.time_key < st.last_key;
            let next: Result<ServerScan, Halt> = match e.body {
                EventBody::Packet { direction: Direction::Received, kind: PacketKind::Handshake, number } => {
                    if late {
                        Err(Halt::Fail(QlogError::ServerOutOfOrder))
                    } else {
                        match number {
                            Some(n) => if n == hs {
                                Ok(ServerScan {
                                    handshake_received: Some(Mark { number: n, index: i as usize }),
                                    first_one_rtt_sent: st.first_one_rtt_sent,
                                    last_key: st.last_key,
                                })
                            } else {
                                Ok(st)
                            },
                            None => Err(Halt::Unnumbered),
                        }
                    }
                },
                EventBody::Packet { direction: Direction::Sent, kind: PacketKind::OneRtt, number } => {
                    if late {
                        Err(Halt::Fail(QlogError::ServerOutOfOrder))
                    } else if st.handshake_received is Some && st.first_one_rtt_sent is None {
                        match number {
                            Some(n) => Ok(ServerScan {
                                handshake_received: st.handshake_received,
                                first_one_rtt_sent: Some(Mark { number: n, index: i as usize }),
                                last_key: st.last_key,
                            }),
                            None => Err(Halt::Unnumbered),
                        }
                    } else {
                        Ok(st)
                    }
                },
                _ => Ok(st),
            };
            match next {
                Ok(s) => Ok(ServerScan {
                    handshake_received: s.handshake_received,
                    first_one_rtt_sent: s.first_one_rtt_sent,
                    last_key: e.time_key,
                }),
                Err(h) => Err(h),
            }
        },
    }
}

/// The server pass over the first `n` records; once both packets are found
/// the pass reads no further record.
pub open spec fn server_scan(events: Seq<QlogRecord>, hs: u64, n: nat) -> Result<ServerScan, Halt>
    decreases n,
{
    if n == 0 {
        Ok(server_scan_start())
    } else {
        match server_scan(events, hs, (n - 1) as nat) {
            Ok(st) => if server_done(st) {
                Ok(st)
            } else {
                server_step(st, hs, n - 1, events[n - 1])
            },
            Err(h) => Err(h),
        }
    }
}

/// One step of the second client pass on record `i`: look for the receipt of
/// the 1-RTT packet numbered `target`.
pub open spec fn receipt_step(target: u64, i: int, r: QlogRecord) -> Result<Option<usize>, Halt> {
    match r {
        QlogRecord::Json => Err(Halt::Fail(QlogError::UnexpectedClientRecord)),
        QlogRecord::Qlog(e) => match e.body {
            EventBody::Packet { direction: Direction::Received, kind: PacketKind::OneRtt, number } =>
                match number {
                    Some(n) => if n == target { Ok(Some(i as usize)) } else { Ok(None) },
                    None => Err(Halt::Unnumbered),
                },
            _ => Ok(None),
        },
    }
}

/// The second client pass over the first `n` records; it stops at the first
/// receipt of packet `target`.
pub open spec fn receipt_scan(events: Seq<QlogRecord>, target: u64, n: nat) -> Result<Option<usize>, Halt>
    decreases n,
{
    if n == 0 {
        Ok(None)
    } else {
        match receipt_scan(events, target, (n - 1) as nat) {
            Ok(Some(i)) => Ok(Some(i)),
            Ok(None) => receipt_step(target, n - 1, events[n - 1]),
            Err(h) => Err(h),
        }
    }
}

/// The first pass over the client log, and the check that it found a
/// Handshake packet sent (the work done before the server log is opened).
pub open spec fn client_stage(client: Seq<QlogRecord>) -> Result<ClientScan, Halt> {
    match client_scan(client, client.len()) {
        Err(h) => Err(h),
        Ok(c) => if c.last_handshake is None {
            Err(Halt::Fail(QlogError::NoClientHandshakeSent))
        } else {
            Ok(c)
        },
    }
}

/// The rest, given the first pass's result `c`: the server pass, then the
/// second client pass, and the checks on what they found.
pub open spec fn server_stage(client: Seq<QlogRecord>, c: ClientScan, server: Seq<QlogRecord>) -> Result<HandshakeSpan, Halt> {
    match server_scan(server, c.last_handshake->Some_0.number, server.len()) {
        Err(h) => Err(h),
        Ok(s) => match s.first_one_rtt_sent {
            None => Err(Halt::Fail(QlogError::NoServerOneRttSent)),
            Some(one_rtt) => if s.handshake_received is None {
                Err(Halt::Fail(QlogError::NoServerHandshakeReceived))
            } else {
                match receipt_scan(client, one_rtt.number, client.len()) {
                    Err(h) => Err(h),
                    Ok(found) => match c.first_initial {
                        None => Err(Halt::Fail(QlogError::NoClientInitialSent)),
                        Some(start) => match found {
                            None => Err(Halt::Fail(QlogError::NoClientOneRttReceived)),
                            Some(end) => Ok(HandshakeSpan { start: start.index, end }),
                        },
                    },
                }
            },
        },
    }
}

/// What the three passes give on a client log and a server log.
pub open spec fn handshake_outcome(client: Seq<QlogRecord>, server: Seq<QlogRecord>) -> Result<HandshakeSpan, Halt> {
    match client_stage(client) {
        Err(h) => Err(h),
        Ok(c) => server_stage(client, c, server),
    }
}

/// Whether the scan reaches a packet without a packet number where it needs one.
pub open spec fn reaches_unnumbered(client: Seq<QlogRecord>, server: Seq<QlogRecord>) -> bool {
    handshake_outcome(client, server) == Err::<HandshakeSpan, Halt>(Halt::Unnumbered)
}

/// Once a pass has stopped, reading more records keeps the same stop.
proof fn lemma_client_scan_halts(events: Seq<QlogRecord>, k: nat, m: nat)
    requires
        k <= m,
        client_scan(events, k) is Err,
    ensures
        client_scan(events, m) == client_scan(events, k),
    decreases m - k,
{
    if m > k {
        lemma_client_scan_halts(events, k, (m - 1) as nat);
    }
}

proof fn lemma_server_scan_halts(events: Seq<QlogRecord>, hs: u64, k: nat, m: nat)
    requires
        k <= m,
        server_scan(events, hs, k) is Err,
    ensures
        server_scan(events, hs, m) == server_scan(events, hs, k),
    decreases m - k,
{
    if m > k {
        lemma_server_scan_halts(events, hs, k, (m - 1) as nat);
    }
}

pub(crate) proof fn lemma_server_scan_done(events: Seq<QlogRecord>, hs: u64, k: nat, m: nat)
    requires
        k <= m,
        server_scan(events, hs, k) is Ok,
        server_done(server_scan(events, hs, k)->Ok_0),
    ensures
        server_scan(events, hs, m) == server_scan(events, hs, k),
    decreases m - k,
{
    if m > k {
        lemma_server_scan_done(events, hs, k, (m - 1) as nat);
    }
}

pub(crate) proof fn lemma_receipt_scan_stops(events: Seq<QlogRecord>, target: u64, k: nat, m: nat)
    requires
        k <= m,
        receipt_scan(events, target, k) matches Ok(found) ==> found is Some,
    ensures
        receipt_scan(events, target, m) == receipt_scan(events, target, k),
    decreases m - k,
{
    if m > k {
        lemma_receipt_scan_stops(events, target, k, (m - 1) as nat);
    }
}

fn client_step_exec(st: ClientScan, i: usize, r: &QlogRecord) -> (res: Result<ClientScan, Halt>)
    ensures
        res == client_step(st, i as int, *r),
{
    match r {
        QlogRecord::Json => Err(Halt::Fail(QlogError::UnexpectedClientRecord)),
        QlogRecord::Qlog(e) => {
            let late = e.time_key < st.last_key;
            let next: Result<ClientScan, Halt> = match e.body {
                EventBody::Packet { direction: Direction::Sent, kind: PacketKind::Initial, number } => {
                    if late {
                        Err(Halt::Fail(QlogError::ClientOutOfOrder))
                    } else if st.first_initial.is_some() {
                        Ok(st)
                    } else {
                        match number {
                            Some(n) => Ok(ClientScan {
                                first_initial: Some(Mark { number: n, index: i }),
                                last_handshake: st.last_handshake,
                                last_key: st.last_key,
                            }),
                            None => Err(Halt::Unnumbered),
                        }
                    }
                },
                EventBody::Packet { direction: Direction::Sent, kind: PacketKind::Handshake, number } => {
                    if late {
                        Err(Halt::Fail(QlogError::ClientOutOfOrder))
                    } else {
                        match number {
                            Some(n) => Ok(ClientScan {
                                first_initial: st.first_initial,
                                last_handshake: Some(Mark { number: n, index: i }),
                                last_key: st.last_key,
                            }),
                            None => Err(Halt::Unnumbered),
                        }
                    }
                },
                _ => Ok(st),
            };
            match next {
                Ok(s) => Ok(ClientScan {
                    first_initial: s.first_initial,
                    last_handshake: s.last_handshake,
                    last_key: e.time_key,
                }),
                Err(h) => Err(h),
            }
        },
    }
}

fn server_step_exec(st: ServerScan, hs: u64, i: usize, r: &QlogRecord) -> (res: Result<ServerScan, Halt>)
    ensures
        res == server_step(st, hs, i as int, *r),
{
    match r {
        QlogRecord::Json => Err(Halt::Fail(QlogError::UnexpectedServerRecord)),
        QlogRecord::Qlog(e) => {
            let late = e.time_key < st.last_key;
            let next: Result<ServerScan, Halt> = match e.body {
                EventBody::Packet { direction: Direction::Received, kind: PacketKind::Handshake, number } => {
                    if late {
                        Err(Halt::Fail(QlogError::ServerOutOfOrder))
                    } else {
                        match number {
                            Some(n) => if n == hs {
                                Ok(ServerScan {
                                    handshake_received: Some(Mark { number: n, index: i }),
                                    first_one_rtt_sent: st.first_one_rtt_sent,
                                    last_key: st.last_key,
                                })
                            } else {
                                Ok(st)
                            },
                            None => Err(Halt::Unnumbered),
                        }
                    }
                },
                EventBody::Packet { direction: Direction::Sent, kind: PacketKind::OneRtt, number } => {
                    if late {
                        Err(Halt::Fail(QlogError::ServerOutOfOrder))
                    } else if st.handshake_received.is_some() && st.first_one_rtt_sent.is_none() {
                        match number {
                            Some(n) => Ok(ServerScan {
                                handshake_received: st.handshake_received,
                                first_one_rtt_sent: Some(Mark { number: n, index: i }),
                                last_key: st.last_key,
                            }),
                            None => Err(Halt::Unnumbered),
                        }
                    } else {
                        Ok(st)
                    }
                },
                _ => Ok(st),
            };
            match next {
                Ok(s) => Ok(ServerScan {
                    handshake_received: s.handshake_received,
                    first_one_rtt_sent: s.first_one_rtt_sent,
                    last_key: e.time_key,
                }),
                Err(h) => Err(h),
            }
        },
    }
}

fn receipt_step_exec(target: u64, i: usize, r: &QlogRecord) -> (res: Result<Option<usize>, Halt>)
    ensures
        res == receipt_step(target, i as int, *r),
{
    match r {
        QlogRecord::Json => Err(Halt::Fail(QlogError::UnexpectedClientRecord)),
        QlogRecord::Qlog(e) => match e.body {
            EventBody::Packet { direction: Direction::Received, kind: PacketKind::OneRtt, number } =>
                match number {
                    Some(n) => if n == target { Ok(Some(i)) } else { Ok(None) },
                    None => Err(Halt::Unnumbered),
                },
            _ => Ok(None),
        },
    }
}

/// First pass: the client's first Initial and last Handshake packet sent.
fn scan_client(events: &Vec<QlogRecord>) -> (res: Result<ClientScan, Halt>)
    ensures
        res == client_scan(events@, events@.len()),
{
    let mut st = ClientScan { first_initial: None, last_handshake: None, last_key: 0 };
    let mut i: usize = 0;
    while i < events.len()
        invariant
            i <= events@.len(),
            client_scan(events@, i as nat) == Ok::<ClientScan, Halt>(st),
        decreases events@.len() - i,
    {
        match client_step_exec(st, i, &events[i]) {
            Ok(s) => {
                st = s;
            },
            Err(h) => {
                proof {
                    lemma_client_scan_halts(events@, (i + 1) as nat, events@.len());
                }
                return Err(h);
            },
        }
        i = i + 1;
    }
    Ok(st)
}

/// Second pass: the server's receipt of packet `hs`, then its first 1-RTT packet sent.
fn scan_server(events: &Vec<QlogRecord>, hs: u64) -> (res: Result<ServerScan, Halt>)
    ensures
        res == server_scan(events@, hs, events@.len()),
{
    let mut st = ServerScan { handshake_received: None, first_one_rtt_sent: None, last_key: 0 };
    let mut i: usize = 0;
    while i < events.len()
        invariant
            i <= events@.len(),
            server_scan(events@, hs, i as nat) == Ok::<ServerScan, Halt>(st),
            !server_done(st),
        decreases events@.len() - i,
    {
        match server_step_exec(st, hs, i, &events[i]) {
            Ok(s) => {
                st = s;
            },
            Err(h) => {
                proof {
                    lemma_server_scan_halts(events@, hs, (i + 1) as nat, events@.len());
                }
                return Err(h);
            },
        }
        i = i + 1;
        if st.handshake_received.is_some() && st.first_one_rtt_sent.is_some() {
            proof {
                lemma_server_scan_done(events@, hs, i as nat, events@.len());
            }
            return Ok(st);
        }
    }
    Ok(st)
}

/// Third pass: the client's first receipt of the 1-RTT packet numbered `target`.
fn scan_receipt(events: &Vec<QlogRecord>, target: u64) -> (res: Result<Option<usize>, Halt>)
    ensures
        res == receipt_scan(events@, target, events@.len()),
{
    let mut i: usize = 0;
    while i < events.len()
        invariant
            i <= events@.len(),
            receipt_scan(events@, target, i as nat) == Ok::<Option<usize>, Halt>(None),
        decreases events@.len() - i,
    {
        let step = receipt_step_exec(target, i, &events[i]);
        match step {
            Ok(None) => {},
            _ => {
                proof {
                    lemma_receipt_scan_stops(events@, target, (i + 1) as nat, events@.len());
                }
                return step;
            },
        }
        i = i + 1;
    }
    Ok(None)
}

/// The first client pass and its check.
pub(crate) fn scan_client_stage(client: &Vec<QlogRecord>) -> (res: Result<ClientScan, Halt>)
    ensures
        res == client_stage(client@),
{
    let c = match scan_client(client) {
        Ok(c) => c,
        Err(h) => return Err(h),
    };
    if c.last_handshake.is_none() {
        return Err(Halt::Fail(QlogError::NoClientHandshakeSent));
    }
    Ok(c)
}

/// The server pass, the second client pass and their checks.
pub(crate) fn scan_server_stage(client: &Vec<QlogRecord>, c: ClientScan, server: &Vec<QlogRecord>) -> (res: Result<HandshakeSpan, Halt>)
    requires
        c.last_handshake is Some,
    ensures
        res == server_stage(client@, c, server@),
{
    let hs = match c.last_handshake {
        Some(hs) => hs,
        None => return unreached(),
    };
    let s = match scan_server(server, hs.number) {
        Ok(s) => s,
        Err(h) => return Err(h),
    };
    let one_rtt = match s.first_one_rtt_sent {
        Some(m) => m,
        None => return Err(Halt::Fail(QlogError::NoServerOneRttSent)),
    };
    if s.handshake_received.is_none() {
        return Err(Halt::Fail(QlogError::NoServerHandshakeReceived));
    }
    let found = match scan_receipt(client, one_rtt.number) {
        Ok(f) => f,
        Err(h) => return Err(h),
    };
    let start = match c.first_initial {
        Some(m) => m,
        None => return Err(Halt::Fail(QlogError::NoClientInitialSent)),
    };
    match found {
        Some(end) => Ok(HandshakeSpan { start: start.index, end }),
        None => Err(Halt::Fail(QlogError::NoClientOneRttReceived)),
    }
}

/// The three passes together, with the stop on an unnumbered packet.
fn scan_handshake(client: &Vec<QlogRecord>, server: &Vec<QlogRecord>) -> (res: Result<HandshakeSpan, Halt>)
    ensures
        res == handshake_outcome(client@, server@),
{
    match scan_client_stage(client) {
        Ok(c) => scan_server_stage(client, c, server),
        Err(h) => Err(h),
    }
}

/// Finds the two client events whose times give the handshake latency:
/// latency = time(client receives the server's first 1-RTT packet) − time(client
/// sends its first Initial packet). The client log is read twice (first for
/// its first Initial and last Handshake packet sent, then for the receipt of
/// the server's 1-RTT packet); the server log once, up to its first 1-RTT
/// packet sent after receiving the client's last Handshake packet.
pub fn handshake_span(client: &Vec<QlogRecord>, server: &Vec<QlogRecord>) -> (res: Result<HandshakeSpan, QlogError>)
    requires
        !reaches_unnumbered(client@, server@),
    ensures
        match handshake_outcome(client@, server@) {
            Ok(span) => res == Ok::<HandshakeSpan, QlogError>(span),
            Err(Halt::Fail(e)) => res == Err::<HandshakeSpan, QlogError>(e),
            Err(Halt::Unnumbered) => false,
        },
{
    match scan_handshake(client, server) {
        Ok(span) => Ok(span),
        Err(Halt::Fail(e)) => Err(e),
        Err(Halt::Unnumbered) => unreached(),
    }
}

/// Whether the scan of `handshake_span` would come to an Initial, Handshake or
/// 1-RTT packet without a packet number where it needs that number; there no
/// latency can be measured.
pub fn reaches_unnumbered_packet(client: &Vec<QlogRecord>, server: &Vec<QlogRecord>) -> (b: bool)
    ensures
        b == reaches_unnumbered(client@, server@),
{
    match scan_handshake(client, server) {
        Err(Halt::Unnumbered) => true,
        _ => false,
    }
}

} // verus!
