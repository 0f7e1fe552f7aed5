//! From the bytes of the client and server qlog files to the handshake span.
//!
//! The JSON-SEQ parse is qlog's reader; its records are turned into
//! [`QlogRecord`]s here, each time into an integer key that orders as the
//! time does. The measurement runs in two stages, as the files are opened:
//! the client file first, then (only if its first pass succeeds) the server
//! file.
use qlog::events::quic::{PacketHeader, PacketType};
use qlog::events::EventData;
use qlog::reader::{Event, QlogSeqReader};
use vstd::prelude::*;

use crate::latency::{
    client_stage, scan_client_stage, scan_server_stage, server_stage, ClientScan, Direction,
    EventBody, HandshakeSpan, Halt, PacketKind, QlogError, QlogEvent, QlogRecord,
};
use crate::latency_laws::{lemma_span_end_answers_last_handshake, lemma_span_start_is_first_initial};

verus! {

/// A record as qlog's reader yields it: the bits of its `f32` time, and its
/// event body (`None` for a JSON record that is no qlog event, whose time
/// bits are 0).
#[derive(Clone, Copy, Debug)]
pub struct RawRecord {
    pub time_bits: u32,
    pub body: Option<EventBody>,
}

/// The records that qlog's JSON-SEQ reader yields on a file's bytes, or the
/// message of its error when it cannot read the file's header.
pub uninterp spec fn qlog_seq_records(bytes: Seq<u8>) -> Result<Seq<RawRecord>, Seq<char>>;

/// Runs `qlog::reader::QlogSeqReader` (`new`, then the iterator to its end)
/// on `bytes`. Claimed: the records (or the header error's message) are those
/// that `qlog_seq_records` names, a function of the bytes alone; each packet
/// sent or received event keeps its direction, packet number and packet type
/// (Initial, Handshake and 1-RTT by name, the rest as `Other`). Nothing is
/// claimed of how the reader parses.
#[verifier::external_body]
fn read_qlog_seq(bytes: &[u8]) -> (r: Result<Vec<RawRecord>, String>)
    ensures
        match r {
            Ok(v) => qlog_seq_records(bytes@) == Ok::<Seq<RawRecord>, Seq<char>>(v@),
            Err(m) => qlog_seq_records(bytes@) == Err::<Seq<RawRecord>, Seq<char>>(m@),
        },
{
    let packet = |direction, h: &PacketHeader| EventBody::Packet { direction, number: h.packet_number, kind: match h.packet_type {
        PacketType::Initial => PacketKind::Initial,
        PacketType::Handshake => PacketKind::Handshake,
        PacketType::OneRtt => PacketKind::OneRtt,
        _ => PacketKind::Other,
    } };
    let reader = QlogSeqReader::new(Box::new(bytes)).map_err(|e| e.to_string())?;
    Ok(reader.map(|e| match e {
        Event::Qlog(ev) => RawRecord { time_bits: ev.time.to_bits(), body: Some(match &ev.data {
            EventData::PacketSent(p) => packet(Direction::Sent, &p.header),
            EventData::PacketReceived(p) => packet(Direction::Received, &p.header),
            _ => EventBody::Other,
        }) },
        _ => RawRecord { time_bits: 0, body: None },
    }).collect())
}

/// The order key of an `f32` time given by its bits: sign and magnitude,
/// so that both zeros have key 0, positive times their bits, and negative
/// times minus their magnitude bits. On the times that JSON can hold (no NaN)
/// a smaller key is exactly a smaller time.
pub open spec fn time_key_of_bits(bits: u32) -> int {
    if bits >= 0x8000_0000u32 {
        0x8000_0000u32 - bits
    } else {
        bits as int
    }
}

/// The record that a raw record stands for.
pub open spec fn record_of(r: RawRecord) -> QlogRecord {
    match r.body {
        Some(body) => QlogRecord::Qlog(QlogEvent { time_key: time_key_of_bits(r.time_bits) as i64, body }),
        None => QlogRecord::Json,
    }
}

/// The records that raw records stand for, one for one.
pub open spec fn records_of(raw: Seq<RawRecord>) -> Seq<QlogRecord> {
    Seq::new(raw.len(), |i: int| record_of(raw[i]))
}

/// The record that `raw` stands for.
pub fn to_record(raw: &RawRecord) -> (r: QlogRecord)
    ensures
        r == record_of(*raw),
{
    match raw.body {
        Some(body) => {
            let bits = raw.time_bits;
            let key: i64 = if bits >= 0x8000_0000u32 {
                0i64 - ((bits - 0x8000_0000u32) as i64)
            } else {
                bits as i64
            };
            QlogRecord::Qlog(QlogEvent { time_key: key, body })
        },
        None => QlogRecord::Json,
    }
}

fn to_records(raw: &Vec<RawRecord>) -> (v: Vec<QlogRecord>)
    ensures
        v@ == records_of(raw@),
{
    let mut v: Vec<QlogRecord> = Vec::new();
    let mut i: usize = 0;
    while i < raw.len()
        invariant
            i <= raw@.len(),
            v@ == records_of(raw@).take(i as int),
        decreases raw@.len() - i,
    {
        v.push(to_record(&raw[i]));
        i = i + 1;
        assert(v@ =~= records_of(raw@).take(i as int));
    }
    assert(v@ =~= records_of(raw@));
    v
}

/// Why a qlog file gives no measurement.
#[derive(Clone, Debug, PartialEq, Eq)]
pub enum LogError {
    /// qlog's reader cannot read the file's header; the message is its error's.
    Header { message: String },
    /// The scan of the records fails.
    Scan(QlogError),
}

/// The client log after its first pass: its raw records, the records they
/// stand for, and what the pass found.
#[derive(Clone, Debug)]
pub struct ClientLog {
    pub raw: Vec<RawRecord>,
    pub records: Vec<QlogRecord>,
    pub scan: ClientScan,
}

impl ClientLog {
    /// The records are those of the raw records, and `scan` is the first
    /// pass's result on them.
    pub open spec fn wf(&self) -> bool {
        &&& self.records@ == records_of(self.raw@)
        &&& client_stage(self.records@) == Ok::<ClientScan, Halt>(self.scan)
    }
}

/// The handshake span and the bits of the `f32` times of its two client events.
#[derive(Clone, Copy, Debug, PartialEq, Eq)]
pub struct Measurement {
    pub span: HandshakeSpan,
    pub start_time_bits: u32,
    pub end_time_bits: u32,
}

/// Parses the client qlog file and runs its first pass. `None` where the
/// pass needs the number of a packet that has none (there the measurement
/// cannot go on); otherwise the header error, the pass's error, or the log.
pub fn read_client_log(bytes: &[u8]) -> (r: Option<Result<ClientLog, LogError>>)
    ensures
        match qlog_seq_records(bytes@) {
            Err(m) => r matches Some(Err(LogError::Header { message })) && message@ == m,
            Ok(raw) => match client_stage(records_of(raw)) {
                Err(Halt::Unnumbered) => r is None,
                Err(Halt::Fail(e)) => r == Some(Err::<ClientLog, LogError>(LogError::Scan(e))),
                Ok(c) => r matches Some(Ok(log)) && log.raw@ == raw && log.scan == c && log.wf(),
            },
        },
{
    let raw = match read_qlog_seq(bytes) {
        Ok(raw) => raw,
        Err(message) => return Some(Err(LogError::Header { message })),
    };
    let records = to_records(&raw);
    match scan_client_stage(&records) {
        Ok(scan) => Some(Ok(ClientLog { raw, records, scan })),
        Err(Halt::Fail(e)) => Some(Err(LogError::Scan(e))),
        Err(Halt::Unnumbered) => None,
    }
}

/// Parses the server qlog file and finishes the measurement on a client log
/// whose first pass succeeded: the server pass and the second client pass.
/// `None` where a pass needs the number of a packet that has none;
/// otherwise the header error, a pass's error, or the span with the time
/// bits of its two client events.
pub fn finish_measurement(log: &ClientLog, server: &[u8]) -> (r: Option<Result<Measurement, LogError>>)
    requires
        log.wf(),
    ensures
        match qlog_seq_records(server@) {
            Err(m) => r matches Some(Err(LogError::Header { message })) && message@ == m,
            Ok(sraw) => match server_stage(log.records@, log.scan, records_of(sraw)) {
                Err(Halt::Unnumbered) => r is None,
                Err(Halt::Fail(e)) => r == Some(Err::<Measurement, LogError>(LogError::Scan(e))),
                Ok(span) => span.start < log.raw@.len() && span.end < log.raw@.len() && r == Some(
                    Ok::<Measurement, LogError>(
                        Measurement {
                            span,
                            start_time_bits: log.raw@[span.start as int].time_bits,
                            end_time_bits: log.raw@[span.end as int].time_bits,
                        },
                    ),
                ),
            },
        },
{
    let sraw = match read_qlog_seq(server) {
        Ok(sraw) => sraw,
        Err(message) => return Some(Err(LogError::Header { message })),
    };
    let srecords = to_records(&sraw);
    match scan_server_stage(&log.records, log.scan, &srecords) {
        Ok(span) => {
            let n = log.records.len();
            let ns = srecords.len();
            proof {
                assert(n == log.records@.len() && ns == srecords@.len());
                lemma_span_start_is_first_initial(log.records@, srecords@);
                lemma_span_end_answers_last_handshake(log.records@, srecords@);
            }
            Some(Ok(Measurement {
                span,
                start_time_bits: log.raw[span.start].time_bits,
                end_time_bits: log.raw[span.end].time_bits,
            }))
        },
        Err(Halt::Fail(e)) => Some(Err(LogError::Scan(e))),
        Err(Halt::Unnumbered) => None,
    }
}

/// The time key orders as the sign-and-magnitude value of the bits: both
/// zeros give 0; among non-negative bit patterns a larger pattern gives a
/// larger key, among negative ones a smaller key; and no negative pattern
/// gives a larger key than a non-negative one.
pub proof fn lemma_time_key_order(a: u32, b: u32)
    ensures
        time_key_of_bits(0) == 0 && time_key_of_bits(0x8000_0000u32) == 0,
        a < 0x8000_0000u32 && b < 0x8000_0000u32 ==> (time_key_of_bits(a) < time_key_of_bits(b) <==> a < b),
        a >= 0x8000_0000u32 && b >= 0x8000_0000u32 ==> (time_key_of_bits(a) < time_key_of_bits(b) <==> a > b),
        a >= 0x8000_0000u32 && b < 0x8000_0000u32 ==> time_key_of_bits(a) <= time_key_of_bits(b),
        i64::MIN <= time_key_of_bits(a) <= i64::MAX,
{
}

} // verus!
