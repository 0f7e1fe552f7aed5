//! Decisions of the neqo perf client: the handshake, the request, the
//! response transfer.
//!
//! The client connects, then sends an 8-byte request on a bidirectional
//! stream and reads the response until the server finishes the stream; the
//! response must be exactly as long as requested.
use vstd::prelude::*;

verus! {

/// The server port used when the URL names none.
pub const DEFAULT_PORT: u16 = 4433;

/// The length of the request header the client sends.
pub const REQUEST_LEN: usize = 8;

/// A connection state change, as far as the client reads it. `error` tells
/// whether the close reason is an error.
#[derive(Clone, Copy, Debug, PartialEq, Eq, Structural)]
pub enum ConnState {
    Connected,
    Confirmed,
    Closing { error: bool },
    Draining { error: bool },
    Closed { error: bool },
    Other,
}

/// A connection event during the handshake.
#[derive(Clone, Copy, Debug, PartialEq, Eq, Structural)]
pub enum ConnectEvent {
    /// The server certificate awaits the client's verdict.
    AuthenticationNeeded,
    /// The connection changed state.
    StateChange(ConnState),
    /// Any other event.
    Other,
}

/// What the client does on a handshake event.
#[derive(Clone, Copy, Debug, PartialEq, Eq, Structural)]
pub enum ConnectAction {
    /// Accept the server certificate.
    Authenticate,
    /// Nothing.
    Nothing,
}

/// Why the client gives up.
#[derive(Clone, Copy, Debug, PartialEq, Eq, Structural)]
pub enum ClientError {
    /// During the handshake the connection began closing or draining with an error.
    ClosingWithError,
    /// During the handshake the connection closed with an error.
    ClosedWithError,
    /// During the handshake the connection closed without an error.
    ClosedDuringHandshake,
    /// Opening the request stream failed for another reason than the stream limit.
    StreamCreateFailed,
    /// During the transfer the connection closed with an error.
    ClosedDuringTransfer,
    /// The connection accepted fewer request bytes than the request holds.
    ShortRequest { sent: usize },
    /// The response length differs from the requested length.
    SizeMismatch { received: usize, requested: usize },
}

/// The handshake's progress: whether the connection is established.
#[derive(Clone, Copy, Debug, PartialEq, Eq, Structural)]
pub struct Handshake {
    pub connected: bool,
}

/// The handshake after event `ev`, with the client's action, or the error that ends it.
pub open spec fn handshake_next(h: Handshake, ev: ConnectEvent) -> Result<(Handshake, ConnectAction), ClientError> {
    match ev {
        ConnectEvent::AuthenticationNeeded => Ok((h, ConnectAction::Authenticate)),
        ConnectEvent::StateChange(ConnState::Connected) => Ok((Handshake { connected: true }, ConnectAction::Nothing)),
        ConnectEvent::StateChange(ConnState::Confirmed) => Ok((Handshake { connected: true }, ConnectAction::Nothing)),
        ConnectEvent::StateChange(ConnState::Closing { error }) =>
            if error { Err(ClientError::ClosingWithError) } else { Ok((h, ConnectAction::Nothing)) },
        ConnectEvent::StateChange(ConnState::Draining { error }) =>
            if error { Err(ClientError::ClosingWithError) } else { Ok((h, ConnectAction::Nothing)) },
        ConnectEvent::StateChange(ConnState::Closed { error }) =>
            if error { Err(ClientError::ClosedWithError) } else { Err(ClientError::ClosedDuringHandshake) },
        _ => Ok((h, ConnectAction::Nothing)),
    }
}

impl Handshake {
    /// A handshake that has not yet reached the connected state.
    pub fn new() -> (h: Handshake)
        ensures
            !h.connected,
    {
        Handshake { connected: false }
    }

    /// Handles one connection event of the handshake. The certificate is
    /// accepted when asked; reaching `Connected` or `Confirmed` establishes
    /// the connection; closing or draining with an error fails, and so does
    /// any close while the handshake runs.
    pub fn on_event(&mut self, ev: ConnectEvent) -> (r: Result<ConnectAction, ClientError>)
        ensures
            match handshake_next(*old(self), ev) {
                Ok((h, a)) => *final(self) == h && r == Ok::<ConnectAction, ClientError>(a),
                Err(e) => *final(self) == *old(self) && r == Err::<ConnectAction, ClientError>(e),
            },
            ev == ConnectEvent::StateChange(ConnState::Closing { error: false })
                || ev == ConnectEvent::StateChange(ConnState::Draining { error: false })
                ==> r == Ok::<ConnectAction, ClientError>(ConnectAction::Nothing) && *final(self) == *old(self),
            ev == ConnectEvent::StateChange(ConnState::Closing { error: true })
                || ev == ConnectEvent::StateChange(ConnState::Draining { error: true })
                ==> r == Err::<ConnectAction, ClientError>(ClientError::ClosingWithError),
            ev matches ConnectEvent::StateChange(ConnState::Closed { error })
                ==> r == Err::<ConnectAction, ClientError>(
                    if error { ClientError::ClosedWithError } else { ClientError::ClosedDuringHandshake },
                ),
            ev == ConnectEvent::StateChange(ConnState::Connected) || ev == ConnectEvent::StateChange(ConnState::Confirmed)
                ==> r == Ok::<ConnectAction, ClientError>(ConnectAction::Nothing) && final(self).connected,
            ev == ConnectEvent::AuthenticationNeeded
                ==> r == Ok::<ConnectAction, ClientError>(ConnectAction::Authenticate) && *final(self) == *old(self),
    {
        match ev {
            ConnectEvent::AuthenticationNeeded => Ok(ConnectAction::Authenticate),
            ConnectEvent::StateChange(ConnState::Connected) | ConnectEvent::StateChange(ConnState::Confirmed) => {
                self.connected = true;
                Ok(ConnectAction::Nothing)
            },
            ConnectEvent::StateChange(ConnState::Closing { error })
            | ConnectEvent::StateChange(ConnState::Draining { error }) => {
                if error {
                    Err(ClientError::ClosingWithError)
                } else {
                    Ok(ConnectAction::Nothing)
                }
            },
            ConnectEvent::StateChange(ConnState::Closed { error }) => {
                if error {
                    Err(ClientError::ClosedWithError)
                } else {
                    Err(ClientError::ClosedDuringHandshake)
                }
            },
            _ => Ok(ConnectAction::Nothing),
        }
    }

    /// Whether the handshake is done.
    pub fn is_connected(&self) -> (b: bool)
        ensures
            b == self.connected,
    {
        self.connected
    }
}

/// The server port: the URL's port, or the default port.
pub fn remote_port(url_port: Option<u16>) -> (port: u16)
    ensures
        port == (match url_port {
            Some(p) => p,
            None => DEFAULT_PORT,
        }),
{
    match url_port {
        Some(p) => p,
        None => DEFAULT_PORT,
    }
}

/// Checks that the whole request header went out.
pub fn check_request_sent(sent: usize) -> (r: Result<(), ClientError>)
    ensures
        r == (if sent == REQUEST_LEN {
            Ok::<(), ClientError>(())
        } else {
            Err::<(), ClientError>(ClientError::ShortRequest { sent })
        }),
{
    if sent != REQUEST_LEN {
        Err(ClientError::ShortRequest { sent })
    } else {
        Ok(())
    }
}

/// A connection event during the transfer.
#[derive(Clone, Copy, Debug, PartialEq, Eq, Structural)]
pub enum TransferEvent {
    /// A receive stream has data to read.
    Readable { stream: u64 },
    /// A new stream can be created; `bidi` tells whether a bidirectional one.
    StreamCreatable { bidi: bool },
    /// The connection closed; `error` tells whether with an error.
    Closed { error: bool },
    /// Any other event.
    Other,
}

/// What came of an attempt to open the request stream.
#[derive(Clone, Copy, Debug, PartialEq, Eq, Structural)]
pub enum StreamCreate {
    /// The stream was opened with this id.
    Created(u64),
    /// The peer's stream limit is reached; a later `StreamCreatable` event allows a retry.
    Limited,
    /// The attempt failed otherwise.
    Failed,
}

/// What the client does on a transfer event.
#[derive(Clone, Copy, Debug, PartialEq, Eq, Structural)]
pub enum TransferAction {
    /// Try to open the bidirectional request stream.
    CreateStream,
    /// Send the request on the stream just opened (and close its send side).
    SendRequest,
    /// Read the request stream until it has no more data.
    ReadStream,
    /// Nothing.
    Nothing,
}

/// Whether to read the stream again.
#[derive(Clone, Copy, Debug, PartialEq, Eq, Structural)]
pub enum ReadAction {
    KeepReading,
    StopReading,
}

/// The request and the response transfer.
#[derive(Clone, Copy, Debug, PartialEq, Eq, Structural)]
pub struct Transfer {
    /// The request stream, once opened.
    pub stream: Option<u64>,
    /// The number of bytes requested.
    pub requested: usize,
    /// The number of bytes received so far.
    pub received: usize,
    /// Whether the server has finished the stream.
    pub done: bool,
}

/// The transfer after an attempt to open the request stream, with the next action.
pub open spec fn transfer_created(t: Transfer, r: StreamCreate) -> Result<(Transfer, TransferAction), ClientError> {
    match r {
        StreamCreate::Created(id) => Ok((
            Transfer { stream: Some(id), requested: t.requested, received: t.received, done: t.done },
            TransferAction::SendRequest,
        )),
        StreamCreate::Limited => Ok((t, TransferAction::Nothing)),
        StreamCreate::Failed => Err(ClientError::StreamCreateFailed),
    }
}

/// What a transfer event calls for.
pub open spec fn transfer_reaction(t: Transfer, ev: TransferEvent) -> Result<TransferAction, ClientError> {
    match ev {
        TransferEvent::Readable { stream } =>
            if t.stream == Some(stream) { Ok(TransferAction::ReadStream) } else { Ok(TransferAction::Nothing) },
        TransferEvent::StreamCreatable { bidi } =>
            if bidi && t.stream is None { Ok(TransferAction::CreateStream) } else { Ok(TransferAction::Nothing) },
        TransferEvent::Closed { error } =>
            if error { Err(ClientError::ClosedDuringTransfer) } else { Ok(TransferAction::Nothing) },
        TransferEvent::Other => Ok(TransferAction::Nothing),
    }
}

/// The transfer after reading `n` bytes, `fin` telling whether the stream ended.
pub open spec fn transfer_data(t: Transfer, n: nat, fin: bool) -> Transfer {
    Transfer { stream: t.stream, requested: t.requested, received: (t.received + n) as usize, done: t.done || fin }
}

/// Whether a read of `n` bytes with `fin` ends this round of reading.
pub open spec fn read_stops(n: nat, fin: bool) -> bool {
    fin || n == 0
}

/// The outcome of a finished transfer.
pub open spec fn transfer_result(t: Transfer) -> Result<(), ClientError> {
    if t.received == t.requested {
        Ok(())
    } else {
        Err(ClientError::SizeMismatch { received: t.received, requested: t.requested })
    }
}

impl Transfer {
    /// A transfer of `requested` bytes; no stream yet, nothing received.
    pub fn new(requested: usize) -> (t: Transfer)
        ensures
            t == (Transfer { stream: None, requested, received: 0, done: false }),
    {
        Transfer { stream: None, requested, received: 0, done: false }
    }

    /// Takes the outcome of an attempt to open the request stream: an opened
    /// stream is recorded and the request is to be sent on it; at the stream
    /// limit the client waits for a `StreamCreatable` event; any other
    /// failure ends the run.
    pub fn on_stream_create(&mut self, r: StreamCreate) -> (a: Result<TransferAction, ClientError>)
        ensures
            match transfer_created(*old(self), r) {
                Ok((t, act)) => *final(self) == t && a == Ok::<TransferAction, ClientError>(act),
                Err(e) => *final(self) == *old(self) && a == Err::<TransferAction, ClientError>(e),
            },
            r matches StreamCreate::Created(id) ==> a == Ok::<TransferAction, ClientError>(TransferAction::SendRequest)
                && final(self).stream == Some(id) && final(self).requested == old(self).requested
                && final(self).received == old(self).received && final(self).done == old(self).done,
            r == StreamCreate::Limited ==> a == Ok::<TransferAction, ClientError>(TransferAction::Nothing)
                && *final(self) == *old(self),
            r == StreamCreate::Failed ==> a == Err::<TransferAction, ClientError>(ClientError::StreamCreateFailed)
                && *final(self) == *old(self),
    {
        match r {
            StreamCreate::Created(id) => {
                self.stream = Some(id);
                Ok(TransferAction::SendRequest)
            },
            StreamCreate::Limited => Ok(TransferAction::Nothing),
            StreamCreate::Failed => Err(ClientError::StreamCreateFailed),
        }
    }

    /// Handles one connection event of the transfer: data on the request
    /// stream is read; while no stream is open, a bidirectional stream
    /// becoming available is used to open it; a close with an error fails;
    /// the rest is ignored.
    pub fn on_event(&self, ev: TransferEvent) -> (r: Result<TransferAction, ClientError>)
        ensures
            r == transfer_reaction(*self, ev),
            ev matches TransferEvent::Readable { stream } ==> (r == Ok::<TransferAction, ClientError>(
                TransferAction::ReadStream,
            ) <==> self.stream == Some(stream)),
            ev matches TransferEvent::Readable { stream } && self.stream != Some(stream)
                ==> r == Ok::<TransferAction, ClientError>(TransferAction::Nothing),
            ev matches TransferEvent::StreamCreatable { bidi } ==> r == Ok::<TransferAction, ClientError>(
                if bidi && self.stream is None { TransferAction::CreateStream } else { TransferAction::Nothing },
            ),
            ev matches TransferEvent::Closed { error } ==> r == (if error {
                Err::<TransferAction, ClientError>(ClientError::ClosedDuringTransfer)
            } else {
                Ok::<TransferAction, ClientError>(TransferAction::Nothing)
            }),
    {
        match ev {
            TransferEvent::Readable { stream } => {
                match self.stream {
                    Some(s) => if s == stream {
                        Ok(TransferAction::ReadStream)
                    } else {
                        Ok(TransferAction::Nothing)
                    },
                    None => Ok(TransferAction::Nothing),
                }
            },
            TransferEvent::StreamCreatable { bidi } => {
                if bidi && self.stream.is_none() {
                    Ok(TransferAction::CreateStream)
                } else {
                    Ok(TransferAction::Nothing)
                }
            },
            TransferEvent::Closed { error } => {
                if error {
                    Err(ClientError::ClosedDuringTransfer)
                } else {
                    Ok(TransferAction::Nothing)
                }
            },
            TransferEvent::Other => Ok(TransferAction::Nothing),
        }
    }

    /// Counts `n` bytes read from the stream; `fin` tells that the server
    /// finished the stream. Reading stops at the end of the stream or when a
    /// read gives no bytes.
    pub fn on_data(&mut self, n: usize, fin: bool) -> (a: ReadAction)
        requires
            old(self).received + n <= usize::MAX,
        ensures
            *final(self) == transfer_data(*old(self), n as nat, fin),
            a == (if read_stops(n as nat, fin) { ReadAction::StopReading } else { ReadAction::KeepReading }),
            a == ReadAction::StopReading <==> (fin || n == 0),
            n > 0 && !fin ==> a == ReadAction::KeepReading,
            final(self).received == old(self).received + n,
            final(self).done == (old(self).done || fin),
            final(self).stream == old(self).stream,
            final(self).requested == old(self).requested,
    {
        self.received = self.received + n;
        if fin {
            self.done = true;
            ReadAction::StopReading
        } else if n == 0 {
            ReadAction::StopReading
        } else {
            ReadAction::KeepReading
        }
    }

    /// Whether the server has finished the stream.
    pub fn is_done(&self) -> (b: bool)
        ensures
            b == self.done,
    {
        self.done
    }

    /// Checks the response length against the request.
    pub fn finish(&self) -> (r: Result<(), ClientError>)
        ensures
            r == transfer_result(*self),
    {
        if self.received != self.requested {
            Err(ClientError::SizeMismatch { received: self.received, requested: self.requested })
        } else {
            Ok(())
        }
    }
}

/// The stream is opened at most once: once open, no event asks to open it
/// again, and only data on that stream is read.
pub proof fn lemma_stream_opened_once(t: Transfer, ev: TransferEvent)
    requires
        t.stream is Some,
    ensures
        transfer_reaction(t, ev) != Ok::<TransferAction, ClientError>(TransferAction::CreateStream),
        transfer_reaction(t, ev) == Ok::<TransferAction, ClientError>(TransferAction::ReadStream)
            ==> ev == (TransferEvent::Readable { stream: t.stream->Some_0 }),
{
}

/// The transfer after a series of reads, each a byte count and an end flag.
pub open spec fn transfer_reads(t: Transfer, reads: Seq<(nat, bool)>) -> Transfer
    decreases reads.len(),
{
    if reads.len() == 0 {
        t
    } else {
        let prev = transfer_reads(t, reads.drop_last());
        transfer_data(prev, reads.last().0, reads.last().1)
    }
}

/// The total number of bytes of a series of reads.
pub open spec fn read_total(reads: Seq<(nat, bool)>) -> nat
    decreases reads.len(),
{
    if reads.len() == 0 {
        0
    } else {
        read_total(reads.drop_last()) + reads.last().0
    }
}

/// The received count is the sum of all bytes read, and the transfer is done
/// exactly when it was done before or some read ended the stream (as long as
/// the count fits in `usize`, which `on_data` requires).
pub proof fn lemma_received_is_total(t: Transfer, reads: Seq<(nat, bool)>)
    requires
        t.received + read_total(reads) <= usize::MAX,
    ensures
        transfer_reads(t, reads).received == t.received + read_total(reads),
        transfer_reads(t, reads).done <==> (t.done || exists|i: int| 0 <= i < reads.len() && (#[trigger] reads[i]).1),
        transfer_reads(t, reads).stream == t.stream,
        transfer_reads(t, reads).requested == t.requested,
    decreases reads.len(),
{
    if reads.len() > 0 {
        let pre = reads.drop_last();
        lemma_received_is_total(t, pre);
        if transfer_reads(t, reads).done && !t.done && !reads.last().1 {
            let i = choose|i: int| 0 <= i < pre.len() && (#[trigger] pre[i]).1;
            assert(reads[i] == pre[i]);
        }
        if exists|i: int| 0 <= i < reads.len() && (#[trigger] reads[i]).1 {
            let i = choose|i: int| 0 <= i < reads.len() && (#[trigger] reads[i]).1;
            if i < reads.len() - 1 {
                assert(pre[i] == reads[i]);
            }
        }
    }
}

/// A finished transfer succeeds exactly when the bytes received are the bytes requested.
pub proof fn lemma_finish_iff_complete(t: Transfer)
    ensures
        transfer_result(t) is Ok <==> t.received == t.requested,
{
}

/// Once connected the handshake stays connected: no event undoes it, and an
/// event that fails leaves the handshake as it was.
pub proof fn lemma_connected_is_kept(h: Handshake, ev: ConnectEvent)
    ensures
        handshake_next(h, ev) matches Ok((h2, a)) ==> (h.connected ==> h2.connected),
        ev is AuthenticationNeeded <==> (handshake_next(h, ev) matches Ok((_, a)) && a == ConnectAction::Authenticate),
{
}

/// Reading goes on while there may be more: a read of at least one byte
/// that does not end the stream keeps reading, and reading stops exactly at
/// the end of the stream or on an empty read; the count grows by each read.
pub proof fn lemma_read_until_fin_or_empty(t: Transfer, n: nat, fin: bool)
    requires
        t.received + n <= usize::MAX,
    ensures
        read_stops(n, fin) <==> (fin || n == 0),
        n > 0 && !fin ==> !read_stops(n, fin),
        transfer_data(t, n, fin).received == t.received + n,
        transfer_data(t, n, fin).done == (t.done || fin),
        transfer_data(t, n, fin).stream == t.stream,
{
}

/// A created stream, whatever its id (0 included), becomes the request
/// stream and the request is sent on it; at the stream limit nothing
/// changes; any other failure ends the run.
pub proof fn lemma_created_stream_is_used(t: Transfer, id: u64)
    ensures
        transfer_created(t, StreamCreate::Created(id)) == Ok::<(Transfer, TransferAction), ClientError>((
            Transfer { stream: Some(id), requested: t.requested, received: t.received, done: t.done },
            TransferAction::SendRequest,
        )),
        transfer_created(t, StreamCreate::Limited) == Ok::<(Transfer, TransferAction), ClientError>((t, TransferAction::Nothing)),
        transfer_created(t, StreamCreate::Failed) is Err,
{
}

/// Data on the request stream is read, whatever its id (0 included), and
/// data on any other stream is not.
pub proof fn lemma_request_stream_is_read(t: Transfer, s: u64, other: u64)
    requires
        t.stream == Some(s),
        other != s,
    ensures
        transfer_reaction(t, TransferEvent::Readable { stream: s }) == Ok::<TransferAction, ClientError>(TransferAction::ReadStream),
        transfer_reaction(t, TransferEvent::Readable { stream: other }) == Ok::<TransferAction, ClientError>(TransferAction::Nothing),
{
}

/// A connection that closes or drains without an error does not end the
/// handshake, and leaves it as it was; with an error it fails. Closing and
/// draining are treated alike.
pub proof fn lemma_clean_closing_is_not_an_error(h: Handshake, error: bool)
    ensures
        handshake_next(h, ConnectEvent::StateChange(ConnState::Closing { error })) == handshake_next(
            h,
            ConnectEvent::StateChange(ConnState::Draining { error }),
        ),
        !error ==> handshake_next(h, ConnectEvent::StateChange(ConnState::Closing { error })) == Ok::<
            (Handshake, ConnectAction),
            ClientError,
        >((h, ConnectAction::Nothing)),
        error ==> handshake_next(h, ConnectEvent::StateChange(ConnState::Closing { error })) == Err::<
            (Handshake, ConnectAction),
            ClientError,
        >(ClientError::ClosingWithError),
{
}

} // verus!
