//! The streaming session manager: connection-request preparation, the shared
//! liveness flag and sink slot with their take/send/restore discipline, and
//! the bridge from inbound frames to transcript events.
//!
//! The manager holds no transport handle itself: a driver owns the real
//! connection, asks the manager for every decision, and mirrors the sink
//! slot with the write half of the connection. Each operation here is one
//! short critical section; the driver performs the actual (suspending)
//! network send strictly between `begin_chunk_send` and `finish_chunk_send`,
//! so no shared state is ever held across a wait.

use vstd::prelude::*;
use vstd::string::StringExecFns;
use crate::codec::le_bytes_of;

verus! {

/// Why a session could not be started.
#[derive(Debug, PartialEq, Eq)]
pub enum SessionError {
    /// No credential was present in the environment.
    MissingCredential,
    /// The transport, TLS, or protocol handshake failed; carries the detail.
    HandshakeFailed(String),
}

impl SessionError {
    /// The opaque descriptive string under which the error crosses the
    /// system boundary: a fixed message for a missing credential, the
    /// handshake detail verbatim otherwise.
    pub fn message(self) -> (m: String)
        ensures
            self matches SessionError::MissingCredential ==> m@ == missing_credential_message(),
            self matches SessionError::HandshakeFailed(detail) ==> m@ == detail@,
    {
        match self {
            SessionError::MissingCredential => "Missing API key".to_owned(),
            SessionError::HandshakeFailed(detail) => detail,
        }
    }
}

/// The message reported when no credential is present.
pub open spec fn missing_credential_message() -> Seq<char> {
    "Missing API key"@
}

/// The fixed target of every connection: host, path, and the query
/// parameters selecting model, punctuation, interim results, 16-bit
/// little-endian PCM encoding, and a 16 kHz sample rate.
pub open spec fn service_url() -> Seq<char> {
    "wss://api.deepgram.com/v1/listen?model=nova-2&punctuate=true&interim_results=true&encoding=linear16&sample_rate=16000"@
}

/// The prefix of the bearer-style authorization header value.
pub open spec fn auth_scheme_prefix() -> Seq<char> {
    "Token "@
}

/// The logical topic under which every transcript event reaches the
/// presentation layer.
pub open spec fn transcript_topic() -> Seq<char> {
    "transcript"@
}

/// The topic name identifying a forwarded inbound payload as a transcript
/// update.
pub fn transcript_event_topic() -> (topic: String)
    ensures
        topic@ == transcript_topic(),
{
    "transcript".to_owned()
}

/// A fully formed connection request: the target URL and the value of the
/// `Authorization` header.
#[derive(Debug)]
pub struct ConnectRequest {
    pub url: String,
    pub auth_header: String,
}

/// Validate the credential and build the connection request for a session
/// start. Fails exactly when no credential is present (an absent or empty
/// string); no connection attempt can be made without the returned request.
pub fn prepare_start(credential: &Option<String>) -> (r: Result<ConnectRequest, SessionError>)
    ensures
        match credential {
            Some(key) => {
                if key@.len() == 0 {
                    r matches Err(e) && e == SessionError::MissingCredential
                } else {
                    r matches Ok(req) && req.url@ == service_url() && req.auth_header@
                        == auth_scheme_prefix() + key@
                }
            },
            None => r matches Err(e) && e == SessionError::MissingCredential,
        },
{
    match credential {
        Some(key) => {
            if key.as_str().is_empty() {
                Err(SessionError::MissingCredential)
            } else {
                let url =
                    "wss://api.deepgram.com/v1/listen?model=nova-2&punctuate=true&interim_results=true&encoding=linear16&sample_rate=16000".to_owned();
                let auth_header = String::from_str("Token ").concat(key.as_str());
                Ok(ConnectRequest { url, auth_header })
            }
        },
        None => Err(SessionError::MissingCredential),
    }
}

/// What the driver's connection attempt came to.
pub enum ConnectOutcome {
    /// The handshake succeeded and the connection was split into its two
    /// halves; the driver now holds the write half.
    Opened,
    /// The handshake failed; carries the transport's description.
    Failed(String),
}

/// An inbound frame as the receive loop sees it.
pub enum InboundFrame {
    /// A text frame carrying a transcript payload.
    Text(String),
    /// Anything else: a binary or control frame, or a message that could
    /// not be decoded as text.
    NonText,
}

/// The shared state of the single active session: the liveness flag and
/// whether the sink (the write half of the connection) currently sits in
/// its slot. `live && !sink_stored` is the valid transient state while one
/// send is in flight.
pub struct SessionManager {
    pub live: bool,
    pub sink_stored: bool,
}

impl SessionManager {
    /// The state before any session was started.
    pub open spec fn spec_new() -> SessionManager {
        SessionManager { live: false, sink_stored: false }
    }

    /// The state after a successful connection: a fresh sink sits in the
    /// slot (replacing any previous one) and the session is live.
    pub open spec fn after_connect(self) -> SessionManager {
        SessionManager { live: true, sink_stored: true }
    }

    /// The state after trying to take the sink for one send: the slot is
    /// emptied exactly when the session was live and the sink was there.
    pub open spec fn after_begin_send(self) -> SessionManager {
        if self.live && self.sink_stored {
            SessionManager { live: self.live, sink_stored: false }
        } else {
            self
        }
    }

    /// The frame payload produced by one chunk submission: the chunk's
    /// little-endian bytes when the session is live and the sink could be
    /// taken, nothing otherwise.
    pub open spec fn begin_send_frame(self, samples: Seq<i16>) -> Option<Seq<u8>> {
        if self.live && self.sink_stored {
            Some(le_bytes_of(samples))
        } else {
            None
        }
    }

    /// The state after a send completed and the sink went back into the
    /// slot, whether or not the send itself succeeded.
    pub open spec fn after_finish_send(self) -> SessionManager {
        SessionManager { live: self.live, sink_stored: true }
    }

    /// The state after the receive loop terminated: not live, the slot
    /// untouched.
    pub open spec fn after_stream_end(self) -> SessionManager {
        SessionManager { live: false, sink_stored: self.sink_stored }
    }

    /// A fresh manager: no session is active and no sink is stored.
    pub fn new() -> (s: SessionManager)
        ensures
            s == SessionManager::spec_new(),
    {
        SessionManager { live: false, sink_stored: false }
    }

    /// Record the outcome of the connection attempt. On success the new
    /// sink is stored and the session becomes live; on failure the state is
    /// untouched and the handshake detail comes back as the error.
    pub fn complete_start(&mut self, outcome: ConnectOutcome) -> (r: Result<(), SessionError>)
        ensures
            outcome matches ConnectOutcome::Opened ==> r is Ok && *final(self) == old(
                self,
            ).after_connect(),
            outcome matches ConnectOutcome::Failed(detail) ==> *final(self) == *old(self) && (
            r matches Err(e) && e == SessionError::HandshakeFailed(detail)),
    {
        match outcome {
            ConnectOutcome::Opened => {
                self.live = true;
                self.sink_stored = true;
                Ok(())
            },
            ConnectOutcome::Failed(detail) => Err(SessionError::HandshakeFailed(detail)),
        }
    }

    /// First critical section of one chunk submission: if the session is
    /// live and the sink is in its slot, take the sink out and produce the
    /// frame payload to send; otherwise change nothing and produce no
    /// frame. Never an error: a chunk arriving while the session is not
    /// live is silently dropped.
    pub fn begin_chunk_send(&mut self, samples: &Vec<i16>) -> (frame: Option<Vec<u8>>)
        ensures
            *final(self) == old(self).after_begin_send(),
            match frame {
                Some(bytes) => old(self).begin_send_frame(samples@) == Some(bytes@),
                None => old(self).begin_send_frame(samples@) is None,
            },
    {
        if self.live && self.sink_stored {
            self.sink_stored = false;
            Some(crate::codec::chunk_to_frame(samples))
        } else {
            None
        }
    }

    /// Last critical section of one chunk submission: put the sink back
    /// into its slot, whatever became of the send. Liveness is untouched.
    pub fn finish_chunk_send(&mut self)
        ensures
            *final(self) == old(self).after_finish_send(),
    {
        self.sink_stored = true;
    }

    /// One whole sequential chunk submission, as a driver with a
    /// non-suspending sink performs it: take the sink, produce the frame,
    /// restore the sink. Always succeeds; the state comes back unchanged.
    pub fn submit_audio_chunk(&mut self, samples: &Vec<i16>) -> (frame: Option<Vec<u8>>)
        ensures
            *final(self) == *old(self),
            match frame {
                Some(bytes) => old(self).begin_send_frame(samples@) == Some(bytes@),
                None => old(self).begin_send_frame(samples@) is None,
            },
    {
        let frame = self.begin_chunk_send(samples);
        match frame {
            Some(bytes) => {
                self.finish_chunk_send();
                Some(bytes)
            },
            None => None,
        }
    }

    /// The receive loop has terminated (remote close, transport error, or
    /// end of stream): the session is no longer live. The sink slot is left
    /// as it was; a send already in flight may still restore its sink.
    pub fn on_stream_end(&mut self)
        ensures
            *final(self) == old(self).after_stream_end(),
    {
        self.live = false;
    }
}

/// The transcript event carried by one inbound frame: the payload of a text
/// frame, verbatim; nothing for any other frame, which the receive loop
/// silently skips.
pub fn transcript_of_frame(frame: InboundFrame) -> (event: Option<String>)
    ensures
        match frame {
            InboundFrame::Text(payload) => event == Some(payload),
            InboundFrame::NonText => event is None,
        },
{
    match frame {
        InboundFrame::Text(payload) => Some(payload),
        InboundFrame::NonText => None,
    }
}

/// A chunk submitted while the session is not live produces no outbound
/// frame and leaves the shared state exactly as it was.
pub proof fn lemma_submit_when_not_live(s: SessionManager, samples: Seq<i16>)
    requires
        !s.live,
    ensures
        s.begin_send_frame(samples) is None,
        s.after_begin_send() == s,
{
}

/// Liveness is preserved by both halves of a chunk submission, becomes true
/// on a successful connection, and becomes false — and stays false — once
/// the receive loop terminates: ending the stream twice is the same as
/// ending it once, so the flag cannot flicker back without a new start.
pub proof fn lemma_liveness_transitions(s: SessionManager)
    ensures
        s.after_begin_send().live == s.live,
        s.after_finish_send().live == s.live,
        s.after_connect().live,
        !s.after_stream_end().live,
        s.after_stream_end().after_stream_end() == s.after_stream_end(),
{
}

/// The states and frames of a run of whole sequential chunk submissions,
/// in order: each submission takes the sink (when it can), produces its
/// frame, and restores the sink before the next begins.
pub open spec fn run_submits(s: SessionManager, chunks: Seq<Seq<i16>>) -> (
    SessionManager,
    Seq<Seq<u8>>,
)
    decreases chunks.len(),
{
    if chunks.len() == 0 {
        (s, Seq::empty())
    } else {
        let frame = s.begin_send_frame(chunks[0]);
        let s1 = if frame is Some {
            s.after_begin_send().after_finish_send()
        } else {
            s.after_begin_send()
        };
        let rest = run_submits(s1, chunks.skip(1));
        match frame {
            Some(payload) => (rest.0, seq![payload] + rest.1),
            None => rest,
        }
    }
}

/// Sequential chunk submissions on a live session with its sink in place
/// send exactly one frame per chunk, in the order submitted, each frame the
/// little-endian byte reinterpretation of its chunk — and leave the session
/// in the state it started in.
pub proof fn lemma_sequential_submits_in_order(s: SessionManager, chunks: Seq<Seq<i16>>)
    requires
        s.live,
        s.sink_stored,
    ensures
        run_submits(s, chunks).0 == s,
        run_submits(s, chunks).1 == chunks.map_values(|chunk: Seq<i16>| le_bytes_of(chunk)),
    decreases chunks.len(),
{
    let enc = |chunk: Seq<i16>| le_bytes_of(chunk);
    if chunks.len() == 0 {
        assert(run_submits(s, chunks).1 =~= chunks.map_values(enc));
    } else {
        lemma_sequential_submits_in_order(s, chunks.skip(1));
        assert(run_submits(s, chunks).1 =~= chunks.map_values(enc));
    }
}

/// Two submissions racing for the sink: the one that takes it first sends
/// its frame; the other finds the slot empty and sends nothing (the chunks'
/// relative order — indeed whether the loser sends at all — is the known
/// non-determinism of concurrent submission). Once the winner restores the
/// sink the state is exactly as before the race, and a later submission
/// sends its frame as usual: the slot is never left empty for good.
pub proof fn lemma_racing_submits(s: SessionManager, first: Seq<i16>, second: Seq<i16>, later: Seq<i16>)
    requires
        s.live,
        s.sink_stored,
    ensures
        ({
            let taken = s.after_begin_send();
            let raced = taken.after_begin_send();
            let restored = raced.after_finish_send();
            &&& s.begin_send_frame(first) == Some(le_bytes_of(first))
            &&& taken.begin_send_frame(second) is None
            &&& restored == s
            &&& restored.begin_send_frame(later) == Some(le_bytes_of(later))
        }),
{
}

} // verus!
