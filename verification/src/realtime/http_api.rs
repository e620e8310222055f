//! Request rules of the HTTP ingest interface: which endpoint a request
//! addresses, how a chunk body of little-endian 16-bit PCM is read, and the
//! steps and messages of the transcript event stream.
use vstd::prelude::*;
use crate::text::{decimal, find_char, find_char_in, str_eq, owned, push_decimal, push_str, lemma_find_char};

verus! {

/// What an ingest request asks for, with the session it names.
#[derive(Debug, Clone, PartialEq, Eq)]
pub enum IngestRoute {
    /// `POST /http/v1/sessions/<id>/chunk`: append PCM to the session.
    Chunk(String),
    /// `POST /http/v1/sessions/<id>/finish`: flush and end the session.
    Finish(String),
    /// `GET /http/v1/sessions/<id>/events`: stream the session's transcript events.
    Events(String),
}

/// The endpoint kinds of the ingest interface.
#[derive(Debug, Clone, Copy, PartialEq, Eq, Structural)]
pub enum RouteKind {
    Chunk,
    Finish,
    Events,
}

/// The path prefix shared by all ingest endpoints.
pub open spec fn sessions_prefix() -> Seq<char> {
    "/http/v1/sessions/"@
}

/// The endpoint and session a request addresses, if any: after the prefix the
/// path holds the session id up to the next `/`, then the endpoint name.
pub open spec fn ingest_route_of(method: Seq<char>, path: Seq<char>) -> Option<(RouteKind, Seq<char>)> {
    let p = sessions_prefix();
    if path.len() >= p.len() && path.subrange(0, p.len() as int) == p {
        let rest = path.subrange(p.len() as int, path.len() as int);
        let s = find_char(rest, '/');
        let id = rest.subrange(0, s as int);
        let tail = if s < rest.len() {
            rest.subrange(s as int + 1, rest.len() as int)
        } else {
            Seq::empty()
        };
        if method == "POST"@ && tail == "chunk"@ {
            Some((RouteKind::Chunk, id))
        } else if method == "POST"@ && tail == "finish"@ {
            Some((RouteKind::Finish, id))
        } else if method == "GET"@ && tail == "events"@ {
            Some((RouteKind::Events, id))
        } else {
            None
        }
    } else {
        None
    }
}

/// The kind and session of a route.
pub open spec fn route_parts(r: IngestRoute) -> (RouteKind, Seq<char>) {
    match r {
        IngestRoute::Chunk(id) => (RouteKind::Chunk, id@),
        IngestRoute::Finish(id) => (RouteKind::Finish, id@),
        IngestRoute::Events(id) => (RouteKind::Events, id@),
    }
}

/// The endpoint a request with this method (`GET`, `POST`, ...) and path addresses;
/// `None` is answered with 404.
pub fn parse_ingest_route(method: &str, path: &str) -> (r: Option<IngestRoute>)
    ensures
        r matches Some(route) ==> ingest_route_of(method@, path@) == Some(route_parts(route)),
        r is None ==> ingest_route_of(method@, path@) is None,
{
    proof {
        reveal_strlit("/http/v1/sessions/");
    }
    let n = path.unicode_len();
    let plen: usize = 18;
    if n < plen {
        return None;
    }
    if !str_eq(path.substring_char(0, plen), "/http/v1/sessions/") {
        return None;
    }
    let s = find_char_in(path, '/', plen, n);
    let ghost rest = path@.subrange(plen as int, n as int);
    let id = path.substring_char(plen, s);
    let tail = if s < n {
        path.substring_char(s + 1, n)
    } else {
        path.substring_char(n, n)
    };
    proof {
        assert(id@ =~= rest.subrange(0, (s - plen) as int));
        if s < n {
            assert(tail@ =~= rest.subrange((s - plen) as int + 1, rest.len() as int));
        } else {
            assert(tail@ =~= Seq::<char>::empty());
        }
    }
    let is_post = str_eq(method, "POST");
    let is_get = str_eq(method, "GET");
    if is_post && str_eq(tail, "chunk") {
        Some(IngestRoute::Chunk(owned(id)))
    } else if is_post && str_eq(tail, "finish") {
        Some(IngestRoute::Finish(owned(id)))
    } else if is_get && str_eq(tail, "events") {
        Some(IngestRoute::Events(owned(id)))
    } else {
        None
    }
}

/// The 16-bit sample stored little-endian in the bytes `lo`, `hi`.
pub open spec fn le_i16(lo: u8, hi: u8) -> int {
    let v = lo as int + 256 * (hi as int);
    if v >= 32768 {
        v - 65536
    } else {
        v
    }
}

/// A sample read from two little-endian bytes is the signed 16-bit number
/// whose two's-complement bits they are: it lies in the 16-bit range and is
/// congruent to `lo + 256 * hi` modulo 65536, so the high byte counts for
/// every sample.
pub proof fn law_le_i16_is_twos_complement(lo: u8, hi: u8)
    ensures
        -32768 <= le_i16(lo, hi) < 32768,
        (le_i16(lo, hi) - (lo as int + 256 * (hi as int))) % 65536 == 0,
        hi < 128 ==> le_i16(lo, hi) == lo as int + 256 * (hi as int),
        hi >= 128 ==> le_i16(lo, hi) == lo as int + 256 * (hi as int) - 65536,
{
}

/// The samples of a chunk body of signed 16-bit little-endian PCM; a trailing
/// odd byte is ignored.
pub fn decode_s16le(bytes: &[u8]) -> (samples: Vec<i16>)
    ensures
        samples@.len() == bytes@.len() / 2,
        forall|i: int|
            0 <= i < samples@.len() ==> (#[trigger] samples@[i]) as int == le_i16(
                bytes@[2 * i],
                bytes@[2 * i + 1],
            ),
{
    let mut samples: Vec<i16> = Vec::new();
    let mut i: usize = 0;
    let len = bytes.len();
    let half = len / 2;
    while i < half
        invariant
            half == bytes@.len() / 2,
            len == bytes@.len(),
            i <= half,
            samples@.len() == i,
            forall|k: int|
                0 <= k < i ==> (#[trigger] samples@[k]) as int == le_i16(
                    bytes@[2 * k],
                    bytes@[2 * k + 1],
                ),
        decreases half - i,
    {
        assert(2 * i + 1 < len);
        let lo = bytes[2 * i];
        let hi = bytes[2 * i + 1];
        let v: i32 = lo as i32 + 256 * (hi as i32);
        let sample: i16 = if v >= 32768 {
            (v - 65536) as i16
        } else {
            v as i16
        };
        samples.push(sample);
        i = i + 1;
    }
    samples
}

// =============================================================================
// Event stream
// =============================================================================

/// What polling the recogniser for a session gave.
#[derive(Debug, Clone, Copy, PartialEq, Eq, Structural)]
pub enum PollOutcome {
    /// A partial transcript.
    Partial,
    /// The final transcript.
    Final,
    /// The session exists but has nothing new.
    Pending,
    /// The session does not exist (yet).
    NoSession,
}

/// The kinds of events the stream sends.
#[derive(Debug, Clone, Copy, PartialEq, Eq, Structural)]
pub enum SseEvent {
    Partial,
    Final,
}

/// What the event stream does next.
#[derive(Debug, Clone, Copy, PartialEq, Eq, Structural)]
pub enum SseAction {
    /// Send an event with this id; after a final event the session is dropped
    /// and the stream ends.
    Emit { id: u64, event: SseEvent, then_close: bool },
    /// Poll again after this many milliseconds.
    Wait { millis: u64 },
}

/// One turn of the event stream: transcripts are sent with consecutive ids
/// starting at 1, the final one ending the stream; while the session has
/// nothing new the stream waits 50 ms, while it does not exist 100 ms.
pub open spec fn sse_turn(last_id: u64, outcome: PollOutcome) -> (u64, SseAction) {
    match outcome {
        PollOutcome::Partial => (
            (last_id + 1) as u64,
            SseAction::Emit { id: (last_id + 1) as u64, event: SseEvent::Partial, then_close: false },
        ),
        PollOutcome::Final => (
            (last_id + 1) as u64,
            SseAction::Emit { id: (last_id + 1) as u64, event: SseEvent::Final, then_close: true },
        ),
        PollOutcome::Pending => (last_id, SseAction::Wait { millis: 50 }),
        PollOutcome::NoSession => (last_id, SseAction::Wait { millis: 100 }),
    }
}

/// Every transcript event the stream sends carries the id after the last one
/// sent, and that id becomes the last id; polls that send nothing keep the
/// last id. So the ids of a session's events are consecutive: two partial
/// transcripts in a row are sent as `k + 1` and `k + 2`.
pub proof fn law_sse_ids_consecutive(last_id: u64, outcome: PollOutcome)
    requires
        last_id + 2 <= u64::MAX,
    ensures
        (outcome == PollOutcome::Partial || outcome == PollOutcome::Final) ==> (sse_turn(
            last_id,
            outcome,
        ).1 matches SseAction::Emit { id, event, then_close } && id == last_id + 1 && sse_turn(
            last_id,
            outcome,
        ).0 == id && (event == SseEvent::Final <==> outcome == PollOutcome::Final) && (then_close
            <==> outcome == PollOutcome::Final)),
        (outcome == PollOutcome::Pending || outcome == PollOutcome::NoSession) ==> (sse_turn(
            last_id,
            outcome,
        ).0 == last_id && sse_turn(last_id, outcome).1 is Wait),
        sse_turn(sse_turn(last_id, PollOutcome::Partial).0, PollOutcome::Partial).1 matches SseAction::Emit {
            id,
            ..
        } && id == last_id + 2,
{
}

/// Decides the stream's next action from the last event id and the poll outcome.
pub fn sse_step(last_id: u64, outcome: PollOutcome) -> (r: (u64, SseAction))
    requires
        last_id < u64::MAX,
    ensures
        r == sse_turn(last_id, outcome),
{
    match outcome {
        PollOutcome::Partial => (
            last_id + 1,
            SseAction::Emit { id: last_id + 1, event: SseEvent::Partial, then_close: false },
        ),
        PollOutcome::Final => (
            last_id + 1,
            SseAction::Emit { id: last_id + 1, event: SseEvent::Final, then_close: true },
        ),
        PollOutcome::Pending => (last_id, SseAction::Wait { millis: 50 }),
        PollOutcome::NoSession => (last_id, SseAction::Wait { millis: 100 }),
    }
}

/// The name of an event on the wire.
pub open spec fn sse_event_name(e: SseEvent) -> Seq<char> {
    match e {
        SseEvent::Partial => "partial"@,
        SseEvent::Final => "final"@,
    }
}

/// An event of the stream: its id, name and data lines, then a blank line.
pub open spec fn sse_frame(id: u64, event: SseEvent, data: Seq<char>) -> Seq<char> {
    "id: "@ + decimal(id as nat) + "\nevent: "@ + sse_event_name(event) + "\ndata: "@ + data + "\n\n"@
}

/// Renders an event of the stream.
pub fn sse_message(id: u64, event: SseEvent, data: &str) -> (m: String)
    ensures
        m@ == sse_frame(id, event, data@),
{
    let mut m = owned("id: ");
    push_decimal(&mut m, id);
    push_str(&mut m, "\nevent: ");
    match event {
        SseEvent::Partial => push_str(&mut m, "partial"),
        SseEvent::Final => push_str(&mut m, "final"),
    }
    push_str(&mut m, "\ndata: ");
    push_str(&mut m, data);
    push_str(&mut m, "\n\n");
    m
}

/// A request for `/http/v1/sessions/<id>/<endpoint>` addresses session `id`
/// at that endpoint, for every session id without a `/`: `POST` for `chunk`
/// and `finish`, `GET` for `events`.
pub proof fn law_ingest_routes_name_their_session(id: Seq<char>)
    requires
        !id.contains('/'),
    ensures
        ingest_route_of("POST"@, sessions_prefix() + id + "/chunk"@) == Some((RouteKind::Chunk, id)),
        ingest_route_of("POST"@, sessions_prefix() + id + "/finish"@) == Some((RouteKind::Finish, id)),
        ingest_route_of("GET"@, sessions_prefix() + id + "/events"@) == Some((RouteKind::Events, id)),
        ingest_route_of("GET"@, sessions_prefix() + id + "/chunk"@) is None,
{
    reveal_strlit("POST");
    reveal_strlit("GET");
    reveal_strlit("chunk");
    reveal_strlit("finish");
    reveal_strlit("events");
    reveal_strlit("/chunk");
    reveal_strlit("/finish");
    reveal_strlit("/events");
    assert("/chunk"@ =~= seq!['/'] + "chunk"@);
    assert("/finish"@ =~= seq!['/'] + "finish"@);
    assert("/events"@ =~= seq!['/'] + "events"@);
    lemma_route_tail(id, "/chunk"@, "chunk"@);
    lemma_route_tail(id, "/finish"@, "finish"@);
    lemma_route_tail(id, "/events"@, "events"@);
    assert("GET"@.len() != "POST"@.len());
    assert("chunk"@.len() != "events"@.len());
    assert("chunk"@.len() != "finish"@.len());
}

proof fn lemma_route_tail(id: Seq<char>, slash_tail: Seq<char>, tail: Seq<char>)
    requires
        !id.contains('/'),
        slash_tail == seq!['/'] + tail,
    ensures
        ({
            let path = sessions_prefix() + id + slash_tail;
            let p = sessions_prefix();
            let rest = path.subrange(p.len() as int, path.len() as int);
            let s = find_char(rest, '/');
            &&& path.len() >= p.len()
            &&& path.subrange(0, p.len() as int) == p
            &&& rest.subrange(0, s as int) == id
            &&& s < rest.len()
            &&& rest.subrange(s as int + 1, rest.len() as int) == tail
        }),
{
    reveal_strlit("/http/v1/sessions/");
    let p = sessions_prefix();
    let path = p + id + slash_tail;
    let rest = path.subrange(p.len() as int, path.len() as int);
    assert(path.subrange(0, p.len() as int) =~= p);
    assert(rest =~= id + slash_tail);
    assert forall|j: int| 0 <= j < id.len() implies rest[j] != '/' by {
        assert(rest[j] == id[j]);
        if id[j] == '/' {
            assert(id.contains('/'));
        }
    }
    assert(rest[id.len() as int] == '/');
    lemma_find_char(rest, '/', id.len() as int);
    assert(rest.subrange(0, id.len() as int) =~= id);
    assert(rest.subrange(id.len() as int + 1, rest.len() as int) =~= tail);
}

} // verus!
