//! Errors of the recognition pipeline, the behaviour of the mock streaming
//! recogniser (what it reports for each audio frame and at the end of a
//! session), the state of the local recognition server's streams, and the
//! rules of the local engine.
//!
//! A stream of the local recognition server is expected to carry its
//! configuration first and then the audio chunks (signed 16-bit little-endian
//! PCM) until the client closes it. Each chunk is answered with a partial
//! result; at the end the buffered audio goes to the local engine when one is
//! loaded, and otherwise a mock final result names the chunk count and the
//! language.
use vstd::prelude::*;
use std::sync::Arc;
use crate::text::{decimal, owned, push_decimal, push_str, eq_ignore_ascii_case, str_eq_ignore_ascii_case};
use crate::realtime::config::AsrPipelineConfig;
use crate::realtime::transport::TransportError;
use crate::realtime::http_api::{decode_s16le, le_i16};

verus! {

/// Failures of a recognition session.
#[derive(Debug, Clone, PartialEq, Eq)]
pub enum AsrError {
    Connection { message: String },
    StreamNotFound { session_id: String },
    Processing { message: String },
}

/// Failures of PCM ingestion.
#[derive(Debug, Clone, PartialEq, Eq)]
pub enum IngestError {
    NotFound(String),
    Asr(AsrError),
}

/// Failures of wiring a WebRTC session to the recogniser.
#[derive(Debug, Clone, PartialEq, Eq)]
pub enum OrchestratorError {
    SessionNotFound(String),
    Transport(TransportError),
    OpusInit(String),
}

/// A recogniser that answers from the shape of the audio alone, for tests and
/// for running the service without a model.
#[derive(Debug, Clone)]
pub struct MockAsrClient {
    config: Arc<AsrPipelineConfig>,
}

/// An update of the mock recogniser: a partial text (plain per frame, or the
/// aggregate of several frames) or the final text.
#[derive(Debug, Clone, PartialEq, Eq)]
pub enum MockUpdate {
    Partial { text: String, aggregated: bool },
    Final { text: String },
}

/// The state of one mock recognition session.
#[derive(Debug, Clone)]
pub struct MockRecognizer {
    session_id: String,
    flush_interval: u32,
    frame_index: u32,
    accumulator: String,
}

impl MockAsrClient {
    pub fn new(config: Arc<AsrPipelineConfig>) -> (c: Self)
        ensures
            c.spec_config() == *config,
    {
        MockAsrClient { config }
    }

    pub closed spec fn spec_config(&self) -> AsrPipelineConfig {
        *self.config
    }

    /// A new session: frames are aggregated every `max_pending_requests` frames (at least one).
    pub fn recognizer(&self, session_id: &str) -> (r: MockRecognizer)
        ensures
            r.spec_session_id() == session_id@,
            r.spec_flush_interval() == if self.spec_config().streaming.max_pending_requests > 0 {
                self.spec_config().streaming.max_pending_requests
            } else {
                1
            },
            r.spec_frame_index() == 0,
            r.spec_accumulator() == Seq::<char>::empty(),
    {
        let n = self.config.streaming.max_pending_requests;
        MockRecognizer {
            session_id: owned(session_id),
            flush_interval: if n > 0 { n } else { 1 },
            frame_index: 0,
            accumulator: String::new(),
        }
    }
}

/// The per-frame partial text.
pub open spec fn frame_text(session: Seq<char>, index: nat, samples: nat) -> Seq<char> {
    "session "@ + session + " frame "@ + decimal(index) + " samples "@ + decimal(samples)
}

/// The aggregated partial text.
pub open spec fn aggregate_text(session: Seq<char>, acc: Seq<char>) -> Seq<char> {
    "session "@ + session + " aggregated"@ + acc
}

/// The final text.
pub open spec fn final_text(session: Seq<char>, acc: Seq<char>) -> Seq<char> {
    "session "@ + session + " complete"@ + if acc.len() == 0 {
        " no additional data"@
    } else {
        " with"@ + acc
    }
}

impl MockRecognizer {
    pub closed spec fn spec_session_id(&self) -> Seq<char> {
        self.session_id@
    }

    pub closed spec fn spec_flush_interval(&self) -> u32 {
        self.flush_interval
    }

    pub closed spec fn spec_frame_index(&self) -> u32 {
        self.frame_index
    }

    pub closed spec fn spec_accumulator(&self) -> Seq<char> {
        self.accumulator@
    }

    /// A frame of `sample_count` samples arrived: a partial naming the frame is
    /// reported, and every `flush_interval` frames also the aggregate of the
    /// frame sizes since the last aggregate.
    pub fn on_frame(&mut self, sample_count: usize) -> (updates: Vec<MockUpdate>)
        requires
            old(self).spec_frame_index() < u32::MAX,
            old(self).spec_flush_interval() > 0,
        ensures
            final(self).spec_session_id() == old(self).spec_session_id(),
            final(self).spec_flush_interval() == old(self).spec_flush_interval(),
            final(self).spec_frame_index() == old(self).spec_frame_index() + 1,
            ({
                let idx = (old(self).spec_frame_index() + 1) as nat;
                let acc = old(self).spec_accumulator() + " "@ + decimal(sample_count as nat);
                let flush = idx % (old(self).spec_flush_interval() as nat) == 0;
                &&& updates@.len() == if flush { 2nat } else { 1nat }
                &&& updates@[0] matches MockUpdate::Partial { text, aggregated } && !aggregated
                    && text@ == frame_text(old(self).spec_session_id(), idx, sample_count as nat)
                &&& flush ==> (updates@[1] matches MockUpdate::Partial { text, aggregated }
                    && aggregated && text@ == aggregate_text(old(self).spec_session_id(), acc))
                &&& final(self).spec_accumulator() == if flush {
                    Seq::<char>::empty()
                } else {
                    acc
                }
            }),
    {
        self.frame_index = self.frame_index + 1;
        proof { reveal_strlit(" "); }
        push_str(&mut self.accumulator, " ");
        push_decimal(&mut self.accumulator, sample_count as u64);
        let mut updates: Vec<MockUpdate> = Vec::new();
        let mut t = owned("session ");
        push_str(&mut t, self.session_id.as_str());
        push_str(&mut t, " frame ");
        push_decimal(&mut t, self.frame_index as u64);
        push_str(&mut t, " samples ");
        push_decimal(&mut t, sample_count as u64);
        updates.push(MockUpdate::Partial { text: t, aggregated: false });
        if self.frame_index % self.flush_interval == 0 {
            let mut a = owned("session ");
            push_str(&mut a, self.session_id.as_str());
            push_str(&mut a, " aggregated");
            push_str(&mut a, self.accumulator.as_str());
            updates.push(MockUpdate::Partial { text: a, aggregated: true });
            self.accumulator = String::new();
        }
        updates
    }

    /// The session ends: the final text summarises the frames not yet aggregated.
    pub fn on_finish(&self) -> (update: MockUpdate)
        ensures
            update matches MockUpdate::Final { text } && text@ == final_text(
                self.spec_session_id(),
                self.spec_accumulator(),
            ),
    {
        let mut t = owned("session ");
        push_str(&mut t, self.session_id.as_str());
        push_str(&mut t, " complete");
        if self.accumulator.as_str().unicode_len() == 0 {
            push_str(&mut t, " no additional data");
        } else {
            push_str(&mut t, " with");
            push_str(&mut t, self.accumulator.as_str());
        }
        MockUpdate::Final { text: t }
    }
}

// =============================================================================
// Local recognition server
// =============================================================================

/// The configuration message of a recognition stream.
#[derive(Debug, Clone, PartialEq, Eq)]
pub struct StreamConfig {
    pub language: String,
    pub sample_rate_hz: i32,
    pub channels: i32,
}

/// `samples` are the signed 16-bit little-endian samples of `bytes`; a
/// trailing odd byte carries none.
pub open spec fn s16le_decoding(samples: Seq<i16>, bytes: Seq<u8>) -> bool {
    &&& samples.len() == bytes.len() / 2
    &&& forall|i: int|
        0 <= i < samples.len() ==> (#[trigger] samples[i]) as int == le_i16(bytes[2 * i], bytes[2 * i + 1])
}

/// The partial result answering the `chunk`-th audio chunk of `bytes` bytes.
pub open spec fn partial_chunk_text(chunk: nat, bytes: nat) -> Seq<char> {
    "partial chunk "@ + decimal(chunk) + " ("@ + decimal(bytes) + " bytes)"@
}

/// The mock final result of a stream of `chunks` chunks in `language`.
pub open spec fn mock_final_text(chunks: nat, language: Seq<char>) -> Seq<char> {
    "final ("@ + decimal(chunks) + " chunks) [lang:"@ + language + "]"@
}

/// The state of one stream of the local recognition server: the last
/// configuration received, the number of audio chunks and the buffered samples.
pub struct RecognizeStream {
    config: Option<StreamConfig>,
    chunks: usize,
    samples: Vec<i16>,
}

impl RecognizeStream {
    pub closed spec fn spec_config(&self) -> Option<StreamConfig> {
        self.config
    }

    pub closed spec fn spec_chunks(&self) -> nat {
        self.chunks as nat
    }

    pub closed spec fn spec_samples(&self) -> Seq<i16> {
        self.samples@
    }

    /// A stream before any message.
    pub fn new() -> (s: Self)
        ensures
            s.spec_config() is None,
            s.spec_chunks() == 0,
            s.spec_samples() == Seq::<i16>::empty(),
    {
        RecognizeStream { config: None, chunks: 0, samples: Vec::new() }
    }

    /// A configuration message: it replaces the stored configuration.
    pub fn on_config(&mut self, config: StreamConfig)
        ensures
            final(self).spec_config() == Some(config),
            final(self).spec_chunks() == old(self).spec_chunks(),
            final(self).spec_samples() == old(self).spec_samples(),
    {
        self.config = Some(config);
    }

    /// An audio chunk: it is counted, its samples are buffered, and the
    /// partial result naming the chunk and its size is returned.
    pub fn on_audio(&mut self, bytes: &[u8]) -> (partial: String)
        requires
            old(self).spec_chunks() < usize::MAX,
        ensures
            final(self).spec_config() == old(self).spec_config(),
            final(self).spec_chunks() == old(self).spec_chunks() + 1,
            final(self).spec_samples().subrange(0, old(self).spec_samples().len() as int)
                == old(self).spec_samples(),
            s16le_decoding(final(self).spec_samples().skip(old(self).spec_samples().len() as int), bytes@),
            partial@ == partial_chunk_text(final(self).spec_chunks(), bytes@.len()),
    {
        self.chunks = self.chunks + 1;
        let mut decoded = decode_s16le(bytes);
        let ghost before = self.samples@;
        let ghost added = decoded@;
        self.samples.append(&mut decoded);
        proof {
            assert(self.samples@.subrange(0, before.len() as int) =~= before);
            assert(self.samples@.skip(before.len() as int) =~= added);
        }
        let mut t = owned("partial chunk ");
        push_decimal(&mut t, self.chunks as u64);
        push_str(&mut t, " (");
        push_decimal(&mut t, bytes.len() as u64);
        push_str(&mut t, " bytes)");
        t
    }

    /// The buffered samples, for the engine.
    pub fn samples(&self) -> (s: &Vec<i16>)
        ensures
            s@ == self.spec_samples(),
    {
        &self.samples
    }

    /// The sample rate and channel count handed to the engine: those of the
    /// configuration, or 16 kHz mono when none arrived.
    pub fn engine_format(&self) -> (f: (i32, i32))
        ensures
            self.spec_config() matches Some(c) ==> f == (c.sample_rate_hz, c.channels),
            self.spec_config() is None ==> f == (16000i32, 1i32),
    {
        match &self.config {
            Some(c) => (c.sample_rate_hz, c.channels),
            None => (16000, 1),
        }
    }

    /// The final result without an engine: the chunk count and the configured
    /// language, `auto` when no configuration arrived.
    pub fn mock_final(&self) -> (t: String)
        ensures
            self.spec_config() matches Some(c) ==> t@ == mock_final_text(self.spec_chunks(), c.language@),
            self.spec_config() is None ==> t@ == mock_final_text(self.spec_chunks(), "auto"@),
    {
        let mut t = owned("final (");
        push_decimal(&mut t, self.chunks as u64);
        push_str(&mut t, " chunks) [lang:");
        match &self.config {
            Some(c) => push_str(&mut t, c.language.as_str()),
            None => push_str(&mut t, "auto"),
        }
        push_str(&mut t, "]");
        t
    }
}

/// A message of a recognition stream: a configuration, or a chunk of audio.
#[derive(Debug, Clone)]
pub enum StreamMessage {
    Config(StreamConfig),
    Audio(Vec<u8>),
}

/// The number of audio chunks among `ms`.
pub open spec fn audio_count(ms: Seq<StreamMessage>) -> nat
    decreases ms.len(),
{
    if ms.len() == 0 {
        0
    } else {
        audio_count(ms.drop_last()) + if ms.last() is Audio {
            1nat
        } else {
            0nat
        }
    }
}

/// The last configuration among `ms`, if any.
pub open spec fn last_config(ms: Seq<StreamMessage>) -> Option<StreamConfig>
    decreases ms.len(),
{
    if ms.len() == 0 {
        None
    } else {
        match ms.last() {
            StreamMessage::Config(c) => Some(c),
            StreamMessage::Audio(_) => last_config(ms.drop_last()),
        }
    }
}

/// The partial results a stream of messages `ms` is answered with: one per
/// audio chunk, numbered from one, naming the chunk's size.
pub open spec fn partial_replies(ms: Seq<StreamMessage>) -> Seq<Seq<char>>
    decreases ms.len(),
{
    if ms.len() == 0 {
        Seq::empty()
    } else {
        match ms.last() {
            StreamMessage::Audio(b) => partial_replies(ms.drop_last()).push(
                partial_chunk_text(audio_count(ms), b@.len()),
            ),
            StreamMessage::Config(_) => partial_replies(ms.drop_last()),
        }
    }
}

/// The mock final result of the stream `ms`: its chunk count and the language
/// of its last configuration, `auto` when none came.
pub open spec fn mock_final_reply(ms: Seq<StreamMessage>) -> Seq<char> {
    mock_final_text(
        audio_count(ms),
        match last_config(ms) {
            Some(c) => c.language@,
            None => "auto"@,
        },
    )
}

impl RecognizeStream {
    /// A message of the stream: a configuration is stored, an audio chunk is
    /// buffered and answered with its partial result.
    pub fn on_message(&mut self, message: StreamMessage) -> (partial: Option<String>)
        requires
            message is Audio ==> old(self).spec_chunks() < usize::MAX,
        ensures
            message matches StreamMessage::Config(c) ==> final(self).spec_config() == Some(c)
                && final(self).spec_chunks() == old(self).spec_chunks() && partial is None,
            message matches StreamMessage::Audio(b) ==> final(self).spec_config() == old(self).spec_config()
                && final(self).spec_chunks() == old(self).spec_chunks() + 1 && (partial matches Some(t)
                && t@ == partial_chunk_text(final(self).spec_chunks(), b@.len())),
    {
        match message {
            StreamMessage::Config(c) => {
                self.on_config(c);
                None
            },
            StreamMessage::Audio(b) => Some(self.on_audio(b.as_slice())),
        }
    }
}

/// A whole stream of messages served without an engine: each audio chunk is
/// answered with its partial result, in order, and the stream's end with the
/// mock final result naming the chunk count and the last configured language.
pub fn mock_session(messages: Vec<StreamMessage>) -> (replies: (Vec<String>, String))
    requires
        audio_count(messages@) < usize::MAX,
    ensures
        replies.0@.map_values(|t: String| t@) == partial_replies(messages@),
        replies.1@ == mock_final_reply(messages@),
{
    let ghost ms = messages@;
    let n = messages.len();
    let mut rest = messages;
    let mut stream = RecognizeStream::new();
    let mut partials: Vec<String> = Vec::new();
    let mut i: usize = 0;
    proof {
        assert(ms.take(0) =~= Seq::<StreamMessage>::empty());
        assert(partials@.map_values(|t: String| t@) =~= Seq::<Seq<char>>::empty());
        assert(rest@ =~= ms.skip(0));
    }
    while rest.len() > 0
        invariant
            i <= ms.len(),
            ms.len() == n,
            rest@ == ms.skip(i as int),
            audio_count(ms) < usize::MAX,
            stream.spec_chunks() == audio_count(ms.take(i as int)),
            stream.spec_config() == last_config(ms.take(i as int)),
            partials@.map_values(|t: String| t@) == partial_replies(ms.take(i as int)),
        decreases rest.len(),
    {
        proof {
            assert(ms.take(i + 1).drop_last() =~= ms.take(i as int));
            assert(ms.take(i + 1).last() == ms[i as int]);
            lemma_audio_count_prefix(ms, i as int + 1);
        }
        let ghost rest_before = rest@;
        let m = rest.remove(0);
        proof {
            assert(m == ms[i as int]);
            assert(rest@ =~= ms.skip(i + 1));
        }
        let ghost before = partials@.map_values(|t: String| t@);
        match stream.on_message(m) {
            Some(t) => {
                partials.push(t);
                proof {
                    assert(partials@.map_values(|t: String| t@) =~= before.push(partials@.last()@));
                }
            },
            None => {},
        }
        i = i + 1;
    }
    proof {
        assert(ms.take(i as int) =~= ms);
    }
    (partials, stream.mock_final())
}

/// A prefix of a stream has no more audio chunks than the stream.
proof fn lemma_audio_count_prefix(ms: Seq<StreamMessage>, n: int)
    requires
        0 <= n <= ms.len(),
    ensures
        audio_count(ms.take(n)) <= audio_count(ms),
    decreases ms.len() - n,
{
    if n < ms.len() {
        lemma_audio_count_prefix(ms, n + 1);
        assert(ms.take(n + 1).drop_last() =~= ms.take(n));
    } else {
        assert(ms.take(n) =~= ms);
    }
}

// =============================================================================
// Local engine
// =============================================================================

/// The decimal representation of a signed number, with a leading `-` when negative.
pub open spec fn signed_decimal(n: int) -> Seq<char> {
    if n < 0 {
        seq!['-'] + decimal((-n) as nat)
    } else {
        decimal(n as nat)
    }
}

fn push_signed(out: &mut String, n: i32)
    ensures
        final(out)@ == old(out)@ + signed_decimal(n as int),
{
    if n < 0 {
        proof { reveal_strlit("-"); }
        push_str(out, "-");
        push_decimal(out, (-(n as i64)) as u64);
        proof { assert(final(out)@ =~= old(out)@ + signed_decimal(n as int)); }
    } else {
        push_decimal(out, n as u64);
    }
}

/// The message of a PCM format the local engine refuses.
pub open spec fn unsupported_pcm_message(sample_rate_hz: i32, channels: i32) -> Seq<char> {
    "unsupported format: sample_rate="@ + signed_decimal(sample_rate_hz as int) + " channels="@
        + signed_decimal(channels as int)
}

/// The local engine takes 16 kHz mono PCM only.
pub fn check_pcm_format(sample_rate_hz: i32, channels: i32) -> (r: Result<(), AsrError>)
    ensures
        r is Ok <==> sample_rate_hz == 16000 && channels == 1,
        r matches Err(e) ==> (e matches AsrError::Processing { message } && message@
            == unsupported_pcm_message(sample_rate_hz, channels)),
{
    if sample_rate_hz != 16000 || channels != 1 {
        let mut m = owned("unsupported format: sample_rate=");
        push_signed(&mut m, sample_rate_hz);
        push_str(&mut m, " channels=");
        push_signed(&mut m, channels);
        return Err(AsrError::Processing { message: m });
    }
    Ok(())
}

/// Whether the configured language pins the engine: every setting but `auto`
/// in any letter case.
pub fn pins_language(language: &str) -> (b: bool)
    ensures
        b == !eq_ignore_ascii_case(language@, "auto"@),
{
    !str_eq_ignore_ascii_case(language, "auto")
}

/// The segment texts joined in order.
pub open spec fn concat_texts(texts: Seq<Seq<char>>) -> Seq<char>
    decreases texts.len(),
{
    if texts.len() == 0 {
        Seq::empty()
    } else {
        concat_texts(texts.drop_last()) + texts.last()
    }
}

/// The transcript of a local engine run: the segment texts joined as they are.
pub fn join_segments(texts: &Vec<String>) -> (t: String)
    ensures
        t@ == concat_texts(texts@.map_values(|s: String| s@)),
{
    let ghost views = texts@.map_values(|s: String| s@);
    let mut t = String::new();
    let mut i: usize = 0;
    while i < texts.len()
        invariant
            i <= texts@.len(),
            views == texts@.map_values(|s: String| s@),
            t@ == concat_texts(views.take(i as int)),
        decreases texts.len() - i,
    {
        push_str(&mut t, texts[i].as_str());
        proof {
            assert(views.take(i + 1).drop_last() =~= views.take(i as int));
        }
        i = i + 1;
    }
    assert(views.take(i as int) =~= views);
    t
}

} // verus!
