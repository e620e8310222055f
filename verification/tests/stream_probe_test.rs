use whisper_api::backend::audio::{read_error_of, summarize_probe, ProbedTrack, ReadStop, NULL_CODEC};
use whisper_api::realtime::asr::{mock_session, RecognizeStream, StreamConfig, StreamMessage};
use whisper_api::realtime::orchestrator::{
    closing_steps, forward_step, keep_sending, send_policy, EndStep, ForwardAction, PacketDecode, SendPolicy,
    TranscriptEvent,
};
use whisper_api::realtime::resource::ResourceManager;
use whisper_api::realtime::signaling::{ClientMetadata, SessionHandle};

fn track(id: u32, has_codec: bool, sample_rate: Option<u32>, channels: Option<usize>) -> ProbedTrack {
    let codec = if has_codec { 0x100 } else { NULL_CODEC };
    ProbedTrack { id, codec, sample_rate, channels, time_base: Some((1, 16000)) }
}

fn ended() -> ReadStop {
    ReadStop::Io { unexpected_eof: true, text: "end of stream".to_string() }
}

fn packet(track_id: u32, duration: u64, block_duration: u64) -> (u32, u64, u64) {
    (track_id, duration, block_duration)
}

#[test]
fn recognize_stream_without_config_uses_defaults() {
    let mut s = RecognizeStream::new();
    assert_eq!(s.engine_format(), (16000, 1));
    let p1 = s.on_audio(&[0x01, 0x00, 0xFF, 0xFF]);
    assert_eq!(p1, "partial chunk 1 (4 bytes)");
    let p2 = s.on_audio(&[0x00, 0x80, 0x07]);
    assert_eq!(p2, "partial chunk 2 (3 bytes)");
    assert_eq!(s.samples(), &vec![1i16, -1, i16::MIN]);
    assert_eq!(s.mock_final(), "final (2 chunks) [lang:auto]");
}

#[test]
fn recognize_stream_keeps_the_last_config() {
    let mut s = RecognizeStream::new();
    s.on_config(StreamConfig { language: "en".to_string(), sample_rate_hz: 48000, channels: 2 });
    s.on_config(StreamConfig { language: "ja".to_string(), sample_rate_hz: 16000, channels: 1 });
    assert_eq!(s.engine_format(), (16000, 1));
    assert_eq!(s.mock_final(), "final (0 chunks) [lang:ja]");
    let p = s.on_audio(&[]);
    assert_eq!(p, "partial chunk 1 (0 bytes)");
    assert!(s.samples().is_empty());
    assert_eq!(s.mock_final(), "final (1 chunks) [lang:ja]");
}

#[test]
fn forwarding_decisions() {
    assert_eq!(forward_step(Ok(Some(TranscriptEvent::Partial))), ForwardAction::Send);
    assert_eq!(forward_step(Ok(Some(TranscriptEvent::Final))), ForwardAction::SendAndStop);
    assert_eq!(forward_step(Ok(None)), ForwardAction::Wait);
    assert_eq!(forward_step(Err(())), ForwardAction::Stop);
}

#[test]
fn summary_of_first_audio_track() {
    let tracks = vec![track(7, false, Some(8000), Some(2)), track(3, true, Some(44100), None), track(4, true, Some(8000), Some(2))];
    let packets = vec![packet(3, 10, 12), packet(4, 100, 100), packet(3, 5, 5), packet(7, 9, 9)];
    let s = summarize_probe(&tracks, &packets, ended(), "dir/Speech.WAV", 1234).unwrap();
    assert_eq!(s.sample_rate, 44100);
    assert_eq!(s.channels, 1);
    assert_eq!(s.time_base, Some((1, 16000)));
    assert_eq!(s.total_duration, 15);
    assert_eq!(s.total_frames, 17);
    assert_eq!(s.file_size_bytes, 1234);
    assert_eq!(s.format, "wav");
}

#[test]
fn summary_totals_saturate_and_name_unknown_format() {
    let tracks = vec![track(1, true, Some(16000), Some(2))];
    let packets = vec![packet(1, u64::MAX - 1, 1), packet(1, 5, 0)];
    let s = summarize_probe(&tracks, &packets, ended(), "noext", 9).unwrap();
    assert_eq!(s.channels, 2);
    assert_eq!(s.total_duration, u64::MAX);
    assert_eq!(s.total_frames, 1);
    assert_eq!(s.format, "unknown");
}

#[test]
fn summary_errors() {
    let none = vec![track(1, false, Some(16000), None)];
    assert_eq!(summarize_probe(&none, &vec![packet(1, 1, 1)], ended(), "a.wav", 1).unwrap_err(), "音声トラックが見つかりません");
    let no_rate = vec![track(1, true, None, None)];
    assert_eq!(summarize_probe(&no_rate, &vec![packet(1, 1, 1)], ended(), "a.wav", 1).unwrap_err(), "サンプリングレートが取得できません");
    let ok = vec![track(1, true, Some(16000), None)];
    assert_eq!(
        summarize_probe(&ok, &vec![packet(1, 1, 1)], ReadStop::Failed { text: "bad".to_string() }, "a.wav", 1).unwrap_err(),
        "パケット読み込みエラー: bad"
    );
    assert_eq!(summarize_probe(&ok, &vec![packet(2, 1, 1)], ended(), "a.wav", 1).unwrap_err(), "音声データが空です");
}

#[test]
fn reading_stops_cleanly_only_at_the_end_of_the_stream() {
    assert_eq!(read_error_of(ReadStop::ResetRequired), None);
    assert_eq!(read_error_of(ended()), None);
    assert_eq!(
        read_error_of(ReadStop::Io { unexpected_eof: false, text: "broken pipe".to_string() }),
        Some("broken pipe".to_string())
    );
    assert_eq!(read_error_of(ReadStop::Failed { text: "malformed stream: x".to_string() }), Some("malformed stream: x".to_string()));
}

#[test]
fn io_failure_fails_the_summary() {
    let ok = vec![track(1, true, Some(16000), None)];
    let stop = ReadStop::Io { unexpected_eof: false, text: "disk".to_string() };
    assert_eq!(summarize_probe(&ok, &vec![packet(1, 1, 1)], stop, "a.wav", 1).unwrap_err(), "パケット読み込みエラー: disk");
    assert!(summarize_probe(&ok, &vec![packet(1, 1, 1)], ReadStop::ResetRequired, "a.wav", 1).is_ok());
}


#[test]
fn mock_session_answers_each_chunk_and_the_end() {
    let messages = vec![
        StreamMessage::Config(StreamConfig { language: "en".to_string(), sample_rate_hz: 16000, channels: 1 }),
        StreamMessage::Audio(vec![0; 640]),
        StreamMessage::Config(StreamConfig { language: "ja".to_string(), sample_rate_hz: 16000, channels: 1 }),
        StreamMessage::Audio(vec![1, 2, 3]),
    ];
    let (partials, last) = mock_session(messages);
    assert_eq!(partials, vec!["partial chunk 1 (640 bytes)".to_string(), "partial chunk 2 (3 bytes)".to_string()]);
    assert_eq!(last, "final (2 chunks) [lang:ja]");
    let (none, last) = mock_session(Vec::new());
    assert!(none.is_empty());
    assert_eq!(last, "final (0 chunks) [lang:auto]");
}

#[test]
fn packet_sending_rules() {
    assert_eq!(send_policy(PacketDecode::Decoded), SendPolicy::UntilFailure);
    assert_eq!(send_policy(PacketDecode::Failed { concealed: true }), SendPolicy::IgnoringFailures);
    assert_eq!(send_policy(PacketDecode::Failed { concealed: false }), SendPolicy::Nothing);
    assert!(keep_sending(SendPolicy::UntilFailure, true));
    assert!(!keep_sending(SendPolicy::UntilFailure, false));
    assert!(keep_sending(SendPolicy::IgnoringFailures, false));
    assert!(!keep_sending(SendPolicy::Nothing, true));
}

#[test]
fn session_audio_ends_with_finish_and_drop() {
    assert_eq!(closing_steps(true), vec![EndStep::SendRemainder, EndStep::Finish, EndStep::Drop]);
    assert_eq!(closing_steps(false), vec![EndStep::Finish, EndStep::Drop]);
}

fn owned_handle(id: &str, owner: &str) -> SessionHandle {
    SessionHandle::new(id.to_string(), ClientMetadata::browser("Chrome", "120"), owner.to_string())
}

#[test]
fn other_sessions_keep_their_owners() {
    let mut m = ResourceManager::new(3, 60);
    assert!(m.try_allocate_at(owned_handle("a", "alice"), 0).is_ok());
    assert!(m.try_allocate_at(owned_handle("b", "bob"), 1).is_ok());
    assert!(m.try_allocate_at(owned_handle("c", "carol"), 2).is_ok());
    assert!(m.release("b").is_ok());
    let owners: Vec<(String, String)> = m.session_handles().into_iter().map(|h| (h.id, h.owner)).collect();
    assert_eq!(owners, vec![("a".to_string(), "alice".to_string()), ("c".to_string(), "carol".to_string())]);
}
