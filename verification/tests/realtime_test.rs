use std::sync::Arc;
use whisper_api::realtime::asr::{check_pcm_format, join_segments, pins_language, AsrError, MockAsrClient, MockUpdate};
use whisper_api::realtime::audio_pipeline::{
    channel_sums, check_opus_format, decode_buffer_len, warmup_frame_len, FrameReconstructor, LinearResampler,
};
use whisper_api::realtime::config::{
    meets_by_order, AsrPipelineConfig, BrowserClient, IceServerConfig, MobileClient, ModelConfig, ServiceConfig,
    SignalingParameters, StreamingConfig, SupportedClients, VersionOrder,
};
use whisper_api::realtime::http_api::{
    decode_s16le, parse_ingest_route, sse_message, sse_step, IngestRoute, PollOutcome, SseAction, SseEvent,
};
use whisper_api::realtime::resource::ResourceManager;
use whisper_api::realtime::server::extract_session_id;
use whisper_api::realtime::service::SignalingCore;
use whisper_api::realtime::signaling::{
    ClientMetadata, IceServer, NoopTokenValidator, SessionHandle, SessionRequest, SignalingError, TokenValidator,
};
use whisper_api::realtime::transport::{BandwidthTable, ConnectionProfile, StreamKind, TransportError};

fn pipeline_config(max_pending: u32) -> AsrPipelineConfig {
    AsrPipelineConfig {
        service: ServiceConfig { endpoint: "http://localhost:50051".to_string(), request_timeout_ms: 1500, max_stream_duration_s: 600 },
        streaming: StreamingConfig { partial_result_interval_ms: 200, finalization_silence_ms: 800, max_pending_requests: max_pending },
        model: ModelConfig { name: "tiny".to_string(), language: "ja".to_string(), enable_vad: true },
    }
}

fn clients() -> SupportedClients {
    SupportedClients {
        browsers: vec![BrowserClient { name: "Chrome".to_string(), min_version: "110.0".to_string() }],
        mobile: vec![MobileClient { os: "iOS".to_string(), min_version: "16.4".to_string() }],
    }
}

fn handle(id: &str) -> SessionHandle {
    SessionHandle::new(id.to_string(), ClientMetadata::browser("Chrome", "120"), "alice".to_string())
}

#[test]
fn http_module_compiles() {
    assert!(true);
}

#[test]
fn orchestrator_type_compiles() {
    assert!(true);
}

#[test]
fn test_extract_session_id() {
    assert_eq!(extract_session_id("/ws?session_id=abc"), Some("abc".into()));
    assert_eq!(extract_session_id("/ws?x=1"), None);
    assert_eq!(extract_session_id("/ws"), None);
}

#[test]
fn session_id_among_other_parameters() {
    assert_eq!(extract_session_id("/ws?x=1&session_id=s-9&y=2"), Some("s-9".to_string()));
    assert_eq!(extract_session_id("/ws?session_id=&session_id=z"), Some("z".to_string()));
}

#[test]
fn pipeline_timings() {
    let c = pipeline_config(4);
    assert_eq!(c.request_timeout().as_millis(), 1500);
    assert_eq!(c.partial_result_interval().as_millis(), 200);
    assert_eq!(c.finalization_silence().as_millis(), 800);
}

#[test]
fn ingest_routes() {
    assert_eq!(parse_ingest_route("POST", "/http/v1/sessions/abc/chunk"), Some(IngestRoute::Chunk("abc".to_string())));
    assert_eq!(parse_ingest_route("POST", "/http/v1/sessions/abc/finish"), Some(IngestRoute::Finish("abc".to_string())));
    assert_eq!(parse_ingest_route("GET", "/http/v1/sessions/abc/events"), Some(IngestRoute::Events("abc".to_string())));
    assert_eq!(parse_ingest_route("GET", "/http/v1/sessions/abc/chunk"), None);
    assert_eq!(parse_ingest_route("POST", "/http/v1/sessions/abc"), None);
    assert_eq!(parse_ingest_route("POST", "/other/abc/chunk"), None);
    assert_eq!(parse_ingest_route("POST", "/http/v1/sessions/abc/chunk/extra"), None);
}

#[test]
fn pcm_little_endian() {
    assert_eq!(decode_s16le(&[0x01, 0x00, 0xFF, 0xFF, 0x00, 0x80, 0x7F]), vec![1, -1, -32768]);
    assert!(decode_s16le(&[]).is_empty());
}

#[test]
fn client_versions() {
    let c = clients();
    assert!(c.is_browser_supported("chrome", "120.1"));
    assert!(c.is_browser_supported("Chrome", "110.0"));
    assert!(!c.is_browser_supported("Chrome", "109.9"));
    assert!(!c.is_browser_supported("Firefox", "200"));
    assert!(c.is_mobile_supported("IOS", "17"));
    assert!(!c.is_mobile_supported("iOS", "16.3"));
    assert!(c.is_client_supported(&ClientMetadata::mobile("ios", "16.4")));
    assert!(!c.is_client_supported(&ClientMetadata::browser("Safari", "17")));
}

#[test]
fn token_validation() {
    let v = NoopTokenValidator;
    let claims = v.validate("svc:alice", "svc").unwrap();
    assert_eq!(claims.audience, "svc");
    assert_eq!(claims.subject, "alice");
    assert!(claims.expires_at.is_some());
    let claims = v.validate("svc:a:b", "svc").unwrap();
    assert_eq!(claims.subject, "a:b");
    assert_eq!(v.validate("", "svc"), Err(SignalingError::authentication("empty token")));
    assert_eq!(v.validate("svc", "svc"), Err(SignalingError::authentication("missing subject")));
    assert_eq!(v.validate("other:alice", "svc"), Err(SignalingError::authentication("audience mismatch")));
}

#[test]
fn resource_limit_and_release() {
    let mut m = ResourceManager::new(2, 60);
    assert_eq!(m.max_sessions(), 2);
    assert!(m.try_allocate_at(handle("a"), 0).is_ok());
    assert!(m.try_allocate_at(handle("b"), 1).is_ok());
    assert_eq!(m.try_allocate_at(handle("c"), 2), Err(SignalingError::ResourceLimitExceeded));
    assert_eq!(m.active_sessions(), 2);
    assert!(m.release("a").is_ok());
    assert!(matches!(m.release("a"), Err(SignalingError::SessionNotFound { .. })));
    assert!(m.try_allocate_at(handle("c"), 3).is_ok());
    let ids: Vec<String> = m.session_handles().into_iter().map(|h| h.id).collect();
    assert_eq!(ids, vec!["b".to_string(), "c".to_string()]);
}

#[test]
fn resource_expiry_and_heartbeat() {
    let second: u128 = 1_000_000_000;
    let mut m = ResourceManager::new(1, 10);
    assert!(m.try_allocate_at(handle("a"), 0).is_ok());
    assert!(m.heartbeat_at("a", 5 * second).is_ok());
    assert_eq!(m.try_allocate_at(handle("b"), 14 * second), Err(SignalingError::ResourceLimitExceeded));
    assert!(m.try_allocate_at(handle("b"), 16 * second).is_ok());
    assert!(matches!(m.heartbeat_at("a", 16 * second), Err(SignalingError::SessionNotFound { .. })));
    assert_eq!(m.active_sessions(), 1);
}

#[test]
fn signaling_core_sessions() {
    let params = SignalingParameters {
        default_bitrate_kbps: 64,
        ice_servers: vec![IceServerConfig { urls: vec!["stun:stun.example.org".to_string()], username: Some(String::new()), credential: None }],
    };
    let mut core = SignalingCore::new(clients(), "svc", &params, 1, 30);
    assert_eq!(core.expected_audience(), "svc");
    assert!(core.check_client(&ClientMetadata::browser("Chrome", "111")).is_ok());
    assert_eq!(
        core.check_client(&ClientMetadata::browser("Chrome", "100")),
        Err(SignalingError::client_not_supported("unsupported client"))
    );
    let claims = NoopTokenValidator.validate("svc:alice", core.expected_audience()).unwrap();
    let client = ClientMetadata::browser("Chrome", "111");
    let resp = core.open_session(&client, &claims).unwrap();
    assert_eq!(resp.session_id.len(), 36);
    assert_eq!(resp.max_bitrate_kbps, 64);
    assert_eq!(resp.ice_servers, vec![IceServer { urls: vec!["stun:stun.example.org".to_string()], username: None, credential: None }]);
    assert_eq!(core.active_sessions(), 1);
    assert_eq!(core.open_session(&client, &claims), Err(SignalingError::ResourceLimitExceeded));
    assert!(core.heartbeat(&resp.session_id).is_ok());
    assert!(core.end_session(&resp.session_id).is_ok());
    assert_eq!(core.active_sessions(), 0);
    core.update_ice_servers(&vec![]);
    assert!(core.current_ice_servers().is_empty());
}

#[test]
fn profile_keeps_each_kind_once() {
    let p = ConnectionProfile::new(
        128,
        250,
        vec![StreamKind::Audio, StreamKind::Control, StreamKind::Audio, StreamKind::FinalTranscript],
    );
    assert_eq!(p.max_bitrate_kbps, 128);
    assert_eq!(p.latency_budget_ms, 250);
    assert_eq!(p.stream_kinds, vec![StreamKind::Audio, StreamKind::Control, StreamKind::FinalTranscript]);
}

#[test]
fn mock_recognizer_updates() {
    let client = MockAsrClient::new(Arc::new(pipeline_config(2)));
    let mut r = client.recognizer("s1");
    let u = r.on_frame(320);
    assert_eq!(u, vec![MockUpdate::Partial { text: "session s1 frame 1 samples 320".to_string(), aggregated: false }]);
    let u = r.on_frame(160);
    assert_eq!(u.len(), 2);
    assert_eq!(u[1], MockUpdate::Partial { text: "session s1 aggregated 320 160".to_string(), aggregated: true });
    assert_eq!(r.on_finish(), MockUpdate::Final { text: "session s1 complete no additional data".to_string() });
    r.on_frame(80);
    assert_eq!(r.on_finish(), MockUpdate::Final { text: "session s1 complete with 80".to_string() });
}

#[test]
fn mock_recognizer_without_interval_aggregates_every_frame() {
    let client = MockAsrClient::new(Arc::new(pipeline_config(0)));
    let mut r = client.recognizer("x");
    assert_eq!(r.on_frame(5).len(), 2);
}

#[test]
fn frames_of_fixed_length() {
    let mut f: FrameReconstructor<i32> = FrameReconstructor::new(3);
    assert!(f.push(&[1, 2]).is_empty());
    assert_eq!(f.push(&[3, 4, 5, 6, 7]), vec![vec![1, 2, 3], vec![4, 5, 6]]);
    assert_eq!(f.flush(), Some(vec![7]));
    assert_eq!(f.flush(), None);
}

#[test]
fn interleaved_sums() {
    assert_eq!(channel_sums(&[1, 2, 3, 4, 5], 2), vec![3, 7, 5]);
    assert_eq!(channel_sums(&[1, -2, 3], 1), vec![1, -2, 3]);
    assert!(channel_sums(&[1, 2], 0).is_empty());
    assert_eq!(channel_sums(&[32767, 32767, 32767], 3), vec![98301]);
    let samples: Vec<i16> = vec![-7, 300, 12, -32768, 5, 9, 1];
    let total: i32 = samples.iter().map(|s| *s as i32).sum();
    assert_eq!(channel_sums(&samples, 3).iter().sum::<i32>(), total);
}

#[test]
fn opus_formats() {
    assert!(check_opus_format(48000, 2).is_ok());
    assert!(check_opus_format(16000, 1).is_ok());
    assert_eq!(check_opus_format(48000, 3), Err("未対応のチャネル数: 3".to_string()));
    assert_eq!(check_opus_format(44100, 2), Err("未対応のサンプルレート: 44100".to_string()));
    assert_eq!(check_opus_format(44100, 0), Err("未対応のチャネル数: 0".to_string()));
    assert_eq!(decode_buffer_len(48000, 2), 1920);
}

#[test]
fn resampler_rates() {
    let r = LinearResampler::new(48000, 16000);
    assert_eq!(r.input_rate(), 48000);
    assert_eq!(r.output_rate(), 16000);
}

#[test]
fn event_stream_turns() {
    assert_eq!(sse_step(0, PollOutcome::Pending), (0, SseAction::Wait { millis: 50 }));
    assert_eq!(sse_step(0, PollOutcome::NoSession), (0, SseAction::Wait { millis: 100 }));
    assert_eq!(
        sse_step(0, PollOutcome::Partial),
        (1, SseAction::Emit { id: 1, event: SseEvent::Partial, then_close: false })
    );
    assert_eq!(
        sse_step(1, PollOutcome::Final),
        (2, SseAction::Emit { id: 2, event: SseEvent::Final, then_close: true })
    );
    assert_eq!(
        sse_message(3, SseEvent::Partial, "{\"text\":\"hi\"}"),
        "id: 3\nevent: partial\ndata: {\"text\":\"hi\"}\n\n"
    );
    assert_eq!(sse_message(4, SseEvent::Final, "x"), "id: 4\nevent: final\ndata: x\n\n");
}

#[test]
fn bandwidth_limits_read_back() {
    let mut t = BandwidthTable::new();
    assert!(matches!(t.bandwidth_limit("a"), Err(TransportError::NotFound { .. })));
    assert!(t.connect("a", 64).is_ok());
    assert!(t.connect("b", 32).is_ok());
    assert_eq!(t.connect("a", 10), Err(TransportError::AlreadyConnected { session_id: "a".to_string() }));
    assert_eq!(t.bandwidth_limit("a"), Ok(64));
    assert!(t.apply_bandwidth_limit("a", 128).is_ok());
    assert_eq!(t.bandwidth_limit("a"), Ok(128));
    assert_eq!(t.bandwidth_limit("b"), Ok(32));
    assert!(t.disconnect("a").is_ok());
    assert_eq!(t.disconnect("a"), Err(TransportError::NotFound { session_id: "a".to_string() }));
    assert_eq!(t.apply_bandwidth_limit("a", 1), Err(TransportError::NotFound { session_id: "a".to_string() }));
    assert_eq!(t.bandwidth_limit("b"), Ok(32));
}

#[test]
fn local_engine_rules() {
    assert!(check_pcm_format(16000, 1).is_ok());
    assert_eq!(
        check_pcm_format(48000, 2),
        Err(AsrError::Processing { message: "unsupported format: sample_rate=48000 channels=2".to_string() })
    );
    assert_eq!(
        check_pcm_format(-1, 1),
        Err(AsrError::Processing { message: "unsupported format: sample_rate=-1 channels=1".to_string() })
    );
    assert!(!pins_language("AUTO"));
    assert!(pins_language("ja"));
    assert_eq!(join_segments(&vec![" a".to_string(), "b ".to_string()]), " ab ");
}

#[test]
fn warmup_frame() {
    assert_eq!(warmup_frame_len(48000, 20, 2), 1920);
    assert_eq!(warmup_frame_len(16000, 30, 1), 480);
    assert_eq!(warmup_frame_len(44100, 10, 1), 441);
}

#[test]
fn session_requests_checked_in_order() {
    let params = SignalingParameters { default_bitrate_kbps: 32, ice_servers: vec![] };
    let mut core = SignalingCore::new(clients(), "svc", &params, 1, 30);
    let old_browser = SessionRequest {
        client: ClientMetadata::browser("Chrome", "90"),
        auth_token: "bad".to_string(),
        retry: false,
    };
    assert_eq!(
        core.start_session(&NoopTokenValidator, &old_browser),
        Err(SignalingError::client_not_supported("unsupported client"))
    );
    let bad_token = SessionRequest { client: ClientMetadata::browser("Chrome", "120"), auth_token: "other:bob".to_string(), retry: false };
    assert_eq!(
        core.start_session(&NoopTokenValidator, &bad_token),
        Err(SignalingError::authentication("audience mismatch"))
    );
    assert_eq!(core.active_sessions(), 0);
    let good = SessionRequest { client: ClientMetadata::browser("Chrome", "120"), auth_token: "svc:bob".to_string(), retry: false };
    let resp = core.start_session(&NoopTokenValidator, &good).unwrap();
    assert_eq!(resp.max_bitrate_kbps, 32);
    assert_eq!(core.active_sessions(), 1);
    assert_eq!(core.start_session(&NoopTokenValidator, &good), Err(SignalingError::ResourceLimitExceeded));
}

#[test]
fn signaling_error_constructors() {
    assert_eq!(SignalingError::internal("boom"), SignalingError::Internal { message: "boom".to_string() });
    assert_eq!(SignalingError::authentication("x"), SignalingError::Authentication { reason: "x".to_string() });
    assert_eq!(
        SignalingError::client_not_supported("y"),
        SignalingError::ClientNotSupported { reason: "y".to_string() }
    );
    let m = ClientMetadata::mobile("Android", "14");
    assert_eq!(m.name, "Android");
    assert_eq!(m.version, "14");
    let h = SessionHandle::new("id-1".to_string(), m.clone(), "carol".to_string());
    assert_eq!(h.id, "id-1");
    assert_eq!(h.client, m);
    assert_eq!(h.owner, "carol");
}

#[test]
fn version_rule_after_comparison() {
    assert!(!meets_by_order(Some(VersionOrder::Less), "2", "10"));
    assert!(meets_by_order(Some(VersionOrder::Equal), "2", "2"));
    assert!(meets_by_order(Some(VersionOrder::Greater), "10", "2"));
    assert!(meets_by_order(None, "beta", "gamma"));
    assert!(meets_by_order(None, "beta", "beta"));
    assert!(!meets_by_order(None, "gamma", "beta"));
}
