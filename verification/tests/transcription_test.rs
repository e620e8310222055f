use whisper_api::backend::handlers::{
    transcribe_switches, transcription_response, unsupported_format, worker_failure, TranscriptionOutput,
};
use whisper_api::backend::models::{ApiErrorCode, TranscribeRequest, TranscriptionSegment};
use whisper_api::backend::whisper::{get_language_name, get_supported_languages};

fn request(translate: Option<bool>, timestamps: Option<bool>) -> TranscribeRequest {
    TranscribeRequest { language: Some("ja".to_string()), translate_to_english: translate, include_timestamps: timestamps }
}

#[test]
fn switches_default_to_off() {
    assert_eq!(transcribe_switches(&request(None, None)), (false, false));
    assert_eq!(transcribe_switches(&request(Some(true), None)), (true, false));
    assert_eq!(transcribe_switches(&request(Some(false), Some(true))), (false, true));
}

#[test]
fn response_carries_the_run_output() {
    let out = TranscriptionOutput {
        text: "こんにちは".to_string(),
        segments: Some(vec![TranscriptionSegment::new("こんにちは".to_string(), 0, 1500)]),
        language: Some("ja".to_string()),
        duration_ms: 1500,
        processing_time_ms: 42,
    };
    let r = transcription_response(Ok(out)).unwrap();
    assert_eq!(r.text, "こんにちは");
    assert_eq!(r.language, Some("ja".to_string()));
    assert_eq!(r.duration_ms, Some(1500));
    assert_eq!(r.processing_time_ms, 42);
    assert_eq!(r.segments.unwrap().len(), 1);
}

#[test]
fn failed_run_is_a_processing_failure() {
    let e = transcription_response(Err("decode failed".to_string())).unwrap_err();
    assert_eq!(e.code, ApiErrorCode::ProcessingFailed);
    assert_eq!(e.message, "decode failed");
    assert_eq!(e.details, None);
}

#[test]
fn failure_messages() {
    assert_eq!(unsupported_format("a.txt"), "サポートされていないファイル形式: a.txt");
    let e = worker_failure("panicked");
    assert_eq!(e.code, ApiErrorCode::InternalError);
    assert_eq!(e.message, "処理スレッドエラー: panicked");
}

/// The SRT stamp reads back to its milliseconds, and the VTT stamp differs only in the separator.
#[test]
fn srt_time_reads_back_on_samples() {
    for ms in [0u64, 61_500, 3_661_500, 359_999_999] {
        let seg = TranscriptionSegment::new("x".to_string(), ms, ms);
        let srt = seg.to_srt_format(1);
        let stamp = &srt.lines().nth(1).unwrap()[..12];
        let field = |a: usize, b: usize| stamp[a..b].parse::<u64>().unwrap();
        assert_eq!(&stamp[2..3], ":");
        assert_eq!(&stamp[5..6], ":");
        assert_eq!(&stamp[8..9], ",");
        assert!(field(3, 5) < 60 && field(6, 8) < 60);
        assert_eq!(field(0, 2) * 3_600_000 + field(3, 5) * 60_000 + field(6, 8) * 1000 + field(9, 12), ms);
        let vtt = seg.to_vtt_format();
        assert_eq!(&vtt[..12], stamp.replace(',', "."));
    }
}

#[test]
fn every_supported_language_has_a_nonempty_name() {
    for code in get_supported_languages() {
        let name = get_language_name(&code);
        assert!(!name.is_empty());
        assert_ne!(name, "Unknown");
    }
}
