use whisper_api::backend::audio::format_file_size;
use whisper_api::backend::models::{ModelCatalog, ModelQuality, TranscriptionSegment};

#[test]
fn test_mocks_test_model_catalog() {
    let catalog = ModelCatalog::default();

    assert!(catalog.models.contains_key("tiny"));
    assert!(catalog.models.contains_key("base"));
    assert!(catalog.models.contains_key("small"));
    assert!(catalog.models.contains_key("medium"));
    assert!(catalog.models.contains_key("large-v3-turbo-q5_0"));

    let tiny_model = catalog.models.get("tiny").unwrap();
    assert_eq!(tiny_model.name, "Whisper Tiny");
    assert_eq!(tiny_model.size_mb, 39);
    assert!(tiny_model.download_url.starts_with("https://"));
}

#[test]
fn test_mocks_test_transcription_segment() {
    let segment = TranscriptionSegment::new("Hello world".to_string(), 1000, 3000);

    assert_eq!(segment.text, "Hello world");
    assert_eq!(segment.start_time_ms, 1000);
    assert_eq!(segment.end_time_ms, 3000);
    assert_eq!(segment.duration_ms(), 2000);

    let srt = segment.to_srt_format(0);
    assert!(srt.contains("1"));
    assert!(srt.contains("00:00:01,000 --> 00:00:03,000"));
    assert!(srt.contains("Hello world"));

    let vtt = segment.to_vtt_format();
    assert!(vtt.contains("00:00:01.000 --> 00:00:03.000"));
    assert!(vtt.contains("Hello world"));
}

#[test]
fn test_mocks_test_audio_utilities() {
    assert_eq!(format_file_size(500), "500 B");
    assert_eq!(format_file_size(1024), "1.0 KB");
    assert_eq!(format_file_size(1024 * 1024), "1.0 MB");
    assert_eq!(format_file_size(1536 * 1024 * 1024), "1.5 GB");
}

#[test]
fn test_mocks_test_model_quality() {
    assert_eq!(ModelQuality::Tiny.to_string(), "tiny");
    assert_eq!(ModelQuality::Base.to_string(), "base");
    assert_eq!(ModelQuality::Large.to_string(), "large");
    assert_eq!(ModelQuality::LargeV3.to_string(), "large-v3");
}

#[test]
fn test_file_size_formatting_details() {
    let test_cases = vec![
        (0, "0 B"),
        (512, "512 B"),
        (1024, "1.0 KB"),
        (1536, "1.5 KB"),
        (1048576, "1.0 MB"),
        (1610612736, "1.5 GB"),
    ];

    for (bytes, expected) in test_cases {
        assert_eq!(format_file_size(bytes), expected);
    }
}

#[test]
fn test_time_format_conversions() {
    let test_cases = vec![
        (0, "00:00:00,000", "00:00:00.000"),
        (500, "00:00:00,500", "00:00:00.500"),
        (1000, "00:00:01,000", "00:00:01.000"),
        (61500, "00:01:01,500", "00:01:01.500"),
        (3661500, "01:01:01,500", "01:01:01.500"),
    ];

    for (ms, expected_srt, expected_vtt) in test_cases {
        let segment = TranscriptionSegment::new("Test".to_string(), ms, ms);
        let srt = segment.to_srt_format(0);
        let vtt = segment.to_vtt_format();

        assert!(srt.contains(expected_srt), "SRT format failed for {}ms", ms);
        assert!(vtt.contains(expected_vtt), "VTT format failed for {}ms", ms);
    }
}
