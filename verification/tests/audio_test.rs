use whisper_api::backend::audio::{
    contains_format, format_file_size, format_from_extension, format_from_header, metadata_format_name, temp_file_suffix,
    AudioProcessor, PacketTally,
};
use whisper_api::backend::config::Config;

fn test_config() -> Config {
    let mut config = Config::default();
    config.limits.max_file_size_mb = 10;
    config.limits.max_audio_duration_minutes = 5;
    config.audio.sample_rate = 16000;
    config
}

#[test]
fn test_format_file_size() {
    assert_eq!(format_file_size(500), "500 B");
    assert_eq!(format_file_size(1024), "1.0 KB");
    assert_eq!(format_file_size(1536), "1.5 KB");
    assert_eq!(format_file_size(1024 * 1024), "1.0 MB");
    assert_eq!(format_file_size(1024 * 1024 * 1024), "1.0 GB");
    assert_eq!(format_file_size(1536 * 1024 * 1024), "1.5 GB");
}

#[test]
fn file_size_rounding_ties_to_even() {
    assert_eq!(format_file_size(1023), "1023 B");
    assert_eq!(format_file_size(1280), "1.2 KB");
    assert_eq!(format_file_size(1331), "1.3 KB");
    assert_eq!(format_file_size(1048575), "1024.0 KB");
    assert_eq!(format_file_size(5 * 1024 * 1024 * 1024 * 1024), "5120.0 GB");
    assert_eq!(format_file_size(u64::MAX), "17179869184.0 GB");
}

#[test]
fn test_is_supported_format() {
    let processor = AudioProcessor::new(test_config());

    assert!(processor.is_supported_format("test.wav"));
    assert!(processor.is_supported_format("test.mp3"));
    assert!(processor.is_supported_format("test.m4a"));
    assert!(processor.is_supported_format("test.flac"));
    assert!(processor.is_supported_format("test.ogg"));

    assert!(processor.is_supported_format("TEST.WAV"));
    assert!(processor.is_supported_format("Test.Mp3"));

    assert!(processor.is_supported_format("test.mp4"));

    assert!(!processor.is_supported_format("test.txt"));
    assert!(!processor.is_supported_format("test.pdf"));
    assert!(!processor.is_supported_format("test"));
}

#[test]
fn test_validate_file_size() {
    let processor = AudioProcessor::new(test_config());

    let result = processor.validate_file_size(5 * 1024 * 1024);
    assert!(result.is_ok());

    let result = processor.validate_file_size(10 * 1024 * 1024);
    assert!(result.is_ok());

    let result = processor.validate_file_size(11 * 1024 * 1024);
    assert!(result.is_err());
    assert!(result.unwrap_err().to_string().contains("ファイルサイズが制限を超えています"));
}

#[test]
fn format_by_extension() {
    let cases = vec![("test.wav", "wav"), ("test.mp3", "mp3"), ("test.m4a", "m4a"), ("test.flac", "flac"), ("test.ogg", "ogg")];
    for (name, expected) in cases {
        assert_eq!(format_from_extension(name), Some(expected.to_string()));
    }
    assert_eq!(format_from_extension("dir/Song.FLAC"), Some("flac".to_string()));
    assert_eq!(format_from_extension("test_no_ext"), None);
    assert_eq!(format_from_extension(".hidden"), None);
}

#[test]
fn format_by_magic_number() {
    assert_eq!(format_from_header(b"RIFF\x24\x08\x00\x00WAVEfmt "), Some("wav".to_string()));
    assert_eq!(format_from_header(b"ID3\x03\x00\x00\x00\x00\x00\x00"), Some("mp3".to_string()));
    assert_eq!(format_from_header(b"fLaC\x00\x00\x00\x22"), Some("flac".to_string()));
}

#[test]
fn format_by_magic_number_short_and_other_signatures() {
    assert_eq!(format_from_header(&[0xFF, 0xFB]), Some("mp3".to_string()));
    assert_eq!(format_from_header(b"ID3"), Some("mp3".to_string()));
    assert_eq!(format_from_header(b"\x00\x00\x00\x20ftyp"), Some("m4a".to_string()));
    assert_eq!(format_from_header(b"OggS"), Some("ogg".to_string()));
    assert_eq!(format_from_header(b"RIFF\x24\x08\x00\x00WAV"), None);
    assert_eq!(format_from_header(b"fLa"), None);
    assert_eq!(format_from_header(b""), None);
    assert_eq!(format_from_header(b"hello world!"), None);
}

#[test]
fn probe_names_and_suffixes() {
    assert_eq!(metadata_format_name("clip.MP3"), "mp3");
    assert_eq!(metadata_format_name("clip"), "unknown");
    assert_eq!(temp_file_suffix("clip.WAV"), ".WAV");
    assert_eq!(temp_file_suffix("clip"), ".bin");
}

#[test]
fn packet_tally_counts_own_track() {
    let mut t = PacketTally::new();
    assert_eq!(t.check_not_empty(), Err("音声データが空です".to_string()));
    t.add(1, 2, 100, 100);
    assert_eq!(t.total_duration, 0);
    t.add(1, 1, 100, 50);
    t.add(1, 1, u64::MAX, 1);
    assert_eq!(t.total_duration, u64::MAX);
    assert_eq!(t.total_frames, 51);
    assert!(t.check_not_empty().is_ok());
}

#[test]
fn format_membership() {
    let formats = vec!["wav".to_string(), "mp3".to_string()];
    assert!(contains_format(&formats, "mp3"));
    assert!(!contains_format(&formats, "MP3"));
    assert!(!contains_format(&formats, ""));
}
