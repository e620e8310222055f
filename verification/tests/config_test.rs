use whisper_api::backend::config::{Config, ConfigIssue};

#[test]
fn test_config_default() {
    let config = Config::default();

    assert_eq!(config.server.host, "0.0.0.0");
    assert_eq!(config.server.port, 8080);
    assert_eq!(config.server.cors_origins, vec!["*"]);
    assert_eq!(config.server.max_request_size, 100 * 1024 * 1024);

    assert_eq!(config.whisper.model_path, "models/ggml-large-v3-turbo-q5_0.bin");
    assert_eq!(config.whisper.default_model, "large-q5_0");
    assert_eq!(config.whisper.language, "auto");
    assert_eq!(config.whisper.enable_gpu, true);

    assert_eq!(config.audio.sample_rate, 16000);
    assert_eq!(config.audio.channels, 1);
    assert_eq!(config.audio.buffer_size, 4096);

    assert_eq!(config.performance.audio_threads, 10);
    assert_eq!(config.performance.whisper_threads, 14);
    assert_eq!(config.performance.max_concurrent_requests, 10);
    assert_eq!(config.performance.request_timeout_seconds, 300);

    assert_eq!(config.limits.max_file_size_mb, 50);
    assert_eq!(config.limits.max_audio_duration_minutes, 180);
    assert_eq!(config.limits.cleanup_temp_files_after_minutes, 60);
}

#[test]
fn test_config_helper_methods() {
    let config = Config::default();

    assert_eq!(config.server_address(), "0.0.0.0:8080");

    assert_eq!(config.max_file_size_bytes(), 50 * 1024 * 1024);
}

#[test]
fn test_config_custom_values() {
    let mut config = Config::default();

    config.server.host = "127.0.0.1".to_string();
    config.server.port = 3000;
    config.whisper.language = "ja".to_string();
    config.whisper.enable_gpu = false;
    config.audio.sample_rate = 44100;
    config.performance.whisper_threads = 8;
    config.limits.max_file_size_mb = 100;

    assert_eq!(config.server.host, "127.0.0.1");
    assert_eq!(config.server.port, 3000);
    assert_eq!(config.whisper.language, "ja");
    assert_eq!(config.whisper.enable_gpu, false);
    assert_eq!(config.audio.sample_rate, 44100);
    assert_eq!(config.performance.whisper_threads, 8);
    assert_eq!(config.limits.max_file_size_mb, 100);

    assert_eq!(config.server_address(), "127.0.0.1:3000");
    assert_eq!(config.max_file_size_bytes(), 100 * 1024 * 1024);
}

#[test]
fn default_config_supported_formats() {
    let config = Config::default();
    assert_eq!(config.audio.supported_formats, vec!["wav", "mp3", "mp4", "m4a", "flac", "ogg"]);
    assert_eq!(config.paths.models_dir, "models");
}

#[test]
fn port_rule() {
    let mut config = Config::default();
    assert!(config.check_port().is_ok());
    config.server.port = 0;
    let issue = config.check_port().unwrap_err();
    assert_eq!(issue, ConfigIssue::InvalidPort(0));
    assert_eq!(issue.message(), "無効なポート番号: 0");
}

#[test]
fn limit_rules_in_order() {
    let mut config = Config::default();
    assert!(config.check_limits().is_ok());

    config.performance.whisper_threads = 0;
    config.performance.max_concurrent_requests = 0;
    let issue = config.check_limits().unwrap_err();
    assert_eq!(issue, ConfigIssue::ZeroWhisperThreads);
    assert!(issue.message().contains("Whisperスレッド数は1以上である必要があります"));

    config.performance.whisper_threads = 4;
    let issue = config.check_limits().unwrap_err();
    assert_eq!(issue, ConfigIssue::ZeroConcurrentRequests);
    assert!(issue.message().contains("最大同時リクエスト数は1以上である必要があります"));

    config.performance.max_concurrent_requests = 10;
    config.limits.max_file_size_mb = 0;
    let issue = config.check_limits().unwrap_err();
    assert_eq!(issue, ConfigIssue::ZeroFileSize);
    assert!(issue.message().contains("最大ファイルサイズは1MB以上である必要があります"));
}

#[test]
fn missing_model_message() {
    let issue = ConfigIssue::ModelNotFound("models/x.bin".to_string());
    let m = issue.message();
    assert!(m.starts_with("Whisperモデルファイルが見つかりません: models/x.bin\n"));
    assert!(m.ends_with("-P models/"));
    let issue = ConfigIssue::DirectoryCreation { dir: "tmp".to_string(), reason: "denied".to_string() };
    assert_eq!(issue.message(), "ディレクトリの作成に失敗: tmp - denied");
}

#[test]
fn required_directories_in_order() {
    let config = Config::default();
    let dirs = config.required_directories();
    assert_eq!(dirs, vec![config.paths.models_dir.clone(), config.paths.temp_dir.clone(), config.paths.upload_dir.clone()]);
}

#[test]
fn file_size_rule_message() {
    let mut config = Config::default();
    config.limits.max_file_size_mb = 10;
    assert!(config.check_file_size(10 * 1024 * 1024).is_ok());
    let m = config.check_file_size(11 * 1024 * 1024).unwrap_err();
    assert_eq!(m, "ファイルサイズが制限を超えています: 11MB > 10MB");
}
