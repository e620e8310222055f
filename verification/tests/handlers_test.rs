use whisper_api::backend::handlers::{
    basic_request, basic_upload_name, check_upload_size, form_field_kind, language_infos,
    memory_usage_mb_from_status, parse_decimal_u64, parse_flag, ApiError, FormField, TranscribeForm,
};
use whisper_api::backend::models::{ApiErrorCode, ModelCatalog, ModelInfo};

#[test]
fn test_api_error_new() {
    let error = ApiError::new(ApiErrorCode::InvalidInput, "Test error message");

    assert!(matches!(error.code, ApiErrorCode::InvalidInput));
    assert_eq!(error.message, "Test error message");
    assert!(error.details.is_none());
}

#[test]
fn test_api_error_with_details() {
    let error = ApiError::new(ApiErrorCode::ProcessingFailed, "Failed to process")
        .with_details("Stack trace or additional info");

    assert!(matches!(error.code, ApiErrorCode::ProcessingFailed));
    assert_eq!(error.message, "Failed to process");
    assert_eq!(error.details, Some("Stack trace or additional info".to_string()));
}

#[test]
fn test_api_error_from_anyhow() {
    let anyhow_error = anyhow::Error::msg("Something went wrong");
    let api_error = ApiError::from(anyhow_error);

    assert!(matches!(api_error.code, ApiErrorCode::InternalError));
    assert_eq!(api_error.message, "Something went wrong");
}

#[test]
fn test_api_error_debug() {
    let error = ApiError::new(ApiErrorCode::FileTooLarge, "File is too big");
    let debug_str = format!("{:?}", error);

    assert!(debug_str.contains("FileTooLarge"));
    assert!(debug_str.contains("File is too big"));
}

#[test]
fn test_model_catalog_access() {
    let catalog = ModelCatalog::default();

    assert!(!catalog.models.is_empty());
    assert!(catalog.models.contains_key("tiny"));
    assert!(catalog.models.contains_key("base"));
    assert!(catalog.models.contains_key("small"));
}

#[test]
fn test_model_info_creation() {
    let catalog = ModelCatalog::default();
    let model_def = catalog.models.get("base").unwrap();

    let model_info = ModelInfo {
        name: model_def.name.clone(),
        file_path: "/test/path/ggml-base.bin".to_string(),
        size_mb: model_def.size_mb,
        description: model_def.description.clone(),
        language_support: model_def.language_support.clone(),
        is_available: false,
    };

    assert_eq!(model_info.name, "Whisper Base");
    assert_eq!(model_info.size_mb, 142);
    assert!(!model_info.is_available);
    assert!(model_info.language_support.contains(&"multilingual".to_string()));
}

#[test]
fn status_codes_of_error_codes() {
    assert_eq!(ApiErrorCode::InvalidInput.http_status(), 400);
    assert_eq!(ApiErrorCode::FileTooLarge.http_status(), 413);
    assert_eq!(ApiErrorCode::UnsupportedFormat.http_status(), 415);
    assert_eq!(ApiErrorCode::ProcessingFailed.http_status(), 500);
    assert_eq!(ApiErrorCode::ModelNotLoaded.http_status(), 503);
    assert_eq!(ApiErrorCode::ServerOverloaded.http_status(), 429);
    assert_eq!(ApiErrorCode::InternalError.http_status(), 500);
}

#[test]
fn upload_size_rule() {
    assert!(check_upload_size(1024, 1024).is_ok());
    let e = check_upload_size(2 * 1024 * 1024, 1024 * 1024).unwrap_err();
    assert!(matches!(e.code, ApiErrorCode::FileTooLarge));
    assert_eq!(e.message, "ファイルサイズが制限を超えています: 2.0 MB > 1.0 MB");
    assert!(e.details.is_none());
}

#[test]
fn languages_endpoint_list() {
    let infos = language_infos();
    assert_eq!(infos.len(), 100);
    assert_eq!(infos[0].code, "auto");
    assert_eq!(infos[0].name, "Auto Detect");
    let ja = infos.iter().find(|i| i.code == "ja").unwrap();
    assert_eq!(ja.name, "Japanese");
    assert!(infos.iter().all(|i| i.name != "Unknown"));
}

#[test]
fn model_entry_sizes() {
    let catalog = ModelCatalog::default();
    let def = catalog.models.get("tiny").unwrap();
    let missing = ModelInfo::from_definition(def, "models/ggml-tiny.bin".to_string(), false, Some(5 * 1048576));
    assert_eq!(missing.size_mb, 39);
    assert!(!missing.is_available);
    let present = ModelInfo::from_definition(def, "models/ggml-tiny.bin".to_string(), true, Some(75 * 1048576 + 3));
    assert_eq!(present.size_mb, 75);
    assert_eq!(present.name, "Whisper Tiny");
    assert_eq!(present.language_support, vec!["multilingual"]);
    let unknown = ModelInfo::from_definition(def, "models/ggml-tiny.bin".to_string(), true, None);
    assert_eq!(unknown.size_mb, 39);
}

#[test]
fn memory_usage_from_status_text() {
    let status = "Name:\tserver\nVmPeak:\t  900000 kB\nVmRSS:\t  524288 kB\nThreads:\t4\n";
    assert_eq!(memory_usage_mb_from_status(status), Some(512));
    assert_eq!(memory_usage_mb_from_status("VmRSS: 1023 kB"), Some(0));
    assert_eq!(memory_usage_mb_from_status("VmRSS:\nVmRSS: 2048 kB\n"), Some(2));
    assert_eq!(memory_usage_mb_from_status("VmRSS: lots kB\n"), None);
    assert_eq!(memory_usage_mb_from_status("Name: x\n"), None);
    assert_eq!(memory_usage_mb_from_status(""), None);
}

#[test]
fn decimal_numbers_like_std() {
    for t in ["0", "42", "+7", "18446744073709551615", "18446744073709551616", "", "+", "-1", "1a", " 1"] {
        assert_eq!(parse_decimal_u64(t), t.parse::<u64>().ok(), "{}", t);
    }
}

#[test]
fn basic_form() {
    let r = basic_request();
    assert_eq!(r.language, None);
    assert_eq!(r.translate_to_english, Some(false));
    assert_eq!(r.include_timestamps, Some(false));
    assert_eq!(basic_upload_name(Some("a.wav")), "a.wav");
    assert_eq!(basic_upload_name(None), "audio");
}

#[test]
fn timestamped_form_fields() {
    assert_eq!(form_field_kind("file"), FormField::File);
    assert_eq!(form_field_kind("language"), FormField::Language);
    assert_eq!(form_field_kind("translate_to_english"), FormField::TranslateToEnglish);
    assert_eq!(form_field_kind("other"), FormField::Other);
    assert!(parse_flag("true"));
    assert!(!parse_flag("false"));
    assert!(!parse_flag("yes"));

    let form = TranscribeForm::new();
    let e = form.finish().unwrap_err();
    assert!(matches!(e.code, ApiErrorCode::InvalidInput));
    assert_eq!(e.message, "ファイルが見つかりません");

    let mut form = TranscribeForm::new();
    form.set_language("ja".to_string());
    form.set_translate("true");
    form.set_file(None, vec![1, 2, 3]);
    let (data, name, request) = form.finish().unwrap();
    assert_eq!(data, vec![1, 2, 3]);
    assert_eq!(name, "audio");
    assert_eq!(request.language, Some("ja".to_string()));
    assert_eq!(request.translate_to_english, Some(true));
    assert_eq!(request.include_timestamps, Some(true));
}

fn test_state_config() -> whisper_api::backend::config::Config {
    let mut config = whisper_api::backend::config::Config::default();
    config.paths.models_dir = "state/models".to_string();
    config.paths.temp_dir = "state".to_string();
    config.paths.upload_dir = "state".to_string();
    config.limits.max_file_size_mb = 10;
    config.limits.max_audio_duration_minutes = 5;
    config.server.host = "127.0.0.1".to_string();
    config.server.port = 8080;
    config
}

#[test]
fn test_file_size_validation() {
    let config = test_state_config();
    let max_size = config.max_file_size_bytes();
    assert_eq!(max_size, 10 * 1024 * 1024);
}

#[test]
fn test_supported_formats_config() {
    let config = test_state_config();
    let supported_formats = &config.audio.supported_formats;
    assert!(supported_formats.contains(&"wav".to_string()));
    assert!(supported_formats.contains(&"mp3".to_string()));
    assert!(supported_formats.contains(&"m4a".to_string()));
    assert!(supported_formats.contains(&"flac".to_string()));
    assert!(supported_formats.contains(&"ogg".to_string()));
}

#[test]
fn test_audio_duration_limits() {
    let config = test_state_config();
    assert_eq!(config.limits.max_audio_duration_minutes, 5);
    assert_eq!(config.limits.max_file_size_mb, 10);
}

#[test]
fn test_request_timeout_configuration() {
    let config = test_state_config();
    assert_eq!(config.performance.request_timeout_seconds, 300);
    assert_eq!(config.performance.max_concurrent_requests, 10);
}

#[test]
fn test_performance_configuration() {
    let config = test_state_config();
    assert_eq!(config.performance.whisper_threads, 14);
    assert_eq!(config.performance.audio_threads, 10);
}

#[test]
fn test_cleanup_configuration() {
    let config = test_state_config();
    assert_eq!(config.limits.cleanup_temp_files_after_minutes, 60);
}
