use whisper_api::backend::models::TranscriptionSegment;
use whisper_api::backend::config::Config;
use whisper_api::backend::whisper::{
    get_language_name, get_supported_languages, language_from_setting, round_robin_index, EngineSettings, ModelInfo,
    TranscriptionResult,
};

#[test]
fn test_get_supported_languages() {
    let languages = get_supported_languages();

    assert!(!languages.is_empty());
    assert!(languages.contains(&"auto"));
    assert!(languages.contains(&"en"));
    assert!(languages.contains(&"ja"));
    assert!(languages.contains(&"zh"));
    assert!(languages.contains(&"de"));
    assert!(languages.contains(&"fr"));

    assert!(languages.len() > 50);
    assert!(languages.len() < 200);
}

#[test]
fn test_get_language_name() {
    assert_eq!(get_language_name("en"), "English");
    assert_eq!(get_language_name("ja"), "Japanese");
    assert_eq!(get_language_name("zh"), "Chinese");
    assert_eq!(get_language_name("de"), "German");
    assert_eq!(get_language_name("es"), "Spanish");
    assert_eq!(get_language_name("ru"), "Russian");
    assert_eq!(get_language_name("ko"), "Korean");
    assert_eq!(get_language_name("fr"), "French");
    assert_eq!(get_language_name("pt"), "Portuguese");
    assert_eq!(get_language_name("tr"), "Turkish");
    assert_eq!(get_language_name("pl"), "Polish");
    assert_eq!(get_language_name("ca"), "Catalan");
    assert_eq!(get_language_name("nl"), "Dutch");
    assert_eq!(get_language_name("ar"), "Arabic");
    assert_eq!(get_language_name("sv"), "Swedish");
    assert_eq!(get_language_name("it"), "Italian");
    assert_eq!(get_language_name("auto"), "Auto Detect");
    assert_eq!(get_language_name("unknown_language"), "Unknown");
}

#[test]
fn whisper_test_test_model_info() {
    let model_info = ModelInfo { is_loaded: true, language: Some("ja".to_string()), threads: 8, enable_gpu: false };

    assert!(model_info.is_loaded);
    assert_eq!(model_info.language, Some("ja".to_string()));
    assert_eq!(model_info.threads, 8);
    assert!(!model_info.enable_gpu);
}

#[test]
fn test_transcription_result() {
    let segments = vec![
        TranscriptionSegment::new("Hello".to_string(), 0, 1000),
        TranscriptionSegment::new("World".to_string(), 1000, 2000),
    ];

    let result = TranscriptionResult {
        text: "Hello World".to_string(),
        segments: segments.clone(),
        language: Some("en".to_string()),
        processing_time_ms: 1500,
    };

    assert_eq!(result.text, "Hello World");
    assert_eq!(result.segments.len(), 2);
    assert_eq!(result.language, Some("en".to_string()));
    assert_eq!(result.processing_time_ms, 1500);
}

#[test]
fn test_all_supported_languages_have_names() {
    let languages = get_supported_languages();

    for &lang in languages.iter() {
        let name = get_language_name(lang);
        assert_ne!(name, "");
        assert_ne!(name, "Unknown");
    }
}

#[test]
fn test_language_name_coverage() {
    let major_languages = vec![
        ("en", "English"),
        ("ja", "Japanese"),
        ("zh", "Chinese"),
        ("de", "German"),
        ("es", "Spanish"),
        ("fr", "French"),
        ("ru", "Russian"),
        ("ko", "Korean"),
        ("pt", "Portuguese"),
        ("it", "Italian"),
        ("ar", "Arabic"),
    ];

    for (code, expected_name) in major_languages {
        assert!(get_supported_languages().contains(&code));
        assert_eq!(get_language_name(code), expected_name);
    }
}

#[test]
fn test_auto_language_detection() {
    assert!(get_supported_languages().contains(&"auto"));
    assert_eq!(get_language_name("auto"), "Auto Detect");
}

#[test]
fn test_model_info_clone() {
    let original = ModelInfo { is_loaded: true, language: Some("en".to_string()), threads: 4, enable_gpu: true };

    let cloned = original.clone();

    assert_eq!(original.is_loaded, cloned.is_loaded);
    assert_eq!(original.language, cloned.language);
    assert_eq!(original.threads, cloned.threads);
    assert_eq!(original.enable_gpu, cloned.enable_gpu);
}

#[test]
fn test_transcription_result_clone() {
    let segments = vec![TranscriptionSegment::new("Test".to_string(), 0, 1000)];

    let original = TranscriptionResult {
        text: "Test".to_string(),
        segments: segments.clone(),
        language: Some("en".to_string()),
        processing_time_ms: 500,
    };

    let cloned = original.clone();

    assert_eq!(original.text, cloned.text);
    assert_eq!(original.segments.len(), cloned.segments.len());
    assert_eq!(original.language, cloned.language);
    assert_eq!(original.processing_time_ms, cloned.processing_time_ms);
}

#[test]
fn supported_languages_are_unique_and_start_with_auto() {
    let languages = get_supported_languages();
    assert_eq!(languages.len(), 100);
    assert_eq!(languages[0], "auto");
    for (i, a) in languages.iter().enumerate() {
        for b in languages.iter().skip(i + 1) {
            assert_ne!(a, b);
        }
    }
}

#[test]
fn language_setting() {
    assert_eq!(language_from_setting("auto"), None);
    assert_eq!(language_from_setting(" AUTO "), None);
    assert_eq!(language_from_setting("   "), None);
    assert_eq!(language_from_setting(" ja "), Some("ja".to_string()));
}

#[test]
fn result_from_segments_with_timestamps() {
    let texts = vec![" Hello ".to_string(), "world ".to_string()];
    let times = vec![(0i64, 150i64), (150i64, 320i64)];
    let r = TranscriptionResult::from_segments(&texts, &times, true, Some("en"), &Some("ja".to_string()));
    assert_eq!(r.text, "Helloworld");
    assert_eq!(r.segments.len(), 2);
    assert_eq!(r.segments[0].text, "Hello");
    assert_eq!(r.segments[0].start_time_ms, 0);
    assert_eq!(r.segments[0].end_time_ms, 1500);
    assert_eq!(r.segments[1].start_time_ms, 1500);
    assert_eq!(r.segments[1].end_time_ms, 3200);
    assert_eq!(r.language, Some("en".to_string()));
    assert_eq!(r.processing_time_ms, 0);
}

#[test]
fn result_from_segments_without_timestamps() {
    let texts = vec!["  ".to_string()];
    let times = vec![];
    let r = TranscriptionResult::from_segments(&texts, &times, false, None, &None);
    assert_eq!(r.text, "(音声を認識できませんでした)");
    assert!(r.segments.is_empty());
    assert_eq!(r.language, None);
}

#[test]
fn engine_settings_from_config() {
    let mut config = Config::default();
    let s = EngineSettings::from_config(&config);
    assert_eq!(s.language, None);
    assert_eq!(s.whisper_threads, 14);
    assert!(s.enable_gpu);
    config.whisper.language = " ja ".to_string();
    config.whisper.enable_gpu = false;
    let s = EngineSettings::from_config(&config);
    let info = s.model_info();
    assert!(info.is_loaded);
    assert_eq!(info.language, Some("ja".to_string()));
    assert_eq!(info.threads, 14);
    assert!(!info.enable_gpu);
}

#[test]
fn engines_take_turns() {
    assert_eq!(round_robin_index(0, 3), 0);
    assert_eq!(round_robin_index(4, 3), 1);
    assert_eq!(round_robin_index(usize::MAX, 1), 0);
}
