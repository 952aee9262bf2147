use translate_bot::config::{
    default_backend_concurrency, default_langs, default_max_input_chars,
    default_translation_max_attempts, default_translation_overall_timeout_secs,
    default_translation_request_timeout_secs, default_translation_retry_initial_backoff_ms,
    default_true, effective_translation_config, EffectiveTranslationConfig,
    RoomTranslationConfig, RoomTranslations, TranslationConfig, TranslationRetryPolicy,
};
use translate_bot::handler::Settings;
use translate_bot::interval::Interval;
use translate_bot::skip::SkipReason;
use translate_bot::targets::{best_detection, resolve_translation_targets, DetectResult};

fn test_translation_config() -> EffectiveTranslationConfig<f64> {
    EffectiveTranslationConfig {
        langs: vec!["en".to_owned(), "de".to_owned(), "uk".to_owned()],
        min_confidence: 0.5,
        reply_to_original: true,
        thread_replies: true,
        silent_messages: false,
    }
}

#[test]
fn resolve_translation_targets_below_confidence_is_skipped() {
    let cfg = test_translation_config();
    let result = resolve_translation_targets("de", 0.07, &cfg);
    assert_eq!(result, Err(SkipReason::BelowConfidence));
}

#[test]
fn resolve_translation_targets_language_not_configured_is_skipped() {
    let cfg = test_translation_config();
    let result = resolve_translation_targets("id", 0.99, &cfg);
    assert_eq!(result, Err(SkipReason::LanguageNotConfigured));
}

#[test]
fn resolve_translation_targets_no_remaining_targets_is_skipped() {
    let mut cfg = test_translation_config();
    cfg.langs = vec!["de".to_owned()];
    let result = resolve_translation_targets("de", 0.99, &cfg);
    assert_eq!(result, Err(SkipReason::NoRemainingTargets));
}

#[test]
fn resolve_translation_targets_returns_remaining_langs_on_success() {
    let cfg = test_translation_config();
    let result = resolve_translation_targets("de", 0.99, &cfg);
    assert_eq!(result, Ok(vec!["en".to_owned(), "uk".to_owned()]));
}

#[test]
fn the_threshold_itself_is_enough() {
    let cfg = test_translation_config();
    assert!(resolve_translation_targets("de", 0.5, &cfg).is_ok());
    assert_eq!(
        resolve_translation_targets("id", 0.49, &cfg),
        Err(SkipReason::BelowConfidence)
    );
    // A confidence that does not compare is not below the threshold.
    assert!(resolve_translation_targets("de", f64::NAN, &cfg).is_ok());
}

#[test]
fn best_detection_is_the_last_of_the_most_confident() {
    let guess = |language: &str, confidence: f64| DetectResult {
        language: language.to_owned(),
        confidence,
    };
    assert_eq!(best_detection(&Vec::<DetectResult<f64>>::new()), None);
    let guesses = vec![guess("de", 40.0), guess("en", 90.0), guess("uk", 90.0), guess("fr", 1.0)];
    assert_eq!(best_detection(&guesses), Some(2));
    let odd = vec![guess("de", 40.0), guess("en", f64::NAN)];
    assert_eq!(best_detection(&odd), Some(1));
}

#[test]
fn default_translation_config() {
    let cfg = TranslationConfig::default(0.5);
    assert!(
        cfg.reply_to_original,
        "default: reply_to_original must be true"
    );
    assert!(cfg.thread_replies, "default: thread_replies must be true");
    assert!(
        !cfg.silent_messages,
        "default: silent_messages must be false"
    );
    assert_eq!(
        cfg.backend_concurrency, 4,
        "default: backend_concurrency must be 4"
    );
    assert_eq!(cfg.request_timeout_secs, 60);
    assert_eq!(cfg.max_attempts, 3);
    assert_eq!(cfg.retry_initial_backoff_ms, 250);
    assert_eq!(cfg.overall_timeout_secs, 90);
}

#[test]
fn single_defaults() {
    assert_eq!(default_langs(), vec!["en", "de"]);
    assert!(default_true());
    assert_eq!(default_backend_concurrency(), 4);
    assert_eq!(default_translation_request_timeout_secs(), 60);
    assert_eq!(default_translation_max_attempts(), 3);
    assert_eq!(default_translation_retry_initial_backoff_ms(), 250);
    assert_eq!(default_translation_overall_timeout_secs(), 90);
    assert_eq!(default_max_input_chars(), 4_000);
}

#[test]
fn room_translation_override_changes_only_langs() {
    let mut rooms = RoomTranslations::new();
    rooms.insert(
        "!room:example.org".to_owned(),
        RoomTranslationConfig {
            langs: Some(vec!["de".to_owned(), "uk".to_owned()]),
            ..Default::default()
        },
    );

    let default = TranslationConfig {
        langs: vec!["en".to_owned(), "de".to_owned(), "uk".to_owned()],
        min_confidence: 0.8,
        reply_to_original: false,
        thread_replies: false,
        silent_messages: true,
        backend_concurrency: 2,
        request_timeout_secs: 60,
        max_attempts: 3,
        retry_initial_backoff_ms: 250,
        overall_timeout_secs: 90,
        max_input_chars: 4_000,
    };

    let effective = effective_translation_config(&default, &rooms, "!room:example.org");
    assert_eq!(effective.langs, vec!["de", "uk"]);
    assert_eq!(effective.min_confidence, 0.8);
    assert!(!effective.reply_to_original);
    assert!(!effective.thread_replies);
    assert!(effective.silent_messages);
}

#[test]
fn room_translation_unknown_room_uses_default() {
    let mut rooms = RoomTranslations::new();
    rooms.insert(
        "!room:example.org".to_owned(),
        RoomTranslationConfig {
            langs: Some(vec!["de".to_owned(), "uk".to_owned()]),
            ..Default::default()
        },
    );

    let default = TranslationConfig::default(0.5);
    let effective = effective_translation_config(&default, &rooms, "!other:example.org");

    assert_eq!(effective.langs, default.langs);
    assert_eq!(effective.min_confidence, default.min_confidence);
    assert_eq!(effective.reply_to_original, default.reply_to_original);
    assert_eq!(effective.thread_replies, default.thread_replies);
    assert_eq!(effective.silent_messages, default.silent_messages);
}

#[test]
fn room_translation_overrides_every_setting() {
    let mut rooms = RoomTranslations::new();
    rooms.insert(
        "!room:example.org".to_owned(),
        RoomTranslationConfig {
            langs: None,
            min_confidence: Some(0.7),
            reply_to_original: Some(false),
            thread_replies: Some(false),
            silent_messages: Some(true),
        },
    );
    let settings = Settings {
        translation: TranslationConfig::default(0.5),
        room_translations: rooms,
        admin_users: vec![],
    };
    let effective = settings.translation_for_room("!room:example.org");
    assert_eq!(effective.langs, vec!["en", "de"]);
    assert_eq!(effective.min_confidence, 0.7);
    assert!(!effective.reply_to_original);
    assert!(!effective.thread_replies);
    assert!(effective.silent_messages);
}

#[test]
fn serde_entire_translation_section_missing_defaults_to_true() {
    // A configuration without any translation settings falls back to the
    // defaults as a whole.
    let cfg = TranslationConfig::default(0.5);
    assert!(
        cfg.reply_to_original,
        "TranslationConfig::default() must set reply_to_original = true"
    );
}

#[test]
fn retry_policy_has_lower_bounds() {
    let mut cfg = TranslationConfig::default(0.5);
    cfg.request_timeout_secs = 0;
    cfg.max_attempts = 0;
    cfg.overall_timeout_secs = 0;
    cfg.retry_initial_backoff_ms = 0;
    cfg.backend_concurrency = 0;
    let policy = TranslationRetryPolicy::from_config(&cfg);
    assert_eq!(policy.request_timeout, Interval::from_secs(1));
    assert_eq!(policy.max_attempts, 1);
    assert_eq!(policy.overall_timeout, Interval::from_secs(1));
    assert!(policy.initial_backoff.is_zero());
    assert_eq!(cfg.backend_permits(), 1);
    let policy = TranslationRetryPolicy::from_config(&TranslationConfig::default(0.5));
    assert_eq!(policy.request_timeout, Interval::from_secs(60));
    assert_eq!(policy.initial_backoff, Interval::from_millis(250));
}
