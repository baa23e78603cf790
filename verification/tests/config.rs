//! The variables that configure voice and language detection.

use muni::config::{
    build_audio_lid_classifier, build_secondary_lid_classifier, build_streaming_vad_factory,
    build_text_lid_classifier, build_text_lid_classifier_for_provider, build_vad_detector,
    dispatches_to_audio, resolve_audio_hybrid_enabled, resolve_lid_model,
    resolve_lid_provider_slug, resolve_vad_audio_lid_gate_enabled, resolve_vad_min_speech_ms,
    resolve_vad_required, resolve_vad_stream_min_silence_ms, resolve_vad_stream_word_guard_ms,
    StreamingVad, TextLid, VadOutcome, AUDIO_LID_PROVIDER_AUDIO_WHISPER_TINY,
    STREAM_DEFAULT_MIN_SILENCE_MS,
};

/// The least amount of speech that holds unless it is set.
const DEFAULT_MIN_SPEECH_MS: u32 = 150;

fn set(value: &str) -> Option<String> {
    Some(value.to_string())
}

#[test]
fn text_lid_groq_provider_builds_classifier_for_rollback() {
    let client = build_text_lid_classifier_for_provider("groq", None)
        .expect("groq factory must construct without an API key");
    assert!(matches!(client, TextLid::Groq { .. }), "got {client:?}");
}

#[test]
fn text_lid_gemini_provider_builds_classifier_for_rollback() {
    let client = build_text_lid_classifier_for_provider("gemini", None)
        .expect("gemini factory must construct without an API key");
    assert!(matches!(client, TextLid::Gemini { .. }), "got {client:?}");
}

#[test]
fn audio_lid_provider_does_not_match_text_lid_dispatch() {
    assert!(
        build_text_lid_classifier_for_provider(AUDIO_LID_PROVIDER_AUDIO_WHISPER_TINY, None)
            .is_none()
    );
    assert!(build_text_lid_classifier_for_provider("", None).is_none());
    assert!(build_text_lid_classifier_for_provider("soniox", None).is_none());
}

#[test]
fn vad_gate_disabled_via_env_yields_no_detector() {
    assert_eq!(
        build_vad_detector(set("off"), true, None),
        VadOutcome::Disabled,
        "MUNI_VAD_GATE=off must yield None (gate disabled)"
    );
}

#[test]
fn vad_gate_default_enabled_builds_silero_detector() {
    assert_eq!(
        build_vad_detector(None, true, None),
        VadOutcome::Ready,
        "default-on must build the detector"
    );
}

#[test]
fn vad_min_speech_ms_env_rejects_zero() {
    let m = resolve_vad_min_speech_ms(set("0"), DEFAULT_MIN_SPEECH_MS);
    assert_eq!(m, DEFAULT_MIN_SPEECH_MS);
    assert_eq!(resolve_vad_min_speech_ms(set("1"), DEFAULT_MIN_SPEECH_MS), 1);
    assert_eq!(resolve_vad_min_speech_ms(set("4294967296"), DEFAULT_MIN_SPEECH_MS), 150);
}

#[test]
fn streaming_vad_factory_default_on_post_dogfood() {
    let factory = build_streaming_vad_factory(None, None, None, None, None);
    let factory = factory.expect("default-on post-dogfood: both unset → factory must be Some");
    assert_eq!(factory, StreamingVad { min_silence_ms: 500, word_guard_ms: 500 });
}

#[test]
fn streaming_vad_factory_enabled_when_only_hybrid_on_trim_off() {
    let factory = build_streaming_vad_factory(set("on"), set("off"), None, None, None);
    assert!(factory.is_some(), "hybrid on (trim off) → factory must be Some");
}

#[test]
fn streaming_vad_factory_enabled_when_only_trim_on_hybrid_off() {
    let factory = build_streaming_vad_factory(set("off"), set("on"), None, None, None);
    assert!(factory.is_some(), "trim-release on (hybrid off) → factory must be Some");
}

#[test]
fn streaming_vad_min_silence_clamps_out_of_range() {
    let v = resolve_vad_stream_min_silence_ms(set("10"));
    assert_eq!(
        v, STREAM_DEFAULT_MIN_SILENCE_MS,
        "below sanity floor (50 ms) → falls back to default"
    );
    assert_eq!(resolve_vad_stream_min_silence_ms(set("50")), 50);
    assert_eq!(resolve_vad_stream_min_silence_ms(set("10000")), 10_000);
    assert_eq!(resolve_vad_stream_min_silence_ms(set("10001")), 500);
}

#[test]
fn resolve_vad_audio_lid_gate_defaults_on_when_unset() {
    assert!(
        resolve_vad_audio_lid_gate_enabled(None),
        "unset env must default to on (post-dogfood 2026-05-21)"
    );
}

#[test]
fn resolve_vad_audio_lid_gate_treats_off_keywords_as_disabled() {
    for value in ["off", "0", "false", "no", "OFF", "False", "No", " off "] {
        let enabled = resolve_vad_audio_lid_gate_enabled(set(value));
        assert!(
            !enabled,
            "value {value:?} must switch it off (case-insensitive, trimmed)"
        );
    }
}

#[test]
fn resolve_vad_audio_lid_gate_treats_other_values_as_enabled() {
    for value in ["on", "1", "true", "yes", "banana", ""] {
        let enabled = resolve_vad_audio_lid_gate_enabled(set(value));
        assert!(enabled, "value {value:?} must not switch it off (default-on polarity)");
    }
}

#[test]
fn build_streaming_vad_factory_returns_some_when_only_audio_lid_gate_on() {
    let factory = build_streaming_vad_factory(set("off"), set("off"), set("on"), None, None);
    assert!(factory.is_some(), "audio-LID gate on (others off) → factory must be Some");
}

#[test]
fn build_streaming_vad_factory_disabled_when_all_three_kill_switches_off() {
    let factory = build_streaming_vad_factory(set("off"), set("off"), set("off"), None, None);
    assert!(
        factory.is_none(),
        "all three kill switches explicit off → factory must be None"
    );
}

#[test]
fn a_detector_that_does_not_load_is_fatal_if_required() {
    assert_eq!(build_vad_detector(None, false, None), VadOutcome::Degraded);
    assert_eq!(build_vad_detector(None, false, set(" YES ")), VadOutcome::Fatal);
    assert_eq!(build_vad_detector(set("0"), false, set("1")), VadOutcome::Disabled);
    assert!(!resolve_vad_required(set("maybe")));
    assert!(!resolve_vad_required(None));
}

#[test]
fn the_word_guard_takes_zero() {
    assert_eq!(resolve_vad_stream_word_guard_ms(set("0")), 0);
    assert_eq!(resolve_vad_stream_word_guard_ms(set("5001")), 500);
    assert_eq!(resolve_vad_stream_word_guard_ms(set(" 20 ")), 20);
}

#[test]
fn providers_are_lowered_and_default_to_audio() {
    assert_eq!(resolve_lid_provider_slug(set(" GROQ ")), "groq");
    assert_eq!(resolve_lid_provider_slug(set("  ")), "audio_whisper_tiny");
    assert_eq!(resolve_lid_provider_slug(None), "audio_whisper_tiny");
    assert_eq!(resolve_lid_provider_slug(set("ÄB")), "äb");
    assert!(dispatches_to_audio("audio_whisper_tiny"));
    assert!(dispatches_to_audio("soniox"));
    assert!(!dispatches_to_audio("gemini"));
}

#[test]
fn a_model_can_be_asked_for() {
    assert_eq!(resolve_lid_model(set(" m ")), Some("m".to_string()));
    assert_eq!(resolve_lid_model(set(" ")), None);
    assert_eq!(
        build_text_lid_classifier_for_provider("groq", Some("m")),
        Some(TextLid::Groq { model: "m".to_string() })
    );
}

#[test]
fn the_second_classifier_depends_on_the_first() {
    assert!(matches!(
        build_secondary_lid_classifier(true, None, None),
        Some(TextLid::Groq { .. })
    ));
    assert!(matches!(
        build_secondary_lid_classifier(false, None, None),
        Some(TextLid::Gemini { .. })
    ));
    assert!(build_secondary_lid_classifier(true, None, set("FALSE")).is_none());
    assert!(build_secondary_lid_classifier(false, set("false"), None).is_none());
    assert!(resolve_audio_hybrid_enabled(set("0")));
}

#[test]
fn transcript_and_audio_exclude_each_other() {
    for provider in [None, set(""), set("groq"), set(" Gemini"), set("audio_whisper_tiny"), set("x")] {
        let on_text = build_text_lid_classifier(provider.clone(), None).is_some();
        assert_eq!(build_audio_lid_classifier(provider.clone(), true), !on_text);
        assert!(!build_audio_lid_classifier(provider, false));
    }
    assert_eq!(
        build_text_lid_classifier(set("gemini"), set(" gemini-2.5-flash ")),
        Some(TextLid::Gemini { model: "gemini-2.5-flash".to_string() })
    );
    assert_eq!(
        build_text_lid_classifier(set("groq"), None),
        Some(TextLid::Groq { model: "openai/gpt-oss-120b".to_string() })
    );
}
