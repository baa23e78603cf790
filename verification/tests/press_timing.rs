//! How long a press took.

use muni::press_timing::{fmt_opt, NewPressTiming, PressTiming};

#[test]
fn fmt_opt_renders_dash_for_none() {
    assert_eq!(fmt_opt(Some(0)), "0");
    assert_eq!(fmt_opt(Some(1234)), "1234");
    assert_eq!(fmt_opt(None), "-");
}

#[test]
fn into_new_press_timing_maps_every_field() {
    let mut t = PressTiming::new("deepgram", Some(4200), Some(380), None);
    t.set_cleanup_ms(420);
    t.set_inject_ms(35);
    t.set_total_ms(850);

    let row = t.into_new_press_timing(Some(7), 1_779_192_000);
    assert_eq!(
        row,
        NewPressTiming {
            created_at: 1_779_192_000,
            session_id: Some(7),
            route: "deepgram".to_string(),
            audio_ms: Some(4200),
            asr_ms: Some(380),
            lid_wait_ms: None,
            cleanup_ms: Some(420),
            inject_ms: Some(35),
            total_ms: 850,
        }
    );
}

#[test]
fn absent_phases_stay_none_and_total_defaults_to_zero() {
    let t = PressTiming::new("parakeet-local", Some(1500), Some(210), None);
    let row = t.into_new_press_timing(None, 42);
    assert_eq!(row.session_id, None);
    assert_eq!(row.lid_wait_ms, None);
    assert_eq!(row.cleanup_ms, None);
    assert_eq!(row.inject_ms, None);
    assert_eq!(row.total_ms, 0);
}

#[test]
fn log_line_does_not_panic_on_sparse_timing() {
    let t = PressTiming::new("rescue", None, None, None);
    assert_eq!(
        t.log_line(),
        "press: route=rescue total_ms=- asr_ms=- lid_wait_ms=- cleanup_ms=- inject_ms=- audio_ms=-"
    );
}

#[test]
fn negative_numbers_keep_their_sign() {
    assert_eq!(fmt_opt(Some(-5)), "-5");
    assert_eq!(fmt_opt(Some(i64::MIN)), "-9223372036854775808");
    assert_eq!(fmt_opt(Some(i64::MAX)), "9223372036854775807");
}
