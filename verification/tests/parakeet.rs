//! The local speech sidecar.

use muni::error::MuniError;
use muni::parakeet::{
    check_files, check_startup, choose_path, decode_response, encode_pcm_payload, is_selected,
    payload_len, read_frame, resolve_engine, roundtrip, write_frame, Engine, Exchange, FrameRead,
    ParakeetClient, PathChoice, Startup, MAX_FRAME_BYTES,
};

fn dead() -> ParakeetClient {
    ParakeetClient { running: false, respawning: false, respawn_kicks: 0 }
}

fn unavailable(result: Result<(), MuniError>) -> String {
    match result {
        Err(MuniError::ParakeetSidecarUnavailable { reason }) => reason,
        other => panic!("unexpected result: {other:?}"),
    }
}

fn failed(result: Result<(String, u32), MuniError>) -> String {
    match result {
        Err(MuniError::ParakeetTranscribeFailed { reason }) => reason,
        other => panic!("unexpected result: {other:?}"),
    }
}

#[test]
fn transcribe_fails_fast_and_kicks_respawn_when_sidecar_dead() {
    let mut client = dead();
    let err = client.transcribe(&[0i16; 16]).expect_err("dead sidecar must not transcribe");
    assert!(
        matches!(err, MuniError::ParakeetSidecarUnavailable { .. }),
        "expected ParakeetSidecarUnavailable, got {err:?}"
    );
    assert_eq!(
        client.respawn_kicks(),
        1,
        "a background respawn must be kicked exactly once"
    );
}

#[test]
fn encode_pcm_payload_is_little_endian() {
    let payload = encode_pcm_payload(&[0x0102, -1, 0]);
    assert_eq!(payload, vec![0x02, 0x01, 0xFF, 0xFF, 0x00, 0x00]);
}

#[test]
fn decode_response_splits_infer_ms_and_text() {
    let mut frame = 437u32.to_le_bytes().to_vec();
    frame.extend_from_slice(b"hello world");
    let (text, infer_ms) = decode_response(&frame).expect("ok response");
    assert_eq!(infer_ms, 437);
    assert_eq!(text, "hello world");
}

#[test]
fn decode_response_treats_err_prefix_as_failure() {
    let mut frame = 0u32.to_le_bytes().to_vec();
    frame.extend_from_slice(b"ERR:model exploded");
    let err = decode_response(&frame).expect_err("ERR body is a failure");
    match err {
        MuniError::ParakeetTranscribeFailed { reason } => assert_eq!(reason, "model exploded"),
        other => panic!("unexpected error: {other:?}"),
    }
}

#[test]
fn decode_response_rejects_short_frame() {
    assert!(decode_response(&[0x01, 0x02]).is_err());
    assert_eq!(failed(decode_response(&[0x01, 0x02])), "short response frame (2 bytes)");
}

#[test]
fn frame_write_then_read_roundtrips() {
    let mut buf: Vec<u8> = Vec::new();
    buf.extend_from_slice(&write_frame(b"READY"));
    buf.extend_from_slice(&write_frame(b"second"));

    assert_eq!(read_frame(&buf), FrameRead::Frame(b"READY".to_vec()));
    assert_eq!(read_frame(&buf[9..]), FrameRead::Frame(b"second".to_vec()));
    assert_eq!(read_frame(&buf[19..]), FrameRead::Closed);
}

#[test]
fn read_frame_rejects_oversized_prefix() {
    let len = MAX_FRAME_BYTES + 1;
    assert_eq!(read_frame(&len.to_le_bytes()), FrameRead::Oversized);
    assert_eq!(
        payload_len(&len.to_le_bytes()),
        Err("frame length 67108865 exceeds 67108864 byte cap".to_string())
    );
}

#[test]
fn is_selected_respects_env() {
    assert!(!is_selected(None));
    assert!(is_selected(Some(" Parakeet ".to_string())));
    assert!(!is_selected(Some("deepgram".to_string())));
}

#[test]
fn a_frame_that_breaks_off_is_told_apart() {
    let frame = write_frame(b"hello");
    assert_eq!(frame, vec![5, 0, 0, 0, 104, 101, 108, 108, 111]);
    assert_eq!(read_frame(&frame[..8]), FrameRead::Truncated);
    assert_eq!(read_frame(&frame[..3]), FrameRead::Closed);
    assert_eq!(read_frame(&write_frame(b"")), FrameRead::Frame(Vec::new()));
    assert_eq!(payload_len(&MAX_FRAME_BYTES.to_le_bytes()), Ok(67108864));
}

#[test]
fn text_that_is_not_utf8_is_replaced() {
    let mut frame = 1u32.to_le_bytes().to_vec();
    frame.extend_from_slice(&[104, 0xFF, 105]);
    assert_eq!(decode_response(&frame).expect("ok response"), ("h\u{FFFD}i".to_string(), 1));
}

#[test]
fn engines_go_by_name() {
    assert_eq!(resolve_engine(None), Engine::Onnx);
    assert_eq!(resolve_engine(Some(" ANE ".to_string())), Engine::Ane);
    assert_eq!(resolve_engine(Some("onnx".to_string())), Engine::Onnx);
}

#[test]
fn a_sidecar_starts_with_ready_and_nothing_else() {
    assert!(check_startup(Startup::Said(Some(b"READY".to_vec()))).is_ok());
    assert_eq!(
        unavailable(check_startup(Startup::Said(Some(b"NO".to_vec())))),
        "unexpected handshake: Some([78, 79])"
    );
    assert_eq!(
        unavailable(check_startup(Startup::Said(None))),
        "unexpected handshake: None"
    );
    assert_eq!(unavailable(check_startup(Startup::TimedOut)), "no READY within 150s");
    assert_eq!(unavailable(check_startup(Startup::NoStdin)), "child stdin pipe missing");
    assert_eq!(unavailable(check_startup(Startup::NoStdout)), "child stdout pipe missing");
    assert_eq!(
        unavailable(check_startup(Startup::ReadFailed { error: "broken".to_string() })),
        "reading READY: broken"
    );
    assert_eq!(
        unavailable(check_startup(Startup::SpawnFailed {
            bin: "/bin/x".to_string(),
            error: "no such file".to_string(),
        })),
        "spawn /bin/x: no such file"
    );
}

#[test]
fn files_must_be_there() {
    assert!(check_files("/bin/x", true, None).is_ok());
    assert!(check_files("/bin/x", true, Some(("/m", true))).is_ok());
    assert_eq!(
        unavailable(check_files("/bin/x", false, Some(("/m", false)))),
        "sidecar binary not found: /bin/x"
    );
    assert_eq!(
        unavailable(check_files("/bin/x", true, Some(("/m", false)))),
        "model dir not found: /m"
    );
}

#[test]
fn a_request_fails_with_its_reason() {
    assert_eq!(failed(roundtrip(Exchange::TimedOut)), "no response within 15s");
    assert_eq!(failed(roundtrip(Exchange::Closed)), "sidecar closed pipe");
    assert_eq!(
        failed(roundtrip(Exchange::WriteFailed { error: "e".to_string() })),
        "write request: e"
    );
    assert_eq!(
        failed(roundtrip(Exchange::ReadFailed { error: "e".to_string() })),
        "read response: e"
    );
}

#[test]
fn a_failed_sidecar_is_started_again_once() {
    let mut client = ParakeetClient::started();
    assert_eq!(client.transcribe(&[1]).expect("it runs"), vec![1, 0]);
    assert!(client.finish_transcribe(Exchange::Closed).is_err());
    assert!(!client.running);
    assert_eq!(client.respawn_kicks(), 1);
    assert!(!client.kick_respawn());
    assert!(client.transcribe(&[1]).is_err());
    assert_eq!(client.respawn_kicks(), 1);

    client.respawn_done(true);
    let mut reply = 12u32.to_le_bytes().to_vec();
    reply.extend_from_slice(b"ok");
    assert_eq!(
        client.finish_transcribe(Exchange::Reply(reply)).expect("it runs"),
        ("ok".to_string(), 12)
    );
    assert!(client.running);
}

#[test]
fn a_restart_that_fails_leaves_it_stopped() {
    let mut client = dead();
    assert!(client.kick_respawn());
    client.respawn_done(false);
    assert!(!client.running);
    assert!(client.kick_respawn());
    assert_eq!(client.respawn_kicks(), 2);
}

#[test]
fn paths_are_looked_for_in_order() {
    assert_eq!(
        choose_path(Some(" /x ".to_string()), true, true, true, true),
        PathChoice::Explicit("/x".to_string())
    );
    assert_eq!(choose_path(Some("  ".to_string()), true, true, true, true), PathChoice::Bundled);
    assert_eq!(choose_path(None, false, true, false, true), PathChoice::SourceTree);
    assert_eq!(choose_path(None, false, true, false, false), PathChoice::Bundled);
    assert_eq!(choose_path(None, false, false, false, false), PathChoice::BareName);
}

#[test]
fn a_path_that_leads_nowhere_is_passed_over() {
    let gone = || Some("/gone".to_string());
    assert_eq!(choose_path(gone(), false, true, true, false), PathChoice::Bundled);
    assert_eq!(choose_path(gone(), false, true, false, true), PathChoice::SourceTree);
    assert_eq!(choose_path(gone(), false, true, false, false), PathChoice::Bundled);
    assert_eq!(choose_path(gone(), false, false, false, false), PathChoice::BareName);
}
