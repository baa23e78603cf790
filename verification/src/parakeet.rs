//! The local speech sidecar: which one is used, how it is talked to, and what
//! happens when it does not answer.
//!
//! Requests and replies are frames: the length of the payload, as four bytes
//! with the lowest first, and the payload.

use vstd::prelude::*;
use vstd::slice::slice_subrange;
use vstd::utf8::*;

use crate::error::MuniError;
use crate::text::{decimal_digits, decimal_text, decode_lossy, eq_ignore_ascii_case, join, joined};
use crate::text::{joining_in_two_steps, same_ignoring_ascii_case, strip_prefix, trim, trimmed};
use crate::text::{utf8_lossy, views};

verus! {

/// Variable that picks the service that transcribes.
pub const ASR_BACKEND_ENV: &'static str = "MUNI_ASR_BACKEND";

/// Variable for where the model is.
pub const MODEL_DIR_ENV: &'static str = "MUNI_PARAKEET_MODEL_DIR";

/// Variable for where the sidecar is.
pub const BIN_ENV: &'static str = "MUNI_PARAKEET_BIN";

/// Variable that picks the engine.
pub const ENGINE_ENV: &'static str = "MUNI_PARAKEET_ENGINE";

/// Name of the sidecar that runs on the processor.
pub const SIDECAR_BIN_NAME: &'static str = "parakeet-sidecar";

/// Name of the sidecar that runs on the neural engine.
pub const ANE_SIDECAR_BIN_NAME: &'static str = "parakeet-ane-sidecar";

/// How long the sidecar may take to start, in seconds.
pub const READY_TIMEOUT_S: u64 = 150;

/// How long the sidecar may take to transcribe, in seconds.
pub const TRANSCRIBE_TIMEOUT_S: u64 = 15;

/// The longest payload that is taken.
pub const MAX_FRAME_BYTES: u32 = 64 * 1024 * 1024;

/// What the sidecar runs on.
#[derive(Debug, Clone, Copy, PartialEq, Eq, Structural)]
pub enum Engine {
    /// The processor.
    Onnx,
    /// The neural engine.
    Ane,
}

/// Whether a setting is a word, white space and case aside.
pub open spec fn is_word(raw: Option<String>, word: Seq<char>) -> bool {
    raw matches Some(text) && same_ignoring_ascii_case(trimmed(text@), word)
}

/// Whether the sidecar transcribes.
pub fn is_selected(raw: Option<String>) -> (selected: bool)
    ensures
        selected == is_word(raw, "parakeet"@),
{
    match raw {
        Some(text) => eq_ignore_ascii_case(trim(text.as_str()).as_str(), "parakeet"),
        None => false,
    }
}

/// What the sidecar runs on.
pub fn resolve_engine(raw: Option<String>) -> (engine: Engine)
    ensures
        engine == if is_word(raw, "ane"@) {
            Engine::Ane
        } else {
            Engine::Onnx
        },
{
    match raw {
        Some(text) => if eq_ignore_ascii_case(trim(text.as_str()).as_str(), "ane") {
            Engine::Ane
        } else {
            Engine::Onnx
        },
        None => Engine::Onnx,
    }
}

/// A sample without its sign, as it is stored in sixteen bits.
pub open spec fn sample_bits(sample: i16) -> int {
    if sample < 0 {
        sample + 0x1_0000
    } else {
        sample as int
    }
}

/// The samples as bytes, the lower byte of each first.
pub open spec fn pcm_bytes(samples: Seq<i16>) -> Seq<u8>
    decreases samples.len(),
{
    if samples.len() == 0 {
        Seq::empty()
    } else {
        let bits = sample_bits(samples.last());
        pcm_bytes(samples.drop_last()).push((bits % 256) as u8).push((bits / 256) as u8)
    }
}

/// The samples as bytes, the lower byte of each first.
pub fn encode_pcm_payload(samples: &[i16]) -> (bytes: Vec<u8>)
    ensures
        bytes@ == pcm_bytes(samples@),
{
    let mut bytes: Vec<u8> = Vec::new();
    let mut i: usize = 0;
    while i < samples.len()
        invariant
            0 <= i <= samples@.len(),
            bytes@ == pcm_bytes(samples@.take(i as int)),
        decreases samples@.len() - i,
    {
        proof {
            assert(samples@.take(i + 1).drop_last() =~= samples@.take(i as int));
        }
        let sample: i32 = samples[i] as i32;
        let bits: u32 = if sample < 0 {
            (sample + 0x1_0000) as u32
        } else {
            sample as u32
        };
        bytes.push((bits % 256) as u8);
        bytes.push((bits / 256) as u8);
        i += 1;
    }
    proof {
        assert(samples@.take(i as int) =~= samples@);
    }
    bytes
}

/// There are two bytes for each sample.
pub proof fn pcm_bytes_len(samples: Seq<i16>)
    ensures
        pcm_bytes(samples).len() == 2 * samples.len(),
    decreases samples.len(),
{
    if samples.len() > 0 {
        pcm_bytes_len(samples.drop_last());
    }
}

/// Different clips give different bytes.
pub proof fn pcm_bytes_injective(a: Seq<i16>, b: Seq<i16>)
    requires
        pcm_bytes(a) == pcm_bytes(b),
    ensures
        a == b,
    decreases a.len(),
{
    pcm_bytes_len(a);
    pcm_bytes_len(b);
    if a.len() > 0 {
        let bytes = pcm_bytes(a);
        let n = bytes.len();
        assert(pcm_bytes(a.drop_last()) =~= bytes.take(n - 2));
        assert(pcm_bytes(b.drop_last()) =~= bytes.take(n - 2));
        assert(sample_bits(a.last()) == bytes[n - 2] + 256 * bytes[n - 1]);
        assert(sample_bits(b.last()) == bytes[n - 2] + 256 * bytes[n - 1]);
        pcm_bytes_injective(a.drop_last(), b.drop_last());
        assert(a =~= a.drop_last().push(a.last()));
        assert(b =~= b.drop_last().push(b.last()));
    }
}

/// The two bytes of each sample are its lower and its higher byte, in this
/// order, at twice the place of the sample.
pub proof fn pcm_bytes_by_sample(samples: Seq<i16>, i: int)
    requires
        0 <= i < samples.len(),
    ensures
        pcm_bytes(samples).len() == 2 * samples.len(),
        (pcm_bytes(samples)[2 * i] + 256 * pcm_bytes(samples)[2 * i + 1] - samples[i]) % 0x1_0000
            == 0,
    decreases samples.len(),
{
    pcm_bytes_len(samples);
    pcm_bytes_len(samples.drop_last());
    if i < samples.len() - 1 {
        pcm_bytes_by_sample(samples.drop_last(), i);
    }
}

/// The number that four bytes stand for, the lowest first.
pub open spec fn le_value(bytes: Seq<u8>) -> int {
    bytes[0] + 0x100 * bytes[1] + 0x1_0000 * bytes[2] + 0x100_0000 * bytes[3]
}

/// The four bytes of a number, the lowest first.
pub open spec fn le_bytes(n: int) -> Seq<u8> {
    seq![
        (n % 0x100) as u8,
        (n / 0x100 % 0x100) as u8,
        (n / 0x1_0000 % 0x100) as u8,
        (n / 0x100_0000 % 0x100) as u8,
    ]
}

fn read_le(bytes: &[u8]) -> (n: u32)
    requires
        bytes@.len() >= 4,
    ensures
        n == le_value(bytes@),
{
    bytes[0] as u32 + 0x100 * (bytes[1] as u32) + 0x1_0000 * (bytes[2] as u32) + 0x100_0000 * (
    bytes[3] as u32)
}

/// The transcript in a reply and how long it took, in milliseconds; or why
/// there is none. Whatever begins with `ERR:` is a failure.
pub open spec fn replies(
    payload: Seq<u8>,
    result: Result<(String, u32), MuniError>,
) -> bool {
    let text = utf8_lossy(payload.skip(4));
    if payload.len() < 4 {
        &&& result matches Err(MuniError::ParakeetTranscribeFailed { reason })
        &&& reason@ == "short response frame ("@ + decimal_digits(payload.len()) + " bytes)"@
    } else if "ERR:"@.is_prefix_of(text) {
        &&& result matches Err(MuniError::ParakeetTranscribeFailed { reason })
        &&& reason@ == text.skip("ERR:"@.len() as int)
    } else {
        &&& result matches Ok((transcript, infer_ms))
        &&& transcript@ == text
        &&& infer_ms == le_value(payload)
    }
}

/// What the text of a reply comes to.
pub fn interpret_reply(text: String, infer_ms: u32) -> (result: Result<(String, u32), MuniError>)
    ensures
        if "ERR:"@.is_prefix_of(text@) {
            &&& result matches Err(MuniError::ParakeetTranscribeFailed { reason })
            &&& reason@ == text@.skip("ERR:"@.len() as int)
        } else {
            result == Ok::<(String, u32), MuniError>((text, infer_ms))
        },
{
    match strip_prefix(text.as_str(), "ERR:") {
        Some(reason) => Err(MuniError::ParakeetTranscribeFailed { reason }),
        None => Ok((text, infer_ms)),
    }
}

/// The transcript in a reply and how long it took, in milliseconds; or why
/// there is none.
pub fn decode_response(payload: &[u8]) -> (result: Result<(String, u32), MuniError>)
    ensures
        replies(payload@, result),
        payload@.len() >= 4 && valid_utf8(payload@.skip(4)) && !"ERR:"@.is_prefix_of(
            decode_utf8(payload@.skip(4)),
        ) ==> (result matches Ok((transcript, infer_ms)) && transcript@ == decode_utf8(
            payload@.skip(4),
        ) && infer_ms == le_value(payload@)),
{
    if payload.len() < 4 {
        let mut reason = String::new();
        reason.append("short response frame (");
        reason.append(decimal_text(payload.len() as u64).as_str());
        reason.append(" bytes)");
        proof {
            assert(reason@ =~= "short response frame ("@ + decimal_digits(payload@.len())
                + " bytes)"@);
        }
        return Err(MuniError::ParakeetTranscribeFailed { reason });
    }
    let infer_ms: u32 = read_le(payload);
    let body = slice_subrange(payload, 4, payload.len());
    proof {
        assert(body@ =~= payload@.skip(4));
    }
    interpret_reply(decode_lossy(body), infer_ms)
}

/// A frame around a payload. Of a length beyond 32 bits the low ones are
/// written.
pub open spec fn framed(payload: Seq<u8>) -> Seq<u8> {
    le_bytes(payload.len() as int % 0x1_0000_0000) + payload
}

/// A frame around a payload.
pub fn write_frame(payload: &[u8]) -> (frame: Vec<u8>)
    ensures
        frame@ == framed(payload@),
{
    let len: u32 = (payload.len() as u64 % 0x1_0000_0000) as u32;
    let mut frame: Vec<u8> = Vec::new();
    frame.push((len % 0x100) as u8);
    frame.push((len / 0x100 % 0x100) as u8);
    frame.push((len / 0x1_0000 % 0x100) as u8);
    frame.push((len / 0x100_0000 % 0x100) as u8);
    proof {
        assert(frame@ =~= le_bytes(len as int));
    }
    frame.extend_from_slice(payload);
    proof {
        assert(frame@ =~= framed(payload@));
    }
    frame
}

/// The length of the payload that four bytes announce; none, with what is
/// reported, if it is too long to be taken.
pub fn payload_len(prefix: &[u8]) -> (len: Result<usize, String>)
    requires
        prefix@.len() == 4,
    ensures
        match len {
            Ok(len) => le_value(prefix@) <= MAX_FRAME_BYTES && len == le_value(prefix@),
            Err(report) => le_value(prefix@) > MAX_FRAME_BYTES && report@ == "frame length "@
                + decimal_digits(le_value(prefix@) as nat) + " exceeds "@ + decimal_digits(
                MAX_FRAME_BYTES as nat,
            ) + " byte cap"@,
        },
{
    let len: u32 = read_le(prefix);
    if len > MAX_FRAME_BYTES {
        let mut report = String::new();
        report.append("frame length ");
        report.append(decimal_text(len as u64).as_str());
        report.append(" exceeds ");
        report.append(decimal_text(MAX_FRAME_BYTES as u64).as_str());
        report.append(" byte cap");
        proof {
            assert(report@ =~= "frame length "@ + decimal_digits(len as nat) + " exceeds "@
                + decimal_digits(MAX_FRAME_BYTES as nat) + " byte cap"@);
        }
        return Err(report);
    }
    Ok(len as usize)
}

/// What stands at the beginning of a stream that ends where `bytes` end.
#[derive(Debug, Clone, PartialEq, Eq)]
pub enum FrameRead {
    /// Nothing: the stream is over.
    Closed,
    /// A frame that is too long to be taken.
    Oversized,
    /// A frame that breaks off.
    Truncated,
    /// A whole frame.
    Frame(Vec<u8>),
}

/// What stands at the beginning of a stream that ends where `bytes` end.
pub fn read_frame(bytes: &[u8]) -> (read: FrameRead)
    ensures
        match read {
            FrameRead::Closed => bytes@.len() < 4,
            FrameRead::Oversized => bytes@.len() >= 4 && le_value(bytes@) > MAX_FRAME_BYTES,
            FrameRead::Truncated => bytes@.len() >= 4 && le_value(bytes@) <= MAX_FRAME_BYTES
                && bytes@.len() - 4 < le_value(bytes@),
            FrameRead::Frame(payload) => {
                &&& bytes@.len() >= 4
                &&& le_value(bytes@) <= MAX_FRAME_BYTES
                &&& bytes@.len() - 4 >= le_value(bytes@)
                &&& payload@ == bytes@.subrange(4, 4 + le_value(bytes@))
            },
        },
{
    if bytes.len() < 4 {
        return FrameRead::Closed;
    }
    let prefix = slice_subrange(bytes, 0, 4);
    proof {
        assert(prefix@ =~= bytes@.take(4));
    }
    match payload_len(prefix) {
        Err(_) => FrameRead::Oversized,
        Ok(len) => {
            if bytes.len() - 4 < len {
                return FrameRead::Truncated;
            }
            let body = slice_subrange(bytes, 4, 4 + len);
            let mut payload: Vec<u8> = Vec::new();
            payload.extend_from_slice(body);
            proof {
                assert(payload@ =~= bytes@.subrange(4, 4 + le_value(bytes@)));
            }
            FrameRead::Frame(payload)
        },
    }
}

proof fn le_round_trip(n: int)
    requires
        0 <= n < 0x1_0000_0000,
    ensures
        le_value(le_bytes(n)) == n,
{
}

/// A frame that was written is read back, whatever stands behind it: its four
/// bytes announce the payload, and that is what follows them.
pub proof fn frame_round_trip(payload: Seq<u8>, rest: Seq<u8>)
    requires
        payload.len() <= MAX_FRAME_BYTES,
    ensures
        ({
            let stream = framed(payload) + rest;
            &&& stream.len() >= 4
            &&& le_value(stream) == payload.len()
            &&& stream.len() - 4 >= le_value(stream)
            &&& stream.subrange(4, 4 + le_value(stream)) == payload
            &&& stream.skip(4 + le_value(stream)) == rest
        }),
{
    let n = payload.len() as int;
    le_round_trip(n);
    let stream = framed(payload) + rest;
    assert(stream.take(4) =~= le_bytes(n));
    assert(stream[0] == le_bytes(n)[0] && stream[1] == le_bytes(n)[1]);
    assert(stream[2] == le_bytes(n)[2] && stream[3] == le_bytes(n)[3]);
    assert(stream.subrange(4, 4 + n) =~= payload);
    assert(stream.skip(4 + n) =~= rest);
}

/// The bytes as a list of numbers.
pub open spec fn listed(bytes: Seq<u8>) -> Seq<char> {
    "["@ + joined(
        bytes.map_values(|b: u8| decimal_digits(b as nat)),
        ", "@,
    ) + "]"@
}

fn list_text(bytes: &Vec<u8>) -> (text: String)
    ensures
        text@ == listed(bytes@),
{
    let ghost digits = bytes@.map_values(|b: u8| decimal_digits(b as nat));
    let mut parts: Vec<String> = Vec::new();
    let mut i: usize = 0;
    proof {
        assert(views(parts@) =~= digits.take(0));
    }
    while i < bytes.len()
        invariant
            0 <= i <= bytes@.len(),
            digits == bytes@.map_values(|b: u8| decimal_digits(b as nat)),
            views(parts@) == digits.take(i as int),
        decreases bytes@.len() - i,
    {
        let ghost before = parts@;
        let part = decimal_text(bytes[i] as u64);
        parts.push(part);
        proof {
            assert(views(parts@) =~= views(before).push(part@));
            assert(digits.take(i + 1) =~= digits.take(i as int).push(part@));
        }
        i += 1;
    }
    proof {
        assert(digits.take(i as int) =~= digits);
    }
    let mut text = String::new();
    text.append("[");
    text.append(join(&parts, ", ").as_str());
    text.append("]");
    proof {
        assert(text@ =~= listed(bytes@));
    }
    text
}

/// What the sidecar sends once it has started: `READY`.
pub open spec fn ready_bytes() -> Seq<u8> {
    seq![0x52u8, 0x45u8, 0x41u8, 0x44u8, 0x59u8]
}

fn is_ready(frame: &Vec<u8>) -> (ready: bool)
    ensures
        ready == (frame@ == ready_bytes()),
{
    let ready = frame.len() == 5 && frame[0] == 0x52 && frame[1] == 0x45 && frame[2] == 0x41
        && frame[3] == 0x44 && frame[4] == 0x59;
    proof {
        assert(ready ==> frame@ =~= ready_bytes());
    }
    ready
}

/// How starting the sidecar went.
#[derive(Debug, Clone, PartialEq, Eq)]
pub enum Startup {
    /// The program did not start.
    SpawnFailed { bin: String, error: String },
    /// It has no input.
    NoStdin,
    /// It has no output.
    NoStdout,
    /// It did not say anything in time.
    TimedOut,
    /// What it said could not be read.
    ReadFailed { error: String },
    /// It said this, or nothing before it ended.
    Said(Option<Vec<u8>>),
}

/// Why the sidecar cannot be used; `None` if it can.
pub open spec fn startup_failure(startup: Startup) -> Option<Seq<char>> {
    match startup {
        Startup::SpawnFailed { bin, error } => Some("spawn "@ + bin@ + ": "@ + error@),
        Startup::NoStdin => Some("child stdin pipe missing"@),
        Startup::NoStdout => Some("child stdout pipe missing"@),
        Startup::TimedOut => Some(
            "no READY within "@ + decimal_digits(READY_TIMEOUT_S as nat) + "s"@,
        ),
        Startup::ReadFailed { error } => Some("reading READY: "@ + error@),
        Startup::Said(Some(frame)) => if frame@ == ready_bytes() {
            None
        } else {
            Some("unexpected handshake: Some("@ + listed(frame@) + ")"@)
        },
        Startup::Said(None) => Some("unexpected handshake: None"@),
    }
}

/// What starting the sidecar comes to: it can be used once it has said that it
/// is ready, and nothing else.
pub fn check_startup(startup: Startup) -> (result: Result<(), MuniError>)
    ensures
        match startup_failure(startup) {
            None => result is Ok,
            Some(text) => result matches Err(MuniError::ParakeetSidecarUnavailable { reason })
                && reason@ == text,
        },
{
    let mut reason = String::new();
    let ghost failure = startup_failure(startup);
    match startup {
        Startup::SpawnFailed { bin, error } => {
            reason.append("spawn ");
            reason.append(bin.as_str());
            reason.append(": ");
            reason.append(error.as_str());
        },
        Startup::NoStdin => {
            reason.append("child stdin pipe missing");
        },
        Startup::NoStdout => {
            reason.append("child stdout pipe missing");
        },
        Startup::TimedOut => {
            reason.append("no READY within ");
            reason.append(decimal_text(READY_TIMEOUT_S).as_str());
            reason.append("s");
        },
        Startup::ReadFailed { error } => {
            reason.append("reading READY: ");
            reason.append(error.as_str());
        },
        Startup::Said(Some(frame)) => {
            if is_ready(&frame) {
                return Ok(());
            }
            reason.append("unexpected handshake: Some(");
            reason.append(list_text(&frame).as_str());
            reason.append(")");
        },
        Startup::Said(None) => {
            reason.append("unexpected handshake: None");
        },
    }
    proof {
        assert(reason@ =~= failure->0);
    }
    Err(MuniError::ParakeetSidecarUnavailable { reason })
}

/// Whether the sidecar can be tried: its program must be there, and so must the
/// model, for an engine that takes one.
pub fn check_files(bin: &str, bin_exists: bool, model_dir: Option<(&str, bool)>) -> (result: Result<
    (),
    MuniError,
>)
    ensures
        if !bin_exists {
            &&& result matches Err(MuniError::ParakeetSidecarUnavailable { reason })
            &&& reason@ == "sidecar binary not found: "@ + bin@
        } else {
            match model_dir {
                Some((dir, false)) => {
                    &&& result matches Err(MuniError::ParakeetSidecarUnavailable { reason })
                    &&& reason@ == "model dir not found: "@ + dir@
                },
                _ => result is Ok,
            }
        },
{
    let mut reason = String::new();
    if !bin_exists {
        reason.append("sidecar binary not found: ");
        reason.append(bin);
        proof {
            assert(reason@ =~= "sidecar binary not found: "@ + bin@);
        }
        return Err(MuniError::ParakeetSidecarUnavailable { reason });
    }
    if let Some((dir, exists)) = model_dir {
        if !exists {
            reason.append("model dir not found: ");
            reason.append(dir);
            proof {
                assert(reason@ =~= "model dir not found: "@ + dir@);
            }
            return Err(MuniError::ParakeetSidecarUnavailable { reason });
        }
    }
    Ok(())
}

/// How a request went.
#[derive(Debug, Clone, PartialEq, Eq)]
pub enum Exchange {
    /// It could not be written.
    WriteFailed { error: String },
    /// The reply could not be read.
    ReadFailed { error: String },
    /// The sidecar ended.
    Closed,
    /// No reply came in time.
    TimedOut,
    /// This was the reply.
    Reply(Vec<u8>),
}

/// Whether `result` is what a request comes to.
pub open spec fn exchanged(exchange: Exchange, result: Result<(String, u32), MuniError>) -> bool {
    match exchange {
        Exchange::WriteFailed { error } => transcribe_failed(result, "write request: "@ + error@),
        Exchange::ReadFailed { error } => transcribe_failed(result, "read response: "@ + error@),
        Exchange::Closed => transcribe_failed(result, "sidecar closed pipe"@),
        Exchange::TimedOut => transcribe_failed(
            result,
            "no response within "@ + decimal_digits(TRANSCRIBE_TIMEOUT_S as nat) + "s"@,
        ),
        Exchange::Reply(payload) => replies(payload@, result),
    }
}

/// Whether `result` is the failure with this reason.
pub open spec fn transcribe_failed(
    result: Result<(String, u32), MuniError>,
    text: Seq<char>,
) -> bool {
    result matches Err(MuniError::ParakeetTranscribeFailed { reason }) && reason@ == text
}

/// What a request comes to.
pub fn roundtrip(exchange: Exchange) -> (result: Result<(String, u32), MuniError>)
    ensures
        exchanged(exchange, result),
{
    let mut reason = String::new();
    match exchange {
        Exchange::Reply(payload) => return decode_response(payload.as_slice()),
        Exchange::WriteFailed { error } => {
            reason.append("write request: ");
            reason.append(error.as_str());
            proof {
                assert(reason@ =~= "write request: "@ + error@);
            }
        },
        Exchange::ReadFailed { error } => {
            reason.append("read response: ");
            reason.append(error.as_str());
            proof {
                assert(reason@ =~= "read response: "@ + error@);
            }
        },
        Exchange::Closed => {
            reason.append("sidecar closed pipe");
            proof {
                assert(reason@ =~= "sidecar closed pipe"@);
            }
        },
        Exchange::TimedOut => {
            reason.append("no response within ");
            reason.append(decimal_text(TRANSCRIBE_TIMEOUT_S).as_str());
            reason.append("s");
            proof {
                assert(reason@ =~= "no response within "@ + decimal_digits(
                    TRANSCRIBE_TIMEOUT_S as nat,
                ) + "s"@);
            }
        },
    }
    Err(MuniError::ParakeetTranscribeFailed { reason })
}

/// The sidecar as a press finds it.
#[derive(Debug, Clone, Copy, PartialEq, Eq, Structural)]
pub struct ParakeetClient {
    /// Whether the sidecar runs.
    pub running: bool,
    /// Whether it is being started again.
    pub respawning: bool,
    /// How often it was started again.
    pub respawn_kicks: usize,
}

impl ParakeetClient {
    /// A sidecar that has just started.
    pub fn started() -> (client: Self)
        ensures
            client == (ParakeetClient { running: true, respawning: false, respawn_kicks: 0 }),
    {
        ParakeetClient { running: true, respawning: false, respawn_kicks: 0 }
    }

    /// How often the sidecar was started again.
    pub fn respawn_kicks(&self) -> (kicks: usize)
        ensures
            kicks == self.respawn_kicks,
    {
        self.respawn_kicks
    }

    /// The sidecar once it was asked to be started again.
    pub open spec fn kicked(self) -> Self {
        if self.respawning {
            self
        } else {
            ParakeetClient {
                respawning: true,
                respawn_kicks: if self.respawn_kicks == usize::MAX {
                    0
                } else {
                    (self.respawn_kicks + 1) as usize
                },
                ..self
            }
        }
    }

    /// Asks for the sidecar to be started again, and tells whether to do so:
    /// not while it is being started already.
    pub fn kick_respawn(&mut self) -> (start: bool)
        ensures
            start == !old(self).respawning,
            *final(self) == old(self).kicked(),
    {
        if self.respawning {
            return false;
        }
        self.respawning = true;
        self.respawn_kicks = self.respawn_kicks.wrapping_add(1);
        true
    }

    /// The sidecar once starting it again was over.
    pub open spec fn settled(self, started: bool) -> Self {
        ParakeetClient { running: self.running || started, respawning: false, ..self }
    }

    /// Takes in how starting the sidecar again went.
    pub fn respawn_done(&mut self, started: bool)
        ensures
            *final(self) == old(self).settled(started),
    {
        if started {
            self.running = true;
        }
        self.respawning = false;
    }

    /// The request for a clip. If the sidecar does not run, there is none: the
    /// press goes on without it at once, and it is started again.
    pub fn transcribe(&mut self, samples: &[i16]) -> (request: Result<Vec<u8>, MuniError>)
        ensures
            old(self).running ==> *final(self) == *old(self) && (request matches Ok(bytes)
                && bytes@ == pcm_bytes(samples@)),
            !old(self).running ==> *final(self) == old(self).kicked() && (request matches Err(
                MuniError::ParakeetSidecarUnavailable { reason },
            ) && reason@ == "sidecar not running — background respawn kicked"@),
    {
        if !self.running {
            self.kick_respawn();
            return Err(
                MuniError::ParakeetSidecarUnavailable {
                    reason: "sidecar not running — background respawn kicked".to_owned(),
                },
            );
        }
        Ok(encode_pcm_payload(samples))
    }

    /// Takes in how the request went. A sidecar that failed is given up, and
    /// started again.
    pub fn finish_transcribe(&mut self, exchange: Exchange) -> (result: Result<
        (String, u32),
        MuniError,
    >)
        ensures
            exchanged(exchange, result),
            result is Ok ==> *final(self) == *old(self),
            result is Err ==> *final(self) == (ParakeetClient {
                running: false,
                ..old(self).kicked()
            }),
    {
        let result = roundtrip(exchange);
        if result.is_err() {
            self.running = false;
            self.kick_respawn();
        }
        result
    }
}

/// However often the sidecar is asked to be started again, it is started once
/// until that is over; and once it is over, however it went, it can be started
/// again.
pub proof fn respawns_do_not_stack(client: ParakeetClient, started: bool)
    ensures
        client.kicked().kicked() == client.kicked(),
        client.kicked().respawning,
        !client.kicked().settled(started).respawning,
        started ==> client.kicked().settled(started).running,
        client.running ==> client.kicked().settled(started).running,
{
}

/// A frame is four bytes and the payload, whatever its length.
pub proof fn frame_holds_the_payload(payload: Seq<u8>)
    ensures
        framed(payload).len() == payload.len() + 4,
        framed(payload).skip(4) == payload,
        (framed(payload)[0] + 0x100 * framed(payload)[1] + 0x1_0000 * framed(payload)[2]
            + 0x100_0000 * framed(payload)[3] - payload.len()) % 0x1_0000_0000 == 0,
{
    assert(framed(payload).skip(4) =~= payload);
    let n = payload.len() as int % 0x1_0000_0000;
    le_round_trip(n);
    let b = le_bytes(n);
    assert(framed(payload)[0] == b[0] && framed(payload)[1] == b[1]);
    assert(framed(payload)[2] == b[2] && framed(payload)[3] == b[3]);
}

/// A reply is four bytes of time, the lowest first, and the text: that text is
/// the transcript, unless it begins with `ERR:`, in which case what follows is
/// why it failed. A reply without the four bytes is a failure.
pub proof fn replies_are_read(payload: Seq<u8>, result: Result<(String, u32), MuniError>)
    requires
        replies(payload, result),
    ensures
        payload.len() < 4 ==> result is Err,
        payload.len() >= 4 ==> {
            let text = utf8_lossy(payload.subrange(4, payload.len() as int));
            let fails = text.len() >= 4 && text.take(4) == seq!['E', 'R', 'R', ':'];
            &&& result is Err <==> fails
            &&& fails ==> (result matches Err(MuniError::ParakeetTranscribeFailed { reason })
                && seq!['E', 'R', 'R', ':'] + reason@ == text)
            &&& !fails ==> result->Ok_0.0@ == text && result->Ok_0.1 == payload[0] + 0x100
                * payload[1] + 0x1_0000 * payload[2] + 0x100_0000 * payload[3]
        },
{
    reveal_strlit("ERR:");
    let mark = seq!['E', 'R', 'R', ':'];
    assert("ERR:"@ =~= mark);
    if payload.len() >= 4 {
        assert(payload.skip(4) =~= payload.subrange(4, payload.len() as int));
        let text = utf8_lossy(payload.skip(4));
        if mark.is_prefix_of(text) {
            assert(text.take(4) =~= mark);
            assert(mark + text.skip(4) =~= text);
        } else if text.len() >= 4 && text.take(4) == mark {
            assert(mark =~= text.subrange(0, 4));
        }
    }
}

/// A request succeeds only by a reply that holds a transcript.
pub proof fn only_replies_transcribe(exchange: Exchange, result: Result<(String, u32), MuniError>)
    requires
        exchanged(exchange, result),
    ensures
        result is Ok ==> (exchange matches Exchange::Reply(payload) && payload@.len() >= 4
            && replies(payload@, result)),
        exchange matches Exchange::Reply(payload) ==> replies(payload@, result),
        result is Err ==> result->Err_0 is ParakeetTranscribeFailed,
{
}

/// The sidecar can be used exactly once it has said `READY`.
pub proof fn only_ready_starts(startup: Startup)
    ensures
        startup_failure(startup) is None <==> (startup matches Startup::Said(Some(frame))
            && frame@ == seq!['R' as u8, 'E' as u8, 'A' as u8, 'D' as u8, 'Y' as u8]),
{
    assert(ready_bytes() =~= seq!['R' as u8, 'E' as u8, 'A' as u8, 'D' as u8, 'Y' as u8]);
}

/// Asking for the sidecar to be started again is counted once, and neither that
/// nor its end says that a sidecar runs that does not.
pub proof fn respawns_are_counted(client: ParakeetClient, started: bool)
    ensures
        client.kicked().running == client.running,
        !client.respawning && client.respawn_kicks < usize::MAX ==> client.kicked().respawn_kicks
            == client.respawn_kicks + 1,
        client.respawning ==> client.kicked() == client,
        client.settled(started).respawn_kicks == client.respawn_kicks,
        client.settled(started).running <==> client.running || started,
{
}

/// Where a file of the sidecar is looked for.
#[derive(Debug, Clone, PartialEq, Eq)]
pub enum PathChoice {
    /// Where the variable says.
    Explicit(String),
    /// Among the resources of the app.
    Bundled,
    /// In the source tree.
    SourceTree,
    /// By its name alone.
    BareName,
}

/// Where a file of the sidecar is looked for: where the variable says if it is
/// there, else among the resources if it is there. Failing that a debug build
/// looks in the source tree, and any other one takes the resources, if there
/// are any.
pub fn choose_path(
    explicit: Option<String>,
    explicit_exists: bool,
    has_resources: bool,
    bundled_exists: bool,
    debug_build: bool,
) -> (choice: PathChoice)
    ensures
        match choice {
            PathChoice::Explicit(path) => !no_path(explicit) && explicit_exists && path@
                == trimmed(explicit->0@),
            PathChoice::Bundled => (no_path(explicit) || !explicit_exists) && has_resources && (
            bundled_exists || !debug_build),
            PathChoice::SourceTree => (no_path(explicit) || !explicit_exists) && !(has_resources
                && bundled_exists) && debug_build,
            PathChoice::BareName => (no_path(explicit) || !explicit_exists) && !has_resources
                && !debug_build,
        },
{
    if let Some(text) = explicit {
        let path = trim(text.as_str());
        if !path.as_str().is_empty() && explicit_exists {
            return PathChoice::Explicit(path);
        }
    }
    if has_resources && bundled_exists {
        return PathChoice::Bundled;
    }
    if debug_build {
        return PathChoice::SourceTree;
    }
    if has_resources {
        PathChoice::Bundled
    } else {
        PathChoice::BareName
    }
}

/// Whether a variable gives no path.
pub open spec fn no_path(explicit: Option<String>) -> bool {
    !(explicit matches Some(text) && trimmed(text@).len() > 0)
}

/// The file is taken from the first place that has it: where the variable says,
/// then the resources. Where neither has it, a debug build takes the source tree,
/// and any other the resources, or the name alone if there are none.
pub proof fn the_first_place_that_has_it(
    explicit: Option<String>,
    explicit_exists: bool,
    has_resources: bool,
    bundled_exists: bool,
    debug_build: bool,
    choice: PathChoice,
)
    requires
        choose_path.ensures(
            (explicit, explicit_exists, has_resources, bundled_exists, debug_build),
            choice,
        ),
    ensures
        ({
            let named = explicit_exists && (explicit matches Some(text) && trimmed(text@).len()
                > 0);
            let bundled = has_resources && bundled_exists;
            &&& named ==> (choice matches PathChoice::Explicit(path) && path@ == trimmed(
                explicit->0@,
            ))
            &&& !named && bundled ==> choice is Bundled
            &&& !named && !bundled && debug_build ==> choice is SourceTree
            &&& !named && !bundled && !debug_build && has_resources ==> choice is Bundled
            &&& !named && !bundled && !debug_build && !has_resources ==> choice is BareName
        }),
{
}

/// A failed request gives the sidecar up and asks for it once, and the next press
/// goes on without it at once. A request that went well changes nothing.
pub proof fn failures_do_not_stall_the_next_press(
    client: &mut ParakeetClient,
    next: &mut ParakeetClient,
    exchange: Exchange,
    result: Result<(String, u32), MuniError>,
    samples: &[i16],
    request: Result<Vec<u8>, MuniError>,
)
    requires
        ParakeetClient::finish_transcribe.ensures((client, exchange), result),
        ParakeetClient::transcribe.ensures((next, samples), request),
        *old(next) == *final(client),
    ensures
        result is Ok ==> *final(client) == *old(client),
        result is Err ==> !final(client).running && final(client).respawning && request is Err,
        result is Err ==> final(next).respawn_kicks == final(client).respawn_kicks,
        result is Ok && old(client).running ==> request is Ok,
{
}

/// A frame is read by its first four bytes, the lowest first: they tell how long
/// the payload is that follows. One of more than 64 MiB is not taken, and one that
/// breaks off is not read.
pub proof fn frames_are_read_by_their_length(bytes: &[u8], read: FrameRead)
    requires
        read_frame.ensures((bytes,), read),
    ensures
        read is Closed <==> bytes@.len() < 4,
        bytes@.len() >= 4 ==> {
            let len = bytes@[0] + 0x100 * bytes@[1] + 0x1_0000 * bytes@[2] + 0x100_0000 * bytes@[3];
            &&& read is Oversized <==> len > 0x400_0000
            &&& read is Truncated <==> len <= 0x400_0000 && bytes@.len() - 4 < len
            &&& len <= 0x400_0000 && bytes@.len() - 4 >= len ==> (read matches FrameRead::Frame(
                payload,
            ) && payload@ == bytes@.subrange(4, 4 + len))
        },
{
}

/// The four bytes in front of a payload tell its length, unless it is too long.
pub proof fn announced_lengths(prefix: &[u8], len: Result<usize, String>)
    requires
        prefix@.len() == 4,
        payload_len.ensures((prefix,), len),
    ensures
        ({
            let n = prefix@[0] + 0x100 * prefix@[1] + 0x1_0000 * prefix@[2] + 0x100_0000
                * prefix@[3];
            &&& len is Ok <==> n <= 0x400_0000
            &&& len is Ok ==> len->Ok_0 == n
        }),
{
}

/// The sidecar transcribes where the setting says `parakeet`, and runs on the
/// neural engine where the other one says `ane`, white space and case aside.
pub proof fn settings_of_the_sidecar(raw: Option<String>, selected: bool, engine: Engine)
    requires
        is_selected.ensures((raw,), selected),
        resolve_engine.ensures((raw,), engine),
    ensures
        selected <==> raw is Some && same_ignoring_ascii_case(
            trimmed(raw->0@),
            seq!['p', 'a', 'r', 'a', 'k', 'e', 'e', 't'],
        ),
        engine == Engine::Ane <==> raw is Some && same_ignoring_ascii_case(
            trimmed(raw->0@),
            seq!['a', 'n', 'e'],
        ),
{
    reveal_strlit("parakeet");
    reveal_strlit("ane");
    assert("parakeet"@ =~= seq!['p', 'a', 'r', 'a', 'k', 'e', 'e', 't']);
    assert("ane"@ =~= seq!['a', 'n', 'e']);
}

/// Why a start failed is told with what is known of it.
pub proof fn failed_starts_are_explained(bin: String, error: String, frame: Vec<u8>)
    ensures
        startup_failure(Startup::SpawnFailed { bin, error }) == Some(
            "spawn "@ + bin@ + ": "@ + error@,
        ),
        startup_failure(Startup::ReadFailed { error }) == Some("reading READY: "@ + error@),
        startup_failure(Startup::TimedOut) == Some(
            "no READY within "@ + decimal_digits(150) + "s"@,
        ),
        startup_failure(Startup::Said(Some(frame))) matches Some(text) ==> text
            == "unexpected handshake: Some("@ + listed(frame@) + ")"@,
{
}

/// Why a request failed is told with what is known of it.
pub proof fn failed_requests_are_explained(
    error: String,
    write: Result<(String, u32), MuniError>,
    read: Result<(String, u32), MuniError>,
    late: Result<(String, u32), MuniError>,
)
    requires
        exchanged(Exchange::WriteFailed { error }, write),
        exchanged(Exchange::ReadFailed { error }, read),
        exchanged(Exchange::TimedOut, late),
    ensures
        write matches Err(MuniError::ParakeetTranscribeFailed { reason }) && reason@
            == "write request: "@ + error@,
        read matches Err(MuniError::ParakeetTranscribeFailed { reason }) && reason@
            == "read response: "@ + error@,
        late matches Err(MuniError::ParakeetTranscribeFailed { reason }) && reason@
            == "no response within "@ + decimal_digits(15) + "s"@,
{
}

/// Bytes are listed by their numbers, in brackets and with commas between them.
pub proof fn bytes_are_listed_by_number(a: Seq<u8>, b: Seq<u8>)
    ensures
        listed(Seq::empty()) == seq!['[', ']'],
        a.len() == 1 ==> listed(a) == seq!['['] + decimal_digits(a[0] as nat) + seq![']'],
        a.len() > 0 && b.len() > 0 ==> listed(a + b) == listed(a).drop_last() + seq![',', ' ']
            + listed(b).drop_first(),
{
    reveal_strlit("[");
    reveal_strlit("]");
    reveal_strlit(", ");
    assert("["@ =~= seq!['[']);
    assert("]"@ =~= seq![']']);
    assert(", "@ =~= seq![',', ' ']);
    let digits = |x: u8| decimal_digits(x as nat);
    let none = Seq::<u8>::empty();
    assert(none.map_values(digits) =~= Seq::<Seq<char>>::empty());
    assert(listed(none) =~= seq!['[', ']']);
    let (left, right) = (a.map_values(digits), b.map_values(digits));
    joining_in_two_steps(left, right, ", "@);
    assert((a + b).map_values(digits) =~= left + right);
    if a.len() > 0 && b.len() > 0 {
        assert(listed(a + b) =~= listed(a).drop_last() + seq![',', ' '] + listed(b).drop_first());
    }
}

} // verus!
