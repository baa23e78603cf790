//! What the environment variables ask for, and which language detection and
//! which voice detection that gives.
//!
//! Each function takes the value of its variable, or `None` where it is not
//! set.

use vstd::prelude::*;

use crate::hotkey::{number_within, parse_within};
use crate::hotkey_binding::option_view;
use crate::text::{eq_ignore_ascii_case, lowercase, same_ignoring_ascii_case, same_text};
use crate::text::{only_blank_text_trims_to_nothing, trim, trimmed, white_space};

verus! {

/// Variable that picks the language detection.
pub const LID_PROVIDER_ENV: &'static str = "MUNI_LID_PROVIDER";

/// Variable that picks the model of the language detection.
pub const LID_MODEL_ENV: &'static str = "MUNI_LID_MODEL";

/// Variable that switches the second text classifier.
pub const LID_HYBRID_ENV: &'static str = "MUNI_LID_HYBRID";

/// Variable that switches the text classifier beside the audio one.
pub const MUNI_LID_AUDIO_HYBRID_ENV: &'static str = "MUNI_LID_AUDIO_HYBRID";

/// Variable that switches voice detection.
pub const MUNI_VAD_GATE_ENV: &'static str = "MUNI_VAD_GATE";

/// Variable for the probability from which a frame is speech.
pub const MUNI_VAD_THRESHOLD_ENV: &'static str = "MUNI_VAD_THRESHOLD";

/// Variable for the least amount of speech, in milliseconds.
pub const MUNI_VAD_MIN_SPEECH_MS_ENV: &'static str = "MUNI_VAD_MIN_SPEECH_MS";

/// Variable that makes a voice detection that does not load fatal.
pub const MUNI_VAD_REQUIRED_ENV: &'static str = "MUNI_VAD_REQUIRED";

/// Variable that switches voice detection on the streamed buffer.
pub const MUNI_VAD_STREAM_HYBRID_ENV: &'static str = "MUNI_VAD_STREAM_HYBRID";

/// Variable that switches trimming of the buffer on release.
pub const MUNI_VAD_TRIM_RELEASE_BUFFER_ENV: &'static str = "MUNI_VAD_TRIM_RELEASE_BUFFER";

/// Variable that switches skipping silent windows in language detection.
pub const MUNI_VAD_AUDIO_LID_GATE_ENV: &'static str = "MUNI_VAD_AUDIO_LID_GATE";

/// Variable for the silence after which the stream is held back, in
/// milliseconds.
pub const MUNI_VAD_STREAM_MIN_SILENCE_MS_ENV: &'static str = "MUNI_VAD_STREAM_MIN_SILENCE_MS";

/// Variable for how long the stream passes after silence, in milliseconds.
pub const MUNI_VAD_STREAM_WORD_GUARD_MS_ENV: &'static str = "MUNI_VAD_STREAM_WORD_GUARD_MS";

/// The silence after which the stream is held back, unless it is set.
pub const STREAM_DEFAULT_MIN_SILENCE_MS: u32 = 500;

/// How long the stream passes after silence, unless it is set.
pub const STREAM_DEFAULT_WORD_GUARD_MS: u32 = 500;

/// The language detection that listens to the audio itself.
pub const AUDIO_LID_PROVIDER_AUDIO_WHISPER_TINY: &'static str = "audio_whisper_tiny";

/// The model that Groq uses unless another is set.
pub const GROQ_LID_DEFAULT_MODEL: &'static str = "openai/gpt-oss-120b";

/// The model that Gemini uses unless another is set.
pub const GEMINI_LID_DEFAULT_MODEL: &'static str = "gemini-2.5-flash-lite";

/// The value without the white space around it, in lowercase.
pub open spec fn keyword(text: Seq<char>) -> Seq<char> {
    lowercase(trimmed(text))
}

/// The words that switch something off.
pub open spec fn off_word(word: Seq<char>) -> bool {
    word == "0"@ || word == "off"@ || word == "false"@ || word == "no"@
}

/// The words that switch something on.
pub open spec fn on_word(word: Seq<char>) -> bool {
    word == "1"@ || word == "true"@ || word == "yes"@ || word == "on"@
}

/// Whether a switch that is on unless an off word is set is on.
pub open spec fn on_unless_off(raw: Option<String>) -> bool {
    !(raw matches Some(text) && off_word(keyword(text@)))
}

/// Whether a switch that is on unless `false` is set is on.
pub open spec fn on_unless_false(raw: Option<String>) -> bool {
    !(raw matches Some(text) && same_ignoring_ascii_case(trimmed(text@), "false"@))
}

fn switch_is_on(raw: Option<String>) -> (on: bool)
    ensures
        on == on_unless_off(raw),
{
    match raw {
        Some(text) => {
            let word = trim(text.as_str()).as_str().to_lowercase();
            !(same_text(word.as_str(), "0") || same_text(word.as_str(), "off") || same_text(
                word.as_str(),
                "false",
            ) || same_text(word.as_str(), "no"))
        },
        None => true,
    }
}

/// Whether voice detection is on.
pub fn resolve_vad_enabled(raw: Option<String>) -> (on: bool)
    ensures
        on == on_unless_off(raw),
{
    switch_is_on(raw)
}

/// Whether voice detection on the streamed buffer is on.
pub fn resolve_vad_stream_hybrid_enabled(raw: Option<String>) -> (on: bool)
    ensures
        on == on_unless_off(raw),
{
    switch_is_on(raw)
}

/// Whether trimming of the buffer on release is on.
pub fn resolve_vad_trim_release_buffer_enabled(raw: Option<String>) -> (on: bool)
    ensures
        on == on_unless_off(raw),
{
    switch_is_on(raw)
}

/// Whether skipping silent windows in language detection is on.
pub fn resolve_vad_audio_lid_gate_enabled(raw: Option<String>) -> (on: bool)
    ensures
        on == on_unless_off(raw),
{
    switch_is_on(raw)
}

/// Whether a voice detection that does not load is fatal.
pub fn resolve_vad_required(raw: Option<String>) -> (required: bool)
    ensures
        required == (raw matches Some(text) && on_word(keyword(text@))),
{
    match raw {
        Some(text) => {
            let word = trim(text.as_str()).as_str().to_lowercase();
            same_text(word.as_str(), "1") || same_text(word.as_str(), "true") || same_text(
                word.as_str(),
                "yes",
            ) || same_text(word.as_str(), "on")
        },
        None => false,
    }
}

/// Whether the text classifier beside the audio one is on.
pub fn resolve_audio_hybrid_enabled(raw: Option<String>) -> (on: bool)
    ensures
        on == on_unless_false(raw),
{
    match raw {
        Some(text) => !eq_ignore_ascii_case(trim(text.as_str()).as_str(), "false"),
        None => true,
    }
}

/// Whether the second text classifier is on.
pub fn resolve_text_hybrid_enabled(raw: Option<String>) -> (on: bool)
    ensures
        on == on_unless_false(raw),
{
    resolve_audio_hybrid_enabled(raw)
}

/// The least amount of speech, in milliseconds. Zero is not taken: a single
/// frame would count as speech.
pub fn resolve_vad_min_speech_ms(raw: Option<String>, default_ms: u32) -> (ms: u32)
    ensures
        ms == number_within(raw, 1, u32::MAX as int, default_ms as int),
{
    parse_within(raw, 1, u32::MAX as u64, default_ms as u64) as u32
}

/// The silence after which the stream is held back, in milliseconds.
pub fn resolve_vad_stream_min_silence_ms(raw: Option<String>) -> (ms: u32)
    ensures
        ms == number_within(raw, 50, 10_000, STREAM_DEFAULT_MIN_SILENCE_MS as int),
        50 <= ms <= 10_000,
{
    parse_within(raw, 50, 10_000, STREAM_DEFAULT_MIN_SILENCE_MS as u64) as u32
}

/// How long the stream passes after silence, in milliseconds. Zero is taken.
pub fn resolve_vad_stream_word_guard_ms(raw: Option<String>) -> (ms: u32)
    ensures
        ms == number_within(raw, 0, 5_000, STREAM_DEFAULT_WORD_GUARD_MS as int),
        ms <= 5_000,
{
    parse_within(raw, 0, 5_000, STREAM_DEFAULT_WORD_GUARD_MS as u64) as u32
}

/// What to do about voice detection.
#[derive(Debug, Clone, Copy, PartialEq, Eq, Structural)]
pub enum VadOutcome {
    /// It is switched off.
    Disabled,
    /// It runs.
    Ready,
    /// It did not load, and the app goes on without it.
    Degraded,
    /// It did not load, and the app must not go on.
    Fatal,
}

/// What comes of voice detection, once it was tried to load it if it is on.
pub fn build_vad_detector(
    gate: Option<String>,
    loaded: bool,
    required: Option<String>,
) -> (outcome: VadOutcome)
    ensures
        outcome == if !on_unless_off(gate) {
            VadOutcome::Disabled
        } else if loaded {
            VadOutcome::Ready
        } else if required matches Some(text) && on_word(keyword(text@)) {
            VadOutcome::Fatal
        } else {
            VadOutcome::Degraded
        },
{
    if !resolve_vad_enabled(gate) {
        return VadOutcome::Disabled;
    }
    if loaded {
        return VadOutcome::Ready;
    }
    if resolve_vad_required(required) {
        return VadOutcome::Fatal;
    }
    VadOutcome::Degraded
}

/// The numbers that every stream's voice detection is made with.
#[derive(Debug, Clone, Copy, PartialEq, Eq, Structural)]
pub struct StreamingVad {
    pub min_silence_ms: u32,
    pub word_guard_ms: u32,
}

/// The voice detection of streams: none, if all three of its uses are off.
pub fn build_streaming_vad_factory(
    hybrid: Option<String>,
    trim_release: Option<String>,
    audio_lid_gate: Option<String>,
    min_silence: Option<String>,
    word_guard: Option<String>,
) -> (factory: Option<StreamingVad>)
    ensures
        factory is Some <==> on_unless_off(hybrid) || on_unless_off(trim_release)
            || on_unless_off(audio_lid_gate),
        factory matches Some(vad) ==> {
            &&& vad.min_silence_ms == number_within(
                min_silence,
                50,
                10_000,
                STREAM_DEFAULT_MIN_SILENCE_MS as int,
            )
            &&& vad.word_guard_ms == number_within(
                word_guard,
                0,
                5_000,
                STREAM_DEFAULT_WORD_GUARD_MS as int,
            )
        },
{
    let hybrid_on = resolve_vad_stream_hybrid_enabled(hybrid);
    let trim_on = resolve_vad_trim_release_buffer_enabled(trim_release);
    let gate_on = resolve_vad_audio_lid_gate_enabled(audio_lid_gate);
    if !hybrid_on && !trim_on && !gate_on {
        return None;
    }
    Some(
        StreamingVad {
            min_silence_ms: resolve_vad_stream_min_silence_ms(min_silence),
            word_guard_ms: resolve_vad_stream_word_guard_ms(word_guard),
        },
    )
}

/// The name of the language detection that is asked for.
pub open spec fn provider_slug(raw: Option<String>) -> Seq<char> {
    match raw {
        Some(text) => if keyword(text@).len() == 0 {
            AUDIO_LID_PROVIDER_AUDIO_WHISPER_TINY@
        } else {
            keyword(text@)
        },
        None => AUDIO_LID_PROVIDER_AUDIO_WHISPER_TINY@,
    }
}

/// The name of the language detection that is asked for: the one on the audio,
/// where none is.
pub fn resolve_lid_provider_slug(raw: Option<String>) -> (slug: String)
    ensures
        slug@ == provider_slug(raw),
{
    match raw {
        Some(text) => {
            let word = trim(text.as_str()).as_str().to_lowercase();
            if word.as_str().is_empty() {
                AUDIO_LID_PROVIDER_AUDIO_WHISPER_TINY.to_owned()
            } else {
                word
            }
        },
        None => AUDIO_LID_PROVIDER_AUDIO_WHISPER_TINY.to_owned(),
    }
}

/// The model that is asked for, if one is.
pub open spec fn asked_model(raw: Option<String>) -> Option<Seq<char>> {
    match raw {
        Some(text) => if trimmed(text@).len() == 0 {
            None
        } else {
            Some(trimmed(text@))
        },
        None => None,
    }
}

/// The model that is asked for, if one is.
pub fn resolve_lid_model(raw: Option<String>) -> (model: Option<String>)
    ensures
        option_view(model) == asked_model(raw),
{
    match raw {
        Some(text) => {
            let model = trim(text.as_str());
            if model.as_str().is_empty() {
                None
            } else {
                Some(model)
            }
        },
        None => None,
    }
}

/// A language detection on the transcript.
#[derive(Debug, Clone, PartialEq, Eq)]
pub enum TextLid {
    Groq { model: String },
    Gemini { model: String },
}

impl TextLid {
    /// The model that it asks.
    pub open spec fn model_name(self) -> Seq<char> {
        match self {
            TextLid::Groq { model } => model@,
            TextLid::Gemini { model } => model@,
        }
    }
}

/// Whether a provider stands for a language detection on the transcript.
pub open spec fn text_provider(provider: Seq<char>) -> bool {
    provider == "groq"@ || provider == "gemini"@
}

/// The language detection on the transcript that a provider stands for: none,
/// for the one on the audio and for any name that is not known.
pub fn build_text_lid_classifier_for_provider(
    provider: &str,
    model_override: Option<&str>,
) -> (lid: Option<TextLid>)
    ensures
        match lid {
            Some(TextLid::Groq { model }) => provider@ == "groq"@ && model@ == match model_override {
                Some(model) => model@,
                None => GROQ_LID_DEFAULT_MODEL@,
            },
            Some(TextLid::Gemini { model }) => provider@ == "gemini"@ && provider@ != "groq"@
                && model@ == match model_override {
                Some(model) => model@,
                None => GEMINI_LID_DEFAULT_MODEL@,
            },
            None => !text_provider(provider@),
        },
{
    if same_text(provider, "groq") {
        let model = match model_override {
            Some(model) => model.to_owned(),
            None => GROQ_LID_DEFAULT_MODEL.to_owned(),
        };
        Some(TextLid::Groq { model })
    } else if same_text(provider, "gemini") {
        let model = match model_override {
            Some(model) => model.to_owned(),
            None => GEMINI_LID_DEFAULT_MODEL.to_owned(),
        };
        Some(TextLid::Gemini { model })
    } else {
        None
    }
}

/// Whether a provider stands for the language detection on the audio: every
/// one does that does not stand for one on the transcript.
pub fn dispatches_to_audio(provider: &str) -> (audio: bool)
    ensures
        audio == !text_provider(provider@),
{
    !(same_text(provider, "groq") || same_text(provider, "gemini"))
}

/// Whether the variable asks for a language detection on the transcript.
pub open spec fn text_serves(provider: Option<String>) -> bool {
    text_provider(provider_slug(provider))
}

/// Whether the language detection runs on the audio: by its name, or by any
/// that stands for nothing else, if its model loaded.
pub open spec fn audio_serves(provider: Option<String>, loaded: bool) -> bool {
    let slug = provider_slug(provider);
    loaded && (slug == AUDIO_LID_PROVIDER_AUDIO_WHISPER_TINY@ || !(slug == "groq"@ || slug
        == "gemini"@))
}

/// The language detection on the transcript that the variables ask for.
pub fn build_text_lid_classifier(provider: Option<String>, model: Option<String>) -> (lid: Option<
    TextLid,
>)
    ensures
        lid is Some <==> text_serves(provider),
        lid matches Some(lid) ==> {
            &&& lid is Groq <==> provider_slug(provider) == "groq"@
            &&& lid.model_name() == match asked_model(model) {
                Some(name) => name,
                None => if lid is Groq {
                    GROQ_LID_DEFAULT_MODEL@
                } else {
                    GEMINI_LID_DEFAULT_MODEL@
                },
            }
        },
{
    let slug = resolve_lid_provider_slug(provider);
    let asked = resolve_lid_model(model);
    let model_override = match &asked {
        Some(name) => Some(name.as_str()),
        None => None,
    };
    build_text_lid_classifier_for_provider(slug.as_str(), model_override)
}

/// Whether the language detection runs on the audio: it is the one that is
/// asked for, and its model loaded.
pub fn build_audio_lid_classifier(provider: Option<String>, loaded: bool) -> (ready: bool)
    ensures
        ready == audio_serves(provider, loaded),
{
    let slug = resolve_lid_provider_slug(provider);
    proof {
        one_language_detection(provider);
    }
    dispatches_to_audio(slug.as_str()) && loaded
}

/// Whatever the variables say, the transcript and the audio never both serve to
/// detect the language, and one of them does if the model for the audio loads.
/// Where nothing is asked for, it is the audio.
pub proof fn one_language_detection(provider: Option<String>)
    ensures
        !(text_serves(provider) && audio_serves(provider, true)),
        text_serves(provider) || audio_serves(provider, true),
        !audio_serves(provider, false),
        provider is None ==> audio_serves(provider, true),
{
    reveal_strlit("groq");
    reveal_strlit("gemini");
    reveal_strlit("audio_whisper_tiny");
    assert("groq"@.len() == 4 && "gemini"@.len() == 6);
    assert(AUDIO_LID_PROVIDER_AUDIO_WHISPER_TINY@.len() == 18);
}

/// The second classifier. Beside the one on the audio it is Groq, which answers
/// before the press is over; beside one on the transcript it is Gemini.
pub fn build_secondary_lid_classifier(
    audio_lid_ready: bool,
    text_hybrid: Option<String>,
    audio_hybrid: Option<String>,
) -> (lid: Option<TextLid>)
    ensures
        match lid {
            Some(TextLid::Groq { model }) => audio_lid_ready && on_unless_false(audio_hybrid)
                && model@ == GROQ_LID_DEFAULT_MODEL@,
            Some(TextLid::Gemini { model }) => !audio_lid_ready && on_unless_false(text_hybrid)
                && model@ == GEMINI_LID_DEFAULT_MODEL@,
            None => if audio_lid_ready {
                !on_unless_false(audio_hybrid)
            } else {
                !on_unless_false(text_hybrid)
            },
        },
{
    if audio_lid_ready {
        if resolve_audio_hybrid_enabled(audio_hybrid) {
            Some(TextLid::Groq { model: GROQ_LID_DEFAULT_MODEL.to_owned() })
        } else {
            None
        }
    } else if resolve_text_hybrid_enabled(text_hybrid) {
        Some(TextLid::Gemini { model: GEMINI_LID_DEFAULT_MODEL.to_owned() })
    } else {
        None
    }
}

/// A switch that is on by default is off exactly where one of four words is set,
/// and one that is off by default is on exactly where one of four others is,
/// white space and case aside.
pub proof fn words_that_switch(text: String)
    ensures
        on_unless_off(None),
        ({
            let word = lowercase(trimmed(text@));
            &&& on_unless_off(Some(text)) <==> word != seq!['0'] && word != seq!['o', 'f', 'f']
                && word != seq!['f', 'a', 'l', 's', 'e'] && word != seq!['n', 'o']
            &&& on_word(keyword(text@)) <==> word == seq!['1'] || word == seq!['t', 'r', 'u', 'e']
                || word == seq!['y', 'e', 's'] || word == seq!['o', 'n']
        }),
{
    reveal_strlit("0");
    reveal_strlit("off");
    reveal_strlit("false");
    reveal_strlit("no");
    reveal_strlit("1");
    reveal_strlit("true");
    reveal_strlit("yes");
    reveal_strlit("on");
    assert("0"@ =~= seq!['0']);
    assert("off"@ =~= seq!['o', 'f', 'f']);
    assert("false"@ =~= seq!['f', 'a', 'l', 's', 'e']);
    assert("no"@ =~= seq!['n', 'o']);
    assert("1"@ =~= seq!['1']);
    assert("true"@ =~= seq!['t', 'r', 'u', 'e']);
    assert("yes"@ =~= seq!['y', 'e', 's']);
    assert("on"@ =~= seq!['o', 'n']);
}

/// The second classifiers are on unless their variable says `false`, white space
/// and case aside.
pub proof fn only_false_switches_the_second_off(text: String)
    ensures
        on_unless_false(None),
        on_unless_false(Some(text)) <==> !same_ignoring_ascii_case(
            trimmed(text@),
            seq!['f', 'a', 'l', 's', 'e'],
        ),
{
    reveal_strlit("false");
    assert("false"@ =~= seq!['f', 'a', 'l', 's', 'e']);
}

/// The language detection is the one that is named, white space and case aside;
/// where none is, it is the one on the audio. A model that is asked for is asked
/// for by its name, white space aside, and a blank one counts as none.
pub proof fn what_the_variables_name(text: String)
    ensures
        provider_slug(None) == "audio_whisper_tiny"@,
        lowercase(trimmed(text@)).len() > 0 ==> provider_slug(Some(text)) == lowercase(
            trimmed(text@),
        ),
        lowercase(trimmed(text@)).len() == 0 ==> provider_slug(Some(text))
            == "audio_whisper_tiny"@,
        asked_model(None) is None,
        asked_model(Some(text)) is None <==> (forall|k: int|
            0 <= k < text@.len() ==> white_space(#[trigger] text@[k])),
        asked_model(Some(text)) is Some ==> asked_model(Some(text)) == Some(trimmed(text@)),
{
    only_blank_text_trims_to_nothing(text@);
}

/// The transcript serves to detect the language where Groq or Gemini is named,
/// and there alone.
pub proof fn only_two_read_the_transcript(provider: Option<String>)
    ensures
        text_serves(provider) <==> provider_slug(provider) == "groq"@ || provider_slug(provider)
            == "gemini"@,
        audio_serves(provider, true) <==> !text_serves(provider),
{
    one_language_detection(provider);
}

/// Voice detection runs where it is not switched off and loads. If it does not
/// load, the app stops where it is required, and goes on without it elsewhere.
pub proof fn voice_detection_is_required_or_done_without(
    gate: Option<String>,
    loaded: bool,
    required: Option<String>,
    outcome: VadOutcome,
)
    ensures
        build_vad_detector.ensures((gate, loaded, required), outcome) ==> {
            &&& outcome == VadOutcome::Disabled <==> !on_unless_off(gate)
            &&& outcome == VadOutcome::Ready <==> on_unless_off(gate) && loaded
            &&& outcome == VadOutcome::Fatal <==> on_unless_off(gate) && !loaded && (
            required matches Some(text) && on_word(lowercase(trimmed(text@))))
        },
{
}

/// The numbers of voice detection lie in their ranges: 50 to 10000 milliseconds
/// of silence and up to 5000 of passing on, 500 each unless they are set, and at
/// least one of speech.
pub proof fn voice_detection_numbers(
    raw: Option<String>,
    default_ms: u32,
    silence: u32,
    guard: u32,
    speech: u32,
)
    requires
        resolve_vad_stream_min_silence_ms.ensures((raw,), silence),
        resolve_vad_stream_word_guard_ms.ensures((raw,), guard),
        resolve_vad_min_speech_ms.ensures((raw, default_ms), speech),
    ensures
        silence == number_within(raw, 50, 10_000, 500),
        guard == number_within(raw, 0, 5_000, 500),
        speech == number_within(raw, 1, 0xffff_ffff, default_ms as int),
{
}

} // verus!
