//! Speech synthesis: the request that each speech service takes, and the
//! audio that its answer holds.

use crate::text::{from_chars, push_str_chars, to_chars};
use crate::types::{copy_bytes, VoiceoverConfig, VoiceoverProvider};
use crate::wire::{
    audio_envelope_json, base64_decoded, decode_base64, json_string_literal, parse_audio_envelope,
    quote_json, AudioEnvelope, AudioEnvelopeView,
};
use vstd::prelude::*;

verus! {

/// One header of a request.
#[derive(Debug, Clone)]
pub struct Header {
    pub name: String,
    pub value: String,
}

/// A request to a speech service: its body is posted to its address.
#[derive(Debug, Clone)]
pub struct SpeechRequest {
    pub url: String,
    pub headers: Vec<Header>,
    /// The body, a JSON object.
    pub body: String,
}

/// A `SpeechRequest` as mathematical values: each header is a pair of its
/// name and its value.
pub struct SpeechRequestView {
    pub url: Seq<char>,
    pub headers: Seq<(Seq<char>, Seq<char>)>,
    pub body: Seq<char>,
}

/// What each of `headers` is, as a pair of its name and its value.
pub open spec fn header_views(headers: Seq<Header>) -> Seq<(Seq<char>, Seq<char>)> {
    Seq::new(headers.len(), |i: int| (headers[i].name@, headers[i].value@))
}

impl View for SpeechRequest {
    type V = SpeechRequestView;

    open spec fn view(&self) -> SpeechRequestView {
        SpeechRequestView {
            url: self.url@,
            headers: header_views(self.headers@),
            body: self.body@,
        }
    }
}

/// How a request to a speech service ended.
#[derive(Debug, Clone)]
pub enum HttpReply {
    /// The request could not be sent, or no answer came.
    Failed,
    /// The service answered.
    Answered {
        /// Whether the status of the answer tells success.
        success: bool,
        body: Vec<u8>,
    },
}

/// An `HttpReply` as mathematical values.
pub enum HttpReplyView {
    Failed,
    Answered { success: bool, body: Seq<u8> },
}

impl View for HttpReply {
    type V = HttpReplyView;

    open spec fn view(&self) -> HttpReplyView {
        match self {
            HttpReply::Failed => HttpReplyView::Failed,
            HttpReply::Answered { success, body } => HttpReplyView::Answered {
                success: *success,
                body: body@,
            },
        }
    }
}

/// Why a narration could not be spoken.
#[derive(Debug, Clone, Copy, PartialEq, Eq, Structural)]
pub enum SynthesisError {
    /// There is no key for the speech service.
    MissingApiKey,
    /// The request could not be sent, or no answer came.
    Transport,
    /// The service answered with a status that tells failure.
    Rejected,
    /// The answer is no JSON.
    MalformedResponse,
    /// The answer holds no audio.
    MissingAudio,
    /// The audio in the answer is no base64.
    BadEncoding,
}

/// The text of `text`, or `fallback` where there is none.
pub open spec fn or_default(text: Option<String>, fallback: Seq<char>) -> Seq<char> {
    match text {
        Some(held) => held@,
        None => fallback,
    }
}

/// The address of the first speech service for the voice `voice`.
pub open spec fn spec_elevenlabs_url(voice: Seq<char>) -> Seq<char> {
    "https://api.elevenlabs.io/v1/text-to-speech/"@ + voice
}

/// The body that the first speech service takes.
pub open spec fn spec_elevenlabs_body(text: Seq<char>, model: Seq<char>) -> Seq<char> {
    "{\"model_id\":"@ + json_string_literal(model) + ",\"text\":"@ + json_string_literal(text)
        + ",\"voice_settings\":{\"similarity_boost\":0.75,\"stability\":0.5}}"@
}

/// The request that has the first speech service speak `text`.
pub open spec fn spec_elevenlabs_request(
    key: Seq<char>,
    voice: Seq<char>,
    model: Seq<char>,
    text: Seq<char>,
) -> SpeechRequestView {
    SpeechRequestView {
        url: spec_elevenlabs_url(voice),
        headers: seq![("xi-api-key"@, key), ("Content-Type"@, "application/json"@)],
        body: spec_elevenlabs_body(text, model),
    }
}

/// The address of the second speech service.
pub open spec fn spec_inworld_url() -> Seq<char> {
    "https://api.inworld.ai/tts/v1/voice"@
}

/// The body that the second speech service takes.
pub open spec fn spec_inworld_body(text: Seq<char>, voice: Seq<char>, model: Seq<char>) -> Seq<
    char,
> {
    "{\"modelId\":"@ + json_string_literal(model) + ",\"text\":"@ + json_string_literal(text)
        + ",\"voiceId\":"@ + json_string_literal(voice) + "}"@
}

/// The request that has the second speech service speak `text`.
pub open spec fn spec_inworld_request(
    key: Seq<char>,
    voice: Seq<char>,
    model: Seq<char>,
    text: Seq<char>,
) -> SpeechRequestView {
    SpeechRequestView {
        url: spec_inworld_url(),
        headers: seq![("Authorization"@, "Basic "@ + key), ("Content-Type"@, "application/json"@)],
        body: spec_inworld_body(text, voice, model),
    }
}

/// The request that has the configured service speak `text`, with the
/// service's own voice and model where `config` names none. Without a key
/// for the service there is none.
pub open spec fn spec_speech_request(config: VoiceoverConfig, text: Seq<char>) -> Result<
    SpeechRequestView,
    SynthesisError,
> {
    match config.api_key {
        None => Err(SynthesisError::MissingApiKey),
        Some(key) => match config.provider {
            VoiceoverProvider::ElevenLabs => Ok(
                spec_elevenlabs_request(
                    key@,
                    or_default(config.voice_id, "21m00Tcm4TlvDq8ikWAM"@),
                    or_default(config.model_id, "eleven_flash_v2_5"@),
                    text,
                ),
            ),
            VoiceoverProvider::Inworld => Ok(
                spec_inworld_request(
                    key@,
                    or_default(config.voice_id, "Ashley"@),
                    or_default(config.model_id, "inworld-tts-1.5-max"@),
                    text,
                ),
            ),
        },
    }
}

fn text_or(text: &Option<String>, fallback: &str) -> (out: String)
    ensures
        out@ == or_default(*text, fallback@),
{
    match text {
        Some(held) => held.clone(),
        None => from_chars(&to_chars(fallback)),
    }
}

fn header(name: &str, value: String) -> (made: Header)
    ensures
        made.name@ == name@,
        made.value@ == value@,
{
    Header { name: from_chars(&to_chars(name)), value }
}

/// The request that has the first speech service speak `text` with the
/// voice `voice` and the model `model`.
pub fn elevenlabs_request(key: &str, voice: &str, model: &str, text: &str) -> (request:
    SpeechRequest)
    ensures
        request@ == spec_elevenlabs_request(key@, voice@, model@, text@),
{
    let mut url: Vec<char> = Vec::new();
    push_str_chars(&mut url, "https://api.elevenlabs.io/v1/text-to-speech/");
    push_str_chars(&mut url, voice);
    assert(url@ =~= spec_elevenlabs_url(voice@));
    let mut body: Vec<char> = Vec::new();
    push_str_chars(&mut body, "{\"model_id\":");
    push_str_chars(&mut body, quote_json(model).as_str());
    push_str_chars(&mut body, ",\"text\":");
    push_str_chars(&mut body, quote_json(text).as_str());
    push_str_chars(
        &mut body,
        ",\"voice_settings\":{\"similarity_boost\":0.75,\"stability\":0.5}}",
    );
    assert(body@ =~= spec_elevenlabs_body(text@, model@));
    let mut headers: Vec<Header> = Vec::new();
    headers.push(header("xi-api-key", from_chars(&to_chars(key))));
    headers.push(header("Content-Type", from_chars(&to_chars("application/json"))));
    assert(header_views(headers@) =~= seq![
        ("xi-api-key"@, key@),
        ("Content-Type"@, "application/json"@),
    ]);
    SpeechRequest { url: from_chars(&url), headers, body: from_chars(&body) }
}

/// The request that has the second speech service speak `text` with the
/// voice `voice` and the model `model`.
pub fn inworld_request(key: &str, voice: &str, model: &str, text: &str) -> (request: SpeechRequest)
    ensures
        request@ == spec_inworld_request(key@, voice@, model@, text@),
{
    let mut body: Vec<char> = Vec::new();
    push_str_chars(&mut body, "{\"modelId\":");
    push_str_chars(&mut body, quote_json(model).as_str());
    push_str_chars(&mut body, ",\"text\":");
    push_str_chars(&mut body, quote_json(text).as_str());
    push_str_chars(&mut body, ",\"voiceId\":");
    push_str_chars(&mut body, quote_json(voice).as_str());
    push_str_chars(&mut body, "}");
    assert(body@ =~= spec_inworld_body(text@, voice@, model@));
    let mut basic: Vec<char> = Vec::new();
    push_str_chars(&mut basic, "Basic ");
    push_str_chars(&mut basic, key);
    assert(basic@ =~= "Basic "@ + key@);
    let mut headers: Vec<Header> = Vec::new();
    headers.push(header("Authorization", from_chars(&basic)));
    headers.push(header("Content-Type", from_chars(&to_chars("application/json"))));
    assert(header_views(headers@) =~= seq![
        ("Authorization"@, "Basic "@ + key@),
        ("Content-Type"@, "application/json"@),
    ]);
    SpeechRequest {
        url: from_chars(&to_chars("https://api.inworld.ai/tts/v1/voice")),
        headers,
        body: from_chars(&body),
    }
}

/// The request that has the configured service speak `text`.
pub fn speech_request(config: &VoiceoverConfig, text: &str) -> (request: Result<
    SpeechRequest,
    SynthesisError,
>)
    ensures
        match request {
            Ok(made) => spec_speech_request(*config, text@) == Ok::<
                SpeechRequestView,
                SynthesisError,
            >(made@),
            Err(error) => spec_speech_request(*config, text@) == Err::<
                SpeechRequestView,
                SynthesisError,
            >(error),
        },
        request is Ok <==> config.api_key is Some,
{
    match &config.api_key {
        None => Err(SynthesisError::MissingApiKey),
        Some(key) => match config.provider {
            VoiceoverProvider::ElevenLabs => {
                let voice = text_or(&config.voice_id, "21m00Tcm4TlvDq8ikWAM");
                let model = text_or(&config.model_id, "eleven_flash_v2_5");
                Ok(elevenlabs_request(key.as_str(), voice.as_str(), model.as_str(), text))
            },
            VoiceoverProvider::Inworld => {
                let voice = text_or(&config.voice_id, "Ashley");
                let model = text_or(&config.model_id, "inworld-tts-1.5-max");
                Ok(inworld_request(key.as_str(), voice.as_str(), model.as_str(), text))
            },
        },
    }
}

/// The key under which the second speech service answers with the audio.
pub open spec fn spec_audio_key() -> Seq<char> {
    "audioContent"@
}

/// The audio in the answer of a speech service. The first service answers
/// with the audio itself. The second answers with JSON that holds the audio
/// as base64 under `audioContent`.
pub open spec fn spec_audio(provider: VoiceoverProvider, reply: HttpReplyView) -> Result<
    Seq<u8>,
    SynthesisError,
> {
    match reply {
        HttpReplyView::Failed => Err(SynthesisError::Transport),
        HttpReplyView::Answered { success, body } => if !success {
            Err(SynthesisError::Rejected)
        } else {
            match provider {
                VoiceoverProvider::ElevenLabs => Ok(body),
                VoiceoverProvider::Inworld => match audio_envelope_json(body, spec_audio_key()) {
                    AudioEnvelopeView::Malformed => Err(SynthesisError::MalformedResponse),
                    AudioEnvelopeView::NoAudio => Err(SynthesisError::MissingAudio),
                    AudioEnvelopeView::Audio(encoded) => match base64_decoded(encoded) {
                        Some(bytes) => Ok(bytes),
                        None => Err(SynthesisError::BadEncoding),
                    },
                },
            }
        },
    }
}

/// The audio that a speech answer's envelope holds.
pub open spec fn spec_envelope_audio(envelope: AudioEnvelopeView) -> Result<
    Seq<u8>,
    SynthesisError,
> {
    match envelope {
        AudioEnvelopeView::Malformed => Err(SynthesisError::MalformedResponse),
        AudioEnvelopeView::NoAudio => Err(SynthesisError::MissingAudio),
        AudioEnvelopeView::Audio(encoded) => match base64_decoded(encoded) {
            Some(bytes) => Ok(bytes),
            None => Err(SynthesisError::BadEncoding),
        },
    }
}

/// The audio that a speech answer's envelope holds.
pub fn envelope_audio(envelope: &AudioEnvelope) -> (audio: Result<Vec<u8>, SynthesisError>)
    ensures
        match audio {
            Ok(bytes) => spec_envelope_audio(envelope@) == Ok::<Seq<u8>, SynthesisError>(bytes@),
            Err(error) => spec_envelope_audio(envelope@) == Err::<Seq<u8>, SynthesisError>(
                error,
            ),
        },
{
    match envelope {
        AudioEnvelope::Malformed => Err(SynthesisError::MalformedResponse),
        AudioEnvelope::NoAudio => Err(SynthesisError::MissingAudio),
        AudioEnvelope::Audio(encoded) => match decode_base64(encoded.as_str()) {
            Ok(bytes) => Ok(bytes),
            Err(_) => Err(SynthesisError::BadEncoding),
        },
    }
}

/// The audio in the answer `reply` of the service `provider`.
pub fn audio_from_reply(provider: VoiceoverProvider, reply: &HttpReply) -> (audio: Result<
    Vec<u8>,
    SynthesisError,
>)
    ensures
        match audio {
            Ok(bytes) => spec_audio(provider, reply@) == Ok::<Seq<u8>, SynthesisError>(bytes@),
            Err(error) => spec_audio(provider, reply@) == Err::<Seq<u8>, SynthesisError>(error),
        },
{
    match reply {
        HttpReply::Failed => Err(SynthesisError::Transport),
        HttpReply::Answered { success, body } => {
            if !*success {
                Err(SynthesisError::Rejected)
            } else {
                match provider {
                    VoiceoverProvider::ElevenLabs => Ok(copy_bytes(body)),
                    VoiceoverProvider::Inworld => {
                        let envelope = parse_audio_envelope(body, "audioContent");
                        envelope_audio(&envelope)
                    },
                }
            }
        },
    }
}

/// The audio of a narration, given how the request to speak it ended.
/// Without a key for the service there is none, whatever the answer.
pub open spec fn spec_synthesized(config: VoiceoverConfig, reply: HttpReplyView) -> Result<
    Seq<u8>,
    SynthesisError,
> {
    if config.api_key is None {
        Err(SynthesisError::MissingApiKey)
    } else {
        spec_audio(config.provider, reply)
    }
}

/// The audio of a narration spoken by the configured service, given how the
/// request made by `speech_request` ended.
pub fn synthesize_speech_from_text(config: &VoiceoverConfig, reply: &HttpReply) -> (audio: Result<
    Vec<u8>,
    SynthesisError,
>)
    ensures
        match audio {
            Ok(bytes) => spec_synthesized(*config, reply@) == Ok::<Seq<u8>, SynthesisError>(
                bytes@,
            ),
            Err(error) => spec_synthesized(*config, reply@) == Err::<Seq<u8>, SynthesisError>(
                error,
            ),
        },
{
    if config.api_key.is_none() {
        Err(SynthesisError::MissingApiKey)
    } else {
        audio_from_reply(config.provider, reply)
    }
}

} // verus!
