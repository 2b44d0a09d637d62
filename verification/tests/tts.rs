use torvax::tts::{
    audio_from_reply, elevenlabs_request, envelope_audio, inworld_request, speech_request,
    synthesize_speech_from_text, HttpReply, SpeechRequest, SynthesisError,
};
use torvax::types::{VoiceoverConfig, VoiceoverProvider};
use torvax::wire::AudioEnvelope;

fn headers(request: &SpeechRequest) -> Vec<(String, String)> {
    request.headers.iter().map(|h| (h.name.clone(), h.value.clone())).collect()
}

fn pair(a: &str, b: &str) -> (String, String) {
    (a.to_string(), b.to_string())
}

fn answered(success: bool, body: &[u8]) -> HttpReply {
    HttpReply::Answered { success, body: body.to_vec() }
}

fn config(provider: VoiceoverProvider) -> VoiceoverConfig {
    let mut config = VoiceoverConfig::default();
    config.provider = provider;
    config.api_key = Some("key".to_string());
    config
}

#[test]
fn elevenlabs_request_is_posted_to_voice() {
    let request = elevenlabs_request("k1", "voice9", "model7", "say \"hi\"\n");
    assert_eq!(request.url, "https://api.elevenlabs.io/v1/text-to-speech/voice9");
    assert_eq!(headers(&request), vec![pair("xi-api-key", "k1"), pair("Content-Type", "application/json")]);
    assert_eq!(
        request.body,
        "{\"model_id\":\"model7\",\"text\":\"say \\\"hi\\\"\\n\",\"voice_settings\":{\"similarity_boost\":0.75,\"stability\":0.5}}"
    );
    let parsed: serde_json::Value = serde_json::from_str(&request.body).unwrap();
    assert_eq!(parsed["text"].as_str(), Some("say \"hi\"\n"));
    assert_eq!(parsed["model_id"].as_str(), Some("model7"));
    assert_eq!(parsed["voice_settings"]["stability"].as_f64(), Some(0.5));
    assert_eq!(parsed["voice_settings"]["similarity_boost"].as_f64(), Some(0.75));
}

#[test]
fn inworld_request_uses_basic_auth() {
    let request = inworld_request("a2V5", "Ashley", "m", "Tab\there");
    assert_eq!(request.url, "https://api.inworld.ai/tts/v1/voice");
    assert_eq!(headers(&request), vec![pair("Authorization", "Basic a2V5"), pair("Content-Type", "application/json")]);
    assert_eq!(request.body, "{\"modelId\":\"m\",\"text\":\"Tab\\there\",\"voiceId\":\"Ashley\"}");
    let parsed: serde_json::Value = serde_json::from_str(&request.body).unwrap();
    assert_eq!(parsed["text"].as_str(), Some("Tab\there"));
    assert_eq!(parsed["voiceId"].as_str(), Some("Ashley"));
    assert_eq!(parsed["modelId"].as_str(), Some("m"));
}

#[test]
fn speech_request_takes_defaults_by_provider() {
    let eleven = speech_request(&config(VoiceoverProvider::ElevenLabs), "t").unwrap();
    assert_eq!(eleven.url, "https://api.elevenlabs.io/v1/text-to-speech/21m00Tcm4TlvDq8ikWAM");
    assert!(eleven.body.starts_with("{\"model_id\":\"eleven_flash_v2_5\","));
    let inworld = speech_request(&config(VoiceoverProvider::Inworld), "t").unwrap();
    assert_eq!(inworld.body, "{\"modelId\":\"inworld-tts-1.5-max\",\"text\":\"t\",\"voiceId\":\"Ashley\"}");
    let mut custom = config(VoiceoverProvider::Inworld);
    custom.voice_id = Some("Bo".to_string());
    custom.model_id = Some("tiny".to_string());
    assert_eq!(speech_request(&custom, "t").unwrap().body, "{\"modelId\":\"tiny\",\"text\":\"t\",\"voiceId\":\"Bo\"}");
    assert_eq!(speech_request(&VoiceoverConfig::default(), "t").unwrap_err(), SynthesisError::MissingApiKey);
}

#[test]
fn elevenlabs_answer_is_the_audio() {
    assert_eq!(audio_from_reply(VoiceoverProvider::ElevenLabs, &answered(true, &[1, 2, 3])), Ok(vec![1, 2, 3]));
    assert_eq!(audio_from_reply(VoiceoverProvider::ElevenLabs, &answered(true, b"{}")), Ok(b"{}".to_vec()));
    assert_eq!(
        audio_from_reply(VoiceoverProvider::ElevenLabs, &answered(false, &[1])),
        Err(SynthesisError::Rejected)
    );
    assert_eq!(audio_from_reply(VoiceoverProvider::ElevenLabs, &HttpReply::Failed), Err(SynthesisError::Transport));
}

#[test]
fn inworld_answer_holds_base64_audio() {
    let p = VoiceoverProvider::Inworld;
    assert_eq!(audio_from_reply(p, &answered(true, b"{\"audioContent\": \"aGVsbG8=\"}")), Ok(b"hello".to_vec()));
    assert_eq!(audio_from_reply(p, &answered(true, b"{\"audioContent\": \"\"}")), Ok(vec![]));
    assert_eq!(audio_from_reply(p, &answered(true, b"{\"audioContent\": \"aGVsbG8\"}")), Err(SynthesisError::BadEncoding));
    assert_eq!(audio_from_reply(p, &answered(true, b"{\"audioContent\": \"a*b=\"}")), Err(SynthesisError::BadEncoding));
    assert_eq!(audio_from_reply(p, &answered(true, b"{\"audioContent\": 5}")), Err(SynthesisError::MissingAudio));
    assert_eq!(audio_from_reply(p, &answered(true, b"{\"audio\": \"aGVsbG8=\"}")), Err(SynthesisError::MissingAudio));
    assert_eq!(audio_from_reply(p, &answered(true, b"[1]")), Err(SynthesisError::MissingAudio));
    assert_eq!(audio_from_reply(p, &answered(true, b"<html>")), Err(SynthesisError::MalformedResponse));
    assert_eq!(audio_from_reply(p, &answered(true, &[0xff, 0xfe])), Err(SynthesisError::MalformedResponse));
    assert_eq!(audio_from_reply(p, &answered(false, b"{\"audioContent\": \"aGVsbG8=\"}")), Err(SynthesisError::Rejected));
    assert_eq!(audio_from_reply(p, &HttpReply::Failed), Err(SynthesisError::Transport));
}

#[test]
fn envelope_audio_decodes() {
    assert_eq!(envelope_audio(&AudioEnvelope::Audio("AAEC".to_string())), Ok(vec![0, 1, 2]));
    assert_eq!(envelope_audio(&AudioEnvelope::Audio("AAEC\n".to_string())), Err(SynthesisError::BadEncoding));
    assert_eq!(envelope_audio(&AudioEnvelope::NoAudio), Err(SynthesisError::MissingAudio));
    assert_eq!(envelope_audio(&AudioEnvelope::Malformed), Err(SynthesisError::MalformedResponse));
}

#[test]
fn synthesis_needs_key() {
    let reply = answered(true, &[9]);
    assert_eq!(synthesize_speech_from_text(&config(VoiceoverProvider::ElevenLabs), &reply), Ok(vec![9]));
    let mut keyless = config(VoiceoverProvider::ElevenLabs);
    keyless.api_key = None;
    assert_eq!(synthesize_speech_from_text(&keyless, &reply), Err(SynthesisError::MissingApiKey));
}
