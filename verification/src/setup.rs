//! Setting narration up: the configuration that results from the
//! configuration file, the command line and the environment, the keys that
//! are still to be asked for, and the player that is made in the end.

use crate::cli::Args;
use crate::player::{AudioPlayer, AudioPlayerView, OutputDevice};
use crate::text::{from_chars, spec_trim, to_chars, trim};
use crate::types::{copy_text, VoiceoverConfig, VoiceoverProvider};
use vstd::prelude::*;

verus! {

/// `text` in lower case, as `str::to_lowercase` gives it.
pub uninterp spec fn lowercased(text: Seq<char>) -> Seq<char>;

/// `str::to_lowercase`: the lower case of `text`, which depends on `text`
/// alone.
#[verifier::external_body]
fn lowercase(text: &str) -> (lower: String)
    ensures
        lower@ == lowercased(text@),
{
    text.to_lowercase()
}

/// The keys that the environment holds.
#[derive(Debug, Clone)]
pub struct EnvKeys {
    /// What `ELEVENLABS_API_KEY` holds.
    pub elevenlabs: Option<String>,
    /// What `INWORLD_API_KEY` holds.
    pub inworld: Option<String>,
    /// What `OPENAI_API_KEY` holds.
    pub openai: Option<String>,
}

/// The configuration of narration for a session, and whether the command
/// line named a speech service that there is not.
#[derive(Debug, Clone)]
pub struct ResolvedVoiceover {
    pub config: VoiceoverConfig,
    pub unknown_provider: bool,
}

/// What is still to be done before narration can start.
#[derive(Debug, Clone, Copy, PartialEq, Eq, Structural)]
pub enum SetupStep {
    /// Narration is not enabled: there is no player.
    Disabled,
    /// The key of the language model is to be asked for.
    AskNarrationKey,
    /// The key of the speech service is to be asked for.
    AskSpeechKey,
    /// The player can be made.
    Ready,
}

/// The speech service that the name `name` stands for, whatever its case.
pub open spec fn spec_provider_named(name: Seq<char>) -> Option<VoiceoverProvider> {
    if lowercased(name) == "elevenlabs"@ {
        Some(VoiceoverProvider::ElevenLabs)
    } else if lowercased(name) == "inworld"@ {
        Some(VoiceoverProvider::Inworld)
    } else {
        None
    }
}

/// `held`, or `other` where `held` is nothing.
pub open spec fn or_else(held: Option<String>, other: Option<String>) -> Option<String> {
    match held {
        Some(_) => held,
        None => other,
    }
}

/// The configuration of narration for a session. The command line goes
/// before the configuration file: `--voiceover` enables or disables,
/// `--elevenlabs` picks the first speech service and enables, and
/// `--voiceover-provider` picks the service it names. A key that the file
/// does not hold is taken from the environment: that of the speech service
/// only where narration is enabled, and that of the service picked.
pub open spec fn spec_resolve(config: VoiceoverConfig, args: Args, env: EnvKeys) -> VoiceoverConfig {
    let enabled = args.elevenlabs || match args.voiceover {
        Some(wanted) => wanted,
        None => config.enabled,
    };
    let flagged = if args.elevenlabs {
        VoiceoverProvider::ElevenLabs
    } else {
        config.provider
    };
    let provider = match args.voiceover_provider {
        Some(name) => match spec_provider_named(name@) {
            Some(named) => named,
            None => flagged,
        },
        None => flagged,
    };
    VoiceoverConfig {
        enabled,
        provider,
        api_key: if enabled {
            or_else(
                config.api_key,
                match provider {
                    VoiceoverProvider::ElevenLabs => env.elevenlabs,
                    VoiceoverProvider::Inworld => env.inworld,
                },
            )
        } else {
            config.api_key
        },
        openai_api_key: or_else(config.openai_api_key, env.openai),
        ..config
    }
}

/// Whether the command line names a speech service that there is not.
pub open spec fn spec_unknown_provider(args: Args) -> bool {
    match args.voiceover_provider {
        Some(name) => spec_provider_named(name@) is None,
        None => false,
    }
}

/// The speech service that the name `name` stands for, whatever its case.
pub fn provider_named(name: &str) -> (provider: Option<VoiceoverProvider>)
    ensures
        provider == spec_provider_named(name@),
{
    let lower = to_chars(lowercase(name).as_str());
    if crate::store::same_chars(&lower, &to_chars("elevenlabs")) {
        Some(VoiceoverProvider::ElevenLabs)
    } else if crate::store::same_chars(&lower, &to_chars("inworld")) {
        Some(VoiceoverProvider::Inworld)
    } else {
        None
    }
}

/// The configuration of narration for a session, made from the
/// configuration file, the command line and the environment.
pub fn resolve_voiceover(config: &VoiceoverConfig, args: &Args, env: &EnvKeys) -> (resolved:
    ResolvedVoiceover)
    ensures
        resolved.config == spec_resolve(*config, *args, *env),
        resolved.unknown_provider == spec_unknown_provider(*args),
{
    let mut made = config.duplicate();
    let mut unknown_provider: bool = false;
    match args.voiceover {
        Some(wanted) => {
            made.enabled = wanted;
        },
        None => {},
    }
    if args.elevenlabs {
        made.provider = VoiceoverProvider::ElevenLabs;
        made.enabled = true;
    }
    match &args.voiceover_provider {
        Some(name) => match provider_named(name.as_str()) {
            Some(named) => {
                made.provider = named;
            },
            None => {
                unknown_provider = true;
            },
        },
        None => {},
    }
    if made.enabled && made.api_key.is_none() {
        made.api_key = match made.provider {
            VoiceoverProvider::ElevenLabs => copy_text(&env.elevenlabs),
            VoiceoverProvider::Inworld => copy_text(&env.inworld),
        };
    }
    if made.openai_api_key.is_none() {
        made.openai_api_key = copy_text(&env.openai);
    }
    ResolvedVoiceover { config: made, unknown_provider }
}

/// What is still to be done before narration can start: nothing where it
/// is not enabled; else the key of the language model is asked for first,
/// then that of the speech service.
pub fn next_setup_step(config: &VoiceoverConfig) -> (step: SetupStep)
    ensures
        step == if !config.enabled {
            SetupStep::Disabled
        } else if config.openai_api_key is None {
            SetupStep::AskNarrationKey
        } else if config.api_key is None {
            SetupStep::AskSpeechKey
        } else {
            SetupStep::Ready
        },
{
    if !config.enabled {
        SetupStep::Disabled
    } else if config.openai_api_key.is_none() {
        SetupStep::AskNarrationKey
    } else if config.api_key.is_none() {
        SetupStep::AskSpeechKey
    } else {
        SetupStep::Ready
    }
}

/// The key in a line that was read from the user: the line without the
/// white space around it. There is none where nothing could be read or
/// nothing is left.
pub open spec fn spec_key_in(input: Option<&str>) -> Option<Seq<char>> {
    match input {
        Some(line) => if spec_trim(line@).len() == 0 {
            None
        } else {
            Some(spec_trim(line@))
        },
        None => None,
    }
}

/// The key that the user gave when asked: `input` is the line that was
/// read, or `None` where reading failed.
pub fn prompt_for_key(input: Option<&str>) -> (key: Option<String>)
    ensures
        match key {
            Some(text) => spec_key_in(input) == Some(text@),
            None => spec_key_in(input) is None,
        },
{
    match input {
        Some(line) => {
            let trimmed = trim(&to_chars(line));
            if trimmed.len() == 0 {
                None
            } else {
                Some(from_chars(&trimmed))
            }
        },
        None => None,
    }
}

/// The player of a session whose setup is done: the language model writes
/// the narration. There is none where narration is not enabled, a key is
/// missing, or the output device could not be opened.
pub fn create_audio_player(config: VoiceoverConfig, device: OutputDevice) -> (player: Option<
    AudioPlayer,
>)
    ensures
        player is Some <==> config.enabled && config.openai_api_key is Some && config.api_key
            is Some && device == OutputDevice::Ready,
        player matches Some(made) ==> made@ == (AudioPlayerView {
            config: VoiceoverConfig { use_llm_explanations: true, ..config },
            has_sink: true,
            paused: false,
            segments: Seq::empty(),
            chunks: Map::empty(),
            pending: Seq::empty(),
        }),
{
    match next_setup_step(&config) {
        SetupStep::Ready => {
            let mut ready = config;
            ready.use_llm_explanations = true;
            match AudioPlayer::new(ready, device) {
                Ok(player) => Some(player),
                Err(_) => None,
            }
        },
        _ => None,
    }
}

} // verus!
