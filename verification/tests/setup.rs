use torvax::chunker::{file_groups, split_diff_into_chunks, ChunkingError};
use torvax::cli::Args;
use torvax::editor::{cursor_line, EditorBuffer, EditorPane, RenderedLine};
use torvax::narration::ModelReply;
use torvax::player::OutputDevice;
use torvax::setup::{
    create_audio_player, next_setup_step, prompt_for_key, provider_named, resolve_voiceover, EnvKeys, SetupStep,
};
use torvax::types::{VoiceoverConfig, VoiceoverProvider};

fn args() -> Args {
    Args {
        path: None,
        commit: None,
        speed: None,
        theme: None,
        background: None,
        order: None,
        loop_playback: None,
        license: false,
        author: None,
        before: None,
        after: None,
        ignore: vec![],
        ignore_file: None,
        speed_rule: vec![],
        voiceover: None,
        elevenlabs: false,
        voiceover_provider: None,
        command: None,
    }
}

fn env() -> EnvKeys {
    EnvKeys { elevenlabs: Some("e".to_string()), inworld: Some("i".to_string()), openai: Some("o".to_string()) }
}

fn no_env() -> EnvKeys {
    EnvKeys { elevenlabs: None, inworld: None, openai: None }
}

fn text(s: &str) -> ModelReply {
    ModelReply::Text(s.to_string())
}

#[test]
fn provider_names_ignore_case() {
    assert_eq!(provider_named("ElevenLabs"), Some(VoiceoverProvider::ElevenLabs));
    assert_eq!(provider_named("INWORLD"), Some(VoiceoverProvider::Inworld));
    assert_eq!(provider_named("inworld "), None);
    assert_eq!(provider_named(""), None);
}

#[test]
fn defaults_stay_disabled() {
    let resolved = resolve_voiceover(&VoiceoverConfig::default(), &args(), &env());
    assert!(!resolved.config.enabled);
    assert_eq!(resolved.config.provider, VoiceoverProvider::Inworld);
    assert_eq!(resolved.config.api_key, None);
    assert_eq!(resolved.config.openai_api_key, Some("o".to_string()));
    assert!(!resolved.unknown_provider);
    assert_eq!(next_setup_step(&resolved.config), SetupStep::Disabled);
}

#[test]
fn command_line_overrides_file() {
    let mut with_voice = args();
    with_voice.voiceover = Some(true);
    let resolved = resolve_voiceover(&VoiceoverConfig::default(), &with_voice, &env());
    assert!(resolved.config.enabled);
    assert_eq!(resolved.config.api_key, Some("i".to_string()));

    let mut eleven = args();
    eleven.voiceover = Some(false);
    eleven.elevenlabs = true;
    let resolved = resolve_voiceover(&VoiceoverConfig::default(), &eleven, &env());
    assert!(resolved.config.enabled);
    assert_eq!(resolved.config.provider, VoiceoverProvider::ElevenLabs);
    assert_eq!(resolved.config.api_key, Some("e".to_string()));

    let mut named = args();
    named.voiceover = Some(true);
    named.voiceover_provider = Some("ElevenLabs".to_string());
    let resolved = resolve_voiceover(&VoiceoverConfig::default(), &named, &env());
    assert_eq!(resolved.config.provider, VoiceoverProvider::ElevenLabs);
    assert!(!resolved.unknown_provider);

    let mut unknown = args();
    unknown.voiceover_provider = Some("festival".to_string());
    let mut file = VoiceoverConfig::default();
    file.enabled = true;
    file.provider = VoiceoverProvider::ElevenLabs;
    file.api_key = Some("from file".to_string());
    file.openai_api_key = Some("file too".to_string());
    file.voice_id = Some("v".to_string());
    let resolved = resolve_voiceover(&file, &unknown, &env());
    assert!(resolved.unknown_provider);
    assert_eq!(resolved.config.provider, VoiceoverProvider::ElevenLabs);
    assert_eq!(resolved.config.api_key, Some("from file".to_string()));
    assert_eq!(resolved.config.openai_api_key, Some("file too".to_string()));
    assert_eq!(resolved.config.voice_id, Some("v".to_string()));
}

#[test]
fn missing_keys_are_asked_for_in_order() {
    let mut config = VoiceoverConfig::default();
    config.enabled = true;
    assert_eq!(next_setup_step(&config), SetupStep::AskNarrationKey);
    config.api_key = Some("s".to_string());
    assert_eq!(next_setup_step(&config), SetupStep::AskNarrationKey);
    config.openai_api_key = Some("m".to_string());
    assert_eq!(next_setup_step(&config), SetupStep::Ready);
    config.api_key = None;
    assert_eq!(next_setup_step(&config), SetupStep::AskSpeechKey);
    let unresolved = resolve_voiceover(&config, &args(), &no_env());
    assert_eq!(next_setup_step(&unresolved.config), SetupStep::AskSpeechKey);
}

#[test]
fn key_is_trimmed_input() {
    assert_eq!(prompt_for_key(Some("  sk-123 \n")), Some("sk-123".to_string()));
    assert_eq!(prompt_for_key(Some(" \n")), None);
    assert_eq!(prompt_for_key(Some("")), None);
    assert_eq!(prompt_for_key(None), None);
}

#[test]
fn player_is_made_when_setup_is_done() {
    let mut config = VoiceoverConfig::default();
    config.enabled = true;
    config.api_key = Some("s".to_string());
    config.openai_api_key = Some("m".to_string());
    let player = create_audio_player(config.clone(), OutputDevice::Ready).unwrap();
    assert!(player.voiceover_config().use_llm_explanations);
    assert!(player.voiceover_config().enabled);
    assert!(create_audio_player(config.clone(), OutputDevice::NoSink).is_none());
    assert!(create_audio_player(config.clone(), OutputDevice::NoStream).is_none());
    config.api_key = None;
    assert!(create_audio_player(config.clone(), OutputDevice::Ready).is_none());
    assert!(create_audio_player(VoiceoverConfig::default(), OutputDevice::Ready).is_none());
}

#[test]
fn one_hunk_file_is_one_group_whatever_the_answer() {
    assert_eq!(file_groups(1, &ModelReply::Failed), Ok(vec![vec![0]]));
    assert_eq!(file_groups(1, &text("{\"chunks\": [[5]]}")), Ok(vec![vec![0]]));
    assert_eq!(file_groups(0, &ModelReply::Empty), Ok(vec![vec![]]));
    assert_eq!(file_groups(3, &text("{\"chunks\": [[0, 1]]}")), Ok(vec![vec![0, 1], vec![2]]));
    assert_eq!(file_groups(3, &ModelReply::Failed), Err(ChunkingError::GroupingFailed));
    assert_eq!(file_groups(2, &ModelReply::RateLimited), Err(ChunkingError::GroupingFailed));
    assert_eq!(file_groups(2, &ModelReply::Empty), Err(ChunkingError::GroupingFailed));
}

#[test]
fn file_is_split_into_narrated_chunks() {
    let mut config = VoiceoverConfig::default();
    config.openai_api_key = Some("m".to_string());
    let diff = "@@ -1 +1 @@\n+a\n@@ -5 +5 @@\n+b\n@@ -9 +9 @@\n+c\n";
    let chunks = split_diff_into_chunks(
        &config,
        "f.rs",
        diff,
        &text("{\"chunks\": [[1], [0], [2]]}"),
        &vec![text(" one two "), ModelReply::Failed, text("three")],
    )
    .unwrap();
    assert_eq!(chunks.iter().map(|c| c.chunk_id).collect::<Vec<_>>(), vec![0, 2]);
    assert_eq!(chunks.iter().map(|c| c.hunk_indices.clone()).collect::<Vec<_>>(), vec![vec![1], vec![2]]);
    assert_eq!(chunks[0].explanation, "one two");
    assert_eq!(chunks[0].audio_duration_micros, 800_000);
    assert!(chunks.iter().all(|c| c.file_path == "f.rs" && !c.has_audio && c.audio_data.is_none()));

    let few = split_diff_into_chunks(&config, "f.rs", diff, &text("x"), &vec![]).unwrap();
    assert!(few.is_empty());
    let one = split_diff_into_chunks(&config, "f.rs", "@@ -1 +1 @@\n+a\n", &ModelReply::Failed, &vec![text("n")]).unwrap();
    assert_eq!(one.len(), 1);
    assert_eq!(one[0].hunk_indices, vec![0]);
    assert_eq!(
        split_diff_into_chunks(&config, "f.rs", diff, &ModelReply::Failed, &vec![text("n")]).unwrap_err(),
        ChunkingError::GroupingFailed
    );
    assert_eq!(
        split_diff_into_chunks(&VoiceoverConfig::default(), "f.rs", diff, &text("{}"), &vec![]).unwrap_err(),
        ChunkingError::MissingApiKey
    );
}

fn buffer(lines: &[&str], scroll: usize, line: usize, col: usize, visible: bool) -> EditorBuffer {
    EditorBuffer {
        lines: lines.iter().map(|l| l.to_string()).collect(),
        scroll_offset: scroll,
        cursor_line: line,
        cursor_col: col,
        cursor_visible: visible,
    }
}

fn plain(s: &str) -> RenderedLine {
    RenderedLine::Plain(s.to_string())
}

fn with_cursor(before: Option<&str>, cursor: char, after: Option<&str>) -> RenderedLine {
    RenderedLine::WithCursor { before: before.map(|s| s.to_string()), cursor, after: after.map(|s| s.to_string()) }
}

#[test]
fn cursor_cuts_its_line() {
    assert_eq!(cursor_line("héllo", 0), with_cursor(None, 'h', Some("éllo")));
    assert_eq!(cursor_line("héllo", 1), with_cursor(Some("h"), 'é', Some("llo")));
    assert_eq!(cursor_line("héllo", 4), with_cursor(Some("héll"), 'o', None));
    assert_eq!(cursor_line("héllo", 5), with_cursor(Some("héllo"), ' ', None));
    assert_eq!(cursor_line("héllo", 6), with_cursor(None, ' ', None));
    assert_eq!(cursor_line("", 0), with_cursor(None, ' ', None));
}

#[test]
fn pane_shows_lines_that_fit() {
    let lines = ["zero", "one", "two", "three", "four"];
    let pane = EditorPane;
    assert_eq!(pane.render(5, &buffer(&lines, 1, 2, 1, true)), vec![plain("one"), with_cursor(Some("t"), 'w', Some("o")), plain("three")]);
    assert_eq!(pane.render(5, &buffer(&lines, 1, 2, 1, false)), vec![plain("one"), plain("two"), plain("three")]);
    assert_eq!(pane.render(9, &buffer(&lines, 3, 0, 0, true)), vec![plain("three"), plain("four")]);
    assert_eq!(pane.render(2, &buffer(&lines, 0, 0, 0, true)), Vec::<RenderedLine>::new());
    assert_eq!(pane.render(1, &buffer(&lines, 0, 0, 0, true)), Vec::<RenderedLine>::new());
    assert_eq!(pane.render(9, &buffer(&lines, 5, 0, 0, true)), Vec::<RenderedLine>::new());
    assert_eq!(pane.render(9, &buffer(&lines, usize::MAX, 0, 0, true)), Vec::<RenderedLine>::new());
    assert_eq!(pane.render(3, &buffer(&lines, 4, 4, 9, true)), vec![with_cursor(None, ' ', None)]);
}
