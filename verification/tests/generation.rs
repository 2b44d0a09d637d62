use torvax::generation::{
    generate_audio_chunks, generate_audio_chunks_with_progress, is_skipped, narrated_files, Action,
    Generation, Outcome, Phase, RepoSnapshot,
};
use torvax::narration::ModelReply;
use torvax::tts::HttpReply;
use torvax::types::{DiffChunk, FileChange, FileStatus, VoiceoverConfig, VoiceoverProvider};

fn config() -> VoiceoverConfig {
    VoiceoverConfig {
        enabled: true,
        provider: VoiceoverProvider::Inworld,
        api_key: Some("speech".to_string()),
        voice_id: None,
        model_id: None,
        openai_api_key: Some("model".to_string()),
        use_llm_explanations: true,
    }
}

fn repo() -> RepoSnapshot {
    RepoSnapshot {
        git_config: Some("[remote]\n\turl = git@host:me/demo.git\n".to_string()),
        directory: Some("work".to_string()),
        key_files: vec![Some("[package]\nname = \"demo\"".to_string())],
    }
}

fn file(path: &str, diff: &str) -> FileChange {
    FileChange { path: path.to_string(), diff: diff.to_string(), status: FileStatus::Modified }
}

const FILE_A: &str = "@@ -0,0 +1,5 @@\n+one\n+two\n+three\n+four\n+five\n";
const FILE_B: &str = "@@ -1 +1 @@\n-a\n+b\n@@ -9 +9 @@\n+c\n@@ -20 +20 @@\n-d\n";

fn two_files() -> Vec<FileChange> {
    vec![file("src/a.rs", FILE_A), file("src/deep/b.rs", FILE_B)]
}

fn text(s: &str) -> ModelReply {
    ModelReply::Text(s.to_string())
}

fn audio(bytes: &[u8]) -> HttpReply {
    let encoded = match bytes {
        b"hello" => "aGVsbG8=",
        _ => "AAEC",
    };
    HttpReply::Answered { success: true, body: format!("{{\"audioContent\":\"{}\"}}", encoded).into_bytes() }
}

fn ask(action: &Action) -> (u64, String) {
    match action {
        Action::AskModel { pause_millis, request } => (*pause_millis, request.prompt.clone()),
        other => panic!("expected a request to the model, got {:?}", other),
    }
}

fn speak(action: &Action) -> (u64, String) {
    match action {
        Action::Speak { pause_millis, speech } => (*pause_millis, speech.body.clone()),
        other => panic!("expected a request to the speech service, got {:?}", other),
    }
}

fn ids(chunks: &Vec<DiffChunk>) -> Vec<usize> {
    chunks.iter().map(|c| c.chunk_id).collect()
}

#[test]
fn lock_and_data_files_are_skipped() {
    for path in [
        "package-lock.json", "web/yarn.lock", "pnpm-lock.yaml", "Cargo.lock", "data/x.json", "App.xcodeproj",
        "a/project.pbxproj", "App.xcworkspace", ".vscode/settings", "x/.idea/y.xml", "web/dist/app.js",
        "out/build/x.o", "crate/target/debug/x",
    ] {
        assert!(is_skipped(path), "{}", path);
    }
    for path in ["src/main.rs", "Cargo.toml", "locks.rs", "dist/app.js", "target", "a.jsonl", "README.md"] {
        assert!(!is_skipped(path), "{}", path);
    }
    let kept = narrated_files(&vec![file("a.rs", ""), file("b.json", ""), file("c.rs", ""), file("Cargo.lock", "")]);
    assert_eq!(kept.iter().map(|f| f.path.as_str()).collect::<Vec<_>>(), vec!["a.rs", "c.rs"]);
}

#[test]
fn unconfigured_generation_finishes_at_once() {
    let mut disabled = config();
    disabled.enabled = false;
    let mut keyless = config();
    keyless.api_key = None;
    for config in [disabled, keyless] {
        let (generation, action) = generate_audio_chunks_with_progress(config, "m", &two_files(), 30, repo());
        assert!(matches!(action, Action::Finish));
        assert_eq!(generation.phase(), Phase::Complete);
        assert!(!generation.clears_store());
        assert!(generation.chunks().is_empty());
        assert_eq!(generation.progress(), ("Analyzing repository...".to_string(), 0));
    }
}

#[test]
fn generation_without_narration_model_is_empty() {
    let mut no_llm = config();
    no_llm.use_llm_explanations = false;
    let mut no_key = config();
    no_key.openai_api_key = None;
    for config in [no_llm, no_key] {
        let (generation, action) = generate_audio_chunks_with_progress(config, "m", &two_files(), 30, repo());
        assert!(matches!(action, Action::Finish));
        assert!(generation.is_complete());
        assert!(generation.clears_store());
        assert!(generation.chunks().is_empty());
    }
    let mut bare = repo();
    bare.key_files = vec![None];
    let (generation, action) = generate_audio_chunks_with_progress(config(), "m", &two_files(), 30, bare);
    assert!(matches!(action, Action::Finish));
    assert!(generation.chunks().is_empty());
}

#[test]
fn failed_context_aborts_generation() {
    for reply in [ModelReply::Failed, ModelReply::Empty] {
        let (mut generation, action) = generate_audio_chunks_with_progress(config(), "m", &two_files(), 30, repo());
        assert_eq!(ask(&action).0, 0);
        assert_eq!(generation.phase(), Phase::ContextBuilding);
        assert_eq!(generation.progress(), ("Generating project context with GPT...".to_string(), 50));
        assert!(matches!(generation.on_model_reply(&reply), Action::Finish));
        assert!(generation.is_complete());
        assert!(generation.chunks().is_empty());
        assert!(matches!(generation.on_model_reply(&text("late")), Action::Ignored));
    }
}

#[test]
fn idle_generation_ignores_outcomes() {
    let mut generation = Generation::new(config(), "m", &two_files(), 30, repo());
    assert_eq!(generation.phase(), Phase::Idle);
    assert!(matches!(generation.on_model_reply(&text("x")), Action::Ignored));
    assert!(matches!(generation.on_speech_reply(&HttpReply::Failed), Action::Ignored));
    assert!(matches!(generation.on_measured(Some(1)), Action::Ignored));
    assert_eq!(generation.phase(), Phase::Idle);
    assert!(matches!(generation.start(), Action::AskModel { .. }));
    assert!(matches!(generation.start(), Action::Ignored));
}

#[test]
fn two_file_commit_end_to_end() {
    let (mut g, first) = generate_audio_chunks_with_progress(config(), "add things", &two_files(), 30, repo());
    let (pause, prompt) = ask(&first);
    assert_eq!(pause, 0);
    assert!(prompt.contains("Repository files:\nFile: Cargo.toml\n[package]\nname = \"demo\"\n\nProvide ONLY"));

    let ordering = g.on_model_reply(&text("  The demo project.  "));
    assert_eq!(g.phase(), Phase::FileOrdering);
    assert_eq!(g.progress(), ("Ordering 2 files by development flow...".to_string(), 100));
    let (pause, prompt) = ask(&ordering);
    assert_eq!(pause, 0);
    assert!(prompt.contains("PROJECT: demo - The demo project.\nCOMMIT: \"add things\""));
    assert!(prompt.contains("0: src/a.rs (modified, 6 diff lines)\n1: src/deep/b.rs (modified, 7 diff lines)"));

    // file A: one hunk, so no grouping request
    let narrate_a = g.on_model_reply(&text("[0, 1]"));
    assert_eq!(g.phase(), Phase::Narrating);
    assert_eq!(g.progress(), ("Processing file 1/2: a.rs".to_string(), 150));
    let (pause, prompt) = ask(&narrate_a);
    assert_eq!(pause, 300);
    assert!(prompt.contains("FILE: src/a.rs\n\nCODE CHANGES:\n@@ -0,0 +1,5 @@\n+one\n+two\n+three\n+four\n+five\n\nWrite a 40-word narration"));

    let speak_a = g.on_model_reply(&text(" Five lines are added here. "));
    assert_eq!(g.phase(), Phase::Synthesizing);
    assert_eq!(g.progress(), ("Synthesizing audio 1/2: a.rs (chunk 1)".to_string(), 150));
    let (pause, body) = speak(&speak_a);
    assert_eq!(pause, 300);
    assert_eq!(body, "{\"modelId\":\"inworld-tts-1.5-max\",\"text\":\"Five lines are added here.\",\"voiceId\":\"Ashley\"}");
    assert!(g.chunks().is_empty());

    let measure_a = g.on_speech_reply(&audio(b"hello"));
    assert_eq!(g.phase(), Phase::Measuring);
    match &measure_a {
        Action::Measure { audio } => assert_eq!(audio, &b"hello".to_vec()),
        other => panic!("expected a measure, got {:?}", other),
    }

    // file B: three hunks, so the groups are asked for, after the pause between files
    let grouping = g.on_measured(Some(3_000_000));
    assert_eq!(g.phase(), Phase::Grouping);
    assert_eq!(g.progress(), ("Processing file 2/2: b.rs".to_string(), 550));
    assert_eq!(ids(&g.chunks()), vec![0]);
    let (pause, prompt) = ask(&grouping);
    assert_eq!(pause, 1000);
    assert!(prompt.contains("FILE: src/deep/b.rs\n\nHUNKS:\nHunk 0: @@ -1 +1 @@ — 1 additions, 1 deletions\n  Preview: -a | +b\nHunk 1: "));

    let narrate_b0 = g.on_model_reply(&text("{\"chunks\": [[2, 0]]}"));
    let (pause, prompt) = ask(&narrate_b0);
    assert_eq!(pause, 300);
    assert!(prompt.contains("CODE CHANGES:\n@@ -20 +20 @@\n-d\n@@ -1 +1 @@\n-a\n+b\n\nWrite a"));

    let speak_b0 = g.on_model_reply(&text("First and last hunk."));
    assert_eq!(g.progress(), ("Synthesizing audio 2/2: b.rs (chunk 2)".to_string(), 550));
    assert_eq!(speak(&speak_b0).0, 300);

    // the speech service fails: the chunk stays, without audio
    let narrate_b1 = g.on_speech_reply(&HttpReply::Failed);
    assert_eq!(g.phase(), Phase::Narrating);
    assert_eq!(ids(&g.chunks()), vec![0, 1]);
    let (pause, prompt) = ask(&narrate_b1);
    assert_eq!(pause, 300);
    assert!(prompt.contains("CODE CHANGES:\n@@ -9 +9 @@\n+c\n\nWrite a"));

    let speak_b1 = g.on_model_reply(&text("The middle hunk adds a line."));
    speak(&speak_b1);
    assert!(matches!(g.on_speech_reply(&audio(&[0, 1, 2])), Action::Measure { .. }));
    assert!(matches!(g.on_measured(None), Action::Finish));
    assert!(g.is_complete());
    assert_eq!(g.progress(), ("Complete!".to_string(), 1000));
    assert!(g.clears_store());

    let chunks = g.chunks();
    assert_eq!(ids(&chunks), vec![0, 1, 2]);
    assert_eq!(chunks.iter().map(|c| c.file_path.as_str()).collect::<Vec<_>>(), vec!["src/a.rs", "src/deep/b.rs", "src/deep/b.rs"]);
    assert_eq!(chunks.iter().map(|c| c.hunk_indices.clone()).collect::<Vec<_>>(), vec![vec![0], vec![2, 0], vec![1]]);
    assert_eq!(chunks.iter().map(|c| c.has_audio).collect::<Vec<_>>(), vec![true, false, true]);
    assert_eq!(chunks[0].audio_data, Some(b"hello".to_vec()));
    assert_eq!(chunks[1].audio_data, None);
    assert_eq!(chunks[2].audio_data, Some(vec![0, 1, 2]));
    assert_eq!(chunks[0].explanation, "Five lines are added here.");
    // measured; estimated from 4 words; estimated from 6 words
    assert_eq!(chunks.iter().map(|c| c.audio_duration_micros).collect::<Vec<_>>(), vec![3_000_000, 1_600_000, 2_400_000]);
    assert!(matches!(g.on_measured(Some(1)), Action::Ignored));
    assert_eq!(ids(&g.chunks()), vec![0, 1, 2]);
}

#[test]
fn failed_narration_drops_only_its_chunk() {
    let outcomes = vec![
        Outcome::Model(text("d")),
        Outcome::Model(ModelReply::Failed),
        // file A
        Outcome::Model(ModelReply::Failed),
        // file B
        Outcome::Model(text("{\"chunks\": [[0], [1], [2]]}")),
        Outcome::Model(text("zero")),
        Outcome::Speech(audio(b"hello")),
        Outcome::Measured(Some(7)),
        Outcome::Model(ModelReply::Empty),
        Outcome::Model(text("two words")),
        Outcome::Speech(HttpReply::Answered { success: false, body: vec![] }),
        Outcome::Measured(Some(9)),
    ];
    let chunks = generate_audio_chunks(config(), "m", &two_files(), 30, repo(), &outcomes);
    assert_eq!(ids(&chunks), vec![0, 1]);
    assert_eq!(chunks.iter().map(|c| c.hunk_indices.clone()).collect::<Vec<_>>(), vec![vec![0], vec![2]]);
    assert_eq!(chunks.iter().map(|c| c.has_audio).collect::<Vec<_>>(), vec![true, false]);
    assert_eq!(chunks[0].audio_duration_micros, 7);
    assert_eq!(chunks[1].audio_duration_micros, 800_000);
}

#[test]
fn failed_grouping_skips_the_file() {
    let files = vec![file("b.rs", FILE_B), file("a.rs", FILE_A)];
    let outcomes = vec![
        Outcome::Model(text("d")),
        Outcome::Model(text("[0, 1]")),
        Outcome::Model(ModelReply::Failed),
        Outcome::Model(text("about a")),
        Outcome::Speech(audio(b"hello")),
        Outcome::Measured(None),
    ];
    let chunks = generate_audio_chunks(config(), "m", &files, 30, repo(), &outcomes);
    assert_eq!(ids(&chunks), vec![0]);
    assert_eq!(chunks[0].file_path, "a.rs");
    assert!(chunks[0].has_audio);
}

#[test]
fn ordering_answer_decides_processing_order() {
    let outcomes = vec![
        Outcome::Model(text("d")),
        Outcome::Model(text("[1, 0]")),
        Outcome::Model(text("not json")),
        Outcome::Model(text("all of b")),
        Outcome::Speech(HttpReply::Failed),
        Outcome::Model(text("all of a")),
        Outcome::Speech(HttpReply::Failed),
    ];
    let chunks = generate_audio_chunks(config(), "m", &two_files(), 30, repo(), &outcomes);
    assert_eq!(ids(&chunks), vec![0, 1]);
    assert_eq!(chunks[0].file_path, "src/deep/b.rs");
    assert_eq!(chunks[0].hunk_indices, vec![0, 1, 2]);
    assert_eq!(chunks[1].file_path, "src/a.rs");
}

#[test]
fn commit_without_narrated_files_is_empty() {
    let files = vec![file("Cargo.lock", FILE_A), file("x.json", FILE_B)];
    let (mut g, _) = generate_audio_chunks_with_progress(config(), "m", &files, 30, repo());
    // no ordering request for no files: the description is the only request
    assert!(matches!(g.on_model_reply(&text("d")), Action::Finish));
    assert_eq!(g.progress(), ("Complete!".to_string(), 1000));
    assert!(g.chunks().is_empty());
}

#[test]
fn single_file_skips_ordering() {
    let files = vec![file("a.rs", "no hunks here\n")];
    let (mut g, _) = generate_audio_chunks_with_progress(config(), "m", &files, 30, repo());
    let action = g.on_model_reply(&text("d"));
    assert_eq!(g.phase(), Phase::Narrating);
    let (pause, prompt) = ask(&action);
    assert_eq!(pause, 300);
    assert!(prompt.contains("CODE CHANGES:\n\n\nWrite a 40-word narration"));
    g.on_model_reply(&text("nothing"));
    assert!(matches!(g.on_speech_reply(&HttpReply::Failed), Action::Finish));
    let chunks = g.chunks();
    assert_eq!(ids(&chunks), vec![0]);
    assert_eq!(chunks[0].hunk_indices, Vec::<usize>::new());
}

#[test]
fn progress_stays_within_whole() {
    let files: Vec<FileChange> = (0..7).map(|i| file(&format!("f{}.rs", i), FILE_A)).collect();
    let (mut g, _) = generate_audio_chunks_with_progress(config(), "m", &files, 30, repo());
    g.on_model_reply(&text("d"));
    g.on_model_reply(&ModelReply::Failed);
    let mut seen = vec![g.progress().1];
    while !g.is_complete() {
        g.on_model_reply(&ModelReply::Failed);
        seen.push(g.progress().1);
    }
    assert_eq!(seen, vec![150, 264, 378, 492, 607, 721, 835, 1000]);
}

#[test]
fn refused_requests_are_made_again_with_doubling_pause() {
    let (mut g, first) = generate_audio_chunks_with_progress(config(), "m", &two_files(), 30, repo());
    let (_, prompt) = ask(&first);
    let again = g.on_model_reply(&ModelReply::RateLimited);
    assert_eq!(ask(&again), (1000, prompt.clone()));
    assert_eq!(g.phase(), Phase::ContextBuilding);
    let once_more = g.on_model_reply(&ModelReply::RateLimited);
    assert_eq!(ask(&once_more), (2000, prompt));
    // the third refusal is a failure: without the description nothing is narrated
    assert!(matches!(g.on_model_reply(&ModelReply::RateLimited), Action::Finish));
    assert!(g.chunks().is_empty());
}

#[test]
fn refused_narration_is_retried_then_dropped() {
    let (mut g, _) = generate_audio_chunks_with_progress(config(), "m", &two_files(), 30, repo());
    g.on_model_reply(&text("d"));
    // a refused ordering request is not made again: the files stay as they are
    let narrate_a = g.on_model_reply(&ModelReply::RateLimited);
    assert_eq!(g.phase(), Phase::Narrating);
    let (pause, prompt) = ask(&narrate_a);
    assert_eq!(pause, 300);
    assert_eq!(ask(&g.on_model_reply(&ModelReply::RateLimited)), (1000, prompt.clone()));
    assert_eq!(ask(&g.on_model_reply(&ModelReply::RateLimited)), (2000, prompt));
    // given up: the chunk is dropped and file B begun, whose groups are asked for
    let grouping = g.on_model_reply(&ModelReply::RateLimited);
    assert_eq!(g.phase(), Phase::Grouping);
    assert_eq!(ask(&grouping).0, 1000);
    // a refused grouping request is not made again: the file is passed over
    assert!(matches!(g.on_model_reply(&ModelReply::RateLimited), Action::Finish));
    assert!(g.chunks().is_empty());
}

#[test]
fn retries_start_anew_for_each_request() {
    let files = vec![file("a.rs", FILE_A), file("c.rs", FILE_A)];
    let (mut g, _) = generate_audio_chunks_with_progress(config(), "m", &files, 30, repo());
    g.on_model_reply(&ModelReply::RateLimited);
    g.on_model_reply(&ModelReply::RateLimited);
    g.on_model_reply(&text("d"));
    g.on_model_reply(&text("[0, 1]"));
    assert_eq!(ask(&g.on_model_reply(&ModelReply::RateLimited)).0, 1000);
    let speak_a = g.on_model_reply(&text("about a"));
    speak(&speak_a);
    let narrate_c = g.on_speech_reply(&HttpReply::Failed);
    assert_eq!(ask(&narrate_c).0, 1300);
    assert_eq!(ask(&g.on_model_reply(&ModelReply::RateLimited)).0, 1000);
    assert_eq!(ask(&g.on_model_reply(&ModelReply::RateLimited)).0, 2000);
    speak(&g.on_model_reply(&text("about c")));
    assert!(matches!(g.on_speech_reply(&HttpReply::Failed), Action::Finish));
    assert_eq!(ids(&g.chunks()), vec![0, 1]);
}
