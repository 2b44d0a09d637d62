use torvax::cli::PlaybackOrder;
use torvax::difftext::{build_diff_text, file_changes, ChangedFile, DiffHunk, DiffLine, LineChangeType};
use torvax::hunks::parse_hunks;
use torvax::types::FileStatus;
use torvax::types::DiffChunk;
use torvax::ui::{
    next_to_speak, AdvancePlan, CommitStart, FetchKind, Key, SpeakStep, StepMode, TickCommand, UiCommand, UiState, UI,
};

fn ui(has_repo: bool, has_audio: bool) -> UI<&'static str> {
    UI::new(30, has_repo, PlaybackOrder::Asc, false, false, false, has_audio)
}

fn line(change_type: LineChangeType, content: &str) -> DiffLine {
    DiffLine { change_type, content: content.to_string() }
}

fn hunks() -> Vec<DiffHunk> {
    vec![
        DiffHunk {
            old_start: 1,
            old_lines: 2,
            new_start: 1,
            new_lines: 3,
            lines: vec![
                line(LineChangeType::Context, "use a;"),
                line(LineChangeType::Addition, "use b;"),
                line(LineChangeType::Deletion, ""),
            ],
        },
        DiffHunk { old_start: 10, old_lines: 0, new_start: 12, new_lines: 1, lines: vec![line(LineChangeType::Addition, "@@ not a header")] },
    ]
}

#[test]
fn diff_text_has_header_and_marked_lines() {
    assert_eq!(build_diff_text(&hunks()), "@@ -1,2 +1,3 @@\n use a;\n+use b;\n-\n@@ -10,0 +12,1 @@\n+@@ not a header\n");
    assert_eq!(build_diff_text(&vec![]), "");
    let (parsed, _) = parse_hunks(&build_diff_text(&hunks()));
    assert_eq!(parsed.len(), 2);
    assert_eq!(parsed[1], vec!["@@ -10,0 +12,1 @@".to_string(), "+@@ not a header".to_string()]);
}

#[test]
fn excluded_files_are_not_narrated() {
    let changes = vec![
        ChangedFile { path: "a.rs".to_string(), status: FileStatus::Added, is_excluded: false, hunks: hunks() },
        ChangedFile { path: "b.rs".to_string(), status: FileStatus::Modified, is_excluded: true, hunks: hunks() },
        ChangedFile { path: "c.rs".to_string(), status: FileStatus::Deleted, is_excluded: false, hunks: vec![] },
    ];
    let files = file_changes(&changes);
    assert_eq!(files.iter().map(|f| f.path.as_str()).collect::<Vec<_>>(), vec!["a.rs", "c.rs"]);
    assert_eq!(files[0].diff, build_diff_text(&hunks()));
    assert_eq!(files[0].status, FileStatus::Added);
    assert_eq!(files[1].diff, "");
}

#[test]
fn commit_with_narration_waits_for_generation() {
    let mut ui = ui(true, true);
    assert_eq!(ui.load_commit("c1"), CommitStart::GenerateAudio);
    assert_eq!(ui.state(), UiState::GeneratingAudio);
    assert_eq!(ui.tick(5, false, false), TickCommand::Nothing);
    assert_eq!(ui.handle_key(Key::Char(' ')), UiCommand::Nothing);
    assert_eq!(ui.tick(6, false, true), TickCommand::Animate { paused: false });
    assert_eq!(ui.state(), UiState::Playing);
    assert_eq!(ui.tick(7, false, true), TickCommand::Nothing);
}

#[test]
fn quitting_abandons_generation() {
    for key in [Key::Char('q'), Key::CtrlC] {
        let mut ui = ui(true, true);
        ui.load_commit("c1");
        assert_eq!(ui.handle_key(key), UiCommand::Abandon);
        assert_eq!(ui.state(), UiState::Finished);
        // the result that comes late is not looked at
        assert_eq!(ui.tick(1, false, true), TickCommand::Exit);
    }
}

#[test]
fn commit_without_narration_plays_at_once() {
    let mut ui = ui(false, false);
    assert_eq!(ui.load_commit("c1"), CommitStart::Animate { paused: false });
    assert_eq!(ui.state(), UiState::Playing);
    assert_eq!(ui.tick(10, true, true), TickCommand::Nothing);
    assert_eq!(ui.state(), UiState::Finished);
    assert_eq!(ui.tick(11, true, true), TickCommand::Exit);
}

#[test]
fn next_commit_follows_after_a_hundred_delays() {
    let mut ui = ui(true, false);
    ui.load_commit("c1");
    assert_eq!(ui.tick(1000, true, true), TickCommand::Nothing);
    assert_eq!(ui.state(), UiState::WaitingForNext { resume_at_millis: 4000 });
    assert_eq!(ui.tick(3999, true, true), TickCommand::Nothing);
    assert_eq!(ui.handle_key(Key::Char(' ')), UiCommand::Pause);
    assert_eq!(ui.tick(4000, true, true), TickCommand::Nothing);
    assert_eq!(ui.handle_key(Key::Char(' ')), UiCommand::Resume);
    assert_eq!(ui.tick(4000, true, true), TickCommand::Advance);
    assert_eq!(ui.advance_to_next_commit(), AdvancePlan::FetchCommit(FetchKind::NextAsc));
    assert!(!ui.fetch_failed(false));
    assert_eq!(ui.state(), UiState::Finished);
}

#[test]
fn fetch_follows_order_and_mode() {
    let plan = |range, spec, order| UI::<u8>::new(30, true, order, true, spec, range, false).advance_to_next_commit();
    assert_eq!(plan(true, true, PlaybackOrder::Random), AdvancePlan::FetchCommit(FetchKind::RandomInRange));
    assert_eq!(plan(true, false, PlaybackOrder::Asc), AdvancePlan::FetchCommit(FetchKind::NextInRangeAsc));
    assert_eq!(plan(true, false, PlaybackOrder::Desc), AdvancePlan::FetchCommit(FetchKind::NextInRangeDesc));
    assert_eq!(plan(false, true, PlaybackOrder::Desc), AdvancePlan::FetchCommit(FetchKind::Named));
    assert_eq!(plan(false, false, PlaybackOrder::Random), AdvancePlan::FetchCommit(FetchKind::Random));
    assert_eq!(plan(false, false, PlaybackOrder::Desc), AdvancePlan::FetchCommit(FetchKind::NextDesc));
    let mut looping: UI<u8> = UI::new(30, true, PlaybackOrder::Asc, true, false, false, false);
    assert!(looping.fetch_failed(false));
    assert_eq!(looping.state(), UiState::Playing);
    assert!(!looping.fetch_failed(true));
    assert_eq!(looping.state(), UiState::Finished);
    let mut tree: UI<u8> = UI::new(30, true, PlaybackOrder::Asc, true, false, false, false);
    tree.set_diff_mode(true);
    assert_eq!(tree.advance_to_next_commit(), AdvancePlan::FetchWorkingTree);
    assert!(!tree.fetch_failed(false));
    let mut bare: UI<u8> = UI::new(30, false, PlaybackOrder::Asc, true, false, false, false);
    bare.set_diff_mode(true);
    assert_eq!(bare.advance_to_next_commit(), AdvancePlan::Finish);
    assert_eq!(bare.state(), UiState::Finished);
}

#[test]
fn menu_opens_and_closes() {
    let mut ui = ui(true, false);
    ui.load_commit("c1");
    ui.tick(0, true, true);
    assert_eq!(ui.handle_key(Key::Esc), UiCommand::Pause);
    assert_eq!(ui.state(), UiState::Menu);
    assert_eq!(ui.handle_key(Key::Up), UiCommand::Nothing);
    assert_eq!(ui.menu_index(), 0);
    ui.handle_key(Key::Char('j'));
    ui.handle_key(Key::Down);
    ui.handle_key(Key::Down);
    assert_eq!(ui.menu_index(), 2);
    ui.handle_key(Key::Char('k'));
    assert_eq!(ui.menu_index(), 1);
    ui.handle_key(Key::Enter);
    assert_eq!(ui.state(), UiState::About);
    ui.handle_key(Key::Char('x'));
    assert_eq!(ui.state(), UiState::About);
    ui.handle_key(Key::Char('q'));
    assert_eq!(ui.state(), UiState::Menu);
    ui.handle_key(Key::Up);
    ui.handle_key(Key::Enter);
    assert_eq!(ui.state(), UiState::KeyBindings);
    ui.handle_key(Key::Esc);
    // the commit that waited for the next one plays on
    assert_eq!(ui.handle_key(Key::Esc), UiCommand::Resume);
    assert_eq!(ui.state(), UiState::Playing);
    ui.handle_key(Key::Esc);
    ui.handle_key(Key::Down);
    ui.handle_key(Key::Down);
    ui.handle_key(Key::Enter);
    assert_eq!(ui.state(), UiState::Finished);
}

#[test]
fn closing_menu_keeps_manual_pause() {
    let mut ui = ui(true, false);
    ui.load_commit("c1");
    assert_eq!(ui.handle_key(Key::Char('l')), UiCommand::Step { pause_first: true, mode: StepMode::Line });
    assert_eq!(ui.handle_key(Key::Char('H')), UiCommand::StepBack { pause_first: false, mode: StepMode::Change });
    assert_eq!(ui.handle_key(Key::Esc), UiCommand::Pause);
    assert_eq!(ui.handle_key(Key::Esc), UiCommand::Nothing);
    assert_eq!(ui.handle_key(Key::Char('h')), UiCommand::StepBack { pause_first: false, mode: StepMode::Line });
    assert_eq!(ui.handle_key(Key::Char(' ')), UiCommand::Resume);
    assert_eq!(ui.handle_key(Key::Char('L')), UiCommand::Step { pause_first: true, mode: StepMode::Change });
}

#[test]
fn history_is_walked_and_cut() {
    let mut ui = ui(true, false);
    assert_eq!(ui.handle_key(Key::Char('p')), UiCommand::Nothing);
    ui.load_commit("c1");
    ui.load_commit("c2");
    ui.load_commit("c3");
    assert_eq!(ui.stored(2), Some(&"c3"));
    assert_eq!(ui.handle_key(Key::Char('n')), UiCommand::Advance);
    let back = UiCommand::PlayStored { index: 1, start: CommitStart::Animate { paused: false } };
    assert_eq!(ui.handle_key(Key::Char('p')), back);
    assert_eq!(ui.handle_key(Key::Char('p')), UiCommand::PlayStored { index: 0, start: CommitStart::Animate { paused: false } });
    assert_eq!(ui.handle_key(Key::Char('p')), UiCommand::Nothing);
    assert_eq!(ui.handle_key(Key::Char('n')), back);
    // a commit played anew from the middle forgets what came after
    ui.load_commit("c4");
    assert_eq!(ui.stored(0), Some(&"c1"));
    assert_eq!(ui.stored(1), Some(&"c2"));
    assert_eq!(ui.stored(2), Some(&"c4"));
    assert_eq!(ui.stored(3), None);
    assert_eq!(ui.handle_key(Key::Char('n')), UiCommand::Advance);
}

#[test]
fn next_without_repository_does_nothing() {
    let mut ui = ui(false, true);
    ui.load_commit("c1");
    ui.tick(0, false, true);
    assert_eq!(ui.handle_key(Key::Char('n')), UiCommand::Nothing);
    ui.load_commit("c2");
    ui.tick(0, false, true);
    assert_eq!(ui.handle_key(Key::Char('p')), UiCommand::PlayStored { index: 0, start: CommitStart::GenerateAudio });
    assert_eq!(ui.state(), UiState::GeneratingAudio);
    ui.interrupt();
    assert_eq!(ui.state(), UiState::Finished);
    assert_eq!(ui.handle_key(Key::Esc), UiCommand::Nothing);
}

fn spoken(id: usize, has_audio: bool) -> DiffChunk {
    DiffChunk {
        chunk_id: id,
        file_path: "a.rs".to_string(),
        hunk_indices: vec![],
        explanation: String::new(),
        audio_data: if has_audio { Some(vec![1]) } else { None },
        has_audio,
        audio_duration_micros: 0,
    }
}

#[test]
fn chunks_are_spoken_one_after_another() {
    let chunks = vec![spoken(4, true), spoken(5, false), spoken(6, true)];
    assert_eq!(next_to_speak(&chunks, 0, &vec![]), SpeakStep::Wait);
    assert_eq!(next_to_speak(&chunks, 0, &vec![6]), SpeakStep::Wait);
    assert_eq!(next_to_speak(&chunks, 0, &vec![6, 4]), SpeakStep::Next { position: 1, chunk_id: 5 });
    assert_eq!(next_to_speak(&chunks, 1, &vec![]), SpeakStep::Next { position: 2, chunk_id: 6 });
    assert_eq!(next_to_speak(&chunks, 2, &vec![4]), SpeakStep::Wait);
    assert_eq!(next_to_speak(&chunks, 2, &vec![4, 6]), SpeakStep::AllSpoken);
    assert_eq!(next_to_speak(&chunks, 3, &vec![]), SpeakStep::AllSpoken);
    assert_eq!(next_to_speak(&chunks, usize::MAX, &vec![]), SpeakStep::AllSpoken);
    assert_eq!(next_to_speak(&vec![], 0, &vec![]), SpeakStep::AllSpoken);
}
