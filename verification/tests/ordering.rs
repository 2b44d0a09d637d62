use torvax::narration::ModelReply;
use torvax::ordering::{file_order, order_files_by_development_flow, ordering_request};
use torvax::types::{FileChange, FileStatus, ProjectContext, VoiceoverConfig};

fn file(path: &str, diff: &str, status: FileStatus) -> FileChange {
    FileChange { path: path.to_string(), diff: diff.to_string(), status }
}

fn files() -> Vec<FileChange> {
    vec![
        file("src/ui.rs", "@@ -1 +1 @@\n+a\n", FileStatus::Modified),
        file("Cargo.toml", "@@ -1 +1 @@\n+b\n+c\n", FileStatus::Added),
        file("src/types.rs", "", FileStatus::Renamed),
    ]
}

fn paths(files: &Vec<FileChange>) -> Vec<String> {
    files.iter().map(|f| f.path.clone()).collect()
}

fn config_with_key() -> VoiceoverConfig {
    let mut config = VoiceoverConfig::default();
    config.openai_api_key = Some("sk".to_string());
    config
}

#[test]
fn order_names_each_file_once() {
    assert_eq!(file_order(&vec![2, 0, 3, 1], 4), vec![2, 0, 3, 1]);
    assert_eq!(file_order(&vec![2, 2, 9, 0], 4), vec![2, 0, 1, 3]);
    assert_eq!(file_order(&vec![], 3), vec![0, 1, 2]);
    assert_eq!(file_order(&vec![u64::MAX, 1], 2), vec![1, 0]);
    assert_eq!(file_order(&vec![5], 0), Vec::<usize>::new());
}

#[test]
fn answer_reorders_files() {
    let ordered = order_files_by_development_flow(&files(), &ModelReply::Text(" [1, 2, 0]\n".to_string()));
    assert_eq!(paths(&ordered), vec!["Cargo.toml", "src/types.rs", "src/ui.rs"]);
    assert_eq!(ordered[0].diff, "@@ -1 +1 @@\n+b\n+c\n");
    assert_eq!(ordered[0].status, FileStatus::Added);
}

#[test]
fn files_left_out_come_last_in_their_order() {
    let ordered = order_files_by_development_flow(&files(), &ModelReply::Text("[2, 7, 2]".to_string()));
    assert_eq!(paths(&ordered), vec!["src/types.rs", "src/ui.rs", "Cargo.toml"]);
}

#[test]
fn failed_ordering_keeps_files_unchanged() {
    for reply in [
        ModelReply::Failed,
        ModelReply::Empty,
        ModelReply::Text("the order is 1, 0".to_string()),
        ModelReply::Text("[1, -1]".to_string()),
        ModelReply::Text("{\"order\": [1, 0]}".to_string()),
    ] {
        let ordered = order_files_by_development_flow(&files(), &reply);
        assert_eq!(paths(&ordered), paths(&files()));
        assert_eq!(ordered.len(), 3);
    }
}

#[test]
fn no_ordering_request_for_one_file_or_without_key() {
    let context = ProjectContext { repo_name: "r".to_string(), description: "d".to_string() };
    let one = vec![file("a.rs", "", FileStatus::Added)];
    assert!(ordering_request(&config_with_key(), &context, "msg", &one).is_none());
    assert!(ordering_request(&config_with_key(), &context, "msg", &vec![]).is_none());
    assert!(ordering_request(&VoiceoverConfig::default(), &context, "msg", &files()).is_none());
}

#[test]
fn ordering_request_lists_files() {
    let context = ProjectContext { repo_name: "torvax".to_string(), description: "x".repeat(250) };
    let request = ordering_request(&config_with_key(), &context, "add \"types\"", &files()).unwrap();
    let expected = format!(
        "You are ordering files for a code walkthrough narration.\n\nPROJECT: torvax - {}\nCOMMIT: \"add \"types\"\"\n\nFILES:\n0: src/ui.rs (modified, 2 diff lines)\n1: Cargo.toml (new file, 3 diff lines)\n2: src/types.rs (renamed, 0 diff lines)\n\nOrder these files by how a developer would logically write them:\n- Config/setup files first\n- Type definitions and data models next\n- Core logic and business rules\n- Integration points (API calls, database)\n- UI/presentation last\n- New files before modifications\n- Dependencies before dependents\n\nRespond with ONLY a JSON array of the file indices. Example: [2, 0, 3, 1]",
        "x".repeat(200)
    );
    assert_eq!(request.prompt, expected);
    assert_eq!(request.model, "gpt-5.2");
    assert_eq!(request.temperature_percent, 20);
    assert_eq!(request.max_completion_tokens, 128);
}
