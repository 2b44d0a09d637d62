use torvax::grouping::grouping_request;
use torvax::narration::{narrated_chunk, narration_request};
use torvax::types::ProjectContext;

fn strings(lines: &[&str]) -> Vec<String> {
    lines.iter().map(|l| l.to_string()).collect()
}

fn context() -> ProjectContext {
    ProjectContext { repo_name: "torvax".to_string(), description: "Replays commits.".to_string() }
}

#[test]
fn narration_request_is_sized_to_animation() {
    let lines = strings(&["@@ -1 +1 @@", "+abcd"]);
    let request = narration_request(&context(), "typing", "src/a.rs", &lines, 1000);
    let expected = "You are narrating live code changes for a developer teaching stream.\n\nPROJECT: torvax - Replays commits.\nCOMMIT: \"typing\"\nFILE: src/a.rs\n\nCODE CHANGES:\n@@ -1 +1 @@\n+abcd\n\nWrite a 66-word narration explaining these changes.\nThis narration will be spoken by text-to-speech while the code is being typed on screen.\nThe typing animation for this section lasts 13 seconds, so the narration MUST fill that time.\n\nRULES:\n- Explain WHAT changed, WHY it matters for this project, and HOW it works\n- Be semantically rich: describe the purpose and design decisions, not just surface changes\n- OPTIMIZE FOR SPEECH: Say 'Node' not 'Node.js', 'React' not 'React.js', 'TypeScript' not 'TS'\n- No symbols, no file extensions, no code syntax. Write how developers actually talk.\n\nRespond with ONLY the narration text.";
    assert_eq!(request.prompt, expected);
    assert_eq!(request.model, "gpt-5.2");
    assert_eq!(request.temperature_percent, 70);
    assert_eq!(request.max_completion_tokens, 200);
}

#[test]
fn narration_tokens_are_twice_the_words() {
    let lines = strings(&["@@ -1 +1 @@", "+abcd"]);
    // 13.2 s at 1000 ms, 52.8 s at 4000 ms: 264 words
    let request = narration_request(&context(), "m", "f", &lines, 4000);
    assert!(request.prompt.contains("Write a 264-word narration"));
    assert!(request.prompt.contains("lasts 53 seconds"));
    assert_eq!(request.max_completion_tokens, 528);
    let longest = narration_request(&context(), "m", "f", &lines, u64::MAX);
    assert!(longest.prompt.contains("Write a 400-word narration"));
    assert_eq!(longest.max_completion_tokens, 800);
    let shortest = narration_request(&context(), "m", "f", &vec![], 30);
    assert!(shortest.prompt.contains("CODE CHANGES:\n\n\nWrite a 40-word narration"));
    assert!(shortest.prompt.contains("lasts 5 seconds"));
}

#[test]
fn narrated_chunk_measures_words() {
    let chunk = narrated_chunk(4, "src/a.rs", &vec![2, 0], "  This change adds   five words.\n");
    assert_eq!(chunk.chunk_id, 4);
    assert_eq!(chunk.file_path, "src/a.rs");
    assert_eq!(chunk.hunk_indices, vec![2, 0]);
    assert_eq!(chunk.explanation, "This change adds   five words.");
    assert_eq!(chunk.audio_data, None);
    assert!(!chunk.has_audio);
    assert_eq!(chunk.audio_duration_micros, 2_000_000);
    let silent = narrated_chunk(0, "f", &vec![], " \n ");
    assert_eq!(silent.explanation, "");
    assert_eq!(silent.audio_duration_micros, 0);
}

#[test]
fn grouping_request_lists_summaries() {
    let context = ProjectContext { repo_name: "torvax".to_string(), description: "y".repeat(301) };
    let request = grouping_request(&context, "msg", "src/a.rs", &strings(&["Hunk 0: a", "Hunk 1: b"]));
    let expected = format!(
        "You are grouping code changes for a narrated walkthrough.\n\nPROJECT: torvax - {}\nCOMMIT: \"msg\"\nFILE: src/a.rs\n\nHUNKS:\nHunk 0: a\nHunk 1: b\n\nGroup these hunks into 1-4 semantic chunks. Each chunk should cover a coherent change (e.g. imports, a new function, config updates). Keep related hunks together.\n\nRespond with ONLY JSON: {{\"chunks\": [[0, 1], [2], [3, 4]]}}",
        "y".repeat(300)
    );
    assert_eq!(request.prompt, expected);
    assert_eq!(request.temperature_percent, 30);
    assert_eq!(request.max_completion_tokens, 256);
}
