use torvax::context::{
    context_request, description_from_reply, extract_project_context, extract_repo_name,
    generate_project_context_with_llm, key_files, ContextError,
};
use torvax::narration::ModelReply;
use torvax::types::VoiceoverConfig;

fn config_with_key() -> VoiceoverConfig {
    let mut config = VoiceoverConfig::default();
    config.openai_api_key = Some("sk".to_string());
    config
}

#[test]
fn repo_name_is_read_off_first_remote() {
    let config = "[core]\n\tbare = false\n[remote \"origin\"]\n\turl = git@github.com:Munasco/torvax.git\n\tfetch = +refs\n[remote \"up\"]\n\turl = https://example.com/other\n";
    assert_eq!(extract_repo_name(config), Some("torvax".to_string()));
    assert_eq!(extract_repo_name("url = https://host/a/b.git.git  \n"), Some("b".to_string()));
    assert_eq!(extract_repo_name("url = name"), Some("name".to_string()));
    assert_eq!(extract_repo_name("x url = a/b url = c/d"), Some("b".to_string()));
    assert_eq!(extract_repo_name("url = https://host/dir/"), Some("".to_string()));
    assert_eq!(extract_repo_name("[core]\nurl=missing space\n"), None);
    assert_eq!(extract_repo_name(""), None);
}

#[test]
fn project_context_falls_back() {
    let named = extract_project_context(Some("url = a/b.git"), Some("dir"));
    assert_eq!(named.repo_name, "b");
    assert_eq!(named.description, "");
    assert_eq!(extract_project_context(Some("nothing"), Some("dir")).repo_name, "dir");
    assert_eq!(extract_project_context(None, Some("dir")).repo_name, "dir");
    assert_eq!(extract_project_context(None, None).repo_name, "repository");
}

#[test]
fn key_files_are_listed_in_order() {
    let files: Vec<(String, usize)> = key_files().into_iter().map(|f| (f.path, f.max_chars)).collect();
    let expected: Vec<(String, usize)> = [
        ("Cargo.toml", 5000),
        ("package.json", 5000),
        ("src/main.rs", 8000),
        ("src/lib.rs", 8000),
        ("src/index.ts", 8000),
        ("main.py", 8000),
        ("README.md", 3000),
    ]
    .iter()
    .map(|(p, n)| (p.to_string(), *n))
    .collect();
    assert_eq!(files, expected);
}

#[test]
fn context_request_quotes_key_files() {
    let contents = vec![
        Some("[package]".to_string()),
        None,
        None,
        None,
        None,
        None,
        Some("r".repeat(3001)),
        Some("ignored".to_string()),
    ];
    let request = context_request(&config_with_key(), &contents).unwrap();
    let expected = format!(
        "You are analyzing a code repository using the DeepWiki principle. Based on the key files below, provide a comprehensive technical description (300-500 words) covering:\n1. What this project does and its core purpose\n2. Main architecture and tech stack\n3. Key components and how they interact\n4. Important patterns or design decisions\n\nIMPORTANT: Write for TEXT-TO-SPEECH pronunciation. Use natural spoken language:\n- Say 'Node' not 'Node.js' or 'Node dot JS'\n- Say 'TypeScript' not 'TS'\n- Say 'React' not 'React.js'\n- Avoid symbols, abbreviations, file extensions when possible\n- Write how developers actually speak about code\n\nThis context will be used in voice narration, so be specific and technical but naturally speakable.\n\nRepository files:\nFile: Cargo.toml\n[package]\n\n---\n\nFile: README.md\n{}\n\nProvide ONLY the description, no preamble or meta-commentary.",
        "r".repeat(3000)
    );
    assert_eq!(request.prompt, expected);
    assert_eq!(request.temperature_percent, 50);
    assert_eq!(request.max_completion_tokens, 2048);
}

#[test]
fn context_request_needs_key_and_files() {
    let some = vec![Some("x".to_string())];
    assert_eq!(context_request(&VoiceoverConfig::default(), &some).unwrap_err(), ContextError::MissingApiKey);
    assert_eq!(context_request(&config_with_key(), &vec![]).unwrap_err(), ContextError::NoKeyFiles);
    assert_eq!(context_request(&config_with_key(), &vec![None, None]).unwrap_err(), ContextError::NoKeyFiles);
    assert_eq!(context_request(&VoiceoverConfig::default(), &vec![]).unwrap_err(), ContextError::MissingApiKey);
}

#[test]
fn description_is_trimmed_answer() {
    assert_eq!(description_from_reply(&ModelReply::Text("\n A tool. \n".to_string())), Ok("A tool.".to_string()));
    assert_eq!(description_from_reply(&ModelReply::Empty), Err(ContextError::NoContent));
    assert_eq!(description_from_reply(&ModelReply::Failed), Err(ContextError::CallFailed));
}

#[test]
fn generated_description_checks_request_first() {
    let some = vec![Some("x".to_string())];
    let text = ModelReply::Text(" d ".to_string());
    assert_eq!(generate_project_context_with_llm(&config_with_key(), &some, &text), Ok("d".to_string()));
    assert_eq!(
        generate_project_context_with_llm(&VoiceoverConfig::default(), &some, &text),
        Err(ContextError::MissingApiKey)
    );
    assert_eq!(generate_project_context_with_llm(&config_with_key(), &vec![], &text), Err(ContextError::NoKeyFiles));
    assert_eq!(
        generate_project_context_with_llm(&config_with_key(), &some, &ModelReply::Failed),
        Err(ContextError::CallFailed)
    );
}
