//! What the language model is told about the repository: its name, read off
//! the Git configuration, and a description that the model itself writes
//! from the repository's key files.

use crate::narration::{
    chat_request, spec_model_name, ChatRequest, ChatRequestView, ModelReply, ModelReplyView,
};
use crate::text::{
    after_last, find_from, from_chars, join, lines, occurs_at, prefix, push_chars,
    push_str_chars, spec_after_last, spec_contains, spec_join, spec_lines, spec_prefix,
    spec_strip_suffixes, spec_trim, strip_suffixes, sub_chars, to_chars, trim, views,
};
use crate::types::{ProjectContext, ProjectContextView, VoiceoverConfig};
use vstd::prelude::*;

verus! {

/// The temperature of a description request, in hundredths.
pub const CONTEXT_TEMPERATURE_PERCENT: u32 = 50;

/// The most tokens that a description may have.
pub const CONTEXT_TOKENS: u32 = 2048;

/// The name given to a repository whose name cannot be found.
pub open spec fn spec_fallback_name() -> Seq<char> {
    "repository"@
}

/// The first position at which `needle` stands in `text`.
pub open spec fn first_occurrence(text: Seq<char>, needle: Seq<char>) -> int {
    choose|at: int|
        occurs_at(text, needle, at) && forall|j: int| 0 <= j < at ==> !occurs_at(text, needle, j)
}

/// What stands in `text` before the first `sep`: all of it where it holds
/// none.
pub open spec fn before_first(text: Seq<char>, sep: Seq<char>) -> Seq<char> {
    if spec_contains(text, sep) {
        text.subrange(0, first_occurrence(text, sep))
    } else {
        text
    }
}

/// What stands in `text` after the first `sep`.
pub open spec fn after_first(text: Seq<char>, sep: Seq<char>) -> Seq<char> {
    text.subrange(first_occurrence(text, sep) + sep.len(), text.len() as int)
}

/// The key under which a Git configuration gives the address of a remote.
pub open spec fn spec_url_key() -> Seq<char> {
    "url = "@
}

/// The name of the repository at the address that `line` gives. The address
/// stands between the first `url = ` and the next; it is trimmed, every
/// `.git` at its end is taken off, and the name is what follows its last
/// slash.
pub open spec fn spec_name_in_line(line: Seq<char>) -> Seq<char> {
    let address = spec_trim(before_first(after_first(line, spec_url_key()), spec_url_key()));
    spec_after_last(spec_strip_suffixes(address, ".git"@), '/')
}

/// The name of the repository, read off the lines of its Git configuration:
/// the name in the first line that holds `url = `. `None` where no line does.
pub open spec fn spec_repo_name(lines: Seq<Seq<char>>) -> Option<Seq<char>>
    decreases lines.len(),
{
    if lines.len() == 0 {
        None
    } else if spec_contains(lines[0], spec_url_key()) {
        Some(spec_name_in_line(lines[0]))
    } else {
        spec_repo_name(lines.drop_first())
    }
}

/// The position that `find_from` gives from the start is the first one.
proof fn lemma_first_occurrence(text: Seq<char>, needle: Seq<char>, at: int)
    requires
        occurs_at(text, needle, at),
        forall|j: int| 0 <= j < at ==> !occurs_at(text, needle, j),
    ensures
        first_occurrence(text, needle) == at,
        spec_contains(text, needle),
{
    let first = first_occurrence(text, needle);
    assert(occurs_at(text, needle, first) && forall|j: int|
        0 <= j < first ==> !occurs_at(text, needle, j));
}

/// The name of the repository at the address that `line` gives: `None`
/// where `line` does not hold `url = `.
fn name_in_line(line: &Vec<char>) -> (name: Option<Vec<char>>)
    ensures
        match name {
            Some(found) => spec_contains(line@, spec_url_key()) && found@ == spec_name_in_line(
                line@,
            ),
            None => !spec_contains(line@, spec_url_key()),
        },
{
    let key = to_chars("url = ");
    match find_from(line, &key, 0) {
        None => {
            assert(!spec_contains(line@, key@)) by {
                if spec_contains(line@, key@) {
                    let at = choose|at: int| occurs_at(line@, key@, at);
                    assert(0 <= at);
                }
            }
            None
        },
        Some(at) => {
            proof {
                lemma_first_occurrence(line@, key@, at as int);
            }
            assert(at + key.len() <= line.len());
            let rest = sub_chars(line, at + key.len(), line.len());
            let address = match find_from(&rest, &key, 0) {
                None => {
                    assert(!spec_contains(rest@, key@)) by {
                        if spec_contains(rest@, key@) {
                            let next = choose|next: int| occurs_at(rest@, key@, next);
                            assert(0 <= next);
                        }
                    }
                    sub_chars(&rest, 0, rest.len())
                },
                Some(next) => {
                    proof {
                        lemma_first_occurrence(rest@, key@, next as int);
                    }
                    sub_chars(&rest, 0, next)
                },
            };
            assert(address@ == before_first(after_first(line@, key@), key@)) by {
                assert(rest@.subrange(0, rest.len() as int) == rest@);
            }
            let trimmed = trim(&address);
            let suffix = to_chars(".git");
            let bare = strip_suffixes(&trimmed, &suffix);
            Some(after_last(&bare, '/'))
        },
    }
}

/// The name of the repository, read off its Git configuration: the name at
/// the first address of a remote. `None` where it gives no such address.
pub fn extract_repo_name(git_config: &str) -> (name: Option<String>)
    ensures
        match name {
            Some(found) => spec_repo_name(spec_lines(git_config@)) == Some(found@),
            None => spec_repo_name(spec_lines(git_config@)) is None,
        },
{
    let all = lines(git_config);
    let ghost target = views(all@);
    let mut i: usize = 0;
    assert(target.skip(0) == target);
    while i < all.len()
        invariant
            i <= all.len(),
            target == views(all@),
            target == spec_lines(git_config@),
            spec_repo_name(target) == spec_repo_name(target.skip(i as int)),
        decreases all.len() - i,
    {
        let line = to_chars(all[i].as_str());
        proof {
            assert(target.skip(i as int).len() > 0);
            assert(target.skip(i as int)[0] == line@);
            assert(target.skip(i as int).drop_first() == target.skip(i + 1));
        }
        match name_in_line(&line) {
            Some(found) => {
                assert(spec_repo_name(target.skip(i as int)) == Some(found@));
                return Some(from_chars(&found));
            },
            None => {
                assert(spec_repo_name(target.skip(i as int)) == spec_repo_name(
                    target.skip(i + 1),
                ));
            },
        }
        i += 1;
    }
    assert(target.skip(all.len() as int).len() == 0);
    None
}

/// What is known of the project before the language model has described
/// it. The name is that in the Git configuration; where that gives none, the
/// name of the working directory; where that is not known either,
/// `repository`. The description is empty.
pub open spec fn spec_project_context(
    git_config: Option<Seq<char>>,
    directory: Option<Seq<char>>,
) -> ProjectContextView {
    let configured = match git_config {
        Some(text) => spec_repo_name(spec_lines(text)),
        None => None,
    };
    ProjectContextView {
        repo_name: match configured {
            Some(name) => name,
            None => match directory {
                Some(name) => name,
                None => spec_fallback_name(),
            },
        },
        description: Seq::empty(),
    }
}

/// The text of `text`, where there is one.
pub open spec fn text_view(text: Option<&str>) -> Option<Seq<char>> {
    match text {
        Some(held) => Some(held@),
        None => None,
    }
}

/// What is known of the project before the language model has described
/// it, given the text of the Git configuration and the name of the working
/// directory, as far as each could be read.
pub fn extract_project_context(git_config: Option<&str>, directory: Option<&str>) -> (context:
    ProjectContext)
    ensures
        context@ == spec_project_context(text_view(git_config), text_view(directory)),
{
    let configured: Option<String> = match git_config {
        Some(text) => extract_repo_name(text),
        None => None,
    };
    let repo_name: String = match configured {
        Some(name) => name,
        None => match directory {
            Some(name) => from_chars(&to_chars(name)),
            None => from_chars(&to_chars("repository")),
        },
    };
    ProjectContext { repo_name, description: String::new() }
}

/// A file that tells what a repository is about, and how much of it is
/// quoted, in characters.
#[derive(Debug, Clone)]
pub struct KeyFile {
    pub path: String,
    pub max_chars: usize,
}

/// A `KeyFile` as mathematical values.
pub struct KeyFileView {
    pub path: Seq<char>,
    pub max_chars: nat,
}

impl View for KeyFile {
    type V = KeyFileView;

    open spec fn view(&self) -> KeyFileView {
        KeyFileView { path: self.path@, max_chars: self.max_chars as nat }
    }
}

/// What each of `files` is, as mathematical values.
pub open spec fn key_file_views(files: Seq<KeyFile>) -> Seq<KeyFileView> {
    Seq::new(files.len(), |i: int| files[i]@)
}

/// The files that a description of the repository is written from, in the
/// order in which they are quoted.
pub open spec fn spec_key_files() -> Seq<KeyFileView> {
    seq![
        KeyFileView { path: "Cargo.toml"@, max_chars: 5000 },
        KeyFileView { path: "package.json"@, max_chars: 5000 },
        KeyFileView { path: "src/main.rs"@, max_chars: 8000 },
        KeyFileView { path: "src/lib.rs"@, max_chars: 8000 },
        KeyFileView { path: "src/index.ts"@, max_chars: 8000 },
        KeyFileView { path: "main.py"@, max_chars: 8000 },
        KeyFileView { path: "README.md"@, max_chars: 3000 },
    ]
}

fn key_file(path: &str, max_chars: usize) -> (file: KeyFile)
    ensures
        file@ == (KeyFileView { path: path@, max_chars: max_chars as nat }),
{
    KeyFile { path: from_chars(&to_chars(path)), max_chars }
}

/// The files that a description of the repository is written from, in the
/// order in which they are quoted.
pub fn key_files() -> (files: Vec<KeyFile>)
    ensures
        key_file_views(files@) == spec_key_files(),
{
    let mut files: Vec<KeyFile> = Vec::new();
    files.push(key_file("Cargo.toml", 5000));
    files.push(key_file("package.json", 5000));
    files.push(key_file("src/main.rs", 8000));
    files.push(key_file("src/lib.rs", 8000));
    files.push(key_file("src/index.ts", 8000));
    files.push(key_file("main.py", 8000));
    files.push(key_file("README.md", 3000));
    assert(key_file_views(files@) =~= spec_key_files());
    files
}

/// Why the repository could not be described.
#[derive(Debug, Clone, Copy, PartialEq, Eq, Structural)]
pub enum ContextError {
    /// There is no key for the language model.
    MissingApiKey,
    /// None of the key files could be read.
    NoKeyFiles,
    /// The request to the language model failed.
    CallFailed,
    /// The language model answered without text.
    NoContent,
}

/// What is quoted of a key file with the text `content`.
pub open spec fn spec_excerpt(file: KeyFileView, content: Seq<char>) -> Seq<char> {
    "File: "@ + file.path + "\n"@ + spec_prefix(content, file.max_chars)
}

/// The text of each of `texts`, where there is one.
pub open spec fn content_views(texts: Seq<Option<String>>) -> Seq<Option<Seq<char>>> {
    Seq::new(
        texts.len(),
        |i: int|
            match texts[i] {
                Some(text) => Some(text@),
                None => None,
            },
    )
}

/// What is quoted of the first `count` of `files`, given the text of each as
/// far as it could be read: `contents` holds the texts in the order of the
/// files. A file without a text is passed over.
pub open spec fn spec_excerpts(
    files: Seq<KeyFileView>,
    contents: Seq<Option<Seq<char>>>,
    count: nat,
) -> Seq<Seq<char>>
    decreases count,
{
    if count == 0 {
        Seq::empty()
    } else {
        let before = spec_excerpts(files, contents, (count - 1) as nat);
        let i = count - 1;
        if i < files.len() && i < contents.len() && contents[i] is Some {
            before.push(spec_excerpt(files[i], contents[i]->0))
        } else {
            before
        }
    }
}

/// What the language model is asked for a description of the repository,
/// given what is quoted of its key files.
pub open spec fn spec_context_prompt(excerpts: Seq<Seq<char>>) -> Seq<char> {
    "You are analyzing a code repository using the DeepWiki principle. Based on the key files below, provide a comprehensive technical description (300-500 words) covering:\n1. What this project does and its core purpose\n2. Main architecture and tech stack\n3. Key components and how they interact\n4. Important patterns or design decisions\n\nIMPORTANT: Write for TEXT-TO-SPEECH pronunciation. Use natural spoken language:\n- Say 'Node' not 'Node.js' or 'Node dot JS'\n- Say 'TypeScript' not 'TS'\n- Say 'React' not 'React.js'\n- Avoid symbols, abbreviations, file extensions when possible\n- Write how developers actually speak about code\n\nThis context will be used in voice narration, so be specific and technical but naturally speakable.\n\nRepository files:\n"@
        + spec_join(excerpts, "\n\n---\n\n"@)
        + "\n\nProvide ONLY the description, no preamble or meta-commentary."@
}

/// The request for a description of the repository, given the texts of the
/// key files as far as they could be read. There is none without a key for
/// the language model, and none where no key file could be read.
pub open spec fn spec_context_request(has_key: bool, contents: Seq<Option<Seq<char>>>) -> Result<
    ChatRequestView,
    ContextError,
> {
    let excerpts = spec_excerpts(spec_key_files(), contents, spec_key_files().len());
    if !has_key {
        Err(ContextError::MissingApiKey)
    } else if excerpts.len() == 0 {
        Err(ContextError::NoKeyFiles)
    } else {
        Ok(
            ChatRequestView {
                model: spec_model_name(),
                prompt: spec_context_prompt(excerpts),
                temperature_percent: CONTEXT_TEMPERATURE_PERCENT,
                max_completion_tokens: CONTEXT_TOKENS,
            },
        )
    }
}

/// The request for a description of the repository. `contents` holds the
/// text of each key file, in the order of `key_files`, or `None` for one
/// that could not be read.
pub fn context_request(config: &VoiceoverConfig, contents: &Vec<Option<String>>) -> (request: Result<
    ChatRequest,
    ContextError,
>)
    ensures
        match request {
            Ok(made) => spec_context_request(
                config.openai_api_key is Some,
                content_views(contents@),
            ) == Ok::<ChatRequestView, ContextError>(made@),
            Err(error) => spec_context_request(
                config.openai_api_key is Some,
                content_views(contents@),
            ) == Err::<ChatRequestView, ContextError>(error),
        },
{
    if config.openai_api_key.is_none() {
        return Err(ContextError::MissingApiKey);
    }
    let files = key_files();
    let ghost given = content_views(contents@);
    let mut excerpts: Vec<String> = Vec::new();
    let mut i: usize = 0;
    while i < files.len()
        invariant
            i <= files.len(),
            key_file_views(files@) == spec_key_files(),
            given == content_views(contents@),
            views(excerpts@) == spec_excerpts(spec_key_files(), given, i as nat),
        decreases files.len() - i,
    {
        if i < contents.len() {
            match &contents[i] {
                Some(content) => {
                    let mut out: Vec<char> = Vec::new();
                    push_str_chars(&mut out, "File: ");
                    push_str_chars(&mut out, files[i].path.as_str());
                    push_str_chars(&mut out, "\n");
                    let quoted = prefix(&to_chars(content.as_str()), files[i].max_chars);
                    push_chars(&mut out, &quoted);
                    let excerpt = from_chars(&out);
                    proof {
                        assert(spec_key_files()[i as int] == files@[i as int]@);
                        assert(given[i as int] == Some(content@));
                        assert(out@ =~= spec_excerpt(spec_key_files()[i as int], content@));
                        assert(views(excerpts@.push(excerpt)) == views(excerpts@).push(excerpt@));
                    }
                    excerpts.push(excerpt);
                },
                None => {
                    assert(given[i as int] is None);
                },
            }
        }
        i += 1;
    }
    assert(files.len() == spec_key_files().len()) by {
        assert(key_file_views(files@).len() == files.len());
    }
    if excerpts.len() == 0 {
        assert(views(excerpts@).len() == 0);
        return Err(ContextError::NoKeyFiles);
    }
    assert(views(excerpts@).len() == excerpts.len());
    let mut out: Vec<char> = Vec::new();
    push_str_chars(
        &mut out,
        "You are analyzing a code repository using the DeepWiki principle. Based on the key files below, provide a comprehensive technical description (300-500 words) covering:\n1. What this project does and its core purpose\n2. Main architecture and tech stack\n3. Key components and how they interact\n4. Important patterns or design decisions\n\nIMPORTANT: Write for TEXT-TO-SPEECH pronunciation. Use natural spoken language:\n- Say 'Node' not 'Node.js' or 'Node dot JS'\n- Say 'TypeScript' not 'TS'\n- Say 'React' not 'React.js'\n- Avoid symbols, abbreviations, file extensions when possible\n- Write how developers actually speak about code\n\nThis context will be used in voice narration, so be specific and technical but naturally speakable.\n\nRepository files:\n",
    );
    let listed = join(&excerpts, "\n\n---\n\n");
    push_chars(&mut out, &listed);
    push_str_chars(&mut out, "\n\nProvide ONLY the description, no preamble or meta-commentary.");
    assert(out@ =~= spec_context_prompt(views(excerpts@)));
    Ok(chat_request(from_chars(&out), CONTEXT_TEMPERATURE_PERCENT, CONTEXT_TOKENS))
}

/// The description of the repository, given how the request for it ended:
/// the model's text without the white space around it.
pub open spec fn spec_description(reply: ModelReplyView) -> Result<Seq<char>, ContextError> {
    match reply {
        ModelReplyView::Failed => Err(ContextError::CallFailed),
        ModelReplyView::RateLimited => Err(ContextError::CallFailed),
        ModelReplyView::Empty => Err(ContextError::NoContent),
        ModelReplyView::Text(content) => Ok(spec_trim(content)),
    }
}

/// The description of the repository that the language model gives, given
/// the texts of the key files and how the request made of them ended.
pub open spec fn spec_generated_description(
    has_key: bool,
    contents: Seq<Option<Seq<char>>>,
    reply: ModelReplyView,
) -> Result<Seq<char>, ContextError> {
    match spec_context_request(has_key, contents) {
        Err(error) => Err(error),
        Ok(_) => spec_description(reply),
    }
}

/// The description of the repository, given how the request for it ended.
pub fn description_from_reply(reply: &ModelReply) -> (description: Result<String, ContextError>)
    ensures
        match description {
            Ok(text) => spec_description(reply@) == Ok::<Seq<char>, ContextError>(text@),
            Err(error) => spec_description(reply@) == Err::<Seq<char>, ContextError>(error),
        },
{
    match reply {
        ModelReply::Failed => Err(ContextError::CallFailed),
        ModelReply::RateLimited => Err(ContextError::CallFailed),
        ModelReply::Empty => Err(ContextError::NoContent),
        ModelReply::Text(content) => Ok(from_chars(&trim(&to_chars(content.as_str())))),
    }
}

/// The description of the repository that the language model gives.
/// `contents` holds the texts of the key files as `context_request` takes
/// them, and `reply` tells how the request made of them ended; it is not
/// looked at where no request could be made.
pub fn generate_project_context_with_llm(
    config: &VoiceoverConfig,
    contents: &Vec<Option<String>>,
    reply: &ModelReply,
) -> (description: Result<String, ContextError>)
    ensures
        match description {
            Ok(text) => spec_generated_description(
                config.openai_api_key is Some,
                content_views(contents@),
                reply@,
            ) == Ok::<Seq<char>, ContextError>(text@),
            Err(error) => spec_generated_description(
                config.openai_api_key is Some,
                content_views(contents@),
                reply@,
            ) == Err::<Seq<char>, ContextError>(error),
        },
{
    match context_request(config, contents) {
        Err(error) => Err(error),
        Ok(_) => description_from_reply(reply),
    }
}

} // verus!
