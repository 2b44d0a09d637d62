//! Asking the language model for the narration of a chunk, sized to the
//! animation it accompanies, and making the chunk from its answer.

use crate::duration::{
    calculate_animation_duration, rounded_seconds, saturated, spec_animation_micros,
    spec_rounded_seconds, spec_words_for_duration, spoken_micros, words_for_duration,
    MICROS_PER_SPOKEN_WORD,
};
use crate::text::{
    from_chars, join, push_chars, push_decimal, push_str_chars, spec_decimal, spec_join,
    spec_trim, spec_word_count, to_chars, trim, views, word_count,
};
use crate::types::{copy_indices, DiffChunk, DiffChunkView, ProjectContext, ProjectContextView};
use vstd::prelude::*;

verus! {

/// A request to the language model.
#[derive(Debug, Clone)]
pub struct ChatRequest {
    /// The name of the model.
    pub model: String,
    /// What the model is asked, as one message of the user.
    pub prompt: String,
    /// The sampling temperature, in hundredths.
    pub temperature_percent: u32,
    /// The most tokens that the answer may have.
    pub max_completion_tokens: u32,
}

/// A `ChatRequest` as mathematical values.
pub struct ChatRequestView {
    pub model: Seq<char>,
    pub prompt: Seq<char>,
    pub temperature_percent: u32,
    pub max_completion_tokens: u32,
}

impl View for ChatRequest {
    type V = ChatRequestView;

    open spec fn view(&self) -> ChatRequestView {
        ChatRequestView {
            model: self.model@,
            prompt: self.prompt@,
            temperature_percent: self.temperature_percent,
            max_completion_tokens: self.max_completion_tokens,
        }
    }
}

/// How a request to the language model ended.
#[derive(Debug, Clone)]
pub enum ModelReply {
    /// The request failed: it was not sent, not answered, or refused.
    Failed,
    /// The request was refused because too many were made: it may be tried
    /// again after a while.
    RateLimited,
    /// The model answered without text.
    Empty,
    /// The text of the model's first answer.
    Text(String),
}

/// A `ModelReply` as mathematical values.
pub enum ModelReplyView {
    Failed,
    RateLimited,
    Empty,
    Text(Seq<char>),
}

impl View for ModelReply {
    type V = ModelReplyView;

    open spec fn view(&self) -> ModelReplyView {
        match self {
            ModelReply::Failed => ModelReplyView::Failed,
            ModelReply::RateLimited => ModelReplyView::RateLimited,
            ModelReply::Empty => ModelReplyView::Empty,
            ModelReply::Text(text) => ModelReplyView::Text(text@),
        }
    }
}

/// The name of the language model that every request goes to.
pub open spec fn spec_model_name() -> Seq<char> {
    "gpt-5.2"@
}

/// The request for `prompt` with the given temperature and token limit.
pub fn chat_request(prompt: String, temperature_percent: u32, max_completion_tokens: u32) -> (request:
    ChatRequest)
    ensures
        request@ == (ChatRequestView {
            model: spec_model_name(),
            prompt: prompt@,
            temperature_percent,
            max_completion_tokens,
        }),
{
    let mut model: Vec<char> = Vec::new();
    push_str_chars(&mut model, "gpt-5.2");
    ChatRequest { model: from_chars(&model), prompt, temperature_percent, max_completion_tokens }
}

/// The temperature of a narration request, in hundredths.
pub const NARRATION_TEMPERATURE_PERCENT: u32 = 70;

/// The fewest tokens that a narration request allows the answer.
pub const MIN_NARRATION_TOKENS: u32 = 200;

/// The pause before a narration request, in milliseconds.
pub const NARRATION_PAUSE_MILLIS: u64 = 300;

/// What the language model is asked for the narration of `lines`, which is
/// to have `words` words and to accompany `seconds` seconds of typing.
pub open spec fn spec_narration_prompt(
    context: ProjectContextView,
    commit_message: Seq<char>,
    filename: Seq<char>,
    lines: Seq<Seq<char>>,
    words: nat,
    seconds: nat,
) -> Seq<char> {
    "You are narrating live code changes for a developer teaching stream.\n\nPROJECT: "@
        + context.repo_name + " - "@ + context.description + "\nCOMMIT: \""@ + commit_message
        + "\"\nFILE: "@ + filename + "\n\nCODE CHANGES:\n"@ + spec_join(lines, "\n"@)
        + "\n\nWrite a "@ + spec_decimal(words)
        + "-word narration explaining these changes.\nThis narration will be spoken by text-to-speech while the code is being typed on screen.\nThe typing animation for this section lasts "@
        + spec_decimal(seconds)
        + " seconds, so the narration MUST fill that time.\n\nRULES:\n- Explain WHAT changed, WHY it matters for this project, and HOW it works\n- Be semantically rich: describe the purpose and design decisions, not just surface changes\n- OPTIMIZE FOR SPEECH: Say 'Node' not 'Node.js', 'React' not 'React.js', 'TypeScript' not 'TS'\n- No symbols, no file extensions, no code syntax. Write how developers actually talk.\n\nRespond with ONLY the narration text."@
}

/// The most tokens that the narration of `words` words may have: twice the
/// words, but no fewer than 200.
pub open spec fn spec_narration_tokens(words: nat) -> nat {
    if words * 2 < MIN_NARRATION_TOKENS {
        MIN_NARRATION_TOKENS as nat
    } else {
        words * 2
    }
}

/// The request for the narration of the chunk made of `lines`, at a typing
/// speed of `speed_ms` milliseconds per character. The narration is asked to
/// have the words that fill the animation of `lines`.
pub open spec fn spec_narration_request(
    context: ProjectContextView,
    commit_message: Seq<char>,
    filename: Seq<char>,
    lines: Seq<Seq<char>>,
    speed_ms: nat,
) -> ChatRequestView {
    let micros = saturated(spec_animation_micros(lines, speed_ms)) as nat;
    let words = spec_words_for_duration(micros);
    ChatRequestView {
        model: spec_model_name(),
        prompt: spec_narration_prompt(
            context,
            commit_message,
            filename,
            lines,
            words,
            spec_rounded_seconds(micros),
        ),
        temperature_percent: NARRATION_TEMPERATURE_PERCENT,
        max_completion_tokens: spec_narration_tokens(words) as u32,
    }
}

/// The request for the narration of the chunk made of `lines`, at a typing
/// speed of `speed_ms` milliseconds per character.
pub fn narration_request(
    context: &ProjectContext,
    commit_message: &str,
    filename: &str,
    lines: &Vec<String>,
    speed_ms: u64,
) -> (request: ChatRequest)
    ensures
        request@ == spec_narration_request(
            context@,
            commit_message@,
            filename@,
            views(lines@),
            speed_ms as nat,
        ),
{
    let micros: u64 = calculate_animation_duration(lines, speed_ms);
    let words: usize = words_for_duration(micros);
    let seconds: u64 = rounded_seconds(micros);
    let mut out: Vec<char> = Vec::new();
    push_str_chars(
        &mut out,
        "You are narrating live code changes for a developer teaching stream.\n\nPROJECT: ",
    );
    push_str_chars(&mut out, context.repo_name.as_str());
    push_str_chars(&mut out, " - ");
    push_str_chars(&mut out, context.description.as_str());
    push_str_chars(&mut out, "\nCOMMIT: \"");
    push_str_chars(&mut out, commit_message);
    push_str_chars(&mut out, "\"\nFILE: ");
    push_str_chars(&mut out, filename);
    push_str_chars(&mut out, "\n\nCODE CHANGES:\n");
    let joined = join(lines, "\n");
    push_chars(&mut out, &joined);
    push_str_chars(&mut out, "\n\nWrite a ");
    push_decimal(&mut out, words as u128);
    push_str_chars(
        &mut out,
        "-word narration explaining these changes.\nThis narration will be spoken by text-to-speech while the code is being typed on screen.\nThe typing animation for this section lasts ",
    );
    push_decimal(&mut out, seconds as u128);
    push_str_chars(
        &mut out,
        " seconds, so the narration MUST fill that time.\n\nRULES:\n- Explain WHAT changed, WHY it matters for this project, and HOW it works\n- Be semantically rich: describe the purpose and design decisions, not just surface changes\n- OPTIMIZE FOR SPEECH: Say 'Node' not 'Node.js', 'React' not 'React.js', 'TypeScript' not 'TS'\n- No symbols, no file extensions, no code syntax. Write how developers actually talk.\n\nRespond with ONLY the narration text.",
    );
    assert(out@ =~= spec_narration_prompt(
        context@,
        commit_message@,
        filename@,
        views(lines@),
        words as nat,
        seconds as nat,
    ));
    let doubled: u32 = (words * 2) as u32;
    let tokens: u32 = if doubled < MIN_NARRATION_TOKENS {
        MIN_NARRATION_TOKENS
    } else {
        doubled
    };
    chat_request(from_chars(&out), NARRATION_TEMPERATURE_PERCENT, tokens)
}

/// The chunk of number `chunk_id` for the hunks `hunk_indices` of the file
/// `file_path`, narrated by the model's answer `content`. The narration is
/// `content` without the white space around it. The chunk has no audio yet,
/// and its duration is the time that speaking the narration's words takes.
pub open spec fn spec_narrated_chunk(
    chunk_id: usize,
    file_path: Seq<char>,
    hunk_indices: Seq<usize>,
    content: Seq<char>,
) -> DiffChunkView {
    DiffChunkView {
        chunk_id,
        file_path,
        hunk_indices,
        explanation: spec_trim(content),
        audio_data: None,
        has_audio: false,
        audio_duration_micros: saturated(
            (spec_word_count(spec_trim(content)) * MICROS_PER_SPOKEN_WORD) as nat,
        ),
    }
}

/// The chunk of number `chunk_id` for the hunks `hunk_indices` of the file
/// `file_path`, narrated by the model's answer `content`.
pub fn narrated_chunk(chunk_id: usize, file_path: &str, hunk_indices: &Vec<usize>, content: &str) -> (chunk:
    DiffChunk)
    ensures
        chunk@ == spec_narrated_chunk(chunk_id, file_path@, hunk_indices@, content@),
{
    let explanation = trim(&to_chars(content));
    let words: usize = word_count(&explanation);
    DiffChunk {
        chunk_id,
        file_path: from_chars(&to_chars(file_path)),
        hunk_indices: copy_indices(hunk_indices),
        explanation: from_chars(&explanation),
        audio_data: None,
        has_audio: false,
        audio_duration_micros: spoken_micros(words),
    }
}

} // verus!
