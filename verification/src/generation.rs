//! The generation of a commit's narration, as a state machine. The machine
//! decides what is asked next of the language model and of the speech
//! service, and takes what came back; the caller does the asking and the
//! waiting. It goes from idle through the project's description, the order
//! of the files, the groups of each file's hunks and the narration and
//! audio of each group to completion.

use crate::context::{
    content_views, context_request, description_from_reply, extract_project_context,
    spec_context_request, spec_description, spec_project_context,
};
use crate::grouping::{
    group_views, grouping_request, llm_group_hunks, single_group, spec_grouping_request,
    spec_llm_group_hunks, spec_single_group,
};
use crate::hunks::{
    chunk_lines, hunk_views, parse_hunks, spec_chunk_lines, spec_hunks, spec_summaries,
};
use crate::narration::{
    narrated_chunk, narration_request, spec_narrated_chunk, spec_narration_request, ChatRequest,
    ChatRequestView, ModelReply, ModelReplyView, NARRATION_PAUSE_MILLIS,
};
use crate::ordering::{
    order_files_by_development_flow, ordering_request, spec_ordered, spec_ordering_request,
};
use crate::text::{
    after_last, contains, ends_with, from_chars, push_chars, push_decimal, push_str_chars,
    spec_after_last, spec_contains, spec_decimal, spec_lines, to_chars,
};
use crate::tts::{
    spec_speech_request, spec_synthesized, speech_request, synthesize_speech_from_text,
    HttpReply, HttpReplyView, SpeechRequest, SpeechRequestView,
};
use crate::types::{
    chunk_views, copy_bytes, file_views, DiffChunk, DiffChunkView, FileChange, FileChangeView,
    ProjectContext, ProjectContextView, VoiceoverConfig,
};
use vstd::prelude::*;

verus! {

/// The pause before the first request for a file that is not the first, in
/// milliseconds.
pub const FILE_PAUSE_MILLIS: u64 = 1000;

/// The pause before a request to the speech service, in milliseconds.
pub const SPEECH_PAUSE_MILLIS: u64 = 300;

/// The pause before a request is made again after it was refused because
/// too many were made, in milliseconds; it doubles with every refusal.
pub const RETRY_BASE_MILLIS: u64 = 1000;

/// How often a request for the project's description or for a narration is
/// made at most.
pub const MAX_ATTEMPTS: u32 = 3;

/// The pause before a request is made again that was refused `refusals`
/// times before this refusal: it starts at a second and doubles each time.
pub open spec fn spec_backoff(refusals: nat) -> nat
    decreases refusals,
{
    if refusals == 0 {
        RETRY_BASE_MILLIS as nat
    } else {
        2 * spec_backoff((refusals - 1) as nat)
    }
}

/// Where the generation stands.
#[derive(Debug, Clone, Copy, PartialEq, Eq, Structural)]
pub enum Phase {
    /// Nothing was asked yet.
    Idle,
    /// The description of the project is awaited.
    ContextBuilding,
    /// The order of the files is awaited.
    FileOrdering,
    /// The groups of the current file's hunks are awaited.
    Grouping,
    /// The narration of the current group is awaited.
    Narrating,
    /// The audio of the current narration is awaited.
    Synthesizing,
    /// The measure of the current audio is awaited.
    Measuring,
    /// Nothing more is asked.
    Complete,
}

/// What the caller is to do next.
#[derive(Debug, Clone)]
pub enum Action {
    /// Wait `pause_millis`, send `request` to the language model, and hand
    /// the outcome to `on_model_reply`.
    AskModel { pause_millis: u64, request: ChatRequest },
    /// Wait `pause_millis`, send `speech` to the speech service, and hand
    /// the outcome to `on_speech_reply`.
    Speak { pause_millis: u64, speech: SpeechRequest },
    /// Decode `audio`, and hand how long it plays to `on_measured`.
    Measure { audio: Vec<u8> },
    /// The generation is complete: take the chunks.
    Finish,
    /// What was handed in answers nothing that was asked: nothing changed.
    Ignored,
}

/// An `Action` as mathematical values.
pub enum ActionView {
    AskModel { pause_millis: u64, request: ChatRequestView },
    Speak { pause_millis: u64, speech: SpeechRequestView },
    Measure { audio: Seq<u8> },
    Finish,
    Ignored,
}

impl View for Action {
    type V = ActionView;

    open spec fn view(&self) -> ActionView {
        match self {
            Action::AskModel { pause_millis, request } => ActionView::AskModel {
                pause_millis: *pause_millis,
                request: request@,
            },
            Action::Speak { pause_millis, speech } => ActionView::Speak {
                pause_millis: *pause_millis,
                speech: speech@,
            },
            Action::Measure { audio } => ActionView::Measure { audio: audio@ },
            Action::Finish => ActionView::Finish,
            Action::Ignored => ActionView::Ignored,
        }
    }
}

/// What was read of the repository before the generation starts.
#[derive(Debug, Clone)]
pub struct RepoSnapshot {
    /// The text of `.git/config`, where it could be read.
    pub git_config: Option<String>,
    /// The name of the working directory, where it is known.
    pub directory: Option<String>,
    /// The text of each key file, in the order of `key_files`, or `None`
    /// for one that could not be read.
    pub key_files: Vec<Option<String>>,
}

/// A `RepoSnapshot` as mathematical values.
pub struct RepoSnapshotView {
    pub git_config: Option<Seq<char>>,
    pub directory: Option<Seq<char>>,
    pub key_files: Seq<Option<Seq<char>>>,
}

/// The text of `text`, where there is one.
pub open spec fn owned_view(text: Option<String>) -> Option<Seq<char>> {
    match text {
        Some(held) => Some(held@),
        None => None,
    }
}

impl View for RepoSnapshot {
    type V = RepoSnapshotView;

    open spec fn view(&self) -> RepoSnapshotView {
        RepoSnapshotView {
            git_config: owned_view(self.git_config),
            directory: owned_view(self.directory),
            key_files: content_views(self.key_files@),
        }
    }
}

/// How far the generation has come: a message, and a share of the whole in
/// thousandths.
pub struct ProgressView {
    pub message: Seq<char>,
    pub permille: u32,
}

/// The state of a generation as mathematical values.
pub struct GenerationView {
    pub phase: Phase,
    pub config: VoiceoverConfig,
    pub repo: RepoSnapshotView,
    /// The message of the commit.
    pub message: Seq<char>,
    /// The typing speed, in milliseconds per character.
    pub speed_ms: u64,
    pub context: ProjectContextView,
    /// The files that are narrated, in the order in which they are.
    pub files: Seq<FileChangeView>,
    /// The number of the current file.
    pub file_index: nat,
    /// The path of the current file.
    pub path: Seq<char>,
    /// The hunks of the current file.
    pub hunks: Seq<Seq<Seq<char>>>,
    /// The groups of the current file's hunks.
    pub groups: Seq<Seq<usize>>,
    /// The number of the current group.
    pub group_index: nat,
    /// The chunk that is being spoken.
    pub current: Option<DiffChunkView>,
    /// The chunks that are done.
    pub chunks: Seq<DiffChunkView>,
    /// A pause that the next request is to be preceded by, besides its own.
    pub carry_pause: u64,
    /// How often the request that is awaited was refused because too many
    /// were made.
    pub refusals: u32,
    pub progress: ProgressView,
    /// Whether the generation came as far as to empty the chunk store.
    pub clears_store: bool,
}

/// Whether the file of this path is passed over: lock files, JSON files,
/// project files of an IDE and what a build leaves behind are not narrated.
pub open spec fn spec_is_skipped(path: Seq<char>) -> bool {
    ||| spec_contains(path, "package-lock.json"@)
    ||| spec_contains(path, "yarn.lock"@)
    ||| spec_contains(path, "pnpm-lock.yaml"@)
    ||| ".lock"@.is_suffix_of(path)
    ||| ".json"@.is_suffix_of(path)
    ||| ".xcodeproj"@.is_suffix_of(path)
    ||| ".pbxproj"@.is_suffix_of(path)
    ||| ".xcworkspace"@.is_suffix_of(path)
    ||| spec_contains(path, ".vscode/"@)
    ||| spec_contains(path, ".idea/"@)
    ||| spec_contains(path, "/dist/"@)
    ||| spec_contains(path, "/build/"@)
    ||| spec_contains(path, "/target/"@)
}

/// The files among `files` that are narrated, in order.
pub open spec fn spec_narrated_files(files: Seq<FileChangeView>) -> Seq<FileChangeView> {
    files.filter(|file: FileChangeView| !spec_is_skipped(file.path))
}

/// The message while the file of number `index` of `total` is worked on.
pub open spec fn spec_file_message(index: nat, total: nat, path: Seq<char>) -> Seq<char> {
    "Processing file "@ + spec_decimal(index + 1) + "/"@ + spec_decimal(total) + ": "@
        + spec_after_last(path, '/')
}

/// The message while the chunk of number `chunk_id` is spoken.
pub open spec fn spec_speech_message(
    index: nat,
    total: nat,
    path: Seq<char>,
    chunk_id: nat,
) -> Seq<char> {
    "Synthesizing audio "@ + spec_decimal(index + 1) + "/"@ + spec_decimal(total) + ": "@
        + spec_after_last(path, '/') + " (chunk "@ + spec_decimal(chunk_id + 1) + ")"@
}

/// The share of the whole that is done when the file of number `index` of
/// `total` is begun, in thousandths: the files take the share from 150 to
/// 950.
pub open spec fn spec_file_permille(index: nat, total: nat) -> u32 {
    if total == 0 || index >= total {
        150
    } else {
        (150 + (800 * index) / total) as u32
    }
}

/// The generation is complete, with the chunks that are done.
pub open spec fn spec_finish(s: GenerationView) -> (GenerationView, ActionView) {
    (
        GenerationView {
            phase: Phase::Complete,
            current: None,
            progress: ProgressView { message: "Complete!"@, permille: 1000 },
            ..s
        },
        ActionView::Finish,
    )
}

/// The generation is given up, without chunks.
pub open spec fn spec_abort(s: GenerationView) -> (GenerationView, ActionView) {
    (
        GenerationView { phase: Phase::Complete, current: None, chunks: Seq::empty(), ..s },
        ActionView::Finish,
    )
}

/// The narration of the group of number `group` of the current file is
/// asked for.
pub open spec fn spec_narrate(s: GenerationView, group: nat) -> (GenerationView, ActionView) {
    (
        GenerationView {
            phase: Phase::Narrating,
            group_index: group,
            current: None,
            carry_pause: 0,
            refusals: 0,
            ..s
        },
        ActionView::AskModel {
            pause_millis: spec_pause(s.carry_pause, NARRATION_PAUSE_MILLIS),
            request: spec_narration_request(
                s.context,
                s.message,
                s.path,
                spec_chunk_lines(s.hunks, s.groups[group as int]),
                s.speed_ms as nat,
            ),
        },
    )
}

/// Two pauses, one after the other, as a `u64` holds them.
pub open spec fn spec_pause(carried: u64, own: u64) -> u64 {
    if carried + own > u64::MAX {
        u64::MAX
    } else {
        (carried + own) as u64
    }
}

/// The file of number `index` is begun: the generation is complete where
/// there is no such file. A file with at most one hunk is one group, and
/// its narration is asked for at once; for a file with more hunks the groups
/// are asked for. Before the first request for a file that is not the first
/// there is a pause.
pub open spec fn spec_enter_file(s: GenerationView, index: nat) -> (GenerationView, ActionView) {
    if index >= s.files.len() {
        spec_finish(GenerationView { file_index: s.files.len(), ..s })
    } else {
        let file = s.files[index as int];
        let hunks = spec_hunks(spec_lines(file.diff));
        let carry_pause = if index > 0 {
            FILE_PAUSE_MILLIS
        } else {
            0
        };
        let t = GenerationView {
            file_index: index,
            path: file.path,
            hunks,
            group_index: 0,
            current: None,
            carry_pause,
            progress: ProgressView {
                message: spec_file_message(index, s.files.len(), file.path),
                permille: spec_file_permille(index, s.files.len()),
            },
            ..s
        };
        match spec_single_group(hunks.len()) {
            Some(groups) => spec_narrate(GenerationView { groups, ..t }, 0),
            None => (
                GenerationView {
                    phase: Phase::Grouping,
                    groups: Seq::empty(),
                    carry_pause: 0,
                    ..t
                },
                ActionView::AskModel {
                    pause_millis: carry_pause,
                    request: spec_grouping_request(
                        s.context,
                        s.message,
                        file.path,
                        spec_summaries(hunks),
                    ),
                },
            ),
        }
    }
}

/// The group after the current one is narrated: where there is none, the
/// next file is begun.
pub open spec fn spec_next_chunk(s: GenerationView) -> (GenerationView, ActionView) {
    if s.group_index + 1 < s.groups.len() {
        spec_narrate(s, s.group_index + 1)
    } else {
        spec_enter_file(s, s.file_index + 1)
    }
}

/// The first group of the current file is narrated: where the file has no
/// group, the next file is begun.
pub open spec fn spec_first_chunk(s: GenerationView) -> (GenerationView, ActionView) {
    if s.groups.len() > 0 {
        spec_narrate(s, 0)
    } else {
        spec_enter_file(s, s.file_index + 1)
    }
}

/// `chunk` is done: it gets the next free number and joins the chunks that
/// are done.
pub open spec fn spec_store(s: GenerationView, chunk: DiffChunkView) -> GenerationView {
    GenerationView {
        chunks: s.chunks.push(DiffChunkView { chunk_id: s.chunks.len() as usize, ..chunk }),
        current: None,
        ..s
    }
}

/// The order of the files is asked for: where it need not be, the first
/// file is begun.
pub open spec fn spec_begin_ordering(s: GenerationView) -> (GenerationView, ActionView) {
    let t = GenerationView {
        progress: ProgressView {
            message: "Ordering "@ + spec_decimal(s.files.len()) + " files by development flow..."@,
            permille: 100,
        },
        ..s
    };
    match spec_ordering_request(s.config.openai_api_key is Some, s.context, s.message, s.files) {
        Some(request) => (
            GenerationView { phase: Phase::FileOrdering, ..t },
            ActionView::AskModel { pause_millis: 0, request },
        ),
        None => spec_enter_file(t, 0),
    }
}

/// The audio of `chunk` is asked for. Where no request can be made, the
/// chunk is done without audio.
pub open spec fn spec_begin_speech(s: GenerationView, chunk: DiffChunkView) -> (
    GenerationView,
    ActionView,
) {
    let t = GenerationView {
        progress: ProgressView {
            message: spec_speech_message(
                s.file_index,
                s.files.len(),
                s.path,
                s.chunks.len(),
            ),
            permille: s.progress.permille,
        },
        ..s
    };
    match spec_speech_request(s.config, chunk.explanation) {
        Ok(request) => (
            GenerationView { phase: Phase::Synthesizing, current: Some(chunk), ..t },
            ActionView::Speak { pause_millis: SPEECH_PAUSE_MILLIS, speech: request },
        ),
        Err(_) => spec_next_chunk(spec_store(t, chunk)),
    }
}

/// The generation starts. Without narration enabled and a key for the
/// speech service it is complete at once, and the chunk store is left as it
/// is. Else the store is emptied; and unless the language model is to write
/// the narration, has a key, and a key file of the repository could be read,
/// the generation is complete without chunks. Else the description of the
/// project is asked for.
pub open spec fn spec_start(s: GenerationView) -> (GenerationView, ActionView) {
    if s.phase != Phase::Idle {
        (s, ActionView::Ignored)
    } else if !s.config.enabled || s.config.api_key is None {
        spec_abort(s)
    } else {
        let t = GenerationView {
            clears_store: true,
            refusals: 0,
            context: spec_project_context(s.repo.git_config, s.repo.directory),
            progress: ProgressView {
                message: "Generating project context with GPT..."@,
                permille: 50,
            },
            ..s
        };
        if !s.config.use_llm_explanations {
            spec_abort(t)
        } else {
            match spec_context_request(s.config.openai_api_key is Some, s.repo.key_files) {
                Ok(request) => (
                    GenerationView { phase: Phase::ContextBuilding, ..t },
                    ActionView::AskModel { pause_millis: 0, request },
                ),
                Err(_) => spec_abort(t),
            }
        }
    }
}

/// Whether the request that is awaited is made again: it asks for the
/// project's description or for a narration, was refused because too many
/// requests were made, and was not made as often as a request is made at
/// most.
pub open spec fn spec_retries(s: GenerationView, reply: ModelReplyView) -> bool {
    &&& reply is RateLimited
    &&& s.refusals + 1 < MAX_ATTEMPTS
    &&& match s.phase {
        Phase::ContextBuilding => spec_context_request(
            s.config.openai_api_key is Some,
            s.repo.key_files,
        ) is Ok,
        Phase::Narrating => s.group_index < s.groups.len(),
        _ => false,
    }
}

/// The request that is awaited is made again, after a pause that doubles
/// with every refusal.
pub open spec fn spec_retry(s: GenerationView) -> (GenerationView, ActionView) {
    (
        GenerationView { refusals: (s.refusals + 1) as u32, ..s },
        ActionView::AskModel {
            pause_millis: spec_backoff(s.refusals as nat) as u64,
            request: if s.phase == Phase::ContextBuilding {
                spec_context_request(s.config.openai_api_key is Some, s.repo.key_files)->Ok_0
            } else {
                spec_narrate(s, s.group_index).1->AskModel_request
            },
        },
    )
}

/// What the language model answered is taken. A request for the project's
/// description or for a narration that was refused because too many were
/// made is made again, up to three times in all; a refusal after that is a
/// failure like any other. The description of the project is needed: without
/// it the generation is complete without chunks. The order of the files is
/// taken as far as it can be. Without groups the file is passed over;
/// without narration, the group.
pub open spec fn spec_on_model_reply(s: GenerationView, reply: ModelReplyView) -> (
    GenerationView,
    ActionView,
) {
    if spec_retries(s, reply) {
        spec_retry(s)
    } else {
        spec_answered(s, reply)
    }
}

/// What the language model answered is taken for good.
pub open spec fn spec_answered(s: GenerationView, reply: ModelReplyView) -> (
    GenerationView,
    ActionView,
) {
    match s.phase {
        Phase::ContextBuilding => match spec_description(reply) {
            Ok(description) => spec_begin_ordering(
                GenerationView {
                    context: ProjectContextView { description, ..s.context },
                    ..s
                },
            ),
            Err(_) => spec_abort(s),
        },
        Phase::FileOrdering => spec_enter_file(
            GenerationView { files: spec_ordered(s.files, reply), ..s },
            0,
        ),
        Phase::Grouping => match reply {
            ModelReplyView::Text(content) => spec_first_chunk(
                GenerationView {
                    groups: spec_llm_group_hunks(content, s.hunks.len()),
                    ..s
                },
            ),
            _ => spec_enter_file(s, s.file_index + 1),
        },
        Phase::Narrating => match reply {
            ModelReplyView::Text(content) => if s.group_index < s.groups.len() {
                spec_begin_speech(
                    s,
                    spec_narrated_chunk(
                        s.chunks.len() as usize,
                        s.path,
                        s.groups[s.group_index as int],
                        content,
                    ),
                )
            } else {
                spec_next_chunk(s)
            },
            _ => spec_next_chunk(s),
        },
        _ => (s, ActionView::Ignored),
    }
}

/// What the speech service answered is taken. With audio, the chunk has
/// audio and its measure is asked for; without, the chunk is done without
/// audio.
pub open spec fn spec_on_speech_reply(s: GenerationView, reply: HttpReplyView) -> (
    GenerationView,
    ActionView,
) {
    if s.phase == Phase::Synthesizing && s.current is Some {
        let chunk = s.current->0;
        match spec_synthesized(s.config, reply) {
            Ok(audio) => (
                GenerationView {
                    phase: Phase::Measuring,
                    current: Some(
                        DiffChunkView { audio_data: Some(audio), has_audio: true, ..chunk },
                    ),
                    ..s
                },
                ActionView::Measure { audio },
            ),
            Err(_) => spec_next_chunk(spec_store(s, chunk)),
        }
    } else {
        (s, ActionView::Ignored)
    }
}

/// The measure of the audio is taken: where the audio could be decoded,
/// the chunk lasts as long as it plays; else as long as its words were
/// estimated to take. The chunk is done.
pub open spec fn spec_on_measured(s: GenerationView, measured: Option<u64>) -> (
    GenerationView,
    ActionView,
) {
    if s.phase == Phase::Measuring && s.current is Some {
        let chunk = s.current->0;
        let micros = match measured {
            Some(played) => played,
            None => chunk.audio_duration_micros,
        };
        spec_next_chunk(spec_store(s, DiffChunkView { audio_duration_micros: micros, ..chunk }))
    } else {
        (s, ActionView::Ignored)
    }
}

/// What holds of every state of a generation. The chunks that are done are
/// numbered 0, 1, 2 and so on in the order in which they were done; a chunk
/// is marked as having audio exactly where it holds audio; a chunk is being
/// spoken only while its audio or the measure of it is awaited, it has audio
/// once the measure is awaited, and it narrates the current file; the progress is no more than the whole; and
/// before the files are worked on no chunk is done. The progress is no more
/// than the share at which the current phase, or the current file, begins.
pub open spec fn well_formed(s: GenerationView) -> bool {
    &&& forall|k: int| 0 <= k < s.chunks.len() ==> (#[trigger] s.chunks[k]).chunk_id == k
    &&& forall|k: int|
        0 <= k < s.chunks.len() ==> (#[trigger] s.chunks[k]).has_audio == (
        s.chunks[k].audio_data is Some)
    &&& s.current matches Some(chunk) ==> chunk.has_audio == (chunk.audio_data is Some)
        && chunk.has_audio == (s.phase == Phase::Measuring) && chunk.file_path == s.path && (
    s.phase == Phase::Synthesizing || s.phase == Phase::Measuring)
    &&& s.progress.permille <= 1000
    &&& s.refusals < MAX_ATTEMPTS
    &&& s.file_index <= s.files.len() <= usize::MAX
    &&& (s.phase == Phase::Idle || s.phase == Phase::ContextBuilding || s.phase
        == Phase::FileOrdering) ==> s.chunks.len() == 0 && s.file_index == 0 && s.group_index == 0
    &&& s.phase == Phase::Grouping ==> s.group_index == 0 && s.groups.len() == 0
    &&& s.phase == Phase::Idle ==> s.progress.permille <= 50
    &&& s.phase == Phase::ContextBuilding ==> s.progress.permille <= 100
    &&& s.phase == Phase::FileOrdering ==> s.progress.permille <= 150
    &&& is_working(s.phase) ==> s.file_index < s.files.len() && s.progress.permille
        <= spec_file_permille(s.file_index, s.files.len())
}

/// Whether a file is worked on in this phase.
pub open spec fn is_working(phase: Phase) -> bool {
    phase == Phase::Grouping || phase == Phase::Narrating || phase == Phase::Synthesizing || phase
        == Phase::Measuring
}

/// Whether `after` may come after `before` in a generation: the chunks that
/// were done are still there, unchanged and in their places; at most one
/// chunk was done since, and it narrates the file that was the current one;
/// neither an earlier file nor an earlier group of the same file is gone
/// back to; the groups of a file are taken one after another from the first,
/// and a file is left only behind its last group; and the progress does not
/// fall.
pub open spec fn advances(before: GenerationView, after: GenerationView) -> bool {
    &&& before.progress.permille <= after.progress.permille
    &&& before.chunks.is_prefix_of(after.chunks)
    &&& after.chunks.len() <= before.chunks.len() + 1
    &&& after.chunks.len() > before.chunks.len() ==> after.chunks.last().file_path == before.path
    &&& before.file_index <= after.file_index
    &&& before.file_index == after.file_index ==> before.group_index <= after.group_index
        <= before.group_index + 1
    &&& before.file_index < after.file_index && is_working(before.phase) ==> before.group_index
        + 1 >= before.groups.len()
    &&& is_working(after.phase) && (before.file_index < after.file_index || !is_working(
        before.phase,
    )) ==> after.group_index == 0
    &&& after.files.len() == before.files.len()
}

/// Whether `action` asks for the narration of the current group of `s`,
/// where `s` awaits a narration.
pub open spec fn asks_for_current_group(s: GenerationView, action: ActionView) -> bool {
    s.phase == Phase::Narrating && action is AskModel ==> s.group_index < s.groups.len()
        && action->AskModel_request == spec_narration_request(
        s.context,
        s.message,
        s.path,
        spec_chunk_lines(s.hunks, s.groups[s.group_index as int]),
        s.speed_ms as nat,
    )
}

/// The progress at the start of a file is no less than at the start of a
/// file before it.
pub proof fn lemma_file_permille_grows(earlier: nat, later: nat, total: nat)
    requires
        earlier <= later < total,
    ensures
        spec_file_permille(earlier, total) <= spec_file_permille(later, total),
{
    assert((800 * earlier) / total <= (800 * later) / total) by (nonlinear_arith)
        requires
            earlier <= later,
            total > 0,
    ;
    lemma_file_permille(earlier, total);
    lemma_file_permille(later, total);
}

/// The progress at the start of a file is between 150 and 950 thousandths.
pub proof fn lemma_file_permille(index: nat, total: nat)
    ensures
        150 <= spec_file_permille(index, total) <= 950,
        index < total ==> spec_file_permille(index, total) == 150 + (800 * index) / total,
{
    if total > 0 && index < total {
        assert((800 * index) / total < 800) by (nonlinear_arith)
            requires
                index < total,
                total > 0,
        ;
        assert((800 * index) / total >= 0) by (nonlinear_arith)
            requires
                index >= 0,
                total > 0,
        ;
    }
}

proof fn lemma_narrate(s: GenerationView, group: nat)
    requires
        well_formed(s),
        is_working(s.phase),
        s.group_index <= group <= s.group_index + 1,
    ensures
        well_formed(spec_narrate(s, group).0),
        advances(s, spec_narrate(s, group).0),
{
}

proof fn lemma_enter_file(s: GenerationView, index: nat)
    requires
        well_formed(s),
        is_working(s.phase) || s.phase == Phase::FileOrdering,
        is_working(s.phase) ==> s.group_index + 1 >= s.groups.len(),
        s.file_index < index || (index == 0 && s.file_index == 0 && s.group_index == 0),
    ensures
        well_formed(spec_enter_file(s, index).0),
        advances(s, spec_enter_file(s, index).0),
{
    lemma_file_permille(index, s.files.len());
    if index < s.files.len() && s.file_index < index {
        lemma_file_permille_grows(s.file_index, index, s.files.len());
    }
}

proof fn lemma_next_chunk(s: GenerationView)
    requires
        well_formed(s),
        is_working(s.phase),
    ensures
        well_formed(spec_next_chunk(s).0),
        advances(s, spec_next_chunk(s).0),
{
    if s.group_index + 1 < s.groups.len() {
        lemma_narrate(s, s.group_index + 1);
    } else {
        lemma_enter_file(s, s.file_index + 1);
    }
}

proof fn lemma_store(s: GenerationView, chunk: DiffChunkView)
    requires
        well_formed(s),
        is_working(s.phase),
        chunk.has_audio == (chunk.audio_data is Some),
        chunk.file_path == s.path,
        s.chunks.len() < usize::MAX,
    ensures
        well_formed(spec_store(s, chunk)),
        advances(s, spec_store(s, chunk)),
        well_formed(spec_next_chunk(spec_store(s, chunk)).0),
        advances(s, spec_next_chunk(spec_store(s, chunk)).0),
{
    let t = spec_store(s, chunk);
    assert(s.chunks.is_prefix_of(t.chunks));
    lemma_next_chunk(t);
    let u = spec_next_chunk(t).0;
    assert(s.chunks.is_prefix_of(u.chunks)) by {
        assert(t.chunks.is_prefix_of(u.chunks));
        assert(u.chunks.len() == t.chunks.len()) by {
            lemma_next_chunk_keeps_chunks(t);
        }
        assert(u.chunks == t.chunks);
    }
    lemma_next_chunk_keeps_chunks(t);
}

/// Going on to the next chunk or file does no chunk.
proof fn lemma_next_chunk_keeps_chunks(s: GenerationView)
    ensures
        spec_next_chunk(s).0.chunks == s.chunks,
        spec_first_chunk(s).0.chunks == s.chunks,
        forall|index: nat| (#[trigger] spec_enter_file(s, index)).0.chunks == s.chunks,
{
}

/// A generation keeps what holds of every state, whatever is handed to it,
/// and only advances: the chunks that are done stay numbered in the order
/// in which they were done, each step does at most one more, and none is
/// changed or taken away. The numbers that a `usize` holds must not all be
/// used up.
pub proof fn lemma_generation_advances(
    s: GenerationView,
    model: ModelReplyView,
    speech: HttpReplyView,
    measured: Option<u64>,
)
    requires
        well_formed(s),
        s.chunks.len() < usize::MAX,
    ensures
        well_formed(spec_start(s).0),
        advances(s, spec_start(s).0),
        well_formed(spec_on_model_reply(s, model).0),
        advances(s, spec_on_model_reply(s, model).0),
        well_formed(spec_on_speech_reply(s, speech).0),
        advances(s, spec_on_speech_reply(s, speech).0),
        well_formed(spec_on_measured(s, measured).0),
        advances(s, spec_on_measured(s, measured).0),
{
    lemma_start(s);
    lemma_on_model_reply(s, model);
    lemma_on_speech_reply(s, speech);
    lemma_on_measured(s, measured);
}

proof fn lemma_start(s: GenerationView)
    requires
        well_formed(s),
    ensures
        well_formed(spec_start(s).0),
        advances(s, spec_start(s).0),
{
    assert(s.chunks.is_prefix_of(s.chunks));
    if s.phase == Phase::Idle {
        assert(s.chunks =~= Seq::empty());
    }
}

proof fn lemma_on_model_reply(s: GenerationView, reply: ModelReplyView)
    requires
        well_formed(s),
        s.chunks.len() < usize::MAX,
    ensures
        well_formed(spec_on_model_reply(s, reply).0),
        advances(s, spec_on_model_reply(s, reply).0),
{
    assert(s.chunks.is_prefix_of(s.chunks));
    if !spec_retries(s, reply) {
        lemma_answered(s, reply);
    }
}

proof fn lemma_answered(s: GenerationView, reply: ModelReplyView)
    requires
        well_formed(s),
        s.chunks.len() < usize::MAX,
    ensures
        well_formed(spec_answered(s, reply).0),
        advances(s, spec_answered(s, reply).0),
{
    assert(s.chunks.is_prefix_of(s.chunks));
    match s.phase {
        Phase::ContextBuilding => {
            assert(s.chunks =~= Seq::empty());
            match spec_description(reply) {
                Ok(description) => {
                    let t = GenerationView {
                        context: ProjectContextView { description, ..s.context },
                        ..s
                    };
                    let u = GenerationView {
                        phase: Phase::FileOrdering,
                        progress: ProgressView {
                            message: "Ordering "@ + spec_decimal(t.files.len())
                                + " files by development flow..."@,
                            permille: 100,
                        },
                        ..t
                    };
                    lemma_enter_file(u, 0);
                    assert(spec_enter_file(u, 0) == spec_enter_file(
                        GenerationView { phase: Phase::ContextBuilding, ..u },
                        0,
                    ));
                },
                Err(_) => {},
            }
        },
        Phase::FileOrdering => {
            let t = GenerationView { files: spec_ordered(s.files, reply), ..s };
            crate::ordering::lemma_ordered_is_rearrangement(s.files, reply);
            lemma_enter_file(t, 0);
        },
        Phase::Grouping => match reply {
            ModelReplyView::Text(content) => {
                let t = GenerationView {
                    groups: spec_llm_group_hunks(content, s.hunks.len()),
                    ..s
                };
                let u = GenerationView { phase: Phase::Narrating, ..t };
                assert(spec_first_chunk(t) == spec_first_chunk(u));
                if t.groups.len() > 0 {
                    lemma_narrate(u, 0);
                } else {
                    lemma_enter_file(u, u.file_index + 1);
                }
            },
            _ => {
                lemma_enter_file(s, s.file_index + 1);
            },
        },
        Phase::Narrating => {
            lemma_next_chunk(s);
            match reply {
                ModelReplyView::Text(content) => {
                    if s.group_index < s.groups.len() {
                        let chunk = spec_narrated_chunk(
                            s.chunks.len() as usize,
                            s.path,
                            s.groups[s.group_index as int],
                            content,
                        );
                        let t = GenerationView {
                            progress: ProgressView {
                                message: spec_speech_message(
                                    s.file_index,
                                    s.files.len(),
                                    s.path,
                                    s.chunks.len(),
                                ),
                                permille: s.progress.permille,
                            },
                            ..s
                        };
                        lemma_store(t, chunk);
                    }
                },
                _ => {},
            }
        },
        _ => {},
    }
}

proof fn lemma_on_speech_reply(s: GenerationView, reply: HttpReplyView)
    requires
        well_formed(s),
        s.chunks.len() < usize::MAX,
    ensures
        well_formed(spec_on_speech_reply(s, reply).0),
        advances(s, spec_on_speech_reply(s, reply).0),
{
    assert(s.chunks.is_prefix_of(s.chunks));
    if s.phase == Phase::Synthesizing && s.current is Some {
        lemma_store(s, s.current->0);
    }
}

proof fn lemma_on_measured(s: GenerationView, measured: Option<u64>)
    requires
        well_formed(s),
        s.chunks.len() < usize::MAX,
    ensures
        well_formed(spec_on_measured(s, measured).0),
        advances(s, spec_on_measured(s, measured).0),
{
    assert(s.chunks.is_prefix_of(s.chunks));
    if s.phase == Phase::Measuring && s.current is Some {
        let chunk = s.current->0;
        let micros = match measured {
            Some(played) => played,
            None => chunk.audio_duration_micros,
        };
        lemma_store(s, DiffChunkView { audio_duration_micros: micros, ..chunk });
    }
}

/// Whenever a generation comes to await a narration, what it asks is the
/// narration of the current group of the current file. With the order in
/// which `advances` lets the groups be taken, each group of a file is asked
/// for in its turn.
pub proof fn lemma_narration_is_of_current_group(
    s: GenerationView,
    model: ModelReplyView,
    speech: HttpReplyView,
    measured: Option<u64>,
)
    requires
        well_formed(s),
    ensures
        asks_for_current_group(spec_start(s).0, spec_start(s).1),
        asks_for_current_group(spec_on_model_reply(s, model).0, spec_on_model_reply(s, model).1),
        asks_for_current_group(
            spec_on_speech_reply(s, speech).0,
            spec_on_speech_reply(s, speech).1,
        ),
        asks_for_current_group(spec_on_measured(s, measured).0, spec_on_measured(s, measured).1),
{
    lemma_asks_after_model_reply(s, model);
    if s.phase == Phase::Synthesizing && s.current is Some {
        lemma_asks_after_next_chunk(spec_store(s, s.current->0));
    }
    if s.phase == Phase::Measuring && s.current is Some {
        let chunk = s.current->0;
        let micros = match measured {
            Some(played) => played,
            None => chunk.audio_duration_micros,
        };
        lemma_asks_after_next_chunk(
            spec_store(s, DiffChunkView { audio_duration_micros: micros, ..chunk }),
        );
    }
}

proof fn lemma_asks_after_enter_file(s: GenerationView, index: nat)
    ensures
        asks_for_current_group(spec_enter_file(s, index).0, spec_enter_file(s, index).1),
{
}

proof fn lemma_asks_after_next_chunk(s: GenerationView)
    ensures
        asks_for_current_group(spec_next_chunk(s).0, spec_next_chunk(s).1),
        asks_for_current_group(spec_first_chunk(s).0, spec_first_chunk(s).1),
{
    lemma_asks_after_enter_file(s, s.file_index + 1);
}

proof fn lemma_asks_after_model_reply(s: GenerationView, reply: ModelReplyView)
    requires
        well_formed(s),
    ensures
        asks_for_current_group(spec_on_model_reply(s, reply).0, spec_on_model_reply(s, reply).1),
{
    if !spec_retries(s, reply) {
        match s.phase {
            Phase::ContextBuilding => match spec_description(reply) {
                Ok(description) => {
                    let t = GenerationView {
                        context: ProjectContextView { description, ..s.context },
                        ..s
                    };
                    let u = GenerationView {
                        progress: ProgressView {
                            message: "Ordering "@ + spec_decimal(t.files.len())
                                + " files by development flow..."@,
                            permille: 100,
                        },
                        ..t
                    };
                    lemma_asks_after_enter_file(u, 0);
                },
                Err(_) => {},
            },
            Phase::FileOrdering => {
                lemma_asks_after_enter_file(
                    GenerationView { files: spec_ordered(s.files, reply), ..s },
                    0,
                );
            },
            Phase::Grouping => match reply {
                ModelReplyView::Text(content) => {
                    lemma_asks_after_next_chunk(
                        GenerationView {
                            groups: spec_llm_group_hunks(content, s.hunks.len()),
                            ..s
                        },
                    );
                },
                _ => {
                    lemma_asks_after_enter_file(s, s.file_index + 1);
                },
            },
            Phase::Narrating => {
                lemma_asks_after_next_chunk(s);
                match reply {
                    ModelReplyView::Text(content) => {
                        if s.group_index < s.groups.len() {
                            let chunk = spec_narrated_chunk(
                                s.chunks.len() as usize,
                                s.path,
                                s.groups[s.group_index as int],
                                content,
                            );
                            let t = GenerationView {
                                progress: ProgressView {
                                    message: spec_speech_message(
                                        s.file_index,
                                        s.files.len(),
                                        s.path,
                                        s.chunks.len(),
                                    ),
                                    permille: s.progress.permille,
                                },
                                ..s
                            };
                            lemma_asks_after_next_chunk(spec_store(t, chunk));
                        }
                    },
                    _ => {},
                }
            },
            _ => {},
        }
    }
}

/// A narration that the speech service spoke becomes a chunk with that
/// audio, whatever the measure of the audio says; one that it did not speak
/// becomes a chunk without audio. Either way the chunk is the next that is
/// done.
pub proof fn lemma_chunk_has_audio_where_spoken(
    s: GenerationView,
    speech: HttpReplyView,
    measured: Option<u64>,
)
    requires
        well_formed(s),
        s.phase == Phase::Synthesizing,
        s.current is Some,
        s.chunks.len() < usize::MAX,
    ensures
        match spec_synthesized(s.config, speech) {
            Ok(audio) => {
                let after = spec_on_measured(spec_on_speech_reply(s, speech).0, measured).0;
                &&& spec_on_speech_reply(s, speech).1 == (ActionView::Measure { audio })
                &&& after.chunks.len() == s.chunks.len() + 1
                &&& after.chunks.last().has_audio
                &&& after.chunks.last().audio_data == Some(audio)
                &&& after.chunks.last().chunk_id == s.chunks.len()
                &&& after.chunks.last().explanation == s.current->0.explanation
            },
            Err(_) => {
                let after = spec_on_speech_reply(s, speech).0;
                &&& after.chunks.len() == s.chunks.len() + 1
                &&& !after.chunks.last().has_audio
                &&& after.chunks.last().audio_data is None
                &&& after.chunks.last().chunk_id == s.chunks.len()
                &&& after.chunks.last().explanation == s.current->0.explanation
            },
        },
{
    lemma_next_chunk_keeps_chunks(spec_store(s, s.current->0));
    match spec_synthesized(s.config, speech) {
        Ok(audio) => {
            let t = spec_on_speech_reply(s, speech).0;
            let chunk = t.current->0;
            let micros = match measured {
                Some(played) => played,
                None => chunk.audio_duration_micros,
            };
            lemma_next_chunk_keeps_chunks(
                spec_store(t, DiffChunkView { audio_duration_micros: micros, ..chunk }),
            );
        },
        Err(_) => {},
    }
}

/// For a file with at most one hunk the language model is not asked for
/// groups: the file is one group of all its hunks, and the narration of
/// that group is what is asked for first.
pub proof fn lemma_single_hunk_file_is_one_group(s: GenerationView, index: nat)
    requires
        index < s.files.len(),
        spec_hunks(spec_lines(s.files[index as int].diff)).len() <= 1,
    ensures
        spec_enter_file(s, index).0.phase == Phase::Narrating,
        spec_enter_file(s, index).0.group_index == 0,
        spec_enter_file(s, index).0.groups == seq![
            crate::grouping::all_hunks(spec_hunks(spec_lines(s.files[index as int].diff)).len()),
        ],
        spec_enter_file(s, index).1 is AskModel,
        spec_enter_file(s, index).1->AskModel_request == spec_narration_request(
            s.context,
            s.message,
            s.files[index as int].path,
            spec_chunk_lines(
                spec_hunks(spec_lines(s.files[index as int].diff)),
                spec_enter_file(s, index).0.groups[0],
            ),
            s.speed_ms as nat,
        ),
{
}

/// The generation of the narration of one commit.
pub struct Generation {
    phase: Phase,
    config: VoiceoverConfig,
    repo: RepoSnapshot,
    message: String,
    speed_ms: u64,
    context: ProjectContext,
    files: Vec<FileChange>,
    file_index: usize,
    path: String,
    hunks: Vec<Vec<String>>,
    groups: Vec<Vec<usize>>,
    group_index: usize,
    current: Option<DiffChunk>,
    chunks: Vec<DiffChunk>,
    carry_pause: u64,
    refusals: u32,
    progress_message: String,
    progress_permille: u32,
    clears_store: bool,
}

/// The chunk in `chunk` as mathematical values, where there is one.
pub open spec fn chunk_option_view(chunk: Option<DiffChunk>) -> Option<DiffChunkView> {
    match chunk {
        Some(held) => Some(held@),
        None => None,
    }
}

impl View for Generation {
    type V = GenerationView;

    closed spec fn view(&self) -> GenerationView {
        GenerationView {
            phase: self.phase,
            config: self.config,
            repo: self.repo@,
            message: self.message@,
            speed_ms: self.speed_ms,
            context: self.context@,
            files: file_views(self.files@),
            file_index: self.file_index as nat,
            path: self.path@,
            hunks: hunk_views(self.hunks@),
            groups: group_views(self.groups@),
            group_index: self.group_index as nat,
            current: chunk_option_view(self.current),
            chunks: chunk_views(self.chunks@),
            carry_pause: self.carry_pause,
            refusals: self.refusals,
            progress: ProgressView {
                message: self.progress_message@,
                permille: self.progress_permille,
            },
            clears_store: self.clears_store,
        }
    }
}

/// Whether the file of this path is passed over.
pub fn is_skipped(path: &str) -> (skipped: bool)
    ensures
        skipped == spec_is_skipped(path@),
{
    let chars = to_chars(path);
    contains(&chars, &to_chars("package-lock.json")) || contains(&chars, &to_chars("yarn.lock"))
        || contains(&chars, &to_chars("pnpm-lock.yaml")) || ends_with(&chars, &to_chars(".lock"))
        || ends_with(&chars, &to_chars(".json")) || ends_with(&chars, &to_chars(".xcodeproj"))
        || ends_with(&chars, &to_chars(".pbxproj")) || ends_with(
        &chars,
        &to_chars(".xcworkspace"),
    ) || contains(&chars, &to_chars(".vscode/")) || contains(&chars, &to_chars(".idea/"))
        || contains(&chars, &to_chars("/dist/")) || contains(&chars, &to_chars("/build/"))
        || contains(&chars, &to_chars("/target/"))
}

/// The files among `files` that are narrated, in order.
pub fn narrated_files(files: &Vec<FileChange>) -> (kept: Vec<FileChange>)
    ensures
        file_views(kept@) == spec_narrated_files(file_views(files@)),
{
    let ghost all = file_views(files@);
    let mut kept: Vec<FileChange> = Vec::new();
    let mut i: usize = 0;
    proof {
        reveal(Seq::filter);
        assert(all.take(0) == Seq::<FileChangeView>::empty());
    }
    while i < files.len()
        invariant
            i <= files.len(),
            all == file_views(files@),
            file_views(kept@) == spec_narrated_files(all.take(i as int)),
        decreases files.len() - i,
    {
        proof {
            reveal(Seq::filter);
            assert(all.take(i + 1).drop_last() == all.take(i as int));
            assert(all.take(i + 1).last() == files@[i as int]@);
        }
        if !is_skipped(files[i].path.as_str()) {
            let file = files[i].duplicate();
            assert(file_views(kept@.push(file)) == file_views(kept@).push(file@));
            kept.push(file);
        }
        i += 1;
    }
    assert(all.take(files.len() as int) == all);
    kept
}

/// The message while the file of number `index` of `total` is worked on.
fn file_message(index: usize, total: usize, path: &str) -> (message: String)
    ensures
        message@ == spec_file_message(index as nat, total as nat, path@),
{
    let mut out: Vec<char> = Vec::new();
    push_str_chars(&mut out, "Processing file ");
    push_decimal(&mut out, index as u128 + 1);
    push_str_chars(&mut out, "/");
    push_decimal(&mut out, total as u128);
    push_str_chars(&mut out, ": ");
    let name = after_last(&to_chars(path), '/');
    push_chars(&mut out, &name);
    assert(out@ =~= spec_file_message(index as nat, total as nat, path@));
    from_chars(&out)
}

/// The message while the chunk of number `chunk_id` is spoken.
fn speech_message(index: usize, total: usize, path: &str, chunk_id: usize) -> (message: String)
    ensures
        message@ == spec_speech_message(index as nat, total as nat, path@, chunk_id as nat),
{
    let mut out: Vec<char> = Vec::new();
    push_str_chars(&mut out, "Synthesizing audio ");
    push_decimal(&mut out, index as u128 + 1);
    push_str_chars(&mut out, "/");
    push_decimal(&mut out, total as u128);
    push_str_chars(&mut out, ": ");
    let name = after_last(&to_chars(path), '/');
    push_chars(&mut out, &name);
    push_str_chars(&mut out, " (chunk ");
    push_decimal(&mut out, chunk_id as u128 + 1);
    push_str_chars(&mut out, ")");
    assert(out@ =~= spec_speech_message(index as nat, total as nat, path@, chunk_id as nat));
    from_chars(&out)
}

/// The share of the whole that is done when the file of number `index` of
/// `total` is begun, in thousandths.
fn file_permille(index: usize, total: usize) -> (permille: u32)
    ensures
        permille == spec_file_permille(index as nat, total as nat),
        permille <= 1000,
{
    proof {
        lemma_file_permille(index as nat, total as nat);
    }
    if total == 0 || index >= total {
        150
    } else {
        let share: u128 = (800u128 * (index as u128)) / (total as u128);
        (150 + share) as u32
    }
}

/// The pause before a request is made again that was refused `refusals`
/// times before.
fn backoff(refusals: u32) -> (pause: u64)
    requires
        refusals < MAX_ATTEMPTS,
    ensures
        pause == spec_backoff(refusals as nat),
{
    proof {
        reveal_with_fuel(spec_backoff, 4);
    }
    if refusals == 0 {
        RETRY_BASE_MILLIS
    } else if refusals == 1 {
        2 * RETRY_BASE_MILLIS
    } else {
        4 * RETRY_BASE_MILLIS
    }
}

/// The text that `text` holds.
fn text_of(text: &str) -> (owned: String)
    ensures
        owned@ == text@,
{
    from_chars(&to_chars(text))
}

/// The state in which a generation is made: idle, with the files that are
/// narrated, and nothing done.
pub open spec fn spec_new(
    config: VoiceoverConfig,
    message: Seq<char>,
    files: Seq<FileChangeView>,
    speed_ms: u64,
    repo: RepoSnapshotView,
) -> GenerationView {
    GenerationView {
        phase: Phase::Idle,
        config,
        repo,
        message,
        speed_ms,
        context: ProjectContextView { repo_name: Seq::empty(), description: Seq::empty() },
        files: spec_narrated_files(files),
        file_index: 0,
        path: Seq::empty(),
        hunks: Seq::empty(),
        groups: Seq::empty(),
        group_index: 0,
        current: None,
        chunks: Seq::empty(),
        carry_pause: 0,
        refusals: 0,
        progress: ProgressView { message: "Analyzing repository..."@, permille: 0 },
        clears_store: false,
    }
}

impl Generation {
    #[verifier::type_invariant]
    spec fn inv(&self) -> bool {
        well_formed(self@)
    }

    /// A generation for the commit with the message `message` that changed
    /// `files`, at a typing speed of `speed_ms` milliseconds per character.
    /// Nothing is asked before `start`.
    pub fn new(
        config: VoiceoverConfig,
        message: &str,
        files: &Vec<FileChange>,
        speed_ms: u64,
        repo: RepoSnapshot,
    ) -> (made: Self)
        ensures
            made@ == spec_new(config, message@, file_views(files@), speed_ms, repo@),
            well_formed(made@),
    {
        let kept = narrated_files(files);
        assert(file_views(kept@).len() == kept.len());
        assert(chunk_views(Seq::<DiffChunk>::empty()).len() == 0);
        let made = Generation {
            phase: Phase::Idle,
            config,
            repo,
            message: text_of(message),
            speed_ms,
            context: ProjectContext { repo_name: String::new(), description: String::new() },
            files: kept,
            file_index: 0,
            path: String::new(),
            hunks: Vec::new(),
            groups: Vec::new(),
            group_index: 0,
            current: None,
            chunks: Vec::new(),
            carry_pause: 0,
            refusals: 0,
            progress_message: text_of("Analyzing repository..."),
            progress_permille: 0,
            clears_store: false,
        };
        proof {
            assert(made@.hunks =~= Seq::empty());
            assert(made@.groups =~= Seq::empty());
            assert(made@.chunks =~= Seq::empty());
        }
        made
    }

    fn finish(&mut self) -> (action: Action)
        ensures
            final(self)@ == spec_finish(old(self)@).0,
            action@ == spec_finish(old(self)@).1,
    {
        proof {
            use_type_invariant(&*self);
        }
        self.current = None;
        self.phase = Phase::Complete;
        self.progress_message = text_of("Complete!");
        self.progress_permille = 1000;
        Action::Finish
    }

    fn abort(&mut self) -> (action: Action)
        ensures
            final(self)@ == spec_abort(old(self)@).0,
            action@ == spec_abort(old(self)@).1,
    {
        proof {
            use_type_invariant(&*self);
        }
        self.current = None;
        self.phase = Phase::Complete;
        self.chunks = Vec::new();
        assert(self@.chunks =~= Seq::empty());
        Action::Finish
    }

    fn narration_for(&self, group: usize) -> (request: ChatRequest)
        requires
            group < self@.groups.len(),
        ensures
            request@ == spec_narrate(self@, group as nat).1->AskModel_request,
    {
        let lines = chunk_lines(&self.hunks, &self.groups[group]);
        narration_request(
            &self.context,
            self.message.as_str(),
            self.path.as_str(),
            &lines,
            self.speed_ms,
        )
    }

    fn narrate(&mut self, group: usize) -> (action: Action)
        requires
            group < old(self)@.groups.len(),
            old(self)@.file_index < old(self)@.files.len(),
            old(self)@.progress.permille <= spec_file_permille(
                old(self)@.file_index,
                old(self)@.files.len(),
            ),
        ensures
            final(self)@ == spec_narrate(old(self)@, group as nat).0,
            action@ == spec_narrate(old(self)@, group as nat).1,
    {
        proof {
            use_type_invariant(&*self);
        }
        let request = self.narration_for(group);
        let pause: u64 = self.carry_pause.saturating_add(NARRATION_PAUSE_MILLIS);
        self.current = None;
        self.phase = Phase::Narrating;
        self.group_index = group;
        self.carry_pause = 0;
        self.refusals = 0;
        Action::AskModel { pause_millis: pause, request }
    }

    fn enter_file(&mut self, index: usize) -> (action: Action)
        ensures
            final(self)@ == spec_enter_file(old(self)@, index as nat).0,
            action@ == spec_enter_file(old(self)@, index as nat).1,
    {
        proof {
            use_type_invariant(&*self);
        }
        self.current = None;
        self.phase = Phase::Complete;
        if index >= self.files.len() {
            self.file_index = self.files.len();
            return self.finish();
        }
        let path = self.files[index].path.clone();
        let parsed = parse_hunks(self.files[index].diff.as_str());
        let hunks = parsed.0;
        let summaries = parsed.1;
        let carry: u64 = if index > 0 {
            FILE_PAUSE_MILLIS
        } else {
            0
        };
        let message = file_message(index, self.files.len(), path.as_str());
        let permille = file_permille(index, self.files.len());
        let count: usize = hunks.len();
        assert(count == hunk_views(hunks@).len());
        self.current = None;
        self.group_index = 0;
        self.file_index = index;
        self.path = path;
        self.hunks = hunks;
        self.carry_pause = carry;
        self.progress_message = message;
        self.progress_permille = permille;
        match single_group(count) {
            Some(groups) => {
                self.groups = groups;
                self.narrate(0)
            },
            None => {
                let request = grouping_request(
                    &self.context,
                    self.message.as_str(),
                    self.path.as_str(),
                    &summaries,
                );
                self.groups = Vec::new();
                assert(self@.groups =~= Seq::empty());
                self.phase = Phase::Grouping;
                self.carry_pause = 0;
                Action::AskModel { pause_millis: carry, request }
            },
        }
    }

    fn next_file(&mut self) -> (action: Action)
        ensures
            final(self)@ == spec_enter_file(old(self)@, old(self)@.file_index + 1).0,
            action@ == spec_enter_file(old(self)@, old(self)@.file_index + 1).1,
    {
        proof {
            use_type_invariant(&*self);
        }
        assert(self@.files.len() == self.files.len());
        let next: usize = if self.file_index < usize::MAX {
            self.file_index + 1
        } else {
            usize::MAX
        };
        self.enter_file(next)
    }

    fn next_chunk(&mut self) -> (action: Action)
        requires
            is_working(old(self)@.phase),
        ensures
            final(self)@ == spec_next_chunk(old(self)@).0,
            action@ == spec_next_chunk(old(self)@).1,
    {
        proof {
            use_type_invariant(&*self);
        }
        assert(self@.groups.len() == self.groups.len());
        if self.group_index < usize::MAX && self.group_index + 1 < self.groups.len() {
            self.narrate(self.group_index + 1)
        } else {
            self.next_file()
        }
    }

    fn first_chunk(&mut self) -> (action: Action)
        requires
            old(self)@.file_index < old(self)@.files.len(),
            old(self)@.progress.permille <= spec_file_permille(
                old(self)@.file_index,
                old(self)@.files.len(),
            ),
        ensures
            final(self)@ == spec_first_chunk(old(self)@).0,
            action@ == spec_first_chunk(old(self)@).1,
    {
        proof {
            use_type_invariant(&*self);
        }
        assert(self@.groups.len() == self.groups.len());
        if self.groups.len() > 0 {
            self.narrate(0)
        } else {
            self.next_file()
        }
    }

    fn store(&mut self, chunk: DiffChunk)
        requires
            chunk@.has_audio == (chunk@.audio_data is Some),
            old(self)@.phase != Phase::Idle,
            old(self)@.phase != Phase::ContextBuilding,
            old(self)@.phase != Phase::FileOrdering,
        ensures
            final(self)@ == spec_store(old(self)@, chunk@),
    {
        proof {
            use_type_invariant(&*self);
        }
        let ghost before = self@.chunks;
        let mut numbered = chunk;
        numbered.chunk_id = self.chunks.len();
        let mut chunks: Vec<DiffChunk> = Vec::new();
        core::mem::swap(&mut self.chunks, &mut chunks);
        assert(chunk_views(chunks@.push(numbered)) == before.push(numbered@));
        chunks.push(numbered);
        self.chunks = chunks;
        self.current = None;
    }

    fn begin_ordering(&mut self) -> (action: Action)
        requires
            old(self)@.phase == Phase::ContextBuilding,
        ensures
            final(self)@ == spec_begin_ordering(old(self)@).0,
            action@ == spec_begin_ordering(old(self)@).1,
    {
        proof {
            use_type_invariant(&*self);
        }
        let mut out: Vec<char> = Vec::new();
        push_str_chars(&mut out, "Ordering ");
        push_decimal(&mut out, self.files.len() as u128);
        push_str_chars(&mut out, " files by development flow...");
        assert(out@ =~= "Ordering "@ + spec_decimal(self@.files.len()) +
            " files by development flow..."@);
        self.progress_message = from_chars(&out);
        self.progress_permille = 100;
        match ordering_request(&self.config, &self.context, self.message.as_str(), &self.files) {
            Some(request) => {
                self.phase = Phase::FileOrdering;
                Action::AskModel { pause_millis: 0, request }
            },
            None => self.enter_file(0),
        }
    }

    fn begin_speech(&mut self, chunk: DiffChunk) -> (action: Action)
        requires
            !chunk@.has_audio,
            chunk@.audio_data is None,
            chunk@.file_path == old(self)@.path,
            is_working(old(self)@.phase),
        ensures
            final(self)@ == spec_begin_speech(old(self)@, chunk@).0,
            action@ == spec_begin_speech(old(self)@, chunk@).1,
    {
        proof {
            use_type_invariant(&*self);
        }
        self.progress_message = speech_message(
            self.file_index,
            self.files.len(),
            self.path.as_str(),
            self.chunks.len(),
        );
        match speech_request(&self.config, chunk.explanation.as_str()) {
            Ok(request) => {
                self.current = None;
                self.phase = Phase::Synthesizing;
                self.current = Some(chunk);
                Action::Speak { pause_millis: SPEECH_PAUSE_MILLIS, speech: request }
            },
            Err(_) => {
                self.store(chunk);
                self.next_chunk()
            },
        }
    }

    /// Starts the generation and gives what to do first.
    pub fn start(&mut self) -> (action: Action)
        ensures
            final(self)@ == spec_start(old(self)@).0,
            action@ == spec_start(old(self)@).1,
            well_formed(old(self)@),
            well_formed(final(self)@),
    {
        proof {
            use_type_invariant(&*self);
        }
        if self.phase != Phase::Idle {
            return Action::Ignored;
        }
        if !self.config.enabled || self.config.api_key.is_none() {
            return self.abort();
        }
        let git_config: Option<&str> = match &self.repo.git_config {
            Some(text) => Some(text.as_str()),
            None => None,
        };
        let directory: Option<&str> = match &self.repo.directory {
            Some(text) => Some(text.as_str()),
            None => None,
        };
        let context = extract_project_context(git_config, directory);
        self.clears_store = true;
        self.refusals = 0;
        self.context = context;
        self.progress_message = text_of("Generating project context with GPT...");
        self.progress_permille = 50;
        if !self.config.use_llm_explanations {
            return self.abort();
        }
        match context_request(&self.config, &self.repo.key_files) {
            Ok(request) => {
                self.phase = Phase::ContextBuilding;
                Action::AskModel { pause_millis: 0, request }
            },
            Err(_) => self.abort(),
        }
    }

    /// The request to make again, where the request that is awaited is made
    /// again.
    fn retried(&self, reply: &ModelReply) -> (request: Option<ChatRequest>)
        ensures
            request is Some == spec_retries(self@, reply@),
            request matches Some(made) ==> made@ == spec_retry(self@).1->AskModel_request,
    {
        proof {
            use_type_invariant(self);
        }
        match reply {
            ModelReply::RateLimited => {},
            _ => {
                return None;
            },
        }
        if self.refusals + 1 >= MAX_ATTEMPTS {
            return None;
        }
        match self.phase {
            Phase::ContextBuilding => match context_request(&self.config, &self.repo.key_files) {
                Ok(request) => Some(request),
                Err(_) => None,
            },
            Phase::Narrating => {
                assert(self@.groups.len() == self.groups.len());
                if self.group_index < self.groups.len() {
                    Some(self.narration_for(self.group_index))
                } else {
                    None
                }
            },
            _ => None,
        }
    }

    /// Takes how the request to the language model ended, and gives what to
    /// do next.
    pub fn on_model_reply(&mut self, reply: &ModelReply) -> (action: Action)
        ensures
            final(self)@ == spec_on_model_reply(old(self)@, reply@).0,
            action@ == spec_on_model_reply(old(self)@, reply@).1,
            well_formed(old(self)@),
            well_formed(final(self)@),
    {
        proof {
            use_type_invariant(&*self);
        }
        if let Some(request) = self.retried(reply) {
            let pause: u64 = backoff(self.refusals);
            self.refusals = self.refusals + 1;
            return Action::AskModel { pause_millis: pause, request };
        }
        let action = match self.phase {
            Phase::ContextBuilding => match description_from_reply(reply) {
                Ok(description) => {
                    self.context.description = description;
                    self.begin_ordering()
                },
                Err(_) => self.abort(),
            },
            Phase::FileOrdering => {
                let ordered = order_files_by_development_flow(&self.files, reply);
                self.files = ordered;
                self.enter_file(0)
            },
            Phase::Grouping => match reply {
                ModelReply::Text(content) => {
                    let groups = llm_group_hunks(content.as_str(), self.hunks.len());
                    assert(self@.hunks.len() == self.hunks.len());
                    self.phase = Phase::Complete;
                    self.groups = groups;
                    self.first_chunk()
                },
                _ => self.next_file(),
            },
            Phase::Narrating => match reply {
                ModelReply::Text(content) => {
                    assert(self@.groups.len() == self.groups.len());
                    assert(self@.chunks.len() == self.chunks.len());
                    if self.group_index < self.groups.len() {
                        let chunk = narrated_chunk(
                            self.chunks.len(),
                            self.path.as_str(),
                            &self.groups[self.group_index],
                            content.as_str(),
                        );
                        self.begin_speech(chunk)
                    } else {
                        self.next_chunk()
                    }
                },
                _ => self.next_chunk(),
            },
            _ => Action::Ignored,
        };
        proof {
            use_type_invariant(&*self);
        }
        action
    }

    /// Takes how the request to the speech service ended, and gives what to
    /// do next.
    pub fn on_speech_reply(&mut self, reply: &HttpReply) -> (action: Action)
        ensures
            final(self)@ == spec_on_speech_reply(old(self)@, reply@).0,
            action@ == spec_on_speech_reply(old(self)@, reply@).1,
            well_formed(old(self)@),
            well_formed(final(self)@),
    {
        proof {
            use_type_invariant(&*self);
        }
        if self.phase != Phase::Synthesizing {
            return Action::Ignored;
        }
        let mut taken: Option<DiffChunk> = None;
        core::mem::swap(&mut self.current, &mut taken);
        let action = match taken {
            None => Action::Ignored,
            Some(chunk) => match synthesize_speech_from_text(&self.config, reply) {
                Ok(audio) => {
                    let copy = copy_bytes(&audio);
                    let mut spoken = chunk;
                    spoken.audio_data = Some(audio);
                    spoken.has_audio = true;
                    self.phase = Phase::Measuring;
                    self.current = Some(spoken);
                    Action::Measure { audio: copy }
                },
                Err(_) => {
                    self.store(chunk);
                    self.next_chunk()
                },
            },
        };
        proof {
            use_type_invariant(&*self);
        }
        action
    }

    /// Takes how long the audio plays, in microseconds, or `None` where it
    /// could not be decoded, and gives what to do next.
    pub fn on_measured(&mut self, measured: Option<u64>) -> (action: Action)
        ensures
            final(self)@ == spec_on_measured(old(self)@, measured).0,
            action@ == spec_on_measured(old(self)@, measured).1,
            well_formed(old(self)@),
            well_formed(final(self)@),
    {
        proof {
            use_type_invariant(&*self);
        }
        if self.phase != Phase::Measuring {
            return Action::Ignored;
        }
        let mut taken: Option<DiffChunk> = None;
        core::mem::swap(&mut self.current, &mut taken);
        let action = match taken {
            None => Action::Ignored,
            Some(chunk) => {
                let mut measured_chunk = chunk;
                match measured {
                    Some(played) => {
                        measured_chunk.audio_duration_micros = played;
                    },
                    None => {},
                }
                self.store(measured_chunk);
                self.next_chunk()
            },
        };
        proof {
            use_type_invariant(&*self);
        }
        action
    }

    /// Where the generation stands.
    pub fn phase(&self) -> (phase: Phase)
        ensures
            phase == self@.phase,
    {
        self.phase
    }

    /// Whether nothing more is asked.
    pub fn is_complete(&self) -> (complete: bool)
        ensures
            complete == (self@.phase == Phase::Complete),
    {
        self.phase == Phase::Complete
    }

    /// Whether the chunk store is to be emptied for this generation: it is
    /// from the start on, unless narration is not configured.
    pub fn clears_store(&self) -> (clears: bool)
        ensures
            clears == self@.clears_store,
    {
        self.clears_store
    }

    /// How far the generation has come: a message, and the share of the
    /// whole in thousandths, which is no more than 1000.
    pub fn progress(&self) -> (progress: (String, u32))
        ensures
            progress.0@ == self@.progress.message,
            progress.1 == self@.progress.permille,
            progress.1 <= 1000,
    {
        proof {
            use_type_invariant(self);
        }
        (self.progress_message.clone(), self.progress_permille)
    }

    /// The chunks that are done, in the order in which they were done. They
    /// are numbered 0, 1, 2 and so on in that order.
    pub fn chunks(&self) -> (chunks: Vec<DiffChunk>)
        ensures
            chunk_views(chunks@) == self@.chunks,
            well_formed(self@),
            forall|k: int| 0 <= k < chunks.len() ==> (#[trigger] chunks@[k]).chunk_id == k,
    {
        proof {
            use_type_invariant(self);
        }
        let mut chunks: Vec<DiffChunk> = Vec::new();
        let mut i: usize = 0;
        while i < self.chunks.len()
            invariant
                i <= self.chunks.len(),
                chunk_views(chunks@) == chunk_views(self.chunks@).take(i as int),
            decreases self.chunks.len() - i,
        {
            let chunk = self.chunks[i].duplicate();
            proof {
                assert(chunk_views(chunks@.push(chunk)) == chunk_views(chunks@).push(chunk@));
                assert(chunk_views(self.chunks@).take(i + 1) == chunk_views(self.chunks@).take(
                    i as int,
                ).push(chunk@));
            }
            chunks.push(chunk);
            i += 1;
        }
        proof {
            assert(chunk_views(self.chunks@).take(self.chunks.len() as int) == chunk_views(
                self.chunks@,
            ));
            assert forall|k: int| 0 <= k < chunks.len() implies (#[trigger] chunks@[k]).chunk_id
                == k by {
                assert(chunk_views(chunks@)[k].chunk_id == k);
            }
        }
        chunks
    }
}

/// What came back from outside for what a generation asked.
#[derive(Debug, Clone)]
pub enum Outcome {
    /// How a request to the language model ended.
    Model(ModelReply),
    /// How a request to the speech service ended.
    Speech(HttpReply),
    /// How long the audio plays, in microseconds, where it could be decoded.
    Measured(Option<u64>),
}

/// An `Outcome` as mathematical values.
pub enum OutcomeView {
    Model(ModelReplyView),
    Speech(HttpReplyView),
    Measured(Option<u64>),
}

impl View for Outcome {
    type V = OutcomeView;

    open spec fn view(&self) -> OutcomeView {
        match self {
            Outcome::Model(reply) => OutcomeView::Model(reply@),
            Outcome::Speech(reply) => OutcomeView::Speech(reply@),
            Outcome::Measured(measured) => OutcomeView::Measured(*measured),
        }
    }
}

/// What each of `outcomes` is, as mathematical values.
pub open spec fn outcome_views(outcomes: Seq<Outcome>) -> Seq<OutcomeView> {
    Seq::new(outcomes.len(), |i: int| outcomes[i]@)
}

/// One outcome is taken.
pub open spec fn spec_step(s: GenerationView, outcome: OutcomeView) -> (
    GenerationView,
    ActionView,
) {
    match outcome {
        OutcomeView::Model(reply) => spec_on_model_reply(s, reply),
        OutcomeView::Speech(reply) => spec_on_speech_reply(s, reply),
        OutcomeView::Measured(measured) => spec_on_measured(s, measured),
    }
}

/// The state after `outcomes` were taken one after another.
pub open spec fn spec_run(s: GenerationView, outcomes: Seq<OutcomeView>) -> GenerationView
    decreases outcomes.len(),
{
    if outcomes.len() == 0 {
        s
    } else {
        spec_step(spec_run(s, outcomes.drop_last()), outcomes.last()).0
    }
}

impl Generation {
    /// Takes one outcome, and gives what to do next.
    pub fn step(&mut self, outcome: &Outcome) -> (action: Action)
        ensures
            final(self)@ == spec_step(old(self)@, outcome@).0,
            action@ == spec_step(old(self)@, outcome@).1,
            well_formed(final(self)@),
    {
        match outcome {
            Outcome::Model(reply) => self.on_model_reply(reply),
            Outcome::Speech(reply) => self.on_speech_reply(reply),
            Outcome::Measured(measured) => self.on_measured(*measured),
        }
    }
}

/// Starts the generation of the narration of a commit: the generation, and
/// what to do first. Its progress is to be shown while it runs.
pub fn generate_audio_chunks_with_progress(
    config: VoiceoverConfig,
    message: &str,
    file_changes: &Vec<FileChange>,
    speed_ms: u64,
    repo: RepoSnapshot,
) -> (started: (Generation, Action))
    ensures
        started.0@ == spec_start(
            spec_new(config, message@, file_views(file_changes@), speed_ms, repo@),
        ).0,
        started.1@ == spec_start(
            spec_new(config, message@, file_views(file_changes@), speed_ms, repo@),
        ).1,
        well_formed(started.0@),
{
    let mut generation = Generation::new(config, message, file_changes, speed_ms, repo);
    let action = generation.start();
    (generation, action)
}

/// The chunks of a commit's narration, given everything that came back from
/// outside in the order in which it came: the generation is started and
/// takes `outcomes` one after another. What comes after its completion
/// changes nothing.
pub fn generate_audio_chunks(
    config: VoiceoverConfig,
    message: &str,
    file_changes: &Vec<FileChange>,
    speed_ms: u64,
    repo: RepoSnapshot,
    outcomes: &Vec<Outcome>,
) -> (chunks: Vec<DiffChunk>)
    ensures
        chunk_views(chunks@) == spec_run(
            spec_start(spec_new(config, message@, file_views(file_changes@), speed_ms, repo@)).0,
            outcome_views(outcomes@),
        ).chunks,
        forall|k: int| 0 <= k < chunks.len() ==> (#[trigger] chunks@[k]).chunk_id == k,
{
    let started = generate_audio_chunks_with_progress(
        config,
        message,
        file_changes,
        speed_ms,
        repo,
    );
    let mut generation = started.0;
    let ghost first = generation@;
    let ghost all = outcome_views(outcomes@);
    let mut i: usize = 0;
    while i < outcomes.len()
        invariant
            i <= outcomes.len(),
            all == outcome_views(outcomes@),
            generation@ == spec_run(first, all.take(i as int)),
        decreases outcomes.len() - i,
    {
        proof {
            assert(all.take(i + 1).drop_last() == all.take(i as int));
            assert(all.take(i + 1).last() == outcomes@[i as int]@);
        }
        let _ = generation.step(&outcomes[i]);
        i += 1;
    }
    assert(all.take(outcomes.len() as int) == all);
    generation.chunks()
}

/// Whether `after` may come after `before` in a run of a generation, however
/// many outcomes lie between: the progress has not fallen, the chunks that
/// were done are still there, unchanged and in their places, and no earlier
/// file is gone back to.
pub open spec fn never_falls_back(before: GenerationView, after: GenerationView) -> bool {
    &&& before.progress.permille <= after.progress.permille
    &&& before.chunks.is_prefix_of(after.chunks)
    &&& before.file_index <= after.file_index
    &&& after.files.len() == before.files.len()
}

/// Over a whole run, whatever comes back from outside, the generation keeps
/// what holds of every state; its progress never falls; no chunk that was
/// done is changed or taken away; and no more chunks are done than outcomes
/// were taken. The numbers that a `usize` holds must not all be used up.
pub proof fn lemma_run_never_falls_back(s: GenerationView, outcomes: Seq<OutcomeView>)
    requires
        well_formed(s),
        s.chunks.len() + outcomes.len() < usize::MAX,
    ensures
        well_formed(spec_run(s, outcomes)),
        never_falls_back(s, spec_run(s, outcomes)),
        spec_run(s, outcomes).chunks.len() <= s.chunks.len() + outcomes.len(),
    decreases outcomes.len(),
{
    if outcomes.len() == 0 {
        assert(s.chunks.is_prefix_of(s.chunks));
    } else {
        lemma_run_never_falls_back(s, outcomes.drop_last());
        let mid = spec_run(s, outcomes.drop_last());
        match outcomes.last() {
            OutcomeView::Model(reply) => {
                lemma_generation_advances(mid, reply, HttpReplyView::Failed, None);
            },
            OutcomeView::Speech(reply) => {
                lemma_generation_advances(mid, ModelReplyView::Failed, reply, None);
            },
            OutcomeView::Measured(measured) => {
                lemma_generation_advances(mid, ModelReplyView::Failed, HttpReplyView::Failed, measured);
            },
        }
        let end = spec_run(s, outcomes);
        assert(s.chunks.is_prefix_of(end.chunks)) by {
            assert(s.chunks.is_prefix_of(mid.chunks));
            assert(mid.chunks.is_prefix_of(end.chunks));
            assert(s.chunks =~= end.chunks.subrange(0, s.chunks.len() as int));
        }
    }
}

} // verus!
