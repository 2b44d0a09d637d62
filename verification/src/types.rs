//! The data that narration is made from and made into.

use vstd::prelude::*;

verus! {

/// The text-to-speech service that speaks the narration.
#[derive(Debug, Clone, Copy, PartialEq, Eq, Structural)]
pub enum VoiceoverProvider {
    ElevenLabs,
    Inworld,
}

impl Default for VoiceoverProvider {
    fn default() -> (provider: Self)
        ensures
            provider == VoiceoverProvider::Inworld,
    {
        VoiceoverProvider::Inworld
    }
}

/// How narration is configured for a session.
#[derive(Debug, Clone)]
pub struct VoiceoverConfig {
    /// Whether narration is wanted at all.
    pub enabled: bool,
    /// The service that speaks.
    pub provider: VoiceoverProvider,
    /// The key of the speech service.
    pub api_key: Option<String>,
    /// The voice to speak with: the service's default where `None`.
    pub voice_id: Option<String>,
    /// The speech model: the service's default where `None`.
    pub model_id: Option<String>,
    /// The key of the language model that writes the narration.
    pub openai_api_key: Option<String>,
    /// Whether the language model writes the narration.
    pub use_llm_explanations: bool,
}

impl Default for VoiceoverConfig {
    fn default() -> (config: Self)
        ensures
            !config.enabled,
            config.provider == VoiceoverProvider::Inworld,
            config.api_key is None,
            config.voice_id is None,
            config.model_id is None,
            config.openai_api_key is None,
            !config.use_llm_explanations,
    {
        VoiceoverConfig {
            enabled: false,
            provider: VoiceoverProvider::Inworld,
            api_key: None,
            voice_id: None,
            model_id: None,
            openai_api_key: None,
            use_llm_explanations: false,
        }
    }
}

/// A copy of `text`.
pub fn copy_text(text: &Option<String>) -> (copy: Option<String>)
    ensures
        copy == *text,
{
    match text {
        Some(held) => Some(held.clone()),
        None => None,
    }
}

impl VoiceoverConfig {
    /// A copy of this configuration.
    pub fn duplicate(&self) -> (copy: Self)
        ensures
            copy == *self,
    {
        VoiceoverConfig {
            enabled: self.enabled,
            provider: self.provider,
            api_key: copy_text(&self.api_key),
            voice_id: copy_text(&self.voice_id),
            model_id: copy_text(&self.model_id),
            openai_api_key: copy_text(&self.openai_api_key),
            use_llm_explanations: self.use_llm_explanations,
        }
    }
}

/// What the language model is told about the repository.
#[derive(Debug, Clone)]
pub struct ProjectContext {
    pub repo_name: String,
    /// Empty until the language model has described the repository.
    pub description: String,
}

/// A `ProjectContext` as mathematical values.
pub struct ProjectContextView {
    pub repo_name: Seq<char>,
    pub description: Seq<char>,
}

impl View for ProjectContext {
    type V = ProjectContextView;

    open spec fn view(&self) -> ProjectContextView {
        ProjectContextView { repo_name: self.repo_name@, description: self.description@ }
    }
}

/// How a file was changed by a commit.
#[derive(Debug, Clone, Copy, PartialEq, Eq, Structural)]
pub enum FileStatus {
    Added,
    Deleted,
    Modified,
    Renamed,
    Copied,
    Unmodified,
}

/// One file that a commit changed.
#[derive(Debug, Clone)]
pub struct FileChange {
    pub path: String,
    /// The change as unified diff text.
    pub diff: String,
    pub status: FileStatus,
}

/// A `FileChange` as mathematical values.
pub struct FileChangeView {
    pub path: Seq<char>,
    pub diff: Seq<char>,
    pub status: FileStatus,
}

impl View for FileChange {
    type V = FileChangeView;

    open spec fn view(&self) -> FileChangeView {
        FileChangeView { path: self.path@, diff: self.diff@, status: self.status }
    }
}

impl FileChange {
    /// A copy of this file.
    pub fn duplicate(&self) -> (copy: Self)
        ensures
            copy@ == self@,
    {
        FileChange { path: self.path.clone(), diff: self.diff.clone(), status: self.status }
    }
}

/// What each of `files` is, as mathematical values.
pub open spec fn file_views(files: Seq<FileChange>) -> Seq<FileChangeView> {
    Seq::new(files.len(), |i: int| files[i]@)
}

/// The narration of one part of a file's diff.
#[derive(Debug, Clone)]
pub struct DiffChunk {
    /// Unique within a session.
    pub chunk_id: usize,
    pub file_path: String,
    /// The hunks of the file's diff that this chunk covers, counted from 0.
    pub hunk_indices: Vec<usize>,
    /// The narration.
    pub explanation: String,
    /// The narration as encoded audio, once it has been spoken.
    pub audio_data: Option<Vec<u8>>,
    /// Whether `audio_data` is there.
    pub has_audio: bool,
    /// How long the audio plays, in microseconds: measured where the audio
    /// could be decoded, else estimated from the narration's words.
    pub audio_duration_micros: u64,
}

/// A `DiffChunk` as mathematical values.
pub struct DiffChunkView {
    pub chunk_id: usize,
    pub file_path: Seq<char>,
    pub hunk_indices: Seq<usize>,
    pub explanation: Seq<char>,
    pub audio_data: Option<Seq<u8>>,
    pub has_audio: bool,
    pub audio_duration_micros: u64,
}

/// The bytes of `data`, where there are any.
pub open spec fn bytes_view(data: Option<Vec<u8>>) -> Option<Seq<u8>> {
    match data {
        Some(bytes) => Some(bytes@),
        None => None,
    }
}

impl View for DiffChunk {
    type V = DiffChunkView;

    open spec fn view(&self) -> DiffChunkView {
        DiffChunkView {
            chunk_id: self.chunk_id,
            file_path: self.file_path@,
            hunk_indices: self.hunk_indices@,
            explanation: self.explanation@,
            audio_data: bytes_view(self.audio_data),
            has_audio: self.has_audio,
            audio_duration_micros: self.audio_duration_micros,
        }
    }
}

/// A copy of `bytes`.
pub fn copy_bytes(bytes: &Vec<u8>) -> (copy: Vec<u8>)
    ensures
        copy@ == bytes@,
{
    let mut copy: Vec<u8> = Vec::new();
    let mut i: usize = 0;
    while i < bytes.len()
        invariant
            i <= bytes.len(),
            copy@ == bytes@.take(i as int),
        decreases bytes.len() - i,
    {
        copy.push(bytes[i]);
        i += 1;
    }
    assert(bytes@.take(bytes.len() as int) == bytes@);
    copy
}

/// A copy of `indices`.
pub fn copy_indices(indices: &Vec<usize>) -> (copy: Vec<usize>)
    ensures
        copy@ == indices@,
{
    let mut copy: Vec<usize> = Vec::new();
    let mut i: usize = 0;
    while i < indices.len()
        invariant
            i <= indices.len(),
            copy@ == indices@.take(i as int),
        decreases indices.len() - i,
    {
        copy.push(indices[i]);
        i += 1;
    }
    assert(indices@.take(indices.len() as int) == indices@);
    copy
}

impl DiffChunk {
    /// A copy of this chunk.
    pub fn duplicate(&self) -> (copy: Self)
        ensures
            copy@ == self@,
    {
        let audio_data = match &self.audio_data {
            Some(bytes) => Some(copy_bytes(bytes)),
            None => None,
        };
        DiffChunk {
            chunk_id: self.chunk_id,
            file_path: self.file_path.clone(),
            hunk_indices: copy_indices(&self.hunk_indices),
            explanation: self.explanation.clone(),
            audio_data,
            has_audio: self.has_audio,
            audio_duration_micros: self.audio_duration_micros,
        }
    }
}

/// What each of `chunks` is, as mathematical values.
pub open spec fn chunk_views(chunks: Seq<DiffChunk>) -> Seq<DiffChunkView> {
    Seq::new(chunks.len(), |i: int| chunks[i]@)
}

/// The event at which a queued narration segment is to play.
#[derive(Debug, Clone)]
pub enum VoiceoverTrigger {
    /// The file of this path is opened.
    FileOpen(String),
}

impl VoiceoverTrigger {
    /// The path of the file whose opening this trigger stands for.
    pub open spec fn path(&self) -> Seq<char> {
        match self {
            VoiceoverTrigger::FileOpen(path) => path@,
        }
    }
}

impl PartialEq for VoiceoverTrigger {
    fn eq(&self, other: &Self) -> (equal: bool) {
        match (self, other) {
            (VoiceoverTrigger::FileOpen(a), VoiceoverTrigger::FileOpen(b)) => *a == *b,
        }
    }
}

impl vstd::std_specs::cmp::PartialEqSpecImpl for VoiceoverTrigger {
    open spec fn obeys_eq_spec() -> bool {
        true
    }

    open spec fn eq_spec(&self, other: &Self) -> bool {
        self.path() == other.path()
    }
}

/// A narration that waits in the queue for its trigger.
#[derive(Debug, Clone)]
pub struct VoiceoverSegment {
    pub audio_data: Option<Vec<u8>>,
    pub trigger_type: VoiceoverTrigger,
}

} // verus!
