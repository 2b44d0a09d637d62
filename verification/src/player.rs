//! The player: which audio a trigger hands to the output, and when a chunk
//! that was started counts as finished. The player holds no device and runs
//! no clock: the output device is probed by the caller, and the time is
//! handed in.

use crate::store::{is_for_file, spec_get, spec_insert_all, ChunkStore};
use crate::types::{
    bytes_view, chunk_views, copy_bytes, DiffChunk, DiffChunkView, VoiceoverConfig,
    VoiceoverSegment, VoiceoverTrigger,
};
use std::collections::VecDeque;
use vstd::prelude::*;

verus! {

/// Whether the output device could be opened.
#[derive(Debug, Clone, Copy, PartialEq, Eq, Structural)]
pub enum OutputDevice {
    /// The output stream and its sink are there.
    Ready,
    /// No output stream could be opened.
    NoStream,
    /// The output stream gave no sink.
    NoSink,
}

/// Why there is no player.
#[derive(Debug, Clone, Copy, PartialEq, Eq, Structural)]
pub enum AudioError {
    /// No output stream could be opened.
    NoOutputStream,
    /// The output stream gave no sink.
    NoSink,
}

/// Audio to append to what the output plays.
#[derive(Debug, Clone)]
pub struct Playback {
    /// The encoded audio.
    pub audio: Vec<u8>,
    /// How long the audio plays, in milliseconds.
    pub wait_millis: u64,
}

/// A chunk that was started, and the time from which it counts as finished.
#[derive(Debug, Clone, Copy)]
pub struct Pending {
    pub chunk_id: usize,
    pub due_millis: u64,
}

/// A queued segment as mathematical values.
pub struct SegmentView {
    pub audio_data: Option<Seq<u8>>,
    pub path: Seq<char>,
}

/// What each of `segments` is, as mathematical values.
pub open spec fn segment_views(segments: Seq<VoiceoverSegment>) -> Seq<SegmentView> {
    Seq::new(
        segments.len(),
        |i: int|
            SegmentView {
                audio_data: bytes_view(segments[i].audio_data),
                path: segments[i].trigger_type.path(),
            },
    )
}

/// The state of a player as mathematical values.
pub struct AudioPlayerView {
    /// The configuration that the player was made with.
    pub config: VoiceoverConfig,
    /// Whether there is an output to play on.
    pub has_sink: bool,
    /// Whether the output is paused.
    pub paused: bool,
    /// The queued segments, the oldest first.
    pub segments: Seq<SegmentView>,
    /// The chunks in the store, each under its number.
    pub chunks: Map<usize, DiffChunkView>,
    /// The chunks that were started and not yet reported as finished, in the
    /// order in which they were started.
    pub pending: Seq<Pending>,
}

/// The time from which audio that starts at `now_millis` and plays
/// `wait_millis` counts as finished: the largest `u64` where the sum is
/// larger.
pub open spec fn spec_due(now_millis: u64, wait_millis: u64) -> u64 {
    if now_millis + wait_millis > u64::MAX {
        u64::MAX
    } else {
        (now_millis + wait_millis) as u64
    }
}

/// How long the audio of `chunk` plays, in whole milliseconds.
pub open spec fn spec_wait_millis(chunk: DiffChunkView) -> u64 {
    chunk.audio_duration_micros / 1000
}

/// The audio that a trigger of the chunk `chunk_id` hands to the output:
/// that of the chunk, where narration is enabled, there is an output, and
/// the store holds the chunk with audio.
pub open spec fn spec_trigger_chunk(player: AudioPlayerView, chunk_id: usize) -> Option<
    (Seq<u8>, u64),
> {
    if !player.config.enabled || !player.has_sink {
        None
    } else {
        match spec_get(player.chunks, chunk_id) {
            Some(chunk) => match chunk.audio_data {
                Some(audio) => Some((audio, spec_wait_millis(chunk))),
                None => None,
            },
            None => None,
        }
    }
}

/// `done` with `entry` put in by the time from which it counts as finished:
/// behind every entry that counts as finished no later than it.
pub open spec fn placed_by_due(done: Seq<Pending>, entry: Pending) -> Seq<Pending>
    decreases done.len(),
{
    if done.len() == 0 || done.last().due_millis <= entry.due_millis {
        done.push(entry)
    } else {
        placed_by_due(done.drop_last(), entry).push(done.last())
    }
}

/// What of `pending` counts as finished at `now_millis`, in the order in
/// which it came to count as finished: the earlier first, and of two that
/// came to at the same time the one that was started first.
pub open spec fn due_in_order(pending: Seq<Pending>, now_millis: u64) -> Seq<Pending>
    decreases pending.len(),
{
    if pending.len() == 0 {
        Seq::empty()
    } else {
        let before = due_in_order(pending.drop_last(), now_millis);
        if pending.last().due_millis <= now_millis {
            placed_by_due(before, pending.last())
        } else {
            before
        }
    }
}

/// The chunks of `entries`, in order.
pub open spec fn ids_of(entries: Seq<Pending>) -> Seq<usize> {
    Seq::new(entries.len(), |i: int| entries[i].chunk_id)
}

/// The chunks among `pending` that count as finished at `now_millis`, in
/// the order in which they finished.
pub open spec fn finished_at(pending: Seq<Pending>, now_millis: u64) -> Seq<usize> {
    ids_of(due_in_order(pending, now_millis))
}

/// Whether `entries` stand in the order in which they count as finished.
pub open spec fn is_in_due_order(entries: Seq<Pending>) -> bool {
    forall|i: int, j: int|
        0 <= i < j < entries.len() ==> (#[trigger] entries[i]).due_millis <= (
        #[trigger] entries[j]).due_millis
}

/// Putting an entry in by its time is putting it in at the place behind
/// the last entry that is due no later.
proof fn lemma_placed_at(done: Seq<Pending>, entry: Pending, at: int)
    requires
        0 <= at <= done.len(),
        forall|j: int| at <= j < done.len() ==> (#[trigger] done[j]).due_millis > entry.due_millis,
        at == 0 || done[at - 1].due_millis <= entry.due_millis,
    ensures
        placed_by_due(done, entry) == done.insert(at, entry),
    decreases done.len(),
{
    if at == done.len() {
        assert(done.insert(at, entry) == done.push(entry));
    } else {
        assert(done.last().due_millis > entry.due_millis);
        lemma_placed_at(done.drop_last(), entry, at);
        assert(done.drop_last().insert(at, entry).push(done.last()) == done.insert(at, entry));
    }
}

/// An entry that is put in by its time keeps the order, adds itself and
/// takes nothing away.
pub proof fn lemma_placed_by_due(done: Seq<Pending>, entry: Pending)
    requires
        is_in_due_order(done),
    ensures
        is_in_due_order(placed_by_due(done, entry)),
        placed_by_due(done, entry).len() == done.len() + 1,
        placed_by_due(done, entry).to_multiset() == done.to_multiset().insert(entry),
        (forall|j: int| 0 <= j < done.len() ==> (#[trigger] done[j]).due_millis <= entry.due_millis)
            ==> placed_by_due(done, entry) == done.push(entry),
    decreases done.len(),
{
    broadcast use vstd::seq_lib::group_to_multiset_ensures;

    if done.len() == 0 || done.last().due_millis <= entry.due_millis {
        let after = done.push(entry);
        assert forall|i: int, j: int| 0 <= i < j < after.len() implies (#[trigger] after[i]).due_millis
            <= (#[trigger] after[j]).due_millis by {
            if j == done.len() {
                assert(after[i] == done[i]);
                if i < done.len() - 1 {
                    assert(done[i].due_millis <= done[done.len() - 1].due_millis);
                }
            } else {
                assert(after[i] == done[i] && after[j] == done[j]);
            }
        }
    } else {
        let shorter = done.drop_last();
        assert forall|i: int, j: int| 0 <= i < j < shorter.len() implies (
        #[trigger] shorter[i]).due_millis <= (#[trigger] shorter[j]).due_millis by {
            assert(shorter[i] == done[i] && shorter[j] == done[j]);
        }
        lemma_placed_by_due(shorter, entry);
        let placed = placed_by_due(shorter, entry);
        let after = placed.push(done.last());
        assert(done == shorter.push(done.last()));
        assert forall|k: int| 0 <= k < placed.len() implies (#[trigger] placed[k]).due_millis
            <= done.last().due_millis by {
            assert(placed.to_multiset().count(placed[k]) > 0);
            if placed[k] != entry {
                assert(shorter.to_multiset().count(placed[k]) > 0);
                assert(shorter.contains(placed[k]));
                let at = choose|at: int| 0 <= at < shorter.len() && shorter[at] == placed[k];
                assert(done[at].due_millis <= done[done.len() - 1].due_millis);
            }
        }
        assert forall|i: int, j: int| 0 <= i < j < after.len() implies (#[trigger] after[i]).due_millis
            <= (#[trigger] after[j]).due_millis by {
            if j == placed.len() {
                assert(after[i] == placed[i]);
            } else {
                assert(after[i] == placed[i] && after[j] == placed[j]);
            }
        }
        assert(done.to_multiset() == shorter.to_multiset().insert(done.last()));
        assert(after.to_multiset() =~= done.to_multiset().insert(entry));
    }
}

/// What is reported as finished stands in the order in which it finished, and
/// all of it counts as finished at the time of the report.
pub proof fn lemma_due_in_order(pending: Seq<Pending>, now_millis: u64)
    ensures
        is_in_due_order(due_in_order(pending, now_millis)),
        forall|i: int|
            0 <= i < due_in_order(pending, now_millis).len() ==> (#[trigger] due_in_order(
                pending,
                now_millis,
            )[i]).due_millis <= now_millis,
        due_in_order(pending, now_millis).to_multiset() == pending.filter(
            |p: Pending| p.due_millis <= now_millis,
        ).to_multiset(),
    decreases pending.len(),
{
    broadcast use vstd::seq_lib::group_to_multiset_ensures;

    reveal(Seq::filter);
    if pending.len() > 0 {
        lemma_due_in_order(pending.drop_last(), now_millis);
        let before = due_in_order(pending.drop_last(), now_millis);
        if pending.last().due_millis <= now_millis {
            lemma_placed_by_due(before, pending.last());
            let after = placed_by_due(before, pending.last());
            assert forall|i: int| 0 <= i < after.len() implies (#[trigger] after[i]).due_millis
                <= now_millis by {
                assert(after.to_multiset().count(after[i]) > 0);
                if after[i] != pending.last() {
                    assert(before.to_multiset().count(after[i]) > 0);
                    assert(before.contains(after[i]));
                    let at = choose|at: int| 0 <= at < before.len() && before[at] == after[i];
                    assert(before[at].due_millis <= now_millis);
                }
            }
        }
    }
}

/// What of `pending` is still to finish at `now_millis`.
pub open spec fn waiting_at(pending: Seq<Pending>, now_millis: u64) -> Seq<Pending> {
    pending.filter(|p: Pending| p.due_millis > now_millis)
}

/// The position of the first of `segments` that waits for the opening of
/// `path`.
pub open spec fn is_first_match(segments: Seq<SegmentView>, path: Seq<char>, at: int) -> bool {
    &&& 0 <= at < segments.len()
    &&& segments[at].path == path
    &&& forall|j: int| 0 <= j < at ==> segments[j].path != path
}

/// Whether one of `segments` waits for the opening of `path`.
pub open spec fn has_match(segments: Seq<SegmentView>, path: Seq<char>) -> bool {
    exists|at: int| 0 <= at < segments.len() && segments[at].path == path
}

/// A chunk that is started is reported as finished from the time on at which
/// its audio has played, and not before: adding it to the pending ones
/// changes what is reported at a time only from then on, and then it is
/// reported behind every chunk that finished no later.
pub proof fn lemma_finished_only_when_due(
    pending: Seq<Pending>,
    chunk_id: usize,
    started_millis: u64,
    wait_millis: u64,
    now_millis: u64,
)
    ensures
        now_millis < spec_due(started_millis, wait_millis) ==> finished_at(
            pending.push(Pending { chunk_id, due_millis: spec_due(started_millis, wait_millis) }),
            now_millis,
        ) == finished_at(pending, now_millis),
        now_millis >= spec_due(started_millis, wait_millis) ==> finished_at(
            pending.push(Pending { chunk_id, due_millis: spec_due(started_millis, wait_millis) }),
            now_millis,
        ) == ids_of(
            placed_by_due(
                due_in_order(pending, now_millis),
                Pending { chunk_id, due_millis: spec_due(started_millis, wait_millis) },
            ),
        ),
        started_millis + wait_millis <= u64::MAX ==> spec_due(started_millis, wait_millis)
            == started_millis + wait_millis,
{
    let entry = Pending { chunk_id, due_millis: spec_due(started_millis, wait_millis) };
    assert(pending.push(entry).drop_last() == pending);
}

/// Whether `chunk` is spoken to its end, given the chunks that were reported
/// as finished: a chunk without audio is at once, since nothing plays.
pub fn chunk_is_done(chunk: &DiffChunk, finished: &Vec<usize>) -> (done: bool)
    ensures
        done == (!chunk.has_audio || finished@.contains(chunk.chunk_id)),
{
    if !chunk.has_audio {
        return true;
    }
    let mut i: usize = 0;
    while i < finished.len()
        invariant
            i <= finished.len(),
            forall|j: int| 0 <= j < i ==> finished@[j] != chunk.chunk_id,
        decreases finished.len() - i,
    {
        if finished[i] == chunk.chunk_id {
            return true;
        }
        i += 1;
    }
    false
}

/// Puts `entry` into `done` by the time from which it counts as finished.
fn place_by_due(done: &mut Vec<Pending>, entry: Pending)
    ensures
        final(done)@ == placed_by_due(old(done)@, entry),
{
    let mut at: usize = done.len();
    while at > 0 && done[at - 1].due_millis > entry.due_millis
        invariant
            at <= done.len(),
            done@ == old(done)@,
            forall|j: int| at <= j < done.len() ==> (#[trigger] done@[j]).due_millis > entry.due_millis,
        decreases at,
    {
        at -= 1;
    }
    proof {
        lemma_placed_at(done@, entry, at as int);
    }
    done.insert(at, entry);
}

/// The player of a session.
pub struct AudioPlayer {
    config: VoiceoverConfig,
    has_sink: bool,
    paused: bool,
    segment_queue: VecDeque<VoiceoverSegment>,
    chunks: ChunkStore,
    pending: Vec<Pending>,
}

impl View for AudioPlayer {
    type V = AudioPlayerView;

    closed spec fn view(&self) -> AudioPlayerView {
        AudioPlayerView {
            config: self.config,
            has_sink: self.has_sink,
            paused: self.paused,
            segments: segment_views(self.segment_queue@),
            chunks: self.chunks.entries(),
            pending: self.pending@,
        }
    }
}

impl AudioPlayer {
    /// Whether a player for `config` plays on an output device, which the
    /// caller then has to open.
    pub fn needs_output(config: &VoiceoverConfig) -> (needed: bool)
        ensures
            needed == config.enabled,
    {
        config.enabled
    }

    /// A player for `config`. Where narration is disabled the player has no
    /// output and `device` is not looked at. Where it is enabled, the output
    /// must be there.
    pub fn new(config: VoiceoverConfig, device: OutputDevice) -> (made: Result<Self, AudioError>)
        ensures
            match made {
                Ok(player) => {
                    &&& !config.enabled || device == OutputDevice::Ready
                    &&& player@ == (AudioPlayerView {
                        config,
                        has_sink: config.enabled,
                        paused: false,
                        segments: Seq::empty(),
                        chunks: Map::empty(),
                        pending: Seq::empty(),
                    })
                },
                Err(error) => config.enabled && match device {
                    OutputDevice::Ready => false,
                    OutputDevice::NoStream => error == AudioError::NoOutputStream,
                    OutputDevice::NoSink => error == AudioError::NoSink,
                },
            },
    {
        let has_sink: bool = config.enabled;
        if config.enabled {
            match device {
                OutputDevice::Ready => {},
                OutputDevice::NoStream => {
                    return Err(AudioError::NoOutputStream);
                },
                OutputDevice::NoSink => {
                    return Err(AudioError::NoSink);
                },
            }
        }
        let player = AudioPlayer {
            config,
            has_sink,
            paused: false,
            segment_queue: VecDeque::new(),
            chunks: ChunkStore::new(),
            pending: Vec::new(),
        };
        assert(player@.segments =~= Seq::empty());
        Ok(player)
    }

    /// The configuration that the player was made with.
    pub fn voiceover_config(&self) -> (config: &VoiceoverConfig)
        ensures
            *config == self@.config,
    {
        &self.config
    }

    /// The chunk store.
    pub fn chunks_handle(&self) -> (store: &ChunkStore)
        ensures
            store.entries() == self@.chunks,
    {
        &self.chunks
    }

    /// Replaces the chunks in the store by `chunks`.
    pub fn replace_chunks(&mut self, chunks: &Vec<DiffChunk>)
        ensures
            final(self)@ == (AudioPlayerView {
                chunks: spec_insert_all(Map::empty(), chunk_views(chunks@)),
                ..old(self)@
            }),
    {
        self.chunks.clear();
        self.chunks.insert_all(chunks);
    }

    /// Takes every chunk out of the store.
    pub fn clear_chunks(&mut self)
        ensures
            final(self)@ == (AudioPlayerView { chunks: Map::empty(), ..old(self)@ }),
    {
        self.chunks.clear();
    }

    /// The chunks that narrate the file `file_path`, in the order in which
    /// the store is walked.
    pub fn get_chunks_for_file(&self, file_path: &str) -> (found: Vec<DiffChunk>)
        ensures
            is_for_file(self@.chunks, file_path@, chunk_views(found@)),
    {
        self.chunks.get_for_file(file_path)
    }

    /// The audio to append to the output when the chunk `chunk_id` is
    /// triggered, and how long it plays. Nothing is to be played where
    /// narration is disabled, there is no output, or the store holds no such
    /// chunk with audio. The audio is appended to what plays already; it
    /// interrupts nothing.
    pub fn trigger_chunk(&self, chunk_id: usize) -> (playback: Option<Playback>)
        ensures
            match playback {
                Some(play) => spec_trigger_chunk(self@, chunk_id) == Some(
                    (play.audio@, play.wait_millis),
                ),
                None => spec_trigger_chunk(self@, chunk_id) is None,
            },
    {
        if !self.config.enabled || !self.has_sink {
            return None;
        }
        match self.chunks.get(chunk_id) {
            Some(chunk) => match &chunk.audio_data {
                Some(audio) => Some(
                    Playback {
                        audio: copy_bytes(audio),
                        wait_millis: chunk.audio_duration_micros / 1000,
                    },
                ),
                None => None,
            },
            None => None,
        }
    }

    /// Records that the output began to play the audio of the chunk
    /// `chunk_id` at `now_millis`. The chunk counts as finished once its
    /// audio has played. Nothing is recorded for a chunk that a trigger
    /// would not play.
    pub fn playback_started(&mut self, chunk_id: usize, now_millis: u64)
        ensures
            final(self)@ == (AudioPlayerView {
                pending: match spec_trigger_chunk(old(self)@, chunk_id) {
                    Some(play) => old(self)@.pending.push(
                        Pending { chunk_id, due_millis: spec_due(now_millis, play.1) },
                    ),
                    None => old(self)@.pending,
                },
                ..old(self)@
            }),
    {
        match self.trigger_chunk(chunk_id) {
            Some(play) => {
                let due_millis: u64 = now_millis.saturating_add(play.wait_millis);
                self.pending.push(Pending { chunk_id, due_millis });
            },
            None => {},
        }
    }

    /// The chunks that have finished by `now_millis` and were not reported
    /// before, in the order in which they finished: each chunk finishes when
    /// its own audio has played, whichever was started first. It never
    /// waits.
    pub fn poll_finished_chunks(&mut self, now_millis: u64) -> (finished: Vec<usize>)
        ensures
            finished@ == finished_at(old(self)@.pending, now_millis),
            final(self)@ == (AudioPlayerView {
                pending: waiting_at(old(self)@.pending, now_millis),
                ..old(self)@
            }),
    {
        let ghost all = self.pending@;
        let mut done: Vec<Pending> = Vec::new();
        let mut waiting: Vec<Pending> = Vec::new();
        let mut i: usize = 0;
        proof {
            reveal(Seq::filter);
            assert(all.take(0) == Seq::<Pending>::empty());
        }
        while i < self.pending.len()
            invariant
                i <= self.pending.len(),
                all == self.pending@,
                done@ == due_in_order(all.take(i as int), now_millis),
                waiting@ == waiting_at(all.take(i as int), now_millis),
            decreases self.pending.len() - i,
        {
            proof {
                reveal(Seq::filter);
                assert(all.take(i + 1).drop_last() == all.take(i as int));
                assert(all.take(i + 1).last() == all[i as int]);
            }
            let entry: Pending = self.pending[i];
            if entry.due_millis <= now_millis {
                place_by_due(&mut done, entry);
            } else {
                waiting.push(entry);
            }
            i += 1;
        }
        assert(all.take(self.pending.len() as int) == all);
        self.pending = waiting;
        let mut finished: Vec<usize> = Vec::new();
        let mut k: usize = 0;
        while k < done.len()
            invariant
                k <= done.len(),
                finished@ == ids_of(done@).take(k as int),
            decreases done.len() - k,
        {
            finished.push(done[k].chunk_id);
            assert(ids_of(done@).take(k + 1) == ids_of(done@).take(k as int).push(
                done@[k as int].chunk_id,
            ));
            k += 1;
        }
        assert(ids_of(done@).take(done.len() as int) == ids_of(done@));
        finished
    }

    /// Puts `segment` at the end of the queue of segments.
    pub fn queue_segment(&mut self, segment: VoiceoverSegment)
        ensures
            final(self)@ == (AudioPlayerView {
                segments: old(self)@.segments.push(
                    SegmentView {
                        audio_data: bytes_view(segment.audio_data),
                        path: segment.trigger_type.path(),
                    },
                ),
                ..old(self)@
            }),
    {
        let ghost before = self.segment_queue@;
        self.segment_queue.push_back(segment);
        assert(segment_views(before.push(segment)) == segment_views(before).push(
            SegmentView {
                audio_data: bytes_view(segment.audio_data),
                path: segment.trigger_type.path(),
            },
        ));
    }

    /// Takes the oldest segment that waits for `trigger_type` out of the
    /// queue and gives its audio to append to the output, where it has any.
    /// Where narration is disabled or there is no output, the queue stays
    /// as it is.
    pub fn trigger_voiceover(&mut self, trigger_type: &VoiceoverTrigger) -> (audio: Option<Vec<u8>>)
        ensures
            !old(self)@.config.enabled || !old(self)@.has_sink || !has_match(
                old(self)@.segments,
                trigger_type.path(),
            ) ==> audio is None && final(self)@ == old(self)@,
            old(self)@.config.enabled && old(self)@.has_sink && has_match(
                old(self)@.segments,
                trigger_type.path(),
            ) ==> exists|at: int|
                {
                    &&& is_first_match(old(self)@.segments, trigger_type.path(), at)
                    &&& bytes_view(audio) == old(self)@.segments[at].audio_data
                    &&& final(self)@ == (AudioPlayerView {
                        segments: old(self)@.segments.remove(at),
                        ..old(self)@
                    })
                },
    {
        if !self.config.enabled || !self.has_sink {
            return None;
        }
        let ghost before = segment_views(self.segment_queue@);
        let mut i: usize = 0;
        while i < self.segment_queue.len()
            invariant
                i <= self.segment_queue.len(),
                before == segment_views(self.segment_queue@),
                self@ == old(self)@,
                self@.config.enabled,
                self@.has_sink,
                forall|j: int| 0 <= j < i ==> before[j].path != trigger_type.path(),
            decreases self.segment_queue.len() - i,
        {
            if self.segment_queue[i].trigger_type == *trigger_type {
                assert(before[i as int].path == trigger_type.path());
                assert(is_first_match(before, trigger_type.path(), i as int));
                assert(has_match(before, trigger_type.path()));
                let ghost held = self.segment_queue@;
                let taken = self.segment_queue.remove(i);
                assert(segment_views(held.remove(i as int)) == before.remove(i as int));
                return match taken {
                    Some(segment) => segment.audio_data,
                    None => None,
                };
            }
            i += 1;
        }
        None
    }

    /// Pauses the output. What is queued stays queued, and playing resumes
    /// where it stopped. Gives whether there is an output to pause.
    pub fn pause(&mut self) -> (acted: bool)
        ensures
            acted == old(self)@.has_sink,
            final(self)@ == (AudioPlayerView {
                paused: old(self)@.has_sink || old(self)@.paused,
                ..old(self)@
            }),
    {
        if self.has_sink {
            self.paused = true;
        }
        self.has_sink
    }

    /// Resumes the output where it was paused. Gives whether there is an
    /// output to resume.
    pub fn resume(&mut self) -> (acted: bool)
        ensures
            acted == old(self)@.has_sink,
            final(self)@ == (AudioPlayerView {
                paused: !old(self)@.has_sink && old(self)@.paused,
                ..old(self)@
            }),
    {
        if self.has_sink {
            self.paused = false;
        }
        self.has_sink
    }

    /// Stops the output: nothing that was started is waited for any more.
    /// Gives whether there is an output to stop.
    pub fn stop(&mut self) -> (acted: bool)
        ensures
            acted == old(self)@.has_sink,
            final(self)@ == (AudioPlayerView {
                pending: if old(self)@.has_sink {
                    Seq::empty()
                } else {
                    old(self)@.pending
                },
                ..old(self)@
            }),
    {
        if self.has_sink {
            self.pending = Vec::new();
        }
        self.has_sink
    }

    /// Whether a chunk that was started is still to finish at `now_millis`.
    pub fn is_playing(&self, now_millis: u64) -> (playing: bool)
        ensures
            playing == (self@.has_sink && exists|i: int|
                0 <= i < self@.pending.len() && self@.pending[i].due_millis > now_millis),
    {
        if !self.has_sink {
            return false;
        }
        let mut i: usize = 0;
        while i < self.pending.len()
            invariant
                i <= self.pending.len(),
                self.has_sink,
                forall|j: int| 0 <= j < i ==> self.pending@[j].due_millis <= now_millis,
            decreases self.pending.len() - i,
        {
            if self.pending[i].due_millis > now_millis {
                assert(self@.pending[i as int].due_millis > now_millis);
                return true;
            }
            i += 1;
        }
        false
    }
}

} // verus!
