//! The controls of a replay: what a key does in each state of the screen,
//! how the screen goes from one state to the next as time passes, and
//! which commits were played. The engine that types, the repository and the
//! terminal are the caller's; the decisions are made here.

use crate::cli::PlaybackOrder;
use crate::player::chunk_is_done;
use crate::types::{chunk_views, DiffChunk, DiffChunkView};
use vstd::prelude::*;

verus! {

/// What the screen shows.
#[derive(Debug, Clone, Copy, PartialEq, Eq, Structural)]
pub enum UiState {
    /// A commit is typed.
    Playing,
    /// The commit is typed to its end: the next one starts at the time
    /// given, in milliseconds.
    WaitingForNext { resume_at_millis: u64 },
    /// The narration of a commit is generated, and the commit waits.
    GeneratingAudio,
    Menu,
    KeyBindings,
    About,
    /// The replay is over.
    Finished,
}

/// Whether the user lets the replay run.
#[derive(Debug, Clone, Copy, PartialEq, Eq, Structural)]
pub enum PlaybackState {
    Playing,
    Paused,
}

/// A key that was pressed.
#[derive(Debug, Clone, Copy, PartialEq, Eq, Structural)]
pub enum Key {
    Esc,
    Enter,
    Up,
    Down,
    /// A character, with or without modifiers, but for `c` with control.
    Char(char),
    /// `c` with control.
    CtrlC,
    Other,
}

/// How far a manual step goes.
#[derive(Debug, Clone, Copy, PartialEq, Eq, Structural)]
pub enum StepMode {
    Line,
    Change,
}

/// How a commit starts to play.
#[derive(Debug, Clone, Copy, PartialEq, Eq, Structural)]
pub enum CommitStart {
    /// Generate the narration in the background; the commit is typed once
    /// that is finished.
    GenerateAudio,
    /// Load the commit into the engine, paused or running.
    Animate { paused: bool },
}

/// What the caller is to do after a key.
#[derive(Debug, Clone, Copy, PartialEq, Eq, Structural)]
pub enum UiCommand {
    Nothing,
    /// Pause the engine.
    Pause,
    /// Let the engine run.
    Resume,
    /// Step forward by hand, after pausing the engine where `pause_first`.
    Step { pause_first: bool, mode: StepMode },
    /// Step back to the last checkpoint, after pausing the engine where
    /// `pause_first`.
    StepBack { pause_first: bool, mode: StepMode },
    /// Play the commit at the place `index` of the history.
    PlayStored { index: usize, start: CommitStart },
    /// Go on to the next commit.
    Advance,
    /// Leave the generation behind: its result is not looked at.
    Abandon,
}

/// What the caller is to do after a tick.
#[derive(Debug, Clone, Copy, PartialEq, Eq, Structural)]
pub enum TickCommand {
    Nothing,
    /// Go on to the next commit.
    Advance,
    /// The narration is there: type the commit that waited.
    Animate { paused: bool },
    /// Leave the loop.
    Exit,
}

/// Where the next commit comes from.
#[derive(Debug, Clone, Copy, PartialEq, Eq, Structural)]
pub enum AdvancePlan {
    /// There is none: the replay is over.
    Finish,
    /// The changes of the working tree.
    FetchWorkingTree,
    /// The repository, by the order of playback.
    FetchCommit(FetchKind),
}

/// Which commit of the repository is asked for.
#[derive(Debug, Clone, Copy, PartialEq, Eq, Structural)]
pub enum FetchKind {
    RandomInRange,
    NextInRangeAsc,
    NextInRangeDesc,
    /// The commit that the command line names.
    Named,
    Random,
    NextAsc,
    NextDesc,
}

/// The last entry of the menu.
pub const LAST_MENU_ENTRY: usize = 2;

/// How many typing delays the screen waits before the next commit.
pub const NEXT_COMMIT_DELAYS: u64 = 100;

/// The state of the controls as mathematical values.
pub struct UiView<T> {
    pub state: UiState,
    pub playback_state: PlaybackState,
    pub menu_index: usize,
    /// The state that the menu was opened from.
    pub prev_state: Option<UiState>,
    /// The commits that were played, the oldest first.
    pub history: Seq<T>,
    /// The place in the history of the commit that is played.
    pub history_index: Option<usize>,
    /// Whether a commit waits for its narration.
    pub pending: bool,
    pub speed_ms: u64,
    pub has_repo: bool,
    pub has_diff_mode: bool,
    pub has_audio_player: bool,
    pub loop_playback: bool,
    pub is_range_mode: bool,
    pub has_commit_spec: bool,
    pub order: PlaybackOrder,
}

/// Whether the user has paused the replay.
pub open spec fn is_paused<T>(u: UiView<T>) -> bool {
    u.playback_state == PlaybackState::Paused
}

/// How a commit starts to play: with narration it is generated first.
pub open spec fn spec_commit_start<T>(u: UiView<T>) -> (UiView<T>, CommitStart) {
    if u.has_audio_player {
        (UiView { state: UiState::GeneratingAudio, pending: true, ..u }, CommitStart::GenerateAudio)
    } else {
        (
            UiView { state: UiState::Playing, pending: false, ..u },
            CommitStart::Animate { paused: is_paused(u) },
        )
    }
}

/// The history after `item` is played anew: what came after the commit that
/// was played is forgotten, and `item` is the last.
pub open spec fn spec_recorded<T>(u: UiView<T>, item: T) -> UiView<T> {
    let kept = match u.history_index {
        Some(index) => if index + 1 < u.history.len() {
            u.history.take(index + 1)
        } else {
            u.history
        },
        None => Seq::empty(),
    };
    UiView { history: kept.push(item), history_index: Some(kept.len() as usize), ..u }
}

/// The commit at the place `index` of the history is played again.
pub open spec fn spec_play_stored<T>(u: UiView<T>, index: usize) -> (UiView<T>, UiCommand) {
    if index < u.history.len() {
        let started = spec_commit_start(UiView { history_index: Some(index), ..u });
        (started.0, UiCommand::PlayStored { index, start: started.1 })
    } else {
        (u, UiCommand::Nothing)
    }
}

/// A step by hand pauses the replay.
pub open spec fn spec_manual<T>(u: UiView<T>) -> UiView<T> {
    UiView { playback_state: PlaybackState::Paused, ..u }
}

/// The menu is closed: the screen goes back to where the menu was opened
/// from, and a commit that waited for the next one plays on.
pub open spec fn spec_close_menu<T>(u: UiView<T>) -> (UiView<T>, UiCommand) {
    let restored = match u.prev_state {
        Some(UiState::WaitingForNext { .. }) => UiState::Playing,
        Some(other) => other,
        None => UiState::Playing,
    };
    (
        UiView { state: restored, prev_state: None, ..u },
        if is_paused(u) {
            UiCommand::Nothing
        } else {
            UiCommand::Resume
        },
    )
}

/// What `key` does while the menu is shown.
pub open spec fn spec_menu_key<T>(u: UiView<T>, key: Key) -> (UiView<T>, UiCommand) {
    match key {
        Key::Esc => spec_close_menu(u),
        Key::Up | Key::Char('k') => (
            UiView {
                menu_index: if u.menu_index == 0 {
                    0
                } else {
                    (u.menu_index - 1) as usize
                },
                ..u
            },
            UiCommand::Nothing,
        ),
        Key::Down | Key::Char('j') => (
            UiView {
                menu_index: if u.menu_index >= LAST_MENU_ENTRY {
                    LAST_MENU_ENTRY
                } else {
                    (u.menu_index + 1) as usize
                },
                ..u
            },
            UiCommand::Nothing,
        ),
        Key::Enter => (
            UiView {
                state: if u.menu_index == 0 {
                    UiState::KeyBindings
                } else if u.menu_index == 1 {
                    UiState::About
                } else {
                    UiState::Finished
                },
                ..u
            },
            UiCommand::Nothing,
        ),
        _ => (u, UiCommand::Nothing),
    }
}

/// Whether the history holds a commit after the one that is played.
pub open spec fn spec_has_later<T>(u: UiView<T>) -> bool {
    match u.history_index {
        Some(index) => index + 1 < u.history.len(),
        None => false,
    }
}

/// What `key` does while a commit is typed or the next one is waited for.
pub open spec fn spec_play_key<T>(u: UiView<T>, key: Key) -> (UiView<T>, UiCommand) {
    match key {
        Key::Esc => (
            UiView { prev_state: Some(u.state), menu_index: 0, state: UiState::Menu, ..u },
            UiCommand::Pause,
        ),
        Key::Char('q') | Key::CtrlC => (UiView { state: UiState::Finished, ..u }, UiCommand::Nothing),
        Key::Char(' ') => if is_paused(u) {
            (UiView { playback_state: PlaybackState::Playing, ..u }, UiCommand::Resume)
        } else {
            (UiView { playback_state: PlaybackState::Paused, ..u }, UiCommand::Pause)
        },
        Key::Char('h') => (
            spec_manual(u),
            UiCommand::StepBack { pause_first: !is_paused(u), mode: StepMode::Line },
        ),
        Key::Char('l') => (
            spec_manual(u),
            UiCommand::Step { pause_first: !is_paused(u), mode: StepMode::Line },
        ),
        Key::Char('H') => (
            spec_manual(u),
            UiCommand::StepBack { pause_first: !is_paused(u), mode: StepMode::Change },
        ),
        Key::Char('L') => (
            spec_manual(u),
            UiCommand::Step { pause_first: !is_paused(u), mode: StepMode::Change },
        ),
        Key::Char('p') => match u.history_index {
            Some(index) => if index > 0 {
                spec_play_stored(u, (index - 1) as usize)
            } else {
                (u, UiCommand::Nothing)
            },
            None => (u, UiCommand::Nothing),
        },
        Key::Char('n') => if spec_has_later(u) {
            spec_play_stored(u, (u.history_index.unwrap() + 1) as usize)
        } else if !u.has_repo && !u.has_diff_mode {
            (u, UiCommand::Nothing)
        } else {
            (u, UiCommand::Advance)
        },
        _ => (u, UiCommand::Nothing),
    }
}

/// What `key` does.
pub open spec fn spec_handle_key<T>(u: UiView<T>, key: Key) -> (UiView<T>, UiCommand) {
    match u.state {
        UiState::Menu => spec_menu_key(u, key),
        UiState::KeyBindings | UiState::About => match key {
            Key::Esc | Key::Enter | Key::Char('q') => (
                UiView { state: UiState::Menu, ..u },
                UiCommand::Nothing,
            ),
            _ => (u, UiCommand::Nothing),
        },
        UiState::Finished => (u, UiCommand::Nothing),
        UiState::GeneratingAudio => match key {
            Key::Char('q') | Key::CtrlC => (
                UiView { state: UiState::Finished, pending: false, ..u },
                UiCommand::Abandon,
            ),
            _ => (u, UiCommand::Nothing),
        },
        _ => spec_play_key(u, key),
    }
}

/// The time at which the next commit starts, when the current one is typed
/// to its end at `now_millis`: a hundred typing delays later.
pub open spec fn spec_resume_at(now_millis: u64, speed_ms: u64) -> u64 {
    if now_millis + speed_ms * NEXT_COMMIT_DELAYS > u64::MAX {
        u64::MAX
    } else {
        (now_millis + speed_ms * NEXT_COMMIT_DELAYS) as u64
    }
}

/// What a tick of the loop does at `now_millis`, given whether the engine
/// has typed the commit to its end and whether the generation of the
/// narration is finished.
pub open spec fn spec_tick<T>(
    u: UiView<T>,
    now_millis: u64,
    engine_finished: bool,
    generation_finished: bool,
) -> (UiView<T>, TickCommand) {
    match u.state {
        UiState::Playing => if !engine_finished {
            (u, TickCommand::Nothing)
        } else if u.has_repo {
            (
                UiView {
                    state: UiState::WaitingForNext {
                        resume_at_millis: spec_resume_at(now_millis, u.speed_ms),
                    },
                    ..u
                },
                TickCommand::Nothing,
            )
        } else {
            (UiView { state: UiState::Finished, ..u }, TickCommand::Nothing)
        },
        UiState::WaitingForNext { resume_at_millis } => if now_millis >= resume_at_millis
            && !is_paused(u) {
            (u, TickCommand::Advance)
        } else {
            (u, TickCommand::Nothing)
        },
        UiState::GeneratingAudio => if generation_finished && u.pending {
            (
                UiView { state: UiState::Playing, pending: false, ..u },
                TickCommand::Animate { paused: is_paused(u) },
            )
        } else {
            (u, TickCommand::Nothing)
        },
        UiState::Finished => (u, TickCommand::Exit),
        _ => (u, TickCommand::Nothing),
    }
}

/// Which commit of the repository is asked for.
pub open spec fn spec_fetch_kind<T>(u: UiView<T>) -> FetchKind {
    if u.is_range_mode {
        match u.order {
            PlaybackOrder::Random => FetchKind::RandomInRange,
            PlaybackOrder::Asc => FetchKind::NextInRangeAsc,
            PlaybackOrder::Desc => FetchKind::NextInRangeDesc,
        }
    } else if u.has_commit_spec {
        FetchKind::Named
    } else {
        match u.order {
            PlaybackOrder::Random => FetchKind::Random,
            PlaybackOrder::Asc => FetchKind::NextAsc,
            PlaybackOrder::Desc => FetchKind::NextDesc,
        }
    }
}

/// Where the next commit comes from: without a repository the replay is
/// over.
pub open spec fn spec_advance<T>(u: UiView<T>) -> (UiView<T>, AdvancePlan) {
    if !u.has_repo {
        (UiView { state: UiState::Finished, ..u }, AdvancePlan::Finish)
    } else if u.has_diff_mode {
        (u, AdvancePlan::FetchWorkingTree)
    } else {
        (u, AdvancePlan::FetchCommit(spec_fetch_kind(u)))
    }
}

/// Whether the repository is asked once more after it gave no commit: once,
/// from the start, where the replay loops.
pub open spec fn spec_retry_fetch<T>(u: UiView<T>, retried: bool) -> bool {
    !u.has_diff_mode && u.loop_playback && !retried
}

/// The controls of a replay. `T` is what is kept of a commit.
pub struct UI<T> {
    state: UiState,
    playback_state: PlaybackState,
    menu_index: usize,
    prev_state: Option<UiState>,
    history: Vec<T>,
    history_index: Option<usize>,
    pending: bool,
    speed_ms: u64,
    has_repo: bool,
    has_diff_mode: bool,
    has_audio_player: bool,
    loop_playback: bool,
    is_range_mode: bool,
    has_commit_spec: bool,
    order: PlaybackOrder,
}

impl<T> View for UI<T> {
    type V = UiView<T>;

    closed spec fn view(&self) -> UiView<T> {
        UiView {
            state: self.state,
            playback_state: self.playback_state,
            menu_index: self.menu_index,
            prev_state: self.prev_state,
            history: self.history@,
            history_index: self.history_index,
            pending: self.pending,
            speed_ms: self.speed_ms,
            has_repo: self.has_repo,
            has_diff_mode: self.has_diff_mode,
            has_audio_player: self.has_audio_player,
            loop_playback: self.loop_playback,
            is_range_mode: self.is_range_mode,
            has_commit_spec: self.has_commit_spec,
            order: self.order,
        }
    }
}

impl<T> UI<T> {
    /// The controls at the start of a replay: playing, with no commit played
    /// yet.
    pub fn new(
        speed_ms: u64,
        has_repo: bool,
        order: PlaybackOrder,
        loop_playback: bool,
        has_commit_spec: bool,
        is_range_mode: bool,
        has_audio_player: bool,
    ) -> (ui: Self)
        ensures
            ui@ == (UiView {
                state: UiState::Playing,
                playback_state: PlaybackState::Playing,
                menu_index: 0,
                prev_state: None,
                history: Seq::<T>::empty(),
                history_index: None,
                pending: false,
                speed_ms,
                has_repo,
                has_diff_mode: false,
                has_audio_player,
                loop_playback,
                is_range_mode,
                has_commit_spec,
                order,
            }),
    {
        UI {
            state: UiState::Playing,
            playback_state: PlaybackState::Playing,
            menu_index: 0,
            prev_state: None,
            history: Vec::new(),
            history_index: None,
            pending: false,
            speed_ms,
            has_repo,
            has_diff_mode: false,
            has_audio_player,
            loop_playback,
            is_range_mode,
            has_commit_spec,
            order,
        }
    }

    /// Tells whether the changes of the working tree are replayed.
    pub fn set_diff_mode(&mut self, has_diff_mode: bool)
        ensures
            final(self)@ == (UiView { has_diff_mode, ..old(self)@ }),
    {
        self.has_diff_mode = has_diff_mode;
    }

    /// What the screen shows.
    pub fn state(&self) -> (state: UiState)
        ensures
            state == self@.state,
    {
        self.state
    }

    /// The place in the menu.
    pub fn menu_index(&self) -> (index: usize)
        ensures
            index == self@.menu_index,
    {
        self.menu_index
    }

    /// The commit at the place `index` of the history.
    pub fn stored(&self, index: usize) -> (item: Option<&T>)
        ensures
            match item {
                Some(found) => index < self@.history.len() && *found == self@.history[index as int],
                None => index >= self@.history.len(),
            },
    {
        if index < self.history.len() {
            Some(&self.history[index])
        } else {
            None
        }
    }

    /// The replay was interrupted from outside: it is over.
    pub fn interrupt(&mut self)
        ensures
            final(self)@ == (UiView { state: UiState::Finished, ..old(self)@ }),
    {
        self.state = UiState::Finished;
    }

    fn commit_start(&mut self) -> (start: CommitStart)
        ensures
            final(self)@ == spec_commit_start(old(self)@).0,
            start == spec_commit_start(old(self)@).1,
    {
        if self.has_audio_player {
            self.pending = true;
            self.state = UiState::GeneratingAudio;
            CommitStart::GenerateAudio
        } else {
            self.pending = false;
            self.state = UiState::Playing;
            CommitStart::Animate { paused: self.playback_state == PlaybackState::Paused }
        }
    }

    /// Takes a commit that is played anew, and tells how it starts.
    pub fn load_commit(&mut self, item: T) -> (start: CommitStart)
        ensures
            final(self)@ == spec_commit_start(spec_recorded(old(self)@, item)).0,
            start == spec_commit_start(spec_recorded(old(self)@, item)).1,
    {
        match self.history_index {
            Some(index) => {
                if index < usize::MAX && index + 1 < self.history.len() {
                    self.history.truncate(index + 1);
                }
            },
            None => {
                self.history.clear();
            },
        }
        self.history_index = Some(self.history.len());
        self.history.push(item);
        self.commit_start()
    }

    fn play_stored(&mut self, index: usize) -> (command: UiCommand)
        ensures
            final(self)@ == spec_play_stored(old(self)@, index).0,
            command == spec_play_stored(old(self)@, index).1,
    {
        if index < self.history.len() {
            self.history_index = Some(index);
            let start = self.commit_start();
            UiCommand::PlayStored { index, start }
        } else {
            UiCommand::Nothing
        }
    }

    fn close_menu(&mut self) -> (command: UiCommand)
        ensures
            final(self)@ == spec_close_menu(old(self)@).0,
            command == spec_close_menu(old(self)@).1,
    {
        self.state = match self.prev_state {
            Some(UiState::WaitingForNext { .. }) => UiState::Playing,
            Some(other) => other,
            None => UiState::Playing,
        };
        self.prev_state = None;
        if self.playback_state == PlaybackState::Paused {
            UiCommand::Nothing
        } else {
            UiCommand::Resume
        }
    }

    fn menu_key(&mut self, key: Key) -> (command: UiCommand)
        ensures
            final(self)@ == spec_menu_key(old(self)@, key).0,
            command == spec_menu_key(old(self)@, key).1,
    {
        match key {
            Key::Esc => self.close_menu(),
            Key::Up | Key::Char('k') => {
                if self.menu_index > 0 {
                    self.menu_index = self.menu_index - 1;
                }
                UiCommand::Nothing
            },
            Key::Down | Key::Char('j') => {
                if self.menu_index >= LAST_MENU_ENTRY {
                    self.menu_index = LAST_MENU_ENTRY;
                } else {
                    self.menu_index = self.menu_index + 1;
                }
                UiCommand::Nothing
            },
            Key::Enter => {
                self.state = if self.menu_index == 0 {
                    UiState::KeyBindings
                } else if self.menu_index == 1 {
                    UiState::About
                } else {
                    UiState::Finished
                };
                UiCommand::Nothing
            },
            _ => UiCommand::Nothing,
        }
    }

    /// The place in the history after that of the commit that is played.
    fn later(&self) -> (next: Option<usize>)
        ensures
            (next is Some) == spec_has_later(self@),
            next matches Some(index) ==> index == self@.history_index.unwrap() + 1,
    {
        let len: usize = self.history.len();
        match self.history_index {
            Some(index) => {
                if index < len && index + 1 < len {
                    Some(index + 1)
                } else {
                    None
                }
            },
            None => None,
        }
    }

    fn play_key(&mut self, key: Key) -> (command: UiCommand)
        ensures
            final(self)@ == spec_play_key(old(self)@, key).0,
            command == spec_play_key(old(self)@, key).1,
    {
        let paused: bool = self.playback_state == PlaybackState::Paused;
        match key {
            Key::Esc => {
                self.prev_state = Some(self.state);
                self.menu_index = 0;
                self.state = UiState::Menu;
                UiCommand::Pause
            },
            Key::Char('q') | Key::CtrlC => {
                self.state = UiState::Finished;
                UiCommand::Nothing
            },
            Key::Char(' ') => {
                if paused {
                    self.playback_state = PlaybackState::Playing;
                    UiCommand::Resume
                } else {
                    self.playback_state = PlaybackState::Paused;
                    UiCommand::Pause
                }
            },
            Key::Char('h') => {
                self.playback_state = PlaybackState::Paused;
                UiCommand::StepBack { pause_first: !paused, mode: StepMode::Line }
            },
            Key::Char('l') => {
                self.playback_state = PlaybackState::Paused;
                UiCommand::Step { pause_first: !paused, mode: StepMode::Line }
            },
            Key::Char('H') => {
                self.playback_state = PlaybackState::Paused;
                UiCommand::StepBack { pause_first: !paused, mode: StepMode::Change }
            },
            Key::Char('L') => {
                self.playback_state = PlaybackState::Paused;
                UiCommand::Step { pause_first: !paused, mode: StepMode::Change }
            },
            Key::Char('p') => match self.history_index {
                Some(index) => {
                    if index > 0 {
                        self.play_stored(index - 1)
                    } else {
                        UiCommand::Nothing
                    }
                },
                None => UiCommand::Nothing,
            },
            Key::Char('n') => {
                match self.later() {
                    Some(index) => self.play_stored(index),
                    None => {
                        if !self.has_repo && !self.has_diff_mode {
                            UiCommand::Nothing
                        } else {
                            UiCommand::Advance
                        }
                    },
                }
            },
            _ => UiCommand::Nothing,
        }
    }

    /// Takes a key, and tells what to do with the engine.
    pub fn handle_key(&mut self, key: Key) -> (command: UiCommand)
        ensures
            final(self)@ == spec_handle_key(old(self)@, key).0,
            command == spec_handle_key(old(self)@, key).1,
    {
        match self.state {
            UiState::Menu => self.menu_key(key),
            UiState::KeyBindings | UiState::About => match key {
                Key::Esc | Key::Enter | Key::Char('q') => {
                    self.state = UiState::Menu;
                    UiCommand::Nothing
                },
                _ => UiCommand::Nothing,
            },
            UiState::Finished => UiCommand::Nothing,
            UiState::GeneratingAudio => match key {
                Key::Char('q') | Key::CtrlC => {
                    self.state = UiState::Finished;
                    self.pending = false;
                    UiCommand::Abandon
                },
                _ => UiCommand::Nothing,
            },
            _ => self.play_key(key),
        }
    }

    /// One turn of the loop at `now_millis`. `engine_finished` tells whether
    /// the engine has typed the commit to its end, `generation_finished`
    /// whether the generation of the narration is finished. It never waits.
    pub fn tick(&mut self, now_millis: u64, engine_finished: bool, generation_finished: bool) -> (command:
        TickCommand)
        ensures
            final(self)@ == spec_tick(old(self)@, now_millis, engine_finished, generation_finished).0,
            command == spec_tick(old(self)@, now_millis, engine_finished, generation_finished).1,
    {
        let paused: bool = self.playback_state == PlaybackState::Paused;
        match self.state {
            UiState::Playing => {
                if engine_finished {
                    if self.has_repo {
                        let wait: u64 = match self.speed_ms.checked_mul(NEXT_COMMIT_DELAYS) {
                            Some(wait) => wait,
                            None => u64::MAX,
                        };
                        self.state = UiState::WaitingForNext {
                            resume_at_millis: now_millis.saturating_add(wait),
                        };
                    } else {
                        self.state = UiState::Finished;
                    }
                }
                TickCommand::Nothing
            },
            UiState::WaitingForNext { resume_at_millis } => {
                if now_millis >= resume_at_millis && !paused {
                    TickCommand::Advance
                } else {
                    TickCommand::Nothing
                }
            },
            UiState::GeneratingAudio => {
                if generation_finished && self.pending {
                    self.pending = false;
                    self.state = UiState::Playing;
                    TickCommand::Animate { paused }
                } else {
                    TickCommand::Nothing
                }
            },
            UiState::Finished => TickCommand::Exit,
            _ => TickCommand::Nothing,
        }
    }

    /// Where the next commit comes from. Without a repository the replay is
    /// over.
    pub fn advance_to_next_commit(&mut self) -> (plan: AdvancePlan)
        ensures
            final(self)@ == spec_advance(old(self)@).0,
            plan == spec_advance(old(self)@).1,
    {
        if !self.has_repo {
            self.state = UiState::Finished;
            AdvancePlan::Finish
        } else if self.has_diff_mode {
            AdvancePlan::FetchWorkingTree
        } else {
            let kind = if self.is_range_mode {
                match self.order {
                    PlaybackOrder::Random => FetchKind::RandomInRange,
                    PlaybackOrder::Asc => FetchKind::NextInRangeAsc,
                    PlaybackOrder::Desc => FetchKind::NextInRangeDesc,
                }
            } else if self.has_commit_spec {
                FetchKind::Named
            } else {
                match self.order {
                    PlaybackOrder::Random => FetchKind::Random,
                    PlaybackOrder::Asc => FetchKind::NextAsc,
                    PlaybackOrder::Desc => FetchKind::NextDesc,
                }
            };
            AdvancePlan::FetchCommit(kind)
        }
    }

    /// The repository gave no commit. Tells whether it is asked once more,
    /// from its start; where it is not, the replay is over. `retried` tells
    /// whether it was asked once more already.
    pub fn fetch_failed(&mut self, retried: bool) -> (again: bool)
        ensures
            again == spec_retry_fetch(old(self)@, retried),
            final(self)@ == if again {
                old(self)@
            } else {
                UiView { state: UiState::Finished, ..old(self)@ }
            },
    {
        if !self.has_diff_mode && self.loop_playback && !retried {
            true
        } else {
            self.state = UiState::Finished;
            false
        }
    }
}

/// What the speaking of a commit's chunks does next.
#[derive(Debug, Clone, Copy, PartialEq, Eq, Structural)]
pub enum SpeakStep {
    /// The current chunk is still spoken.
    Wait,
    /// The current chunk is done: trigger the chunk `chunk_id`, which
    /// stands at `position`.
    Next { position: usize, chunk_id: usize },
    /// The last chunk is done.
    AllSpoken,
}

/// What the speaking of `chunks` does next, where the chunk at the place
/// `current` is the one that is spoken and `finished` holds the chunks that
/// were reported as finished so far. The chunks are spoken in their order,
/// one after the other is done; a chunk without audio is done at once.
pub open spec fn spec_next_to_speak(
    chunks: Seq<DiffChunkView>,
    current: usize,
    finished: Seq<usize>,
) -> SpeakStep {
    if current >= chunks.len() {
        SpeakStep::AllSpoken
    } else if chunks[current as int].has_audio && !finished.contains(
        chunks[current as int].chunk_id,
    ) {
        SpeakStep::Wait
    } else if current + 1 < chunks.len() {
        SpeakStep::Next {
            position: (current + 1) as usize,
            chunk_id: chunks[current + 1].chunk_id,
        }
    } else {
        SpeakStep::AllSpoken
    }
}

/// What the speaking of `chunks` does next, where the chunk at the place
/// `current` is the one that is spoken and `finished` holds the chunks that
/// were reported as finished so far.
pub fn next_to_speak(chunks: &Vec<DiffChunk>, current: usize, finished: &Vec<usize>) -> (step:
    SpeakStep)
    ensures
        step == spec_next_to_speak(chunk_views(chunks@), current, finished@),
{
    let count: usize = chunks.len();
    if current >= count {
        SpeakStep::AllSpoken
    } else if !chunk_is_done(&chunks[current], finished) {
        SpeakStep::Wait
    } else if current + 1 < count {
        SpeakStep::Next { position: current + 1, chunk_id: chunks[current + 1].chunk_id }
    } else {
        SpeakStep::AllSpoken
    }
}

} // verus!
