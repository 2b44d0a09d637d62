use torvax::player::{chunk_is_done, AudioError, AudioPlayer, OutputDevice};
use torvax::store::ChunkStore;
use torvax::types::{DiffChunk, VoiceoverConfig, VoiceoverSegment, VoiceoverTrigger};

fn chunk(id: usize, path: &str, audio: Option<&[u8]>, micros: u64) -> DiffChunk {
    DiffChunk {
        chunk_id: id,
        file_path: path.to_string(),
        hunk_indices: vec![0],
        explanation: format!("chunk {}", id),
        audio_data: audio.map(|a| a.to_vec()),
        has_audio: audio.is_some(),
        audio_duration_micros: micros,
    }
}

/// The numbers of `chunks`, sorted: the store is walked in no fixed order.
fn ids(chunks: &Vec<DiffChunk>) -> Vec<usize> {
    let mut ids: Vec<usize> = chunks.iter().map(|c| c.chunk_id).collect();
    ids.sort();
    ids
}

fn enabled() -> VoiceoverConfig {
    let mut config = VoiceoverConfig::default();
    config.enabled = true;
    config
}

fn player_with_chunks() -> AudioPlayer {
    let mut player = AudioPlayer::new(enabled(), OutputDevice::Ready).unwrap();
    player.replace_chunks(&vec![
        chunk(0, "a.rs", Some(&[1, 2]), 3_000_000),
        chunk(1, "b.rs", None, 1_000_000),
        chunk(2, "a.rs", Some(&[3]), 1_999),
    ]);
    player
}

#[test]
fn store_finds_chunks_by_number() {
    let mut store = ChunkStore::new();
    assert_eq!(store.len(), 0);
    assert!(store.get(0).is_none());
    store.insert(chunk(4, "a.rs", None, 1));
    store.insert(chunk(2, "b.rs", None, 2));
    assert_eq!(store.len(), 2);
    assert_eq!(store.get(2).unwrap().file_path, "b.rs");
    assert_eq!(store.get(4).unwrap().file_path, "a.rs");
    assert!(store.get(3).is_none());
}

#[test]
fn store_replaces_chunk_of_same_number() {
    let mut store = ChunkStore::new();
    store.insert_all(&vec![chunk(0, "a.rs", None, 1), chunk(1, "a.rs", None, 2), chunk(0, "c.rs", Some(&[7]), 3)]);
    assert_eq!(store.len(), 2);
    let first = store.get(0).unwrap();
    assert_eq!(first.file_path, "c.rs");
    assert_eq!(first.audio_data, Some(vec![7]));
    assert_eq!(ids(&store.get_for_file("a.rs")), vec![1]);
    assert_eq!(ids(&store.get_for_file("c.rs")), vec![0]);
}

#[test]
fn store_gives_each_chunk_of_file_once() {
    let mut store = ChunkStore::new();
    store.insert_all(&vec![
        chunk(0, "a.rs", None, 1),
        chunk(1, "b.rs", None, 1),
        chunk(2, "a.rs", None, 1),
        chunk(3, "a.rs/", None, 1),
    ]);
    assert_eq!(ids(&store.get_for_file("a.rs")), vec![0, 2]);
    assert_eq!(ids(&store.get_for_file("b.rs")), vec![1]);
    assert!(store.get_for_file("c.rs").is_empty());
    store.clear();
    assert_eq!(store.len(), 0);
    assert!(store.get_for_file("a.rs").is_empty());
}

#[test]
fn disabled_player_needs_no_device() {
    assert!(!AudioPlayer::needs_output(&VoiceoverConfig::default()));
    assert!(AudioPlayer::needs_output(&enabled()));
    let mut player = AudioPlayer::new(VoiceoverConfig::default(), OutputDevice::NoStream).unwrap();
    player.replace_chunks(&vec![chunk(0, "a.rs", Some(&[1]), 5)]);
    assert!(player.trigger_chunk(0).is_none());
    assert!(!player.pause());
    assert!(!player.resume());
    assert!(!player.stop());
    assert!(!player.is_playing(0));
    assert_eq!(ids(&player.get_chunks_for_file("a.rs")), vec![0]);
}

#[test]
fn enabled_player_needs_device() {
    assert_eq!(AudioPlayer::new(enabled(), OutputDevice::NoStream).err(), Some(AudioError::NoOutputStream));
    assert_eq!(AudioPlayer::new(enabled(), OutputDevice::NoSink).err(), Some(AudioError::NoSink));
    let player = AudioPlayer::new(enabled(), OutputDevice::Ready).unwrap();
    assert!(player.voiceover_config().enabled);
    assert_eq!(player.chunks_handle().len(), 0);
}

#[test]
fn trigger_gives_audio_and_wait() {
    let player = player_with_chunks();
    let play = player.trigger_chunk(0).unwrap();
    assert_eq!(play.audio, vec![1, 2]);
    assert_eq!(play.wait_millis, 3000);
    assert_eq!(player.trigger_chunk(2).unwrap().wait_millis, 1);
    assert!(player.trigger_chunk(1).is_none());
    assert!(player.trigger_chunk(9).is_none());
}

#[test]
fn chunk_finishes_only_after_its_audio_played() {
    let mut player = player_with_chunks();
    player.playback_started(0, 10_000);
    assert_eq!(player.poll_finished_chunks(10_000), Vec::<usize>::new());
    assert_eq!(player.poll_finished_chunks(12_999), Vec::<usize>::new());
    assert!(player.is_playing(12_999));
    assert_eq!(player.poll_finished_chunks(13_000), vec![0]);
    assert_eq!(player.poll_finished_chunks(13_001), Vec::<usize>::new());
    assert!(!player.is_playing(13_001));
}

#[test]
fn chunks_triggered_together_are_queued() {
    let mut player = player_with_chunks();
    player.playback_started(0, 0);
    player.playback_started(2, 100);
    player.playback_started(1, 100);
    player.playback_started(9, 100);
    player.playback_started(0, 500);
    assert_eq!(player.poll_finished_chunks(100), Vec::<usize>::new());
    // chunk 2 was started later but finished first
    assert_eq!(player.poll_finished_chunks(3000), vec![2, 0]);
    assert_eq!(player.poll_finished_chunks(3499), Vec::<usize>::new());
    assert_eq!(player.poll_finished_chunks(u64::MAX), vec![0]);
}

#[test]
fn late_start_saturates() {
    let mut player = player_with_chunks();
    player.playback_started(0, u64::MAX - 5);
    assert_eq!(player.poll_finished_chunks(u64::MAX - 1), Vec::<usize>::new());
    assert_eq!(player.poll_finished_chunks(u64::MAX), vec![0]);
}

#[test]
fn pause_keeps_what_is_queued() {
    let mut player = player_with_chunks();
    player.playback_started(0, 0);
    assert!(player.pause());
    assert!(player.is_playing(10));
    assert!(player.resume());
    assert_eq!(player.poll_finished_chunks(3000), vec![0]);
    player.playback_started(2, 0);
    assert!(player.stop());
    assert!(!player.is_playing(0));
    assert_eq!(player.poll_finished_chunks(u64::MAX), Vec::<usize>::new());
    assert_eq!(ids(&player.get_chunks_for_file("a.rs")), vec![0, 2]);
}

#[test]
fn voiceover_trigger_takes_oldest_matching_segment() {
    let mut player = AudioPlayer::new(enabled(), OutputDevice::Ready).unwrap();
    let open = |p: &str| VoiceoverTrigger::FileOpen(p.to_string());
    player.queue_segment(VoiceoverSegment { audio_data: Some(vec![1]), trigger_type: open("a.rs") });
    player.queue_segment(VoiceoverSegment { audio_data: None, trigger_type: open("b.rs") });
    player.queue_segment(VoiceoverSegment { audio_data: Some(vec![2]), trigger_type: open("a.rs") });
    player.queue_segment(VoiceoverSegment { audio_data: Some(vec![3]), trigger_type: open("b.rs") });
    assert_eq!(player.trigger_voiceover(&open("c.rs")), None);
    assert_eq!(player.trigger_voiceover(&open("a.rs")), Some(vec![1]));
    assert_eq!(player.trigger_voiceover(&open("b.rs")), None);
    assert_eq!(player.trigger_voiceover(&open("b.rs")), Some(vec![3]));
    assert_eq!(player.trigger_voiceover(&open("a.rs")), Some(vec![2]));
    assert_eq!(player.trigger_voiceover(&open("a.rs")), None);
    assert!(open("a.rs") == open("a.rs"));
    assert!(open("a.rs") != open("b.rs"));
}

#[test]
fn voiceover_trigger_without_output_keeps_queue() {
    let mut player = AudioPlayer::new(VoiceoverConfig::default(), OutputDevice::Ready).unwrap();
    let open = VoiceoverTrigger::FileOpen("a.rs".to_string());
    player.queue_segment(VoiceoverSegment { audio_data: Some(vec![1]), trigger_type: open.clone() });
    assert_eq!(player.trigger_voiceover(&open), None);
    assert_eq!(player.trigger_voiceover(&open), None);
}

#[test]
fn clearing_chunks_leaves_nothing_to_trigger() {
    let mut player = player_with_chunks();
    player.clear_chunks();
    assert!(player.trigger_chunk(0).is_none());
    assert_eq!(player.chunks_handle().len(), 0);
}

#[test]
fn chunk_without_audio_is_done_at_once() {
    assert!(chunk_is_done(&chunk(3, "a.rs", None, 5), &vec![]));
    assert!(!chunk_is_done(&chunk(3, "a.rs", Some(&[1]), 5), &vec![]));
    assert!(!chunk_is_done(&chunk(3, "a.rs", Some(&[1]), 5), &vec![1, 2]));
    assert!(chunk_is_done(&chunk(3, "a.rs", Some(&[1]), 5), &vec![1, 3]));
}

#[test]
fn finished_chunks_come_in_order_of_completion() {
    let mut player = AudioPlayer::new(enabled(), OutputDevice::Ready).unwrap();
    player.replace_chunks(&vec![
        chunk(0, "a.rs", Some(&[1]), 3_000_000),
        chunk(1, "a.rs", Some(&[2]), 1_000_000),
        chunk(2, "a.rs", Some(&[3]), 2_900_000),
        chunk(3, "a.rs", Some(&[4]), 9_000_000),
    ]);
    player.playback_started(0, 0);
    player.playback_started(1, 100);
    player.playback_started(2, 100);
    player.playback_started(3, 100);
    player.playback_started(1, 2000);
    // due at 3000, 1100, 3000, 9100 and 3000: ties in the order of starting
    assert_eq!(player.poll_finished_chunks(5000), vec![1, 0, 2, 1]);
    assert_eq!(player.poll_finished_chunks(5000), Vec::<usize>::new());
    assert_eq!(player.poll_finished_chunks(9100), vec![3]);
}
