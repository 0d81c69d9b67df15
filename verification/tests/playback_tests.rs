use usrs_core::beat::{beat_at, SongTiming};
use usrs_core::highlight::{highlight, HighlightState};
use usrs_core::note::{Line, Note};
use usrs_core::playback::{
    flush_beat_milli, handle_event, should_advance_line, BusEvent, PlayerFlags,
};
use usrs_core::CoreError;

#[test]
fn beat_mapping_at_120_bpm() {
    // 120 BPM, no gap: half a second is one beat, i.e. four beat-units
    let timing = SongTiming { bpm_milli: 120_000, gap_ms: 0 };
    assert_eq!(beat_at(500, timing), 4000);
    assert_eq!(beat_at(0, timing), 0);
    assert_eq!(beat_at(1000, timing), 8000);
}

#[test]
fn position_before_the_gap_is_a_negative_beat() {
    let timing = SongTiming { bpm_milli: 120_000, gap_ms: 1000 };
    assert_eq!(beat_at(0, timing), -8000);
    assert_eq!(beat_at(1000, timing), 0);
    assert_eq!(beat_at(1500, timing), 4000);
}

#[test]
fn fractional_tempo_truncates_toward_zero() {
    // 95.3 BPM: 100 ms is 100 * 95300 * 4 / 60000 = 635.33 thousandths
    let timing = SongTiming { bpm_milli: 95_300, gap_ms: 0 };
    assert_eq!(beat_at(100, timing), 635);
}

#[test]
fn terminal_events_stop_the_loop() {
    let flags = PlayerFlags { playing: true, terminate: false, duration_ms: Some(90_000) };
    let after_err = handle_event(flags, &BusEvent::Error);
    assert!(after_err.terminate);
    assert!(after_err.playing);
    let after_eos = handle_event(flags, &BusEvent::EndOfStream);
    assert!(after_eos.terminate);
}

#[test]
fn duration_change_drops_the_cached_duration() {
    let flags = PlayerFlags { playing: true, terminate: false, duration_ms: Some(90_000) };
    let after = handle_event(flags, &BusEvent::DurationChanged);
    assert_eq!(after.duration_ms, None);
    assert!(after.playing);
    assert!(!after.terminate);
}

#[test]
fn only_the_players_own_state_changes_count() {
    let flags = PlayerFlags { playing: false, terminate: false, duration_ms: None };
    let own = handle_event(
        flags,
        &BusEvent::StateChanged { from_player: true, now_playing: true },
    );
    assert!(own.playing);
    let foreign = handle_event(
        flags,
        &BusEvent::StateChanged { from_player: false, now_playing: true },
    );
    assert_eq!(foreign, flags);
    let other = handle_event(flags, &BusEvent::Other);
    assert_eq!(other, flags);
}

#[test]
fn line_advances_once_the_beat_passes_the_next_start() {
    assert!(should_advance_line(5000, Some(&4)));
    assert!(!should_advance_line(4000, Some(&4)));
    assert!(!should_advance_line(3999, Some(&4)));
    // without a next line the horizon moves with the beat and never fires
    assert!(!should_advance_line(1_000_000_000, None));
}

#[test]
fn flush_beat_lies_just_past_the_line_end() {
    let line = Line {
        start: 0,
        notes: vec![
            Note::Regular { start: 0, duration: 4, pitch: 60, text: "Hel".to_string() },
            Note::Regular { start: 4, duration: 4, pitch: 62, text: "lo".to_string() },
        ],
    };
    assert_eq!(flush_beat_milli(&line), Ok(8001));
    let empty = Line { start: 0, notes: vec![Note::PlayerChange { player: 1 }] };
    assert_eq!(flush_beat_milli(&empty), Err(CoreError::NoTimedNotes));
}

#[test]
fn flushed_line_renders_fully_played() {
    let line = Line {
        start: 0,
        notes: vec![
            Note::Regular { start: 0, duration: 4, pitch: 60, text: "Hel".to_string() },
            Note::Regular { start: 4, duration: 4, pitch: 62, text: "lo".to_string() },
        ],
    };
    let flush = flush_beat_milli(&line).unwrap();
    for h in highlight(&line, flush) {
        assert_eq!(h.state, HighlightState::Played);
    }
}
