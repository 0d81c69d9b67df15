use usrs_core::highlight::{highlight, note_state, HighlightState, NoteHighlight};
use usrs_core::note::{Line, Note};

fn hello_line() -> Line {
    Line {
        start: 0,
        notes: vec![
            Note::Regular { start: 0, duration: 4, pitch: 60, text: "Hel".to_string() },
            Note::Regular { start: 4, duration: 4, pitch: 62, text: "lo".to_string() },
        ],
    }
}

#[test]
fn highlight_is_idempotent() {
    let line = hello_line();
    let first = highlight(&line, 2000);
    let second = highlight(&line, 2000);
    assert_eq!(first, second);
}

#[test]
fn positive_duration_boundaries() {
    // at the start beat: active with zero progress
    assert_eq!(note_state(10, 4, 10_000), HighlightState::Active { progress_milli: 0 });
    // at the end beat: active with full progress
    assert_eq!(note_state(10, 4, 14_000), HighlightState::Active { progress_milli: 1000 });
    // a thousandth of a beat past the end: played
    assert_eq!(note_state(10, 4, 14_001), HighlightState::Played);
    // strictly before the start: upcoming
    assert_eq!(note_state(10, 4, 9_999), HighlightState::Upcoming);
}

#[test]
fn zero_duration_never_divides() {
    // the moment the beat reaches the note it is complete
    assert_eq!(note_state(3, 0, 3_000), HighlightState::Active { progress_milli: 1000 });
    // past its start it is played
    assert_eq!(note_state(3, 0, 3_001), HighlightState::Played);
    assert_eq!(note_state(3, 0, 2_999), HighlightState::Upcoming);
}

#[test]
fn halfway_through_first_note() {
    let line = hello_line();
    let states = highlight(&line, 2000);
    assert_eq!(
        states,
        vec![
            NoteHighlight { index: 0, state: HighlightState::Active { progress_milli: 500 } },
            NoteHighlight { index: 1, state: HighlightState::Upcoming },
        ]
    );
}

#[test]
fn past_the_line_both_notes_played() {
    let line = hello_line();
    let states = highlight(&line, 10_000);
    assert_eq!(
        states,
        vec![
            NoteHighlight { index: 0, state: HighlightState::Played },
            NoteHighlight { index: 1, state: HighlightState::Played },
        ]
    );
}

#[test]
fn player_changes_contribute_no_highlight() {
    let line = Line {
        start: 0,
        notes: vec![
            Note::PlayerChange { player: 1 },
            Note::Golden { start: 2, duration: 2, pitch: 64, text: "la".to_string() },
        ],
    };
    let states = highlight(&line, 0);
    assert_eq!(states, vec![NoteHighlight { index: 1, state: HighlightState::Upcoming }]);
}

#[test]
fn progress_rounds_down_to_thousandths() {
    // one third of a three-beat note: 1000 / 3 = 333 thousandths
    assert_eq!(note_state(0, 3, 1000), HighlightState::Active { progress_milli: 333 });
}
