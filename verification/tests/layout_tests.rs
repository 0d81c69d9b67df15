use usrs_core::highlight::HighlightState;
use usrs_core::layout::{
    centered_column, color_class, layout_line, line_to_str, lyric_spans, note_row, status_label,
    ColorClass, RenderSegment, LYRIC_ROW,
};
use usrs_core::note::{letter_name, letter_of_pitch, letter_to_pos, Letter, Line, Note, NoteKind};
use usrs_core::pitch::EstimatedNote;
use usrs_core::CoreError;

fn hello_line() -> Line {
    Line {
        start: 0,
        notes: vec![
            Note::Regular { start: 0, duration: 4, pitch: 60, text: "Hel".to_string() },
            Note::Regular { start: 4, duration: 4, pitch: 62, text: "lo".to_string() },
        ],
    }
}

#[test]
fn degenerate_line_is_rejected() {
    // all timing collapses onto one beat: no cells-per-beat scale exists
    let line = Line {
        start: 0,
        notes: vec![Note::Regular { start: 3, duration: 0, pitch: 60, text: "x".to_string() }],
    };
    assert!(line.is_wf());
    assert_eq!(layout_line(&line, 0, 80), Err(CoreError::DegenerateLine));
}

#[test]
fn line_without_timed_notes_is_rejected() {
    let line = Line { start: 0, notes: vec![Note::PlayerChange { player: 2 }] };
    assert_eq!(layout_line(&line, 0, 80), Err(CoreError::NoTimedNotes));
    assert_eq!(line.first_start(), Err(CoreError::NoTimedNotes));
    assert_eq!(line.last_end(), Err(CoreError::NoTimedNotes));
}

#[test]
fn line_bounds_come_from_timed_notes() {
    let line = hello_line();
    assert_eq!(line.first_start(), Ok(0));
    assert_eq!(line.last_end(), Ok(8));
}

#[test]
fn player_changes_do_not_shape_the_line_bounds() {
    // markers at the edges carry no timing and must not pull the
    // bounds to zero
    let line = Line {
        start: 0,
        notes: vec![
            Note::PlayerChange { player: 1 },
            Note::Regular { start: 5, duration: 2, pitch: 60, text: "a".to_string() },
            Note::PlayerChange { player: 2 },
        ],
    };
    assert_eq!(line.first_start(), Ok(5));
    assert_eq!(line.last_end(), Ok(7));
}

#[test]
fn well_formedness_checks_order_and_durations() {
    assert!(hello_line().is_wf());
    let unsorted = Line {
        start: 0,
        notes: vec![
            Note::Regular { start: 4, duration: 1, pitch: 60, text: "b".to_string() },
            Note::Regular { start: 0, duration: 1, pitch: 60, text: "a".to_string() },
        ],
    };
    assert!(!unsorted.is_wf());
    let negative = Line {
        start: 0,
        notes: vec![Note::Regular { start: 0, duration: -1, pitch: 60, text: "a".to_string() }],
    };
    assert!(!negative.is_wf());
    let unsorted_around_marker = Line {
        start: 0,
        notes: vec![
            Note::Regular { start: 4, duration: 1, pitch: 60, text: "b".to_string() },
            Note::PlayerChange { player: 1 },
            Note::Regular { start: 0, duration: 1, pitch: 60, text: "a".to_string() },
        ],
    };
    assert!(!unsorted_around_marker.is_wf());
}

#[test]
fn frame_halfway_through_first_note() {
    // width 80 over a span of 8 beat-units: 10 cells per unit
    let line = hello_line();
    let frame = layout_line(&line, 2000, 80).unwrap();
    // 2 of 8 beat-units elapsed: 20 cells of elapsed bar
    assert_eq!(frame.elapsed_cells, 20);
    assert_eq!(
        frame.segments,
        vec![
            // first note: full bar, then the sung half over it
            RenderSegment {
                note_index: 0,
                col: 1,
                row: 37,
                len: 40,
                color: ColorClass::UpcomingRegular,
            },
            RenderSegment {
                note_index: 0,
                col: 1,
                row: 37,
                len: 20,
                color: ColorClass::PlayedRegular,
            },
            // second note: upcoming full bar at its own column and row
            RenderSegment {
                note_index: 1,
                col: 41,
                row: 31,
                len: 40,
                color: ColorClass::UpcomingRegular,
            },
        ]
    );
}

#[test]
fn frame_past_the_line() {
    let line = hello_line();
    let frame = layout_line(&line, 10_000, 80).unwrap();
    // the beat lies outside the line: no elapsed bar
    assert_eq!(frame.elapsed_cells, 0);
    assert_eq!(
        frame.segments,
        vec![
            RenderSegment {
                note_index: 0,
                col: 1,
                row: 37,
                len: 40,
                color: ColorClass::PlayedRegular,
            },
            RenderSegment {
                note_index: 1,
                col: 41,
                row: 31,
                len: 40,
                color: ColorClass::PlayedRegular,
            },
        ]
    );
}

#[test]
fn golden_notes_get_golden_classes() {
    let line = Line {
        start: 0,
        notes: vec![
            Note::Golden { start: 0, duration: 2, pitch: 60, text: "gold".to_string() },
            Note::Freestyle { start: 2, duration: 2, pitch: 61, text: "free".to_string() },
        ],
    };
    let frame = layout_line(&line, 1000, 40).unwrap();
    assert_eq!(frame.segments[0].color, ColorClass::UpcomingGolden);
    assert_eq!(frame.segments[1].color, ColorClass::PlayedGolden);
    assert_eq!(frame.segments[2].color, ColorClass::UpcomingFreestyle);
}

#[test]
fn lyric_spans_follow_note_states() {
    let line = hello_line();
    let spans = lyric_spans(&line, 2000);
    assert_eq!(spans.len(), 2);
    assert_eq!(spans[0].text, "Hel");
    assert_eq!(spans[0].color, ColorClass::ActiveRegular);
    assert_eq!(spans[1].text, "lo");
    assert_eq!(spans[1].color, ColorClass::UpcomingRegular);
}

#[test]
fn lyric_text_concatenates_timed_notes() {
    let line = hello_line();
    assert_eq!(line_to_str(&line), "Hello");
    let with_change = Line {
        start: 0,
        notes: vec![
            Note::Regular { start: 0, duration: 1, pitch: 60, text: "a".to_string() },
            Note::PlayerChange { player: 1 },
            Note::Regular { start: 1, duration: 1, pitch: 60, text: "b".to_string() },
        ],
    };
    assert_eq!(line_to_str(&with_change), "ab");
}

#[test]
fn color_table_covers_all_nine_classes() {
    let active = HighlightState::Active { progress_milli: 300 };
    assert_eq!(
        color_class(NoteKind::Regular, &HighlightState::Upcoming),
        ColorClass::UpcomingRegular
    );
    assert_eq!(
        color_class(NoteKind::Golden, &HighlightState::Upcoming),
        ColorClass::UpcomingGolden
    );
    assert_eq!(
        color_class(NoteKind::Freestyle, &HighlightState::Upcoming),
        ColorClass::UpcomingFreestyle
    );
    assert_eq!(color_class(NoteKind::Regular, &active), ColorClass::ActiveRegular);
    assert_eq!(color_class(NoteKind::Golden, &active), ColorClass::ActiveGolden);
    assert_eq!(color_class(NoteKind::Freestyle, &active), ColorClass::ActiveFreestyle);
    assert_eq!(
        color_class(NoteKind::Regular, &HighlightState::Played),
        ColorClass::PlayedRegular
    );
    assert_eq!(color_class(NoteKind::Golden, &HighlightState::Played), ColorClass::PlayedGolden);
    assert_eq!(
        color_class(NoteKind::Freestyle, &HighlightState::Played),
        ColorClass::PlayedFreestyle
    );
}

#[test]
fn rows_follow_the_chromatic_letters() {
    // C sits on the bottom row of the display, B on the top
    assert_eq!(note_row(0), 37);
    assert_eq!(note_row(60), 37);
    assert_eq!(note_row(62), 31);
    assert_eq!(note_row(11), 5);
    assert_eq!(letter_of_pitch(-1), Letter::B);
    assert_eq!(letter_to_pos(Letter::B), 16);
    assert_eq!(letter_name(Letter::Csh), "Csh");
    assert_eq!(LYRIC_ROW, 47);
}

#[test]
fn centering_puts_text_in_the_middle() {
    assert_eq!(centered_column(80, 10), 36);
    assert_eq!(centered_column(80, 0), 41);
    // text wider than the screen starts at the first column
    assert_eq!(centered_column(10, 20), 1);
    assert_eq!(centered_column(10, 10), 1);
}

#[test]
fn status_line_shows_latest_note_or_placeholder() {
    assert_eq!(status_label(&None), "---");
    assert_eq!(status_label(&Some(EstimatedNote { step: 69 })), "A4");
}
