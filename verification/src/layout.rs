//! The geometry and color classification a terminal renderer needs for
//! one lyric line at one beat: note bars on a seventeen-row pitch
//! display, the sung leading part of the active note, an elapsed bar
//! for the whole line, color-classified lyric spans, and the status
//! line's note label. No drawing happens here; the output is cell
//! positions, cell counts and classifications.
use vstd::prelude::*;

use vstd::arithmetic::div_mod::{lemma_div_is_ordered, lemma_div_multiples_vanish};
use vstd::arithmetic::mul::{lemma_mul_inequality, lemma_mul_upper_bound};
use vstd::math::min;
use vstd::string::StringExecFns;

use crate::beat::BEAT_MILLI_BOUND;
use crate::highlight::{note_state, spec_note_state, HighlightState};
use crate::note::{
    has_timed, is_timed, letter_of_pitch, letter_to_pos, line_wf, note_duration, note_kind,
    note_pitch, note_start, note_text, spec_first_start, spec_last_end, spec_letter_of_pitch,
    spec_letter_pos, Line, Note, NoteKind,
};
use crate::pitch::{spec_note_label, EstimatedNote};
use crate::CoreError;

verus! {

/// Rows left blank above the pitch display, for the elapsed bar.
pub const TOP_OFFSET: u16 = 2;

/// Vertical distance between two adjacent pitch rows.
pub const LINE_SPACING: u16 = 2;

/// The number of rows of the pitch display, one per chromatic letter.
pub const SCALE_ROWS: u16 = 17;

/// The terminal row on which the lyric text line is drawn, below the
/// pitch display.
pub const LYRIC_ROW: u16 = 2 + 17 * 2 + 10 + 1;

/// The color classification of a note's bar and lyric glyphs: one
/// class per combination of highlight state and note kind. The
/// renderer owns the actual colors.
#[derive(Clone, Copy, Debug, PartialEq, Eq, Structural)]
pub enum ColorClass {
    UpcomingRegular,
    UpcomingGolden,
    UpcomingFreestyle,
    ActiveRegular,
    ActiveGolden,
    ActiveFreestyle,
    PlayedRegular,
    PlayedGolden,
    PlayedFreestyle,
}

/// The class of a note kind in a highlight state; the progress of an
/// active note does not matter for the class.
pub open spec fn spec_color_class(kind: NoteKind, state: HighlightState) -> ColorClass {
    match state {
        HighlightState::Upcoming => match kind {
            NoteKind::Regular => ColorClass::UpcomingRegular,
            NoteKind::Golden => ColorClass::UpcomingGolden,
            NoteKind::Freestyle => ColorClass::UpcomingFreestyle,
        },
        HighlightState::Active { .. } => match kind {
            NoteKind::Regular => ColorClass::ActiveRegular,
            NoteKind::Golden => ColorClass::ActiveGolden,
            NoteKind::Freestyle => ColorClass::ActiveFreestyle,
        },
        HighlightState::Played => match kind {
            NoteKind::Regular => ColorClass::PlayedRegular,
            NoteKind::Golden => ColorClass::PlayedGolden,
            NoteKind::Freestyle => ColorClass::PlayedFreestyle,
        },
    }
}

/// The class of a note kind in a highlight state, as a plain lookup.
pub fn color_class(kind: NoteKind, state: &HighlightState) -> (r: ColorClass)
    ensures
        r == spec_color_class(kind, *state),
{
    match state {
        HighlightState::Upcoming => match kind {
            NoteKind::Regular => ColorClass::UpcomingRegular,
            NoteKind::Golden => ColorClass::UpcomingGolden,
            NoteKind::Freestyle => ColorClass::UpcomingFreestyle,
        },
        HighlightState::Active { .. } => match kind {
            NoteKind::Regular => ColorClass::ActiveRegular,
            NoteKind::Golden => ColorClass::ActiveGolden,
            NoteKind::Freestyle => ColorClass::ActiveFreestyle,
        },
        HighlightState::Played => match kind {
            NoteKind::Regular => ColorClass::PlayedRegular,
            NoteKind::Golden => ColorClass::PlayedGolden,
            NoteKind::Freestyle => ColorClass::PlayedFreestyle,
        },
    }
}

/// The terminal row of a note bar: the pitch's letter decides the row,
/// bottom letter lowest, one blank row between adjacent letters, below
/// the offset rows; terminal rows are one-based and grow downward.
pub open spec fn spec_note_row(pitch: int) -> int {
    TOP_OFFSET + SCALE_ROWS * LINE_SPACING - spec_letter_pos(spec_letter_of_pitch(pitch))
        * LINE_SPACING + 1
}

/// The terminal row of a note bar for a pitch in semitones.
pub fn note_row(pitch: i32) -> (r: u16)
    ensures
        r == spec_note_row(pitch as int),
{
    let pos = letter_to_pos(letter_of_pitch(pitch));
    TOP_OFFSET + SCALE_ROWS * LINE_SPACING - pos * LINE_SPACING + 1
}

/// One horizontal bar of the note display: `len` cells starting at
/// one-based cell `(col, row)`, in the color class `color`, belonging
/// to the note at `note_index` within its line.
#[derive(Clone, Copy, Debug, PartialEq, Eq, Structural)]
pub struct RenderSegment {
    pub note_index: usize,
    pub col: u32,
    pub row: u32,
    pub len: u32,
    pub color: ColorClass,
}

/// The complete bar geometry of one line at one beat: the length of
/// the elapsed bar on the top row, and the note bars in note order.
#[derive(Debug, PartialEq)]
pub struct LineFrame {
    pub elapsed_cells: u32,
    pub segments: Vec<RenderSegment>,
}

/// The one-based column of a note bar: the note's distance from the
/// line's first start, scaled by cells per beat-unit (the width over
/// the line's beat span), rounded down.
pub open spec fn spec_note_col(start: int, first_start: int, width: int, span: int) -> int {
    (start - first_start) * width / span + 1
}

/// The cell count of a note bar: the duration scaled by cells per
/// beat-unit, rounded down and clipped to the width.
pub open spec fn spec_bar_cells(duration: int, width: int, span: int) -> int {
    min(width, duration * width / span)
}

/// The cell count of the sung leading part of an active note: the
/// elapsed thousandths of the note scaled by cells per beat-unit,
/// rounded down and clipped to the width.
pub open spec fn spec_marked_cells(start: int, beat_milli: int, width: int, span: int) -> int {
    min(width, (beat_milli - 1000 * start) * width / (1000 * span))
}

/// The cell count of the elapsed bar on the top row: the beats elapsed
/// since the line's first start, scaled by cells per beat-unit; zero
/// while the beat lies outside the line.
pub open spec fn spec_elapsed_cells(
    first_start: int,
    last_end: int,
    width: int,
    beat_milli: int,
) -> int {
    if 1000 * first_start <= beat_milli <= 1000 * last_end {
        (beat_milli - 1000 * first_start) * width / (1000 * (last_end - first_start))
    } else {
        0
    }
}

/// The bar segments of one note: nothing for a player change; an
/// upcoming or played note gets its full bar in its state's color; an
/// active note gets the full bar in the upcoming color and, over it,
/// the sung leading part in the played color.
pub open spec fn spec_segments_for(
    n: Note,
    idx: int,
    first_start: int,
    span: int,
    width: int,
    beat_milli: int,
) -> Seq<RenderSegment> {
    if !is_timed(n) {
        Seq::empty()
    } else {
        let col = spec_note_col(note_start(n), first_start, width, span) as u32;
        let row = spec_note_row(note_pitch(n)) as u32;
        let full_len = spec_bar_cells(note_duration(n), width, span) as u32;
        let idxu = idx as usize;
        match spec_note_state(note_start(n), note_duration(n), beat_milli) {
            HighlightState::Upcoming => seq![
                RenderSegment {
                    note_index: idxu,
                    col,
                    row,
                    len: full_len,
                    color: spec_color_class(note_kind(n), HighlightState::Upcoming),
                },
            ],
            HighlightState::Active { .. } => seq![
                RenderSegment {
                    note_index: idxu,
                    col,
                    row,
                    len: full_len,
                    color: spec_color_class(note_kind(n), HighlightState::Upcoming),
                },
                RenderSegment {
                    note_index: idxu,
                    col,
                    row,
                    len: spec_marked_cells(note_start(n), beat_milli, width, span) as u32,
                    color: spec_color_class(note_kind(n), HighlightState::Played),
                },
            ],
            HighlightState::Played => seq![
                RenderSegment {
                    note_index: idxu,
                    col,
                    row,
                    len: full_len,
                    color: spec_color_class(note_kind(n), HighlightState::Played),
                },
            ],
        }
    }
}

/// The bar segments of a run of notes, in note order.
pub open spec fn spec_line_segments(
    notes: Seq<Note>,
    first_start: int,
    span: int,
    width: int,
    beat_milli: int,
) -> Seq<RenderSegment>
    decreases notes.len(),
{
    if notes.len() == 0 {
        Seq::empty()
    } else {
        spec_line_segments(notes.drop_last(), first_start, span, width, beat_milli)
            + spec_segments_for(
            notes.last(),
            notes.len() - 1,
            first_start,
            span,
            width,
            beat_milli,
        )
    }
}

/// The complete bar geometry of a line at a beat: the elapsed bar and
/// one or two segments per timed note. Fails with `NoTimedNotes` when
/// the line has no timed note, and with `DegenerateLine` when its
/// timed notes span zero beats, in which case no cells-per-beat scale
/// exists and nothing can be laid out.
pub fn layout_line(line: &Line, beat_milli: i64, term_width: u16) -> (r: Result<
    LineFrame,
    CoreError,
>)
    requires
        line_wf(line.notes@),
        -BEAT_MILLI_BOUND < beat_milli < BEAT_MILLI_BOUND,
    ensures
        match r {
            Ok(f) => {
                &&& has_timed(line.notes@)
                &&& spec_first_start(line.notes@) < spec_last_end(line.notes@)
                &&& f.elapsed_cells == spec_elapsed_cells(
                    spec_first_start(line.notes@),
                    spec_last_end(line.notes@),
                    term_width as int,
                    beat_milli as int,
                )
                &&& f.segments@ == spec_line_segments(
                    line.notes@,
                    spec_first_start(line.notes@),
                    spec_last_end(line.notes@) - spec_first_start(line.notes@),
                    term_width as int,
                    beat_milli as int,
                )
            },
            Err(e) => {
                ||| (e == CoreError::NoTimedNotes && !has_timed(line.notes@))
                ||| (e == CoreError::DegenerateLine && has_timed(line.notes@)
                    && spec_first_start(line.notes@) == spec_last_end(line.notes@))
            },
        },
{
    let first: i32 = match line.first_start() {
        Ok(s) => s,
        Err(e) => {
            return Err(e);
        },
    };
    let last: i64 = match line.last_end() {
        Ok(e) => e,
        Err(e) => {
            return Err(e);
        },
    };
    proof {
        crate::note::lemma_timed_bounds(line.notes@);
    }
    let span: i64 = last - (first as i64);
    if span <= 0 {
        return Err(CoreError::DegenerateLine);
    }
    let width64: u64 = term_width as u64;
    let first_m: i64 = (first as i64) * 1000;
    let last_m: i64 = last * 1000;
    let span64: u64 = span as u64;
    let elapsed_cells: u32 = if first_m <= beat_milli && beat_milli <= last_m {
        let el: u64 = (beat_milli - first_m) as u64;
        proof {
            lemma_mul_upper_bound(el as int, 0x800_0000_0000, term_width as int, 0x1_0000);
            lemma_scaled_in_width(el as int, 1000 * (span as int), term_width as int);
        }
        (el * width64 / (span64 * 1000)) as u32
    } else {
        0
    };
    let mut segments: Vec<RenderSegment> = Vec::new();
    let n = line.notes.len();
    proof {
        assert(line.notes@.take(0) =~= Seq::<Note>::empty());
    }
    let ghost gfirst = spec_first_start(line.notes@);
    let ghost gspan = spec_last_end(line.notes@) - spec_first_start(line.notes@);
    let ghost gwidth = term_width as int;
    let mut i: usize = 0;
    while i < n
        invariant
            n == line.notes@.len(),
            i <= n,
            line_wf(line.notes@),
            has_timed(line.notes@),
            -BEAT_MILLI_BOUND < beat_milli < BEAT_MILLI_BOUND,
            gfirst == spec_first_start(line.notes@),
            gspan == spec_last_end(line.notes@) - spec_first_start(line.notes@),
            gwidth == term_width as int,
            first == gfirst,
            span == gspan,
            1 <= span <= 0x2_0000_0000,
            width64 == gwidth,
            span64 == span,
            segments@ == spec_line_segments(
                line.notes@.take(i as int),
                gfirst,
                gspan,
                gwidth,
                beat_milli as int,
            ),
        decreases n - i,
    {
        proof {
            let t = line.notes@.take(i + 1);
            assert(t.last() == line.notes@[i as int]);
            assert(t.drop_last() =~= line.notes@.take(i as int));
            crate::note::lemma_timed_bounds(line.notes@);
        }
        let note = &line.notes[i];
        let timed: Option<(i32, i32, i32, NoteKind)> = match note {
            Note::Regular { start, duration, pitch, .. } => {
                Some((*start, *duration, *pitch, NoteKind::Regular))
            },
            Note::Golden { start, duration, pitch, .. } => {
                Some((*start, *duration, *pitch, NoteKind::Golden))
            },
            Note::Freestyle { start, duration, pitch, .. } => {
                Some((*start, *duration, *pitch, NoteKind::Freestyle))
            },
            Note::PlayerChange { .. } => None,
        };
        match timed {
            None => {},
            Some((start, duration, pitch, kind)) => {
                proof {
                    assert(is_timed(line.notes@[i as int]));
                    assert(note_duration(line.notes@[i as int]) >= 0);
                    lemma_mul_upper_bound(
                        start as int - first as int,
                        0x2_0000_0000,
                        gwidth,
                        0x1_0000,
                    );
                }
                let delta: u64 = ((start as i64) - (first as i64)) as u64;
                proof {
                    lemma_scaled_in_width(delta as int, span as int, term_width as int);
                }
                let col: u32 = (delta * width64 / span64) as u32 + 1;
                let row: u32 = note_row(pitch) as u32;
                proof {
                    lemma_mul_upper_bound(duration as int, 0x8000_0000, gwidth, 0x1_0000);
                    lemma_div_is_ordered(0, duration * gwidth, gspan);
                }
                let full64: u64 = (duration as u64) * width64 / span64;
                let full_len: u32 = if full64 > (term_width as u64) {
                    term_width as u32
                } else {
                    full64 as u32
                };
                let state = note_state(start, duration, beat_milli);
                let seg_full = RenderSegment {
                    note_index: i,
                    col,
                    row,
                    len: full_len,
                    color: color_class(kind, &HighlightState::Upcoming),
                };
                match state {
                    HighlightState::Upcoming => {
                        segments.push(seg_full);
                    },
                    HighlightState::Active { .. } => {
                        let elapsed: u64 = (beat_milli - (start as i64) * 1000) as u64;
                        proof {
                            lemma_mul_upper_bound(
                                elapsed as int,
                                0x400_0000_0000,
                                gwidth,
                                0x1_0000,
                            );
                            lemma_div_is_ordered(0, elapsed * gwidth, 1000 * gspan);
                        }
                        let marked64: u64 = elapsed * width64 / (span64 * 1000);
                        let marked_len: u32 = if marked64 > (term_width as u64) {
                            term_width as u32
                        } else {
                            marked64 as u32
                        };
                        let seg_marked = RenderSegment {
                            note_index: i,
                            col,
                            row,
                            len: marked_len,
                            color: color_class(kind, &HighlightState::Played),
                        };
                        segments.push(seg_full);
                        segments.push(seg_marked);
                    },
                    HighlightState::Played => {
                        segments.push(
                            RenderSegment {
                                note_index: i,
                                col,
                                row,
                                len: full_len,
                                color: color_class(kind, &HighlightState::Played),
                            },
                        );
                    },
                }
            },
        }
        proof {
            assert(segments@ =~= spec_line_segments(
                line.notes@.take(i + 1),
                gfirst,
                gspan,
                gwidth,
                beat_milli as int,
            ));
        }
        i = i + 1;
    }
    proof {
        assert(line.notes@.take(n as int) =~= line.notes@);
    }
    Ok(LineFrame { elapsed_cells, segments })
}

/// One colored run of the lyric text line: the syllable of one timed
/// note in the color class of that note's state and kind.
#[derive(Debug, PartialEq)]
pub struct LyricSpan {
    pub text: String,
    pub color: ColorClass,
}

/// The syllables of the timed notes of a run, each with the color
/// class of its note's state at the given beat, in note order.
pub open spec fn spec_lyric_colors(notes: Seq<Note>, beat_milli: int) -> Seq<
    (Seq<char>, ColorClass),
>
    decreases notes.len(),
{
    if notes.len() == 0 {
        Seq::empty()
    } else {
        let prefix = spec_lyric_colors(notes.drop_last(), beat_milli);
        let last = notes.last();
        if is_timed(last) {
            prefix.push(
                (
                    note_text(last),
                    spec_color_class(
                        note_kind(last),
                        spec_note_state(note_start(last), note_duration(last), beat_milli),
                    ),
                ),
            )
        } else {
            prefix
        }
    }
}

/// The colored lyric spans of a line at a beat, one per timed note,
/// in note order; concatenated they form the lyric text line.
pub fn lyric_spans(line: &Line, beat_milli: i64) -> (r: Vec<LyricSpan>)
    requires
        -BEAT_MILLI_BOUND < beat_milli < BEAT_MILLI_BOUND,
    ensures
        r@.len() == spec_lyric_colors(line.notes@, beat_milli as int).len(),
        forall|k: int|
            0 <= k < r@.len() ==> (#[trigger] r@[k]).text@ == spec_lyric_colors(
                line.notes@,
                beat_milli as int,
            )[k].0 && r@[k].color == spec_lyric_colors(line.notes@, beat_milli as int)[k].1,
{
    let n = line.notes.len();
    let mut r: Vec<LyricSpan> = Vec::new();
    proof {
        assert(line.notes@.take(0) =~= Seq::<Note>::empty());
    }
    let mut i: usize = 0;
    while i < n
        invariant
            n == line.notes@.len(),
            i <= n,
            -BEAT_MILLI_BOUND < beat_milli < BEAT_MILLI_BOUND,
            r@.len() == spec_lyric_colors(line.notes@.take(i as int), beat_milli as int).len(),
            forall|k: int|
                0 <= k < r@.len() ==> (#[trigger] r@[k]).text@ == spec_lyric_colors(
                    line.notes@.take(i as int),
                    beat_milli as int,
                )[k].0 && r@[k].color == spec_lyric_colors(
                    line.notes@.take(i as int),
                    beat_milli as int,
                )[k].1,
        decreases n - i,
    {
        proof {
            let t = line.notes@.take(i + 1);
            assert(t.last() == line.notes@[i as int]);
            assert(t.drop_last() =~= line.notes@.take(i as int));
        }
        let span: Option<(String, NoteKind, i32, i32)> = match &line.notes[i] {
            Note::Regular { start, duration, text, .. } => {
                Some((text.clone(), NoteKind::Regular, *start, *duration))
            },
            Note::Golden { start, duration, text, .. } => {
                Some((text.clone(), NoteKind::Golden, *start, *duration))
            },
            Note::Freestyle { start, duration, text, .. } => {
                Some((text.clone(), NoteKind::Freestyle, *start, *duration))
            },
            Note::PlayerChange { .. } => None,
        };
        match span {
            None => {},
            Some((text, kind, start, duration)) => {
                let state = note_state(start, duration, beat_milli);
                let color = color_class(kind, &state);
                r.push(LyricSpan { text, color });
            },
        }
        i = i + 1;
    }
    proof {
        assert(line.notes@.take(n as int) =~= line.notes@);
    }
    r
}

/// The plain lyric text of a run: the syllables of its timed notes,
/// concatenated in note order.
pub open spec fn spec_line_text(notes: Seq<Note>) -> Seq<char>
    decreases notes.len(),
{
    if notes.len() == 0 {
        Seq::empty()
    } else {
        spec_line_text(notes.drop_last()) + note_text(notes.last())
    }
}

/// The plain lyric text of a line, used to center the lyric on the
/// screen.
pub fn line_to_str(line: &Line) -> (r: String)
    ensures
        r@ == spec_line_text(line.notes@),
{
    let n = line.notes.len();
    let mut s = String::new();
    proof {
        assert(line.notes@.take(0) =~= Seq::<Note>::empty());
        assert(s@ =~= spec_line_text(line.notes@.take(0)));
    }
    let mut i: usize = 0;
    while i < n
        invariant
            n == line.notes@.len(),
            i <= n,
            s@ == spec_line_text(line.notes@.take(i as int)),
        decreases n - i,
    {
        proof {
            let t = line.notes@.take(i + 1);
            assert(t.last() == line.notes@[i as int]);
            assert(t.drop_last() =~= line.notes@.take(i as int));
        }
        match &line.notes[i] {
            Note::Regular { text, .. } => s.append(text.as_str()),
            Note::Golden { text, .. } => s.append(text.as_str()),
            Note::Freestyle { text, .. } => s.append(text.as_str()),
            Note::PlayerChange { .. } => {
                proof {
                    assert(s@ =~= spec_line_text(line.notes@.take(i + 1)));
                }
            },
        }
        i = i + 1;
    }
    proof {
        assert(line.notes@.take(n as int) =~= line.notes@);
    }
    s
}

/// The one-based column at which a text of the given cell length
/// starts so that it sits centered in the terminal's width; the first
/// column when the text does not fit.
pub fn centered_column(term_width: u16, text_len: usize) -> (r: u16)
    ensures
        r == if text_len < term_width {
            (term_width - text_len) / 2 + 1
        } else {
            1int
        },
{
    if text_len < term_width as usize {
        (term_width - text_len as u16) / 2 + 1
    } else {
        1
    }
}

/// The placeholder shown on the status line while no note has been
/// heard.
pub open spec fn spec_no_note_label() -> Seq<char> {
    "---"@
}

/// What the status line shows: the label of the most recent estimated
/// note, or a placeholder while none has been heard.
pub fn status_label(sample: &Option<EstimatedNote>) -> (r: String)
    requires
        (sample matches Some(n) ==> n.wf()),
    ensures
        match sample {
            Some(n) => r@ == spec_note_label(n.step as int),
            None => r@ == spec_no_note_label(),
        },
{
    match sample {
        Some(n) => n.label(),
        None => String::from_str("---"),
    }
}

/// A nonnegative value scaled by cells per beat-unit stays within the
/// width as long as the value is at most the span it is measured
/// against.
proof fn lemma_scaled_in_width(value: int, span: int, width: int)
    requires
        0 <= value <= span,
        0 < span,
        0 <= width,
    ensures
        0 <= value * width / span <= width,
        value * width <= span * width,
{
    lemma_mul_inequality(value, span, width);
    lemma_mul_upper_bound(0, value, 0, width);
    lemma_div_is_ordered(0, value * width, span);
    lemma_div_is_ordered(value * width, span * width, span);
    lemma_div_multiples_vanish(width, span);
    assert(span * width == width * span) by (nonlinear_arith);
}

} // verus!
