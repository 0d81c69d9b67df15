//! The beat-synchronized highlight engine: mapping the current beat
//! onto a per-note render state.
//!
//! The state of a note is a pure function of the note's timing and the
//! beat, recomputed on every tick; nothing remembers whether a note
//! "has been" played, which is what makes rendering the same line at
//! another beat safe and artifact-free.
use vstd::prelude::*;

use vstd::arithmetic::div_mod::{lemma_div_is_ordered, lemma_div_multiples_vanish};

use crate::beat::BEAT_MILLI_BOUND;
use crate::note::{is_timed, note_duration, note_start, Line, Note};

verus! {

/// The render state of one note at one beat. Progress is in
/// thousandths: zero at the note's start beat, a thousand at its end
/// beat.
#[derive(Clone, Copy, Debug, PartialEq, Eq, Structural)]
pub enum HighlightState {
    /// The beat has not reached the note yet.
    Upcoming,
    /// The note is being sung; `progress_milli` is how far into it the
    /// beat lies, in thousandths, clamped to a thousand.
    Active { progress_milli: u32 },
    /// The beat has passed the note.
    Played,
}

/// The progress within a note at a beat, in thousandths: the elapsed
/// part of the note divided by its duration. A note without positive
/// duration is complete the moment it is reached.
pub open spec fn spec_progress_milli(start: int, duration: int, beat_milli: int) -> int {
    if duration <= 0 {
        1000
    } else {
        (beat_milli - 1000 * start) / duration
    }
}

/// The render state of a note with the given timing at the given beat:
/// upcoming strictly before the start, active from the start through
/// the end, played strictly after the end. Within the active range the
/// progress needs no clamping; it runs from zero at the start to a
/// thousand exactly at the end.
pub open spec fn spec_note_state(start: int, duration: int, beat_milli: int) -> HighlightState {
    if beat_milli < 1000 * start {
        HighlightState::Upcoming
    } else if beat_milli <= 1000 * (start + duration) {
        HighlightState::Active {
            progress_milli: spec_progress_milli(start, duration, beat_milli) as u32,
        }
    } else {
        HighlightState::Played
    }
}

/// The render state of a note with the given timing at the given beat.
pub fn note_state(start: i32, duration: i32, beat_milli: i64) -> (r: HighlightState)
    requires
        -BEAT_MILLI_BOUND < beat_milli < BEAT_MILLI_BOUND,
    ensures
        r == spec_note_state(start as int, duration as int, beat_milli as int),
{
    let start_m: i64 = (start as i64) * 1000;
    if beat_milli < start_m {
        HighlightState::Upcoming
    } else {
        let end_m: i64 = start_m + (duration as i64) * 1000;
        if beat_milli <= end_m {
            let p: u32 = if duration <= 0 {
                1000
            } else {
                proof {
                    lemma_progress_in_range(start as int, duration as int, beat_milli as int);
                }
                (((beat_milli - start_m) as u64) / (duration as u64)) as u32
            };
            HighlightState::Active { progress_milli: p }
        } else {
            HighlightState::Played
        }
    }
}

/// Within the active range of a note of positive duration the progress
/// lies between zero and a thousand.
proof fn lemma_progress_in_range(start: int, duration: int, beat_milli: int)
    requires
        0 < duration,
        1000 * start <= beat_milli <= 1000 * (start + duration),
    ensures
        0 <= spec_progress_milli(start, duration, beat_milli) <= 1000,
{
    let elapsed = beat_milli - 1000 * start;
    assert(elapsed <= 1000 * duration);
    lemma_div_is_ordered(0, elapsed, duration);
    lemma_div_is_ordered(elapsed, 1000 * duration, duration);
    lemma_div_multiples_vanish(1000, duration);
    assert(duration * 1000 == 1000 * duration) by (nonlinear_arith);
}

/// One entry of a highlighted line: the index of a timed note within
/// the line and its state at the current beat.
#[derive(Clone, Copy, Debug, PartialEq, Eq, Structural)]
pub struct NoteHighlight {
    pub index: usize,
    pub state: HighlightState,
}

/// The highlight of every timed note of a run, in original order; the
/// player-change markers contribute nothing.
pub open spec fn spec_highlight(notes: Seq<Note>, beat_milli: int) -> Seq<NoteHighlight>
    decreases notes.len(),
{
    if notes.len() == 0 {
        Seq::empty()
    } else {
        let prefix = spec_highlight(notes.drop_last(), beat_milli);
        let last = notes.last();
        if is_timed(last) {
            prefix.push(
                NoteHighlight {
                    index: (notes.len() - 1) as usize,
                    state: spec_note_state(note_start(last), note_duration(last), beat_milli),
                },
            )
        } else {
            prefix
        }
    }
}

/// The highlight of every timed note of a line at a beat, one entry
/// per timed note, in original order.
pub fn highlight(line: &Line, beat_milli: i64) -> (r: Vec<NoteHighlight>)
    requires
        -BEAT_MILLI_BOUND < beat_milli < BEAT_MILLI_BOUND,
    ensures
        r@ == spec_highlight(line.notes@, beat_milli as int),
{
    let n = line.notes.len();
    let mut r: Vec<NoteHighlight> = Vec::new();
    proof {
        assert(line.notes@.take(0) =~= Seq::<Note>::empty());
    }
    let mut i: usize = 0;
    while i < n
        invariant
            n == line.notes@.len(),
            i <= n,
            -BEAT_MILLI_BOUND < beat_milli < BEAT_MILLI_BOUND,
            r@ == spec_highlight(line.notes@.take(i as int), beat_milli as int),
        decreases n - i,
    {
        proof {
            let t = line.notes@.take(i + 1);
            assert(t.last() == line.notes@[i as int]);
            assert(t.drop_last() =~= line.notes@.take(i as int));
        }
        match &line.notes[i] {
            Note::Regular { start, duration, .. } => {
                let state = note_state(*start, *duration, beat_milli);
                r.push(NoteHighlight { index: i, state });
            },
            Note::Golden { start, duration, .. } => {
                let state = note_state(*start, *duration, beat_milli);
                r.push(NoteHighlight { index: i, state });
            },
            Note::Freestyle { start, duration, .. } => {
                let state = note_state(*start, *duration, beat_milli);
                r.push(NoteHighlight { index: i, state });
            },
            Note::PlayerChange { .. } => {},
        }
        i = i + 1;
    }
    proof {
        assert(line.notes@.take(n as int) =~= line.notes@);
    }
    r
}

/// Highlighting is pure: two results obtained from identical inputs
/// are identical, so re-rendering a line at the same beat can never
/// change what is shown.
pub proof fn lemma_highlight_idempotent(
    notes: Seq<Note>,
    beat_milli: int,
    r1: Seq<NoteHighlight>,
    r2: Seq<NoteHighlight>,
)
    requires
        r1 == spec_highlight(notes, beat_milli),
        r2 == spec_highlight(notes, beat_milli),
    ensures
        r1 == r2,
{
}

/// For a note of positive duration: at its start beat it is active
/// with zero progress, at its end beat it is active with full
/// progress, and at any later beat it is played.
pub proof fn lemma_active_boundaries(start: int, duration: int)
    requires
        0 < duration,
    ensures
        spec_note_state(start, duration, 1000 * start) == (HighlightState::Active {
            progress_milli: 0,
        }),
        spec_note_state(start, duration, 1000 * (start + duration)) == (HighlightState::Active {
            progress_milli: 1000,
        }),
        forall|b: int|
            b > 1000 * (start + duration) ==> spec_note_state(start, duration, b)
                == HighlightState::Played,
{
    lemma_div_is_ordered(0, 0, duration);
    lemma_div_multiples_vanish(1000, duration);
    assert(duration * 1000 == 1000 * duration) by (nonlinear_arith);
    assert(1000 * (start + duration) - 1000 * start == 1000 * duration);
}

/// The final render pass of a line being left evaluates the line one
/// thousandth of a beat-unit past its end; every note that ends by the
/// line's end then renders as played, so no partial highlight
/// survives the transition.
pub proof fn lemma_flush_plays_note(start: int, duration: int, last_end: int)
    requires
        0 <= duration,
        start + duration <= last_end,
    ensures
        spec_note_state(start, duration, 1000 * last_end + 1) == HighlightState::Played,
{
}

/// For a note of zero duration no division ever happens: the note is
/// complete with full progress the moment the beat reaches its start,
/// and at any later beat it is played.
pub proof fn lemma_zero_duration(start: int)
    ensures
        spec_note_state(start, 0, 1000 * start) == (HighlightState::Active {
            progress_milli: 1000,
        }),
        forall|b: int|
            b > 1000 * start ==> spec_note_state(start, 0, b) == HighlightState::Played,
{
}

} // verus!
