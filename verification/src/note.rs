//! The data model of a song: notes, lyric lines, and the chromatic
//! letters used to place a note on the seventeen-row pitch display.
use vstd::prelude::*;

use crate::CoreError;

verus! {

/// The letters of the chromatic scale. Both the sharp and the flat
/// spelling of the five black keys get a display row of their own,
/// seventeen rows in all; pitches map onto the twelve sharp spellings.
#[derive(Clone, Copy, Debug, PartialEq, Eq, Structural)]
pub enum Letter {
    C,
    Csh,
    Db,
    D,
    Dsh,
    Eb,
    E,
    F,
    Fsh,
    Gb,
    G,
    Gsh,
    Ab,
    A,
    Ash,
    Bb,
    B,
}

/// The kind of a sung note; the kind affects only color classification.
#[derive(Clone, Copy, Debug, PartialEq, Eq, Structural)]
pub enum NoteKind {
    Regular,
    Golden,
    Freestyle,
}

/// One note of a lyric line: a sung syllable with a start beat, a
/// duration in beats and a target pitch in semitones, or a player-change
/// marker that carries no timing at all.
#[derive(Debug, PartialEq)]
pub enum Note {
    Regular { start: i32, duration: i32, pitch: i32, text: String },
    Golden { start: i32, duration: i32, pitch: i32, text: String },
    Freestyle { start: i32, duration: i32, pitch: i32, text: String },
    PlayerChange { player: i32 },
}

/// One on-screen lyric phrase: an ordered run of notes, the order being
/// the performance order, plus the line's own start beat.
#[derive(Debug, PartialEq)]
pub struct Line {
    pub start: i32,
    pub notes: Vec<Note>,
}

/// Whether a note carries timing and pitch, which player-change markers
/// do not.
pub open spec fn is_timed(n: Note) -> bool {
    !(n is PlayerChange)
}

/// The start beat of a timed note.
pub open spec fn note_start(n: Note) -> int {
    match n {
        Note::Regular { start, .. } => start as int,
        Note::Golden { start, .. } => start as int,
        Note::Freestyle { start, .. } => start as int,
        Note::PlayerChange { .. } => 0,
    }
}

/// The duration in beats of a timed note.
pub open spec fn note_duration(n: Note) -> int {
    match n {
        Note::Regular { duration, .. } => duration as int,
        Note::Golden { duration, .. } => duration as int,
        Note::Freestyle { duration, .. } => duration as int,
        Note::PlayerChange { .. } => 0,
    }
}

/// The pitch in semitones of a timed note.
pub open spec fn note_pitch(n: Note) -> int {
    match n {
        Note::Regular { pitch, .. } => pitch as int,
        Note::Golden { pitch, .. } => pitch as int,
        Note::Freestyle { pitch, .. } => pitch as int,
        Note::PlayerChange { .. } => 0,
    }
}

/// The syllable text of a timed note.
pub open spec fn note_text(n: Note) -> Seq<char> {
    match n {
        Note::Regular { text, .. } => text@,
        Note::Golden { text, .. } => text@,
        Note::Freestyle { text, .. } => text@,
        Note::PlayerChange { .. } => Seq::empty(),
    }
}

/// The kind of a timed note; meaningful only under `is_timed`.
pub open spec fn note_kind(n: Note) -> NoteKind {
    match n {
        Note::Regular { .. } => NoteKind::Regular,
        Note::Golden { .. } => NoteKind::Golden,
        Note::Freestyle { .. } => NoteKind::Freestyle,
        Note::PlayerChange { .. } => NoteKind::Regular,
    }
}

/// Whether a run of notes holds at least one timed note. A line without
/// one is invalid and is rejected rather than rendered.
pub open spec fn has_timed(notes: Seq<Note>) -> bool {
    exists|i: int| 0 <= i < notes.len() && is_timed(notes[i])
}

/// The start beat of the first timed note of a run; zero when there is
/// none, in which case the value is meaningless.
pub open spec fn spec_first_start(notes: Seq<Note>) -> int
    decreases notes.len(),
{
    if notes.len() == 0 {
        0
    } else if is_timed(notes[0]) {
        note_start(notes[0])
    } else {
        spec_first_start(notes.drop_first())
    }
}

/// The end beat (start plus duration) of the last timed note of a run;
/// zero when there is none, in which case the value is meaningless.
pub open spec fn spec_last_end(notes: Seq<Note>) -> int
    decreases notes.len(),
{
    if notes.len() == 0 {
        0
    } else if is_timed(notes.last()) {
        note_start(notes.last()) + note_duration(notes.last())
    } else {
        spec_last_end(notes.drop_last())
    }
}

/// Validity of a lyric line's notes: timed notes come in performance
/// order (starts non-decreasing) and none lasts a negative number of
/// beats. The loader checks this once per line before the line enters
/// the render pipeline.
pub open spec fn line_wf(notes: Seq<Note>) -> bool {
    &&& forall|i: int|
        0 <= i < notes.len() && is_timed(#[trigger] notes[i]) ==> note_duration(notes[i]) >= 0
    &&& forall|i: int, j: int|
        0 <= i < j < notes.len() && is_timed(#[trigger] notes[i]) && is_timed(
            #[trigger] notes[j],
        ) ==> note_start(notes[i]) <= note_start(notes[j])
}

/// The first timed note of a run is a witness for `spec_first_start`:
/// it is timed, starts at `spec_first_start`, and nothing timed comes
/// before it.
pub proof fn lemma_first_start_witness(notes: Seq<Note>)
    requires
        has_timed(notes),
    ensures
        exists|i: int|
            0 <= i < notes.len() && is_timed(#[trigger] notes[i]) && note_start(notes[i])
                == spec_first_start(notes) && (forall|j: int| 0 <= j < i ==> !is_timed(notes[j])),
    decreases notes.len(),
{
    if is_timed(notes[0]) {
        assert(0 <= 0 < notes.len() && is_timed(notes[0]) && note_start(notes[0])
            == spec_first_start(notes) && (forall|j: int| 0 <= j < 0 ==> !is_timed(notes[j])));
    } else {
        let rest = notes.drop_first();
        assert(has_timed(rest)) by {
            let w = choose|i: int| 0 <= i < notes.len() && is_timed(notes[i]);
            assert(w != 0);
            assert(rest[w - 1] == notes[w]);
        }
        lemma_first_start_witness(rest);
        let i = choose|i: int|
            0 <= i < rest.len() && is_timed(#[trigger] rest[i]) && note_start(rest[i])
                == spec_first_start(rest) && (forall|j: int| 0 <= j < i ==> !is_timed(rest[j]));
        assert(rest[i] == notes[i + 1]);
        assert(forall|j: int| 0 <= j < i + 1 ==> !is_timed(#[trigger] notes[j])) by {
            assert(forall|j: int| 1 <= j < i + 1 ==> notes[j] == rest[j - 1]);
        }
        assert(0 <= i + 1 < notes.len() && is_timed(notes[i + 1]) && note_start(notes[i + 1])
            == spec_first_start(notes) && (forall|j: int| 0 <= j < i + 1 ==> !is_timed(notes[j])));
    }
}

/// The last timed note of a run is a witness for `spec_last_end`: it is
/// timed, ends at `spec_last_end`, and nothing timed comes after it.
pub proof fn lemma_last_end_witness(notes: Seq<Note>)
    requires
        has_timed(notes),
    ensures
        exists|i: int|
            0 <= i < notes.len() && is_timed(#[trigger] notes[i]) && note_start(notes[i])
                + note_duration(notes[i]) == spec_last_end(notes) && (forall|j: int|
                i < j < notes.len() ==> !is_timed(notes[j])),
    decreases notes.len(),
{
    let n = notes.len() as int;
    if is_timed(notes[n - 1]) {
        assert(0 <= n - 1 < notes.len() && is_timed(notes[n - 1]) && note_start(notes[n - 1])
            + note_duration(notes[n - 1]) == spec_last_end(notes) && (forall|j: int|
            n - 1 < j < notes.len() ==> !is_timed(notes[j])));
    } else {
        let rest = notes.drop_last();
        assert(has_timed(rest)) by {
            let w = choose|i: int| 0 <= i < notes.len() && is_timed(notes[i]);
            assert(w != n - 1);
            assert(rest[w] == notes[w]);
        }
        lemma_last_end_witness(rest);
        let i = choose|i: int|
            0 <= i < rest.len() && is_timed(#[trigger] rest[i]) && note_start(rest[i])
                + note_duration(rest[i]) == spec_last_end(rest) && (forall|j: int|
                i < j < rest.len() ==> !is_timed(rest[j]));
        assert(rest[i] == notes[i]);
        assert(forall|j: int| i < j < notes.len() ==> !is_timed(#[trigger] notes[j])) by {
            assert(forall|j: int| i < j < n - 1 ==> notes[j] == rest[j]);
        }
        assert(0 <= i < notes.len() && is_timed(notes[i]) && note_start(notes[i]) + note_duration(
            notes[i],
        ) == spec_last_end(notes) && (forall|j: int| i < j < notes.len() ==> !is_timed(notes[j])));
    }
}

/// In a well-formed run, every timed note starts no earlier than
/// `spec_first_start` and no later than `spec_last_end`, and the two
/// bounds themselves are ordered. These facts make the layout geometry
/// fit the line's width.
pub proof fn lemma_timed_bounds(notes: Seq<Note>)
    requires
        line_wf(notes),
        has_timed(notes),
    ensures
        forall|k: int|
            0 <= k < notes.len() && is_timed(#[trigger] notes[k]) ==> spec_first_start(notes)
                <= note_start(notes[k]) && note_start(notes[k]) <= spec_last_end(notes),
        spec_first_start(notes) <= spec_last_end(notes),
{
    lemma_first_start_witness(notes);
    lemma_last_end_witness(notes);
    let f = choose|i: int|
        0 <= i < notes.len() && is_timed(#[trigger] notes[i]) && note_start(notes[i])
            == spec_first_start(notes) && (forall|j: int| 0 <= j < i ==> !is_timed(notes[j]));
    let l = choose|i: int|
        0 <= i < notes.len() && is_timed(#[trigger] notes[i]) && note_start(notes[i])
            + note_duration(notes[i]) == spec_last_end(notes) && (forall|j: int|
            i < j < notes.len() ==> !is_timed(notes[j]));
    assert forall|k: int|
        0 <= k < notes.len() && is_timed(#[trigger] notes[k]) implies spec_first_start(notes)
        <= note_start(notes[k]) && note_start(notes[k]) <= spec_last_end(notes) by {
        assert(f <= k <= l);
        assert(note_start(notes[f]) <= note_start(notes[k]));
        assert(note_start(notes[k]) <= note_start(notes[l]));
        assert(note_duration(notes[l]) >= 0);
    }
    assert(is_timed(notes[f]));
}

impl Line {
    /// The start beat of the line's first timed note, or `NoTimedNotes`
    /// when the line has none.
    pub fn first_start(&self) -> (r: Result<i32, CoreError>)
        ensures
            match r {
                Ok(s) => has_timed(self.notes@) && s == spec_first_start(self.notes@),
                Err(e) => e == CoreError::NoTimedNotes && !has_timed(self.notes@),
            },
    {
        let n = self.notes.len();
        proof {
            assert(self.notes@.skip(0) =~= self.notes@);
        }
        for i in 0..n
            invariant
                n == self.notes@.len(),
                forall|j: int| 0 <= j < i ==> !is_timed(self.notes@[j]),
                spec_first_start(self.notes@) == spec_first_start(self.notes@.skip(i as int)),
        {
            proof {
                assert(self.notes@.skip(i as int)[0] == self.notes@[i as int]);
            }
            match &self.notes[i] {
                Note::Regular { start, .. } => {
                    return Ok(*start);
                },
                Note::Golden { start, .. } => {
                    return Ok(*start);
                },
                Note::Freestyle { start, .. } => {
                    return Ok(*start);
                },
                Note::PlayerChange { .. } => {
                    proof {
                        let s = self.notes@.skip(i as int);
                        assert(s.drop_first() =~= self.notes@.skip(i + 1));
                    }
                },
            }
        }
        Err(CoreError::NoTimedNotes)
    }

    /// The end beat (start plus duration, as a widened 64-bit value) of
    /// the line's last timed note, or `NoTimedNotes` when the line has
    /// none.
    pub fn last_end(&self) -> (r: Result<i64, CoreError>)
        ensures
            match r {
                Ok(e) => has_timed(self.notes@) && e == spec_last_end(self.notes@)
                    && -0x1_0000_0000 <= e < 0x1_0000_0000,
                Err(e) => e == CoreError::NoTimedNotes && !has_timed(self.notes@),
            },
    {
        let n = self.notes.len();
        proof {
            assert(self.notes@.take(n as int) =~= self.notes@);
        }
        let mut i = n;
        while i > 0
            invariant
                n == self.notes@.len(),
                i <= n,
                forall|j: int| i <= j < n ==> !is_timed(self.notes@[j]),
                spec_last_end(self.notes@) == spec_last_end(self.notes@.take(i as int)),
            decreases i,
        {
            i = i - 1;
            proof {
                let t = self.notes@.take(i + 1);
                assert(t.last() == self.notes@[i as int]);
                assert(t.drop_last() =~= self.notes@.take(i as int));
            }
            match &self.notes[i] {
                Note::Regular { start, duration, .. } => {
                    return Ok(*start as i64 + *duration as i64);
                },
                Note::Golden { start, duration, .. } => {
                    return Ok(*start as i64 + *duration as i64);
                },
                Note::Freestyle { start, duration, .. } => {
                    return Ok(*start as i64 + *duration as i64);
                },
                Note::PlayerChange { .. } => {},
            }
        }
        Err(CoreError::NoTimedNotes)
    }
}

impl Line {
    /// Whether the line's notes are well formed: timed notes in
    /// performance order with no negative duration. The loader runs
    /// this once per parsed line; an ill-formed line is rejected
    /// rather than handed to the layout.
    pub fn is_wf(&self) -> (r: bool)
        ensures
            r == line_wf(self.notes@),
    {
        let n = self.notes.len();
        let mut prev: Option<i32> = None;
        let mut i: usize = 0;
        while i < n
            invariant
                n == self.notes@.len(),
                i <= n,
                forall|j: int|
                    0 <= j < i && is_timed(#[trigger] self.notes@[j]) ==> note_duration(
                        self.notes@[j],
                    ) >= 0,
                forall|j: int, k: int|
                    0 <= j < k < i && is_timed(#[trigger] self.notes@[j]) && is_timed(
                        #[trigger] self.notes@[k],
                    ) ==> note_start(self.notes@[j]) <= note_start(self.notes@[k]),
                match prev {
                    Some(p) => (forall|j: int|
                        0 <= j < i && is_timed(#[trigger] self.notes@[j]) ==> note_start(
                            self.notes@[j],
                        ) <= p) && (exists|j: int|
                        0 <= j < i && is_timed(#[trigger] self.notes@[j]) && note_start(
                            self.notes@[j],
                        ) == p),
                    None => forall|j: int| 0 <= j < i ==> !is_timed(self.notes@[j]),
                },
            decreases n - i,
        {
            let timed: Option<(i32, i32)> = match &self.notes[i] {
                Note::Regular { start, duration, .. } => Some((*start, *duration)),
                Note::Golden { start, duration, .. } => Some((*start, *duration)),
                Note::Freestyle { start, duration, .. } => Some((*start, *duration)),
                Note::PlayerChange { .. } => None,
            };
            match timed {
                None => {},
                Some((start, duration)) => {
                    if duration < 0 {
                        return false;
                    }
                    match prev {
                        Some(p) => {
                            if start < p {
                                return false;
                            }
                        },
                        None => {},
                    }
                    prev = Some(start);
                },
            }
            i = i + 1;
        }
        true
    }
}

/// The sharp-spelling letter of a chromatic index in `0..12`.
pub open spec fn spec_letter_of_index(idx: int) -> Letter {
    if idx == 0 {
        Letter::C
    } else if idx == 1 {
        Letter::Csh
    } else if idx == 2 {
        Letter::D
    } else if idx == 3 {
        Letter::Dsh
    } else if idx == 4 {
        Letter::E
    } else if idx == 5 {
        Letter::F
    } else if idx == 6 {
        Letter::Fsh
    } else if idx == 7 {
        Letter::G
    } else if idx == 8 {
        Letter::Gsh
    } else if idx == 9 {
        Letter::A
    } else if idx == 10 {
        Letter::Ash
    } else {
        Letter::B
    }
}

/// The letter of a pitch given in semitones. Octaves repeat every
/// twelve semitones, so only the Euclidean remainder matters; this
/// holds for both the song files' C2-based pitches and the estimator's
/// A4-at-69 steps, because C2 itself is a C.
pub open spec fn spec_letter_of_pitch(pitch: int) -> Letter {
    spec_letter_of_index(pitch % 12)
}

/// The letter of a pitch in semitones; negative pitches wrap downward
/// through the scale.
pub fn letter_of_pitch(pitch: i32) -> (r: Letter)
    ensures
        r == spec_letter_of_pitch(pitch as int),
{
    let m = match pitch.checked_rem_euclid(12) {
        Some(m) => m,
        None => 0,
    };
    match m {
        0 => Letter::C,
        1 => Letter::Csh,
        2 => Letter::D,
        3 => Letter::Dsh,
        4 => Letter::E,
        5 => Letter::F,
        6 => Letter::Fsh,
        7 => Letter::G,
        8 => Letter::Gsh,
        9 => Letter::A,
        10 => Letter::Ash,
        _ => Letter::B,
    }
}

/// The display row index of a letter within the seventeen-row scale,
/// bottom row zero.
pub open spec fn spec_letter_pos(letter: Letter) -> int {
    match letter {
        Letter::C => 0,
        Letter::Csh => 1,
        Letter::Db => 2,
        Letter::D => 3,
        Letter::Dsh => 4,
        Letter::Eb => 5,
        Letter::E => 6,
        Letter::F => 7,
        Letter::Fsh => 8,
        Letter::Gb => 9,
        Letter::G => 10,
        Letter::Gsh => 11,
        Letter::Ab => 12,
        Letter::A => 13,
        Letter::Ash => 14,
        Letter::Bb => 15,
        Letter::B => 16,
    }
}

/// The display row index of a letter within the seventeen-row scale.
pub fn letter_to_pos(letter: Letter) -> (r: u16)
    ensures
        r == spec_letter_pos(letter),
{
    match letter {
        Letter::C => 0,
        Letter::Csh => 1,
        Letter::Db => 2,
        Letter::D => 3,
        Letter::Dsh => 4,
        Letter::Eb => 5,
        Letter::E => 6,
        Letter::F => 7,
        Letter::Fsh => 8,
        Letter::Gb => 9,
        Letter::G => 10,
        Letter::Gsh => 11,
        Letter::Ab => 12,
        Letter::A => 13,
        Letter::Ash => 14,
        Letter::Bb => 15,
        Letter::B => 16,
    }
}

/// The display name of a letter, as it appears beside a note bar and on
/// the status line.
pub open spec fn spec_letter_name(letter: Letter) -> Seq<char> {
    match letter {
        Letter::C => "C"@,
        Letter::Csh => "Csh"@,
        Letter::Db => "Db"@,
        Letter::D => "D"@,
        Letter::Dsh => "Dsh"@,
        Letter::Eb => "Eb"@,
        Letter::E => "E"@,
        Letter::F => "F"@,
        Letter::Fsh => "Fsh"@,
        Letter::Gb => "Gb"@,
        Letter::G => "G"@,
        Letter::Gsh => "Gsh"@,
        Letter::Ab => "Ab"@,
        Letter::A => "A"@,
        Letter::Ash => "Ash"@,
        Letter::Bb => "Bb"@,
        Letter::B => "B"@,
    }
}

/// The display name of a letter.
pub fn letter_name(letter: Letter) -> (r: &'static str)
    ensures
        r@ == spec_letter_name(letter),
{
    match letter {
        Letter::C => "C",
        Letter::Csh => "Csh",
        Letter::Db => "Db",
        Letter::D => "D",
        Letter::Dsh => "Dsh",
        Letter::Eb => "Eb",
        Letter::E => "E",
        Letter::F => "F",
        Letter::Fsh => "Fsh",
        Letter::Gb => "Gb",
        Letter::G => "G",
        Letter::Gsh => "Gsh",
        Letter::Ab => "Ab",
        Letter::A => "A",
        Letter::Ash => "Ash",
        Letter::Bb => "Bb",
        Letter::B => "B",
    }
}

} // verus!
