//! Estimating the dominant musical note of a microphone buffer.
//!
//! The estimator scans a fixed scale of candidate notes, one per
//! semitone. For each candidate it shifts the buffer by the candidate's
//! period in samples and accumulates the absolute differences between
//! the buffer and its shifted copy over the overlapping region: the
//! smaller this mismatch, the more periodic the signal is at that lag.
//! Normalized by the buffer length, the mismatch gives the familiar
//! similarity score `1 - mismatch / length`; the length is the same
//! for every candidate, so the candidate with the maximal score is
//! exactly the candidate with the minimal mismatch, and the raw
//! mismatch is what this module computes and compares.
//!
//! Samples are the raw signed 16-bit amplitudes a capture device
//! delivers; frequencies are held in millihertz.
use vstd::prelude::*;

use vstd::string::StringExecFns;

use crate::note::{
    letter_name, letter_of_pitch, spec_letter_name, spec_letter_of_pitch, Letter,
};
use crate::CoreError;

verus! {

/// The lowest candidate of the scale: C in octave 2, as a semitone step
/// in the convention that puts A of octave 4 at step 69.
pub const LOW_STEP: u32 = 36;

/// The first step above the scale: A in octave 5. The candidates are
/// the steps `LOW_STEP..HIGH_STEP`, two octaves less a minor third.
pub const HIGH_STEP: u32 = 81;

/// The largest sample buffer the estimator accepts; keeps the mismatch
/// accumulator far from overflow. Capture buffers are a few thousand
/// samples.
pub const MAX_BUFFER_LEN: usize = 0x1000_0000;

/// The frequency in millihertz that `pitch_calc` assigns to a semitone
/// step; opaque to the proofs, fixed by the step alone.
pub uninterp spec fn hz_milli_of_step(step: int) -> int;

/// Relies on `pitch_calc::Step::to_hz`: the frequency of a semitone
/// step in twelve-tone equal temperament with A of octave 4 (step 69)
/// at 440 Hz, each step a factor of the twelfth root of two; the result
/// depends on the step alone, converted here to millihertz. The bounds
/// are those of the scale's ends: step 36 is C of octave 2 at about
/// 65.4 Hz and step 80 is G sharp of octave 5 at about 830.6 Hz.
#[verifier::external_body]
fn step_to_hz_milli(step: u32) -> (r: u64)
    requires
        LOW_STEP <= step < HIGH_STEP,
    ensures
        r == hz_milli_of_step(step as int),
        60_000 <= r <= 900_000,
{
    let hz = pitch_calc::Step(step as _).to_hz().hz();
    let milli_scale = pitch_calc::Hz(1000u16 as _).hz();
    (hz * milli_scale).round() as u64
}

/// Division of positives rounded to the nearest integer, halves away
/// from zero.
pub open spec fn spec_round_div(a: int, b: int) -> int {
    (2 * a + b) / (2 * b)
}

/// The period of a candidate step in samples at a given sample rate:
/// the sample rate divided by the candidate's frequency, rounded to the
/// nearest whole sample.
pub open spec fn spec_lag(sample_rate: int, step: int) -> int {
    spec_round_div(sample_rate * 1000, hz_milli_of_step(step))
}

/// The period of a candidate step in samples at the given sample rate.
pub fn candidate_period(sample_rate: u32, step: u32) -> (r: u64)
    requires
        LOW_STEP <= step < HIGH_STEP,
    ensures
        r == spec_lag(sample_rate as int, step as int),
{
    let hz = step_to_hz_milli(step);
    let num: u64 = 2 * (sample_rate as u64) * 1000 + hz;
    let den: u64 = 2 * hz;
    num / den
}

/// The absolute difference of two integers.
pub open spec fn abs_diff(a: int, b: int) -> int {
    if a >= b {
        a - b
    } else {
        b - a
    }
}

/// The accumulated mismatch of a buffer against its copy shifted by
/// `lag`, over the first `n` overlapping positions.
pub open spec fn spec_mismatch_upto(s: Seq<i16>, lag: int, n: int) -> int
    decreases n,
{
    if n <= 0 {
        0
    } else {
        spec_mismatch_upto(s, lag, n - 1) + abs_diff(s[n - 1] as int, s[n - 1 + lag] as int)
    }
}

/// The accumulated mismatch of a buffer against its copy shifted by
/// `lag`, over the whole overlapping region. Zero mismatch means the
/// buffer repeats itself perfectly at that period.
pub open spec fn spec_mismatch(s: Seq<i16>, lag: int) -> int {
    spec_mismatch_upto(s, lag, s.len() - lag)
}

/// The accumulated mismatch of the buffer against itself shifted by
/// `lag` samples.
pub fn autocorrelation_mismatch(samples: &[i16], lag: usize) -> (r: u64)
    requires
        lag < samples@.len(),
        samples@.len() <= MAX_BUFFER_LEN,
    ensures
        r == spec_mismatch(samples@, lag as int),
{
    let n = samples.len() - lag;
    let mut acc: u64 = 0;
    let mut i: usize = 0;
    while i < n
        invariant
            n == samples@.len() - lag,
            lag < samples@.len() <= MAX_BUFFER_LEN,
            i <= n,
            acc == spec_mismatch_upto(samples@, lag as int, i as int),
            acc <= i * 0x10000,
        decreases n - i,
    {
        let a = samples[i] as i32;
        let b = samples[i + lag] as i32;
        let d: i32 = if a >= b {
            a - b
        } else {
            b - a
        };
        acc = acc + (d as u64);
        i = i + 1;
    }
    acc
}

/// The absolute value of a sample.
pub open spec fn spec_abs16(x: int) -> int {
    if x >= 0 {
        x
    } else {
        -x
    }
}

/// The maximal absolute sample value among the first `n` samples.
pub open spec fn spec_max_amplitude_upto(s: Seq<i16>, n: int) -> int
    decreases n,
{
    if n <= 0 {
        0
    } else if spec_abs16(s[n - 1] as int) > spec_max_amplitude_upto(s, n - 1) {
        spec_abs16(s[n - 1] as int)
    } else {
        spec_max_amplitude_upto(s, n - 1)
    }
}

/// The maximal absolute sample value of a buffer; zero for an empty
/// buffer.
pub open spec fn spec_max_amplitude(s: Seq<i16>) -> int {
    spec_max_amplitude_upto(s, s.len() as int)
}

/// The maximal absolute sample value of a buffer.
pub fn get_max_amplitude(samples: &[i16]) -> (r: u16)
    ensures
        r == spec_max_amplitude(samples@),
{
    let n = samples.len();
    let mut best: u16 = 0;
    let mut i: usize = 0;
    while i < n
        invariant
            n == samples@.len(),
            i <= n,
            best == spec_max_amplitude_upto(samples@, i as int),
        decreases n - i,
    {
        let v = samples[i];
        let a: u16 = if v >= 0 {
            v as u16
        } else {
            (-(v as i32)) as u16
        };
        if a > best {
            best = a;
        }
        i = i + 1;
    }
    best
}

/// Whether a buffer is loud enough for pitch estimation. The capture
/// side normalizes a sample to `2 * x / 32767` and gates estimation at
/// a normalized amplitude of one tenth; over the raw values that is
/// exactly `20 * max > 32767`.
pub open spec fn spec_above_threshold(s: Seq<i16>) -> bool {
    20 * spec_max_amplitude(s) > 32767
}

/// Whether a buffer is loud enough for pitch estimation.
pub fn above_silence_threshold(samples: &[i16]) -> (r: bool)
    ensures
        r == spec_above_threshold(samples@),
{
    let m = get_max_amplitude(samples);
    20 * (m as u32) > 32767
}

/// For a buffer of uniform silence the maximal amplitude is zero and
/// the capture gate suppresses pitch estimation: `process_capture`
/// then reports that no note was heard.
pub proof fn lemma_silence_suppresses(s: Seq<i16>)
    requires
        forall|i: int| 0 <= i < s.len() ==> s[i] == 0,
    ensures
        spec_max_amplitude(s) == 0,
        !spec_above_threshold(s),
{
    lemma_silence_upto(s, s.len() as int);
}

proof fn lemma_silence_upto(s: Seq<i16>, n: int)
    requires
        n <= s.len(),
        forall|i: int| 0 <= i < s.len() ==> s[i] == 0,
    ensures
        spec_max_amplitude_upto(s, n) == 0,
    decreases n,
{
    if n > 0 {
        lemma_silence_upto(s, n - 1);
    }
}

/// One candidate of the scale with its accumulated mismatch, the
/// integer stand-in for the similarity score `1 - mismatch / length`:
/// the length is common to all candidates, so the candidate of maximal
/// score is the candidate of minimal mismatch.
#[derive(Clone, Copy, Debug, PartialEq, Eq, Structural)]
pub struct NoteWeight {
    pub step: u32,
    pub mismatch: u64,
}

/// The estimated dominant note, as a semitone step of the candidate
/// scale.
#[derive(Clone, Copy, Debug, PartialEq, Eq, Structural)]
pub struct EstimatedNote {
    pub step: u32,
}

impl EstimatedNote {
    /// An estimate always lies on the candidate scale.
    pub open spec fn wf(self) -> bool {
        LOW_STEP <= self.step < HIGH_STEP
    }

    /// The chromatic letter of the estimate.
    pub fn letter(&self) -> (r: Letter)
        requires
            self.wf(),
        ensures
            r == spec_letter_of_pitch(self.step as int),
    {
        letter_of_pitch(self.step as i32)
    }

    /// The octave of the estimate, with A at 440 Hz lying in octave 4.
    pub fn octave(&self) -> (r: u32)
        requires
            self.wf(),
        ensures
            r == self.step as int / 12 - 1,
    {
        self.step / 12 - 1
    }

    /// The display label of the estimate: its letter name followed by
    /// its octave.
    pub fn label(&self) -> (r: String)
        requires
            self.wf(),
        ensures
            r@ == spec_note_label(self.step as int),
    {
        let mut s = String::new();
        s.append(letter_name(self.letter()));
        let o = self.octave();
        let digit: &str = if o == 2 {
            "2"
        } else if o == 3 {
            "3"
        } else if o == 4 {
            "4"
        } else if o == 5 {
            "5"
        } else {
            "?"
        };
        s.append(digit);
        proof {
            assert(s@ =~= spec_note_label(self.step as int));
        }
        s
    }
}

/// The digit of an octave of the candidate scale, which spans octaves
/// two through five.
pub open spec fn spec_octave_digit(o: int) -> Seq<char> {
    if o == 2 {
        "2"@
    } else if o == 3 {
        "3"@
    } else if o == 4 {
        "4"@
    } else if o == 5 {
        "5"@
    } else {
        "?"@
    }
}

/// The display label of an estimated step: its letter name followed
/// by its octave digit.
pub open spec fn spec_note_label(step: int) -> Seq<char> {
    spec_letter_name(spec_letter_of_pitch(step)) + spec_octave_digit(step / 12 - 1)
}

/// The mismatch of every candidate of the scale against the buffer, in
/// scale order, or `InvalidInput` when the buffer is no longer than
/// some candidate's period, which would leave that candidate with an
/// empty overlap and a vacuously perfect score.
pub fn get_note_weights(samples: &[i16], sample_rate: u32) -> (r: Result<
    Vec<NoteWeight>,
    CoreError,
>)
    requires
        samples@.len() <= MAX_BUFFER_LEN,
    ensures
        match r {
            Ok(w) => {
                &&& w@.len() == HIGH_STEP - LOW_STEP
                &&& forall|k: int|
                    0 <= k < w@.len() ==> {
                        &&& (#[trigger] w@[k]).step == LOW_STEP + k
                        &&& w@[k].mismatch == spec_mismatch(
                            samples@,
                            spec_lag(sample_rate as int, LOW_STEP + k),
                        )
                        &&& samples@.len() > spec_lag(sample_rate as int, LOW_STEP + k)
                    }
            },
            Err(e) => {
                &&& e == CoreError::InvalidInput
                &&& exists|st: int|
                    LOW_STEP <= st < HIGH_STEP && samples@.len() <= spec_lag(
                        sample_rate as int,
                        st,
                    )
            },
        },
{
    let mut w: Vec<NoteWeight> = Vec::new();
    let mut step: u32 = LOW_STEP;
    while step < HIGH_STEP
        invariant
            LOW_STEP <= step <= HIGH_STEP,
            samples@.len() <= MAX_BUFFER_LEN,
            w@.len() == step - LOW_STEP,
            forall|k: int|
                0 <= k < w@.len() ==> {
                    &&& (#[trigger] w@[k]).step == LOW_STEP + k
                    &&& w@[k].mismatch == spec_mismatch(
                        samples@,
                        spec_lag(sample_rate as int, LOW_STEP + k),
                    )
                    &&& samples@.len() > spec_lag(sample_rate as int, LOW_STEP + k)
                },
        decreases HIGH_STEP - step,
    {
        let period = candidate_period(sample_rate, step);
        if (samples.len() as u64) <= period {
            proof {
                assert(LOW_STEP <= step && step < HIGH_STEP && samples@.len() <= spec_lag(
                    sample_rate as int,
                    step as int,
                ));
            }
            return Err(CoreError::InvalidInput);
        }
        let lag = period as usize;
        let m = autocorrelation_mismatch(samples, lag);
        w.push(NoteWeight { step, mismatch: m });
        step = step + 1;
    }
    Ok(w)
}

/// The candidate of the scale whose mismatch against the buffer is
/// minimal — the candidate of maximal similarity score — with ties
/// broken in favor of the lowest candidate, or `InvalidInput` when the
/// buffer is no longer than some candidate's period.
pub fn get_dominant_note(samples: &[i16], sample_rate: u32) -> (r: Result<
    EstimatedNote,
    CoreError,
>)
    requires
        samples@.len() <= MAX_BUFFER_LEN,
    ensures
        match r {
            Ok(n) => {
                &&& n.wf()
                &&& forall|st: int|
                    LOW_STEP <= st < HIGH_STEP ==> samples@.len() > #[trigger] spec_lag(
                        sample_rate as int,
                        st,
                    ) && spec_mismatch(samples@, spec_lag(sample_rate as int, st))
                        >= spec_mismatch(samples@, spec_lag(sample_rate as int, n.step as int))
                &&& forall|st: int|
                    LOW_STEP <= st < n.step ==> spec_mismatch(
                        samples@,
                        #[trigger] spec_lag(sample_rate as int, st),
                    ) > spec_mismatch(samples@, spec_lag(sample_rate as int, n.step as int))
            },
            Err(e) => {
                &&& e == CoreError::InvalidInput
                &&& exists|st: int|
                    LOW_STEP <= st < HIGH_STEP && samples@.len() <= spec_lag(
                        sample_rate as int,
                        st,
                    )
            },
        },
{
    let w = match get_note_weights(samples, sample_rate) {
        Ok(w) => w,
        Err(e) => {
            return Err(e);
        },
    };
    let mut best_step: u32 = w[0].step;
    let mut best_mismatch: u64 = w[0].mismatch;
    let mut best_at: usize = 0;
    let mut k: usize = 1;
    while k < w.len()
        invariant
            w@.len() == HIGH_STEP - LOW_STEP,
            samples@.len() <= MAX_BUFFER_LEN,
            forall|j: int|
                0 <= j < w@.len() ==> {
                    &&& (#[trigger] w@[j]).step == LOW_STEP + j
                    &&& w@[j].mismatch == spec_mismatch(
                        samples@,
                        spec_lag(sample_rate as int, LOW_STEP + j),
                    )
                    &&& samples@.len() > spec_lag(sample_rate as int, LOW_STEP + j)
                },
            1 <= k <= w@.len(),
            best_at < k,
            best_step == w@[best_at as int].step,
            best_mismatch == w@[best_at as int].mismatch,
            forall|j: int| 0 <= j < k ==> (#[trigger] w@[j]).mismatch >= best_mismatch,
            forall|j: int| 0 <= j < best_at ==> (#[trigger] w@[j]).mismatch > best_mismatch,
        decreases w@.len() - k,
    {
        if w[k].mismatch < best_mismatch {
            best_step = w[k].step;
            best_mismatch = w[k].mismatch;
            best_at = k;
        }
        k = k + 1;
    }
    proof {
        assert(best_step == LOW_STEP + best_at);
        assert forall|st: int| LOW_STEP <= st < HIGH_STEP implies samples@.len()
            > #[trigger] spec_lag(sample_rate as int, st) && spec_mismatch(
            samples@,
            spec_lag(sample_rate as int, st),
        ) >= spec_mismatch(samples@, spec_lag(sample_rate as int, best_step as int)) by {
            let j = st - LOW_STEP;
            assert(w@[j].step == LOW_STEP + j);
            assert(w@[j].mismatch >= best_mismatch);
        }
        assert forall|st: int| LOW_STEP <= st < best_step implies spec_mismatch(
            samples@,
            #[trigger] spec_lag(sample_rate as int, st),
        ) > spec_mismatch(samples@, spec_lag(sample_rate as int, best_step as int)) by {
            let j = st - LOW_STEP;
            assert(w@[j].step == LOW_STEP + j);
            assert(w@[j].mismatch > best_mismatch);
        }
    }
    Ok(EstimatedNote { step: best_step })
}

/// What the capture loop computes from one filled buffer: nothing when
/// the buffer is below the silence threshold, otherwise the dominant
/// note, or `InvalidInput` when the buffer is no longer than some
/// candidate's period.
pub fn process_capture(samples: &[i16], sample_rate: u32) -> (r: Result<
    Option<EstimatedNote>,
    CoreError,
>)
    requires
        samples@.len() <= MAX_BUFFER_LEN,
    ensures
        match r {
            Ok(opt) => match opt {
                None => !spec_above_threshold(samples@),
                Some(n) => {
                    &&& spec_above_threshold(samples@)
                    &&& n.wf()
                    &&& forall|st: int|
                        LOW_STEP <= st < HIGH_STEP ==> samples@.len() > #[trigger] spec_lag(
                            sample_rate as int,
                            st,
                        ) && spec_mismatch(samples@, spec_lag(sample_rate as int, st))
                            >= spec_mismatch(samples@, spec_lag(sample_rate as int, n.step as int))
                    &&& forall|st: int|
                        LOW_STEP <= st < n.step ==> spec_mismatch(
                            samples@,
                            #[trigger] spec_lag(sample_rate as int, st),
                        ) > spec_mismatch(samples@, spec_lag(sample_rate as int, n.step as int))
                },
            },
            Err(e) => {
                &&& spec_above_threshold(samples@)
                &&& e == CoreError::InvalidInput
                &&& exists|st: int|
                    LOW_STEP <= st < HIGH_STEP && samples@.len() <= spec_lag(
                        sample_rate as int,
                        st,
                    )
            },
        },
{
    if !above_silence_threshold(samples) {
        return Ok(None);
    }
    match get_dominant_note(samples, sample_rate) {
        Ok(n) => Ok(Some(n)),
        Err(e) => Err(e),
    }
}

} // verus!
