//! Mapping a playback position onto the song's beat axis.
use vstd::prelude::*;

use vstd::arithmetic::div_mod::lemma_div_is_ordered;

verus! {

/// The tempo metadata of a song: the beats per minute in thousandths
/// (a song file states the tempo as a fractional number) and the gap
/// in milliseconds between the start of the audio and beat zero.
#[derive(Clone, Copy, Debug, PartialEq, Eq, Structural)]
pub struct SongTiming {
    pub bpm_milli: u32,
    pub gap_ms: u32,
}

/// Song files state note starts and durations in quarters of a beat
/// while the tempo is whole-beat BPM; the factor is a fixed property
/// of the timing convention, inherited from the song format.
pub const BEAT_UNITS_PER_BEAT: u32 = 4;

/// No playback position yields a beat outside this bound: positions
/// and gaps are 32-bit milliseconds and tempos 32-bit milli-BPM, which
/// keeps `spec_beat_at` below `2^51`.
pub const BEAT_MILLI_BOUND: i64 = 0x10_0000_0000_0000;

/// The beat at a playback position, in thousandths of a beat-unit,
/// truncated toward zero: `(position_ms - gap_ms) * bpm / 60000 * 4`.
/// A negative value means the position lies before the gap, where the
/// song has not visually started yet.
pub open spec fn spec_beat_at(position_ms: int, timing: SongTiming) -> int {
    if position_ms >= timing.gap_ms {
        ((position_ms - timing.gap_ms) * timing.bpm_milli * BEAT_UNITS_PER_BEAT) / 60000
    } else {
        -(((timing.gap_ms - position_ms) * timing.bpm_milli * BEAT_UNITS_PER_BEAT) / 60000)
    }
}

/// The beat at a playback position, in thousandths of a beat-unit.
pub fn beat_at(position_ms: u32, timing: SongTiming) -> (r: i64)
    ensures
        r == spec_beat_at(position_ms as int, timing),
        -BEAT_MILLI_BOUND < r < BEAT_MILLI_BOUND,
{
    if position_ms >= timing.gap_ms {
        let diff = (position_ms - timing.gap_ms) as u128;
        proof {
            lemma_beat_bounded(diff as int, timing.bpm_milli as int);
        }
        let num = diff * (timing.bpm_milli as u128) * (BEAT_UNITS_PER_BEAT as u128);
        (num / 60000) as i64
    } else {
        let diff = (timing.gap_ms - position_ms) as u128;
        proof {
            lemma_beat_bounded(diff as int, timing.bpm_milli as int);
        }
        let num = diff * (timing.bpm_milli as u128) * (BEAT_UNITS_PER_BEAT as u128);
        -((num / 60000) as i64)
    }
}

proof fn lemma_beat_bounded(diff: int, bpm_milli: int)
    requires
        0 <= diff < 0x1_0000_0000,
        0 <= bpm_milli < 0x1_0000_0000,
    ensures
        0 <= diff * bpm_milli <= 0xffff_ffff * 0xffff_ffff,
        0 <= diff * bpm_milli * BEAT_UNITS_PER_BEAT <= 0xffff_ffff * 0xffff_ffff * 4int,
        0 <= (diff * bpm_milli * BEAT_UNITS_PER_BEAT) / 60000 < BEAT_MILLI_BOUND,
{
    assert(0 <= diff * bpm_milli <= 0xffff_ffff * 0xffff_ffff && 0 <= diff * bpm_milli
        * BEAT_UNITS_PER_BEAT <= 0xffff_ffff * 0xffff_ffff * 4int) by (nonlinear_arith)
        requires
            0 <= diff < 0x1_0000_0000,
            0 <= bpm_milli < 0x1_0000_0000,
    ;
    lemma_div_is_ordered(0, diff * bpm_milli * BEAT_UNITS_PER_BEAT, 60000);
    lemma_div_is_ordered(
        diff * bpm_milli * BEAT_UNITS_PER_BEAT,
        0xffff_ffff * 0xffff_ffff * 4int,
        60000,
    );
}

} // verus!
