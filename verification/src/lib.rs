//! Core logic of a terminal karaoke player.
//!
//! The library covers the parts of the player that do real computational
//! work: estimating the dominant musical note of a microphone buffer by
//! autocorrelation, mapping a playback position onto the song's beat axis,
//! deriving the per-note highlight state of a lyric line from the current
//! beat, and computing the geometry and color classification that a
//! terminal renderer needs. Audio capture, playback, and the terminal
//! itself are collaborators that the surrounding binary owns; they hand
//! the library plain values and take plain values back.
//!
//! Fractional quantities are held in exact fixed-point form: beats in
//! thousandths of a beat, note progress in thousandths, frequencies in
//! millihertz, and sample amplitudes as the raw signed 16-bit values a
//! capture device delivers.
use vstd::prelude::*;

pub mod beat;
pub mod highlight;
pub mod layout;
pub mod note;
pub mod pitch;
pub mod playback;

verus! {

/// The failure conditions of the core: a sample buffer too short for the
/// autocorrelation scale, a lyric line whose timed notes span zero width,
/// and a lyric line without any timed note.
#[derive(Clone, Copy, Debug, PartialEq, Eq, Structural)]
pub enum CoreError {
    /// The input violates a caller contract, such as a sample buffer
    /// shorter than the largest autocorrelation shift.
    InvalidInput,
    /// The timed notes of a line cover no horizontal width, so no
    /// cells-per-beat scale exists for it.
    DegenerateLine,
    /// A line holds no regular, golden or freestyle note at all.
    NoTimedNotes,
}

} // verus!
