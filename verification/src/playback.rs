//! The decisions of the playback loop: how its control flags react to
//! an event from the playback engine's bus, and when the player leaves
//! the current lyric line for the next one.
//!
//! The loop itself lives with the playback collaborator; each tick it
//! converts what the engine reported into a `BusEvent`, lets
//! `handle_event` fold it into the flags, and asks
//! `should_advance_line` whether the line pointers move.
use vstd::prelude::*;

use crate::note::{has_timed, spec_last_end, Line};
use crate::CoreError;

verus! {

/// One message from the playback engine's bus, reduced to what the
/// player's decisions depend on.
#[derive(Clone, Copy, Debug, PartialEq, Eq, Structural)]
pub enum BusEvent {
    /// The engine reported an unrecoverable error.
    Error,
    /// The end of the stream was reached.
    EndOfStream,
    /// The stream duration changed; any cached value is stale.
    DurationChanged,
    /// The engine changed state. `from_player` says whether the message
    /// came from the player's own playback element, `now_playing`
    /// whether the new state is the playing state.
    StateChanged { from_player: bool, now_playing: bool },
    /// Anything else; ignored.
    Other,
}

/// The playback loop's control state: whether playback is running,
/// whether the loop should end, and the cached stream duration in
/// milliseconds where known.
#[derive(Clone, Copy, Debug, PartialEq, Eq)]
pub struct PlayerFlags {
    pub playing: bool,
    pub terminate: bool,
    pub duration_ms: Option<u64>,
}

/// How the control flags react to one bus event: an error or the end
/// of the stream terminates the loop, a duration change drops the
/// cached duration, and a state change of the player's own element
/// records whether playback is running. Everything else changes
/// nothing.
pub open spec fn spec_handle_event(flags: PlayerFlags, ev: BusEvent) -> PlayerFlags {
    match ev {
        BusEvent::Error => PlayerFlags { terminate: true, ..flags },
        BusEvent::EndOfStream => PlayerFlags { terminate: true, ..flags },
        BusEvent::DurationChanged => PlayerFlags { duration_ms: None, ..flags },
        BusEvent::StateChanged { from_player, now_playing } => {
            if from_player {
                PlayerFlags { playing: now_playing, ..flags }
            } else {
                flags
            }
        },
        BusEvent::Other => flags,
    }
}

/// Folds one bus event into the control flags.
pub fn handle_event(flags: PlayerFlags, ev: &BusEvent) -> (r: PlayerFlags)
    ensures
        r == spec_handle_event(flags, *ev),
{
    match ev {
        BusEvent::Error => PlayerFlags { terminate: true, ..flags },
        BusEvent::EndOfStream => PlayerFlags { terminate: true, ..flags },
        BusEvent::DurationChanged => PlayerFlags { duration_ms: None, ..flags },
        BusEvent::StateChanged { from_player, now_playing } => {
            if *from_player {
                PlayerFlags { playing: *now_playing, ..flags }
            } else {
                flags
            }
        },
        BusEvent::Other => flags,
    }
}

/// The beat at which the player leaves the current line, in
/// thousandths of a beat-unit: the start of the next line, or, when no
/// line follows, a horizon a hundred beat-units past the current beat,
/// which moves with the beat so the transition never fires.
pub open spec fn spec_next_line_start_milli(next_start: Option<i32>, beat_milli: int) -> int {
    match next_start {
        Some(s) => 1000 * s,
        None => beat_milli + 100_000,
    }
}

/// Whether the current beat has passed the next line's start, so the
/// line pointers advance and the old line gets its final render pass.
/// With no next line the horizon can never be passed.
pub fn should_advance_line(beat_milli: i64, next_start: Option<&i32>) -> (r: bool)
    ensures
        r == (beat_milli > spec_next_line_start_milli(
            match next_start {
                Some(s) => Some(*s),
                None => None,
            },
            beat_milli as int,
        )),
{
    match next_start {
        Some(s) => beat_milli > (*s as i64) * 1000,
        None => false,
    }
}

/// The artificially advanced beat for the final render pass of a line
/// being left: one thousandth of a beat-unit past the line's end, so
/// that every note whose timing lies within the line renders as
/// played and no partial highlight goes stale.
pub fn flush_beat_milli(line: &Line) -> (r: Result<i64, CoreError>)
    ensures
        match r {
            Ok(b) => has_timed(line.notes@) && b == 1000 * spec_last_end(line.notes@) + 1,
            Err(e) => e == CoreError::NoTimedNotes && !has_timed(line.notes@),
        },
{
    match line.last_end() {
        Ok(e) => Ok(e * 1000 + 1),
        Err(e) => Err(e),
    }
}

} // verus!
