//! What a tap on the sky view does. Telling a tap from a drag, and finding
//! the body under the finger, are pointer geometry left to the host; this
//! module decides the outcome.

use vstd::prelude::*;

verus! {

/// Longest press, in milliseconds, that still counts as a tap.
pub const TAP_MAX_DURATION_MS: u64 = 350;

/// A press is a tap when the pointer never left the tap radius (so it was
/// not a drag) and it was released within [`TAP_MAX_DURATION_MS`].
pub fn is_tap(is_drag: bool, elapsed_ms: u64) -> (r: bool)
    ensures
        r == (!is_drag && elapsed_ms < TAP_MAX_DURATION_MS),
{
    !is_drag && elapsed_ms < TAP_MAX_DURATION_MS
}

/// The effect of a tap on the sky.
#[derive(Debug, PartialEq, Eq, Structural)]
pub enum TapOutcome<H> {
    /// Pin the info card of the body or line that was hit.
    Select(H),
    /// Close the info card that is showing (and nothing else).
    DismissCard,
    /// Hide or show the control chrome.
    ToggleControls,
}

/// Outcome of a tap. While the compass drives the view the user aims by
/// turning the phone, so a tap never identifies a body; otherwise a tap on
/// a body selects it. A tap that selects nothing first dismisses an open
/// info card, and only on empty sky with no card does it toggle the
/// controls: one gesture, one effect.
pub fn tap_outcome<H>(compass_on: bool, hit: Option<H>, has_selection: bool) -> (r: TapOutcome<H>)
    ensures
        !compass_on && hit is Some ==> r == TapOutcome::Select(hit->0),
        (compass_on || hit is None) && has_selection ==> r == TapOutcome::<H>::DismissCard,
        (compass_on || hit is None) && !has_selection ==> r == TapOutcome::<H>::ToggleControls,
{
    let hit = if compass_on {
        None
    } else {
        hit
    };
    match hit {
        Some(h) => TapOutcome::Select(h),
        None => if has_selection {
            TapOutcome::DismissCard
        } else {
            TapOutcome::ToggleControls
        },
    }
}

} // verus!
