//! Core logic of the Instant-Astronomer sky app: city lookup with Soundex,
//! celestial object search ranking, local-time formatting of rise / set
//! events, zodiac date ranges and word wrapping of status messages.

pub mod text;
pub mod cities;
pub mod math;
pub mod stars;
pub mod search;
pub mod hud;
pub mod search_panel;
pub mod catalog;
pub mod sky_view;
pub mod control_panel;

use vstd::prelude::*;

verus! {

/// Platform-specific capabilities the shell provides (e.g. a geolocation
/// request on the web or on the desktop).
pub trait AstronomerPlatform: 'static {
    fn request_geolocation(&self);
}

} // verus!
