//! Toggles of the bottom control panel: flipping one updates the shared
//! flags and picks the status message the toast shows.

use vstd::prelude::*;

verus! {

/// A toggle of the control panel.
#[derive(Debug, Clone, Copy, PartialEq, Eq, Structural)]
pub enum PanelToggle {
    /// Use the device-reported location instead of a picked city.
    Geolocation,
    /// Draw the constellation lines.
    Constellations,
    /// Let the compass / accelerometer drive the view.
    Compass,
}

/// The flags the control panel drives. `show_search` (the city-search row)
/// is shown exactly when geolocation is off: the two are mutually
/// exclusive.
#[derive(Debug, Clone, Copy)]
pub struct PanelSettings {
    pub use_geolocation: bool,
    pub show_search: bool,
    pub show_constellations: bool,
    pub use_device_orientation: bool,
}

/// Message shown after `toggle` was switched to `on`. The compass message
/// is shorter on the desktop checkbox than on the mobile icon button.
pub open spec fn toggle_message_of(toggle: PanelToggle, on: bool, mobile: bool) -> Seq<char> {
    match toggle {
        PanelToggle::Geolocation => if on {
            "Using device geolocation"@
        } else {
            "Pick a city to use its coordinates"@
        },
        PanelToggle::Constellations => if on {
            "Constellations on"@
        } else {
            "Constellations off"@
        },
        PanelToggle::Compass => if on {
            if mobile {
                "Compass on — orientation sensors driving view"@
            } else {
                "Compass on — sensors driving view"@
            }
        } else {
            "Compass off — drag to look around"@
        },
    }
}

/// Message shown after `toggle` was switched to `on`.
pub fn toggle_message(toggle: PanelToggle, on: bool, mobile: bool) -> (r: &'static str)
    ensures
        r@ == toggle_message_of(toggle, on, mobile),
{
    match toggle {
        PanelToggle::Geolocation => if on {
            "Using device geolocation"
        } else {
            "Pick a city to use its coordinates"
        },
        PanelToggle::Constellations => if on {
            "Constellations on"
        } else {
            "Constellations off"
        },
        PanelToggle::Compass => if on {
            if mobile {
                "Compass on — orientation sensors driving view"
            } else {
                "Compass on — sensors driving view"
            }
        } else {
            "Compass off — drag to look around"
        },
    }
}

impl PanelSettings {
    /// The city-search row is shown exactly when geolocation is off.
    pub open spec fn wf(&self) -> bool {
        self.show_search == !self.use_geolocation
    }

    /// Current value of a toggle.
    pub open spec fn value_of(&self, toggle: PanelToggle) -> bool {
        match toggle {
            PanelToggle::Geolocation => self.use_geolocation,
            PanelToggle::Constellations => self.show_constellations,
            PanelToggle::Compass => self.use_device_orientation,
        }
    }

    /// Settings with the given toggle values; the city search is shown
    /// exactly when geolocation is off.
    pub fn new(use_geolocation: bool, show_constellations: bool, use_device_orientation: bool) -> (s: Self)
        ensures
            s.wf(),
            s.use_geolocation == use_geolocation,
            s.show_constellations == show_constellations,
            s.use_device_orientation == use_device_orientation,
    {
        PanelSettings {
            use_geolocation,
            show_search: !use_geolocation,
            show_constellations,
            use_device_orientation,
        }
    }

    /// Flip `toggle` and return the message to show. Only that toggle
    /// changes (and, for geolocation, the search row with it).
    pub fn flip(&mut self, toggle: PanelToggle, mobile: bool) -> (msg: &'static str)
        requires
            old(self).wf(),
        ensures
            final(self).wf(),
            final(self).value_of(toggle) == !old(self).value_of(toggle),
            forall|t: PanelToggle| t != toggle ==> final(self).value_of(t) == old(self).value_of(t),
            msg@ == toggle_message_of(toggle, final(self).value_of(toggle), mobile),
    {
        let on = match toggle {
            PanelToggle::Geolocation => {
                self.use_geolocation = !self.use_geolocation;
                self.show_search = !self.use_geolocation;
                self.use_geolocation
            },
            PanelToggle::Constellations => {
                self.show_constellations = !self.show_constellations;
                self.show_constellations
            },
            PanelToggle::Compass => {
                self.use_device_orientation = !self.use_device_orientation;
                self.use_device_orientation
            },
        };
        toggle_message(toggle, on, mobile)
    }
}

/// Flipping a toggle twice restores every flag.
pub proof fn law_flip_twice_restores(s: PanelSettings, toggle: PanelToggle, s1: PanelSettings, s2: PanelSettings)
    requires
        s.wf(),
        s1.wf(),
        s2.wf(),
        s1.value_of(toggle) == !s.value_of(toggle),
        forall|t: PanelToggle| t != toggle ==> s1.value_of(t) == s.value_of(t),
        s2.value_of(toggle) == !s1.value_of(toggle),
        forall|t: PanelToggle| t != toggle ==> s2.value_of(t) == s1.value_of(t),
    ensures
        s2 == s,
{
    assert(s2.value_of(PanelToggle::Geolocation) == s.value_of(PanelToggle::Geolocation));
    assert(s2.value_of(PanelToggle::Constellations) == s.value_of(PanelToggle::Constellations));
    assert(s2.value_of(PanelToggle::Compass) == s.value_of(PanelToggle::Compass));
}

/// What each flip announces depends only on the toggle and its new value,
/// except that the compass's "on" message is worded differently on mobile
/// and desktop: turning geolocation on always reads "Using device
/// geolocation" and off "Pick a city to use its coordinates";
/// constellations read "Constellations on" / "Constellations off"; the
/// compass off message is "Compass off — drag to look around" everywhere
/// and its on message starts with "Compass on". Turning a toggle on and off
/// never give the same message.
pub proof fn law_flip_messages(mobile: bool)
    ensures
        toggle_message_of(PanelToggle::Geolocation, true, mobile) == "Using device geolocation"@,
        toggle_message_of(PanelToggle::Geolocation, false, mobile)
            == "Pick a city to use its coordinates"@,
        toggle_message_of(PanelToggle::Constellations, true, mobile) == "Constellations on"@,
        toggle_message_of(PanelToggle::Constellations, false, mobile) == "Constellations off"@,
        toggle_message_of(PanelToggle::Compass, false, mobile) == "Compass off — drag to look around"@,
        "Compass on"@.is_prefix_of(toggle_message_of(PanelToggle::Compass, true, mobile)),
        forall|t: PanelToggle, on: bool|
            #![trigger toggle_message_of(t, on, mobile)]
            t != PanelToggle::Compass ==> toggle_message_of(t, on, mobile) == toggle_message_of(
                t,
                on,
                !mobile,
            ),
        forall|t: PanelToggle| #[trigger]
            toggle_message_of(t, true, mobile) != toggle_message_of(t, false, mobile),
{
    reveal_strlit("Using device geolocation");
    reveal_strlit("Pick a city to use its coordinates");
    reveal_strlit("Constellations on");
    reveal_strlit("Constellations off");
    reveal_strlit("Compass on — orientation sensors driving view");
    reveal_strlit("Compass on — sensors driving view");
    reveal_strlit("Compass off — drag to look around");
    reveal_strlit("Compass on");
    assert("Using device geolocation"@[0] != "Pick a city to use its coordinates"@[0]);
    assert("Constellations on"@.len() != "Constellations off"@.len());
    assert("Compass on — orientation sensors driving view"@[9] != "Compass off — drag to look around"@[9]);
    assert("Compass on — sensors driving view"@[9] != "Compass off — drag to look around"@[9]);
}

} // verus!
