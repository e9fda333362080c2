use instant_astronomer_core::control_panel::{toggle_message, PanelSettings, PanelToggle};

#[test]
fn geolocation_toggle_swaps_with_city_search() {
    let mut s = PanelSettings::new(false, true, true);
    assert!(s.show_search);
    assert_eq!(s.flip(PanelToggle::Geolocation, true), "Using device geolocation");
    assert!(s.use_geolocation);
    assert!(!s.show_search);
    assert_eq!(s.flip(PanelToggle::Geolocation, false), "Pick a city to use its coordinates");
    assert!(!s.use_geolocation);
    assert!(s.show_search);
    assert!(s.show_constellations && s.use_device_orientation);
}

#[test]
fn constellation_and_compass_messages() {
    let mut s = PanelSettings::new(true, true, true);
    assert_eq!(s.flip(PanelToggle::Constellations, true), "Constellations off");
    assert!(!s.show_constellations);
    assert_eq!(s.flip(PanelToggle::Constellations, false), "Constellations on");
    assert_eq!(s.flip(PanelToggle::Compass, true), "Compass off — drag to look around");
    assert!(!s.use_device_orientation);
    assert_eq!(s.flip(PanelToggle::Compass, true), "Compass on — orientation sensors driving view");
    assert_eq!(toggle_message(PanelToggle::Compass, true, false), "Compass on — sensors driving view");
    assert!(s.use_geolocation && !s.show_search);
}
