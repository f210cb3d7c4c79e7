use transit_sign::color::Color;
use transit_sign::config::{ProviderConfig, Stop};

fn stop(id: &str, name: &str, direction: &str) -> Stop {
    Stop { id: id.to_string(), name: name.to_string(), direction: direction.to_string() }
}

#[test]
fn init_builds_index_keyed_by_stop_id() {
    let mut provider = ProviderConfig {
        stops: vec![stop("12", "Embarcadero", "North"), stop("99", "Powell", "South")],
        stops_by_id: Vec::new(),
    };
    provider.init();
    assert_eq!(provider.stops_by_id.len(), 2);
    assert_eq!(provider.stops_by_id[0].0, "12");
    assert_eq!(provider.stops_by_id[0].1, stop("12", "Embarcadero", "North"));
    assert_eq!(provider.stops_by_id[1].0, "99");
    assert_eq!(provider.stops_by_id[1].1, stop("99", "Powell", "South"));
}

#[test]
fn init_replaces_any_older_index() {
    let mut provider = ProviderConfig {
        stops: vec![stop("12", "Embarcadero", "North")],
        stops_by_id: vec![("stale".to_string(), stop("0", "Old", "None"))],
    };
    provider.init();
    assert_eq!(provider.stops_by_id.len(), 1);
    assert_eq!(provider.stops_by_id[0].0, "12");
}

#[test]
fn color_names_resolve_to_palette_entries() {
    assert_eq!(Color::from_str("YELLOW"), Some(Color { red: 255, green: 255, blue: 51 }));
    assert_eq!(Color::from_str("RED"), Some(Color { red: 255, green: 0, blue: 0 }));
    assert_eq!(Color::from_str("GREEN"), Some(Color { red: 51, green: 153, blue: 51 }));
    assert_eq!(Color::from_str("BLUE"), Some(Color { red: 0, green: 153, blue: 204 }));
    assert_eq!(Color::from_str("PURPLE"), Some(Color { red: 163, green: 24, blue: 163 }));
    assert_eq!(Color::from_str("MAGENTA"), None);
    assert_eq!(Color::from_str(""), None);
}

#[test]
fn default_color_is_white() {
    assert_eq!(Color::default(), Color { red: 255, green: 255, blue: 255 });
}
