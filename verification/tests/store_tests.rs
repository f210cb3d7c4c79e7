use transit_sign::color::Color;
use transit_sign::state::TransitStateManager;
use transit_sign::transit::{Prediction, TransitIdentifier, TransitState};

fn tid(provider: &str, station: &str, direction: &str) -> TransitIdentifier {
    TransitIdentifier {
        provider_key: provider.to_string(),
        station_id: station.to_string(),
        direction: direction.to_string(),
    }
}

fn pred(provider: &str, station: &str, direction: &str, route: &str, minutes: i32) -> Prediction {
    Prediction {
        provider_key: provider.to_string(),
        route_name: route.to_string(),
        destination: "X".to_string(),
        minutes_until_arrival: minutes,
        predicted_time: 0,
        station_id: station.to_string(),
        stop_id: station.to_string(),
        direction: direction.to_string(),
        color: Color::default(),
    }
}

#[test]
fn unknown_feed_reads_as_empty() {
    let store = TransitStateManager::new();
    let r = store.get_state_for_identifier(&tid("bart", "EMBR", "North"));
    assert_eq!(r, TransitState::EmptyState);
}

#[test]
fn merge_then_query_returns_sorted_group() {
    let mut store = TransitStateManager::new();
    store.update_state(&vec![TransitState::Predictions(vec![
        pred("bart", "EMBR", "North", "R1", 8),
        pred("bart", "EMBR", "North", "R2", 3),
    ])]);
    match store.get_state_for_identifier(&tid("bart", "EMBR", "North")) {
        TransitState::Predictions(group) => {
            let minutes: Vec<i32> = group.iter().map(|p| p.minutes_until_arrival).collect();
            assert_eq!(minutes, vec![3, 8]);
        }
        _ => panic!("expected predictions"),
    }
}

#[test]
fn failed_refresh_keeps_stale_value() {
    // A provider failure contributes nothing to the fetched snapshots; the
    // feed's earlier value survives unchanged.
    let mut store = TransitStateManager::new();
    let x = tid("muni", "5555", "Inbound");
    store.update_state(&vec![TransitState::Predictions(vec![pred(
        "muni", "5555", "Inbound", "14", 4,
    )])]);
    let before = store.get_state_for_identifier(&x);
    store.update_state(&vec![]);
    let after = store.get_state_for_identifier(&x);
    assert_eq!(before, after);
}

#[test]
fn unrelated_refresh_keeps_other_feeds() {
    let mut store = TransitStateManager::new();
    let x = tid("muni", "5555", "Inbound");
    store.update_state(&vec![TransitState::Predictions(vec![pred(
        "muni", "5555", "Inbound", "14", 4,
    )])]);
    let before = store.get_state_for_identifier(&x);
    store.update_state(&vec![TransitState::Predictions(vec![pred(
        "bart", "EMBR", "North", "R1", 2,
    )])]);
    assert_eq!(store.get_state_for_identifier(&x), before);
}

#[test]
fn new_snapshot_replaces_old_entry_entirely() {
    let mut store = TransitStateManager::new();
    let x = tid("bart", "EMBR", "North");
    store.update_state(&vec![TransitState::Predictions(vec![
        pred("bart", "EMBR", "North", "R1", 8),
        pred("bart", "EMBR", "North", "R2", 3),
    ])]);
    store.update_state(&vec![TransitState::Predictions(vec![pred(
        "bart", "EMBR", "North", "R9", 1,
    )])]);
    match store.get_state_for_identifier(&x) {
        TransitState::Predictions(group) => {
            assert_eq!(group.len(), 1);
            assert_eq!(group[0].route_name, "R9");
        }
        _ => panic!("expected predictions"),
    }
}

#[test]
fn query_twice_returns_equal_values() {
    let mut store = TransitStateManager::new();
    let x = tid("bart", "EMBR", "North");
    store.update_state(&vec![TransitState::Predictions(vec![pred(
        "bart", "EMBR", "North", "R1", 6,
    )])]);
    let first = store.get_state_for_identifier(&x);
    let second = store.get_state_for_identifier(&x);
    assert_eq!(first, second);
}

#[test]
fn one_snapshot_with_two_feeds_fills_both_entries() {
    let mut store = TransitStateManager::new();
    store.update_state(&vec![TransitState::Predictions(vec![
        pred("bart", "EMBR", "North", "R1", 8),
        pred("bart", "EMBR", "South", "R1", 2),
    ])]);
    match store.get_state_for_identifier(&tid("bart", "EMBR", "South")) {
        TransitState::Predictions(group) => {
            assert_eq!(group.len(), 1);
            assert_eq!(group[0].minutes_until_arrival, 2);
        }
        _ => panic!("expected predictions"),
    }
    match store.get_state_for_identifier(&tid("bart", "EMBR", "North")) {
        TransitState::Predictions(group) => {
            assert_eq!(group.len(), 1);
            assert_eq!(group[0].minutes_until_arrival, 8);
        }
        _ => panic!("expected predictions"),
    }
}
