use transit_sign::color::Color;
use transit_sign::text::{i32_to_string, str_eq, u64_to_string};
use transit_sign::transit::{
    count_ebikes_by_model, BikeInventory, Prediction, TransitState,
};
use transit_sign::updates::sort_predictions;

fn pred(
    provider: &str,
    station: &str,
    direction: &str,
    route: &str,
    dest: &str,
    minutes: i32,
) -> Prediction {
    Prediction {
        provider_key: provider.to_string(),
        route_name: route.to_string(),
        destination: dest.to_string(),
        minutes_until_arrival: minutes,
        predicted_time: 0,
        station_id: station.to_string(),
        stop_id: station.to_string(),
        direction: direction.to_string(),
        color: Color::default(),
    }
}

#[test]
fn grouped_predictions_sort_stably() {
    // Three predictions for one feed, the 2-minute R1 entry ahead of R2 in
    // input order. Sorting is stable, so the two 2-minute entries keep that
    // order: R1 first.
    let state = TransitState::Predictions(vec![
        pred("bart", "EMBR", "North", "R1", "X", 5),
        pred("bart", "EMBR", "North", "R1", "X", 2),
        pred("bart", "EMBR", "North", "R2", "X", 2),
    ]);
    let updates = state.to_state_updates();
    assert_eq!(updates.len(), 1);
    assert_eq!(updates[0].0.station_id, "EMBR");
    match &updates[0].1 {
        TransitState::Predictions(group) => {
            let order: Vec<(String, i32)> = group
                .iter()
                .map(|p| (p.route_name.clone(), p.minutes_until_arrival))
                .collect();
            assert_eq!(
                order,
                vec![
                    ("R1".to_string(), 2),
                    ("R2".to_string(), 2),
                    ("R1".to_string(), 5),
                ]
            );
        }
        _ => panic!("expected a predictions group"),
    }
}

#[test]
fn equal_minutes_keep_input_order() {
    // The mirror image of the scenario above: with R2's 2-minute entry ahead
    // of R1's in the input, R2 comes out first among the ties.
    let state = TransitState::Predictions(vec![
        pred("bart", "EMBR", "North", "R1", "X", 5),
        pred("bart", "EMBR", "North", "R2", "X", 2),
        pred("bart", "EMBR", "North", "R1", "X", 2),
    ]);
    let updates = state.to_state_updates();
    assert_eq!(updates.len(), 1);
    match &updates[0].1 {
        TransitState::Predictions(group) => {
            let order: Vec<(String, i32)> = group
                .iter()
                .map(|p| (p.route_name.clone(), p.minutes_until_arrival))
                .collect();
            assert_eq!(
                order,
                vec![
                    ("R2".to_string(), 2),
                    ("R1".to_string(), 2),
                    ("R1".to_string(), 5),
                ]
            );
        }
        _ => panic!("expected a predictions group"),
    }
}

#[test]
fn two_feeds_partition_into_two_sorted_groups() {
    let state = TransitState::Predictions(vec![
        pred("bart", "EMBR", "North", "R1", "X", 9),
        pred("muni", "5555", "Inbound", "14", "Y", 3),
        pred("bart", "EMBR", "North", "R2", "X", 1),
        pred("muni", "5555", "Inbound", "49", "Y", 1),
    ]);
    let updates = state.to_state_updates();
    assert_eq!(updates.len(), 2);
    // Groups come in order of first appearance.
    assert_eq!(updates[0].0.provider_key, "bart");
    assert_eq!(updates[1].0.provider_key, "muni");
    match &updates[0].1 {
        TransitState::Predictions(group) => {
            let minutes: Vec<i32> = group.iter().map(|p| p.minutes_until_arrival).collect();
            assert_eq!(minutes, vec![1, 9]);
        }
        _ => panic!("expected a predictions group"),
    }
    match &updates[1].1 {
        TransitState::Predictions(group) => {
            let minutes: Vec<i32> = group.iter().map(|p| p.minutes_until_arrival).collect();
            assert_eq!(minutes, vec![1, 3]);
        }
        _ => panic!("expected a predictions group"),
    }
}

#[test]
fn bike_inventory_yields_exactly_one_update() {
    let inventory = BikeInventory {
        station_name: "Market St".to_string(),
        bikes_available: 7,
        docks_available: 12,
        ebikes_v1_available: 1,
        ebikes_v2_available: 2,
        last_updated: 1000,
        stop_id: "77".to_string(),
    };
    let state = TransitState::BikeInventory(inventory.clone());
    let updates = state.to_state_updates();
    assert_eq!(updates.len(), 1);
    assert_eq!(updates[0].0.provider_key, "baywheels");
    assert_eq!(updates[0].0.station_id, "Market St");
    assert_eq!(updates[0].0.direction, "None");
    assert_eq!(updates[0].1, TransitState::BikeInventory(inventory));
}

#[test]
fn empty_state_yields_no_updates() {
    assert_eq!(TransitState::EmptyState.to_state_updates().len(), 0);
}

#[test]
fn sort_predictions_orders_by_minutes() {
    let sorted = sort_predictions(&vec![
        pred("muni", "1", "In", "A", "X", 12),
        pred("muni", "1", "In", "B", "X", 0),
        pred("muni", "1", "In", "C", "X", 7),
    ]);
    let minutes: Vec<i32> = sorted.iter().map(|p| p.minutes_until_arrival).collect();
    assert_eq!(minutes, vec![0, 7, 12]);
}

#[test]
fn bart_display_string_uses_first_route_letter() {
    let p = pred("bart", "EMBR", "North", "Red", "Richmond", 5);
    assert_eq!(p.to_display_string(), "R to Richmond: 5 min");
}

#[test]
fn muni_display_string_shows_route_and_direction() {
    let p = pred("muni", "5555", "Inbound", "14", "Mission", 0);
    assert_eq!(p.to_display_string(), "14 Inbound: 0 min");
}

#[test]
fn unknown_provider_display_string_is_unsupported() {
    let p = pred("ferry", "1", "West", "F", "Pier", 4);
    assert_eq!(p.to_display_string(), "Unsupported");
}

#[test]
fn negative_minutes_render_with_sign() {
    let p = pred("muni", "5555", "Outbound", "49", "City", -3);
    assert_eq!(p.to_display_string(), "49 Outbound: -3 min");
}

#[test]
fn empty_route_name_renders_empty_first_letter() {
    let p = pred("bart", "EMBR", "North", "", "Daly City", 11);
    assert_eq!(p.to_display_string(), " to Daly City: 11 min");
}

#[test]
fn prediction_to_identifier_copies_key_fields() {
    let p = pred("bart", "EMBR", "North", "R", "X", 1);
    let id = p.to_identifier();
    assert_eq!(id.provider_key, "bart");
    assert_eq!(id.station_id, "EMBR");
    assert_eq!(id.direction, "North");
}

#[test]
fn ebike_counts_by_model() {
    let models = vec![
        "lyft_bike_watson".to_string(),
        "lyft_bike_cosmo".to_string(),
        "lyft_bike_watson".to_string(),
        "someone_elses_bike".to_string(),
    ];
    assert_eq!(count_ebikes_by_model(&models), (2, 1));
}

#[test]
fn decimal_rendering() {
    assert_eq!(u64_to_string(0), "0");
    assert_eq!(u64_to_string(907), "907");
    assert_eq!(i32_to_string(-42), "-42");
    assert_eq!(i32_to_string(i32::MIN), "-2147483648");
}

#[test]
fn str_eq_compares_contents() {
    assert!(str_eq("abc", "abc"));
    assert!(!str_eq("abc", "abd"));
}
