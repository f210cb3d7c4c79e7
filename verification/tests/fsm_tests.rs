use transit_sign::color::Color;
use transit_sign::config::{DisplayConfig, PageDefinition, SubpageDefinition};
use transit_sign::display::{DisplayMode, PageDisplayHandler, StateEvent};
use transit_sign::fsm::DisplayFiniteStateMachine;
use transit_sign::input::InputEvent;
use transit_sign::state::TransitStateManager;
use transit_sign::transit::{Prediction, TransitIdentifier, TransitState};

fn tid(provider: &str, station: &str, direction: &str) -> TransitIdentifier {
    TransitIdentifier {
        provider_key: provider.to_string(),
        station_id: station.to_string(),
        direction: direction.to_string(),
    }
}

fn subpage(provider: &str, station: &str, direction: &str) -> SubpageDefinition {
    SubpageDefinition {
        transit_identifier: tid(provider, station, direction),
        page_display_handler_key: "predictions".to_string(),
    }
}

/// Two pages: page 0 shows feed A alone, page 1 shows feeds B then C.
fn two_page_config() -> DisplayConfig {
    DisplayConfig {
        message_timeout: 5_000,
        error_timeout: 10_000,
        pages: vec![
            PageDefinition { subpages: vec![subpage("bart", "A", "North")] },
            PageDefinition {
                subpages: vec![subpage("bart", "B", "North"), subpage("bart", "C", "North")],
            },
        ],
    }
}

fn shown_station(fsm: &DisplayFiniteStateMachine) -> String {
    match fsm.current_state() {
        DisplayMode::Transit { transit_identifier, .. } => transit_identifier.station_id.clone(),
        _ => panic!("expected transit mode"),
    }
}

#[test]
fn navigation_scenario_wraps_pages_and_subpages() {
    // Start at (0,0)/A; NextPage -> (1,0)/B; NextSubpage -> (1,1)/C;
    // NextSubpage -> (1,0)/B (wrap); NextPage -> (0,0)/A (wrap across pages).
    let store = TransitStateManager::new();
    let mut fsm = DisplayFiniteStateMachine::new(two_page_config(), 0);
    assert_eq!((fsm.page_idx, fsm.subpage_idx), (0, 0));
    assert_eq!(shown_station(&fsm), "A");

    fsm.handle_event(StateEvent::NextPage, 1, &store);
    assert_eq!((fsm.page_idx, fsm.subpage_idx), (1, 0));
    assert_eq!(shown_station(&fsm), "B");

    fsm.handle_event(StateEvent::NextSubpage, 2, &store);
    assert_eq!((fsm.page_idx, fsm.subpage_idx), (1, 1));
    assert_eq!(shown_station(&fsm), "C");

    fsm.handle_event(StateEvent::NextSubpage, 3, &store);
    assert_eq!((fsm.page_idx, fsm.subpage_idx), (1, 0));
    assert_eq!(shown_station(&fsm), "B");

    fsm.handle_event(StateEvent::NextPage, 4, &store);
    assert_eq!((fsm.page_idx, fsm.subpage_idx), (0, 0));
    assert_eq!(shown_station(&fsm), "A");
}

#[test]
fn next_page_twice_returns_to_page_zero() {
    let store = TransitStateManager::new();
    let mut fsm = DisplayFiniteStateMachine::new(two_page_config(), 0);
    fsm.handle_event(StateEvent::NextPage, 1, &store);
    fsm.handle_event(StateEvent::NextPage, 2, &store);
    assert_eq!((fsm.page_idx, fsm.subpage_idx), (0, 0));
}

#[test]
fn transit_update_requeries_current_feed() {
    let mut store = TransitStateManager::new();
    let mut fsm = DisplayFiniteStateMachine::new(two_page_config(), 0);
    store.update_state(&vec![TransitState::Predictions(vec![Prediction {
        provider_key: "bart".to_string(),
        route_name: "R1".to_string(),
        destination: "X".to_string(),
        minutes_until_arrival: 6,
        predicted_time: 0,
        station_id: "A".to_string(),
        stop_id: "A".to_string(),
        direction: "North".to_string(),
        color: Color::default(),
    }])]);
    fsm.handle_event(StateEvent::TransitUpdate, 7, &store);
    match fsm.current_state() {
        DisplayMode::Transit { transit_state, last_update, .. } => {
            assert_eq!(*last_update, 7);
            match transit_state {
                Some(TransitState::Predictions(group)) => {
                    assert_eq!(group.len(), 1);
                    assert_eq!(group[0].minutes_until_arrival, 6);
                }
                _ => panic!("expected a queried snapshot"),
            }
        }
        _ => panic!("expected transit mode"),
    }
}

#[test]
fn custom_message_waits_out_its_dwell_time() {
    // A refresh tick before the dwell time leaves the message up; a tick at
    // the dwell time restores exactly the captured prior mode, cursor and
    // snapshot included, with no fresh query.
    let store = TransitStateManager::new();
    let mut fsm = DisplayFiniteStateMachine::new(two_page_config(), 0);
    fsm.handle_event(StateEvent::NextPage, 1, &store);
    let captured = fsm.current_state().clone();

    fsm.handle_event(StateEvent::CustomMessage("hello".to_string()), 1_000, &store);
    match fsm.current_state() {
        DisplayMode::CustomMessage { message, start_time, .. } => {
            assert_eq!(message, "hello");
            assert_eq!(*start_time, 1_000);
        }
        _ => panic!("expected custom message mode"),
    }
    assert_eq!((fsm.page_idx, fsm.subpage_idx), (1, 0));

    fsm.handle_event(StateEvent::DisplayRefresh, 5_999, &store);
    assert!(matches!(fsm.current_state(), DisplayMode::CustomMessage { .. }));

    fsm.handle_event(StateEvent::DisplayRefresh, 6_000, &store);
    assert_eq!(*fsm.current_state(), captured);
    assert_eq!((fsm.page_idx, fsm.subpage_idx), (1, 0));
}

#[test]
fn error_mode_resets_after_its_dwell_time() {
    let store = TransitStateManager::new();
    let mut fsm = DisplayFiniteStateMachine::new(two_page_config(), 0);
    fsm.handle_event(StateEvent::NextPage, 1, &store);
    fsm.enter_error("offline".to_string(), 2_000);

    // Navigation is ignored in error mode.
    fsm.handle_event(StateEvent::NextPage, 2_100, &store);
    fsm.handle_event(StateEvent::NextSubpage, 2_200, &store);
    assert!(matches!(fsm.current_state(), DisplayMode::Error { .. }));

    // A tick before the dwell time is a no-op.
    fsm.handle_event(StateEvent::DisplayRefresh, 11_999, &store);
    assert!(matches!(fsm.current_state(), DisplayMode::Error { .. }));

    // A tick at the dwell time performs the reset transition.
    fsm.handle_event(StateEvent::DisplayRefresh, 12_000, &store);
    assert_eq!((fsm.page_idx, fsm.subpage_idx), (0, 0));
    assert_eq!(shown_station(&fsm), "A");
}

#[test]
fn refresh_tick_in_transit_mode_changes_nothing() {
    let store = TransitStateManager::new();
    let mut fsm = DisplayFiniteStateMachine::new(two_page_config(), 0);
    let before = fsm.current_state().clone();
    fsm.handle_event(StateEvent::DisplayRefresh, 99_999, &store);
    assert_eq!(*fsm.current_state(), before);
    assert_eq!((fsm.page_idx, fsm.subpage_idx), (0, 0));
}

#[test]
fn nested_custom_messages_unwind_one_level_per_expiry() {
    // Entering a message while one is showing captures the first message as
    // the prior mode; each expired tick restores one level.
    let store = TransitStateManager::new();
    let mut fsm = DisplayFiniteStateMachine::new(two_page_config(), 0);
    fsm.handle_event(StateEvent::CustomMessage("first".to_string()), 1_000, &store);
    fsm.handle_event(StateEvent::CustomMessage("second".to_string()), 2_000, &store);

    fsm.handle_event(StateEvent::DisplayRefresh, 7_000, &store);
    match fsm.current_state() {
        DisplayMode::CustomMessage { message, start_time, .. } => {
            assert_eq!(message, "first");
            assert_eq!(*start_time, 1_000);
        }
        _ => panic!("expected the first message back"),
    }

    fsm.handle_event(StateEvent::DisplayRefresh, 7_001, &store);
    assert!(matches!(fsm.current_state(), DisplayMode::Transit { .. }));
}

#[test]
fn reset_works_from_any_mode() {
    let store = TransitStateManager::new();
    let mut fsm = DisplayFiniteStateMachine::new(two_page_config(), 0);
    fsm.handle_event(StateEvent::NextPage, 1, &store);
    fsm.handle_event(StateEvent::CustomMessage("note".to_string()), 2, &store);
    fsm.handle_event(StateEvent::Reset, 3, &store);
    assert_eq!((fsm.page_idx, fsm.subpage_idx), (0, 0));
    assert_eq!(shown_station(&fsm), "A");
}

#[test]
fn custom_message_exits_to_first_page_on_next_page() {
    let store = TransitStateManager::new();
    let mut fsm = DisplayFiniteStateMachine::new(two_page_config(), 0);
    fsm.handle_event(StateEvent::NextPage, 1, &store);
    fsm.handle_event(StateEvent::CustomMessage("note".to_string()), 2, &store);
    fsm.handle_event(StateEvent::NextPage, 3, &store);
    assert_eq!((fsm.page_idx, fsm.subpage_idx), (0, 0));
    assert_eq!(shown_station(&fsm), "A");
}

#[test]
fn quit_event_changes_nothing() {
    let store = TransitStateManager::new();
    let mut fsm = DisplayFiniteStateMachine::new(two_page_config(), 0);
    let before = fsm.current_state().clone();
    fsm.handle_event(StateEvent::Quit, 9, &store);
    assert_eq!(*fsm.current_state(), before);
}

#[test]
fn handler_keys_map_to_handlers() {
    assert_eq!(
        PageDisplayHandler::from_key("predictions"),
        PageDisplayHandler::PredictionsDisplay
    );
    assert_eq!(
        PageDisplayHandler::from_key("bike_inventory"),
        PageDisplayHandler::BikeInventoryDisplay
    );
    let page = two_page_config();
    assert_eq!(
        page.pages[0].subpages[0].display_handler(),
        PageDisplayHandler::PredictionsDisplay
    );
}

#[test]
fn input_gestures_map_to_navigation_events() {
    assert_eq!(InputEvent::SinglePress.to_state_event(), StateEvent::NextPage);
    assert_eq!(InputEvent::DoublePress.to_state_event(), StateEvent::NextSubpage);
    assert_eq!(InputEvent::LongPress.to_state_event(), StateEvent::Reset);
}
