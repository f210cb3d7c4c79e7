//! Display-side data model: the events the state machine reacts to, the mode
//! it can be in, and the handler a page subpage renders with.
use vstd::prelude::*;

use crate::text::str_eq;
use crate::transit::{IdView, SnapView, TransitIdentifier, TransitState};

verus! {

/// An event the display state machine reacts to.
#[derive(Debug, PartialEq)]
pub enum StateEvent {
    NextPage,
    NextSubpage,
    Reset,
    Quit,
    TransitUpdate,
    CustomMessage(String),
    DisplayRefresh,
}

/// Mathematical value of a `StateEvent`.
pub enum EventView {
    NextPage,
    NextSubpage,
    Reset,
    Quit,
    TransitUpdate,
    CustomMessage(Seq<char>),
    DisplayRefresh,
}

impl View for StateEvent {
    type V = EventView;

    open spec fn view(&self) -> EventView {
        match self {
            StateEvent::NextPage => EventView::NextPage,
            StateEvent::NextSubpage => EventView::NextSubpage,
            StateEvent::Reset => EventView::Reset,
            StateEvent::Quit => EventView::Quit,
            StateEvent::TransitUpdate => EventView::TransitUpdate,
            StateEvent::CustomMessage(text) => EventView::CustomMessage(text@),
            StateEvent::DisplayRefresh => EventView::DisplayRefresh,
        }
    }
}

impl Clone for StateEvent {
    fn clone(&self) -> (r: Self)
        ensures
            r@ == self@,
    {
        match self {
            StateEvent::NextPage => StateEvent::NextPage,
            StateEvent::NextSubpage => StateEvent::NextSubpage,
            StateEvent::Reset => StateEvent::Reset,
            StateEvent::Quit => StateEvent::Quit,
            StateEvent::TransitUpdate => StateEvent::TransitUpdate,
            StateEvent::CustomMessage(text) => StateEvent::CustomMessage(text.clone()),
            StateEvent::DisplayRefresh => StateEvent::DisplayRefresh,
        }
    }
}

/// What the sign currently shows. Timestamps are milliseconds on the caller's
/// monotonic clock.
#[derive(Debug, PartialEq)]
pub enum DisplayMode {
    /// Showing transit data for one feed; the snapshot is absent before the
    /// first query.
    Transit { transit_identifier: TransitIdentifier, transit_state: Option<
        TransitState,
    >, last_update: u64 },
    /// Showing a custom message, with the full prior mode captured so it can
    /// be restored when the message expires.
    CustomMessage { message: String, start_time: u64, previous_state: Box<DisplayMode> },
    /// Showing an error until its dwell time passes.
    Error { message: String, start_time: u64 },
}

/// Mathematical value of a `DisplayMode`.
pub enum ModeView {
    Transit { transit_identifier: IdView, transit_state: Option<SnapView>, last_update: int },
    CustomMessage { message: Seq<char>, start_time: int, previous_state: Box<ModeView> },
    Error { message: Seq<char>, start_time: int },
}

impl View for DisplayMode {
    type V = ModeView;

    open spec fn view(&self) -> ModeView
        decreases self,
    {
        match self {
            DisplayMode::Transit { transit_identifier, transit_state, last_update } => {
                ModeView::Transit {
                    transit_identifier: transit_identifier@,
                    transit_state: match transit_state {
                        Some(t) => Some(t@),
                        None => None,
                    },
                    last_update: *last_update as int,
                }
            },
            DisplayMode::CustomMessage { message, start_time, previous_state } => {
                ModeView::CustomMessage {
                    message: message@,
                    start_time: *start_time as int,
                    previous_state: Box::new((**previous_state)@),
                }
            },
            DisplayMode::Error { message, start_time } => {
                ModeView::Error { message: message@, start_time: *start_time as int }
            },
        }
    }
}

impl Clone for DisplayMode {
    fn clone(&self) -> (r: Self)
        ensures
            r@ == self@,
        decreases self,
    {
        match self {
            DisplayMode::Transit { transit_identifier, transit_state, last_update } => {
                DisplayMode::Transit {
                    transit_identifier: transit_identifier.clone(),
                    transit_state: match transit_state {
                        Some(t) => Some(t.clone()),
                        None => None,
                    },
                    last_update: *last_update,
                }
            },
            DisplayMode::CustomMessage { message, start_time, previous_state } => {
                DisplayMode::CustomMessage {
                    message: message.clone(),
                    start_time: *start_time,
                    previous_state: Box::new((**previous_state).clone()),
                }
            },
            DisplayMode::Error { message, start_time } => {
                DisplayMode::Error { message: message.clone(), start_time: *start_time }
            },
        }
    }
}

/// How a subpage is rendered.
#[derive(Clone, Copy, Debug, PartialEq, Eq, Structural)]
pub enum PageDisplayHandler {
    PredictionsDisplay,
    BikeInventoryDisplay,
}

/// The handler keys the page layout may name.
pub open spec fn valid_handler_key(s: Seq<char>) -> bool {
    s == "predictions"@ || s == "bike_inventory"@
}

/// The handler a valid key names.
pub open spec fn handler_of_key(s: Seq<char>) -> PageDisplayHandler {
    if s == "predictions"@ {
        PageDisplayHandler::PredictionsDisplay
    } else {
        PageDisplayHandler::BikeInventoryDisplay
    }
}

impl PageDisplayHandler {
    /// Looks the handler up by its configuration key. An unknown key is a
    /// fatal configuration error, so callers must have validated it.
    pub fn from_key(key: &str) -> (r: Self)
        requires
            valid_handler_key(key@),
        ensures
            r == handler_of_key(key@),
    {
        if str_eq(key, "predictions") {
            PageDisplayHandler::PredictionsDisplay
        } else {
            PageDisplayHandler::BikeInventoryDisplay
        }
    }
}

} // verus!
