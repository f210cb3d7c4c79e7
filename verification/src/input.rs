//! Input gestures and how they map to display events. Listening for gestures
//! is the surrounding program's job; the mapping is the part that decides.
use vstd::prelude::*;

use crate::display::{EventView, StateEvent};

verus! {

/// One gesture from an input device.
#[derive(Clone, Copy, Debug, PartialEq, Eq, Structural)]
pub enum InputEvent {
    SinglePress,
    DoublePress,
    LongPress,
}

/// The display event a gesture stands for.
pub open spec fn event_of_input(e: InputEvent) -> EventView {
    match e {
        InputEvent::SinglePress => EventView::NextPage,
        InputEvent::DoublePress => EventView::NextSubpage,
        InputEvent::LongPress => EventView::Reset,
    }
}

impl InputEvent {
    /// The event the state machine applies for this gesture: single press
    /// advances the page, double press the subpage, long press resets.
    pub fn to_state_event(&self) -> (r: StateEvent)
        ensures
            r@ == event_of_input(*self),
    {
        match self {
            InputEvent::SinglePress => StateEvent::NextPage,
            InputEvent::DoublePress => StateEvent::NextSubpage,
            InputEvent::LongPress => StateEvent::Reset,
        }
    }
}

} // verus!
