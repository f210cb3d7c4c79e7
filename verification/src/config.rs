//! Configuration data: the stops each provider polls, and the page layout the
//! display cycles through. Loading and parsing configuration files is the
//! surrounding program's job; the types here carry the values it produces.
use vstd::prelude::*;

use crate::display::{PageDisplayHandler, handler_of_key, valid_handler_key};
use crate::transit::{IdView, TransitIdentifier};

verus! {

/// One stop a provider is asked about.
#[derive(Debug, PartialEq)]
pub struct Stop {
    pub id: String,
    pub name: String,
    pub direction: String,
}

/// Mathematical value of a `Stop`.
pub struct StopView {
    pub id: Seq<char>,
    pub name: Seq<char>,
    pub direction: Seq<char>,
}

impl View for Stop {
    type V = StopView;

    open spec fn view(&self) -> StopView {
        StopView { id: self.id@, name: self.name@, direction: self.direction@ }
    }
}

impl Clone for Stop {
    fn clone(&self) -> (r: Self)
        ensures
            r == *self,
    {
        Stop { id: self.id.clone(), name: self.name.clone(), direction: self.direction.clone() }
    }
}

/// One provider's stops, with a by-identifier index derived from them.
#[derive(Debug)]
pub struct ProviderConfig {
    pub stops: Vec<Stop>,
    pub stops_by_id: Vec<(String, Stop)>,
}

impl ProviderConfig {
    /// Rebuilds the by-identifier index from the stop list: one entry per
    /// stop, in order, keyed by the stop's own identifier.
    pub fn init(&mut self)
        ensures
            final(self).stops@ == old(self).stops@,
            final(self).stops_by_id@.len() == old(self).stops@.len(),
            forall|k: int|
                0 <= k < old(self).stops@.len() ==> #[trigger] final(self).stops_by_id@[k] == (
                    old(self).stops@[k].id,
                    old(self).stops@[k],
                ),
    {
        self.stops_by_id = Vec::new();
        let mut i: usize = 0;
        while i < self.stops.len()
            invariant
                self.stops@ == old(self).stops@,
                i <= self.stops@.len(),
                self.stops_by_id@.len() == i,
                forall|k: int|
                    0 <= k < i ==> #[trigger] self.stops_by_id@[k] == (
                        self.stops@[k].id,
                        self.stops@[k],
                    ),
            decreases self.stops@.len() - i,
        {
            let entry = (self.stops[i].id.clone(), self.stops[i].clone());
            self.stops_by_id.push(entry);
            i = i + 1;
        }
    }
}

/// The stops to poll, per provider.
#[derive(Debug)]
pub struct Config {
    pub bart: ProviderConfig,
    pub muni: ProviderConfig,
    pub baywheels: ProviderConfig,
}

/// One subpage: the feed it shows and the key of the handler that renders it.
#[derive(Debug)]
pub struct SubpageDefinition {
    pub transit_identifier: TransitIdentifier,
    pub page_display_handler_key: String,
}

/// Mathematical value of a `SubpageDefinition`.
pub struct SubpageView {
    pub transit_identifier: IdView,
    pub handler_key: Seq<char>,
}

impl View for SubpageDefinition {
    type V = SubpageView;

    open spec fn view(&self) -> SubpageView {
        SubpageView {
            transit_identifier: self.transit_identifier@,
            handler_key: self.page_display_handler_key@,
        }
    }
}

impl SubpageDefinition {
    /// The handler this subpage is rendered with; the key must have been
    /// validated when the configuration was loaded.
    pub fn display_handler(&self) -> (r: PageDisplayHandler)
        requires
            valid_handler_key(self.page_display_handler_key@),
        ensures
            r == handler_of_key(self.page_display_handler_key@),
    {
        PageDisplayHandler::from_key(self.page_display_handler_key.as_str())
    }
}

/// One page: the ordered subpages it cycles through.
#[derive(Debug)]
pub struct PageDefinition {
    pub subpages: Vec<SubpageDefinition>,
}

impl View for PageDefinition {
    type V = Seq<SubpageView>;

    open spec fn view(&self) -> Seq<SubpageView> {
        self.subpages@.map_values(|s: SubpageDefinition| s@)
    }
}

/// Display configuration: dwell times (milliseconds) for transient modes, and
/// the ordered page layout.
#[derive(Debug)]
pub struct DisplayConfig {
    pub message_timeout: u64,
    pub error_timeout: u64,
    pub pages: Vec<PageDefinition>,
}

/// Mathematical value of a `DisplayConfig`.
pub struct DisplayConfigView {
    pub message_timeout: int,
    pub error_timeout: int,
    pub pages: Seq<Seq<SubpageView>>,
}

impl DisplayConfigView {
    /// A usable layout: at least one page, every page with at least one
    /// subpage, every handler key known.
    pub open spec fn wf(self) -> bool {
        &&& self.pages.len() > 0
        &&& forall|p: int| 0 <= p < self.pages.len() ==> #[trigger] self.pages[p].len() > 0
        &&& forall|p: int, s: int|
            0 <= p < self.pages.len() && 0 <= s < self.pages[p].len() ==> valid_handler_key(
                #[trigger] self.pages[p][s].handler_key,
            )
    }
}

impl View for DisplayConfig {
    type V = DisplayConfigView;

    open spec fn view(&self) -> DisplayConfigView {
        DisplayConfigView {
            message_timeout: self.message_timeout as int,
            error_timeout: self.error_timeout as int,
            pages: self.pages@.map_values(|p: PageDefinition| p@),
        }
    }
}

} // verus!
