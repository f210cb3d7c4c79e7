//! The display state machine: it owns the current mode and the pagination
//! cursor, and transitions on discrete events. Every transition that lands in
//! transit mode queries the snapshot store for the destination feed, so the
//! sign never shows a snapshot staler than its last transition.
use vstd::prelude::*;

use crate::config::{DisplayConfig, DisplayConfigView};
use crate::display::{DisplayMode, EventView, ModeView, StateEvent};
use crate::state::{TransitStateManager, query_spec};
use crate::transit::{IdView, SnapView};

verus! {

/// Milliseconds elapsed from `start` to `now` on a monotonic clock; a clock
/// that appears to have gone backwards reads as no time passed.
pub open spec fn elapsed(start: int, now: int) -> int {
    if now >= start {
        now - start
    } else {
        0
    }
}

/// Mathematical value of the display state machine.
pub struct FsmView {
    pub mode: ModeView,
    pub config: DisplayConfigView,
    pub page_idx: int,
    pub subpage_idx: int,
}

/// The feed shown by the subpage at a cursor position.
pub open spec fn identifier_at(c: DisplayConfigView, page: int, subpage: int) -> IdView {
    c.pages[page][subpage].transit_identifier
}

/// Transit mode for a feed, holding the snapshot the store answers right now.
pub open spec fn transit_mode(id: IdView, store: Map<IdView, SnapView>, now: int) -> ModeView {
    ModeView::Transit {
        transit_identifier: id,
        transit_state: Some(query_spec(store, id)),
        last_update: now,
    }
}

impl FsmView {
    /// A usable machine: a usable layout and a cursor inside it.
    pub open spec fn wf(self) -> bool {
        &&& self.config.wf()
        &&& 0 <= self.page_idx < self.config.pages.len()
        &&& 0 <= self.subpage_idx < self.config.pages[self.page_idx].len()
    }
}

/// The reset transition: back to the first page's first subpage, in transit
/// mode, with a fresh query for that feed.
pub open spec fn spec_reset(f: FsmView, now: int, store: Map<IdView, SnapView>) -> FsmView {
    FsmView {
        mode: transit_mode(identifier_at(f.config, 0, 0), store, now),
        config: f.config,
        page_idx: 0,
        subpage_idx: 0,
    }
}

/// The machine's transition function: the state after applying one event at
/// time `now`, querying `store` wherever the transition lands in transit mode.
pub open spec fn spec_next(
    f: FsmView,
    ev: EventView,
    now: int,
    store: Map<IdView, SnapView>,
) -> FsmView {
    match ev {
        EventView::NextPage => match f.mode {
            ModeView::Transit { .. } => {
                let p = (f.page_idx + 1) % (f.config.pages.len() as int);
                FsmView {
                    mode: transit_mode(identifier_at(f.config, p, 0), store, now),
                    config: f.config,
                    page_idx: p,
                    subpage_idx: 0,
                }
            },
            ModeView::CustomMessage { .. } => spec_reset(f, now, store),
            ModeView::Error { .. } => f,
        },
        EventView::NextSubpage => match f.mode {
            ModeView::Transit { .. } => {
                let s = (f.subpage_idx + 1) % (f.config.pages[f.page_idx].len() as int);
                FsmView {
                    mode: transit_mode(identifier_at(f.config, f.page_idx, s), store, now),
                    config: f.config,
                    page_idx: f.page_idx,
                    subpage_idx: s,
                }
            },
            ModeView::CustomMessage { .. } => f,
            ModeView::Error { .. } => f,
        },
        EventView::Reset => spec_reset(f, now, store),
        EventView::Quit => f,
        EventView::TransitUpdate => match f.mode {
            ModeView::Transit { transit_identifier, .. } => FsmView {
                mode: transit_mode(transit_identifier, store, now),
                config: f.config,
                page_idx: f.page_idx,
                subpage_idx: f.subpage_idx,
            },
            ModeView::CustomMessage { .. } => f,
            ModeView::Error { .. } => f,
        },
        EventView::CustomMessage(text) => FsmView {
            mode: ModeView::CustomMessage {
                message: text,
                start_time: now,
                previous_state: Box::new(f.mode),
            },
            config: f.config,
            page_idx: f.page_idx,
            subpage_idx: f.subpage_idx,
        },
        EventView::DisplayRefresh => match f.mode {
            ModeView::Transit { .. } => f,
            ModeView::CustomMessage { start_time, previous_state, .. } => {
                if elapsed(start_time, now) >= f.config.message_timeout {
                    FsmView {
                        mode: *previous_state,
                        config: f.config,
                        page_idx: f.page_idx,
                        subpage_idx: f.subpage_idx,
                    }
                } else {
                    f
                }
            },
            ModeView::Error { start_time, .. } => {
                if elapsed(start_time, now) >= f.config.error_timeout {
                    spec_reset(f, now, store)
                } else {
                    f
                }
            },
        },
    }
}

proof fn lemma_config_view_lens(c: &DisplayConfig)
    ensures
        c@.pages.len() == c.pages@.len(),
        forall|p: int|
            0 <= p < c.pages@.len() ==> #[trigger] c@.pages[p].len()
                == c.pages@[p].subpages@.len(),
        forall|p: int, s: int|
            0 <= p < c.pages@.len() && 0 <= s < c.pages@[p].subpages@.len()
                ==> #[trigger] c@.pages[p][s] == c.pages@[p].subpages@[s]@,
{
    assert forall|p: int| 0 <= p < c.pages@.len() implies #[trigger] c@.pages[p].len()
        == c.pages@[p].subpages@.len() by {
        assert(c@.pages[p] == c.pages@[p]@);
    }
    assert forall|p: int, s: int|
        0 <= p < c.pages@.len() && 0 <= s < c.pages@[p].subpages@.len() implies #[trigger] c@.pages[p][s]
        == c.pages@[p].subpages@[s]@ by {
        assert(c@.pages[p] == c.pages@[p]@);
    }
}

/// The display state machine.
pub struct DisplayFiniteStateMachine {
    current_state: DisplayMode,
    config: DisplayConfig,
    pub page_idx: usize,
    pub subpage_idx: usize,
}

impl View for DisplayFiniteStateMachine {
    type V = FsmView;

    closed spec fn view(&self) -> FsmView {
        FsmView {
            mode: self.current_state@,
            config: self.config@,
            page_idx: self.page_idx as int,
            subpage_idx: self.subpage_idx as int,
        }
    }
}

impl DisplayFiniteStateMachine {
    /// A usable machine: see `FsmView::wf`.
    pub open spec fn wf(self) -> bool {
        self@.wf()
    }

    /// A machine at the first page's first subpage, in transit mode with no
    /// snapshot yet: nothing has been queried before the first event.
    pub fn new(config: DisplayConfig, now: u64) -> (r: Self)
        requires
            config@.wf(),
        ensures
            r.wf(),
            r@.config == config@,
            r@.page_idx == 0,
            r@.subpage_idx == 0,
            r@.mode == (ModeView::Transit {
                transit_identifier: identifier_at(config@, 0, 0),
                transit_state: None::<SnapView>,
                last_update: now as int,
            }),
    {
        proof {
            lemma_config_view_lens(&config);
            assert(config@.pages[0].len() > 0);
            assert(config@.pages[0][0] == config.pages@[0].subpages@[0]@);
        }
        let initial_transit_identifier =
            config.pages[0].subpages[0].transit_identifier.clone();
        DisplayFiniteStateMachine {
            current_state: DisplayMode::Transit {
                transit_identifier: initial_transit_identifier,
                transit_state: None,
                last_update: now,
            },
            config,
            page_idx: 0,
            subpage_idx: 0,
        }
    }

    /// The mode currently shown.
    pub fn current_state(&self) -> (r: &DisplayMode)
        ensures
            r@ == self@.mode,
    {
        &self.current_state
    }

    fn handle_reset(&mut self, now: u64, store: &TransitStateManager)
        requires
            old(self).wf(),
            store.wf(),
        ensures
            final(self).wf(),
            final(self)@ == spec_reset(old(self)@, now as int, store@),
    {
        proof {
            lemma_config_view_lens(&self.config);
            assert(self@.config.pages[0].len() > 0);
            assert(self@.config.pages[0][0] == self.config.pages@[0].subpages@[0]@);
        }
        let first_transit_identifier =
            self.config.pages[0].subpages[0].transit_identifier.clone();
        let state_for_identifier = store.get_state_for_identifier(&first_transit_identifier);
        self.current_state = DisplayMode::Transit {
            transit_identifier: first_transit_identifier,
            transit_state: Some(state_for_identifier),
            last_update: now,
        };
        self.page_idx = 0;
        self.subpage_idx = 0;
    }

    fn handle_next_page(&mut self, now: u64, store: &TransitStateManager)
        requires
            old(self).wf(),
            store.wf(),
        ensures
            final(self).wf(),
            final(self)@ == spec_next(old(self)@, EventView::NextPage, now as int, store@),
    {
        proof {
            lemma_config_view_lens(&self.config);
        }
        match &self.current_state {
            DisplayMode::Transit { .. } => {
                let page_count = self.config.pages.len();
                let next_page_idx = (self.page_idx + 1) % page_count;
                proof {
                    assert(self@.config.pages[next_page_idx as int].len() > 0);
                    assert(self@.config.pages[next_page_idx as int][0]
                        == self.config.pages@[next_page_idx as int].subpages@[0]@);
                }
                let next_transit_identifier =
                    self.config.pages[next_page_idx].subpages[0].transit_identifier.clone();
                let state_for_identifier = store.get_state_for_identifier(
                    &next_transit_identifier,
                );
                self.current_state = DisplayMode::Transit {
                    transit_identifier: next_transit_identifier,
                    transit_state: Some(state_for_identifier),
                    last_update: now,
                };
                self.page_idx = next_page_idx;
                self.subpage_idx = 0;
            },
            DisplayMode::CustomMessage { .. } => {
                self.handle_reset(now, store);
            },
            DisplayMode::Error { .. } => (),
        }
    }

    fn handle_next_subpage(&mut self, now: u64, store: &TransitStateManager)
        requires
            old(self).wf(),
            store.wf(),
        ensures
            final(self).wf(),
            final(self)@ == spec_next(old(self)@, EventView::NextSubpage, now as int, store@),
    {
        proof {
            lemma_config_view_lens(&self.config);
        }
        match &self.current_state {
            DisplayMode::Transit { .. } => {
                proof {
                    assert(self@.config.pages[self.page_idx as int].len() > 0);
                }
                let subpage_count = self.config.pages[self.page_idx].subpages.len();
                let next_subpage_idx = (self.subpage_idx + 1) % subpage_count;
                proof {
                    assert(self@.config.pages[self.page_idx as int][next_subpage_idx as int]
                        == self.config.pages@[self.page_idx as int]
                            .subpages@[next_subpage_idx as int]@);
                }
                let next_transit_identifier =
                    self.config.pages[self.page_idx].subpages[next_subpage_idx]
                    .transit_identifier
                    .clone();
                let state_for_identifier = store.get_state_for_identifier(
                    &next_transit_identifier,
                );
                self.current_state = DisplayMode::Transit {
                    transit_identifier: next_transit_identifier,
                    transit_state: Some(state_for_identifier),
                    last_update: now,
                };
                self.subpage_idx = next_subpage_idx;
            },
            DisplayMode::CustomMessage { .. } => (),
            DisplayMode::Error { .. } => (),
        }
    }

    fn handle_transit_update(&mut self, now: u64, store: &TransitStateManager)
        requires
            old(self).wf(),
            store.wf(),
        ensures
            final(self).wf(),
            final(self)@ == spec_next(old(self)@, EventView::TransitUpdate, now as int, store@),
    {
        match &self.current_state {
            DisplayMode::Transit { transit_identifier, .. } => {
                let id = transit_identifier.clone();
                let new_state = store.get_state_for_identifier(&id);
                self.current_state = DisplayMode::Transit {
                    transit_identifier: id,
                    transit_state: Some(new_state),
                    last_update: now,
                };
            },
            DisplayMode::CustomMessage { .. } => (),
            DisplayMode::Error { .. } => (),
        }
    }

    fn handle_custom_message(&mut self, message: String, now: u64)
        requires
            old(self).wf(),
        ensures
            final(self).wf(),
            final(self)@.mode == (ModeView::CustomMessage {
                message: message@,
                start_time: now as int,
                previous_state: Box::new(old(self)@.mode),
            }),
            final(self)@.config == old(self)@.config,
            final(self)@.page_idx == old(self)@.page_idx,
            final(self)@.subpage_idx == old(self)@.subpage_idx,
    {
        let previous = self.current_state.clone();
        self.current_state = DisplayMode::CustomMessage {
            message,
            start_time: now,
            previous_state: Box::new(previous),
        };
    }

    fn handle_display_refresh(&mut self, now: u64, store: &TransitStateManager)
        requires
            old(self).wf(),
            store.wf(),
        ensures
            final(self).wf(),
            final(self)@ == spec_next(old(self)@, EventView::DisplayRefresh, now as int, store@),
    {
        let mut do_reset = false;
        let mut restore: Option<DisplayMode> = None;
        match &self.current_state {
            DisplayMode::CustomMessage { start_time, previous_state, .. } => {
                let elapsed_ms: u64 = if now >= *start_time {
                    now - *start_time
                } else {
                    0
                };
                if elapsed_ms >= self.config.message_timeout {
                    restore = Some((**previous_state).clone());
                }
            },
            DisplayMode::Error { start_time, .. } => {
                let elapsed_ms: u64 = if now >= *start_time {
                    now - *start_time
                } else {
                    0
                };
                if elapsed_ms >= self.config.error_timeout {
                    do_reset = true;
                }
            },
            DisplayMode::Transit { .. } => (),
        }
        if do_reset {
            self.handle_reset(now, store);
        }
        match restore {
            Some(previous) => {
                self.current_state = previous;
            },
            None => (),
        }
    }

    /// Puts the sign into error mode. No specified event enters this mode;
    /// the surrounding program calls this on a failure it cannot recover
    /// from, and the refresh tick performs a reset once the error dwell time
    /// has passed.
    pub fn enter_error(&mut self, message: String, now: u64)
        requires
            old(self).wf(),
        ensures
            final(self).wf(),
            final(self)@.mode == (ModeView::Error {
                message: message@,
                start_time: now as int,
            }),
            final(self)@.config == old(self)@.config,
            final(self)@.page_idx == old(self)@.page_idx,
            final(self)@.subpage_idx == old(self)@.subpage_idx,
    {
        self.current_state = DisplayMode::Error { message, start_time: now };
    }

    /// Applies one event at time `now`, querying `store` wherever the
    /// transition lands in transit mode. The new state is exactly what the
    /// transition function `spec_next` prescribes.
    pub fn handle_event(&mut self, event: StateEvent, now: u64, store: &TransitStateManager)
        requires
            old(self).wf(),
            store.wf(),
        ensures
            final(self).wf(),
            final(self)@ == spec_next(old(self)@, event@, now as int, store@),
    {
        match event {
            StateEvent::NextPage => self.handle_next_page(now, store),
            StateEvent::NextSubpage => self.handle_next_subpage(now, store),
            StateEvent::Reset => self.handle_reset(now, store),
            StateEvent::TransitUpdate => self.handle_transit_update(now, store),
            StateEvent::CustomMessage(message) => self.handle_custom_message(message, now),
            StateEvent::DisplayRefresh => self.handle_display_refresh(now, store),
            StateEvent::Quit => (),
        }
    }
}


/// The machine after a string of page-advance events, each applied at its own
/// time against its own store contents.
pub open spec fn apply_next_pages(f: FsmView, steps: Seq<(int, Map<IdView, SnapView>)>) -> FsmView
    decreases steps.len(),
{
    if steps.len() == 0 {
        f
    } else {
        apply_next_pages(
            spec_next(f, EventView::NextPage, steps[0].0, steps[0].1),
            steps.drop_first(),
        )
    }
}

/// The machine after a string of subpage-advance events.
pub open spec fn apply_next_subpages(
    f: FsmView,
    steps: Seq<(int, Map<IdView, SnapView>)>,
) -> FsmView
    decreases steps.len(),
{
    if steps.len() == 0 {
        f
    } else {
        apply_next_subpages(
            spec_next(f, EventView::NextSubpage, steps[0].0, steps[0].1),
            steps.drop_first(),
        )
    }
}

proof fn lemma_apply_next_pages_index(f: FsmView, steps: Seq<(int, Map<IdView, SnapView>)>)
    requires
        f.wf(),
        f.mode is Transit,
    ensures
        apply_next_pages(f, steps).wf(),
        apply_next_pages(f, steps).mode is Transit,
        apply_next_pages(f, steps).config == f.config,
        apply_next_pages(f, steps).page_idx == (f.page_idx + steps.len()) % (
        f.config.pages.len() as int),
        steps.len() > 0 ==> apply_next_pages(f, steps).subpage_idx == 0,
        steps.len() == 0 ==> apply_next_pages(f, steps) == f,
    decreases steps.len(),
{
    let m = f.config.pages.len() as int;
    if steps.len() == 0 {
        vstd::arithmetic::div_mod::lemma_small_mod(f.page_idx as nat, m as nat);
    } else {
        let f1 = spec_next(f, EventView::NextPage, steps[0].0, steps[0].1);
        vstd::arithmetic::div_mod::lemma_mod_pos_bound(f.page_idx + 1, m);
        assert(f.config.pages[f1.page_idx].len() > 0);
        assert(f1.wf());
        lemma_apply_next_pages_index(f1, steps.drop_first());
        let k = steps.len() - 1;
        vstd::arithmetic::div_mod::lemma_mod_twice(f.page_idx + 1, m);
        vstd::arithmetic::div_mod::lemma_add_mod_noop((f.page_idx + 1) % m, k, m);
        vstd::arithmetic::div_mod::lemma_add_mod_noop(f.page_idx + 1, k, m);
    }
}

proof fn lemma_apply_next_subpages_index(f: FsmView, steps: Seq<(int, Map<IdView, SnapView>)>)
    requires
        f.wf(),
        f.mode is Transit,
    ensures
        apply_next_subpages(f, steps).wf(),
        apply_next_subpages(f, steps).mode is Transit,
        apply_next_subpages(f, steps).config == f.config,
        apply_next_subpages(f, steps).page_idx == f.page_idx,
        apply_next_subpages(f, steps).subpage_idx == (f.subpage_idx + steps.len()) % (
        f.config.pages[f.page_idx].len() as int),
    decreases steps.len(),
{
    let m = f.config.pages[f.page_idx].len() as int;
    if steps.len() == 0 {
        vstd::arithmetic::div_mod::lemma_small_mod(f.subpage_idx as nat, m as nat);
    } else {
        let f1 = spec_next(f, EventView::NextSubpage, steps[0].0, steps[0].1);
        vstd::arithmetic::div_mod::lemma_mod_pos_bound(f.subpage_idx + 1, m);
        assert(f1.wf());
        lemma_apply_next_subpages_index(f1, steps.drop_first());
        let k = steps.len() - 1;
        vstd::arithmetic::div_mod::lemma_mod_twice(f.subpage_idx + 1, m);
        vstd::arithmetic::div_mod::lemma_add_mod_noop((f.subpage_idx + 1) % m, k, m);
        vstd::arithmetic::div_mod::lemma_add_mod_noop(f.subpage_idx + 1, k, m);
    }
}

/// With P pages, applying the page-advance event P times from page 0 in
/// transit mode returns to page 0, with the subpage reset to 0; and with S
/// subpages on the current page, applying the subpage-advance event S times
/// from subpage 0 returns to subpage 0 without changing the page.
pub proof fn lemma_pagination_wraparound(
    f: FsmView,
    page_steps: Seq<(int, Map<IdView, SnapView>)>,
    subpage_steps: Seq<(int, Map<IdView, SnapView>)>,
)
    requires
        f.wf(),
        f.mode is Transit,
        f.page_idx == 0,
        f.subpage_idx == 0,
        page_steps.len() == f.config.pages.len(),
        subpage_steps.len() == f.config.pages[f.page_idx].len(),
    ensures
        apply_next_pages(f, page_steps).page_idx == 0,
        apply_next_pages(f, page_steps).subpage_idx == 0,
        apply_next_pages(f, page_steps).mode is Transit,
        apply_next_subpages(f, subpage_steps).page_idx == f.page_idx,
        apply_next_subpages(f, subpage_steps).subpage_idx == 0,
        apply_next_subpages(f, subpage_steps).mode is Transit,
{
    lemma_apply_next_pages_index(f, page_steps);
    vstd::arithmetic::div_mod::lemma_mod_self_0(f.config.pages.len() as int);
    lemma_apply_next_subpages_index(f, subpage_steps);
    vstd::arithmetic::div_mod::lemma_mod_self_0(f.config.pages[f.page_idx].len() as int);
}

/// The query-on-transition rule: every transition that changes the machine and
/// lands in transit mode embeds exactly the snapshot the store holds for the
/// destination feed at that instant, stamped with that instant. The one
/// exception is an expired custom message, which restores the captured prior
/// mode as it was. The page layout never changes.
pub proof fn lemma_query_on_transition(
    f: FsmView,
    ev: EventView,
    now: int,
    store: Map<IdView, SnapView>,
)
    requires
        f.wf(),
    ensures
        spec_next(f, ev, now, store).config == f.config,
        ({
            let g = spec_next(f, ev, now, store);
            g != f && g.mode is Transit && !(ev is DisplayRefresh && f.mode is CustomMessage)
                ==> g.mode->Transit_transit_state == Some(
                query_spec(store, g.mode->Transit_transit_identifier),
            ) && g.mode->Transit_last_update == now
        }),
{
}

/// Entering a custom message leaves the cursor in place. A refresh tick before
/// the message dwell time has passed changes nothing; a tick at or after it
/// restores exactly the machine as it stood when the message was entered —
/// identifier, cursor, and the snapshot captured then — with no fresh query.
pub proof fn lemma_custom_message_lifecycle(
    f: FsmView,
    text: Seq<char>,
    t0: int,
    t1: int,
    store0: Map<IdView, SnapView>,
    store1: Map<IdView, SnapView>,
)
    requires
        f.wf(),
    ensures
        ({
            let g = spec_next(f, EventView::CustomMessage(text), t0, store0);
            &&& g.page_idx == f.page_idx
            &&& g.subpage_idx == f.subpage_idx
            &&& g.config == f.config
            &&& elapsed(t0, t1) < f.config.message_timeout ==> spec_next(
                g,
                EventView::DisplayRefresh,
                t1,
                store1,
            ) == g
            &&& elapsed(t0, t1) >= f.config.message_timeout ==> spec_next(
                g,
                EventView::DisplayRefresh,
                t1,
                store1,
            ) == f
        }),
{
}

/// In error mode, a refresh tick before the error dwell time has passed is a
/// no-op; a tick at or after it performs exactly the reset transition.
pub proof fn lemma_error_timeout_resets(f: FsmView, now: int, store: Map<IdView, SnapView>)
    requires
        f.wf(),
        f.mode is Error,
    ensures
        elapsed(f.mode->Error_start_time, now) < f.config.error_timeout ==> spec_next(
            f,
            EventView::DisplayRefresh,
            now,
            store,
        ) == f,
        elapsed(f.mode->Error_start_time, now) >= f.config.error_timeout ==> spec_next(
            f,
            EventView::DisplayRefresh,
            now,
            store,
        ) == spec_next(f, EventView::Reset, now, store),
{
}

} // verus!
