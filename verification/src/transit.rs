//! Data model of the sign: feed identifiers, arrival predictions, bike-share
//! inventory, and the per-feed snapshot that replaces older data wholesale.
use vstd::prelude::*;

use crate::color::Color;
use crate::text::{str_eq, int_chars, i32_to_string};

verus! {

/// Composite key naming one feed: a stop and direction for one provider.
#[derive(Debug, Eq, Hash)]
pub struct TransitIdentifier {
    pub provider_key: String,
    pub station_id: String,
    pub direction: String,
}

/// Mathematical value of a `TransitIdentifier`.
pub struct IdView {
    pub provider_key: Seq<char>,
    pub station_id: Seq<char>,
    pub direction: Seq<char>,
}

impl View for TransitIdentifier {
    type V = IdView;

    open spec fn view(&self) -> IdView {
        IdView {
            provider_key: self.provider_key@,
            station_id: self.station_id@,
            direction: self.direction@,
        }
    }
}

impl PartialEq for TransitIdentifier {
    fn eq(&self, other: &Self) -> (r: bool) {
        self.provider_key == other.provider_key && self.station_id == other.station_id
            && self.direction == other.direction
    }
}

impl vstd::std_specs::cmp::PartialEqSpecImpl for TransitIdentifier {
    open spec fn obeys_eq_spec() -> bool {
        true
    }

    open spec fn eq_spec(&self, other: &Self) -> bool {
        self@ == other@
    }
}

impl Clone for TransitIdentifier {
    fn clone(&self) -> (r: Self)
        ensures
            r == *self,
    {
        TransitIdentifier {
            provider_key: self.provider_key.clone(),
            station_id: self.station_id.clone(),
            direction: self.direction.clone(),
        }
    }
}

/// One upcoming arrival. Replaced wholesale on each refresh, never mutated.
/// The predicted time is an epoch timestamp in milliseconds.
#[derive(Debug, PartialEq)]
pub struct Prediction {
    pub provider_key: String,
    pub route_name: String,
    pub destination: String,
    pub minutes_until_arrival: i32,
    pub predicted_time: i64,
    pub station_id: String,
    pub stop_id: String,
    pub direction: String,
    pub color: Color,
}

/// Mathematical value of a `Prediction`.
pub struct PredView {
    pub provider_key: Seq<char>,
    pub route_name: Seq<char>,
    pub destination: Seq<char>,
    pub minutes_until_arrival: int,
    pub predicted_time: int,
    pub station_id: Seq<char>,
    pub stop_id: Seq<char>,
    pub direction: Seq<char>,
    pub color: Color,
}

impl PredView {
    /// The feed this prediction belongs to.
    pub open spec fn identifier(self) -> IdView {
        IdView {
            provider_key: self.provider_key,
            station_id: self.station_id,
            direction: self.direction,
        }
    }
}

impl View for Prediction {
    type V = PredView;

    open spec fn view(&self) -> PredView {
        PredView {
            provider_key: self.provider_key@,
            route_name: self.route_name@,
            destination: self.destination@,
            minutes_until_arrival: self.minutes_until_arrival as int,
            predicted_time: self.predicted_time as int,
            station_id: self.station_id@,
            stop_id: self.stop_id@,
            direction: self.direction@,
            color: self.color,
        }
    }
}

impl Clone for Prediction {
    fn clone(&self) -> (r: Self)
        ensures
            r == *self,
    {
        Prediction {
            provider_key: self.provider_key.clone(),
            route_name: self.route_name.clone(),
            destination: self.destination.clone(),
            minutes_until_arrival: self.minutes_until_arrival,
            predicted_time: self.predicted_time,
            station_id: self.station_id.clone(),
            stop_id: self.stop_id.clone(),
            direction: self.direction.clone(),
            color: self.color,
        }
    }
}

/// The first character of a sequence, or the empty sequence.
pub open spec fn first_char(s: Seq<char>) -> Seq<char> {
    if s.len() == 0 {
        s
    } else {
        s.subrange(0, 1)
    }
}

/// The line of text a prediction is rendered as, by provider.
pub open spec fn pred_display_chars(p: PredView) -> Seq<char> {
    if p.provider_key == "bart"@ {
        first_char(p.route_name) + " to "@ + p.destination + ": "@ + int_chars(
            p.minutes_until_arrival,
        ) + " min"@
    } else if p.provider_key == "muni"@ {
        p.route_name + " "@ + p.direction + ": "@ + int_chars(p.minutes_until_arrival) + " min"@
    } else {
        "Unsupported"@
    }
}

impl Prediction {
    /// The feed this prediction belongs to.
    pub fn to_identifier(&self) -> (r: TransitIdentifier)
        ensures
            r@ == self@.identifier(),
    {
        TransitIdentifier {
            provider_key: self.provider_key.clone(),
            station_id: self.station_id.clone(),
            direction: self.direction.clone(),
        }
    }

    /// Renders the prediction as one line of display text.
    pub fn to_display_string(&self) -> (r: String)
        ensures
            r@ == pred_display_chars(self@),
    {
        if str_eq(self.provider_key.as_str(), "bart") {
            let mut s = String::new();
            let route: &str = self.route_name.as_str();
            if route.unicode_len() == 0 {
                s.append(route);
            } else {
                s.append(route.substring_char(0, 1));
            }
            s.append(" to ");
            s.append(self.destination.as_str());
            s.append(": ");
            let minutes = i32_to_string(self.minutes_until_arrival);
            s.append(minutes.as_str());
            s.append(" min");
            proof {
                assert(s@ =~= pred_display_chars(self@));
            }
            s
        } else if str_eq(self.provider_key.as_str(), "muni") {
            let mut s = String::new();
            s.append(self.route_name.as_str());
            s.append(" ");
            s.append(self.direction.as_str());
            s.append(": ");
            let minutes = i32_to_string(self.minutes_until_arrival);
            s.append(minutes.as_str());
            s.append(" min");
            proof {
                assert(s@ =~= pred_display_chars(self@));
            }
            s
        } else {
            "Unsupported".to_owned()
        }
    }
}

/// One bike-share station snapshot. The last-updated field is an epoch
/// timestamp in milliseconds.
#[derive(Debug, PartialEq)]
pub struct BikeInventory {
    pub station_name: String,
    pub bikes_available: i32,
    pub docks_available: i32,
    pub ebikes_v1_available: i32,
    pub ebikes_v2_available: i32,
    pub last_updated: i64,
    pub stop_id: String,
}

/// Mathematical value of a `BikeInventory`.
pub struct BikeView {
    pub station_name: Seq<char>,
    pub bikes_available: int,
    pub docks_available: int,
    pub ebikes_v1_available: int,
    pub ebikes_v2_available: int,
    pub last_updated: int,
    pub stop_id: Seq<char>,
}

impl BikeView {
    /// The feed a bike-share snapshot is keyed by.
    pub open spec fn identifier(self) -> IdView {
        IdView {
            provider_key: "baywheels"@,
            station_id: self.station_name,
            direction: "None"@,
        }
    }
}

impl View for BikeInventory {
    type V = BikeView;

    open spec fn view(&self) -> BikeView {
        BikeView {
            station_name: self.station_name@,
            bikes_available: self.bikes_available as int,
            docks_available: self.docks_available as int,
            ebikes_v1_available: self.ebikes_v1_available as int,
            ebikes_v2_available: self.ebikes_v2_available as int,
            last_updated: self.last_updated as int,
            stop_id: self.stop_id@,
        }
    }
}

impl Clone for BikeInventory {
    fn clone(&self) -> (r: Self)
        ensures
            r == *self,
    {
        BikeInventory {
            station_name: self.station_name.clone(),
            bikes_available: self.bikes_available,
            docks_available: self.docks_available,
            ebikes_v1_available: self.ebikes_v1_available,
            ebikes_v2_available: self.ebikes_v2_available,
            last_updated: self.last_updated,
            stop_id: self.stop_id.clone(),
        }
    }
}

impl BikeInventory {
    /// The feed this snapshot is keyed by.
    pub fn to_identifier(&self) -> (r: TransitIdentifier)
        ensures
            r@ == self@.identifier(),
    {
        TransitIdentifier {
            provider_key: "baywheels".to_owned(),
            station_id: self.station_name.clone(),
            direction: "None".to_owned(),
        }
    }
}

/// The views of a sequence of predictions, in order.
pub open spec fn pred_views(s: Seq<Prediction>) -> Seq<PredView> {
    s.map_values(|p: Prediction| p@)
}

/// The latest data held for one feed: arrival predictions, a bike-share
/// snapshot, or nothing yet.
#[derive(Debug, PartialEq)]
pub enum TransitState {
    Predictions(Vec<Prediction>),
    BikeInventory(BikeInventory),
    EmptyState,
}

/// Mathematical value of a `TransitState`.
pub enum SnapView {
    Predictions(Seq<PredView>),
    BikeInventory(BikeView),
    EmptyState,
}

impl View for TransitState {
    type V = SnapView;

    open spec fn view(&self) -> SnapView {
        match self {
            TransitState::Predictions(ps) => SnapView::Predictions(pred_views(ps@)),
            TransitState::BikeInventory(b) => SnapView::BikeInventory(b@),
            TransitState::EmptyState => SnapView::EmptyState,
        }
    }
}

/// Copies a list of predictions element by element.
pub fn clone_predictions(ps: &Vec<Prediction>) -> (r: Vec<Prediction>)
    ensures
        r@ == ps@,
{
    let mut out: Vec<Prediction> = Vec::new();
    let mut i: usize = 0;
    while i < ps.len()
        invariant
            i <= ps.len(),
            out@ == ps@.take(i as int),
        decreases ps.len() - i,
    {
        out.push(ps[i].clone());
        proof {
            assert(ps@.take(i + 1 as int) =~= ps@.take(i as int).push(ps@[i as int]));
        }
        i = i + 1;
    }
    proof {
        assert(ps@.take(ps.len() as int) =~= ps@);
    }
    out
}

impl Clone for TransitState {
    fn clone(&self) -> (r: Self)
        ensures
            r@ == self@,
    {
        match self {
            TransitState::Predictions(ps) => TransitState::Predictions(clone_predictions(ps)),
            TransitState::BikeInventory(b) => TransitState::BikeInventory(b.clone()),
            TransitState::EmptyState => TransitState::EmptyState,
        }
    }
}

impl Default for TransitState {
    /// The sentinel for a feed with no data yet.
    fn default() -> (r: Self)
        ensures
            r == TransitState::EmptyState,
    {
        TransitState::EmptyState
    }
}

/// How many entries of `models` are exactly `name`.
pub open spec fn count_matching(models: Seq<Seq<char>>, name: Seq<char>) -> int
    decreases models.len(),
{
    if models.len() == 0 {
        0
    } else {
        count_matching(models.drop_last(), name) + if models.last() == name {
            1int
        } else {
            0int
        }
    }
}

/// The views of a sequence of strings, in order.
pub open spec fn string_views(s: Seq<String>) -> Seq<Seq<char>> {
    s.map_values(|x: String| x@)
}

/// Counts the two known e-bike models among a station's bike model names.
pub fn count_ebikes_by_model(models: &Vec<String>) -> (r: (i32, i32))
    requires
        models@.len() <= i32::MAX as int,
    ensures
        r.0 == count_matching(string_views(models@), "lyft_bike_watson"@),
        r.1 == count_matching(string_views(models@), "lyft_bike_cosmo"@),
{
    let mut v1_count: i32 = 0;
    let mut v2_count: i32 = 0;
    let mut i: usize = 0;
    while i < models.len()
        invariant
            i <= models@.len() <= i32::MAX as int,
            0 <= v1_count <= i,
            0 <= v2_count <= i,
            v1_count == count_matching(string_views(models@).take(i as int), "lyft_bike_watson"@),
            v2_count == count_matching(string_views(models@).take(i as int), "lyft_bike_cosmo"@),
        decreases models@.len() - i,
    {
        proof {
            reveal_strlit("lyft_bike_watson");
            reveal_strlit("lyft_bike_cosmo");
            assert("lyft_bike_watson"@.len() != "lyft_bike_cosmo"@.len());
            assert(string_views(models@).take(i + 1 as int).drop_last() =~= string_views(
                models@,
            ).take(i as int));
            assert(string_views(models@).take(i + 1 as int).last() == models@[i as int]@);
        }
        if str_eq(models[i].as_str(), "lyft_bike_watson") {
            v1_count = v1_count + 1;
        } else if str_eq(models[i].as_str(), "lyft_bike_cosmo") {
            v2_count = v2_count + 1;
        }
        i = i + 1;
    }
    proof {
        assert(string_views(models@).take(models@.len() as int) =~= string_views(models@));
    }
    (v1_count, v2_count)
}

} // verus!
