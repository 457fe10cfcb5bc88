//! The raw NEO payload shapes, as the upstream service delivers them.
//!
//! Two payloads exist: a *feed* (every object with a close approach in a date
//! range, bucketed per day) and a *lookup* (full detail on one object). A
//! close-approach event carries its velocity and miss distance as decimal
//! text; the library reads those through [`crate::decimal::parse_decimal`].
//! Estimated diameters and the absolute magnitude arrive as plain numbers
//! and are carried in whole units.
//!
//! A feed's objects arrive bucketed under one key per requested day. Only
//! iteration is ever needed, so the buckets are held as an ordered list of
//! (date, objects) pairs; order across days is whatever the caller built,
//! order within a day is preserved.

use vstd::prelude::*;

use crate::decimal::{decimal_int_part, parses_to_i64};

verus! {

/// Paging links of a feed response.
#[derive(Clone, Debug)]
pub struct Links {
    pub next: String,
    pub prev: String,
    pub field_self: String,
}

/// A feed response: the server-reported element count, plus the objects of
/// each day in the requested range.
#[derive(Clone, Debug)]
pub struct NeoFeed {
    pub links: Links,
    pub element_count: i64,
    pub near_earth_objects: NearEarthObjects,
}

/// The per-day buckets of a feed, as (date, objects) pairs.
#[derive(Clone, Debug)]
pub struct NearEarthObjects {
    pub days: Vec<(String, Vec<BasicNeoInfo>)>,
}

/// One object of a feed day.
#[derive(Clone, Debug)]
pub struct BasicNeoInfo {
    pub links: NeoLinks,
    pub id: String,
    pub neo_reference_id: String,
    pub name: String,
    pub nasa_jpl_url: String,
    /// Absolute magnitude, whole units.
    pub absolute_magnitude_h: i64,
    pub estimated_diameter: EstimatedDiameter,
    pub is_potentially_hazardous_asteroid: bool,
    pub close_approach_data: Vec<CloseApproachData>,
    pub is_sentry_object: bool,
}

/// The self link of one object.
#[derive(Clone, Debug)]
pub struct NeoLinks {
    pub field_self: String,
}

/// Estimated diameter of an object, one min/max pair per unit system.
#[derive(Clone, Debug)]
pub struct EstimatedDiameter {
    pub kilometers: DiameterMinMax,
    pub meters: DiameterMinMax,
    pub miles: DiameterMinMax,
    pub feet: DiameterMinMax,
}

/// A diameter estimate, whole units of its unit system.
#[derive(Clone, Copy, Debug)]
pub struct DiameterMinMax {
    pub estimated_diameter_min: i64,
    pub estimated_diameter_max: i64,
}

/// One close approach of an object, past or predicted.
#[derive(Clone, Debug)]
pub struct CloseApproachData {
    pub close_approach_date: String,
    pub close_approach_date_full: String,
    pub epoch_date_close_approach: i64,
    pub relative_velocity: RelativeVelocity,
    pub miss_distance: MissDistance,
    pub orbiting_body: String,
}

/// Relative velocity of a close approach, decimal text per unit.
#[derive(Clone, Debug)]
pub struct RelativeVelocity {
    pub kilometers_per_second: String,
    pub kilometers_per_hour: String,
    pub miles_per_hour: String,
}

/// Miss distance of a close approach, decimal text per unit.
#[derive(Clone, Debug)]
pub struct MissDistance {
    pub astronomical: String,
    pub lunar: String,
    pub kilometers: String,
    pub miles: String,
}

/// A lookup response: full detail on one object, with every known close
/// approach and the orbital parameters.
#[derive(Clone, Debug)]
pub struct NeoLookup {
    pub links: NeoLinks,
    pub id: String,
    pub neo_reference_id: String,
    pub name: String,
    pub designation: String,
    pub nasa_jpl_url: String,
    /// Absolute magnitude, whole units.
    pub absolute_magnitude_h: i64,
    pub estimated_diameter: EstimatedDiameter,
    pub is_potentially_hazardous_asteroid: bool,
    pub close_approach_data: Vec<CloseApproachData>,
    pub orbital_data: OrbitalData,
    pub is_sentry_object: bool,
}

/// The orbit classification of a lookup.
#[derive(Clone, Debug)]
pub struct OrbitClass {
    pub orbit_class_type: String,
    pub orbit_class_description: String,
    pub orbit_class_range: String,
}

/// Orbital parameters of a lookup. The numeric parameters are opaque decimal
/// text from upstream, passed through for display, never reparsed.
#[derive(Clone, Debug)]
pub struct OrbitalData {
    pub orbit_id: String,
    pub orbit_determination_date: String,
    pub first_observation_date: String,
    pub last_observation_date: String,
    pub data_arc_in_days: i64,
    pub observations_used: i64,
    pub orbit_uncertainty: String,
    pub minimum_orbit_intersection: String,
    pub jupiter_tisserand_invariant: String,
    pub epoch_osculation: String,
    pub eccentricity: String,
    pub semi_major_axis: String,
    pub inclination: String,
    pub ascending_node_longitude: String,
    pub orbital_period: String,
    pub perihelion_distance: String,
    pub perihelion_argument: String,
    pub aphelion_distance: String,
    pub perihelion_time: String,
    pub mean_anomaly: String,
    pub mean_motion: String,
    pub equinox: String,
    pub orbit_class: OrbitClass,
}

/// An approach whose velocity (km/h) and miss distance (km) both read as
/// whole numbers that fit an `i64`.
pub open spec fn approach_ok(a: CloseApproachData) -> bool {
    &&& parses_to_i64(a.relative_velocity.kilometers_per_hour@)
    &&& parses_to_i64(a.miss_distance.kilometers@)
}

/// The whole-number velocity (km/h) of an approach.
pub open spec fn approach_velocity(a: CloseApproachData) -> int {
    decimal_int_part(a.relative_velocity.kilometers_per_hour@)
}

/// The whole-number miss distance (km) of an approach.
pub open spec fn approach_distance(a: CloseApproachData) -> int {
    decimal_int_part(a.miss_distance.kilometers@)
}

/// A feed object with the close approach the feed contract owes it, whose
/// velocity and distance both read as whole numbers.
pub open spec fn record_ok(r: BasicNeoInfo) -> bool {
    &&& r.close_approach_data@.len() >= 1
    &&& approach_ok(r.close_approach_data@[0])
}

/// All objects of a feed, flattened day by day in bucket order.
pub open spec fn records_of(days: Seq<(String, Vec<BasicNeoInfo>)>) -> Seq<BasicNeoInfo>
    decreases days.len(),
{
    if days.len() == 0 {
        Seq::empty()
    } else {
        days[0].1@ + records_of(days.skip(1))
    }
}

/// The sum of the per-day bucket lengths of a feed.
pub open spec fn total_record_count(days: Seq<(String, Vec<BasicNeoInfo>)>) -> int
    decreases days.len(),
{
    if days.len() == 0 {
        0
    } else {
        days[0].1@.len() + total_record_count(days.skip(1))
    }
}

/// Every object of the feed satisfies [`record_ok`]: what both the feed
/// projection and the feed statistics update need of their input.
pub open spec fn feed_records_ok(feed: NeoFeed) -> bool {
    let rs = records_of(feed.near_earth_objects.days@);
    forall|j: int| 0 <= j < rs.len() ==> record_ok(#[trigger] rs[j])
}

/// Every approach of the lookup satisfies [`approach_ok`]: what both the
/// lookup projection and the lookup statistics update need of their input.
pub open spec fn lookup_records_ok(lookup: NeoLookup) -> bool {
    forall|j: int|
        0 <= j < lookup.close_approach_data@.len() ==> approach_ok(
            #[trigger] lookup.close_approach_data@[j],
        )
}

/// The flattened objects of a feed are exactly as many as the sum of its
/// per-day bucket lengths.
pub proof fn lemma_records_of_len(days: Seq<(String, Vec<BasicNeoInfo>)>)
    ensures
        records_of(days).len() == total_record_count(days),
    decreases days.len(),
{
    if days.len() > 0 {
        lemma_records_of_len(days.skip(1));
    }
}

/// Flattening a feed splits at any day boundary.
pub proof fn lemma_records_of_split(days: Seq<(String, Vec<BasicNeoInfo>)>, k: int)
    requires
        0 <= k <= days.len(),
    ensures
        records_of(days) == records_of(days.take(k)) + records_of(days.skip(k)),
    decreases k,
{
    if k == 0 {
        assert(days.take(0) =~= Seq::<(String, Vec<BasicNeoInfo>)>::empty());
        assert(days.skip(0) =~= days);
        assert(records_of(days.take(0)) + records_of(days.skip(0)) =~= records_of(days));
    } else {
        lemma_records_of_split(days.skip(1), k - 1);
        let t = days.take(k);
        assert(t.skip(1) =~= days.skip(1).take(k - 1));
        assert(days.skip(1).skip(k - 1) =~= days.skip(k));
        assert(records_of(t) == t[0].1@ + records_of(t.skip(1)));
        assert(records_of(days) == days[0].1@ + records_of(days.skip(1)));
        assert(days[0].1@ + (records_of(days.skip(1).take(k - 1)) + records_of(days.skip(k)))
            =~= (days[0].1@ + records_of(days.skip(1).take(k - 1))) + records_of(days.skip(k)));
    }
}

/// Flattening one more day appends that day's bucket.
pub proof fn lemma_records_of_take_step(days: Seq<(String, Vec<BasicNeoInfo>)>, k: int)
    requires
        0 <= k < days.len(),
    ensures
        records_of(days.take(k + 1)) == records_of(days.take(k)) + days[k].1@,
{
    lemma_records_of_split(days.take(k + 1), k);
    assert(days.take(k + 1).take(k) =~= days.take(k));
    let s = days.take(k + 1).skip(k);
    assert(s.len() == 1 && s[0] == days[k]);
    assert(s.skip(1) =~= Seq::<(String, Vec<BasicNeoInfo>)>::empty());
    assert(records_of(s) == days[k].1@ + records_of(s.skip(1)));
    assert(days[k].1@ + Seq::<BasicNeoInfo>::empty() =~= days[k].1@);
}

/// One day's bucket peels off the front of a flattened feed suffix.
pub proof fn lemma_records_of_skip_step(days: Seq<(String, Vec<BasicNeoInfo>)>, k: int)
    requires
        0 <= k < days.len(),
    ensures
        records_of(days.skip(k)) == days[k].1@ + records_of(days.skip(k + 1)),
{
    let s = days.skip(k);
    assert(s[0] == days[k]);
    assert(s.skip(1) =~= days.skip(k + 1));
}

} // verus!
