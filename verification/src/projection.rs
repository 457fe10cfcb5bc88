//! View-model projection: flattening raw NEO payloads for rendering.
//!
//! A feed is flattened day by day into one entry per object, each built from
//! the object's *first* close approach — the approach that placed it in the
//! requested day's bucket. The feed contract owes every feed object at least
//! one approach, so an object without one is a hard missing-data failure,
//! never a silent default. A lookup keeps its *whole* approach list, mapped
//! one to one in upstream order. Velocity and distance text that does not
//! read as a whole number is a hard malformed-number failure.

use vstd::prelude::*;
use vstd::string::StringExecFns;

use crate::decimal::parse_decimal;
use crate::neo_structs::{
    approach_distance, approach_ok, approach_velocity, feed_records_ok, lookup_records_ok,
    record_ok, records_of, BasicNeoInfo, CloseApproachData, NeoFeed, NeoLookup,
};
use crate::neo_structs::{lemma_records_of_skip_step, lemma_records_of_split};
use crate::top_trumps::TopTrumpsCounter;

verus! {

/// Why a projection failed: an object owed a close approach had none, or a
/// numeric field did not read as a whole number.
#[derive(Clone, Copy, Debug, PartialEq, Eq, Structural)]
pub enum ProjectionError {
    MissingApproach,
    MalformedNumber,
}

/// One flattened feed entry, ready for rendering.
#[derive(Clone, Debug)]
pub struct NeoFeedDetails {
    pub name: String,
    /// Maximum estimated diameter, whole metres.
    pub size: i64,
    /// First-approach relative velocity, whole km/h.
    pub velocity: i64,
    /// First-approach miss distance, whole km.
    pub distance: i64,
    /// The first approach's full timestamp text.
    pub time: String,
    pub hazardous: bool,
    pub reference_id: String,
    /// The detail-page path for this object.
    pub link: String,
}

/// A whole feed page: the flattened entries plus the session's aggregate
/// snapshot.
#[derive(Clone, Debug)]
pub struct NeoFeedDetailsVec {
    pub neos: Vec<NeoFeedDetails>,
    pub fastest: i64,
    pub closest: i64,
    pub neos_seen: i64,
}

impl NeoFeedDetailsVec {
    /// Merges the flattened feed entries and the session's aggregate
    /// snapshot into the final feed render context.
    pub fn assemble(neos: Vec<NeoFeedDetails>, stats: TopTrumpsCounter) -> (r: Self)
        ensures
            r.neos == neos,
            r.fastest == stats.fastest,
            r.closest == stats.closest,
            r.neos_seen == stats.total_neos_seen,
    {
        NeoFeedDetailsVec {
            neos,
            fastest: stats.fastest,
            closest: stats.closest,
            neos_seen: stats.total_neos_seen,
        }
    }
}

/// One close approach of a lookup page.
#[derive(Clone, Debug)]
pub struct NeoApproachData {
    pub date: String,
    /// Relative velocity, whole km/h.
    pub velocity: i64,
    /// Miss distance, whole km.
    pub miss_distance: i64,
    pub orbiting_body: String,
}

/// A whole lookup page: one object's detail, its approaches, and the
/// session's aggregate snapshot.
#[derive(Clone, Debug)]
pub struct NeoLookupForHTML {
    pub neo_name: String,
    /// Maximum estimated diameter, whole metres.
    pub diameter: i64,
    pub hazardous: bool,
    /// Opaque decimal text from upstream, passed through verbatim.
    pub eccentricity: String,
    /// Opaque decimal text from upstream, passed through verbatim.
    pub inclination: String,
    pub close_approach: Vec<NeoApproachData>,
    pub fastest: i64,
    pub closest: i64,
    pub neos_seen: i64,
}

/// The path of an object's detail page: its reference identifier
/// interpolated into the fixed `/neo/{id}` template.
pub fn feed_link(reference_id: &str) -> (r: String)
    ensures
        r@ == "/neo/"@ + reference_id@,
{
    let mut s = "/neo/".to_owned();
    s.append(reference_id);
    s
}

/// `d` is the feed entry that `r` projects to.
pub open spec fn is_feed_detail_for(d: NeoFeedDetails, r: BasicNeoInfo) -> bool {
    &&& r.close_approach_data@.len() >= 1
    &&& d.name@ == r.name@
    &&& d.size == r.estimated_diameter.meters.estimated_diameter_max
    &&& d.velocity as int == approach_velocity(r.close_approach_data@[0])
    &&& d.distance as int == approach_distance(r.close_approach_data@[0])
    &&& d.time@ == r.close_approach_data@[0].close_approach_date_full@
    &&& d.hazardous == r.is_potentially_hazardous_asteroid
    &&& d.reference_id@ == r.neo_reference_id@
    &&& d.link@ == "/neo/"@ + r.neo_reference_id@
}

/// `a` is the lookup-page row that approach `c` projects to.
pub open spec fn is_approach_view_for(a: NeoApproachData, c: CloseApproachData) -> bool {
    &&& a.date@ == c.close_approach_date@
    &&& a.velocity as int == approach_velocity(c)
    &&& a.miss_distance as int == approach_distance(c)
    &&& a.orbiting_body@ == c.orbiting_body@
}

/// `h` is the lookup page that `l` projects to, carrying the aggregate
/// snapshot `stats`.
pub open spec fn is_lookup_view_for(h: NeoLookupForHTML, l: NeoLookup, stats: TopTrumpsCounter) -> bool {
    &&& h.neo_name@ == l.name@
    &&& h.diameter == l.estimated_diameter.meters.estimated_diameter_max
    &&& h.hazardous == l.is_potentially_hazardous_asteroid
    &&& h.eccentricity@ == l.orbital_data.eccentricity@
    &&& h.inclination@ == l.orbital_data.inclination@
    &&& h.close_approach@.len() == l.close_approach_data@.len()
    &&& forall|j: int|
        0 <= j < l.close_approach_data@.len() ==> is_approach_view_for(
            #[trigger] h.close_approach@[j],
            l.close_approach_data@[j],
        )
    &&& h.fastest == stats.fastest
    &&& h.closest == stats.closest
    &&& h.neos_seen == stats.total_neos_seen
}

/// The failure a bad feed object reports: a missing approach outranks a
/// malformed number within one object.
pub open spec fn record_error(r: BasicNeoInfo) -> ProjectionError {
    if r.close_approach_data@.len() == 0 {
        ProjectionError::MissingApproach
    } else {
        ProjectionError::MalformedNumber
    }
}

/// The position of the first object that fails [`record_ok`] (the length
/// when none does).
pub open spec fn first_bad_record(rs: Seq<BasicNeoInfo>) -> int
    decreases rs.len(),
{
    if rs.len() == 0 {
        0
    } else if !record_ok(rs[0]) {
        0
    } else {
        1 + first_bad_record(rs.skip(1))
    }
}

/// A bad object behind only good ones is the first bad one.
pub proof fn lemma_first_bad_record_at(rs: Seq<BasicNeoInfo>, j: int)
    requires
        0 <= j < rs.len(),
        forall|i: int| 0 <= i < j ==> record_ok(#[trigger] rs[i]),
        !record_ok(rs[j]),
    ensures
        first_bad_record(rs) == j,
    decreases j,
{
    if j > 0 {
        assert(record_ok(rs[0]));
        assert(forall|i: int| 0 <= i < j - 1 ==> rs.skip(1)[i] == rs[i + 1]);
        assert(rs.skip(1)[j - 1] == rs[j]);
        lemma_first_bad_record_at(rs.skip(1), j - 1);
    }
}

/// A feed holding an object with no close approach never projects: the feed
/// contract owes every feed object at least one approach, so the projection
/// fails rather than emit a default velocity or distance.
pub proof fn lemma_empty_approaches_not_projectable(feed: NeoFeed, j: int)
    requires
        0 <= j < records_of(feed.near_earth_objects.days@).len(),
        records_of(feed.near_earth_objects.days@)[j].close_approach_data@.len() == 0,
    ensures
        !feed_records_ok(feed),
{
    assert(!record_ok(records_of(feed.near_earth_objects.days@)[j]));
}

impl NeoFeed {
    /// Flattens the feed into one entry per object, day by day in bucket
    /// order, each entry built from the object's first close approach.
    ///
    /// Succeeds exactly when every object has an approach and whole-number
    /// velocity and distance text; otherwise reports the failure of the
    /// first bad object in flattening order.
    pub fn into_neo_feed_details(self) -> (r: Result<Vec<NeoFeedDetails>, ProjectionError>)
        ensures
            r is Ok <==> feed_records_ok(self),
            r matches Ok(v) ==> {
                let rs = records_of(self.near_earth_objects.days@);
                &&& v@.len() == rs.len()
                &&& forall|j: int|
                    0 <= j < rs.len() ==> is_feed_detail_for(#[trigger] v@[j], rs[j])
            },
            r matches Err(e) ==> {
                let rs = records_of(self.near_earth_objects.days@);
                e == record_error(rs[first_bad_record(rs)])
            },
    {
        let ghost dseq = self.near_earth_objects.days@;
        let ghost flat = records_of(dseq);
        let mut out: Vec<NeoFeedDetails> = Vec::new();
        let days_len = self.near_earth_objects.days.len();
        let mut di: usize = 0;
        while di < days_len
            invariant
                dseq == self.near_earth_objects.days@,
                flat == records_of(dseq),
                days_len == dseq.len(),
                di <= days_len,
                out@.len() == records_of(dseq.take(di as int)).len(),
                forall|j: int|
                    0 <= j < out@.len() ==> is_feed_detail_for(
                        #[trigger] out@[j],
                        records_of(dseq.take(di as int))[j],
                    ),
                forall|j: int|
                    0 <= j < out@.len() ==> record_ok(
                        #[trigger] records_of(dseq.take(di as int))[j],
                    ),
            decreases days_len - di,
        {
            let ghost base = records_of(dseq.take(di as int)).len() as int;
            proof {
                lemma_records_of_split(dseq, di as int);
                lemma_records_of_skip_step(dseq, di as int);
            }
            let recs_len = self.near_earth_objects.days[di].1.len();
            let mut ri: usize = 0;
            while ri < recs_len
                invariant
                    dseq == self.near_earth_objects.days@,
                    flat == records_of(dseq),
                    di < dseq.len(),
                    recs_len == dseq[di as int].1@.len(),
                    ri <= recs_len,
                    base == records_of(dseq.take(di as int)).len(),
                    out@.len() == base + ri,
                    flat == records_of(dseq.take(di as int)) + (dseq[di as int].1@
                        + records_of(dseq.skip(di as int + 1))),
                    forall|j: int|
                        0 <= j < base ==> is_feed_detail_for(
                            #[trigger] out@[j],
                            records_of(dseq.take(di as int))[j],
                        ),
                    forall|j: int|
                        0 <= j < base ==> record_ok(
                            #[trigger] records_of(dseq.take(di as int))[j],
                        ),
                    forall|j: int|
                        base <= j < base + ri ==> is_feed_detail_for(
                            #[trigger] out@[j],
                            dseq[di as int].1@[j - base],
                        ),
                    forall|j: int| 0 <= j < ri ==> record_ok(#[trigger] dseq[di as int].1@[j]),
                decreases recs_len - ri,
            {
                let rec = &self.near_earth_objects.days[di].1[ri];
                assert(flat[base + ri] == dseq[di as int].1@[ri as int]);
                assert(forall|i: int| 0 <= i < base + ri ==> record_ok(#[trigger] flat[i]));
                if rec.close_approach_data.len() == 0 {
                    proof {
                        lemma_first_bad_record_at(flat, base + ri as int);
                    }
                    return Err(ProjectionError::MissingApproach);
                }
                let first = &rec.close_approach_data[0];
                let velocity = match parse_decimal(first.relative_velocity.kilometers_per_hour
                    .as_str()) {
                    Some(v) => v,
                    None => {
                        proof {
                            lemma_first_bad_record_at(flat, base + ri as int);
                        }
                        return Err(ProjectionError::MalformedNumber);
                    },
                };
                let distance = match parse_decimal(first.miss_distance.kilometers.as_str()) {
                    Some(v) => v,
                    None => {
                        proof {
                            lemma_first_bad_record_at(flat, base + ri as int);
                        }
                        return Err(ProjectionError::MalformedNumber);
                    },
                };
                let detail = NeoFeedDetails {
                    name: rec.name.clone(),
                    size: rec.estimated_diameter.meters.estimated_diameter_max,
                    velocity,
                    distance,
                    time: first.close_approach_date_full.clone(),
                    hazardous: rec.is_potentially_hazardous_asteroid,
                    reference_id: rec.neo_reference_id.clone(),
                    link: feed_link(rec.neo_reference_id.as_str()),
                };
                out.push(detail);
                ri = ri + 1;
            }
            proof {
                crate::neo_structs::lemma_records_of_take_step(dseq, di as int);
            }
            di = di + 1;
        }
        proof {
            assert(dseq.take(days_len as int) =~= dseq);
        }
        Ok(out)
    }
}

impl NeoLookup {
    /// Projects the lookup into its page: detail fields copied over (the
    /// orbital text verbatim, never reparsed), every close approach mapped
    /// one to one in upstream order, and the aggregate snapshot attached.
    ///
    /// Succeeds exactly when every approach has whole-number velocity and
    /// distance text.
    pub fn into_hbs_format(self, stats: TopTrumpsCounter) -> (r: Result<
        NeoLookupForHTML,
        ProjectionError,
    >)
        ensures
            r is Ok <==> lookup_records_ok(self),
            r matches Ok(h) ==> is_lookup_view_for(h, self, stats),
            r matches Err(e) ==> e == ProjectionError::MalformedNumber,
    {
        let ghost aseq = self.close_approach_data@;
        let mut close_approaches: Vec<NeoApproachData> = Vec::new();
        let n = self.close_approach_data.len();
        let mut i: usize = 0;
        while i < n
            invariant
                aseq == self.close_approach_data@,
                n == aseq.len(),
                i <= n,
                close_approaches@.len() == i,
                forall|j: int|
                    0 <= j < i ==> is_approach_view_for(
                        #[trigger] close_approaches@[j],
                        aseq[j],
                    ),
                forall|j: int| 0 <= j < i ==> approach_ok(#[trigger] aseq[j]),
            decreases n - i,
        {
            let approach = &self.close_approach_data[i];
            let velocity = match parse_decimal(approach.relative_velocity.kilometers_per_hour
                .as_str()) {
                Some(v) => v,
                None => {
                    return Err(ProjectionError::MalformedNumber);
                },
            };
            let miss_distance = match parse_decimal(approach.miss_distance.kilometers.as_str()) {
                Some(v) => v,
                None => {
                    return Err(ProjectionError::MalformedNumber);
                },
            };
            let row = NeoApproachData {
                date: approach.close_approach_date.clone(),
                velocity,
                miss_distance,
                orbiting_body: approach.orbiting_body.clone(),
            };
            close_approaches.push(row);
            i = i + 1;
        }
        Ok(NeoLookupForHTML {
            neo_name: self.name.clone(),
            diameter: self.estimated_diameter.meters.estimated_diameter_max,
            hazardous: self.is_potentially_hazardous_asteroid,
            eccentricity: self.orbital_data.eccentricity.clone(),
            inclination: self.orbital_data.inclination.clone(),
            close_approach: close_approaches,
            fastest: stats.fastest,
            closest: stats.closest,
            neos_seen: stats.total_neos_seen,
        })
    }
}

} // verus!
