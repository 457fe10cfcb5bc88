//! The session-scoped "Top Trumps" counter: running extrema and a count of
//! objects seen, updated once per feed or lookup request.
//!
//! Both updates are pure: they take the prior state and a freshly fetched
//! payload and return the next state, so the caller controls when the state
//! is persisted. A feed update reads each object's first close approach only
//! (the feed convention) and advances the count by the server-reported
//! element count. A lookup update walks every approach of the one object and
//! leaves the count alone.

use vstd::prelude::*;

use crate::neo_structs::{
    approach_distance, approach_ok, approach_velocity, feed_records_ok, lookup_records_ok,
    record_ok, records_of, BasicNeoInfo, CloseApproachData, NeoFeed, NeoLookup,
};
use crate::neo_structs::{lemma_records_of_skip_step, lemma_records_of_split,
    lemma_records_of_take_step};
use crate::decimal::parse_decimal;

verus! {

/// Aggregate statistics for one browser session: the fastest relative
/// velocity (km/h) seen so far, the closest miss distance (km) seen so far,
/// and how many objects the session has been shown.
#[derive(Clone, Copy, Debug)]
pub struct TopTrumpsCounter {
    pub fastest: i64,
    pub closest: i64,
    pub total_neos_seen: i64,
}

/// One feed object folded into a running (fastest, closest) pair: its first
/// approach's velocity raises `fastest` on strict excess, its first
/// approach's distance lowers `closest` on strict shortfall; ties change
/// nothing.
pub open spec fn feed_step(st: (int, int), r: BasicNeoInfo) -> (int, int) {
    let v = approach_velocity(r.close_approach_data@[0]);
    let d = approach_distance(r.close_approach_data@[0]);
    ((if v > st.0 { v } else { st.0 }), (if st.1 > d { d } else { st.1 }))
}

/// The (fastest, closest) pair after folding a run of feed objects, in
/// order, over a starting pair.
pub open spec fn feed_fold(rs: Seq<BasicNeoInfo>, st: (int, int)) -> (int, int)
    decreases rs.len(),
{
    if rs.len() == 0 {
        st
    } else {
        feed_fold(rs.skip(1), feed_step(st, rs[0]))
    }
}

/// One lookup approach folded into a running (fastest, closest) pair. The
/// velocity raises `fastest` on strict excess. The second update is guarded
/// by this approach's *velocity*: when the running closest distance exceeds
/// that velocity, `closest` takes this approach's *distance*. The guard
/// mixes units on purpose — it is how the counter scores lookups, and a
/// distance-against-distance guard would record different results.
pub open spec fn lookup_step(st: (int, int), a: CloseApproachData) -> (int, int) {
    let v = approach_velocity(a);
    let d = approach_distance(a);
    ((if v > st.0 { v } else { st.0 }), (if st.1 > v { d } else { st.1 }))
}

/// The (fastest, closest) pair after folding a run of approaches, in order,
/// over a starting pair.
pub open spec fn lookup_fold(approaches: Seq<CloseApproachData>, st: (int, int)) -> (int, int)
    decreases approaches.len(),
{
    if approaches.len() == 0 {
        st
    } else {
        lookup_fold(approaches.skip(1), lookup_step(st, approaches[0]))
    }
}

/// The state a feed update returns: extrema folded over every object in
/// flattening order, and the count advanced by the server-reported element
/// count. Meaningful when [`feed_records_ok`] holds and the new count fits.
pub open spec fn spec_update_for_feed(s: TopTrumpsCounter, feed: NeoFeed) -> TopTrumpsCounter {
    let st = feed_fold(
        records_of(feed.near_earth_objects.days@),
        (s.fastest as int, s.closest as int),
    );
    TopTrumpsCounter {
        fastest: st.0 as i64,
        closest: st.1 as i64,
        total_neos_seen: (s.total_neos_seen + feed.element_count) as i64,
    }
}

/// The state a lookup update returns: extrema folded over every approach of
/// the one object, the count untouched.
pub open spec fn spec_update_for_lookup(s: TopTrumpsCounter, lookup: NeoLookup) -> TopTrumpsCounter {
    let st = lookup_fold(lookup.close_approach_data@, (s.fastest as int, s.closest as int));
    TopTrumpsCounter { fastest: st.0 as i64, closest: st.1 as i64, total_neos_seen: s.total_neos_seen }
}

/// Folding one more feed object applies one more step.
pub proof fn lemma_feed_fold_push(rs: Seq<BasicNeoInfo>, x: BasicNeoInfo, st: (int, int))
    ensures
        feed_fold(rs.push(x), st) == feed_step(feed_fold(rs, st), x),
    decreases rs.len(),
{
    if rs.len() == 0 {
        assert(rs.push(x).skip(1) =~= Seq::<BasicNeoInfo>::empty());
        assert(rs.push(x)[0] == x);
        assert(feed_fold(rs.push(x), st) == feed_fold(rs.push(x).skip(1), feed_step(st, x)));
        assert(feed_fold(Seq::<BasicNeoInfo>::empty(), feed_step(st, x)) == feed_step(st, x));
    } else {
        let tail = rs.skip(1);
        assert(rs.push(x).skip(1) =~= tail.push(x));
        assert(rs.push(x)[0] == rs[0]);
        assert(feed_fold(rs.push(x), st) == feed_fold(tail.push(x), feed_step(st, rs[0])));
        lemma_feed_fold_push(tail, x, feed_step(st, rs[0]));
        assert(feed_fold(rs, st) == feed_fold(tail, feed_step(st, rs[0])));
    }
}

/// Folding one more approach applies one more step.
pub proof fn lemma_lookup_fold_push(aseq: Seq<CloseApproachData>, x: CloseApproachData, st: (int, int))
    ensures
        lookup_fold(aseq.push(x), st) == lookup_step(lookup_fold(aseq, st), x),
    decreases aseq.len(),
{
    if aseq.len() == 0 {
        assert(aseq.push(x).skip(1) =~= Seq::<CloseApproachData>::empty());
        assert(aseq.push(x)[0] == x);
        assert(lookup_fold(aseq.push(x), st) == lookup_fold(
            aseq.push(x).skip(1),
            lookup_step(st, x),
        ));
        assert(lookup_fold(Seq::<CloseApproachData>::empty(), lookup_step(st, x)) == lookup_step(
            st,
            x,
        ));
    } else {
        let tail = aseq.skip(1);
        assert(aseq.push(x).skip(1) =~= tail.push(x));
        assert(aseq.push(x)[0] == aseq[0]);
        assert(lookup_fold(aseq.push(x), st) == lookup_fold(
            tail.push(x),
            lookup_step(st, aseq[0]),
        ));
        lemma_lookup_fold_push(tail, x, lookup_step(st, aseq[0]));
        assert(lookup_fold(aseq, st) == lookup_fold(tail, lookup_step(st, aseq[0])));
    }
}

/// A feed fold only raises the fastest velocity and only lowers the closest
/// distance, whatever the objects hold.
pub proof fn lemma_feed_fold_monotone(rs: Seq<BasicNeoInfo>, st: (int, int))
    ensures
        feed_fold(rs, st).0 >= st.0,
        feed_fold(rs, st).1 <= st.1,
    decreases rs.len(),
{
    if rs.len() > 0 {
        lemma_feed_fold_monotone(rs.skip(1), feed_step(st, rs[0]));
    }
}

/// A feed fold over well-read objects stays within `i64`: each component is
/// either the start value or one of the objects' whole-number readings.
pub proof fn lemma_feed_fold_in_range(rs: Seq<BasicNeoInfo>, st: (int, int))
    requires
        forall|j: int| 0 <= j < rs.len() ==> record_ok(#[trigger] rs[j]),
        i64::MIN <= st.0 <= i64::MAX,
        i64::MIN <= st.1 <= i64::MAX,
    ensures
        i64::MIN <= feed_fold(rs, st).0 <= i64::MAX,
        i64::MIN <= feed_fold(rs, st).1 <= i64::MAX,
    decreases rs.len(),
{
    if rs.len() > 0 {
        assert(record_ok(rs[0]));
        assert(forall|j: int| 0 <= j < rs.skip(1).len() ==> rs.skip(1)[j] == rs[j + 1]);
        lemma_feed_fold_in_range(rs.skip(1), feed_step(st, rs[0]));
    }
}

/// A feed update advances the count by exactly the server-reported element
/// count, however many objects the buckets actually hold.
pub proof fn lemma_feed_update_total(s: TopTrumpsCounter, feed: NeoFeed)
    requires
        i64::MIN <= s.total_neos_seen + feed.element_count <= i64::MAX,
    ensures
        spec_update_for_feed(s, feed).total_neos_seen == s.total_neos_seen + feed.element_count,
{
}

/// A feed update moves the extrema only the expected ways: the fastest
/// velocity never falls and the closest distance never rises.
pub proof fn lemma_feed_update_monotone(s: TopTrumpsCounter, feed: NeoFeed)
    requires
        feed_records_ok(feed),
    ensures
        spec_update_for_feed(s, feed).fastest >= s.fastest,
        spec_update_for_feed(s, feed).closest <= s.closest,
{
    let rs = records_of(feed.near_earth_objects.days@);
    let st = (s.fastest as int, s.closest as int);
    lemma_feed_fold_monotone(rs, st);
    lemma_feed_fold_in_range(rs, st);
}

/// Feed updates are deliberately not idempotent: the count is a counter, not
/// a set union, so applying the same feed twice advances it twice.
pub proof fn lemma_feed_update_twice(s: TopTrumpsCounter, feed: NeoFeed)
    requires
        i64::MIN <= s.total_neos_seen + feed.element_count <= i64::MAX,
        i64::MIN <= s.total_neos_seen + feed.element_count + feed.element_count <= i64::MAX,
    ensures
        spec_update_for_feed(spec_update_for_feed(s, feed), feed).total_neos_seen
            == s.total_neos_seen + 2 * feed.element_count,
        feed.element_count != 0 ==> spec_update_for_feed(spec_update_for_feed(s, feed), feed)
            != spec_update_for_feed(s, feed),
{
}

/// A lookup update never touches the count.
pub proof fn lemma_lookup_update_total(s: TopTrumpsCounter, lookup: NeoLookup)
    ensures
        spec_update_for_lookup(s, lookup).total_neos_seen == s.total_neos_seen,
{
}

/// A lookup with no close approaches leaves the state exactly as it was.
pub proof fn lemma_lookup_update_empty(s: TopTrumpsCounter, lookup: NeoLookup)
    requires
        lookup.close_approach_data@.len() == 0,
    ensures
        spec_update_for_lookup(s, lookup) == s,
{
}

impl TopTrumpsCounter {
    /// The state of a fresh session: no velocity recorded yet (zero, so any
    /// observation raises it), no distance recorded yet (the maximum value,
    /// so any observation lowers it), nothing seen.
    pub fn default() -> (r: Self)
        ensures
            r.fastest == 0,
            r.closest == i64::MAX,
            r.total_neos_seen == 0,
    {
        Self { fastest: 0, closest: i64::MAX, total_neos_seen: 0 }
    }

    /// Folds a whole feed into the state: each object's first close approach
    /// is inspected in flattening order, and the count advances by the
    /// feed's server-reported element count — the upstream total is trusted
    /// over the number of objects actually present.
    pub fn update_count_for_feed(self, feed: &NeoFeed) -> (r: Self)
        requires
            feed_records_ok(*feed),
            i64::MIN <= self.total_neos_seen + feed.element_count <= i64::MAX,
        ensures
            r == spec_update_for_feed(self, *feed),
            r.total_neos_seen == self.total_neos_seen + feed.element_count,
            r.fastest >= self.fastest,
            r.closest <= self.closest,
    {
        let ghost dseq = feed.near_earth_objects.days@;
        let ghost flat = records_of(dseq);
        let ghost st0 = (self.fastest as int, self.closest as int);
        let mut fastest = self.fastest;
        let mut closest = self.closest;
        let days_len = feed.near_earth_objects.days.len();
        let mut di: usize = 0;
        proof {
            lemma_feed_fold_monotone(flat, st0);
        }
        while di < days_len
            invariant
                dseq == feed.near_earth_objects.days@,
                flat == records_of(dseq),
                days_len == dseq.len(),
                di <= days_len,
                forall|j: int| 0 <= j < flat.len() ==> record_ok(#[trigger] flat[j]),
                (fastest as int, closest as int) == feed_fold(
                    records_of(dseq.take(di as int)),
                    st0,
                ),
            decreases days_len - di,
        {
            proof {
                lemma_records_of_split(dseq, di as int);
                lemma_records_of_skip_step(dseq, di as int);
            }
            let ghost prefix = records_of(dseq.take(di as int));
            let recs = &feed.near_earth_objects.days[di].1;
            let recs_len = recs.len();
            let mut ri: usize = 0;
            while ri < recs_len
                invariant
                    dseq == feed.near_earth_objects.days@,
                    flat == records_of(dseq),
                    di < dseq.len(),
                    recs == &dseq[di as int].1,
                    recs_len == dseq[di as int].1@.len(),
                    ri <= recs_len,
                    prefix == records_of(dseq.take(di as int)),
                    flat == prefix + (dseq[di as int].1@ + records_of(dseq.skip(di as int + 1))),
                    forall|j: int| 0 <= j < flat.len() ==> record_ok(#[trigger] flat[j]),
                    (fastest as int, closest as int) == feed_fold(
                        prefix + dseq[di as int].1@.take(ri as int),
                        st0,
                    ),
                decreases recs_len - ri,
            {
                let rec = &recs[ri];
                assert(flat[prefix.len() + ri] == dseq[di as int].1@[ri as int]);
                assert(record_ok(dseq[di as int].1@[ri as int]));
                let first = &rec.close_approach_data[0];
                let velocity = parse_decimal(first.relative_velocity.kilometers_per_hour.as_str())
                    .unwrap();
                let distance = parse_decimal(first.miss_distance.kilometers.as_str()).unwrap();
                proof {
                    let before = prefix + dseq[di as int].1@.take(ri as int);
                    let after = prefix + dseq[di as int].1@.take(ri as int + 1);
                    assert(after =~= before.push(dseq[di as int].1@[ri as int]));
                    lemma_feed_fold_push(before, dseq[di as int].1@[ri as int], st0);
                }
                if velocity > fastest {
                    fastest = velocity;
                }
                if closest > distance {
                    closest = distance;
                }
                ri = ri + 1;
            }
            proof {
                lemma_records_of_take_step(dseq, di as int);
                assert(prefix + dseq[di as int].1@.take(recs_len as int) =~= records_of(
                    dseq.take(di as int + 1),
                ));
            }
            di = di + 1;
        }
        proof {
            assert(dseq.take(days_len as int) =~= dseq);
        }
        Self { fastest, closest, total_neos_seen: self.total_neos_seen + feed.element_count }
    }

    /// Folds one looked-up object into the state: every close approach of
    /// the object is inspected in order, and the count stays put — a lookup
    /// revisits an object the session has already been counted for.
    pub fn update_count_for_lookup(self, lookup: &NeoLookup) -> (r: Self)
        requires
            lookup_records_ok(*lookup),
        ensures
            r == spec_update_for_lookup(self, *lookup),
            r.total_neos_seen == self.total_neos_seen,
    {
        let ghost aseq = lookup.close_approach_data@;
        let ghost st0 = (self.fastest as int, self.closest as int);
        let mut fastest = self.fastest;
        let mut closest = self.closest;
        let n = lookup.close_approach_data.len();
        let mut i: usize = 0;
        while i < n
            invariant
                aseq == lookup.close_approach_data@,
                n == aseq.len(),
                i <= n,
                forall|j: int| 0 <= j < aseq.len() ==> approach_ok(#[trigger] aseq[j]),
                (fastest as int, closest as int) == lookup_fold(aseq.take(i as int), st0),
            decreases n - i,
        {
            let approach = &lookup.close_approach_data[i];
            let velocity = parse_decimal(approach.relative_velocity.kilometers_per_hour.as_str())
                .unwrap();
            let distance = parse_decimal(approach.miss_distance.kilometers.as_str()).unwrap();
            proof {
                assert(aseq.take(i as int + 1) =~= aseq.take(i as int).push(aseq[i as int]));
                lemma_lookup_fold_push(aseq.take(i as int), aseq[i as int], st0);
            }
            if velocity > fastest {
                fastest = velocity;
            }
            // The guard compares the running closest distance against
            // this approach's velocity before recording its distance, as
            // `lookup_step` says.
            if closest > velocity {
                closest = distance;
            }
            i = i + 1;
        }
        proof {
            assert(aseq.take(n as int) =~= aseq);
        }
        Self { fastest, closest, total_neos_seen: self.total_neos_seen }
    }
}

/// Whether a feed is ready for [`TopTrumpsCounter::update_count_for_feed`]:
/// every object holds a first approach with whole-number velocity and
/// distance text.
pub fn feed_stats_ready(feed: &NeoFeed) -> (b: bool)
    ensures
        b == feed_records_ok(*feed),
{
    let ghost dseq = feed.near_earth_objects.days@;
    let ghost flat = records_of(dseq);
    let days_len = feed.near_earth_objects.days.len();
    let mut di: usize = 0;
    while di < days_len
        invariant
            dseq == feed.near_earth_objects.days@,
            flat == records_of(dseq),
            days_len == dseq.len(),
            di <= days_len,
            forall|j: int|
                0 <= j < records_of(dseq.take(di as int)).len() ==> record_ok(
                    #[trigger] records_of(dseq.take(di as int))[j],
                ),
        decreases days_len - di,
    {
        proof {
            lemma_records_of_split(dseq, di as int);
            lemma_records_of_skip_step(dseq, di as int);
        }
        let ghost prefix = records_of(dseq.take(di as int));
        let recs = &feed.near_earth_objects.days[di].1;
        let recs_len = recs.len();
        let mut ri: usize = 0;
        while ri < recs_len
            invariant
                dseq == feed.near_earth_objects.days@,
                flat == records_of(dseq),
                di < dseq.len(),
                recs == &dseq[di as int].1,
                recs_len == dseq[di as int].1@.len(),
                ri <= recs_len,
                prefix == records_of(dseq.take(di as int)),
                flat == prefix + (dseq[di as int].1@ + records_of(dseq.skip(di as int + 1))),
                forall|j: int| 0 <= j < prefix.len() ==> record_ok(#[trigger] prefix[j]),
                forall|j: int| 0 <= j < ri ==> record_ok(#[trigger] dseq[di as int].1@[j]),
            decreases recs_len - ri,
        {
            let rec = &recs[ri];
            assert(flat[prefix.len() + ri] == dseq[di as int].1@[ri as int]);
            if rec.close_approach_data.len() == 0 {
                assert(!record_ok(flat[prefix.len() + ri]));
                return false;
            }
            let first = &rec.close_approach_data[0];
            if parse_decimal(first.relative_velocity.kilometers_per_hour.as_str()).is_none() {
                assert(!record_ok(flat[prefix.len() + ri]));
                return false;
            }
            if parse_decimal(first.miss_distance.kilometers.as_str()).is_none() {
                assert(!record_ok(flat[prefix.len() + ri]));
                return false;
            }
            ri = ri + 1;
        }
        proof {
            lemma_records_of_take_step(dseq, di as int);
        }
        di = di + 1;
    }
    proof {
        assert(dseq.take(days_len as int) =~= dseq);
    }
    true
}

/// Whether a lookup is ready for
/// [`TopTrumpsCounter::update_count_for_lookup`]: every approach holds
/// whole-number velocity and distance text.
pub fn lookup_stats_ready(lookup: &NeoLookup) -> (b: bool)
    ensures
        b == lookup_records_ok(*lookup),
{
    let ghost aseq = lookup.close_approach_data@;
    let n = lookup.close_approach_data.len();
    let mut i: usize = 0;
    while i < n
        invariant
            aseq == lookup.close_approach_data@,
            n == aseq.len(),
            i <= n,
            forall|j: int| 0 <= j < i ==> approach_ok(#[trigger] aseq[j]),
        decreases n - i,
    {
        let approach = &lookup.close_approach_data[i];
        if parse_decimal(approach.relative_velocity.kilometers_per_hour.as_str()).is_none() {
            return false;
        }
        if parse_decimal(approach.miss_distance.kilometers.as_str()).is_none() {
            return false;
        }
        i = i + 1;
    }
    true
}

} // verus!
