//! The location-history index: a time-ordered collection of recorded GPS
//! fixes, queried for the fix (or interpolated fix) that best matches a
//! photograph's capture timestamp.
//!
//! Timestamps are milliseconds since the epoch; queries arrive in whole
//! seconds and are converted by multiplying by 1000. Coordinates are stored
//! as degrees scaled by 1e7 so that interpolation stays in exact integer
//! arithmetic.

use vstd::prelude::*;

use crate::arith::{div_trunc, fits_i64, div_trunc_i64, rem_trunc_i64};
use crate::arith::{lemma_div_trunc_scale_bound, lemma_rem_trunc_euclid};

verus! {

/// Half the greatest great-circle distance between two points on Earth, in
/// meters: no half-distance handed to the interpolation can exceed it.
pub const MAX_HALF_DISTANCE_M: i64 = 10_008_000;

/// The value a signed 64-bit quantity takes once narrowed to an unsigned
/// 16-bit one: its residue modulo 2^16.
pub open spec fn wrap_u16(x: int) -> int {
    x % 0x10000
}

/// One recorded location-history entry: when it was recorded, where, and the
/// reported confidence radius (accuracy) in meters.
#[derive(Clone, Copy, PartialEq, Eq, Structural, Debug)]
pub struct Location {
    timestamp_ms: i64,
    latitude_e7: i64,
    longitude_e7: i64,
    accuracy: u16,
}

impl Location {
    /// The recording time, in milliseconds since the epoch.
    pub closed spec fn ts(self) -> int {
        self.timestamp_ms as int
    }

    /// Latitude in degrees scaled by 1e7.
    pub closed spec fn lat(self) -> int {
        self.latitude_e7 as int
    }

    /// Longitude in degrees scaled by 1e7.
    pub closed spec fn lon(self) -> int {
        self.longitude_e7 as int
    }

    /// The confidence radius in meters.
    pub closed spec fn acc(self) -> int {
        self.accuracy as int
    }

    pub fn new(timestamp_ms: i64, latitude_e7: i64, longitude_e7: i64, accuracy: u16) -> (r:
        Location)
        ensures
            r.ts() == timestamp_ms,
            r.lat() == latitude_e7,
            r.lon() == longitude_e7,
            r.acc() == accuracy,
    {
        Location { timestamp_ms, latitude_e7, longitude_e7, accuracy }
    }

    pub fn timestamp_ms(&self) -> (r: i64)
        ensures
            r == self.ts(),
    {
        self.timestamp_ms
    }

    pub fn latitude_e7(&self) -> (r: i64)
        ensures
            r == self.lat(),
    {
        self.latitude_e7
    }

    pub fn longitude_e7(&self) -> (r: i64)
        ensures
            r == self.lon(),
    {
        self.longitude_e7
    }

    pub fn accuracy(&self) -> (r: u16)
        ensures
            r == self.acc(),
    {
        self.accuracy
    }

    /// The recording time in whole seconds: the millisecond value divided by
    /// 1000, truncating toward zero (sub-second precision is discarded).
    pub fn timestamp(&self) -> (r: i64)
        ensures
            r == div_trunc(self.ts(), 1000),
    {
        div_trunc_i64(self.timestamp_ms, 1000)
    }

    /// The hemisphere reference of the latitude, as photograph metadata
    /// writes it: north for zero and everything above it, south below.
    pub fn latitude_ref(&self) -> (r: char)
        ensures
            r == (if self.lat() >= 0 {
                'N'
            } else {
                'S'
            }),
    {
        if self.latitude_e7 >= 0 {
            'N'
        } else {
            'S'
        }
    }

    /// The hemisphere reference of the longitude: east for zero and
    /// everything above it, west below.
    pub fn longitude_ref(&self) -> (r: char)
        ensures
            r == (if self.lon() >= 0 {
                'E'
            } else {
                'W'
            }),
    {
        if self.longitude_e7 >= 0 {
            'E'
        } else {
            'W'
        }
    }
}

/// How a query timestamp relates to the recorded fixes: an exact hit, before
/// all data, after all data, or bracketed by two neighbouring fixes.
#[derive(Clone, Copy, PartialEq, Eq, Structural, Debug)]
pub enum LocationMatch {
    Exact(Location),
    First(Location),
    Last(Location),
    Between(Location, Location),
}

/// A read-only snapshot of a location history: fixes held in strictly
/// increasing timestamp order, with unique timestamps.
pub struct GoogleLocationHistory {
    locations: Vec<Location>,
}

impl GoogleLocationHistory {
    /// The recorded fixes, in storage order.
    pub closed spec fn fixes(self) -> Seq<Location> {
        self.locations@
    }

    /// Well-formed: timestamps strictly increase, so every timestamp occurs
    /// at most once.
    pub open spec fn wf(self) -> bool {
        forall|i: int, j: int|
            0 <= i < j < self.fixes().len() ==> self.fixes()[i].ts() < self.fixes()[j].ts()
    }

    /// The earliest recorded timestamp, in milliseconds.
    pub open spec fn min_ts(self) -> int {
        self.fixes()[0].ts()
    }

    /// The latest recorded timestamp, in milliseconds.
    pub open spec fn max_ts(self) -> int {
        self.fixes()[self.fixes().len() - 1].ts()
    }

    /// Whether some fix was recorded at exactly this millisecond timestamp.
    pub open spec fn has_fix_at(self, q_ms: int) -> bool {
        exists|i: int| 0 <= i < self.fixes().len() && self.fixes()[i].ts() == q_ms
    }

    /// The fix recorded at this millisecond timestamp.
    pub open spec fn fix_at(self, q_ms: int) -> Location {
        self.fixes()[choose|i: int| 0 <= i < self.fixes().len() && self.fixes()[i].ts() == q_ms]
    }

    /// Whether the fixes at positions `i` and `i + 1` bracket the query:
    /// strictly after the one, strictly before the other.
    pub open spec fn brackets(self, q_ms: int, i: int) -> bool {
        &&& 0 <= i < self.fixes().len() - 1
        &&& self.fixes()[i].ts() < q_ms < self.fixes()[i + 1].ts()
    }

    /// Whether the query falls strictly between two neighbouring fixes.
    pub open spec fn is_bracketed(self, q_ms: int) -> bool {
        exists|i: int| self.brackets(q_ms, i)
    }

    /// The position of the fix immediately before a bracketed query.
    pub open spec fn bracket_idx(self, q_ms: int) -> int {
        choose|i: int| self.brackets(q_ms, i)
    }

    /// What `contains` answers: the history is non-empty and the query,
    /// in milliseconds, lies in the inclusive range of recorded timestamps.
    pub open spec fn contains_spec(self, timestamp: int) -> bool {
        &&& self.fixes().len() > 0
        &&& self.min_ts() <= timestamp * 1000 <= self.max_ts()
    }

    /// What `get_most_likely_location` answers: the fix recorded at exactly
    /// the query millisecond, or the temporally closer of the two fixes
    /// bracketing the query (the earlier one on an exact tie), or nothing
    /// when the query is not exact and not bracketed (empty history, or a
    /// query outside the recorded range).
    pub open spec fn gml_spec(self, timestamp: int) -> Option<Location> {
        let q = timestamp * 1000;
        if self.has_fix_at(q) {
            Some(self.fix_at(q))
        } else if self.is_bracketed(q) {
            let b = self.fixes()[self.bracket_idx(q)];
            let a = self.fixes()[self.bracket_idx(q) + 1];
            if q - b.ts() > a.ts() - q {
                Some(a)
            } else {
                Some(b)
            }
        } else {
            None
        }
    }

    /// The machine limit on `get_most_likely_location`: the gap between the
    /// two fixes bracketing the query must be representable, so that the two
    /// time offsets compared by the tie-break can be computed in `i64`.
    pub open spec fn gml_fits(self, timestamp: int) -> bool {
        self.is_bracketed(timestamp * 1000) ==> fits_i64(
            self.fixes()[self.bracket_idx(timestamp * 1000) + 1].ts() - self.fixes()[
                self.bracket_idx(timestamp * 1000)].ts(),
        )
    }

    /// Builds the index from an already-decoded collection of fixes, in the
    /// order they were read. Every timestamp that occurs in the input is
    /// represented; when several records share a timestamp, the last one
    /// read wins.
    pub fn from_locations(records: Vec<Location>) -> (r: GoogleLocationHistory)
        ensures
            r.wf(),
            forall|i: int|
                0 <= i < r.fixes().len() ==> #[trigger] kept_from(
                    r.fixes(),
                    records@,
                    i,
                    records@.len() as int,
                ),
            forall|j: int|
                0 <= j < records@.len() ==> #[trigger] seq_has_ts(
                    r.fixes(),
                    records@[j].ts(),
                ),
    {
        let mut history = GoogleLocationHistory { locations: Vec::new() };
        let mut n: usize = 0;
        while n < records.len()
            invariant
                history.wf(),
                n <= records@.len(),
                forall|i: int|
                    0 <= i < history.fixes().len() ==> #[trigger] kept_from(
                        history.fixes(),
                        records@,
                        i,
                        n as int,
                    ),
                forall|j: int|
                    0 <= j < n ==> #[trigger] seq_has_ts(history.fixes(), records@[j].ts()),
            decreases records@.len() - n,
        {
            let ghost old_history = history;
            let record = records[n];
            history.upsert(record);
            proof {
                assert forall|i: int| 0 <= i < history.fixes().len() implies #[trigger] kept_from(
                    history.fixes(),
                    records@,
                    i,
                    n + 1,
                ) by {
                    let f = history.fixes()[i];
                    if f == record {
                        assert(last_with_ts(records@, n as int, n + 1) && records@[n as int] == f);
                    } else {
                        assert(old_history.fixes().contains(f) && f.ts() != record.ts());
                        let oi = choose|oi: int|
                            0 <= oi < old_history.fixes().len() && old_history.fixes()[oi] == f;
                        assert(kept_from(old_history.fixes(), records@, oi, n as int));
                        let j = choose|j: int|
                            last_with_ts(records@, j, n as int) && records@[j]
                                == old_history.fixes()[oi];
                        assert(last_with_ts(records@, j, n + 1) && records@[j] == f);
                    }
                }
                assert forall|j: int| 0 <= j < n + 1 implies #[trigger] seq_has_ts(
                    history.fixes(),
                    records@[j].ts(),
                ) by {
                    if j == n {
                        let wi = choose|wi: int|
                            0 <= wi < history.fixes().len() && history.fixes()[wi] == record;
                        assert(history.fixes()[wi].ts() == records@[j].ts());
                    } else {
                        assert(seq_has_ts(old_history.fixes(), records@[j].ts()));
                        let oi = choose|oi: int|
                            0 <= oi < old_history.fixes().len() && old_history.fixes()[oi].ts()
                                == records@[j].ts();
                        let f = old_history.fixes()[oi];
                        if f.ts() == record.ts() {
                            let wi = choose|wi: int|
                                0 <= wi < history.fixes().len() && history.fixes()[wi] == record;
                            assert(history.fixes()[wi].ts() == records@[j].ts());
                        } else {
                            assert(old_history.fixes()[oi].ts() != record.ts());
                            assert(history.fixes().contains(f));
                            let wi = choose|wi: int|
                                0 <= wi < history.fixes().len() && history.fixes()[wi] == f;
                            assert(history.fixes()[wi].ts() == records@[j].ts());
                        }
                    }
                }
            }
            n = n + 1;
        }
        history
    }

    /// Inserts one fix, keeping the timestamps sorted and unique: a fix
    /// recorded at the same timestamp is replaced (the newcomer wins),
    /// every other fix stays.
    fn upsert(&mut self, record: Location)
        requires
            old(self).wf(),
        ensures
            final(self).wf(),
            final(self).fixes().contains(record),
            forall|i: int|
                0 <= i < final(self).fixes().len() ==> #[trigger] final(self).fixes()[i] == record
                    || (old(self).fixes().contains(final(self).fixes()[i]) && final(
                self).fixes()[i].ts() != record.ts()),
            forall|i: int|
                0 <= i < old(self).fixes().len() && #[trigger] old(self).fixes()[i].ts()
                    != record.ts() ==> final(self).fixes().contains(old(self).fixes()[i]),
    {
        let ghost pre = self.fixes();
        let idx = self.lower_bound(record.timestamp_ms);
        if idx < self.locations.len() && self.locations[idx].timestamp_ms
            == record.timestamp_ms {
            self.locations.remove(idx);
            self.locations.insert(idx, record);
            proof {
                let post = self.fixes();
                assert(post =~= pre.update(idx as int, record));
                assert(post[idx as int] == record);
                assert forall|i: int|
                    0 <= i < pre.len() && #[trigger] pre[i].ts() != record.ts() implies
                    post.contains(pre[i]) by {
                    assert(i != idx);
                    assert(post[i] == pre[i]);
                }
            }
        } else {
            self.locations.insert(idx, record);
            proof {
                let post = self.fixes();
                assert(post == pre.insert(idx as int, record));
                assert(post[idx as int] == record);
                assert forall|i: int, j: int|
                    0 <= i < j < post.len() implies post[i].ts() < post[j].ts() by {
                    if i < idx && j > idx {
                        assert(post[i] == pre[i] && post[j] == pre[j - 1]);
                    } else if i < idx && j == idx {
                        assert(post[i] == pre[i]);
                    } else if i == idx && j > idx {
                        assert(post[j] == pre[j - 1]);
                        assert(pre[j - 1].ts() >= record.ts());
                        assert(pre[j - 1].ts() != record.ts());
                    } else if j < idx {
                        assert(post[i] == pre[i] && post[j] == pre[j]);
                    } else if i > idx {
                        assert(post[i] == pre[i - 1] && post[j] == pre[j - 1]);
                    }
                }
                assert forall|i: int|
                    0 <= i < pre.len() && #[trigger] pre[i].ts() != record.ts() implies
                    post.contains(pre[i]) by {
                    if i < idx {
                        assert(post[i] == pre[i]);
                    } else {
                        assert(post[i + 1] == pre[i]);
                    }
                }
                assert forall|i: int|
                    0 <= i < post.len() implies #[trigger] post[i] == record || (pre.contains(
                    post[i]) && post[i].ts() != record.ts()) by {
                    if i < idx {
                        assert(post[i] == pre[i]);
                        assert(pre.contains(pre[i]));
                    } else if i > idx {
                        assert(post[i] == pre[i - 1]);
                        assert(pre.contains(pre[i - 1]));
                        assert(pre[i - 1].ts() >= record.ts());
                        assert(pre[i - 1].ts() != record.ts());
                    }
                }
            }
        }
    }

    /// The position where `q_ms` would be inserted to keep the fixes
    /// sorted: everything before it is strictly earlier, everything from it
    /// on is at or after the query.
    fn lower_bound(&self, q_ms: i64) -> (idx: usize)
        requires
            self.wf(),
        ensures
            0 <= idx <= self.fixes().len(),
            forall|i: int| 0 <= i < idx ==> self.fixes()[i].ts() < q_ms,
            forall|i: int| idx <= i < self.fixes().len() ==> self.fixes()[i].ts() >= q_ms,
    {
        let mut lo: usize = 0;
        let mut hi: usize = self.locations.len();
        proof {
            assert(self.fixes() == self.locations@);
        }
        while lo < hi
            invariant
                self.wf(),
                self.fixes() == self.locations@,
                0 <= lo <= hi <= self.fixes().len(),
                forall|i: int| 0 <= i < lo ==> self.fixes()[i].ts() < q_ms,
                forall|i: int| hi <= i < self.fixes().len() ==> self.fixes()[i].ts() >= q_ms,
            decreases hi - lo,
        {
            let mid: usize = lo + (hi - lo) / 2;
            if self.locations[mid].timestamp_ms < q_ms {
                proof {
                    assert forall|i: int| 0 <= i < mid + 1 implies self.fixes()[i].ts() < q_ms by {
                        if i < mid {
                            assert(self.fixes()[i].ts() < self.fixes()[mid as int].ts());
                        }
                    }
                }
                lo = mid + 1;
            } else {
                proof {
                    assert(self.fixes()[mid as int].ts() >= q_ms);
                    assert forall|i: int|
                        mid <= i < self.fixes().len() implies self.fixes()[i].ts() >= q_ms by {
                        if i > mid {
                            assert(self.fixes()[mid as int].ts() < self.fixes()[i].ts());
                        }
                    }
                }
                hi = mid;
            }
        }
        lo
    }

    /// True iff the query timestamp (in seconds) falls within the inclusive
    /// range of recorded timestamps. An empty history contains nothing.
    pub fn contains(&self, timestamp: i64) -> (r: bool)
        requires
            fits_i64(timestamp * 1000),
        ensures
            r == self.contains_spec(timestamp as int),
    {
        if self.locations.len() == 0 {
            return false;
        }
        let timestamp_ms: i64 = timestamp * 1000;
        let first: i64 = self.locations[0].timestamp_ms;
        let last: i64 = self.locations[self.locations.len() - 1].timestamp_ms;
        timestamp_ms >= first && timestamp_ms <= last
    }

    /// Classifies the query timestamp (in seconds) against the recorded
    /// fixes: an exact hit, before all data, after all data, bracketed by
    /// two neighbouring fixes, or nothing at all (empty history).
    pub fn location_at_time(&self, timestamp: i64) -> (r: Option<LocationMatch>)
        requires
            self.wf(),
            fits_i64(timestamp * 1000),
        ensures
            match r {
                None => self.fixes().len() == 0,
                Some(LocationMatch::Exact(l)) => self.has_fix_at(timestamp * 1000) && l
                    == self.fix_at(timestamp * 1000),
                Some(LocationMatch::First(l)) => self.fixes().len() > 0 && timestamp * 1000
                    < self.min_ts() && l == self.fixes()[0],
                Some(LocationMatch::Last(l)) => self.fixes().len() > 0 && timestamp * 1000
                    > self.max_ts() && l == self.fixes()[self.fixes().len() - 1],
                Some(LocationMatch::Between(b, a)) => self.is_bracketed(timestamp * 1000) && b
                    == self.fixes()[self.bracket_idx(timestamp * 1000)] && a == self.fixes()[
                    self.bracket_idx(timestamp * 1000) + 1] && !self.has_fix_at(timestamp * 1000),
            },
    {
        let ghost q = timestamp * 1000;
        if self.locations.len() == 0 {
            return None;
        }
        let timestamp_ms: i64 = timestamp * 1000;
        let idx: usize = self.lower_bound(timestamp_ms);
        if idx < self.locations.len() && self.locations[idx].timestamp_ms == timestamp_ms {
            proof {
                assert(self.has_fix_at(q));
                let i = choose|i: int|
                    0 <= i < self.fixes().len() && self.fixes()[i].ts() == q;
                if i < idx {
                    assert(self.fixes()[i].ts() < self.fixes()[idx as int].ts());
                }
                if i > idx {
                    assert(self.fixes()[idx as int].ts() < self.fixes()[i].ts());
                }
            }
            Some(LocationMatch::Exact(self.locations[idx]))
        } else if idx == 0 {
            Some(LocationMatch::First(self.locations[0]))
        } else if idx == self.locations.len() {
            Some(LocationMatch::Last(self.locations[self.locations.len() - 1]))
        } else {
            proof {
                assert(self.brackets(q, idx - 1));
                let i = self.bracket_idx(q);
                assert(self.brackets(q, i));
                if i + 1 <= idx - 1 {
                    assert(self.fixes()[i + 1].ts() <= self.fixes()[idx - 1].ts());
                }
                if idx <= i {
                    assert(self.fixes()[idx as int].ts() <= self.fixes()[i].ts());
                }
                assert(i == idx - 1);
                assert forall|k: int|
                    0 <= k < self.fixes().len() implies self.fixes()[k].ts() != q by {
                    if k >= idx && k != idx {
                        assert(self.fixes()[idx as int].ts() < self.fixes()[k].ts());
                    }
                }
            }
            Some(LocationMatch::Between(self.locations[idx - 1], self.locations[idx]))
        }
    }

    /// The nearest-neighbour policy: the fix recorded at exactly the query
    /// second, or the closer of the two bracketing fixes (ties go to the
    /// earlier one). A query outside the recorded range yields nothing, even
    /// though a nearest fix exists: only exact or bracketed queries are
    /// answered.
    pub fn get_most_likely_location(&self, timestamp: i64) -> (r: Option<Location>)
        requires
            self.wf(),
            fits_i64(timestamp * 1000),
            self.gml_fits(timestamp as int),
        ensures
            r == self.gml_spec(timestamp as int),
    {
        match self.location_at_time(timestamp) {
            None => None,
            Some(LocationMatch::Exact(location)) => Some(location),
            Some(LocationMatch::Between(before, after)) => {
                let timestamp_ms: i64 = timestamp * 1000;
                if timestamp_ms - before.timestamp_ms > after.timestamp_ms - timestamp_ms {
                    Some(after)
                } else {
                    Some(before)
                }
            },
            Some(LocationMatch::First(_)) => {
                proof {
                    assert forall|i: int| !(#[trigger] self.brackets(timestamp * 1000, i)) by {}
                }
                None
            },
            Some(LocationMatch::Last(_)) => {
                proof {
                    assert forall|i: int| !(#[trigger] self.brackets(timestamp * 1000, i)) by {}
                }
                None
            },
        }
    }

    /// The machine limits on `interpolate_location`: when the query is
    /// bracketed, the coordinate products and every accuracy blend that a
    /// legitimate half-distance could produce must be representable in
    /// `i64`.
    pub open spec fn interpolation_fits(self, timestamp: int) -> bool {
        self.is_bracketed(timestamp * 1000) ==> {
            let q = timestamp * 1000;
            let b = self.fixes()[self.bracket_idx(q)];
            let a = self.fixes()[self.bracket_idx(q) + 1];
            let off = q - b.ts();
            let span = a.ts() - b.ts();
            &&& fits_i64(span)
            &&& fits_i64(a.lat() - b.lat())
            &&& fits_i64((a.lat() - b.lat()) * off)
            &&& fits_i64(a.lon() - b.lon())
            &&& fits_i64((a.lon() - b.lon()) * off)
            &&& forall|hd: int| 0 <= hd <= MAX_HALF_DISTANCE_M ==> accuracy_fits(q, b, a, hd)
        }
    }

    /// The linear-interpolation policy. A query at a recorded millisecond
    /// returns that fix unchanged; a bracketed query synthesizes a fix at
    /// the query time, interpolating each coordinate linearly in time and
    /// blending the accuracy; any other query (empty history, or outside the
    /// recorded range) yields nothing — out-of-range queries are never
    /// extrapolated.
    ///
    /// `half_distance_m` supplies half the great-circle distance in meters
    /// between two fixes given their scaled coordinates; that is coordinate
    /// geometry on floating-point values, which the caller provides. It must
    /// accept any coordinates and may never report more than half of Earth's
    /// greatest great-circle distance.
    ///
    /// Interpolation is linear in latitude/longitude degrees, ignoring Earth
    /// curvature: acceptable error at the spatial scales of a single
    /// journey, where interpolation is meaningful at all.
    pub fn interpolate_location<F: Fn(i64, i64, i64, i64) -> i64>(
        &self,
        timestamp: i64,
        half_distance_m: F,
    ) -> (r: Option<Location>)
        requires
            self.wf(),
            fits_i64(timestamp * 1000),
            forall|b_lat: i64, b_lon: i64, a_lat: i64, a_lon: i64|
                #[trigger] half_distance_m.requires((b_lat, b_lon, a_lat, a_lon)),
            forall|args: (i64, i64, i64, i64), hd: i64|
                #[trigger] half_distance_m.ensures(args, hd) ==> 0 <= hd
                    <= MAX_HALF_DISTANCE_M,
            self.interpolation_fits(timestamp as int),
        ensures
            ({
                let q = timestamp * 1000;
                if self.has_fix_at(q) {
                    r == Some(self.fix_at(q))
                } else if self.is_bracketed(q) {
                    let b = self.fixes()[self.bracket_idx(q)];
                    let a = self.fixes()[self.bracket_idx(q) + 1];
                    exists|hd: i64|
                        {
                            &&& #[trigger] half_distance_m.ensures(
                                ((b.lat() as i64), (b.lon() as i64), (a.lat() as i64), (
                                a.lon() as i64)),
                                hd,
                            )
                            &&& match r {
                                Some(l) => {
                                    &&& l.ts() == q
                                    &&& l.lat() == interp_coord(
                                        b.lat(),
                                        a.lat(),
                                        q - b.ts(),
                                        a.ts() - b.ts(),
                                    )
                                    &&& l.lon() == interp_coord(
                                        b.lon(),
                                        a.lon(),
                                        q - b.ts(),
                                        a.ts() - b.ts(),
                                    )
                                    &&& l.acc() == wrap_u16(blended_accuracy(q, b, a, hd as int))
                                },
                                None => false,
                            }
                        }
                } else {
                    r == None::<Location>
                }
            }),
    {
        let ghost q = timestamp * 1000;
        match self.location_at_time(timestamp) {
            Some(LocationMatch::Exact(location)) => Some(location),
            Some(LocationMatch::Between(before, after)) => {
                let timestamp_ms: i64 = timestamp * 1000;
                let latitude_difference: i64 = after.latitude_e7 - before.latitude_e7;
                let longitude_difference: i64 = after.longitude_e7 - before.longitude_e7;
                let time_difference: i64 = after.timestamp_ms - before.timestamp_ms;
                let time_offset: i64 = timestamp_ms - before.timestamp_ms;

                proof {
                    lemma_div_trunc_scale_bound(
                        latitude_difference as int,
                        time_offset as int,
                        time_difference as int,
                    );
                    lemma_div_trunc_scale_bound(
                        longitude_difference as int,
                        time_offset as int,
                        time_difference as int,
                    );
                }
                let latitude_e7: i64 = before.latitude_e7 + div_trunc_i64(
                    latitude_difference * time_offset,
                    time_difference,
                );
                let longitude_e7: i64 = before.longitude_e7 + div_trunc_i64(
                    longitude_difference * time_offset,
                    time_difference,
                );
                let hd: i64 = half_distance_m(
                    before.latitude_e7,
                    before.longitude_e7,
                    after.latitude_e7,
                    after.longitude_e7,
                );
                proof {
                    let b = self.fixes()[self.bracket_idx(q)];
                    let a = self.fixes()[self.bracket_idx(q) + 1];
                    assert(b == before && a == after);
                    assert(half_distance_m.ensures(
                        ((b.lat() as i64), (b.lon() as i64), (a.lat() as i64), (a.lon() as i64)),
                        hd,
                    ));
                }
                let accuracy: u16 = interpolate_accuracy(timestamp_ms, &before, &after, hd);

                let result = Location { timestamp_ms, latitude_e7, longitude_e7, accuracy };
                proof {
                    let b = self.fixes()[self.bracket_idx(q)];
                    let a = self.fixes()[self.bracket_idx(q) + 1];
                    assert(result.lat() == interp_coord(b.lat(), a.lat(), q - b.ts(), a.ts() - b.ts()));
                    assert(result.lon() == interp_coord(b.lon(), a.lon(), q - b.ts(), a.ts() - b.ts()));
                    assert(result.acc() == wrap_u16(blended_accuracy(q, b, a, hd as int)));
                }
                Some(result)
            },
            Some(LocationMatch::First(_)) => {
                proof {
                    assert forall|i: int| !(#[trigger] self.brackets(q, i)) by {
                        if 0 <= i < self.fixes().len() {
                            if i > 0 {
                                assert(self.fixes()[0].ts() < self.fixes()[i].ts());
                            }
                        }
                    }
                    assert forall|i: int|
                        0 <= i < self.fixes().len() implies self.fixes()[i].ts() != q by {
                        if i > 0 {
                            assert(self.fixes()[0].ts() < self.fixes()[i].ts());
                        }
                    }
                }
                None
            },
            Some(LocationMatch::Last(_)) => {
                proof {
                    let n = self.fixes().len() - 1;
                    assert forall|i: int| !(#[trigger] self.brackets(q, i)) by {
                        if 0 <= i < n {
                            assert(self.fixes()[i + 1].ts() <= self.fixes()[n].ts() || i + 1 == n);
                        }
                    }
                    assert forall|i: int|
                        0 <= i < self.fixes().len() implies self.fixes()[i].ts() != q by {
                        if i < n {
                            assert(self.fixes()[i].ts() < self.fixes()[n].ts());
                        }
                    }
                }
                None
            },
            None => None,
        }
    }
}

impl Default for GoogleLocationHistory {
    /// An empty history: no fixes recorded at all.
    fn default() -> (r: GoogleLocationHistory)
        ensures
            r.fixes().len() == 0,
            r.wf(),
    {
        GoogleLocationHistory { locations: Vec::new() }
    }
}

/// Whether position `j` holds the last record before position `n` with its
/// own timestamp: no later record up to (excluding) `n` repeats it.
pub open spec fn last_with_ts(records: Seq<Location>, j: int, n: int) -> bool {
    &&& 0 <= j < n <= records.len()
    &&& forall|k: int| j < k < n ==> records[k].ts() != records[j].ts()
}

/// Whether the fix at position `i` is exactly the last record, among the
/// first `n` read, that carries its timestamp.
pub open spec fn kept_from(fixes: Seq<Location>, records: Seq<Location>, i: int, n: int) -> bool {
    exists|j: int| last_with_ts(records, j, n) && records[j] == fixes[i]
}

/// Whether some fix in the sequence was recorded at this timestamp.
pub open spec fn seq_has_ts(fixes: Seq<Location>, t: int) -> bool {
    exists|i: int| 0 <= i < fixes.len() && fixes[i].ts() == t
}

/// On a non-empty history, `contains` answers true exactly on the inclusive
/// range of recorded timestamps: true strictly inside, true on either
/// boundary, false strictly outside.
pub proof fn law_contains_range(h: GoogleLocationHistory, timestamp: int)
    requires
        h.wf(),
        h.fixes().len() > 0,
    ensures
        h.min_ts() < timestamp * 1000 < h.max_ts() ==> h.contains_spec(timestamp),
        timestamp * 1000 == h.min_ts() ==> h.contains_spec(timestamp),
        timestamp * 1000 == h.max_ts() ==> h.contains_spec(timestamp),
        timestamp * 1000 < h.min_ts() ==> !h.contains_spec(timestamp),
        timestamp * 1000 > h.max_ts() ==> !h.contains_spec(timestamp),
{
    if h.fixes().len() > 1 {
        assert(h.fixes()[0].ts() < h.fixes()[h.fixes().len() - 1].ts());
    }
}

/// A query at a recorded millisecond returns exactly the fix recorded
/// there.
pub proof fn law_exact_match(h: GoogleLocationHistory, timestamp: int)
    requires
        h.has_fix_at(timestamp * 1000),
    ensures
        h.gml_spec(timestamp) == Some(h.fix_at(timestamp * 1000)),
{
}

/// An empty history suggests nothing, whatever the query.
pub proof fn law_empty_history_no_match(h: GoogleLocationHistory, timestamp: int)
    requires
        h.fixes().len() == 0,
    ensures
        h.gml_spec(timestamp) == None::<Location>,
{
}

/// The nearest-neighbour policy never answers a query outside the recorded
/// range, even though a nearest fix exists there: the policy only returns a
/// guess when the query is exact or bracketed. (Such a query still fails
/// `contains` only when strictly outside; at the boundaries the query is an
/// exact hit.)
pub proof fn law_outside_range_no_match(h: GoogleLocationHistory, timestamp: int)
    requires
        h.wf(),
        h.fixes().len() > 0,
        timestamp * 1000 < h.min_ts() || timestamp * 1000 > h.max_ts(),
    ensures
        h.gml_spec(timestamp) == None::<Location>,
{
    let q = timestamp * 1000;
    assert forall|i: int| 0 <= i < h.fixes().len() implies h.fixes()[i].ts() != q by {
        if i > 0 {
            assert(h.fixes()[0].ts() < h.fixes()[i].ts());
        }
        if i < h.fixes().len() - 1 {
            assert(h.fixes()[i].ts() < h.fixes()[h.fixes().len() - 1].ts());
        }
    }
    assert forall|i: int| !(#[trigger] h.brackets(q, i)) by {
        if 0 <= i < h.fixes().len() - 1 {
            if i > 0 {
                assert(h.fixes()[0].ts() < h.fixes()[i].ts());
            }
            if i + 1 < h.fixes().len() - 1 {
                assert(h.fixes()[i + 1].ts() < h.fixes()[h.fixes().len() - 1].ts());
            }
        }
    }
}

/// A query exactly midway between two bracketing fixes is a tie, and a tie
/// resolves to the earlier fix.
pub proof fn law_tie_breaks_earlier(h: GoogleLocationHistory, timestamp: int)
    requires
        h.wf(),
        h.is_bracketed(timestamp * 1000),
        timestamp * 1000 - h.fixes()[h.bracket_idx(timestamp * 1000)].ts() == h.fixes()[
            h.bracket_idx(timestamp * 1000) + 1].ts() - timestamp * 1000,
    ensures
        h.gml_spec(timestamp) == Some(h.fixes()[h.bracket_idx(timestamp * 1000)]),
{
    let q = timestamp * 1000;
    let bi = h.bracket_idx(q);
    assert(h.brackets(q, bi));
    assert forall|i: int| 0 <= i < h.fixes().len() implies h.fixes()[i].ts() != q by {
        if i <= bi {
            assert(h.fixes()[i].ts() <= h.fixes()[bi].ts() || i == bi);
            if i < bi {
                assert(h.fixes()[i].ts() < h.fixes()[bi].ts());
            }
        } else {
            if i > bi + 1 {
                assert(h.fixes()[bi + 1].ts() < h.fixes()[i].ts());
            }
        }
    }
}

/// When half the distance between the endpoints is at least both endpoint
/// accuracies and fits the 16-bit accuracy unit, the blended accuracy at the
/// exact temporal midpoint is that half-distance itself.
pub proof fn law_accuracy_half_distance_at_midpoint(
    q_ms: int,
    b: Location,
    a: Location,
    hd: int,
)
    requires
        b.ts() < q_ms < a.ts(),
        q_ms - b.ts() == a.ts() - q_ms,
        hd >= b.acc(),
        hd >= a.acc(),
        hd <= 0xFFFF,
    ensures
        wrap_u16(blended_accuracy(q_ms, b, a, hd)) == hd,
{
    let off = q_ms - b.ts();
    let span = a.ts() - b.ts();
    assert(span == 2 * off);
    vstd::arithmetic::div_mod::lemma_div_multiples_vanish(off, 2);
    assert(div_trunc(span, 2) == off);
    assert((hd - b.acc()) * off * 2 == (hd - b.acc()) * span) by (nonlinear_arith)
        requires
            span == 2 * off,
    ;
    vstd::arithmetic::div_mod::lemma_div_multiples_vanish(hd - b.acc(), span);
    assert(((hd - b.acc()) * span) == (span * (hd - b.acc()))) by (nonlinear_arith);
    assert(div_trunc((hd - b.acc()) * off * 2, span) == hd - b.acc());
    assert(blended_accuracy(q_ms, b, a, hd) == hd);
    vstd::arithmetic::div_mod::lemma_small_mod(hd as nat, 0x10000nat);
}

/// Linear interpolation of one stored coordinate: the base value plus the
/// time-proportional share of the difference, multiplied before dividing and
/// truncating toward zero, so results are exactly reproducible.
pub open spec fn interp_coord(base: int, target: int, off: int, span: int) -> int {
    base + div_trunc((target - base) * off, span)
}

/// What the blended accuracy is, before narrowing to 16 bits. The blend
/// scales between the accuracy of the nearer endpoint and half the distance
/// between the two endpoints, according to how far the query sits in the
/// time span; when that half-distance is smaller than both endpoint
/// accuracies it is ignored and the two accuracies are blended directly.
pub open spec fn blended_accuracy(q_ms: int, b: Location, a: Location, hd: int) -> int {
    let off = q_ms - b.ts();
    let span = a.ts() - b.ts();
    if hd < b.acc() && hd < a.acc() {
        b.acc() + div_trunc((a.acc() - b.acc()) * off, span)
    } else if off <= div_trunc(span, 2) {
        b.acc() + div_trunc((hd - b.acc()) * off * 2, span)
    } else {
        hd + div_trunc((a.acc() - hd) * (off * 2 - span), span)
    }
}

/// The machine limits on `interpolate_accuracy`: each intermediate product
/// of the branch that runs must be representable in `i64`.
pub open spec fn accuracy_fits(q_ms: int, b: Location, a: Location, hd: int) -> bool {
    let off = q_ms - b.ts();
    let span = a.ts() - b.ts();
    &&& fits_i64(span)
    &&& if hd < b.acc() && hd < a.acc() {
        fits_i64((a.acc() - b.acc()) * off)
    } else if off <= div_trunc(span, 2) {
        &&& fits_i64(hd - b.acc())
        &&& fits_i64((hd - b.acc()) * off)
        &&& fits_i64((hd - b.acc()) * off * 2)
    } else {
        &&& fits_i64(off * 2)
        &&& fits_i64(a.acc() - hd)
        &&& fits_i64((a.acc() - hd) * (off * 2 - span))
    }
}

/// Estimates a confidence radius for a point interpolated between `before`
/// and `after` at millisecond time `timestamp_ms`, strictly inside their
/// span. `half_distance_m` is half the great-circle distance between the two
/// fixes, in meters, which only the caller's coordinate geometry can
/// compute. The result is the blend narrowed to the unsigned 16-bit accuracy
/// unit; callers are expected not to feed spans and distances whose blend
/// exceeds it.
pub fn interpolate_accuracy(
    timestamp_ms: i64,
    before: &Location,
    after: &Location,
    half_distance_m: i64,
) -> (r: u16)
    requires
        before.ts() < timestamp_ms < after.ts(),
        accuracy_fits(timestamp_ms as int, *before, *after, half_distance_m as int),
    ensures
        r == wrap_u16(blended_accuracy(timestamp_ms as int, *before, *after, half_distance_m as int)),
{
    let time_offset: i64 = timestamp_ms - before.timestamp_ms;
    let time_difference: i64 = after.timestamp_ms - before.timestamp_ms;
    let before_accuracy: i64 = before.accuracy as i64;
    let after_accuracy: i64 = after.accuracy as i64;
    let half_distance: i64 = half_distance_m;

    let accuracy: i64 = if half_distance < before_accuracy && half_distance < after_accuracy {
        proof {
            lemma_div_trunc_scale_bound(
                after_accuracy as int - before_accuracy as int,
                time_offset as int,
                time_difference as int,
            );
        }
        let diff: i64 = after_accuracy - before_accuracy;
        let scaled: i64 = div_trunc_i64(diff * time_offset, time_difference);
        before_accuracy + scaled
    } else if time_offset <= div_trunc_i64(time_difference, 2) {
        proof {
            vstd::arithmetic::div_mod::lemma_fundamental_div_mod(time_difference as int, 2);
            vstd::arithmetic::div_mod::lemma_mod_division_less_than_divisor(
                time_difference as int,
                2,
            );
            assert(2 * (time_offset as int) <= time_difference);
            lemma_div_trunc_scale_bound(
                half_distance as int - before_accuracy as int,
                2 * (time_offset as int),
                time_difference as int,
            );
            assert((half_distance - before_accuracy) * time_offset * 2 == (half_distance
                - before_accuracy) * (2 * time_offset)) by (nonlinear_arith);
        }
        let diff: i64 = half_distance - before_accuracy;
        let scaled: i64 = div_trunc_i64(diff * time_offset * 2, time_difference);
        before_accuracy + scaled
    } else {
        proof {
            vstd::arithmetic::div_mod::lemma_fundamental_div_mod(time_difference as int, 2);
            vstd::arithmetic::div_mod::lemma_mod_division_less_than_divisor(
                time_difference as int,
                2,
            );
            assert(0 <= 2 * (time_offset as int) - time_difference <= time_difference);
            lemma_div_trunc_scale_bound(
                after_accuracy as int - half_distance as int,
                2 * (time_offset as int) - time_difference,
                time_difference as int,
            );
        }
        let diff: i64 = after_accuracy - half_distance;
        let stretch: i64 = time_offset * 2 - time_difference;
        let scaled: i64 = div_trunc_i64(diff * stretch, time_difference);
        half_distance + scaled
    };

    proof {
        lemma_rem_trunc_euclid(accuracy as int, 0x10000);
    }
    let wrapped: i64 = rem_trunc_i64(accuracy, 0x10000);
    if wrapped < 0 {
        (wrapped + 0x10000) as u16
    } else {
        wrapped as u16
    }
}

} // verus!
