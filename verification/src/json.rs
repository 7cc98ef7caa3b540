//! An earlier shape of the location-history data model, kept for callers
//! that still read the richer record format: each entry may carry the
//! activity annotations found in the raw history alongside the fix itself.
//! Its nearest-neighbour query differs from the newer index in one point:
//! a query outside the recorded range still answers with the nearest
//! recorded fix instead of declining.

use vstd::prelude::*;

use crate::arith::fits_i64;

verus! {

/// The kind of activity the device guessed it was involved in when a fix
/// was recorded.
#[derive(PartialEq, Eq, Debug)]
pub enum ActivityType {
    ExitingVehicle,
    InVehicle,
    OnBicycle,
    OnFoot,
    Running,
    Still,
    Tilting,
    Unknown,
    Walking,
    Other(String),
}

/// The kind of an extra annotation attached to an activity.
#[derive(PartialEq, Eq, Debug)]
pub enum ExtraType {
    Value,
    Other(String),
}

/// The name of an extra annotation attached to an activity.
#[derive(PartialEq, Eq, Debug)]
pub enum ExtraName {
    VehiclePersonalConfidence,
    Other(String),
}

/// An extra annotation on an activity guess.
#[derive(PartialEq, Eq, Debug)]
pub struct Extra {
    pub extra_type: ExtraType,
    pub name: ExtraName,
    pub int_val: u8,
}

/// One activity guess with the confidence the device reported for it.
#[derive(PartialEq, Eq, Debug)]
pub struct Activity {
    pub activity_type: ActivityType,
    pub confidence: u16,
}

/// The activity guesses recorded at one moment.
#[derive(PartialEq, Eq, Debug)]
pub struct TimestampedActivity {
    pub timestamp_ms: i64,
    pub activities: Vec<Activity>,
    pub extras: Option<Vec<Extra>>,
}

/// One recorded location-history entry in the richer record format.
#[derive(PartialEq, Eq, Debug)]
pub struct Location {
    timestamp_ms: i64,
    latitude_e7: i64,
    longitude_e7: i64,
    accuracy: u16,
    activitys: Option<Vec<TimestampedActivity>>,
}

impl Location {
    /// The recording time, in milliseconds since the epoch.
    pub closed spec fn ts(self) -> int {
        self.timestamp_ms as int
    }

    pub fn new(
        timestamp_ms: i64,
        latitude_e7: i64,
        longitude_e7: i64,
        accuracy: u16,
        activitys: Option<Vec<TimestampedActivity>>,
    ) -> (r: Location)
        ensures
            r.ts() == timestamp_ms,
    {
        Location { timestamp_ms, latitude_e7, longitude_e7, accuracy, activitys }
    }

    pub fn timestamp_ms(&self) -> (r: i64)
        ensures
            r == self.ts(),
    {
        self.timestamp_ms
    }
}

/// A location history in the richer record format: fixes held in strictly
/// increasing timestamp order, with unique timestamps.
pub struct GoogleLocationHistory {
    locations: Vec<Location>,
}

impl GoogleLocationHistory {
    /// The recorded fixes, in storage order.
    pub closed spec fn fixes(self) -> Seq<Location> {
        self.locations@
    }

    /// Well-formed: timestamps strictly increase.
    pub open spec fn wf(self) -> bool {
        forall|i: int, j: int|
            0 <= i < j < self.fixes().len() ==> self.fixes()[i].ts() < self.fixes()[j].ts()
    }

    /// Whether some fix was recorded at exactly this millisecond timestamp.
    pub open spec fn has_fix_at(self, q_ms: int) -> bool {
        exists|i: int| 0 <= i < self.fixes().len() && self.fixes()[i].ts() == q_ms
    }

    /// The fix recorded at this millisecond timestamp.
    pub open spec fn fix_at(self, q_ms: int) -> Location {
        self.fixes()[choose|i: int| 0 <= i < self.fixes().len() && self.fixes()[i].ts() == q_ms]
    }

    /// Whether the fixes at positions `i` and `i + 1` bracket the query.
    pub open spec fn brackets(self, q_ms: int, i: int) -> bool {
        &&& 0 <= i < self.fixes().len() - 1
        &&& self.fixes()[i].ts() < q_ms < self.fixes()[i + 1].ts()
    }

    /// Whether the query falls strictly between two neighbouring fixes.
    pub open spec fn is_bracketed(self, q_ms: int) -> bool {
        exists|i: int| self.brackets(q_ms, i)
    }

    /// The position of the fix immediately before a bracketed query.
    pub open spec fn bracket_idx(self, q_ms: int) -> int {
        choose|i: int| self.brackets(q_ms, i)
    }

    /// What `get_most_likely_location` answers here: the exact fix when one
    /// exists; otherwise the nearest recorded fix in time — the first fix
    /// for a query before all data, the last for one after all data, and
    /// for a bracketed query the closer neighbour, the earlier one on an
    /// exact tie. Only an empty history answers nothing.
    pub open spec fn gml_spec(self, timestamp: int) -> Option<Location> {
        let q = timestamp * 1000;
        if self.fixes().len() == 0 {
            None
        } else if self.has_fix_at(q) {
            Some(self.fix_at(q))
        } else if q < self.fixes()[0].ts() {
            Some(self.fixes()[0])
        } else if q > self.fixes()[self.fixes().len() - 1].ts() {
            Some(self.fixes()[self.fixes().len() - 1])
        } else {
            let b = self.fixes()[self.bracket_idx(q)];
            let a = self.fixes()[self.bracket_idx(q) + 1];
            if q - b.ts() > a.ts() - q {
                Some(a)
            } else {
                Some(b)
            }
        }
    }

    /// The machine limit on `get_most_likely_location`: the gap between two
    /// bracketing fixes must be representable in `i64`.
    pub open spec fn gml_fits(self, timestamp: int) -> bool {
        self.is_bracketed(timestamp * 1000) ==> fits_i64(
            self.fixes()[self.bracket_idx(timestamp * 1000) + 1].ts() - self.fixes()[
                self.bracket_idx(timestamp * 1000)].ts(),
        )
    }

    /// Builds the history from already-decoded records, keeping them sorted
    /// by timestamp with unique timestamps; when two records share a
    /// timestamp, the later one read wins.
    pub fn from_locations(records: Vec<Location>) -> (r: GoogleLocationHistory)
        ensures
            r.wf(),
            forall|j: int|
                0 <= j < records@.len() ==> #[trigger] seq_has_ts(r.fixes(), records@[j].ts()),
            forall|i: int|
                0 <= i < r.fixes().len() ==> records@.contains(#[trigger] r.fixes()[i]),
    {
        let ghost all = records@;
        let mut remaining = records;
        let mut history = GoogleLocationHistory { locations: Vec::new() };
        while remaining.len() > 0
            invariant
                history.wf(),
                remaining@.len() <= all.len(),
                remaining@ == all.skip(all.len() - remaining@.len()),
                forall|j: int|
                    0 <= j < all.len() - remaining@.len() ==> #[trigger] seq_has_ts(
                        history.fixes(),
                        all[j].ts(),
                    ),
                forall|i: int|
                    0 <= i < history.fixes().len() ==> all.contains(
                        #[trigger] history.fixes()[i],
                    ),
            decreases remaining@.len(),
        {
            let ghost k = all.len() - remaining@.len();
            let ghost old_history = history;
            let record = remaining.remove(0);
            proof {
                assert(record == all[k]);
                assert(remaining@ =~= all.skip(k + 1));
            }
            history.upsert(record);
            proof {
                assert(all.contains(all[k]));
                assert forall|j: int| 0 <= j < k + 1 implies #[trigger] seq_has_ts(
                    history.fixes(),
                    all[j].ts(),
                ) by {
                    if j == k {
                        let wi = choose|wi: int|
                            0 <= wi < history.fixes().len() && history.fixes()[wi] == record;
                        assert(history.fixes()[wi].ts() == all[j].ts());
                    } else {
                        assert(seq_has_ts(old_history.fixes(), all[j].ts()));
                        let oi = choose|oi: int|
                            0 <= oi < old_history.fixes().len() && old_history.fixes()[oi].ts()
                                == all[j].ts();
                        let f = old_history.fixes()[oi];
                        if f.ts() == record.ts() {
                            let wi = choose|wi: int|
                                0 <= wi < history.fixes().len() && history.fixes()[wi] == record;
                            assert(history.fixes()[wi].ts() == all[j].ts());
                        } else {
                            assert(old_history.fixes()[oi].ts() != record.ts());
                            assert(history.fixes().contains(f));
                            let wi = choose|wi: int|
                                0 <= wi < history.fixes().len() && history.fixes()[wi] == f;
                            assert(history.fixes()[wi].ts() == all[j].ts());
                        }
                    }
                }
                assert forall|i: int| 0 <= i < history.fixes().len() implies all.contains(
                    #[trigger] history.fixes()[i],
                ) by {
                    let f = history.fixes()[i];
                    if f != record {
                        assert(old_history.fixes().contains(f));
                        let oi = choose|oi: int|
                            0 <= oi < old_history.fixes().len() && old_history.fixes()[oi] == f;
                        assert(all.contains(old_history.fixes()[oi]));
                    }
                }
            }
        }
        history
    }

    /// Inserts one fix, keeping the timestamps sorted and unique: a fix
    /// recorded at the same timestamp is replaced (the newcomer wins),
    /// every other fix stays.
    fn upsert(&mut self, record: Location)
        requires
            old(self).wf(),
        ensures
            final(self).wf(),
            final(self).fixes().contains(record),
            forall|i: int|
                0 <= i < final(self).fixes().len() ==> #[trigger] final(self).fixes()[i] == record
                    || old(self).fixes().contains(final(self).fixes()[i]),
            forall|i: int|
                0 <= i < old(self).fixes().len() && #[trigger] old(self).fixes()[i].ts()
                    != record.ts() ==> final(self).fixes().contains(old(self).fixes()[i]),
    {
        let ghost pre = self.fixes();
        let idx = self.lower_bound(record.timestamp_ms);
        if idx < self.locations.len() && self.locations[idx].timestamp_ms
            == record.timestamp_ms {
            self.locations.remove(idx);
            self.locations.insert(idx, record);
            proof {
                let post = self.fixes();
                assert(post =~= pre.update(idx as int, post[idx as int]));
                assert forall|i: int|
                    0 <= i < pre.len() && #[trigger] pre[i].ts() != post[idx as int].ts() implies
                    post.contains(pre[i]) by {
                    assert(i != idx);
                    assert(post[i] == pre[i]);
                }
            }
        } else {
            self.locations.insert(idx, record);
            proof {
                let post = self.fixes();
                let rec = post[idx as int];
                assert(post == pre.insert(idx as int, rec));
                assert forall|i: int, j: int|
                    0 <= i < j < post.len() implies post[i].ts() < post[j].ts() by {
                    if i < idx && j > idx {
                        assert(post[i] == pre[i] && post[j] == pre[j - 1]);
                    } else if i < idx && j == idx {
                        assert(post[i] == pre[i]);
                    } else if i == idx && j > idx {
                        assert(post[j] == pre[j - 1]);
                        assert(pre[j - 1].ts() >= rec.ts());
                        assert(pre[j - 1].ts() != rec.ts());
                    } else if j < idx {
                        assert(post[i] == pre[i] && post[j] == pre[j]);
                    } else if i > idx {
                        assert(post[i] == pre[i - 1] && post[j] == pre[j - 1]);
                    }
                }
                assert forall|i: int|
                    0 <= i < pre.len() && #[trigger] pre[i].ts() != rec.ts() implies post.contains(
                    pre[i]) by {
                    if i < idx {
                        assert(post[i] == pre[i]);
                    } else {
                        assert(post[i + 1] == pre[i]);
                    }
                }
                assert forall|i: int|
                    0 <= i < post.len() implies #[trigger] post[i] == rec || pre.contains(
                    post[i]) by {
                    if i < idx {
                        assert(post[i] == pre[i]);
                        assert(pre.contains(pre[i]));
                    } else if i > idx {
                        assert(post[i] == pre[i - 1]);
                        assert(pre.contains(pre[i - 1]));
                    }
                }
            }
        }
    }

    /// The position where `q_ms` would be inserted to keep the fixes
    /// sorted: everything before it is strictly earlier, everything from it
    /// on is at or after the query.
    fn lower_bound(&self, q_ms: i64) -> (idx: usize)
        requires
            self.wf(),
        ensures
            0 <= idx <= self.fixes().len(),
            forall|i: int| 0 <= i < idx ==> self.fixes()[i].ts() < q_ms,
            forall|i: int| idx <= i < self.fixes().len() ==> self.fixes()[i].ts() >= q_ms,
    {
        let mut lo: usize = 0;
        let mut hi: usize = self.locations.len();
        proof {
            assert(self.fixes() == self.locations@);
        }
        while lo < hi
            invariant
                self.wf(),
                self.fixes() == self.locations@,
                0 <= lo <= hi <= self.fixes().len(),
                forall|i: int| 0 <= i < lo ==> self.fixes()[i].ts() < q_ms,
                forall|i: int| hi <= i < self.fixes().len() ==> self.fixes()[i].ts() >= q_ms,
            decreases hi - lo,
        {
            let mid: usize = lo + (hi - lo) / 2;
            if self.locations[mid].timestamp_ms < q_ms {
                proof {
                    assert forall|i: int| 0 <= i < mid + 1 implies self.fixes()[i].ts() < q_ms by {
                        if i < mid {
                            assert(self.fixes()[i].ts() < self.fixes()[mid as int].ts());
                        }
                    }
                }
                lo = mid + 1;
            } else {
                proof {
                    assert(self.fixes()[mid as int].ts() >= q_ms);
                    assert forall|i: int|
                        mid <= i < self.fixes().len() implies self.fixes()[i].ts() >= q_ms by {
                        if i > mid {
                            assert(self.fixes()[mid as int].ts() < self.fixes()[i].ts());
                        }
                    }
                }
                hi = mid;
            }
        }
        lo
    }

    /// The nearest-neighbour query of this older model: an exact hit
    /// returns that fix; otherwise the nearest recorded fix in time is
    /// returned, the earlier one on an exact tie — even when the query
    /// falls outside the recorded range. Only an empty history answers
    /// nothing.
    pub fn get_most_likely_location(&self, timestamp: i64) -> (r: Option<&Location>)
        requires
            self.wf(),
            fits_i64(timestamp * 1000),
            self.gml_fits(timestamp as int),
        ensures
            ({
                let s = self.gml_spec(timestamp as int);
                match r {
                    Some(l) => s == Some(*l),
                    None => s is None,
                }
            }),
    {
        let ghost q = timestamp * 1000;
        if self.locations.len() == 0 {
            return None;
        }
        let timestamp_ms: i64 = timestamp * 1000;
        let idx = self.lower_bound(timestamp_ms);
        if idx < self.locations.len() && self.locations[idx].timestamp_ms == timestamp_ms {
            proof {
                assert(self.fixes()[idx as int].ts() == q);
                assert(self.has_fix_at(q));
                let i = choose|i: int|
                    0 <= i < self.fixes().len() && self.fixes()[i].ts() == q;
                if i < idx {
                    assert(self.fixes()[i].ts() < self.fixes()[idx as int].ts());
                }
                if i > idx {
                    assert(self.fixes()[idx as int].ts() < self.fixes()[i].ts());
                }
            }
            Some(&self.locations[idx])
        } else if idx == 0 {
            proof {
                assert forall|i: int|
                    0 <= i < self.fixes().len() implies self.fixes()[i].ts() != q by {
                    if i > 0 {
                        assert(self.fixes()[0].ts() < self.fixes()[i].ts());
                    }
                }
            }
            Some(&self.locations[0])
        } else if idx == self.locations.len() {
            proof {
                let n = self.fixes().len() - 1;
                assert forall|i: int|
                    0 <= i < self.fixes().len() implies self.fixes()[i].ts() != q by {
                    if i < n {
                        assert(self.fixes()[i].ts() < self.fixes()[n].ts());
                    }
                }
            }
            Some(&self.locations[self.locations.len() - 1])
        } else {
            proof {
                assert(self.brackets(q, idx - 1));
                let i = self.bracket_idx(q);
                assert(self.brackets(q, i));
                if i + 1 <= idx - 1 {
                    assert(self.fixes()[i + 1].ts() <= self.fixes()[idx - 1].ts());
                }
                if idx <= i {
                    assert(self.fixes()[idx as int].ts() <= self.fixes()[i].ts());
                }
                assert(i == idx - 1);
                assert forall|k: int|
                    0 <= k < self.fixes().len() implies self.fixes()[k].ts() != q by {
                    if k >= idx && k != idx {
                        assert(self.fixes()[idx as int].ts() < self.fixes()[k].ts());
                    }
                }
                assert(q >= self.fixes()[0].ts());
                assert(q <= self.fixes()[self.fixes().len() - 1].ts());
            }
            let before_ts: i64 = self.locations[idx - 1].timestamp_ms;
            let after_ts: i64 = self.locations[idx].timestamp_ms;
            if timestamp_ms - before_ts > after_ts - timestamp_ms {
                Some(&self.locations[idx])
            } else {
                Some(&self.locations[idx - 1])
            }
        }
    }
}

/// Whether some fix in the sequence was recorded at this timestamp.
pub open spec fn seq_has_ts(fixes: Seq<Location>, t: int) -> bool {
    exists|i: int| 0 <= i < fixes.len() && fixes[i].ts() == t
}

} // verus!
