use crate::data_model::{Nv, NumberVal, Plot, TimeSeries, TimeSeriesEntry};
use crate::errors::HandlingError;
use crate::time_point::TimePoint;
use vstd::prelude::*;

verus! {

/// One plot row: id, globally unique name, description.
pub struct PlotRow {
    pub id: i64,
    pub name: String,
    pub description: String,
}

/// One time-series row, its entries nested, kept sorted ascending by time.
pub struct SeriesRow {
    pub id: i64,
    pub plot_id: i64,
    pub name: String,
    pub unit: String,
    pub entries: Vec<TimeSeriesEntry>,
}

/// Strictly ascending times: sorted, and no two entries share a time.
pub open spec fn entries_sorted(es: Seq<TimeSeriesEntry>) -> bool {
    forall|i: int, j: int|
        #![trigger es[i], es[j]]
        0 <= i < j < es.len() ==> es[i].time_point.spec_lt(es[j].time_point)
}

/// What one persisted sample amounts to: its time and the value's shape.
pub open spec fn entry_pair(e: TimeSeriesEntry) -> (TimePoint, Nv) {
    (e.time_point, e.value@)
}

/// The samples of a sequence of entries.
pub open spec fn entry_pairs(es: Seq<TimeSeriesEntry>) -> Seq<(TimePoint, Nv)> {
    es.map_values(|e: TimeSeriesEntry| entry_pair(e))
}

/// The samples that a time series supplies, index by index.
pub open spec fn sample_pairs(tps: Seq<TimePoint>, vals: Seq<Nv>) -> Seq<(TimePoint, Nv)> {
    Seq::new(tps.len(), |k: int| (tps[k], vals[k]))
}

/// Two supplied time points coincide: the batch cannot be stored.
pub open spec fn batch_dup(tps: Seq<TimePoint>) -> bool {
    exists|k1: int, k2: int| 0 <= k1 < k2 < tps.len() && tps[k1] == tps[k2]
}

/// The storage engine: three relational tables, held as the plot rows and
/// the series rows with their entries nested.  All operations keep `wf`.
pub struct Dao {
    pub plots: Vec<PlotRow>,
    pub series: Vec<SeriesRow>,
}

impl Dao {
    /// The storage invariant: ids are assigned densely in insertion order
    /// (so rows are ordered by id), plot names are non-empty and globally
    /// unique, `(plot_id, name)` is unique among series, every series points
    /// at an existing plot, and each series' entries are strictly sorted by
    /// time.
    pub open spec fn wf(self) -> bool {
        &&& forall|i: int| 0 <= i < self.plots@.len() ==> (#[trigger] self.plots@[i]).id == i + 1
        &&& forall|i: int| 0 <= i < self.plots@.len() ==> (#[trigger] self.plots@[i]).name@.len() > 0
        &&& forall|i: int, j: int|
            #![trigger self.plots@[i], self.plots@[j]]
            0 <= i < j < self.plots@.len() ==> self.plots@[i].name@ != self.plots@[j].name@
        &&& forall|i: int| 0 <= i < self.series@.len() ==> (#[trigger] self.series@[i]).id == i + 1
        &&& forall|i: int|
            0 <= i < self.series@.len() ==> 1 <= (#[trigger] self.series@[i]).plot_id
                <= self.plots@.len()
        &&& forall|i: int, j: int|
            #![trigger self.series@[i], self.series@[j]]
            0 <= i < j < self.series@.len() ==> !(self.series@[i].plot_id
                == self.series@[j].plot_id && self.series@[i].name@ == self.series@[j].name@)
        &&& forall|i: int|
            0 <= i < self.series@.len() ==> entries_sorted((#[trigger] self.series@[i]).entries@)
    }

    /// Opens a fresh, empty store.
    pub fn new_in_memory() -> (r: Result<Dao, HandlingError>)
        ensures
            r matches Ok(d) && d.plots@.len() == 0 && d.series@.len() == 0 && d.wf(),
    {
        Ok(Dao { plots: Vec::new(), series: Vec::new() })
    }

    /// Some plot already carries this name.
    pub open spec fn plot_name_taken(self, name: Seq<char>) -> bool {
        exists|i: int| 0 <= i < self.plots@.len() && (#[trigger] self.plots@[i]).name@ == name
    }

    /// Some series under this plot already carries this name.
    pub open spec fn series_name_taken(self, plot_id: i64, name: Seq<char>) -> bool {
        exists|i: int|
            0 <= i < self.series@.len() && (#[trigger] self.series@[i]).plot_id == plot_id
                && self.series@[i].name@ == name
    }

    fn plot_name_exists(&self, name: &String) -> (r: bool)
        ensures
            r == self.plot_name_taken(name@),
    {
        let mut i: usize = 0;
        while i < self.plots.len()
            invariant
                0 <= i <= self.plots@.len(),
                forall|j: int| 0 <= j < i ==> (#[trigger] self.plots@[j]).name@ != name@,
            decreases self.plots@.len() - i,
        {
            if self.plots[i].name.eq(name) {
                return true;
            }
            i = i + 1;
        }
        false
    }

    fn series_name_exists(&self, plot_id: i64, name: &String) -> (r: bool)
        ensures
            r == self.series_name_taken(plot_id, name@),
    {
        let mut i: usize = 0;
        while i < self.series.len()
            invariant
                0 <= i <= self.series@.len(),
                forall|j: int|
                    0 <= j < i ==> !((#[trigger] self.series@[j]).plot_id == plot_id
                        && self.series@[j].name@ == name@),
            decreases self.series@.len() - i,
        {
            if self.series[i].plot_id == plot_id && self.series[i].name.eq(name) {
                return true;
            }
            i = i + 1;
        }
        false
    }
}

/// Inserts one entry into a time-sorted sequence, keeping it sorted;
/// refuses an entry whose time is already present, leaving the sequence
/// unchanged.
fn insert_entry(entries: &mut Vec<TimeSeriesEntry>, e: TimeSeriesEntry) -> (r: Result<(), ()>)
    requires
        entries_sorted(old(entries)@),
    ensures
        match r {
            Ok(_) => {
                &&& entries_sorted(final(entries)@)
                &&& final(entries)@.len() == old(entries)@.len() + 1
                &&& forall|k: int|
                    0 <= k < old(entries)@.len() ==> (#[trigger] old(entries)@[k]).time_point
                        != e.time_point
                &&& forall|x: (TimePoint, Nv)|
                    entry_pairs(final(entries)@).contains(x) <==> (entry_pairs(
                        old(entries)@,
                    ).contains(x) || x == entry_pair(e))
            },
            Err(_) => *final(entries) == *old(entries) && exists|k: int|
                0 <= k < old(entries)@.len() && (#[trigger] old(entries)@[k]).time_point
                    == e.time_point,
        },
{
    let ghost orig = entries@;
    let mut i: usize = 0;
    while i < entries.len() && entries[i].time_point.lt(&e.time_point)
        invariant
            entries@ == orig,
            0 <= i <= entries@.len(),
            forall|j: int|
                0 <= j < i ==> (#[trigger] entries@[j]).time_point.spec_lt(e.time_point),
        decreases entries@.len() - i,
    {
        i = i + 1;
    }
    if i < entries.len() && entries[i].time_point == e.time_point {
        return Err(());
    }
    entries.insert(i, e);
    proof {
        orig.insert_ensures(i as int, e);
        assert forall|k: int| 0 <= k < orig.len() implies (#[trigger] orig[k]).time_point
            != e.time_point by {
            if k >= i {
                assert(orig[k].time_point == entries@[k + 1].time_point);
            }
        }
        assert forall|a: int, b: int|
            #![trigger entries@[a], entries@[b]]
            0 <= a < b < entries@.len() implies entries@[a].time_point.spec_lt(
            entries@[b].time_point,
        ) by {
            if b < i {
                assert(orig[a].time_point.spec_lt(orig[b].time_point));
            } else if a > i {
                assert(orig[a - 1].time_point.spec_lt(orig[b - 1].time_point));
            } else if a < i && b == i {
            } else if a < i && b > i {
                assert(orig[a].time_point.spec_lt(e.time_point));
                assert(entries@[b] == orig[b - 1]);
            } else if a == i && b > i {
                assert(entries@[b] == orig[b - 1]);
            }
        }
        let ghost ep = entry_pairs(entries@);
        let ghost op = entry_pairs(orig);
        assert forall|x: (TimePoint, Nv)| ep.contains(x) <==> (op.contains(x) || x == entry_pair(
            e,
        )) by {
            if ep.contains(x) {
                let m = choose|m: int| 0 <= m < ep.len() && ep[m] == x;
                if m < i {
                    assert(op[m] == x);
                } else if m == i {
                } else {
                    assert(op[m - 1] == x);
                }
            }
            if op.contains(x) {
                let m = choose|m: int| 0 <= m < op.len() && op[m] == x;
                if m < i {
                    assert(ep[m] == x);
                } else {
                    assert(entries@[m + 1] == orig[m]);
                    assert(ep[m + 1] == x);
                }
            }
            if x == entry_pair(e) {
                assert(ep[i as int] == x);
            }
        }
    }
    Ok(())
}

/// Builds the sorted entry list for a batch of parallel time points and
/// values; refuses a batch in which two time points coincide.
fn build_entries(tps: &Vec<TimePoint>, vals: &Vec<NumberVal>) -> (r: Result<
    Vec<TimeSeriesEntry>,
    (),
>)
    requires
        tps@.len() == vals@.len(),
    ensures
        match r {
            Ok(es) => {
                &&& !batch_dup(tps@)
                &&& entries_sorted(es@)
                &&& es@.len() == tps@.len()
                &&& forall|x: (TimePoint, Nv)|
                    entry_pairs(es@).contains(x) <==> sample_pairs(
                        tps@,
                        vals@.map_values(|n: NumberVal| n@),
                    ).contains(x)
            },
            Err(_) => batch_dup(tps@),
        },
{
    let ghost goal = sample_pairs(tps@, vals@.map_values(|n: NumberVal| n@));
    let mut es: Vec<TimeSeriesEntry> = Vec::new();
    let mut k: usize = 0;
    while k < tps.len()
        invariant
            tps@.len() == vals@.len(),
            goal == sample_pairs(tps@, vals@.map_values(|n: NumberVal| n@)),
            0 <= k <= tps@.len(),
            entries_sorted(es@),
            es@.len() == k,
            forall|x: (TimePoint, Nv)|
                entry_pairs(es@).contains(x) <==> goal.subrange(0, k as int).contains(x),
            forall|a: int, b: int| 0 <= a < b < k ==> tps@[a] != tps@[b],
        decreases tps@.len() - k,
    {
        let value = vals[k].dup();
        let e = TimeSeriesEntry { time_point: tps[k], value };
        let ghost before = es@;
        match insert_entry(&mut es, e) {
            Ok(_) => {
                proof {
                    assert forall|a: int| 0 <= a < k implies tps@[a] != tps@[k as int] by {
                        let x = goal[a];
                        assert(goal.subrange(0, k as int)[a] == x);
                        assert(entry_pairs(before).contains(x));
                        let m = choose|m: int|
                            0 <= m < before.len() && #[trigger] entry_pairs(before)[m] == x;
                        assert(before[m].time_point == tps@[a]);
                        assert(before[m].time_point != e.time_point);
                    }
                }
            },
            Err(_) => {
                proof {
                    let m = choose|m: int|
                        0 <= m < before.len() && (#[trigger] before[m]).time_point == e.time_point;
                    assert(entry_pairs(before)[m] == entry_pair(before[m]));
                    assert(entry_pairs(before).contains(entry_pairs(before)[m]));
                    let x = entry_pairs(before)[m];
                    assert(goal.subrange(0, k as int).contains(x));
                    let k1 = choose|k1: int|
                        0 <= k1 < k && #[trigger] goal.subrange(0, k as int)[k1] == x;
                    assert(goal[k1] == x);
                    assert(tps@[k1] == before[m].time_point);
                    assert(tps@[k1] == tps@[k as int]);
                }
                return Err(());
            },
        }
        proof {
            let sub1 = goal.subrange(0, k + 1 as int);
            assert forall|x: (TimePoint, Nv)| entry_pairs(es@).contains(x) <==> sub1.contains(
                x,
            ) by {
                assert(sub1[k as int] == goal[k as int]);
                assert(goal[k as int] == entry_pair(e));
                if entry_pairs(es@).contains(x) {
                    if x == entry_pair(e) {
                        assert(sub1.contains(sub1[k as int]));
                    } else {
                        assert(entry_pairs(before).contains(x));
                        let m = choose|m: int|
                            0 <= m < k && #[trigger] goal.subrange(0, k as int)[m] == x;
                        assert(sub1[m] == x);
                        assert(sub1.contains(sub1[m]));
                    }
                } else {
                    if sub1.contains(x) {
                        let m = choose|m: int| 0 <= m < sub1.len() && #[trigger] sub1[m] == x;
                        if m < k {
                            assert(goal.subrange(0, k as int)[m] == x);
                            assert(entry_pairs(before).contains(x));
                            assert(false);
                        } else {
                            assert(x == entry_pair(e));
                            assert(false);
                        }
                    }
                }
            }
        }
        k = k + 1;
    }
    proof {
        assert(goal.subrange(0, tps@.len() as int) =~= goal);
    }
    Ok(es)
}

/// Whether the date filter keeps an entry: with no start date every entry is
/// kept; with one, exactly the entries at or after it (inclusive).
pub open spec fn keep_entry(e: TimeSeriesEntry, start: Option<TimePoint>) -> bool {
    match start {
        None => true,
        Some(t) => t.spec_le(e.time_point),
    }
}

/// The entries that the date filter keeps, in their stored order.
pub open spec fn entries_from(es: Seq<TimeSeriesEntry>, start: Option<TimePoint>) -> Seq<
    TimeSeriesEntry,
>
    decreases es.len(),
{
    if es.len() == 0 {
        Seq::empty()
    } else {
        let pre = entries_from(es.subrange(0, es.len() - 1), start);
        if keep_entry(es[es.len() - 1], start) {
            pre.push(es[es.len() - 1])
        } else {
            pre
        }
    }
}

/// The date filter is exact and inclusive: it yields entries of the stored
/// sequence, all at or after the start date, and every stored entry at or
/// after the start date is among them.
pub proof fn lemma_entries_from_exact(es: Seq<TimeSeriesEntry>, start: Option<TimePoint>)
    ensures
        forall|m: int|
            0 <= m < entries_from(es, start).len() ==> keep_entry(
                #[trigger] entries_from(es, start)[m],
                start,
            ) && es.contains(entries_from(es, start)[m]),
        forall|k: int|
            0 <= k < es.len() && keep_entry(#[trigger] es[k], start) ==> entries_from(
                es,
                start,
            ).contains(es[k]),
    decreases es.len(),
{
    if es.len() > 0 {
        let sub = es.subrange(0, es.len() - 1);
        let pre = entries_from(sub, start);
        lemma_entries_from_exact(sub, start);
        assert forall|m: int| 0 <= m < entries_from(es, start).len() implies keep_entry(
            #[trigger] entries_from(es, start)[m],
            start,
        ) && es.contains(entries_from(es, start)[m]) by {
            if m < pre.len() {
                assert(entries_from(es, start)[m] == pre[m]);
                let i = choose|i: int| 0 <= i < sub.len() && sub[i] == pre[m];
                assert(es[i] == pre[m]);
            } else {
                assert(entries_from(es, start)[m] == es[es.len() - 1]);
                assert(es.contains(es[es.len() - 1]));
            }
        }
        assert forall|k: int|
            0 <= k < es.len() && keep_entry(#[trigger] es[k], start) implies entries_from(
            es,
            start,
        ).contains(es[k]) by {
            if k < es.len() - 1 {
                assert(sub[k] == es[k]);
                let m = choose|m: int| 0 <= m < pre.len() && pre[m] == sub[k];
                assert(entries_from(es, start)[m] == es[k]);
            } else {
                assert(entries_from(es, start).last() == es[k]);
            }
        }
    }
}

/// The date filter keeps the stored (ascending) order: filtering a strictly
/// time-sorted sequence yields a strictly time-sorted sequence.
pub proof fn lemma_entries_from_sorted(es: Seq<TimeSeriesEntry>, start: Option<TimePoint>)
    requires
        entries_sorted(es),
    ensures
        entries_sorted(entries_from(es, start)),
    decreases es.len(),
{
    if es.len() > 0 {
        let sub = es.subrange(0, es.len() - 1);
        let pre = entries_from(sub, start);
        lemma_entries_from_sorted(sub, start);
        lemma_entries_from_exact(sub, start);
        if keep_entry(es[es.len() - 1], start) {
            assert forall|a: int, b: int|
                #![trigger entries_from(es, start)[a], entries_from(es, start)[b]]
                0 <= a < b < entries_from(es, start).len() implies entries_from(
                es,
                start,
            )[a].time_point.spec_lt(entries_from(es, start)[b].time_point) by {
                if b < pre.len() {
                    assert(pre[a].time_point.spec_lt(pre[b].time_point));
                } else {
                    assert(entries_from(es, start)[b] == es[es.len() - 1]);
                    let i = choose|i: int| 0 <= i < sub.len() && sub[i] == pre[a];
                    assert(es[i].time_point.spec_lt(es[es.len() - 1].time_point));
                }
            }
        }
    }
}

/// The series rows that belong to one plot, in their stored (id) order.
pub open spec fn series_for(ss: Seq<SeriesRow>, plot_id: i64) -> Seq<SeriesRow>
    decreases ss.len(),
{
    if ss.len() == 0 {
        Seq::empty()
    } else {
        let pre = series_for(ss.subrange(0, ss.len() - 1), plot_id);
        if ss[ss.len() - 1].plot_id == plot_id {
            pre.push(ss[ss.len() - 1])
        } else {
            pre
        }
    }
}

/// Every row that `series_for` yields is a stored row of that plot.
pub proof fn lemma_series_for_elements(ss: Seq<SeriesRow>, plot_id: i64)
    ensures
        forall|m: int|
            0 <= m < series_for(ss, plot_id).len() ==> (#[trigger] series_for(ss, plot_id)[m]).plot_id
                == plot_id && ss.contains(series_for(ss, plot_id)[m]),
    decreases ss.len(),
{
    if ss.len() > 0 {
        let sub = ss.subrange(0, ss.len() - 1);
        let pre = series_for(sub, plot_id);
        lemma_series_for_elements(sub, plot_id);
        assert forall|m: int| 0 <= m < series_for(ss, plot_id).len() implies (#[trigger] series_for(
            ss,
            plot_id,
        )[m]).plot_id == plot_id && ss.contains(series_for(ss, plot_id)[m]) by {
            if m < pre.len() {
                assert(series_for(ss, plot_id)[m] == pre[m]);
                let i = choose|i: int| 0 <= i < sub.len() && sub[i] == pre[m];
                assert(ss[i] == pre[m]);
            } else {
                assert(series_for(ss, plot_id)[m] == ss[ss.len() - 1]);
                assert(ss.contains(ss[ss.len() - 1]));
            }
        }
    }
}

/// The series carries the row's metadata and no entries.
pub open spec fn shallow_series_matches(ts: crate::data_model::TimeSeriesV, row: SeriesRow) -> bool {
    &&& ts.id == row.id
    &&& ts.name == row.name@
    &&& ts.unit == row.unit@
    &&& ts.time_points.len() == 0
    &&& ts.values.len() == 0
}

/// The series carries the row's metadata and exactly the row's entries at
/// or after `start`, in stored (ascending) order.
pub open spec fn hydrated_series_matches(
    ts: crate::data_model::TimeSeriesV,
    row: SeriesRow,
    start: Option<TimePoint>,
) -> bool {
    let es = entries_from(row.entries@, start);
    &&& ts.id == row.id
    &&& ts.name == row.name@
    &&& ts.unit == row.unit@
    &&& ts.time_points == es.map_values(|e: TimeSeriesEntry| e.time_point)
    &&& ts.values == es.map_values(|e: TimeSeriesEntry| e.value@)
}

/// The stored row carries the given id and plot id, the series' metadata,
/// and exactly the series' samples, sorted ascending by time.
pub open spec fn stored_series_matches(
    row: SeriesRow,
    id: int,
    plot_id: int,
    ts: crate::data_model::TimeSeriesV,
) -> bool {
    &&& row.id == id
    &&& row.plot_id == plot_id
    &&& row.name@ == ts.name
    &&& row.unit@ == ts.unit
    &&& entries_sorted(row.entries@)
    &&& row.entries@.len() == ts.time_points.len()
    &&& forall|x: (TimePoint, Nv)|
        #[trigger] entry_pairs(row.entries@).contains(x) <==> sample_pairs(
            ts.time_points,
            ts.values,
        ).contains(x)
}

/// Which failure, if any, the plot creation reports for the series at
/// position `k` of the batch, when `series_count` series are stored already:
/// a length mismatch is a validation failure; a full id space, a name
/// already used by an earlier series of the batch, and a duplicated time
/// point within the series are storage failures.
pub open spec fn series_err_local(
    ss: Seq<crate::data_model::TimeSeriesV>,
    k: int,
    series_count: int,
) -> Option<i32> {
    if ss[k].time_points.len() != ss[k].values.len() {
        Some(420)
    } else if series_count + 1 > i64::MAX {
        Some(300)
    } else if exists|j: int| 0 <= j < k && (#[trigger] ss[j]).name == ss[k].name {
        Some(300)
    } else if batch_dup(ss[k].time_points) {
        Some(300)
    } else {
        None
    }
}

/// The first failure among the batch's series from position `k` on, with
/// `base` series stored before the batch.
pub open spec fn plot_batch_err(
    ss: Seq<crate::data_model::TimeSeriesV>,
    k: int,
    base: int,
) -> Option<i32>
    decreases ss.len() - k,
{
    if k < 0 || k >= ss.len() {
        None
    } else {
        match series_err_local(ss, k, base + k) {
            Some(c) => Some(c),
            None => plot_batch_err(ss, k + 1, base),
        }
    }
}

/// A batch with no failure up to position `k` fails exactly as it fails
/// from position `k` on.
proof fn lemma_plot_batch_err_step(
    ss: Seq<crate::data_model::TimeSeriesV>,
    from: int,
    k: int,
    base: int,
)
    requires
        0 <= from <= k <= ss.len(),
        forall|j: int| from <= j < k ==> #[trigger] series_err_local(ss, j, base + j) is None,
    ensures
        plot_batch_err(ss, from, base) == plot_batch_err(ss, k, base),
    decreases k - from,
{
    if from < k {
        lemma_plot_batch_err_step(ss, from + 1, k, base);
    }
}

/// Which failure, if any, `add_plot` reports for this request, in the order
/// the checks are made: an empty plot name, a taken plot name and a full id
/// space are storage failures; otherwise the first failure among the nested
/// series decides.
pub open spec fn spec_add_plot_err(dao: Dao, p: crate::data_model::PlotV) -> Option<i32> {
    if p.name.len() == 0 {
        Some(300)
    } else if dao.plot_name_taken(p.name) {
        Some(300)
    } else if dao.plots@.len() + 1 > i64::MAX {
        Some(300)
    } else {
        plot_batch_err(p.time_series, 0, dao.series@.len() as int)
    }
}

/// Which failure, if any, `add_time_series` reports for this request, in the
/// order the checks are made: a length mismatch is a validation failure; a
/// full id space, an unknown plot, a taken `(plot_id, name)` pair, and a
/// duplicated time point within the batch are storage failures.
pub open spec fn spec_add_series_err(
    dao: Dao,
    plot_id: i64,
    ts: crate::data_model::TimeSeriesV,
) -> Option<i32> {
    if ts.time_points.len() != ts.values.len() {
        Some(420)
    } else if dao.series@.len() + 1 > i64::MAX {
        Some(300)
    } else if !(1 <= plot_id <= dao.plots@.len()) {
        Some(300)
    } else if dao.series_name_taken(plot_id, ts.name) {
        Some(300)
    } else if batch_dup(ts.time_points) {
        Some(300)
    } else {
        None
    }
}

impl Dao {
    /// The sequence lengths of every stored table are bounded by the id
    /// space: ids are dense, so a row count never exceeds `i64::MAX`.
    proof fn lemma_len_bounds(self)
        requires
            self.wf(),
        ensures
            self.plots@.len() <= i64::MAX,
            self.series@.len() <= i64::MAX,
    {
        if self.plots@.len() > i64::MAX {
            assert(self.plots@[i64::MAX as int].id == i64::MAX + 1);
        }
        if self.series@.len() > i64::MAX {
            assert(self.series@[i64::MAX as int].id == i64::MAX + 1);
        }
    }

    /// Creates a time series under an existing plot, with all its supplied
    /// entries, in one transaction: on any failure nothing is stored.
    /// Returns the series with its assigned id.
    pub fn add_time_series(&mut self, plot_id: i64, time_series: &TimeSeries) -> (r: Result<
        TimeSeries,
        HandlingError,
    >)
        requires
            old(self).wf(),
        ensures
            final(self).wf(),
            match r {
                Ok(ts) => {
                    &&& spec_add_series_err(*old(self), plot_id, time_series@) is None
                    &&& final(self).plots@ == old(self).plots@
                    &&& final(self).series@.len() == old(self).series@.len() + 1
                    &&& final(self).series@.subrange(0, old(self).series@.len() as int) == old(
                        self,
                    ).series@
                    &&& final(self).series@.last().id == old(self).series@.len() + 1
                    &&& final(self).series@.last().plot_id == plot_id
                    &&& final(self).series@.last().name@ == time_series@.name
                    &&& final(self).series@.last().unit@ == time_series@.unit
                    &&& entries_sorted(final(self).series@.last().entries@)
                    &&& final(self).series@.last().entries@.len()
                        == time_series@.time_points.len()
                    &&& (forall|x: (TimePoint, Nv)|
                        entry_pairs(final(self).series@.last().entries@).contains(x)
                            <==> sample_pairs(
                            time_series@.time_points,
                            time_series@.values,
                        ).contains(x))
                    &&& ts.id == old(self).series@.len() + 1
                    &&& ts@.name == time_series@.name
                    &&& ts@.unit == time_series@.unit
                    &&& ts@.time_points == time_series@.time_points
                    &&& ts@.values == time_series@.values
                },
                Err(e) => {
                    &&& final(self).plots@ == old(self).plots@
                    &&& final(self).series@ == old(self).series@
                    &&& spec_add_series_err(*old(self), plot_id, time_series@) matches Some(code)
                        && e.code == code
                    &&& e.code == 420 ==> e.message@
                        == "Inconsistent number of time_points and values in TimeSeries."@
                    &&& e.code == 300 ==> e.message@ == "Database error"@
                },
            },
    {
        proof {
            old(self).lemma_len_bounds();
        }
        if time_series.time_points.len() != time_series.values.len() {
            return Err(HandlingError::validation_error());
        }
        if (self.series.len() as u64) >= (i64::MAX as u64) {
            return Err(HandlingError::storage_error());
        }
        if plot_id < 1 || (plot_id as u64) > (self.plots.len() as u64) {
            return Err(HandlingError::storage_error());
        }
        if self.series_name_exists(plot_id, &time_series.name) {
            return Err(HandlingError::storage_error());
        }
        let entries = match build_entries(&time_series.time_points, &time_series.values) {
            Ok(es) => es,
            Err(_) => {
                return Err(HandlingError::storage_error());
            },
        };
        let new_id: i64 = ((self.series.len() as u64) + 1) as i64;
        let row = SeriesRow {
            id: new_id,
            plot_id,
            name: time_series.name.clone(),
            unit: time_series.unit.clone(),
            entries,
        };
        let ghost old_series = self.series@;
        self.series.push(row);
        let mut ret = time_series.dup();
        ret.id = new_id;
        proof {
            assert(self.series@.subrange(0, old_series.len() as int) =~= old_series);
            assert forall|i: int, j: int|
                #![trigger self.series@[i], self.series@[j]]
                0 <= i < j < self.series@.len() implies !(self.series@[i].plot_id
                == self.series@[j].plot_id && self.series@[i].name@
                == self.series@[j].name@) by {
                if j == old_series.len() as int {
                    assert(self.series@[i] == old_series[i]);
                }
            }
            assert(ret@ =~= (crate::data_model::TimeSeriesV {
                id: new_id as int,
                ..time_series@
            }));
        }
        Ok(ret)
    }

    /// Creates a plot with its supplied nested series and their entries, in
    /// one transaction: on any failure nothing is stored.  Returns the plot
    /// with all ids assigned.
    pub fn add_plot(&mut self, plot: &Plot) -> (r: Result<Plot, HandlingError>)
        requires
            old(self).wf(),
        ensures
            final(self).wf(),
            match r {
                Ok(ret) => {
                    &&& spec_add_plot_err(*old(self), plot@) is None
                    &&& final(self).plots@.len() == old(self).plots@.len() + 1
                    &&& final(self).plots@.subrange(0, old(self).plots@.len() as int) == old(
                        self,
                    ).plots@
                    &&& final(self).plots@.last().id == old(self).plots@.len() + 1
                    &&& final(self).plots@.last().name@ == plot@.name
                    &&& final(self).plots@.last().description@ == plot@.description
                    &&& final(self).series@.len() == old(self).series@.len()
                        + plot@.time_series.len()
                    &&& final(self).series@.subrange(0, old(self).series@.len() as int) == old(
                        self,
                    ).series@
                    &&& (forall|k: int|
                        0 <= k < plot@.time_series.len() ==> stored_series_matches(
                            #[trigger] final(self).series@[old(self).series@.len() + k],
                            old(self).series@.len() + k + 1,
                            old(self).plots@.len() as int + 1,
                            plot@.time_series[k],
                        ))
                    &&& ret.id == old(self).plots@.len() + 1
                    &&& ret@.name == plot@.name
                    &&& ret@.description == plot@.description
                    &&& ret@.time_series.len() == plot@.time_series.len()
                    &&& (forall|k: int|
                        0 <= k < plot@.time_series.len() ==> #[trigger] ret@.time_series[k]
                            == (crate::data_model::TimeSeriesV {
                            id: old(self).series@.len() + k + 1,
                            ..plot@.time_series[k]
                        }))
                },
                Err(e) => {
                    &&& final(self).plots@ == old(self).plots@
                    &&& final(self).series@ == old(self).series@
                    &&& spec_add_plot_err(*old(self), plot@) matches Some(code) && e.code == code
                    &&& e.code == 420 ==> e.message@
                        == "Inconsistent number of time_points and values in TimeSeries."@
                    &&& e.code == 300 ==> e.message@ == "Database error"@
                },
            },
    {
        let ghost odao: Dao = *self;
        proof {
            odao.lemma_len_bounds();
        }
        if plot.name.as_str().is_empty() {
            return Err(HandlingError::storage_error());
        }
        if self.plot_name_exists(&plot.name) {
            return Err(HandlingError::storage_error());
        }
        if (self.plots.len() as u64) >= (i64::MAX as u64) {
            return Err(HandlingError::storage_error());
        }
        let new_id: i64 = ((self.plots.len() as u64) + 1) as i64;
        let ghost old_plots = self.plots@;
        let ghost old_series = self.series@;
        let ghost ss = plot@.time_series;
        let old_plots_len: usize = self.plots.len();
        let old_series_len: usize = self.series.len();
        self.plots.push(
            PlotRow {
                id: new_id,
                name: plot.name.clone(),
                description: plot.description.clone(),
            },
        );
        proof {
            assert(self.plots@.subrange(0, old_plots.len() as int) =~= old_plots);
            assert forall|i: int, j: int|
                #![trigger self.plots@[i], self.plots@[j]]
                0 <= i < j < self.plots@.len() implies self.plots@[i].name@
                != self.plots@[j].name@ by {
                if j == old_plots.len() as int {
                    assert(self.plots@[i] == old_plots[i]);
                }
            }
        }
        let mut ret_series: Vec<TimeSeries> = Vec::new();
        let mut k: usize = 0;
        while k < plot.time_series.len()
            invariant
                self.wf(),
                odao.wf(),
                odao == *old(self),
                !odao.plot_name_taken(plot@.name),
                odao.plots@.len() + 1 <= i64::MAX,
                old_plots == odao.plots@,
                old_series == odao.series@,
                ss == plot@.time_series,
                ss.len() == plot.time_series@.len(),
                old_plots_len == old_plots.len(),
                old_series_len == old_series.len(),
                0 <= k <= ss.len(),
                new_id == old_plots.len() + 1,
                self.plots@.len() == old_plots.len() + 1,
                self.plots@.subrange(0, old_plots.len() as int) == old_plots,
                self.plots@.last().id == new_id,
                self.plots@.last().name@ == plot@.name,
                self.plots@.last().description@ == plot@.description,
                self.series@.len() == old_series.len() + k,
                self.series@.subrange(0, old_series.len() as int) == old_series,
                forall|j: int|
                    0 <= j < k ==> stored_series_matches(
                        #[trigger] self.series@[old_series.len() + j],
                        old_series.len() + j + 1,
                        new_id as int,
                        ss[j],
                    ),
                forall|j: int|
                    0 <= j < k ==> #[trigger] series_err_local(
                        ss,
                        j,
                        old_series.len() + j,
                    ) is None,
                ret_series@.len() == k,
                forall|j: int|
                    0 <= j < k ==> #[trigger] ret_series@[j]@ == (crate::data_model::TimeSeriesV {
                        id: old_series.len() + j + 1,
                        ..ss[j]
                    }),
            decreases ss.len() - k,
        {
            let ghost dao_k = *self;
            let ghost tsv = plot.time_series@[k as int]@;
            proof {
                assert(tsv == ss[k as int]);
                assert(dao_k.series@.len() == old_series.len() + k);
                assert forall|j: int|
                    0 <= j < old_series.len() implies (#[trigger] dao_k.series@[j]).plot_id
                    != new_id by {
                    assert(dao_k.series@[j] == odao.series@[j]);
                    assert(odao.series@[j].plot_id <= odao.plots@.len());
                }
            }
            match self.add_time_series(new_id, &plot.time_series[k]) {
                Ok(ts) => {
                    proof {
                        assert(!dao_k.series_name_taken(new_id, tsv.name));
                        assert forall|j: int| 0 <= j < k implies (#[trigger] ss[j]).name
                            != ss[k as int].name by {
                            let row = dao_k.series@[old_series.len() + j];
                            assert(stored_series_matches(
                                row,
                                old_series.len() + j + 1,
                                new_id as int,
                                ss[j],
                            ));
                            assert(row.plot_id == new_id);
                        }
                        assert(series_err_local(ss, k as int, old_series.len() + k) is None);
                        assert(self.series@.subrange(0, old_series.len() as int)
                            =~= dao_k.series@.subrange(0, old_series.len() as int));
                        assert forall|j: int| 0 <= j < k implies stored_series_matches(
                            #[trigger] self.series@[old_series.len() + j],
                            old_series.len() + j + 1,
                            new_id as int,
                            ss[j],
                        ) by {
                            assert(self.series@[old_series.len() + j] == dao_k.series@.subrange(
                                0,
                                dao_k.series@.len() as int,
                            )[old_series.len() + j]);
                            assert(self.series@[old_series.len() + j] == dao_k.series@[old_series.len()
                                + j]);
                        }
                        assert(ts@ =~= (crate::data_model::TimeSeriesV {
                            id: old_series.len() + k + 1,
                            ..ss[k as int]
                        }));
                    }
                    ret_series.push(ts);
                },
                Err(e) => {
                    proof {
                        assert(spec_add_series_err(dao_k, new_id, tsv) matches Some(c) && e.code
                            == c);
                        if dao_k.series_name_taken(new_id, tsv.name) {
                            let i = choose|i: int|
                                0 <= i < dao_k.series@.len() && (#[trigger] dao_k.series@[i]).plot_id
                                    == new_id && dao_k.series@[i].name@ == tsv.name;
                            assert(i >= old_series.len());
                            let j = i - old_series.len();
                            assert(stored_series_matches(
                                dao_k.series@[old_series.len() + j],
                                old_series.len() + j + 1,
                                new_id as int,
                                ss[j],
                            ));
                            assert(ss[j].name == ss[k as int].name);
                        } else {
                            assert forall|j: int| 0 <= j < k implies (#[trigger] ss[j]).name
                                != ss[k as int].name by {
                                let row = dao_k.series@[old_series.len() + j];
                                assert(stored_series_matches(
                                    row,
                                    old_series.len() + j + 1,
                                    new_id as int,
                                    ss[j],
                                ));
                                assert(row.plot_id == new_id);
                            }
                        }
                        assert(series_err_local(ss, k as int, old_series.len() + k)
                            == spec_add_series_err(dao_k, new_id, tsv));
                        lemma_plot_batch_err_step(ss, 0, k as int, old_series.len() as int);
                        assert(plot_batch_err(ss, 0, old_series.len() as int) == series_err_local(
                            ss,
                            k as int,
                            old_series.len() + k,
                        ));
                    }
                    self.series.truncate(old_series_len);
                    self.plots.truncate(old_plots_len);
                    proof {
                        assert(self.series@ =~= old_series);
                        assert(self.plots@ =~= old_plots);
                    }
                    return Err(e);
                },
            }
            k = k + 1;
        }
        proof {
            lemma_plot_batch_err_step(ss, 0, ss.len() as int, old_series.len() as int);
        }
        let ret = Plot {
            id: new_id,
            name: plot.name.clone(),
            description: plot.description.clone(),
            time_series: ret_series,
        };
        proof {
            assert forall|k2: int| 0 <= k2 < ss.len() implies #[trigger] ret@.time_series[k2]
                == (crate::data_model::TimeSeriesV {
                id: old_series.len() + k2 + 1,
                ..ss[k2]
            }) by {
                assert(ret@.time_series[k2] == ret.time_series@[k2]@);
            }
        }
        Ok(ret)
    }

    /// Appends one entry to an existing time series; fails when the series
    /// is unknown or when it already holds an entry at that time, leaving
    /// the store unchanged.
    pub fn add_entry(&mut self, time_series_id: i64, entry: &TimeSeriesEntry) -> (r: Result<
        (),
        HandlingError,
    >)
        requires
            old(self).wf(),
        ensures
            final(self).wf(),
            match r {
                Ok(_) => {
                    &&& 1 <= time_series_id <= old(self).series@.len()
                    &&& final(self).plots@ == old(self).plots@
                    &&& final(self).series@.len() == old(self).series@.len()
                    &&& (forall|i: int|
                        0 <= i < old(self).series@.len() && i != time_series_id - 1
                            ==> final(self).series@[i] == old(self).series@[i])
                    &&& final(self).series@[time_series_id - 1].id == old(
                        self,
                    ).series@[time_series_id - 1].id
                    &&& final(self).series@[time_series_id - 1].plot_id == old(
                        self,
                    ).series@[time_series_id - 1].plot_id
                    &&& final(self).series@[time_series_id - 1].name == old(
                        self,
                    ).series@[time_series_id - 1].name
                    &&& final(self).series@[time_series_id - 1].unit == old(
                        self,
                    ).series@[time_series_id - 1].unit
                    &&& entries_sorted(final(self).series@[time_series_id - 1].entries@)
                    &&& final(self).series@[time_series_id - 1].entries@.len() == old(
                        self,
                    ).series@[time_series_id - 1].entries@.len() + 1
                    &&& (forall|k: int|
                        0 <= k < old(self).series@[time_series_id - 1].entries@.len() ==> (
                        #[trigger] old(self).series@[time_series_id - 1].entries@[k]).time_point
                            != entry.time_point)
                    &&& (forall|x: (TimePoint, Nv)|
                        #[trigger] entry_pairs(
                            final(self).series@[time_series_id - 1].entries@,
                        ).contains(x) <==> (entry_pairs(
                            old(self).series@[time_series_id - 1].entries@,
                        ).contains(x) || x == entry_pair(*entry)))
                },
                Err(e) => {
                    &&& final(self).plots@ == old(self).plots@
                    &&& final(self).series@ == old(self).series@
                    &&& e.code == 300
                    &&& if !(1 <= time_series_id <= old(self).series@.len()) {
                        e.message@ == "Not found"@
                    } else {
                        (exists|k: int|
                            0 <= k < old(self).series@[time_series_id - 1].entries@.len() && (
                            #[trigger] old(
                                self,
                            ).series@[time_series_id - 1].entries@[k]).time_point
                                == entry.time_point) && e.message@ == "Database error"@
                    }
                },
            },
    {
        proof {
            old(self).lemma_len_bounds();
        }
        if time_series_id < 1 || (time_series_id as u64) > (self.series.len() as u64) {
            return Err(HandlingError::not_found());
        }
        let idx: usize = (time_series_id - 1) as usize;
        let ghost old_series = self.series@;
        let mut row = self.series.remove(idx);
        let e = TimeSeriesEntry { time_point: entry.time_point, value: entry.value.dup() };
        let inserted = insert_entry(&mut row.entries, e);
        self.series.insert(idx, row);
        proof {
            assert(self.series@ =~= old_series.update(idx as int, self.series@[idx as int]));
        }
        match inserted {
            Ok(_) => {
                proof {
                    assert(entry_pair(e) == entry_pair(*entry));
                }
                Ok(())
            },
            Err(_) => {
                proof {
                    assert(self.series@ =~= old_series);
                }
                Err(HandlingError::storage_error())
            },
        }
    }

    /// Loads a plot shallow: metadata only, no series.
    pub fn get_plot(&self, id: i64) -> (r: Result<Plot, HandlingError>)
        requires
            self.wf(),
        ensures
            match r {
                Ok(p) => {
                    &&& 1 <= id <= self.plots@.len()
                    &&& p.id == id
                    &&& p@.name == self.plots@[id - 1].name@
                    &&& p@.description == self.plots@[id - 1].description@
                    &&& p@.time_series.len() == 0
                },
                Err(e) => !(1 <= id <= self.plots@.len()) && e.code == 300 && e.message@
                    == "Not found"@,
            },
    {
        proof {
            self.lemma_len_bounds();
        }
        if id < 1 || (id as u64) > (self.plots.len() as u64) {
            return Err(HandlingError::not_found());
        }
        let idx: usize = (id - 1) as usize;
        Ok(
            Plot {
                id,
                name: self.plots[idx].name.clone(),
                description: self.plots[idx].description.clone(),
                time_series: Vec::new(),
            },
        )
    }

    /// Loads every plot, shallow, ordered by id ascending.
    pub fn get_all_plots(&self) -> (r: Result<Vec<Plot>, HandlingError>)
        requires
            self.wf(),
        ensures
            r matches Ok(ps) && ps@.len() == self.plots@.len() && (forall|i: int|
                0 <= i < ps@.len() ==> {
                    &&& (#[trigger] ps@[i]).id == i + 1
                    &&& ps@[i]@.name == self.plots@[i].name@
                    &&& ps@[i]@.description == self.plots@[i].description@
                    &&& ps@[i]@.time_series.len() == 0
                }),
    {
        let mut ret: Vec<Plot> = Vec::new();
        let mut i: usize = 0;
        while i < self.plots.len()
            invariant
                self.wf(),
                0 <= i <= self.plots@.len(),
                ret@.len() == i,
                forall|j: int|
                    0 <= j < i ==> {
                        &&& (#[trigger] ret@[j]).id == j + 1
                        &&& ret@[j]@.name == self.plots@[j].name@
                        &&& ret@[j]@.description == self.plots@[j].description@
                        &&& ret@[j]@.time_series.len() == 0
                    },
            decreases self.plots@.len() - i,
        {
            let p = Plot {
                id: self.plots[i].id,
                name: self.plots[i].name.clone(),
                description: self.plots[i].description.clone(),
                time_series: Vec::new(),
            };
            ret.push(p);
            i = i + 1;
        }
        Ok(ret)
    }

    /// Loads one time series shallow: metadata only, no entries.
    pub fn get_time_series(&self, id: i64) -> (r: Result<TimeSeries, HandlingError>)
        requires
            self.wf(),
        ensures
            match r {
                Ok(ts) => {
                    &&& 1 <= id <= self.series@.len()
                    &&& ts.id == id
                    &&& ts@.name == self.series@[id - 1].name@
                    &&& ts@.unit == self.series@[id - 1].unit@
                    &&& ts@.time_points.len() == 0
                    &&& ts@.values.len() == 0
                },
                Err(e) => !(1 <= id <= self.series@.len()) && e.code == 300 && e.message@
                    == "Not found"@,
            },
    {
        proof {
            self.lemma_len_bounds();
        }
        if id < 1 || (id as u64) > (self.series.len() as u64) {
            return Err(HandlingError::not_found());
        }
        let idx: usize = (id - 1) as usize;
        let ts = TimeSeries {
            id,
            name: self.series[idx].name.clone(),
            unit: self.series[idx].unit.clone(),
            time_points: Vec::new(),
            values: Vec::new(),
        };
        proof {
            assert(ts@.values =~= Seq::<Nv>::empty());
        }
        Ok(ts)
    }

    /// Appends to `plot.time_series` one shallow series for every stored
    /// series under `plot.id`, in stored (id) order.
    pub fn get_time_series_for_plot(&self, plot: &mut Plot) -> (r: Result<(), HandlingError>)
        requires
            self.wf(),
        ensures
            r is Ok,
            final(plot).id == old(plot).id,
            final(plot).name == old(plot).name,
            final(plot).description == old(plot).description,
            final(plot).time_series@.len() == old(plot).time_series@.len() + series_for(
                self.series@,
                old(plot).id,
            ).len(),
            final(plot).time_series@.subrange(0, old(plot).time_series@.len() as int) == old(
                plot,
            ).time_series@,
            forall|k: int|
                old(plot).time_series@.len() <= k < final(plot).time_series@.len()
                    ==> shallow_series_matches(
                    (#[trigger] final(plot).time_series@[k])@,
                    series_for(self.series@, old(plot).id)[k - old(plot).time_series@.len()],
                ),
    {
        let ghost old_ts = plot.time_series@;
        let pid = plot.id;
        let mut i: usize = 0;
        while i < self.series.len()
            invariant
                self.wf(),
                0 <= i <= self.series@.len(),
                plot.id == pid,
                plot.time_series@.len() == old_ts.len() + series_for(
                    self.series@.subrange(0, i as int),
                    pid,
                ).len(),
                plot.time_series@.subrange(0, old_ts.len() as int) == old_ts,
                forall|k: int|
                    old_ts.len() <= k < plot.time_series@.len() ==> shallow_series_matches(
                        (#[trigger] plot.time_series@[k])@,
                        series_for(self.series@.subrange(0, i as int), pid)[k - old_ts.len()],
                    ),
                plot.name == old(plot).name,
                plot.description == old(plot).description,
            decreases self.series@.len() - i,
        {
            proof {
                assert(self.series@.subrange(0, i + 1 as int).subrange(0, i as int)
                    =~= self.series@.subrange(0, i as int));
                assert(self.series@.subrange(0, i + 1 as int)[i as int] == self.series@[i as int]);
            }
            if self.series[i].plot_id == pid {
                let ts = TimeSeries {
                    id: self.series[i].id,
                    name: self.series[i].name.clone(),
                    unit: self.series[i].unit.clone(),
                    time_points: Vec::new(),
                    values: Vec::new(),
                };
                proof {
                    assert(ts@.values =~= Seq::<Nv>::empty());
                }
                plot.time_series.push(ts);
                proof {
                    assert(plot.time_series@.subrange(0, old_ts.len() as int) =~= old_ts);
                }
            }
            i = i + 1;
        }
        proof {
            assert(self.series@.subrange(0, self.series@.len() as int) =~= self.series@);
        }
        Ok(())
    }

    /// Appends to the series' point and value lists every stored entry of
    /// the series at or after `start_date` (all entries when it is absent),
    /// ordered ascending by time.  An unknown series id appends nothing.
    pub fn get_entries_for_time_series(
        &self,
        time_series: &mut TimeSeries,
        start_date: Option<TimePoint>,
    ) -> (r: Result<(), HandlingError>)
        requires
            self.wf(),
        ensures
            r is Ok,
            final(time_series).id == old(time_series).id,
            final(time_series).name == old(time_series).name,
            final(time_series).unit == old(time_series).unit,
            1 <= old(time_series).id <= self.series@.len() ==> {
                let es = entries_from(
                    self.series@[old(time_series).id - 1].entries@,
                    start_date,
                );
                &&& final(time_series).time_points@ == old(time_series).time_points@
                    + es.map_values(|e: TimeSeriesEntry| e.time_point)
                &&& final(time_series)@.values == old(time_series)@.values + es.map_values(
                    |e: TimeSeriesEntry| e.value@,
                )
                &&& (forall|a: int, b: int|
                    #![trigger final(time_series).time_points@[a], final(time_series).time_points@[b]]
                    old(time_series).time_points@.len() <= a < b
                        < final(time_series).time_points@.len()
                        ==> final(time_series).time_points@[a].spec_lt(
                        final(time_series).time_points@[b],
                    ))
            },
            !(1 <= old(time_series).id <= self.series@.len()) ==> {
                &&& final(time_series).time_points@ == old(time_series).time_points@
                &&& final(time_series)@.values == old(time_series)@.values
            },
    {
        proof {
            self.lemma_len_bounds();
        }
        if time_series.id < 1 || (time_series.id as u64) > (self.series.len() as u64) {
            proof {
                assert(final(time_series)@.values =~= old(time_series)@.values);
            }
            return Ok(());
        }
        let idx: usize = (time_series.id - 1) as usize;
        let row = &self.series[idx];
        let ghost old_tps = time_series.time_points@;
        let ghost old_vals = time_series@.values;
        let mut i: usize = 0;
        while i < row.entries.len()
            invariant
                0 <= i <= row.entries@.len(),
                time_series.id == old(time_series).id,
                time_series.name == old(time_series).name,
                time_series.unit == old(time_series).unit,
                time_series.time_points@ == old_tps + entries_from(
                    row.entries@.subrange(0, i as int),
                    start_date,
                ).map_values(|e: TimeSeriesEntry| e.time_point),
                time_series@.values == old_vals + entries_from(
                    row.entries@.subrange(0, i as int),
                    start_date,
                ).map_values(|e: TimeSeriesEntry| e.value@),
            decreases row.entries@.len() - i,
        {
            let ghost prefix = row.entries@.subrange(0, i as int);
            let ghost next = row.entries@.subrange(0, i + 1 as int);
            proof {
                assert(next.subrange(0, i as int) =~= prefix);
                assert(next[i as int] == row.entries@[i as int]);
            }
            let e = &row.entries[i];
            let kept = match &start_date {
                None => true,
                Some(t) => t.le(&e.time_point),
            };
            if kept {
                time_series.time_points.push(e.time_point);
                let v = e.value.dup();
                let ghost vals_before = time_series.values@;
                time_series.values.push(v);
                proof {
                    assert(entries_from(next, start_date) == entries_from(
                        prefix,
                        start_date,
                    ).push(row.entries@[i as int]));
                    assert(time_series.time_points@ =~= old_tps + entries_from(
                        next,
                        start_date,
                    ).map_values(|e: TimeSeriesEntry| e.time_point));
                    assert(time_series.values@.map_values(|n: NumberVal| n@)
                        =~= vals_before.map_values(|n: NumberVal| n@).push(
                        row.entries@[i as int].value@,
                    ));
                    assert(entries_from(next, start_date).map_values(
                        |e: TimeSeriesEntry| e.value@,
                    ) =~= entries_from(prefix, start_date).map_values(
                        |e: TimeSeriesEntry| e.value@,
                    ).push(row.entries@[i as int].value@));
                    assert(time_series@.values =~= old_vals + entries_from(
                        next,
                        start_date,
                    ).map_values(|e: TimeSeriesEntry| e.value@));
                }
            } else {
                proof {
                    assert(entries_from(next, start_date) == entries_from(prefix, start_date));
                }
            }
            i = i + 1;
        }
        proof {
            assert(row.entries@.subrange(0, row.entries@.len() as int) =~= row.entries@);
            lemma_entries_from_sorted(row.entries@, start_date);
            let es = entries_from(row.entries@, start_date);
            assert forall|a: int, b: int|
                #![trigger time_series.time_points@[a], time_series.time_points@[b]]
                old_tps.len() <= a < b < time_series.time_points@.len() implies
                time_series.time_points@[a].spec_lt(time_series.time_points@[b]) by {
                let ma = a - old_tps.len();
                let mb = b - old_tps.len();
                assert(es[ma].time_point.spec_lt(es[mb].time_point));
                assert(time_series.time_points@[a] == es.map_values(
                    |e: TimeSeriesEntry| e.time_point,
                )[ma]);
            }
        }
        Ok(())
    }

    /// Loads a plot with its series and their entries hydrated, entries
    /// filtered by `start_date` when it is given.
    pub fn get_plot_with_data(&self, id: i64, start_date: Option<TimePoint>) -> (r: Result<
        Plot,
        HandlingError,
    >)
        requires
            self.wf(),
        ensures
            match r {
                Ok(p) => {
                    &&& 1 <= id <= self.plots@.len()
                    &&& p.id == id
                    &&& p@.name == self.plots@[id - 1].name@
                    &&& p@.description == self.plots@[id - 1].description@
                    &&& p@.time_series.len() == series_for(self.series@, id).len()
                    &&& forall|k: int|
                        0 <= k < series_for(self.series@, id).len() ==> hydrated_series_matches(
                            #[trigger] p@.time_series[k],
                            series_for(self.series@, id)[k],
                            start_date,
                        )
                },
                Err(e) => !(1 <= id <= self.plots@.len()) && e.code == 300 && e.message@
                    == "Not found"@,
            },
    {
        let mut plot = match self.get_plot(id) {
            Ok(p) => p,
            Err(e) => {
                return Err(e);
            },
        };
        self.get_time_series_for_plot(&mut plot)?;
        proof {
            lemma_series_for_elements(self.series@, id);
        }
        let ghost rows = series_for(self.series@, id);
        let mut k: usize = 0;
        while k < plot.time_series.len()
            invariant
                self.wf(),
                rows == series_for(self.series@, id),
                plot.time_series@.len() == rows.len(),
                forall|m: int|
                    0 <= m < rows.len() ==> (#[trigger] rows[m]).plot_id == id
                        && self.series@.contains(rows[m]),
                0 <= k <= rows.len(),
                forall|m: int|
                    k <= m < rows.len() ==> shallow_series_matches(
                        (#[trigger] plot.time_series@[m])@,
                        rows[m],
                    ),
                forall|m: int|
                    0 <= m < k ==> hydrated_series_matches(
                        (#[trigger] plot.time_series@[m])@,
                        rows[m],
                        start_date,
                    ),
                plot.id == id,
                1 <= id <= self.plots@.len(),
                plot@.name == self.plots@[id - 1].name@,
                plot@.description == self.plots@[id - 1].description@,
            decreases rows.len() - k,
        {
            let mut ts = plot.time_series.remove(k);
            proof {
                let i = choose|i: int|
                    0 <= i < self.series@.len() && self.series@[i] == rows[k as int];
                assert(self.series@[i].id == i + 1);
                assert(self.series@[rows[k as int].id - 1] == rows[k as int]);
            }
            self.get_entries_for_time_series(&mut ts, start_date)?;
            plot.time_series.insert(k, ts);
            proof {
                assert(plot.time_series@.len() == rows.len());
            }
            k = k + 1;
        }
        Ok(plot)
    }
}

} // verus!
