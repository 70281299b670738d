//! The dashboard's event list: events newest first, and the visible ones
//! grouped into runs of one day each.
use vstd::prelude::*;
use crate::aggregate::{MAX_EVENTS, all_wf, duration, event_minutes};
use crate::date::Date;
use crate::filter::{Filter, FilterView, active_filters, passes, passes_all};
use crate::schema::events_view;
use crate::store::{Event, EventView};

verus! {

broadcast use vstd::seq_lib::to_multiset_insert, vstd::seq_lib::group_to_multiset_ensures,
    vstd::multiset::group_multiset_axioms;

/// Whether `a` started strictly earlier than `b` (by date, then start
/// time).
pub open spec fn started_before(a: Event, b: Event) -> bool {
    let (x, y) = (a.date, b.date);
    x.year < y.year || (x.year == y.year && (x.month < y.month || (x.month == y.month && (x.day
        < y.day || (x.day == y.day && a.start_time.minute_of_day() < b.start_time.minute_of_day())))))
}

/// Whether `s` lists events newest first.
pub open spec fn newest_first(s: Seq<Event>) -> bool {
    forall|i: int, j: int| 0 <= i < j < s.len() ==> !started_before(#[trigger] s[i], #[trigger] s[j])
}

fn is_started_before(a: &Event, b: &Event) -> (r: bool)
    ensures
        r == started_before(*a, *b),
{
    let am: u32 = a.start_time.hour as u32 * 60 + a.start_time.minute as u32;
    let bm: u32 = b.start_time.hour as u32 * 60 + b.start_time.minute as u32;
    a.date.year < b.date.year || (a.date.year == b.date.year && (a.date.month < b.date.month || (
    a.date.month == b.date.month && (a.date.day < b.date.day || (a.date.day == b.date.day && am
        < bm)))))
}

/// The position at which `e` enters `s`: after every event of the prefix
/// that did not start earlier than `e`.
pub open spec fn insertion_point(s: Seq<Event>, e: Event) -> int
    decreases s.len(),
{
    if s.len() == 0 {
        0
    } else if started_before(s[0], e) {
        0
    } else {
        1 + insertion_point(s.drop_first(), e)
    }
}

/// The events of `s` inserted one by one, in order, each at its insertion
/// point: newest first, and events that started at the same moment in
/// their order in `s`.
pub open spec fn newest_first_order(s: Seq<Event>) -> Seq<Event>
    decreases s.len(),
{
    if s.len() == 0 {
        s
    } else {
        let r = newest_first_order(s.drop_last());
        r.insert(insertion_point(r, s.last()), s.last())
    }
}

proof fn lemma_insertion_point(s: Seq<Event>, e: Event, p: int)
    requires
        0 <= p <= s.len(),
        forall|k: int| 0 <= k < p ==> !started_before(#[trigger] s[k], e),
        p < s.len() ==> started_before(s[p], e),
    ensures
        insertion_point(s, e) == p,
    decreases s.len(),
{
    if s.len() > 0 && p > 0 {
        assert forall|k: int| 0 <= k < p - 1 implies !started_before(#[trigger] s.drop_first()[k], e) by {
            assert(s.drop_first()[k] == s[k + 1]);
        }
        if p < s.len() {
            assert(s.drop_first()[p - 1] == s[p]);
        }
        assert(!started_before(s[0], e));
        lemma_insertion_point(s.drop_first(), e, p - 1);
    }
}

/// The same events, newest first; events that started at the same moment
/// keep their order.
pub fn sort_newest_first(events: Vec<Event>) -> (r: Vec<Event>)
    ensures
        r@ == newest_first_order(events@),
        newest_first(r@),
        r@.to_multiset() == events@.to_multiset(),
{
    let mut rest = events;
    let mut r: Vec<Event> = Vec::new();
    proof {
        vstd::multiset::lemma_multiset_empty_len(r@.to_multiset());
    }
    assert(r@.to_multiset().add(rest@.to_multiset()) =~= events@.to_multiset());
    let ghost n = events@.len();
    assert(events@.take(0) =~= Seq::<Event>::empty());
    while rest.len() > 0
        invariant
            newest_first(r@),
            r@.to_multiset().add(rest@.to_multiset()) == events@.to_multiset(),
            n == events@.len(),
            rest@.len() <= n,
            rest@ == events@.skip(n - rest@.len()),
            r@ == newest_first_order(events@.take(n - rest@.len())),
        decreases rest@.len(),
    {
        let ghost rest0 = rest@;
        let ghost done = n - rest0.len();
        assert(rest0[0] == events@[done]);
        let e = rest.remove(0);
        let mut p: usize = 0;
        while p < r.len() && !is_started_before(&r[p], &e)
            invariant
                p <= r@.len(),
                forall|k: int| 0 <= k < p ==> !started_before(#[trigger] r@[k], e),
            decreases r@.len() - p,
        {
            p = p + 1;
        }
        let ghost before = r@;
        let ghost ev = e;
        r.insert(p, e);
        assert(r@ == before.insert(p as int, ev));
        proof {
            lemma_insertion_point(before, ev, p as int);
            let t = events@.take(done + 1);
            assert(t.drop_last() =~= events@.take(done));
            assert(t.last() == ev);
            assert(rest@ =~= events@.skip(done + 1)) by {
                assert(rest@ == rest0.remove(0));
            }
        }
        assert forall|i: int, j: int| 0 <= i < j < r@.len() implies !started_before(
            #[trigger] r@[i],
            #[trigger] r@[j],
        ) by {
            if i < p && j > p {
                assert(r@[i] == before[i] && r@[j] == before[j - 1]);
            } else if i == p && j > p {
                assert(started_before(before[p as int], ev));
                assert(r@[j] == before[j - 1]);
                if j - 1 > p {
                    assert(!started_before(before[p as int], before[j - 1]));
                }
            } else if i > p {
                assert(r@[i] == before[i - 1] && r@[j] == before[j - 1]);
            } else if j == p {
                assert(r@[i] == before[i]);
            } else {
                assert(r@[i] == before[i] && r@[j] == before[j]);
            }
        }
        assert(rest@ == rest0.remove(0));
        assert(rest0.to_multiset().count(ev) > 0) by {
            assert(rest0.contains(ev));
        }
        assert(r@.to_multiset().add(rest@.to_multiset()) =~= events@.to_multiset());
    }
    proof {
        vstd::multiset::lemma_multiset_empty_len(rest@.to_multiset());
    }
    assert(events@.take(n as int) =~= events@);
    assert(r@.to_multiset().add(rest@.to_multiset()) =~= r@.to_multiset());
    r
}

/// The indices, in order, of the first `n` events of `es` that meet every
/// filter of `fs`.
pub open spec fn visible_upto(es: Seq<EventView>, fs: Seq<FilterView>, n: int) -> Seq<usize>
    decreases n,
{
    if n <= 0 {
        Seq::empty()
    } else if passes_all(fs, es[n - 1]) {
        visible_upto(es, fs, n - 1).push((n - 1) as usize)
    } else {
        visible_upto(es, fs, n - 1)
    }
}

/// The indices, in order, of the events that meet every filter in force.
pub fn visible_indices(events: &Vec<Event>, applied: &Vec<Filter>, editing: &Option<Filter>) -> (r: Vec<usize>)
    ensures
        r@ == visible_upto(events_view(events@), active_filters(applied@, *editing), events@.len() as int),
{
    let ghost es = events_view(events@);
    let ghost fs = active_filters(applied@, *editing);
    let mut r: Vec<usize> = Vec::new();
    let mut i: usize = 0;
    while i < events.len()
        invariant
            i <= events@.len(),
            es == events_view(events@),
            fs == active_filters(applied@, *editing),
            r@ == visible_upto(es, fs, i as int),
        decreases events@.len() - i,
    {
        assert(es[i as int] == events@[i as int]@);
        if passes(applied, editing, &events[i]) {
            r.push(i);
        }
        i = i + 1;
    }
    r
}

/// A run of consecutive visible events on one day: positions `first..end`
/// of the visible list, and their minutes.
pub struct DayRun {
    pub date: Date,
    pub minutes: u64,
    pub first: usize,
    pub end: usize,
}

/// The minutes of the events that positions `a..b` of `vis` point at.
pub open spec fn run_minutes(es: Seq<EventView>, vis: Seq<usize>, a: int, b: int) -> int
    decreases b - a,
{
    if b <= a {
        0
    } else {
        run_minutes(es, vis, a, b - 1) + duration(es[vis[b - 1] as int])
    }
}

/// Whether `runs` cuts `vis` into maximal runs of one date each, in order,
/// with the minutes of each.
pub open spec fn runs_of(es: Seq<EventView>, vis: Seq<usize>, runs: Seq<DayRun>) -> bool {
    &&& vis.len() == 0 ==> runs.len() == 0
    &&& vis.len() > 0 ==> runs.len() > 0 && runs[0].first == 0 && runs.last().end == vis.len()
    &&& forall|k: int| 0 <= k < runs.len() ==> (#[trigger] runs[k]).first < runs[k].end
    &&& forall|k: int| 0 < k < runs.len() ==> (#[trigger] runs[k]).first == runs[k - 1].end
    &&& forall|k: int| 0 < k < runs.len() ==> (#[trigger] runs[k]).date != runs[k - 1].date
    &&& forall|k: int, j: int| 0 <= k < runs.len() && runs[k].first <= j < runs[k].end
        ==> es[(#[trigger] vis[j]) as int].date == (#[trigger] runs[k]).date
    &&& forall|k: int| 0 <= k < runs.len() ==> (#[trigger] runs[k]).minutes as int
        == run_minutes(es, vis, runs[k].first as int, runs[k].end as int)
}

/// Cuts the visible list `vis` into runs of one day each, for a list sorted
/// by date.
pub fn day_runs(events: &Vec<Event>, vis: &Vec<usize>) -> (r: Vec<DayRun>)
    requires
        events@.len() <= MAX_EVENTS,
        vis@.len() <= events@.len(),
        all_wf(events_view(events@)),
        forall|j: int| 0 <= j < vis@.len() ==> vis@[j] < events@.len(),
    ensures
        runs_of(events_view(events@), vis@, r@),
{
    let ghost es = events_view(events@);
    let mut r: Vec<DayRun> = Vec::new();
    let mut j: usize = 0;
    while j < vis.len()
        invariant
            j <= vis@.len(),
            vis@.len() <= events@.len(),
            events@.len() <= MAX_EVENTS,
            es == events_view(events@),
            all_wf(es),
            forall|m: int| 0 <= m < vis@.len() ==> vis@[m] < events@.len(),
            j == 0 ==> r@.len() == 0,
            j > 0 ==> r@.len() > 0 && r@[0].first == 0 && r@.last().end == j,
            r@.len() > 0 ==> r@.last().date == es[vis@[j - 1] as int].date,
            forall|k: int| 0 <= k < r@.len() ==> (#[trigger] r@[k]).first < r@[k].end,
            forall|k: int| 0 < k < r@.len() ==> (#[trigger] r@[k]).first == r@[k - 1].end,
            forall|k: int| 0 < k < r@.len() ==> (#[trigger] r@[k]).date != r@[k - 1].date,
            forall|k: int, m: int| 0 <= k < r@.len() && r@[k].first <= m < r@[k].end
                ==> es[(#[trigger] vis@[m]) as int].date == (#[trigger] r@[k]).date,
            forall|k: int| 0 <= k < r@.len() ==> (#[trigger] r@[k]).minutes as int
                == run_minutes(es, vis@, r@[k].first as int, r@[k].end as int),
            forall|k: int| 0 <= k < r@.len() ==> (#[trigger] r@[k]).minutes <= 1440 * (r@[k].end - r@[k].first),
        decreases vis@.len() - j,
    {
        let idx = vis[j];
        assert(es[idx as int] == events@[idx as int]@);
        assert(es[idx as int].wf());
        let d = event_minutes(&events[idx]) as u64;
        let date = events[idx].date;
        let n = r.len();
        if n > 0 && r[n - 1].date == date {
            let last = r.pop().unwrap();
            let ghost before = r@;
            let run = DayRun { date, minutes: last.minutes + d, first: last.first, end: j + 1 };
            r.push(run);
            assert(r@ == before.push(run));
            assert forall|k: int, m: int| 0 <= k < r@.len() && r@[k].first <= m < r@[k].end
                implies es[(#[trigger] vis@[m]) as int].date == (#[trigger] r@[k]).date by {
                if k < r@.len() - 1 {
                    assert(r@[k] == before[k]);
                } else if m < j {
                    assert(last.first <= m < last.end);
                }
            }
        } else {
            let ghost before = r@;
            let run = DayRun { date, minutes: d, first: j, end: j + 1 };
            r.push(run);
            assert(r@ == before.push(run));
            assert(run_minutes(es, vis@, j as int, j as int) == 0);
        }
        j = j + 1;
    }
    r
}

} // verus!
