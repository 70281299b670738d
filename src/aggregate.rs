//! Durations of events and their totals: over all visible events, per
//! active category, and per tag through the category-to-tag edges.
use vstd::prelude::*;
use crate::delta::{contains_name, find_tag_entry};
use crate::filter::{Filter, active_filters, passes, visible};
use crate::names::{lex_lt, sorted_distinct, strictly_sorted};
use crate::schema::{events_view, tag_map_view};
use crate::store::{Categories, Event, EventView, TagEntry, lookup};
use crate::time::wrap_minutes;

verus! {

/// The most events that the totals are computed over: far more than fit in
/// memory, and few enough that every total fits in a `u64`.
pub const MAX_EVENTS: usize = 0xffff_ffff;

/// The minutes that an event lasts.
pub open spec fn duration(e: EventView) -> int {
    wrap_minutes(e.end_time, e.start_time)
}

/// Whether every event of `es` has valid times.
pub open spec fn all_wf(es: Seq<EventView>) -> bool {
    forall|i: int| 0 <= i < es.len() ==> (#[trigger] es[i]).wf()
}

/// The minutes of all events of `es`.
pub open spec fn total_minutes(es: Seq<EventView>) -> int
    decreases es.len(),
{
    if es.len() == 0 {
        0
    } else {
        total_minutes(es.drop_last()) + duration(es.last())
    }
}

/// The minutes of the events of `es` in category `c`.
pub open spec fn minutes_in(es: Seq<EventView>, c: Seq<char>) -> int
    decreases es.len(),
{
    if es.len() == 0 {
        0
    } else {
        minutes_in(es.drop_last(), c) + (if es.last().category == c {
            duration(es.last())
        } else {
            0
        })
    }
}

/// The per-category minutes of `es`, summed over the categories `cats`.
pub open spec fn sum_over(cats: Seq<Seq<char>>, es: Seq<EventView>) -> int
    decreases cats.len(),
{
    if cats.len() == 0 {
        0
    } else {
        sum_over(cats.drop_last(), es) + minutes_in(es, cats.last())
    }
}

/// Whether the tag map gives category `c` the tag `t`.
pub open spec fn tagged(tm: Seq<(Seq<char>, Seq<Seq<char>>)>, c: Seq<char>, t: Seq<char>) -> bool {
    match lookup(tm, c) {
        Some(ts) => ts.contains(t),
        None => false,
    }
}

/// The minutes of tag `t`: the totals of those categories of `cats` that
/// the tag map gives `t`, summed.
pub open spec fn tag_minutes(
    cats: Seq<Seq<char>>,
    tm: Seq<(Seq<char>, Seq<Seq<char>>)>,
    es: Seq<EventView>,
    t: Seq<char>,
) -> int
    decreases cats.len(),
{
    if cats.len() == 0 {
        0
    } else {
        tag_minutes(cats.drop_last(), tm, es, t) + (if tagged(tm, cats.last(), t) {
            minutes_in(es, cats.last())
        } else {
            0
        })
    }
}

proof fn lemma_minutes_in_push(es: Seq<EventView>, e: EventView, c: Seq<char>)
    ensures
        minutes_in(es.push(e), c) == minutes_in(es, c) + (if e.category == c { duration(e) } else { 0 }),
{
    assert(es.push(e).drop_last() =~= es);
}

proof fn lemma_sum_over_push(cats: Seq<Seq<char>>, es: Seq<EventView>, e: EventView)
    requires
        cats.no_duplicates(),
    ensures
        sum_over(cats, es.push(e)) == sum_over(cats, es) + (if cats.contains(e.category) {
            duration(e)
        } else {
            0
        }),
    decreases cats.len(),
{
    if cats.len() > 0 {
        let init = cats.drop_last();
        assert(init.no_duplicates()) by {
            assert forall|i: int, j: int| 0 <= i < init.len() && 0 <= j < init.len() && i != j
                implies init[i] != init[j] by {
                assert(init[i] == cats[i] && init[j] == cats[j]);
            }
        }
        lemma_sum_over_push(init, es, e);
        lemma_minutes_in_push(es, e, cats.last());
        assert(cats =~= init.push(cats.last()));
        if init.contains(e.category) {
            let k = choose|k: int| 0 <= k < init.len() && init[k] == e.category;
            assert(cats[k] == e.category);
            assert(cats.last() != e.category);
        }
        if cats.contains(e.category) && cats.last() != e.category {
            let k = choose|k: int| 0 <= k < cats.len() && cats[k] == e.category;
            assert(init[k] == e.category);
        }
    }
}

proof fn lemma_duration_bounds(e: EventView)
    requires
        e.wf(),
    ensures
        0 <= duration(e) < 1440,
{
}

/// With no category named twice, the per-category totals add up to at most
/// the total of all events, and to exactly that total where every event's
/// category is among them.
pub proof fn lemma_category_totals_sum(cats: Seq<Seq<char>>, es: Seq<EventView>)
    requires
        cats.no_duplicates(),
        all_wf(es),
    ensures
        sum_over(cats, es) <= total_minutes(es),
        (forall|i: int| 0 <= i < es.len() ==> cats.contains(#[trigger] es[i].category))
            ==> sum_over(cats, es) == total_minutes(es),
    decreases es.len(),
{
    if es.len() == 0 {
        assert(es =~= Seq::empty());
        lemma_sum_over_empty(cats);
    } else {
        let init = es.drop_last();
        assert(es =~= init.push(es.last()));
        assert(all_wf(init)) by {
            assert forall|i: int| 0 <= i < init.len() implies (#[trigger] init[i]).wf() by {
                assert(init[i] == es[i]);
            }
        }
        lemma_category_totals_sum(cats, init);
        lemma_sum_over_push(cats, init, es.last());
        lemma_duration_bounds(es[es.len() - 1]);
        if forall|i: int| 0 <= i < es.len() ==> cats.contains(#[trigger] es[i].category) {
            assert forall|i: int| 0 <= i < init.len() implies cats.contains(
                #[trigger] init[i].category,
            ) by {
                assert(init[i] == es[i]);
            }
            assert(cats.contains(es[es.len() - 1].category));
        }
    }
}

proof fn lemma_filter_wf(es: Seq<EventView>, pred: spec_fn(EventView) -> bool)
    requires
        all_wf(es),
    ensures
        all_wf(es.filter(pred)),
    decreases es.len(),
{
    reveal(Seq::filter);
    if es.len() > 0 {
        let init = es.drop_last();
        assert(all_wf(init)) by {
            assert forall|i: int| 0 <= i < init.len() implies (#[trigger] init[i]).wf() by {
                assert(init[i] == es[i]);
            }
        }
        lemma_filter_wf(init, pred);
        assert(es[es.len() - 1].wf());
    }
}

proof fn lemma_sum_over_empty(cats: Seq<Seq<char>>)
    ensures
        sum_over(cats, Seq::empty()) == 0,
    decreases cats.len(),
{
    if cats.len() > 0 {
        lemma_sum_over_empty(cats.drop_last());
    }
}

/// The totals that the dashboard shows.
pub struct Totals {
    /// Minutes of all visible events.
    pub all: u64,
    /// Each active category, in name order, with the minutes of its visible
    /// events.
    pub by_category: Vec<(String, u64)>,
    /// Each tag, in name order, with the minutes of the categories carrying
    /// it.
    pub by_tag: Vec<(String, u64)>,
}

/// The names of a list of name-and-total pairs.
pub open spec fn names_of(v: Seq<(String, u64)>) -> Seq<Seq<char>> {
    v.map_values(|p: (String, u64)| p.0@)
}

/// The minutes that an event lasts.
pub fn event_minutes(e: &Event) -> (r: u32)
    requires
        e@.wf(),
    ensures
        r as int == duration(e@),
        r < 1440,
{
    e.end_time.sub(e.start_time)
}

proof fn lemma_sorted_no_duplicates(s: Seq<Seq<char>>)
    requires
        strictly_sorted(s),
    ensures
        s.no_duplicates(),
{
    assert forall|i: int, j: int| 0 <= i < s.len() && 0 <= j < s.len() && i != j implies s[i]
        != s[j] by {
        if i < j {
            assert(lex_lt(s[i], s[j]));
        } else {
            assert(lex_lt(s[j], s[i]));
        }
        crate::names::lemma_lex_irreflexive(s[i]);
    }
}

proof fn lemma_sum_over_prefix(cats: Seq<Seq<char>>, es: Seq<EventView>, k: int)
    requires
        0 <= k <= cats.len(),
        all_wf(es),
    ensures
        sum_over(cats.take(k), es) <= sum_over(cats, es),
    decreases cats.len() - k,
{
    if k < cats.len() {
        lemma_sum_over_prefix(cats, es, k + 1);
        assert(cats.take(k + 1).drop_last() =~= cats.take(k));
        lemma_minutes_in_nonneg(es, cats[k]);
    } else {
        assert(cats.take(k) =~= cats);
    }
}

proof fn lemma_minutes_in_nonneg(es: Seq<EventView>, c: Seq<char>)
    requires
        all_wf(es),
    ensures
        minutes_in(es, c) >= 0,
    decreases es.len(),
{
    if es.len() > 0 {
        let init = es.drop_last();
        assert(all_wf(init)) by {
            assert forall|i: int| 0 <= i < init.len() implies (#[trigger] init[i]).wf() by {
                assert(init[i] == es[i]);
            }
        }
        lemma_minutes_in_nonneg(init, c);
        assert(es[es.len() - 1].wf());
    }
}

/// The totals of the events of `events` that meet the filters: over all of
/// them, per active category, and per tag.
pub fn aggregate(
    events: &Vec<Event>,
    applied: &Vec<Filter>,
    editing: &Option<Filter>,
    categories: &Categories,
    tags: &Vec<String>,
    tag_map: &Vec<TagEntry>,
) -> (r: Totals)
    requires
        events@.len() <= MAX_EVENTS,
        all_wf(events_view(events@)),
    ensures
        ({
            let vis = visible(events_view(events@), active_filters(applied@, *editing));
            let cats = names_of(r.by_category@);
            let tgs = names_of(r.by_tag@);
            &&& r.all as int == total_minutes(vis)
            &&& strictly_sorted(cats)
            &&& forall|x: Seq<char>| cats.contains(x) <==> categories@.contains(x)
            &&& forall|i: int| 0 <= i < r.by_category@.len()
                ==> (#[trigger] r.by_category@[i]).1 as int == minutes_in(vis, cats[i])
            &&& strictly_sorted(tgs)
            &&& forall|x: Seq<char>| tgs.contains(x) <==> tags.deep_view().contains(x)
            &&& forall|i: int| 0 <= i < r.by_tag@.len()
                ==> (#[trigger] r.by_tag@[i]).1 as int == tag_minutes(cats, tag_map_view(tag_map@), vis, tgs[i])
        }),
{
    let ghost es = events_view(events@);
    let ghost fs = active_filters(applied@, *editing);
    let ghost pred = |e: EventView| crate::filter::passes_all(fs, e);
    let names = sorted_distinct(&categories.options);
    let ghost cats = names.deep_view();
    proof {
        lemma_sorted_no_duplicates(cats);
    }
    let mut totals: Vec<u64> = Vec::new();
    let mut k: usize = 0;
    while k < names.len()
        invariant
            k <= names@.len(),
            totals@.len() == k,
            forall|j: int| 0 <= j < k ==> totals@[j] == 0,
        decreases names@.len() - k,
    {
        totals.push(0);
        k = k + 1;
    }
    let mut all: u64 = 0;
    let mut i: usize = 0;
    while i < events.len()
        invariant
            i <= events@.len(),
            events@.len() <= MAX_EVENTS,
            es == events_view(events@),
            all_wf(es),
            cats == names.deep_view(),
            fs == active_filters(applied@, *editing),
            pred == (|e: EventView| crate::filter::passes_all(fs, e)),
            totals@.len() == names@.len(),
            all as int == total_minutes(es.take(i as int).filter(pred)),
            all <= 1440 * i,
            forall|j: int| 0 <= j < totals@.len() ==> #[trigger] totals@[j] <= all,
            forall|j: int| 0 <= j < totals@.len() ==> #[trigger] totals@[j] as int == minutes_in(
                es.take(i as int).filter(pred),
                cats[j],
            ),
        decreases events@.len() - i,
    {
        let ghost prev = es.take(i as int).filter(pred);
        let ghost e = es[i as int];
        assert(es.take(i as int + 1).drop_last() =~= es.take(i as int));
        assert(es.take(i as int + 1).last() == e);
        proof {
            reveal(Seq::filter);
        }
        assert(events@[i as int]@ == e);
        if passes(applied, editing, &events[i]) {
            assert(es.take(i as int + 1).filter(pred) == prev.push(e));
            assert(prev.push(e).drop_last() =~= prev);
            assert(e.wf());
            let d = event_minutes(&events[i]) as u64;
            all = all + d;
            let mut j: usize = 0;
            while j < names.len()
                invariant
                    j <= names@.len(),
                    i < events@.len(),
                    e == events@[i as int]@,
                    totals@.len() == names@.len(),
                    cats == names.deep_view(),
                    d as int == duration(e),
                    forall|m: int| 0 <= m < totals@.len() ==> #[trigger] totals@[m] <= all,
                    forall|m: int| 0 <= m < j ==> #[trigger] totals@[m] as int == minutes_in(
                        prev.push(e),
                        cats[m],
                    ),
                    forall|m: int| j <= m < totals@.len() ==> #[trigger] totals@[m] as int
                        == minutes_in(prev, cats[m]),
                    forall|m: int| j <= m < totals@.len() ==> #[trigger] totals@[m] + d <= all,
                decreases names@.len() - j,
            {
                proof {
                    lemma_minutes_in_push(prev, e, cats[j as int]);
                }
                assert(cats[j as int] == names@[j as int]@);
                if events[i].category == names[j] {
                    let t = totals[j] + d;
                    totals.set(j, t);
                }
                j = j + 1;
            }
        } else {
            assert(es.take(i as int + 1).filter(pred) == prev);
        }
        i = i + 1;
    }
    assert(es.take(i as int) =~= es);
    let ghost vis = es.filter(pred);
    assert(vis == visible(es, fs));
    proof {
        lemma_filter_wf(es, pred);
        lemma_category_totals_sum(cats, vis);
    }
    let mut by_category: Vec<(String, u64)> = Vec::new();
    let mut k: usize = 0;
    while k < names.len()
        invariant
            k <= names@.len(),
            totals@.len() == names@.len(),
            cats == names.deep_view(),
            by_category@.len() == k,
            forall|m: int| 0 <= m < k ==> (#[trigger] by_category@[m]).0@ == cats[m],
            forall|m: int| 0 <= m < k ==> (#[trigger] by_category@[m]).1 == totals@[m],
        decreases names@.len() - k,
    {
        assert(cats[k as int] == names@[k as int]@);
        by_category.push((names[k].clone(), totals[k]));
        k = k + 1;
    }
    assert(names_of(by_category@) =~= cats);
    let tnames = sorted_distinct(tags);
    let ghost tgs = tnames.deep_view();
    let ghost tm = tag_map_view(tag_map@);
    let mut by_tag: Vec<(String, u64)> = Vec::new();
    let mut t: usize = 0;
    while t < tnames.len()
        invariant
            t <= tnames@.len(),
            totals@.len() == names@.len(),
            cats == names.deep_view(),
            tgs == tnames.deep_view(),
            tm == tag_map_view(tag_map@),
            all_wf(vis),
            sum_over(cats, vis) <= all,
            forall|j: int| 0 <= j < totals@.len() ==> #[trigger] totals@[j] as int == minutes_in(vis, cats[j]),
            by_tag@.len() == t,
            forall|m: int| 0 <= m < t ==> (#[trigger] by_tag@[m]).0@ == tgs[m],
            forall|m: int| 0 <= m < t ==> (#[trigger] by_tag@[m]).1 as int == tag_minutes(cats, tm, vis, tgs[m]),
        decreases tnames@.len() - t,
    {
        let ghost tag = tgs[t as int];
        assert(tag == tnames@[t as int]@);
        let mut acc: u64 = 0;
        let mut k: usize = 0;
        while k < names.len()
            invariant
                k <= names@.len(),
                totals@.len() == names@.len(),
                cats == names.deep_view(),
                tm == tag_map_view(tag_map@),
                tag == tnames@[t as int]@,
                t < tnames@.len(),
                all_wf(vis),
                sum_over(cats, vis) <= all,
                forall|j: int| 0 <= j < totals@.len() ==> #[trigger] totals@[j] as int == minutes_in(vis, cats[j]),
                acc as int == tag_minutes(cats.take(k as int), tm, vis, tag),
                acc as int <= sum_over(cats.take(k as int), vis),
            decreases names@.len() - k,
        {
            let ghost c = cats[k as int];
            assert(cats.take(k as int + 1).drop_last() =~= cats.take(k as int));
            assert(cats.take(k as int + 1).last() == c);
            assert(names@[k as int]@ == c);
            proof {
                lemma_sum_over_prefix(cats, vis, k as int + 1);
                lemma_minutes_in_nonneg(vis, c);
                crate::store::lemma_key_index(tm, c);
            }
            let entry = find_tag_entry(tag_map, &names[k]);
            let mut has = false;
            if entry < tag_map.len() {
                assert(tm[entry as int].1 == tag_map@[entry as int].tags.deep_view());
                has = contains_name(&tag_map[entry].tags, &tnames[t]);
            }
            assert(has == tagged(tm, c, tag));
            if has {
                acc = acc + totals[k];
            }
            k = k + 1;
        }
        assert(cats.take(k as int) =~= cats);
        by_tag.push((tnames[t].clone(), acc));
        t = t + 1;
    }
    assert(names_of(by_tag@) =~= tgs);
    Totals { all, by_category, by_tag }
}

} // verus!
