//! Predicates over events that the dashboard combines by conjunction.
use vstd::prelude::*;
use vstd::string::*;
use crate::date::{Date, date_le};
use crate::store::{Event, EventView};

verus! {

/// One condition on events.
#[derive(Debug)]
pub enum Filter {
    /// The event's date is on or after this one.
    StartDate(Date),
    /// The event's date is on or before this one.
    EndDate(Date),
    /// The event's category is exactly this one.
    Category(String),
    /// The event's description contains this text (case-sensitive).
    Description(String),
}

/// What a filter holds, as plain values.
pub enum FilterView {
    StartDate(Date),
    EndDate(Date),
    Category(Seq<char>),
    Description(Seq<char>),
}

impl View for Filter {
    type V = FilterView;

    open spec fn view(&self) -> FilterView {
        match self {
            Filter::StartDate(d) => FilterView::StartDate(*d),
            Filter::EndDate(d) => FilterView::EndDate(*d),
            Filter::Category(c) => FilterView::Category(c@),
            Filter::Description(t) => FilterView::Description(t@),
        }
    }
}

/// Whether `needle` occurs in `hay` as a run of consecutive characters.
pub open spec fn contains_text(hay: Seq<char>, needle: Seq<char>) -> bool {
    exists|i: int|
        0 <= i && i + needle.len() <= hay.len() && #[trigger] hay.subrange(i, i + needle.len())
            == needle
}

/// Whether the event `e` meets the filter `f`.
pub open spec fn matches(f: FilterView, e: EventView) -> bool {
    match f {
        FilterView::StartDate(d) => date_le(d, e.date),
        FilterView::EndDate(d) => date_le(e.date, d),
        FilterView::Category(c) => e.category == c,
        FilterView::Description(t) => contains_text(e.comments, t),
    }
}

/// Whether `e` meets every filter of `fs`.
pub open spec fn passes_all(fs: Seq<FilterView>, e: EventView) -> bool {
    forall|i: int| 0 <= i < fs.len() ==> matches(#[trigger] fs[i], e)
}

/// The events of `es` that meet every filter of `fs`, in order.
pub open spec fn visible(es: Seq<EventView>, fs: Seq<FilterView>) -> Seq<EventView> {
    es.filter(|e: EventView| passes_all(fs, e))
}

/// The filters in force: the confirmed ones, then the one being edited.
pub open spec fn active_filters(applied: Seq<Filter>, editing: Option<Filter>) -> Seq<FilterView> {
    let a = applied.map_values(|f: Filter| f@);
    match editing {
        Some(f) => a.push(f@),
        None => a,
    }
}

/// Filters that hold the same conditions, in whatever order, leave the same
/// events visible.
pub proof fn lemma_filter_order(es: Seq<EventView>, fs: Seq<FilterView>, gs: Seq<FilterView>)
    requires
        forall|f: FilterView| fs.contains(f) <==> gs.contains(f),
    ensures
        visible(es, fs) == visible(es, gs),
{
    assert forall|e: EventView| passes_all(fs, e) == passes_all(gs, e) by {
        if passes_all(fs, e) {
            assert forall|i: int| 0 <= i < gs.len() implies matches(#[trigger] gs[i], e) by {
                assert(gs.contains(gs[i]));
                let j = choose|j: int| 0 <= j < fs.len() && fs[j] == gs[i];
                assert(matches(fs[j], e));
            }
        }
        if passes_all(gs, e) {
            assert forall|i: int| 0 <= i < fs.len() implies matches(#[trigger] fs[i], e) by {
                assert(fs.contains(fs[i]));
                let j = choose|j: int| 0 <= j < gs.len() && gs[j] == fs[i];
                assert(matches(gs[j], e));
            }
        }
    }
    assert((|e: EventView| passes_all(fs, e)) =~= (|e: EventView| passes_all(gs, e)));
}

/// The characters of `s`.
pub fn chars_of(s: &str) -> (r: Vec<char>)
    ensures
        r@ == s@,
{
    let n = s.unicode_len();
    let mut r: Vec<char> = Vec::new();
    let mut i: usize = 0;
    while i < n
        invariant
            n == s@.len(),
            i <= n,
            r@ == s@.take(i as int),
        decreases n - i,
    {
        r.push(s.get_char(i));
        i = i + 1;
        assert(r@ =~= s@.take(i as int));
    }
    assert(s@.take(i as int) =~= s@);
    r
}

/// Whether `needle` occurs in `hay`.
pub fn text_contains(hay: &str, needle: &str) -> (r: bool)
    ensures
        r == contains_text(hay@, needle@),
{
    let h = chars_of(hay);
    let n = chars_of(needle);
    let hl = h.len();
    let nl = n.len();
    if nl > hl {
        return false;
    }
    if nl == 0 {
        assert(hay@.subrange(0int, 0int + needle@.len()) =~= needle@);
        return true;
    }
    let last = hl - nl;
    let mut i: usize = 0;
    while i <= last
        invariant
            h@ == hay@,
            n@ == needle@,
            last == h@.len() - n@.len(),
            hl == h@.len(),
            nl == n@.len(),
            nl > 0,
            i <= last + 1,
            forall|k: int| 0 <= k < i ==> #[trigger] hay@.subrange(k, k + needle@.len()) != needle@,
        decreases last + 1 - i,
    {
        let mut j: usize = 0;
        let mut same = true;
        while j < nl && same
            invariant
                h@ == hay@,
                n@ == needle@,
                i <= last,
                last == h@.len() - n@.len(),
                hl == h@.len(),
                nl == n@.len(),
                j <= n@.len(),
                same ==> forall|m: int| 0 <= m < j ==> h@[i + m] == n@[m],
                !same ==> h@[i + j - 1] != n@[j - 1] && j >= 1,
            decreases n@.len() - j + (if same { 1int } else { 0 }),
        {
            if h[i + j] != n[j] {
                same = false;
            }
            j = j + 1;
        }
        if same {
            assert(hay@.subrange(i as int, i + needle@.len()) =~= needle@);
            return true;
        }
        assert(hay@.subrange(i as int, i + needle@.len())[j - 1] != needle@[j - 1]);
        i = i + 1;
    }
    assert forall|k: int|
        0 <= k && k + needle@.len() <= hay@.len() implies #[trigger] hay@.subrange(
        k,
        k + needle@.len(),
    ) != needle@ by {
        assert(k < i);
    }
    false
}

impl Filter {
    /// Whether `ev` meets this filter.
    pub fn filter(&self, ev: &Event) -> (r: bool)
        ensures
            r == matches(self@, ev@),
    {
        match self {
            Filter::StartDate(d) => d.is_on_or_before(&ev.date),
            Filter::EndDate(d) => ev.date.is_on_or_before(d),
            Filter::Category(c) => ev.category == *c,
            Filter::Description(t) => text_contains(ev.comments.as_str(), t.as_str()),
        }
    }
}

/// Whether `ev` meets every confirmed filter and the one being edited.
pub fn passes(applied: &Vec<Filter>, editing: &Option<Filter>, ev: &Event) -> (r: bool)
    ensures
        r == passes_all(active_filters(applied@, *editing), ev@),
{
    let ghost fs = active_filters(applied@, *editing);
    let mut i: usize = 0;
    while i < applied.len()
        invariant
            i <= applied@.len(),
            fs == active_filters(applied@, *editing),
            forall|k: int| 0 <= k < i ==> matches(#[trigger] fs[k], ev@),
        decreases applied@.len() - i,
    {
        if !applied[i].filter(ev) {
            assert(!matches(fs[i as int], ev@));
            return false;
        }
        i = i + 1;
    }
    match editing {
        Some(f) => {
            let ok = f.filter(ev);
            assert(ok ==> forall|k: int| 0 <= k < fs.len() ==> matches(#[trigger] fs[k], ev@)) by {
                if ok {
                    assert forall|k: int| 0 <= k < fs.len() implies matches(#[trigger] fs[k], ev@) by {
                        if k == applied@.len() {
                            assert(fs[k] == f@);
                        }
                    }
                }
            }
            assert(!ok ==> !matches(fs[applied@.len() as int], ev@));
            ok
        },
        None => true,
    }
}

} // verus!
