//! The store's data: categories, events, tags, the category-to-tag edges
//! and daily notes, with their mathematical views.
use vstd::prelude::*;
use crate::date::Date;
use crate::time::SimpleTime;

verus! {

/// A list of category names.
#[derive(Debug)]
pub struct Categories {
    pub options: Vec<String>,
}

impl View for Categories {
    type V = Seq<Seq<char>>;

    open spec fn view(&self) -> Seq<Seq<char>> {
        self.options.deep_view()
    }
}

/// One recorded activity. An `end_time` earlier than `start_time` means the
/// activity ran past midnight.
#[derive(Debug)]
pub struct Event {
    pub start_time: SimpleTime,
    pub end_time: SimpleTime,
    pub date: Date,
    pub category: String,
    pub comments: String,
}

/// What an event holds, as plain values.
pub struct EventView {
    pub start_time: SimpleTime,
    pub end_time: SimpleTime,
    pub date: Date,
    pub category: Seq<char>,
    pub comments: Seq<char>,
}

impl View for Event {
    type V = EventView;

    open spec fn view(&self) -> EventView {
        EventView {
            start_time: self.start_time,
            end_time: self.end_time,
            date: self.date,
            category: self.category@,
            comments: self.comments@,
        }
    }
}

impl EventView {
    /// Whether both times are valid.
    pub open spec fn wf(self) -> bool {
        self.start_time.wf() && self.end_time.wf()
    }
}

/// The tags attached to one category.
#[derive(Debug)]
pub struct TagEntry {
    pub category: String,
    pub tags: Vec<String>,
}

impl View for TagEntry {
    type V = (Seq<char>, Seq<Seq<char>>);

    open spec fn view(&self) -> (Seq<char>, Seq<Seq<char>>) {
        (self.category@, self.tags.deep_view())
    }
}

/// The note of one day.
#[derive(Debug)]
pub struct DailyNote {
    pub date: Date,
    pub note: String,
}

impl View for DailyNote {
    type V = (Date, Seq<char>);

    open spec fn view(&self) -> (Date, Seq<char>) {
        (self.date, self.note@)
    }
}

/// The index of the first pair in `s` whose key is `k`, or -1.
pub open spec fn key_index<K, V>(s: Seq<(K, V)>, k: K) -> int
    decreases s.len(),
{
    if s.len() == 0 {
        -1
    } else if s[0].0 == k {
        0
    } else {
        let r = key_index(s.drop_first(), k);
        if r < 0 { -1 } else { r + 1 }
    }
}

/// The value of the first pair in `s` with key `k`.
pub open spec fn lookup<K, V>(s: Seq<(K, V)>, k: K) -> Option<V> {
    let i = key_index(s, k);
    if i < 0 { None } else { Some(s[i].1) }
}

/// `key_index` is the first position holding `k`, or -1 where none does.
pub proof fn lemma_key_index<K, V>(s: Seq<(K, V)>, k: K)
    ensures
        -1 <= key_index(s, k) < s.len(),
        key_index(s, k) >= 0 ==> s[key_index(s, k)].0 == k,
        forall|j: int| 0 <= j < s.len() && (key_index(s, k) < 0 || j < key_index(s, k))
            ==> s[j].0 != k,
    decreases s.len(),
{
    if s.len() > 0 && s[0].0 != k {
        lemma_key_index(s.drop_first(), k);
        assert forall|j: int| 0 <= j < s.len() && (key_index(s, k) < 0 || j < key_index(s, k))
            implies s[j].0 != k by {
            if j > 0 {
                assert(s[j] == s.drop_first()[j - 1]);
            }
        }
    }
}

/// A position `i` holding `k` with no `k` before it is `key_index(s, k)`.
pub proof fn lemma_key_index_at<K, V>(s: Seq<(K, V)>, k: K, i: int)
    requires
        0 <= i <= s.len(),
        i < s.len() ==> s[i].0 == k,
        forall|j: int| 0 <= j < i ==> s[j].0 != k,
    ensures
        key_index(s, k) == (if i < s.len() { i } else { -1 }),
{
    lemma_key_index(s, k);
}

} // verus!
