//! Intents: data values that each describe one change to the store, and
//! the engine that folds a list of them onto a store.
use vstd::prelude::*;
use crate::date::Date;
use crate::schema::{SaveData, StoreView, events_view, notes_view, tag_map_view};
use crate::store::{DailyNote, Event, EventView, TagEntry, key_index, lemma_key_index_at};

verus! {

/// One change to the store.
#[derive(Debug)]
pub enum DeltaItem {
    AddCategory(String),
    ArchiveCategory(String),
    AddEvent(Event),
    ChangeEvent { index: usize, new_event: Event },
    AddTag(String),
    TagCategory(String, String),
    SetDailyNote(Date, String),
}

/// What an intent holds, as plain values.
pub enum Intent {
    AddCategory(Seq<char>),
    ArchiveCategory(Seq<char>),
    AddEvent(EventView),
    ChangeEvent { index: int, new_event: EventView },
    AddTag(Seq<char>),
    TagCategory(Seq<char>, Seq<char>),
    SetDailyNote(Date, Seq<char>),
}

impl View for DeltaItem {
    type V = Intent;

    open spec fn view(&self) -> Intent {
        match self {
            DeltaItem::AddCategory(c) => Intent::AddCategory(c@),
            DeltaItem::ArchiveCategory(c) => Intent::ArchiveCategory(c@),
            DeltaItem::AddEvent(e) => Intent::AddEvent(e@),
            DeltaItem::ChangeEvent { index, new_event } => Intent::ChangeEvent {
                index: *index as int,
                new_event: new_event@,
            },
            DeltaItem::AddTag(t) => Intent::AddTag(t@),
            DeltaItem::TagCategory(c, t) => Intent::TagCategory(c@, t@),
            DeltaItem::SetDailyNote(d, n) => Intent::SetDailyNote(*d, n@),
        }
    }
}

/// The views of a list of intents.
pub open spec fn intents_view(v: Seq<DeltaItem>) -> Seq<Intent> {
    v.map_values(|d: DeltaItem| d@)
}

/// Why an intent could not be applied.
#[derive(Clone, Copy, PartialEq, Eq, Structural, Debug)]
pub enum ApplyError {
    /// A replacement named an event index at or past the end of the events.
    EventIndexOutOfRange { index: usize, len: usize },
}

/// `s` with every occurrence of `name` taken out, the rest in order.
pub open spec fn remove_name(s: Seq<Seq<char>>, name: Seq<char>) -> Seq<Seq<char>>
    decreases s.len(),
{
    if s.len() == 0 {
        s
    } else {
        let r = remove_name(s.drop_last(), name);
        if s.last() == name { r } else { r.push(s.last()) }
    }
}

/// `s` with `x` added at the end unless it is already there.
pub open spec fn insert_if_absent(s: Seq<Seq<char>>, x: Seq<char>) -> Seq<Seq<char>> {
    if s.contains(x) { s } else { s.push(x) }
}

/// The store after one intent, or `None` where the intent cannot apply.
pub open spec fn apply_intent(s: StoreView, i: Intent) -> Option<StoreView> {
    match i {
        Intent::AddCategory(c) => Some(
            StoreView { categories: insert_if_absent(s.categories, c), ..s },
        ),
        Intent::ArchiveCategory(c) => Some(
            StoreView {
                categories: remove_name(s.categories, c),
                archived_categories: s.archived_categories.push(c),
                ..s
            },
        ),
        Intent::AddEvent(e) => Some(StoreView { events: s.events.push(e), ..s }),
        Intent::ChangeEvent { index, new_event } => if 0 <= index < s.events.len() {
            Some(StoreView { events: s.events.update(index, new_event), ..s })
        } else {
            None
        },
        Intent::AddTag(t) => Some(StoreView { tags: insert_if_absent(s.tags, t), ..s }),
        Intent::TagCategory(c, t) => {
            let k = key_index(s.tag_map, c);
            Some(
                StoreView {
                    tag_map: if k < 0 {
                        s.tag_map.push((c, seq![t]))
                    } else {
                        s.tag_map.update(k, (c, insert_if_absent(s.tag_map[k].1, t)))
                    },
                    ..s
                },
            )
        },
        Intent::SetDailyNote(d, n) => {
            let k = key_index(s.daily_notes, d);
            Some(
                StoreView {
                    daily_notes: if k < 0 {
                        s.daily_notes.push((d, n))
                    } else {
                        s.daily_notes.update(k, (d, n))
                    },
                    ..s
                },
            )
        },
    }
}

/// Intents applied left to right: the store reached, and whether every
/// intent applied. The fold stops at the first intent that cannot apply,
/// giving the store as it was before that intent.
pub open spec fn apply_intents(s: StoreView, is: Seq<Intent>) -> (StoreView, bool)
    decreases is.len(),
{
    if is.len() == 0 {
        (s, true)
    } else {
        match apply_intent(s, is[0]) {
            Some(s1) => apply_intents(s1, is.drop_first()),
            None => (s, false),
        }
    }
}

/// Applying `a ++ b` is applying `a`, then, where all of `a` applied, `b`.
pub proof fn lemma_apply_concat(s: StoreView, a: Seq<Intent>, b: Seq<Intent>)
    ensures
        apply_intents(s, a + b) == (if apply_intents(s, a).1 {
            apply_intents(apply_intents(s, a).0, b)
        } else {
            apply_intents(s, a)
        }),
    decreases a.len(),
{
    if a.len() == 0 {
        assert(a + b =~= b);
    } else {
        assert((a + b)[0] == a[0]);
        assert((a + b).drop_first() =~= a.drop_first() + b);
        if let Some(s1) = apply_intent(s, a[0]) {
            lemma_apply_concat(s1, a.drop_first(), b);
        }
    }
}

/// A store that can take changes of type `T`.
pub trait Apply<T>: Sized {
    /// Whether applying `delta` to `before` leaves `after`, with `ok` telling
    /// whether it applied in full.
    spec fn applies_to(before: Self, delta: T, after: Self, ok: bool) -> bool;

    /// Applies `delta`.
    fn apply(&mut self, delta: T) -> (r: Result<(), ApplyError>)
        ensures
            Self::applies_to(*old(self), delta, *final(self), r is Ok),
    ;
}

/// Whether `v` holds a string equal to `s`.
pub fn contains_name(v: &Vec<String>, s: &String) -> (r: bool)
    ensures
        r == v.deep_view().contains(s@),
{
    let mut i: usize = 0;
    while i < v.len()
        invariant
            i <= v@.len(),
            forall|j: int| 0 <= j < i ==> v@[j]@ != s@,
        decreases v@.len() - i,
    {
        if v[i] == *s {
            assert(v.deep_view()[i as int] == s@);
            return true;
        }
        i = i + 1;
    }
    assert forall|j: int| 0 <= j < v.deep_view().len() implies v.deep_view()[j] != s@ by {
        assert(v.deep_view()[j] == v@[j]@);
    }
    false
}

/// A copy of `v` without the strings equal to `s`.
fn without_name(v: &Vec<String>, s: &String) -> (r: Vec<String>)
    ensures
        r.deep_view() == remove_name(v.deep_view(), s@),
{
    let mut r: Vec<String> = Vec::new();
    let mut i: usize = 0;
    while i < v.len()
        invariant
            i <= v@.len(),
            r.deep_view() == remove_name(v.deep_view().take(i as int), s@),
        decreases v@.len() - i,
    {
        let ghost before = r.deep_view();
        assert(v.deep_view().take(i as int + 1).drop_last() =~= v.deep_view().take(i as int));
        assert(v.deep_view().take(i as int + 1).last() == v@[i as int]@);
        if v[i] != *s {
            r.push(v[i].clone());
            assert(r.deep_view() =~= before.push(v@[i as int]@));
        }
        i = i + 1;
    }
    assert(v.deep_view().take(i as int) =~= v.deep_view());
    r
}

/// Appends `x` to `v` unless `v` already holds an equal string.
fn push_if_absent(v: &mut Vec<String>, x: String)
    ensures
        final(v).deep_view() == insert_if_absent(old(v).deep_view(), x@),
{
    if !contains_name(v, &x) {
        let ghost before = v.deep_view();
        v.push(x);
        assert(v.deep_view() =~= before.push(x@));
    }
}

/// The position of the first entry for category `c`, or the length where
/// there is none.
pub fn find_tag_entry(v: &Vec<TagEntry>, c: &String) -> (r: usize)
    ensures
        r <= v@.len(),
        key_index(tag_map_view(v@), c@) == (if r < v@.len() { r as int } else { -1 }),
{
    let ghost m = tag_map_view(v@);
    let mut i: usize = 0;
    while i < v.len()
        invariant
            i <= v@.len(),
            m == tag_map_view(v@),
            forall|j: int| 0 <= j < i ==> m[j].0 != c@,
        decreases v@.len() - i,
    {
        if v[i].category == *c {
            proof { lemma_key_index_at(m, c@, i as int); }
            return i;
        }
        i = i + 1;
    }
    proof { lemma_key_index_at(m, c@, i as int); }
    i
}

/// The position of the first note for `d`, or the length where there is
/// none.
pub fn find_note(v: &Vec<DailyNote>, d: Date) -> (r: usize)
    ensures
        r <= v@.len(),
        key_index(notes_view(v@), d) == (if r < v@.len() { r as int } else { -1 }),
{
    let ghost m = notes_view(v@);
    let mut i: usize = 0;
    while i < v.len()
        invariant
            i <= v@.len(),
            m == notes_view(v@),
            forall|j: int| 0 <= j < i ==> m[j].0 != d,
        decreases v@.len() - i,
    {
        if v[i].date == d {
            proof { lemma_key_index_at(m, d, i as int); }
            return i;
        }
        i = i + 1;
    }
    proof { lemma_key_index_at(m, d, i as int); }
    i
}

impl Apply<DeltaItem> for SaveData {
    open spec fn applies_to(before: SaveData, delta: DeltaItem, after: SaveData, ok: bool) -> bool {
        match apply_intent(before@, delta@) {
            Some(s) => ok && after@ == s,
            None => !ok && after@ == before@,
        }
    }

    fn apply(&mut self, delta: DeltaItem) -> (r: Result<(), ApplyError>) {
        let ghost s = self@;
        match delta {
            DeltaItem::AddCategory(category) => {
                push_if_absent(&mut self.categories.options, category);
            },
            DeltaItem::ArchiveCategory(category) => {
                self.categories.options = without_name(&self.categories.options, &category);
                let ghost before = self.archived_categories.options.deep_view();
                let ghost c = category@;
                self.archived_categories.options.push(category);
                assert(self.archived_categories.options.deep_view() =~= before.push(c));
            },
            DeltaItem::AddEvent(event) => {
                let ghost e = event@;
                self.events.push(event);
                assert(events_view(self.events@) =~= s.events.push(e));
            },
            DeltaItem::ChangeEvent { index, new_event } => {
                if index >= self.events.len() {
                    return Err(ApplyError::EventIndexOutOfRange { index, len: self.events.len() });
                }
                let ghost e = new_event@;
                self.events.set(index, new_event);
                assert(events_view(self.events@) =~= s.events.update(index as int, e));
            },
            DeltaItem::AddTag(tag) => {
                push_if_absent(&mut self.tags, tag);
            },
            DeltaItem::TagCategory(category, tag) => {
                let k = find_tag_entry(&self.tag_map, &category);
                let ghost c = category@;
                let ghost t = tag@;
                if k == self.tag_map.len() {
                    let mut tags: Vec<String> = Vec::new();
                    tags.push(tag);
                    assert(tags.deep_view() =~= seq![t]);
                    self.tag_map.push(TagEntry { category, tags });
                    assert(tag_map_view(self.tag_map@) =~= s.tag_map.push((c, seq![t])));
                } else {
                    proof {
                        crate::store::lemma_key_index(s.tag_map, c);
                    }
                    let mut entry = self.tag_map.remove(k);
                    assert(entry@ == s.tag_map[k as int]);
                    push_if_absent(&mut entry.tags, tag);
                    self.tag_map.insert(k, entry);
                    assert(tag_map_view(self.tag_map@) =~= s.tag_map.update(
                        k as int,
                        (c, insert_if_absent(s.tag_map[k as int].1, t)),
                    ));
                }
            },
            DeltaItem::SetDailyNote(date, note) => {
                let k = find_note(&self.daily_notes, date);
                let ghost n = note@;
                if k == self.daily_notes.len() {
                    self.daily_notes.push(DailyNote { date, note });
                    assert(notes_view(self.daily_notes@) =~= s.daily_notes.push((date, n)));
                } else {
                    self.daily_notes.set(k, DailyNote { date, note });
                    assert(notes_view(self.daily_notes@) =~= s.daily_notes.update(
                        k as int,
                        (date, n),
                    ));
                }
            },
        }
        Ok(())
    }
}

impl Apply<Vec<DeltaItem>> for SaveData {
    open spec fn applies_to(
        before: SaveData,
        delta: Vec<DeltaItem>,
        after: SaveData,
        ok: bool,
    ) -> bool {
        apply_intents(before@, intents_view(delta@)) == (after@, ok)
    }

    fn apply(&mut self, delta: Vec<DeltaItem>) -> (r: Result<(), ApplyError>) {
        let ghost goal = apply_intents(self@, intents_view(delta@));
        let mut rest = delta;
        while rest.len() > 0
            invariant
                apply_intents(self@, intents_view(rest@)) == goal,
                goal == apply_intents(old(self)@, intents_view(delta@)),
            decreases rest@.len(),
        {
            let ghost is = intents_view(rest@);
            let d = rest.remove(0);
            assert(is[0] == d@);
            assert(intents_view(rest@) =~= is.drop_first());
            let r = self.apply(d);
            if r.is_err() {
                return r;
            }
        }
        assert(intents_view(rest@) =~= Seq::<Intent>::empty());
        Ok(())
    }
}

} // verus!
