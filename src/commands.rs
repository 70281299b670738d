//! What the commands decide: the intents each produces from the user's
//! answers, the completions and checks of their prompts, and the
//! reload-then-apply commit that persists them.
use vstd::prelude::*;
use crate::date::Date;
use crate::delta::{Apply, ApplyError, DeltaItem, Intent, apply_intents, contains_name, find_note, intents_view};
use crate::filter::chars_of;
use crate::schema::{SaveData, SaveDataVersioned, StoreView, notes_view};
use crate::store::{Categories, Event, EventView, lookup};
use crate::time::chars_to_string;

verus! {

/// Whether `p` is a prefix of `s`.
pub open spec fn is_prefix_of(p: Seq<char>, s: Seq<char>) -> bool {
    p.len() <= s.len() && s.subrange(0, p.len() as int) == p
}

/// The names of `opts` that start with `p`, in order.
pub open spec fn suggestions_spec(opts: Seq<Seq<char>>, p: Seq<char>) -> Seq<Seq<char>> {
    opts.filter(|s: Seq<char>| is_prefix_of(p, s))
}

/// `s` without one leading `#`.
pub open spec fn strip_marker(s: Seq<char>) -> Seq<char> {
    if s.len() > 0 && s[0] == '#' { s.drop_first() } else { s }
}

/// The completion a prompt offers: the highlighted suggestion, else the
/// first suggestion, else none.
pub open spec fn completion_spec(highlighted: Option<Seq<char>>, sugg: Seq<Seq<char>>) -> Option<Seq<char>> {
    match highlighted {
        Some(h) => Some(h),
        None => if sugg.len() > 0 { Some(sugg[0]) } else { None },
    }
}

/// Whether `s` starts with `p`.
pub fn starts_with(s: &str, p: &str) -> (r: bool)
    ensures
        r == is_prefix_of(p@, s@),
{
    let a = chars_of(s);
    let b = chars_of(p);
    if b.len() > a.len() {
        return false;
    }
    let mut i: usize = 0;
    while i < b.len()
        invariant
            a@ == s@,
            b@ == p@,
            b@.len() <= a@.len(),
            i <= b@.len(),
            forall|k: int| 0 <= k < i ==> a@[k] == b@[k],
        decreases b@.len() - i,
    {
        if a[i] != b[i] {
            assert(s@.subrange(0, p@.len() as int)[i as int] != p@[i as int]);
            return false;
        }
        i = i + 1;
    }
    assert(s@.subrange(0, p@.len() as int) =~= p@);
    true
}

/// Appends to `out` the names of `v` that start with `p`, in order.
fn push_prefixed(v: &[String], p: &str, out: &mut Vec<String>)
    ensures
        final(out).deep_view() == old(out).deep_view() + suggestions_spec(v.deep_view(), p@),
{
    let ghost start = out.deep_view();
    let ghost pred = |s: Seq<char>| is_prefix_of(p@, s);
    let mut i: usize = 0;
    while i < v.len()
        invariant
            i <= v@.len(),
            pred == (|s: Seq<char>| is_prefix_of(p@, s)),
            out.deep_view() == start + v.deep_view().take(i as int).filter(pred),
        decreases v@.len() - i,
    {
        let ghost prev = v.deep_view().take(i as int).filter(pred);
        let ghost x = v@[i as int]@;
        assert(v.deep_view().take(i as int + 1).drop_last() =~= v.deep_view().take(i as int));
        assert(v.deep_view().take(i as int + 1).last() == x);
        proof {
            reveal(Seq::filter);
        }
        if starts_with(v[i].as_str(), p) {
            let ghost before = out.deep_view();
            out.push(v[i].clone());
            assert(out.deep_view() =~= before.push(x));
            assert(v.deep_view().take(i as int + 1).filter(pred) == prev.push(x));
            assert(start + prev.push(x) =~= (start + prev).push(x));
        } else {
            assert(v.deep_view().take(i as int + 1).filter(pred) == prev);
        }
        i = i + 1;
    }
    assert(v.deep_view().take(i as int) =~= v.deep_view());
}

/// The highlighted suggestion, else the first of `suggestions`.
fn pick_completion(highlighted: Option<String>, suggestions: Vec<String>) -> (r: Option<String>)
    ensures
        r matches Some(x) ==> completion_spec(
            match highlighted { Some(h) => Some(h@), None => None },
            suggestions.deep_view(),
        ) == Some(x@),
        r is None ==> completion_spec(
            match highlighted { Some(h) => Some(h@), None => None },
            suggestions.deep_view(),
        ) is None,
{
    match highlighted {
        Some(h) => Some(h),
        None => {
            if suggestions.len() > 0 {
                assert(suggestions.deep_view()[0] == suggestions@[0]@);
                Some(suggestions[0].clone())
            } else {
                None
            }
        },
    }
}

impl Categories {
    /// The categories that start with `input`, in order.
    pub fn get_suggestions(&self, input: &str) -> (r: Vec<String>)
        ensures
            r.deep_view() == suggestions_spec(self@, input@),
    {
        let mut r: Vec<String> = Vec::new();
        push_prefixed(self.options.as_slice(), input, &mut r);
        assert(r.deep_view() =~= suggestions_spec(self@, input@));
        r
    }

    /// The completion for `input`: the highlighted suggestion, else the
    /// first category that starts with `input`.
    pub fn get_completion(&self, input: &str, highlighted_suggestion: Option<String>) -> (r: Option<String>)
        ensures
            r matches Some(x) ==> completion_spec(
                match highlighted_suggestion { Some(h) => Some(h@), None => None },
                suggestions_spec(self@, input@),
            ) == Some(x@),
            r is None ==> completion_spec(
                match highlighted_suggestion { Some(h) => Some(h@), None => None },
                suggestions_spec(self@, input@),
            ) is None,
    {
        let s = self.get_suggestions(input);
        pick_completion(highlighted_suggestion, s)
    }

    /// Whether `input` names one of these categories.
    pub fn validate(&self, input: &String) -> (r: bool)
        ensures
            r == self@.contains(input@),
    {
        contains_name(&self.options, input)
    }
}

/// The active and the archived categories together, for choosing a
/// category to filter by.
pub struct CategoriesPair<'a, 'b>(pub &'a Categories, pub &'b Categories);

impl<'a, 'b> CategoriesPair<'a, 'b> {
    /// The active, then the archived categories that start with `input`.
    pub fn get_suggestions(&self, input: &str) -> (r: Vec<String>)
        ensures
            r.deep_view() == suggestions_spec(self.0@, input@) + suggestions_spec(self.1@, input@),
    {
        let mut r: Vec<String> = Vec::new();
        push_prefixed(self.0.options.as_slice(), input, &mut r);
        push_prefixed(self.1.options.as_slice(), input, &mut r);
        assert(r.deep_view() =~= suggestions_spec(self.0@, input@) + suggestions_spec(self.1@, input@));
        r
    }

    /// The completion for `input`: the highlighted suggestion, else the
    /// first suggestion.
    pub fn get_completion(&self, input: &str, highlighted_suggestion: Option<String>) -> (r: Option<String>)
        ensures
            r matches Some(x) ==> completion_spec(
                match highlighted_suggestion { Some(h) => Some(h@), None => None },
                suggestions_spec(self.0@, input@) + suggestions_spec(self.1@, input@),
            ) == Some(x@),
            r is None ==> completion_spec(
                match highlighted_suggestion { Some(h) => Some(h@), None => None },
                suggestions_spec(self.0@, input@) + suggestions_spec(self.1@, input@),
            ) is None,
    {
        let s = self.get_suggestions(input);
        pick_completion(highlighted_suggestion, s)
    }

    /// Whether `input` names an active or an archived category.
    pub fn validate(&self, input: &String) -> (r: bool)
        ensures
            r == (self.0@.contains(input@) || self.1@.contains(input@)),
    {
        contains_name(&self.0.options, input) || contains_name(&self.1.options, input)
    }
}

/// `s` without one leading `#`.
pub fn strip_tag_marker(s: &str) -> (r: String)
    ensures
        r@ == strip_marker(s@),
{
    let v = chars_of(s);
    let mut out: Vec<char> = Vec::new();
    let mut i: usize = if v.len() > 0 && v[0] == '#' { 1 } else { 0 };
    let first = i;
    while i < v.len()
        invariant
            v@ == s@,
            first <= i <= v@.len(),
            first == (if s@.len() > 0 && s@[0] == '#' { 1int } else { 0 }),
            out@ == s@.subrange(first as int, i as int),
        decreases v@.len() - i,
    {
        out.push(v[i]);
        i = i + 1;
        assert(out@ =~= s@.subrange(first as int, i as int));
    }
    assert(s@.subrange(first as int, i as int) =~= strip_marker(s@));
    chars_to_string(out)
}

/// The registered tags, for completing a tag name written with or without
/// a leading `#`.
pub struct TagCompleter<'a>(pub &'a [String]);

/// `s` with `#` in front.
pub open spec fn with_marker(s: Seq<char>) -> Seq<char> {
    seq!['#'] + s
}

impl<'a> TagCompleter<'a> {
    /// The tags that start with `input` (a leading `#` in it ignored), each
    /// with `#` in front, in order.
    pub fn get_suggestions(&self, input: &str) -> (r: Vec<String>)
        ensures
            r.deep_view() == suggestions_spec(self.0.deep_view(), strip_marker(input@)).map_values(
                |s: Seq<char>| with_marker(s),
            ),
    {
        let p = strip_tag_marker(input);
        let mut found: Vec<String> = Vec::new();
        push_prefixed(self.0, p.as_str(), &mut found);
        assert(found.deep_view() =~= suggestions_spec(self.0.deep_view(), strip_marker(input@)));
        let ghost goal = found.deep_view().map_values(|s: Seq<char>| with_marker(s));
        let mut r: Vec<String> = Vec::new();
        let mut i: usize = 0;
        while i < found.len()
            invariant
                i <= found@.len(),
                goal == found.deep_view().map_values(|s: Seq<char>| with_marker(s)),
                r.deep_view() == goal.take(i as int),
            decreases found@.len() - i,
        {
            let mut cs: Vec<char> = Vec::new();
            cs.push('#');
            let body = chars_of(found[i].as_str());
            let mut j: usize = 0;
            while j < body.len()
                invariant
                    j <= body@.len(),
                    cs@ == seq!['#'] + body@.take(j as int),
                decreases body@.len() - j,
            {
                cs.push(body[j]);
                j = j + 1;
                assert(cs@ =~= seq!['#'] + body@.take(j as int));
            }
            assert(body@.take(j as int) =~= body@);
            let ghost text = cs@;
            let t = chars_to_string(cs);
            assert(t@ == text);
            let ghost before = r.deep_view();
            r.push(t);
            assert(r.deep_view() =~= before.push(with_marker(found@[i as int]@)));
            assert(found.deep_view()[i as int] == found@[i as int]@);
            assert(goal[i as int] == with_marker(found@[i as int]@));
            assert(r.deep_view() =~= goal.take(i as int + 1));
            i = i + 1;
        }
        assert(goal.take(i as int) =~= goal);
        r
    }

    /// The completion for `input`: the highlighted suggestion, else the
    /// first suggestion.
    pub fn get_completion(&self, input: &str, highlighted_suggestion: Option<String>) -> (r: Option<String>)
        ensures
            r matches Some(x) ==> completion_spec(
                match highlighted_suggestion { Some(h) => Some(h@), None => None },
                suggestions_spec(self.0.deep_view(), strip_marker(input@)).map_values(
                    |s: Seq<char>| with_marker(s),
                ),
            ) == Some(x@),
            r is None ==> completion_spec(
                match highlighted_suggestion { Some(h) => Some(h@), None => None },
                suggestions_spec(self.0.deep_view(), strip_marker(input@)).map_values(
                    |s: Seq<char>| with_marker(s),
                ),
            ) is None,
    {
        let s = self.get_suggestions(input);
        pick_completion(highlighted_suggestion, s)
    }
}

/// Why a command could not produce its intents.
#[derive(Clone, Copy, PartialEq, Eq, Structural, Debug)]
pub enum CommandError {
    /// The event counted back from the most recent one does not exist.
    NoSuchEvent { from_latest: usize, len: usize },
}

/// The intents that record `e`: add its category first where it is not an
/// active one and the user agreed to create it.
pub open spec fn record_spec(s: StoreView, e: EventView, create_category: bool) -> Option<Seq<Intent>> {
    if s.categories.contains(e.category) {
        Some(seq![Intent::AddEvent(e)])
    } else if create_category {
        Some(seq![Intent::AddCategory(e.category), Intent::AddEvent(e)])
    } else {
        None
    }
}

/// The intents that replace the event at `index` with `e`; none where its
/// category is not active and the user declined to create it.
pub open spec fn amend_spec(s: StoreView, index: int, e: EventView, create_category: bool) -> Seq<Intent> {
    if s.categories.contains(e.category) {
        seq![Intent::ChangeEvent { index, new_event: e }]
    } else if create_category {
        seq![Intent::AddCategory(e.category), Intent::ChangeEvent { index, new_event: e }]
    } else {
        Seq::empty()
    }
}

/// The intents that attach tag `t` to category `c`; none where the tag is
/// not registered and the user declined to create it.
pub open spec fn tag_spec(s: StoreView, c: Seq<char>, t: Seq<char>, create_tag: bool) -> Seq<Intent> {
    if s.tags.contains(t) {
        seq![Intent::TagCategory(c, t)]
    } else if create_tag {
        seq![Intent::AddTag(t), Intent::TagCategory(c, t)]
    } else {
        Seq::empty()
    }
}

impl SaveData {
    /// Whether `c` is an active category.
    pub fn has_category(&self, c: &String) -> (r: bool)
        ensures
            r == self@.categories.contains(c@),
    {
        contains_name(&self.categories.options, c)
    }

    /// Whether `t` is a registered tag.
    pub fn has_tag(&self, t: &String) -> (r: bool)
        ensures
            r == self@.tags.contains(t@),
    {
        contains_name(&self.tags, t)
    }

    /// The note of day `date`, if there is one.
    pub fn daily_note(&self, date: Date) -> (r: Option<&String>)
        ensures
            match lookup(self@.daily_notes, date) {
                Some(n) => r matches Some(x) && x@ == n,
                None => r is None,
            },
    {
        let k = find_note(&self.daily_notes, date);
        if k < self.daily_notes.len() {
            proof {
                crate::store::lemma_key_index(self@.daily_notes, date);
            }
            assert(notes_view(self.daily_notes@)[k as int] == self.daily_notes@[k as int]@);
            Some(&self.daily_notes[k].note)
        } else {
            None
        }
    }

    /// The index of the event `from_latest` places before the most recent
    /// one (0 is the most recent), if it exists.
    pub fn index_from_latest(&self, from_latest: usize) -> (r: Option<usize>)
        ensures
            r is Some == (from_latest < self@.events.len()),
            r matches Some(i) ==> i == self@.events.len() - 1 - from_latest,
    {
        let n = self.events.len();
        assert(self@.events.len() == self.events@.len());
        if from_latest < n {
            Some(n - 1 - from_latest)
        } else {
            None
        }
    }
}

/// The intents that record `event`; `None` where its category is not active
/// and the user declined to create it, so that the prompt asks again.
pub fn record_intents(save: &SaveData, event: Event, create_category: bool) -> (r: Option<Vec<DeltaItem>>)
    ensures
        match record_spec(save@, event@, create_category) {
            Some(is) => r matches Some(v) && intents_view(v@) == is,
            None => r is None,
        },
{
    let ghost e = event@;
    let mut v: Vec<DeltaItem> = Vec::new();
    if !save.has_category(&event.category) {
        if !create_category {
            return None;
        }
        v.push(DeltaItem::AddCategory(event.category.clone()));
    }
    v.push(DeltaItem::AddEvent(event));
    assert(intents_view(v@) =~= record_spec(save@, e, create_category).unwrap());
    Some(v)
}

/// The intents that replace the event `from_latest` places before the most
/// recent one with `event`, resolved against `save`, the store as it is
/// now: reload the store before calling this, so that an event added in
/// the meantime does not shift the target.
pub fn amend_intents(save: &SaveData, from_latest: usize, event: Event, create_category: bool)
    -> (r: Result<Vec<DeltaItem>, CommandError>)
    ensures
        from_latest < save@.events.len() ==> (r matches Ok(v) && intents_view(v@) == amend_spec(
            save@,
            save@.events.len() - 1 - from_latest,
            event@,
            create_category,
        )),
        from_latest >= save@.events.len() ==> r == Err::<Vec<DeltaItem>, CommandError>(
            CommandError::NoSuchEvent { from_latest, len: save@.events.len() as usize },
        ),
{
    let ghost e = event@;
    assert(save@.events.len() == save.events@.len());
    let index = match save.index_from_latest(from_latest) {
        Some(i) => i,
        None => {
            return Err(CommandError::NoSuchEvent { from_latest, len: save.events.len() });
        },
    };
    let mut v: Vec<DeltaItem> = Vec::new();
    if !save.has_category(&event.category) {
        if !create_category {
            assert(intents_view(v@) =~= Seq::<Intent>::empty());
            return Ok(v);
        }
        v.push(DeltaItem::AddCategory(event.category.clone()));
    }
    v.push(DeltaItem::ChangeEvent { index, new_event: event });
    assert(intents_view(v@) =~= amend_spec(save@, index as int, e, create_category));
    Ok(v)
}

/// The intent that archives `category`, or none where it is not active.
pub fn archive_main(save_data: SaveData, category: String) -> (r: Vec<DeltaItem>)
    ensures
        intents_view(r@) == (if save_data@.categories.contains(category@) {
            seq![Intent::ArchiveCategory(category@)]
        } else {
            Seq::empty()
        }),
{
    let ghost c = category@;
    let mut v: Vec<DeltaItem> = Vec::new();
    if save_data.has_category(&category) {
        v.push(DeltaItem::ArchiveCategory(category));
        assert(intents_view(v@) =~= seq![Intent::ArchiveCategory(c)]);
    } else {
        assert(intents_view(v@) =~= Seq::<Intent>::empty());
    }
    v
}

/// The intents that attach the tag written `tag_input` (a leading `#`
/// dropped) to `category`.
pub fn tag_intents(save: &SaveData, category: String, tag_input: &str, create_tag: bool) -> (r: Vec<DeltaItem>)
    ensures
        intents_view(r@) == tag_spec(save@, category@, strip_marker(tag_input@), create_tag),
{
    let tag = strip_tag_marker(tag_input);
    let ghost c = category@;
    let ghost t = tag@;
    let mut v: Vec<DeltaItem> = Vec::new();
    if !save.has_tag(&tag) {
        if !create_tag {
            assert(intents_view(v@) =~= Seq::<Intent>::empty());
            return v;
        }
        v.push(DeltaItem::AddTag(tag.clone()));
    }
    v.push(DeltaItem::TagCategory(category, tag));
    assert(intents_view(v@) =~= tag_spec(save@, c, t, create_tag));
    v
}

/// The second half of a command: the store as reloaded from disk, upgraded
/// to the current revision, with `intents` applied in order. An intent that
/// cannot apply fails the whole commit, so nothing of it is persisted.
pub fn commit(reloaded: SaveDataVersioned, intents: Vec<DeltaItem>) -> (r: Result<SaveData, ApplyError>)
    ensures
        r is Ok == apply_intents(reloaded@.latest(), intents_view(intents@)).1,
        r matches Ok(s) ==> s@ == apply_intents(reloaded@.latest(), intents_view(intents@)).0,
{
    let (mut data, _upgraded) = reloaded.extract();
    match data.apply(intents) {
        Ok(()) => Ok(data),
        Err(e) => Err(e),
    }
}

} // verus!
