//! The revisions of the persisted schema, the tagged union over them, and
//! the forward-only chain that upgrades any revision to the current one.
use vstd::prelude::*;
use crate::date::Date;
use crate::store::{Categories, DailyNote, Event, EventView, TagEntry};

verus! {

/// The first revision: categories and events.
#[derive(Debug)]
pub struct SaveDataV1 {
    pub categories: Categories,
    pub events: Vec<Event>,
}

/// The second revision adds archived categories.
#[derive(Debug)]
pub struct SaveDataV2 {
    pub categories: Categories,
    pub archived_categories: Categories,
    pub events: Vec<Event>,
}

/// The third revision adds the tag registry and the category-to-tags map.
#[derive(Debug)]
pub struct SaveDataV3 {
    pub categories: Categories,
    pub archived_categories: Categories,
    pub tags: Vec<String>,
    pub tag_map: Vec<TagEntry>,
    pub events: Vec<Event>,
}

/// The fourth and current revision adds daily notes.
#[derive(Debug)]
pub struct SaveDataV4 {
    pub categories: Categories,
    pub archived_categories: Categories,
    pub tags: Vec<String>,
    pub tag_map: Vec<TagEntry>,
    pub events: Vec<Event>,
    pub daily_notes: Vec<DailyNote>,
}

/// The current revision of the store.
pub type SaveData = SaveDataV4;

/// A store in any of its revisions, as read from or written to disk.
#[derive(Debug)]
pub enum SaveDataVersioned {
    V1(SaveDataV1),
    V2(SaveDataV2),
    V3(SaveDataV3),
    V4(SaveDataV4),
}

/// The view of a first-revision store.
pub struct V1View {
    pub categories: Seq<Seq<char>>,
    pub events: Seq<EventView>,
}

/// The view of a second-revision store.
pub struct V2View {
    pub categories: Seq<Seq<char>>,
    pub archived_categories: Seq<Seq<char>>,
    pub events: Seq<EventView>,
}

/// The view of a third-revision store.
pub struct V3View {
    pub categories: Seq<Seq<char>>,
    pub archived_categories: Seq<Seq<char>>,
    pub tags: Seq<Seq<char>>,
    pub tag_map: Seq<(Seq<char>, Seq<Seq<char>>)>,
    pub events: Seq<EventView>,
}

/// The view of a current store.
pub struct StoreView {
    pub categories: Seq<Seq<char>>,
    pub archived_categories: Seq<Seq<char>>,
    pub tags: Seq<Seq<char>>,
    pub tag_map: Seq<(Seq<char>, Seq<Seq<char>>)>,
    pub events: Seq<EventView>,
    pub daily_notes: Seq<(Date, Seq<char>)>,
}

/// The view of a store in any revision.
pub enum VersionedView {
    V1(V1View),
    V2(V2View),
    V3(V3View),
    V4(StoreView),
}

/// The views of a list of events.
pub open spec fn events_view(v: Seq<Event>) -> Seq<EventView> {
    v.map_values(|e: Event| e@)
}

/// The views of a list of tag entries.
pub open spec fn tag_map_view(v: Seq<TagEntry>) -> Seq<(Seq<char>, Seq<Seq<char>>)> {
    v.map_values(|e: TagEntry| e@)
}

/// The views of a list of daily notes.
pub open spec fn notes_view(v: Seq<DailyNote>) -> Seq<(Date, Seq<char>)> {
    v.map_values(|n: DailyNote| n@)
}

impl View for SaveDataV1 {
    type V = V1View;

    open spec fn view(&self) -> V1View {
        V1View { categories: self.categories@, events: events_view(self.events@) }
    }
}

impl View for SaveDataV2 {
    type V = V2View;

    open spec fn view(&self) -> V2View {
        V2View {
            categories: self.categories@,
            archived_categories: self.archived_categories@,
            events: events_view(self.events@),
        }
    }
}

impl View for SaveDataV3 {
    type V = V3View;

    open spec fn view(&self) -> V3View {
        V3View {
            categories: self.categories@,
            archived_categories: self.archived_categories@,
            tags: self.tags.deep_view(),
            tag_map: tag_map_view(self.tag_map@),
            events: events_view(self.events@),
        }
    }
}

impl View for SaveDataV4 {
    type V = StoreView;

    open spec fn view(&self) -> StoreView {
        StoreView {
            categories: self.categories@,
            archived_categories: self.archived_categories@,
            tags: self.tags.deep_view(),
            tag_map: tag_map_view(self.tag_map@),
            events: events_view(self.events@),
            daily_notes: notes_view(self.daily_notes@),
        }
    }
}

impl View for SaveDataVersioned {
    type V = VersionedView;

    open spec fn view(&self) -> VersionedView {
        match self {
            SaveDataVersioned::V1(d) => VersionedView::V1(d@),
            SaveDataVersioned::V2(d) => VersionedView::V2(d@),
            SaveDataVersioned::V3(d) => VersionedView::V3(d@),
            SaveDataVersioned::V4(d) => VersionedView::V4(d@),
        }
    }
}

impl V1View {
    /// The same store in the second revision: no archived categories.
    pub open spec fn upgrade(self) -> V2View {
        V2View {
            categories: self.categories,
            archived_categories: Seq::empty(),
            events: self.events,
        }
    }
}

impl V2View {
    /// The same store in the third revision: no tags, an empty tag map.
    pub open spec fn upgrade(self) -> V3View {
        V3View {
            categories: self.categories,
            archived_categories: self.archived_categories,
            tags: Seq::empty(),
            tag_map: Seq::empty(),
            events: self.events,
        }
    }
}

impl V3View {
    /// The same store in the current revision: no daily notes.
    pub open spec fn upgrade(self) -> StoreView {
        StoreView {
            categories: self.categories,
            archived_categories: self.archived_categories,
            tags: self.tags,
            tag_map: self.tag_map,
            events: self.events,
            daily_notes: Seq::empty(),
        }
    }
}

impl StoreView {
    /// The empty store.
    pub open spec fn empty() -> StoreView {
        StoreView {
            categories: Seq::empty(),
            archived_categories: Seq::empty(),
            tags: Seq::empty(),
            tag_map: Seq::empty(),
            events: Seq::empty(),
            daily_notes: Seq::empty(),
        }
    }
}

impl VersionedView {
    /// One step of the upgrade chain; the current revision stays as it is.
    pub open spec fn upgrade_once(self) -> VersionedView {
        match self {
            VersionedView::V1(d) => VersionedView::V2(d.upgrade()),
            VersionedView::V2(d) => VersionedView::V3(d.upgrade()),
            VersionedView::V3(d) => VersionedView::V4(d.upgrade()),
            VersionedView::V4(d) => VersionedView::V4(d),
        }
    }

    /// How many upgrade steps lead to the current revision.
    pub open spec fn steps_to_latest(self) -> nat {
        match self {
            VersionedView::V1(_) => 3,
            VersionedView::V2(_) => 2,
            VersionedView::V3(_) => 1,
            VersionedView::V4(_) => 0,
        }
    }

    /// The result of upgrading until the current revision is reached.
    pub open spec fn latest(self) -> StoreView
        decreases self.steps_to_latest(),
    {
        match self {
            VersionedView::V4(d) => d,
            _ => self.upgrade_once().latest(),
        }
    }
}

/// Each revision reaches the current one in at most three steps, keeping
/// every field it had and giving each field it lacked its empty default.
pub proof fn lemma_upgrade_chain(v: VersionedView)
    ensures
        v.steps_to_latest() <= 3,
        v.latest() == match v {
            VersionedView::V1(d) => StoreView {
                categories: d.categories,
                archived_categories: Seq::empty(),
                tags: Seq::empty(),
                tag_map: Seq::empty(),
                events: d.events,
                daily_notes: Seq::empty(),
            },
            VersionedView::V2(d) => StoreView {
                categories: d.categories,
                archived_categories: d.archived_categories,
                tags: Seq::empty(),
                tag_map: Seq::empty(),
                events: d.events,
                daily_notes: Seq::empty(),
            },
            VersionedView::V3(d) => StoreView {
                categories: d.categories,
                archived_categories: d.archived_categories,
                tags: d.tags,
                tag_map: d.tag_map,
                events: d.events,
                daily_notes: Seq::empty(),
            },
            VersionedView::V4(d) => d,
        },
{
    reveal_with_fuel(VersionedView::latest, 4);
}

/// The empty list of categories.
pub fn empty_categories() -> (r: Categories)
    ensures
        r@ == Seq::<Seq<char>>::empty(),
{
    let r = Categories { options: Vec::new() };
    assert(r@ =~= Seq::<Seq<char>>::empty());
    r
}

impl SaveDataV1 {
    /// This store in the second revision.
    pub fn upgrade(self) -> (r: SaveDataV2)
        ensures
            r@ == self@.upgrade(),
    {
        SaveDataV2 {
            categories: self.categories,
            archived_categories: empty_categories(),
            events: self.events,
        }
    }
}

impl SaveDataV2 {
    /// This store in the third revision.
    pub fn upgrade(self) -> (r: SaveDataV3)
        ensures
            r@ == self@.upgrade(),
    {
        let r = SaveDataV3 {
            categories: self.categories,
            archived_categories: self.archived_categories,
            tags: Vec::new(),
            tag_map: Vec::new(),
            events: self.events,
        };
        assert(r.tags.deep_view() =~= Seq::<Seq<char>>::empty());
        assert(tag_map_view(r.tag_map@) =~= Seq::empty());
        r
    }
}

impl SaveDataV3 {
    /// This store in the current revision.
    pub fn upgrade(self) -> (r: SaveDataV4)
        ensures
            r@ == self@.upgrade(),
    {
        let r = SaveDataV4 {
            categories: self.categories,
            archived_categories: self.archived_categories,
            tags: self.tags,
            tag_map: self.tag_map,
            events: self.events,
            daily_notes: Vec::new(),
        };
        assert(notes_view(r.daily_notes@) =~= Seq::empty());
        r
    }
}

impl SaveDataV4 {
    /// The empty store.
    pub fn new() -> (r: SaveDataV4)
        ensures
            r@ == StoreView::empty(),
    {
        let r = SaveDataV4 {
            categories: empty_categories(),
            archived_categories: empty_categories(),
            tags: Vec::new(),
            tag_map: Vec::new(),
            events: Vec::new(),
            daily_notes: Vec::new(),
        };
        assert(r.tags.deep_view() =~= Seq::<Seq<char>>::empty());
        assert(tag_map_view(r.tag_map@) =~= Seq::empty());
        assert(events_view(r.events@) =~= Seq::empty());
        assert(notes_view(r.daily_notes@) =~= Seq::empty());
        r
    }
}

impl SaveDataVersioned {
    /// Whether this store is in an earlier revision than the current one.
    pub fn outdated(&self) -> (r: bool)
        ensures
            r == !(self@ is V4),
    {
        match self {
            SaveDataVersioned::V4(_) => false,
            _ => true,
        }
    }

    /// One step of the upgrade chain.
    pub fn upgrade_once(self) -> (r: SaveDataVersioned)
        requires
            !(self@ is V4),
        ensures
            r@ == self@.upgrade_once(),
            r@.steps_to_latest() + 1 == self@.steps_to_latest(),
    {
        match self {
            SaveDataVersioned::V1(d) => SaveDataVersioned::V2(d.upgrade()),
            SaveDataVersioned::V2(d) => SaveDataVersioned::V3(d.upgrade()),
            SaveDataVersioned::V3(d) => SaveDataVersioned::V4(d.upgrade()),
            SaveDataVersioned::V4(d) => SaveDataVersioned::V4(d),
        }
    }

    /// The store in the current revision, and whether any upgrade step ran.
    pub fn extract(self) -> (r: (SaveData, bool))
        ensures
            r.0@ == self@.latest(),
            r.1 == !(self@ is V4),
    {
        if let SaveDataVersioned::V4(data) = self {
            return (data, false);
        }
        let ghost start = self@;
        let mut cur = self;
        while cur.outdated()
            invariant
                cur@.latest() == start.latest(),
            decreases cur@.steps_to_latest(),
        {
            cur = cur.upgrade_once();
        }
        (cur.as_latest(), true)
    }

    /// The store held, which is in the current revision.
    fn as_latest(self) -> (r: SaveData)
        requires
            self@ is V4,
        ensures
            r@ == self@.latest(),
    {
        match self {
            SaveDataVersioned::V4(data) => data,
            _ => vstd::pervasive::unreached(),
        }
    }
}

impl Default for SaveDataVersioned {
    /// An empty store in the current revision.
    fn default() -> (r: SaveDataVersioned)
        ensures
            r@ == VersionedView::V4(StoreView::empty()),
    {
        SaveDataVersioned::V4(SaveDataV4::new())
    }
}

} // verus!
