use taskit::aggregate::aggregate;
use taskit::commands::{amend_intents, archive_main, commit, record_intents, tag_intents, CommandError};
use taskit::date::Date;
use taskit::delta::{Apply, ApplyError, DeltaItem};
use taskit::schema::{SaveData, SaveDataV1, SaveDataV2, SaveDataV3, SaveDataVersioned};
use taskit::store::{Categories, Event, TagEntry};
use taskit::time::SimpleTime;

fn time(h: u8, m: u8) -> SimpleTime {
    SimpleTime::try_new(h, m).unwrap()
}

fn day(y: i32, m: u32, d: u32) -> Date {
    Date::from_ymd(y, m, d).unwrap()
}

fn event(date: Date, start: SimpleTime, end: SimpleTime, category: &str, comments: &str) -> Event {
    Event {
        start_time: start,
        end_time: end,
        date,
        category: category.to_string(),
        comments: comments.to_string(),
    }
}

fn categories(names: &[&str]) -> Categories {
    Categories { options: names.iter().map(|s| s.to_string()).collect() }
}

fn work_event() -> Event {
    event(day(2024, 1, 1), time(9, 0), time(17, 30), "Work", "")
}

fn totals_of(save: &SaveData) -> taskit::aggregate::Totals {
    aggregate(&save.events, &vec![], &None, &save.categories, &save.tags, &save.tag_map)
}

#[test]
fn record_work_persist_and_reload() {
    let mut save = SaveData::new();
    save.apply(DeltaItem::AddCategory("Work".to_string())).unwrap();
    save.apply(DeltaItem::AddEvent(work_event())).unwrap();
    let (reloaded, upgraded) = SaveDataVersioned::V4(save).extract();
    assert!(!upgraded);
    assert_eq!(reloaded.events.len(), 1);
    assert_eq!(reloaded.events[0].category, "Work");
    assert_eq!(reloaded.events[0].start_time, time(9, 0));
    let totals = totals_of(&reloaded);
    assert_eq!(totals.all, 510);
    assert_eq!(totals.by_category.len(), 1);
    assert_eq!(totals.by_category[0].0, "Work");
    assert_eq!(totals.by_category[0].1, 510);
    assert_eq!(taskit::time::duration_to_string(totals.by_category[0].1), "8h30m");
}

#[test]
fn archive_keeps_history() {
    let mut save = SaveData::new();
    save.apply(vec![
        DeltaItem::AddCategory("Work".to_string()),
        DeltaItem::AddCategory("Play".to_string()),
        DeltaItem::AddEvent(work_event()),
    ])
    .unwrap();
    let intents = archive_main(
        SaveDataVersioned::V4(SaveData::new()).extract().0,
        "Work".to_string(),
    );
    assert!(intents.is_empty());
    let mut plan_source = SaveData::new();
    plan_source.apply(DeltaItem::AddCategory("Work".to_string())).unwrap();
    let intents = archive_main(plan_source, "Work".to_string());
    assert_eq!(intents.len(), 1);
    save.apply(intents).unwrap();
    assert_eq!(save.categories.options, vec!["Play".to_string()]);
    assert_eq!(save.archived_categories.options, vec!["Work".to_string()]);
    assert!(save.categories.get_suggestions("W").is_empty());
    assert_eq!(save.events[0].category, "Work");
    let totals = totals_of(&save);
    assert_eq!(totals.all, 510);
    assert_eq!(totals.by_category, vec![("Play".to_string(), 0)]);
}

#[test]
fn amend_resolves_against_reloaded_store() {
    let mut before = SaveData::new();
    before.apply(vec![DeltaItem::AddCategory("Work".to_string()), DeltaItem::AddEvent(work_event())]).unwrap();
    assert_eq!(before.index_from_latest(0), Some(0));
    let mut now = SaveData::new();
    now.apply(vec![
        DeltaItem::AddCategory("Work".to_string()),
        DeltaItem::AddEvent(work_event()),
        DeltaItem::AddEvent(event(day(2024, 1, 2), time(8, 0), time(9, 0), "Work", "second")),
    ])
    .unwrap();
    let amended = event(day(2024, 1, 2), time(8, 0), time(10, 0), "Work", "fixed");
    let intents = amend_intents(&now, 0, amended, false).unwrap();
    match &intents[..] {
        [DeltaItem::ChangeEvent { index, .. }] => assert_eq!(*index, 1),
        _ => panic!("expected one replacement"),
    }
    now.apply(intents).unwrap();
    assert_eq!(now.events[0].comments, "");
    assert_eq!(now.events[1].comments, "fixed");
    assert_eq!(now.events[1].end_time, time(10, 0));
}

#[test]
fn amend_of_missing_event_is_an_error() {
    let save = SaveData::new();
    let e = work_event();
    assert_eq!(
        amend_intents(&save, 0, e, true).unwrap_err(),
        CommandError::NoSuchEvent { from_latest: 0, len: 0 }
    );
}

#[test]
fn amend_with_declined_category_changes_nothing() {
    let mut save = SaveData::new();
    save.apply(vec![DeltaItem::AddCategory("Work".to_string()), DeltaItem::AddEvent(work_event())]).unwrap();
    let e = event(day(2024, 1, 1), time(9, 0), time(10, 0), "Gym", "");
    assert!(amend_intents(&save, 0, e, false).unwrap().is_empty());
    let e = event(day(2024, 1, 1), time(9, 0), time(10, 0), "Gym", "");
    assert_eq!(amend_intents(&save, 0, e, true).unwrap().len(), 2);
}

#[test]
fn record_creates_category_only_when_asked() {
    let save = SaveData::new();
    assert!(record_intents(&save, work_event(), false).is_none());
    let intents = record_intents(&save, work_event(), true).unwrap();
    assert!(matches!(intents[0], DeltaItem::AddCategory(ref c) if c == "Work"));
    assert!(matches!(intents[1], DeltaItem::AddEvent(_)));
    let mut save = save;
    save.apply(intents).unwrap();
    let again = record_intents(&save, work_event(), false).unwrap();
    assert_eq!(again.len(), 1);
}

#[test]
fn add_category_is_idempotent() {
    let mut save = SaveData::new();
    save.apply(DeltaItem::AddCategory("Work".to_string())).unwrap();
    save.apply(DeltaItem::AddCategory("Work".to_string())).unwrap();
    assert_eq!(save.categories.options.len(), 1);
    save.apply(DeltaItem::AddTag("deep".to_string())).unwrap();
    save.apply(DeltaItem::AddTag("deep".to_string())).unwrap();
    assert_eq!(save.tags, vec!["deep".to_string()]);
}

#[test]
fn archiving_an_inactive_category_still_records_it() {
    let mut save = SaveData::new();
    save.apply(DeltaItem::ArchiveCategory("Old".to_string())).unwrap();
    save.apply(DeltaItem::ArchiveCategory("Old".to_string())).unwrap();
    assert!(save.categories.options.is_empty());
    assert_eq!(save.archived_categories.options.len(), 2);
}

#[test]
fn change_event_out_of_range_is_an_error() {
    let mut save = SaveData::new();
    let r = save.apply(DeltaItem::ChangeEvent { index: 0, new_event: work_event() });
    assert_eq!(r, Err(ApplyError::EventIndexOutOfRange { index: 0, len: 0 }));
    assert!(save.events.is_empty());
}

#[test]
fn list_stops_at_first_failing_intent() {
    let mut save = SaveData::new();
    let r = save.apply(vec![
        DeltaItem::AddCategory("A".to_string()),
        DeltaItem::ChangeEvent { index: 3, new_event: work_event() },
        DeltaItem::AddCategory("B".to_string()),
    ]);
    assert_eq!(r, Err(ApplyError::EventIndexOutOfRange { index: 3, len: 0 }));
    assert_eq!(save.categories.options, vec!["A".to_string()]);
}

#[test]
fn apply_of_concatenation_equals_apply_in_two_steps() {
    let a = || vec![DeltaItem::AddCategory("Work".to_string()), DeltaItem::AddEvent(work_event())];
    let b = || {
        vec![
            DeltaItem::ArchiveCategory("Work".to_string()),
            DeltaItem::ChangeEvent { index: 0, new_event: event(day(2024, 1, 1), time(1, 0), time(2, 0), "Work", "x") },
        ]
    };
    let mut once = SaveData::new();
    let mut all = a();
    all.extend(b());
    once.apply(all).unwrap();
    let mut twice = SaveData::new();
    twice.apply(a()).unwrap();
    twice.apply(b()).unwrap();
    assert_eq!(once.categories.options, twice.categories.options);
    assert_eq!(once.archived_categories.options, twice.archived_categories.options);
    assert_eq!(once.events.len(), twice.events.len());
    assert_eq!(once.events[0].comments, twice.events[0].comments);
    assert_eq!(once.events[0].start_time, twice.events[0].start_time);
}

#[test]
fn tag_category_and_daily_notes() {
    let mut save = SaveData::new();
    save.apply(vec![
        DeltaItem::TagCategory("Work".to_string(), "focus".to_string()),
        DeltaItem::TagCategory("Work".to_string(), "focus".to_string()),
        DeltaItem::TagCategory("Work".to_string(), "paid".to_string()),
        DeltaItem::SetDailyNote(day(2024, 1, 1), "first".to_string()),
        DeltaItem::SetDailyNote(day(2024, 1, 1), "second".to_string()),
    ])
    .unwrap();
    assert_eq!(save.tag_map.len(), 1);
    assert_eq!(save.tag_map[0].tags, vec!["focus".to_string(), "paid".to_string()]);
    assert_eq!(save.daily_notes.len(), 1);
    assert_eq!(save.daily_note(day(2024, 1, 1)).map(|s| s.as_str()), Some("second"));
    assert_eq!(save.daily_note(day(2024, 1, 2)), None);
}

#[test]
fn tag_intents_strip_marker_and_create() {
    let mut save = SaveData::new();
    save.apply(DeltaItem::AddCategory("Work".to_string())).unwrap();
    assert!(tag_intents(&save, "Work".to_string(), "#focus", false).is_empty());
    let intents = tag_intents(&save, "Work".to_string(), "#focus", true);
    assert!(matches!(intents[0], DeltaItem::AddTag(ref t) if t == "focus"));
    save.apply(intents).unwrap();
    let intents = tag_intents(&save, "Work".to_string(), "focus", false);
    assert_eq!(intents.len(), 1);
    assert!(save.has_tag(&"focus".to_string()));
}

#[test]
fn upgrade_from_first_revision() {
    let v1 = SaveDataV1 { categories: categories(&["Work"]), events: vec![work_event()] };
    let (data, upgraded) = SaveDataVersioned::V1(v1).extract();
    assert!(upgraded);
    assert_eq!(data.categories.options, vec!["Work".to_string()]);
    assert!(data.archived_categories.options.is_empty());
    assert!(data.tags.is_empty());
    assert!(data.tag_map.is_empty());
    assert!(data.daily_notes.is_empty());
    assert_eq!(data.events.len(), 1);
}

#[test]
fn upgrade_from_second_and_third_revisions() {
    let v2 = SaveDataV2 { categories: categories(&["A"]), archived_categories: categories(&["B"]), events: vec![] };
    let (data, upgraded) = SaveDataVersioned::V2(v2).extract();
    assert!(upgraded);
    assert_eq!(data.archived_categories.options, vec!["B".to_string()]);
    assert!(data.tags.is_empty());
    let v3 = SaveDataV3 {
        categories: categories(&["A"]),
        archived_categories: categories(&[]),
        tags: vec!["t".to_string()],
        tag_map: vec![TagEntry { category: "A".to_string(), tags: vec!["t".to_string()] }],
        events: vec![],
    };
    let (data, upgraded) = SaveDataVersioned::V3(v3).extract();
    assert!(upgraded);
    assert_eq!(data.tags, vec!["t".to_string()]);
    assert_eq!(data.tag_map[0].category, "A");
    assert!(data.daily_notes.is_empty());
    let (_, upgraded) = SaveDataVersioned::default().extract();
    assert!(!upgraded);
}

#[test]
fn commit_reloads_and_applies() {
    let v1 = SaveDataV1 { categories: categories(&["Work"]), events: vec![work_event()] };
    let saved = commit(SaveDataVersioned::V1(v1), vec![DeltaItem::AddEvent(work_event())]).unwrap();
    assert_eq!(saved.events.len(), 2);
    let v1 = SaveDataV1 { categories: categories(&[]), events: vec![] };
    let r = commit(SaveDataVersioned::V1(v1), vec![DeltaItem::ChangeEvent { index: 0, new_event: work_event() }]);
    assert!(r.is_err());
}

#[test]
fn category_totals_sum_to_total_and_tags_follow_categories() {
    let mut save = SaveData::new();
    save.apply(vec![
        DeltaItem::AddCategory("Work".to_string()),
        DeltaItem::AddCategory("Gym".to_string()),
        DeltaItem::AddCategory("Read".to_string()),
        DeltaItem::AddTag("health".to_string()),
        DeltaItem::AddTag("all".to_string()),
        DeltaItem::AddTag("unused".to_string()),
        DeltaItem::TagCategory("Gym".to_string(), "health".to_string()),
        DeltaItem::TagCategory("Gym".to_string(), "all".to_string()),
        DeltaItem::TagCategory("Work".to_string(), "all".to_string()),
        DeltaItem::AddEvent(event(day(2024, 1, 1), time(9, 0), time(12, 0), "Work", "")),
        DeltaItem::AddEvent(event(day(2024, 1, 1), time(23, 0), time(1, 0), "Gym", "")),
        DeltaItem::AddEvent(event(day(2024, 1, 2), time(7, 0), time(7, 45), "Read", "")),
    ])
    .unwrap();
    let t = totals_of(&save);
    assert_eq!(t.all, 180 + 120 + 45);
    let names: Vec<&str> = t.by_category.iter().map(|p| p.0.as_str()).collect();
    assert_eq!(names, vec!["Gym", "Read", "Work"]);
    assert_eq!(t.by_category.iter().map(|p| p.1).sum::<u64>(), t.all);
    assert_eq!(
        t.by_tag,
        vec![("all".to_string(), 300), ("health".to_string(), 120), ("unused".to_string(), 0)]
    );
}
