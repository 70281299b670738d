use taskit::commands::{strip_tag_marker, CategoriesPair, TagCompleter};
use taskit::dashboard::{key_message, Extrinsic, Key, Message, ViewState};
use taskit::date::Date;
use taskit::filter::{passes, Filter};
use taskit::store::{Categories, Event};
use taskit::time::SimpleTime;
use taskit::timeline::{day_runs, sort_newest_first, visible_indices};

fn ev(y: i32, m: u32, d: u32, sh: u8, eh: u8, category: &str, comments: &str) -> Event {
    Event {
        start_time: SimpleTime::try_new(sh, 0).unwrap(),
        end_time: SimpleTime::try_new(eh, 0).unwrap(),
        date: Date::from_ymd(y, m, d).unwrap(),
        category: category.to_string(),
        comments: comments.to_string(),
    }
}

fn cats(names: &[&str]) -> Categories {
    Categories { options: names.iter().map(|s| s.to_string()).collect() }
}

#[test]
fn filters_combine_in_any_order() {
    let events = vec![
        ev(2024, 1, 1, 9, 10, "Work", "wrote report"),
        ev(2024, 1, 2, 9, 10, "Work", "meeting"),
        ev(2024, 1, 3, 9, 10, "Gym", "report card"),
    ];
    let f1 = || Filter::Category("Work".to_string());
    let f2 = || Filter::Description("report".to_string());
    let a = vec![f1(), f2()];
    let b = vec![f2(), f1()];
    let va = visible_indices(&events, &a, &None);
    let vb = visible_indices(&events, &b, &None);
    assert_eq!(va, vec![0]);
    assert_eq!(va, vb);
}

#[test]
fn date_filters_are_inclusive() {
    let events = vec![ev(2024, 1, 1, 9, 10, "W", ""), ev(2024, 1, 2, 9, 10, "W", ""), ev(2024, 1, 3, 9, 10, "W", "")];
    let from = Filter::StartDate(Date::from_ymd(2024, 1, 2).unwrap());
    let to = Filter::EndDate(Date::from_ymd(2024, 1, 2).unwrap());
    assert_eq!(visible_indices(&events, &vec![from], &None), vec![1, 2]);
    assert_eq!(visible_indices(&events, &vec![to], &None), vec![0, 1]);
}

#[test]
fn editing_filter_counts_like_a_confirmed_one() {
    let e = ev(2024, 1, 1, 9, 10, "Work", "Report");
    assert!(passes(&vec![], &None, &e));
    assert!(!passes(&vec![], &Some(Filter::Description("report".to_string())), &e));
    assert!(passes(&vec![], &Some(Filter::Description("Rep".to_string())), &e));
    assert!(passes(&vec![], &Some(Filter::Description(String::new())), &e));
}

#[test]
fn scrolling_saturates() {
    let mut s = ViewState::new();
    assert_eq!(s.handle_message(Message::ScrollUp), None);
    assert_eq!(s.scroll_position, 0);
    s.handle_message(Message::ScrollDown);
    s.handle_message(Message::ScrollDown);
    assert_eq!(s.scroll_position, 6);
    s.handle_message(Message::ScrollUp);
    assert_eq!(s.scroll_position, 3);
    s.scroll_position = u16::MAX - 1;
    s.handle_message(Message::ScrollDown);
    assert_eq!(s.scroll_position, u16::MAX);
}

#[test]
fn header_cursor_stays_in_range() {
    let mut s = ViewState::new();
    s.handle_message(Message::TabLeft);
    assert_eq!(s.header_highlight, 0);
    for _ in 0..10 {
        s.handle_message(Message::TabRight);
    }
    assert_eq!(s.header_highlight, 3);
}

#[test]
fn enter_asks_for_prompts_on_date_and_category_columns() {
    let mut s = ViewState::new();
    assert_eq!(s.handle_message(Message::Enter), Some(Extrinsic::AskStartDate));
    s.handle_message(Message::TabRight);
    assert_eq!(s.handle_message(Message::Enter), Some(Extrinsic::AskEndDate));
    s.handle_message(Message::TabRight);
    assert_eq!(s.handle_message(Message::Enter), Some(Extrinsic::AskCategory));
    s.add_filter(Filter::Category("Work".to_string()));
    assert_eq!(s.applied_filters.len(), 1);
    assert_eq!(s.handle_message(Message::Exit), Some(Extrinsic::Halt));
}

#[test]
fn description_filter_is_typed_then_confirmed() {
    let mut s = ViewState::new();
    for _ in 0..3 {
        s.handle_message(Message::TabRight);
    }
    assert_eq!(s.handle_message(Message::Enter), None);
    assert!(s.is_editing_description());
    s.handle_message(Message::KeyTyped('a'));
    s.handle_message(Message::KeyTyped('b'));
    s.handle_message(Message::KeyTyped('c'));
    s.handle_message(Message::Backspace);
    match &s.editing_filter {
        Some(Filter::Description(t)) => assert_eq!(t, "ab"),
        _ => panic!("expected a description being edited"),
    }
    s.handle_message(Message::FinishFilter);
    assert!(s.editing_filter.is_none());
    match &s.applied_filters[..] {
        [Filter::Description(t)] => assert_eq!(t, "ab"),
        _ => panic!("expected one confirmed description"),
    }
}

#[test]
fn description_filter_can_be_cancelled() {
    let mut s = ViewState::new();
    s.header_highlight = 3;
    s.handle_message(Message::Enter);
    s.handle_message(Message::Backspace);
    s.handle_message(Message::KeyTyped('x'));
    s.handle_message(Message::CancelFilter);
    assert!(s.editing_filter.is_none());
    assert!(s.applied_filters.is_empty());
}

#[test]
fn keys_map_to_messages() {
    assert_eq!(key_message(Key::CtrlC, true), Some(Message::Exit));
    assert_eq!(key_message(Key::Down, false), Some(Message::ScrollDown));
    assert_eq!(key_message(Key::Char('q'), false), Some(Message::Exit));
    assert_eq!(key_message(Key::Char('q'), true), Some(Message::KeyTyped('q')));
    assert_eq!(key_message(Key::Enter, false), Some(Message::Enter));
    assert_eq!(key_message(Key::Enter, true), Some(Message::FinishFilter));
    assert_eq!(key_message(Key::Esc, true), Some(Message::CancelFilter));
    assert_eq!(key_message(Key::Esc, false), None);
    assert_eq!(key_message(Key::Left, true), None);
    assert_eq!(key_message(Key::Right, false), Some(Message::TabRight));
}

#[test]
fn category_suggestions_and_validation() {
    let active = cats(&["Work", "Walk", "Gym"]);
    let archived = cats(&["Wood"]);
    assert_eq!(active.get_suggestions("W"), vec!["Work".to_string(), "Walk".to_string()]);
    assert_eq!(active.get_completion("Wa", None), Some("Walk".to_string()));
    assert_eq!(active.get_completion("Wa", Some("Work".to_string())), Some("Work".to_string()));
    assert_eq!(active.get_completion("X", None), None);
    assert!(active.validate(&"Gym".to_string()));
    assert!(!active.validate(&"Wood".to_string()));
    let pair = CategoriesPair(&active, &archived);
    assert_eq!(pair.get_suggestions("Wo"), vec!["Work".to_string(), "Wood".to_string()]);
    assert!(pair.validate(&"Wood".to_string()));
    assert!(!pair.validate(&"wood".to_string()));
    assert_eq!(pair.get_completion("Woo", None), Some("Wood".to_string()));
}

#[test]
fn tag_suggestions_carry_the_marker() {
    let tags = vec!["focus".to_string(), "fun".to_string(), "paid".to_string()];
    let c = TagCompleter(&tags);
    assert_eq!(c.get_suggestions("#f"), vec!["#focus".to_string(), "#fun".to_string()]);
    assert_eq!(c.get_suggestions("fo"), vec!["#focus".to_string()]);
    assert_eq!(c.get_completion("p", None), Some("#paid".to_string()));
    assert_eq!(strip_tag_marker("#x"), "x");
    assert_eq!(strip_tag_marker("##x"), "#x");
    assert_eq!(strip_tag_marker("x"), "x");
}

#[test]
fn events_sort_newest_first_and_group_by_day() {
    let events = vec![
        ev(2024, 1, 1, 9, 10, "A", "first"),
        ev(2024, 1, 2, 8, 10, "A", "third"),
        ev(2024, 1, 2, 12, 13, "A", "second"),
        ev(2024, 1, 1, 9, 11, "B", "tie"),
    ];
    let sorted = sort_newest_first(events);
    let order: Vec<&str> = sorted.iter().map(|e| e.comments.as_str()).collect();
    assert_eq!(order, vec!["second", "third", "first", "tie"]);
    let vis = visible_indices(&sorted, &vec![], &None);
    let runs = day_runs(&sorted, &vis);
    assert_eq!(runs.len(), 2);
    assert_eq!((runs[0].first, runs[0].end, runs[0].minutes), (0, 2, 60 + 120));
    assert_eq!((runs[1].first, runs[1].end, runs[1].minutes), (2, 4, 60 + 120));
    assert_eq!(runs[1].date, Date::from_ymd(2024, 1, 1).unwrap());
    let only_a = visible_indices(&sorted, &vec![Filter::Category("B".to_string())], &None);
    assert_eq!(only_a, vec![3]);
    assert!(day_runs(&sorted, &vec![]).is_empty());
}
