//! The dashboard's state machine: messages move the header cursor and the
//! scroll offset, edit and confirm filters, and name the effects (a prompt,
//! halting) that the driver loop performs.
use vstd::prelude::*;
use crate::filter::{Filter, FilterView};

verus! {

/// Lines moved by one scroll message.
pub const SCROLL_STEP: u16 = 3;

/// The last header column (the description column).
pub const LAST_COLUMN: usize = 3;

/// A header column: which kind of filter confirming on it creates.
#[derive(Clone, Copy, PartialEq, Eq, Structural, Debug)]
pub enum FilterCategory {
    StartDate,
    EndDate,
    Category,
    Description,
}

impl FilterCategory {
    /// The column at position `i`, or `None` past the last one.
    pub fn from_index(i: usize) -> (r: Option<FilterCategory>)
        ensures
            r == (if i == 0 {
                Some(FilterCategory::StartDate)
            } else if i == 1 {
                Some(FilterCategory::EndDate)
            } else if i == 2 {
                Some(FilterCategory::Category)
            } else if i == 3 {
                Some(FilterCategory::Description)
            } else {
                None
            }),
    {
        if i == 0 {
            Some(FilterCategory::StartDate)
        } else if i == 1 {
            Some(FilterCategory::EndDate)
        } else if i == 2 {
            Some(FilterCategory::Category)
        } else if i == 3 {
            Some(FilterCategory::Description)
        } else {
            None
        }
    }
}

/// An input to the dashboard.
#[derive(Clone, Copy, PartialEq, Eq, Structural, Debug)]
pub enum Message {
    Exit,
    ScrollDown,
    ScrollUp,
    TabLeft,
    TabRight,
    Enter,
    KeyTyped(char),
    Backspace,
    FinishFilter,
    CancelFilter,
}

/// Work that the driver loop does for the dashboard.
#[derive(Clone, Copy, PartialEq, Eq, Structural, Debug)]
pub enum Extrinsic {
    /// Stop the loop.
    Halt,
    /// Ask for a start date, then add it with `add_filter` and redraw.
    AskStartDate,
    /// Ask for an end date, then add it with `add_filter` and redraw.
    AskEndDate,
    /// Ask for a category among the active and archived ones, then add it
    /// with `add_filter` and redraw.
    AskCategory,
}

/// A key press, as the dashboard distinguishes them.
#[derive(Clone, Copy, PartialEq, Eq, Structural, Debug)]
pub enum Key {
    CtrlC,
    Up,
    Down,
    Left,
    Right,
    Enter,
    Backspace,
    Esc,
    Char(char),
    Other,
}

/// The message a key press gives; `editing` tells whether a description
/// filter is being typed.
pub open spec fn key_message_spec(k: Key, editing: bool) -> Option<Message> {
    match k {
        Key::CtrlC => Some(Message::Exit),
        Key::Down => Some(Message::ScrollDown),
        Key::Up => Some(Message::ScrollUp),
        _ => if editing {
            match k {
                Key::Backspace => Some(Message::Backspace),
                Key::Enter => Some(Message::FinishFilter),
                Key::Esc => Some(Message::CancelFilter),
                Key::Char(c) => Some(Message::KeyTyped(c)),
                _ => None,
            }
        } else {
            match k {
                Key::Char(c) => if c == 'q' { Some(Message::Exit) } else { None },
                Key::Left => Some(Message::TabLeft),
                Key::Right => Some(Message::TabRight),
                Key::Enter => Some(Message::Enter),
                _ => None,
            }
        },
    }
}

/// The message that key `k` gives; `editing` tells whether a description
/// filter is being typed.
pub fn key_message(k: Key, editing: bool) -> (r: Option<Message>)
    ensures
        r == key_message_spec(k, editing),
{
    match k {
        Key::CtrlC => Some(Message::Exit),
        Key::Down => Some(Message::ScrollDown),
        Key::Up => Some(Message::ScrollUp),
        _ => if editing {
            match k {
                Key::Backspace => Some(Message::Backspace),
                Key::Enter => Some(Message::FinishFilter),
                Key::Esc => Some(Message::CancelFilter),
                Key::Char(c) => Some(Message::KeyTyped(c)),
                _ => None,
            }
        } else {
            match k {
                Key::Char(c) => if c == 'q' { Some(Message::Exit) } else { None },
                Key::Left => Some(Message::TabLeft),
                Key::Right => Some(Message::TabRight),
                Key::Enter => Some(Message::Enter),
                _ => None,
            }
        },
    }
}

/// The dashboard's own state: the header cursor, the scroll offset, the
/// confirmed filters and the one being edited.
pub struct ViewState {
    pub scroll_position: u16,
    pub header_highlight: usize,
    pub applied_filters: Vec<Filter>,
    pub editing_filter: Option<Filter>,
}

/// The view of the dashboard's state.
pub struct ViewStateView {
    pub scroll: int,
    pub header: int,
    pub applied: Seq<FilterView>,
    pub editing: Option<FilterView>,
}

impl View for ViewState {
    type V = ViewStateView;

    open spec fn view(&self) -> ViewStateView {
        ViewStateView {
            scroll: self.scroll_position as int,
            header: self.header_highlight as int,
            applied: self.applied_filters@.map_values(|f: Filter| f@),
            editing: match self.editing_filter {
                Some(f) => Some(f@),
                None => None,
            },
        }
    }
}

/// The state after message `m`, and the effect it asks of the driver loop.
pub open spec fn step(s: ViewStateView, m: Message) -> (ViewStateView, Option<Extrinsic>) {
    match m {
        Message::Exit => (s, Some(Extrinsic::Halt)),
        Message::ScrollDown => (
            ViewStateView {
                scroll: if s.scroll + 3 > u16::MAX { u16::MAX as int } else { s.scroll + 3 },
                ..s
            },
            None,
        ),
        Message::ScrollUp => (
            ViewStateView { scroll: if s.scroll < 3 { 0 } else { s.scroll - 3 }, ..s },
            None,
        ),
        Message::TabLeft => (
            ViewStateView { header: if s.header == 0 { 0 } else { s.header - 1 }, ..s },
            None,
        ),
        Message::TabRight => (
            ViewStateView {
                header: if s.header + 1 < 3 { s.header + 1 } else { 3 },
                ..s
            },
            None,
        ),
        Message::Enter => if s.header == 0 {
            (s, Some(Extrinsic::AskStartDate))
        } else if s.header == 1 {
            (s, Some(Extrinsic::AskEndDate))
        } else if s.header == 2 {
            (s, Some(Extrinsic::AskCategory))
        } else if s.header == 3 {
            (ViewStateView { editing: Some(FilterView::Description(Seq::empty())), ..s }, None)
        } else {
            (s, None)
        },
        Message::KeyTyped(c) => match s.editing {
            Some(FilterView::Description(t)) => (
                ViewStateView { editing: Some(FilterView::Description(t.push(c))), ..s },
                None,
            ),
            _ => (s, None),
        },
        Message::Backspace => match s.editing {
            Some(FilterView::Description(t)) => (
                ViewStateView {
                    editing: Some(
                        FilterView::Description(if t.len() > 0 { t.drop_last() } else { t }),
                    ),
                    ..s
                },
                None,
            ),
            _ => (s, None),
        },
        Message::FinishFilter => match s.editing {
            Some(f) => (ViewStateView { applied: s.applied.push(f), editing: None, ..s }, None),
            None => (s, None),
        },
        Message::CancelFilter => (ViewStateView { editing: None, ..s }, None),
    }
}

/// Relies on `String::push`: appends the character.
#[verifier::external_body]
fn push_char(s: &mut String, c: char)
    ensures
        final(s)@ == old(s)@.push(c),
{
    s.push(c)
}

/// Relies on `String::pop`: removes the last character, if there is one.
#[verifier::external_body]
fn pop_char(s: &mut String)
    ensures
        final(s)@ == (if old(s)@.len() > 0 { old(s)@.drop_last() } else { old(s)@ }),
{
    s.pop();
}

impl ViewState {
    /// The state of a fresh dashboard: cursor on the first column, no
    /// scrolling, no filters.
    pub fn new() -> (r: ViewState)
        ensures
            r@ == (ViewStateView {
                scroll: 0,
                header: 0,
                applied: Seq::empty(),
                editing: None,
            }),
    {
        let r = ViewState {
            scroll_position: 0,
            header_highlight: 0,
            applied_filters: Vec::new(),
            editing_filter: None,
        };
        assert(r@.applied =~= Seq::empty());
        r
    }

    /// Whether a description filter is being typed.
    pub fn is_editing_description(&self) -> (r: bool)
        ensures
            r == (self@.editing matches Some(FilterView::Description(_))),
    {
        match &self.editing_filter {
            Some(Filter::Description(_)) => true,
            _ => false,
        }
    }

    /// Handles one message and names the effect, if any, that the driver
    /// loop must perform.
    pub fn handle_message(&mut self, message: Message) -> (r: Option<Extrinsic>)
        ensures
            (final(self)@, r) == step(old(self)@, message),
    {
        let ghost s = self@;
        match message {
            Message::Exit => {
                return Some(Extrinsic::Halt);
            },
            Message::ScrollDown => {
                self.scroll_position = if self.scroll_position > u16::MAX - SCROLL_STEP {
                    u16::MAX
                } else {
                    self.scroll_position + SCROLL_STEP
                };
            },
            Message::ScrollUp => {
                self.scroll_position = if self.scroll_position < SCROLL_STEP {
                    0
                } else {
                    self.scroll_position - SCROLL_STEP
                };
            },
            Message::TabLeft => {
                self.header_highlight = if self.header_highlight == 0 {
                    0
                } else {
                    self.header_highlight - 1
                };
            },
            Message::TabRight => {
                self.header_highlight = if self.header_highlight < LAST_COLUMN - 1 {
                    self.header_highlight + 1
                } else {
                    LAST_COLUMN
                };
            },
            Message::Enter => {
                match FilterCategory::from_index(self.header_highlight) {
                    Some(FilterCategory::StartDate) => {
                        return Some(Extrinsic::AskStartDate);
                    },
                    Some(FilterCategory::EndDate) => {
                        return Some(Extrinsic::AskEndDate);
                    },
                    Some(FilterCategory::Category) => {
                        return Some(Extrinsic::AskCategory);
                    },
                    Some(FilterCategory::Description) => {
                        self.editing_filter = Some(Filter::Description(String::new()));
                    },
                    None => {},
                }
            },
            Message::KeyTyped(c) => {
                if let Some(Filter::Description(t)) = &mut self.editing_filter {
                    push_char(t, c);
                }
            },
            Message::Backspace => {
                if let Some(Filter::Description(t)) = &mut self.editing_filter {
                    pop_char(t);
                }
            },
            Message::FinishFilter => {
                let editing = self.editing_filter.take();
                if let Some(f) = editing {
                    let ghost fv = f@;
                    self.applied_filters.push(f);
                    assert(self@.applied =~= s.applied.push(fv));
                }
            },
            Message::CancelFilter => {
                self.editing_filter = None;
            },
        }
        None
    }

    /// Adds a filter that a prompt produced.
    pub fn add_filter(&mut self, f: Filter)
        ensures
            final(self)@ == (ViewStateView { applied: old(self)@.applied.push(f@), ..old(self)@ }),
    {
        let ghost s = self@;
        let ghost fv = f@;
        self.applied_filters.push(f);
        assert(self@.applied =~= s.applied.push(fv));
    }
}

} // verus!
