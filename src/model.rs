use vstd::prelude::*;
use crate::entry::{Entry, FileProperty, SortOrder};
use crate::filtering::{filter_entries, filtered};
use crate::history::{History, increment_history, visited};
use crate::sorting::{sort_entries, sort_listing, sorted_from, sort_result, in_order, views};
use crate::text::{chars_of, push_char, push_range};
use crate::viewport::{ListViewData, step_down, step_up, step_resize};
use crate::render::NUM_ROWS_OUTSIDE_LISTVIEW;

verus! {

/// How key presses are read: as commands, or as filter text.
#[derive(Clone, Copy, PartialEq, Eq, Structural, Debug)]
pub enum Mode {
    Filter,
    Normal,
}

/// The key of a key press.
#[derive(Clone, Copy, PartialEq, Eq, Structural, Debug)]
pub enum KeyCode {
    Char(char),
    Backspace,
    Enter,
    Esc,
    Up,
    Down,
    Other,
}

/// The modifier keys held during a key press: none, exactly Shift,
/// exactly Control, or any other combination.
#[derive(Clone, Copy, PartialEq, Eq, Structural, Debug)]
pub enum KeyModifiers {
    Empty,
    Shift,
    Control,
    Other,
}

#[derive(Clone, Copy, PartialEq, Eq, Structural, Debug)]
pub struct KeyEvent {
    pub code: KeyCode,
    pub modifiers: KeyModifiers,
}

/// An input event from the terminal.
#[derive(Clone, Copy, PartialEq, Eq, Structural, Debug)]
pub enum Event {
    Key(KeyEvent),
    /// The terminal now has this many columns and rows.
    Resize(u16, u16),
    Other,
}

/// What an input asks for.
#[derive(Debug)]
pub enum Action {
    GotoDir(String),
    SetFilterText(String),
    SelectEntryUnderCursor,
    StartFilterMode,
    ChangeSortOrder(FileProperty),
    ReverseSort,
    TryCursorMoveUp,
    TryCursorMoveDown,
    Noop,
    Quit,
}

pub enum ActionView {
    GotoDir(Seq<char>),
    SetFilterText(Seq<char>),
    SelectEntryUnderCursor,
    StartFilterMode,
    ChangeSortOrder(FileProperty),
    ReverseSort,
    TryCursorMoveUp,
    TryCursorMoveDown,
    Noop,
    Quit,
}

impl View for Action {
    type V = ActionView;

    open spec fn view(&self) -> ActionView {
        match self {
            Action::GotoDir(p) => ActionView::GotoDir(p@),
            Action::SetFilterText(t) => ActionView::SetFilterText(t@),
            Action::SelectEntryUnderCursor => ActionView::SelectEntryUnderCursor,
            Action::StartFilterMode => ActionView::StartFilterMode,
            Action::ChangeSortOrder(a) => ActionView::ChangeSortOrder(*a),
            Action::ReverseSort => ActionView::ReverseSort,
            Action::TryCursorMoveUp => ActionView::TryCursorMoveUp,
            Action::TryCursorMoveDown => ActionView::TryCursorMoveDown,
            Action::Noop => ActionView::Noop,
            Action::Quit => ActionView::Quit,
        }
    }
}

/// What the event loop does next.
#[derive(Debug)]
pub enum UpdateResult {
    Continue,
    Finish,
    Failed(String),
    /// List this directory and hand the listing to `Model::enter_directory`.
    ReadDirectory(String),
}

/// A program in three parts: one that builds the model, one that draws it
/// and one that applies an event to it.
pub struct Program<Init, View, Update> {
    pub init: Init,
    pub view: View,
    pub update: Update,
}

/// Everything the browser knows.
pub struct Model {
    pub mode: Mode,
    pub cwd: String,
    /// The directory above `cwd`, where there is one.
    pub parent: Option<String>,
    pub cwd_sort: SortOrder,
    /// All entries of `cwd`, in the order `cwd_sort` asks for.
    pub sorted_entries: Vec<Entry>,
    pub filter_text: String,
    pub cols: usize,
    pub rows: usize,
    /// The entries that the filter text keeps.
    pub list_view: ListViewData,
    pub history_filepath: String,
    pub history: History,
}

pub open spec fn opt_view(o: Option<String>) -> Option<Seq<char>> {
    match o {
        Some(s) => Some(s@),
        None => None,
    }
}

/// How many list rows a terminal of `rows` rows shows (at least one).
pub open spec fn list_rows(rows: int) -> int {
    if rows > NUM_ROWS_OUTSIDE_LISTVIEW {
        rows - NUM_ROWS_OUTSIDE_LISTVIEW
    } else {
        1
    }
}

fn list_rows_of(rows: usize) -> (r: usize)
    ensures
        r == list_rows(rows as int),
        r >= 1,
{
    if rows > NUM_ROWS_OUTSIDE_LISTVIEW {
        rows - NUM_ROWS_OUTSIDE_LISTVIEW
    } else {
        1
    }
}

pub open spec fn name_ascending() -> SortOrder {
    SortOrder { fileproperty: FileProperty::Name, ascending: true }
}

impl Model {
    /// The list shows exactly the sorted entries that the filter text keeps,
    /// with the cursor inside the window.
    pub open spec fn wf(&self) -> bool {
        &&& self.list_view.wf()
        &&& views(self.list_view.items@) == filtered(views(self.sorted_entries@), self.filter_text@)
        &&& in_order(views(self.sorted_entries@), self.cwd_sort)
    }
}

/// The command that a key bound to sorting by `wanted` gives: reverse the
/// order when already sorted by it, else sort by it ascending.
pub open spec fn sort_key_action(current: FileProperty, wanted: FileProperty) -> ActionView {
    if current == wanted {
        ActionView::ReverseSort
    } else {
        ActionView::ChangeSortOrder(wanted)
    }
}

/// Going up: to the parent, where there is one.
pub open spec fn parent_action(parent: Option<Seq<char>>) -> ActionView {
    match parent {
        Some(p) => ActionView::GotoDir(p),
        None => ActionView::Noop,
    }
}

/// What a key does in normal mode.
pub open spec fn normal_action(k: KeyEvent, sort: FileProperty, parent: Option<Seq<char>>) -> ActionView {
    match k.code {
        KeyCode::Char(c) => if c == '/' {
            ActionView::StartFilterMode
        } else if c == 'n' {
            sort_key_action(sort, FileProperty::Name)
        } else if c == 's' {
            sort_key_action(sort, FileProperty::Size)
        } else if c == 'm' {
            sort_key_action(sort, FileProperty::Date)
        } else if c == 'k' {
            ActionView::TryCursorMoveUp
        } else if c == 'j' {
            ActionView::TryCursorMoveDown
        } else if c == 'q' {
            ActionView::Quit
        } else {
            ActionView::Noop
        },
        KeyCode::Backspace => parent_action(parent),
        KeyCode::Up => ActionView::TryCursorMoveUp,
        KeyCode::Down => ActionView::TryCursorMoveDown,
        KeyCode::Enter => ActionView::SelectEntryUnderCursor,
        KeyCode::Esc => ActionView::Quit,
        KeyCode::Other => ActionView::Noop,
    }
}

/// What a key does in filter mode: with Shift alone, upper-case letters are
/// commands; otherwise characters edit the filter text.
pub open spec fn filter_action(
    k: KeyEvent,
    sort: FileProperty,
    filter: Seq<char>,
    parent: Option<Seq<char>>,
) -> ActionView {
    if k.modifiers == KeyModifiers::Shift {
        match k.code {
            KeyCode::Char(c) => if c == 'K' {
                ActionView::TryCursorMoveUp
            } else if c == 'J' {
                ActionView::TryCursorMoveDown
            } else if c == 'N' {
                sort_key_action(sort, FileProperty::Name)
            } else if c == 'S' {
                sort_key_action(sort, FileProperty::Size)
            } else if c == 'M' {
                sort_key_action(sort, FileProperty::Date)
            } else if c == 'Q' {
                ActionView::Quit
            } else {
                ActionView::Noop
            },
            _ => ActionView::Noop,
        }
    } else {
        match k.code {
            KeyCode::Esc => ActionView::SetFilterText(Seq::empty()),
            KeyCode::Char(c) => ActionView::SetFilterText(filter.push(c)),
            KeyCode::Backspace => if filter.len() == 0 {
                parent_action(parent)
            } else {
                ActionView::SetFilterText(filter.drop_last())
            },
            KeyCode::Up => ActionView::TryCursorMoveUp,
            KeyCode::Down => ActionView::TryCursorMoveDown,
            KeyCode::Enter => ActionView::SelectEntryUnderCursor,
            KeyCode::Other => ActionView::Noop,
        }
    }
}

pub open spec fn action_for(m: &Model, k: KeyEvent) -> ActionView {
    match m.mode {
        Mode::Normal => normal_action(k, m.cwd_sort.fileproperty, opt_view(m.parent)),
        Mode::Filter => filter_action(
            k,
            m.cwd_sort.fileproperty,
            m.filter_text@,
            opt_view(m.parent),
        ),
    }
}

/// Ctrl+C, which quits from any mode.
pub open spec fn is_interrupt(k: KeyEvent) -> bool {
    k.modifiers == KeyModifiers::Control && k.code == KeyCode::Char('c')
}

fn sort_key(current: FileProperty, wanted: FileProperty) -> (r: Action)
    ensures
        r@ == sort_key_action(current, wanted),
{
    if current == wanted {
        Action::ReverseSort
    } else {
        Action::ChangeSortOrder(wanted)
    }
}

fn go_up(parent: &Option<String>) -> (r: Action)
    ensures
        r@ == parent_action(opt_view(*parent)),
{
    match parent {
        Some(p) => Action::GotoDir(p.clone()),
        None => Action::Noop,
    }
}

/// The action that key press `k` asks for in the model's mode.
pub fn decide_action(m: &Model, k: KeyEvent) -> (r: Action)
    ensures
        r@ == action_for(m, k),
{
    let sort = m.cwd_sort.fileproperty;
    match m.mode {
        Mode::Normal => match k.code {
            KeyCode::Char(c) => {
                if c == '/' {
                    Action::StartFilterMode
                } else if c == 'n' {
                    sort_key(sort, FileProperty::Name)
                } else if c == 's' {
                    sort_key(sort, FileProperty::Size)
                } else if c == 'm' {
                    sort_key(sort, FileProperty::Date)
                } else if c == 'k' {
                    Action::TryCursorMoveUp
                } else if c == 'j' {
                    Action::TryCursorMoveDown
                } else if c == 'q' {
                    Action::Quit
                } else {
                    Action::Noop
                }
            },
            KeyCode::Backspace => go_up(&m.parent),
            KeyCode::Up => Action::TryCursorMoveUp,
            KeyCode::Down => Action::TryCursorMoveDown,
            KeyCode::Enter => Action::SelectEntryUnderCursor,
            KeyCode::Esc => Action::Quit,
            KeyCode::Other => Action::Noop,
        },
        Mode::Filter => {
            if k.modifiers == KeyModifiers::Shift {
                match k.code {
                    KeyCode::Char(c) => {
                        if c == 'K' {
                            Action::TryCursorMoveUp
                        } else if c == 'J' {
                            Action::TryCursorMoveDown
                        } else if c == 'N' {
                            sort_key(sort, FileProperty::Name)
                        } else if c == 'S' {
                            sort_key(sort, FileProperty::Size)
                        } else if c == 'M' {
                            sort_key(sort, FileProperty::Date)
                        } else if c == 'Q' {
                            Action::Quit
                        } else {
                            Action::Noop
                        }
                    },
                    _ => Action::Noop,
                }
            } else {
                match k.code {
                    KeyCode::Esc => Action::SetFilterText(String::new()),
                    KeyCode::Char(c) => {
                        let mut t = m.filter_text.clone();
                        push_char(&mut t, c);
                        Action::SetFilterText(t)
                    },
                    KeyCode::Backspace => {
                        let cs = chars_of(m.filter_text.as_str());
                        if cs.len() == 0 {
                            go_up(&m.parent)
                        } else {
                            let mut t = String::new();
                            push_range(&mut t, &cs, 0, cs.len() - 1);
                            assert(t@ =~= m.filter_text@.drop_last());
                            Action::SetFilterText(t)
                        }
                    },
                    KeyCode::Up => Action::TryCursorMoveUp,
                    KeyCode::Down => Action::TryCursorMoveDown,
                    KeyCode::Enter => Action::SelectEntryUnderCursor,
                    KeyCode::Other => Action::Noop,
                }
            }
        },
    }
}

/// Shows the entries of `sorted` that `filter` keeps, from the top.
fn show_filtered(list_view: &mut ListViewData, sorted: &Vec<Entry>, filter: &String)
    requires
        old(list_view).wf(),
    ensures
        final(list_view).wf(),
        views(final(list_view).items@) == filtered(views(sorted@), filter@),
        filter@.len() == 0 ==> views(final(list_view).items@) == views(sorted@),
        final(list_view).cursor_index == 0,
        final(list_view).first_viewable_index == 0,
        final(list_view).max_items_visible == old(list_view).max_items_visible,
{
    let items = filter_entries(sorted, filter.as_str());
    list_view.reset_with_items(items);
}

/// The model for a session that starts in `cwd`, whose entries are
/// `listing` (in any order), on a terminal of `cols` by `rows`, with the
/// visit counts read at start-up. The start counts as a visit to `cwd`.
pub fn init(
    cwd: String,
    parent: Option<String>,
    listing: Vec<Entry>,
    cols: usize,
    rows: usize,
    history: History,
    history_filepath: String,
) -> (r: Model)
    ensures
        r.wf(),
        r.cwd@ == cwd@,
        opt_view(r.parent) == opt_view(parent),
        r.cwd_sort == name_ascending(),
        sorted_from(views(r.sorted_entries@), views(listing@), name_ascending()),
        r.filter_text@ == Seq::<char>::empty(),
        r.mode == Mode::Filter,
        r.cols == cols,
        r.rows == rows,
        views(r.list_view.items@) == views(r.sorted_entries@),
        r.list_view.cursor_index == 0,
        r.list_view.first_viewable_index == 0,
        r.list_view.max_items_visible == list_rows(rows as int),
        r.history@ == visited(history@, cwd@),
        r.history_filepath@ == history_filepath@,
{
    let sort = SortOrder { fileproperty: FileProperty::Name, ascending: true };
    let sorted_entries = sort_listing(listing, sort);
    let filter_text = String::new();
    let mut list_view = ListViewData::new(Vec::new(), list_rows_of(rows));
    show_filtered(&mut list_view, &sorted_entries, &filter_text);
    let mut history = history;
    increment_history(&mut history, cwd.clone());
    Model {
        mode: Mode::Filter,
        cwd,
        parent,
        cwd_sort: sort,
        sorted_entries,
        filter_text,
        cols,
        rows,
        list_view,
        history_filepath,
        history,
    }
}

/// `n` is `o` with other entries and view state: same directory, terminal,
/// history and file.
pub open spec fn same_place(o: &Model, n: &Model) -> bool {
    &&& n.cwd == o.cwd
    &&& n.parent == o.parent
    &&& n.cols == o.cols
    &&& n.rows == o.rows
    &&& n.history == o.history
    &&& n.history_filepath == o.history_filepath
}

/// The list of `n` was rebuilt: it shows, from the top, the entries that
/// the filter text keeps.
pub open spec fn list_rebuilt(o: &Model, n: &Model) -> bool {
    &&& views(n.list_view.items@) == filtered(views(n.sorted_entries@), n.filter_text@)
    &&& n.list_view.cursor_index == 0
    &&& n.list_view.first_viewable_index == 0
    &&& n.list_view.max_items_visible == o.list_view.max_items_visible
}

/// `n` is `o` with the cursor state `s` (and nothing else changed).
pub open spec fn cursor_moved(o: &Model, n: &Model, s: crate::viewport::ViewState) -> bool {
    &&& same_place(o, n)
    &&& n.mode == o.mode
    &&& n.cwd_sort == o.cwd_sort
    &&& n.sorted_entries == o.sorted_entries
    &&& n.filter_text == o.filter_text
    &&& n.list_view.items == o.list_view.items
    &&& n.list_view.state() == s
}

/// `n` is `o` sorted anew by `sort`.
pub open spec fn resorted(o: &Model, n: &Model, sort: SortOrder) -> bool {
    &&& same_place(o, n)
    &&& n.mode == o.mode
    &&& n.filter_text == o.filter_text
    &&& n.cwd_sort == sort
    &&& views(n.sorted_entries@) == sort_result(views(o.sorted_entries@), sort)
    &&& sorted_from(views(n.sorted_entries@), views(o.sorted_entries@), sort)
    &&& list_rebuilt(o, n)
}

/// What applying action `a` to `o` makes of it, and what the loop does next.
pub open spec fn applied(o: &Model, n: &Model, a: ActionView, r: &UpdateResult) -> bool {
    match a {
        ActionView::GotoDir(p) => *n == *o && r is ReadDirectory && r->ReadDirectory_0@ == p,
        ActionView::SelectEntryUnderCursor => *n == *o && if o.list_view.items@.len() > 0
            && o.list_view.items@[o.list_view.cursor_index as int].is_dir {
            r is ReadDirectory && r->ReadDirectory_0@ == o.list_view.items@[o.list_view.cursor_index as int].path@
        } else {
            r is Continue
        },
        ActionView::SetFilterText(t) => {
            &&& r is Continue
            &&& same_place(o, n)
            &&& n.mode == o.mode
            &&& n.cwd_sort == o.cwd_sort
            &&& n.sorted_entries == o.sorted_entries
            &&& n.filter_text@ == t
            &&& list_rebuilt(o, n)
        },
        ActionView::ChangeSortOrder(attribute) => r is Continue && resorted(
            o,
            n,
            SortOrder { fileproperty: attribute, ascending: true },
        ),
        ActionView::ReverseSort => r is Continue && resorted(
            o,
            n,
            SortOrder { fileproperty: o.cwd_sort.fileproperty, ascending: !o.cwd_sort.ascending },
        ),
        ActionView::TryCursorMoveUp => r is Continue && cursor_moved(o, n, step_up(o.list_view.state())),
        ActionView::TryCursorMoveDown => r is Continue && cursor_moved(
            o,
            n,
            step_down(o.list_view.state()),
        ),
        ActionView::StartFilterMode => r is Continue && *n == Model { mode: Mode::Filter, ..*o },
        ActionView::Noop => r is Continue && *n == *o,
        ActionView::Quit => r is Finish && *n == *o,
    }
}

impl Model {
    /// Enters directory `path`, whose entries are `listing` (in any order):
    /// sorted by name ascending, no filter text, filter mode, the list from
    /// the top, and one more visit to `path`.
    pub fn enter_directory(&mut self, path: String, parent: Option<String>, listing: Vec<Entry>)
        requires
            old(self).wf(),
        ensures
            final(self).wf(),
            final(self).cwd@ == path@,
            opt_view(final(self).parent) == opt_view(parent),
            final(self).cwd_sort == name_ascending(),
            sorted_from(views(final(self).sorted_entries@), views(listing@), name_ascending()),
            final(self).filter_text@ == Seq::<char>::empty(),
            final(self).mode == Mode::Filter,
            views(final(self).list_view.items@) == views(final(self).sorted_entries@),
            final(self).list_view.cursor_index == 0,
            final(self).list_view.first_viewable_index == 0,
            final(self).list_view.max_items_visible == old(self).list_view.max_items_visible,
            final(self).history@ == visited(old(self).history@, path@),
            final(self).cols == old(self).cols,
            final(self).rows == old(self).rows,
            final(self).history_filepath == old(self).history_filepath,
    {
        self.cwd_sort = SortOrder { fileproperty: FileProperty::Name, ascending: true };
        self.sorted_entries = sort_listing(listing, self.cwd_sort);
        self.filter_text = String::new();
        self.mode = Mode::Filter;
        show_filtered(&mut self.list_view, &self.sorted_entries, &self.filter_text);
        increment_history(&mut self.history, path.clone());
        self.cwd = path;
        self.parent = parent;
    }
}

/// Applies one input event. Ctrl+C finishes from any mode; a resize
/// re-clamps the list; a key press is turned into an action for the mode
/// and applied. Moving into a directory is handed back to the loop, which
/// lists it and calls `enter_directory`.
pub fn update(m: &mut Model, terminal_event: Event) -> (r: UpdateResult)
    requires
        old(m).wf(),
    ensures
        final(m).wf(),
        match terminal_event {
            Event::Key(k) => if is_interrupt(k) {
                r is Finish && *final(m) == *old(m)
            } else {
                applied(old(m), final(m), action_for(old(m), k), &r)
            },
            Event::Resize(cols, rows) => {
                &&& r is Continue
                &&& final(m).cols == cols
                &&& final(m).rows == rows
                &&& final(m).list_view.state() == step_resize(
                    old(m).list_view.state(),
                    list_rows(rows as int),
                )
                &&& final(m).list_view.items == old(m).list_view.items
                &&& final(m).cwd == old(m).cwd
                &&& final(m).parent == old(m).parent
                &&& final(m).history == old(m).history
                &&& final(m).history_filepath == old(m).history_filepath
                &&& final(m).mode == old(m).mode
                &&& final(m).cwd_sort == old(m).cwd_sort
                &&& final(m).sorted_entries == old(m).sorted_entries
                &&& final(m).filter_text == old(m).filter_text
            },
            Event::Other => r is Continue && *final(m) == *old(m),
        },
{
    let k = match terminal_event {
        Event::Key(k) => k,
        Event::Resize(cols, rows) => {
            m.cols = cols as usize;
            m.rows = rows as usize;
            m.list_view.set_max_height(list_rows_of(rows as usize));
            return UpdateResult::Continue;
        },
        Event::Other => {
            return UpdateResult::Continue;
        },
    };
    if k.modifiers == KeyModifiers::Control && k.code == KeyCode::Char('c') {
        return UpdateResult::Finish;
    }
    let action = decide_action(m, k);
    match action {
        Action::GotoDir(path) => UpdateResult::ReadDirectory(path),
        Action::SelectEntryUnderCursor => {
            if m.list_view.items.len() == 0 {
                return UpdateResult::Continue;
            }
            let entry = &m.list_view.items[m.list_view.cursor_index];
            if entry.is_dir {
                UpdateResult::ReadDirectory(entry.path.clone())
            } else {
                UpdateResult::Continue
            }
        },
        Action::SetFilterText(text) => {
            m.filter_text = text;
            show_filtered(&mut m.list_view, &m.sorted_entries, &m.filter_text);
            UpdateResult::Continue
        },
        Action::ChangeSortOrder(attribute) => {
            m.cwd_sort = SortOrder { fileproperty: attribute, ascending: true };
            m.sorted_entries = sort_entries(&m.sorted_entries, m.cwd_sort);
            show_filtered(&mut m.list_view, &m.sorted_entries, &m.filter_text);
            UpdateResult::Continue
        },
        Action::ReverseSort => {
            m.cwd_sort = SortOrder {
                fileproperty: m.cwd_sort.fileproperty,
                ascending: !m.cwd_sort.ascending,
            };
            m.sorted_entries = sort_entries(&m.sorted_entries, m.cwd_sort);
            show_filtered(&mut m.list_view, &m.sorted_entries, &m.filter_text);
            UpdateResult::Continue
        },
        Action::TryCursorMoveUp => {
            m.list_view.decrement_cursor();
            UpdateResult::Continue
        },
        Action::TryCursorMoveDown => {
            m.list_view.increment_cursor();
            UpdateResult::Continue
        },
        Action::StartFilterMode => {
            m.mode = Mode::Filter;
            UpdateResult::Continue
        },
        Action::Noop => UpdateResult::Continue,
        Action::Quit => UpdateResult::Finish,
    }
}

} // verus!
