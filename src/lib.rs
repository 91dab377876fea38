//! A terminal directory browser's navigation engine: entry ordering and
//! filtering, the scrolling list viewport, the visit-frequency history store,
//! screen layout and the dispatcher that turns input events into state changes.

pub mod entry;
pub mod filtering;
pub mod history;
pub mod layout;
pub mod model;
pub mod order;
pub mod render;
pub mod sorting;
pub mod text;
pub mod viewport;

pub use entry::{Entry, FileDate, FileName, FileProperty, FileSize, SortOrder};
pub use filtering::filter_entries;
pub use history::{
    History, HistoryError, HistoryRecord, increment_history, parse_history, parse_record,
};
pub use layout::{Layout, Pt, Rect};
pub use model::{
    Action, Event, KeyCode, KeyEvent, KeyModifiers, Mode, Model, Program, UpdateResult,
    decide_action, init, update,
};
pub use render::{
    DATE_COLUMN_WIDTH, MARGIN_WIDTH, NUM_ROWS_OUTSIDE_LISTVIEW, SIZE_COLUMN_WIDTH, cwd_line,
    divider, footer_line, header_line, row_line, sort_indicator,
};
pub use sorting::{sort_entries, sort_listing};
pub use text::{fit_to_length, pad_align_left, pad_align_right, str_length, str_width};
pub use viewport::ListViewData;
