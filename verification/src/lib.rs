//! Clipboard history manager: the verified core of the application.
//!
//! The modules hold what the application decides and computes: how clipboard
//! text is normalised and when it is recorded, how history entries are shown,
//! how the list selection moves, which migrations run and in what order, and
//! the settings. Reading the clipboard, the database, the file system and
//! drawing the window are left to the program around this library.

pub mod clock;
pub mod decimal;
pub mod events;
pub mod item_view;
pub mod listener;
pub mod migration;
pub mod models;
pub mod selection;
pub mod service;
pub mod settings;
pub mod state;
pub mod text;
pub mod time_ago;

pub use clock::unix_now;
pub use events::{AppEvent, UiAction};
pub use item_view::{ClipboardItemView, ItemType};
pub use listener::ListenerState;
pub use migration::{get_pending_migrations, migration_id, sort_migration_files, MigrationFile};
pub use models::{ClipboardContentType, ClipboardEntry, ContentTypeError};
pub use selection::Selection;
pub use service::{
    entry_to_insert, fts_query, history_query_for, prepare_clipboard_text, HistoryQuery,
    HISTORY_REFRESH_LIMIT,
};
pub use settings::Settings;
pub use state::AppState;
pub use text::normalize;
pub use time_ago::{format_time_ago, format_time_ago_at};
