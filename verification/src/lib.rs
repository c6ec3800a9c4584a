//! State, URL-input rules and history/bookmark bookkeeping of a small tabbed browser.
pub mod text;
pub mod find;
pub mod model;
pub mod input;
pub mod tabs;
pub mod history;
pub mod bookmarks;
pub mod shortcuts;
pub mod startup;
