// A dual-pane, vim-keyed file browser: listings, panes, and the session
// that turns key presses into changes of state and actions for the caller.
pub mod app;
pub mod listing;
pub mod mode;
pub mod pane;
pub mod text;
pub mod transition;
pub mod viewer;
