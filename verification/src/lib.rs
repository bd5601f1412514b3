//! Verified core of the terminal input: shell quoting for prompt-chip
//! commands, completion-source policy, history ordering, shared-session
//! event ordering and the decisions the input view takes on key presses.

pub mod text;
pub mod shell_quote;
pub mod event_loop;
pub mod terminal_events;
pub mod workflow_ranges;
pub mod history;
pub mod completion;
pub mod shared_session;
pub mod input_state;
pub mod execution;
pub mod remote_edits;
pub mod key_handling;
pub mod decorations;
pub mod inline_menu;
pub mod prompt;
pub mod expansion;
pub mod suggestion_modes;
pub mod layout;
