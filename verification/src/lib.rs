//! A streamed download engine without any I/O of its own.
//!
//! The caller owns the network connection, the destination file and the
//! progress display. This crate decides everything else: how the destination
//! is named, what the display is set up with, which bytes go to the file and
//! in which order, what position is shown after each chunk, and how a
//! transfer ends. Every function here is verified against its contract; the
//! one call that is trusted draws the random number of a fallback name.

pub mod error;
pub mod naming;
pub mod progress;
pub mod run;
pub mod transfer;

pub use error::DownloadError;
pub use naming::{
    choose_name, decimal, derived_name, digit, fallback_name, fallback_name_of, last_slash,
    prepare_file_name, resolve_name, resolved_name,
};
pub use progress::{
    advance, bar_chars, bar_setup_of, bar_template, completion_message, completion_message_of,
    counter_template, limit_of, next_position, prepare_progress_bar, BarSetup, BarSetupView,
};
pub use run::{chunk_events, handed_over, position_after, reported, run};
pub use transfer::{
    start_of, step_of, Action, ActionView, Event, EventView, Response, Status, Transfer,
    TransferView,
};
