//! Buffering of "open this file" requests that the operating system delivers
//! before, or while, the interface is ready to receive them.
//!
//! `store` holds the ordered buffer, its two operations, append and drain,
//! and the command that drains it; `listener` turns delivered locators into
//! paths and decides what to store and what to announce. The buffer has one
//! owner in the process, which serialises every operation on it behind a
//! single lock: each append and each drain is one call on `PendingOpens`.
mod listener;
mod store;

pub use listener::{file_paths, law_filtering_is_stateless, resolve_locators, resolved_paths, OpenListener};
pub use store::{after_appends, all_appended, appended, drained, replay, take_pending_opens, PendingOpens};
pub use store::{
    law_appends_concatenate, law_each_path_drained_once, law_empty_append_is_no_op,
    law_second_drain_is_empty,
};
