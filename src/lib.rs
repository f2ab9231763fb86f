//! Controller for browsing and answering pull-request review threads from a terminal.
pub mod thread;
pub mod skip;
pub mod partition;
pub mod scroll;
pub mod app;
pub mod replies;
pub mod input;
pub mod text;
pub mod gh;

pub use app::{App, Status, Tick, View};
pub use gh::{GitHub, PullRequest};
pub use input::{Component, Controls, CtrlC, Event, Key, Modifiers, Scroll};
pub use replies::{Flow, QueuedReply, ReplyQueue};
pub use skip::SkipStore;
pub use thread::{Comment, FetchError, Thread, Timestamp};
