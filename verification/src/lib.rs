//! Mirrors the live content of one watched text resource to many remote
//! observers: a debounced change detector feeds a diff codec, whose events a
//! broadcast bus fans out to per-subscriber sessions; a client state machine
//! rebuilds the mirrored content and drives reconnection.

pub mod bus;
pub mod client;
pub mod codec;
pub mod protocol;
pub mod session;
pub mod watcher;

use vstd::prelude::*;

verus! {

/// Size bound (in characters) under which a changed payload is resent whole
/// rather than as positional edits.
pub const FULL_CONTENT_LIMIT: usize = 1024;

/// A file's tracked state: its content, and when it last changed
/// (milliseconds since an arbitrary epoch).
#[derive(Debug, Clone)]
pub struct FileState {
    /// The file's content.
    pub content: String,
    /// When the content last changed, in milliseconds.
    pub last_modified_ms: u64,
}

impl FileState {
    /// A state stamped with the clock reading `now_ms` the caller took when
    /// the content changed.
    pub fn new(content: String, now_ms: u64) -> (state: Self)
        ensures
            state.content == content,
            state.last_modified_ms == now_ms,
    {
        FileState { content, last_modified_ms: now_ms }
    }
}

impl Default for FileState {
    /// Empty content, not yet stamped: the clock is the caller's to read,
    /// and zero marks that no change has been recorded.
    fn default() -> (state: Self)
        ensures
            state.content@ == Seq::<char>::empty(),
            state.last_modified_ms == 0,
    {
        FileState { content: String::new(), last_modified_ms: 0 }
    }
}

} // verus!
