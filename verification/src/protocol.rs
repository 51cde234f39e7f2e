//! Protocol constants shared by the server and the client.

use vstd::prelude::*;

verus! {

/// The default endpoint a client connects to.
pub const DEFAULT_SERVER_URL: &'static str = "ws://localhost:3030";

/// The default port the server listens on.
pub const DEFAULT_SERVER_PORT: u16 = 3030;

/// The default file watched and mirrored.
pub const DEFAULT_WATCH_FILE: &'static str = "README.md";

} // verus!
