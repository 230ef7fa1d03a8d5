//! Limits that the agents work within.

use vstd::prelude::*;

verus! {

/// The longest topic path that a client can carry, in bytes.
pub const MAX_TOPIC_LEN: usize = 256;

/// The longest client token that AWS IoT Jobs accepts, in bytes.
pub const MAX_CLIENT_TOKEN_LEN: usize = 64;

/// The longest stream name that AWS IoT hands out, in bytes.
pub const MAX_STREAM_ID_LEN: usize = 128;

/// The number of levels that a topic path is split into. The last of them keeps
/// whatever follows the first seven.
pub const MAX_TOPIC_LEVELS: usize = 8;

/// The number of topics that one subscription can name.
pub const MAX_SUBSCRIPTIONS: usize = 5;

} // verus!
