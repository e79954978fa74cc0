//! The plain data type the playlist endpoints exchange.

use vstd::prelude::*;

verus! {

/// What a request to create a playlist carries.
pub struct CreatePlaylistPayload {
    pub name: String,
    pub description: Option<String>,
}

} // verus!
