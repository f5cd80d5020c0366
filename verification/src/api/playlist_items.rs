//! The shape of a "list playlist items" response; only the fields the
//! pipeline reads.

use vstd::prelude::*;

verus! {

pub struct Response {
    pub items: Vec<Playlist>,
}

#[allow(non_snake_case)]
pub struct Playlist {
    pub contentDetails: ContentDetails,
}

/// `videoPublishedAt` can be missing when a video was privated but is still
/// listed in the channel's uploads playlist.
#[allow(non_snake_case)]
pub struct ContentDetails {
    pub videoPublishedAt: Option<String>,
    pub videoId: String,
}

} // verus!
