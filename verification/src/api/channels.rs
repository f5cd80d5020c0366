//! The shape of a "list channels" response; only the fields the surrounding
//! application reads when a channel is added.

use vstd::prelude::*;

verus! {

pub struct Response {
    pub items: Vec<Channel>,
}

#[allow(non_snake_case)]
pub struct Channel {
    pub id: String,
    pub contentDetails: ContentDetails,
    pub snippet: Snippet,
}

#[allow(non_snake_case)]
pub struct ContentDetails {
    pub relatedPlaylists: RelatedPlaylists,
}

pub struct RelatedPlaylists {
    pub uploads: String,
}

pub struct Snippet {
    pub title: String,
    pub thumbnails: Thumbnails,
}

pub struct Thumbnails {
    pub medium: Thumbnail,
}

pub struct Thumbnail {
    pub url: String,
}

} // verus!
