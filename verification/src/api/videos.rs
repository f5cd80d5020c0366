//! The shape of a "list videos" response; only the fields the pipeline reads.

use vstd::prelude::*;

verus! {

pub struct Response {
    pub items: Vec<Video>,
}

#[allow(non_snake_case)]
pub struct Video {
    pub id: String,
    pub contentDetails: Option<ContentDetails>,
    pub liveStreamingDetails: Option<LiveStreamingDetails>,
    pub snippet: Snippet,
}

/// A scheduled live stream that has not started has no duration yet.
pub struct ContentDetails {
    pub duration: Option<String>,
}

/// Present only on live or was-live items; `actualStartTime` is present once
/// the broadcast has actually begun.
#[allow(non_snake_case)]
pub struct LiveStreamingDetails {
    pub actualStartTime: Option<String>,
}

#[allow(non_snake_case)]
pub struct Snippet {
    pub publishedAt: String,
    pub title: String,
    pub description: String,
    pub thumbnails: Thumbnails,
    pub channelId: String,
    pub channelTitle: String,
}

pub struct Thumbnails {
    pub standard: Option<Thumbnail>,
    pub maxres: Option<Thumbnail>,
}

pub struct Thumbnail {
    pub url: String,
}

} // verus!
