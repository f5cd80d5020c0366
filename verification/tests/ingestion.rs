use kadium::api::playlist_items;
use kadium::api::videos;
use kadium::background::ChannelInfo;
use kadium::db::{check_insert_rows, ids_query_string, Video, VideoStore};
use kadium::errors::{IngestError, ParseError, PersistenceError};
use kadium::ingest::{
    ingest, materialize_videos, playlist_items_url, select_new_ids, videos_url,
};

fn playlist_item(id: &str, published_at: Option<&str>) -> playlist_items::Playlist {
    playlist_items::Playlist {
        contentDetails: playlist_items::ContentDetails {
            videoPublishedAt: published_at.map(|s| s.to_string()),
            videoId: id.to_string(),
        },
    }
}

fn detail_item(
    id: &str,
    duration: Option<&str>,
    live_actual_start: Option<Option<&str>>,
    published_at: &str,
) -> videos::Video {
    videos::Video {
        id: id.to_string(),
        contentDetails: Some(videos::ContentDetails { duration: duration.map(|d| d.to_string()) }),
        liveStreamingDetails: live_actual_start.map(|start| videos::LiveStreamingDetails {
            actualStartTime: start.map(|s| s.to_string()),
        }),
        snippet: videos::Snippet {
            publishedAt: published_at.to_string(),
            title: format!("title of {}", id),
            description: String::new(),
            thumbnails: videos::Thumbnails { standard: None, maxres: None },
            channelId: "chan".to_string(),
            channelTitle: "Chan".to_string(),
        },
    }
}

fn record(id: &str) -> Video {
    Video {
        id: id.to_string(),
        title: String::new(),
        description: String::new(),
        publishTimeMs: 0,
        durationMs: 0,
        thumbnailStandard: false,
        thumbnailMaxres: false,
        channelId: "chan".to_string(),
        channelName: "Chan".to_string(),
        unread: true,
        archived: false,
    }
}

const T1: &str = "2021-10-08T14:00:00Z";
const T1_MS: i64 = 1633701600000;

#[test]
fn urls_carry_the_playlist_and_the_joined_ids() {
    assert_eq!(
        playlist_items_url("UUabc"),
        "https://www.googleapis.com/youtube/v3/playlistItems?part=contentDetails&maxResults=50&playlistId=UUabc"
    );
    let ids = vec!["a".to_string(), "b".to_string(), "c".to_string()];
    assert_eq!(
        videos_url(&ids),
        "https://www.googleapis.com/youtube/v3/videos?part=contentDetails,liveStreamingDetails,snippet&id=a,b,c"
    );
    assert_eq!(
        videos_url(&vec!["solo".to_string()]),
        "https://www.googleapis.com/youtube/v3/videos?part=contentDetails,liveStreamingDetails,snippet&id=solo"
    );
}

#[test]
fn two_of_three_discovered_ids_already_exist() {
    let items = vec![
        playlist_item("a", Some(T1)),
        playlist_item("b", Some(T1)),
        playlist_item("c", Some(T1)),
    ];
    let existing = vec!["a".to_string(), "c".to_string()];
    let new_ids = select_new_ids(&items, &existing, 0).unwrap();
    // the detail request covers exactly the one remaining id
    assert_eq!(new_ids, vec!["b".to_string()]);
    assert_eq!(
        videos_url(&new_ids),
        "https://www.googleapis.com/youtube/v3/videos?part=contentDetails,liveStreamingDetails,snippet&id=b"
    );
}

#[test]
fn from_time_boundary_is_strict() {
    let items = vec![playlist_item("old", Some(T1)), playlist_item("edge", Some(T1))];
    // strictly before the floor: skipped
    let selected = select_new_ids(&items, &Vec::new(), T1_MS + 1).unwrap();
    assert!(selected.is_empty());
    // exactly at the floor: kept
    let selected = select_new_ids(&items, &Vec::new(), T1_MS).unwrap();
    assert_eq!(selected, vec!["old".to_string(), "edge".to_string()]);
}

#[test]
fn unannounced_items_are_skipped_not_errors() {
    let items = vec![playlist_item("private", None), playlist_item("ok", Some(T1))];
    let selected = select_new_ids(&items, &Vec::new(), 0).unwrap();
    assert_eq!(selected, vec!["ok".to_string()]);
}

#[test]
fn a_bad_announced_timestamp_aborts_the_channel() {
    let items = vec![playlist_item("ok", Some(T1)), playlist_item("bad", Some("yesterday"))];
    let err = select_new_ids(&items, &Vec::new(), 0).unwrap_err();
    assert!(matches!(err, IngestError::Parse(ParseError::InvalidTimestamp)));
}

#[test]
fn scheduled_live_stream_is_skipped_until_it_starts() {
    // announced but not started: no duration and no actual start
    let pending = vec![detail_item("live1", None, Some(None), T1)];
    assert!(materialize_videos(&pending, 0).unwrap().is_empty());
    // has a duration already but still no actual start
    let pending = vec![detail_item("live1", Some("PT10M"), Some(None), T1)];
    assert!(materialize_videos(&pending, 0).unwrap().is_empty());
    // started: the record's publish time is the actual start, not the snippet time
    let started = vec![detail_item(
        "live1",
        Some("PT10M"),
        Some(Some("2023-01-02T03:04:05+02:00")),
        T1,
    )];
    let records = materialize_videos(&started, 0).unwrap();
    assert_eq!(records.len(), 1);
    assert_eq!(records[0].publishTimeMs, 1672621445000);
    assert_eq!(records[0].durationMs, 600000);
}

#[test]
fn ordinary_item_uses_the_snippet_publish_time() {
    let items = vec![detail_item("v", Some("PT1H2M3S"), None, T1)];
    let records = materialize_videos(&items, 0).unwrap();
    assert_eq!(records.len(), 1);
    let r = &records[0];
    assert_eq!(r.id, "v");
    assert_eq!(r.title, "title of v");
    assert_eq!(r.publishTimeMs, T1_MS);
    assert_eq!(r.durationMs, 3723000);
    assert!(r.unread);
    assert!(!r.archived);
    assert!(!r.thumbnailStandard);
    assert!(!r.thumbnailMaxres);
}

#[test]
fn missing_content_details_is_a_schema_error() {
    let items = vec![detail_item("v", None, None, T1)];
    // a missing duration alone is a skip ...
    assert!(materialize_videos(&items, 0).unwrap().is_empty());
    // ... but a missing contentDetails object is a shape error
    let mut broken = detail_item("v", Some("PT1M"), None, T1);
    broken.contentDetails = None;
    let err = materialize_videos(&vec![broken], 0).unwrap_err();
    assert!(matches!(err, IngestError::Schema(_)));
}

#[test]
fn calendar_duration_in_a_detail_item_is_a_parse_error() {
    let items = vec![detail_item("v", Some("P1M"), None, T1)];
    let err = materialize_videos(&items, 0).unwrap_err();
    assert!(matches!(err, IngestError::Parse(ParseError::CalendarDuration)));
}

#[test]
fn effective_publish_time_below_the_floor_is_skipped() {
    // the snippet publish time can differ from the announced discovery
    // timestamp; a record is only materialized at or after the floor
    let items = vec![detail_item("v", Some("PT10M"), None, T1)];
    assert!(materialize_videos(&items, T1_MS + 1).unwrap().is_empty());
    // exactly at the floor: kept
    let records = materialize_videos(&items, T1_MS).unwrap();
    assert_eq!(records.len(), 1);
    assert_eq!(records[0].publishTimeMs, T1_MS);
    // a live item whose actual start is below the floor is skipped too
    let live = vec![detail_item("live1", Some("PT10M"), Some(Some(T1)), "2024-01-01T00:00:00Z")];
    assert!(materialize_videos(&live, T1_MS + 1).unwrap().is_empty());
}

#[test]
fn duplicate_insert_raises_persistence_error_and_keeps_the_row() {
    let mut store = VideoStore::new();
    let mut first = record("abc");
    first.title = "the first title".to_string();
    assert_eq!(store.insert_video(&first), Ok(()));
    let mut second = record("abc");
    second.title = "an impostor".to_string();
    assert_eq!(store.insert_video(&second), Err(PersistenceError::DuplicateId));
    // never a silent overwrite
    assert_eq!(store.records().len(), 1);
    assert_eq!(store.records()[0].title, "the first title");
}

#[test]
fn batched_existence_lookup() {
    let mut store = VideoStore::new();
    store.insert_video(&record("a")).unwrap();
    store.insert_video(&record("c")).unwrap();
    let items = vec![
        playlist_item("a", Some(T1)),
        playlist_item("b", Some(T1)),
        playlist_item("c", Some(T1)),
    ];
    let existing = store.get_ids(&items);
    assert_eq!(existing, vec!["a".to_string(), "c".to_string()]);
}

#[test]
fn existence_query_uses_one_placeholder_per_id() {
    assert_eq!(ids_query_string(1), "SELECT id FROM videos WHERE id IN (?);");
    assert_eq!(ids_query_string(3), "SELECT id FROM videos WHERE id IN (?,?,?);");
}

#[test]
fn an_insert_must_affect_exactly_one_row() {
    assert_eq!(check_insert_rows(1), Ok(()));
    assert_eq!(check_insert_rows(0), Err(PersistenceError::RowCount(0)));
    assert_eq!(check_insert_rows(2), Err(PersistenceError::RowCount(2)));
}

fn test_channel(from_time: i64) -> ChannelInfo {
    ChannelInfo {
        name: "Chan".to_string(),
        uploads_playlist_id: "UUchan".to_string(),
        from_time,
    }
}

#[test]
fn end_to_end_one_new_video() {
    let channel = test_channel(0);
    let playlist = playlist_items::Response { items: vec![playlist_item("abc", Some(T1))] };
    let details = videos::Response { items: vec![detail_item("abc", Some("PT10M"), None, T1)] };
    let mut store = VideoStore::new();
    // exactly one record is persisted, and the caller owes one
    // "new data available" signal
    assert_eq!(ingest(&channel, &playlist, &details, &mut store), Ok(true));
    assert_eq!(store.records().len(), 1);
    assert_eq!(store.records()[0].id, "abc");
    assert_eq!(store.records()[0].durationMs, 600000);
    assert_eq!(store.records()[0].publishTimeMs, T1_MS);
}

#[test]
fn ingestion_is_idempotent_when_nothing_is_new() {
    let channel = test_channel(0);
    let playlist = playlist_items::Response { items: vec![playlist_item("abc", Some(T1))] };
    let details = videos::Response { items: vec![detail_item("abc", Some("PT10M"), None, T1)] };
    let mut store = VideoStore::new();
    assert_eq!(ingest(&channel, &playlist, &details, &mut store), Ok(true));
    // re-run with no new upstream items: zero inserts, store unchanged, no signal
    assert_eq!(ingest(&channel, &playlist, &details, &mut store), Ok(false));
    assert_eq!(store.records().len(), 1);
}

#[test]
fn empty_playlist_is_success_without_inserts() {
    let channel = test_channel(0);
    let playlist = playlist_items::Response { items: Vec::new() };
    let details = videos::Response { items: Vec::new() };
    let mut store = VideoStore::new();
    assert_eq!(ingest(&channel, &playlist, &details, &mut store), Ok(false));
    assert_eq!(store.records().len(), 0);
}

#[test]
fn live_stream_is_ingested_exactly_once_when_it_starts() {
    let channel = test_channel(0);
    let playlist = playlist_items::Response { items: vec![playlist_item("live1", Some(T1))] };
    let mut store = VideoStore::new();
    // first poll: scheduled but not started, so nothing is inserted
    let pending = videos::Response {
        items: vec![detail_item("live1", None, Some(None), T1)],
    };
    assert_eq!(ingest(&channel, &playlist, &pending, &mut store), Ok(false));
    assert_eq!(store.records().len(), 0);
    // a later poll: it has started; inserted once, publish time = actual start
    let started = videos::Response {
        items: vec![detail_item("live1", Some("PT10M"), Some(Some(T1)), "2021-01-01T00:00:00Z")],
    };
    assert_eq!(ingest(&channel, &playlist, &started, &mut store), Ok(true));
    assert_eq!(store.records().len(), 1);
    assert_eq!(store.records()[0].publishTimeMs, T1_MS);
    // and only once: the next poll finds it stored
    assert_eq!(ingest(&channel, &playlist, &started, &mut store), Ok(false));
    assert_eq!(store.records().len(), 1);
}

#[test]
fn an_effective_time_below_the_floor_is_never_persisted() {
    // announced at the floor, but the effective (snippet) time is older
    let channel = test_channel(T1_MS);
    let playlist = playlist_items::Response { items: vec![playlist_item("v", Some(T1))] };
    let details = videos::Response {
        items: vec![detail_item("v", Some("PT10M"), None, "2019-01-01T00:00:00Z")],
    };
    let mut store = VideoStore::new();
    assert_eq!(ingest(&channel, &playlist, &details, &mut store), Ok(false));
    assert_eq!(store.records().len(), 0);
}

#[test]
fn old_items_are_never_ingested() {
    let channel = test_channel(T1_MS + 1);
    let playlist = playlist_items::Response { items: vec![playlist_item("old", Some(T1))] };
    let details = videos::Response { items: vec![detail_item("old", Some("PT10M"), None, T1)] };
    let mut store = VideoStore::new();
    assert_eq!(ingest(&channel, &playlist, &details, &mut store), Ok(false));
    assert_eq!(store.records().len(), 0);
}
