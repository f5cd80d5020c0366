//! The per-channel ingestion pipeline: discovery, candidate selection, the
//! age filter, materialization and persistence.
//!
//! The two platform requests of a cycle are performed by the surrounding
//! application; everything between them — which ids are new, which candidates
//! pass the per-channel age filter, which detail items become records, and
//! what is persisted — is decided here.

use vstd::prelude::*;

use crate::api::playlist_items;
use crate::api::videos;
use crate::background::ChannelInfo;
use crate::db;
use crate::db::VideoStore;
use crate::errors::{IngestError, ParseError, PersistenceError};
use crate::time_codec::{
    clamp_millis, parse_absolute_duration, parse_datetime, rfc3339_millis, spec_duration_millis,
    DurationOutcome,
};

verus! {

/// The discovery request: the first page of the channel's uploads playlist,
/// capped at the platform's maximum page size.
pub fn playlist_items_url(playlist_id: &str) -> (r: String)
    ensures
        r@
            == "https://www.googleapis.com/youtube/v3/playlistItems?part=contentDetails&maxResults=50&playlistId="@
            + playlist_id@,
{
    let mut url = String::from_str(
        "https://www.googleapis.com/youtube/v3/playlistItems?part=contentDetails&maxResults=50&playlistId=",
    );
    url.append(playlist_id);
    url
}

/// The ids joined with commas, in order.
pub open spec fn spec_join_comma(ids: Seq<Seq<char>>) -> Seq<char>
    decreases ids.len(),
{
    if ids.len() == 0 {
        Seq::empty()
    } else if ids.len() == 1 {
        ids[0]
    } else {
        spec_join_comma(ids.drop_last()) + seq![','] + ids.last()
    }
}

/// The detail request: one batched call for the duration, snippet and
/// live-stream metadata of all remaining candidates.
pub fn videos_url(ids: &Vec<String>) -> (r: String)
    ensures
        r@
            == "https://www.googleapis.com/youtube/v3/videos?part=contentDetails,liveStreamingDetails,snippet&id="@
            + spec_join_comma(ids.deep_view()),
{
    let mut joined = String::new();
    let n = ids.len();
    let mut i: usize = 0;
    while i < n
        invariant
            0 <= i <= n,
            n == ids@.len(),
            joined@ == spec_join_comma(ids.deep_view().take(i as int)),
        decreases n - i,
    {
        proof {
            assert(ids.deep_view().take(i as int + 1).drop_last() =~= ids.deep_view().take(
                i as int,
            ));
            assert(ids.deep_view().take(i as int + 1).last() == ids@[i as int]@);
        }
        if i > 0 {
            joined.append(",");
            proof {
                reveal_strlit(",");
                assert(","@ =~= seq![',']);
            }
        }
        joined.append(ids[i].as_str());
        proof {
            if i == 0 {
                assert(joined@ =~= spec_join_comma(ids.deep_view().take(1)));
            }
        }
        i = i + 1;
    }
    proof {
        assert(ids.deep_view().take(n as int) =~= ids.deep_view());
    }
    let mut url = String::from_str(
        "https://www.googleapis.com/youtube/v3/videos?part=contentDetails,liveStreamingDetails,snippet&id=",
    );
    url.append(joined.as_str());
    url
}

fn contains_string(v: &Vec<String>, s: &String) -> (r: bool)
    ensures
        r == v.deep_view().contains(s@),
{
    let n = v.len();
    let mut i: usize = 0;
    while i < n
        invariant
            0 <= i <= n,
            n == v@.len(),
            forall|k: int| 0 <= k < i ==> v@[k]@ != s@,
        decreases n - i,
    {
        if v[i].eq(s) {
            proof {
                assert(v.deep_view()[i as int] == s@);
            }
            return true;
        }
        i = i + 1;
    }
    proof {
        assert(forall|k: int| 0 <= k < v.deep_view().len() ==> v.deep_view()[k] != s@);
    }
    false
}

/// A discovered item passes candidate selection: its id is not stored yet,
/// its announced publish timestamp is present and parses, and it is not
/// strictly before the channel's floor (an exactly-equal timestamp is kept).
pub open spec fn item_kept(
    item: playlist_items::Playlist,
    existing: Set<Seq<char>>,
    from_time: i64,
) -> bool {
    &&& !existing.contains(item.contentDetails.videoId@)
    &&& item.contentDetails.videoPublishedAt is Some
    &&& rfc3339_millis(item.contentDetails.videoPublishedAt->0@) is Some
    &&& rfc3339_millis(item.contentDetails.videoPublishedAt->0@)->0 >= from_time
}

/// A discovered item aborts candidate selection: it is new and announces a
/// publish timestamp that does not parse.
pub open spec fn item_bad(item: playlist_items::Playlist, existing: Set<Seq<char>>) -> bool {
    &&& !existing.contains(item.contentDetails.videoId@)
    &&& item.contentDetails.videoPublishedAt is Some
    &&& rfc3339_millis(item.contentDetails.videoPublishedAt->0@) is None
}

/// The ids of the kept items, in discovery order.
pub open spec fn selected_ids(
    items: Seq<playlist_items::Playlist>,
    existing: Set<Seq<char>>,
    from_time: i64,
) -> Seq<Seq<char>>
    decreases items.len(),
{
    if items.len() == 0 {
        Seq::empty()
    } else {
        let rest = selected_ids(items.drop_last(), existing, from_time);
        if item_kept(items.last(), existing, from_time) {
            rest.push(items.last().contentDetails.videoId@)
        } else {
            rest
        }
    }
}

/// Whether some discovered item aborts selection.
pub open spec fn some_item_bad(
    items: Seq<playlist_items::Playlist>,
    existing: Set<Seq<char>>,
) -> bool {
    exists|k: int| 0 <= k < items.len() && item_bad(#[trigger] items[k], existing)
}

/// Candidate selection and the age filter: of the discovered items, the ids
/// that are new, announced, and not strictly before the channel's floor.
pub fn select_new_ids(
    items: &Vec<playlist_items::Playlist>,
    existing_ids: &Vec<String>,
    from_time: i64,
) -> (r: Result<Vec<String>, IngestError>)
    ensures
        r is Err <==> some_item_bad(items@, existing_ids.deep_view().to_set()),
        r is Err ==> r->Err_0 == IngestError::Parse(ParseError::InvalidTimestamp),
        r matches Ok(ids) ==> ids.deep_view() == selected_ids(
            items@,
            existing_ids.deep_view().to_set(),
            from_time,
        ),
{
    let ghost ex = existing_ids.deep_view().to_set();
    let mut new_ids: Vec<String> = Vec::new();
    let n = items.len();
    let mut i: usize = 0;
    while i < n
        invariant
            0 <= i <= n,
            n == items@.len(),
            ex == existing_ids.deep_view().to_set(),
            new_ids.deep_view() == selected_ids(items@.take(i as int), ex, from_time),
            forall|k: int| 0 <= k < i ==> !item_bad(#[trigger] items@[k], ex),
        decreases n - i,
    {
        proof {
            assert(items@.take(i as int + 1).drop_last() =~= items@.take(i as int));
            assert(items@.take(i as int + 1).last() == items@[i as int]);
        }
        let item = &items[i];
        let ghost before = new_ids.deep_view();
        if !contains_string(existing_ids, &item.contentDetails.videoId) {
            match &item.contentDetails.videoPublishedAt {
                Some(published_str) => {
                    match parse_datetime(published_str.as_str()) {
                        Ok(published_time) => {
                            if published_time >= from_time {
                                new_ids.push(item.contentDetails.videoId.clone());
                                proof {
                                    assert(new_ids.deep_view() =~= before.push(
                                        items@[i as int].contentDetails.videoId@,
                                    ));
                                }
                            }
                        },
                        Err(_) => {
                            proof {
                                assert(item_bad(items@[i as int], ex));
                            }
                            return Err(IngestError::Parse(ParseError::InvalidTimestamp));
                        },
                    }
                },
                None => {},
            }
        }
        i = i + 1;
    }
    proof {
        assert(items@.take(n as int) =~= items@);
    }
    Ok(new_ids)
}

/// Candidate selection is insensitive to how the stored-id set is presented:
/// two sets that agree on the discovered ids select the same candidates and
/// fail on the same inputs.
pub proof fn lemma_selection_congruent(
    items: Seq<playlist_items::Playlist>,
    e1: Set<Seq<char>>,
    e2: Set<Seq<char>>,
    from_time: i64,
)
    requires
        forall|k: int|
            0 <= k < items.len() ==> (e1.contains(#[trigger] items[k].contentDetails.videoId@)
                <==> e2.contains(items[k].contentDetails.videoId@)),
    ensures
        selected_ids(items, e1, from_time) == selected_ids(items, e2, from_time),
        some_item_bad(items, e1) <==> some_item_bad(items, e2),
    decreases items.len(),
{
    if items.len() > 0 {
        let init = items.drop_last();
        assert forall|k: int|
            0 <= k < init.len() implies (e1.contains(#[trigger] init[k].contentDetails.videoId@)
            <==> e2.contains(init[k].contentDetails.videoId@)) by {
            assert(init[k] == items[k]);
        }
        lemma_selection_congruent(init, e1, e2, from_time);
        assert(items.last() == items[items.len() - 1]);
    }
    assert forall|k: int|
        0 <= k < items.len() implies (item_bad(#[trigger] items[k], e1) <==> item_bad(
        items[k],
        e2,
    )) by {}
    if some_item_bad(items, e1) {
        let k = choose|k: int| 0 <= k < items.len() && item_bad(#[trigger] items[k], e1);
        assert(item_bad(items[k], e2));
    }
    if some_item_bad(items, e2) {
        let k = choose|k: int| 0 <= k < items.len() && item_bad(#[trigger] items[k], e2);
        assert(item_bad(items[k], e1));
    }
}

/// The from-time boundary, both directions: an id is selected exactly when
/// some occurrence of it is new, announces a timestamp that parses, and is
/// not strictly before the floor. An occurrence strictly before the floor
/// contributes nothing; one exactly at the floor is kept.
pub proof fn lemma_selected_membership(
    items: Seq<playlist_items::Playlist>,
    existing: Set<Seq<char>>,
    from_time: i64,
    id: Seq<char>,
)
    ensures
        selected_ids(items, existing, from_time).contains(id) <==> exists|k: int|
            0 <= k < items.len() && (#[trigger] items[k]).contentDetails.videoId@ == id
                && item_kept(items[k], existing, from_time),
    decreases items.len(),
{
    if items.len() > 0 {
        let init = items.drop_last();
        let last = items.last();
        let sel_init = selected_ids(init, existing, from_time);
        let sel = selected_ids(items, existing, from_time);
        lemma_selected_membership(init, existing, from_time, id);
        if sel.contains(id) {
            let m = choose|m: int| 0 <= m < sel.len() && sel[m] == id;
            if m < sel_init.len() {
                assert(sel_init[m] == id);
                let k = choose|k: int|
                    0 <= k < init.len() && (#[trigger] init[k]).contentDetails.videoId@ == id
                        && item_kept(init[k], existing, from_time);
                assert(items[k] == init[k]);
            } else {
                assert(item_kept(last, existing, from_time) && last.contentDetails.videoId@ == id);
                assert(items[items.len() - 1] == last);
            }
        }
        if exists|k: int|
            0 <= k < items.len() && (#[trigger] items[k]).contentDetails.videoId@ == id
                && item_kept(items[k], existing, from_time) {
            let k = choose|k: int|
                0 <= k < items.len() && (#[trigger] items[k]).contentDetails.videoId@ == id
                    && item_kept(items[k], existing, from_time);
            if k < items.len() - 1 {
                assert(init[k] == items[k]);
                assert(sel_init.contains(id));
                let m = choose|m: int| 0 <= m < sel_init.len() && sel_init[m] == id;
                assert(sel[m] == id);
            } else {
                assert(sel.last() == id);
            }
        }
    }
}

/// Ingestion is idempotent: when every discovered id is already stored,
/// selection keeps nothing and fails on nothing, whatever the floor — so a
/// cycle with no new upstream items performs zero inserts, leaves the store
/// unchanged and owes no signal, by the contract of `ingest`.
pub proof fn lemma_selection_idempotent(
    items: Seq<playlist_items::Playlist>,
    existing: Set<Seq<char>>,
    from_time: i64,
)
    requires
        forall|k: int|
            0 <= k < items.len() ==> existing.contains(
                (#[trigger] items[k]).contentDetails.videoId@,
            ),
    ensures
        selected_ids(items, existing, from_time).len() == 0,
        !some_item_bad(items, existing),
    decreases items.len(),
{
    if items.len() > 0 {
        let init = items.drop_last();
        assert forall|k: int| 0 <= k < init.len() implies existing.contains(
            (#[trigger] init[k]).contentDetails.videoId@,
        ) by {
            assert(init[k] == items[k]);
        }
        lemma_selection_idempotent(init, existing, from_time);
        assert(items.last() == items[items.len() - 1]);
    }
}

} // verus!

verus! {

/// What one detail item becomes.
pub enum ItemOutcome {
    /// The item has no content details: the response shape is wrong.
    BadShape,
    /// Skipped in this poll: no duration yet, or a live stream that has not
    /// actually started. It is reconsidered on a later poll.
    Skipped,
    /// A timestamp or duration of the item does not parse.
    BadParse(ParseError),
    /// The record to persist.
    Keep(db::Video),
}

/// The record an accepted item becomes. The effective publish time is the
/// actual start time for live items, the snippet publish time otherwise.
pub open spec fn spec_record(v: videos::Video, publish_ms: i64, duration_ms: i64) -> db::Video {
    db::Video {
        id: v.id,
        title: v.snippet.title,
        description: v.snippet.description,
        publishTimeMs: publish_ms,
        durationMs: duration_ms,
        thumbnailStandard: v.snippet.thumbnails.standard is Some,
        thumbnailMaxres: v.snippet.thumbnails.maxres is Some,
        channelId: v.snippet.channelId,
        channelName: v.snippet.channelTitle,
        unread: true,
        archived: false,
    }
}

/// The materialization filter for one detail item, in order: a missing
/// content-details object is a shape error; a missing duration is a skip; a
/// live stream without an actual start time is a skip; the effective publish
/// timestamp must parse; an effective time strictly before the channel floor
/// is a skip; and the duration must parse.
pub open spec fn item_outcome(v: videos::Video, from_time: i64) -> ItemOutcome {
    if v.contentDetails is None {
        ItemOutcome::BadShape
    } else if v.contentDetails->0.duration is None {
        ItemOutcome::Skipped
    } else if v.liveStreamingDetails is Some && v.liveStreamingDetails->0.actualStartTime is None {
        ItemOutcome::Skipped
    } else {
        let ts = if v.liveStreamingDetails is Some {
            v.liveStreamingDetails->0.actualStartTime->0
        } else {
            v.snippet.publishedAt
        };
        let dur = v.contentDetails->0.duration->0;
        match rfc3339_millis(ts@) {
            Option::None => ItemOutcome::BadParse(ParseError::InvalidTimestamp),
            Option::Some(publish_ms) => if (publish_ms as i64) < from_time {
                ItemOutcome::Skipped
            } else {
                match spec_duration_millis(dur@) {
                    DurationOutcome::Invalid => ItemOutcome::BadParse(ParseError::InvalidDuration),
                    DurationOutcome::Calendar => ItemOutcome::BadParse(
                        ParseError::CalendarDuration,
                    ),
                    DurationOutcome::Millis(m) => ItemOutcome::Keep(
                        spec_record(v, publish_ms as i64, clamp_millis(m)),
                    ),
                }
            },
        }
    }
}

/// What a whole detail response becomes: the records of the accepted items,
/// in response order, unless an item fails first.
pub enum MaterializeOutcome {
    /// Some item, skips aside, has no content details.
    BadShape,
    /// Some item, skips aside, carries a timestamp or duration that does not
    /// parse.
    BadParse(ParseError),
    /// The records of the accepted items, in order.
    Records(Seq<db::Video>),
}

/// Fold the per-item outcomes front to back; the first failing item decides.
pub open spec fn spec_materialize(items: Seq<videos::Video>, from_time: i64) -> MaterializeOutcome
    decreases items.len(),
{
    if items.len() == 0 {
        MaterializeOutcome::Records(Seq::empty())
    } else {
        match item_outcome(items[0], from_time) {
            ItemOutcome::BadShape => MaterializeOutcome::BadShape,
            ItemOutcome::BadParse(e) => MaterializeOutcome::BadParse(e),
            ItemOutcome::Skipped => spec_materialize(items.drop_first(), from_time),
            ItemOutcome::Keep(rec) => match spec_materialize(items.drop_first(), from_time) {
                MaterializeOutcome::Records(rest) => MaterializeOutcome::Records(
                    seq![rec] + rest,
                ),
                MaterializeOutcome::BadShape => MaterializeOutcome::BadShape,
                MaterializeOutcome::BadParse(e) => MaterializeOutcome::BadParse(e),
            },
        }
    }
}

enum StepOutcome {
    Skip,
    Keep(db::Video),
    Fail(IngestError),
}

fn materialize_from(video: &videos::Video, ts: &String, duration: &String, from_time: i64) -> (r:
    StepOutcome)
    ensures
        match rfc3339_millis(ts@) {
            Option::None => r == StepOutcome::Fail(
                IngestError::Parse(ParseError::InvalidTimestamp),
            ),
            Option::Some(publish_ms) => if (publish_ms as i64) < from_time {
                r == StepOutcome::Skip
            } else {
                match spec_duration_millis(duration@) {
                    DurationOutcome::Invalid => r == StepOutcome::Fail(
                        IngestError::Parse(ParseError::InvalidDuration),
                    ),
                    DurationOutcome::Calendar => r == StepOutcome::Fail(
                        IngestError::Parse(ParseError::CalendarDuration),
                    ),
                    DurationOutcome::Millis(m) => r == StepOutcome::Keep(
                        spec_record(*video, publish_ms as i64, clamp_millis(m)),
                    ),
                }
            },
        },
{
    let publish_time = match parse_datetime(ts.as_str()) {
        Ok(t) => t,
        Err(e) => {
            return StepOutcome::Fail(IngestError::Parse(e));
        },
    };
    if publish_time < from_time {
        return StepOutcome::Skip;
    }
    let duration_ms = match parse_absolute_duration(duration.as_str()) {
        Ok(ms) => ms,
        Err(e) => {
            return StepOutcome::Fail(IngestError::Parse(e));
        },
    };
    let rec = db::Video {
        id: video.id.clone(),
        title: video.snippet.title.clone(),
        description: video.snippet.description.clone(),
        publishTimeMs: publish_time,
        durationMs: duration_ms,
        thumbnailStandard: video.snippet.thumbnails.standard.is_some(),
        thumbnailMaxres: video.snippet.thumbnails.maxres.is_some(),
        channelId: video.snippet.channelId.clone(),
        channelName: video.snippet.channelTitle.clone(),
        unread: true,
        archived: false,
    };
    proof {
        assert(rec == spec_record(
            *video,
            rfc3339_millis(ts@)->0 as i64,
            clamp_millis(spec_duration_millis(duration@)->0),
        ));
    }
    StepOutcome::Keep(rec)
}

fn materialize_one(video: &videos::Video, from_time: i64) -> (r: StepOutcome)
    ensures
        match item_outcome(*video, from_time) {
            ItemOutcome::BadShape => r matches StepOutcome::Fail(e) && e matches
                IngestError::Schema(m) && m@ == "No contentDetails"@,
            ItemOutcome::BadParse(pe) => r == StepOutcome::Fail(IngestError::Parse(pe)),
            ItemOutcome::Skipped => r == StepOutcome::Skip,
            ItemOutcome::Keep(rec) => r == StepOutcome::Keep(rec),
        },
{
    match &video.contentDetails {
        None => StepOutcome::Fail(IngestError::Schema(String::from_str("No contentDetails"))),
        Some(content_details) => match &content_details.duration {
            None => StepOutcome::Skip,
            Some(duration) => match &video.liveStreamingDetails {
                Some(live) => match &live.actualStartTime {
                    Some(actual) => materialize_from(video, actual, duration, from_time),
                    None => StepOutcome::Skip,
                },
                None => materialize_from(video, &video.snippet.publishedAt, duration, from_time),
            },
        },
    }
}

/// The materialization filter over a whole detail response. Every record it
/// keeps has a known effective publish time not strictly before the channel
/// floor.
pub fn materialize_videos(items: &Vec<videos::Video>, from_time: i64) -> (r: Result<
    Vec<db::Video>,
    IngestError,
>)
    ensures
        match spec_materialize(items@, from_time) {
            MaterializeOutcome::BadShape => r matches Err(e) && e matches IngestError::Schema(m)
                && m@ == "No contentDetails"@,
            MaterializeOutcome::BadParse(pe) => r == Result::<Vec<db::Video>, IngestError>::Err(
                IngestError::Parse(pe),
            ),
            MaterializeOutcome::Records(recs) => r matches Ok(v) && v@ == recs,
        },
        r matches Ok(v) ==> forall|k: int| 0 <= k < v@.len() ==> v@[k].publishTimeMs >= from_time,
{
    proof {
        lemma_materialized_respect_floor(items@, from_time);
    }
    let mut records: Vec<db::Video> = Vec::new();
    let n = items.len();
    let mut i: usize = 0;
    proof {
        assert(items@.skip(0) =~= items@);
        if let MaterializeOutcome::Records(rest) = spec_materialize(items@, from_time) {
            assert(Seq::<db::Video>::empty() + rest =~= rest);
        }
    }
    while i < n
        invariant
            0 <= i <= n,
            n == items@.len(),
            spec_materialize(items@, from_time) == match spec_materialize(
                items@.skip(i as int),
                from_time,
            ) {
                MaterializeOutcome::Records(rest) => MaterializeOutcome::Records(records@ + rest),
                MaterializeOutcome::BadShape => MaterializeOutcome::BadShape,
                MaterializeOutcome::BadParse(e) => MaterializeOutcome::BadParse(e),
            },
        decreases n - i,
    {
        proof {
            assert(items@.skip(i as int)[0] == items@[i as int]);
            assert(items@.skip(i as int).drop_first() =~= items@.skip(i as int + 1));
        }
        let ghost before = records@;
        match materialize_one(&items[i], from_time) {
            StepOutcome::Skip => {},
            StepOutcome::Keep(rec) => {
                records.push(rec);
                proof {
                    if let MaterializeOutcome::Records(rest) = spec_materialize(
                        items@.skip(i as int + 1),
                        from_time,
                    ) {
                        assert(records@ + rest =~= before + (seq![rec] + rest));
                    }
                }
            },
            StepOutcome::Fail(e) => {
                return Err(e);
            },
        }
        i = i + 1;
    }
    proof {
        assert(items@.skip(n as int) =~= Seq::<videos::Video>::empty());
        assert(records@ + Seq::<db::Video>::empty() =~= records@);
    }
    Ok(records)
}

/// A scheduled live stream is gated on its actual start: without an actual
/// start time the item is skipped in this poll, whatever the floor; once it
/// has one and is accepted, its record's publish time is exactly that actual
/// start.
pub proof fn lemma_live_stream_boundary(v: videos::Video, from_time: i64)
    requires
        v.contentDetails is Some,
        v.contentDetails->0.duration is Some,
    ensures
        (v.liveStreamingDetails matches Some(l) && l.actualStartTime is None) ==> item_outcome(
            v,
            from_time,
        ) == ItemOutcome::Skipped,
        v.liveStreamingDetails matches Some(l) ==> (l.actualStartTime matches Some(ts) ==> (
        item_outcome(v, from_time) matches ItemOutcome::Keep(rec) ==> rec.publishTimeMs
            == rfc3339_millis(ts@)->0 as i64)),
{
}

/// A record is materialized only with a known effective publish time that is
/// not strictly before the owning channel's floor.
pub proof fn lemma_materialized_respect_floor(items: Seq<videos::Video>, from_time: i64)
    ensures
        spec_materialize(items, from_time) matches MaterializeOutcome::Records(recs)
            ==> forall|k: int| 0 <= k < recs.len() ==> (#[trigger] recs[k]).publishTimeMs
            >= from_time,
    decreases items.len(),
{
    if items.len() > 0 {
        lemma_materialized_respect_floor(items.drop_first(), from_time);
        if let MaterializeOutcome::Records(recs) = spec_materialize(items, from_time) {
            if let ItemOutcome::Keep(rec) = item_outcome(items[0], from_time) {
                assert(rec.publishTimeMs >= from_time);
                assert(forall|k: int|
                    0 <= k < recs.len() ==> #[trigger] recs[k] == if k == 0 {
                        rec
                    } else {
                        spec_materialize(items.drop_first(), from_time)->Records_0[k - 1]
                    });
            }
        }
    }
}

/// Insert records one at a time, stopping at the first id that is already
/// present: `Ok` with the final rows, or `Err` with the rows at the failure —
/// the records inserted before the failure stay.
pub open spec fn spec_persist(rows: Seq<db::Video>, recs: Seq<db::Video>) -> Result<
    Seq<db::Video>,
    Seq<db::Video>,
>
    decreases recs.len(),
{
    if recs.len() == 0 {
        Result::Ok(rows)
    } else if exists|i: int| 0 <= i < rows.len() && (#[trigger] rows[i]).id@ == recs[0].id@ {
        Result::Err(rows)
    } else {
        spec_persist(rows.push(recs[0]), recs.drop_first())
    }
}

/// One full ingestion cycle for one channel, over the two responses the
/// application fetched and an in-memory store. The result reports whether any
/// record was inserted — exactly when the notify sink is owed a
/// "new data available" signal. Stored rows are never touched, and every row
/// this cycle adds has an effective publish time at or after the channel's
/// floor. The detail response is taken as the answer to the batched detail
/// request: what it lists is materialized without re-checking its ids against
/// the candidate list.
#[verifier::rlimit(60)]
#[verifier::loop_isolation(false)]
pub fn ingest(
    channel: &ChannelInfo,
    playlist: &playlist_items::Response,
    details: &videos::Response,
    store: &mut VideoStore,
) -> (r: Result<bool, IngestError>)
    requires
        old(store).wf(),
    ensures
        final(store).wf(),
        ({
            let ex = old(store).ids().to_set();
            let bad = some_item_bad(playlist.items@, ex);
            let sel = selected_ids(playlist.items@, ex, channel.from_time);
            &&& (playlist.items@.len() == 0 ==> r == Result::<bool, IngestError>::Ok(false)
                && final(store).rows() == old(store).rows())
            &&& (playlist.items@.len() > 0 && bad ==> r == Result::<bool, IngestError>::Err(
                IngestError::Parse(ParseError::InvalidTimestamp),
            ) && final(store).rows() == old(store).rows())
            &&& (playlist.items@.len() > 0 && !bad && sel.len() == 0 ==> r == Result::<
                bool,
                IngestError,
            >::Ok(false) && final(store).rows() == old(store).rows())
            &&& (playlist.items@.len() > 0 && !bad && sel.len() > 0 ==> match spec_materialize(
                details.items@,
                channel.from_time,
            ) {
                MaterializeOutcome::BadShape => (r matches Err(e) && e matches IngestError::Schema(
                    m,
                ) && m@ == "No contentDetails"@) && final(store).rows() == old(store).rows(),
                MaterializeOutcome::BadParse(pe) => r == Result::<bool, IngestError>::Err(
                    IngestError::Parse(pe),
                ) && final(store).rows() == old(store).rows(),
                MaterializeOutcome::Records(recs) => match spec_persist(old(store).rows(), recs) {
                    Result::Ok(rows) => r == Result::<bool, IngestError>::Ok(recs.len() != 0)
                        && final(store).rows() == rows,
                    Result::Err(rows) => r == Result::<bool, IngestError>::Err(
                        IngestError::Persistence(PersistenceError::DuplicateId),
                    ) && final(store).rows() == rows,
                },
            })
        }),
        forall|k: int|
            0 <= k < final(store).rows().len() ==> if k < old(store).rows().len() {
                (#[trigger] final(store).rows()[k]) == old(store).rows()[k]
            } else {
                final(store).rows()[k].publishTimeMs >= channel.from_time
            },
{
    let ghost ex = old(store).ids().to_set();
    if playlist.items.is_empty() {
        return Ok(false);
    }
    let existing = store.get_ids(&playlist.items);
    proof {
        assert forall|k: int| 0 <= k < playlist.items@.len() implies (
        existing.deep_view().to_set().contains(
            #[trigger] playlist.items@[k].contentDetails.videoId@,
        ) <==> ex.contains(playlist.items@[k].contentDetails.videoId@)) by {
            let s = playlist.items@[k].contentDetails.videoId@;
            assert(existing.deep_view().contains(s) <==> (store.ids().contains(s) && exists|
                m: int,
            | 0 <= m < playlist.items@.len() && playlist.items@[m].contentDetails.videoId@ == s));
        }
        lemma_selection_congruent(
            playlist.items@,
            existing.deep_view().to_set(),
            ex,
            channel.from_time,
        );
    }
    let new_ids = match select_new_ids(&playlist.items, &existing, channel.from_time) {
        Ok(ids) => ids,
        Err(e) => {
            return Err(e);
        },
    };
    if new_ids.is_empty() {
        proof {
            assert(new_ids.deep_view().len() == 0);
        }
        return Ok(false);
    }
    proof {
        assert(new_ids.deep_view().len() == new_ids@.len());
    }
    let records = match materialize_videos(&details.items, channel.from_time) {
        Ok(r) => r,
        Err(e) => {
            return Err(e);
        },
    };
    let n = records.len();
    let mut i: usize = 0;
    proof {
        assert(records@.skip(0) =~= records@);
    }
    while i < n
        invariant
            0 <= i <= n,
            n == records@.len(),
            store.wf(),
            spec_persist(old(store).rows(), records@) == spec_persist(
                store.rows(),
                records@.skip(i as int),
            ),
            old(store).rows().len() <= store.rows().len(),
            forall|k: int|
                0 <= k < store.rows().len() ==> if k < old(store).rows().len() {
                    (#[trigger] store.rows()[k]) == old(store).rows()[k]
                } else {
                    store.rows()[k].publishTimeMs >= channel.from_time
                },
        decreases n - i,
    {
        proof {
            assert(records@.skip(i as int)[0] == records@[i as int]);
            assert(records@.skip(i as int).drop_first() =~= records@.skip(i as int + 1));
        }
        let ghost rows_before = store.rows();
        let rec = &records[i];
        let dup = store.has_id(&rec.id);
        proof {
            assert(store.ids().contains(rec.id@) <==> exists|m: int|
                0 <= m < rows_before.len() && (#[trigger] rows_before[m]).id@ == rec.id@) by {
                if store.ids().contains(rec.id@) {
                    let m = choose|m: int|
                        0 <= m < store.ids().len() && store.ids()[m] == rec.id@;
                    assert(rows_before[m].id@ == rec.id@);
                }
                if exists|m: int|
                    0 <= m < rows_before.len() && (#[trigger] rows_before[m]).id@ == rec.id@ {
                    let m = choose|m: int|
                        0 <= m < rows_before.len() && (#[trigger] rows_before[m]).id@ == rec.id@;
                    assert(store.ids()[m] == rec.id@);
                }
            }
        }
        match store.insert_video(rec) {
            Ok(()) => {
                proof {
                    assert(store.rows() == rows_before.push(records@[i as int]));
                    assert(spec_persist(rows_before, records@.skip(i as int)) == spec_persist(
                        store.rows(),
                        records@.skip(i as int + 1),
                    ));
                }
            },
            Err(_) => {
                proof {
                    assert(store.rows() == rows_before);
                    assert(spec_persist(rows_before, records@.skip(i as int))
                        == Result::<Seq<db::Video>, Seq<db::Video>>::Err(rows_before));
                }
                return Err(IngestError::Persistence(PersistenceError::DuplicateId));
            },
        }
        i = i + 1;
    }
    proof {
        assert(records@.skip(n as int) =~= Seq::<db::Video>::empty());
    }
    Ok(n > 0)
}

} // verus!
