//! The persistence boundary: the record shape, the store invariant, and the
//! pieces of the SQL dialogue that are pure computation.
//!
//! The store holds at most one record per platform id. An insert that would
//! touch an existing id is a persistence error, never a silent update. The
//! surrounding application keeps the records in a SQL database; `VideoStore`
//! is the same contract over an in-memory table, and the query-string
//! builders and the row-count check below are the computational halves of the
//! application's database calls.

use vstd::prelude::*;

use crate::api::playlist_items;
use crate::errors::PersistenceError;

verus! {

/// One ingested video.
#[allow(non_snake_case)]
#[derive(Debug)]
pub struct Video {
    pub id: String,
    pub title: String,
    pub description: String,
    pub publishTimeMs: i64,
    /// Milliseconds; the store's integers are signed.
    pub durationMs: i64,
    pub thumbnailStandard: bool,
    pub thumbnailMaxres: bool,
    pub channelId: String,
    pub channelName: String,
    /// Set when the record is created; flipped later only by the application.
    pub unread: bool,
    /// Clear when the record is created; flipped later only by the application.
    pub archived: bool,
}

impl Clone for Video {
    fn clone(&self) -> (r: Self)
        ensures
            r == *self,
    {
        let r = Video {
            id: self.id.clone(),
            title: self.title.clone(),
            description: self.description.clone(),
            publishTimeMs: self.publishTimeMs,
            durationMs: self.durationMs,
            thumbnailStandard: self.thumbnailStandard,
            thumbnailMaxres: self.thumbnailMaxres,
            channelId: self.channelId.clone(),
            channelName: self.channelName.clone(),
            unread: self.unread,
            archived: self.archived,
        };
        proof {
            assert(r == *self);
        }
        r
    }
}

/// A table of videos, at most one per id.
pub struct VideoStore {
    videos: Vec<Video>,
}

impl VideoStore {
    /// The stored records.
    pub closed spec fn rows(&self) -> Seq<Video> {
        self.videos@
    }

    /// The stored ids, in insertion order.
    pub open spec fn ids(&self) -> Seq<Seq<char>> {
        Seq::new(self.rows().len(), |i: int| self.rows()[i].id@)
    }

    /// The store invariant: ids are unique.
    pub open spec fn wf(&self) -> bool {
        forall|i: int, j: int|
            0 <= i < j < self.rows().len() ==> self.rows()[i].id@ != self.rows()[j].id@
    }

    /// An empty store.
    pub fn new() -> (r: Self)
        ensures
            r.wf(),
            r.rows().len() == 0,
    {
        VideoStore { videos: Vec::new() }
    }

    /// The stored records, in insertion order.
    pub fn records(&self) -> (r: &Vec<Video>)
        ensures
            r@ == self.rows(),
    {
        &self.videos
    }

    /// Whether a record with this id is stored.
    pub fn has_id(&self, id: &String) -> (r: bool)
        ensures
            r == self.ids().contains(id@),
    {
        let n = self.videos.len();
        let mut i: usize = 0;
        while i < n
            invariant
                0 <= i <= n,
                n == self.rows().len(),
                forall|k: int| 0 <= k < i ==> self.rows()[k].id@ != id@,
            decreases n - i,
        {
            if self.videos[i].id.eq(id) {
                proof {
                    assert(self.ids()[i as int] == id@);
                }
                return true;
            }
            i = i + 1;
        }
        proof {
            assert(forall|k: int| 0 <= k < self.ids().len() ==> self.ids()[k] != id@);
        }
        false
    }

    /// The batched existence lookup: of the ids the discovery phase returned,
    /// the ones already stored, in discovery order (an id discovered twice
    /// and stored appears twice).
    pub fn get_ids(&self, items: &Vec<playlist_items::Playlist>) -> (r: Vec<String>)
        ensures
            r.deep_view() == known_ids(self.ids(), items@),
            forall|s: Seq<char>|
                #[trigger] r.deep_view().contains(s) <==> (self.ids().contains(s) && exists|k: int|
                    0 <= k < items@.len() && items@[k].contentDetails.videoId@ == s),
    {
        let mut found: Vec<String> = Vec::new();
        let n = items.len();
        let mut i: usize = 0;
        while i < n
            invariant
                0 <= i <= n,
                n == items@.len(),
                found.deep_view() == known_ids(self.ids(), items@.take(i as int)),
            decreases n - i,
        {
            proof {
                assert(items@.take(i as int + 1).drop_last() =~= items@.take(i as int));
                assert(items@.take(i as int + 1).last() == items@[i as int]);
            }
            let id = &items[i].contentDetails.videoId;
            let ghost before = found.deep_view();
            if self.has_id(id) {
                found.push(id.clone());
                proof {
                    assert(found.deep_view() =~= before.push(id@));
                }
            }
            i = i + 1;
        }
        proof {
            assert(items@.take(n as int) =~= items@);
            assert forall|s: Seq<char>| #[trigger]
                found.deep_view().contains(s) == (self.ids().contains(s) && exists|k: int|
                    0 <= k < items@.len() && items@[k].contentDetails.videoId@ == s) by {
                lemma_known_ids_membership(self.ids(), items@, s);
            }
        }
        found
    }

    /// Insert one record. The id must be new: inserting an id that is already
    /// stored is a persistence error and leaves the store untouched.
    pub fn insert_video(&mut self, video: &Video) -> (r: Result<(), PersistenceError>)
        requires
            old(self).wf(),
        ensures
            final(self).wf(),
            old(self).ids().contains(video.id@) ==> r == Result::<(), PersistenceError>::Err(
                PersistenceError::DuplicateId,
            ) && final(self).rows() == old(self).rows(),
            !old(self).ids().contains(video.id@) ==> r == Result::<(), PersistenceError>::Ok(())
                && final(self).rows() == old(self).rows().push(*video),
    {
        if self.has_id(&video.id) {
            return Err(PersistenceError::DuplicateId);
        }
        self.videos.push(video.clone());
        proof {
            assert forall|i: int, j: int| 0 <= i < j < self.rows().len() implies self.rows()[i].id@
                != self.rows()[j].id@ by {
                if j == self.rows().len() - 1 {
                    assert(old(self).ids()[i] == old(self).rows()[i].id@);
                }
            }
        }
        Ok(())
    }
}

/// Of the discovered items' ids, the ones among `ids`, in discovery order.
pub open spec fn known_ids(ids: Seq<Seq<char>>, items: Seq<playlist_items::Playlist>) -> Seq<
    Seq<char>,
>
    decreases items.len(),
{
    if items.len() == 0 {
        Seq::empty()
    } else {
        let rest = known_ids(ids, items.drop_last());
        if ids.contains(items.last().contentDetails.videoId@) {
            rest.push(items.last().contentDetails.videoId@)
        } else {
            rest
        }
    }
}

/// Membership in the batched lookup's answer: an id is answered exactly when
/// it is stored and discovered.
pub proof fn lemma_known_ids_membership(
    ids: Seq<Seq<char>>,
    items: Seq<playlist_items::Playlist>,
    s: Seq<char>,
)
    ensures
        known_ids(ids, items).contains(s) <==> (ids.contains(s) && exists|k: int|
            0 <= k < items.len() && (#[trigger] items[k]).contentDetails.videoId@ == s),
    decreases items.len(),
{
    if items.len() > 0 {
        let init = items.drop_last();
        let last = items.last();
        let found_init = known_ids(ids, init);
        let found = known_ids(ids, items);
        lemma_known_ids_membership(ids, init, s);
        if found.contains(s) {
            let m = choose|m: int| 0 <= m < found.len() && found[m] == s;
            if m < found_init.len() {
                assert(found_init[m] == s);
                let k = choose|k: int|
                    0 <= k < init.len() && (#[trigger] init[k]).contentDetails.videoId@ == s;
                assert(items[k] == init[k]);
            } else {
                assert(last.contentDetails.videoId@ == s && ids.contains(s));
                assert(items[items.len() - 1] == last);
            }
        }
        if ids.contains(s) && exists|k: int|
            0 <= k < items.len() && (#[trigger] items[k]).contentDetails.videoId@ == s {
            let k = choose|k: int|
                0 <= k < items.len() && (#[trigger] items[k]).contentDetails.videoId@ == s;
            if k < items.len() - 1 {
                assert(init[k] == items[k]);
                assert(found_init.contains(s));
                let m = choose|m: int| 0 <= m < found_init.len() && found_init[m] == s;
                assert(found[m] == s);
            } else {
                assert(found.last() == s);
            }
        }
    }
}

/// The placeholder list `?,?,...,?` with `n` placeholders.
pub open spec fn spec_placeholders(n: nat) -> Seq<char>
    decreases n,
{
    if n <= 1 {
        seq!['?']
    } else {
        spec_placeholders((n - 1) as nat) + seq![',', '?']
    }
}

/// The batched existence query for `n` ids, one placeholder per id.
pub fn ids_query_string(n: usize) -> (r: String)
    requires
        n >= 1,
    ensures
        r@ == "SELECT id FROM videos WHERE id IN ("@ + spec_placeholders(n as nat) + ");"@,
{
    let mut placeholders = String::from_str("?");
    proof {
        reveal_strlit("?");
        assert(placeholders@ =~= spec_placeholders(1));
    }
    let mut i: usize = 1;
    while i < n
        invariant
            1 <= i <= n,
            placeholders@ == spec_placeholders(i as nat),
        decreases n - i,
    {
        placeholders.append(",?");
        proof {
            reveal_strlit("?");
            reveal_strlit(",?");
            assert(placeholders@ =~= spec_placeholders((i + 1) as nat));
        }
        i = i + 1;
    }
    proof {
        reveal_strlit("?");
    }
    let mut query = String::from_str("SELECT id FROM videos WHERE id IN (");
    query.append(placeholders.as_str());
    query.append(");");
    query
}

/// The single-row insert statement the application binds a record to.
pub fn insert_video_sql() -> (r: &'static str)
    ensures
        r@
            == "INSERT INTO videos (id,title,description,publishTimeMs,durationMs,thumbnailStandard,thumbnailMaxres,channelId,channelName) VALUES (?,?,?,?,?,?,?,?,?)"@,
{
    "INSERT INTO videos (id,title,description,publishTimeMs,durationMs,thumbnailStandard,thumbnailMaxres,channelId,channelName) VALUES (?,?,?,?,?,?,?,?,?)"
}

/// An insert succeeded only if it affected exactly one row.
pub fn check_insert_rows(rows_affected: u64) -> (r: Result<(), PersistenceError>)
    ensures
        r is Ok <==> rows_affected == 1,
        r is Err ==> r->Err_0 == PersistenceError::RowCount(rows_affected),
{
    if rows_affected == 1 {
        Ok(())
    } else {
        Err(PersistenceError::RowCount(rows_affected))
    }
}

/// Filter and pagination options for the application's listing query.
pub struct Options {
    pub show_all: bool,
    pub show_archived: bool,
    pub channel_filter: String,
    pub tag: Option<String>,
    pub limit: u16,
}

/// A pagination cursor: list records strictly after this position.
#[allow(non_snake_case)]
pub struct After {
    pub publishTimeMs: i64,
    pub id: String,
}

} // verus!
