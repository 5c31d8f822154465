//! The Clip Store: durable relational state for clip records and thumbnail
//! records, modelled as two tables with unique keys.
//!
//! The store is the single source of truth for which on-disk artifacts are
//! live. Its invariant (`StoreModel::wf`): no two clip records share a
//! `media_url`, no two share a `local_file_uuid` once set, at most one
//! thumbnail record exists per `(clip_uuid, thumbnail_type)` pair, and every
//! thumbnail's `clip_uuid` is the `local_file_uuid` of some clip.
use vstd::prelude::*;

verus! {

use crate::errors::SyncError;
use crate::thumbnails::ThumbnailType;

/// One remote clip descriptor as the store records it.
pub struct ClipRecord {
    /// The remote-assigned identity of the clip (its playback URI),
    /// unique across all records.
    pub media_url: String,
    /// The clip's start time as reported by the NVR, in unix seconds.
    pub start_unix_time: i64,
    /// The locally assigned identity token, set exactly once when the
    /// content download completes; unique across all records.
    pub local_file_uuid: Option<String>,
}

/// The mathematical model of a `ClipRecord`.
pub struct ClipModel {
    pub media_url: Seq<char>,
    pub start_unix_time: int,
    pub local_file_uuid: Option<Seq<char>>,
}

impl View for ClipRecord {
    type V = ClipModel;

    open spec fn view(&self) -> ClipModel {
        ClipModel {
            media_url: self.media_url@,
            start_unix_time: self.start_unix_time as int,
            local_file_uuid: match self.local_file_uuid {
                Option::Some(u) => Option::Some(u@),
                Option::None => Option::None,
            },
        }
    }
}

impl Clone for ClipRecord {
    fn clone(&self) -> (r: Self)
        ensures
            r@ == self@,
    {
        ClipRecord {
            media_url: self.media_url.clone(),
            start_unix_time: self.start_unix_time,
            local_file_uuid: match &self.local_file_uuid {
                Option::Some(u) => Option::Some(u.clone()),
                Option::None => Option::None,
            },
        }
    }
}

/// One derived-artifact record: a thumbnail of kind `thumbnail_type` for
/// the clip whose `local_file_uuid` is `clip_uuid`.
pub struct ThumbnailRecord {
    pub thumbnail_type: ThumbnailType,
    pub clip_uuid: String,
}

/// The mathematical model of a `ThumbnailRecord`.
pub struct ThumbModel {
    pub thumbnail_type: ThumbnailType,
    pub clip_uuid: Seq<char>,
}

impl View for ThumbnailRecord {
    type V = ThumbModel;

    open spec fn view(&self) -> ThumbModel {
        ThumbModel { thumbnail_type: self.thumbnail_type, clip_uuid: self.clip_uuid@ }
    }
}

/// The mathematical model of the whole store: the two tables in insertion
/// order.
pub struct StoreModel {
    pub clips: Seq<ClipModel>,
    pub thumbnails: Seq<ThumbModel>,
}

/// Some record of a clip table carries this playback URI.
pub open spec fn urls_contain(clips: Seq<ClipModel>, url: Seq<char>) -> bool {
    exists|i: int| 0 <= i < clips.len() && #[trigger] clips[i].media_url == url
}

impl StoreModel {
    /// Some clip record carries this playback URI.
    pub open spec fn has_url(self, url: Seq<char>) -> bool {
        urls_contain(self.clips, url)
    }

    /// Some clip record carries this local identity token.
    pub open spec fn uuid_in_use(self, token: Seq<char>) -> bool {
        exists|i: int|
            0 <= i < self.clips.len() && #[trigger] self.clips[i].local_file_uuid == Option::Some(
                token,
            )
    }

    /// A thumbnail record of this kind exists for this token.
    pub open spec fn has_thumbnail(self, token: Seq<char>, kind: ThumbnailType) -> bool {
        exists|i: int|
            0 <= i < self.thumbnails.len() && #[trigger] self.thumbnails[i].clip_uuid == token
                && self.thumbnails[i].thumbnail_type == kind
    }

    /// A thumbnail record of any kind exists for this token.
    pub open spec fn thumb_token_referenced(self, token: Seq<char>) -> bool {
        exists|i: int|
            0 <= i < self.thumbnails.len() && #[trigger] self.thumbnails[i].clip_uuid == token
    }

    /// The download of `url` may be registered under `token`: some record
    /// carries that URI and is still undownloaded, and no record carries
    /// the token yet.
    pub open spec fn can_mark(self, url: Seq<char>, token: Seq<char>) -> bool {
        &&& exists|i: int|
            0 <= i < self.clips.len() && #[trigger] self.clips[i].media_url == url
                && self.clips[i].local_file_uuid is None
        &&& !self.uuid_in_use(token)
    }

    /// The store's invariant.
    pub open spec fn wf(self) -> bool {
        &&& forall|i: int, j: int|
            0 <= i < j < self.clips.len() ==> #[trigger] self.clips[i].media_url
                != #[trigger] self.clips[j].media_url
        &&& forall|i: int, j: int|
            0 <= i < j < self.clips.len() && #[trigger] self.clips[i].local_file_uuid is Some
                ==> self.clips[i].local_file_uuid != #[trigger] self.clips[j].local_file_uuid
        &&& forall|i: int, j: int|
            0 <= i < j < self.thumbnails.len() ==> !(#[trigger] self.thumbnails[i].clip_uuid
                == #[trigger] self.thumbnails[j].clip_uuid && self.thumbnails[i].thumbnail_type
                == self.thumbnails[j].thumbnail_type)
        &&& forall|i: int|
            0 <= i < self.thumbnails.len() ==> self.uuid_in_use(
                #[trigger] self.thumbnails[i].clip_uuid,
            )
    }
}

/// The Clip Store itself. Mutation goes only through the methods below,
/// which preserve the invariant and report unique-key conflicts.
pub struct ClipStore {
    clips: Vec<ClipRecord>,
    thumbnails: Vec<ThumbnailRecord>,
}

impl View for ClipStore {
    type V = StoreModel;

    closed spec fn view(&self) -> StoreModel {
        StoreModel {
            clips: self.clips@.map_values(|c: ClipRecord| c@),
            thumbnails: self.thumbnails@.map_values(|t: ThumbnailRecord| t@),
        }
    }
}

impl ClipStore {
    /// An empty store.
    pub fn new() -> (s: ClipStore)
        ensures
            s@.clips.len() == 0,
            s@.thumbnails.len() == 0,
            s@.wf(),
    {
        ClipStore { clips: Vec::new(), thumbnails: Vec::new() }
    }

    /// How many clip records the store holds.
    pub fn clip_count(&self) -> (n: usize)
        ensures
            n == self@.clips.len(),
    {
        self.clips.len()
    }

    /// How many thumbnail records the store holds.
    pub fn thumbnail_count(&self) -> (n: usize)
        ensures
            n == self@.thumbnails.len(),
    {
        self.thumbnails.len()
    }

    /// The clip record at a position, for inspection.
    pub fn clip_at(&self, i: usize) -> (r: &ClipRecord)
        requires
            i < self@.clips.len(),
        ensures
            r@ == self@.clips[i as int],
    {
        &self.clips[i]
    }

    /// The thumbnail record at a position, for inspection.
    pub fn thumbnail_at(&self, i: usize) -> (r: &ThumbnailRecord)
        requires
            i < self@.thumbnails.len(),
        ensures
            r@ == self@.thumbnails[i as int],
    {
        &self.thumbnails[i]
    }

    /// Inserts a newly discovered clip descriptor, keyed by its playback
    /// URI. A record with the same `media_url` already present is the
    /// expected dedup signal and is reported as `Conflict`, leaving the
    /// store unchanged.
    pub fn insert_clip(&mut self, media_url: String, start_unix_time: i64) -> (r: Result<
        (),
        SyncError,
    >)
        requires
            old(self)@.wf(),
        ensures
            final(self)@.wf(),
            final(self)@.thumbnails == old(self)@.thumbnails,
            match r {
                Ok(()) => {
                    &&& !old(self)@.has_url(media_url@)
                    &&& final(self)@.clips == old(self)@.clips.push(
                        (ClipModel {
                            media_url: media_url@,
                            start_unix_time: start_unix_time as int,
                            local_file_uuid: Option::None,
                        }),
                    )
                },
                Err(e) => {
                    &&& e == SyncError::Conflict
                    &&& old(self)@.has_url(media_url@)
                    &&& final(self)@ == old(self)@
                },
            },
    {
        let n = self.clips.len();
        let mut i: usize = 0;
        while i < n
            invariant
                n == self.clips.len(),
                i <= n,
                forall|j: int| 0 <= j < i ==> #[trigger] self@.clips[j].media_url != media_url@,
                self@ == old(self)@,
                old(self)@.wf(),
            decreases n - i,
        {
            if self.clips[i].media_url == media_url {
                assert(self@.clips[i as int].media_url == media_url@);
                return Err(SyncError::Conflict);
            }
            i += 1;
        }
        assert(!self@.has_url(media_url@));
        let rec = ClipRecord { media_url, start_unix_time, local_file_uuid: Option::None };
        let ghost old_model = self@;
        let ghost new_clip = rec@;
        self.clips.push(rec);
        proof {
            assert(self@.clips =~= old_model.clips.push(new_clip));
            assert(self@.thumbnails =~= old_model.thumbnails);
            assert forall|a: int|
                0 <= a < self@.thumbnails.len() implies self@.uuid_in_use(
                #[trigger] self@.thumbnails[a].clip_uuid,
            ) by {
                assert(old_model.uuid_in_use(old_model.thumbnails[a].clip_uuid));
                let w = choose|w: int|
                    0 <= w < old_model.clips.len() && #[trigger] old_model.clips[w].local_file_uuid
                        == Option::Some(old_model.thumbnails[a].clip_uuid);
                assert(self@.clips[w].local_file_uuid == Option::Some(
                    self@.thumbnails[a].clip_uuid,
                ));
            }
            assert(self@.wf());
        }
        Ok(())
    }

    /// Registers a completed download: sets the record's `local_file_uuid`
    /// from null to `token`, exactly once. Fails with `Conflict`, leaving
    /// the store unchanged, when the URI names no undownloaded record or
    /// the token is already in use — so a set token is never overwritten
    /// and never cleared.
    pub fn mark_downloaded(&mut self, media_url: &String, token: String) -> (r: Result<
        (),
        SyncError,
    >)
        requires
            old(self)@.wf(),
        ensures
            final(self)@.wf(),
            final(self)@.thumbnails == old(self)@.thumbnails,
            match r {
                Ok(()) => {
                    &&& old(self)@.can_mark(media_url@, token@)
                    &&& forall|i: int|
                        0 <= i < old(self)@.clips.len() && #[trigger] old(
                            self,
                        )@.clips[i].media_url == media_url@ ==> final(self)@.clips == old(
                            self,
                        )@.clips.update(
                            i,
                            (ClipModel {
                                media_url: media_url@,
                                start_unix_time: old(self)@.clips[i].start_unix_time,
                                local_file_uuid: Option::Some(token@),
                            }),
                        )
                },
                Err(e) => {
                    &&& e == SyncError::Conflict
                    &&& !old(self)@.can_mark(media_url@, token@)
                    &&& final(self)@ == old(self)@
                },
            },
    {
        let n = self.clips.len();
        // Refuse a token that is already recorded for any clip.
        let mut j: usize = 0;
        while j < n
            invariant
                n == self.clips.len(),
                j <= n,
                self@ == old(self)@,
                old(self)@.wf(),
                forall|k: int|
                    0 <= k < j ==> #[trigger] self@.clips[k].local_file_uuid != Option::Some(
                        token@,
                    ),
            decreases n - j,
        {
            let used = match &self.clips[j].local_file_uuid {
                Option::Some(u) => *u == token,
                Option::None => false,
            };
            if used {
                assert(self@.clips[j as int].local_file_uuid == Option::Some(token@));
                assert(self@.uuid_in_use(token@));
                return Err(SyncError::Conflict);
            }
            j += 1;
        }
        assert(!self@.uuid_in_use(token@));
        // Find the record that carries the URI.
        let mut i: usize = 0;
        while i < n
            invariant
                n == self.clips.len(),
                i <= n,
                self@ == old(self)@,
                old(self)@.wf(),
                !self@.uuid_in_use(token@),
                forall|k: int| 0 <= k < i ==> #[trigger] self@.clips[k].media_url != media_url@,
            decreases n - i,
        {
            if self.clips[i].media_url == *media_url {
                let already = match &self.clips[i].local_file_uuid {
                    Option::Some(_) => true,
                    Option::None => false,
                };
                if already {
                    proof {
                        assert forall|w: int|
                            0 <= w < self@.clips.len() && #[trigger] self@.clips[w].media_url
                                == media_url@ implies !(self@.clips[w].local_file_uuid
                            is None) by {
                            if w != i as int {
                                assert(self@.clips[w].media_url != self@.clips[i as int].media_url);
                            }
                        }
                    }
                    return Err(SyncError::Conflict);
                }
                let ghost old_model = self@;
                let mut rec = self.clips[i].clone();
                rec.local_file_uuid = Option::Some(token);
                let ghost new_clip = rec@;
                self.clips[i] = rec;
                proof {
                    assert(self@.clips =~= old_model.clips.update(i as int, new_clip));
                    assert(self@.thumbnails =~= old_model.thumbnails);
                    assert(old_model.clips[i as int].media_url == media_url@);
                    assert(old_model.clips[i as int].local_file_uuid is None);
                    assert(old_model.can_mark(media_url@, token@));
                    assert forall|a: int|
                        0 <= a < self@.clips.len() implies #[trigger] self@.clips[a].media_url
                        == old_model.clips[a].media_url by {
                        if a == i as int {
                            assert(new_clip.media_url == old_model.clips[a].media_url);
                        }
                    }
                    assert forall|w: int|
                        0 <= w < old_model.clips.len() && #[trigger] old_model.clips[w].media_url
                            == media_url@ implies w == i as int by {
                        if w != i as int {
                            assert(old_model.clips[w].media_url != old_model.clips[
                            i as int].media_url);
                        }
                    }
                    assert forall|a: int, b: int|
                        0 <= a < b < self@.clips.len() && #[trigger] self@.clips[a].local_file_uuid
                            is Some implies self@.clips[a].local_file_uuid
                        != #[trigger] self@.clips[b].local_file_uuid by {
                        if a != i as int && b != i as int {
                            assert(old_model.clips[a] == self@.clips[a]);
                            assert(old_model.clips[b] == self@.clips[b]);
                        } else if a == i as int {
                            if self@.clips[a].local_file_uuid == self@.clips[b].local_file_uuid {
                                assert(old_model.clips[b].local_file_uuid == Option::Some(
                                    new_clip.local_file_uuid->0,
                                ));
                                assert(old_model.uuid_in_use(new_clip.local_file_uuid->0));
                            }
                        } else {
                            if self@.clips[a].local_file_uuid == self@.clips[b].local_file_uuid {
                                assert(old_model.clips[a].local_file_uuid == Option::Some(
                                    new_clip.local_file_uuid->0,
                                ));
                                assert(old_model.uuid_in_use(new_clip.local_file_uuid->0));
                            }
                        }
                    }
                    assert forall|a: int|
                        0 <= a < self@.thumbnails.len() implies self@.uuid_in_use(
                        #[trigger] self@.thumbnails[a].clip_uuid,
                    ) by {
                        assert(old_model.uuid_in_use(old_model.thumbnails[a].clip_uuid));
                        let w = choose|w: int|
                            0 <= w < old_model.clips.len()
                                && #[trigger] old_model.clips[w].local_file_uuid == Option::Some(
                                old_model.thumbnails[a].clip_uuid,
                            );
                        assert(w != i as int);
                        assert(self@.clips[w].local_file_uuid == Option::Some(
                            self@.thumbnails[a].clip_uuid,
                        ));
                    }
                    assert(self@.wf());
                }
                return Ok(());
            }
            i += 1;
        }
        assert(!self@.has_url(media_url@));
        assert(!self@.can_mark(media_url@, token@));
        Err(SyncError::Conflict)
    }

    /// Records a freshly generated thumbnail for the clip whose
    /// `local_file_uuid` is `clip_uuid`. Fails with `Conflict`, leaving the
    /// store unchanged, when a record of the same kind already exists for
    /// the token or the token belongs to no downloaded clip — so at most
    /// one record per `(clip_uuid, thumbnail_type)` pair ever exists.
    pub fn insert_thumbnail(&mut self, clip_uuid: String, thumbnail_type: ThumbnailType) -> (r:
        Result<(), SyncError>)
        requires
            old(self)@.wf(),
        ensures
            final(self)@.wf(),
            final(self)@.clips == old(self)@.clips,
            match r {
                Ok(()) => {
                    &&& old(self)@.uuid_in_use(clip_uuid@)
                    &&& !old(self)@.has_thumbnail(clip_uuid@, thumbnail_type)
                    &&& final(self)@.thumbnails == old(self)@.thumbnails.push(
                        (ThumbModel { thumbnail_type, clip_uuid: clip_uuid@ }),
                    )
                },
                Err(e) => {
                    &&& e == SyncError::Conflict
                    &&& !(old(self)@.uuid_in_use(clip_uuid@) && !old(self)@.has_thumbnail(
                        clip_uuid@,
                        thumbnail_type,
                    ))
                    &&& final(self)@ == old(self)@
                },
            },
    {
        // The referenced clip must already be downloaded under this token.
        let nc = self.clips.len();
        let mut j: usize = 0;
        let mut referenced = false;
        while j < nc
            invariant
                nc == self.clips.len(),
                j <= nc,
                self@ == old(self)@,
                old(self)@.wf(),
                referenced ==> self@.uuid_in_use(clip_uuid@),
                !referenced ==> forall|k: int|
                    0 <= k < j ==> #[trigger] self@.clips[k].local_file_uuid != Option::Some(
                        clip_uuid@,
                    ),
            decreases nc - j,
        {
            let here = match &self.clips[j].local_file_uuid {
                Option::Some(u) => *u == clip_uuid,
                Option::None => false,
            };
            if here {
                assert(self@.clips[j as int].local_file_uuid == Option::Some(clip_uuid@));
                referenced = true;
            }
            j += 1;
        }
        if !referenced {
            assert(!self@.uuid_in_use(clip_uuid@));
            return Err(SyncError::Conflict);
        }
        let n = self.thumbnails.len();
        let mut i: usize = 0;
        while i < n
            invariant
                n == self.thumbnails.len(),
                i <= n,
                self@ == old(self)@,
                old(self)@.wf(),
                self@.uuid_in_use(clip_uuid@),
                forall|k: int|
                    0 <= k < i ==> !(#[trigger] self@.thumbnails[k].clip_uuid == clip_uuid@
                        && self@.thumbnails[k].thumbnail_type == thumbnail_type),
            decreases n - i,
        {
            if self.thumbnails[i].clip_uuid == clip_uuid && self.thumbnails[i].thumbnail_type
                == thumbnail_type {
                assert(self@.thumbnails[i as int].clip_uuid == clip_uuid@);
                assert(self@.has_thumbnail(clip_uuid@, thumbnail_type));
                return Err(SyncError::Conflict);
            }
            i += 1;
        }
        assert(!self@.has_thumbnail(clip_uuid@, thumbnail_type));
        let ghost old_model = self@;
        let rec = ThumbnailRecord { thumbnail_type, clip_uuid };
        let ghost new_thumb = rec@;
        self.thumbnails.push(rec);
        proof {
            assert(self@.clips =~= old_model.clips);
            assert(self@.thumbnails =~= old_model.thumbnails.push(new_thumb));
            assert forall|a: int|
                0 <= a < self@.thumbnails.len() implies self@.uuid_in_use(
                #[trigger] self@.thumbnails[a].clip_uuid,
            ) by {
                if a < old_model.thumbnails.len() {
                    assert(old_model.uuid_in_use(old_model.thumbnails[a].clip_uuid));
                } else {
                    assert(self@.thumbnails[a] == new_thumb);
                }
            }
            assert(self@.wf());
        }
        Ok(())
    }

    /// The greatest `start_unix_time` over all clip records, or `None` for
    /// an empty store. Discovery derives its window floor from it.
    pub fn max_start_time(&self) -> (r: Option<i64>)
        ensures
            r is None <==> self@.clips.len() == 0,
            r matches Some(m) ==> (exists|i: int|
                0 <= i < self@.clips.len() && #[trigger] self@.clips[i].start_unix_time
                    == m as int) && (forall|i: int|
                0 <= i < self@.clips.len() ==> #[trigger] self@.clips[i].start_unix_time
                    <= m as int),
    {
        let n = self.clips.len();
        if n == 0 {
            return Option::None;
        }
        let mut best: i64 = self.clips[0].start_unix_time;
        assert(self@.clips[0].start_unix_time == best as int);
        let mut i: usize = 1;
        while i < n
            invariant
                n == self.clips.len(),
                1 <= i <= n,
                exists|k: int|
                    0 <= k < i && #[trigger] self@.clips[k].start_unix_time == best as int,
                forall|k: int|
                    0 <= k < i ==> #[trigger] self@.clips[k].start_unix_time <= best as int,
            decreases n - i,
        {
            if self.clips[i].start_unix_time > best {
                best = self.clips[i].start_unix_time;
                assert(self@.clips[i as int].start_unix_time == best as int);
            }
            i += 1;
        }
        Option::Some(best)
    }

    /// Whether any clip record carries this identity token. The reconciler
    /// keeps a content file exactly when this holds of its embedded token.
    pub fn has_local_uuid(&self, token: &String) -> (r: bool)
        ensures
            r == self@.uuid_in_use(token@),
    {
        let n = self.clips.len();
        let mut i: usize = 0;
        while i < n
            invariant
                n == self.clips.len(),
                i <= n,
                forall|k: int|
                    0 <= k < i ==> #[trigger] self@.clips[k].local_file_uuid != Option::Some(
                        token@,
                    ),
            decreases n - i,
        {
            let here = match &self.clips[i].local_file_uuid {
                Option::Some(u) => *u == *token,
                Option::None => false,
            };
            if here {
                assert(self@.clips[i as int].local_file_uuid == Option::Some(token@));
                assert(self@.uuid_in_use(token@));
                return true;
            }
            i += 1;
        }
        false
    }

    /// Whether any thumbnail record carries this identity token. The
    /// reconciler keeps a thumbnail file exactly when this holds of its
    /// embedded token.
    pub fn has_thumbnail_row(&self, token: &String) -> (r: bool)
        ensures
            r == self@.thumb_token_referenced(token@),
    {
        let n = self.thumbnails.len();
        let mut i: usize = 0;
        while i < n
            invariant
                n == self.thumbnails.len(),
                i <= n,
                forall|k: int| 0 <= k < i ==> #[trigger] self@.thumbnails[k].clip_uuid != token@,
            decreases n - i,
        {
            if self.thumbnails[i].clip_uuid == *token {
                assert(self@.thumbnails[i as int].clip_uuid == token@);
                assert(self@.thumb_token_referenced(token@));
                return true;
            }
            i += 1;
        }
        false
    }

    /// Whether a thumbnail record of the given kind exists for this token.
    pub fn has_thumbnail_of(&self, token: &String, kind: ThumbnailType) -> (r: bool)
        ensures
            r == self@.has_thumbnail(token@, kind),
    {
        let n = self.thumbnails.len();
        let mut i: usize = 0;
        while i < n
            invariant
                n == self.thumbnails.len(),
                i <= n,
                forall|k: int|
                    0 <= k < i ==> !(#[trigger] self@.thumbnails[k].clip_uuid == token@
                        && self@.thumbnails[k].thumbnail_type == kind),
            decreases n - i,
        {
            if self.thumbnails[i].clip_uuid == *token && self.thumbnails[i].thumbnail_type
                == kind {
                assert(self@.thumbnails[i as int].clip_uuid == token@);
                assert(self@.has_thumbnail(token@, kind));
                return true;
            }
            i += 1;
        }
        false
    }
}

} // verus!
