//! End-to-end scenarios for the four pipeline stages, driven through the
//! library's public functions.
use hiwatch_sync::cleanup::{plan_deletions, ArtifactKind};
use hiwatch_sync::discovery::{discovery_step, initial_window_start, DAY_SECONDS, DEPLOYMENT_EPOCH};
use hiwatch_sync::download::download_plan;
use hiwatch_sync::errors::SyncError;
use hiwatch_sync::isapi::{
    IsapiCmSearchResultMatchItem, IsapiCmSearchResultMatchMediaSegmentDescriptor,
    IsapiCmSearchResultMatchTimeSpan,
};
use hiwatch_sync::store::ClipStore;
use hiwatch_sync::thumbnails::{find_file_for_token, missing_thumbnails, ThumbnailType};

fn make_item(uri: &str, start: i64) -> IsapiCmSearchResultMatchItem {
    IsapiCmSearchResultMatchItem {
        source_id: String::from("{00000000-0000-0000-0000-000000000000}"),
        track_id: String::from("101"),
        time_span: IsapiCmSearchResultMatchTimeSpan {
            start_time: start,
            end_time: start + 58,
        },
        media_segment_descriptor: IsapiCmSearchResultMatchMediaSegmentDescriptor {
            content_type: String::from("video"),
            codec_type: String::from("H.264-BP"),
            playback_uri: String::from(uri),
        },
    }
}

#[test]
fn empty_remote_discovery_terminates() {
    // Scenario: empty store, remote returns no matches for any queried
    // day; the loop visits each day once and inserts nothing.
    let mut store = ClipStore::new();
    let now = DEPLOYMENT_EPOCH + 10 * DAY_SECONDS;
    let mut window_start = initial_window_start(store.max_start_time());
    assert_eq!(window_start, DEPLOYMENT_EPOCH);
    let empty: Vec<IsapiCmSearchResultMatchItem> = Vec::new();
    let mut iterations = 0;
    while window_start < now {
        let (inserted, next) = discovery_step(&mut store, window_start, &empty);
        assert_eq!(inserted, 0);
        assert_eq!(next, window_start + DAY_SECONDS);
        window_start = next;
        iterations += 1;
        assert!(iterations <= 10);
    }
    assert_eq!(iterations, 10);
    assert_eq!(store.clip_count(), 0);
}

#[test]
fn two_matches_insert_and_advance() {
    // Scenario: one window returns two matches with distinct URIs and
    // start times T1 < T2; both are inserted and the window advances to
    // T2.
    let mut store = ClipStore::new();
    let t1 = DEPLOYMENT_EPOCH + 100;
    let t2 = DEPLOYMENT_EPOCH + 500;
    let items = vec![make_item("rtsp://cam/a", t1), make_item("rtsp://cam/b", t2)];
    let (inserted, next) = discovery_step(&mut store, DEPLOYMENT_EPOCH, &items);
    assert_eq!(inserted, 2);
    assert_eq!(next, t2);
    assert_eq!(store.clip_count(), 2);
    assert_eq!(store.clip_at(0).media_url, "rtsp://cam/a");
    assert_eq!(store.clip_at(0).start_unix_time, t1);
    assert_eq!(store.clip_at(1).media_url, "rtsp://cam/b");
    assert_eq!(store.clip_at(1).local_file_uuid, None);
}

#[test]
fn known_uri_is_a_conflict() {
    // Scenario: re-submitting a previously inserted playback URI is
    // rejected as a conflict and the row count does not change.
    let mut store = ClipStore::new();
    assert!(store.insert_clip(String::from("rtsp://cam/a"), 7).is_ok());
    let r = store.insert_clip(String::from("rtsp://cam/a"), 9);
    assert_eq!(r, Err(SyncError::Conflict));
    assert_eq!(store.clip_count(), 1);
    assert_eq!(store.clip_at(0).start_unix_time, 7);
}

#[test]
fn rerunning_discovery_changes_nothing() {
    // Re-running discovery over an already-covered window with unchanged
    // remote data leaves the record count unchanged.
    let mut store = ClipStore::new();
    let items = vec![
        make_item("rtsp://cam/a", 10),
        make_item("rtsp://cam/b", 20),
        make_item("rtsp://cam/c", 30),
    ];
    let (first, _) = discovery_step(&mut store, 0, &items);
    assert_eq!(first, 3);
    let (second, next) = discovery_step(&mut store, 0, &items);
    assert_eq!(second, 0);
    assert_eq!(next, 30);
    assert_eq!(store.clip_count(), 3);
}

#[test]
fn duplicate_uris_in_one_window_collapse() {
    // Two descriptors with one URI inside a single window: only the
    // first is inserted.
    let mut store = ClipStore::new();
    let items = vec![make_item("rtsp://cam/a", 10), make_item("rtsp://cam/a", 20)];
    let (inserted, _) = discovery_step(&mut store, 0, &items);
    assert_eq!(inserted, 1);
    assert_eq!(store.clip_count(), 1);
    assert_eq!(store.clip_at(0).start_unix_time, 10);
}

#[test]
fn window_advance_follows_last_match() {
    // The next window starts at the last match's start time, even when
    // that equals the current window start — the inherited open question:
    // progress is not guaranteed when a whole page shares one start time.
    let mut store = ClipStore::new();
    let items = vec![make_item("rtsp://cam/a", 5000)];
    let (_, next) = discovery_step(&mut store, 5000, &items);
    assert_eq!(next, 5000);
}

#[test]
fn download_state_is_monotonic() {
    // A record's local_file_uuid goes null -> set at most once: marking
    // twice, or re-using a token, is a conflict that changes nothing.
    let mut store = ClipStore::new();
    let url_a = String::from("rtsp://cam/a");
    let url_b = String::from("rtsp://cam/b");
    assert!(store.insert_clip(url_a.clone(), 1).is_ok());
    assert!(store.insert_clip(url_b.clone(), 2).is_ok());
    assert!(store.mark_downloaded(&url_a, String::from("tok-a")).is_ok());
    assert_eq!(store.clip_at(0).local_file_uuid, Some(String::from("tok-a")));
    // A second mark must not overwrite the token.
    let again = store.mark_downloaded(&url_a, String::from("tok-other"));
    assert_eq!(again, Err(SyncError::Conflict));
    assert_eq!(store.clip_at(0).local_file_uuid, Some(String::from("tok-a")));
    // A token may serve only one record.
    let reused = store.mark_downloaded(&url_b, String::from("tok-a"));
    assert_eq!(reused, Err(SyncError::Conflict));
    assert_eq!(store.clip_at(1).local_file_uuid, None);
    // An unknown URI marks nothing.
    let missing = store.mark_downloaded(&String::from("rtsp://cam/zz"), String::from("tok-z"));
    assert_eq!(missing, Err(SyncError::Conflict));
}

#[test]
fn download_plan_is_oldest_first() {
    let mut store = ClipStore::new();
    assert!(store.insert_clip(String::from("rtsp://cam/new"), 300).is_ok());
    assert!(store.insert_clip(String::from("rtsp://cam/old"), 100).is_ok());
    assert!(store.insert_clip(String::from("rtsp://cam/mid"), 200).is_ok());
    assert!(store.insert_clip(String::from("rtsp://cam/done"), 50).is_ok());
    let done = String::from("rtsp://cam/done");
    assert!(store.mark_downloaded(&done, String::from("tok-d")).is_ok());
    let plan = download_plan(&store);
    assert_eq!(plan.len(), 3);
    assert_eq!(plan[0].media_url, "rtsp://cam/old");
    assert_eq!(plan[1].media_url, "rtsp://cam/mid");
    assert_eq!(plan[2].media_url, "rtsp://cam/new");
    assert!(plan.iter().all(|c| c.local_file_uuid.is_none()));
}

#[test]
fn reconciler_deletes_only_unreferenced_files() {
    // Scenario: the content directory holds one file whose token is in
    // the store and one whose token is not; only the latter is deleted.
    let mut store = ClipStore::new();
    let url = String::from("rtsp://cam/a");
    let live = String::from("11111111-2222-3333-4444-555555555555");
    assert!(store.insert_clip(url.clone(), 1).is_ok());
    assert!(store.mark_downloaded(&url, live.clone()).is_ok());
    let files = vec![
        format!("a_{}.hevc", live),
        String::from("b_99999999-8888-7777-6666-555555555555.hevc"),
    ];
    let deletions = plan_deletions(&store, &files, ArtifactKind::Content).unwrap();
    assert_eq!(
        deletions,
        vec![String::from("b_99999999-8888-7777-6666-555555555555.hevc")]
    );
}

#[test]
fn reconciler_checks_thumbnails_against_thumbnail_rows() {
    let mut store = ClipStore::new();
    let url = String::from("rtsp://cam/a");
    let token = String::from("11111111-2222-3333-4444-555555555555");
    assert!(store.insert_clip(url.clone(), 1).is_ok());
    assert!(store.mark_downloaded(&url, token.clone()).is_ok());
    // The clip is downloaded but has no thumbnail row yet, so a stray
    // thumbnail file with its token is still garbage in that directory.
    let files = vec![format!("{}_0.jpg", token)];
    let deletions = plan_deletions(&store, &files, ArtifactKind::Thumbnail).unwrap();
    assert_eq!(deletions.len(), 1);
    assert!(store
        .insert_thumbnail(token.clone(), ThumbnailType::FirstFrame)
        .is_ok());
    let deletions = plan_deletions(&store, &files, ArtifactKind::Thumbnail).unwrap();
    assert_eq!(deletions.len(), 0);
}

#[test]
fn reconciler_aborts_on_tokenless_filename() {
    let store = ClipStore::new();
    let files = vec![String::from("notes.txt")];
    let r = plan_deletions(&store, &files, ArtifactKind::Content);
    assert_eq!(r, Err(SyncError::Filesystem));
}

#[test]
fn thumbnail_pipeline_produces_exactly_one_record() {
    // Scenario: a clip is downloaded under token "abc", no first-frame
    // thumbnail exists, and a content file containing "abc" is present;
    // the pipeline produces exactly one (0, "abc") record.
    let mut store = ClipStore::new();
    let url = String::from("rtsp://cam/a");
    assert!(store.insert_clip(url.clone(), 1).is_ok());
    assert!(store.mark_downloaded(&url, String::from("abc")).is_ok());
    let missing = missing_thumbnails(&store);
    assert_eq!(missing, vec![String::from("abc")]);
    let files = vec![String::from("x.hevc"), String::from("cam_abc.hevc")];
    let found = find_file_for_token(&files, &missing[0]);
    assert_eq!(found, Some(String::from("cam_abc.hevc")));
    assert!(store
        .insert_thumbnail(missing[0].clone(), ThumbnailType::FirstFrame)
        .is_ok());
    assert_eq!(store.thumbnail_count(), 1);
    assert_eq!(store.thumbnail_at(0).clip_uuid, "abc");
    assert_eq!(store.thumbnail_at(0).thumbnail_type.code(), 0);
    // The clip no longer qualifies, so nothing is re-generated.
    assert_eq!(missing_thumbnails(&store).len(), 0);
    let dup = store.insert_thumbnail(String::from("abc"), ThumbnailType::FirstFrame);
    assert_eq!(dup, Err(SyncError::Conflict));
    assert_eq!(store.thumbnail_count(), 1);
}

#[test]
fn thumbnail_requires_downloaded_clip() {
    let mut store = ClipStore::new();
    assert!(store.insert_clip(String::from("rtsp://cam/a"), 1).is_ok());
    // No clip carries this token, so no thumbnail may reference it.
    let r = store.insert_thumbnail(String::from("abc"), ThumbnailType::FirstFrame);
    assert_eq!(r, Err(SyncError::Conflict));
    assert_eq!(store.thumbnail_count(), 0);
}

#[test]
fn initial_window_start_backs_off_five_days() {
    assert_eq!(initial_window_start(None), DEPLOYMENT_EPOCH);
    assert_eq!(initial_window_start(Some(1_750_000_000)), 1_750_000_000 - 432_000);
}

#[test]
fn max_start_time_tracks_newest_clip() {
    let mut store = ClipStore::new();
    assert_eq!(store.max_start_time(), None);
    assert!(store.insert_clip(String::from("a"), 20).is_ok());
    assert!(store.insert_clip(String::from("b"), 50).is_ok());
    assert!(store.insert_clip(String::from("c"), 30).is_ok());
    assert_eq!(store.max_start_time(), Some(50));
}
