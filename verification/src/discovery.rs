//! The Discovery Engine: grows the Clip Store monotonically with new
//! remote descriptors, one bounded time window at a time.
//!
//! A run starts at the newest known clip minus a safety backoff (or at a
//! fixed epoch floor for an empty store) and queries day-long windows
//! until it reaches the present. Every returned descriptor is inserted
//! keyed by its playback URI; a unique-key conflict means "already known"
//! and is swallowed. The window then advances to the start time of the
//! last returned descriptor, or by a whole day when nothing was returned.
//!
//! Known open question, inherited deliberately: when more descriptors
//! than the page cap share one start time, advancing to the last match's
//! start time makes no progress and the loop outside can stall.
use vstd::prelude::*;

verus! {

use crate::isapi::IsapiCmSearchResultMatchItem;
use crate::store::{ClipModel, ClipStore, StoreModel, urls_contain};

/// Unix time of the start of the deployment year: no clip precedes it.
pub const DEPLOYMENT_EPOCH: i64 = 1704056400;

/// How far behind the newest known clip a run starts, to tolerate clock
/// skew and short outages: five days, in seconds.
pub const BACKOFF_SECONDS: i64 = 432000;

/// One discovery window, in seconds.
pub const DAY_SECONDS: i64 = 86400;

/// The descriptor of a match item that the store records: its playback
/// URI and start time, not yet downloaded.
pub open spec fn item_model(it: IsapiCmSearchResultMatchItem) -> ClipModel {
    ClipModel {
        media_url: it.media_segment_descriptor.playback_uri@,
        start_unix_time: it.time_span.start_time as int,
        local_file_uuid: Option::None,
    }
}

/// Where a run begins: the newest known start time minus the backoff, or
/// the epoch floor when the store is empty.
pub open spec fn spec_initial_window_start(latest: Option<i64>) -> int {
    match latest {
        Option::Some(t) => t - BACKOFF_SECONDS,
        Option::None => DEPLOYMENT_EPOCH as int,
    }
}

/// Computes the first window start of a run from the store's newest
/// start time.
pub fn initial_window_start(latest: Option<i64>) -> (r: i64)
    requires
        latest matches Some(t) ==> i64::MIN + BACKOFF_SECONDS <= t,
    ensures
        r as int == spec_initial_window_start(latest),
{
    match latest {
        Option::Some(t) => t - BACKOFF_SECONDS,
        Option::None => DEPLOYMENT_EPOCH,
    }
}

/// What one window's worth of returned descriptors leaves in the clip
/// table: each in turn is inserted unless its URI is already present.
pub open spec fn spec_insert_matches(
    clips: Seq<ClipModel>,
    items: Seq<IsapiCmSearchResultMatchItem>,
) -> Seq<ClipModel>
    decreases items.len(),
{
    if items.len() == 0 {
        clips
    } else {
        let rest = spec_insert_matches(clips, items.drop_last());
        if urls_contain(rest, item_model(items.last()).media_url) {
            rest
        } else {
            rest.push(item_model(items.last()))
        }
    }
}

/// Processes one window's response: inserts every returned descriptor,
/// treating a unique-key conflict as "already known", and computes the
/// next window start — the last descriptor's start time if any were
/// returned, one day further otherwise.
///
/// Returns how many descriptors were new, and the next window start.
#[verifier::loop_isolation(false)]
pub fn discovery_step(
    store: &mut ClipStore,
    window_start: i64,
    items: &Vec<IsapiCmSearchResultMatchItem>,
) -> (r: (usize, i64))
    requires
        old(store)@.wf(),
        window_start <= i64::MAX - DAY_SECONDS,
    ensures
        final(store)@.wf(),
        final(store)@.thumbnails == old(store)@.thumbnails,
        final(store)@.clips == spec_insert_matches(old(store)@.clips, items@),
        r.0 == final(store)@.clips.len() - old(store)@.clips.len(),
        r.1 as int == (if items@.len() > 0 {
            items@.last().time_span.start_time as int
        } else {
            window_start + DAY_SECONDS
        }),
{
    let n = items.len();
    let mut new_matches: usize = 0;
    let mut i: usize = 0;
    while i < n
        invariant
            i <= n,
            store@.wf(),
            store@.thumbnails == old(store)@.thumbnails,
            store@.clips == spec_insert_matches(old(store)@.clips, items@.take(i as int)),
            new_matches == store@.clips.len() - old(store)@.clips.len(),
            new_matches <= i,
        decreases n - i,
    {
        let it = &items[i];
        proof {
            assert(items@.take(i as int + 1).drop_last() =~= items@.take(i as int));
            assert(items@.take(i as int + 1).last() == items@[i as int]);
        }
        let url = it.media_segment_descriptor.playback_uri.clone();
        match store.insert_clip(url, it.time_span.start_time) {
            Ok(()) => {
                new_matches += 1;
            },
            Err(_) => {
                // Already known: the expected dedup signal.
            },
        }
        i += 1;
    }
    proof {
        assert(items@.take(n as int) =~= items@);
    }
    let next_start: i64 = if n > 0 {
        items[n - 1].time_span.start_time
    } else {
        window_start + DAY_SECONDS
    };
    (new_matches, next_start)
}

/// Discovery grows the clip table monotonically: it only appends. Every
/// record present before a window is processed is still there, unchanged
/// and in place, afterwards — in particular no `media_url` and no set
/// `local_file_uuid` is ever altered or removed by discovery.
pub proof fn lemma_discovery_only_appends(
    clips: Seq<ClipModel>,
    items: Seq<IsapiCmSearchResultMatchItem>,
)
    ensures
        spec_insert_matches(clips, items).len() >= clips.len(),
        spec_insert_matches(clips, items).take(clips.len() as int) == clips,
    decreases items.len(),
{
    if items.len() == 0 {
        assert(spec_insert_matches(clips, items).take(clips.len() as int) =~= clips);
    } else {
        lemma_discovery_only_appends(clips, items.drop_last());
        let rest = spec_insert_matches(clips, items.drop_last());
        if !urls_contain(rest, item_model(items.last()).media_url) {
            assert(rest.push(item_model(items.last())).take(clips.len() as int) =~= rest.take(
                clips.len() as int,
            ));
        }
    }
}

/// Re-running discovery over an already-covered window with unchanged
/// remote data inserts nothing: when every returned descriptor's URI is
/// already present, the clip table comes out exactly as it went in.
pub proof fn lemma_discovery_idempotent(
    clips: Seq<ClipModel>,
    items: Seq<IsapiCmSearchResultMatchItem>,
)
    requires
        forall|k: int|
            0 <= k < items.len() ==> urls_contain(clips, item_model(#[trigger] items[k]).media_url),
    ensures
        spec_insert_matches(clips, items) == clips,
    decreases items.len(),
{
    if items.len() > 0 {
        lemma_discovery_idempotent(clips, items.drop_last());
        assert(items.last() == items[items.len() - 1]);
    }
}

/// Where the window stands after `k` consecutive empty responses.
pub open spec fn empty_windows_advance(floor: int, k: nat) -> int
    decreases k,
{
    if k == 0 {
        floor
    } else {
        empty_windows_advance(floor, (k - 1) as nat) + DAY_SECONDS
    }
}

proof fn lemma_empty_windows_advance_closed(floor: int, k: nat)
    ensures
        empty_windows_advance(floor, k) == floor + k * (DAY_SECONDS as int),
    decreases k,
{
    if k > 0 {
        lemma_empty_windows_advance_closed(floor, (k - 1) as nat);
        assert((k - 1) * (DAY_SECONDS as int) + DAY_SECONDS == k * (DAY_SECONDS as int))
            by (nonlinear_arith);
    }
}

/// Against a remote source with no matches at all, discovery terminates:
/// starting from any floor below the present, after exactly
/// `(now - floor + 86399) / 86400` one-day advances the window reaches
/// the present (so the loop guard fails), and every earlier window still
/// lay before the present (so every day in between was visited).
pub proof fn lemma_empty_discovery_terminates(floor: int, now: int)
    requires
        floor < now,
    ensures
        ({
            let steps = (now - floor + DAY_SECONDS - 1) / (DAY_SECONDS as int);
            &&& steps >= 1
            &&& empty_windows_advance(floor, steps as nat) >= now
            &&& forall|k: int|
                0 <= k < steps ==> #[trigger] empty_windows_advance(floor, k as nat) < now
        }),
{
    let day = DAY_SECONDS as int;
    let d = now - floor;
    let steps = (d + day - 1) / day;
    assert(d + day - 1 == day * steps + ((d + day - 1) % day));
    assert(0 <= (d + day - 1) % day < day);
    assert(steps >= 1);
    lemma_empty_windows_advance_closed(floor, steps as nat);
    assert(day * steps >= d);
    assert(empty_windows_advance(floor, steps as nat) >= now);
    assert forall|k: int| 0 <= k < steps implies #[trigger] empty_windows_advance(floor, k as nat)
        < now by {
        lemma_empty_windows_advance_closed(floor, k as nat);
        assert(k * day <= (steps - 1) * day) by (nonlinear_arith)
            requires
                k <= steps - 1,
                0 < day,
        ;
        assert((steps - 1) * day == day * steps - day);
        assert(day * steps - day < d);
    }
}

} // verus!
