//! The Download Manager's decisions: which records still need content,
//! in what order, and under what identity and file name the content is
//! stored.
//!
//! Streaming the bytes themselves is plumbing outside the library; it
//! reports completion back through `ClipStore::mark_downloaded`.
use vstd::prelude::*;

verus! {

use crate::store::{ClipModel, ClipRecord, ClipStore, StoreModel};
use crate::text::push_char;
use crate::token::{fresh_token, is_identity_token};

/// The clip records that still await a content download.
pub open spec fn spec_undownloaded(s: StoreModel) -> Seq<ClipModel> {
    s.clips.filter(|c: ClipModel| c.local_file_uuid is None)
}

/// How a single character of a playback URI appears in a file name:
/// characters unsafe in a path are replaced by an underscore.
pub open spec fn spec_sanitize_char(c: char) -> char {
    if c == '/' || c == '\\' || c == ':' || c == '?' || c == '*' || c == '"' || c == '<' || c == '>'
        || c == '&' || c == '|' {
        '_'
    } else {
        c
    }
}

/// A playback URI made filesystem-safe, character for character.
pub open spec fn spec_sanitize(s: Seq<char>) -> Seq<char> {
    s.map_values(|c: char| spec_sanitize_char(c))
}

/// The file name a clip's content is stored under: the sanitized playback
/// URI, an underscore, the identity token, and the content extension.
pub open spec fn spec_content_file_name(uri: Seq<char>, token: Seq<char>) -> Seq<char> {
    spec_sanitize(uri) + "_"@ + token + ".hevc"@
}

/// Replaces every non-path-safe character of a playback URI by an
/// underscore.
pub fn sanitize_uri(uri: &str) -> (r: String)
    ensures
        r@ == spec_sanitize(uri@),
{
    let n = uri.unicode_len();
    let mut out = String::new();
    let mut i: usize = 0;
    while i < n
        invariant
            n == uri@.len(),
            i <= n,
            out@ =~= uri@.take(i as int).map_values(|c: char| spec_sanitize_char(c)),
        decreases n - i,
    {
        let c = uri.get_char(i);
        let sc = if c == '/' || c == '\\' || c == ':' || c == '?' || c == '*' || c == '"' || c
            == '<' || c == '>' || c == '&' || c == '|' {
            '_'
        } else {
            c
        };
        push_char(&mut out, sc);
        proof {
            uri@.lemma_map_take_succ(|x: char| spec_sanitize_char(x), i as int);
        }
        i += 1;
    }
    proof {
        assert(uri@.take(n as int) =~= uri@);
    }
    out
}

/// Builds the content file name for a clip from its playback URI and its
/// identity token.
pub fn content_file_name(uri: &str, token: &str) -> (r: String)
    ensures
        r@ == spec_content_file_name(uri@, token@),
{
    let mut out = sanitize_uri(uri);
    out.append("_");
    out.append(token);
    out.append(".hevc");
    out
}

/// Assigns a downloadable clip its durable identity: a fresh identity
/// token, and the content file name derived from the playback URI and
/// that token.
pub fn new_download_identity(media_url: &str) -> (r: (String, String))
    ensures
        is_identity_token(r.0@),
        r.1@ == spec_content_file_name(media_url@, r.0@),
{
    let token = fresh_token();
    let name = content_file_name(media_url, token.as_str());
    (token, name)
}

/// `s.remove(i)` commutes with `map_values`.
proof fn lemma_map_values_remove<A, B>(s: Seq<A>, f: spec_fn(A) -> B, i: int)
    requires
        0 <= i < s.len(),
    ensures
        s.remove(i).map_values(f) =~= s.map_values(f).remove(i),
{
    s.remove_ensures(i);
    s.map_values(f).remove_ensures(i);
}

/// The records to download in this run: every clip record whose
/// `local_file_uuid` is still null, oldest first.
///
/// The result holds exactly the undownloaded records (as a multiset: none
/// lost, none duplicated), ordered by ascending `start_unix_time`.
#[verifier::loop_isolation(false)]
pub fn download_plan(store: &ClipStore) -> (r: Vec<ClipRecord>)
    ensures
        r@.map_values(|c: ClipRecord| c@).to_multiset() == spec_undownloaded(store@).to_multiset(),
        forall|a: int, b: int|
            0 <= a < b < r@.len() ==> r@[a]@.start_unix_time <= r@[b]@.start_unix_time,
        forall|a: int| 0 <= a < r@.len() ==> r@[a]@.local_file_uuid is None,
{
    broadcast use vstd::seq_lib::group_to_multiset_ensures;

    let ghost vf = |c: ClipRecord| c@;
    let ghost pred = |c: ClipModel| c.local_file_uuid is None;
    let n = store.clip_count();
    let mut work: Vec<ClipRecord> = Vec::new();
    let mut i: usize = 0;
    while i < n
        invariant
            n == store@.clips.len(),
            i <= n,
            work@.map_values(vf) =~= store@.clips.take(i as int).filter(pred),
        decreases n - i,
    {
        let c = store.clip_at(i);
        let ghost prev = work@;
        let ghost here = store@.clips[i as int];
        let keep = match &c.local_file_uuid {
            Option::Some(_) => false,
            Option::None => true,
        };
        if keep {
            work.push(c.clone());
        }
        proof {
            reveal(Seq::filter);
            let single = seq![here];
            Seq::filter_distributes_over_add(store@.clips.take(i as int), single, pred);
            assert(store@.clips.take(i as int) + single =~= store@.clips.take(i as int + 1));
            assert(single.drop_last() =~= Seq::<ClipModel>::empty());
            assert(store@.clips.take(i as int + 1).filter(pred) =~= store@.clips.take(
                i as int,
            ).filter(pred) + single.filter(pred));
            if keep {
                assert(pred(here));
                assert(single.filter(pred) =~= seq![here]);
                let pushed = work@.last();
                assert(work@ =~= prev.push(pushed));
                assert(vf(pushed) == here);
                prev.lemma_push_map_commute(vf, pushed);
                assert(work@.map_values(vf) =~= prev.map_values(vf).push(here));
                assert(prev.map_values(vf) + single =~= prev.map_values(vf).push(here));
                assert(work@.map_values(vf) =~= store@.clips.take(i as int + 1).filter(pred));
            } else {
                assert(!pred(here));
                assert(Seq::<ClipModel>::empty().filter(pred) =~= Seq::<ClipModel>::empty());
                assert(single.filter(pred) =~= Seq::<ClipModel>::empty());
                assert(store@.clips.take(i as int).filter(pred) + Seq::<ClipModel>::empty()
                    =~= store@.clips.take(i as int).filter(pred));
                assert(work@.map_values(vf) =~= store@.clips.take(i as int + 1).filter(pred));
            }
        }
        i += 1;
    }
    proof {
        assert(store@.clips.take(n as int) =~= store@.clips);
        let mapped = work@.map_values(vf);
        assert forall|a: int| 0 <= a < work@.len() implies work@[a]@.local_file_uuid is None by {
            assert(mapped[a] == vf(work@[a]));
            store@.clips.lemma_filter_pred(pred, a);
            assert(pred(mapped[a]));
        }
    }
    // Repeatedly move the oldest remaining record over, so the plan comes
    // out ordered by ascending start time.
    let mut out: Vec<ClipRecord> = Vec::new();
    while work.len() > 0
        invariant
            out@.map_values(vf).to_multiset().add(work@.map_values(vf).to_multiset())
                =~= spec_undownloaded(store@).to_multiset(),
            forall|a: int, b: int|
                0 <= a < b < out@.len() ==> out@[a]@.start_unix_time <= out@[b]@.start_unix_time,
            forall|a: int, b: int|
                0 <= a < out@.len() && 0 <= b < work@.len() ==> out@[a]@.start_unix_time
                    <= work@[b]@.start_unix_time,
            forall|a: int| 0 <= a < out@.len() ==> out@[a]@.local_file_uuid is None,
            forall|a: int| 0 <= a < work@.len() ==> work@[a]@.local_file_uuid is None,
        decreases work.len(),
    {
        let wn = work.len();
        let mut m: usize = 0;
        let mut k: usize = 1;
        while k < wn
            invariant
                wn == work@.len(),
                m < k <= wn,
                forall|a: int|
                    0 <= a < k ==> work@[m as int]@.start_unix_time <= work@[a]@.start_unix_time,
            decreases wn - k,
        {
            if work[k].start_unix_time < work[m].start_unix_time {
                m = k;
            }
            k += 1;
        }
        let ghost old_out = out@;
        let ghost old_work = work@;
        let x = work.remove(m);
        out.push(x);
        proof {
            assert(0 <= m < old_work.len());
            let old_mapped = old_work.map_values(vf);
            let xv = old_work[m as int]@;
            assert(vf(old_work[m as int]) == old_work[m as int]@);
            assert(old_mapped[m as int] == xv);
            lemma_map_values_remove(old_work, vf, m as int);
            assert(work@ =~= old_work.remove(m as int));
            assert(work@.map_values(vf) =~= old_mapped.remove(m as int));
            assert(old_mapped.remove(m as int).to_multiset() =~= old_mapped.to_multiset().remove(
                xv,
            ));
            assert(old_mapped.contains(xv));
            assert(old_mapped.to_multiset().count(xv) > 0);
            old_out.lemma_push_map_commute(vf, old_work[m as int]);
            assert(out@ =~= old_out.push(old_work[m as int]));
            assert(out@.map_values(vf) =~= old_out.map_values(vf).push(xv));
            assert(out@.map_values(vf).to_multiset() =~= old_out.map_values(
                vf,
            ).to_multiset().insert(xv));
            assert(out@.map_values(vf).to_multiset().add(work@.map_values(vf).to_multiset())
                =~= spec_undownloaded(store@).to_multiset());
        }
    }
    out
}

} // verus!
