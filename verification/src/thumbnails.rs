//! The Thumbnail Pipeline's decisions: which downloaded clips still lack
//! a first-frame preview, which content file holds a clip's bytes, and
//! what the preview file is named.
//!
//! Running the external frame-extraction tool is plumbing outside the
//! library; it reports success back through `ClipStore::insert_thumbnail`.
use vstd::prelude::*;

verus! {

use crate::store::{ClipModel, ClipStore, StoreModel};

/// The closed set of preview artifact kinds.
#[derive(Clone, Copy, PartialEq, Eq, Structural, Debug)]
pub enum ThumbnailType {
    /// The first frame of the video.
    FirstFrame,
    /// A video clip where every frame is one minute apart.
    OneMinuteTimelapse,
}

impl ThumbnailType {
    /// The small integer tag a thumbnail kind is persisted and named under.
    pub open spec fn spec_code(self) -> u8 {
        match self {
            ThumbnailType::FirstFrame => 0,
            ThumbnailType::OneMinuteTimelapse => 1,
        }
    }

    /// Executable form of `spec_code`.
    pub fn code(self) -> (r: u8)
        ensures
            r == self.spec_code(),
    {
        match self {
            ThumbnailType::FirstFrame => 0,
            ThumbnailType::OneMinuteTimelapse => 1,
        }
    }
}

/// The tokens of the clips a run must still thumbnail: every clip with a
/// set `local_file_uuid` and no first-frame thumbnail record, in store
/// order.
pub open spec fn spec_missing_first_frame(s: StoreModel) -> Seq<Seq<char>> {
    s.clips.filter(
        |c: ClipModel|
            c.local_file_uuid is Some && !s.has_thumbnail(
                c.local_file_uuid->0,
                ThumbnailType::FirstFrame,
            ),
    ).map_values(|c: ClipModel| c.local_file_uuid->0)
}

/// Selects the clips that still lack a first-frame thumbnail: exactly
/// the downloaded ones without a first-frame record, so the pipeline
/// never re-generates an existing preview.
#[verifier::loop_isolation(false)]
pub fn missing_thumbnails(store: &ClipStore) -> (r: Vec<String>)
    ensures
        r@.map_values(|t: String| t@) == spec_missing_first_frame(store@),
{
    let ghost vf = |t: String| t@;
    let ghost pred = |c: ClipModel|
        c.local_file_uuid is Some && !store@.has_thumbnail(
            c.local_file_uuid->0,
            ThumbnailType::FirstFrame,
        );
    let ghost proj = |c: ClipModel| c.local_file_uuid->0;
    let n = store.clip_count();
    let mut out: Vec<String> = Vec::new();
    let mut i: usize = 0;
    while i < n
        invariant
            i <= n,
            n == store@.clips.len(),
            out@.map_values(vf) =~= store@.clips.take(i as int).filter(pred).map_values(proj),
        decreases n - i,
    {
        let c = store.clip_at(i);
        let ghost here = store@.clips[i as int];
        let ghost prev = out@;
        let mut keep = false;
        match &c.local_file_uuid {
            Option::Some(u) => {
                if !store.has_thumbnail_of(u, ThumbnailType::FirstFrame) {
                    keep = true;
                    out.push(u.clone());
                }
            },
            Option::None => {},
        }
        proof {
            reveal(Seq::filter);
            let single = seq![here];
            Seq::filter_distributes_over_add(store@.clips.take(i as int), single, pred);
            assert(store@.clips.take(i as int) + single =~= store@.clips.take(i as int + 1));
            assert(single.drop_last() =~= Seq::<ClipModel>::empty());
            assert(Seq::<ClipModel>::empty().filter(pred) =~= Seq::<ClipModel>::empty());
            if keep {
                assert(pred(here));
                assert(single.filter(pred) =~= seq![here]);
                let pushed = out@.last();
                assert(out@ =~= prev.push(pushed));
                assert(vf(pushed) == proj(here));
                prev.map_values(vf).lemma_push_map_commute(|x: Seq<char>| x, vf(pushed));
                assert(out@.map_values(vf) =~= prev.map_values(vf).push(proj(here)));
                let f = store@.clips.take(i as int).filter(pred);
                assert(store@.clips.take(i as int + 1).filter(pred) =~= f.push(here));
                f.lemma_push_map_commute(proj, here);
                assert(f.push(here).map_values(proj) =~= f.map_values(proj).push(proj(here)));
                assert(out@.map_values(vf) =~= store@.clips.take(i as int + 1).filter(
                    pred,
                ).map_values(proj));
            } else {
                assert(!pred(here));
                assert(single.filter(pred) =~= Seq::<ClipModel>::empty());
                assert(store@.clips.take(i as int + 1).filter(pred) =~= store@.clips.take(
                    i as int,
                ).filter(pred));
                assert(out@.map_values(vf) =~= store@.clips.take(i as int + 1).filter(
                    pred,
                ).map_values(proj));
            }
        }
        i += 1;
    }
    proof {
        assert(store@.clips.take(n as int) =~= store@.clips);
    }
    out
}

/// Every token the selection returns belongs to a downloaded clip and
/// has no first-frame thumbnail yet: the pipeline only ever creates the
/// missing record, never a second one.
pub proof fn lemma_missing_thumbnails_sound(s: StoreModel, i: int)
    requires
        0 <= i < spec_missing_first_frame(s).len(),
    ensures
        s.uuid_in_use(spec_missing_first_frame(s)[i]),
        !s.has_thumbnail(spec_missing_first_frame(s)[i], ThumbnailType::FirstFrame),
{
    let pred = |c: ClipModel|
        c.local_file_uuid is Some && !s.has_thumbnail(
            c.local_file_uuid->0,
            ThumbnailType::FirstFrame,
        );
    let filtered = s.clips.filter(pred);
    assert(spec_missing_first_frame(s)[i] == filtered[i].local_file_uuid->0);
    s.clips.lemma_filter_pred(pred, i);
    s.clips.lemma_filter_contains_rev(pred, filtered[i]);
    let w = choose|w: int| 0 <= w < s.clips.len() && #[trigger] s.clips[w] == filtered[i];
    assert(s.clips[w].local_file_uuid == Option::Some(filtered[i].local_file_uuid->0));
}

/// Whether `needle` occurs contiguously anywhere inside `hay`.
pub open spec fn name_contains(hay: Seq<char>, needle: Seq<char>) -> bool {
    exists|i: int|
        0 <= i <= hay.len() - needle.len() && #[trigger] hay.subrange(i, i + needle.len())
            == needle
}

/// Whether the pattern occurs anywhere inside the name.
fn contains_str(name: &str, pat: &str) -> (r: bool)
    ensures
        r == name_contains(name@, pat@),
{
    let n = name.unicode_len();
    let m = pat.unicode_len();
    if m > n {
        assert(!name_contains(name@, pat@));
        return false;
    }
    let mut i: usize = 0;
    while i <= n - m
        invariant
            n == name@.len(),
            m == pat@.len(),
            m <= n,
            i <= n - m + 1,
            forall|k: int|
                0 <= k < i ==> #[trigger] name@.subrange(k, k + pat@.len()) != pat@,
        decreases n - i,
    {
        let mut j: usize = 0;
        let mut ok = true;
        while j < m && ok
            invariant
                n == name@.len(),
                m == pat@.len(),
                i + m <= n,
                j <= m,
                ok ==> forall|t: int| 0 <= t < j ==> name@[i + t] == pat@[t],
                !ok ==> exists|t: int| 0 <= t < m && name@[i + t] != pat@[t],
            decreases m - j,
        {
            if name.get_char(i + j) != pat.get_char(j) {
                ok = false;
            }
            j += 1;
        }
        if ok {
            assert(name@.subrange(i as int, i as int + pat@.len()) =~= pat@);
            assert(name_contains(name@, pat@));
            return true;
        }
        proof {
            let t = choose|t: int| 0 <= t < m && name@[i + t] != pat@[t];
            assert(name@.subrange(i as int, i as int + pat@.len())[t] == name@[i + t]);
            assert(name@.subrange(i as int, i as int + pat@.len()) != pat@);
        }
        i += 1;
    }
    assert forall|k: int| 0 <= k <= name@.len() - pat@.len() implies #[trigger] name@.subrange(
        k,
        k + pat@.len(),
    ) != pat@ by {
        assert(k < i);
    }
    false
}

/// Finds the content file that holds a clip's bytes: the first name in
/// the directory listing that contains the clip's identity token, as the
/// listing orders them.
#[verifier::loop_isolation(false)]
pub fn find_file_for_token(files: &Vec<String>, token: &str) -> (r: Option<String>)
    ensures
        match r {
            Option::Some(f) => exists|i: int|
                0 <= i < files@.len() && files@[i]@ == f@ && #[trigger] name_contains(
                    files@[i]@,
                    token@,
                ) && (forall|k: int| 0 <= k < i ==> !name_contains(#[trigger] files@[k]@, token@)),
            Option::None => forall|k: int|
                0 <= k < files@.len() ==> !name_contains(#[trigger] files@[k]@, token@),
        },
{
    let n = files.len();
    let mut i: usize = 0;
    while i < n
        invariant
            i <= n,
            n == files@.len(),
            forall|k: int| 0 <= k < i ==> !name_contains(#[trigger] files@[k]@, token@),
        decreases n - i,
    {
        if contains_str(files[i].as_str(), token) {
            return Option::Some(files[i].clone());
        }
        i += 1;
    }
    Option::None
}

/// The file name a thumbnail is stored under: the clip's identity token,
/// an underscore, the kind's tag, and the image extension.
pub open spec fn spec_thumbnail_file_name(token: Seq<char>, kind: ThumbnailType) -> Seq<char> {
    token + (match kind {
        ThumbnailType::FirstFrame => "_0.jpg"@,
        ThumbnailType::OneMinuteTimelapse => "_1.jpg"@,
    })
}

/// Builds the file name a clip's thumbnail of the given kind is stored
/// under.
pub fn thumbnail_file_name(token: &str, kind: ThumbnailType) -> (r: String)
    ensures
        r@ == spec_thumbnail_file_name(token@, kind),
{
    let mut out = token.to_owned();
    match kind {
        ThumbnailType::FirstFrame => out.append("_0.jpg"),
        ThumbnailType::OneMinuteTimelapse => out.append("_1.jpg"),
    }
    out
}

} // verus!
