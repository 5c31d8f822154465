//! The Reconciler: decides, for every file in a managed directory, whether
//! its embedded identity token still resolves to a live store row, and
//! plans the deletion of every file whose token does not.
//!
//! A filename without a parsable token is fatal and aborts the whole
//! pass: no partial progress, no skip-and-continue.
use vstd::prelude::*;

verus! {

use crate::errors::SyncError;
use crate::store::{ClipStore, StoreModel};
use crate::token::{find_token, has_token, spec_find_token};

/// Which managed directory a pass covers, and so which table its
/// embedded tokens are resolved against.
#[derive(Clone, Copy, PartialEq, Eq, Structural, Debug)]
pub enum ArtifactKind {
    /// The content directory; tokens resolve against `local_file_uuid`.
    Content,
    /// The thumbnail directory; tokens resolve against thumbnail rows.
    Thumbnail,
}

/// Whether a token resolves to a live row of the table that owns the
/// given directory.
pub open spec fn token_live(s: StoreModel, kind: ArtifactKind, token: Seq<char>) -> bool {
    match kind {
        ArtifactKind::Content => s.uuid_in_use(token),
        ArtifactKind::Thumbnail => s.thumb_token_referenced(token),
    }
}

/// A managed file is garbage when its leftmost embedded token resolves
/// to no live row. Meaningful only for names that embed a token.
pub open spec fn spec_garbage(s: StoreModel, kind: ArtifactKind, name: Seq<char>) -> bool {
    !token_live(s, kind, spec_find_token(name)->0)
}

/// The deletions of one clean reconciliation pass over a directory
/// listing: exactly the files whose embedded token has no live row.
pub open spec fn spec_deletions(s: StoreModel, kind: ArtifactKind, names: Seq<Seq<char>>) -> Seq<
    Seq<char>,
> {
    names.filter(|nm: Seq<char>| spec_garbage(s, kind, nm))
}

/// Plans one reconciliation pass over a directory listing.
///
/// Returns the files to delete: exactly those whose embedded token
/// resolves to no live row — a referenced file is never planned for
/// deletion, an unreferenced one always is. Fails with `Filesystem`,
/// planning nothing, exactly when some filename embeds no token.
#[verifier::loop_isolation(false)]
pub fn plan_deletions(store: &ClipStore, files: &Vec<String>, kind: ArtifactKind) -> (r: Result<
    Vec<String>,
    SyncError,
>)
    ensures
        match r {
            Ok(deletions) => {
                &&& forall|i: int| 0 <= i < files@.len() ==> has_token(#[trigger] files@[i]@)
                &&& deletions@.map_values(|f: String| f@) == spec_deletions(
                    store@,
                    kind,
                    files@.map_values(|f: String| f@),
                )
            },
            Err(e) => {
                &&& e == SyncError::Filesystem
                &&& exists|i: int| 0 <= i < files@.len() && !has_token(#[trigger] files@[i]@)
            },
        },
{
    let ghost vf = |f: String| f@;
    let ghost pred = |nm: Seq<char>| spec_garbage(store@, kind, nm);
    let ghost names = files@.map_values(vf);
    let n = files.len();
    let mut deletions: Vec<String> = Vec::new();
    let mut i: usize = 0;
    while i < n
        invariant
            i <= n,
            n == files@.len(),
            forall|k: int| 0 <= k < i ==> has_token(#[trigger] files@[k]@),
            deletions@.map_values(vf) =~= names.take(i as int).filter(pred),
        decreases n - i,
    {
        let name = &files[i];
        let token = match find_token(name.as_str()) {
            Option::Some(t) => t,
            Option::None => {
                assert(!has_token(files@[i as int]@));
                return Err(SyncError::Filesystem);
            },
        };
        let live = match kind {
            ArtifactKind::Content => store.has_local_uuid(&token),
            ArtifactKind::Thumbnail => store.has_thumbnail_row(&token),
        };
        proof {
            assert(names[i as int] == files@[i as int]@);
            assert(spec_find_token(names[i as int]) == Option::Some(token@));
            assert(pred(names[i as int]) <==> !live);
            reveal(Seq::filter);
            let single = seq![names[i as int]];
            Seq::filter_distributes_over_add(names.take(i as int), single, pred);
            assert(names.take(i as int) + single =~= names.take(i as int + 1));
            assert(single.drop_last() =~= Seq::<Seq<char>>::empty());
            assert(Seq::<Seq<char>>::empty().filter(pred) =~= Seq::<Seq<char>>::empty());
            if pred(names[i as int]) {
                assert(single.filter(pred) =~= seq![names[i as int]]);
            } else {
                assert(single.filter(pred) =~= Seq::<Seq<char>>::empty());
            }
        }
        if !live {
            let ghost before = deletions@;
            deletions.push(name.clone());
            proof {
                before.lemma_push_map_commute(vf, deletions@.last());
                assert(deletions@ =~= before.push(deletions@.last()));
                assert(vf(deletions@.last()) == names[i as int]);
                assert(deletions@.map_values(vf) =~= names.take(i as int + 1).filter(pred));
            }
        } else {
            proof {
                assert(names.take(i as int).filter(pred) + Seq::<Seq<char>>::empty() =~= names.take(
                    i as int,
                ).filter(pred));
                assert(deletions@.map_values(vf) =~= names.take(i as int + 1).filter(pred));
            }
        }
        i += 1;
    }
    proof {
        assert(names.take(n as int) =~= names);
    }
    Ok(deletions)
}

/// Reconciliation soundness for one clean pass: a file is planned for
/// deletion if and only if it stands in the listing and its embedded
/// token resolves to no live row. In particular a referenced file is
/// never deleted, and no unreferenced file is left behind.
pub proof fn lemma_reconcile_sound(
    s: StoreModel,
    kind: ArtifactKind,
    names: Seq<Seq<char>>,
    nm: Seq<char>,
)
    ensures
        spec_deletions(s, kind, names).contains(nm) <==> names.contains(nm) && spec_garbage(
            s,
            kind,
            nm,
        ),
{
    let pred = |x: Seq<char>| spec_garbage(s, kind, x);
    if spec_deletions(s, kind, names).contains(nm) {
        names.lemma_filter_contains_rev(pred, nm);
        let i = choose|i: int|
            0 <= i < names.filter(pred).len() && #[trigger] names.filter(pred)[i] == nm;
        names.lemma_filter_pred(pred, i);
    }
    if names.contains(nm) && pred(nm) {
        let i = choose|i: int| 0 <= i < names.len() && #[trigger] names[i] == nm;
        names.lemma_filter_contains(pred, i);
    }
}

} // verus!
