//! Identity tokens: the 36-character lowercase hyphenated strings that tie
//! a managed file back to the store record it belongs to.
//!
//! A token is embedded somewhere in a managed file's name; the reconciler
//! recovers it by scanning for the leftmost occurrence of the token shape.
use vstd::prelude::*;

verus! {

/// A lowercase hexadecimal digit.
pub open spec fn is_lower_hex(c: char) -> bool {
    ('0' <= c && c <= '9') || ('a' <= c && c <= 'f')
}

/// What may stand at offset `j` of a token: a hyphen at offsets 8, 13, 18
/// and 23, a lowercase hexadecimal digit everywhere else.
pub open spec fn token_char_ok(j: int, c: char) -> bool {
    if j == 8 || j == 13 || j == 18 || j == 23 {
        c == '-'
    } else {
        is_lower_hex(c)
    }
}

/// A well-shaped identity token: 36 characters in the hyphenated groups.
pub open spec fn is_identity_token(s: Seq<char>) -> bool {
    s.len() == 36 && (forall|j: int| 0 <= j < 36 ==> token_char_ok(j, #[trigger] s[j]))
}

/// A token occurrence begins at offset `i` of `s`.
pub open spec fn token_at(s: Seq<char>, i: int) -> bool {
    0 <= i && i + 36 <= s.len() && (forall|j: int|
        0 <= j < 36 ==> token_char_ok(j, #[trigger] s[i + j]))
}

/// Some token occurrence exists in `s`.
pub open spec fn has_token(s: Seq<char>) -> bool {
    exists|i: int| token_at(s, i)
}

/// The offset of the leftmost token occurrence at or after `i`, or -1 if
/// there is none.
pub open spec fn first_token_index_from(s: Seq<char>, i: int) -> int
    decreases s.len() - i when 0 <= i <= s.len()
{
    if i + 36 > s.len() {
        -1
    } else if token_at(s, i) {
        i
    } else {
        first_token_index_from(s, i + 1)
    }
}

/// The leftmost token embedded in `s`, if any.
pub open spec fn spec_find_token(s: Seq<char>) -> Option<Seq<char>> {
    let i = first_token_index_from(s, 0);
    if i >= 0 {
        Option::Some(s.subrange(i, i + 36))
    } else {
        Option::None
    }
}

/// `first_token_index_from` finds exactly the leftmost occurrence at or
/// after `i`, and -1 exactly when there is none.
pub proof fn lemma_first_token_index_from(s: Seq<char>, i: int)
    requires
        0 <= i <= s.len(),
    ensures
        first_token_index_from(s, i) == -1 ==> (forall|k: int| i <= k ==> !token_at(s, k)),
        first_token_index_from(s, i) >= 0 ==> {
            let r = first_token_index_from(s, i);
            &&& i <= r
            &&& token_at(s, r)
            &&& forall|k: int| i <= k < r ==> !token_at(s, k)
        },
    decreases s.len() - i,
{
    if i + 36 > s.len() {
        assert forall|k: int| i <= k implies !token_at(s, k) by {
            assert(k + 36 > s.len());
        }
    } else if token_at(s, i) {
    } else {
        lemma_first_token_index_from(s, i + 1);
    }
}

/// Whether `has_token` holds, together with the leftmost token itself.
///
/// Returns the leftmost embedded token of `name`, or `None` when no
/// 36-character window of `name` has the token shape.
pub fn find_token(name: &str) -> (r: Option<String>)
    ensures
        match r {
            Option::Some(t) => spec_find_token(name@) == Option::Some(t@),
            Option::None => spec_find_token(name@) is None,
        },
        r is Some <==> has_token(name@),
{
    proof {
        lemma_first_token_index_from(name@, 0);
    }
    let n = name.unicode_len();
    if n < 36 {
        return Option::None;
    }
    let mut i: usize = 0;
    while i <= n - 36
        invariant
            n == name@.len(),
            36 <= n,
            i <= n - 36 + 1,
            first_token_index_from(name@, 0) == first_token_index_from(name@, i as int),
        decreases n - i,
    {
        let mut j: usize = 0;
        let mut ok = true;
        while j < 36 && ok
            invariant
                n == name@.len(),
                i + 36 <= n,
                j <= 36,
                ok ==> forall|t: int| 0 <= t < j ==> token_char_ok(t, #[trigger] name@[i + t]),
                !ok ==> exists|t: int|
                    0 <= t < 36 && !token_char_ok(t, #[trigger] name@[i + t]),
            decreases 36 - j,
        {
            let c = name.get_char(i + j);
            if !token_char_matches(j, c) {
                ok = false;
            }
            j += 1;
        }
        if ok {
            assert(token_at(name@, i as int));
            assert(first_token_index_from(name@, i as int) == i as int);
            let t = name.substring_char(i, i + 36).to_owned();
            assert(t@ == name@.subrange(i as int, i as int + 36));
            proof {
                lemma_first_token_index_from(name@, 0);
            }
            return Option::Some(t);
        }
        assert(!token_at(name@, i as int));
        assert(first_token_index_from(name@, i as int) == first_token_index_from(
            name@,
            i as int + 1,
        ));
        i += 1;
    }
    assert(first_token_index_from(name@, i as int) == -1);
    Option::None
}

/// Executable form of `token_char_ok`.
fn token_char_matches(j: usize, c: char) -> (r: bool)
    requires
        j < 36,
    ensures
        r == token_char_ok(j as int, c),
{
    if j == 8 || j == 13 || j == 18 || j == 23 {
        c == '-'
    } else {
        ('0' <= c && c <= '9') || ('a' <= c && c <= 'f')
    }
}

/// Relies on `uuid::Uuid::new_v4` and its `Display` form: a fresh random
/// version-4 UUID, printed as 36 lowercase hyphenated hexadecimal
/// characters. Nothing more is assumed of the value: in particular not
/// that two calls differ.
#[verifier::external_body]
pub(crate) fn fresh_token() -> (r: String)
    ensures
        is_identity_token(r@),
{
    uuid::Uuid::new_v4().to_string()
}

} // verus!
