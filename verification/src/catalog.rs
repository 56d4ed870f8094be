//! Catalog identifiers: `addon:<addon uuid>:<local catalog id>`.

use vstd::prelude::*;
use vstd::string::*;
use vstd::utf8::encode_utf8;

use crate::ids::{
    collection_of, law_versioned_is_not_nil, new_v5, parse_uuid, uuid_of_text, uuid_v5,
};

verus! {

/// What an addon-sourced catalog id starts with.
pub open spec fn addon_prefix() -> Seq<char> {
    seq!['a', 'd', 'd', 'o', 'n', ':']
}

/// The position of the first `c` in `s`.
pub open spec fn first_position(s: Seq<char>, c: char) -> Option<int>
    decreases s.len(),
{
    if s.len() == 0 {
        None
    } else if s[0] == c {
        Some(0)
    } else {
        match first_position(s.skip(1), c) {
            Some(i) => Some(i + 1),
            None => None,
        }
    }
}

/// The addon uuid and the local catalog id in `media_id`: what stands before and after the first
/// colon behind the prefix `addon:`.
pub open spec fn membership_of(media_id: Seq<char>) -> Option<(Seq<char>, Seq<char>)> {
    if !addon_prefix().is_prefix_of(media_id) {
        None
    } else {
        let rest = media_id.skip(addon_prefix().len() as int);
        match first_position(rest, ':') {
            Some(i) => Some((rest.take(i), rest.skip(i + 1))),
            None => None,
        }
    }
}

proof fn lemma_first_position(s: Seq<char>, c: char)
    ensures
        match first_position(s, c) {
            Some(i) => 0 <= i < s.len() && s[i] == c && forall|j: int| 0 <= j < i ==> s[j] != c,
            None => forall|j: int| 0 <= j < s.len() ==> s[j] != c,
        },
    decreases s.len(),
{
    if s.len() > 0 && s[0] != c {
        let t = s.skip(1);
        lemma_first_position(t, c);
        assert forall|j: int| 1 <= j < s.len() implies s[j] == t[j - 1] by {}
    }
}

proof fn lemma_position_is_first(s: Seq<char>, c: char, i: int)
    requires
        0 <= i < s.len(),
        s[i] == c,
        forall|j: int| 0 <= j < i ==> s[j] != c,
    ensures
        first_position(s, c) == Some(i),
{
    lemma_first_position(s, c);
}

/// Extract `(addon_uuid_str, local_catalog_id)` from an addon-sourced `media_id`.
/// Returns `None` for legacy catalog IDs that don't start with `addon:`.
pub fn catalog_membership(media_id: &str) -> (r: Option<(&str, &str)>)
    ensures
        match r {
            Some((addon, local)) => membership_of(media_id@) == Some((addon@, local@)),
            None => membership_of(media_id@) is None,
        },
{
    let n: usize = media_id.unicode_len();
    if n < 6 || media_id.get_char(0) != 'a' || media_id.get_char(1) != 'd' || media_id.get_char(2)
        != 'd' || media_id.get_char(3) != 'o' || media_id.get_char(4) != 'n' || media_id.get_char(5)
        != ':' {
        proof {
            if addon_prefix().is_prefix_of(media_id@) {
                assert(media_id@.subrange(0, 6) =~= addon_prefix());
                assert forall|k: int| 0 <= k < 6 implies media_id@[k] == addon_prefix()[k] by {
                    assert(media_id@.subrange(0, 6)[k] == media_id@[k]);
                }
                assert(media_id@[0] == addon_prefix()[0]);
                assert(media_id@[1] == addon_prefix()[1]);
                assert(media_id@[2] == addon_prefix()[2]);
                assert(media_id@[3] == addon_prefix()[3]);
                assert(media_id@[4] == addon_prefix()[4]);
                assert(media_id@[5] == addon_prefix()[5]);
            }
        }
        return None;
    }
    assert(media_id@.subrange(0, 6) =~= addon_prefix());
    let ghost rest = media_id@.skip(6);
    let mut i: usize = 6;
    while i < n
        invariant
            n == media_id@.len(),
            6 <= i <= n,
            rest == media_id@.skip(6),
            addon_prefix().is_prefix_of(media_id@),
            forall|j: int| 0 <= j < i - 6 ==> rest[j] != ':',
        decreases n - i,
    {
        if media_id.get_char(i) == ':' {
            proof {
                lemma_position_is_first(rest, ':', i - 6);
                assert(rest.take(i - 6) =~= media_id@.subrange(6, i as int));
                assert(rest.skip(i - 6 + 1) =~= media_id@.subrange(i + 1, n as int));
            }
            return Some((media_id.substring_char(6, i), media_id.substring_char(i + 1, n)));
        }
        i = i + 1;
    }
    proof {
        lemma_first_position(rest, ':');
    }
    None
}

/// The collection that the members of catalog `media_id` belong to; nil where `media_id` names no
/// addon or its addon part is no UUID.
pub open spec fn catalog_collection(media_id: Seq<char>) -> u128 {
    match membership_of(media_id) {
        Some((addon, local)) => match uuid_of_text(addon) {
            Some(addon_id) => collection_of(addon_id, local),
            None => crate::ids::NIL,
        },
        None => crate::ids::NIL,
    }
}

/// The collection id of catalog `media_id`. It is nil exactly for an id that does not name an
/// addon by its UUID.
pub fn catalog_collection_id(media_id: &str) -> (r: u128)
    ensures
        r == catalog_collection(media_id@),
        r == crate::ids::NIL <==> {
            ||| membership_of(media_id@) is None
            ||| uuid_of_text((membership_of(media_id@)->0).0) is None
        },
{
    match catalog_membership(media_id) {
        Some((addon, local)) => match parse_uuid(addon) {
            Some(addon_id) => {
                let id: u128 = new_v5(addon_id, local.as_bytes());
                proof {
                    law_versioned_is_not_nil(id);
                }
                id
            },
            None => crate::ids::NIL,
        },
        None => crate::ids::NIL,
    }
}

/// An id put together from an addon part without a colon and any local part comes apart into
/// those two parts.
pub proof fn law_membership_reads_back(addon: Seq<char>, local: Seq<char>)
    requires
        !addon.contains(':'),
    ensures
        membership_of(addon_prefix() + addon + seq![':'] + local) == Some((addon, local)),
{
    let id = addon_prefix() + addon + seq![':'] + local;
    assert(id.subrange(0, addon_prefix().len() as int) =~= addon_prefix());
    let rest = id.skip(addon_prefix().len() as int);
    assert(rest =~= addon + seq![':'] + local);
    assert forall|j: int| 0 <= j < addon.len() implies rest[j] != ':' by {
        assert(rest[j] == addon[j]);
        assert(addon.contains(addon[j]));
    }
    lemma_position_is_first(rest, ':', addon.len() as int);
    assert(rest.take(addon.len() as int) =~= addon);
    assert(rest.skip(addon.len() as int + 1) =~= local);
}

/// A legacy id, one that does not start with `addon:`, has no membership.
pub proof fn law_legacy_id_has_no_membership(media_id: Seq<char>)
    requires
        !addon_prefix().is_prefix_of(media_id),
    ensures
        membership_of(media_id) is None,
        catalog_collection(media_id) == crate::ids::NIL,
{
}

/// An id that starts with `addon:` and has no colon behind that has no membership either.
pub proof fn law_id_without_a_local_part_has_no_membership(rest: Seq<char>)
    requires
        !rest.contains(':'),
    ensures
        membership_of(seq!['a', 'd', 'd', 'o', 'n', ':'] + rest) is None,
        catalog_collection(seq!['a', 'd', 'd', 'o', 'n', ':'] + rest) == 0,
{
    let id = seq!['a', 'd', 'd', 'o', 'n', ':'] + rest;
    assert(id.skip(6) =~= rest);
    lemma_first_position(rest, ':');
    match first_position(rest, ':') {
        Some(i) => {
            assert(rest.contains(rest[i]));
        },
        None => {},
    }
}

/// The collection of a catalog is the name-based id of the local part, as it is written, in the
/// namespace of the addon; nil where the addon part is no UUID.
pub proof fn law_collection_is_named_by_addon_and_catalog(addon: Seq<char>, local: Seq<char>)
    requires
        !addon.contains(':'),
    ensures
        ({
            let id = seq!['a', 'd', 'd', 'o', 'n', ':'] + addon + seq![':'] + local;
            catalog_collection(id) == match uuid_of_text(addon) {
                Some(addon_id) => uuid_v5(addon_id, encode_utf8(local)),
                None => 0,
            }
        }),
{
    law_membership_reads_back(addon, local);
    assert(addon_prefix() =~= seq!['a', 'd', 'd', 'o', 'n', ':']);
}

/// An id that does not start with `addon:` names no collection.
pub proof fn law_other_ids_name_no_collection(media_id: Seq<char>)
    requires
        media_id.len() < 6 || media_id.take(6) != seq!['a', 'd', 'd', 'o', 'n', ':'],
    ensures
        membership_of(media_id) is None,
        catalog_collection(media_id) == 0,
{
    if addon_prefix().is_prefix_of(media_id) {
        assert(media_id.take(6) =~= addon_prefix());
        assert(addon_prefix() =~= seq!['a', 'd', 'd', 'o', 'n', ':']);
    }
}

} // verus!
