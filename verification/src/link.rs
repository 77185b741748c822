//! The identifier of a media item, as its download link holds it.

use crate::error::DecodeError;
use crate::text::{
    chars_of, find_from, first_occurrence, lacks, lemma_first_occurrence, occurs_at, slice_of,
};
use vstd::prelude::*;

verus! {

/// The identifier in a download link: what stands between the first
/// `&sid=` and the first `&mid` after it.
pub open spec fn link_identifier(link: Seq<char>) -> Option<Seq<char>> {
    match first_occurrence(link, "&sid="@) {
        None => None,
        Some(i) => {
            let rest = link.skip(i + "&sid="@.len());
            match first_occurrence(rest, "&mid"@) {
                None => None,
                Some(j) => Some(rest.take(j)),
            }
        },
    }
}

/// Decodes the identifier of a download link. A link without the two
/// markers, in that order, is malformed.
pub fn parse_id(link: &str) -> (r: Result<String, DecodeError>)
    ensures
        match r {
            Ok(id) => link_identifier(link@) == Some(id@),
            Err(e) => e == DecodeError::MalformedLink && link_identifier(link@) is None,
        },
{
    let text = chars_of(link);
    let start_pattern = chars_of("&sid=");
    let end_pattern = chars_of("&mid");
    match find_from(&text, 0, &start_pattern) {
        None => {
            assert(text@.skip(0) =~= link@);
            Err(DecodeError::MalformedLink)
        },
        Some(i) => {
            assert(text@.skip(0) =~= link@);
            let start = i + start_pattern.len();
            match find_from(&text, start, &end_pattern) {
                None => Err(DecodeError::MalformedLink),
                Some(j) => {
                    assert(link@.skip(start as int).take(j as int) =~= link@.subrange(
                        start as int,
                        start + j,
                    ));
                    Ok(slice_of(link, start, start + j))
                },
            }
        },
    }
}

/// An identifier never holds the marker that ends it.
pub proof fn lemma_identifier_excludes_end(link: Seq<char>)
    requires
        link_identifier(link) is Some,
    ensures
        forall|k: int| !occurs_at(link_identifier(link).unwrap(), "&mid"@, k),
{
    reveal_strlit("&mid");
    let mid = "&mid"@;
    let i = first_occurrence(link, "&sid="@).unwrap();
    let rest = link.skip(i + "&sid="@.len());
    let j = first_occurrence(rest, mid).unwrap();
    let id = rest.take(j);
    assert forall|k: int| !occurs_at(id, mid, k) by {
        if occurs_at(id, mid, k) {
            assert(rest.subrange(k, k + mid.len()) =~= id.subrange(k, k + mid.len()));
            assert(occurs_at(rest, mid, k));
        }
    }
}

/// A link that is made of a part without `&sid=`, then `&sid=`, an
/// identifier without `&`, `&mid` and anything more, decodes to that
/// identifier. So the identifier of such a link holds no `&` and neither of
/// the two markers.
pub proof fn lemma_identifier_of_link(prefix: Seq<char>, id: Seq<char>, rest: Seq<char>)
    requires
        forall|k: int| !occurs_at(prefix, "&sid="@, k),
        lacks(id, '&'),
    ensures
        link_identifier(prefix + "&sid="@ + id + "&mid"@ + rest) == Some(id),
        forall|k: int| !occurs_at(id, "&sid="@, k),
        forall|k: int| !occurs_at(id, "&mid"@, k),
{
    reveal_strlit("&sid=");
    reveal_strlit("&mid");
    let sid = "&sid="@;
    let mid = "&mid"@;
    let link = prefix + sid + id + mid + rest;
    let n = prefix.len() as int;
    assert(link.subrange(n, n + sid.len()) =~= sid);
    assert forall|k: int| 0 <= k < n implies !occurs_at(link, sid, k) by {
        if occurs_at(link, sid, k) {
            let part = link.subrange(k, k + sid.len());
            if k + sid.len() <= n {
                assert(prefix.subrange(k, k + sid.len()) =~= part);
                assert(occurs_at(prefix, sid, k));
            } else {
                assert(part[n - k] == link[n]);
            }
        }
    }
    lemma_first_occurrence(link, sid, n);
    let tail = link.skip(n + sid.len());
    let m = id.len() as int;
    assert(tail.subrange(m, m + mid.len()) =~= mid);
    assert forall|k: int| 0 <= k < m implies !occurs_at(tail, mid, k) by {
        if occurs_at(tail, mid, k) {
            assert(tail.subrange(k, k + mid.len())[0] == tail[k]);
        }
    }
    lemma_first_occurrence(tail, mid, m);
    assert forall|k: int| !occurs_at(id, sid, k) by {
        if occurs_at(id, sid, k) {
            assert(id.subrange(k, k + sid.len())[0] == id[k]);
        }
    }
    assert forall|k: int| !occurs_at(id, mid, k) by {
        if occurs_at(id, mid, k) {
            assert(id.subrange(k, k + mid.len())[0] == id[k]);
        }
    }
}

} // verus!
