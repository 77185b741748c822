//! File names: the identifier that a name embeds, and the names of the
//! files that stand beside a media file.

use crate::policy::FileRole;
use crate::text::{
    chars_of, first_index_of, index_of, lacks, last_index, last_index_of, lemma_first_index,
    lemma_lacks, lemma_last_index, matches_at, occurs_at, slice_of,
};
use vstd::prelude::*;
use vstd::string::StringExecFns;

verus! {

/// The identifier in a stem of the form `DATE_IDENTIFIER-SUFFIX`: what
/// stands between the first `_` and the last `-` after it.
pub open spec fn stem_identifier(stem: Seq<char>) -> Option<Seq<char>> {
    match first_index_of(stem, '_') {
        None => None,
        Some(u) => {
            let rest = stem.skip(u + 1);
            match last_index_of(rest, '-') {
                None => None,
                Some(d) => Some(rest.take(d)),
            }
        },
    }
}

/// The index of the point that parts a file name into stem and extension:
/// its last point, unless that is the name's first character.
pub open spec fn extension_point(name: Seq<char>) -> Option<int> {
    match last_index_of(name, '.') {
        None => None,
        Some(k) => if k > 0 {
            Some(k)
        } else {
            None
        },
    }
}

/// A file name without its extension.
pub open spec fn file_stem(name: Seq<char>) -> Seq<char> {
    match extension_point(name) {
        None => name,
        Some(k) => name.take(k),
    }
}

/// The extension of a file name, without the point; empty where it has none.
pub open spec fn extension(name: Seq<char>) -> Seq<char> {
    match extension_point(name) {
        None => Seq::empty(),
        Some(k) => name.skip(k + 1),
    }
}

/// The identifier that a file name embeds.
pub open spec fn file_identifier(name: Seq<char>) -> Option<Seq<char>> {
    stem_identifier(file_stem(name))
}

/// `s` ends with `suffix`.
pub open spec fn ends_with(s: Seq<char>, suffix: Seq<char>) -> bool {
    s.len() >= suffix.len() && occurs_at(s, suffix, s.len() - suffix.len())
}

/// The name is that of a main file: it ends with `-main.jpg` or `-main.mp4`.
pub open spec fn is_main_name(name: Seq<char>) -> bool {
    ends_with(name, "-main.jpg"@) || ends_with(name, "-main.mp4"@)
}

/// The name is that of a video.
pub open spec fn is_video_name(name: Seq<char>) -> bool {
    ends_with(name, ".mp4"@)
}

/// The name of the overlay that belongs to a main file: `-overlay.png` in
/// place of `-main.jpg` or `-main.mp4` at the end. Other names have none.
pub open spec fn overlay_name(name: Seq<char>) -> Option<Seq<char>> {
    if is_main_name(name) {
        Some(name.take(name.len() - "-main.jpg"@.len()) + "-overlay.png"@)
    } else {
        None
    }
}

/// The name of the file that has `role` beside the media file `name`.
pub open spec fn role_name(name: Seq<char>, role: FileRole) -> Option<Seq<char>> {
    match role {
        FileRole::Main => Some(name),
        FileRole::Overlay => overlay_name(name),
        FileRole::Normalized => Some(file_stem(name) + "_overlay.png"@),
        FileRole::Duplicate => Some(file_stem(name) + "_with_overlay."@ + extension(name)),
        FileRole::Output => Some(file_stem(name) + "_temp."@ + extension(name)),
    }
}

/// Extracts the identifier from a stem of the form
/// `DATE_IDENTIFIER-SUFFIX`. A stem without `_`, or without `-` after its
/// first `_`, has none.
pub fn parse_id_from_stem(stem: &str) -> (r: Option<String>)
    ensures
        match r {
            Some(id) => stem_identifier(stem@) == Some(id@),
            None => stem_identifier(stem@) is None,
        },
{
    let text = chars_of(stem);
    let n = text.len();
    assert(text@.subrange(0, n as int) =~= stem@);
    match index_of(&text, 0, n, '_') {
        None => {
            proof {
                lemma_lacks(stem@, '_');
            }
            None
        },
        Some(u) => {
            let start = u + 1;
            match last_index(&text, start, n, '-') {
                None => {
                    proof {
                        lemma_lacks(stem@.skip(start as int), '-');
                    }
                    None
                },
                Some(d) => {
                    assert(stem@.skip(start as int).take(d as int) =~= stem@.subrange(
                        start as int,
                        start + d,
                    ));
                    Some(slice_of(stem, start, start + d))
                },
            }
        },
    }
}

fn point_of(text: &Vec<char>) -> (r: Option<usize>)
    ensures
        match r {
            Some(k) => extension_point(text@) == Some(k as int) && 0 < k < text.len(),
            None => extension_point(text@) is None,
        },
{
    let n = text.len();
    assert(text@.subrange(0, n as int) =~= text@);
    match last_index(text, 0, n, '.') {
        None => {
            proof {
                lemma_lacks(text@, '.');
            }
            None
        },
        Some(k) => if k > 0 {
            Some(k)
        } else {
            None
        },
    }
}

/// The stem of a file name.
pub fn file_stem_of(name: &str) -> (r: String)
    ensures
        r@ == file_stem(name@),
{
    let text = chars_of(name);
    match point_of(&text) {
        None => {
            slice_of(name, 0, text.len())
        },
        Some(k) => slice_of(name, 0, k),
    }
}

/// The extension of a file name.
pub fn extension_of(name: &str) -> (r: String)
    ensures
        r@ == extension(name@),
{
    let text = chars_of(name);
    match point_of(&text) {
        None => String::new(),
        Some(k) => slice_of(name, k + 1, text.len()),
    }
}

/// The identifier that a file name embeds, if it embeds one.
pub fn identifier_of(name: &str) -> (r: Option<String>)
    ensures
        match r {
            Some(id) => file_identifier(name@) == Some(id@),
            None => file_identifier(name@) is None,
        },
{
    let stem = file_stem_of(name);
    parse_id_from_stem(stem.as_str())
}

fn has_suffix(text: &Vec<char>, suffix: &str) -> (r: bool)
    ensures
        r == ends_with(text@, suffix@),
{
    let pat = chars_of(suffix);
    if text.len() < pat.len() {
        return false;
    }
    matches_at(text, &pat, text.len() - pat.len())
}

/// Whether the name is that of a main file, which may have an overlay
/// beside it.
pub fn is_main(name: &str) -> (r: bool)
    ensures
        r == is_main_name(name@),
{
    let text = chars_of(name);
    has_suffix(&text, "-main.jpg") || has_suffix(&text, "-main.mp4")
}

/// Whether the name is that of a video.
pub fn is_video(name: &str) -> (r: bool)
    ensures
        r == is_video_name(name@),
{
    let text = chars_of(name);
    has_suffix(&text, ".mp4")
}

/// The name of the overlay that belongs to a main file.
pub fn overlay_sibling(name: &str) -> (r: Option<String>)
    ensures
        match r {
            Some(o) => overlay_name(name@) == Some(o@),
            None => overlay_name(name@) is None,
        },
{
    let text = chars_of(name);
    if has_suffix(&text, "-main.jpg") || has_suffix(&text, "-main.mp4") {
        proof {
            reveal_strlit("-main.jpg");
            reveal_strlit("-main.mp4");
        }
        let mut out = slice_of(name, 0, text.len() - 9);
        out.append("-overlay.png");
        Some(out)
    } else {
        None
    }
}

/// The name of the file that has `role` beside the media file `name`.
/// Only the overlay of a file that is no main file has no name.
pub fn sibling(name: &str, role: FileRole) -> (r: Option<String>)
    ensures
        match r {
            Some(o) => role_name(name@, role) == Some(o@),
            None => role_name(name@, role) is None,
        },
{
    match role {
        FileRole::Main => Some(String::from_str(name)),
        FileRole::Overlay => overlay_sibling(name),
        FileRole::Normalized => {
            let mut out = file_stem_of(name);
            out.append("_overlay.png");
            Some(out)
        },
        FileRole::Duplicate => {
            let mut out = file_stem_of(name);
            out.append("_with_overlay.");
            out.append(extension_of(name).as_str());
            Some(out)
        },
        FileRole::Output => {
            let mut out = file_stem_of(name);
            out.append("_temp.");
            out.append(extension_of(name).as_str());
            Some(out)
        },
    }
}

/// A stem that is made of a date without `_`, then `_`, an identifier, `-`
/// and a suffix without `-`, yields that identifier, whatever the
/// identifier holds.
pub proof fn lemma_identifier_of_stem(date: Seq<char>, id: Seq<char>, suffix: Seq<char>)
    requires
        lacks(date, '_'),
        lacks(suffix, '-'),
    ensures
        stem_identifier(date + seq!['_'] + id + seq!['-'] + suffix) == Some(id),
{
    let stem = date + seq!['_'] + id + seq!['-'] + suffix;
    let u = date.len() as int;
    lemma_first_index(stem, '_', u);
    let rest = stem.skip(u + 1);
    let d = id.len() as int;
    lemma_last_index(rest, '-', d);
}

/// A stem without `_` yields no identifier, and so does one without `-`
/// after its first `_`.
pub proof fn lemma_no_identifier(stem: Seq<char>)
    ensures
        lacks(stem, '_') ==> stem_identifier(stem) is None,
        lacks(stem, '-') ==> stem_identifier(stem) is None,
{
    if lacks(stem, '_') {
        lemma_lacks(stem, '_');
    }
    if lacks(stem, '-') {
        match first_index_of(stem, '_') {
            None => {},
            Some(u) => {
                let rest = stem.skip(u + 1);
                lemma_lacks(rest, '-');
            },
        }
    }
}

/// A name that is made of a stem that is not empty, a point and an
/// extension without a point, parts into that stem and that extension.
pub proof fn lemma_stem_and_extension(stem: Seq<char>, ext: Seq<char>)
    requires
        stem.len() > 0,
        lacks(ext, '.'),
    ensures
        file_stem(stem + seq!['.'] + ext) == stem,
        extension(stem + seq!['.'] + ext) == ext,
{
    let name = stem + seq!['.'] + ext;
    let k = stem.len() as int;
    lemma_last_index(name, '.', k);
}

/// A file name of the form `DATE_IDENTIFIER-SUFFIX.EXTENSION` embeds that
/// identifier, where the date holds no `_`, the suffix no `-` and the
/// extension no point.
pub proof fn lemma_identifier_of_file_name(
    date: Seq<char>,
    id: Seq<char>,
    suffix: Seq<char>,
    ext: Seq<char>,
)
    requires
        lacks(date, '_'),
        lacks(suffix, '-'),
        lacks(ext, '.'),
    ensures
        file_identifier(date + seq!['_'] + id + seq!['-'] + suffix + seq!['.'] + ext) == Some(id),
{
    let stem = date + seq!['_'] + id + seq!['-'] + suffix;
    lemma_stem_and_extension(stem, ext);
    lemma_identifier_of_stem(date, id, suffix);
}

/// The files of one task have names of their own: beside a main file, no
/// two roles share a name.
pub proof fn lemma_role_names_differ(name: Seq<char>, a: FileRole, b: FileRole)
    requires
        is_main_name(name),
        a != b,
    ensures
        role_name(name, a) is Some,
        role_name(name, b) is Some,
        role_name(name, a) != role_name(name, b),
{
    reveal_strlit("-main.jpg");
    reveal_strlit("-main.mp4");
    reveal_strlit("-overlay.png");
    reveal_strlit("_overlay.png");
    reveal_strlit("_with_overlay.");
    reveal_strlit("_temp.");
    let n = name.len() as int;
    let front = name.take(n - 4);
    let ext = name.skip(n - 3);
    assert(name.subrange(n - 9, n)[5] == name[n - 4]);
    assert forall|j: int| 0 <= j < ext.len() implies ext[j] != '.' by {
        assert(name.subrange(n - 9, n)[6 + j] == name[n - 3 + j]);
    }
    lemma_stem_and_extension(front, ext);
    let overlay = role_name(name, FileRole::Overlay).unwrap();
    assert(overlay.len() == n + 3);
}

/// What the name of a file with `role` adds to the stem of the main file
/// `name`. The overlay is named otherwise.
pub open spec fn role_suffix(name: Seq<char>, role: FileRole) -> Seq<char> {
    match role {
        FileRole::Main => seq!['.'] + extension(name),
        FileRole::Normalized => "_overlay.png"@,
        FileRole::Duplicate => "_with_overlay."@ + extension(name),
        _ => "_temp."@ + extension(name),
    }
}

proof fn lemma_role_suffix(name: Seq<char>, role: FileRole)
    requires
        is_main_name(name),
        role != FileRole::Overlay,
    ensures
        ends_with(file_stem(name), "-main"@),
        role_name(name, role) == Some(file_stem(name) + role_suffix(name, role)),
        role_suffix(name, role).len() >= 1,
        role_suffix(name, role)[0] == '.' || role_suffix(name, role)[0] == '_',
        lacks(role_suffix(name, role), '-'),
{
    reveal_strlit("-main.jpg");
    reveal_strlit("-main.mp4");
    reveal_strlit("-main");
    reveal_strlit("_overlay.png");
    reveal_strlit("_with_overlay.");
    reveal_strlit("_temp.");
    let n = name.len() as int;
    let front = name.take(n - 4);
    let ext = name.skip(n - 3);
    let end = name.subrange(n - 9, n);
    assert(end[5] == name[n - 4]);
    assert forall|j: int| 0 <= j < ext.len() implies ext[j] != '.' && ext[j] != '-' by {
        assert(end[6 + j] == name[n - 3 + j]);
    }
    assert(name =~= front + seq!['.'] + ext);
    lemma_stem_and_extension(front, ext);
    assert(front.subrange(front.len() - 5, front.len() as int) =~= "-main"@) by {
        assert forall|j: int| 0 <= j < 5 implies front[front.len() - 5 + j] == "-main"@[j] by {
            assert(end[j] == name[n - 9 + j]);
        }
    }
}

proof fn lemma_longer_stem(x: Seq<char>, y: Seq<char>, sa: Seq<char>, sb: Seq<char>)
    requires
        ends_with(y, "-main"@),
        x.len() < y.len(),
        sa.len() >= 1,
        sa[0] == '.' || sa[0] == '_',
        lacks(sa, '-'),
    ensures
        x + sa != y + sb,
{
    reveal_strlit("-main");
    if x + sa == y + sb {
        let whole = x + sa;
        let k = y.len() - x.len();
        assert(whole.len() == x.len() + sa.len());
        let end = y.subrange(y.len() - 5, y.len() as int);
        if k >= 5 {
            assert(end[0] == y[y.len() - 5]);
            assert((y + sb)[y.len() - 5] == y[y.len() - 5]);
        } else {
            assert(end[5 - k] == y[x.len() as int]);
            assert((y + sb)[x.len() as int] == y[x.len() as int]);
        }
    }
}

/// Two tasks do not contend for a file: the files that the task of one
/// main file writes, replaces or deletes are not those of the task of
/// another main file with another stem.
pub proof fn lemma_tasks_do_not_contend(n1: Seq<char>, n2: Seq<char>, a: FileRole, b: FileRole)
    requires
        is_main_name(n1),
        is_main_name(n2),
        file_stem(n1) != file_stem(n2),
        a != FileRole::Overlay,
        b != FileRole::Overlay,
    ensures
        role_name(n1, a) is Some,
        role_name(n2, b) is Some,
        role_name(n1, a) != role_name(n2, b),
{
    lemma_role_suffix(n1, a);
    lemma_role_suffix(n2, b);
    let x = file_stem(n1);
    let y = file_stem(n2);
    let sa = role_suffix(n1, a);
    let sb = role_suffix(n2, b);
    if x.len() < y.len() {
        lemma_longer_stem(x, y, sa, sb);
    } else if y.len() < x.len() {
        lemma_longer_stem(y, x, sb, sa);
    } else if x + sa == y + sb {
        assert forall|i: int| 0 <= i < x.len() implies x[i] == y[i] by {
            assert((x + sa)[i] == x[i]);
        }
        assert(x =~= y);
    }
}

} // verus!
