//! The path codec: recovers a best-guess absolute filesystem path from an
//! encoded transcript-directory name in which both the path separator and
//! hyphens inside the final component are rendered as `-`.
//!
//! A recognised landmark token (a projects-root marker) disambiguates: the
//! tokens up to and including the landmark are path components, and everything
//! after it is re-joined with hyphens as the single final component. Without a
//! landmark the decoding falls back to naive delimiter replacement, which may
//! over-split names containing hyphens; this lossiness is inherent to the
//! encoding and deliberately not papered over.

use vstd::prelude::*;

use crate::text::{
    is_prefix, join_range, join_with, lemma_split_nonempty, lemma_split_token_chars, split_char,
    split_on, str_eq,
};

verus! {

/// A path-structure landmark token: the directory under which projects live.
pub open spec fn is_landmark(p: Seq<char>) -> bool {
    p == "Projects"@ || p == "UnityProjects"@
}

/// The index of the first landmark token at or after `i`, if any.
pub open spec fn landmark_index_from(parts: Seq<Seq<char>>, i: int) -> Option<int>
    decreases parts.len() - i,
{
    if i < 0 || i >= parts.len() {
        None
    } else if is_landmark(parts[i]) {
        Some(i)
    } else {
        landmark_index_from(parts, i + 1)
    }
}

/// A found landmark index lies within the token list, at a landmark token.
pub proof fn lemma_landmark_index_props(parts: Seq<Seq<char>>, j: int, i: int)
    requires
        landmark_index_from(parts, j) == Some(i),
    ensures
        j <= i < parts.len(),
        is_landmark(parts[i]),
    decreases parts.len() - j,
{
    if j < 0 || j >= parts.len() {
    } else if is_landmark(parts[j]) {
    } else {
        lemma_landmark_index_props(parts, j + 1, i);
    }
}

/// The encoded name with its single leading separator marker removed.
pub open spec fn strip_leading_dash(name: Seq<char>) -> Seq<char> {
    if name.len() > 0 && name[0] == '-' {
        name.drop_first()
    } else {
        name
    }
}

/// The decoded path of an encoded directory name.
pub open spec fn spec_convert_dir_name(name: Seq<char>) -> Seq<char> {
    let parts = split_on(strip_leading_dash(name), '-');
    match landmark_index_from(parts, 0) {
        Some(i) => {
            let path = seq!['/'] + join_with(parts.subrange(0, i + 1), '/');
            if i + 1 < parts.len() {
                path + seq!['/'] + join_with(parts.subrange(i + 1, parts.len() as int), '-')
            } else {
                path
            }
        },
        None => seq!['/'] + join_with(parts, '/'),
    }
}

/// Converts an encoded transcript-directory name back to a filesystem path.
///
/// Deterministic pure string processing: the same input always yields the
/// same output, and no I/O is performed.
pub fn convert_dir_name_to_path(dir_name: &str) -> (r: String)
    ensures
        r@ == spec_convert_dir_name(dir_name@),
{
    let len = dir_name.unicode_len();
    let name: &str = if len > 0 && dir_name.get_char(0) == '-' {
        let stripped = dir_name.substring_char(1, len);
        assert(stripped@ =~= strip_leading_dash(dir_name@));
        stripped
    } else {
        dir_name
    };
    let parts = split_char(name, '-');
    let ghost dv = parts.deep_view();

    let mut found: Option<usize> = None;
    let mut i: usize = 0;
    while i < parts.len()
        invariant_except_break
            dv == parts.deep_view(),
            i <= parts.len(),
            landmark_index_from(dv, 0) == landmark_index_from(dv, i as int),
            found is None,
        ensures
            (found matches Some(idx) ==> landmark_index_from(dv, 0) == Some(idx as int)),
            (found is None ==> landmark_index_from(dv, 0) is None),
        decreases parts.len() - i,
    {
        if str_eq(parts[i].as_str(), "Projects") || str_eq(parts[i].as_str(), "UnityProjects") {
            assert(is_landmark(dv[i as int]));
            found = Some(i);
            break ;
        }
        assert(!is_landmark(dv[i as int]));
        i += 1;
    }

    let mut r = String::new();
    crate::text::string_push(&mut r, '/');
    match found {
        Some(idx) => {
            assert(landmark_index_from(dv, 0) == Some(idx as int));
            proof {
                lemma_landmark_index_props(dv, 0, idx as int);
            }
            let joined = join_range(&parts, 0, idx + 1, '/');
            r.append(joined.as_str());
            if idx + 1 < parts.len() {
                crate::text::string_push(&mut r, '/');
                let tail = join_range(&parts, idx + 1, parts.len(), '-');
                r.append(tail.as_str());
                assert(r@ =~= (seq!['/'] + join_with(dv.subrange(0, idx + 1), '/')) + seq!['/']
                    + join_with(dv.subrange(idx + 1, dv.len() as int), '-'));
            } else {
                assert(r@ =~= seq!['/'] + join_with(dv.subrange(0, idx + 1), '/'));
            }
            r
        },
        None => {
            assert(landmark_index_from(dv, 0) is None);
            let joined = join_range(&parts, 0, parts.len(), '/');
            r.append(joined.as_str());
            assert(dv.subrange(0, dv.len() as int) =~= dv);
            assert(r@ =~= seq!['/'] + join_with(dv, '/'));
            r
        },
    }
}

/// The substring after the last occurrence of `sep`: the last component of a
/// `sep`-separated path (the whole string when `sep` does not occur).
pub open spec fn after_last_sep(s: Seq<char>, sep: char) -> Seq<char>
    decreases s.len(),
{
    if s.len() == 0 {
        s
    } else if s.last() == sep {
        Seq::<char>::empty()
    } else {
        after_last_sep(s.drop_last(), sep).push(s.last())
    }
}

proof fn lemma_after_last_sep_append(x: Seq<char>, t: Seq<char>, sep: char)
    requires
        forall|j: int| 0 <= j < t.len() ==> t[j] != sep,
    ensures
        after_last_sep(x + seq![sep] + t, sep) == t,
    decreases t.len(),
{
    let s = x + seq![sep] + t;
    if t.len() == 0 {
        assert(s.last() == sep);
        assert(after_last_sep(s, sep) =~= t);
    } else {
        assert(s.last() == t.last());
        assert(s.drop_last() =~= x + seq![sep] + t.drop_last());
        lemma_after_last_sep_append(x, t.drop_last(), sep);
        assert(after_last_sep(s, sep) =~= t.drop_last().push(t.last()));
        assert(t.drop_last().push(t.last()) =~= t);
    }
}

proof fn lemma_join_no_char(parts: Seq<Seq<char>>, sep: char, c: char)
    requires
        c != sep,
        forall|i: int, j: int|
            0 <= i < parts.len() && 0 <= j < parts[i].len() ==> #[trigger] parts[i][j] != c,
    ensures
        forall|k: int|
            0 <= k < join_with(parts, sep).len() ==> #[trigger] join_with(parts, sep)[k] != c,
    decreases parts.len(),
{
    if parts.len() == 0 {
    } else if parts.len() == 1 {
        assert(join_with(parts, sep) == parts[0]);
        assert(forall|k: int|
            0 <= k < parts[0].len() ==> #[trigger] join_with(parts, sep)[k] == parts[0][k]);
    } else {
        let rest = parts.drop_first();
        assert(forall|i: int, j: int|
            0 <= i < rest.len() && 0 <= j < rest[i].len() ==> #[trigger] rest[i][j] != c) by {
            assert(forall|i: int| 0 <= i < rest.len() ==> rest[i] == #[trigger] parts[i + 1]);
        }
        lemma_join_no_char(rest, sep, c);
        let jw = join_with(parts, sep);
        let jr = join_with(rest, sep);
        assert(jw == parts[0] + seq![sep] + jr);
        assert(forall|k: int| 0 <= k < jw.len() ==> #[trigger] jw[k] != c) by {
            assert(forall|k: int| 0 <= k < parts[0].len() ==> jw[k] == #[trigger] parts[0][k]);
            assert(jw[parts[0].len() as int] == sep);
            assert(forall|k: int|
                parts[0].len() + 1 <= k < jw.len() ==> #[trigger] jw[k] == jr[k - parts[0].len()
                    - 1]);
        }
    }
}

/// For every encoded name (free of the path separator, as directory names
/// are) whose token list carries its first landmark token at position `i`
/// with at least one token after it, the decoded path's last component equals
/// the hyphen-joined remainder tokens: hyphens inside the trailing project
/// name survive the round trip through the encoding.
pub proof fn lemma_landmark_decode_preserves_remainder(name: Seq<char>, i: int)
    requires
        forall|k: int| 0 <= k < name.len() ==> name[k] != '/',
        landmark_index_from(split_on(strip_leading_dash(name), '-'), 0) == Some(i),
        i + 1 < split_on(strip_leading_dash(name), '-').len(),
    ensures
        after_last_sep(spec_convert_dir_name(name), '/') == join_with(
            split_on(strip_leading_dash(name), '-').subrange(
                i + 1,
                split_on(strip_leading_dash(name), '-').len() as int,
            ),
            '-',
        ),
{
    let stripped = strip_leading_dash(name);
    let parts = split_on(stripped, '-');
    lemma_landmark_index_props(parts, 0, i);
    let rem = parts.subrange(i + 1, parts.len() as int);
    let path = seq!['/'] + join_with(parts.subrange(0, i + 1), '/');
    assert(spec_convert_dir_name(name) == path + seq!['/'] + join_with(rem, '-'));

    assert(forall|k: int| 0 <= k < stripped.len() ==> #[trigger] stripped[k] != '/') by {
        if name.len() > 0 && name[0] == '-' {
            assert(forall|k: int|
                0 <= k < stripped.len() ==> stripped[k] == #[trigger] name[k + 1]);
        }
    }
    lemma_split_token_chars(stripped, '-');
    assert(forall|a: int, b: int|
        0 <= a < rem.len() && 0 <= b < rem[a].len() ==> #[trigger] rem[a][b] != '/') by {
        assert(forall|a: int| 0 <= a < rem.len() ==> rem[a] == #[trigger] parts[a + i + 1]);
        assert(forall|a: int, b: int|
            0 <= a < parts.len() && 0 <= b < parts[a].len() ==> stripped.contains(
                #[trigger] parts[a][b],
            ));
    }
    lemma_join_no_char(rem, '-', '/');
    lemma_after_last_sep_append(path, join_with(rem, '-'), '/');
}

/// A decoded path always begins with the path separator.
pub proof fn lemma_decoded_path_absolute(name: Seq<char>)
    ensures
        spec_convert_dir_name(name).len() >= 1,
        spec_convert_dir_name(name)[0] == '/',
{
    let stripped = strip_leading_dash(name);
    let parts = split_on(stripped, '-');
    lemma_split_nonempty(stripped, '-');
    match landmark_index_from(parts, 0) {
        Some(i) => {
        },
        None => {
        },
    }
}

} // verus!
