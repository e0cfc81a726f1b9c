//! Verified character-level utilities on strings: equality, prefix and
//! substring tests, splitting, joining, trimming and truncation. All of the
//! library's string handling goes through these, with contracts over the
//! `Seq<char>` views.

use vstd::prelude::*;

verus! {

/// Appends one character to a string.
///
/// Relies on std's `String::push`, which appends the given char to the end
/// of the string.
#[verifier::external_body]
pub fn string_push(s: &mut String, c: char)
    ensures
        final(s)@ == old(s)@.push(c),
{
    s.push(c);
}

/// Character-wise string equality.
pub fn str_eq(a: &str, b: &str) -> (r: bool)
    ensures
        r == (a@ == b@),
{
    let a_len = a.unicode_len();
    let b_len = b.unicode_len();
    if a_len != b_len {
        assert(a@ != b@);
        return false;
    }
    let mut i: usize = 0;
    while i < a_len
        invariant
            a_len == a@.len(),
            b_len == b@.len(),
            a_len == b_len,
            i <= a_len,
            forall|j: int| 0 <= j < i ==> a@[j] == b@[j],
        decreases a_len - i,
    {
        if a.get_char(i) != b.get_char(i) {
            return false;
        }
        i += 1;
    }
    assert(a@ =~= b@);
    true
}

/// `p` is a prefix of `s`.
pub open spec fn is_prefix(p: Seq<char>, s: Seq<char>) -> bool {
    p.len() <= s.len() && s.subrange(0, p.len() as int) == p
}

/// `p` is a suffix of `s`.
pub open spec fn is_suffix(p: Seq<char>, s: Seq<char>) -> bool {
    p.len() <= s.len() && s.subrange(s.len() - p.len(), s.len() as int) == p
}

/// Whether `needle` occurs in `haystack` starting at index `i`.
pub open spec fn occurs_at(haystack: Seq<char>, needle: Seq<char>, i: int) -> bool {
    0 <= i && i + needle.len() <= haystack.len() && haystack.subrange(
        i,
        i + needle.len(),
    ) == needle
}

/// `needle` occurs somewhere in `haystack`.
pub open spec fn contains_seq(haystack: Seq<char>, needle: Seq<char>) -> bool {
    exists|i: int| occurs_at(haystack, needle, i)
}

/// Character-wise prefix test.
pub fn str_starts_with(s: &str, p: &str) -> (r: bool)
    ensures
        r == is_prefix(p@, s@),
{
    let s_len = s.unicode_len();
    let p_len = p.unicode_len();
    if p_len > s_len {
        return false;
    }
    let mut i: usize = 0;
    while i < p_len
        invariant
            s_len == s@.len(),
            p_len == p@.len(),
            p_len <= s_len,
            i <= p_len,
            forall|j: int| 0 <= j < i ==> s@[j] == p@[j],
        decreases p_len - i,
    {
        if s.get_char(i) != p.get_char(i) {
            assert(s@.subrange(0, p@.len() as int)[i as int] != p@[i as int]);
            return false;
        }
        i += 1;
    }
    assert(s@.subrange(0, p@.len() as int) =~= p@);
    true
}

/// Character-wise suffix test.
pub fn str_ends_with(s: &str, p: &str) -> (r: bool)
    ensures
        r == is_suffix(p@, s@),
{
    let s_len = s.unicode_len();
    let p_len = p.unicode_len();
    if p_len > s_len {
        return false;
    }
    let off = s_len - p_len;
    let mut i: usize = 0;
    while i < p_len
        invariant
            s_len == s@.len(),
            p_len == p@.len(),
            p_len <= s_len,
            off == s_len - p_len,
            i <= p_len,
            forall|j: int| 0 <= j < i ==> s@[off + j] == p@[j],
        decreases p_len - i,
    {
        if s.get_char(off + i) != p.get_char(i) {
            assert(s@.subrange(s@.len() - p@.len(), s@.len() as int)[i as int] != p@[i as int]);
            return false;
        }
        i += 1;
    }
    assert(s@.subrange(s@.len() - p@.len(), s@.len() as int) =~= p@);
    true
}

/// Whether `needle` occurs at index `i` of `haystack`, checked character by
/// character.
fn occurs_at_exec(haystack: &str, needle: &str, i: usize) -> (r: bool)
    requires
        i + needle@.len() <= haystack@.len(),
    ensures
        r == occurs_at(haystack@, needle@, i as int),
{
    let n_len = needle.unicode_len();
    let h_len = haystack.unicode_len();
    let mut j: usize = 0;
    while j < n_len
        invariant
            n_len == needle@.len(),
            h_len == haystack@.len(),
            i + n_len <= h_len,
            j <= n_len,
            forall|k: int| 0 <= k < j ==> haystack@[i + k] == needle@[k],
        decreases n_len - j,
    {
        if haystack.get_char(i + j) != needle.get_char(j) {
            assert(haystack@.subrange(i as int, i + needle@.len())[j as int] != needle@[j as int]);
            return false;
        }
        j += 1;
    }
    assert(haystack@.subrange(i as int, i + needle@.len()) =~= needle@);
    true
}

/// Character-wise substring search.
pub fn str_contains(haystack: &str, needle: &str) -> (r: bool)
    ensures
        r == contains_seq(haystack@, needle@),
{
    let h_len = haystack.unicode_len();
    let n_len = needle.unicode_len();
    if n_len > h_len {
        assert(forall|i: int| !occurs_at(haystack@, needle@, i));
        return false;
    }
    if n_len == 0 {
        assert(occurs_at(haystack@, needle@, 0)) by {
            assert(haystack@.subrange(0, 0) =~= needle@);
        }
        return true;
    }
    let bound = h_len - n_len + 1;
    let mut i: usize = 0;
    while i < bound
        invariant
            h_len == haystack@.len(),
            n_len == needle@.len(),
            0 < n_len <= h_len,
            bound == h_len - n_len + 1,
            i <= bound,
            forall|k: int| 0 <= k < i ==> !occurs_at(haystack@, needle@, k),
        decreases bound - i,
    {
        if occurs_at_exec(haystack, needle, i) {
            return true;
        }
        i += 1;
    }
    assert(forall|k: int| !occurs_at(haystack@, needle@, k));
    false
}

/// An ASCII whitespace character.
pub open spec fn is_space_char(c: char) -> bool {
    c == ' ' || c == '\t' || c == '\n' || c == '\r'
}

/// `s` with leading ASCII whitespace removed.
pub open spec fn trim_start_spec(s: Seq<char>) -> Seq<char>
    decreases s.len(),
{
    if s.len() > 0 && is_space_char(s[0]) {
        trim_start_spec(s.drop_first())
    } else {
        s
    }
}

/// `s` with trailing ASCII whitespace removed.
pub open spec fn trim_end_spec(s: Seq<char>) -> Seq<char>
    decreases s.len(),
{
    if s.len() > 0 && is_space_char(s.last()) {
        trim_end_spec(s.drop_last())
    } else {
        s
    }
}

/// `s` with both leading and trailing ASCII whitespace removed.
pub open spec fn trim_spec(s: Seq<char>) -> Seq<char> {
    trim_end_spec(trim_start_spec(s))
}

proof fn lemma_trim_start_skip(s: Seq<char>, k: int)
    requires
        0 <= k <= s.len(),
        forall|j: int| 0 <= j < k ==> is_space_char(s[j]),
    ensures
        trim_start_spec(s) == trim_start_spec(s.subrange(k, s.len() as int)),
    decreases k,
{
    if k == 0 {
        assert(s.subrange(0, s.len() as int) =~= s);
    } else {
        assert(is_space_char(s[0]));
        lemma_trim_start_skip(s.drop_first(), k - 1);
        assert(s.drop_first().subrange(k - 1, s.drop_first().len() as int) =~= s.subrange(
            k,
            s.len() as int,
        ));
    }
}

proof fn lemma_trim_end_skip(s: Seq<char>, m: int)
    requires
        0 <= m <= s.len(),
        forall|j: int| m <= j < s.len() ==> is_space_char(s[j]),
    ensures
        trim_end_spec(s) == trim_end_spec(s.subrange(0, m)),
    decreases s.len() - m,
{
    if m == s.len() {
        assert(s.subrange(0, m) =~= s);
    } else {
        assert(is_space_char(s.last()));
        lemma_trim_end_skip(s.drop_last(), m);
        assert(s.drop_last().subrange(0, m) =~= s.subrange(0, m));
    }
}

fn is_space(c: char) -> (r: bool)
    ensures
        r == is_space_char(c),
{
    c == ' ' || c == '\t' || c == '\n' || c == '\r'
}

/// Removes leading and trailing ASCII whitespace.
pub fn str_trim(s: &str) -> (r: &str)
    ensures
        r@ == trim_spec(s@),
{
    let len = s.unicode_len();
    let mut lo: usize = 0;
    while lo < len && is_space(s.get_char(lo))
        invariant
            len == s@.len(),
            lo <= len,
            forall|j: int| 0 <= j < lo ==> is_space_char(s@[j]),
        decreases len - lo,
    {
        lo += 1;
    }
    proof {
        lemma_trim_start_skip(s@, lo as int);
    }
    if lo == len {
        let r = s.substring_char(lo, lo);
        assert(s@.subrange(lo as int, lo as int) =~= s@.subrange(lo as int, s@.len() as int));
        return r;
    }
    let ghost t = s@.subrange(lo as int, s@.len() as int);
    assert(trim_start_spec(t) == t);
    let mut hi: usize = len;
    while hi > lo && is_space(s.get_char(hi - 1))
        invariant
            len == s@.len(),
            lo < len,
            lo <= hi <= len,
            !is_space_char(s@[lo as int]),
            forall|j: int| hi <= j < len ==> is_space_char(s@[j]),
        decreases hi,
    {
        hi -= 1;
    }
    assert(hi > lo);
    let r = s.substring_char(lo, hi);
    proof {
        assert(forall|j: int| hi - lo <= j < t.len() ==> is_space_char(#[trigger] t[j]));
        lemma_trim_end_skip(t, hi - lo);
        assert(t.subrange(0, hi - lo) =~= s@.subrange(lo as int, hi as int));
        let u = t.subrange(0, hi - lo);
        assert(u.last() == s@[hi - 1]);
        assert(trim_end_spec(u) == u);
    }
    r
}

/// The tokens of `s` split on the separator `sep`, in the manner of Rust's
/// `str::split`: an empty string yields one empty token, and a trailing
/// separator yields a trailing empty token.
pub open spec fn split_on(s: Seq<char>, sep: char) -> Seq<Seq<char>>
    decreases s.len(),
{
    if s.len() == 0 {
        seq![Seq::<char>::empty()]
    } else if s.last() == sep {
        split_on(s.drop_last(), sep).push(Seq::<char>::empty())
    } else {
        let r = split_on(s.drop_last(), sep);
        r.update(r.len() - 1, r.last().push(s.last()))
    }
}

/// Splitting always yields at least one token.
pub proof fn lemma_split_nonempty(s: Seq<char>, sep: char)
    ensures
        split_on(s, sep).len() >= 1,
    decreases s.len(),
{
    if s.len() > 0 {
        lemma_split_nonempty(s.drop_last(), sep);
    }
}

/// No token of a split contains the separator, and every character of every
/// token is a character of `s`.
pub proof fn lemma_split_token_chars(s: Seq<char>, sep: char)
    ensures
        forall|i: int, j: int|
            0 <= i < split_on(s, sep).len() && 0 <= j < split_on(s, sep)[i].len()
                ==> #[trigger] split_on(s, sep)[i][j] != sep && s.contains(split_on(s, sep)[i][j]),
    decreases s.len(),
{
    if s.len() > 0 {
        lemma_split_token_chars(s.drop_last(), sep);
        lemma_split_nonempty(s.drop_last(), sep);
        assert(forall|c: char| s.drop_last().contains(c) ==> s.contains(c)) by {
            assert(forall|k: int|
                0 <= k < s.drop_last().len() ==> s.drop_last()[k] == #[trigger] s[k]);
        }
        let r0 = split_on(s.drop_last(), sep);
        let r = split_on(s, sep);
        if s.last() == sep {
            assert(r == r0.push(Seq::<char>::empty()));
            assert(forall|i: int, j: int|
                0 <= i < r.len() && 0 <= j < r[i].len() ==> #[trigger] r[i][j] != sep
                    && s.contains(r[i][j])) by {
                assert(forall|i: int| 0 <= i < r0.len() ==> r[i] == #[trigger] r0[i]);
            }
        } else {
            assert(s.contains(s.last())) by {
                assert(s[s.len() - 1] == s.last());
            }
            assert(r == r0.update(r0.len() - 1, r0.last().push(s.last())));
            assert(forall|i: int| 0 <= i < r0.len() - 1 ==> r[i] == #[trigger] r0[i]);
            let t = r0.last().push(s.last());
            assert(r[r0.len() - 1] == t);
            assert(forall|j: int|
                0 <= j < t.len() ==> #[trigger] t[j] != sep && s.contains(t[j])) by {
                assert(forall|j: int| 0 <= j < t.len() - 1 ==> t[j] == #[trigger] r0.last()[j]);
                assert(r0.last() == r0[r0.len() - 1]);
                assert(t[t.len() - 1] == s.last());
            }
        }
    }
}

/// Splits a string on a separator character.
pub fn split_char(s: &str, sep: char) -> (parts: Vec<String>)
    ensures
        parts.deep_view() == split_on(s@, sep),
        parts.len() >= 1,
{
    let len = s.unicode_len();
    let mut parts: Vec<String> = Vec::new();
    let mut cur = String::new();
    let mut i: usize = 0;
    while i < len
        invariant
            len == s@.len(),
            i <= len,
            parts.deep_view().push(cur@) =~= split_on(s@.subrange(0, i as int), sep),
        decreases len - i,
    {
        let c = s.get_char(i);
        proof {
            assert(s@.subrange(0, i + 1).drop_last() =~= s@.subrange(0, i as int));
            assert(s@.subrange(0, i + 1).last() == s@[i as int]);
        }
        if c == sep {
            parts.push(cur);
            cur = String::new();
            proof {
                assert(parts.deep_view().push(cur@) =~= split_on(
                    s@.subrange(0, (i + 1) as int),
                    sep,
                ));
            }
        } else {
            string_push(&mut cur, c);
            proof {
                let old_split = split_on(s@.subrange(0, i as int), sep);
                assert(old_split.len() == parts.deep_view().len() + 1);
                assert(parts.deep_view().push(cur@) =~= old_split.update(
                    old_split.len() - 1,
                    old_split.last().push(s@[i as int]),
                ));
            }
        }
        i += 1;
    }
    assert(s@.subrange(0, len as int) =~= s@);
    parts.push(cur);
    parts
}

/// The tokens joined with the separator `sep` between them.
pub open spec fn join_with(parts: Seq<Seq<char>>, sep: char) -> Seq<char>
    decreases parts.len(),
{
    if parts.len() == 0 {
        Seq::<char>::empty()
    } else if parts.len() == 1 {
        parts[0]
    } else {
        parts[0] + seq![sep] + join_with(parts.drop_first(), sep)
    }
}

proof fn lemma_join_push(parts: Seq<Seq<char>>, x: Seq<char>, sep: char)
    requires
        parts.len() >= 1,
    ensures
        join_with(parts.push(x), sep) == join_with(parts, sep) + seq![sep] + x,
    decreases parts.len(),
{
    if parts.len() == 1 {
        assert(parts.push(x).drop_first() =~= seq![x]);
        assert(join_with(seq![x], sep) == x);
        assert(parts.push(x)[0] == parts[0]);
        assert(join_with(parts, sep) == parts[0]);
        assert(join_with(parts.push(x), sep) =~= parts[0] + seq![sep] + x);
    } else {
        lemma_join_push(parts.drop_first(), x, sep);
        assert(parts.push(x).drop_first() =~= parts.drop_first().push(x));
        assert(join_with(parts.push(x), sep) =~= join_with(parts, sep) + seq![sep] + x);
    }
}

/// Joins the tokens `parts[from..to]` with the separator `sep`.
pub fn join_range(parts: &Vec<String>, from: usize, to: usize, sep: char) -> (r: String)
    requires
        from <= to <= parts.len(),
    ensures
        r@ == join_with(parts.deep_view().subrange(from as int, to as int), sep),
{
    let mut r = String::new();
    if from == to {
        assert(parts.deep_view().subrange(from as int, to as int) =~= Seq::<Seq<char>>::empty());
        return r;
    }
    r.append(parts[from].as_str());
    assert(parts.deep_view().subrange(from as int, from + 1) =~= seq![parts.deep_view()[from as int]]);
    assert(r@ == join_with(parts.deep_view().subrange(from as int, from + 1), sep));
    let mut i: usize = from + 1;
    while i < to
        invariant
            from < i <= to <= parts.len(),
            r@ == join_with(parts.deep_view().subrange(from as int, i as int), sep),
        decreases to - i,
    {
        string_push(&mut r, sep);
        r.append(parts[i].as_str());
        proof {
            let pre = parts.deep_view().subrange(from as int, i as int);
            lemma_join_push(pre, parts.deep_view()[i as int], sep);
            assert(pre.push(parts.deep_view()[i as int]) =~= parts.deep_view().subrange(
                from as int,
                i + 1,
            ));
        }
        i += 1;
    }
    r
}

/// The last non-empty token, if any.
pub open spec fn last_nonempty(parts: Seq<Seq<char>>) -> Option<Seq<char>>
    decreases parts.len(),
{
    if parts.len() == 0 {
        None
    } else if parts.last().len() > 0 {
        Some(parts.last())
    } else {
        last_nonempty(parts.drop_last())
    }
}

/// The display name of a project path: its last non-empty `/`-separated
/// component, or "Unknown" when the path has none.
pub open spec fn spec_path_display_name(path: Seq<char>) -> Seq<char> {
    match last_nonempty(split_on(path, '/')) {
        Some(t) => t,
        None => "Unknown"@,
    }
}

/// Extracts the last non-empty path component for display.
pub fn path_display_name(path: &str) -> (r: String)
    ensures
        r@ == spec_path_display_name(path@),
{
    let parts = split_char(path, '/');
    let mut i: usize = parts.len();
    assert(parts.deep_view().subrange(0, parts.len() as int) =~= parts.deep_view());
    while i > 0
        invariant
            i <= parts.len(),
            parts.deep_view() == split_on(path@, '/'),
            last_nonempty(parts.deep_view()) == last_nonempty(
                parts.deep_view().subrange(0, i as int),
            ),
        decreases i,
    {
        proof {
            let pre = parts.deep_view().subrange(0, i as int);
            assert(pre.drop_last() =~= parts.deep_view().subrange(0, i - 1));
            assert(pre.last() == parts.deep_view()[i - 1]);
        }
        if !parts[i - 1].as_str().is_empty() {
            return parts[i - 1].clone();
        }
        i -= 1;
    }
    assert(parts.deep_view().subrange(0, 0) =~= Seq::<Seq<char>>::empty());
    String::from_str("Unknown")
}

/// Lexicographic order on character sequences, comparing code points.
pub open spec fn lex_le(a: Seq<char>, b: Seq<char>) -> bool
    decreases a.len(),
{
    if a.len() == 0 {
        true
    } else if b.len() == 0 {
        false
    } else if (a[0] as u32) < (b[0] as u32) {
        true
    } else if (a[0] as u32) > (b[0] as u32) {
        false
    } else {
        lex_le(a.drop_first(), b.drop_first())
    }
}

/// The lexicographic order is total.
pub proof fn lemma_lex_total(a: Seq<char>, b: Seq<char>)
    ensures
        lex_le(a, b) || lex_le(b, a),
    decreases a.len(),
{
    if a.len() > 0 && b.len() > 0 && (a[0] as u32) == (b[0] as u32) {
        lemma_lex_total(a.drop_first(), b.drop_first());
    }
}

/// The lexicographic order is transitive.
pub proof fn lemma_lex_trans(a: Seq<char>, b: Seq<char>, c: Seq<char>)
    requires
        lex_le(a, b),
        lex_le(b, c),
    ensures
        lex_le(a, c),
    decreases a.len(),
{
    if a.len() > 0 && b.len() > 0 && c.len() > 0 && (a[0] as u32) == (b[0] as u32) && (b[0] as u32)
        == (c[0] as u32) {
        lemma_lex_trans(a.drop_first(), b.drop_first(), c.drop_first());
    }
}

/// Compares two strings lexicographically by characters.
#[verifier::loop_isolation(false)]
pub fn str_lex_le(a: &str, b: &str) -> (r: bool)
    ensures
        r == lex_le(a@, b@),
{
    let a_len = a.unicode_len();
    let b_len = b.unicode_len();
    let mut i: usize = 0;
    assert(a@.skip(0) =~= a@);
    assert(b@.skip(0) =~= b@);
    while i < a_len && i < b_len
        invariant
            0 <= i <= a_len,
            i <= b_len,
            lex_le(a@, b@) == lex_le(a@.skip(i as int), b@.skip(i as int)),
            lex_le(b@, a@) == lex_le(b@.skip(i as int), a@.skip(i as int)),
        decreases a_len - i,
    {
        let ca = a.get_char(i);
        let cb = b.get_char(i);
        proof {
            assert(a@.skip(i as int).drop_first() =~= a@.skip(i + 1));
            assert(b@.skip(i as int).drop_first() =~= b@.skip(i + 1));
            assert(a@.skip(i as int)[0] == a@[i as int]);
            assert(b@.skip(i as int)[0] == b@[i as int]);
        }
        if (ca as u32) < (cb as u32) {
            return true;
        }
        if (ca as u32) > (cb as u32) {
            return false;
        }
        i += 1;
    }
    if i >= a_len {
        assert(a@.skip(i as int).len() == 0);
        true
    } else {
        assert(b@.skip(i as int).len() == 0);
        assert(a@.skip(i as int).len() > 0);
        false
    }
}

/// `s` equals `base`, or extends it beyond an occurrence of the separator:
/// the containment test for commands (separator space) and for working
/// directories under a project path (separator `/`).
pub open spec fn eq_or_extends(s: Seq<char>, base: Seq<char>, sep: char) -> bool {
    s == base || is_prefix(base + seq![sep], s)
}

/// Tests `eq_or_extends` character-wise.
pub fn str_eq_or_extends(s: &str, base: &str, sep: char) -> (r: bool)
    ensures
        r == eq_or_extends(s@, base@, sep),
{
    if str_eq(s, base) {
        return true;
    }
    let b_len = base.unicode_len();
    let s_len = s.unicode_len();
    if str_starts_with(s, base) && s_len > b_len && s.get_char(b_len) == sep {
        assert(s@.subrange(0, b_len + 1) =~= base@ + seq![sep]) by {
            assert(forall|j: int| 0 <= j < b_len ==> s@[j] == #[trigger] base@[j]) by {
                assert(forall|j: int|
                    0 <= j < b_len ==> s@.subrange(0, b_len as int)[j] == #[trigger] s@[j]);
            }
        }
        true
    } else {
        assert(!is_prefix(base@ + seq![sep], s@)) by {
            if is_prefix(base@ + seq![sep], s@) {
                assert(s@.subrange(0, b_len + 1) == base@ + seq![sep]);
                assert(s@.subrange(0, b_len as int) =~= base@) by {
                    assert(forall|j: int|
                        0 <= j < b_len ==> s@[j] == (base@ + seq![sep])[j] && s@.subrange(
                            0,
                            b_len as int,
                        )[j] == #[trigger] s@[j]) by {
                        assert(forall|j: int|
                            0 <= j < b_len + 1 ==> s@.subrange(0, b_len + 1)[j]
                                == #[trigger] s@[j]);
                    }
                }
                assert(s@[b_len as int] == (base@ + seq![sep])[b_len as int]);
            }
        }
        false
    }
}

/// A preview truncated to at most `limit` characters: a string longer than
/// `limit` is cut at `cut` characters and an ellipsis marker is appended.
pub open spec fn spec_truncate_preview(s: Seq<char>, limit: int, cut: int) -> Seq<char> {
    if s.len() > limit {
        s.subrange(0, cut) + "..."@
    } else {
        s
    }
}

/// Truncates a message preview to a bounded length, appending an ellipsis
/// marker when it was cut.
pub fn truncate_preview(s: &str, limit: usize, cut: usize) -> (r: String)
    requires
        cut <= limit,
    ensures
        r@ == spec_truncate_preview(s@, limit as int, cut as int),
{
    if s.unicode_len() > limit {
        let head = s.substring_char(0, cut);
        String::from_str(head).concat("...")
    } else {
        String::from_str(s)
    }
}

} // verus!
