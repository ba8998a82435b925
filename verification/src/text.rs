//! Verified building blocks for the text manipulation the prompt assembler
//! relies on: substring search, placeholder replacement, prefix stripping,
//! trailing-whitespace trimming, line splitting and joining.

use vstd::prelude::*;

verus! {

/// True when `pat` occurs in `s` starting at index `i`.
pub open spec fn matches_at(s: Seq<char>, i: int, pat: Seq<char>) -> bool {
    0 <= i && i + pat.len() <= s.len() && s.subrange(i, i + pat.len() as int) == pat
}

/// True when `pat` occurs somewhere in `s`.
pub open spec fn contains_sub(s: Seq<char>, pat: Seq<char>) -> bool {
    exists|i: int| matches_at(s, i, pat)
}

/// Checks whether `pat` occurs in `s` starting at character index `i`.
pub fn match_at(s: &str, i: usize, pat: &str) -> (r: bool)
    requires
        i <= s@.len(),
    ensures
        r == matches_at(s@, i as int, pat@),
{
    let s_len = s.unicode_len();
    let pat_len = pat.unicode_len();
    if pat_len > s_len - i {
        assert(!matches_at(s@, i as int, pat@));
        return false;
    }
    let mut j: usize = 0;
    while j < pat_len
        invariant
            j <= pat_len,
            i + pat_len <= s_len,
            s_len == s@.len(),
            pat_len == pat@.len(),
            forall|k: int| 0 <= k < j ==> s@[i + k] == pat@[k],
        decreases pat_len - j,
    {
        if s.get_char(i + j) != pat.get_char(j) {
            assert(s@.subrange(i as int, i + pat@.len() as int)[j as int] != pat@[j as int]);
            return false;
        }
        j += 1;
    }
    assert(s@.subrange(i as int, i + pat@.len() as int) =~= pat@);
    true
}

/// Returns the first character index at which `pat` occurs in `s`, if any.
pub fn find_sub(s: &str, pat: &str) -> (r: Option<usize>)
    ensures
        match r {
            Some(i) => matches_at(s@, i as int, pat@) && forall|j: int|
                0 <= j < i ==> !matches_at(s@, j, pat@),
            None => forall|j: int| !matches_at(s@, j, pat@),
        },
{
    let s_len = s.unicode_len();
    let mut i: usize = 0;
    while i < s_len
        invariant
            s_len == s@.len(),
            i <= s_len,
            forall|j: int| 0 <= j < i ==> !matches_at(s@, j, pat@),
        decreases s_len - i,
    {
        if match_at(s, i, pat) {
            return Some(i);
        }
        i += 1;
    }
    if match_at(s, s_len, pat) {
        return Some(s_len);
    }
    assert(forall|j: int| j > s@.len() ==> !matches_at(s@, j, pat@));
    None
}

/// True when `pat` occurs somewhere in `s`.
pub fn contains_str(s: &str, pat: &str) -> (r: bool)
    ensures
        r == contains_sub(s@, pat@),
{
    find_sub(s, pat).is_some()
}

/// Character-for-character equality of two string slices.
pub fn str_eq(a: &str, b: &str) -> (r: bool)
    ensures
        r == (a@ == b@),
{
    let a_len = a.unicode_len();
    let b_len = b.unicode_len();
    if a_len != b_len {
        return false;
    }
    let mut i: usize = 0;
    while i < a_len
        invariant
            a_len == a@.len(),
            a@.len() == b@.len(),
            i <= a_len,
            forall|k: int| 0 <= k < i ==> a@[k] == b@[k],
        decreases a_len - i,
    {
        if a.get_char(i) != b.get_char(i) {
            return false;
        }
        i += 1;
    }
    assert(a@ =~= b@);
    true
}

/// The result of replacing every occurrence of `pat` in `s` by `to`,
/// scanning left to right without revisiting replaced text.
pub open spec fn spec_replace(s: Seq<char>, pat: Seq<char>, to: Seq<char>) -> Seq<char>
    decreases s.len(),
{
    if pat.len() == 0 || s.len() < pat.len() {
        s
    } else if s.subrange(0, pat.len() as int) == pat {
        to + spec_replace(s.skip(pat.len() as int), pat, to)
    } else {
        seq![s[0]] + spec_replace(s.skip(1), pat, to)
    }
}

/// Replaces every occurrence of `pat` in `s` by `to`; an empty pattern
/// leaves `s` unchanged.
pub fn replace_all(s: &str, pat: &str, to: &str) -> (r: String)
    ensures
        r@ == spec_replace(s@, pat@, to@),
{
    let s_len = s.unicode_len();
    let pat_len = pat.unicode_len();
    if pat_len == 0 {
        return s.to_owned();
    }
    let mut out = String::new();
    let mut i: usize = 0;
    proof {
        assert(s@.skip(0) =~= s@);
        assert(Seq::<char>::empty() + spec_replace(s@, pat@, to@) =~= spec_replace(
            s@,
            pat@,
            to@,
        ));
    }
    while i < s_len
        invariant
            s_len == s@.len(),
            pat_len == pat@.len(),
            pat@.len() > 0,
            i <= s_len,
            spec_replace(s@, pat@, to@) == out@ + spec_replace(
                s@.skip(i as int),
                pat@,
                to@,
            ),
        decreases s_len - i,
    {
        let ghost tail = s@.skip(i as int);
        if match_at(s, i, pat) {
            out.append(to);
            proof {
                assert(tail.subrange(0, pat@.len() as int) =~= s@.subrange(
                    i as int,
                    i + pat@.len() as int,
                ));
                assert(tail.skip(pat@.len() as int) =~= s@.skip(i + pat@.len()));
            }
            i = i + pat_len;
        } else {
            let piece = s.substring_char(i, i + 1);
            out.append(piece);
            proof {
                if tail.len() >= pat@.len() {
                    assert(tail.subrange(0, pat@.len() as int) =~= s@.subrange(
                        i as int,
                        i + pat@.len() as int,
                    ));
                }
                assert(piece@ =~= seq![tail[0]]);
                assert(tail.skip(1) =~= s@.skip(i + 1));
            }
            i = i + 1;
        }
    }
    proof {
        assert(s@.skip(s_len as int) =~= Seq::<char>::empty());
        assert(out@ + Seq::<char>::empty() =~= out@);
    }
    out
}

/// The whitespace characters this library trims: space, tab, carriage
/// return and line feed.
pub open spec fn is_ws(c: char) -> bool {
    c == ' ' || c == '\t' || c == '\r' || c == '\n'
}

/// Checks whether `c` is one of the trimmed whitespace characters.
pub fn is_ws_char(c: char) -> (r: bool)
    ensures
        r == is_ws(c),
{
    c == ' ' || c == '\t' || c == '\r' || c == '\n'
}

/// `s` with every trailing whitespace character removed.
pub open spec fn spec_trim_end(s: Seq<char>) -> Seq<char>
    decreases s.len(),
{
    if s.len() > 0 && is_ws(s.last()) {
        spec_trim_end(s.drop_last())
    } else {
        s
    }
}

/// Removes trailing whitespace from `s`.
pub fn trim_end_ws(s: &str) -> (r: String)
    ensures
        r@ == spec_trim_end(s@),
{
    let len = s.unicode_len();
    let mut k = len;
    proof {
        assert(s@.take(len as int) =~= s@);
    }
    while k > 0 && is_ws_char(s.get_char(k - 1))
        invariant
            len == s@.len(),
            k <= len,
            spec_trim_end(s@) == spec_trim_end(s@.take(k as int)),
        decreases k,
    {
        proof {
            assert(s@.take(k as int).last() == s@[k - 1]);
            assert(s@.take(k as int).drop_last() =~= s@.take(k - 1));
        }
        k -= 1;
    }
    let r = s.substring_char(0, k);
    proof {
        assert(r@ =~= s@.take(k as int));
    }
    r.to_owned()
}

/// Trimming never lengthens a text.
pub proof fn lemma_trim_end_le(s: Seq<char>)
    ensures
        spec_trim_end(s).len() <= s.len(),
    decreases s.len(),
{
    if s.len() > 0 && is_ws(s.last()) {
        lemma_trim_end_le(s.drop_last());
    }
}

/// The elements of `parts` concatenated with `sep` between neighbours.
pub open spec fn spec_join(parts: Seq<Seq<char>>, sep: Seq<char>) -> Seq<char>
    decreases parts.len(),
{
    if parts.len() == 0 {
        Seq::empty()
    } else if parts.len() == 1 {
        parts[0]
    } else {
        parts[0] + sep + spec_join(parts.skip(1), sep)
    }
}

proof fn lemma_join_push(parts: Seq<Seq<char>>, sep: Seq<char>, x: Seq<char>)
    requires
        parts.len() >= 1,
    ensures
        spec_join(parts.push(x), sep) == spec_join(parts, sep) + sep + x,
    decreases parts.len(),
{
    if parts.len() == 1 {
        assert(parts.push(x).skip(1) =~= seq![x]);
        assert(parts.push(x)[0] == parts[0]);
        assert(spec_join(seq![x], sep) == seq![x][0]);
        assert(spec_join(parts.push(x), sep) == parts[0] + sep + x);
        assert(spec_join(parts, sep) + sep + x =~= parts[0] + sep + x);
    } else {
        lemma_join_push(parts.skip(1), sep, x);
        assert(parts.push(x).skip(1) =~= parts.skip(1).push(x));
        assert(parts.push(x)[0] == parts[0]);
        assert(spec_join(parts.push(x), sep) == parts[0] + sep + (spec_join(
            parts.skip(1),
            sep,
        ) + sep + x));
        assert(parts[0] + sep + (spec_join(parts.skip(1), sep) + sep + x) =~= (parts[0] + sep
            + spec_join(parts.skip(1), sep)) + sep + x);
    }
}

/// Joins the strings in `v`, separated by `sep`.
pub fn join_strings(v: &Vec<String>, sep: &str) -> (r: String)
    ensures
        r@ == spec_join(v@.map_values(|x: String| x@), sep@),
{
    let ghost views = v@.map_values(|x: String| x@);
    let mut out = String::new();
    let mut i: usize = 0;
    while i < v.len()
        invariant
            views == v@.map_values(|x: String| x@),
            i <= v.len(),
            out@ == spec_join(views.take(i as int), sep@),
        decreases v.len() - i,
    {
        proof {
            assert(views.take(i + 1) =~= views.take(i as int).push(views[i as int]));
            if i >= 1 {
                lemma_join_push(views.take(i as int), sep@, views[i as int]);
            } else {
                assert(spec_join(views.take(1), sep@) == views.take(1)[0]);
            }
        }
        if i > 0 {
            out.append(sep);
        }
        out.append(v[i].as_str());
        i += 1;
    }
    proof {
        assert(views.take(v@.len() as int) =~= views);
    }
    out
}

/// The code point of `c`, with ASCII capital letters mapped to lower case.
pub open spec fn lower_code(c: char) -> u32 {
    if 65 <= c as u32 && c as u32 <= 90 {
        (c as u32 + 32) as u32
    } else {
        c as u32
    }
}

/// True when `a` and `b` are equal up to ASCII case.
pub open spec fn eq_ignore_case(a: Seq<char>, b: Seq<char>) -> bool {
    a.len() == b.len() && forall|i: int| 0 <= i < a.len() ==> lower_code(a[i]) == lower_code(b[i])
}

/// Compares two strings, ignoring ASCII case.
pub fn eq_ignore_ascii_case_str(a: &str, b: &str) -> (r: bool)
    ensures
        r == eq_ignore_case(a@, b@),
{
    let a_len = a.unicode_len();
    let b_len = b.unicode_len();
    if a_len != b_len {
        return false;
    }
    let mut i: usize = 0;
    while i < a_len
        invariant
            a_len == a@.len(),
            a@.len() == b@.len(),
            i <= a_len,
            forall|k: int| 0 <= k < i ==> lower_code(a@[k]) == lower_code(b@[k]),
        decreases a_len - i,
    {
        let ca = a.get_char(i) as u32;
        let cb = b.get_char(i) as u32;
        let la = if 65 <= ca && ca <= 90 {
            ca + 32
        } else {
            ca
        };
        let lb = if 65 <= cb && cb <= 90 {
            cb + 32
        } else {
            cb
        };
        if la != lb {
            return false;
        }
        i += 1;
    }
    true
}

/// `t` with a single trailing carriage return removed, if one is there.
pub open spec fn strip_cr(t: Seq<char>) -> Seq<char> {
    if t.len() > 0 && t.last() == '\r' {
        t.drop_last()
    } else {
        t
    }
}

/// Line splitting with an explicit accumulator: `cur` holds the characters
/// of the line being read.  A line ends at `'\n'`; a carriage return just
/// before the line feed is dropped; a final line without a terminator still
/// counts, but an empty remainder after a final terminator does not.
pub open spec fn spec_lines_acc(s: Seq<char>, cur: Seq<char>) -> Seq<Seq<char>>
    decreases s.len(),
{
    if s.len() == 0 {
        if cur.len() == 0 {
            Seq::empty()
        } else {
            seq![cur]
        }
    } else if s[0] == '\n' {
        seq![strip_cr(cur)] + spec_lines_acc(s.skip(1), Seq::empty())
    } else {
        spec_lines_acc(s.skip(1), cur.push(s[0]))
    }
}

/// The lines of `s`, split at line feeds, with `"\r\n"` endings treated
/// like plain `"\n"`.
pub open spec fn spec_lines(s: Seq<char>) -> Seq<Seq<char>> {
    spec_lines_acc(s, Seq::empty())
}

/// Splits `s` into its lines.
pub fn split_lines(s: &str) -> (r: Vec<String>)
    ensures
        r@.map_values(|x: String| x@) == spec_lines(s@),
{
    let s_len = s.unicode_len();
    let mut out: Vec<String> = Vec::new();
    let mut cur = String::new();
    let mut i: usize = 0;
    proof {
        assert(s@.skip(0) =~= s@);
        assert(out@.map_values(|x: String| x@) =~= Seq::<Seq<char>>::empty());
        assert(Seq::<Seq<char>>::empty() + spec_lines(s@) =~= spec_lines(s@));
    }
    while i < s_len
        invariant
            s_len == s@.len(),
            i <= s_len,
            spec_lines(s@) == out@.map_values(|x: String| x@) + spec_lines_acc(
                s@.skip(i as int),
                cur@,
            ),
        decreases s_len - i,
    {
        let ghost tail = s@.skip(i as int);
        let c = s.get_char(i);
        if c == '\n' {
            let cur_len = cur.as_str().unicode_len();
            let line = if cur_len > 0 && cur.as_str().get_char(cur_len - 1) == '\r' {
                let t = cur.as_str().substring_char(0, cur_len - 1);
                t.to_owned()
            } else {
                cur.clone()
            };
            proof {
                assert(line@ =~= strip_cr(cur@));
            }
            let ghost old_views = out@.map_values(|x: String| x@);
            out.push(line);
            cur = String::new();
            proof {
                assert(tail.skip(1) =~= s@.skip(i + 1));
                assert(out@.map_values(|x: String| x@) =~= old_views.push(line@));
                assert(old_views + (seq![line@] + spec_lines_acc(s@.skip(i + 1), cur@))
                    =~= old_views.push(line@) + spec_lines_acc(s@.skip(i + 1), cur@));
            }
        } else {
            let ghost old_cur = cur@;
            let piece = s.substring_char(i, i + 1);
            cur.append(piece);
            proof {
                assert(piece@ =~= seq![tail[0]]);
                assert(cur@ =~= old_cur.push(tail[0]));
                assert(tail.skip(1) =~= s@.skip(i + 1));
            }
        }
        i += 1;
    }
    if cur.as_str().unicode_len() > 0 {
        out.push(cur);
    }
    proof {
        assert(s@.skip(s_len as int) =~= Seq::<char>::empty());
    }
    out
}

/// Plain splitting at `'\n'` with an accumulator: every piece is kept,
/// including empty ones and a trailing empty piece after a final line feed.
pub open spec fn spec_split_nl_acc(s: Seq<char>, cur: Seq<char>) -> Seq<Seq<char>>
    decreases s.len(),
{
    if s.len() == 0 {
        seq![cur]
    } else if s[0] == '\n' {
        seq![cur] + spec_split_nl_acc(s.skip(1), Seq::empty())
    } else {
        spec_split_nl_acc(s.skip(1), cur.push(s[0]))
    }
}

/// The pieces of `s` between line feeds; the empty string gives one empty
/// piece.
pub open spec fn spec_split_nl(s: Seq<char>) -> Seq<Seq<char>> {
    spec_split_nl_acc(s, Seq::empty())
}

/// Splits `s` at every `'\n'`, keeping empty pieces.
pub fn split_plain_nl(s: &str) -> (r: Vec<String>)
    ensures
        r@.map_values(|x: String| x@) == spec_split_nl(s@),
{
    let s_len = s.unicode_len();
    let mut out: Vec<String> = Vec::new();
    let mut cur = String::new();
    let mut i: usize = 0;
    proof {
        assert(s@.skip(0) =~= s@);
        assert(out@.map_values(|x: String| x@) =~= Seq::<Seq<char>>::empty());
        assert(Seq::<Seq<char>>::empty() + spec_split_nl(s@) =~= spec_split_nl(s@));
    }
    while i < s_len
        invariant
            s_len == s@.len(),
            i <= s_len,
            spec_split_nl(s@) == out@.map_values(|x: String| x@) + spec_split_nl_acc(
                s@.skip(i as int),
                cur@,
            ),
        decreases s_len - i,
    {
        let ghost tail = s@.skip(i as int);
        let c = s.get_char(i);
        if c == '\n' {
            let ghost old_views = out@.map_values(|x: String| x@);
            let ghost done_view = cur@;
            let done = cur;
            out.push(done);
            cur = String::new();
            proof {
                assert(tail.skip(1) =~= s@.skip(i + 1));
                assert(out@.map_values(|x: String| x@) =~= old_views.push(done_view));
                assert(old_views + (seq![done_view] + spec_split_nl_acc(s@.skip(i + 1), cur@))
                    =~= old_views.push(done_view) + spec_split_nl_acc(s@.skip(i + 1), cur@));
            }
        } else {
            let ghost old_cur = cur@;
            let piece = s.substring_char(i, i + 1);
            cur.append(piece);
            proof {
                assert(piece@ =~= seq![tail[0]]);
                assert(cur@ =~= old_cur.push(tail[0]));
                assert(tail.skip(1) =~= s@.skip(i + 1));
            }
        }
        i += 1;
    }
    out.push(cur);
    proof {
        assert(s@.skip(s_len as int) =~= Seq::<char>::empty());
    }
    out
}

/// Whether `c` counts as a Unicode letter or number; the exact class is the
/// standard library's.
pub uninterp spec fn is_unicode_alnum(c: char) -> bool;

/// Relies on char::is_alphanumeric: whether `c` is a Unicode letter or
/// number, a property of the character alone.  ASCII letters and digits are
/// alphanumeric; ASCII punctuation and whitespace are not.
#[verifier::external_body]
pub fn char_is_alphanumeric(c: char) -> (r: bool)
    ensures
        r == is_unicode_alnum(c),
        (48 <= c as u32 && c as u32 <= 57) || (65 <= c as u32 && c as u32 <= 90) || (97
            <= c as u32 && c as u32 <= 122) ==> r,
        (32 <= c as u32 && c as u32 <= 47) || (58 <= c as u32 && c as u32 <= 64) ==> !r,
{
    c.is_alphanumeric()
}

/// A character that may appear in a speaker name at the start of a log
/// line: a letter or number, an underscore or a hyphen.
pub open spec fn is_name_char(c: char) -> bool {
    is_unicode_alnum(c) || c == '_' || c == '-'
}

/// Checks whether `c` may appear in a speaker name.
pub fn name_char(c: char) -> (r: bool)
    ensures
        r == is_name_char(c),
{
    char_is_alphanumeric(c) || c == '_' || c == '-'
}

/// The length of the longest prefix of `s` made of name characters.
pub open spec fn name_run(s: Seq<char>) -> int
    decreases s.len(),
{
    if s.len() == 0 || !is_name_char(s[0]) {
        0
    } else {
        1 + name_run(s.skip(1))
    }
}

proof fn lemma_name_run_step(s: Seq<char>, i: int)
    requires
        0 <= i < s.len(),
        is_name_char(s[i]),
    ensures
        name_run(s.skip(i)) == 1 + name_run(s.skip(i + 1)),
{
    assert(s.skip(i)[0] == s[i]);
    assert(s.skip(i).skip(1) =~= s.skip(i + 1));
}

/// The length of the longest prefix of `s` made of name characters.
pub fn leading_name_run(s: &str) -> (r: usize)
    ensures
        r <= s@.len(),
        r == name_run(s@),
        forall|k: int| 0 <= k < r ==> is_name_char(s@[k]),
        r < s@.len() ==> !is_name_char(s@[r as int]),
{
    let s_len = s.unicode_len();
    let mut i: usize = 0;
    proof {
        assert(s@.skip(0) =~= s@);
    }
    while i < s_len
        invariant
            s_len == s@.len(),
            i <= s_len,
            name_run(s@) == i + name_run(s@.skip(i as int)),
            forall|k: int| 0 <= k < i ==> is_name_char(s@[k]),
        decreases s_len - i,
    {
        if !name_char(s.get_char(i)) {
            proof {
                assert(s@.skip(i as int)[0] == s@[i as int]);
            }
            return i;
        }
        proof {
            lemma_name_run_step(s@, i as int);
        }
        i += 1;
    }
    proof {
        assert(s@.skip(s_len as int) =~= Seq::<char>::empty());
    }
    i
}

/// True when `pre` is a prefix of `s`.
pub open spec fn is_prefix_of(pre: Seq<char>, s: Seq<char>) -> bool {
    matches_at(s, 0, pre)
}

/// Checks whether `s` starts with `pre`.
pub fn starts_with_str(s: &str, pre: &str) -> (r: bool)
    ensures
        r == is_prefix_of(pre@, s@),
{
    match_at(s, 0, pre)
}

} // verus!
