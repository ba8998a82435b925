//! Stop-on-name trimming: generated text is cut at the earliest place
//! where any participant's `"{name}:"` tag appears, so that a model's
//! output never impersonates the next speaker.

use vstd::prelude::*;
use crate::text::{matches_at, match_at};

verus! {

/// The tag that marks a speaker change: the name followed by a colon.
pub open spec fn stop_pattern(name: Seq<char>) -> Seq<char> {
    name + seq![':']
}

/// True when some participant's tag occurs in `text` at index `i`.
pub open spec fn is_stop_at(text: Seq<char>, names: Seq<Seq<char>>, i: int) -> bool {
    exists|k: int| 0 <= k < names.len() && matches_at(text, i, stop_pattern(names[k]))
}

/// The earliest index of any participant tag in `text`, scanning from `i`.
pub open spec fn first_stop_from(text: Seq<char>, names: Seq<Seq<char>>, i: int) -> Option<int>
    decreases text.len() - i,
    when 0 <= i <= text.len()
{
    if is_stop_at(text, names, i) {
        Some(i)
    } else if i == text.len() {
        None
    } else {
        first_stop_from(text, names, i + 1)
    }
}

/// `text` cut at the earliest participant tag, or unchanged when none
/// occurs.
pub open spec fn spec_trim_stop(text: Seq<char>, names: Seq<Seq<char>>) -> Seq<char> {
    match first_stop_from(text, names, 0) {
        Some(i) => text.take(i),
        None => text,
    }
}

proof fn lemma_first_stop_props(text: Seq<char>, names: Seq<Seq<char>>, a: int)
    requires
        0 <= a <= text.len(),
    ensures
        match first_stop_from(text, names, a) {
            Some(i) => a <= i <= text.len() && is_stop_at(text, names, i) && forall|j: int|
                a <= j < i ==> !is_stop_at(text, names, j),
            None => forall|j: int| a <= j ==> !is_stop_at(text, names, j),
        },
    decreases text.len() - a,
{
    if !is_stop_at(text, names, a) && a < text.len() {
        lemma_first_stop_props(text, names, a + 1);
    }
    if first_stop_from(text, names, a) is None {
        assert forall|j: int| a <= j implies !is_stop_at(text, names, j) by {
            if is_stop_at(text, names, j) {
                let k = choose|k: int|
                    0 <= k < names.len() && matches_at(text, j, stop_pattern(names[k]));
                assert(j + stop_pattern(names[k]).len() <= text.len());
            }
        }
    }
}

proof fn lemma_first_stop_at(text: Seq<char>, names: Seq<Seq<char>>, a: int, i: int)
    requires
        0 <= a <= i <= text.len(),
        is_stop_at(text, names, i),
        forall|j: int| a <= j < i ==> !is_stop_at(text, names, j),
    ensures
        first_stop_from(text, names, a) == Some(i),
    decreases i - a,
{
    if a < i {
        lemma_first_stop_at(text, names, a + 1, i);
        assert(i < text.len() || i == text.len());
        let k = choose|k: int| 0 <= k < names.len() && matches_at(text, i, stop_pattern(names[k]));
        assert(i + stop_pattern(names[k]).len() <= text.len());
        assert(a < text.len());
    }
}

proof fn lemma_no_stop(text: Seq<char>, names: Seq<Seq<char>>, a: int)
    requires
        0 <= a <= text.len(),
        forall|j: int| a <= j ==> !is_stop_at(text, names, j),
    ensures
        first_stop_from(text, names, a) == None::<int>,
    decreases text.len() - a,
{
    if a < text.len() {
        lemma_no_stop(text, names, a + 1);
    }
}

/// A tag occurrence inside a prefix of `text` is one in `text` itself.
proof fn lemma_stop_in_prefix(text: Seq<char>, names: Seq<Seq<char>>, n: int, j: int)
    requires
        0 <= n <= text.len(),
        is_stop_at(text.take(n), names, j),
    ensures
        is_stop_at(text, names, j),
        j < n,
{
    let k = choose|k: int|
        0 <= k < names.len() && matches_at(text.take(n), j, stop_pattern(names[k]));
    let pat = stop_pattern(names[k]);
    assert(text.take(n).subrange(j, j + pat.len() as int) =~= text.subrange(
        j,
        j + pat.len() as int,
    ));
    assert(matches_at(text, j, pat));
}

/// Stop-trimming is idempotent: trimming already-trimmed text changes
/// nothing, because the cut removed the earliest tag and everything after
/// it, and no tag fits before that point.
pub proof fn lemma_stop_trim_idempotent(text: Seq<char>, names: Seq<Seq<char>>)
    ensures
        spec_trim_stop(spec_trim_stop(text, names), names) == spec_trim_stop(text, names),
{
    lemma_first_stop_props(text, names, 0);
    match first_stop_from(text, names, 0) {
        Some(i) => {
            let trimmed = text.take(i);
            assert forall|j: int| 0 <= j implies !is_stop_at(trimmed, names, j) by {
                if is_stop_at(trimmed, names, j) {
                    lemma_stop_in_prefix(text, names, i, j);
                }
            }
            assert forall|j: int| j < 0 implies !is_stop_at(trimmed, names, j) by {}
            lemma_no_stop(trimmed, names, 0);
            assert(spec_trim_stop(trimmed, names) == trimmed);
        },
        None => {},
    }
}

fn check_stop_at(text: &str, i: usize, patterns: &Vec<String>, Ghost(names): Ghost<Seq<Seq<char>>>) -> (r:
    bool)
    requires
        i <= text@.len(),
        patterns@.len() == names.len(),
        forall|m: int| 0 <= m < names.len() ==> patterns@[m]@ == stop_pattern(names[m]),
    ensures
        r == is_stop_at(text@, names, i as int),
{
    let mut k: usize = 0;
    while k < patterns.len()
        invariant
            i <= text@.len(),
            k <= patterns.len(),
            patterns@.len() == names.len(),
            forall|m: int| 0 <= m < names.len() ==> patterns@[m]@ == stop_pattern(names[m]),
            forall|m: int| 0 <= m < k ==> !matches_at(text@, i as int, stop_pattern(names[m])),
        decreases patterns.len() - k,
    {
        if match_at(text, i, patterns[k].as_str()) {
            proof {
                assert(matches_at(text@, i as int, stop_pattern(names[k as int])));
            }
            return true;
        }
        k += 1;
    }
    proof {
        if is_stop_at(text@, names, i as int) {
            let m = choose|m: int|
                0 <= m < names.len() && matches_at(text@, i as int, stop_pattern(names[m]));
            assert(!matches_at(text@, i as int, stop_pattern(names[m])));
        }
    }
    false
}

/// Cuts `text` at the earliest occurrence of any participant's
/// `"{name}:"` tag; text without such a tag is returned unchanged.
pub fn trim_at_stop_names(text: &str, names: &Vec<String>) -> (r: String)
    ensures
        r@ == spec_trim_stop(text@, names@.map_values(|x: String| x@)),
{
    let ghost name_views = names@.map_values(|x: String| x@);
    let mut patterns: Vec<String> = Vec::new();
    let mut k: usize = 0;
    while k < names.len()
        invariant
            name_views == names@.map_values(|x: String| x@),
            k <= names.len(),
            patterns@.len() == k,
            forall|m: int| 0 <= m < k ==> patterns@[m]@ == stop_pattern(name_views[m]),
        decreases names.len() - k,
    {
        let mut pat = names[k].clone();
        pat.append(":");
        proof {
            reveal_strlit(":");
            assert(pat@ =~= stop_pattern(name_views[k as int]));
        }
        patterns.push(pat);
        k += 1;
    }
    let text_len = text.unicode_len();
    let mut i: usize = 0;
    while i < text_len
        invariant
            text_len == text@.len(),
            i <= text_len,
            name_views == names@.map_values(|x: String| x@),
            patterns@.len() == name_views.len(),
            forall|m: int| 0 <= m < name_views.len() ==> patterns@[m]@ == stop_pattern(
                name_views[m],
            ),
            forall|j: int| 0 <= j < i ==> !is_stop_at(text@, name_views, j),
        decreases text_len - i,
    {
        if check_stop_at(text, i, &patterns, Ghost(name_views)) {
            proof {
                lemma_first_stop_at(text@, name_views, 0, i as int);
            }
            let r = text.substring_char(0, i);
            proof {
                assert(r@ =~= text@.take(i as int));
            }
            return r.to_owned();
        }
        i += 1;
    }
    proof {
        assert forall|j: int| 0 <= j implies !is_stop_at(text@, name_views, j) by {
            if is_stop_at(text@, name_views, j) {
                let k0 = choose|k0: int|
                    0 <= k0 < name_views.len() && matches_at(
                        text@,
                        j,
                        stop_pattern(name_views[k0]),
                    );
                assert(j + stop_pattern(name_views[k0]).len() <= text@.len());
            }
        }
        lemma_no_stop(text@, name_views, 0);
    }
    text.to_owned()
}

} // verus!
