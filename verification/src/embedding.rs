//! Retrieval-augmentation support: slicing a turn's text into chunks an
//! embedding model can take, deciding which turns still need embeddings,
//! and ranking similarity scores to pick the best matches.
//!
//! The embedding vectors themselves are computed outside the library (a
//! fixed-point copy of each vector is stored on the turn); everything
//! around them — chunking, laziness, ranking — is decided here.

use vstd::prelude::*;
use crate::chatlog::{ChatLog, spec_rendered_turn};
use crate::config::ConfiguredLlm;
use crate::prompt::DEFAULT_NUM_OF_SENTENCE_MATCHES;
use crate::text::{spec_lines, split_lines};

verus! {

/// The chunk budget in characters: the embedding model's token cutoff
/// times the predicted characters per token.
pub open spec fn spec_embed_budget(token_cutoff: nat, ratio_tenths: nat) -> nat {
    token_cutoff * ratio_tenths / 10
}

/// Chunking with an accumulator: lines are appended to the open chunk
/// while it stays under the budget; a line that does not fit closes the
/// chunk and opens a new one with that line, so an overlong line still
/// becomes its own chunk and nothing is dropped.  No empty chunk is ever
/// emitted.
pub open spec fn spec_chunks_acc(lines: Seq<Seq<char>>, buf: Seq<char>, budget: nat) -> Seq<
    Seq<char>,
>
    decreases lines.len(),
{
    if lines.len() == 0 {
        if buf.len() == 0 {
            Seq::empty()
        } else {
            seq![buf]
        }
    } else if buf.len() + lines[0].len() < budget {
        spec_chunks_acc(lines.skip(1), buf + lines[0], budget)
    } else if buf.len() == 0 {
        spec_chunks_acc(lines.skip(1), lines[0], budget)
    } else {
        seq![buf] + spec_chunks_acc(lines.skip(1), lines[0], budget)
    }
}

/// Every emitted chunk is non-empty.
pub proof fn lemma_chunks_nonempty(lines: Seq<Seq<char>>, buf: Seq<char>, budget: nat)
    ensures
        forall|i: int|
            0 <= i < spec_chunks_acc(lines, buf, budget).len() ==> #[trigger] spec_chunks_acc(
                lines,
                buf,
                budget,
            )[i].len() > 0,
    decreases lines.len(),
{
    if lines.len() == 0 {
        if buf.len() > 0 {
            assert(spec_chunks_acc(lines, buf, budget)[0] == buf);
        }
    } else if buf.len() + lines[0].len() < budget {
        lemma_chunks_nonempty(lines.skip(1), buf + lines[0], budget);
        assert(spec_chunks_acc(lines, buf, budget) == spec_chunks_acc(
            lines.skip(1),
            buf + lines[0],
            budget,
        ));
    } else if buf.len() == 0 {
        lemma_chunks_nonempty(lines.skip(1), lines[0], budget);
        assert(spec_chunks_acc(lines, buf, budget) == spec_chunks_acc(
            lines.skip(1),
            lines[0],
            budget,
        ));
    } else {
        lemma_chunks_nonempty(lines.skip(1), lines[0], budget);
        let rest = spec_chunks_acc(lines.skip(1), lines[0], budget);
        assert forall|i: int|
            0 <= i < spec_chunks_acc(lines, buf, budget).len() implies #[trigger] spec_chunks_acc(
            lines,
            buf,
            budget,
        )[i].len() > 0 by {
            if i == 0 {
                assert((seq![buf] + rest)[0] == buf);
            } else {
                assert((seq![buf] + rest)[i] == rest[i - 1]);
            }
        }
    }
}

/// All the characters of a sequence of pieces, in order.
pub open spec fn spec_concat_all(parts: Seq<Seq<char>>) -> Seq<char>
    decreases parts.len(),
{
    if parts.len() == 0 {
        Seq::empty()
    } else {
        parts[0] + spec_concat_all(parts.skip(1))
    }
}

/// Chunking loses nothing: the chunks concatenate back to the open chunk
/// followed by every line's characters.
pub proof fn lemma_chunks_preserve(lines: Seq<Seq<char>>, buf: Seq<char>, budget: nat)
    ensures
        spec_concat_all(spec_chunks_acc(lines, buf, budget)) == buf + spec_concat_all(lines),
    decreases lines.len(),
{
    if lines.len() == 0 {
        if buf.len() == 0 {
            assert(spec_concat_all(spec_chunks_acc(lines, buf, budget)) =~= buf
                + spec_concat_all(lines));
        } else {
            assert(seq![buf].skip(1) =~= Seq::<Seq<char>>::empty());
            assert(spec_concat_all(Seq::<Seq<char>>::empty()) == Seq::<char>::empty());
            assert(seq![buf][0] == buf);
            assert(spec_concat_all(seq![buf]) =~= buf);
            assert(spec_concat_all(spec_chunks_acc(lines, buf, budget)) =~= buf
                + spec_concat_all(lines));
        }
    } else {
        if buf.len() + lines[0].len() < budget {
            lemma_chunks_preserve(lines.skip(1), buf + lines[0], budget);
            assert((buf + lines[0]) + spec_concat_all(lines.skip(1)) =~= buf + (lines[0]
                + spec_concat_all(lines.skip(1))));
        } else if buf.len() == 0 {
            lemma_chunks_preserve(lines.skip(1), lines[0], budget);
            assert(lines[0] + spec_concat_all(lines.skip(1)) =~= buf + (lines[0]
                + spec_concat_all(lines.skip(1))));
        } else {
            lemma_chunks_preserve(lines.skip(1), lines[0], budget);
            let rest = spec_chunks_acc(lines.skip(1), lines[0], budget);
            assert((seq![buf] + rest).skip(1) =~= rest);
            assert((seq![buf] + rest)[0] == buf);
            assert(buf + (lines[0] + spec_concat_all(lines.skip(1))) =~= buf + lines[0]
                + spec_concat_all(lines.skip(1)));
        }
    }
}

/// Splits a turn's text into chunks an embedding model can take.
pub fn chunk_text_for_embedding(text: &str, token_cutoff: usize, ratio_tenths: u32) -> (r: Vec<
    String,
>)
    ensures
        r@.map_values(|x: String| x@) == spec_chunks_acc(
            spec_lines(text@),
            Seq::empty(),
            spec_embed_budget(token_cutoff as nat, ratio_tenths as nat),
        ),
{
    let ghost budget = spec_embed_budget(token_cutoff as nat, ratio_tenths as nat);
    proof {
        assert((token_cutoff as u128) * (ratio_tenths as u128) <= 0xFFFF_FFFF_FFFF_FFFFu128
            * 0xFFFF_FFFFu128) by (nonlinear_arith)
            requires
                0 <= token_cutoff as u128 <= 0xFFFF_FFFF_FFFF_FFFFu128,
                0 <= ratio_tenths as u128 <= 0xFFFF_FFFFu128,
        ;
    }
    let budget_exec: u128 = (token_cutoff as u128) * (ratio_tenths as u128) / 10;
    let lines = split_lines(text);
    let ghost line_views = lines@.map_values(|x: String| x@);
    let mut chunks: Vec<String> = Vec::new();
    let mut buf = String::new();
    let mut i: usize = 0;
    proof {
        assert(line_views.skip(0) =~= line_views);
        assert(chunks@.map_values(|x: String| x@) =~= Seq::<Seq<char>>::empty());
        assert(Seq::<Seq<char>>::empty() + spec_chunks_acc(line_views, Seq::empty(), budget)
            =~= spec_chunks_acc(line_views, Seq::empty(), budget));
    }
    while i < lines.len()
        invariant
            line_views == lines@.map_values(|x: String| x@),
            i <= lines.len(),
            budget == spec_embed_budget(token_cutoff as nat, ratio_tenths as nat),
            budget_exec as nat == budget,
            spec_chunks_acc(line_views, Seq::empty(), budget) == chunks@.map_values(
                |x: String| x@,
            ) + spec_chunks_acc(line_views.skip(i as int), buf@, budget),
        decreases lines.len() - i,
    {
        let ghost tail = line_views.skip(i as int);
        proof {
            assert(tail[0] == line_views[i as int]);
            assert(tail.skip(1) =~= line_views.skip(i + 1));
        }
        let line = &lines[i];
        let buf_len = buf.as_str().unicode_len();
        let line_len = line.as_str().unicode_len();
        if (buf_len as u128) + (line_len as u128) < budget_exec {
            buf.append(line.as_str());
        } else if buf_len == 0 {
            buf = line.clone();
        } else {
            let ghost old_chunks = chunks@.map_values(|x: String| x@);
            let ghost buf_view = buf@;
            let closed = buf;
            chunks.push(closed);
            buf = line.clone();
            proof {
                assert(chunks@.map_values(|x: String| x@) =~= old_chunks.push(buf_view));
                assert(old_chunks + (seq![buf_view] + spec_chunks_acc(
                    line_views.skip(i + 1),
                    tail[0],
                    budget,
                )) =~= old_chunks.push(buf_view) + spec_chunks_acc(
                    line_views.skip(i + 1),
                    tail[0],
                    budget,
                ));
            }
        }
        i += 1;
    }
    proof {
        assert(line_views.skip(lines@.len() as int) =~= Seq::<Seq<char>>::empty());
    }
    if buf.as_str().unicode_len() > 0 {
        let ghost old_chunks = chunks@.map_values(|x: String| x@);
        let ghost buf_view = buf@;
        chunks.push(buf);
        proof {
            assert(chunks@.map_values(|x: String| x@) =~= old_chunks.push(buf_view));
            assert(old_chunks + seq![buf_view] =~= old_chunks.push(buf_view));
        }
    } else {
        proof {
            assert(chunks@.map_values(|x: String| x@) + Seq::<Seq<char>>::empty()
                =~= chunks@.map_values(|x: String| x@));
        }
    }
    chunks
}

/// Whether a turn's embeddings must be (re)computed.
pub open spec fn spec_needs_embedding(t: crate::chatlog::TurnView, force: bool) -> bool {
    force || t.embeddings.len() == 0
}

/// The indices of the turns whose embeddings must be computed: all of
/// them when recalculation is forced, otherwise exactly those with no
/// embeddings yet; in increasing order.
pub fn turns_needing_embeddings(log: &ChatLog, force_recalculation: bool) -> (r: Vec<usize>)
    ensures
        forall|a: int, b: int| 0 <= a < b < r@.len() ==> r@[a] < r@[b],
        forall|k: int| 0 <= k < r@.len() ==> r@[k] < log@.len(),
        forall|j: usize|
            j < log@.len() ==> (#[trigger] r@.contains(j) <==> spec_needs_embedding(
                log@[j as int],
                force_recalculation,
            )),
{
    let n = log.len();
    let mut r: Vec<usize> = Vec::new();
    let mut i: usize = 0;
    while i < n
        invariant
            n == log@.len(),
            i <= n,
            forall|a: int, b: int| 0 <= a < b < r@.len() ==> r@[a] < r@[b],
            forall|k: int| 0 <= k < r@.len() ==> r@[k] < i,
            forall|j: usize|
                j < i ==> (#[trigger] r@.contains(j) <==> spec_needs_embedding(
                    log@[j as int],
                    force_recalculation,
                )),
        decreases n - i,
    {
        let needs = match log.get(i) {
            Some(item) => force_recalculation || item.embeddings.len() == 0,
            None => false,
        };
        let ghost old_r = r@;
        if needs {
            r.push(i);
            proof {
                assert(r@ == old_r.push(i));
                assert forall|j: usize|
                    j < i + 1 implies (#[trigger] r@.contains(j) <==> spec_needs_embedding(
                    log@[j as int],
                    force_recalculation,
                )) by {
                    vstd::seq_lib::lemma_seq_contains_after_push(old_r, i, j);
                    if j < i {
                        assert(old_r.contains(j) <==> spec_needs_embedding(
                            log@[j as int],
                            force_recalculation,
                        ));
                    }
                }
            }
        } else {
            proof {
                assert forall|j: usize|
                    j < i + 1 implies (#[trigger] r@.contains(j) <==> spec_needs_embedding(
                    log@[j as int],
                    force_recalculation,
                )) by {
                    if j == i && r@.contains(i) {
                        let k = choose|k: int| 0 <= k < r@.len() && r@[k] == i;
                        assert(r@[k] < i);
                    }
                    if j < i {
                        assert(old_r.contains(j) <==> spec_needs_embedding(
                            log@[j as int],
                            force_recalculation,
                        ));
                    }
                }
            }
        }
        i += 1;
    }
    r
}

/// How many similar turns a model configuration asks for.
pub fn requested_match_count(model_config: &ConfiguredLlm) -> (r: usize)
    ensures
        r == (if model_config.similar_sentence_count is Some {
            model_config.similar_sentence_count->0
        } else {
            DEFAULT_NUM_OF_SENTENCE_MATCHES
        }),
{
    match model_config.similar_sentence_count {
        Some(n) => n,
        None => DEFAULT_NUM_OF_SENTENCE_MATCHES,
    }
}

/// The turn used as the similarity query: the newest one, moved back by
/// `extra_offset`, clamped at the oldest.
pub fn similarity_query_index(log_len: usize, extra_offset: usize) -> (r: usize)
    requires
        log_len > 0,
    ensures
        extra_offset + 1 >= log_len ==> r == 0,
        extra_offset + 1 < log_len ==> r == log_len - 1 - extra_offset,
{
    if extra_offset >= log_len - 1 {
        0
    } else {
        log_len - 1 - extra_offset
    }
}

/// Scores in falling order, ties left in their given order.
pub open spec fn sorted_desc(s: Seq<(usize, i64)>) -> bool {
    forall|i: int, j: int| 0 <= i < j < s.len() ==> s[i].1 >= s[j].1
}

/// Top of the ranking: a score left out of a falling-order prefix never
/// beats the last score kept, so the prefix really holds the best matches.
pub proof fn lemma_ranked_prefix_maximal(sorted: Seq<(usize, i64)>, n: int, e: (usize, i64))
    requires
        sorted_desc(sorted),
        0 < n <= sorted.len(),
        sorted.take(n).to_multiset().count(e) < sorted.to_multiset().count(e),
    ensures
        e.1 <= sorted.take(n)[n - 1].1,
{
    sorted.skip(n).to_multiset_ensures();
    vstd::seq_lib::lemma_multiset_commutative(sorted.take(n), sorted.skip(n));
    assert(sorted.take(n) + sorted.skip(n) =~= sorted);
    assert(sorted.skip(n).to_multiset().count(e) > 0);
    assert(sorted.skip(n).contains(e));
    let k = choose|k: int| 0 <= k < sorted.skip(n).len() && sorted.skip(n)[k] == e;
    assert(sorted.skip(n)[k] == sorted[n + k]);
    assert(sorted[n - 1].1 >= sorted[n + k].1);
    assert(sorted.take(n)[n - 1] == sorted[n - 1]);
}

fn clone_scores(v: &Vec<(usize, i64)>) -> (r: Vec<(usize, i64)>)
    ensures
        r@ == v@,
{
    let mut r: Vec<(usize, i64)> = Vec::new();
    let mut i: usize = 0;
    while i < v.len()
        invariant
            i <= v.len(),
            r@ =~= v@.take(i as int),
        decreases v.len() - i,
    {
        r.push(v[i]);
        proof {
            assert(v@.take(i + 1) =~= v@.take(i as int).push(v@[i as int]));
        }
        i += 1;
    }
    proof {
        assert(v@.take(v@.len() as int) =~= v@);
    }
    r
}

/// The index of the best remaining score: the first one no other beats.
fn find_best_index(work: &Vec<(usize, i64)>) -> (r: usize)
    requires
        work@.len() > 0,
    ensures
        r < work@.len(),
        forall|k: int| 0 <= k < work@.len() ==> work@[r as int].1 >= work@[k].1,
        forall|k: int| 0 <= k < r ==> work@[k].1 < work@[r as int].1,
{
    let mut best: usize = 0;
    let mut k: usize = 1;
    while k < work.len()
        invariant
            best < k <= work@.len() || (best == 0 && k <= work@.len()),
            best < work@.len(),
            forall|m: int| 0 <= m < k ==> work@[best as int].1 >= work@[m].1,
            forall|m: int| 0 <= m < best ==> work@[m].1 < work@[best as int].1,
        decreases work@.len() - k,
    {
        if work[k].1 > work[best].1 {
            best = k;
        }
        k += 1;
    }
    best
}

/// Ranks similarity scores: the result is the first `count` entries of a
/// falling-order arrangement of all the scores, the best first, equal
/// scores kept in their input order — the same inputs always rank the
/// same way.
pub fn rank_similarities(scores: &Vec<(usize, i64)>, count: usize) -> (r: Vec<(usize, i64)>)
    ensures
        r@.len() == (if count as int <= scores@.len() {
            count as int
        } else {
            scores@.len() as int
        }),
        sorted_desc(r@),
        exists|sorted: Seq<(usize, i64)>|
            #![auto]
            sorted.to_multiset() == scores@.to_multiset() && sorted_desc(sorted) && r@
                == sorted.take(r@.len() as int),
{
    broadcast use vstd::seq_lib::group_to_multiset_ensures;

    let mut work = clone_scores(scores);
    let mut out: Vec<(usize, i64)> = Vec::new();
    while work.len() > 0
        invariant
            out@.to_multiset().add(work@.to_multiset()) == scores@.to_multiset(),
            out@.len() + work@.len() == scores@.len(),
            sorted_desc(out@),
            forall|a: int, b: int|
                0 <= a < out@.len() && 0 <= b < work@.len() ==> out@[a].1 >= work@[b].1,
        decreases work@.len(),
    {
        let best = find_best_index(&work);
        let ghost old_work = work@;
        let ghost old_out = out@;
        let picked = work.remove(best);
        out.push(picked);
        proof {
            old_work.to_multiset_ensures();
            old_out.to_multiset_ensures();
            assert(out@ =~= old_out.push(picked));
            assert(out@ == old_out.push(picked));
            assert(old_work.remove(best as int).to_multiset() =~= old_work.to_multiset().remove(
                picked,
            ));
            assert(out@.to_multiset() =~= old_out.to_multiset().insert(picked));
            assert(out@.to_multiset().add(work@.to_multiset()) =~= scores@.to_multiset());
            assert forall|b: int| 0 <= b < work@.len() implies picked.1 >= work@[b].1 by {
                if b < best {
                    assert(work@[b] == old_work[b]);
                } else {
                    assert(work@[b] == old_work[b + 1]);
                }
            }
        }
    }
    proof {
        assert(work@.to_multiset() =~= vstd::multiset::Multiset::<(usize, i64)>::empty());
        assert(out@.to_multiset().add(vstd::multiset::Multiset::<(usize, i64)>::empty()) =~= out@.to_multiset());
    }
    let ghost full = out@;
    if count < out.len() {
        out.truncate(count);
        proof {
            assert(out@ =~= full.take(count as int));
        }
    } else {
        proof {
            assert(out@ =~= full.take(out@.len() as int));
        }
    }
    out
}

/// The rendered texts of the ranked turns, best match first.
pub fn collect_match_texts(log: &ChatLog, ranked: &Vec<(usize, i64)>) -> (r: Vec<String>)
    requires
        forall|k: int| 0 <= k < ranked@.len() ==> (#[trigger] ranked@[k]).0 < log@.len(),
    ensures
        r@.len() == ranked@.len(),
        forall|k: int|
            0 <= k < ranked@.len() ==> (#[trigger] r@[k])@ == spec_rendered_turn(
                log@[ranked@[k].0 as int],
            ),
{
    let mut r: Vec<String> = Vec::new();
    let mut i: usize = 0;
    while i < ranked.len()
        invariant
            forall|k: int| 0 <= k < ranked@.len() ==> (#[trigger] ranked@[k]).0 < log@.len(),
            i <= ranked@.len(),
            r@.len() == i,
            forall|k: int|
                0 <= k < i ==> (#[trigger] r@[k])@ == spec_rendered_turn(
                    log@[ranked@[k].0 as int],
                ),
        decreases ranked@.len() - i,
    {
        let idx = ranked[i].0;
        match log.get(idx) {
            Some(item) => {
                r.push(item.get_name_and_items_as_string());
            },
            None => {
                r.push(String::new());
            },
        }
        i += 1;
    }
    r
}

} // verus!
