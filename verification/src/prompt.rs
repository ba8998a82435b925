//! The prompt assembler: turns a template, a conversation and the engine's
//! settings into one bounded-size prompt string.
//!
//! The substitutions happen in a fixed order — descriptions and scene
//! context first, then the optional similarity matches, then the names
//! (last among the name-bearing substitutions, so that free-form text is
//! never re-expanded), and the chat history last, with the continuation
//! fragment appended as the very end of the prompt.

use vstd::prelude::*;
use crate::chatlog::{ChatLog, ChatLogItem, TurnView, spec_rendered_turn};
use crate::text::{
    spec_replace, spec_trim_end, spec_join, contains_sub, is_prefix_of, replace_all,
    contains_str, trim_end_ws, join_strings, starts_with_str,
};

verus! {

/// Predicted characters per token when none is configured, in tenths.
pub const DEFAULT_TEXT_TO_TOKEN_RATIO_TENTHS: u32 = 30;

/// Cap on generated tokens when none is configured.
pub const DEFAULT_MAX_NEW_TOKENS: usize = 150;

/// How many similar turns are pulled up when none is configured.
pub const DEFAULT_NUM_OF_SENTENCE_MATCHES: usize = 3;

/// The character budget for the chat history: the tokens left after
/// reserving the new-token cap, times the predicted characters per token,
/// minus the characters already used by the rest of the prompt.
pub open spec fn spec_char_budget(
    context_size: nat,
    max_new: nat,
    ratio_tenths: nat,
    used: nat,
) -> nat {
    let avail = if context_size > max_new {
        ((context_size - max_new) * ratio_tenths / 10) as nat
    } else {
        0
    };
    if avail > used {
        (avail - used) as nat
    } else {
        0
    }
}

/// The budget clamped to what a machine-sized length can hold.
pub open spec fn spec_budget_clamped(
    context_size: nat,
    max_new: nat,
    ratio_tenths: nat,
    used: nat,
) -> nat {
    let b = spec_char_budget(context_size, max_new, ratio_tenths, used);
    if b > usize::MAX as nat {
        usize::MAX as nat
    } else {
        b
    }
}

/// Computes the clamped character budget.
pub fn compute_char_budget(context_size: usize, max_new: usize, ratio_tenths: u32, used: usize) -> (r:
    usize)
    ensures
        r as nat == spec_budget_clamped(
            context_size as nat,
            max_new as nat,
            ratio_tenths as nat,
            used as nat,
        ),
{
    let ctx = context_size as u128;
    let mn = max_new as u128;
    let rt = ratio_tenths as u128;
    let u = used as u128;
    let avail: u128;
    if ctx > mn {
        proof {
            assert((ctx - mn) * rt <= 0xFFFF_FFFF_FFFF_FFFFu128 * 0xFFFF_FFFFu128)
                by (nonlinear_arith)
                requires
                    0 <= ctx - mn <= 0xFFFF_FFFF_FFFF_FFFFu128,
                    0 <= rt <= 0xFFFF_FFFFu128,
            ;
        }
        avail = (ctx - mn) * rt / 10;
    } else {
        avail = 0;
    }
    let after: u128 = if avail > u {
        avail - u
    } else {
        0
    };
    if after > usize::MAX as u128 {
        usize::MAX
    } else {
        after as usize
    }
}

/// The history accumulator: walking from turn `i - 1` down to the oldest,
/// each turn's rendering and a line feed are prepended while the
/// accumulated length plus the reserved continuation still fits the
/// budget; the first prepended turn is never size-gated.
pub open spec fn spec_hist(
    turns: Seq<TurnView>,
    i: int,
    acc: Seq<char>,
    limit: nat,
    reserved: nat,
    first: bool,
) -> Seq<char>
    decreases i,
    when 0 <= i <= turns.len()
{
    if i <= 0 {
        acc
    } else {
        let cand = spec_rendered_turn(turns[i - 1]) + seq!['\n'] + acc;
        if first || cand.len() + reserved < limit {
            spec_hist(turns, i - 1, cand, limit, reserved, false)
        } else {
            acc
        }
    }
}

/// The chat-history text substituted into the prompt: the retained turns,
/// oldest first, each followed by a line feed, with trailing whitespace
/// stripped.
pub open spec fn spec_history(turns: Seq<TurnView>, end: int, limit: nat, reserved: nat) -> Seq<
    char,
> {
    spec_trim_end(spec_hist(turns, end, Seq::empty(), limit, reserved, true))
}

/// Builds the raw (untrimmed) history text over `turns[0 .. end]`.
pub fn build_history_raw(
    turns: &Vec<ChatLogItem>,
    end: usize,
    limit: usize,
    reserved: usize,
) -> (h: String)
    requires
        end <= turns@.len(),
    ensures
        h@ == spec_hist(
            turns@.map_values(|x: ChatLogItem| x@),
            end as int,
            Seq::empty(),
            limit as nat,
            reserved as nat,
            true,
        ),
{
    let ghost views = turns@.map_values(|x: ChatLogItem| x@);
    let mut hist = String::new();
    let mut idx = end;
    let mut first = true;
    let mut done = false;
    while idx > 0 && !done
        invariant
            end <= turns@.len(),
            views == turns@.map_values(|x: ChatLogItem| x@),
            idx <= end,
            spec_hist(views, end as int, Seq::empty(), limit as nat, reserved as nat, true)
                == spec_hist(views, idx as int, hist@, limit as nat, reserved as nat, first),
            done ==> spec_hist(views, idx as int, hist@, limit as nat, reserved as nat, first)
                == hist@,
        decreases idx + if done {
            0int
        } else {
            1int
        },
    {
        let turn_str = turns[idx - 1].get_name_and_items_as_string();
        let mut cand = turn_str;
        cand.append("\n");
        cand.append(hist.as_str());
        proof {
            reveal_strlit("\n");
            assert(cand@ =~= spec_rendered_turn(views[idx - 1]) + seq!['\n'] + hist@);
        }
        let cand_len = cand.as_str().unicode_len();
        let fits = if reserved <= usize::MAX - cand_len {
            cand_len + reserved < limit
        } else {
            false
        };
        if first || fits {
            hist = cand;
            idx -= 1;
            first = false;
        } else {
            done = true;
        }
    }
    hist
}

/// The placeholder whose substitution injects similar past turns.
pub open spec fn sim_placeholder() -> Seq<char> {
    "<|similar_sentences|>"@
}

/// What the similarity step does to the prompt: with no augmenter the
/// placeholder is replaced by the empty string; with an augmenter and a
/// non-empty conversation it is replaced by the joined matches; an
/// augmenter with an empty conversation leaves the text unchanged, as
/// does a template without the placeholder.
pub open spec fn spec_sim_substituted(
    s: Seq<char>,
    augmenter: bool,
    log_len: nat,
    matches_joined: Seq<char>,
) -> Seq<char> {
    if !contains_sub(s, sim_placeholder()) {
        s
    } else if !augmenter {
        spec_replace(s, sim_placeholder(), Seq::empty())
    } else if log_len > 0 {
        spec_replace(s, sim_placeholder(), matches_joined)
    } else {
        s
    }
}

/// The continuation fragment: the rendering of the newest turn, with the
/// speaking character's `"{name}: "` prefix stripped when present.
pub open spec fn spec_strip_speaker(rendered: Seq<char>, name: Seq<char>) -> Seq<char> {
    if is_prefix_of(name + seq![':', ' '], rendered) {
        rendered.skip(name.len() + 2int)
    } else {
        rendered
    }
}

/// The assembled prompt, in the order the assembler works: character
/// description, scene context and optional user description substituted
/// first; then the similarity matches; then the character and user names;
/// then the size-bounded chat history; and finally the continuation
/// fragment appended as the very last characters.
pub open spec fn spec_assemble(
    template: Seq<char>,
    description: Seq<char>,
    current_context: Seq<char>,
    user_description: Option<Seq<char>>,
    augmenter: bool,
    matches_joined: Seq<char>,
    character_name: Seq<char>,
    user_name: Seq<char>,
    turns: Seq<TurnView>,
    should_continue: bool,
    context_size: nat,
    max_new_tokens: nat,
    ratio_tenths: nat,
) -> Seq<char> {
    let s1 = spec_replace(template, "<|character_description|>"@, description);
    let s2 = spec_replace(s1, "<|current_context|>"@, current_context);
    let s3 = if user_description is Some {
        spec_replace(s2, "<|user_description|>"@, user_description->0)
    } else {
        s2
    };
    let s4 = spec_sim_substituted(s3, augmenter, turns.len(), matches_joined);
    let s5 = spec_replace(s4, "<|character_name|>"@, character_name);
    let s6 = spec_replace(s5, "<|user_name|>"@, user_name);
    let cont = if should_continue && turns.len() > 0 {
        spec_strip_speaker(spec_rendered_turn(turns.last()), character_name)
    } else {
        Seq::empty()
    };
    let end = if should_continue && turns.len() > 0 {
        turns.len() - 1
    } else {
        turns.len() as int
    };
    let limit = spec_budget_clamped(context_size, max_new_tokens, ratio_tenths, s6.len());
    let hist = spec_history(turns, end, limit, cont.len());
    spec_replace(s6, "<|chat_history|>"@, hist) + cont
}

/// Assembles the prompt for one inference request.  `similar_matches` are
/// the already-ranked similar turns (joined with line feeds when used);
/// `augmenter` says whether a retrieval augmenter is configured at all.
pub fn assemble_prompt(
    template: &str,
    description: &str,
    current_context: &str,
    user_description: Option<&String>,
    augmenter: bool,
    similar_matches: &Vec<String>,
    character_name: &str,
    user_name: &str,
    log: &ChatLog,
    should_continue: bool,
    context_size: usize,
    max_new_tokens: usize,
    ratio_tenths: u32,
) -> (r: String)
    ensures
        r@ == spec_assemble(
            template@,
            description@,
            current_context@,
            match user_description {
                Some(u) => Some(u@),
                None => None,
            },
            augmenter,
            spec_join(similar_matches@.map_values(|x: String| x@), seq!['\n']),
            character_name@,
            user_name@,
            log@,
            should_continue,
            context_size as nat,
            max_new_tokens as nat,
            ratio_tenths as nat,
        ),
{
    proof {
        reveal_strlit("<|character_description|>");
        reveal_strlit("<|current_context|>");
        reveal_strlit("<|user_description|>");
        reveal_strlit("<|similar_sentences|>");
        reveal_strlit("<|character_name|>");
        reveal_strlit("<|user_name|>");
        reveal_strlit("<|chat_history|>");
        reveal_strlit("\n");
        reveal_strlit("");
        assert(""@ =~= Seq::<char>::empty());
        assert("\n"@ =~= seq!['\n']);
    }
    let s1 = replace_all(template, "<|character_description|>", description);
    let s2 = replace_all(s1.as_str(), "<|current_context|>", current_context);
    let s3 = match user_description {
        Some(u) => replace_all(s2.as_str(), "<|user_description|>", u.as_str()),
        None => s2,
    };
    let log_len = log.len();
    let s4 = if contains_str(s3.as_str(), "<|similar_sentences|>") {
        if !augmenter {
            replace_all(s3.as_str(), "<|similar_sentences|>", "")
        } else if log_len > 0 {
            let joined = join_strings(similar_matches, "\n");
            replace_all(s3.as_str(), "<|similar_sentences|>", joined.as_str())
        } else {
            s3
        }
    } else {
        s3
    };
    let s5 = replace_all(s4.as_str(), "<|character_name|>", character_name);
    let s6 = replace_all(s5.as_str(), "<|user_name|>", user_name);
    let cont = continuation_fragment(log, character_name, should_continue);
    let end = if should_continue && log_len > 0 {
        log_len - 1
    } else {
        log_len
    };
    let used = s6.as_str().unicode_len();
    let limit = compute_char_budget(context_size, max_new_tokens, ratio_tenths, used);
    let cont_len = cont.as_str().unicode_len();
    let hist_raw = build_history_raw(log.turns(), end, limit, cont_len);
    let hist = trim_end_ws(hist_raw.as_str());
    let mut out = replace_all(s6.as_str(), "<|chat_history|>", hist.as_str());
    out.append(cont.as_str());
    out
}

/// The continuation fragment for a request: empty unless the request asks
/// to continue and the conversation has a newest turn to continue.
pub fn continuation_fragment(log: &ChatLog, speaker_name: &str, should_continue: bool) -> (c:
    String)
    ensures
        (!should_continue || log@.len() == 0) ==> c@ == Seq::<char>::empty(),
        should_continue && log@.len() > 0 ==> c@ == spec_strip_speaker(
            spec_rendered_turn(log@.last()),
            speaker_name@,
        ),
{
    if !should_continue {
        return String::new();
    }
    match log.last() {
        None => String::new(),
        Some(item) => {
            let rendered = item.get_name_and_items_as_string();
            let name_len = speaker_name.unicode_len();
            let rendered_len = rendered.as_str().unicode_len();
            let mut prefix = speaker_name.to_owned();
            prefix.append(": ");
            proof {
                reveal_strlit(": ");
                assert(prefix@ =~= speaker_name@ + seq![':', ' ']);
            }
            if starts_with_str(rendered.as_str(), prefix.as_str()) {
                let stripped = rendered.as_str().substring_char(name_len + 2, rendered_len);
                proof {
                    assert(stripped@ =~= rendered@.skip(speaker_name@.len() + 2int));
                }
                stripped.to_owned()
            } else {
                rendered
            }
        },
    }
}

/// Budget respect: the history never exceeds the budget left after the
/// continuation fragment is reserved, except when a single retained turn
/// alone exceeds it — then the history is exactly that one turn's
/// rendering and its line feed, kept in full.
pub proof fn lemma_history_budget(turns: Seq<TurnView>, end: int, limit: nat, reserved: nat)
    requires
        1 <= end <= turns.len(),
    ensures
        ({
            let h = spec_hist(turns, end, Seq::empty(), limit, reserved, true);
            h.len() + reserved < limit || h == spec_rendered_turn(turns[end - 1]) + seq!['\n']
        }),
{
    let cand0 = spec_rendered_turn(turns[end - 1]) + seq!['\n'] + Seq::<char>::empty();
    assert(cand0 =~= spec_rendered_turn(turns[end - 1]) + seq!['\n']);
    if cand0.len() + reserved < limit {
        lemma_hist_bounded(turns, end - 1, cand0, limit, reserved);
    } else {
        lemma_hist_stuck(turns, end - 1, cand0, limit, reserved);
    }
}

/// Budget respect for the substituted text itself: the trimmed history
/// obeys the same bound, since trimming never lengthens it.
pub proof fn lemma_history_budget_trimmed(
    turns: Seq<TurnView>,
    end: int,
    limit: nat,
    reserved: nat,
)
    requires
        1 <= end <= turns.len(),
    ensures
        ({
            let h = spec_history(turns, end, limit, reserved);
            h.len() + reserved < limit || h == spec_trim_end(
                spec_rendered_turn(turns[end - 1]) + seq!['\n'],
            )
        }),
{
    lemma_history_budget(turns, end, limit, reserved);
    crate::text::lemma_trim_end_le(spec_hist(turns, end, Seq::empty(), limit, reserved, true));
}

/// Once the accumulated history fits the budget, it keeps fitting: every
/// further prepend is checked against the budget before it happens.
proof fn lemma_hist_bounded(turns: Seq<TurnView>, i: int, acc: Seq<char>, limit: nat, reserved: nat)
    requires
        0 <= i <= turns.len(),
        acc.len() + reserved < limit,
    ensures
        spec_hist(turns, i, acc, limit, reserved, false).len() + reserved < limit,
    decreases i,
{
    if i > 0 {
        let cand = spec_rendered_turn(turns[i - 1]) + seq!['\n'] + acc;
        if cand.len() + reserved < limit {
            lemma_hist_bounded(turns, i - 1, cand, limit, reserved);
        }
    }
}

/// An accumulator already over budget is returned unchanged: the next
/// candidate is strictly longer, so the size gate fails at once.
proof fn lemma_hist_stuck(turns: Seq<TurnView>, i: int, acc: Seq<char>, limit: nat, reserved: nat)
    requires
        0 <= i <= turns.len(),
        acc.len() + reserved >= limit,
    ensures
        spec_hist(turns, i, acc, limit, reserved, false) == acc,
{
    if i > 0 {
        let cand = spec_rendered_turn(turns[i - 1]) + seq!['\n'] + acc;
        assert(cand.len() >= acc.len());
    }
}

/// Continuation mode: when the request continues the newest turn, the
/// assembled prompt ends with exactly that turn's text (the speaker's
/// name-prefix stripped), and the history is assembled over the turns
/// before it only.
pub proof fn lemma_continuation_mode(
    template: Seq<char>,
    description: Seq<char>,
    current_context: Seq<char>,
    user_description: Option<Seq<char>>,
    augmenter: bool,
    matches_joined: Seq<char>,
    character_name: Seq<char>,
    user_name: Seq<char>,
    turns: Seq<TurnView>,
    context_size: nat,
    max_new_tokens: nat,
    ratio_tenths: nat,
)
    requires
        turns.len() > 0,
    ensures
        ({
            let r = spec_assemble(
                template,
                description,
                current_context,
                user_description,
                augmenter,
                matches_joined,
                character_name,
                user_name,
                turns,
                true,
                context_size,
                max_new_tokens,
                ratio_tenths,
            );
            let cont = spec_strip_speaker(spec_rendered_turn(turns.last()), character_name);
            r.len() >= cont.len() && r.skip(r.len() - cont.len()) == cont
        }),
{
    let r = spec_assemble(
        template,
        description,
        current_context,
        user_description,
        augmenter,
        matches_joined,
        character_name,
        user_name,
        turns,
        true,
        context_size,
        max_new_tokens,
        ratio_tenths,
    );
    let cont = spec_strip_speaker(spec_rendered_turn(turns.last()), character_name);
    assert(exists|head: Seq<char>| r == head + cont) by {
        let s1 = spec_replace(template, "<|character_description|>"@, description);
        let s2 = spec_replace(s1, "<|current_context|>"@, current_context);
        let s3 = if user_description is Some {
            spec_replace(s2, "<|user_description|>"@, user_description->0)
        } else {
            s2
        };
        let s4 = spec_sim_substituted(s3, augmenter, turns.len(), matches_joined);
        let s5 = spec_replace(s4, "<|character_name|>"@, character_name);
        let s6 = spec_replace(s5, "<|user_name|>"@, user_name);
        let limit = spec_budget_clamped(context_size, max_new_tokens, ratio_tenths, s6.len());
        let hist = spec_history(turns, turns.len() - 1, limit, cont.len());
        assert(r == spec_replace(s6, "<|chat_history|>"@, hist) + cont);
    }
    let head = choose|head: Seq<char>| r == head + cont;
    assert(r.skip(r.len() - cont.len()) =~= cont);
}

/// Graceful degradation: a template that contains the similarity
/// placeholder, with no retrieval augmenter configured, has the
/// placeholder replaced by the empty string — whatever the conversation
/// holds — and assembly still yields a prompt.
pub proof fn lemma_graceful_degradation(s: Seq<char>, log_len: nat, matches_joined: Seq<char>)
    requires
        contains_sub(s, sim_placeholder()),
    ensures
        spec_sim_substituted(s, false, log_len, matches_joined) == spec_replace(
            s,
            sim_placeholder(),
            Seq::empty(),
        ),
{
}

} // verus!
