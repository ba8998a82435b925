use sentinel_core::chatlog::{ChatLog, ChatLogItem};
use sentinel_core::prompt::{assemble_prompt, compute_char_budget, continuation_fragment};

fn log_of(turns: &[(&str, &str)]) -> ChatLog {
    let mut log = ChatLog::new();
    for (who, what) in turns {
        log.push(ChatLogItem::new_from_str(who.to_string(), what));
    }
    log
}

fn assemble_simple(
    template: &str,
    log: &ChatLog,
    should_continue: bool,
    context_size: usize,
    max_new: usize,
) -> String {
    let no_matches: Vec<String> = Vec::new();
    assemble_prompt(
        template,
        "",
        "",
        None,
        false,
        &no_matches,
        "Alice",
        "User",
        log,
        should_continue,
        context_size,
        max_new,
        30,
    )
}

#[test]
fn history_scenario_oldest_first_trailing_trimmed() {
    let log = log_of(&[("User", "Hi"), ("Alice", "Hello!")]);
    let prompt = assemble_simple("<|chat_history|>", &log, false, 10_000, 150);
    assert_eq!(prompt, "User: Hi\nAlice: Hello!");
}

#[test]
fn empty_conversation_gives_empty_history() {
    let log = ChatLog::new();
    let prompt = assemble_simple("H[<|chat_history|>]", &log, false, 10_000, 150);
    assert_eq!(prompt, "H[]");
}

#[test]
fn continuation_strips_speaker_prefix_and_ends_the_prompt() {
    let log = log_of(&[("User", "Hey"), ("Alice", "Hello wor")]);
    let prompt = assemble_simple("<|chat_history|>", &log, true, 10_000, 150);
    assert!(prompt.ends_with("Hello wor"));
    // the continued turn is excluded from the history substitution
    assert_eq!(prompt, "User: HeyHello wor");
}

#[test]
fn continuation_of_sole_turn_is_the_whole_prompt_tail() {
    let log = log_of(&[("Alice", "Hello wor")]);
    let prompt = assemble_simple("<|chat_history|>", &log, true, 10_000, 150);
    assert_eq!(prompt, "Hello wor");
}

#[test]
fn continuation_keeps_other_speakers_rendering_whole() {
    let log = log_of(&[("Bob", "Hello wor")]);
    let prompt = assemble_simple("<|chat_history|>", &log, true, 10_000, 150);
    // the newest turn belongs to Bob, not the speaking character Alice,
    // so no prefix is stripped
    assert_eq!(prompt, "Bob: Hello wor");
}

#[test]
fn similarity_placeholder_empty_without_augmenter() {
    let log = log_of(&[("User", "Hi")]);
    let no_matches: Vec<String> = Vec::new();
    let prompt = assemble_prompt(
        "A<|similar_sentences|>B",
        "",
        "",
        None,
        false,
        &no_matches,
        "Alice",
        "User",
        &log,
        false,
        10_000,
        150,
        30,
    );
    assert_eq!(prompt, "AB");
}

#[test]
fn similarity_matches_joined_with_line_feeds() {
    let log = log_of(&[("User", "Hi"), ("Alice", "Hello!")]);
    let matches = vec!["User: Hi".to_string(), "Alice: Hello!".to_string()];
    let prompt = assemble_prompt(
        "[<|similar_sentences|>]",
        "",
        "",
        None,
        true,
        &matches,
        "Alice",
        "User",
        &log,
        false,
        10_000,
        150,
        30,
    );
    assert_eq!(prompt, "[User: Hi\nAlice: Hello!]");
}

#[test]
fn descriptions_and_names_substituted_in_order() {
    let log = ChatLog::new();
    let mut log_with_desc = log;
    log_with_desc.current_context = "the moon".to_string();
    log_with_desc.user_description = Some("a traveller".to_string());
    let no_matches: Vec<String> = Vec::new();
    let prompt = assemble_prompt(
        "<|character_description|>/<|current_context|>/<|user_description|>/<|character_name|>/<|user_name|>",
        "a robot",
        "the moon",
        Some(&"a traveller".to_string()),
        false,
        &no_matches,
        "Alice",
        "Sam",
        &log_with_desc,
        false,
        10_000,
        150,
        30,
    );
    assert_eq!(prompt, "a robot/the moon/a traveller/Alice/Sam");
}

#[test]
fn names_inside_description_are_not_reexpanded_before_name_pass() {
    // the description brings its own name placeholder; names are replaced
    // after descriptions, so it is filled in on the single name pass
    let log = ChatLog::new();
    let no_matches: Vec<String> = Vec::new();
    let prompt = assemble_prompt(
        "<|character_description|>",
        "I am <|character_name|>",
        "",
        None,
        false,
        &no_matches,
        "Alice",
        "Sam",
        &log,
        false,
        10_000,
        150,
        30,
    );
    assert_eq!(prompt, "I am Alice");
}

#[test]
fn history_respects_the_character_budget() {
    // template uses 16 characters; (70 - 50) tokens * 3.0 = 60 characters,
    // so the history budget is 44; each turn renders to 11 + 1 characters
    let log = log_of(&[
        ("Bob", "123456"),
        ("Bob", "abcdef"),
        ("Bob", "ABCDEF"),
        ("Bob", "qwerty"),
        ("Bob", "zxcvbn"),
    ]);
    let prompt = assemble_simple("<|chat_history|>", &log, false, 70, 50);
    // only the newest three turns fit the 44-character budget
    assert_eq!(prompt, "Bob: ABCDEF\nBob: qwerty\nBob: zxcvbn");
}

#[test]
fn single_overlong_turn_is_kept_in_full() {
    let log = log_of(&[("Bob", "0123456789012345678901234567890123456789")]);
    // budget is (11 - 10) * 3 = 3 characters minus the template, far too
    // small, yet the one retained turn is never size-gated
    let prompt = assemble_simple("<|chat_history|>", &log, false, 11, 10);
    assert_eq!(prompt, "Bob: 0123456789012345678901234567890123456789");
}

#[test]
fn budget_formula_and_clamping() {
    assert_eq!(compute_char_budget(1000, 100, 30, 100), (1000 - 100) * 3 - 100);
    // reserving more tokens than the window leaves nothing
    assert_eq!(compute_char_budget(100, 200, 30, 0), 0);
    // a prompt already over the window leaves nothing
    assert_eq!(compute_char_budget(100, 50, 30, 1000), 0);
}

#[test]
fn continuation_fragment_rules() {
    let log = log_of(&[("Alice", "Hello wor")]);
    assert_eq!(continuation_fragment(&log, "Alice", true), "Hello wor");
    assert_eq!(continuation_fragment(&log, "Alice", false), "");
    assert_eq!(continuation_fragment(&ChatLog::new(), "Alice", true), "");
    assert_eq!(continuation_fragment(&log, "Bob", true), "Alice: Hello wor");
}
