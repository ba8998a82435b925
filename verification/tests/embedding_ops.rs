use sentinel_core::chatlog::{ChatLog, ChatLogItem};
use sentinel_core::config::{
    get_log_folder, CharacterFileYaml, ConfigurationFile, ConfiguredLlm, ConversationTurnName,
    Justification,
};
use sentinel_core::embedding::{
    chunk_text_for_embedding, collect_match_texts, rank_similarities, similarity_query_index,
    turns_needing_embeddings,
};

#[test]
fn chunks_group_lines_under_the_budget() {
    // budget: 10 tokens * 3.0 characters = 30 characters
    let text = "aaaaaaaaaa\nbbbbbbbbbb\ncccccccccc\ndddddddddd";
    let chunks = chunk_text_for_embedding(text, 10, 30);
    assert_eq!(chunks, vec!["aaaaaaaaaabbbbbbbbbb".to_string(), "ccccccccccdddddddddd".to_string()]);
}

#[test]
fn chunks_are_never_empty_and_lose_nothing() {
    let text = "one\ntwo\nthree";
    let chunks = chunk_text_for_embedding(text, 2, 30);
    assert!(chunks.iter().all(|c| !c.is_empty()));
    let rejoined: String = chunks.concat();
    assert_eq!(rejoined, "onetwothree");
}

#[test]
fn overlong_line_becomes_its_own_chunk() {
    let text = "short\nthis line is far longer than the budget allows\nend";
    let chunks = chunk_text_for_embedding(text, 2, 30);
    assert!(chunks.contains(&"this line is far longer than the budget allows".to_string()));
    assert!(chunks.iter().all(|c| !c.is_empty()));
}

#[test]
fn empty_text_gives_no_chunks() {
    let chunks = chunk_text_for_embedding("", 10, 30);
    assert!(chunks.is_empty());
}

#[test]
fn lazy_embedding_skips_covered_turns() {
    let mut log = ChatLog::new();
    log.push(ChatLogItem::new_from_str("A".to_string(), "one"));
    log.push(ChatLogItem::new_from_str("B".to_string(), "two"));
    log.set_embeddings(0, vec![vec![1]]);
    let needy = turns_needing_embeddings(&log, false);
    assert_eq!(needy, vec![1]);
    let all = turns_needing_embeddings(&log, true);
    assert_eq!(all, vec![0, 1]);
}

#[test]
fn query_index_steps_back_and_clamps() {
    assert_eq!(similarity_query_index(5, 0), 4);
    assert_eq!(similarity_query_index(5, 1), 3);
    assert_eq!(similarity_query_index(2, 5), 0);
}

#[test]
fn ranking_orders_by_score_descending() {
    let scores = vec![(0usize, 10i64), (1, 50), (2, 30)];
    let top = rank_similarities(&scores, 2);
    assert_eq!(top, vec![(1, 50), (2, 30)]);
}

#[test]
fn ranking_breaks_ties_by_input_order() {
    let scores = vec![(3usize, 7i64), (1, 7), (2, 9)];
    let top = rank_similarities(&scores, 3);
    assert_eq!(top, vec![(2, 9), (3, 7), (1, 7)]);
}

#[test]
fn ranking_caps_at_the_available_scores() {
    let scores = vec![(0usize, 1i64)];
    let top = rank_similarities(&scores, 5);
    assert_eq!(top, vec![(0, 1)]);
}

#[test]
fn match_texts_render_the_ranked_turns() {
    let mut log = ChatLog::new();
    log.push(ChatLogItem::new_from_str("A".to_string(), "one"));
    log.push(ChatLogItem::new_from_str("B".to_string(), "two"));
    let texts = collect_match_texts(&log, &vec![(1usize, 9i64), (0, 3)]);
    assert_eq!(texts, vec!["B: two".to_string(), "A: one".to_string()]);
}

#[test]
fn model_lookup_matches_name_or_path_case_insensitively() {
    let m1 = ConfiguredLlm {
        name: "alpha".to_string(),
        path: Some("models/alpha.gguf".to_string()),
        remote_server: None,
        remote_timeout_s: None,
        context_size: 1024,
        similar_sentence_count: None,
        gpu_layer_count: None,
        seed: None,
        prompt_instruct_template: String::new(),
    };
    let mut m2 = m1.clone();
    m2.name = "beta".to_string();
    m2.path = None;
    let cfg = ConfigurationFile {
        version: 1,
        display_name: "User".to_string(),
        display_name_rgb: None,
        quotes_rgb: None,
        text_rgb: None,
        progress_primary_rgb: None,
        progress_secondary_rgb: None,
        chat_text_justification: None,
        add_visual_buffer_between_chatlog_items: None,
        stop_on_display_name: true,
        text_to_token_ratio_prediction: None,
        maximum_new_tokens: None,
        use_gpu: None,
        thread_count: None,
        batch_size: None,
        parameters: Vec::new(),
        models: vec![m1, m2],
        embedding_model: None,
    };
    assert_eq!(cfg.find_model_configuration("ALPHA").unwrap().name, "alpha");
    assert_eq!(
        cfg.find_model_configuration("MODELS/ALPHA.GGUF").unwrap().name,
        "alpha"
    );
    assert_eq!(cfg.find_model_configuration("Beta").unwrap().name, "beta");
    assert!(cfg.find_model_configuration("gamma").is_none());
}

#[test]
fn greeting_lines_fill_in_both_names() {
    let c = CharacterFileYaml {
        name: "Alice".to_string(),
        name_rgb: None,
        quotes_rgb: None,
        text_rgb: None,
        description: String::new(),
        greeting: "<|character_name|> waves\nhello <|user_name|>".to_string(),
        context: String::new(),
    };
    let lines = c.get_greeting("Sam");
    assert_eq!(lines, vec!["Alice waves".to_string(), "hello Sam".to_string()]);
}

#[test]
fn log_folder_is_derived_from_the_character_name() {
    assert_eq!(get_log_folder("Alice"), "characters/Alice-logs");
}

#[test]
fn turn_speaker_tags_have_display_text() {
    assert_eq!(ConversationTurnName::USER.as_str(), "USER");
    assert_eq!(ConversationTurnName::BOT.as_str(), "BOT");
    assert!(Justification::Left == Justification::Left);
    assert!(Justification::Left != Justification::Center);
}

#[test]
fn match_count_comes_from_the_model_or_its_default() {
    let mut m = ConfiguredLlm {
        name: "m".to_string(),
        path: None,
        remote_server: None,
        remote_timeout_s: None,
        context_size: 1024,
        similar_sentence_count: None,
        gpu_layer_count: None,
        seed: None,
        prompt_instruct_template: String::new(),
    };
    assert_eq!(sentinel_core::embedding::requested_match_count(&m), 3);
    m.similar_sentence_count = Some(7);
    assert_eq!(sentinel_core::embedding::requested_match_count(&m), 7);
}
