use sentinel_core::chatlog::{ChatLog, ChatLogItem};
use sentinel_core::config::CharacterFileYaml;
use sentinel_core::memories::{Memory, MemoryFile};

fn character(name: &str, greeting: &str, context: &str) -> CharacterFileYaml {
    CharacterFileYaml {
        name: name.to_string(),
        name_rgb: None,
        quotes_rgb: None,
        text_rgb: None,
        description: String::new(),
        greeting: greeting.to_string(),
        context: context.to_string(),
    }
}

#[test]
fn item_from_str_splits_into_lines() {
    let item = ChatLogItem::new_from_str("Alice".to_string(), "one\ntwo");
    assert_eq!(item.entity, "Alice");
    assert_eq!(item.lines, vec!["one".to_string(), "two".to_string()]);
    assert!(item.embeddings.is_empty());
}

#[test]
fn item_renders_with_name_prefix() {
    let item = ChatLogItem::new_from_str("Alice".to_string(), "one\ntwo");
    assert_eq!(item.get_name_and_items_as_string(), "Alice: one\ntwo");
    assert_eq!(item.get_items_as_string(), "one\ntwo");
}

#[test]
fn add_to_last_extends_the_last_line() {
    let mut item = ChatLogItem::new_from_str("Alice".to_string(), "hel");
    item.add_to_last("lo\nthere");
    assert_eq!(item.lines, vec!["hello".to_string(), "there".to_string()]);
}

#[test]
fn add_to_last_on_empty_makes_one_line() {
    let mut item = ChatLogItem::new();
    assert_eq!(item.entity, "Unknown");
    item.add_to_last("first");
    assert_eq!(item.lines, vec!["first".to_string()]);
}

#[test]
fn mutating_lines_clears_embeddings() {
    let mut item = ChatLogItem::new_from_str("Alice".to_string(), "text");
    item.embeddings.push(vec![1, 2, 3]);
    item.add_to_last("!");
    assert!(item.embeddings.is_empty());
    item.embeddings.push(vec![4]);
    item.replace_items_with_string("new text".to_string());
    assert!(item.embeddings.is_empty());
    assert_eq!(item.lines, vec!["new text".to_string()]);
}

#[test]
fn replace_items_with_empty_string_clears_lines() {
    let mut item = ChatLogItem::new_from_str("A".to_string(), "x");
    item.replace_items_with_string(String::new());
    assert!(item.lines.is_empty());
}

#[test]
fn log_push_pop_get_len() {
    let mut log = ChatLog::new();
    assert_eq!(log.len(), 0);
    assert!(log.last().is_none());
    log.push(ChatLogItem::new_from_str("A".to_string(), "one"));
    log.push(ChatLogItem::new_from_str("B".to_string(), "two"));
    assert_eq!(log.len(), 2);
    assert_eq!(log.get(0).unwrap().entity, "A");
    assert_eq!(log.last().unwrap().entity, "B");
    let popped = log.pop().unwrap();
    assert_eq!(popped.entity, "B");
    assert_eq!(log.len(), 1);
}

#[test]
fn log_remove_shifts_later_turns() {
    let mut log = ChatLog::new();
    log.push(ChatLogItem::new_from_str("A".to_string(), "one"));
    log.push(ChatLogItem::new_from_str("B".to_string(), "two"));
    log.push(ChatLogItem::new_from_str("C".to_string(), "three"));
    let removed = log.remove(1).unwrap();
    assert_eq!(removed.entity, "B");
    assert_eq!(log.len(), 2);
    assert_eq!(log.get(1).unwrap().entity, "C");
    assert!(log.remove(5).is_none());
}

#[test]
fn from_text_lines_groups_by_speaker_tags() {
    let lines = vec![
        "John: hello".to_string(),
        "still john".to_string(),
        "Jane: hi".to_string(),
    ];
    let names = vec!["John:".to_string(), "Jane:".to_string()];
    let log = ChatLog::from_text_lines(&lines, &names);
    assert_eq!(log.len(), 2);
    let first = log.get(0).unwrap();
    assert_eq!(first.entity, "John");
    assert_eq!(
        first.lines,
        vec!["John: hello".to_string(), "still john".to_string()]
    );
    let second = log.get(1).unwrap();
    assert_eq!(second.entity, "Jane");
    assert_eq!(second.lines, vec!["Jane: hi".to_string()]);
}

#[test]
fn from_text_lines_without_any_tag_keeps_one_buffered_turn() {
    let lines = vec!["no tags".to_string(), "at all".to_string()];
    let names = vec!["John:".to_string()];
    let log = ChatLog::from_text_lines(&lines, &names);
    assert_eq!(log.len(), 1);
    assert_eq!(log.get(0).unwrap().entity, "");
    assert_eq!(
        log.get(0).unwrap().lines,
        vec!["no tags".to_string(), "at all".to_string()]
    );
}

#[test]
fn greeting_builds_turns_and_detects_speakers() {
    let c = character(
        "Alice",
        "Alice: hello <|user_name|>\nplain narration",
        "a quiet room",
    );
    let log = ChatLog::new_with_greeting(&c, "Sam");
    assert_eq!(log.current_context, "a quiet room");
    assert_eq!(log.len(), 2);
    let first = log.get(0).unwrap();
    assert_eq!(first.entity, "Alice");
    assert_eq!(first.lines, vec!["hello Sam".to_string()]);
    let second = log.get(1).unwrap();
    assert_eq!(second.entity, "Unknown");
    assert_eq!(second.lines, vec!["plain narration".to_string()]);
}

#[test]
fn greeting_substitutes_character_name() {
    let c = character("Alice", "<|character_name|>: I am <|character_name|>", "");
    let log = ChatLog::new_with_greeting(&c, "Sam");
    assert_eq!(log.len(), 1);
    assert_eq!(log.get(0).unwrap().entity, "Alice");
    assert_eq!(log.get(0).unwrap().lines, vec!["I am Alice".to_string()]);
}

#[test]
fn memories_merge_under_their_keys() {
    let mut log = ChatLog::new();
    let file = MemoryFile {
        memories: vec![
            Memory { key: "home".to_string(), value: "a cottage".to_string() },
            Memory { key: "pet".to_string(), value: "a cat".to_string() },
            Memory { key: "home".to_string(), value: "by the sea".to_string() },
        ],
    };
    log.absorb_memory_file(&file);
    assert_eq!(log.loaded_memory.len(), 2);
    assert_eq!(log.loaded_memory[0].0, "home");
    assert_eq!(
        log.loaded_memory[0].1,
        vec!["a cottage".to_string(), "by the sea".to_string()]
    );
    assert_eq!(log.loaded_memory[1].0, "pet");
    assert_eq!(log.loaded_memory[1].1, vec!["a cat".to_string()]);
}

#[test]
fn set_embeddings_stores_vectors_on_the_turn() {
    let mut log = ChatLog::new();
    log.push(ChatLogItem::new_from_str("A".to_string(), "one"));
    log.set_embeddings(0, vec![vec![7, 8]]);
    assert_eq!(log.get(0).unwrap().embeddings, vec![vec![7, 8]]);
}

#[test]
fn from_parts_keeps_the_given_turns() {
    let items = vec![ChatLogItem::new_from_str("A".to_string(), "x")];
    let log = ChatLog::from_parts(
        Some("a user".to_string()),
        None,
        None,
        "ctx".to_string(),
        items,
    );
    assert_eq!(log.len(), 1);
    assert_eq!(log.user_description.as_deref(), Some("a user"));
    assert_eq!(log.current_context, "ctx");
    assert!(log.get_last_used_filepath().is_none());
}

#[test]
fn turns_compare_by_their_lines_alone() {
    let a = ChatLogItem::new_from_str("Alice".to_string(), "same\ntext");
    let mut b = ChatLogItem::new_from_str("Bob".to_string(), "same\ntext");
    b.embeddings.push(vec![1, 2]);
    assert!(a == b);
    let c = ChatLogItem::new_from_str("Alice".to_string(), "other");
    assert!(a != c);
}

#[test]
fn default_configuration_values() {
    let cfg = sentinel_core::config::ConfigurationFile::default();
    assert_eq!(cfg.display_name, "USER");
    assert!(cfg.stop_on_display_name);
    assert_eq!(cfg.use_gpu, Some(false));
    assert_eq!(cfg.thread_count, Some(8));
    assert_eq!(cfg.batch_size, Some(512));
    assert!(cfg.models.is_empty());
}
