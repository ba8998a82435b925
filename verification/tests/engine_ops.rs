use sentinel_core::chatlog::ChatLog;
use sentinel_core::config::{
    CharacterFileYaml, ConfigurationFile, ConfiguredLlm, ConfiguredParameters,
};
use sentinel_core::engine::{
    build_model_options, build_predict_settings, build_remote_request, extract_generation,
    finish_inference, resolve_seed, EngineState, LlmEngineResponse, SwapDecision,
    TextInferenceContext, TextgenResponseBodyKobold, TextgenResponseBodyResultKobold,
};
use sentinel_core::sampler::resolve_sampler;
use sentinel_core::trim::trim_at_stop_names;

fn params(name: &str) -> ConfiguredParameters {
    ConfiguredParameters {
        name: name.to_string(),
        top_k: None,
        top_p: None,
        min_p: None,
        repeat_penalty: None,
        repeat_penalty_range: None,
        temperature: None,
        mirostat: None,
        mirostat_eta: None,
        mirostat_tau: None,
    }
}

fn model(name: &str, path: Option<&str>, remote: Option<&str>) -> ConfiguredLlm {
    ConfiguredLlm {
        name: name.to_string(),
        path: path.map(|p| p.to_string()),
        remote_server: remote.map(|r| r.to_string()),
        remote_timeout_s: None,
        context_size: 2048,
        similar_sentence_count: None,
        gpu_layer_count: None,
        seed: None,
        prompt_instruct_template: "<|chat_history|>".to_string(),
    }
}

fn config_with(models: Vec<ConfiguredLlm>) -> ConfigurationFile {
    ConfigurationFile {
        version: 1,
        display_name: "User".to_string(),
        display_name_rgb: None,
        quotes_rgb: None,
        text_rgb: None,
        progress_primary_rgb: None,
        progress_secondary_rgb: None,
        chat_text_justification: None,
        add_visual_buffer_between_chatlog_items: None,
        stop_on_display_name: true,
        text_to_token_ratio_prediction: None,
        maximum_new_tokens: None,
        use_gpu: None,
        thread_count: None,
        batch_size: None,
        parameters: Vec::new(),
        models,
        embedding_model: None,
    }
}

fn character(name: &str) -> CharacterFileYaml {
    CharacterFileYaml {
        name: name.to_string(),
        name_rgb: None,
        quotes_rgb: None,
        text_rgb: None,
        description: String::new(),
        greeting: String::new(),
        context: String::new(),
    }
}

fn context_for(speaker: &str, owner: &str) -> TextInferenceContext {
    TextInferenceContext {
        character: character(speaker),
        model_config_override: None,
        chatlog_owner: character(owner),
        other_participants: Vec::new(),
        chatlog: ChatLog::new(),
        should_continue: false,
        parameters: params("default"),
    }
}

#[test]
fn mirostat_disables_classical_knobs() {
    let mut p = params("m");
    p.mirostat = Some(2);
    p.top_k = Some(99);
    p.top_p = Some(123);
    p.min_p = Some(456);
    p.temperature = Some(700);
    p.mirostat_tau = Some(4000);
    let s = resolve_sampler(&p);
    assert_eq!(s.top_k, 0);
    assert_eq!(s.top_p, 1000);
    assert_eq!(s.min_p, 0);
    assert_eq!(s.temperature, 1000);
    assert_eq!(s.mirostat, 2);
    assert_eq!(s.mirostat_tau, 4000);
}

#[test]
fn classical_knobs_pass_through_without_mirostat() {
    let mut p = params("c");
    p.top_k = Some(50);
    p.top_p = Some(900);
    p.temperature = Some(650);
    let s = resolve_sampler(&p);
    assert_eq!(s.top_k, 50);
    assert_eq!(s.top_p, 900);
    assert_eq!(s.temperature, 650);
    assert_eq!(s.mirostat, 0);
}

#[test]
fn unknown_mirostat_value_falls_back_to_baselines() {
    let mut p = params("x");
    p.mirostat = Some(3);
    p.top_k = Some(50);
    let s = resolve_sampler(&p);
    assert_eq!(s.mirostat, 0);
    // the configured top_k is not applied in this branch
    assert_eq!(s.top_k, 40);
}

#[test]
fn resolve_seed_uses_configuration_or_draws_in_range() {
    assert_eq!(resolve_seed(Some(7)), 7);
    let drawn = resolve_seed(None);
    assert!(drawn >= 0 && drawn < i32::MAX);
}

#[test]
fn model_options_respect_gpu_switch() {
    let mut m = model("local", Some("weights.bin"), None);
    m.gpu_layer_count = Some(20);
    m.seed = Some(5);
    let mut cfg = config_with(vec![]);
    cfg.use_gpu = Some(false);
    let opts = build_model_options(&m, &cfg);
    assert_eq!(opts.n_gpu_layers, 0);
    assert_eq!(opts.seed, 5);
    assert_eq!(opts.context_size, 2048);
    assert_eq!(opts.n_batch, 8);
    cfg.use_gpu = Some(true);
    cfg.batch_size = Some(512);
    let opts2 = build_model_options(&m, &cfg);
    assert_eq!(opts2.n_gpu_layers, 20);
    assert_eq!(opts2.n_batch, 512);
}

#[test]
fn predict_settings_use_configured_caps() {
    let m = model("local", Some("weights.bin"), None);
    let mut cfg = config_with(vec![]);
    cfg.maximum_new_tokens = Some(300);
    cfg.thread_count = Some(4);
    let s = build_predict_settings(&m, &cfg, &params("p"));
    assert_eq!(s.seed, -1);
    assert_eq!(s.tokens, 300);
    assert_eq!(s.threads, 4);
    assert_eq!(s.batch, 8);
}

#[test]
fn engine_state_resolves_the_default_model() {
    let cfg = config_with(vec![
        model("first", None, Some("http://localhost:5001")),
        model("second", Some("weights.bin"), None),
    ]);
    let st = EngineState::new(cfg, "SECOND").unwrap();
    assert_eq!(st.model_config.name, "second");
    assert_eq!(st.default_model_config.name, "second");
    assert!(!st.model_loaded);
}

#[test]
fn engine_state_matches_models_by_path_too() {
    let cfg = config_with(vec![model("m", Some("weights.bin"), None)]);
    let st = EngineState::new(cfg, "WEIGHTS.BIN").unwrap();
    assert_eq!(st.model_config.name, "m");
}

#[test]
fn engine_state_start_fails_without_a_match() {
    let cfg = config_with(vec![model("only", None, None)]);
    let err = EngineState::new(cfg, "missing").unwrap_err();
    assert!(!err.message().is_empty());
}

#[test]
fn swap_keeps_the_active_model_without_an_override() {
    let cfg = config_with(vec![model("a", None, None), model("b", None, None)]);
    let mut st = EngineState::new(cfg, "a").unwrap();
    match st.prepare_swap(&None) {
        SwapDecision::Keep => {}
        _ => panic!("expected to keep the active model"),
    }
    assert_eq!(st.model_config.name, "a");
}

#[test]
fn swap_loads_an_overridden_model() {
    let cfg = config_with(vec![model("a", None, None), model("b", None, None)]);
    let mut st = EngineState::new(cfg, "a").unwrap();
    match st.prepare_swap(&Some("b".to_string())) {
        SwapDecision::Load(m) => assert_eq!(m.name, "b"),
        _ => panic!("expected a load decision"),
    }
    assert_eq!(st.model_config.name, "b");
    assert!(!st.model_loaded);
}

#[test]
fn swap_reverts_to_the_default_after_an_override() {
    let cfg = config_with(vec![model("a", None, None), model("b", None, None)]);
    let mut st = EngineState::new(cfg, "a").unwrap();
    st.prepare_swap(&Some("b".to_string()));
    match st.prepare_swap(&None) {
        SwapDecision::Load(m) => assert_eq!(m.name, "a"),
        _ => panic!("expected a load decision back to the default"),
    }
}

#[test]
fn swap_to_a_missing_name_keeps_the_active_model() {
    let cfg = config_with(vec![model("a", None, None)]);
    let mut st = EngineState::new(cfg, "a").unwrap();
    match st.prepare_swap(&Some("ghost".to_string())) {
        SwapDecision::MissingConfiguration => {}
        _ => panic!("expected a missing-configuration outcome"),
    }
    assert_eq!(st.model_config.name, "a");
}

#[test]
fn remote_request_carries_prompt_caps_and_stop_sequences() {
    let m = model("r", None, Some("http://localhost:5001"));
    let mut cfg = config_with(vec![]);
    cfg.maximum_new_tokens = Some(120);
    let mut ctx = context_for("Alice", "Alice");
    ctx.other_participants.push((character("Bob"), None));
    let req = build_remote_request("PROMPT".to_string(), &m, &cfg, &ctx);
    assert_eq!(req.prompt, "PROMPT");
    assert_eq!(req.max_context_length, Some(2048));
    assert_eq!(req.max_length, Some(120));
    assert_eq!(req.trim_stop, Some(true));
    assert_eq!(
        req.stop_sequence,
        Some(vec!["User: ".to_string(), "Alice: ".to_string(), "Bob: ".to_string()])
    );
}

#[test]
fn remote_request_includes_owner_when_different() {
    let m = model("r", None, Some("http://localhost:5001"));
    let cfg = config_with(vec![]);
    let ctx = context_for("Alice", "Eve");
    let req = build_remote_request("p".to_string(), &m, &cfg, &ctx);
    assert_eq!(
        req.stop_sequence,
        Some(vec!["User: ".to_string(), "Alice: ".to_string(), "Eve: ".to_string()])
    );
}

#[test]
fn remote_request_applies_mirostat_exclusivity() {
    let m = model("r", None, Some("http://localhost:5001"));
    let cfg = config_with(vec![]);
    let mut ctx = context_for("Alice", "Alice");
    ctx.parameters.mirostat = Some(1);
    ctx.parameters.top_k = Some(77);
    ctx.parameters.temperature = Some(650);
    let req = build_remote_request("p".to_string(), &m, &cfg, &ctx);
    assert_eq!(req.top_k, Some(0));
    assert_eq!(req.top_p, Some(1000));
    assert_eq!(req.min_p, Some(0));
    assert_eq!(req.temperature, Some(1000));
    assert_eq!(req.mirostat, Some(1));
}

#[test]
fn remote_request_omits_stop_sequences_when_disabled() {
    let m = model("r", None, Some("http://localhost:5001"));
    let mut cfg = config_with(vec![]);
    cfg.stop_on_display_name = false;
    let ctx = context_for("Alice", "Alice");
    let req = build_remote_request("p".to_string(), &m, &cfg, &ctx);
    assert!(req.stop_sequence.is_none());
}

#[test]
fn empty_remote_result_is_a_failed_generation() {
    let body = TextgenResponseBodyKobold { results: Vec::new() };
    assert!(extract_generation(&body).is_none());
    let body2 = TextgenResponseBodyKobold {
        results: vec![TextgenResponseBodyResultKobold { text: "out".to_string() }],
    };
    assert_eq!(extract_generation(&body2), Some("out".to_string()));
}

#[test]
fn finish_inference_echoes_context_and_trims() {
    let cfg = config_with(vec![]);
    let ctx = context_for("Alice", "Alice");
    let resp = finish_inference(ctx, Some("fine.\nUser: and you?".to_string()), &cfg);
    match resp {
        LlmEngineResponse::NewText(text, echoed) => {
            assert_eq!(text, Some("fine.\n".to_string()));
            assert_eq!(echoed.character.name, "Alice");
        }
        _ => panic!("expected a new-text response"),
    }
}

#[test]
fn finish_inference_keeps_failures_as_none() {
    let cfg = config_with(vec![]);
    let ctx = context_for("Alice", "Alice");
    match finish_inference(ctx, None, &cfg) {
        LlmEngineResponse::NewText(text, _) => assert!(text.is_none()),
        _ => panic!("expected a new-text response"),
    }
}

#[test]
fn finish_inference_skips_trimming_when_disabled() {
    let mut cfg = config_with(vec![]);
    cfg.stop_on_display_name = false;
    let ctx = context_for("Alice", "Alice");
    match finish_inference(ctx, Some("User: kept".to_string()), &cfg) {
        LlmEngineResponse::NewText(text, _) => {
            assert_eq!(text, Some("User: kept".to_string()))
        }
        _ => panic!("expected a new-text response"),
    }
}

#[test]
fn trim_cuts_at_the_earliest_participant_tag() {
    let names = vec!["User".to_string(), "Alice".to_string()];
    let trimmed = trim_at_stop_names("well Alice: no User: yes", &names);
    assert_eq!(trimmed, "well ");
    let untouched = trim_at_stop_names("no tags here", &names);
    assert_eq!(untouched, "no tags here");
}

#[test]
fn trimming_twice_changes_nothing() {
    let names = vec!["User".to_string(), "Alice".to_string()];
    let once = trim_at_stop_names("say User: hi Alice: ho", &names);
    let twice = trim_at_stop_names(&once, &names);
    assert_eq!(once, twice);
    assert_eq!(once, "say ");
}
