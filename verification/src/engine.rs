//! The inference worker's decision logic: the request and response types,
//! the engine state with its model hot-swap rule, the construction of the
//! local sampler invocation and of the remote generation request, and the
//! interpretation of whatever the backend returned.
//!
//! The worker runs outside the library as a plain loop over two bounded
//! queues; every decision it takes is a call into this module.

use vstd::prelude::*;
use crate::chatlog::ChatLog;
use crate::config::{
    CharacterFileYaml, ConfigurationFile, ConfiguredLlm, ConfiguredParameters, model_matches,
};
use crate::prompt::{
    spec_assemble, assemble_prompt, DEFAULT_MAX_NEW_TOKENS, DEFAULT_TEXT_TO_TOKEN_RATIO_TENTHS,
};
use crate::sampler::{SamplerSettings, resolve_sampler, spec_resolve_sampler};
use crate::text::{eq_ignore_case, eq_ignore_ascii_case_str, str_eq, spec_join};
use crate::trim::{spec_trim_stop, trim_at_stop_names};

verus! {

/// Batch size for local inference when none is configured.
pub const DEFAULT_BATCH_SIZE: usize = 8;

/// Thread count for local inference when none is configured.
pub const DEFAULT_THREAD_COUNT: usize = 8;

/// Everything one text-generation request carries.
#[derive(Debug)]
pub struct TextInferenceContext {
    /// The character who speaks the reply being generated.
    pub character: CharacterFileYaml,
    /// Name of a model configuration to use instead of the default.
    pub model_config_override: Option<String>,
    /// The character who owns the conversation log.
    pub chatlog_owner: CharacterFileYaml,
    /// The other participants, each with an optional model override.
    pub other_participants: Vec<(CharacterFileYaml, Option<String>)>,
    /// The conversation to build the prompt from.
    pub chatlog: ChatLog,
    /// Continue the newest turn instead of opening a new one.
    pub should_continue: bool,
    /// The sampling hyperparameters for this request.
    pub parameters: ConfiguredParameters,
}

/// A message into the worker.
#[derive(Debug)]
pub enum LlmEngineRequest {
    /// Generate text for the given context.
    TextInference(TextInferenceContext),
    /// Stop the worker; no further request is served.
    ImmediateShutdown,
}

/// A message out of the worker.
#[derive(Debug)]
pub enum LlmEngineResponse {
    /// The generated text (absent on a failed generation) and the context
    /// the request carried, echoed back.
    NewText(Option<String>, TextInferenceContext),
    /// Emitted exactly once at start-up as the readiness signal.
    ModelLoaded,
}

/// Options a local model is loaded with.
#[derive(Clone, Copy, Debug, PartialEq, Eq, Structural)]
pub struct LocalModelOptions {
    pub context_size: usize,
    pub seed: i32,
    pub n_gpu_layers: usize,
    pub n_batch: usize,
}

/// Options one local generation call is made with.
#[derive(Clone, Copy, Debug, PartialEq, Eq, Structural)]
pub struct LocalPredictSettings {
    /// Seed for this call; -1 asks the backend to pick one.
    pub seed: i32,
    pub batch: usize,
    pub threads: usize,
    /// Cap on the number of generated tokens.
    pub tokens: usize,
    pub sampler: SamplerSettings,
}

/// Relies on rand::thread_rng and rand::Rng::gen_range over `0..i32::MAX`:
/// a freshly drawn seed; nothing is assumed of it beyond its range.
#[verifier::external_body]
fn random_seed_below_max() -> (r: i32)
    ensures
        0 <= r < i32::MAX,
{
    rand::Rng::gen_range(&mut rand::thread_rng(), 0..i32::MAX)
}

/// The seed a model is loaded with: the configured one, or a fresh draw.
pub fn resolve_seed(config_seed: Option<i32>) -> (r: i32)
    ensures
        config_seed is Some ==> r == config_seed->0,
        config_seed is None ==> 0 <= r < i32::MAX,
{
    match config_seed {
        Some(s) => s,
        None => random_seed_below_max(),
    }
}

/// Builds the load options for a local model: the configured context
/// size, the configured or freshly drawn seed, GPU layers only when GPU
/// use is switched on, and the configured or default batch size.
pub fn build_model_options(model_config: &ConfiguredLlm, config: &ConfigurationFile) -> (r:
    LocalModelOptions)
    ensures
        r.context_size == model_config.context_size,
        model_config.seed is Some ==> r.seed == model_config.seed->0,
        model_config.seed is None ==> 0 <= r.seed < i32::MAX,
        r.n_gpu_layers == (if config.use_gpu == Some(true) {
            if model_config.gpu_layer_count is Some {
                model_config.gpu_layer_count->0
            } else {
                0
            }
        } else {
            0
        }),
        r.n_batch == (if config.batch_size is Some {
            config.batch_size->0
        } else {
            DEFAULT_BATCH_SIZE
        }),
{
    let seed = resolve_seed(model_config.seed);
    let use_gpu = match config.use_gpu {
        Some(b) => b,
        None => false,
    };
    let n_gpu_layers = if use_gpu {
        match model_config.gpu_layer_count {
            Some(n) => n,
            None => 0,
        }
    } else {
        0
    };
    let n_batch = match config.batch_size {
        Some(n) => n,
        None => DEFAULT_BATCH_SIZE,
    };
    LocalModelOptions { context_size: model_config.context_size, seed, n_gpu_layers, n_batch }
}

/// Builds the settings for one local generation call: the configured seed
/// or -1 (the backend then picks one), batch, threads and token cap from
/// the configuration or their defaults, and the resolved sampler.
pub fn build_predict_settings(model_config: &ConfiguredLlm, config: &ConfigurationFile, params: &ConfiguredParameters) -> (r:
    LocalPredictSettings)
    ensures
        r.seed == (if model_config.seed is Some {
            model_config.seed->0
        } else {
            -1i32
        }),
        r.batch == (if config.batch_size is Some {
            config.batch_size->0
        } else {
            DEFAULT_BATCH_SIZE
        }),
        r.threads == (if config.thread_count is Some {
            config.thread_count->0
        } else {
            DEFAULT_THREAD_COUNT
        }),
        r.tokens == (if config.maximum_new_tokens is Some {
            config.maximum_new_tokens->0
        } else {
            DEFAULT_MAX_NEW_TOKENS
        }),
        r.sampler == spec_resolve_sampler(*params),
{
    LocalPredictSettings {
        seed: match model_config.seed {
            Some(s) => s,
            None => -1,
        },
        batch: match config.batch_size {
            Some(n) => n,
            None => DEFAULT_BATCH_SIZE,
        },
        threads: match config.thread_count {
            Some(n) => n,
            None => DEFAULT_THREAD_COUNT,
        },
        tokens: match config.maximum_new_tokens {
            Some(n) => n,
            None => DEFAULT_MAX_NEW_TOKENS,
        },
        sampler: resolve_sampler(params),
    }
}

/// The participant names whose `"{name}:"` tags end a reply: the user's
/// display name, the speaking character, the conversation owner when its
/// name differs from the speaker's (ignoring ASCII case), and every other
/// participant.
pub open spec fn spec_participant_names(ctx: TextInferenceContext, cfg: ConfigurationFile) -> Seq<
    Seq<char>,
> {
    seq![cfg.display_name@, ctx.character.name@] + (if eq_ignore_case(
        ctx.character.name@,
        ctx.chatlog_owner.name@,
    ) {
        Seq::<Seq<char>>::empty()
    } else {
        seq![ctx.chatlog_owner.name@]
    }) + ctx.other_participants@.map_values(
        |p: (CharacterFileYaml, Option<String>)| p.0.name@,
    )
}

/// Collects the participant names for stop handling.
pub fn build_participant_names(ctx: &TextInferenceContext, config: &ConfigurationFile) -> (r: Vec<
    String,
>)
    ensures
        r@.map_values(|x: String| x@) == spec_participant_names(*ctx, *config),
{
    let ghost goal = spec_participant_names(*ctx, *config);
    let mut names: Vec<String> = Vec::new();
    names.push(config.display_name.clone());
    names.push(ctx.character.name.clone());
    if !eq_ignore_ascii_case_str(
        ctx.character.name.as_str(),
        ctx.chatlog_owner.name.as_str(),
    ) {
        names.push(ctx.chatlog_owner.name.clone());
    }
    let ghost base = names@.map_values(|x: String| x@);
    let mut i: usize = 0;
    while i < ctx.other_participants.len()
        invariant
            base == names@.map_values(|x: String| x@).take(base.len() as int),
            names@.len() == base.len() + i,
            i <= ctx.other_participants@.len(),
            names@.map_values(|x: String| x@) =~= base + ctx.other_participants@.map_values(
                |p: (CharacterFileYaml, Option<String>)| p.0.name@,
            ).take(i as int),
        decreases ctx.other_participants@.len() - i,
    {
        let ghost old_views = names@.map_values(|x: String| x@);
        names.push(ctx.other_participants[i].0.name.clone());
        proof {
            let others = ctx.other_participants@.map_values(
                |p: (CharacterFileYaml, Option<String>)| p.0.name@,
            );
            assert(names@.map_values(|x: String| x@) =~= old_views.push(others[i as int]));
            assert(others.take(i + 1) =~= others.take(i as int).push(others[i as int]));
            assert(old_views.push(others[i as int]) =~= base + others.take(i + 1));
        }
        i += 1;
    }
    proof {
        let others = ctx.other_participants@.map_values(
            |p: (CharacterFileYaml, Option<String>)| p.0.name@,
        );
        assert(others.take(others.len() as int) =~= others);
        assert(names@.map_values(|x: String| x@) =~= goal);
    }
    names
}

/// What the reply text looks like for a given backend outcome: a failed
/// generation stays a failure, and a successful one is stop-trimmed
/// exactly when the configuration asks for it.
pub open spec fn spec_response_text(
    raw: Option<Seq<char>>,
    trim_enabled: bool,
    names: Seq<Seq<char>>,
) -> Option<Seq<char>> {
    match raw {
        None => None,
        Some(t) => Some(
            if trim_enabled {
                spec_trim_stop(t, names)
            } else {
                t
            },
        ),
    }
}

/// Wraps a backend outcome into the one reply its request is owed: the
/// context is echoed back unchanged, a failure stays `None`, and
/// generated text is stop-trimmed when the configuration asks for it.
pub fn finish_inference(ctx: TextInferenceContext, raw: Option<String>, config: &ConfigurationFile) -> (r:
    LlmEngineResponse)
    ensures
        r matches LlmEngineResponse::NewText(t, c) && c == ctx && (match (t, raw) {
            (Some(tt), Some(rr)) => tt@ == spec_response_text(
                Some(rr@),
                config.stop_on_display_name,
                spec_participant_names(ctx, *config),
            )->0,
            (None, None) => true,
            _ => false,
        }),
{
    let text = match raw {
        None => None,
        Some(t) => {
            if config.stop_on_display_name {
                let names = build_participant_names(&ctx, config);
                Some(trim_at_stop_names(t.as_str(), &names))
            } else {
                Some(t)
            }
        },
    };
    LlmEngineResponse::NewText(text, ctx)
}

/// The context a request carries; meaningless for a shutdown request.
pub open spec fn req_context(r: LlmEngineRequest) -> TextInferenceContext {
    match r {
        LlmEngineRequest::TextInference(c) => c,
        LlmEngineRequest::ImmediateShutdown => arbitrary(),
    }
}

/// The worker transcript: requests served strictly one after the other,
/// each text-inference request answered by exactly one reply pairing the
/// response text for its backend outcome with its own context; a
/// shutdown request ends the transcript.
pub open spec fn spec_worker_outputs(
    reqs: Seq<LlmEngineRequest>,
    raws: Seq<Option<Seq<char>>>,
    cfg: ConfigurationFile,
) -> Seq<(Option<Seq<char>>, TextInferenceContext)>
    decreases reqs.len(),
{
    if reqs.len() == 0 {
        Seq::empty()
    } else {
        match reqs[0] {
            LlmEngineRequest::ImmediateShutdown => Seq::empty(),
            LlmEngineRequest::TextInference(ctx) => seq![
                (
                    spec_response_text(
                        raws[0],
                        cfg.stop_on_display_name,
                        spec_participant_names(ctx, cfg),
                    ),
                    ctx,
                ),
            ] + spec_worker_outputs(reqs.skip(1), raws.skip(1), cfg),
        }
    }
}

/// Exclusivity: a sequence of N text-inference requests yields exactly N
/// replies, in submission order, the i-th reply echoing the i-th
/// request's context and carrying the response text for the i-th backend
/// outcome.  The transcript is a fold of single steps, so no two
/// inferences overlap.
pub proof fn lemma_worker_exclusivity(
    reqs: Seq<LlmEngineRequest>,
    raws: Seq<Option<Seq<char>>>,
    cfg: ConfigurationFile,
)
    requires
        raws.len() >= reqs.len(),
        forall|i: int| 0 <= i < reqs.len() ==> reqs[i] is TextInference,
    ensures
        spec_worker_outputs(reqs, raws, cfg).len() == reqs.len(),
        forall|i: int|
            0 <= i < reqs.len() ==> #[trigger] spec_worker_outputs(reqs, raws, cfg)[i] == (
                spec_response_text(
                    raws[i],
                    cfg.stop_on_display_name,
                    spec_participant_names(req_context(reqs[i]), cfg),
                ),
                req_context(reqs[i]),
            ),
    decreases reqs.len(),
{
    if reqs.len() > 0 {
        assert(reqs[0] is TextInference);
        assert(forall|i: int| 0 <= i < reqs.skip(1).len() ==> reqs.skip(1)[i] is TextInference);
        lemma_worker_exclusivity(reqs.skip(1), raws.skip(1), cfg);
        assert forall|i: int| 0 <= i < reqs.len() implies #[trigger] spec_worker_outputs(
            reqs,
            raws,
            cfg,
        )[i] == (
            spec_response_text(
                raws[i],
                cfg.stop_on_display_name,
                spec_participant_names(req_context(reqs[i]), cfg),
            ),
            req_context(reqs[i]),
        ) by {
            if i > 0 {
                assert(reqs.skip(1)[i - 1] == reqs[i]);
                assert(raws.skip(1)[i - 1] == raws[i]);
                assert(spec_worker_outputs(reqs.skip(1), raws.skip(1), cfg)[i - 1] == (
                    spec_response_text(
                        raws.skip(1)[i - 1],
                        cfg.stop_on_display_name,
                        spec_participant_names(req_context(reqs.skip(1)[i - 1]), cfg),
                    ),
                    req_context(reqs.skip(1)[i - 1]),
                ));
            }
        }
    }
}

/// The remote generation request body, as the generation API's
/// `generate` endpoint takes it.  Fractional fields are thousandths.
#[derive(Debug)]
pub struct TextgenRemoteRequestKobold {
    pub prompt: String,
    /// Cap on the tokens sent to the model.
    pub max_context_length: Option<usize>,
    /// Cap on the tokens generated.
    pub max_length: Option<usize>,
    pub rep_pen: Option<u32>,
    pub rep_pen_range: Option<usize>,
    pub sampler_seed: Option<i64>,
    pub temperature: Option<u32>,
    pub top_k: Option<usize>,
    pub top_p: Option<u32>,
    pub min_p: Option<u32>,
    pub typical: Option<u32>,
    pub mirostat: Option<usize>,
    pub mirostat_tau: Option<u32>,
    pub mirostat_eta: Option<u32>,
    pub trim_stop: Option<bool>,
    pub stop_sequence: Option<Vec<String>>,
}

/// One result entry in the remote generation response body.
#[derive(Debug)]
pub struct TextgenResponseBodyResultKobold {
    pub text: String,
}

/// The remote generation response body.
#[derive(Debug)]
pub struct TextgenResponseBodyKobold {
    pub results: Vec<TextgenResponseBodyResultKobold>,
}

/// The participant names as remote stop sequences: each followed by a
/// colon and a space.
pub open spec fn spec_remote_stop_names(ctx: TextInferenceContext, cfg: ConfigurationFile) -> Seq<
    Seq<char>,
> {
    spec_participant_names(ctx, cfg).map_values(|n: Seq<char>| n + seq![':', ' '])
}

/// Builds the remote generation request for a prompt.  The sampler
/// fields mirror the configured bundle, with the mirostat exclusivity
/// rule applied: adaptive mode 1 or 2 pins the classical knobs to their
/// neutral values.  Stop sequences are sent exactly when stop-on-name
/// handling is enabled.
pub fn build_remote_request(
    prompt: String,
    model_config: &ConfiguredLlm,
    config: &ConfigurationFile,
    ctx: &TextInferenceContext,
) -> (r: TextgenRemoteRequestKobold)
    ensures
        r.prompt == prompt,
        r.max_context_length == Some(model_config.context_size),
        r.max_length == config.maximum_new_tokens,
        r.rep_pen == ctx.parameters.repeat_penalty,
        r.rep_pen_range == ctx.parameters.repeat_penalty_range,
        r.sampler_seed is None,
        r.typical is None,
        r.trim_stop == Some(true),
        ctx.parameters.mirostat == Some(1usize) || ctx.parameters.mirostat == Some(2usize)
            ==> r.top_k == Some(0usize) && r.top_p == Some(1000u32) && r.min_p == Some(0u32)
            && r.temperature == Some(1000u32) && r.mirostat == ctx.parameters.mirostat
            && r.mirostat_tau == ctx.parameters.mirostat_tau && r.mirostat_eta
            == ctx.parameters.mirostat_eta,
        !(ctx.parameters.mirostat == Some(1usize) || ctx.parameters.mirostat == Some(2usize))
            ==> r.top_k == ctx.parameters.top_k && r.top_p == ctx.parameters.top_p && r.min_p
            == ctx.parameters.min_p && r.temperature == ctx.parameters.temperature
            && r.mirostat == ctx.parameters.mirostat && r.mirostat_tau
            == ctx.parameters.mirostat_tau && r.mirostat_eta == ctx.parameters.mirostat_eta,
        config.stop_on_display_name ==> (r.stop_sequence matches Some(v) && v@.map_values(
            |x: String| x@,
        ) == spec_remote_stop_names(*ctx, *config)),
        !config.stop_on_display_name ==> r.stop_sequence is None,
{
    let mirostat_active = match ctx.parameters.mirostat {
        Some(m) => m == 1 || m == 2,
        None => false,
    };
    let (top_k, top_p, min_p, temperature) = if mirostat_active {
        (Some(0), Some(1000), Some(0), Some(1000))
    } else {
        (ctx.parameters.top_k, ctx.parameters.top_p, ctx.parameters.min_p, ctx.parameters.temperature)
    };
    let stop_sequence = if config.stop_on_display_name {
        let names = build_participant_names(ctx, config);
        let mut seqs: Vec<String> = Vec::new();
        let mut i: usize = 0;
        while i < names.len()
            invariant
                i <= names@.len(),
                seqs@.map_values(|x: String| x@) =~= names@.map_values(|x: String| x@).take(
                    i as int,
                ).map_values(|n: Seq<char>| n + seq![':', ' ']),
            decreases names@.len() - i,
        {
            let ghost old_views = seqs@.map_values(|x: String| x@);
            let mut s = names[i].clone();
            s.append(": ");
            proof {
                reveal_strlit(": ");
                assert(s@ =~= names@.map_values(|x: String| x@)[i as int] + seq![':', ' ']);
            }
            let ghost s_view = s@;
            seqs.push(s);
            proof {
                let nviews = names@.map_values(|x: String| x@);
                assert(seqs@.map_values(|x: String| x@) =~= old_views.push(s_view));
                assert(nviews.take(i + 1) =~= nviews.take(i as int).push(nviews[i as int]));
                assert(nviews.take(i + 1).map_values(|n: Seq<char>| n + seq![':', ' '])
                    =~= nviews.take(i as int).map_values(|n: Seq<char>| n + seq![':', ' ']).push(
                    nviews[i as int] + seq![':', ' '],
                ));
            }
            i += 1;
        }
        proof {
            let nviews = names@.map_values(|x: String| x@);
            assert(nviews.take(nviews.len() as int) =~= nviews);
        }
        Some(seqs)
    } else {
        None
    };
    TextgenRemoteRequestKobold {
        prompt,
        max_context_length: Some(model_config.context_size),
        max_length: config.maximum_new_tokens,
        rep_pen: ctx.parameters.repeat_penalty,
        rep_pen_range: ctx.parameters.repeat_penalty_range,
        sampler_seed: None,
        temperature,
        top_k,
        top_p,
        min_p,
        typical: None,
        mirostat: ctx.parameters.mirostat,
        mirostat_tau: ctx.parameters.mirostat_tau,
        mirostat_eta: ctx.parameters.mirostat_eta,
        trim_stop: Some(true),
        stop_sequence,
    }
}

/// Why the worker could not start.
#[derive(Clone, Copy, Debug, PartialEq, Eq, Structural)]
pub enum EngineError {
    /// The requested model name matches no configured model.
    ModelConfigurationNotFound,
}

impl EngineError {
    /// A human-readable description of the error.
    pub fn message(&self) -> (r: &'static str)
        ensures
            r@ == "the requested model was not found in the configuration"@,
    {
        "the requested model was not found in the configuration"
    }
}

/// What a model-swap decision asks the worker's runtime to do.
#[derive(Debug)]
pub enum SwapDecision {
    /// The active model already serves the request.
    Keep,
    /// Release the active model and load this configuration (a local one
    /// when it carries a path).
    Load(ConfiguredLlm),
    /// The request names a configuration that does not exist; the worker
    /// keeps the previously active model and serves with it.
    MissingConfiguration,
}

/// Which configuration name a request makes active: an override that
/// differs from the active name wins; with no override, an earlier
/// override is reverted to the default.
pub open spec fn spec_swap_target(
    active_name: Seq<char>,
    default_name: Seq<char>,
    override_name: Option<Seq<char>>,
) -> Option<Seq<char>> {
    match override_name {
        Some(o) => if o != active_name {
            Some(o)
        } else {
            None
        },
        None => if active_name != default_name {
            Some(default_name)
        } else {
            None
        },
    }
}

/// The state the worker owns exclusively: the configuration, the active
/// and default model configurations, and whether a local model is
/// currently loaded.
#[derive(Debug)]
pub struct EngineState {
    /// The application configuration.
    pub config: ConfigurationFile,
    /// The currently active model configuration.
    pub model_config: ConfiguredLlm,
    /// The default model configuration chosen at start-up.
    pub default_model_config: ConfiguredLlm,
    /// Whether a local model is loaded right now.
    pub model_loaded: bool,
}

impl EngineState {
    /// Resolves the requested default model and builds the start-up
    /// state.  Failing to find the model is fatal for the worker: there
    /// is no model to serve with.
    pub fn new(config: ConfigurationFile, model_fileorname: &str) -> (r: Result<
        EngineState,
        EngineError,
    >)
        ensures
            match r {
                Ok(st) => st.config == config && st.default_model_config == st.model_config
                    && !st.model_loaded && exists|i: int|
                    0 <= i < config.models@.len() && st.model_config == config.models@[i]
                        && model_matches(st.model_config, model_fileorname@) && forall|j: int|
                        0 <= j < i ==> !model_matches(config.models@[j], model_fileorname@),
                Err(e) => e is ModelConfigurationNotFound && forall|j: int|
                    0 <= j < config.models@.len() ==> !model_matches(
                        config.models@[j],
                        model_fileorname@,
                    ),
            },
    {
        match config.find_model_configuration(model_fileorname) {
            Some(m) => {
                let default_copy = m.clone();
                Ok(
                    EngineState {
                        config,
                        model_config: m,
                        default_model_config: default_copy,
                        model_loaded: false,
                    },
                )
            },
            None => Err(EngineError::ModelConfigurationNotFound),
        }
    }

    /// Records whether a local model is loaded.
    pub fn mark_model_loaded(&mut self, loaded: bool)
        ensures
            final(self).model_loaded == loaded,
            final(self).config == old(self).config,
            final(self).model_config == old(self).model_config,
            final(self).default_model_config == old(self).default_model_config,
    {
        self.model_loaded = loaded;
    }

    /// Decides whether this request needs another model.  A request that
    /// names the active configuration, or names nothing while the default
    /// is active, keeps the active model.  A name that resolves becomes
    /// the active configuration, to be loaded after the old model is
    /// released; a name that resolves to nothing keeps the previously
    /// active model, as a request-time configuration error.
    pub fn prepare_swap(&mut self, override_name: &Option<String>) -> (r: SwapDecision)
        ensures
            ({
                let target = spec_swap_target(
                    old(self).model_config.name@,
                    old(self).default_model_config.name@,
                    match override_name {
                        Some(o) => Some(o@),
                        None => None,
                    },
                );
                match target {
                    None => r is Keep && *final(self) == *old(self),
                    Some(t) => {
                        if exists|i: int|
                            0 <= i < old(self).config.models@.len() && model_matches(
                                old(self).config.models@[i],
                                t,
                            ) {
                            (r matches SwapDecision::Load(cfg) && final(self).model_config
                                == cfg && !final(self).model_loaded && final(self).config == old(
                                self,
                            ).config && final(self).default_model_config == old(
                                self,
                            ).default_model_config && exists|i: int|
                                0 <= i < old(self).config.models@.len() && cfg == old(
                                    self,
                                ).config.models@[i] && model_matches(cfg, t) && forall|j: int|
                                    0 <= j < i ==> !model_matches(
                                        old(self).config.models@[j],
                                        t,
                                    ))
                        } else {
                            r is MissingConfiguration && *final(self) == *old(self)
                        }
                    },
                }
            }),
    {
        let target: Option<&String> = match override_name {
            Some(o) => {
                if !str_eq(o.as_str(), self.model_config.name.as_str()) {
                    Some(o)
                } else {
                    None
                }
            },
            None => {
                if !str_eq(
                    self.model_config.name.as_str(),
                    self.default_model_config.name.as_str(),
                ) {
                    Some(&self.default_model_config.name)
                } else {
                    None
                }
            },
        };
        match target {
            None => SwapDecision::Keep,
            Some(t) => {
                match self.config.find_model_configuration(t.as_str()) {
                    Some(m) => {
                        let for_state = m.clone();
                        self.model_config = for_state;
                        self.model_loaded = false;
                        SwapDecision::Load(m)
                    },
                    None => SwapDecision::MissingConfiguration,
                }
            },
        }
    }

    /// Assembles the prompt for a request against the active model's
    /// template, resolving the configured ratio, token cap and user
    /// description.
    pub fn create_prompt_for_chat_input(
        &self,
        ctx: &TextInferenceContext,
        augmenter: bool,
        similar_matches: &Vec<String>,
    ) -> (r: String)
        ensures
            r@ == spec_assemble(
                self.model_config.prompt_instruct_template@,
                ctx.character.description@,
                ctx.chatlog.current_context@,
                match ctx.chatlog.user_description {
                    Some(u) => Some(u@),
                    None => None,
                },
                augmenter,
                spec_join(similar_matches@.map_values(|x: String| x@), seq!['\n']),
                ctx.character.name@,
                self.config.display_name@,
                ctx.chatlog@,
                ctx.should_continue,
                self.model_config.context_size as nat,
                (if self.config.maximum_new_tokens is Some {
                    self.config.maximum_new_tokens->0
                } else {
                    DEFAULT_MAX_NEW_TOKENS
                }) as nat,
                (if self.config.text_to_token_ratio_prediction is Some {
                    self.config.text_to_token_ratio_prediction->0
                } else {
                    DEFAULT_TEXT_TO_TOKEN_RATIO_TENTHS
                }) as nat,
            ),
    {
        let max_new = match self.config.maximum_new_tokens {
            Some(n) => n,
            None => DEFAULT_MAX_NEW_TOKENS,
        };
        let ratio = match self.config.text_to_token_ratio_prediction {
            Some(n) => n,
            None => DEFAULT_TEXT_TO_TOKEN_RATIO_TENTHS,
        };
        assemble_prompt(
            self.model_config.prompt_instruct_template.as_str(),
            ctx.character.description.as_str(),
            ctx.chatlog.current_context.as_str(),
            ctx.chatlog.user_description.as_ref(),
            augmenter,
            similar_matches,
            ctx.character.name.as_str(),
            self.config.display_name.as_str(),
            &ctx.chatlog,
            ctx.should_continue,
            self.model_config.context_size,
            max_new,
            ratio,
        )
    }
}

/// Reads the generated text out of a remote response body: an empty
/// result list is a failed generation, anything else yields the first
/// result's text.
pub fn extract_generation(body: &TextgenResponseBodyKobold) -> (r: Option<String>)
    ensures
        body.results@.len() == 0 ==> r is None,
        body.results@.len() > 0 ==> (r matches Some(t) && t@ == body.results@[0].text@),
{
    if body.results.len() == 0 {
        None
    } else {
        Some(body.results[0].text.clone())
    }
}

} // verus!
