//! Configuration data the engine reads: character files, model entries,
//! sampling hyperparameter sets and the application-wide settings.
//!
//! Fractional hyperparameters (probabilities, temperatures, penalties) are
//! held as integers in thousandths, and the text-to-token ratio in tenths,
//! so that every computation over them is exact.

use vstd::prelude::*;
use crate::text::{
    spec_replace, spec_lines, replace_all, split_lines, eq_ignore_case, eq_ignore_ascii_case_str,
};

verus! {

/// Version number for the configuration file format.
pub const CURRENT_VERSION: u16 = 1;

/// A character as loaded from its definition file: identity, colors for the
/// chat display, and the free-form texts the prompt assembler substitutes.
#[derive(Debug)]
pub struct CharacterFileYaml {
    /// The name of the character as it shows up in logs and prompts.
    pub name: String,
    /// Optional color for the character's name in the chat display.
    pub name_rgb: Option<[u8; 3]>,
    /// Optional color for quoted text from the character.
    pub quotes_rgb: Option<[u8; 3]>,
    /// Optional color for regular text from the character.
    pub text_rgb: Option<[u8; 3]>,
    /// Substituted for the character-description placeholder.
    pub description: String,
    /// The log lines used as the start of a fresh conversation.
    pub greeting: String,
    /// The starting scene context, copied into new logs.
    pub context: String,
}

impl Clone for CharacterFileYaml {
    fn clone(&self) -> (r: Self)
        ensures
            r == *self,
    {
        CharacterFileYaml {
            name: self.name.clone(),
            name_rgb: self.name_rgb,
            quotes_rgb: self.quotes_rgb,
            text_rgb: self.text_rgb,
            description: self.description.clone(),
            greeting: self.greeting.clone(),
            context: self.context.clone(),
        }
    }
}

impl CharacterFileYaml {
    /// A character with empty texts and no colors.
    pub fn new_empty() -> (r: Self)
        ensures
            r.name@ == Seq::<char>::empty(),
            r.description@ == Seq::<char>::empty(),
            r.greeting@ == Seq::<char>::empty(),
            r.context@ == Seq::<char>::empty(),
            r.name_rgb is None && r.quotes_rgb is None && r.text_rgb is None,
    {
        CharacterFileYaml {
            name: String::new(),
            name_rgb: None,
            quotes_rgb: None,
            text_rgb: None,
            description: String::new(),
            greeting: String::new(),
            context: String::new(),
        }
    }

    /// Replaces the character-name and user-name placeholders in `input`.
    pub fn process_string_templates(&self, user_name: &str, input: &String) -> (r: String)
        ensures
            r@ == spec_replace(
                spec_replace(input@, "<|character_name|>"@, self.name@),
                "<|user_name|>"@,
                user_name@,
            ),
    {
        proof {
            reveal_strlit("<|character_name|>");
            reveal_strlit("<|user_name|>");
        }
        let step = replace_all(input.as_str(), "<|character_name|>", self.name.as_str());
        replace_all(step.as_str(), "<|user_name|>", user_name)
    }

    /// The greeting split into lines, with name placeholders filled in.
    pub fn get_greeting(&self, user_name: &str) -> (r: Vec<String>)
        ensures
            r@.map_values(|x: String| x@) == spec_lines(self.greeting@).map_values(
                |l: Seq<char>|
                    spec_replace(
                        spec_replace(l, "<|character_name|>"@, self.name@),
                        "<|user_name|>"@,
                        user_name@,
                    ),
            ),
    {
        let lines = split_lines(self.greeting.as_str());
        let mut out: Vec<String> = Vec::new();
        let mut i: usize = 0;
        let ghost subst = |l: Seq<char>|
            spec_replace(
                spec_replace(l, "<|character_name|>"@, self.name@),
                "<|user_name|>"@,
                user_name@,
            );
        while i < lines.len()
            invariant
                i <= lines.len(),
                lines@.map_values(|x: String| x@) == spec_lines(self.greeting@),
                out@.map_values(|x: String| x@) =~= lines@.map_values(|x: String| x@).take(
                    i as int,
                ).map_values(subst),
                subst == (|l: Seq<char>|
                    spec_replace(
                        spec_replace(l, "<|character_name|>"@, self.name@),
                        "<|user_name|>"@,
                        user_name@,
                    )),
            decreases lines.len() - i,
        {
            let processed = self.process_string_templates(user_name, &lines[i]);
            out.push(processed);
            proof {
                let views = lines@.map_values(|x: String| x@);
                assert(views.take(i + 1) =~= views.take(i as int).push(views[i as int]));
                assert(views.take(i + 1).map_values(subst) =~= views.take(i as int).map_values(
                    subst,
                ).push(subst(views[i as int])));
            }
            i += 1;
        }
        proof {
            let views = lines@.map_values(|x: String| x@);
            assert(views.take(lines@.len() as int) =~= views);
        }
        out
    }
}

/// Which speaker a canned conversation turn belongs to.
#[derive(Clone, Copy, Debug, PartialEq, Eq, Structural)]
pub enum ConversationTurnName {
    USER,
    BOT,
}

impl ConversationTurnName {
    /// The display text for the speaker tag.
    pub fn as_str(&self) -> (r: &'static str)
        ensures
            *self is USER ==> r@ == "USER"@,
            *self is BOT ==> r@ == "BOT"@,
    {
        match self {
            ConversationTurnName::USER => "USER",
            ConversationTurnName::BOT => "BOT",
        }
    }
}

/// One canned exchange line: who speaks and what is said.
#[derive(Debug)]
pub struct ConversationTurn {
    pub name: ConversationTurnName,
    pub value: String,
}

impl Clone for ConversationTurn {
    fn clone(&self) -> (r: Self)
        ensures
            r == *self,
    {
        ConversationTurn { name: self.name, value: self.value.clone() }
    }
}

/// One configured language model: either a local weights file (`path`) or a
/// remote generation server (`remote_server`) decides the backend strategy.
#[derive(Debug)]
pub struct ConfiguredLlm {
    /// User-friendly name used to select the model.
    pub name: String,
    /// Path of a model file to load in-process.
    pub path: Option<String>,
    /// Host of a remote server that performs the inference instead.
    pub remote_server: Option<String>,
    /// Seconds to wait for the remote server before giving up.
    pub remote_timeout_s: Option<u64>,
    /// Token budget for a complete context.
    pub context_size: usize,
    /// How many similar turns to pull up through embeddings.
    pub similar_sentence_count: Option<usize>,
    /// Layers to offload to the GPU for local models.
    pub gpu_layer_count: Option<usize>,
    /// Seed for generation; a random one is chosen when unset.
    pub seed: Option<i32>,
    /// The prompt template with its placeholder tags.
    pub prompt_instruct_template: String,
}

fn clone_opt_string(o: &Option<String>) -> (r: Option<String>)
    ensures
        r == *o,
{
    match o {
        Some(s) => Some(s.clone()),
        None => None,
    }
}

impl Clone for ConfiguredLlm {
    fn clone(&self) -> (r: Self)
        ensures
            r == *self,
    {
        ConfiguredLlm {
            name: self.name.clone(),
            path: clone_opt_string(&self.path),
            remote_server: clone_opt_string(&self.remote_server),
            remote_timeout_s: self.remote_timeout_s,
            context_size: self.context_size,
            similar_sentence_count: self.similar_sentence_count,
            gpu_layer_count: self.gpu_layer_count,
            seed: self.seed,
            prompt_instruct_template: self.prompt_instruct_template.clone(),
        }
    }
}

/// The embedding sub-model used for retrieval augmentation.
#[derive(Debug)]
pub struct ConfiguredEmbeddingModel {
    /// Directory holding the embedding model files.
    pub dir_path: String,
    /// Token budget of the embedding model, used to chunk text.
    pub token_cutoff_limit: usize,
    /// Force the embedding engine onto the CPU.
    pub use_cpu: bool,
    /// Optional pretext prepended when embedding a query.
    pub query_pretext: Option<String>,
    /// Optional pretext prepended when embedding stored text.
    pub encode_pretext: Option<String>,
}

impl Clone for ConfiguredEmbeddingModel {
    fn clone(&self) -> (r: Self)
        ensures
            r == *self,
    {
        ConfiguredEmbeddingModel {
            dir_path: self.dir_path.clone(),
            token_cutoff_limit: self.token_cutoff_limit,
            use_cpu: self.use_cpu,
            query_pretext: clone_opt_string(&self.query_pretext),
            encode_pretext: clone_opt_string(&self.encode_pretext),
        }
    }
}

/// How chat text is justified in the display.
#[derive(Clone, Copy, Debug, PartialEq, Eq, Structural)]
pub enum Justification {
    Left,
    Right,
    Center,
}

/// One named bundle of sampling hyperparameters.  The `mirostat` adaptive
/// mode and the classical knobs are mutually exclusive: when `mirostat` is
/// 1 or 2 the classical knobs are disabled regardless of their values.
/// Fractional fields are thousandths (1000 stands for 1.0).
#[derive(Debug)]
pub struct ConfiguredParameters {
    pub name: String,
    pub top_k: Option<usize>,
    /// Nucleus-sampling probability mass, in thousandths.
    pub top_p: Option<u32>,
    /// Minimum token probability, in thousandths.
    pub min_p: Option<u32>,
    /// Repetition penalty, in thousandths.
    pub repeat_penalty: Option<u32>,
    pub repeat_penalty_range: Option<usize>,
    /// Sampling temperature, in thousandths.
    pub temperature: Option<u32>,
    /// 0 = disabled, 1 or 2 selects the adaptive mode.
    pub mirostat: Option<usize>,
    /// Adaptive-mode learning rate, in thousandths.
    pub mirostat_eta: Option<u32>,
    /// Adaptive-mode target entropy, in thousandths.
    pub mirostat_tau: Option<u32>,
}

impl Clone for ConfiguredParameters {
    fn clone(&self) -> (r: Self)
        ensures
            r == *self,
    {
        ConfiguredParameters {
            name: self.name.clone(),
            top_k: self.top_k,
            top_p: self.top_p,
            min_p: self.min_p,
            repeat_penalty: self.repeat_penalty,
            repeat_penalty_range: self.repeat_penalty_range,
            temperature: self.temperature,
            mirostat: self.mirostat,
            mirostat_eta: self.mirostat_eta,
            mirostat_tau: self.mirostat_tau,
        }
    }
}

/// True when `m` is selected by the request string `q`: its name matches,
/// or it is a local model and its path matches, ignoring ASCII case.
pub open spec fn model_matches(m: ConfiguredLlm, q: Seq<char>) -> bool {
    eq_ignore_case(m.name@, q) || (m.path is Some && eq_ignore_case(m.path->0@, q))
}

/// The application-wide settings the engine reads.
#[derive(Debug)]
pub struct ConfigurationFile {
    /// Version number of the file format.
    pub version: u16,
    /// Display name of the user; also what goes into the prompts.
    pub display_name: String,
    pub display_name_rgb: Option<[u8; 3]>,
    pub quotes_rgb: Option<[u8; 3]>,
    pub text_rgb: Option<[u8; 3]>,
    pub progress_primary_rgb: Option<[u8; 3]>,
    pub progress_secondary_rgb: Option<[u8; 3]>,
    pub chat_text_justification: Option<Justification>,
    pub add_visual_buffer_between_chatlog_items: Option<bool>,
    /// When true, generated text is cut just before another speaker's name.
    pub stop_on_display_name: bool,
    /// Predicted characters per token, in tenths (30 stands for 3.0).
    pub text_to_token_ratio_prediction: Option<u32>,
    /// Suggested cap on the number of generated tokens.
    pub maximum_new_tokens: Option<usize>,
    /// Whether to use GPU acceleration for local models.
    pub use_gpu: Option<bool>,
    /// Threads to use for local inference.
    pub thread_count: Option<usize>,
    /// Batch size for local inference.
    pub batch_size: Option<usize>,
    /// The configured hyperparameter sets.
    pub parameters: Vec<ConfiguredParameters>,
    /// The configured models.
    pub models: Vec<ConfiguredLlm>,
    /// The optional embedding sub-model for retrieval augmentation.
    pub embedding_model: Option<ConfiguredEmbeddingModel>,
}

impl Default for ConfigurationFile {
    /// The settings used when no configuration file is found: a plain
    /// "USER" display name, stop-on-name trimming switched on, no GPU,
    /// and no models or parameter sets.
    fn default() -> (r: Self)
        ensures
            r.version == CURRENT_VERSION,
            r.display_name@ == "USER"@,
            r.display_name_rgb is None && r.quotes_rgb is None && r.text_rgb is None,
            r.progress_primary_rgb is None && r.progress_secondary_rgb is None,
            r.chat_text_justification is None,
            r.add_visual_buffer_between_chatlog_items is None,
            r.stop_on_display_name,
            r.text_to_token_ratio_prediction is None,
            r.maximum_new_tokens is None,
            r.use_gpu == Some(false),
            r.thread_count == Some(8usize),
            r.batch_size == Some(512usize),
            r.parameters@.len() == 0,
            r.models@.len() == 0,
            r.embedding_model is None,
    {
        ConfigurationFile {
            version: CURRENT_VERSION,
            display_name: "USER".to_owned(),
            display_name_rgb: None,
            quotes_rgb: None,
            text_rgb: None,
            progress_primary_rgb: None,
            progress_secondary_rgb: None,
            chat_text_justification: None,
            add_visual_buffer_between_chatlog_items: None,
            stop_on_display_name: true,
            text_to_token_ratio_prediction: None,
            maximum_new_tokens: None,
            use_gpu: Some(false),
            thread_count: Some(8),
            batch_size: Some(512),
            parameters: Vec::new(),
            models: Vec::new(),
            embedding_model: None,
        }
    }
}

impl ConfigurationFile {
    /// Returns the first configured model that `name_or_path` selects,
    /// matching the name, or the local path, ignoring ASCII case.
    pub fn find_model_configuration(&self, name_or_path: &str) -> (r: Option<ConfiguredLlm>)
        ensures
            match r {
                Some(m) => exists|i: int|
                    0 <= i < self.models@.len() && m == self.models@[i] && model_matches(
                        m,
                        name_or_path@,
                    ) && forall|j: int|
                        0 <= j < i ==> !model_matches(self.models@[j], name_or_path@),
                None => forall|j: int|
                    0 <= j < self.models@.len() ==> !model_matches(
                        self.models@[j],
                        name_or_path@,
                    ),
            },
    {
        let mut i: usize = 0;
        while i < self.models.len()
            invariant
                i <= self.models@.len(),
                forall|j: int| 0 <= j < i ==> !model_matches(self.models@[j], name_or_path@),
            decreases self.models@.len() - i,
        {
            let m = &self.models[i];
            let name_hit = eq_ignore_ascii_case_str(m.name.as_str(), name_or_path);
            let path_hit = match &m.path {
                Some(p) => eq_ignore_ascii_case_str(p.as_str(), name_or_path),
                None => false,
            };
            if name_hit || path_hit {
                return Some(m.clone());
            }
            i += 1;
        }
        None
    }
}

/// The folder in which a character's conversation logs are kept.
pub fn get_log_folder(char_name: &str) -> (r: String)
    ensures
        r@ == "characters/"@ + char_name@ + "-logs"@,
{
    let mut out = String::new();
    out.append("characters/");
    out.append(char_name);
    out.append("-logs");
    proof {
        assert(Seq::<char>::empty() + "characters/"@ + char_name@ + "-logs"@ =~= "characters/"@
            + char_name@ + "-logs"@);
    }
    out
}

} // verus!
