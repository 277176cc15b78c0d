//! The built-in Sarvam model catalog and the provider's fixed capabilities.
use vstd::prelude::*;
use crate::protocol::ReasoningEffort;

verus! {

/// sarvam-30b has a 64K-token context window.
pub const SARVAM_30B_CONTEXT_WINDOW: i64 = 64_000;

/// sarvam-105b has a 128K-token context window.
pub const SARVAM_105B_CONTEXT_WINDOW: i64 = 128_000;

/// Token limit of the truncation policy of both models.
pub const SARVAM_TRUNCATION_TOKEN_LIMIT: i64 = 10_000;

pub const LOW_EFFORT_DESCRIPTION: &'static str = "Fast responses with lighter reasoning";
pub const MEDIUM_EFFORT_DESCRIPTION: &'static str = "Balances speed and reasoning depth for everyday tasks";
pub const HIGH_EFFORT_DESCRIPTION: &'static str = "Greater reasoning depth for complex problems";

pub const SARVAM_105B_DESCRIPTION: &'static str = "128K-context flagship model. Best for complex, long-context coding tasks.";
pub const SARVAM_30B_DESCRIPTION: &'static str = "64K-context model. Fast and cost-effective for everyday coding tasks.";

/// A reasoning level that a model offers.
pub struct ReasoningEffortPreset {
    pub effort: ReasoningEffort,
    pub description: String,
}

#[derive(Clone, Copy, Debug, PartialEq, Eq, Structural)]
pub enum ConfigShellToolType {
    Default,
    Local,
    UnifiedExec,
    Disabled,
    ShellCommand,
}

#[derive(Clone, Copy, Debug, PartialEq, Eq, Structural)]
pub enum ModelVisibility {
    List,
    Hide,
}

#[derive(Clone, Copy, Debug, PartialEq, Eq, Structural)]
pub enum ReasoningSummary {
    Auto,
    Concise,
    Detailed,
    Disabled,
}

#[derive(Clone, Copy, Debug, PartialEq, Eq, Structural)]
pub enum ApplyPatchToolType {
    Freeform,
    Function,
}

#[derive(Clone, Copy, Debug, PartialEq, Eq, Structural)]
pub enum WebSearchToolType {
    Text,
    TextAndImage,
}

#[derive(Clone, Copy, Debug, PartialEq, Eq, Structural)]
pub enum InputModality {
    Text,
    Image,
}

/// How a model's tool output is truncated: to a number of tokens.
#[derive(Clone, Copy, Debug, PartialEq, Eq, Structural)]
pub struct TruncationPolicyConfig {
    pub token_limit: i64,
}

/// What the catalog says of one model.
pub struct ModelInfo {
    pub slug: String,
    pub display_name: String,
    pub description: Option<String>,
    pub default_reasoning_level: Option<ReasoningEffort>,
    pub supported_reasoning_levels: Vec<ReasoningEffortPreset>,
    pub shell_type: ConfigShellToolType,
    pub visibility: ModelVisibility,
    pub supported_in_api: bool,
    pub priority: i32,
    pub base_instructions: String,
    pub supports_reasoning_summaries: bool,
    pub default_reasoning_summary: ReasoningSummary,
    pub support_verbosity: bool,
    pub apply_patch_tool_type: Option<ApplyPatchToolType>,
    pub web_search_tool_type: WebSearchToolType,
    pub truncation_policy: TruncationPolicyConfig,
    pub supports_parallel_tool_calls: bool,
    pub supports_image_detail_original: bool,
    pub input_modalities: Vec<InputModality>,
    pub context_window: Option<i64>,
    pub max_context_window: Option<i64>,
    pub auto_compact_token_limit: Option<i64>,
    pub effective_context_window_percent: i64,
    pub used_fallback_model_metadata: bool,
    pub supports_search_tool: bool,
}

/// A list of models.
pub struct ModelsResponse {
    pub models: Vec<ModelInfo>,
}

/// Exactly the low, medium and high levels, in that order.
pub open spec fn sarvam_levels(levels: Seq<ReasoningEffortPreset>) -> bool {
    &&& levels.len() == 3
    &&& levels[0].effort == ReasoningEffort::Low
    &&& levels[0].description@ == LOW_EFFORT_DESCRIPTION@
    &&& levels[1].effort == ReasoningEffort::Medium
    &&& levels[1].description@ == MEDIUM_EFFORT_DESCRIPTION@
    &&& levels[2].effort == ReasoningEffort::High
    &&& levels[2].description@ == HIGH_EFFORT_DESCRIPTION@
}

/// A Sarvam model: text only, medium reasoning by default, no parallel tool
/// calls, the given context window, and the fixed settings of the provider.
pub open spec fn is_sarvam_model(
    m: ModelInfo,
    slug: Seq<char>,
    display_name: Seq<char>,
    description: Seq<char>,
    context_window: i64,
    priority: i32,
    base_instructions: Seq<char>,
) -> bool {
    &&& m.slug@ == slug
    &&& m.display_name@ == display_name
    &&& m.description matches Some(d) && d@ == description
    &&& m.default_reasoning_level == Some(ReasoningEffort::Medium)
    &&& sarvam_levels(m.supported_reasoning_levels@)
    &&& m.shell_type == ConfigShellToolType::ShellCommand
    &&& m.visibility == ModelVisibility::List
    &&& m.supported_in_api
    &&& m.priority == priority
    &&& m.base_instructions@ == base_instructions
    &&& !m.supports_reasoning_summaries
    &&& m.default_reasoning_summary == ReasoningSummary::Disabled
    &&& !m.support_verbosity
    &&& m.apply_patch_tool_type == Some(ApplyPatchToolType::Freeform)
    &&& m.web_search_tool_type == WebSearchToolType::Text
    &&& m.truncation_policy == TruncationPolicyConfig { token_limit: SARVAM_TRUNCATION_TOKEN_LIMIT }
    &&& !m.supports_parallel_tool_calls
    &&& !m.supports_image_detail_original
    &&& m.input_modalities@ == seq![InputModality::Text]
    &&& m.context_window == Some(context_window)
    &&& m.max_context_window == Some(context_window)
    &&& m.auto_compact_token_limit is None
    &&& m.effective_context_window_percent == 95
    &&& !m.used_fallback_model_metadata
    &&& !m.supports_search_tool
}

/// The built-in catalog: sarvam-105b first, then sarvam-30b.
pub open spec fn is_static_catalog(c: ModelsResponse, base_instructions: Seq<char>) -> bool {
    &&& c.models@.len() == 2
    &&& is_sarvam_model(
        c.models@[0],
        "sarvam-105b"@,
        "Sarvam 105B"@,
        SARVAM_105B_DESCRIPTION@,
        SARVAM_105B_CONTEXT_WINDOW,
        0,
        base_instructions,
    )
    &&& is_sarvam_model(
        c.models@[1],
        "sarvam-30b"@,
        "Sarvam 30B"@,
        SARVAM_30B_DESCRIPTION@,
        SARVAM_30B_CONTEXT_WINDOW,
        1,
        base_instructions,
    )
}

/// Sarvam supports exactly low, medium and high reasoning effort.
fn sarvam_reasoning_levels() -> (r: Vec<ReasoningEffortPreset>)
    ensures
        sarvam_levels(r@),
{
    vec![
        ReasoningEffortPreset {
            effort: ReasoningEffort::Low,
            description: String::from_str(LOW_EFFORT_DESCRIPTION),
        },
        ReasoningEffortPreset {
            effort: ReasoningEffort::Medium,
            description: String::from_str(MEDIUM_EFFORT_DESCRIPTION),
        },
        ReasoningEffortPreset {
            effort: ReasoningEffort::High,
            description: String::from_str(HIGH_EFFORT_DESCRIPTION),
        },
    ]
}

fn sarvam_model(
    slug: &str,
    display_name: &str,
    description: &str,
    context_window: i64,
    priority: i32,
    base_instructions: &str,
) -> (m: ModelInfo)
    ensures
        is_sarvam_model(m, slug@, display_name@, description@, context_window, priority, base_instructions@),
{
    let m = ModelInfo {
        slug: String::from_str(slug),
        display_name: String::from_str(display_name),
        description: Some(String::from_str(description)),
        default_reasoning_level: Some(ReasoningEffort::Medium),
        supported_reasoning_levels: sarvam_reasoning_levels(),
        shell_type: ConfigShellToolType::ShellCommand,
        visibility: ModelVisibility::List,
        supported_in_api: true,
        priority,
        base_instructions: String::from_str(base_instructions),
        // Chat Completions has no reasoning_summary field.
        supports_reasoning_summaries: false,
        default_reasoning_summary: ReasoningSummary::Disabled,
        // Chat Completions has no verbosity field.
        support_verbosity: false,
        apply_patch_tool_type: Some(ApplyPatchToolType::Freeform),
        web_search_tool_type: WebSearchToolType::Text,
        truncation_policy: TruncationPolicyConfig { token_limit: SARVAM_TRUNCATION_TOKEN_LIMIT },
        // Requests are sent with parallel_tool_calls: false.
        supports_parallel_tool_calls: false,
        // Chat Completions content is plain strings, without images.
        supports_image_detail_original: false,
        input_modalities: vec![InputModality::Text],
        context_window: Some(context_window),
        max_context_window: Some(context_window),
        auto_compact_token_limit: None,
        effective_context_window_percent: 95,
        used_fallback_model_metadata: false,
        supports_search_tool: false,
    };
    assert(m.input_modalities@ =~= seq![InputModality::Text]);
    m
}

/// The built-in model catalog, with `base_instructions` as every model's
/// system prompt.
pub fn static_model_catalog(base_instructions: &str) -> (c: ModelsResponse)
    ensures
        is_static_catalog(c, base_instructions@),
{
    // 105B is listed first (priority 0): larger, higher capability.
    let m105 = sarvam_model(
        "sarvam-105b",
        "Sarvam 105B",
        SARVAM_105B_DESCRIPTION,
        SARVAM_105B_CONTEXT_WINDOW,
        0,
        base_instructions,
    );
    let m30 = sarvam_model(
        "sarvam-30b",
        "Sarvam 30B",
        SARVAM_30B_DESCRIPTION,
        SARVAM_30B_CONTEXT_WINDOW,
        1,
        base_instructions,
    );
    ModelsResponse { models: vec![m105, m30] }
}

/// What the provider supports besides function tools.
#[derive(Clone, Copy, Debug, PartialEq, Eq, Structural)]
pub struct ProviderCapabilities {
    pub namespace_tools: bool,
    pub image_generation: bool,
    pub web_search: bool,
}

/// The account a provider reports, of account type `A`, and whether the
/// provider needs an OpenAI login.
pub struct ProviderAccountState<A> {
    pub account: Option<A>,
    pub requires_openai_auth: bool,
}

/// Runtime provider for Sarvam AI's Chat Completions endpoint, carrying the
/// provider configuration `I` it was made with.
pub struct SarvamModelProvider<I> {
    info: I,
}

impl<I> SarvamModelProvider<I> {
    pub closed spec fn spec_info(&self) -> I {
        self.info
    }

    pub fn new(info: I) -> (p: Self)
        ensures
            p.spec_info() == info,
    {
        SarvamModelProvider { info }
    }

    pub fn info(&self) -> (r: &I)
        ensures
            *r == self.spec_info(),
    {
        &self.info
    }

    /// Sarvam supports only function tools: no namespaced tools, no image
    /// generation and no web search.
    pub fn capabilities(&self) -> (c: ProviderCapabilities)
        ensures
            c == (ProviderCapabilities { namespace_tools: false, image_generation: false, web_search: false }),
    {
        ProviderCapabilities { namespace_tools: false, image_generation: false, web_search: false }
    }

    /// Sarvam has no account to report and needs no OpenAI login; the lookup
    /// never fails.
    pub fn account_state<A>(&self) -> (r: ProviderAccountState<A>)
        ensures
            r.account is None,
            !r.requires_openai_auth,
    {
        ProviderAccountState { account: None, requires_openai_auth: false }
    }

    /// The catalog the models manager serves: the configured one when there
    /// is one, the built-in catalog otherwise.
    pub fn model_catalog(&self, config_model_catalog: Option<ModelsResponse>, base_instructions: &str) -> (c: ModelsResponse)
        ensures
            match config_model_catalog {
                Some(configured) => c == configured,
                None => is_static_catalog(c, base_instructions@),
            },
    {
        match config_model_catalog {
            Some(configured) => configured,
            None => static_model_catalog(base_instructions),
        }
    }
}

} // verus!
