//! Fallback metadata for models the catalogue does not know, and the
//! configuration overrides applied on top of model metadata.

use vstd::prelude::*;
use crate::text::contains_seq;
use crate::text::str_contains;

verus! {

/// A kind of input a model accepts.
#[derive(Debug, Clone, Copy, PartialEq, Eq)]
pub enum InputModality {
    Text,
    Image,
}

/// A level of reasoning effort.
#[derive(Debug, Clone, Copy, PartialEq, Eq)]
pub enum ReasoningEffort {
    Low,
    Medium,
    High,
    XHigh,
}

/// A reasoning level a model offers, with its description.
#[derive(Debug, Clone, PartialEq)]
pub struct ReasoningEffortPreset {
    pub effort: ReasoningEffort,
    pub description: String,
}

/// What is known of a model.
#[derive(Debug, Clone, PartialEq)]
pub struct ModelInfo {
    pub slug: String,
    pub supports_reasoning_summaries: bool,
    pub supported_reasoning_levels: Vec<ReasoningEffortPreset>,
    pub input_modalities: Vec<InputModality>,
    pub context_window: Option<i64>,
    pub max_context_window: Option<i64>,
}

/// Overrides of model metadata from the configuration.
#[derive(Debug, Clone, Copy, PartialEq, Eq, Default)]
pub struct ModelsManagerConfig {
    pub model_supports_reasoning_summaries: Option<bool>,
    pub model_context_window: Option<i64>,
}

/// The inputs a chat model accepts unless it says otherwise: text and images.
pub open spec fn default_modalities_spec() -> Seq<InputModality> {
    seq![InputModality::Text, InputModality::Image]
}

/// The inputs a chat model accepts unless it says otherwise: text and images.
pub fn default_input_modalities() -> (v: Vec<InputModality>)
    ensures
        v@ == default_modalities_spec(),
{
    let v = vec![InputModality::Text, InputModality::Image];
    assert(v@ =~= default_modalities_spec());
    v
}

/// The reasoning levels and their descriptions offered by the GPT-5 family.
pub open spec fn gpt5_levels_spec() -> Seq<(ReasoningEffort, Seq<char>)> {
    seq![
        (ReasoningEffort::Low, "Fast responses with lighter reasoning"@),
        (ReasoningEffort::Medium, "Balances speed and reasoning depth for everyday tasks"@),
        (ReasoningEffort::High, "Greater reasoning depth for complex problems"@),
        (ReasoningEffort::XHigh, "Extra high reasoning depth for complex problems"@),
    ]
}

/// The levels and descriptions of presets.
pub open spec fn preset_views(v: Seq<ReasoningEffortPreset>) -> Seq<(ReasoningEffort, Seq<char>)> {
    v.map_values(|p: ReasoningEffortPreset| (p.effort, p.description@))
}

/// Whether a slug names a model of the GPT-5 family.
pub open spec fn is_gpt5_slug(slug: Seq<char>) -> bool {
    slug.len() >= 5 && slug.subrange(0, 5) == "gpt-5"@
}

/// Whether a slug names a model that does not chat (an embedding model).
pub open spec fn is_non_chat_slug(slug: Seq<char>) -> bool {
    contains_seq(slug, "embedding"@)
}

fn gpt5_levels() -> (v: Vec<ReasoningEffortPreset>)
    ensures
        preset_views(v@) == gpt5_levels_spec(),
{
    let v = vec![
        ReasoningEffortPreset {
            effort: ReasoningEffort::Low,
            description: "Fast responses with lighter reasoning".to_owned(),
        },
        ReasoningEffortPreset {
            effort: ReasoningEffort::Medium,
            description: "Balances speed and reasoning depth for everyday tasks".to_owned(),
        },
        ReasoningEffortPreset {
            effort: ReasoningEffort::High,
            description: "Greater reasoning depth for complex problems".to_owned(),
        },
        ReasoningEffortPreset {
            effort: ReasoningEffort::XHigh,
            description: "Extra high reasoning depth for complex problems".to_owned(),
        },
    ];
    assert(preset_views(v@) =~= gpt5_levels_spec());
    v
}

/// Whether `slug` starts with `gpt-5`.
fn starts_with_gpt5(slug: &str) -> (b: bool)
    ensures
        b == is_gpt5_slug(slug@),
{
    let v = crate::text::chars_of(slug);
    let p = crate::text::chars_of("gpt-5");
    proof {
        reveal_strlit("gpt-5");
    }
    if v.len() < p.len() {
        return false;
    }
    let mut i: usize = 0;
    while i < p.len()
        invariant
            i <= p.len() <= v.len(),
            p@ == "gpt-5"@,
            v@ == slug@,
            forall|j: int| 0 <= j < i ==> v@[j] == p@[j],
        decreases p.len() - i,
    {
        if v[i] != p[i] {
            assert(v@.subrange(0, p.len() as int)[i as int] == v@[i as int]);
            return false;
        }
        i = i + 1;
    }
    assert(v@.subrange(0, p.len() as int) =~= p@);
    true
}

/// Metadata for a model the catalogue does not know. GPT-5 models get
/// reasoning summaries, the four reasoning levels and text-and-image input;
/// models that do not chat get neither reasoning nor input modalities; any
/// other model gets text-and-image input without reasoning metadata. No
/// context window is known.
///
/// The classification is this library's own fallback rule, not a catalogue
/// lookup: a slug that begins with `gpt-5` is a GPT-5 model, a slug that
/// contains `embedding` does not chat, and no window size is guessed.
pub fn model_info_from_slug(slug: &str) -> (m: ModelInfo)
    ensures
        m.slug@ == slug@,
        m.supports_reasoning_summaries == is_gpt5_slug(slug@),
        preset_views(m.supported_reasoning_levels@) == if is_gpt5_slug(slug@) {
            gpt5_levels_spec()
        } else {
            Seq::empty()
        },
        m.input_modalities@ == if !is_gpt5_slug(slug@) && is_non_chat_slug(slug@) {
            Seq::empty()
        } else {
            default_modalities_spec()
        },
        m.context_window is None,
        m.max_context_window is None,
{
    let gpt5 = starts_with_gpt5(slug);
    let levels = if gpt5 {
        gpt5_levels()
    } else {
        let v: Vec<ReasoningEffortPreset> = Vec::new();
        assert(preset_views(v@) =~= Seq::empty());
        v
    };
    let modalities = if !gpt5 && str_contains(slug, "embedding") {
        Vec::new()
    } else {
        default_input_modalities()
    };
    ModelInfo {
        slug: slug.to_owned(),
        supports_reasoning_summaries: gpt5,
        supported_reasoning_levels: levels,
        input_modalities: modalities,
        context_window: None,
        max_context_window: None,
    }
}

/// The reasoning-summary support after the override: an override can turn
/// support on, never off.
pub open spec fn overridden_summaries(model: bool, config: Option<bool>) -> bool {
    model || config == Some(true)
}

/// The context window after the override: the configured window, held to the
/// model's maximum when it has one; the model's own window when none is configured.
pub open spec fn overridden_context_window(
    model: Option<i64>,
    max: Option<i64>,
    config: Option<i64>,
) -> Option<i64> {
    match config {
        Some(w) => Some(
            match max {
                Some(m) => if w < m {
                    w
                } else {
                    m
                },
                None => w,
            },
        ),
        None => model,
    }
}

/// The model's metadata with the configuration's overrides applied.
pub fn with_config_overrides(model: ModelInfo, config: &ModelsManagerConfig) -> (m: ModelInfo)
    ensures
        m.slug == model.slug,
        m.supported_reasoning_levels == model.supported_reasoning_levels,
        m.input_modalities == model.input_modalities,
        m.max_context_window == model.max_context_window,
        m.supports_reasoning_summaries == overridden_summaries(
            model.supports_reasoning_summaries,
            config.model_supports_reasoning_summaries,
        ),
        m.context_window == overridden_context_window(
            model.context_window,
            model.max_context_window,
            config.model_context_window,
        ),
{
    let mut model = model;
    match config.model_supports_reasoning_summaries {
        Some(true) => {
            model.supports_reasoning_summaries = true;
        },
        _ => {},
    }
    match config.model_context_window {
        Some(w) => {
            model.context_window = Some(
                match model.max_context_window {
                    Some(m) => if w < m {
                        w
                    } else {
                        m
                    },
                    None => w,
                },
            );
        },
        None => {},
    }
    model
}

/// Overrides never turn reasoning summaries off.
pub proof fn law_overrides_never_disable_summaries(model: bool, config: Option<bool>)
    ensures
        model ==> overridden_summaries(model, config),
{
}

/// An overridden context window never exceeds the model's maximum.
pub proof fn law_overridden_window_within_max(model: Option<i64>, max: i64, config: i64)
    ensures
        overridden_context_window(model, Some(max), Some(config)) matches Some(w) && w <= max,
{
}

/// Applying the overrides twice is applying them once.
pub proof fn law_overrides_idempotent(
    summaries: bool,
    window: Option<i64>,
    max: Option<i64>,
    config: ModelsManagerConfig,
)
    ensures
        overridden_summaries(
            overridden_summaries(summaries, config.model_supports_reasoning_summaries),
            config.model_supports_reasoning_summaries,
        ) == overridden_summaries(summaries, config.model_supports_reasoning_summaries),
        overridden_context_window(
            overridden_context_window(window, max, config.model_context_window),
            max,
            config.model_context_window,
        ) == overridden_context_window(window, max, config.model_context_window),
{
}

} // verus!
