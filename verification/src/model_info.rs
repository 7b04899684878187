//! Model metadata: the conservative profile of locally served models and the
//! native DeepSeek catalog.
use crate::text::{str_eq, string_from_chars};
use vstd::prelude::*;

verus! {

/// Whether a model is listed in pickers.
#[derive(Clone, Copy, Debug, PartialEq, Eq, Structural)]
pub enum ModelVisibility {
    List,
    Hide,
    Unspecified,
}

/// An input the model accepts.
#[derive(Clone, Copy, Debug, PartialEq, Eq, Structural)]
pub enum InputModality {
    Text,
    Image,
}

/// How reasoning is summarised by default.
#[derive(Clone, Copy, Debug, PartialEq, Eq, Structural)]
pub enum ReasoningSummary {
    Auto,
    Concise,
    Detailed,
    Disabled,
}

/// How tools are offered to the model.
#[derive(Clone, Copy, Debug, PartialEq, Eq, Structural)]
pub enum ToolMode {
    Direct,
}

/// Multi-agent protocol version.
#[derive(Clone, Copy, Debug, PartialEq, Eq, Structural)]
pub enum MultiAgentVersion {
    V1,
    V2,
}

/// A reasoning effort level.
#[derive(Clone, Copy, Debug, PartialEq, Eq, Structural)]
pub enum ReasoningEffort {
    Disabled,
    Minimal,
    Low,
    Medium,
    High,
    XHigh,
    Max,
}

/// Output verbosity.
#[derive(Clone, Copy, Debug, PartialEq, Eq, Structural)]
pub enum Verbosity {
    Low,
    Medium,
    High,
}

/// The form of the apply-patch tool.
#[derive(Clone, Copy, Debug, PartialEq, Eq, Structural)]
pub enum ApplyPatchToolType {
    Freeform,
    Function,
}

/// A selectable reasoning effort with its description.
#[derive(Clone, Debug)]
pub struct ReasoningEffortPreset {
    pub effort: ReasoningEffort,
    pub description: String,
}

/// The metadata of one model.
#[derive(Clone, Debug)]
pub struct ModelInfo {
    pub slug: String,
    pub display_name: String,
    pub description: Option<String>,
    pub context_window: Option<i64>,
    pub max_context_window: Option<i64>,
    pub visibility: ModelVisibility,
    pub input_modalities: Vec<InputModality>,
    pub supports_reasoning_summary_parameter: bool,
    pub default_reasoning_summary: ReasoningSummary,
    pub tool_mode: Option<ToolMode>,
    pub node_repl_disabled: bool,
    pub used_fallback_model_metadata: bool,
    pub multi_agent_version: Option<MultiAgentVersion>,
    pub default_reasoning_level: Option<ReasoningEffort>,
    pub supported_reasoning_levels: Vec<ReasoningEffortPreset>,
    pub support_verbosity: bool,
    pub default_verbosity: Option<Verbosity>,
    pub apply_patch_tool_type: Option<ApplyPatchToolType>,
    pub truncation_token_limit: Option<i64>,
    pub include_skills_usage_instructions: bool,
    pub include_plugin_usage_instructions: bool,
    pub supports_image_detail_original: bool,
}

/// The mathematical content of a `ModelInfo`.
pub struct ModelInfoView {
    pub slug: Seq<char>,
    pub display_name: Seq<char>,
    pub description: Option<Seq<char>>,
    pub context_window: Option<i64>,
    pub max_context_window: Option<i64>,
    pub visibility: ModelVisibility,
    pub input_modalities: Seq<InputModality>,
    pub supports_reasoning_summary_parameter: bool,
    pub default_reasoning_summary: ReasoningSummary,
    pub tool_mode: Option<ToolMode>,
    pub node_repl_disabled: bool,
    pub used_fallback_model_metadata: bool,
    pub multi_agent_version: Option<MultiAgentVersion>,
    pub default_reasoning_level: Option<ReasoningEffort>,
    pub supported_reasoning_levels: Seq<(ReasoningEffort, Seq<char>)>,
    pub support_verbosity: bool,
    pub default_verbosity: Option<Verbosity>,
    pub apply_patch_tool_type: Option<ApplyPatchToolType>,
    pub truncation_token_limit: Option<i64>,
    pub include_skills_usage_instructions: bool,
    pub include_plugin_usage_instructions: bool,
    pub supports_image_detail_original: bool,
}

pub open spec fn opt_view(s: Option<String>) -> Option<Seq<char>> {
    match s {
        Some(x) => Some(x@),
        None => None,
    }
}

impl View for ModelInfo {
    type V = ModelInfoView;

    open spec fn view(&self) -> ModelInfoView {
        ModelInfoView {
            slug: self.slug@,
            display_name: self.display_name@,
            description: opt_view(self.description),
            context_window: self.context_window,
            max_context_window: self.max_context_window,
            visibility: self.visibility,
            input_modalities: self.input_modalities@,
            supports_reasoning_summary_parameter: self.supports_reasoning_summary_parameter,
            default_reasoning_summary: self.default_reasoning_summary,
            tool_mode: self.tool_mode,
            node_repl_disabled: self.node_repl_disabled,
            used_fallback_model_metadata: self.used_fallback_model_metadata,
            multi_agent_version: self.multi_agent_version,
            default_reasoning_level: self.default_reasoning_level,
            supported_reasoning_levels: self.supported_reasoning_levels@.map_values(
                |p: ReasoningEffortPreset| (p.effort, p.description@),
            ),
            support_verbosity: self.support_verbosity,
            default_verbosity: self.default_verbosity,
            apply_patch_tool_type: self.apply_patch_tool_type,
            truncation_token_limit: self.truncation_token_limit,
            include_skills_usage_instructions: self.include_skills_usage_instructions,
            include_plugin_usage_instructions: self.include_plugin_usage_instructions,
            supports_image_detail_original: self.supports_image_detail_original,
        }
    }
}

fn copy_modalities(v: &Vec<InputModality>) -> (r: Vec<InputModality>)
    ensures
        r@ == v@,
{
    let mut r: Vec<InputModality> = Vec::new();
    let mut i: usize = 0;
    while i < v.len()
        invariant
            i <= v@.len(),
            r@ == v@.subrange(0, i as int),
        decreases v@.len() - i,
    {
        r.push(v[i]);
        i = i + 1;
    }
    assert(r@ =~= v@);
    r
}

fn copy_presets(v: &Vec<ReasoningEffortPreset>) -> (r: Vec<ReasoningEffortPreset>)
    ensures
        r@.map_values(|p: ReasoningEffortPreset| (p.effort, p.description@)) == v@.map_values(
            |p: ReasoningEffortPreset| (p.effort, p.description@),
        ),
{
    let mut r: Vec<ReasoningEffortPreset> = Vec::new();
    let mut i: usize = 0;
    while i < v.len()
        invariant
            i <= v@.len(),
            r@.len() == i,
            forall|j: int|
                0 <= j < i ==> (#[trigger] r@[j]).effort == v@[j].effort && r@[j].description@
                    == v@[j].description@,
        decreases v@.len() - i,
    {
        r.push(ReasoningEffortPreset { effort: v[i].effort, description: v[i].description.clone() });
        i = i + 1;
    }
    assert(r@.map_values(|p: ReasoningEffortPreset| (p.effort, p.description@)) =~= v@.map_values(
        |p: ReasoningEffortPreset| (p.effort, p.description@),
    ));
    r
}

impl ModelInfo {
    /// A copy with the same content.
    pub fn duplicate(&self) -> (r: ModelInfo)
        ensures
            r@ == self@,
    {
        ModelInfo {
            slug: self.slug.clone(),
            display_name: self.display_name.clone(),
            description: match &self.description {
                Some(d) => Some(d.clone()),
                None => None,
            },
            context_window: self.context_window,
            max_context_window: self.max_context_window,
            visibility: self.visibility,
            input_modalities: copy_modalities(&self.input_modalities),
            supports_reasoning_summary_parameter: self.supports_reasoning_summary_parameter,
            default_reasoning_summary: self.default_reasoning_summary,
            tool_mode: self.tool_mode,
            node_repl_disabled: self.node_repl_disabled,
            used_fallback_model_metadata: self.used_fallback_model_metadata,
            multi_agent_version: self.multi_agent_version,
            default_reasoning_level: self.default_reasoning_level,
            supported_reasoning_levels: copy_presets(&self.supported_reasoning_levels),
            support_verbosity: self.support_verbosity,
            default_verbosity: self.default_verbosity,
            apply_patch_tool_type: self.apply_patch_tool_type,
            truncation_token_limit: self.truncation_token_limit,
            include_skills_usage_instructions: self.include_skills_usage_instructions,
            include_plugin_usage_instructions: self.include_plugin_usage_instructions,
            supports_image_detail_original: self.supports_image_detail_original,
        }
    }
}

/// Copies of every model of `v`, in order.
pub fn duplicate_models(v: &Vec<ModelInfo>) -> (r: Vec<ModelInfo>)
    ensures
        model_views(r@) == model_views(v@),
{
    let mut r: Vec<ModelInfo> = Vec::new();
    let mut i: usize = 0;
    while i < v.len()
        invariant
            i <= v@.len(),
            model_views(r@) == model_views(v@).subrange(0, i as int),
        decreases v@.len() - i,
    {
        let m = v[i].duplicate();
        let ghost before = r@;
        r.push(m);
        assert(model_views(r@) =~= model_views(before).push(m@));
        i = i + 1;
    }
    assert(model_views(v@).subrange(0, v@.len() as int) =~= model_views(v@));
    r
}

/// The views of a list of models.
pub open spec fn model_views(v: Seq<ModelInfo>) -> Seq<ModelInfoView> {
    v.map_values(|m: ModelInfo| m@)
}

/// The context window assumed for locally served models.
pub const LOCAL_CONTEXT_WINDOW: i64 = 32_768;

/// The context window of the native DeepSeek models.
pub const DEEPSEEK_CONTEXT_WINDOW: i64 = 1_048_576;

/// The token limit of the DeepSeek truncation policy.
pub const DEEPSEEK_TRUNCATION_TOKENS: i64 = 10_000;

/// Metadata that knows nothing about a model but its slug.
pub open spec fn minimal_view(slug: Seq<char>) -> ModelInfoView {
    ModelInfoView {
        slug: slug,
        display_name: slug,
        description: None,
        context_window: None,
        max_context_window: None,
        visibility: ModelVisibility::Unspecified,
        input_modalities: seq![InputModality::Text, InputModality::Image],
        supports_reasoning_summary_parameter: true,
        default_reasoning_summary: ReasoningSummary::Auto,
        tool_mode: None,
        node_repl_disabled: false,
        used_fallback_model_metadata: true,
        multi_agent_version: None,
        default_reasoning_level: None,
        supported_reasoning_levels: seq![],
        support_verbosity: false,
        default_verbosity: None,
        apply_patch_tool_type: None,
        truncation_token_limit: None,
        include_skills_usage_instructions: false,
        include_plugin_usage_instructions: false,
        supports_image_detail_original: false,
    }
}

/// Conservative metadata for a locally served model, custom fine-tunes included:
/// listed, text only, a 32k context, no reasoning summaries, direct tools.
pub open spec fn local_model_view(slug: Seq<char>) -> ModelInfoView {
    ModelInfoView {
        visibility: ModelVisibility::List,
        input_modalities: seq![InputModality::Text],
        context_window: Some(LOCAL_CONTEXT_WINDOW),
        max_context_window: None,
        supports_reasoning_summary_parameter: false,
        default_reasoning_summary: ReasoningSummary::Disabled,
        tool_mode: Some(ToolMode::Direct),
        node_repl_disabled: true,
        used_fallback_model_metadata: false,
        ..minimal_view(slug)
    }
}

pub fn minimal_model_info(slug: &str) -> (m: ModelInfo)
    ensures
        m@ == minimal_view(slug@),
{
    let m = ModelInfo {
        slug: slug.to_owned(),
        display_name: slug.to_owned(),
        description: None,
        context_window: None,
        max_context_window: None,
        visibility: ModelVisibility::Unspecified,
        input_modalities: vec![InputModality::Text, InputModality::Image],
        supports_reasoning_summary_parameter: true,
        default_reasoning_summary: ReasoningSummary::Auto,
        tool_mode: None,
        node_repl_disabled: false,
        used_fallback_model_metadata: true,
        multi_agent_version: None,
        default_reasoning_level: None,
        supported_reasoning_levels: Vec::new(),
        support_verbosity: false,
        default_verbosity: None,
        apply_patch_tool_type: None,
        truncation_token_limit: None,
        include_skills_usage_instructions: false,
        include_plugin_usage_instructions: false,
        supports_image_detail_original: false,
    };
    assert(m@.input_modalities =~= seq![InputModality::Text, InputModality::Image]);
    assert(m@.supported_reasoning_levels =~= seq![]);
    m
}

/// Conservative metadata for locally served models, including custom fine-tunes.
pub fn local_model_info(slug: &str) -> (m: ModelInfo)
    ensures
        m@ == local_model_view(slug@),
{
    let mut model = minimal_model_info(slug);
    model.visibility = ModelVisibility::List;
    model.input_modalities = vec![InputModality::Text];
    model.context_window = Some(LOCAL_CONTEXT_WINDOW);
    model.max_context_window = None;
    model.supports_reasoning_summary_parameter = false;
    model.default_reasoning_summary = ReasoningSummary::Disabled;
    model.tool_mode = Some(ToolMode::Direct);
    model.node_repl_disabled = true;
    model.used_fallback_model_metadata = false;
    assert(model@.input_modalities =~= seq![InputModality::Text]);
    model
}

/// How a reasoning effort is written.
pub open spec fn effort_name(e: ReasoningEffort) -> Seq<char> {
    match e {
        ReasoningEffort::Disabled => seq!['n', 'o', 'n', 'e'],
        ReasoningEffort::Minimal => seq!['m', 'i', 'n', 'i', 'm', 'a', 'l'],
        ReasoningEffort::Low => seq!['l', 'o', 'w'],
        ReasoningEffort::Medium => seq!['m', 'e', 'd', 'i', 'u', 'm'],
        ReasoningEffort::High => seq!['h', 'i', 'g', 'h'],
        ReasoningEffort::XHigh => seq!['x', 'h', 'i', 'g', 'h'],
        ReasoningEffort::Max => seq!['m', 'a', 'x'],
    }
}

pub fn effort_text(e: ReasoningEffort) -> (s: String)
    ensures
        s@ == effort_name(e),
{
    let v: Vec<char> = match e {
        ReasoningEffort::Disabled => vec!['n', 'o', 'n', 'e'],
        ReasoningEffort::Minimal => vec!['m', 'i', 'n', 'i', 'm', 'a', 'l'],
        ReasoningEffort::Low => vec!['l', 'o', 'w'],
        ReasoningEffort::Medium => vec!['m', 'e', 'd', 'i', 'u', 'm'],
        ReasoningEffort::High => vec!['h', 'i', 'g', 'h'],
        ReasoningEffort::XHigh => vec!['x', 'h', 'i', 'g', 'h'],
        ReasoningEffort::Max => vec!['m', 'a', 'x'],
    };
    assert(v@ =~= effort_name(e));
    string_from_chars(v.as_slice())
}

pub open spec fn reasoning_suffix() -> Seq<char> {
    seq![' ', 'r', 'e', 'a', 's', 'o', 'n', 'i', 'n', 'g', ' ', 'e', 'f', 'f', 'o', 'r', 't']
}

/// The preset offered for a DeepSeek reasoning effort.
pub fn effort_preset(e: ReasoningEffort) -> (p: ReasoningEffortPreset)
    ensures
        p.effort == e,
        p.description@ == effort_name(e) + reasoning_suffix(),
{
    let mut d = effort_text(e);
    let suffix = " reasoning effort";
    proof {
        reveal_strlit(" reasoning effort");
        assert(suffix@ =~= reasoning_suffix());
    }
    d.append(suffix);
    ReasoningEffortPreset { effort: e, description: d }
}

/// The efforts offered by the native DeepSeek models.
pub open spec fn deepseek_efforts() -> Seq<ReasoningEffort> {
    seq![ReasoningEffort::Low, ReasoningEffort::High, ReasoningEffort::Max]
}

pub open spec fn is_flash(slug: Seq<char>) -> bool {
    slug == "deepseek-flash"@
}

/// Metadata of a native DeepSeek model: the local profile with a 1M context,
/// low/high/max reasoning, low verbosity, freeform patches and a 10k-token
/// truncation policy; the Flash model also accepts images.
pub open spec fn deepseek_view(slug: Seq<char>, display_name: Seq<char>) -> ModelInfoView {
    ModelInfoView {
        display_name: display_name,
        description: Some("DeepSeek API · native Responses transport"@),
        context_window: Some(DEEPSEEK_CONTEXT_WINDOW),
        max_context_window: Some(DEEPSEEK_CONTEXT_WINDOW),
        multi_agent_version: Some(MultiAgentVersion::V2),
        default_reasoning_level: Some(ReasoningEffort::High),
        supported_reasoning_levels: deepseek_efforts().map_values(
            |e: ReasoningEffort| (e, effort_name(e) + reasoning_suffix()),
        ),
        support_verbosity: true,
        default_verbosity: Some(Verbosity::Low),
        apply_patch_tool_type: Some(ApplyPatchToolType::Freeform),
        truncation_token_limit: Some(DEEPSEEK_TRUNCATION_TOKENS),
        include_skills_usage_instructions: true,
        include_plugin_usage_instructions: true,
        input_modalities: if is_flash(slug) {
            seq![InputModality::Text, InputModality::Image]
        } else {
            seq![InputModality::Text]
        },
        supports_image_detail_original: is_flash(slug),
        ..local_model_view(slug)
    }
}

/// The display name of a native DeepSeek model.
pub open spec fn deepseek_display_name(slug: Seq<char>) -> Seq<char> {
    if is_flash(slug) {
        "DeepSeek Flash"@
    } else {
        "DeepSeek V4 Pro"@
    }
}

pub fn model_info(slug: &str) -> (m: ModelInfo)
    ensures
        m@ == deepseek_view(slug@, deepseek_display_name(slug@)),
        slug@ == "deepseek-flash"@ ==> m@.input_modalities == seq![InputModality::Text, InputModality::Image]
            && m@.supports_image_detail_original,
        slug@ != "deepseek-flash"@ ==> m@.input_modalities == seq![InputModality::Text]
            && !m@.supports_image_detail_original,
{
    let flash = str_eq(slug, "deepseek-flash");
    let mut model = local_model_info(slug);
    model.display_name = if flash {
        "DeepSeek Flash".to_owned()
    } else {
        "DeepSeek V4 Pro".to_owned()
    };
    model.description = Some("DeepSeek API · native Responses transport".to_owned());
    model.context_window = Some(DEEPSEEK_CONTEXT_WINDOW);
    model.max_context_window = Some(DEEPSEEK_CONTEXT_WINDOW);
    model.multi_agent_version = Some(MultiAgentVersion::V2);
    model.default_reasoning_level = Some(ReasoningEffort::High);
    model.supported_reasoning_levels = vec![
        effort_preset(ReasoningEffort::Low),
        effort_preset(ReasoningEffort::High),
        effort_preset(ReasoningEffort::Max),
    ];
    model.support_verbosity = true;
    model.default_verbosity = Some(Verbosity::Low);
    model.apply_patch_tool_type = Some(ApplyPatchToolType::Freeform);
    model.truncation_token_limit = Some(DEEPSEEK_TRUNCATION_TOKENS);
    model.include_skills_usage_instructions = true;
    model.include_plugin_usage_instructions = true;
    if flash {
        model.input_modalities.push(InputModality::Image);
        model.supports_image_detail_original = true;
    }
    assert(model@.supported_reasoning_levels =~= deepseek_efforts().map_values(
        |e: ReasoningEffort| (e, effort_name(e) + reasoning_suffix()),
    ));
    assert(model@.input_modalities =~= (if is_flash(slug@) {
        seq![InputModality::Text, InputModality::Image]
    } else {
        seq![InputModality::Text]
    }));
    model
}

/// Only the Flash model accepts images, with original image detail; every
/// other native DeepSeek model takes text alone.
pub proof fn lemma_only_flash_accepts_images(slug: Seq<char>, display_name: Seq<char>)
    ensures
        slug == "deepseek-flash"@ ==> deepseek_view(slug, display_name).input_modalities == seq![
            InputModality::Text,
            InputModality::Image,
        ] && deepseek_view(slug, display_name).supports_image_detail_original,
        slug != "deepseek-flash"@ ==> deepseek_view(slug, display_name).input_modalities == seq![
            InputModality::Text,
        ] && !deepseek_view(slug, display_name).supports_image_detail_original,
{
}

/// The models of DeepSeek's native Responses API.
pub open spec fn deepseek_slugs() -> Seq<Seq<char>> {
    seq!["deepseek-flash"@, "deepseek-v4-pro"@]
}

/// Models supported by DeepSeek's native Responses API, in this order:
/// `deepseek-flash`, `deepseek-v4-pro`.
pub fn catalog() -> (models: Vec<ModelInfo>)
    ensures
        model_views(models@) == deepseek_slugs().map_values(
            |s: Seq<char>| deepseek_view(s, deepseek_display_name(s)),
        ),
        models@.len() == 2,
        models@[0]@.slug == "deepseek-flash"@,
        models@[0]@.input_modalities == seq![InputModality::Text, InputModality::Image],
        models@[0]@.supports_image_detail_original,
        models@[1]@.slug == "deepseek-v4-pro"@,
        models@[1]@.input_modalities == seq![InputModality::Text],
        !models@[1]@.supports_image_detail_original,
{
    proof {
        reveal_strlit("deepseek-flash");
        reveal_strlit("deepseek-v4-pro");
    }
    assert("deepseek-v4-pro"@ != "deepseek-flash"@) by {
        assert("deepseek-v4-pro"@[9] != "deepseek-flash"@[9]);
    }
    let models = vec![model_info("deepseek-flash"), model_info("deepseek-v4-pro")];
    assert(model_views(models@) =~= deepseek_slugs().map_values(
        |s: Seq<char>| deepseek_view(s, deepseek_display_name(s)),
    ));
    models
}

} // verus!
