//! The native provider picker of `/model`: which providers it offers, how a
//! provider's models become choices, which replies it takes, and how a local
//! download is shown; and the rules by which the application acts on a choice.
use crate::model_info::{
    effort_name, effort_text, opt_view, ModelInfo, ModelVisibility, ReasoningEffort,
};
use crate::text::{append_str, str_eq};
use vstd::prelude::*;

verus! {

/// A model as a picker offers it.
pub struct ModelPreset {
    pub model: String,
    pub display_name: String,
    pub description: String,
    pub supported_reasoning_efforts: Vec<ReasoningEffort>,
    pub show_in_picker: bool,
}

pub struct ModelPresetView {
    pub model: Seq<char>,
    pub display_name: Seq<char>,
    pub description: Seq<char>,
    pub supported_reasoning_efforts: Seq<ReasoningEffort>,
    pub show_in_picker: bool,
}

impl View for ModelPreset {
    type V = ModelPresetView;

    open spec fn view(&self) -> ModelPresetView {
        ModelPresetView {
            model: self.model@,
            display_name: self.display_name@,
            description: self.description@,
            supported_reasoning_efforts: self.supported_reasoning_efforts@,
            show_in_picker: self.show_in_picker,
        }
    }
}

/// The views of a list of presets.
pub open spec fn preset_views(v: Seq<ModelPreset>) -> Seq<ModelPresetView> {
    Seq::new(v.len(), |i: int| v[i]@)
}

/// The preset of a model's metadata: its slug, name and description, the
/// efforts it supports, and whether it is listed.
pub open spec fn preset_of(m: crate::model_info::ModelInfoView) -> ModelPresetView {
    ModelPresetView {
        model: m.slug,
        display_name: m.display_name,
        description: match m.description {
            Some(d) => d,
            None => Seq::empty(),
        },
        supported_reasoning_efforts: Seq::new(
            m.supported_reasoning_levels.len(),
            |i: int| m.supported_reasoning_levels[i].0,
        ),
        show_in_picker: m.visibility == ModelVisibility::List,
    }
}

/// The preset of a model.
pub fn model_preset(m: &ModelInfo) -> (p: ModelPreset)
    ensures
        p@ == preset_of(m@),
{
    let mut efforts: Vec<ReasoningEffort> = Vec::new();
    let mut i: usize = 0;
    while i < m.supported_reasoning_levels.len()
        invariant
            i <= m.supported_reasoning_levels@.len(),
            m@.supported_reasoning_levels.len() == m.supported_reasoning_levels@.len(),
            efforts@ =~= Seq::new(i as nat, |j: int| m@.supported_reasoning_levels[j].0),
        decreases m.supported_reasoning_levels@.len() - i,
    {
        efforts.push(m.supported_reasoning_levels[i].effort);
        i = i + 1;
    }
    let description = match &m.description {
        Some(d) => d.clone(),
        None => String::new(),
    };
    let show = match m.visibility {
        ModelVisibility::List => true,
        _ => false,
    };
    ModelPreset {
        model: m.slug.clone(),
        display_name: m.display_name.clone(),
        description,
        supported_reasoning_efforts: efforts,
        show_in_picker: show,
    }
}


/// The views a picker can show under a name, so that they can be found again.
#[derive(Clone, Copy, Debug, PartialEq, Eq, Structural)]
pub enum ViewId {
    ProviderModels,
    LocalDownload,
}

/// What choosing an entry, or cancelling a view, asks the application for.
pub enum PickerAction {
    Nothing,
    OpenProviderModels(String),
    SelectProviderModel {
        provider: String,
        model: String,
        effort: Option<ReasoningEffort>,
        models: Vec<ModelPreset>,
    },
    CancelLocalDownload(u128),
}

pub enum PickerActionView {
    Nothing,
    OpenProviderModels(Seq<char>),
    SelectProviderModel {
        provider: Seq<char>,
        model: Seq<char>,
        effort: Option<ReasoningEffort>,
        models: Seq<ModelPresetView>,
    },
    CancelLocalDownload(u128),
}

impl View for PickerAction {
    type V = PickerActionView;

    open spec fn view(&self) -> PickerActionView {
        match *self {
            PickerAction::Nothing => PickerActionView::Nothing,
            PickerAction::OpenProviderModels(p) => PickerActionView::OpenProviderModels(p@),
            PickerAction::SelectProviderModel { provider, model, effort, models } => {
                PickerActionView::SelectProviderModel {
                    provider: provider@,
                    model: model@,
                    effort,
                    models: preset_views(models@),
                }
            },
            PickerAction::CancelLocalDownload(id) => PickerActionView::CancelLocalDownload(id),
        }
    }
}

/// One entry of a selection view.
pub struct PickerItem {
    pub name: String,
    pub description: Option<String>,
    pub is_current: bool,
    pub action: PickerAction,
}

pub struct PickerItemView {
    pub name: Seq<char>,
    pub description: Option<Seq<char>>,
    pub is_current: bool,
    pub action: PickerActionView,
}

impl View for PickerItem {
    type V = PickerItemView;

    open spec fn view(&self) -> PickerItemView {
        PickerItemView {
            name: self.name@,
            description: opt_view(self.description),
            is_current: self.is_current,
            action: self.action@,
        }
    }
}

/// The views of a list of entries.
pub open spec fn item_views(v: Seq<PickerItem>) -> Seq<PickerItemView> {
    Seq::new(v.len(), |i: int| v[i]@)
}

/// A selection view: its name, title, subtitle, entries and what cancelling asks for.
pub struct SelectionViewParams {
    pub view_id: Option<ViewId>,
    pub title: String,
    pub subtitle: Option<String>,
    pub items: Vec<PickerItem>,
    pub on_cancel: PickerAction,
}

pub struct SelectionParamsView {
    pub view_id: Option<ViewId>,
    pub title: Seq<char>,
    pub subtitle: Option<Seq<char>>,
    pub items: Seq<PickerItemView>,
    pub on_cancel: PickerActionView,
}

impl View for SelectionViewParams {
    type V = SelectionParamsView;

    open spec fn view(&self) -> SelectionParamsView {
        SelectionParamsView {
            view_id: self.view_id,
            title: self.title@,
            subtitle: opt_view(self.subtitle),
            items: item_views(self.items@),
            on_cancel: self.on_cancel@,
        }
    }
}

/// The providers the picker offers: id, name and description, in order.
pub open spec fn provider_entries() -> Seq<(Seq<char>, Seq<char>, Seq<char>)> {
    seq![
        ("openai"@, "OpenAI"@, "ChatGPT and OpenAI API models"@),
        ("deepseek"@, "DeepSeek API"@, "DeepSeek Flash and V4 Pro · DEEPSEEK_API_KEY"@),
        ("mlx"@, "Local · MLX / Qwen"@, "Discover downloaded MLX models and the local server"@),
        ("ollama"@, "Local · Ollama"@, "Discover installed models, including custom fine-tunes"@),
        ("lmstudio"@, "Local · LM Studio"@, "Discover models served by LM Studio"@),
    ]
}

/// Whether the picker offers provider `id`.
pub open spec fn is_native_provider(id: Seq<char>) -> bool {
    exists|i: int| 0 <= i < provider_entries().len() && #[trigger] provider_entries()[i].0 == id
}

/// The provider picker when `current` is the configured provider.
pub open spec fn provider_picker_view(current: Seq<char>) -> SelectionParamsView {
    SelectionParamsView {
        view_id: None,
        title: "Select Model Provider"@,
        subtitle: Some("Changing provider starts a new task; previous tasks remain resumable."@),
        items: Seq::new(
            provider_entries().len(),
            |i: int|
                PickerItemView {
                    name: provider_entries()[i].1,
                    description: Some(provider_entries()[i].2),
                    is_current: provider_entries()[i].0 == current,
                    action: PickerActionView::OpenProviderModels(provider_entries()[i].0),
                },
        ),
        on_cancel: PickerActionView::Nothing,
    }
}

/// The view shown while a provider's models load.
pub open spec fn loading_view() -> SelectionParamsView {
    SelectionParamsView {
        view_id: Some(ViewId::ProviderModels),
        title: "Loading models…"@,
        subtitle: None,
        items: seq![
            PickerItemView {
                name: "Waiting for provider…"@,
                description: None,
                is_current: false,
                action: PickerActionView::Nothing,
            },
        ],
        on_cancel: PickerActionView::Nothing,
    }
}

/// The efforts a model is offered with: its supported efforts, or no
/// reasoning when it lists none.
pub open spec fn offered_efforts(m: ModelPresetView) -> Seq<ReasoningEffort> {
    if m.supported_reasoning_efforts.len() == 0 {
        seq![ReasoningEffort::Disabled]
    } else {
        m.supported_reasoning_efforts
    }
}

/// The entry for model `m` of `provider` with effort `e`.
pub open spec fn effort_item(
    provider: Seq<char>,
    all: Seq<ModelPresetView>,
    m: ModelPresetView,
    e: ReasoningEffort,
) -> PickerItemView {
    PickerItemView {
        name: m.display_name + " · "@ + effort_name(e),
        description: if provider == "mlx"@ {
            Some(m.description)
        } else {
            None
        },
        is_current: false,
        action: PickerActionView::SelectProviderModel {
            provider,
            model: m.model,
            effort: Some(e),
            models: all,
        },
    }
}

/// The entries of one model: one per offered effort, none when it is not listed.
pub open spec fn items_of_model(
    provider: Seq<char>,
    all: Seq<ModelPresetView>,
    m: ModelPresetView,
) -> Seq<PickerItemView> {
    if m.show_in_picker {
        offered_efforts(m).map_values(|e: ReasoningEffort| effort_item(provider, all, m, e))
    } else {
        Seq::empty()
    }
}

/// The entries of a provider's models, model by model.
pub open spec fn model_items(
    provider: Seq<char>,
    all: Seq<ModelPresetView>,
    ms: Seq<ModelPresetView>,
) -> Seq<PickerItemView>
    decreases ms.len(),
{
    if ms.len() == 0 {
        Seq::empty()
    } else {
        model_items(provider, all, ms.drop_last()) + items_of_model(provider, all, ms.last())
    }
}

/// The view that lists a provider's models.
pub open spec fn models_view(provider: Seq<char>, items: Seq<PickerItemView>) -> SelectionParamsView {
    SelectionParamsView {
        view_id: Some(ViewId::ProviderModels),
        title: "Select "@ + provider + " model"@,
        subtitle: Some("Select a model and effort. A provider change starts a new task."@),
        items,
        on_cancel: PickerActionView::Nothing,
    }
}

/// The view of a running local download, which cancels it when chosen or closed.
pub open spec fn download_view_spec(id: u128, message: Seq<char>) -> SelectionParamsView {
    SelectionParamsView {
        view_id: Some(ViewId::LocalDownload),
        title: "Preparing local model"@,
        subtitle: Some(message),
        items: seq![
            PickerItemView {
                name: "Cancel (partial files are kept for resume)"@,
                description: None,
                is_current: false,
                action: PickerActionView::CancelLocalDownload(id),
            },
        ],
        on_cancel: PickerActionView::CancelLocalDownload(id),
    }
}

fn item(name: &str, description: Option<String>, is_current: bool, action: PickerAction) -> (r:
    PickerItem)
    ensures
        r@ == (PickerItemView {
            name: name@,
            description: opt_view(description),
            is_current,
            action: action@,
        }),
{
    PickerItem { name: name.to_owned(), description, is_current, action }
}

/// The view of a running local download.
pub fn download_view(id: u128, message: String) -> (v: SelectionViewParams)
    ensures
        v@ == download_view_spec(id, message@),
{
    let cancel = item(
        "Cancel (partial files are kept for resume)",
        None,
        false,
        PickerAction::CancelLocalDownload(id),
    );
    let v = SelectionViewParams {
        view_id: Some(ViewId::LocalDownload),
        title: "Preparing local model".to_owned(),
        subtitle: Some(message),
        items: vec![cancel],
        on_cancel: PickerAction::CancelLocalDownload(id),
    };
    assert(v@.items =~= download_view_spec(id, message@).items);
    v
}

/// The provider picker when `current` is the configured provider.
pub fn provider_picker(current: &str) -> (v: SelectionViewParams)
    ensures
        v@ == provider_picker_view(current@),
{
    let ids = ["openai", "deepseek", "mlx", "ollama", "lmstudio"];
    let names = ["OpenAI", "DeepSeek API", "Local · MLX / Qwen", "Local · Ollama", "Local · LM Studio"];
    let descriptions = [
        "ChatGPT and OpenAI API models",
        "DeepSeek Flash and V4 Pro · DEEPSEEK_API_KEY",
        "Discover downloaded MLX models and the local server",
        "Discover installed models, including custom fine-tunes",
        "Discover models served by LM Studio",
    ];
    let ghost entries = provider_entries();
    assert(forall|i: int| 0 <= i < 5 ==> (#[trigger] ids@[i])@ == entries[i].0 && names@[i]@
        == entries[i].1 && descriptions@[i]@ == entries[i].2);
    let mut items: Vec<PickerItem> = Vec::new();
    let mut i: usize = 0;
    while i < 5
        invariant
            i <= 5,
            entries == provider_entries(),
            ids@.len() == 5 && names@.len() == 5 && descriptions@.len() == 5,
            forall|j: int| 0 <= j < 5 ==> (#[trigger] ids@[j])@ == entries[j].0 && names@[j]@
                == entries[j].1 && descriptions@[j]@ == entries[j].2,
            item_views(items@) =~= Seq::new(
                i as nat,
                |j: int|
                    PickerItemView {
                        name: entries[j].1,
                        description: Some(entries[j].2),
                        is_current: entries[j].0 == current@,
                        action: PickerActionView::OpenProviderModels(entries[j].0),
                    },
            ),
        decreases 5 - i,
    {
        let id = ids[i];
        let it = item(
            names[i],
            Some(descriptions[i].to_owned()),
            str_eq(current, id),
            PickerAction::OpenProviderModels(id.to_owned()),
        );
        let ghost before = items@;
        items.push(it);
        assert(item_views(items@) =~= item_views(before).push(it@));
        i = i + 1;
    }
    let v = SelectionViewParams {
        view_id: None,
        title: "Select Model Provider".to_owned(),
        subtitle: Some(
            "Changing provider starts a new task; previous tasks remain resumable.".to_owned(),
        ),
        items,
        on_cancel: PickerAction::Nothing,
    };
    assert(v@.items =~= provider_picker_view(current@).items);
    v
}


fn model_effort_item(
    provider: &str,
    is_mlx: bool,
    all: &Vec<ModelPreset>,
    m: &ModelPreset,
    e: ReasoningEffort,
) -> (r: PickerItem)
    requires
        is_mlx == (provider@ == "mlx"@),
    ensures
        r@ == effort_item(provider@, preset_views(all@), m@, e),
{
    let mut name = m.display_name.clone();
    append_str(&mut name, " · ");
    let effort = effort_text(e);
    append_str(&mut name, effort.as_str());
    let description = if is_mlx {
        Some(m.description.clone())
    } else {
        None
    };
    PickerItem {
        name,
        description,
        is_current: false,
        action: PickerAction::SelectProviderModel {
            provider: provider.to_owned(),
            model: m.model.clone(),
            effort: Some(e),
            models: clone_presets(all),
        },
    }
}

/// The entries for a provider's models: for each listed model, one entry per
/// offered effort, in order.
pub fn provider_model_items(provider: &str, models: &Vec<ModelPreset>) -> (r: Vec<PickerItem>)
    ensures
        item_views(r@) == model_items(provider@, preset_views(models@), preset_views(models@)),
{
    let is_mlx = str_eq(provider, "mlx");
    let ghost ms = preset_views(models@);
    let mut items: Vec<PickerItem> = Vec::new();
    let mut i: usize = 0;
    while i < models.len()
        invariant
            i <= models@.len(),
            ms == preset_views(models@),
            is_mlx == (provider@ == "mlx"@),
            item_views(items@) == model_items(provider@, ms, ms.take(i as int)),
        decreases models@.len() - i,
    {
        let m = &models[i];
        let ghost prefix = items@;
        assert(ms.take(i as int + 1).drop_last() =~= ms.take(i as int));
        assert(ms.take(i as int + 1).last() == m@);
        if m.show_in_picker {
            let no_efforts = m.supported_reasoning_efforts.len() == 0;
            let efforts: Vec<ReasoningEffort> = if no_efforts {
                vec![ReasoningEffort::Disabled]
            } else {
                m.supported_reasoning_efforts.clone()
            };
            assert(efforts@ =~= offered_efforts(m@));
            let mut k: usize = 0;
            while k < efforts.len()
                invariant
                    k <= efforts@.len(),
                    efforts@ == offered_efforts(m@),
                    is_mlx == (provider@ == "mlx"@),
                    ms == preset_views(models@),
                    item_views(items@) =~= item_views(prefix) + efforts@.take(k as int).map_values(
                        |e: ReasoningEffort| effort_item(provider@, ms, m@, e),
                    ),
                decreases efforts@.len() - k,
            {
                let it = model_effort_item(provider, is_mlx, models, m, efforts[k]);
                let ghost before = items@;
                items.push(it);
                assert(item_views(items@) =~= item_views(before).push(it@));
                assert(efforts@.take(k as int + 1) =~= efforts@.take(k as int).push(efforts@[k as int]));
                k = k + 1;
            }
            assert(efforts@.take(efforts@.len() as int) =~= efforts@);
        } else {
            assert(items_of_model(provider@, ms, m@) =~= Seq::<PickerItemView>::empty());
            assert(item_views(items@) =~= item_views(prefix) + items_of_model(provider@, ms, m@));
        }
        i = i + 1;
    }
    assert(ms.take(models@.len() as int) =~= ms);
    items
}


/// What the chat widget asks of the rest of the interface after a call.
pub enum WidgetEffect {
    Nothing,
    /// Open the model popup of the configured provider.
    OpenModelPopup,
    /// Open the model popup with these presets.
    OpenModelPopupWithPresets(Vec<ModelPreset>),
    /// Show an error message in the history.
    ErrorMessage(String),
    /// A modal view was closed; settings input waits no longer.
    ModalClosed,
}

pub enum WidgetEffectView {
    Nothing,
    OpenModelPopup,
    OpenModelPopupWithPresets(Seq<ModelPresetView>),
    ErrorMessage(Seq<char>),
    ModalClosed,
}

impl View for WidgetEffect {
    type V = WidgetEffectView;

    open spec fn view(&self) -> WidgetEffectView {
        match *self {
            WidgetEffect::Nothing => WidgetEffectView::Nothing,
            WidgetEffect::OpenModelPopup => WidgetEffectView::OpenModelPopup,
            WidgetEffect::OpenModelPopupWithPresets(v) => WidgetEffectView::OpenModelPopupWithPresets(
                preset_views(v@),
            ),
            WidgetEffect::ErrorMessage(m) => WidgetEffectView::ErrorMessage(m@),
            WidgetEffect::ModalClosed => WidgetEffectView::ModalClosed,
        }
    }
}

/// The picker state of the chat widget: whether a session is configured, its
/// provider, the request whose reply a picker waits for, the selection view
/// on top, and the model catalog of the provider.
pub struct ChatWidget {
    pub session_configured: bool,
    pub model_provider_id: String,
    pub model_popup_request_id: Option<u128>,
    pub view: Option<SelectionViewParams>,
    pub catalog: Vec<ModelPreset>,
}

pub struct ChatWidgetView {
    pub session_configured: bool,
    pub model_provider_id: Seq<char>,
    pub model_popup_request_id: Option<u128>,
    pub view: Option<SelectionParamsView>,
    pub catalog: Seq<ModelPresetView>,
}

impl View for ChatWidget {
    type V = ChatWidgetView;

    open spec fn view(&self) -> ChatWidgetView {
        ChatWidgetView {
            session_configured: self.session_configured,
            model_provider_id: self.model_provider_id@,
            model_popup_request_id: self.model_popup_request_id,
            view: match self.view {
                Some(v) => Some(v@),
                None => None,
            },
            catalog: preset_views(self.catalog@),
        }
    }
}

/// Whether the view on top is the one named `id`.
pub open spec fn shows(w: ChatWidgetView, id: ViewId) -> bool {
    w.view matches Some(v) && v.view_id == Some(id)
}

/// The widget after the view named `id` is dismissed, if it is on top.
pub open spec fn dismissed(w: ChatWidgetView, id: ViewId) -> ChatWidgetView {
    if shows(w, id) {
        ChatWidgetView { view: None, ..w }
    } else {
        w
    }
}

/// The no-models message.
pub open spec fn no_models_message() -> Seq<char> {
    "No models found. Load a model in your local server and try /model again."@
}

/// A reply with the models of `provider` for request `request_id`.
pub open spec fn show_provider_models_spec(
    w: ChatWidgetView,
    request_id: u128,
    provider: Seq<char>,
    result: Result<Seq<ModelPresetView>, Seq<char>>,
) -> (ChatWidgetView, WidgetEffectView) {
    if w.model_popup_request_id != Some(request_id) || !shows(w, ViewId::ProviderModels) {
        (w, WidgetEffectView::Nothing)
    } else {
        let w1 = ChatWidgetView { model_popup_request_id: None, ..w };
        match result {
            Err(e) => (dismissed(w1, ViewId::ProviderModels), WidgetEffectView::ErrorMessage(e)),
            Ok(models) => if models.len() == 0 {
                (
                    dismissed(w1, ViewId::ProviderModels),
                    WidgetEffectView::ErrorMessage(no_models_message()),
                )
            } else {
                let w2 = if provider == w.model_provider_id {
                    ChatWidgetView { catalog: models, ..w1 }
                } else {
                    w1
                };
                if provider == "openai"@ && w.model_provider_id == provider {
                    (
                        dismissed(w2, ViewId::ProviderModels),
                        WidgetEffectView::OpenModelPopupWithPresets(models),
                    )
                } else {
                    (
                        ChatWidgetView {
                            view: Some(models_view(provider, model_items(provider, models, models))),
                            ..w2
                        },
                        WidgetEffectView::Nothing,
                    )
                }
            },
        }
    }
}

/// The views of a reply.
pub open spec fn reply_view(r: Result<Vec<ModelPreset>, String>) -> Result<
    Seq<ModelPresetView>,
    Seq<char>,
> {
    match r {
        Ok(v) => Ok(preset_views(v@)),
        Err(e) => Err(e@),
    }
}

fn clone_presets(v: &Vec<ModelPreset>) -> (r: Vec<ModelPreset>)
    ensures
        preset_views(r@) == preset_views(v@),
{
    let mut r: Vec<ModelPreset> = Vec::new();
    let mut i: usize = 0;
    while i < v.len()
        invariant
            i <= v@.len(),
            preset_views(r@) =~= preset_views(v@).take(i as int),
        decreases v@.len() - i,
    {
        let p = &v[i];
        let c = ModelPreset {
            model: p.model.clone(),
            display_name: p.display_name.clone(),
            description: p.description.clone(),
            supported_reasoning_efforts: p.supported_reasoning_efforts.clone(),
            show_in_picker: p.show_in_picker,
        };
        let ghost before = r@;
        r.push(c);
        assert(preset_views(r@) =~= preset_views(before).push(c@));
        i = i + 1;
    }
    r
}

impl ChatWidget {
    fn shows_view(&self, id: ViewId) -> (b: bool)
        ensures
            b == shows(self@, id),
    {
        match &self.view {
            Some(v) => v.view_id == Some(id),
            None => false,
        }
    }

    fn dismiss_view_by_id(&mut self, id: ViewId)
        ensures
            final(self)@ == dismissed(old(self)@, id),
    {
        if self.shows_view(id) {
            self.view = None;
        }
    }

    /// Opens the provider picker, or the model popup when no session is
    /// configured or its provider is not one the picker offers.
    pub fn open_provider_picker(&mut self) -> (e: WidgetEffect)
        ensures
            if !old(self)@.session_configured || !is_native_provider(old(self)@.model_provider_id) {
                final(self)@ == old(self)@ && e@ == WidgetEffectView::OpenModelPopup
            } else {
                &&& final(self)@ == (ChatWidgetView {
                    model_popup_request_id: None,
                    view: Some(provider_picker_view(old(self)@.model_provider_id)),
                    ..old(self)@
                })
                &&& e@ == WidgetEffectView::Nothing
            },
    {
        let current = self.model_provider_id.as_str();
        let native = str_eq(current, "openai") || str_eq(current, "deepseek") || str_eq(
            current,
            "ollama",
        ) || str_eq(current, "lmstudio") || str_eq(current, "mlx");
        assert(native == is_native_provider(current@)) by {
            let ps = provider_entries();
            if is_native_provider(current@) {
                let i = choose|i: int| 0 <= i < ps.len() && #[trigger] ps[i].0 == current@;
                assert(i == 0 || i == 1 || i == 2 || i == 3 || i == 4);
            }
            if native {
                if current@ == "openai"@ {
                    assert(ps[0].0 == current@);
                } else if current@ == "deepseek"@ {
                    assert(ps[1].0 == current@);
                } else if current@ == "mlx"@ {
                    assert(ps[2].0 == current@);
                } else if current@ == "ollama"@ {
                    assert(ps[3].0 == current@);
                } else {
                    assert(ps[4].0 == current@);
                }
            }
        }
        if !self.session_configured || !native {
            return WidgetEffect::OpenModelPopup;
        }
        let picker = provider_picker(self.model_provider_id.as_str());
        self.model_popup_request_id = None;
        self.view = Some(picker);
        WidgetEffect::Nothing
    }

    /// Shows the loading view for request `request_id`, whose reply the picker
    /// now waits for.
    pub fn begin_provider_models(&mut self, request_id: u128)
        ensures
            final(self)@ == (ChatWidgetView {
                model_popup_request_id: Some(request_id),
                view: Some(loading_view()),
                ..old(self)@
            }),
    {
        self.model_popup_request_id = Some(request_id);
        let waiting = item("Waiting for provider…", None, false, PickerAction::Nothing);
        let v = SelectionViewParams {
            view_id: Some(ViewId::ProviderModels),
            title: "Loading models…".to_owned(),
            subtitle: None,
            items: vec![waiting],
            on_cancel: PickerAction::Nothing,
        };
        assert(v@.items =~= loading_view().items);
        self.view = Some(v);
    }

    /// Takes the reply for request `request_id`: a reply to another request,
    /// or one that comes after its view was closed, is ignored.
    pub fn show_provider_models(
        &mut self,
        request_id: u128,
        provider: String,
        result: Result<Vec<ModelPreset>, String>,
    ) -> (e: WidgetEffect)
        ensures
            (final(self)@, e@) == show_provider_models_spec(
                old(self)@,
                request_id,
                provider@,
                reply_view(result),
            ),
    {
        if self.model_popup_request_id != Some(request_id) || !self.shows_view(ViewId::ProviderModels) {
            return WidgetEffect::Nothing;
        }
        self.model_popup_request_id = None;
        let models = match result {
            Err(error) => {
                self.dismiss_view_by_id(ViewId::ProviderModels);
                return WidgetEffect::ErrorMessage(error);
            },
            Ok(models) => models,
        };
        if models.len() == 0 {
            self.dismiss_view_by_id(ViewId::ProviderModels);
            return WidgetEffect::ErrorMessage(
                "No models found. Load a model in your local server and try /model again.".to_owned(),
            );
        }
        let same = provider == self.model_provider_id;
        if same {
            self.catalog = clone_presets(&models);
        }
        if same && str_eq(provider.as_str(), "openai") {
            self.dismiss_view_by_id(ViewId::ProviderModels);
            return WidgetEffect::OpenModelPopupWithPresets(models);
        }
        let items = provider_model_items(provider.as_str(), &models);
        let mut title = "Select ".to_owned();
        append_str(&mut title, provider.as_str());
        append_str(&mut title, " model");
        self.view = Some(
            SelectionViewParams {
                view_id: Some(ViewId::ProviderModels),
                title,
                subtitle: Some(
                    "Select a model and effort. A provider change starts a new task.".to_owned(),
                ),
                items,
                on_cancel: PickerAction::Nothing,
            },
        );
        WidgetEffect::Nothing
    }

    /// Shows the view of local download `id`.
    pub fn start_local_download(&mut self, id: u128)
        ensures
            final(self)@ == (ChatWidgetView {
                view: Some(download_view_spec(id, "Checking model files…"@)),
                ..old(self)@
            }),
    {
        self.view = Some(download_view(id, "Checking model files…".to_owned()));
    }

    /// Shows `message` in the view of local download `id`, if it is on top.
    pub fn update_local_download(&mut self, id: u128, message: String)
        ensures
            final(self)@ == if shows(old(self)@, ViewId::LocalDownload) {
                ChatWidgetView { view: Some(download_view_spec(id, message@)), ..old(self)@ }
            } else {
                old(self)@
            },
    {
        if self.shows_view(ViewId::LocalDownload) {
            self.view = Some(download_view(id, message));
        }
    }

    /// Closes the view of a finished local download.
    pub fn finish_local_download(&mut self) -> (e: WidgetEffect)
        ensures
            final(self)@ == dismissed(old(self)@, ViewId::LocalDownload),
            e@ == WidgetEffectView::ModalClosed,
    {
        self.dismiss_view_by_id(ViewId::LocalDownload);
        WidgetEffect::ModalClosed
    }

    /// Closes the view on top, as the escape key does, and says what its
    /// cancellation asks for.
    pub fn cancel_view(&mut self) -> (a: PickerAction)
        ensures
            final(self)@ == (ChatWidgetView { view: None, ..old(self)@ }),
            a@ == match old(self)@.view {
                Some(v) => v.on_cancel,
                None => PickerActionView::Nothing,
            },
    {
        let mut view: Option<SelectionViewParams> = None;
        std::mem::swap(&mut view, &mut self.view);
        match view {
            Some(v) => v.on_cancel,
            None => PickerAction::Nothing,
        }
    }
}


/// A reply to an earlier request, or one that comes after its view was
/// closed, changes nothing; a reply that is taken is taken once, since any
/// further reply for the same request is then ignored.
pub proof fn lemma_replies_taken_once(
    w: ChatWidgetView,
    request_id: u128,
    provider: Seq<char>,
    result: Result<Seq<ModelPresetView>, Seq<char>>,
    again: Result<Seq<ModelPresetView>, Seq<char>>,
)
    ensures
        (w.model_popup_request_id != Some(request_id) || !shows(w, ViewId::ProviderModels))
            ==> show_provider_models_spec(w, request_id, provider, result) == (
        w,
        WidgetEffectView::Nothing,
        ),
        ({
            let w2 = show_provider_models_spec(w, request_id, provider, result).0;
            show_provider_models_spec(w2, request_id, provider, again) == (
                w2,
                WidgetEffectView::Nothing,
            )
        }),
{
}

/// Whether entry `it` selects `provider`, a listed model of `ms` and one of
/// the efforts that model is offered with, sending the reply's models `all`.
pub open spec fn selects_listed_model(
    provider: Seq<char>,
    all: Seq<ModelPresetView>,
    ms: Seq<ModelPresetView>,
    it: PickerItemView,
) -> bool {
    exists|j: int, e: ReasoningEffort|
        0 <= j < ms.len() && #[trigger] ms[j].show_in_picker && #[trigger] offered_efforts(
            ms[j],
        ).contains(e) && it.action == (PickerActionView::SelectProviderModel {
            provider,
            model: ms[j].model,
            effort: Some(e),
            models: all,
        })
}

/// Every entry of a provider's model list selects that provider, a listed
/// model of the reply and one of the efforts that model is offered with, and
/// carries the reply's models.
pub proof fn lemma_model_items_select_listed_models(
    provider: Seq<char>,
    all: Seq<ModelPresetView>,
    ms: Seq<ModelPresetView>,
)
    ensures
        forall|k: int|
            0 <= k < model_items(provider, all, ms).len() ==> selects_listed_model(
                provider,
                all,
                ms,
                #[trigger] model_items(provider, all, ms)[k],
            ),
    decreases ms.len(),
{
    if ms.len() > 0 {
        let init = ms.drop_last();
        lemma_model_items_select_listed_models(provider, all, init);
        let head = model_items(provider, all, init);
        let tail = items_of_model(provider, all, ms.last());
        assert(model_items(provider, all, ms) == head + tail);
        assert forall|k: int| 0 <= k < model_items(provider, all, ms).len() implies selects_listed_model(
            provider,
            all,
            ms,
            #[trigger] model_items(provider, all, ms)[k],
        ) by {
            let it = model_items(provider, all, ms)[k];
            if k < head.len() {
                assert(it == head[k]);
                assert(selects_listed_model(provider, all, init, head[k]));
                let (j, e) = choose|j: int, e: ReasoningEffort|
                    0 <= j < init.len() && #[trigger] init[j].show_in_picker
                        && #[trigger] offered_efforts(init[j]).contains(e) && head[k].action == (
                    PickerActionView::SelectProviderModel {
                        provider,
                        model: init[j].model,
                        effort: Some(e),
                        models: all,
                    });
                assert(ms[j] == init[j]);
                assert(ms[j].show_in_picker && offered_efforts(ms[j]).contains(e));
            } else {
                let m = ms.last();
                let j = ms.len() - 1;
                assert(it == tail[k - head.len()]);
                assert(m.show_in_picker);
                let e = offered_efforts(m)[k - head.len()];
                assert(offered_efforts(m).contains(e));
                assert(ms[j] == m);
                assert(ms[j].show_in_picker && offered_efforts(ms[j]).contains(e));
            }
        }
    }
}

/// The provider picker marks as current exactly the entry of the configured
/// provider, so at most one entry.
pub proof fn lemma_one_current_provider(current: Seq<char>)
    ensures
        forall|i: int|
            0 <= i < provider_picker_view(current).items.len() ==> (
            #[trigger] provider_picker_view(current).items[i]).is_current == (
            provider_entries()[i].0 == current),
        forall|i: int, j: int|
            0 <= i < j < provider_picker_view(current).items.len() ==> !(
            #[trigger] provider_picker_view(current).items[i].is_current
                && #[trigger] provider_picker_view(current).items[j].is_current),
{
    reveal_strlit("openai");
    reveal_strlit("deepseek");
    reveal_strlit("mlx");
    reveal_strlit("ollama");
    reveal_strlit("lmstudio");
    let ps = provider_entries();
    assert(ps[0].0[0] != ps[1].0[0] && ps[0].0.len() != ps[2].0.len() && ps[0].0[1] != ps[3].0[1]
        && ps[0].0.len() != ps[4].0.len());
    assert(ps[1].0.len() != ps[2].0.len() && ps[1].0.len() != ps[3].0.len() && ps[1].0[0]
        != ps[4].0[0]);
    assert(ps[2].0.len() != ps[3].0.len() && ps[2].0.len() != ps[4].0.len());
    assert(ps[3].0.len() != ps[4].0.len());
}


/// What the application does when a provider's models are asked for.
pub enum FetchPlan {
    /// Open the model popup of the configured provider.
    OpenModelPopup,
    /// Report the message.
    ErrorMessage(String),
    /// Show the loading view and ask the app server for the models.
    Request,
}

/// The message when provider switching needs the local app server.
pub open spec fn needs_local_server_message() -> Seq<char> {
    "Native provider switching requires the local app server."@
}

/// Against a remote app server only the configured provider's popup opens.
pub fn provider_fetch_plan(remote: bool, provider: &str, current: &str) -> (p: FetchPlan)
    ensures
        remote && provider@ == current@ ==> p is OpenModelPopup,
        remote && provider@ != current@ ==> (p matches FetchPlan::ErrorMessage(m) && m@
            == needs_local_server_message()),
        !remote ==> p is Request,
{
    if remote {
        if str_eq(provider, current) {
            FetchPlan::OpenModelPopup
        } else {
            FetchPlan::ErrorMessage("Native provider switching requires the local app server.".to_owned())
        }
    } else {
        FetchPlan::Request
    }
}

/// What the application does with a chosen provider model.
pub enum SwitchPlan {
    /// Report the message and change nothing.
    Report(String),
    /// Change nothing; the pending permission change has been dealt with.
    Stop,
    /// Update the model and effort of the active task.
    UpdateSettings,
    /// Start a new task with the chosen provider, after its credentials are
    /// checked when `check_credentials` holds; the previous task stays resumable.
    StartTask { check_credentials: bool },
}

/// The order in which a choice of provider model is refused or carried out:
/// a remote app server, a pending change of permission root, a running turn,
/// and queued messages before a change of provider all stop it; the
/// configured provider updates the active task; another starts a new one,
/// checking DeepSeek credentials first, never borrowing OpenAI ones.
pub open spec fn switch_plan_spec(
    remote: bool,
    pending_permission_switch: bool,
    turn_running: bool,
    queued_follow_ups: bool,
    provider: Seq<char>,
    current: Seq<char>,
) -> (int, Seq<char>, bool) {
    if remote {
        (0, needs_local_server_message(), false)
    } else if pending_permission_switch {
        (1, Seq::empty(), false)
    } else if turn_running {
        (0, "Wait for the active turn to finish before switching models."@, false)
    } else if provider != current && queued_follow_ups {
        (0, "Send or remove queued messages before changing providers."@, false)
    } else if provider == current {
        (2, Seq::empty(), false)
    } else {
        (3, Seq::empty(), provider == "deepseek"@)
    }
}

/// The view of a plan: its kind, its message and its credential check.
pub open spec fn switch_plan_view(p: SwitchPlan) -> (int, Seq<char>, bool) {
    match p {
        SwitchPlan::Report(m) => (0, m@, false),
        SwitchPlan::Stop => (1, Seq::empty(), false),
        SwitchPlan::UpdateSettings => (2, Seq::empty(), false),
        SwitchPlan::StartTask { check_credentials } => (3, Seq::empty(), check_credentials),
    }
}

/// Decides what a choice of provider model does.
pub fn provider_switch_plan(
    remote: bool,
    pending_permission_switch: bool,
    turn_running: bool,
    queued_follow_ups: bool,
    provider: &str,
    current: &str,
) -> (p: SwitchPlan)
    ensures
        switch_plan_view(p) == switch_plan_spec(
            remote,
            pending_permission_switch,
            turn_running,
            queued_follow_ups,
            provider@,
            current@,
        ),
{
    if remote {
        return SwitchPlan::Report("Native provider switching requires the local app server.".to_owned());
    }
    if pending_permission_switch {
        return SwitchPlan::Stop;
    }
    if turn_running {
        return SwitchPlan::Report(
            "Wait for the active turn to finish before switching models.".to_owned(),
        );
    }
    let same = str_eq(provider, current);
    if !same && queued_follow_ups {
        return SwitchPlan::Report(
            "Send or remove queued messages before changing providers.".to_owned(),
        );
    }
    if same {
        SwitchPlan::UpdateSettings
    } else {
        SwitchPlan::StartTask { check_credentials: str_eq(provider, "deepseek") }
    }
}

/// The message when a new task for another provider could not start.
pub fn switch_failure_message(error: &str) -> (m: String)
    ensures
        m@ == "Could not switch provider: "@ + error@,
{
    let mut m = "Could not switch provider: ".to_owned();
    append_str(&mut m, error);
    m
}

/// Why a local download cannot start, if it cannot: it needs the local app
/// server and no running turn.
pub fn local_download_refusal(remote: bool, turn_running: bool) -> (r: Option<String>)
    ensures
        remote ==> (r matches Some(m) && m@ == "Local downloads require the local app server."@),
        !remote && turn_running ==> (r matches Some(m) && m@
            == "Wait for the active turn to finish before downloading a model."@),
        !remote && !turn_running ==> r is None,
{
    if remote {
        Some("Local downloads require the local app server.".to_owned())
    } else if turn_running {
        Some("Wait for the active turn to finish before downloading a model.".to_owned())
    } else {
        None
    }
}

} // verus!
