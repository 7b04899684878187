use local_models::model_info::{catalog, local_model_info, ModelInfo, ReasoningEffort};
use local_models::picker::{
    local_download_refusal, model_preset, provider_fetch_plan, provider_switch_plan,
    switch_failure_message, ChatWidget, FetchPlan, ModelPreset, PickerAction, SwitchPlan, ViewId,
    WidgetEffect,
};

fn widget(provider: &str) -> ChatWidget {
    ChatWidget {
        session_configured: true,
        model_provider_id: provider.to_owned(),
        model_popup_request_id: None,
        view: None,
        catalog: Vec::new(),
    }
}

fn presets(models: Vec<ModelInfo>) -> Vec<ModelPreset> {
    models.iter().map(model_preset).collect()
}

#[test]
fn native_provider_picker_and_deepseek_efforts() {
    let mut chat = widget("openai");
    assert!(matches!(chat.open_provider_picker(), WidgetEffect::Nothing));
    let view = chat.view.as_ref().unwrap();
    assert_eq!(view.title, "Select Model Provider");
    assert_eq!(
        view.subtitle.as_deref(),
        Some("Changing provider starts a new task; previous tasks remain resumable.")
    );
    let names: Vec<&str> = view.items.iter().map(|i| i.name.as_str()).collect();
    assert_eq!(
        names,
        vec!["OpenAI", "DeepSeek API", "Local · MLX / Qwen", "Local · Ollama", "Local · LM Studio"]
    );
    let current: Vec<bool> = view.items.iter().map(|i| i.is_current).collect();
    assert_eq!(current, vec![true, false, false, false, false]);
    assert!(matches!(&view.items[2].action, PickerAction::OpenProviderModels(p) if p == "mlx"));
    chat.cancel_view();
    chat.begin_provider_models(7);
    assert!(matches!(
        chat.show_provider_models(7, "deepseek".to_owned(), Ok(presets(catalog()))),
        WidgetEffect::Nothing
    ));
    let view = chat.view.as_ref().unwrap();
    assert_eq!(view.title, "Select deepseek model");
    let names: Vec<&str> = view.items.iter().map(|i| i.name.as_str()).collect();
    assert_eq!(
        names,
        vec![
            "DeepSeek Flash · low",
            "DeepSeek Flash · high",
            "DeepSeek Flash · max",
            "DeepSeek V4 Pro · low",
            "DeepSeek V4 Pro · high",
            "DeepSeek V4 Pro · max",
        ]
    );
    assert!(view.items.iter().all(|i| i.description.is_none()));
    assert!(matches!(
        &view.items[0].action,
        PickerAction::SelectProviderModel { provider, model, effort: Some(ReasoningEffort::Low), models }
            if provider == "deepseek" && model == "deepseek-flash" && models.len() == 2
                && models[1].model == "deepseek-v4-pro"
    ));
    assert_eq!(chat.model_popup_request_id, None);
}

#[test]
fn native_provider_picker_ignores_dismissed_and_obsolete_replies() {
    let mut chat = widget("openai");
    chat.begin_provider_models(1);
    chat.cancel_view();
    chat.begin_provider_models(2);
    let effect = chat.show_provider_models(1, "deepseek".to_owned(), Err("stale failure".to_owned()));
    assert!(matches!(effect, WidgetEffect::Nothing));
    assert_eq!(chat.model_popup_request_id, Some(2));
    chat.cancel_view();
    let effect = chat.show_provider_models(2, "deepseek".to_owned(), Ok(presets(catalog())));
    assert!(matches!(effect, WidgetEffect::Nothing));
    assert!(chat.view.is_none());
}

#[test]
fn native_mlx_download_progress_is_cancellable() {
    let mut chat = widget("openai");
    chat.start_local_download(42);
    assert_eq!(
        chat.view.as_ref().unwrap().subtitle.as_deref(),
        Some("Checking model files…")
    );
    chat.update_local_download(42, "Downloading model.safetensors · 42.0% · 0.68/1.63 GiB".to_owned());
    let view = chat.view.as_ref().unwrap();
    assert_eq!(view.view_id, Some(ViewId::LocalDownload));
    assert_eq!(view.title, "Preparing local model");
    assert_eq!(
        view.subtitle.as_deref(),
        Some("Downloading model.safetensors · 42.0% · 0.68/1.63 GiB")
    );
    assert_eq!(view.items[0].name, "Cancel (partial files are kept for resume)");
    assert!(matches!(chat.cancel_view(), PickerAction::CancelLocalDownload(42)));
    assert!(chat.view.is_none());
}

#[test]
fn native_mlx_picker_shows_installed_and_downloadable_models() {
    let mut chat = widget("openai");
    chat.begin_provider_models(3);
    let mut installed = local_model_info("/models/Qwen3.5-2B-4bit");
    installed.display_name = "Qwen3.5-2B-4bit".to_owned();
    installed.description = Some("On disk · loads on the first request".to_owned());
    let mut download = local_model_info("/models/Qwen3.5-4B-4bit");
    download.display_name = "Qwen3.5-4B-4bit".to_owned();
    download.description =
        Some("Download 2.9 GiB · at least 6 GiB RAM · Apple Silicon / MLX".to_owned());
    chat.show_provider_models(3, "mlx".to_owned(), Ok(presets(vec![installed, download])));
    let view = chat.view.as_ref().unwrap();
    assert_eq!(view.title, "Select mlx model");
    let rows: Vec<(&str, Option<&str>)> =
        view.items.iter().map(|i| (i.name.as_str(), i.description.as_deref())).collect();
    assert_eq!(
        rows,
        vec![
            ("Qwen3.5-2B-4bit · none", Some("On disk · loads on the first request")),
            (
                "Qwen3.5-4B-4bit · none",
                Some("Download 2.9 GiB · at least 6 GiB RAM · Apple Silicon / MLX")
            ),
        ]
    );
    assert!(matches!(
        &view.items[1].action,
        PickerAction::SelectProviderModel { model, effort: Some(ReasoningEffort::Disabled), models, .. }
            if model == "/models/Qwen3.5-4B-4bit" && models.len() == 2
    ));
}

#[test]
fn native_mlx_download_completion_releases_the_settings_input_guard() {
    let mut chat = widget("openai");
    chat.start_local_download(5);
    assert!(matches!(chat.finish_local_download(), WidgetEffect::ModalClosed));
    assert!(chat.view.is_none());
}

#[test]
fn unconfigured_sessions_and_other_providers_get_the_model_popup() {
    let mut chat = widget("openai");
    chat.session_configured = false;
    assert!(matches!(chat.open_provider_picker(), WidgetEffect::OpenModelPopup));
    assert!(chat.view.is_none());
    let mut chat = widget("azure");
    assert!(matches!(chat.open_provider_picker(), WidgetEffect::OpenModelPopup));
    let mut chat = widget("lmstudio");
    chat.model_popup_request_id = Some(9);
    assert!(matches!(chat.open_provider_picker(), WidgetEffect::Nothing));
    assert_eq!(chat.model_popup_request_id, None);
    assert!(chat.view.as_ref().unwrap().items[4].is_current);
}

#[test]
fn empty_and_failed_replies_close_the_view_with_a_message() {
    let mut chat = widget("openai");
    chat.begin_provider_models(1);
    match chat.show_provider_models(1, "ollama".to_owned(), Ok(Vec::new())) {
        WidgetEffect::ErrorMessage(m) => assert_eq!(
            m,
            "No models found. Load a model in your local server and try /model again."
        ),
        _ => panic!("expected a message"),
    }
    assert!(chat.view.is_none());
    chat.begin_provider_models(2);
    match chat.show_provider_models(2, "ollama".to_owned(), Err("connection refused".to_owned())) {
        WidgetEffect::ErrorMessage(m) => assert_eq!(m, "connection refused"),
        _ => panic!("expected a message"),
    }
    assert!(chat.view.is_none());
    assert_eq!(chat.model_popup_request_id, None);
}

#[test]
fn the_configured_provider_refreshes_its_catalog() {
    let mut chat = widget("openai");
    chat.begin_provider_models(4);
    let models = presets(vec![local_model_info("gpt-5.5")]);
    match chat.show_provider_models(4, "openai".to_owned(), Ok(models)) {
        WidgetEffect::OpenModelPopupWithPresets(p) => assert_eq!(p[0].model, "gpt-5.5"),
        _ => panic!("expected the model popup"),
    }
    assert!(chat.view.is_none());
    assert_eq!(chat.catalog.len(), 1);

    let mut chat = widget("deepseek");
    chat.begin_provider_models(5);
    chat.show_provider_models(5, "deepseek".to_owned(), Ok(presets(catalog())));
    assert_eq!(chat.catalog.len(), 2);
    assert!(chat.view.is_some());
}

#[test]
fn hidden_models_are_not_offered() {
    let mut chat = widget("openai");
    chat.begin_provider_models(1);
    let mut hidden = model_preset(&local_model_info("hidden"));
    hidden.show_in_picker = false;
    let shown = model_preset(&local_model_info("shown"));
    chat.show_provider_models(1, "ollama".to_owned(), Ok(vec![hidden, shown]));
    let view = chat.view.as_ref().unwrap();
    assert_eq!(view.items.len(), 1);
    assert_eq!(view.items[0].name, "shown · none");
}

#[test]
fn presets_carry_slug_name_description_and_efforts() {
    let p = model_preset(&catalog()[1]);
    assert_eq!(p.model, "deepseek-v4-pro");
    assert_eq!(p.display_name, "DeepSeek V4 Pro");
    assert_eq!(p.description, "DeepSeek API · native Responses transport");
    assert_eq!(
        p.supported_reasoning_efforts,
        vec![ReasoningEffort::Low, ReasoningEffort::High, ReasoningEffort::Max]
    );
    assert!(p.show_in_picker);
    assert_eq!(model_preset(&local_model_info("x")).description, "");
}

#[test]
fn remote_app_servers_only_reopen_the_configured_provider() {
    assert!(matches!(provider_fetch_plan(true, "openai", "openai"), FetchPlan::OpenModelPopup));
    match provider_fetch_plan(true, "mlx", "openai") {
        FetchPlan::ErrorMessage(m) => {
            assert_eq!(m, "Native provider switching requires the local app server.")
        },
        _ => panic!("expected a message"),
    }
    assert!(matches!(provider_fetch_plan(false, "mlx", "openai"), FetchPlan::Request));
}

#[test]
fn provider_switches_are_refused_in_order() {
    let report = |p: SwitchPlan| match p {
        SwitchPlan::Report(m) => m,
        _ => panic!("expected a report"),
    };
    assert_eq!(
        report(provider_switch_plan(true, true, true, true, "deepseek", "openai")),
        "Native provider switching requires the local app server."
    );
    assert!(matches!(
        provider_switch_plan(false, true, true, true, "deepseek", "openai"),
        SwitchPlan::Stop
    ));
    assert_eq!(
        report(provider_switch_plan(false, false, true, true, "deepseek", "openai")),
        "Wait for the active turn to finish before switching models."
    );
    assert_eq!(
        report(provider_switch_plan(false, false, false, true, "deepseek", "openai")),
        "Send or remove queued messages before changing providers."
    );
    assert!(matches!(
        provider_switch_plan(false, false, false, true, "openai", "openai"),
        SwitchPlan::UpdateSettings
    ));
    assert!(matches!(
        provider_switch_plan(false, false, false, false, "deepseek", "openai"),
        SwitchPlan::StartTask { check_credentials: true }
    ));
    assert!(matches!(
        provider_switch_plan(false, false, false, false, "openai", "deepseek"),
        SwitchPlan::StartTask { check_credentials: false }
    ));
    assert_eq!(switch_failure_message("boom"), "Could not switch provider: boom");
}

#[test]
fn local_downloads_need_the_local_server_and_an_idle_turn() {
    assert_eq!(
        local_download_refusal(true, false).as_deref(),
        Some("Local downloads require the local app server.")
    );
    assert_eq!(
        local_download_refusal(false, true).as_deref(),
        Some("Wait for the active turn to finish before downloading a model.")
    );
    assert_eq!(local_download_refusal(false, false), None);
}
