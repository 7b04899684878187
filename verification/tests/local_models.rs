use local_models::local_models::{
    body_chunk_fits, decode_models, discover_local_models, health_context_limit, is_valid_model_id,
    LocalModelsManager, RefreshStrategy,
};
use local_models::model_info::{local_model_info, ModelInfo};

/// The IDs of a `/models` body's `data` list, or `None` when it is not such a catalog.
fn catalog_ids(body: &str) -> Option<Vec<String>> {
    let value: serde_json::Value = serde_json::from_str(body).ok()?;
    value
        .get("data")?
        .as_array()?
        .iter()
        .map(|model| model.get("id")?.as_str().map(str::to_owned))
        .collect()
}

fn slugs(models: &[ModelInfo]) -> Vec<&str> {
    models.iter().map(|m| m.slug.as_str()).collect()
}

#[test]
fn discovers_custom_names_without_duplicates_or_control_characters() {
    let models = decode_models(catalog_ids(
        r#"{"data":[{"id":"deepseek-r1:14b"},{"id":"custom/uncensored:latest"},{"id":"deepseek-r1:14b"},{"id":""},{"id":"bad\nname"}]}"#,
    ))
    .unwrap();
    assert_eq!(
        models.into_iter().map(|model| model.slug).collect::<Vec<_>>(),
        vec!["custom/uncensored:latest", "deepseek-r1:14b"]
    );
    assert!(decode_models(catalog_ids(r#"{"models":[]}"#)).is_err());
    assert_eq!(
        decode_models(None).err().as_deref(),
        Some("Invalid local /models response")
    );
}

#[test]
fn model_ids_must_be_short_printable_and_not_blank() {
    assert!(is_valid_model_id("deepseek-r1:14b"));
    assert!(!is_valid_model_id("   "));
    assert!(!is_valid_model_id("tab\there"));
    assert!(is_valid_model_id(&"a".repeat(512)));
    assert!(!is_valid_model_id(&"a".repeat(513)));
    assert!(!is_valid_model_id(&"é".repeat(257)));
}

#[test]
fn local_discovery_keeps_offline_catalog_and_merges_served_models() {
    let mut disk = local_model_info("/models/a");
    disk.display_name = "a".to_owned();
    let served = vec![local_model_info("/models/a"), local_model_info("zeta")];
    let merged = discover_local_models(vec![disk], Ok((served, Some(8192))), true).unwrap();
    assert_eq!(slugs(&merged), vec!["/models/a", "zeta"]);
    assert_eq!(merged[0].display_name, "a");
    assert_eq!(merged[0].description.as_deref(), Some("Available from the MLX server"));
    assert!(merged.iter().all(|m| m.context_window == Some(8192)));

    let offline =
        discover_local_models(vec![local_model_info("b")], Err("down".to_owned()), false).unwrap();
    assert_eq!(slugs(&offline), vec!["b"]);
    assert_eq!(
        discover_local_models(Vec::new(), Err("down".to_owned()), false).err().as_deref(),
        Some("down")
    );
}

#[test]
fn served_models_of_other_providers_keep_their_description() {
    let merged =
        discover_local_models(Vec::new(), Ok((vec![local_model_info("m")], None)), false).unwrap();
    assert_eq!(merged[0].description, None);
    assert_eq!(merged[0].context_window, Some(32_768));
}

#[test]
fn health_limits_are_positive_and_capped() {
    assert_eq!(health_context_limit(Some(8192)), Some(8192));
    assert_eq!(health_context_limit(Some(1_000_000)), Some(32_768));
    assert_eq!(health_context_limit(Some(0)), None);
    assert_eq!(health_context_limit(None), None);
}

#[test]
fn oversized_local_catalogs_are_rejected() {
    assert!(body_chunk_fits(1000, 24, 1024));
    assert!(!body_chunk_fits(1000, 25, 1024));
    assert!(!body_chunk_fits(0, usize::MAX, 1024));
}

#[test]
fn the_manager_caches_the_last_successful_discovery() {
    let mut manager = LocalModelsManager::new();
    assert!(manager.should_discover(RefreshStrategy::OnlineIfUncached));
    assert!(!manager.should_discover(RefreshStrategy::Offline));
    manager.record_discovery(Ok(vec![local_model_info("cached")]));
    assert!(!manager.should_discover(RefreshStrategy::OnlineIfUncached));
    assert!(manager.should_discover(RefreshStrategy::Online));
    manager.record_discovery(Err("offline".to_owned()));
    assert_eq!(slugs(&manager.remote_models()), vec!["cached"]);
    let mut named = local_model_info("cached");
    named.display_name = "Cached".to_owned();
    manager.record_discovery(Ok(vec![named]));
    assert_eq!(manager.get_model_info("cached", None).display_name, "Cached");
    let unknown = manager.get_model_info("other", Some(4096));
    assert_eq!(unknown.slug, "other");
    assert_eq!(unknown.context_window, Some(4096));
}
