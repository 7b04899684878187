use local_models::mlx_catalog::{
    add_downloads, df_available_kib, is_downloadable_mlx_model, prepare_failure_message,
    prepare_mlx_model, PendingFile, PrepareFailure, PrepareStage,
};
use local_models::mlx_models::{
    checkpoint_accepts, checkpoint_model, discovered_checkpoints, file_name, loopback_address,
    models_root, weight_names_without_index, CheckpointProbe, LoopbackAddr, LoopbackIp,
};
use local_models::model_download::Manifest;
use local_models::model_info::local_model_info;

#[test]
fn startup_is_limited_to_plain_loopback_endpoints() {
    assert!(loopback_address("http://127.0.0.1:8080/v1").is_some());
    for url in [
        "https://127.0.0.1/v1",
        "http://example.com/v1",
        "http://user@localhost:8080/v1",
    ] {
        assert!(loopback_address(url).is_none());
    }
}

#[test]
fn loopback_endpoints_name_their_socket_address() {
    assert_eq!(
        loopback_address("http://localhost/v1"),
        Some(LoopbackAddr { ip: LoopbackIp::V4(127, 0, 0, 1), port: 80 })
    );
    assert_eq!(
        loopback_address("http://127.1.2.3:9/"),
        Some(LoopbackAddr { ip: LoopbackIp::V4(127, 1, 2, 3), port: 9 })
    );
    assert_eq!(
        loopback_address("http://[::1]:8080"),
        Some(LoopbackAddr { ip: LoopbackIp::V6, port: 8080 })
    );
    assert_eq!(loopback_address("http://:secret@localhost:1/"), None);
    assert_eq!(loopback_address("http://10.0.0.1:8080/"), None);
    assert_eq!(loopback_address("not a url"), None);
}

fn manifest(sizes: &[(&str, u64)]) -> Manifest {
    Manifest {
        repo: "owner/model".to_owned(),
        revision: "pinned".to_owned(),
        files: sizes.iter().map(|(n, _)| (*n).to_owned()).collect(),
        sizes: sizes.iter().map(|(n, s)| ((*n).to_owned(), *s)).collect(),
        sha256: sizes.iter().map(|(n, _)| ((*n).to_owned(), "0".repeat(64))).collect(),
        sources: Vec::new(),
    }
}

fn catalog_manifests() -> Vec<Option<Manifest>> {
    vec![
        Some(manifest(&[("config.json", 1_000), ("model.safetensors", 1_610_612_736)])),
        Some(manifest(&[("model.safetensors", 3_113_851_290)])),
        Some(manifest(&[("model.safetensors", 15_000_000_000)])),
        Some(manifest(&[("model.safetensors", 22_000_000_000)])),
        None,
    ]
}

#[test]
fn offline_catalog_includes_downloads_without_duplicate_installed_models() {
    let root = "/tmp/models";
    let slug = "/tmp/models/Qwen3.5-2B-4bit".to_owned();
    let mut models = vec![local_model_info(&slug)];
    add_downloads(root, &mut models, &catalog_manifests());
    assert_eq!(models.iter().filter(|model| model.slug == slug).count(), 1);
    assert!(models.iter().any(|model| {
        model
            .description
            .as_deref()
            .is_some_and(|description| description.starts_with("Download"))
    }));
}

#[test]
fn downloadable_entries_describe_size_and_memory() {
    let mut models = Vec::new();
    add_downloads("/m", &mut models, &catalog_manifests());
    assert_eq!(models.len(), 4);
    assert_eq!(models[0].slug, "/m/Qwen3.5-2B-4bit");
    assert_eq!(models[0].display_name, "Qwen3.5-2B-4bit");
    assert_eq!(models[0].context_window, Some(32_768));
    assert_eq!(
        models[0].description.as_deref(),
        Some("Download 1.5 GiB · at least 4 GiB RAM · Apple Silicon / MLX")
    );
    assert_eq!(
        models[1].description.as_deref(),
        Some("Download 2.9 GiB · at least 6 GiB RAM · Apple Silicon / MLX")
    );
    assert_eq!(
        models[3].description.as_deref(),
        Some("Download 20.5 GiB · at least 32 GiB RAM · Apple Silicon / MLX")
    );
}

fn probe() -> CheckpointProbe {
    CheckpointProbe {
        incomplete_marker: false,
        has_quantization: Some(true),
        tokenizer_config_is_file: true,
        tokenizer_is_file: true,
        weights: Some(
            weight_names_without_index().into_iter().map(|name| (name, true)).collect(),
        ),
    }
}

#[test]
fn discovers_complete_checkpoints_and_rejects_partial_or_escaping_shards() {
    let complete = probe();
    assert!(checkpoint_accepts(&complete));
    let found = discovered_checkpoints(
        None,
        vec![checkpoint_model("/root/custom-uncensored").unwrap()],
    );
    assert_eq!(
        found.into_iter().map(|m| m.display_name).collect::<Vec<_>>(),
        vec!["custom-uncensored"]
    );
    let mut pending = probe();
    pending.incomplete_marker = true;
    assert!(!checkpoint_accepts(&pending));
    let mut escaping = probe();
    escaping.weights = Some(vec![("../model.safetensors".to_owned(), true)]);
    assert!(!checkpoint_accepts(&escaping));
}

#[test]
fn checkpoints_need_quantization_tokenizers_and_real_weights() {
    let mut p = probe();
    p.has_quantization = Some(false);
    assert!(!checkpoint_accepts(&p));
    let mut p = probe();
    p.tokenizer_is_file = false;
    assert!(!checkpoint_accepts(&p));
    let mut p = probe();
    p.weights = Some(vec![("model.safetensors".to_owned(), false)]);
    assert!(!checkpoint_accepts(&p));
    let mut p = probe();
    p.weights = Some(vec![("model.bin".to_owned(), true)]);
    assert!(!checkpoint_accepts(&p));
    let mut p = probe();
    p.weights = Some(Vec::new());
    assert!(!checkpoint_accepts(&p));
    let mut p = probe();
    p.weights = Some(vec![
        ("model-00001-of-00002.safetensors".to_owned(), true),
        ("model-00002-of-00002.safetensors".to_owned(), true),
    ]);
    assert!(checkpoint_accepts(&p));
}

#[test]
fn checkpoint_lists_are_sorted_without_duplicates_unless_the_root_is_one() {
    let a = checkpoint_model("/r/a").unwrap();
    let b = checkpoint_model("/r/b").unwrap();
    let b2 = checkpoint_model("/r/b").unwrap();
    let found = discovered_checkpoints(None, vec![b, a, b2]);
    assert_eq!(found.iter().map(|m| m.slug.as_str()).collect::<Vec<_>>(), vec!["/r/a", "/r/b"]);
    let root = checkpoint_model("/r").unwrap();
    let only = discovered_checkpoints(Some(root), vec![checkpoint_model("/r/a").unwrap()]);
    assert_eq!(only.len(), 1);
    assert_eq!(only[0].display_name, "r");
    assert_eq!(
        only[0].description.as_deref(),
        Some("On disk · loads on the first request using the installed MLX runtime")
    );
    assert!(checkpoint_model("/").is_none());
    assert_eq!(file_name("/a/b/").as_deref(), Some("b"));
    assert_eq!(file_name("/a/.."), None);
}

#[test]
fn the_model_directory_comes_from_the_environment() {
    let s = |v: &str| Some(v.to_owned());
    assert_eq!(models_root(s("/data"), s("/q"), s("/home/u"), s("/cwd")), s("/data"));
    assert_eq!(models_root(None, s("/q"), s("/home/u"), s("/cwd")), s("/q"));
    assert_eq!(
        models_root(s(""), s("/q"), s("/home/u"), s("/cwd")),
        s("/home/u/Documents/Model")
    );
    assert_eq!(models_root(s(""), None, None, s("/cwd")), None);
    assert_eq!(models_root(None, None, s("/home/u"), s("/cwd")), s("/home/u/Documents/Model"));
    assert_eq!(models_root(s("models"), None, None, s("/cwd")), s("/cwd/models"));
    assert_eq!(models_root(s("models"), None, None, None), None);
    assert_eq!(models_root(None, None, None, s("/cwd")), None);
}

#[test]
fn only_catalog_checkpoints_below_the_model_directory_are_downloadable() {
    let root = Some("/m".to_owned());
    assert!(is_downloadable_mlx_model(root.clone(), "/m/Qwen3.5-4B-4bit"));
    assert!(is_downloadable_mlx_model(root.clone(), "/m/./Qwen3.5-4B-4bit/"));
    assert!(!is_downloadable_mlx_model(root, "/m/Qwen3.5-9B-4bit"));
    assert!(!is_downloadable_mlx_model(None, "/m/Qwen3.5-4B-4bit"));
}

#[test]
fn preparation_checks_selection_machine_memory_and_disk() {
    let root = Some("/m".to_owned());
    assert_eq!(
        prepare_mlx_model(None, "/m/Qwen3.5-4B-4bit", true).err(),
        Some(PrepareFailure::NoModelDirectory)
    );
    assert_eq!(
        prepare_mlx_model(root.clone(), "/m/other", true).err(),
        Some(PrepareFailure::NotInCatalog)
    );
    assert_eq!(
        prepare_mlx_model(root.clone(), "/m/Qwen3.5-4B-4bit", false).err(),
        Some(PrepareFailure::NeedsAppleSilicon)
    );
    let mut p = prepare_mlx_model(root.clone(), "/m/Qwen3.5-4B-4bit", true).ok().unwrap();
    assert_eq!(p.entry, 1);
    assert_eq!(p.ram_gib, 6);
    assert_eq!(p.memory_read("4294967296\n"), Err(PrepareFailure::InsufficientMemory(6)));
    let mut p = prepare_mlx_model(root.clone(), "/m/Qwen3.5-4B-4bit", true).ok().unwrap();
    assert_eq!(p.memory_read("garbage"), Err(PrepareFailure::MemoryUnknown));
    let mut p = prepare_mlx_model(root, "/m/Qwen3.5-4B-4bit", true).ok().unwrap();
    assert_eq!(p.memory_read(" 17179869184\n"), Ok(()));
    assert_eq!(p.stage, PrepareStage::InspectFiles);
    p.files_inspected(&vec![
        PendingFile { size: 100, installed: true, part_len: None },
        PendingFile { size: 1000, installed: false, part_len: Some(400) },
        PendingFile { size: 50, installed: false, part_len: None },
        PendingFile { size: 10, installed: false, part_len: Some(20) },
    ]);
    assert_eq!(p.remaining, 650);
    assert_eq!(p.stage, PrepareStage::ReadDisk);
    assert_eq!(p.disk_read(Some(1)), Err(PrepareFailure::InsufficientDisk));
    assert_eq!(p.disk_read(None), Err(PrepareFailure::DiskUnknown));
    assert_eq!(p.disk_read(Some(1_048_576)), Ok(()));
    assert_eq!(p.stage, PrepareStage::Download);
}

#[test]
fn free_disk_space_is_read_from_the_last_df_line() {
    let df = "Filesystem 1024-blocks Used Available Capacity Mounted on\n/dev/disk3s5 971350180 478146172 475030572 51% /System/Volumes/Data\n";
    assert_eq!(df_available_kib(df), Some(475_030_572));
    assert_eq!(df_available_kib(""), None);
    assert_eq!(df_available_kib("a b c\n"), None);
}

#[test]
fn preparation_failures_explain_themselves() {
    assert_eq!(
        prepare_failure_message(PrepareFailure::InsufficientMemory(20)),
        "This model requires at least 20 GiB RAM; choose a smaller model."
    );
    assert_eq!(
        prepare_failure_message(PrepareFailure::InsufficientDisk),
        "Insufficient disk space for this model and a 512 MiB reserve."
    );
    assert_eq!(
        prepare_failure_message(PrepareFailure::NotInCatalog),
        "Model is not in the built-in download catalog"
    );
}
