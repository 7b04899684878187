use local_models::mlx_models::{config_has_quantization, index_weight_names};
use local_models::model_info::ModelInfo;
use local_models::served::{
    health_url, models_url, status_text, DiscoveryAction, DiscoveryEvent, ServedDiscovery,
};
use local_models::telemetry::sysctl_number;

fn step(d: &mut ServedDiscovery, e: DiscoveryEvent) -> DiscoveryAction {
    assert!(d.accepts(&e));
    d.step(e)
}

fn start(d: &mut ServedDiscovery, base: &str, is_mlx: bool) -> String {
    match step(
        d,
        DiscoveryEvent::Start {
            provider_name: "Ollama".to_owned(),
            base_url: Some(base.to_owned()),
            is_mlx,
        },
    ) {
        DiscoveryAction::Get(url) => url,
        _ => panic!("expected a request"),
    }
}

fn finish(a: DiscoveryAction) -> Result<(Vec<ModelInfo>, Option<i64>), String> {
    match a {
        DiscoveryAction::Finish(r) => r,
        _ => panic!("expected the end"),
    }
}

fn chunk(bytes: &[u8]) -> DiscoveryEvent {
    DiscoveryEvent::Chunk(Ok(Some(bytes.to_vec())))
}

/// The IDs of a catalog body, read the way the server writes them.
fn decode(body: &[u8]) -> Option<Vec<String>> {
    let value: serde_json::Value = serde_json::from_slice(body).ok()?;
    value.get("data")?.as_array()?.iter().map(|m| m.get("id")?.as_str().map(str::to_owned)).collect()
}

/// Ends the catalog body, decodes what the discovery hands out, and answers.
fn end_catalog(d: &mut ServedDiscovery, expected_body: &[u8]) -> DiscoveryAction {
    match step(d, DiscoveryEvent::Chunk(Ok(None))) {
        DiscoveryAction::DecodeCatalog(body) => {
            assert_eq!(body, expected_body);
            step(d, DiscoveryEvent::CatalogDecoded(decode(&body)))
        },
        _ => panic!("expected the catalog to decode"),
    }
}

#[test]
fn local_discovery_uses_models_endpoint_and_reads_the_catalog() {
    let mut d = ServedDiscovery::new();
    assert_eq!(start(&mut d, "http://127.0.0.1:11434/v1/", false), "http://127.0.0.1:11434/v1/models");
    assert!(matches!(step(&mut d, DiscoveryEvent::Responded(Ok(200))), DiscoveryAction::ReadChunk));
    assert!(matches!(step(&mut d, chunk(br#"{"data":[{"id":"deepseek-r1:14b"},"#)), DiscoveryAction::ReadChunk));
    assert!(matches!(step(&mut d, chunk(br#"{"id":"custom"}]}"#)), DiscoveryAction::ReadChunk));
    let body = br#"{"data":[{"id":"deepseek-r1:14b"},{"id":"custom"}]}"#;
    let (models, limit) = finish(end_catalog(&mut d, body)).unwrap();
    assert_eq!(
        models.iter().map(|m| m.slug.as_str()).collect::<Vec<_>>(),
        vec!["custom", "deepseek-r1:14b"]
    );
    assert_eq!(limit, None);
}

#[test]
fn mlx_discovery_uses_server_context_limit() {
    let mut d = ServedDiscovery::new();
    assert_eq!(start(&mut d, "http://127.0.0.1:8080/v1", true), "http://127.0.0.1:8080/v1/models");
    step(&mut d, DiscoveryEvent::Responded(Ok(200)));
    step(&mut d, chunk(br#"{"data":[{"id":"test-mlx"}]}"#));
    match end_catalog(&mut d, br#"{"data":[{"id":"test-mlx"}]}"#) {
        DiscoveryAction::Get(url) => assert_eq!(url, "http://127.0.0.1:8080/health"),
        _ => panic!("expected the health request"),
    }
    step(&mut d, DiscoveryEvent::Responded(Ok(200)));
    step(&mut d, chunk(br#"{"configured_context_limit":8192}"#));
    let (models, limit) = finish(step(&mut d, DiscoveryEvent::Chunk(Ok(None)))).unwrap();
    assert_eq!(models.len(), 1);
    assert_eq!(limit, Some(8192));
}

#[test]
fn health_failures_leave_the_limit_unknown() {
    let mut d = ServedDiscovery::new();
    start(&mut d, "http://127.0.0.1:8080/v1", true);
    step(&mut d, DiscoveryEvent::Responded(Ok(200)));
    step(&mut d, chunk(br#"{"data":[{"id":"m"}]}"#));
    end_catalog(&mut d, br#"{"data":[{"id":"m"}]}"#);
    let (models, limit) = finish(step(&mut d, DiscoveryEvent::Responded(Ok(500)))).unwrap();
    assert_eq!((models.len(), limit), (1, None));

    start(&mut d, "http://127.0.0.1:8080/v1", true);
    step(&mut d, DiscoveryEvent::Responded(Ok(200)));
    step(&mut d, chunk(br#"{"data":[{"id":"m"}]}"#));
    end_catalog(&mut d, br#"{"data":[{"id":"m"}]}"#);
    step(&mut d, DiscoveryEvent::Responded(Ok(200)));
    let (_, limit) = finish(step(&mut d, chunk(&vec![b' '; 65 * 1024]))).unwrap();
    assert_eq!(limit, None);

    start(&mut d, "http://127.0.0.1:8080/v1", true);
    step(&mut d, DiscoveryEvent::Responded(Ok(200)));
    step(&mut d, chunk(br#"{"data":[{"id":"m"}]}"#));
    end_catalog(&mut d, br#"{"data":[{"id":"m"}]}"#);
    let (models, limit) = finish(step(&mut d, DiscoveryEvent::HealthTimedOut)).unwrap();
    assert_eq!((models.len(), limit), (1, None));
}

#[test]
fn rejects_http_errors_and_oversized_local_catalogs() {
    let mut d = ServedDiscovery::new();
    start(&mut d, "http://h/v1", false);
    assert_eq!(
        finish(step(&mut d, DiscoveryEvent::Responded(Ok(401)))).err().as_deref(),
        Some("Local model discovery returned HTTP 401 Unauthorized")
    );
    start(&mut d, "http://h/v1", false);
    step(&mut d, DiscoveryEvent::Responded(Ok(200)));
    let big = vec![b' '; 1024 * 1024];
    assert!(matches!(step(&mut d, chunk(&big)), DiscoveryAction::ReadChunk));
    assert_eq!(
        finish(step(&mut d, chunk(b" "))).err().as_deref(),
        Some("Local model catalog exceeds 1 MiB")
    );
    start(&mut d, "http://h/v1", false);
    assert_eq!(
        finish(step(&mut d, DiscoveryEvent::Responded(Err("refused".to_owned())))).err().as_deref(),
        Some("Cannot connect to the Ollama model server. Start the server, check its endpoint, then retry /model.")
    );
    start(&mut d, "http://h/v1", false);
    step(&mut d, DiscoveryEvent::Responded(Ok(200)));
    assert_eq!(
        finish(step(&mut d, DiscoveryEvent::Chunk(Err("reset".to_owned())))).err().as_deref(),
        Some("Cannot read local model catalog")
    );
    start(&mut d, "http://h/v1", false);
    step(&mut d, DiscoveryEvent::Responded(Ok(200)));
    step(&mut d, chunk(br#"{"models":[]}"#));
    assert_eq!(
        finish(end_catalog(&mut d, br#"{"models":[]}"#)).err().as_deref(),
        Some("Invalid local /models response")
    );
    start(&mut d, "http://h/v1", false);
    assert_eq!(
        finish(step(&mut d, DiscoveryEvent::TimedOut)).err().as_deref(),
        Some("Local model discovery timed out")
    );
    let none = step(
        &mut d,
        DiscoveryEvent::Start { provider_name: "x".to_owned(), base_url: None, is_mlx: false },
    );
    assert_eq!(finish(none).err().as_deref(), Some("Local provider has no base URL"));
}

#[test]
fn urls_and_status_texts() {
    assert_eq!(models_url("http://h:1/v1///"), "http://h:1/v1/models");
    assert_eq!(health_url("http://h:1/v1").as_deref(), Some("http://h:1/health"));
    assert_eq!(health_url("not a url"), None);
    assert_eq!(status_text(404), "404 Not Found");
    assert_eq!(status_text(299), "299 <unknown status code>");
}

#[test]
fn checkpoint_json_is_read_by_the_library() {
    assert_eq!(config_has_quantization(br#"{"quantization":{"bits":4}}"#), Some(true));
    assert_eq!(config_has_quantization(br#"{"quantization_config":{}}"#), Some(true));
    assert_eq!(config_has_quantization(br#"{"model_type":"qwen"}"#), Some(false));
    assert_eq!(config_has_quantization(b"[1]"), Some(false));
    assert_eq!(config_has_quantization(b"{"), None);
    let mut big = br#"{"quantization":1, "pad":""#.to_vec();
    big.extend(vec![b'a'; 1024 * 1024]);
    big.extend(br#""}"#);
    assert_eq!(config_has_quantization(&big), None);
    let names = index_weight_names(br#"{"weight_map":{"a":"x.safetensors","b":"y.safetensors"}}"#).unwrap();
    assert_eq!(names, vec!["x.safetensors", "y.safetensors"]);
    assert_eq!(index_weight_names(br#"{"weight_map":{"a":1}}"#), None);
    assert_eq!(sysctl_number(" 17179869184\n"), Some(17_179_869_184));
    assert_eq!(sysctl_number("x"), None);
}
