//! Discovery of complete local MLX checkpoints without a user-maintained
//! catalog: where the models live, which endpoints may be started locally,
//! and which directories hold a usable checkpoint.
use crate::local_models::{id_views, DEFAULT_CONTEXT};
use crate::model_info::{local_model_info, local_model_view, opt_view, model_views, ModelInfo, ModelInfoView};
use crate::path::{components, has_root, is_normal, join, join_spec, path_components, Part, PathComponent};
use crate::sorting::{first_with_slug, has_slug, sort_unique_by_slug, strictly_sorted_by_slug};
use crate::text::{chars_of, str_eq, string_from_chars};
use vstd::prelude::*;

verus! {

/// The model directory below the home directory when nothing else is configured.
pub open spec fn home_models_dir() -> Seq<char> {
    "Documents/Model"@
}

/// The configured model directory: `CODEX_MLX_MODEL_DIR`, or else `QWEN_HOME`,
/// unless the value found is empty.
pub open spec fn configured_dir(model_dir: Option<Seq<char>>, qwen_home: Option<Seq<char>>) -> Option<
    Seq<char>,
> {
    let v = match model_dir {
        Some(d) => Some(d),
        None => qwen_home,
    };
    match v {
        Some(d) => if d.len() > 0 {
            Some(d)
        } else {
            None
        },
        None => None,
    }
}

/// The directory of local models before symbolic links are resolved: the
/// configured directory, or `$HOME/Documents/Model`, made absolute against the
/// current directory when it is relative.
pub open spec fn models_root_spec(
    model_dir: Option<Seq<char>>,
    qwen_home: Option<Seq<char>>,
    home: Option<Seq<char>>,
    cwd: Option<Seq<char>>,
) -> Option<Seq<char>> {
    let p = match configured_dir(model_dir, qwen_home) {
        Some(d) => Some(d),
        None => match home {
            Some(h) => Some(join_spec(h, home_models_dir())),
            None => None,
        },
    };
    match p {
        None => None,
        Some(p) => if has_root(p) {
            Some(p)
        } else {
            match cwd {
                Some(c) => Some(join_spec(c, p)),
                None => None,
            }
        },
    }
}

/// The directory of local models, from the values of `CODEX_MLX_MODEL_DIR`,
/// `QWEN_HOME` and `HOME` and the current directory.
pub fn models_root(
    model_dir: Option<String>,
    qwen_home: Option<String>,
    home: Option<String>,
    cwd: Option<String>,
) -> (r: Option<String>)
    ensures
        opt_view(r) == models_root_spec(
            opt_view(model_dir),
            opt_view(qwen_home),
            opt_view(home),
            opt_view(cwd),
        ),
{
    let v = match model_dir {
        Some(d) => Some(d),
        None => qwen_home,
    };
    let configured = match v {
        Some(d) => if d.as_str().unicode_len() > 0 {
            Some(d)
        } else {
            None
        },
        None => None,
    };
    let p = match configured {
        Some(d) => Some(d),
        None => match home {
            Some(h) => {
                let suffix = "Documents/Model";
                proof {
                    reveal_strlit("Documents/Model");
                }
                Some(join(h.as_str(), suffix))
            },
            None => None,
        },
    };
    match p {
        None => None,
        Some(p) => {
            let c = chars_of(p.as_str());
            if c.len() > 0 && c[0] == '/' {
                Some(p)
            } else {
                match cwd {
                    Some(dir) => Some(join(dir.as_str(), p.as_str())),
                    None => None,
                }
            }
        },
    }
}

/// The host of a parsed URL.
#[derive(Debug)]
pub enum UrlHost {
    Absent,
    Domain(String),
    Ipv4([u8; 4]),
    Ipv6([u16; 8]),
}

/// What this crate reads from a parsed URL.
#[derive(Debug)]
pub struct UrlFacts {
    pub scheme: String,
    pub username: String,
    pub password: Option<String>,
    pub host: UrlHost,
    /// The explicit port, or the default port of the scheme.
    pub port: Option<u16>,
}

/// A URL host as plain values: a kind (0 absent, 1 domain, 2 IPv4, 3 IPv6),
/// the domain text, and the address parts.
pub open spec fn host_view(h: UrlHost) -> (int, Seq<char>, Seq<int>) {
    match h {
        UrlHost::Absent => (0, seq![], seq![]),
        UrlHost::Domain(d) => (1, d@, seq![]),
        UrlHost::Ipv4(a) => (2, seq![], a@.map_values(|b: u8| b as int)),
        UrlHost::Ipv6(a) => (3, seq![], a@.map_values(|b: u16| b as int)),
    }
}

pub open spec fn url_facts_view(r: Option<UrlFacts>) -> Option<
    (Seq<char>, Seq<char>, Option<Seq<char>>, (int, Seq<char>, Seq<int>), Option<u16>),
> {
    match r {
        None => None,
        Some(u) => Some((u.scheme@, u.username@, opt_view(u.password), host_view(u.host), u.port)),
    }
}

/// What `url::Url::parse` gives for an input: `None` when the input is not a
/// URL, otherwise its scheme, username, password, host and port (explicit or
/// the scheme's default).
pub uninterp spec fn parsed_url(input: Seq<char>) -> Option<
    (Seq<char>, Seq<char>, Option<Seq<char>>, (int, Seq<char>, Seq<int>), Option<u16>),
>;

/// Parses `input` with `url::Url::parse` and reads its scheme, username,
/// password, host and `port_or_known_default`. Trusted: the contract only ties
/// the result to the name `parsed_url`; what the `url` crate computes is not
/// restated.
#[verifier::external_body]
fn parse_url(input: &str) -> (r: Option<UrlFacts>)
    ensures
        url_facts_view(r) == parsed_url(input@),
{
    let url = url::Url::parse(input).ok()?;
    Some(UrlFacts {
        scheme: url.scheme().to_owned(),
        username: url.username().to_owned(),
        password: url.password().map(str::to_owned),
        host: match url.host() {
            None => UrlHost::Absent,
            Some(url::Host::Domain(d)) => UrlHost::Domain(d.to_owned()),
            Some(url::Host::Ipv4(ip)) => UrlHost::Ipv4(ip.octets()),
            Some(url::Host::Ipv6(ip)) => UrlHost::Ipv6(ip.segments()),
        },
        port: url.port_or_known_default(),
    })
}

/// A loopback IP address.
#[derive(Clone, Copy, Debug, PartialEq, Eq, Structural)]
pub enum LoopbackIp {
    /// An address of 127.0.0.0/8.
    V4(u8, u8, u8, u8),
    /// `::1`.
    V6,
}

/// A loopback socket address of a local server.
#[derive(Clone, Copy, Debug, PartialEq, Eq, Structural)]
pub struct LoopbackAddr {
    pub ip: LoopbackIp,
    pub port: u16,
}

/// The loopback address named by parsed URL facts: only plain `http` URLs
/// without credentials whose host is `localhost`, an address of 127.0.0.0/8
/// or `::1`, and that have a port.
pub open spec fn loopback_spec(
    u: Option<(Seq<char>, Seq<char>, Option<Seq<char>>, (int, Seq<char>, Seq<int>), Option<u16>)>,
) -> Option<LoopbackAddr> {
    match u {
        None => None,
        Some((scheme, username, password, host, port)) => {
            if scheme != "http"@ || username.len() > 0 || password is Some || port is None {
                None
            } else {
                let ip = if host.0 == 1 && host.1 == "localhost"@ {
                    Some(LoopbackIp::V4(127, 0, 0, 1))
                } else if host.0 == 2 && host.2.len() == 4 && host.2[0] == 127 {
                    Some(LoopbackIp::V4(127, host.2[1] as u8, host.2[2] as u8, host.2[3] as u8))
                } else if host.0 == 3 && host.2 == seq![0int, 0, 0, 0, 0, 0, 0, 1] {
                    Some(LoopbackIp::V6)
                } else {
                    None
                };
                match ip {
                    Some(ip) => Some(LoopbackAddr { ip, port: port.unwrap() }),
                    None => None,
                }
            }
        },
    }
}

/// The loopback address of parsed URL facts, as `loopback_spec` states it.
pub fn loopback_from_url(u: Option<UrlFacts>) -> (r: Option<LoopbackAddr>)
    ensures
        r == loopback_spec(url_facts_view(u)),
{
    let u = match u {
        None => return None,
        Some(u) => u,
    };
    if !str_eq(u.scheme.as_str(), "http") || u.username.as_str().unicode_len() > 0 || u.password.is_some() {
        return None;
    }
    let port = match u.port {
        Some(p) => p,
        None => return None,
    };
    let ip = match &u.host {
        UrlHost::Domain(d) => {
            if str_eq(d.as_str(), "localhost") {
                LoopbackIp::V4(127, 0, 0, 1)
            } else {
                return None;
            }
        },
        UrlHost::Ipv4(a) => {
            if a[0] == 127 {
                LoopbackIp::V4(127, a[1], a[2], a[3])
            } else {
                return None;
            }
        },
        UrlHost::Ipv6(a) => {
            let is_one = a[0] == 0 && a[1] == 0 && a[2] == 0 && a[3] == 0 && a[4] == 0 && a[5] == 0
                && a[6] == 0 && a[7] == 1;
            let ghost h = host_view(u.host);
            assert(is_one <==> h.2 == seq![0int, 0, 0, 0, 0, 0, 0, 1]) by {
                if h.2 == seq![0int, 0, 0, 0, 0, 0, 0, 1] {
                    assert(h.2[0] == a@[0] as int);
                    assert(h.2[7] == a@[7] as int);
                    assert(h.2[1] == a@[1] as int && h.2[2] == a@[2] as int && h.2[3] == a@[3] as int);
                    assert(h.2[4] == a@[4] as int && h.2[5] == a@[5] as int && h.2[6] == a@[6] as int);
                }
                if is_one {
                    assert(h.2 =~= seq![0int, 0, 0, 0, 0, 0, 0, 1]);
                }
            }
            if is_one {
                LoopbackIp::V6
            } else {
                return None;
            }
        },
        UrlHost::Absent => return None,
    };
    Some(LoopbackAddr { ip, port })
}

/// The loopback address a local server at `base` listens on, if `base` is a
/// plain `http` URL of this machine; only such servers are ever started.
pub fn loopback_address(base: &str) -> (r: Option<LoopbackAddr>)
    ensures
        r == loopback_spec(parsed_url(base@)),
{
    loopback_from_url(parse_url(base))
}

/// The address an endpoint accepted for local startup names: a plain `http`
/// URL of this machine, never credentials or a remote host.
pub proof fn lemma_loopback_only(
    u: Option<(Seq<char>, Seq<char>, Option<Seq<char>>, (int, Seq<char>, Seq<int>), Option<u16>)>,
)
    ensures
        loopback_spec(u) is Some ==> ({
            let (scheme, username, password, host, port) = u.unwrap();
            &&& scheme == "http"@
            &&& username.len() == 0
            &&& password is None
            &&& (host.0 == 1 && host.1 == "localhost"@) || (host.0 == 2 && host.2[0] == 127) || (
            host.0 == 3 && host.2 == seq![0int, 0, 0, 0, 0, 0, 0, 1])
        }),
{
}

/// What was found in a candidate checkpoint directory.
pub struct CheckpointProbe {
    /// `.evo-incomplete` exists: a download has not finished.
    pub incomplete_marker: bool,
    /// `config.json` parsed (at most 1 MiB): whether it has `quantization` or
    /// `quantization_config`; `None` when it could not be read.
    pub has_quantization: Option<bool>,
    pub tokenizer_config_is_file: bool,
    pub tokenizer_is_file: bool,
    /// The weight files (from the index's `weight_map`, or `model.safetensors`
    /// when there is no index), each with whether it is a non-empty regular
    /// file; `None` when the index could not be read.
    pub weights: Option<Vec<(String, bool)>>,
}

pub open spec fn safetensors_suffix() -> Seq<char> {
    ".safetensors"@
}

/// A weight file name that stays inside the checkpoint: a single normal
/// path component ending in `.safetensors`.
pub open spec fn weight_name_ok(name: Seq<char>) -> bool {
    &&& components(name).len() == 1
    &&& is_normal(components(name)[0])
    &&& name.len() >= safetensors_suffix().len()
    &&& name.subrange(name.len() - safetensors_suffix().len(), name.len() as int)
        == safetensors_suffix()
}

/// A directory is a usable MLX checkpoint when no download is pending, its
/// config carries MLX quantization metadata, both tokenizer files exist, and
/// it has at least one weight file, every one of which is a safe name of a
/// non-empty regular file.
pub open spec fn checkpoint_accepted(p: CheckpointProbe) -> bool {
    &&& !p.incomplete_marker
    &&& p.has_quantization == Some(true)
    &&& p.tokenizer_config_is_file
    &&& p.tokenizer_is_file
    &&& p.weights matches Some(ws)
    &&& ws@.len() > 0
    &&& forall|i: int| 0 <= i < ws@.len() ==> weight_name_ok((#[trigger] ws@[i]).0@) && ws@[i].1
}

/// Only a complete, quantized MLX checkpoint is accepted: a directory that
/// still carries the incomplete marker, lacks quantization metadata, lacks
/// `tokenizer_config.json` or `tokenizer.json`, or whose weights cannot be
/// listed is never one; nor is one with no weights or an empty weight file.
pub proof fn lemma_checkpoint_needs_every_part(p: CheckpointProbe)
    ensures
        p.incomplete_marker ==> !checkpoint_accepted(p),
        p.has_quantization != Some(true) ==> !checkpoint_accepted(p),
        !p.tokenizer_config_is_file ==> !checkpoint_accepted(p),
        !p.tokenizer_is_file ==> !checkpoint_accepted(p),
        p.weights is None ==> !checkpoint_accepted(p),
        p.weights matches Some(ws) && ws@.len() == 0 ==> !checkpoint_accepted(p),
        p.weights matches Some(ws) && (exists|i: int| 0 <= i < ws@.len() && !(#[trigger] ws@[i]).1)
            ==> !checkpoint_accepted(p),
{
}

fn weight_name_is_ok(name: &String) -> (b: bool)
    ensures
        b == weight_name_ok(name@),
{
    let parts = path_components(name.as_str());
    if parts.len() != 1 {
        return false;
    }
    let normal = match &parts[0] {
        PathComponent::Normal(_) => true,
        _ => false,
    };
    assert(crate::path::views(parts@)[0] == parts@[0]@);
    if !normal {
        return false;
    }
    let c = chars_of(name.as_str());
    let suffix = chars_of(".safetensors");
    proof {
        reveal_strlit(".safetensors");
    }
    if c.len() < suffix.len() {
        return false;
    }
    let start = c.len() - suffix.len();
    let mut i: usize = 0;
    while i < suffix.len()
        invariant
            c@ == name@,
            suffix@ == safetensors_suffix(),
            start == c@.len() - suffix@.len(),
            suffix@.len() <= c@.len(),
            start + suffix@.len() == c.len(),
            i <= suffix@.len(),
            forall|j: int| 0 <= j < i ==> c@[start + j] == suffix@[j],
        decreases suffix@.len() - i,
    {
        if c[start + i] != suffix[i] {
            assert(c@.subrange(start as int, c@.len() as int)[i as int] != suffix@[i as int]);
            return false;
        }
        i = i + 1;
    }
    assert(c@.subrange(start as int, c@.len() as int) =~= suffix@);
    true
}

/// Whether the probed directory is a usable checkpoint.
pub fn checkpoint_accepts(p: &CheckpointProbe) -> (b: bool)
    ensures
        b == checkpoint_accepted(*p),
        p.incomplete_marker ==> !b,
        p.has_quantization != Some(true) ==> !b,
        !p.tokenizer_config_is_file ==> !b,
        !p.tokenizer_is_file ==> !b,
        p.weights is None ==> !b,
{
    if p.incomplete_marker || p.has_quantization != Some(true) || !p.tokenizer_config_is_file
        || !p.tokenizer_is_file {
        return false;
    }
    let ws = match &p.weights {
        None => return false,
        Some(ws) => ws,
    };
    if ws.len() == 0 {
        return false;
    }
    let mut i: usize = 0;
    while i < ws.len()
        invariant
            p.weights == Some(*ws),
            i <= ws@.len(),
            forall|j: int| 0 <= j < i ==> weight_name_ok((#[trigger] ws@[j]).0@) && ws@[j].1,
        decreases ws@.len() - i,
    {
        if !weight_name_is_ok(&ws[i].0) || !ws[i].1 {
            return false;
        }
        i = i + 1;
    }
    true
}

/// The largest JSON file of a checkpoint that is read.
pub const MAX_JSON_BYTES: usize = 1024 * 1024;

/// The member names of the JSON value that `serde_json` reads from `bytes`:
/// `None` when the bytes are not JSON, `Some(None)` when the value is not an
/// object.
pub uninterp spec fn parsed_json_keys(bytes: Seq<u8>) -> Option<Option<Seq<Seq<char>>>>;

/// Parses `bytes` with `serde_json::from_slice::<serde_json::Value>` and lists
/// the keys of the object, if it is one. Trusted: the result is only tied to
/// the name `parsed_json_keys`.
#[verifier::external_body]
fn json_keys(bytes: &[u8]) -> (r: Option<Option<Vec<String>>>)
    ensures
        match r {
            None => parsed_json_keys(bytes@) is None,
            Some(None) => parsed_json_keys(bytes@) == Some(None::<Seq<Seq<char>>>),
            Some(Some(k)) => parsed_json_keys(bytes@) == Some(Some(id_views(k@))),
        },
{
    let value = serde_json::from_slice::<serde_json::Value>(bytes).ok()?;
    Some(value.as_object().map(|o| o.keys().cloned().collect()))
}

/// Whether a `config.json` of `bytes` carries MLX quantization metadata: a
/// `quantization` or `quantization_config` member. `None` when the file is
/// over 1 MiB or is not JSON; a value that is not an object has neither.
pub open spec fn config_quantization_spec(bytes: Seq<u8>) -> Option<bool> {
    if bytes.len() > MAX_JSON_BYTES {
        None
    } else {
        match parsed_json_keys(bytes) {
            None => None,
            Some(None) => Some(false),
            Some(Some(keys)) => Some(keys.contains("quantization"@) || keys.contains(
                "quantization_config"@,
            )),
        }
    }
}

/// Whether the `config.json` of a checkpoint carries MLX quantization metadata.
pub fn config_has_quantization(bytes: &[u8]) -> (r: Option<bool>)
    ensures
        r == config_quantization_spec(bytes@),
{
    if bytes.len() > MAX_JSON_BYTES {
        return None;
    }
    let keys = match json_keys(bytes) {
        None => return None,
        Some(None) => return Some(false),
        Some(Some(k)) => k,
    };
    let ghost kv = id_views(keys@);
    let a = "quantization".to_owned();
    let b = "quantization_config".to_owned();
    let mut i: usize = 0;
    while i < keys.len()
        invariant
            i <= keys@.len(),
            kv == id_views(keys@),
            bytes@.len() <= MAX_JSON_BYTES,
            parsed_json_keys(bytes@) == Some(Some(kv)),
            a@ == "quantization"@,
            b@ == "quantization_config"@,
            forall|j: int| 0 <= j < i ==> kv[j] != a@ && kv[j] != b@,
        decreases keys@.len() - i,
    {
        if keys[i] == a || keys[i] == b {
            proof {
                assert(kv[i as int] == keys@[i as int]@);
                if kv[i as int] == a@ {
                    assert(kv.contains("quantization"@));
                } else {
                    assert(kv.contains("quantization_config"@));
                }
            }
            return Some(true);
        }
        i = i + 1;
    }
    assert(!kv.contains(a@) && !kv.contains(b@)) by {
        if kv.contains(a@) {
            let j = choose|j: int| 0 <= j < kv.len() && kv[j] == a@;
        }
        if kv.contains(b@) {
            let j = choose|j: int| 0 <= j < kv.len() && kv[j] == b@;
        }
    }
    Some(false)
}

/// The text values of the `weight_map` object of the JSON value that
/// `serde_json` reads from `bytes`; `None` when the bytes are not JSON, there
/// is no such object, or a value is not text.
pub uninterp spec fn parsed_weight_map(bytes: Seq<u8>) -> Option<Seq<Seq<char>>>;

/// Parses `bytes` with `serde_json::from_slice::<serde_json::Value>` and reads
/// the text values of its `weight_map` object. Trusted: the result is only tied
/// to the name `parsed_weight_map`.
#[verifier::external_body]
fn weight_map_values(bytes: &[u8]) -> (r: Option<Vec<String>>)
    ensures
        match r {
            None => parsed_weight_map(bytes@) is None,
            Some(v) => parsed_weight_map(bytes@) == Some(id_views(v@)),
        },
{
    let value = serde_json::from_slice::<serde_json::Value>(bytes).ok()?;
    value.get("weight_map")?.as_object()?.values().map(|v| v.as_str().map(str::to_owned)).collect()
}

/// The weight files that a checkpoint index of `bytes` names; `None` when the
/// index is over 1 MiB or does not name them as text.
pub fn index_weight_names(bytes: &[u8]) -> (r: Option<Vec<String>>)
    ensures
        bytes@.len() > MAX_JSON_BYTES ==> r is None,
        bytes@.len() <= MAX_JSON_BYTES ==> match r {
            None => parsed_weight_map(bytes@) is None,
            Some(v) => parsed_weight_map(bytes@) == Some(id_views(v@)),
        },
{
    if bytes.len() > MAX_JSON_BYTES {
        return None;
    }
    weight_map_values(bytes)
}

/// The weight files of a checkpoint without an index.
pub fn weight_names_without_index() -> (r: Vec<String>)
    ensures
        r@.len() == 1,
        r@[0]@ == "model.safetensors"@,
{
    vec!["model.safetensors".to_owned()]
}

/// The last component of `path` when it is a normal one.
pub open spec fn file_name_spec(path: Seq<char>) -> Option<Seq<char>> {
    let c = components(path);
    if c.len() > 0 {
        match c.last() {
            Part::Normal(n) => Some(n),
            _ => None,
        }
    } else {
        None
    }
}

/// The final component of `path`, as `Path::file_name` gives it.
pub fn file_name(path: &str) -> (r: Option<String>)
    ensures
        opt_view(r) == file_name_spec(path@),
{
    let parts = path_components(path);
    let n = parts.len();
    if n == 0 {
        return None;
    }
    assert(crate::path::views(parts@)[n - 1] == parts@[n - 1]@);
    match &parts[n - 1] {
        PathComponent::Normal(v) => Some(string_from_chars(v.as_slice())),
        _ => None,
    }
}

pub open spec fn checkpoint_description() -> Seq<char> {
    "On disk · loads on the first request using the installed MLX runtime"@
}

/// The catalog entry of a checkpoint at its canonical path: the local profile,
/// named after the directory, described as on disk, with the MLX context window.
pub open spec fn checkpoint_view(path: Seq<char>, name: Seq<char>) -> ModelInfoView {
    ModelInfoView {
        display_name: name,
        description: Some(checkpoint_description()),
        context_window: Some(DEFAULT_CONTEXT),
        ..local_model_view(path)
    }
}

/// The catalog entry of an accepted checkpoint at its canonical path; `None`
/// when the path has no final name.
pub fn checkpoint_model(canonical_path: &str) -> (r: Option<ModelInfo>)
    ensures
        match file_name_spec(canonical_path@) {
            None => r is None,
            Some(n) => r matches Some(m) && m@ == checkpoint_view(canonical_path@, n),
        },
{
    let name = match file_name(canonical_path) {
        None => return None,
        Some(n) => n,
    };
    let mut model = local_model_info(canonical_path);
    model.display_name = name;
    model.description = Some(
        "On disk · loads on the first request using the installed MLX runtime".to_owned(),
    );
    model.context_window = Some(DEFAULT_CONTEXT);
    Some(model)
}

/// At most this many directory entries are examined.
pub const MAX_SCANNED_ENTRIES: usize = 256;

/// The checkpoints found below a model directory: the directory itself when it
/// is a checkpoint, otherwise its checkpoint subdirectories sorted by slug
/// with duplicates removed.
pub fn discovered_checkpoints(root: Option<ModelInfo>, children: Vec<ModelInfo>) -> (r: Vec<
    ModelInfo,
>)
    ensures
        match root {
            Some(m) => model_views(r@) == seq![m@],
            None => {
                &&& strictly_sorted_by_slug(model_views(r@))
                &&& forall|k: Seq<char>|
                    has_slug(model_views(r@), k) <==> has_slug(model_views(children@), k)
                &&& forall|i: int|
                    0 <= i < r@.len() ==> first_with_slug(
                        model_views(children@),
                        #[trigger] model_views(r@)[i],
                    )
            },
        },
{
    match root {
        Some(m) => {
            let ghost mv = m@;
            let r = vec![m];
            assert(model_views(r@) =~= seq![mv]);
            r
        },
        None => sort_unique_by_slug(children),
    }
}

} // verus!
