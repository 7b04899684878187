//! Asking a local server which models it serves: the URLs asked, the limits
//! on what is read, the errors reported, and, for an MLX server, the context
//! limit its health endpoint reports, as a protocol of requests and replies.
use crate::local_models::{
    body_chunk_fits, catalog_of, decode_models, health_context_limit, id_views, MAX_CATALOG_BYTES,
    MAX_HEALTH_BYTES,
};
use crate::model_info::{model_views, opt_view, ModelInfo, ModelInfoView};
use crate::text::{append_str, chars_of, decimal, push_decimal, string_of_range};
use vstd::prelude::*;

verus! {

/// What `url::Url::parse(base)` and then `Url::join(path)` give, written out
/// as text; `None` when either fails.
pub uninterp spec fn joined_url(base: Seq<char>, path: Seq<char>) -> Option<Seq<char>>;

/// Parses `base` with `url::Url::parse` and joins `path` to it with
/// `Url::join`. Trusted: the result is only tied to the name `joined_url`.
#[verifier::external_body]
fn url_join(base: &str, path: &str) -> (r: Option<String>)
    ensures
        opt_view(r) == joined_url(base@, path@),
{
    let joined = url::Url::parse(base).ok()?.join(path).ok()?;
    Some(joined.as_str().to_owned())
}

/// The reason phrase `http` gives a status code between 100 and 999, if it
/// knows one.
pub uninterp spec fn canonical_reason(code: u16) -> Option<Seq<char>>;

/// `http::StatusCode::from_u16(code)` and its `canonical_reason`. Trusted: the
/// result is only tied to the name `canonical_reason`.
#[verifier::external_body]
fn status_reason(code: u16) -> (r: Option<String>)
    requires
        100 <= code <= 999,
    ensures
        opt_view(r) == canonical_reason(code),
{
    http::StatusCode::from_u16(code).ok()?.canonical_reason().map(str::to_owned)
}

/// The integer that `serde_json` reads as member `key` of a JSON object in
/// `body`: `None` when the body is not JSON, has no such member, or the member
/// is not an integer that fits in an `i64`.
pub uninterp spec fn json_i64_member(body: Seq<u8>, key: Seq<char>) -> Option<i64>;

/// Parses `body` with `serde_json::from_slice::<serde_json::Value>`, then
/// `Value::get(key)` and `Value::as_i64`. Trusted: the result is only tied to
/// the name `json_i64_member`.
#[verifier::external_body]
fn json_i64(body: &[u8], key: &str) -> (r: Option<i64>)
    ensures
        r == json_i64_member(body@, key@),
{
    serde_json::from_slice::<serde_json::Value>(body).ok()?.get(key)?.as_i64()
}

/// `s` without its trailing slashes.
pub open spec fn trim_trailing_slashes(s: Seq<char>) -> Seq<char>
    decreases s.len(),
{
    if s.len() > 0 && s.last() == '/' {
        trim_trailing_slashes(s.drop_last())
    } else {
        s
    }
}

/// The catalog URL of a server: its base URL without trailing slashes,
/// followed by `/models`.
pub fn models_url(base: &str) -> (r: String)
    ensures
        r@ == trim_trailing_slashes(base@) + "/models"@,
{
    let c = chars_of(base);
    let mut end = c.len();
    assert(c@.subrange(0, end as int) =~= c@);
    while end > 0 && c[end - 1] == '/'
        invariant
            end <= c@.len(),
            c@ == base@,
            trim_trailing_slashes(base@) == trim_trailing_slashes(c@.subrange(0, end as int)),
        decreases end,
    {
        assert(c@.subrange(0, end as int).drop_last() =~= c@.subrange(0, end - 1));
        end = end - 1;
    }
    let mut r = string_of_range(c.as_slice(), 0, end);
    append_str(&mut r, "/models");
    r
}

/// The health URL of an MLX server: `/health` joined to its base URL.
pub fn health_url(base: &str) -> (r: Option<String>)
    ensures
        opt_view(r) == joined_url(base@, "/health"@),
{
    url_join(base, "/health")
}

/// How `http` writes a status: the code, a space and its reason phrase, or
/// `<unknown status code>` when it has none. Codes outside 100 to 999, which
/// no response carries, are written as the code alone.
pub open spec fn status_text_spec(code: u16) -> Seq<char> {
    if 100 <= code <= 999 {
        decimal(code as nat) + " "@ + match canonical_reason(code) {
            Some(r) => r,
            None => "<unknown status code>"@,
        }
    } else {
        decimal(code as nat)
    }
}

/// The text of status `code`, as `http::StatusCode` displays it.
pub fn status_text(code: u16) -> (r: String)
    ensures
        r@ == status_text_spec(code),
{
    let mut r = String::new();
    push_decimal(&mut r, code as u64);
    if 100 <= code && code <= 999 {
        append_str(&mut r, " ");
        match status_reason(code) {
            Some(reason) => append_str(&mut r, reason.as_str()),
            None => append_str(&mut r, "<unknown status code>"),
        }
    }
    r
}


/// Where a discovery stands.
#[derive(Clone, Copy, Debug, PartialEq, Eq, Structural)]
pub enum DiscoveryPhase {
    Idle,
    AwaitModels,
    ReadingModels,
    Decoding,
    AwaitHealth,
    ReadingHealth,
}

/// A discovery of served models: the provider asked, its base URL, whether
/// it is the MLX server, the body read so far and the models decoded.
pub struct ServedDiscovery {
    pub phase: DiscoveryPhase,
    pub provider_name: String,
    pub base_url: String,
    pub is_mlx: bool,
    pub body: Vec<u8>,
    pub models: Vec<ModelInfo>,
}

/// What the discovery is told.
pub enum DiscoveryEvent {
    /// Ask the provider named `provider_name`, at `base_url`, which models it serves.
    Start { provider_name: String, base_url: Option<String>, is_mlx: bool },
    /// The request was answered with this status, or could not be sent.
    Responded(Result<u16, String>),
    /// The next chunk of the body, `None` at its end, or an error while reading.
    Chunk(Result<Option<Vec<u8>>, String>),
    /// The IDs of the `data` list of the catalog body, in order, or `None`
    /// when the body does not decode as such a catalog.
    CatalogDecoded(Option<Vec<String>>),
    /// The time allowed for the whole discovery is over.
    TimedOut,
    /// The time allowed for the health lookup is over.
    HealthTimedOut,
}

/// What the discovery asks for next.
pub enum DiscoveryAction {
    /// Send a GET request to the URL, with the provider's headers.
    Get(String),
    /// Read the next chunk of the response.
    ReadChunk,
    /// Decode the catalog body, `{"data":[{"id":..},..]}`, and answer with
    /// the IDs it lists.
    DecodeCatalog(Vec<u8>),
    /// The discovery ends: the served models and the context limit, or why not.
    Finish(Result<(Vec<ModelInfo>, Option<i64>), String>),
}

/// The message when the server cannot be reached.
pub open spec fn connect_message(name: Seq<char>) -> Seq<char> {
    "Cannot connect to the "@ + name
        + " model server. Start the server, check its endpoint, then retry /model."@
}

/// Whether a discovery in phase `p` waits for event `e`.
pub open spec fn discovery_accepts(p: DiscoveryPhase, e: DiscoveryEvent) -> bool {
    match (p, e) {
        (DiscoveryPhase::Idle, DiscoveryEvent::Start { .. }) => true,
        (DiscoveryPhase::Idle, _) => false,
        (DiscoveryPhase::AwaitModels, DiscoveryEvent::Responded(_)) => true,
        (DiscoveryPhase::ReadingModels, DiscoveryEvent::Chunk(_)) => true,
        (DiscoveryPhase::Decoding, DiscoveryEvent::CatalogDecoded(_)) => true,
        (DiscoveryPhase::AwaitHealth, DiscoveryEvent::Responded(_)) => true,
        (DiscoveryPhase::ReadingHealth, DiscoveryEvent::Chunk(_)) => true,
        (DiscoveryPhase::AwaitHealth, DiscoveryEvent::HealthTimedOut) => true,
        (DiscoveryPhase::ReadingHealth, DiscoveryEvent::HealthTimedOut) => true,
        (_, DiscoveryEvent::TimedOut) => true,
        _ => false,
    }
}

/// The discovery is over: `t` is idle with nothing read, for the same provider.
pub open spec fn idle_after(s: ServedDiscovery, t: ServedDiscovery) -> bool {
    &&& t.phase == DiscoveryPhase::Idle
    &&& t.body@.len() == 0
    &&& t.models@.len() == 0
    &&& t.provider_name == s.provider_name
    &&& t.base_url == s.base_url
    &&& t.is_mlx == s.is_mlx
}

/// The discovery ends with error `m`.
pub open spec fn fails_with(s: ServedDiscovery, t: ServedDiscovery, a: DiscoveryAction, m: Seq<char>) -> bool {
    idle_after(s, t) && (a matches DiscoveryAction::Finish(Err(x)) && x@ == m)
}

/// The discovery ends with `models` and context limit `limit`.
pub open spec fn succeeds_with(
    s: ServedDiscovery,
    t: ServedDiscovery,
    a: DiscoveryAction,
    models: Seq<ModelInfoView>,
    limit: Option<i64>,
) -> bool {
    idle_after(s, t) && (a matches DiscoveryAction::Finish(Ok((v, l))) && model_views(v@) == models
        && l == limit)
}

/// `t` reads on in phase `p`, with `body` read so far.
pub open spec fn reads_on(
    s: ServedDiscovery,
    t: ServedDiscovery,
    a: DiscoveryAction,
    p: DiscoveryPhase,
    body: Seq<u8>,
) -> bool {
    &&& t.phase == p
    &&& t.body@ == body
    &&& model_views(t.models@) == model_views(s.models@)
    &&& t.provider_name == s.provider_name
    &&& t.base_url == s.base_url
    &&& t.is_mlx == s.is_mlx
    &&& a is ReadChunk
}

/// One step of a discovery, from `s` on event `e` to `t` with action `a`:
/// no base URL is an error; the catalog URL is asked; a failed request, a
/// status other than 2xx, a read error and a body over 1 MiB are errors; the
/// whole body is handed out to be decoded, and a body that is not a catalog
/// is an error; an MLX server's `/health` is then asked, and whatever it
/// fails to give leaves the context limit unknown.
pub open spec fn discovery_step(
    s: ServedDiscovery,
    e: DiscoveryEvent,
    t: ServedDiscovery,
    a: DiscoveryAction,
) -> bool {
    match (s.phase, e) {
        (DiscoveryPhase::Idle, DiscoveryEvent::Start { provider_name, base_url, is_mlx }) => {
            match base_url {
                None => {
                    &&& t.phase == DiscoveryPhase::Idle
                    &&& a matches DiscoveryAction::Finish(Err(x))
                    &&& x@ == "Local provider has no base URL"@
                },
                Some(b) => {
                    &&& t.phase == DiscoveryPhase::AwaitModels
                    &&& t.provider_name == provider_name
                    &&& t.base_url == b
                    &&& t.is_mlx == is_mlx
                    &&& t.body@.len() == 0
                    &&& t.models@.len() == 0
                    &&& a matches DiscoveryAction::Get(u)
                    &&& u@ == trim_trailing_slashes(b@) + "/models"@
                },
            }
        },
        (_, DiscoveryEvent::TimedOut) => fails_with(s, t, a, "Local model discovery timed out"@),
        (DiscoveryPhase::AwaitModels, DiscoveryEvent::Responded(r)) => match r {
            Err(_) => fails_with(s, t, a, connect_message(s.provider_name@)),
            Ok(code) => if 200 <= code < 300 {
                reads_on(s, t, a, DiscoveryPhase::ReadingModels, Seq::empty())
            } else {
                fails_with(s, t, a, "Local model discovery returned HTTP "@ + status_text_spec(code))
            },
        },
        (DiscoveryPhase::ReadingModels, DiscoveryEvent::Chunk(r)) => match r {
            Err(_) => fails_with(s, t, a, "Cannot read local model catalog"@),
            Ok(Some(c)) => if s.body@.len() + c@.len() <= MAX_CATALOG_BYTES {
                reads_on(s, t, a, DiscoveryPhase::ReadingModels, s.body@ + c@)
            } else {
                fails_with(s, t, a, "Local model catalog exceeds 1 MiB"@)
            },
            Ok(None) => {
                &&& t.phase == DiscoveryPhase::Decoding
                &&& t.body@.len() == 0
                &&& model_views(t.models@) == model_views(s.models@)
                &&& t.provider_name == s.provider_name
                &&& t.base_url == s.base_url
                &&& t.is_mlx == s.is_mlx
                &&& a matches DiscoveryAction::DecodeCatalog(b)
                &&& b@ == s.body@
            },
        },
        (DiscoveryPhase::Decoding, DiscoveryEvent::CatalogDecoded(decoded)) => match decoded {
            None => fails_with(s, t, a, "Invalid local /models response"@),
            Some(v) => {
                let ids = id_views(v@);
                let health = joined_url(s.base_url@, "/health"@);
                if !s.is_mlx || health is None {
                    idle_after(s, t) && (a matches DiscoveryAction::Finish(Ok((m, l)))
                        && catalog_of(ids, model_views(m@)) && l is None)
                } else {
                    &&& t.phase == DiscoveryPhase::AwaitHealth
                    &&& t.body@.len() == 0
                    &&& catalog_of(ids, model_views(t.models@))
                    &&& t.provider_name == s.provider_name
                    &&& t.base_url == s.base_url
                    &&& t.is_mlx == s.is_mlx
                    &&& a matches DiscoveryAction::Get(u)
                    &&& health == Some(u@)
                }
            },
        },
        (DiscoveryPhase::AwaitHealth, DiscoveryEvent::Responded(r)) => match r {
            Ok(code) => if 200 <= code < 300 {
                reads_on(s, t, a, DiscoveryPhase::ReadingHealth, Seq::empty())
            } else {
                succeeds_with(s, t, a, model_views(s.models@), None)
            },
            Err(_) => succeeds_with(s, t, a, model_views(s.models@), None),
        },
        (DiscoveryPhase::ReadingHealth, DiscoveryEvent::Chunk(r)) => match r {
            Ok(Some(c)) => if s.body@.len() + c@.len() <= MAX_HEALTH_BYTES {
                reads_on(s, t, a, DiscoveryPhase::ReadingHealth, s.body@ + c@)
            } else {
                succeeds_with(s, t, a, model_views(s.models@), None)
            },
            Ok(None) => succeeds_with(
                s,
                t,
                a,
                model_views(s.models@),
                match json_i64_member(s.body@, "configured_context_limit"@) {
                    Some(l) => if l > 0 {
                        Some(if l < crate::local_models::DEFAULT_CONTEXT {
                            l
                        } else {
                            crate::local_models::DEFAULT_CONTEXT
                        })
                    } else {
                        None
                    },
                    None => None,
                },
            ),
            Err(_) => succeeds_with(s, t, a, model_views(s.models@), None),
        },
        (DiscoveryPhase::AwaitHealth, DiscoveryEvent::HealthTimedOut) | (
            DiscoveryPhase::ReadingHealth,
            DiscoveryEvent::HealthTimedOut,
        ) => succeeds_with(s, t, a, model_views(s.models@), None),
        _ => false,
    }
}

impl ServedDiscovery {
    /// A discovery that has not started.
    pub fn new() -> (d: Self)
        ensures
            d.phase == DiscoveryPhase::Idle,
            d.body@.len() == 0,
            d.models@.len() == 0,
    {
        ServedDiscovery {
            phase: DiscoveryPhase::Idle,
            provider_name: String::new(),
            base_url: String::new(),
            is_mlx: false,
            body: Vec::new(),
            models: Vec::new(),
        }
    }

    /// Whether the discovery waits for event `e` now.
    pub fn accepts(&self, e: &DiscoveryEvent) -> (b: bool)
        ensures
            b == discovery_accepts(self.phase, *e),
    {
        match (self.phase, e) {
            (DiscoveryPhase::Idle, DiscoveryEvent::Start { .. }) => true,
            (DiscoveryPhase::Idle, _) => false,
            (DiscoveryPhase::AwaitModels, DiscoveryEvent::Responded(_)) => true,
            (DiscoveryPhase::ReadingModels, DiscoveryEvent::Chunk(_)) => true,
            (DiscoveryPhase::Decoding, DiscoveryEvent::CatalogDecoded(_)) => true,
            (DiscoveryPhase::AwaitHealth, DiscoveryEvent::Responded(_)) => true,
            (DiscoveryPhase::ReadingHealth, DiscoveryEvent::Chunk(_)) => true,
            (DiscoveryPhase::AwaitHealth, DiscoveryEvent::HealthTimedOut) => true,
            (DiscoveryPhase::ReadingHealth, DiscoveryEvent::HealthTimedOut) => true,
            (_, DiscoveryEvent::TimedOut) => true,
            _ => false,
        }
    }

    fn end(&mut self, r: Result<(Vec<ModelInfo>, Option<i64>), String>) -> (a: DiscoveryAction)
        ensures
            idle_after(*old(self), *final(self)),
            a == DiscoveryAction::Finish(r),
    {
        self.phase = DiscoveryPhase::Idle;
        self.body = Vec::new();
        self.models = Vec::new();
        DiscoveryAction::Finish(r)
    }

    fn take_models(&mut self) -> (v: Vec<ModelInfo>)
        ensures
            v == old(self).models,
            final(self).models@.len() == 0,
            final(self).phase == old(self).phase,
            final(self).body == old(self).body,
            final(self).provider_name == old(self).provider_name,
            final(self).base_url == old(self).base_url,
            final(self).is_mlx == old(self).is_mlx,
    {
        let mut v: Vec<ModelInfo> = Vec::new();
        std::mem::swap(&mut v, &mut self.models);
        v
    }

    /// Takes event `e` and says what to do next, as `discovery_step` states.
    pub fn step(&mut self, e: DiscoveryEvent) -> (a: DiscoveryAction)
        requires
            discovery_accepts(old(self).phase, e),
        ensures
            discovery_step(*old(self), e, *final(self), a),
    {
        match e {
            DiscoveryEvent::Start { provider_name, base_url, is_mlx } => match base_url {
                None => {
                    self.phase = DiscoveryPhase::Idle;
                    DiscoveryAction::Finish(Err("Local provider has no base URL".to_owned()))
                },
                Some(b) => {
                    let url = models_url(b.as_str());
                    self.phase = DiscoveryPhase::AwaitModels;
                    self.provider_name = provider_name;
                    self.base_url = b;
                    self.is_mlx = is_mlx;
                    self.body = Vec::new();
                    self.models = Vec::new();
                    DiscoveryAction::Get(url)
                },
            },
            DiscoveryEvent::TimedOut => self.end(Err("Local model discovery timed out".to_owned())),
            DiscoveryEvent::HealthTimedOut => {
                let v = self.take_models();
                self.end(Ok((v, None)))
            },
            DiscoveryEvent::Responded(r) => {
                let success = match r {
                    Ok(code) => 200 <= code && code < 300,
                    Err(_) => false,
                };
                if self.phase == DiscoveryPhase::AwaitModels {
                    match r {
                        Err(_) => {
                            let mut m = "Cannot connect to the ".to_owned();
                            append_str(&mut m, self.provider_name.as_str());
                            append_str(
                                &mut m,
                                " model server. Start the server, check its endpoint, then retry /model.",
                            );
                            self.end(Err(m))
                        },
                        Ok(code) => if success {
                            self.phase = DiscoveryPhase::ReadingModels;
                            self.body = Vec::new();
                            DiscoveryAction::ReadChunk
                        } else {
                            let mut m = "Local model discovery returned HTTP ".to_owned();
                            let text = status_text(code);
                            append_str(&mut m, text.as_str());
                            self.end(Err(m))
                        },
                    }
                } else if success {
                    self.phase = DiscoveryPhase::ReadingHealth;
                    self.body = Vec::new();
                    DiscoveryAction::ReadChunk
                } else {
                    let v = self.take_models();
                    self.end(Ok((v, None)))
                }
            },
            DiscoveryEvent::CatalogDecoded(ids) => match decode_models(ids) {
                Err(m) => self.end(Err(m)),
                Ok(v) => {
                    let health = if self.is_mlx {
                        health_url(self.base_url.as_str())
                    } else {
                        None
                    };
                    match health {
                        None => self.end(Ok((v, None))),
                        Some(u) => {
                            self.phase = DiscoveryPhase::AwaitHealth;
                            self.body = Vec::new();
                            self.models = v;
                            DiscoveryAction::Get(u)
                        },
                    }
                },
            },
            DiscoveryEvent::Chunk(r) => {
                if self.phase == DiscoveryPhase::ReadingModels {
                    match r {
                        Err(_) => self.end(Err("Cannot read local model catalog".to_owned())),
                        Ok(Some(c)) => {
                            if body_chunk_fits(self.body.len(), c.len(), MAX_CATALOG_BYTES) {
                                let mut c = c;
                                self.body.append(&mut c);
                                DiscoveryAction::ReadChunk
                            } else {
                                self.end(Err("Local model catalog exceeds 1 MiB".to_owned()))
                            }
                        },
                        Ok(None) => {
                            let mut body: Vec<u8> = Vec::new();
                            std::mem::swap(&mut body, &mut self.body);
                            self.phase = DiscoveryPhase::Decoding;
                            DiscoveryAction::DecodeCatalog(body)
                        },
                    }
                } else {
                    match r {
                        Ok(Some(c)) => {
                            if body_chunk_fits(self.body.len(), c.len(), MAX_HEALTH_BYTES) {
                                let mut c = c;
                                self.body.append(&mut c);
                                DiscoveryAction::ReadChunk
                            } else {
                                let v = self.take_models();
                                self.end(Ok((v, None)))
                            }
                        },
                        Ok(None) => {
                            let configured = json_i64(self.body.as_slice(), "configured_context_limit");
                            let limit = health_context_limit(configured);
                            let v = self.take_models();
                            self.end(Ok((v, limit)))
                        },
                        Err(_) => {
                            let v = self.take_models();
                            self.end(Ok((v, None)))
                        },
                    }
                }
            },
        }
    }
}


/// Only the catalog URL is asked first, and only an MLX server's health
/// endpoint after it; a context limit that a discovery reports is positive and
/// never above the default context.
pub proof fn lemma_health_asked_only_of_mlx(
    s: ServedDiscovery,
    e: DiscoveryEvent,
    t: ServedDiscovery,
    a: DiscoveryAction,
)
    requires
        discovery_step(s, e, t, a),
    ensures
        a matches DiscoveryAction::Get(u) ==> (s.phase == DiscoveryPhase::Idle && (e matches DiscoveryEvent::Start { base_url: Some(b), .. } && u@ == trim_trailing_slashes(b@) + "/models"@)) || (
        s.phase == DiscoveryPhase::Decoding && s.is_mlx && joined_url(s.base_url@, "/health"@)
            == Some(u@)),
        a matches DiscoveryAction::Finish(Ok((_, Some(l)))) ==> 0 < l <= crate::local_models::DEFAULT_CONTEXT,
{
}

} // verus!
