//! Supervision of an installed MLX server: one runtime per endpoint, shared by
//! every session that names it, and the protocol that decides whether a
//! server is reused, started, awaited or given up on.
use crate::local_models::DEFAULT_CONTEXT;
use crate::model_info::opt_view;
use crate::mlx_models::{loopback_address, loopback_spec, parsed_url, LoopbackAddr, LoopbackIp};
use crate::path::{join, join_spec};
use crate::text::{append_str, decimal, push_decimal};
use std::sync::Arc;
use vstd::prelude::*;

verus! {

/// The runtime of one MLX endpoint. `id` is its place in the registry that
/// made it, by which the process that it owns is found again.
pub struct MlxRuntime {
    pub id: usize,
    pub base_url: String,
    pub address: Option<LoopbackAddr>,
}

/// What a runtime stands for: its place, its endpoint and the loopback
/// address that a server for it is started on, if any.
pub struct MlxRuntimeView {
    pub id: nat,
    pub base_url: Seq<char>,
    pub address: Option<LoopbackAddr>,
}

impl View for MlxRuntime {
    type V = MlxRuntimeView;

    open spec fn view(&self) -> MlxRuntimeView {
        MlxRuntimeView { id: self.id as nat, base_url: self.base_url@, address: self.address }
    }
}

/// The runtime made for endpoint `base` at place `id`.
pub open spec fn runtime_for(id: nat, base: Seq<char>) -> MlxRuntimeView {
    MlxRuntimeView { id, base_url: base, address: loopback_spec(parsed_url(base)) }
}

/// Whether the registry `s` holds a runtime for `base`.
pub open spec fn registered(s: Seq<MlxRuntimeView>, base: Seq<char>) -> bool {
    exists|i: int| 0 <= i < s.len() && #[trigger] s[i].base_url == base
}

/// The registry after a runtime for `base` is asked for: unchanged when it
/// holds one, else with a new runtime for `base` at its end.
pub open spec fn register(s: Seq<MlxRuntimeView>, base: Seq<char>) -> Seq<MlxRuntimeView> {
    if registered(s, base) {
        s
    } else {
        s.push(runtime_for(s.len(), base))
    }
}

/// A registry: each runtime sits at its own place, made for its endpoint, and
/// no endpoint has two.
pub open spec fn registry_wf(s: Seq<MlxRuntimeView>) -> bool {
    &&& forall|i: int| 0 <= i < s.len() ==> #[trigger] s[i] == runtime_for(i as nat, s[i].base_url)
    &&& forall|i: int, j: int|
        0 <= i < s.len() && 0 <= j < s.len() && i != j ==> #[trigger] s[i].base_url
            != #[trigger] s[j].base_url
}

/// `Arc::clone`: a second handle to the runtime that `runtime` points to.
#[verifier::external_body]
fn share(runtime: &Arc<MlxRuntime>) -> (r: Arc<MlxRuntime>)
    ensures
        r == *runtime,
{
    Arc::clone(runtime)
}

/// The runtimes of the MLX endpoints that live sessions use.
pub struct ModelProviderSharedState {
    servers: Vec<Arc<MlxRuntime>>,
}

impl View for ModelProviderSharedState {
    type V = Seq<MlxRuntimeView>;

    closed spec fn view(&self) -> Seq<MlxRuntimeView> {
        Seq::new(self.servers@.len(), |i: int| (*self.servers@[i])@)
    }
}

impl ModelProviderSharedState {
    /// Every state that this type hands out is a registry.
    pub closed spec fn wf(&self) -> bool {
        registry_wf(self@)
    }

    /// A state with no runtime.
    pub fn new() -> (s: Self)
        ensures
            s.wf(),
            s@ == Seq::<MlxRuntimeView>::empty(),
    {
        let s = ModelProviderSharedState { servers: Vec::new() };
        assert(s@ =~= Seq::<MlxRuntimeView>::empty());
        s
    }

    /// The runtime of endpoint `base_url`: the one already made for it, or a
    /// new one, which every later call for the same endpoint returns.
    pub fn mlx_server(&mut self, base_url: &str) -> (r: Arc<MlxRuntime>)
        requires
            old(self).wf(),
        ensures
            final(self).wf(),
            final(self)@ == register(old(self)@, base_url@),
            registered(final(self)@, base_url@),
            (*r)@.base_url == base_url@,
            (*r)@ == final(self)@[(*r)@.id as int],
            (*r)@.id < final(self)@.len(),
            (*r)@.address == loopback_spec(parsed_url(base_url@)),
    {
        let ghost before = self@;
        let key = base_url.to_owned();
        let mut i: usize = 0;
        while i < self.servers.len()
            invariant
                i <= self.servers@.len(),
                self@ == before,
                registry_wf(before),
                key@ == base_url@,
                forall|j: int| 0 <= j < i ==> #[trigger] before[j].base_url != base_url@,
            decreases self.servers@.len() - i,
        {
            let found = {
                let entry: &Arc<MlxRuntime> = &self.servers[i];
                entry.base_url == key
            };
            assert(before[i as int] == (*self.servers@[i as int])@);
            if found {
                let r = share(&self.servers[i]);
                assert(registered(before, base_url@));
                return r;
            }
            i = i + 1;
        }
        assert(!registered(before, base_url@));
        let id = self.servers.len();
        let runtime = MlxRuntime {
            id,
            base_url: key,
            address: loopback_address(base_url),
        };
        let shared = Arc::new(runtime);
        let r = share(&shared);
        self.servers.push(shared);
        assert(self@ =~= before.push(runtime_for(before.len(), base_url@)));
        assert(self@[id as int].base_url == base_url@);
        r
    }
}

impl Default for ModelProviderSharedState {
    fn default() -> (s: Self)
        ensures
            s.wf(),
            s@ == Seq::<MlxRuntimeView>::empty(),
    {
        Self::new()
    }
}

/// Asking twice for the runtime of an endpoint changes nothing the second time,
/// and two endpoints never share a runtime.
pub proof fn lemma_one_runtime_per_endpoint(s: Seq<MlxRuntimeView>, a: Seq<char>, b: Seq<char>)
    requires
        registry_wf(s),
    ensures
        registry_wf(register(s, a)),
        register(register(s, a), a) == register(s, a),
        a != b ==> {
            let t = register(register(s, a), b);
            forall|i: int, j: int|
                0 <= i < t.len() && 0 <= j < t.len() && t[i].base_url == a && t[j].base_url == b
                    ==> i != j && t[i] != t[j]
        },
{
    let t = register(s, a);
    if !registered(s, a) {
        assert(t[s.len() as int].base_url == a);
        assert(registered(t, a));
    }
    assert(registered(t, a));
}


/// Why an MLX runtime could not be made ready.
pub enum RuntimeFailure {
    /// The server this runtime started had exited before the request; the text
    /// is its exit status.
    ExitedEarlier(String),
    /// No server listens and `CODEX_MLX_AUTO_START` is `0`.
    AutoStartDisabled,
    /// No model directory is configured or can be derived.
    NoModelDirectory,
    /// The Python executable of the runtime is not a file.
    RuntimeNotFound,
    /// An operating-system error, as its message reads.
    Io(String),
    /// The started server exited while it was awaited; the text is its exit status.
    StartupFailed(String),
    /// The started server did not listen in time.
    TimedOut,
}

/// The message a failure is reported with.
pub open spec fn runtime_failure_message_spec(f: RuntimeFailure) -> Seq<char> {
    match f {
        RuntimeFailure::ExitedEarlier(status) => "MLX server exited with "@ + status@
            + "; inspect evo-codex-mlx.log in the model directory"@,
        RuntimeFailure::AutoStartDisabled => "MLX server is stopped and automatic startup is disabled"@,
        RuntimeFailure::NoModelDirectory => "Set CODEX_MLX_MODEL_DIR to your local model directory"@,
        RuntimeFailure::RuntimeNotFound => "MLX runtime not found. Set CODEX_MLX_PYTHON to an existing MLX-VLM Python executable, or start your MLX server separately."@,
        RuntimeFailure::Io(m) => m@,
        RuntimeFailure::StartupFailed(status) => "MLX startup failed with "@ + status@
            + "; inspect evo-codex-mlx.log in the model directory"@,
        RuntimeFailure::TimedOut => "MLX startup timed out; inspect evo-codex-mlx.log in the model directory"@,
    }
}

impl RuntimeFailure {
    pub fn message(&self) -> (r: String)
        ensures
            r@ == runtime_failure_message_spec(*self),
    {
        match self {
            RuntimeFailure::ExitedEarlier(status) => {
                let mut t = "MLX server exited with ".to_owned();
                append_str(&mut t, status.as_str());
                append_str(&mut t, "; inspect evo-codex-mlx.log in the model directory");
                t
            },
            RuntimeFailure::AutoStartDisabled => "MLX server is stopped and automatic startup is disabled".to_owned(),
            RuntimeFailure::NoModelDirectory => "Set CODEX_MLX_MODEL_DIR to your local model directory".to_owned(),
            RuntimeFailure::RuntimeNotFound => "MLX runtime not found. Set CODEX_MLX_PYTHON to an existing MLX-VLM Python executable, or start your MLX server separately.".to_owned(),
            RuntimeFailure::Io(m) => m.clone(),
            RuntimeFailure::StartupFailed(status) => {
                let mut t = "MLX startup failed with ".to_owned();
                append_str(&mut t, status.as_str());
                append_str(&mut t, "; inspect evo-codex-mlx.log in the model directory");
                t
            },
            RuntimeFailure::TimedOut => "MLX startup timed out; inspect evo-codex-mlx.log in the model directory".to_owned(),
        }
    }
}

/// The text of a loopback IP address, as the standard library writes it.
pub open spec fn ip_text(ip: LoopbackIp) -> Seq<char> {
    match ip {
        LoopbackIp::V4(a, b, c, d) => decimal(a as nat) + "."@ + decimal(b as nat) + "."@ + decimal(
            c as nat,
        ) + "."@ + decimal(d as nat),
        LoopbackIp::V6 => "::1"@,
    }
}

/// The arguments of `python` that start a server on `addr`.
pub open spec fn server_args_spec(addr: LoopbackAddr) -> Seq<Seq<char>> {
    seq![
        "-m"@,
        "mlx_vlm.server"@,
        "--host"@,
        ip_text(addr.ip),
        "--port"@,
        decimal(addr.port as nat),
        "--max-kv-size"@,
        decimal(DEFAULT_CONTEXT as nat),
        "--max-tokens"@,
        "2048"@,
        "--max-num-seqs"@,
        "1"@,
        "--prefill-step-size"@,
        "256"@,
    ]
}

/// The views of a list of strings.
pub open spec fn string_views(v: Seq<String>) -> Seq<Seq<char>> {
    Seq::new(v.len(), |i: int| v[i]@)
}

/// The views of a list of name and value pairs.
pub open spec fn pair_views(v: Seq<(String, String)>) -> Seq<(Seq<char>, Seq<char>)> {
    Seq::new(v.len(), |i: int| (v[i].0@, v[i].1@))
}

/// The environment a started server gets: offline model hub, no tokenizer
/// threads, and the API key when there is one.
pub open spec fn server_env_spec(key: Option<Seq<char>>) -> Seq<(Seq<char>, Seq<char>)> {
    let base = seq![("HF_HUB_OFFLINE"@, "1"@), ("TOKENIZERS_PARALLELISM"@, "false"@)];
    match key {
        Some(k) => base.push(("MLX_VLM_SERVER_API_KEY"@, k)),
        None => base,
    }
}

fn push_ip_text(s: &mut String, ip: LoopbackIp)
    ensures
        final(s)@ == old(s)@ + ip_text(ip),
{
    match ip {
        LoopbackIp::V4(a, b, c, d) => {
            push_decimal(s, a as u64);
            append_str(s, ".");
            push_decimal(s, b as u64);
            append_str(s, ".");
            push_decimal(s, c as u64);
            append_str(s, ".");
            push_decimal(s, d as u64);
            assert(s@ =~= old(s)@ + ip_text(ip));
        },
        LoopbackIp::V6 => {
            append_str(s, "::1");
        },
    }
}

/// The arguments that start a server on `addr`.
pub fn server_args(addr: LoopbackAddr) -> (r: Vec<String>)
    ensures
        string_views(r@) == server_args_spec(addr),
{
    let mut host = String::new();
    push_ip_text(&mut host, addr.ip);
    let mut port = String::new();
    push_decimal(&mut port, addr.port as u64);
    let mut kv = String::new();
    push_decimal(&mut kv, DEFAULT_CONTEXT as u64);
    let r = vec![
        "-m".to_owned(),
        "mlx_vlm.server".to_owned(),
        "--host".to_owned(),
        host,
        "--port".to_owned(),
        port,
        "--max-kv-size".to_owned(),
        kv,
        "--max-tokens".to_owned(),
        "2048".to_owned(),
        "--max-num-seqs".to_owned(),
        "1".to_owned(),
        "--prefill-step-size".to_owned(),
        "256".to_owned(),
    ];
    assert(string_views(r@) =~= server_args_spec(addr));
    r
}

/// The environment of a started server.
pub fn server_env(key: Option<String>) -> (r: Vec<(String, String)>)
    ensures
        pair_views(r@) == server_env_spec(opt_view(key)),
{
    let mut r = vec![
        ("HF_HUB_OFFLINE".to_owned(), "1".to_owned()),
        ("TOKENIZERS_PARALLELISM".to_owned(), "false".to_owned()),
    ];
    match key {
        Some(k) => {
            r.push(("MLX_VLM_SERVER_API_KEY".to_owned(), k));
        },
        None => {},
    }
    assert(pair_views(r@) =~= server_env_spec(opt_view(key)));
    r
}


/// What the program finds out before it starts a server.
pub struct LaunchFacts {
    /// `CODEX_MLX_AUTO_START`, when it is set to valid text.
    pub auto_start: Option<String>,
    /// The model directory, when one is configured or can be derived.
    pub root: Option<String>,
    /// `CODEX_MLX_PYTHON`, when it is set.
    pub python_override: Option<String>,
    /// The provider's API key as its configuration yields it, or why it could not.
    pub api_key: Result<Option<String>, String>,
    /// The provider's bearer token, when it has one.
    pub bearer_token: Option<String>,
}

/// How a server is started: the program, its arguments and its environment.
pub struct LaunchSpec {
    pub program: String,
    pub args: Vec<String>,
    pub env: Vec<(String, String)>,
}

/// What the supervisor is told.
pub enum RuntimeEvent {
    /// A request to make the runtime of the provider's endpoint ready.
    Start(Option<String>),
    /// Whether a server accepts connections on the address.
    Listening(bool),
    /// The state of the owned server: still running, exited with a status, or
    /// an error while asking.
    ChildStatus(Result<Option<String>, String>),
    /// What was found out before a start.
    Facts(LaunchFacts),
    /// Whether the Python executable is a file.
    PythonIsFile(bool),
    /// The server log was opened for appending, or the error.
    LogOpened(Result<(), String>),
    /// The server process was started, or the error.
    Spawned(Result<(), String>),
    /// The pause between two polls is over.
    Slept,
    /// The time to wait for a started server is over.
    TimedOut,
}

/// What the supervisor asks for next.
pub enum RuntimeAction {
    /// The request ends with `outcome`; when `kill_child` holds, the owned
    /// server is killed and forgotten first.
    Finish { outcome: Result<(), RuntimeFailure>, kill_child: bool },
    /// Check whether a server accepts connections on the address.
    Probe(LoopbackAddr),
    /// Ask whether the owned server has exited.
    PollChild,
    /// Find out the launch facts.
    GatherFacts,
    /// Check whether the path is a file.
    CheckPython(String),
    /// Open the server log at the path for appending.
    OpenLog(String),
    /// Start the server, writing to the log.
    Spawn(LaunchSpec),
    /// Pause for the number of milliseconds.
    Sleep(u64),
}

/// Where a request stands.
pub enum SupervisorPhase {
    Idle,
    FirstProbe(LoopbackAddr),
    CheckOwned(LoopbackAddr),
    Gathering(LoopbackAddr),
    CheckingPython {
        addr: LoopbackAddr,
        root: String,
        python: String,
        key: Result<Option<String>, String>,
    },
    OpeningLog { addr: LoopbackAddr, python: String, key: Result<Option<String>, String> },
    Spawning(LoopbackAddr),
    WaitPoll(LoopbackAddr),
    WaitProbe(LoopbackAddr),
    WaitSleep(LoopbackAddr),
}

/// The supervisor of one runtime: where its request stands and whether it
/// owns a started server.
pub struct RuntimeSupervisor {
    pub phase: SupervisorPhase,
    pub has_child: bool,
}

/// Milliseconds between two polls of a starting server.
pub const POLL_INTERVAL_MS: u64 = 200;

/// The Python executable: `CODEX_MLX_PYTHON`, or the model directory's
/// virtual environment.
pub open spec fn python_path_spec(root: Seq<char>, over: Option<String>) -> Seq<char> {
    match over {
        Some(p) => p@,
        None => join_spec(root, ".venv/bin/python"@),
    }
}

/// The log of started servers, in the model directory.
pub open spec fn log_path_spec(root: Seq<char>) -> Seq<char> {
    join_spec(root, "evo-codex-mlx.log"@)
}

/// The key a started server gets: the configured API key, else the bearer token.
pub open spec fn key_choice(api_key: Option<String>, bearer: Option<String>) -> Option<String> {
    match api_key {
        Some(k) => Some(k),
        None => bearer,
    }
}

/// The key that a started server gets, or the error of reading the API key,
/// which is reported once the log is open.
pub open spec fn key_result(api_key: Result<Option<String>, String>, bearer: Option<String>) -> Result<
    Option<String>,
    String,
> {
    match api_key {
        Ok(k) => Ok(key_choice(k, bearer)),
        Err(m) => Err(m),
    }
}

/// The supervisor's own rule: a request that awaits a started server owns one,
/// and a request that prepares a start owns none.
pub open spec fn supervisor_inv(s: RuntimeSupervisor) -> bool {
    match s.phase {
        SupervisorPhase::CheckOwned(_) | SupervisorPhase::WaitPoll(_) | SupervisorPhase::WaitProbe(_)
        | SupervisorPhase::WaitSleep(_) => s.has_child,
        SupervisorPhase::Gathering(_) | SupervisorPhase::CheckingPython { .. }
        | SupervisorPhase::OpeningLog { .. } | SupervisorPhase::Spawning(_) => !s.has_child,
        _ => true,
    }
}

/// Whether event `e` is one the supervisor waits for in phase `p`.
pub open spec fn accepts_spec(p: SupervisorPhase, e: RuntimeEvent) -> bool {
    match (p, e) {
        (SupervisorPhase::Idle, RuntimeEvent::Start(_)) => true,
        (SupervisorPhase::FirstProbe(_), RuntimeEvent::Listening(_)) => true,
        (SupervisorPhase::CheckOwned(_), RuntimeEvent::ChildStatus(_)) => true,
        (SupervisorPhase::Gathering(_), RuntimeEvent::Facts(_)) => true,
        (SupervisorPhase::CheckingPython { .. }, RuntimeEvent::PythonIsFile(_)) => true,
        (SupervisorPhase::OpeningLog { .. }, RuntimeEvent::LogOpened(_)) => true,
        (SupervisorPhase::Spawning(_), RuntimeEvent::Spawned(_)) => true,
        (SupervisorPhase::WaitPoll(_), RuntimeEvent::ChildStatus(_)) => true,
        (SupervisorPhase::WaitProbe(_), RuntimeEvent::Listening(_)) => true,
        (SupervisorPhase::WaitSleep(_), RuntimeEvent::Slept) => true,
        (SupervisorPhase::WaitPoll(_), RuntimeEvent::TimedOut) => true,
        (SupervisorPhase::WaitProbe(_), RuntimeEvent::TimedOut) => true,
        (SupervisorPhase::WaitSleep(_), RuntimeEvent::TimedOut) => true,
        _ => false,
    }
}

/// The request ends: phase `Idle`, child kept or dropped, action `Finish`.
pub open spec fn finishes(
    t: RuntimeSupervisor,
    a: RuntimeAction,
    outcome: Result<(), RuntimeFailure>,
    kill: bool,
    has_child: bool,
) -> bool {
    &&& t.phase == SupervisorPhase::Idle
    &&& t.has_child == has_child
    &&& a == RuntimeAction::Finish { outcome, kill_child: kill }
}

/// One step of the supervisor, from `s` on event `e` to `t` with action `a`.
pub open spec fn supervisor_step(
    s: RuntimeSupervisor,
    e: RuntimeEvent,
    t: RuntimeSupervisor,
    a: RuntimeAction,
) -> bool {
    match (s.phase, e) {
        (SupervisorPhase::Idle, RuntimeEvent::Start(base)) => {
            let addr = match base {
                Some(b) => loopback_spec(parsed_url(b@)),
                None => None,
            };
            match addr {
                None => finishes(t, a, Ok(()), false, s.has_child),
                Some(addr) => t == RuntimeSupervisor {
                    phase: SupervisorPhase::FirstProbe(addr),
                    has_child: s.has_child,
                } && a == RuntimeAction::Probe(addr),
            }
        },
        (SupervisorPhase::FirstProbe(addr), RuntimeEvent::Listening(up)) => if up {
            finishes(t, a, Ok(()), false, s.has_child)
        } else if s.has_child {
            t == RuntimeSupervisor { phase: SupervisorPhase::CheckOwned(addr), has_child: true }
                && a == RuntimeAction::PollChild
        } else {
            t == RuntimeSupervisor { phase: SupervisorPhase::Gathering(addr), has_child: false }
                && a == RuntimeAction::GatherFacts
        },
        (SupervisorPhase::CheckOwned(addr), RuntimeEvent::ChildStatus(st)) => match st {
            Ok(Some(status)) => finishes(
                t,
                a,
                Err(RuntimeFailure::ExitedEarlier(status)),
                false,
                false,
            ),
            Ok(None) => t == RuntimeSupervisor { phase: SupervisorPhase::WaitPoll(addr), has_child: true }
                && a == RuntimeAction::PollChild,
            Err(m) => finishes(t, a, Err(RuntimeFailure::Io(m)), false, true),
        },
        (SupervisorPhase::Gathering(addr), RuntimeEvent::Facts(f)) => {
            if f.auto_start matches Some(v) && v@ == "0"@ {
                finishes(t, a, Err(RuntimeFailure::AutoStartDisabled), false, false)
            } else {
                match f.root {
                    None => finishes(t, a, Err(RuntimeFailure::NoModelDirectory), false, false),
                    Some(root) => {
                        &&& t.has_child == false
                        &&& t.phase matches SupervisorPhase::CheckingPython {
                            addr: a2,
                            root: r2,
                            python,
                            key,
                        }
                        &&& a2 == addr
                        &&& r2@ == root@
                        &&& python@ == python_path_spec(root@, f.python_override)
                        &&& key == key_result(f.api_key, f.bearer_token)
                        &&& a matches RuntimeAction::CheckPython(p) && p@ == python@
                    },
                }
            }
        },
        (SupervisorPhase::CheckingPython { addr, root, python, key }, RuntimeEvent::PythonIsFile(
            found,
        )) => if !found {
            finishes(t, a, Err(RuntimeFailure::RuntimeNotFound), false, false)
        } else {
            &&& t == RuntimeSupervisor {
                phase: SupervisorPhase::OpeningLog { addr, python, key },
                has_child: false,
            }
            &&& a matches RuntimeAction::OpenLog(p) && p@ == log_path_spec(root@)
        },
        (SupervisorPhase::OpeningLog { addr, python, key }, RuntimeEvent::LogOpened(r)) => match r {
            Err(m) => finishes(t, a, Err(RuntimeFailure::Io(m)), false, false),
            Ok(()) => match key {
                Err(m) => finishes(t, a, Err(RuntimeFailure::Io(m)), false, false),
                Ok(k) => {
                    &&& t == RuntimeSupervisor {
                        phase: SupervisorPhase::Spawning(addr),
                        has_child: false,
                    }
                    &&& a matches RuntimeAction::Spawn(l)
                    &&& l.program == python
                    &&& string_views(l.args@) == server_args_spec(addr)
                    &&& pair_views(l.env@) == server_env_spec(opt_view(k))
                },
            },
        },
        (SupervisorPhase::Spawning(addr), RuntimeEvent::Spawned(r)) => match r {
            Err(m) => finishes(t, a, Err(RuntimeFailure::Io(m)), false, false),
            Ok(()) => t == RuntimeSupervisor { phase: SupervisorPhase::WaitPoll(addr), has_child: true }
                && a == RuntimeAction::PollChild,
        },
        (SupervisorPhase::WaitPoll(addr), RuntimeEvent::ChildStatus(st)) => match st {
            Ok(Some(status)) => finishes(
                t,
                a,
                Err(RuntimeFailure::StartupFailed(status)),
                true,
                false,
            ),
            Ok(None) => t == RuntimeSupervisor { phase: SupervisorPhase::WaitProbe(addr), has_child: true }
                && a == RuntimeAction::Probe(addr),
            Err(m) => finishes(t, a, Err(RuntimeFailure::Io(m)), true, false),
        },
        (SupervisorPhase::WaitProbe(addr), RuntimeEvent::Listening(up)) => if up {
            finishes(t, a, Ok(()), false, true)
        } else {
            t == RuntimeSupervisor { phase: SupervisorPhase::WaitSleep(addr), has_child: true } && a
                == RuntimeAction::Sleep(POLL_INTERVAL_MS)
        },
        (SupervisorPhase::WaitSleep(addr), RuntimeEvent::Slept) => t == RuntimeSupervisor {
            phase: SupervisorPhase::WaitPoll(addr),
            has_child: true,
        } && a == RuntimeAction::PollChild,
        (SupervisorPhase::WaitPoll(_), RuntimeEvent::TimedOut) | (
            SupervisorPhase::WaitProbe(_),
            RuntimeEvent::TimedOut,
        ) | (SupervisorPhase::WaitSleep(_), RuntimeEvent::TimedOut) => finishes(
            t,
            a,
            Err(RuntimeFailure::TimedOut),
            true,
            false,
        ),
        _ => false,
    }
}


fn finish(
    s: &mut RuntimeSupervisor,
    outcome: Result<(), RuntimeFailure>,
    kill: bool,
    has_child: bool,
) -> (a: RuntimeAction)
    ensures
        finishes(*final(s), a, outcome, kill, has_child),
{
    s.phase = SupervisorPhase::Idle;
    s.has_child = has_child;
    RuntimeAction::Finish { outcome, kill_child: kill }
}

impl RuntimeSupervisor {
    /// A supervisor with no request under way and no server of its own.
    pub fn new() -> (s: Self)
        ensures
            s.phase == SupervisorPhase::Idle,
            !s.has_child,
            supervisor_inv(s),
    {
        RuntimeSupervisor { phase: SupervisorPhase::Idle, has_child: false }
    }

    /// Whether the supervisor waits for event `e` now.
    pub fn accepts(&self, e: &RuntimeEvent) -> (b: bool)
        ensures
            b == accepts_spec(self.phase, *e),
    {
        match (&self.phase, e) {
            (SupervisorPhase::Idle, RuntimeEvent::Start(_)) => true,
            (SupervisorPhase::FirstProbe(_), RuntimeEvent::Listening(_)) => true,
            (SupervisorPhase::CheckOwned(_), RuntimeEvent::ChildStatus(_)) => true,
            (SupervisorPhase::Gathering(_), RuntimeEvent::Facts(_)) => true,
            (SupervisorPhase::CheckingPython { .. }, RuntimeEvent::PythonIsFile(_)) => true,
            (SupervisorPhase::OpeningLog { .. }, RuntimeEvent::LogOpened(_)) => true,
            (SupervisorPhase::Spawning(_), RuntimeEvent::Spawned(_)) => true,
            (SupervisorPhase::WaitPoll(_), RuntimeEvent::ChildStatus(_)) => true,
            (SupervisorPhase::WaitProbe(_), RuntimeEvent::Listening(_)) => true,
            (SupervisorPhase::WaitSleep(_), RuntimeEvent::Slept) => true,
            (SupervisorPhase::WaitPoll(_), RuntimeEvent::TimedOut) => true,
            (SupervisorPhase::WaitProbe(_), RuntimeEvent::TimedOut) => true,
            (SupervisorPhase::WaitSleep(_), RuntimeEvent::TimedOut) => true,
            _ => false,
        }
    }

    /// Takes event `e` and says what to do next.
    pub fn step(&mut self, e: RuntimeEvent) -> (a: RuntimeAction)
        requires
            supervisor_inv(*old(self)),
            accepts_spec(old(self).phase, e),
        ensures
            supervisor_inv(*final(self)),
            supervisor_step(*old(self), e, *final(self), a),
    {
        let mut phase = SupervisorPhase::Idle;
        std::mem::swap(&mut phase, &mut self.phase);
        let has_child = self.has_child;
        match (phase, e) {
            (SupervisorPhase::Idle, RuntimeEvent::Start(base)) => {
                let addr = match &base {
                    Some(b) => loopback_address(b.as_str()),
                    None => None,
                };
                match addr {
                    None => finish(self, Ok(()), false, has_child),
                    Some(addr) => {
                        self.phase = SupervisorPhase::FirstProbe(addr);
                        RuntimeAction::Probe(addr)
                    },
                }
            },
            (SupervisorPhase::FirstProbe(addr), RuntimeEvent::Listening(up)) => {
                if up {
                    finish(self, Ok(()), false, has_child)
                } else if has_child {
                    self.phase = SupervisorPhase::CheckOwned(addr);
                    RuntimeAction::PollChild
                } else {
                    self.phase = SupervisorPhase::Gathering(addr);
                    RuntimeAction::GatherFacts
                }
            },
            (SupervisorPhase::CheckOwned(addr), RuntimeEvent::ChildStatus(st)) => match st {
                Ok(Some(status)) => finish(
                    self,
                    Err(RuntimeFailure::ExitedEarlier(status)),
                    false,
                    false,
                ),
                Ok(None) => {
                    self.phase = SupervisorPhase::WaitPoll(addr);
                    RuntimeAction::PollChild
                },
                Err(m) => finish(self, Err(RuntimeFailure::Io(m)), false, true),
            },
            (SupervisorPhase::Gathering(addr), RuntimeEvent::Facts(f)) => {
                let disabled = match &f.auto_start {
                    Some(v) => {
                        let zero = "0".to_owned();
                        *v == zero
                    },
                    None => false,
                };
                if disabled {
                    finish(self, Err(RuntimeFailure::AutoStartDisabled), false, false)
                } else {
                    match f.root {
                        None => finish(self, Err(RuntimeFailure::NoModelDirectory), false, false),
                        Some(root) => {
                            let python = match f.python_override {
                                Some(p) => p,
                                None => join(root.as_str(), ".venv/bin/python"),
                            };
                            let key = match f.api_key {
                                Ok(Some(k)) => Ok(Some(k)),
                                Ok(None) => Ok(f.bearer_token),
                                Err(m) => Err(m),
                            };
                            let check = python.clone();
                            self.phase = SupervisorPhase::CheckingPython { addr, root, python, key };
                            RuntimeAction::CheckPython(check)
                        },
                    }
                }
            },
            (
                SupervisorPhase::CheckingPython { addr, root, python, key },
                RuntimeEvent::PythonIsFile(found),
            ) => {
                if !found {
                    finish(self, Err(RuntimeFailure::RuntimeNotFound), false, false)
                } else {
                    let log = join(root.as_str(), "evo-codex-mlx.log");
                    self.phase = SupervisorPhase::OpeningLog { addr, python, key };
                    RuntimeAction::OpenLog(log)
                }
            },
            (SupervisorPhase::OpeningLog { addr, python, key }, RuntimeEvent::LogOpened(r)) => {
                match r {
                    Err(m) => finish(self, Err(RuntimeFailure::Io(m)), false, false),
                    Ok(()) => match key {
                        Err(m) => finish(self, Err(RuntimeFailure::Io(m)), false, false),
                        Ok(k) => {
                            let launch = LaunchSpec {
                                program: python,
                                args: server_args(addr),
                                env: server_env(k),
                            };
                            self.phase = SupervisorPhase::Spawning(addr);
                            RuntimeAction::Spawn(launch)
                        },
                    },
                }
            },
            (SupervisorPhase::Spawning(addr), RuntimeEvent::Spawned(r)) => match r {
                Err(m) => finish(self, Err(RuntimeFailure::Io(m)), false, false),
                Ok(()) => {
                    self.phase = SupervisorPhase::WaitPoll(addr);
                    self.has_child = true;
                    RuntimeAction::PollChild
                },
            },
            (SupervisorPhase::WaitPoll(addr), RuntimeEvent::ChildStatus(st)) => match st {
                Ok(Some(status)) => finish(
                    self,
                    Err(RuntimeFailure::StartupFailed(status)),
                    true,
                    false,
                ),
                Ok(None) => {
                    self.phase = SupervisorPhase::WaitProbe(addr);
                    RuntimeAction::Probe(addr)
                },
                Err(m) => finish(self, Err(RuntimeFailure::Io(m)), true, false),
            },
            (SupervisorPhase::WaitProbe(addr), RuntimeEvent::Listening(up)) => {
                if up {
                    finish(self, Ok(()), false, true)
                } else {
                    self.phase = SupervisorPhase::WaitSleep(addr);
                    RuntimeAction::Sleep(POLL_INTERVAL_MS)
                }
            },
            (SupervisorPhase::WaitSleep(addr), RuntimeEvent::Slept) => {
                self.phase = SupervisorPhase::WaitPoll(addr);
                RuntimeAction::PollChild
            },
            (_, _) => finish(self, Err(RuntimeFailure::TimedOut), true, false),
        }
    }
}


/// A server that already listens when a request starts is used as it is:
/// the request succeeds, nothing is killed and no server is started.
pub proof fn lemma_listening_server_is_reused(
    s: RuntimeSupervisor,
    t: RuntimeSupervisor,
    a: RuntimeAction,
)
    requires
        s.phase is FirstProbe,
        supervisor_step(s, RuntimeEvent::Listening(true), t, a),
    ensures
        a == (RuntimeAction::Finish { outcome: Ok(()), kill_child: false }),
        t.has_child == s.has_child,
        t.phase == SupervisorPhase::Idle,
{
}

/// A server is started only by a supervisor that owns none, so a runtime
/// never owns two.
pub proof fn lemma_spawn_only_without_child(
    s: RuntimeSupervisor,
    e: RuntimeEvent,
    t: RuntimeSupervisor,
    a: RuntimeAction,
)
    requires
        supervisor_inv(s),
        supervisor_step(s, e, t, a),
        a is Spawn,
    ensures
        !s.has_child,
        !t.has_child,
        s.phase is OpeningLog,
        t.phase is Spawning,
{
}

/// Whatever ends a wait for a started server in failure kills that server and
/// forgets it; a server that listens is kept.
pub proof fn lemma_failed_start_leaves_no_server(
    s: RuntimeSupervisor,
    e: RuntimeEvent,
    t: RuntimeSupervisor,
    a: RuntimeAction,
)
    requires
        s.phase is WaitPoll || s.phase is WaitProbe || s.phase is WaitSleep,
        supervisor_step(s, e, t, a),
    ensures
        a matches RuntimeAction::Finish { outcome, kill_child } ==> (outcome is Err <==> kill_child)
            && (outcome is Err ==> !t.has_child) && (outcome is Ok ==> t.has_child),
{
}

/// Each step of a supervisor keeps its own rule.
pub proof fn lemma_step_keeps_supervisor_inv(
    s: RuntimeSupervisor,
    e: RuntimeEvent,
    t: RuntimeSupervisor,
    a: RuntimeAction,
)
    requires
        supervisor_inv(s),
        supervisor_step(s, e, t, a),
    ensures
        supervisor_inv(t),
{
}

/// A run of one supervisor: its states, the events it took one after the
/// other (requests to a runtime are served one at a time), and its actions.
pub open spec fn supervisor_run(
    ss: Seq<RuntimeSupervisor>,
    es: Seq<RuntimeEvent>,
    acts: Seq<RuntimeAction>,
) -> bool {
    &&& ss.len() == es.len() + 1
    &&& acts.len() == es.len()
    &&& forall|i: int| 0 <= i < es.len() ==> #[trigger] supervisor_step(ss[i], es[i], ss[i + 1], acts[i])
}

proof fn lemma_run_keeps_inv(
    ss: Seq<RuntimeSupervisor>,
    es: Seq<RuntimeEvent>,
    acts: Seq<RuntimeAction>,
    i: int,
)
    requires
        supervisor_run(ss, es, acts),
        supervisor_inv(ss[0]),
        0 <= i <= es.len(),
    ensures
        supervisor_inv(ss[i]),
    decreases i,
{
    if i > 0 {
        let k = i - 1;
        lemma_run_keeps_inv(ss, es, acts, k);
        assert(supervisor_step(ss[k], es[k], ss[k + 1], acts[k]));
        lemma_step_keeps_supervisor_inv(ss[k], es[k], ss[k + 1], acts[k]);
    }
}

/// One runtime owns at most one started server over any sequence of
/// requests: a server is started only when none is owned, a server becomes
/// owned only once it was started, and an owned server is given up only when
/// it exited or is killed.
pub proof fn lemma_run_owns_at_most_one_server(
    ss: Seq<RuntimeSupervisor>,
    es: Seq<RuntimeEvent>,
    acts: Seq<RuntimeAction>,
)
    requires
        supervisor_run(ss, es, acts),
        supervisor_inv(ss[0]),
    ensures
        forall|i: int| 0 <= i < es.len() && #[trigger] acts[i] is Spawn ==> !ss[i].has_child,
        forall|i: int|
            0 <= i < es.len() && !ss[i].has_child && #[trigger] ss[i + 1].has_child ==> ss[i].phase is Spawning
                && (es[i] matches RuntimeEvent::Spawned(Ok(_))),
        forall|i: int|
            0 <= i < es.len() && ss[i].has_child && !#[trigger] ss[i + 1].has_child ==> (es[i] matches RuntimeEvent::ChildStatus(Ok(Some(_))))
                || (acts[i] matches RuntimeAction::Finish { kill_child, .. } && kill_child),
{
    assert forall|i: int| 0 <= i < es.len() && !ss[i].has_child && #[trigger] ss[i + 1].has_child implies ss[i].phase is Spawning
        && (es[i] matches RuntimeEvent::Spawned(Ok(_))) by {
        lemma_run_keeps_inv(ss, es, acts, i);
        assert(supervisor_step(ss[i], es[i], ss[i + 1], acts[i]));
    }
    assert forall|i: int| 0 <= i < es.len() && #[trigger] acts[i] is Spawn implies !ss[i].has_child by {
        lemma_run_keeps_inv(ss, es, acts, i);
        assert(supervisor_step(ss[i], es[i], ss[i + 1], acts[i]));
    }
    assert forall|i: int|
        0 <= i < es.len() && ss[i].has_child && !#[trigger] ss[i + 1].has_child implies (es[i] matches RuntimeEvent::ChildStatus(Ok(Some(_))))
        || (acts[i] matches RuntimeAction::Finish { kill_child, .. } && kill_child) by {
        lemma_run_keeps_inv(ss, es, acts, i);
        assert(supervisor_step(ss[i], es[i], ss[i + 1], acts[i]));
    }
}

} // verus!
