//! The process table: at most one live handle per service name, and the
//! decisions taken around launching, stopping and probing a service.

use vstd::prelude::*;
use vstd::string::*;
use crate::text::{decimal, decimal_string, join2, join3, push_text, text_equal, views};

verus! {

/// Why the process table refuses a registration.
#[derive(Clone, Copy, Debug, PartialEq, Eq, Structural)]
pub enum ServiceError {
    /// A handle is already registered under the name.
    AlreadyRunning,
}

/// One registered process.
pub struct Entry<H> {
    pub name: String,
    pub handle: H,
}

/// The handles registered by name, at most one per name.
pub struct ProcessTable<H> {
    entries: Vec<Entry<H>>,
}

/// The map from names to handles that a list of entries describes.
pub open spec fn entries_map<H>(es: Seq<Entry<H>>) -> Map<Seq<char>, H>
    decreases es.len(),
{
    if es.len() == 0 {
        Map::empty()
    } else {
        entries_map(es.drop_last()).insert(es.last().name@, es.last().handle)
    }
}

/// No two entries carry the same name.
pub open spec fn names_distinct<H>(es: Seq<Entry<H>>) -> bool {
    forall|i: int, j: int| 0 <= i < es.len() && 0 <= j < es.len() && i != j ==> es[i].name@ != es[j].name@
}

proof fn lemma_absent<H>(es: Seq<Entry<H>>, k: Seq<char>)
    requires
        forall|i: int| 0 <= i < es.len() ==> es[i].name@ != k,
    ensures
        !entries_map(es).dom().contains(k),
    decreases es.len(),
{
    if es.len() > 0 {
        lemma_absent(es.drop_last(), k);
    }
}

proof fn lemma_present<H>(es: Seq<Entry<H>>, i: int)
    requires
        names_distinct(es),
        0 <= i < es.len(),
    ensures
        entries_map(es).dom().contains(es[i].name@),
        entries_map(es)[es[i].name@] == es[i].handle,
    decreases es.len(),
{
    if i < es.len() - 1 {
        lemma_present(es.drop_last(), i);
    }
}

proof fn lemma_remove<H>(es: Seq<Entry<H>>, i: int)
    requires
        names_distinct(es),
        0 <= i < es.len(),
    ensures
        names_distinct(es.remove(i)),
        entries_map(es.remove(i)) == entries_map(es).remove(es[i].name@),
    decreases es.len(),
{
    let k = es[i].name@;
    if i == es.len() - 1 {
        assert(es.remove(i) =~= es.drop_last());
        lemma_absent(es.drop_last(), k);
        assert(entries_map(es.remove(i)) =~= entries_map(es).remove(k));
    } else {
        let d = es.drop_last();
        lemma_remove(d, i);
        assert(es.remove(i).drop_last() =~= d.remove(i));
        assert(es.remove(i).last() == es.last());
        assert(es.last().name@ != k);
        assert(entries_map(es.remove(i)) =~= entries_map(es).remove(k));
    }
}

impl<H> View for ProcessTable<H> {
    type V = Map<Seq<char>, H>;

    closed spec fn view(&self) -> Map<Seq<char>, H> {
        entries_map(self.entries@)
    }
}

impl<H> ProcessTable<H> {
    /// The table is well formed: no name is registered twice.
    pub closed spec fn wf(&self) -> bool {
        names_distinct(self.entries@)
    }

    pub fn new() -> (r: Self)
        ensures
            r.wf(),
            r@ == Map::<Seq<char>, H>::empty(),
    {
        ProcessTable { entries: Vec::new() }
    }

    fn position(&self, name: &str) -> (r: Option<usize>)
        requires
            self.wf(),
        ensures
            r is None ==> !self@.dom().contains(name@),
            r matches Some(i) ==> i < self.entries@.len() && self.entries@[i as int].name@ == name@,
    {
        let mut i: usize = 0;
        while i < self.entries.len()
            invariant
                i <= self.entries@.len(),
                forall|j: int| 0 <= j < i ==> self.entries@[j].name@ != name@,
            decreases self.entries@.len() - i,
        {
            if text_equal(self.entries[i].name.as_str(), name) {
                return Some(i);
            }
            i += 1;
        }
        proof {
            lemma_absent(self.entries@, name@);
        }
        None
    }

    /// Whether a handle is registered under `name`.
    pub fn is_running(&self, name: &str) -> (r: bool)
        requires
            self.wf(),
        ensures
            r == self@.dom().contains(name@),
    {
        match self.position(name) {
            Some(i) => {
                proof {
                    lemma_present(self.entries@, i as int);
                }
                true
            },
            None => false,
        }
    }

    /// Registers `handle` under `name` when nothing is registered there;
    /// otherwise refuses with `AlreadyRunning`, hands `handle` back for the
    /// caller to end, and leaves the table as it was.
    pub fn register(&mut self, name: String, handle: H) -> (r: Result<(), (ServiceError, H)>)
        requires
            old(self).wf(),
        ensures
            final(self).wf(),
            (final(self)@, r is Ok) == register_spec(old(self)@, name@, handle),
            old(self)@.dom().contains(name@) ==> r == Err::<(), (ServiceError, H)>((ServiceError::AlreadyRunning, handle))
                && final(self)@ == old(self)@,
            !old(self)@.dom().contains(name@) ==> r is Ok && final(self)@ == old(self)@.insert(name@, handle),
    {
        match self.position(name.as_str()) {
            Some(i) => {
                proof {
                    lemma_present(self.entries@, i as int);
                }
                Err((ServiceError::AlreadyRunning, handle))
            },
            None => {
                let ghost k = name@;
                let ghost before = self.entries@;
                proof {
                    assert forall|j: int| 0 <= j < before.len() implies before[j].name@ != k by {
                        if before[j].name@ == k {
                            lemma_present(before, j);
                        }
                    }
                }
                self.entries.push(Entry { name, handle });
                assert(self.entries@.drop_last() =~= before);
                Ok(())
            },
        }
    }

    /// Removes and returns the handle registered under `name`, if any.
    pub fn take(&mut self, name: &str) -> (r: Option<H>)
        requires
            old(self).wf(),
        ensures
            final(self).wf(),
            old(self)@.dom().contains(name@) ==> r == Some(old(self)@[name@]),
            !old(self)@.dom().contains(name@) ==> r is None,
            final(self)@ == old(self)@.remove(name@),
    {
        match self.position(name) {
            Some(i) => {
                proof {
                    lemma_present(self.entries@, i as int);
                    lemma_remove(self.entries@, i as int);
                }
                let e = self.entries.remove(i);
                Some(e.handle)
            },
            None => {
                assert(self@.remove(name@) =~= self@);
                None
            },
        }
    }

    /// Stops the service `name`: unregisters its handle and returns it for the
    /// caller to end. A service with no registered handle is no error: the
    /// table cannot know of processes started before it, and the answer is
    /// `Ok(None)`.
    pub fn stop(&mut self, name: &str) -> (r: Result<Option<H>, ServiceError>)
        requires
            old(self).wf(),
        ensures
            final(self).wf(),
            r is Ok,
            old(self)@.dom().contains(name@) ==> r == Ok::<Option<H>, ServiceError>(Some(old(self)@[name@])),
            !old(self)@.dom().contains(name@) ==> r == Ok::<Option<H>, ServiceError>(None) && final(self)@
                == old(self)@,
            final(self)@ == old(self)@.remove(name@),
    {
        let had = self.take(name);
        proof {
            if !old(self)@.dom().contains(name@) {
                assert(final(self)@ =~= old(self)@);
            }
        }
        Ok(had)
    }
}

/// Table and acceptance after registering `handle` under `name`: accepted
/// only where nothing is registered under that name.
pub open spec fn register_spec<H>(m: Map<Seq<char>, H>, name: Seq<char>, handle: H) -> (Map<Seq<char>, H>, bool) {
    if m.dom().contains(name) {
        (m, false)
    } else {
        (m.insert(name, handle), true)
    }
}

/// Launching a service twice under one name leaves exactly one handle
/// registered under that name, the first one: the second registration is
/// refused and changes nothing.
pub proof fn lemma_one_handle_per_name<H>(m: Map<Seq<char>, H>, name: Seq<char>, first: H, second: H)
    requires
        !m.dom().contains(name),
    ensures
        ({
            let (m1, ok1) = register_spec(m, name, first);
            let (m2, ok2) = register_spec(m1, name, second);
            &&& ok1
            &&& !ok2
            &&& m2 == m1
            &&& m2.dom().contains(name)
            &&& m2[name] == first
        }),
{
}

/// What to do on a request to launch a service.
#[derive(Clone, Copy, Debug, PartialEq, Eq, Structural)]
pub enum LaunchPlan {
    /// A handle is registered under the name and no replacement was asked for.
    Refuse,
    /// Start the process, first stopping the registered one and freeing the port where told.
    Proceed { stop_previous: bool, free_port_first: bool },
}

/// The decision on a request to launch `name` (see `ProcessTable::plan_launch`).
pub open spec fn plan_spec<H>(m: Map<Seq<char>, H>, name: Seq<char>, replace: bool, port_busy: bool) -> LaunchPlan {
    if m.dom().contains(name) && !replace {
        LaunchPlan::Refuse
    } else {
        LaunchPlan::Proceed { stop_previous: m.dom().contains(name), free_port_first: port_busy }
    }
}

/// Launching a service that nothing is registered under, then stopping it:
/// the launch goes ahead without stopping anything, the new handle is
/// registered under the name, and the stop hands exactly that handle back and
/// leaves the table as it was before the launch, so the name is free again.
pub proof fn lemma_launch_then_stop<H>(m: Map<Seq<char>, H>, name: Seq<char>, replace: bool, port_busy: bool, handle: H)
    requires
        !m.dom().contains(name),
    ensures
        plan_spec(m, name, replace, port_busy) == (LaunchPlan::Proceed {
            stop_previous: false,
            free_port_first: port_busy,
        }),
        register_spec(m, name, handle) == (m.insert(name, handle), true),
        m.insert(name, handle).dom().contains(name),
        m.insert(name, handle)[name] == handle,
        m.insert(name, handle).remove(name) == m,
        !m.insert(name, handle).remove(name).dom().contains(name),
{
    assert(m.insert(name, handle).remove(name) =~= m);
}

impl<H> ProcessTable<H> {
    /// Decides a launch of `name`: refused while a handle is registered under
    /// it, unless `replace` asks to stop that one first; the port is freed
    /// first when something already listens on it.
    pub fn plan_launch(&self, name: &str, replace: bool, port_busy: bool) -> (r: LaunchPlan)
        requires
            self.wf(),
        ensures
            r == plan_spec(self@, name@, replace, port_busy),
    {
        let running = self.is_running(name);
        if running && !replace {
            LaunchPlan::Refuse
        } else {
            LaunchPlan::Proceed { stop_previous: running, free_port_first: port_busy }
        }
    }
}

/// The two managed services.
#[derive(Clone, Copy, Debug, PartialEq, Eq, Structural)]
pub enum Service {
    /// The agent-workflow runtime (n8n).
    Workflow,
    /// The local model server (Ollama).
    ModelServer,
}

pub open spec fn service_name(s: Service) -> Seq<char> {
    match s {
        Service::Workflow => "n8n"@,
        Service::ModelServer => "ollama"@,
    }
}

pub open spec fn service_component(s: Service) -> Seq<char> {
    match s {
        Service::Workflow => "Agentic Platform (n8n)"@,
        Service::ModelServer => "Ollama Server"@,
    }
}

pub open spec fn service_default_port(s: Service) -> u16 {
    match s {
        Service::Workflow => 5678,
        Service::ModelServer => 11434,
    }
}

pub open spec fn stop_text(s: Service, was_running: bool) -> Seq<char> {
    match (s, was_running) {
        (Service::Workflow, true) => "🛑 n8n stopped."@,
        (Service::Workflow, false) => "ℹ n8n was not running."@,
        (Service::ModelServer, true) => "🛑 Ollama server stopped successfully."@,
        (Service::ModelServer, false) => "ℹ Ollama server was not running."@,
    }
}

impl Service {
    /// The key of the service in the process table.
    pub fn name(&self) -> (r: String)
        ensures
            r@ == service_name(*self),
    {
        match self {
            Service::Workflow => String::from_str("n8n"),
            Service::ModelServer => String::from_str("ollama"),
        }
    }

    /// The component name under which the service's events are published.
    pub fn component(&self) -> (r: String)
        ensures
            r@ == service_component(*self),
    {
        match self {
            Service::Workflow => String::from_str("Agentic Platform (n8n)"),
            Service::ModelServer => String::from_str("Ollama Server"),
        }
    }

    /// The port used when none was allocated.
    pub fn default_port(&self) -> (r: u16)
        ensures
            r == service_default_port(*self),
    {
        match self {
            Service::Workflow => 5678,
            Service::ModelServer => 11434,
        }
    }

    /// The configured port, or the default one.
    pub fn port_or_default(&self, configured: Option<u16>) -> (r: u16)
        ensures
            r == (match configured {
                Some(p) => p,
                None => service_default_port(*self),
            }),
    {
        match configured {
            Some(p) => p,
            None => self.default_port(),
        }
    }

    /// The log message after a stop request.
    pub fn stop_message(&self, was_running: bool) -> (r: String)
        ensures
            r@ == stop_text(*self, was_running),
    {
        match (self, was_running) {
            (Service::Workflow, true) => String::from_str("🛑 n8n stopped."),
            (Service::Workflow, false) => String::from_str("ℹ n8n was not running."),
            (Service::ModelServer, true) => String::from_str("🛑 Ollama server stopped successfully."),
            (Service::ModelServer, false) => String::from_str("ℹ Ollama server was not running."),
        }
    }
}

/// `http://127.0.0.1:` and the port.
pub open spec fn local_url(port: u16) -> Seq<char> {
    "http://127.0.0.1:"@ + decimal(port as nat)
}

/// The address of a service on `port` of this machine.
pub fn service_url(port: u16) -> (r: String)
    ensures
        r@ == local_url(port),
{
    join2("http://127.0.0.1:", decimal_string(port as u64).as_str())
}

/// The answer to a health check of the workflow runtime on `port`, given
/// whether a connection was accepted within the timeout.
pub fn check_n8n_health(port: u16, reachable: bool) -> (r: Result<String, String>)
    ensures
        reachable ==> r is Ok && r->Ok_0@ == "✅ n8n is reachable at "@ + local_url(port),
        !reachable ==> r is Err && r->Err_0@ == "❌ n8n not responding at "@ + local_url(port),
{
    let url = service_url(port);
    if reachable {
        Ok(join2("✅ n8n is reachable at ", url.as_str()))
    } else {
        Err(join2("❌ n8n not responding at ", url.as_str()))
    }
}

/// The status of the model server on `port`, given whether a connection was
/// accepted.
pub fn get_ollama_status(port: u16, reachable: bool) -> (r: Result<String, String>)
    ensures
        reachable ==> r is Ok && r->Ok_0@ == "✅ Ollama is running on "@ + local_url(port),
        !reachable ==> r is Err && r->Err_0@ == "❌ Ollama not running on "@ + local_url(port),
{
    let url = service_url(port);
    if reachable {
        Ok(join2("✅ Ollama is running on ", url.as_str()))
    } else {
        Err(join2("❌ Ollama not running on ", url.as_str()))
    }
}

/// Relies on `which::which`: whether an executable of that name is found on
/// the search path. The answer depends on the machine, so nothing is promised.
#[verifier::external_body]
fn found_on_path(program: &str) -> (r: bool) {
    which::which(program).is_ok()
}

/// The program and arguments that start the workflow runtime: `n8n start`
/// where `n8n` is installed, `npx --yes n8n start` where only `npx` is,
/// `npx n8n start` otherwise.
pub open spec fn n8n_command_spec(has_n8n: bool, has_npx: bool) -> (Seq<char>, Seq<Seq<char>>) {
    if has_n8n {
        ("n8n"@, seq!["start"@])
    } else if has_npx {
        ("npx"@, seq!["--yes"@, "n8n"@, "start"@])
    } else {
        ("npx"@, seq!["n8n"@, "start"@])
    }
}

/// The program and arguments that start the workflow runtime, given which
/// programs are installed.
pub fn n8n_command(has_n8n: bool, has_npx: bool) -> (r: (String, Vec<String>))
    ensures
        (r.0@, views(r.1@)) == n8n_command_spec(has_n8n, has_npx),
{
    let mut args: Vec<String> = Vec::new();
    assert(views(args@) =~= seq![]);
    if has_n8n {
        push_text(&mut args, "start");
        assert(views(args@) =~= n8n_command_spec(has_n8n, has_npx).1);
        (String::from_str("n8n"), args)
    } else if has_npx {
        push_text(&mut args, "--yes");
        push_text(&mut args, "n8n");
        push_text(&mut args, "start");
        assert(views(args@) =~= n8n_command_spec(has_n8n, has_npx).1);
        (String::from_str("npx"), args)
    } else {
        push_text(&mut args, "n8n");
        push_text(&mut args, "start");
        assert(views(args@) =~= n8n_command_spec(has_n8n, has_npx).1);
        (String::from_str("npx"), args)
    }
}

/// The program and arguments that start the workflow runtime, looking up
/// `n8n` and `npx` on the search path.
pub fn detect_n8n_command() -> (r: (String, Vec<String>))
    ensures
        exists|a: bool, b: bool| (r.0@, views(r.1@)) == n8n_command_spec(a, b),
{
    let has_n8n = found_on_path("n8n");
    let has_npx = if has_n8n {
        false
    } else {
        found_on_path("npx")
    };
    n8n_command(has_n8n, has_npx)
}

/// `args` followed by `--port` and the port number.
pub fn n8n_launch_args(args: Vec<String>, port: u16) -> (r: Vec<String>)
    ensures
        views(r@) == views(args@) + seq!["--port"@, decimal(port as nat)],
{
    let mut out = args;
    push_text(&mut out, "--port");
    let p = decimal_string(port as u64);
    push_text(&mut out, p.as_str());
    assert(views(out@) =~= views(args@) + seq!["--port"@, decimal(port as nat)]);
    out
}

/// One environment variable.
pub struct EnvVar {
    pub name: String,
    pub value: String,
}

pub open spec fn env_views(v: Seq<EnvVar>) -> Seq<(Seq<char>, Seq<char>)> {
    v.map_values(|e: EnvVar| (e.name@, e.value@))
}

/// The environment of the workflow runtime: where the model server answers,
/// and the runtime's own settings.
pub open spec fn n8n_environment_spec(ollama_port: u16) -> Seq<(Seq<char>, Seq<char>)> {
    seq![
        ("OLLAMA_API_URL"@, local_url(ollama_port)),
        ("DB_SQLITE_POOL_SIZE"@, "2"@),
        ("N8N_RUNNERS_ENABLED"@, "true"@),
        ("N8N_BLOCK_ENV_ACCESS_IN_NODE"@, "false"@),
        ("N8N_GIT_NODE_DISABLE_BARE_REPOS"@, "true"@),
    ]
}

fn push_env(v: &mut Vec<EnvVar>, name: &str, value: &str)
    ensures
        env_views(final(v)@) == env_views(old(v)@).push((name@, value@)),
{
    v.push(EnvVar { name: String::from_str(name), value: String::from_str(value) });
    assert(env_views(final(v)@) =~= env_views(old(v)@).push((name@, value@)));
}

/// The environment of the model server: the address it listens on.
pub open spec fn ollama_environment_spec(port: u16) -> Seq<(Seq<char>, Seq<char>)> {
    seq![("OLLAMA_HOST"@, "127.0.0.1:"@ + decimal(port as nat))]
}

/// The environment of the model server (see `ollama_environment_spec`).
pub fn ollama_environment(port: u16) -> (r: Vec<EnvVar>)
    ensures
        env_views(r@) == ollama_environment_spec(port),
{
    let mut v: Vec<EnvVar> = Vec::new();
    assert(env_views(v@) =~= seq![]);
    let host = join2("127.0.0.1:", decimal_string(port as u64).as_str());
    push_env(&mut v, "OLLAMA_HOST", host.as_str());
    assert(env_views(v@) =~= ollama_environment_spec(port));
    v
}

/// The environment of the workflow runtime (see `n8n_environment_spec`).
pub fn n8n_environment(ollama_port: u16) -> (r: Vec<EnvVar>)
    ensures
        env_views(r@) == n8n_environment_spec(ollama_port),
{
    let mut v: Vec<EnvVar> = Vec::new();
    assert(env_views(v@) =~= seq![]);
    let url = service_url(ollama_port);
    push_env(&mut v, "OLLAMA_API_URL", url.as_str());
    push_env(&mut v, "DB_SQLITE_POOL_SIZE", "2");
    push_env(&mut v, "N8N_RUNNERS_ENABLED", "true");
    push_env(&mut v, "N8N_BLOCK_ENV_ACCESS_IN_NODE", "false");
    push_env(&mut v, "N8N_GIT_NODE_DISABLE_BARE_REPOS", "true");
    assert(env_views(v@) =~= n8n_environment_spec(ollama_port));
    v
}

} // verus!
