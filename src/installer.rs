//! What the installer reports: tool detection results and progress records.

use vstd::prelude::*;
use vstd::string::*;
use crate::text::{
    count_before, decimal, decimal_string, join2, join3, lemma_count_before, opt_view, parse_u32, parse_u32_str,
    to_chars, trim, trim_str,
};

verus! {

/// The result of looking for Node.js.
pub struct NodeCheckResult {
    pub installed: bool,
    pub version: Option<String>,
    pub compatible: bool,
    pub message: String,
}

/// The result of looking for the workflow runtime.
pub struct N8nStatus {
    pub installed: bool,
    pub version: Option<String>,
    pub message: String,
}

/// The result of looking for the model server.
pub struct OllamaStatus {
    pub installed: bool,
    pub version: Option<String>,
    pub message: String,
}

/// Which tools are present, and their versions.
pub struct EnvironmentStatus {
    pub node_installed: bool,
    pub node_version: Option<String>,
    pub n8n_installed: bool,
    pub n8n_version: Option<String>,
    pub ollama_installed: bool,
    pub ollama_version: Option<String>,
}

/// A progress record of one install component.
pub struct ComponentProgress {
    pub component: String,
    pub percent: u8,
    pub status: String,
    pub message: String,
    pub eta_seconds: Option<u32>,
}

/// A progress record of the removal of one component.
pub struct CleanupProgress {
    pub component: String,
    pub percent: u8,
    pub status: String,
    pub message: String,
}

/// A progress record of one step of the setup sequence.
pub struct ProgressUpdate {
    pub step: String,
    pub percent: u8,
    pub eta_seconds: u32,
    pub message: String,
}

/// Lowest Node.js major version that is supported.
pub const MIN_NODE_MAJOR: u32 = 18;

/// `s` without its leading `v` characters.
pub open spec fn strip_v(s: Seq<char>) -> Seq<char>
    decreases s.len(),
{
    if s.len() > 0 && s[0] == 'v' {
        strip_v(s.drop_first())
    } else {
        s
    }
}

/// The major number of a version such as `v20.11.1`: the digits before the
/// first dot, after any leading `v`.
pub open spec fn node_major(version: Seq<char>) -> Option<u32> {
    let s = strip_v(version);
    parse_u32(s.subrange(0, count_before(s, '.') as int))
}

/// The major number of a Node.js version string (see `node_major`).
pub fn node_major_version(version: &str) -> (r: Option<u32>)
    ensures
        r == node_major(version@),
{
    let cs = to_chars(version);
    let n = cs.len();
    let mut i: usize = 0;
    assert(cs@.subrange(0, n as int) =~= cs@);
    while i < n && cs[i] == 'v'
        invariant
            n == cs@.len(),
            i <= n,
            strip_v(cs@) == strip_v(cs@.subrange(i as int, n as int)),
        decreases n - i,
    {
        assert(cs@.subrange(i as int, n as int).drop_first() =~= cs@.subrange(i + 1, n as int));
        i += 1;
    }
    let ghost s = cs@.subrange(i as int, n as int);
    assert(strip_v(cs@) == s);
    let mut j: usize = i;
    while j < n && cs[j] != '.'
        invariant
            n == cs@.len(),
            i <= j <= n,
            forall|m: int| i <= m < j ==> cs@[m] != '.',
        decreases n - j,
    {
        j += 1;
    }
    proof {
        lemma_count_before(s, '.', j - i);
        assert(s.subrange(0, j - i) =~= cs@.subrange(i as int, j as int));
    }
    parse_u32_str(version.substring_char(i, j))
}

/// Whether a Node.js version is supported: its major number is at least 18.
pub open spec fn node_compatible(version: Seq<char>) -> bool {
    match node_major(version) {
        Some(m) => m >= MIN_NODE_MAJOR,
        None => false,
    }
}

/// The Node.js check, given the output of `node -v` when it ran successfully.
pub fn check_nodejs_installed(output: Option<String>) -> (r: NodeCheckResult)
    ensures
        output is None ==> !r.installed && r.version is None && !r.compatible && r.message@
            == "⚠ Node.js not found on system PATH."@,
        output matches Some(out) ==> {
            let v = trim(out@);
            &&& r.installed
            &&& opt_view(r.version) == Some(v)
            &&& r.compatible == node_compatible(v)
            &&& r.compatible ==> r.message@ == "✅ Using existing Node.js "@ + v
            &&& !r.compatible ==> r.message@ == "⚠ Node.js "@ + v + " is outdated (v18+ required)"@
        },
{
    match output {
        Some(out) => {
            let v = trim_str(out.as_str());
            let compatible = match node_major_version(v.as_str()) {
                Some(m) => m >= MIN_NODE_MAJOR,
                None => false,
            };
            let message = if compatible {
                join2("✅ Using existing Node.js ", v.as_str())
            } else {
                join3("⚠ Node.js ", v.as_str(), " is outdated (v18+ required)")
            };
            NodeCheckResult { installed: true, version: Some(v), compatible, message }
        },
        None => NodeCheckResult {
            installed: false,
            version: None,
            compatible: false,
            message: String::from_str("⚠ Node.js not found on system PATH."),
        },
    }
}

/// The workflow runtime check, given the output of `n8n --version` when it
/// ran successfully.
pub fn check_n8n_installed(output: Option<String>) -> (r: Result<N8nStatus, String>)
    ensures
        r is Ok,
        output is None ==> !r->Ok_0.installed && r->Ok_0.version is None && r->Ok_0.message@
            == "⚠ Agentic Platform not found."@,
        output matches Some(out) ==> {
            &&& r->Ok_0.installed
            &&& opt_view(r->Ok_0.version) == Some(trim(out@))
            &&& r->Ok_0.message@ == "✅ Agentic Platform detected."@
        },
{
    match output {
        Some(out) => Ok(
            N8nStatus {
                installed: true,
                version: Some(trim_str(out.as_str())),
                message: String::from_str("✅ Agentic Platform detected."),
            },
        ),
        None => Ok(
            N8nStatus {
                installed: false,
                version: None,
                message: String::from_str("⚠ Agentic Platform not found."),
            },
        ),
    }
}

/// The model server check, given the output of `ollama --version` when it
/// ran successfully.
pub fn check_ollama_installed(output: Option<String>) -> (r: Result<OllamaStatus, String>)
    ensures
        r is Ok,
        output is None ==> !r->Ok_0.installed && r->Ok_0.version is None && r->Ok_0.message@
            == "⚠ AI Brain not found."@,
        output matches Some(out) ==> {
            &&& r->Ok_0.installed
            &&& opt_view(r->Ok_0.version) == Some(trim(out@))
            &&& r->Ok_0.message@ == "✅ AI Brain detected."@
        },
{
    match output {
        Some(out) => Ok(
            OllamaStatus {
                installed: true,
                version: Some(trim_str(out.as_str())),
                message: String::from_str("✅ AI Brain detected."),
            },
        ),
        None => Ok(
            OllamaStatus {
                installed: false,
                version: None,
                message: String::from_str("⚠ AI Brain not found."),
            },
        ),
    }
}

/// `running` below 100 percent, `done` at 100.
pub open spec fn status_text(percent: u8) -> Seq<char> {
    if percent < 100 {
        "running"@
    } else {
        "done"@
    }
}

fn status_string(percent: u8) -> (r: String)
    ensures
        r@ == status_text(percent),
{
    if percent < 100 {
        String::from_str("running")
    } else {
        String::from_str("done")
    }
}

/// Progress record `percent` (1 to 100) of a component that is only shown as
/// progressing: half a second left per remaining percent, rounded down.
pub fn simulated_progress(name: &str, percent: u8) -> (r: ComponentProgress)
    requires
        percent <= 100,
    ensures
        r.component@ == name@,
        r.percent == percent,
        r.status@ == status_text(percent),
        r.message@ == name@ + " progress: "@ + decimal(percent as nat) + "%"@,
        r.eta_seconds == Some(((100 - percent) / 2) as u32),
{
    let digits = decimal_string(percent as u64);
    let head = join2(name, " progress: ");
    ComponentProgress {
        component: String::from_str(name),
        percent,
        status: status_string(percent),
        message: join3(head.as_str(), digits.as_str(), "%"),
        eta_seconds: Some(((100 - percent) / 2) as u32),
    }
}

/// Progress record `percent` (0 to 100) of the removal of component `name`.
pub fn cleanup_progress(name: &str, percent: u8) -> (r: CleanupProgress)
    ensures
        r.component@ == name@,
        r.percent == percent,
        r.status@ == status_text(percent),
        r.message@ == "Cleaning "@ + name@ + "... "@ + decimal(percent as nat) + "%"@,
{
    let digits = decimal_string(percent as u64);
    let head = join3("Cleaning ", name, "... ");
    CleanupProgress {
        component: String::from_str(name),
        percent,
        status: status_string(percent),
        message: join3(head.as_str(), digits.as_str(), "%"),
    }
}

} // verus!
