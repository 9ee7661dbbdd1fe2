//! The static table of dependencies that the supervisor brings up.
use vstd::prelude::*;
use crate::probe::WaitBudget;

verus! {

/// Whether the supervisor owns a dependency unconditionally, or only when it
/// found no instance already running.
#[derive(Clone, Copy, Debug, PartialEq, Eq, Structural)]
pub enum DependencyKind {
    /// A service that may already run on its own (a process-table scan by name
    /// decides); a pre-existing instance is neither launched nor ever stopped.
    Optional,
    /// A service that this supervisor always launches and always owns.
    Owned,
}

/// What becomes of a launched process's standard output and error.
#[derive(Clone, Copy, Debug, PartialEq, Eq, Structural)]
pub enum OutputPolicy {
    /// Piped, so that the output can be logged.
    Capture,
    /// Discarded, so that no unread pipe can fill up and stall the child.
    Discard,
}

/// How the supervisor learns that a launched dependency is ready.
#[derive(Debug)]
pub enum Readiness {
    /// Ready once this many milliseconds have passed since the launch.
    Delay(u64),
    /// Ready once a GET of `url` answers 2xx with the ready marker in its body,
    /// polled within `budget`.
    Status { url: String, budget: WaitBudget },
}

/// One dependency, immutable once registered.
#[derive(Debug)]
pub struct DependencySpec {
    /// Unique name of the dependency.
    pub name: String,
    pub kind: DependencyKind,
    /// The executable name that the process-table scan looks for.
    pub process_name: String,
    /// The program to run and its first arguments.
    pub program: String,
    pub args: Vec<String>,
    /// A script handed to `program` as its last argument, its path resolved by
    /// `resolve_launch_path`.
    pub script: Option<String>,
    pub output: OutputPolicy,
    pub readiness: Readiness,
}

/// How long the backend may take to report ready.
pub const BACKEND_STATUS_TIMEOUT_MS: u64 = 60000;

/// The interval between two probes of the backend's status endpoint.
pub const BACKEND_POLL_MS: u64 = 2000;

/// How long the model server is given to come up after its launch.
pub const MODEL_SERVER_SETTLE_MS: u64 = 5000;

/// The names in a registry are pairwise distinct.
pub open spec fn names_unique(r: Seq<DependencySpec>) -> bool {
    forall|a: int, b: int| 0 <= a < b < r.len() ==> r[a].name@ != r[b].name@
}

/// The registry: the model server, which may already run, then the backend,
/// which this supervisor owns and which expects the model server to be up.
pub fn default_registry() -> (r: Vec<DependencySpec>)
    ensures
        r@.len() == 2,
        names_unique(r@),
        r@[0].name@ == "ollama"@,
        r@[0].kind == DependencyKind::Optional,
        r@[0].process_name@ == "ollama"@,
        r@[0].program@ == "ollama"@,
        r@[0].args@.len() == 1 && r@[0].args@[0]@ == "serve"@,
        r@[0].script is None,
        r@[0].output == OutputPolicy::Discard,
        r@[0].readiness == Readiness::Delay(MODEL_SERVER_SETTLE_MS),
        r@[1].name@ == "backend"@,
        r@[1].kind == DependencyKind::Owned,
        r@[1].program@ == "bash"@,
        r@[1].args@.len() == 0,
        r@[1].script matches Some(s) && s@ == "launcher.sh"@,
        r@[1].output == OutputPolicy::Capture,
        r@[1].readiness matches Readiness::Status { url, budget } && url@
            == "http://localhost:8000/api/status"@ && budget == (WaitBudget {
            timeout_ms: BACKEND_STATUS_TIMEOUT_MS,
            poll_ms: BACKEND_POLL_MS,
        }),
{
    let mut model_args: Vec<String> = Vec::new();
    model_args.push(String::from_str("serve"));
    let model_server = DependencySpec {
        name: String::from_str("ollama"),
        kind: DependencyKind::Optional,
        process_name: String::from_str("ollama"),
        program: String::from_str("ollama"),
        args: model_args,
        script: None,
        output: OutputPolicy::Discard,
        readiness: Readiness::Delay(MODEL_SERVER_SETTLE_MS),
    };
    let backend = DependencySpec {
        name: String::from_str("backend"),
        kind: DependencyKind::Owned,
        process_name: String::from_str("backend"),
        program: String::from_str("bash"),
        args: Vec::new(),
        script: Some(String::from_str("launcher.sh")),
        output: OutputPolicy::Capture,
        readiness: Readiness::Status {
            url: String::from_str("http://localhost:8000/api/status"),
            budget: WaitBudget { timeout_ms: BACKEND_STATUS_TIMEOUT_MS, poll_ms: BACKEND_POLL_MS },
        },
    };
    let mut r: Vec<DependencySpec> = Vec::new();
    r.push(model_server);
    r.push(backend);
    proof {
        reveal_strlit("ollama");
        reveal_strlit("backend");
        assert(r@[0].name@[0] != r@[1].name@[0]);
    }
    r
}

/// The registry index of the dependency called `name`, if there is one; with
/// unique names it is the only one.
pub fn find_dependency(registry: &Vec<DependencySpec>, name: &String) -> (r: Option<usize>)
    ensures
        r matches Some(i) ==> i < registry@.len() && registry@[i as int].name@ == name@,
        r is None ==> forall|j: int| 0 <= j < registry@.len() ==> #[trigger] registry@[j].name@ != name@,
{
    let mut i: usize = 0;
    while i < registry.len()
        invariant
            i <= registry@.len(),
            forall|j: int| 0 <= j < i ==> #[trigger] registry@[j].name@ != name@,
        decreases registry@.len() - i,
    {
        if registry[i].name == *name {
            return Some(i);
        }
        i = i + 1;
    }
    None
}

} // verus!
