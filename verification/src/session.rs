//! Named sessions: each has its own audit partition and state file.
use vstd::prelude::*;
use vstd::string::StringExecFns;
use crate::clock::now_micros;

verus! {

broadcast use vstd::string::group_string_axioms;

/// The path std's `Path::join` makes of `base` and `part`.
pub uninterp spec fn path_joined(base: Seq<char>, part: Seq<char>) -> Seq<char>;

/// The parent std's `Path::parent` gives of `path`.
pub uninterp spec fn path_parent(path: Seq<char>) -> Option<Seq<char>>;

/// std's `Path::join`: `part` appended to `base` as a further component
/// (or in its place, when `part` is absolute). Only that the result is a
/// function of the two paths is claimed. The paths are made from `&str`, so
/// the result is valid UTF-8 and converts without loss.
#[verifier::external_body]
fn join_path(base: &str, part: &str) -> (r: String)
    ensures
        r@ == path_joined(base@, part@),
{
    std::path::Path::new(base).join(part).to_string_lossy().into_owned()
}

/// std's `Path::parent`: the path without its last component, `None` for a
/// root or an empty path. Only that the result is a function of the path is
/// claimed.
#[verifier::external_body]
fn parent_path(path: &str) -> (r: Option<String>)
    ensures
        match r {
            Some(s) => path_parent(path@) == Some(s@),
            None => path_parent(path@) is None,
        },
{
    std::path::Path::new(path).parent().map(|p| p.to_string_lossy().into_owned())
}

/// A named session with its own audit partition and persisted state.
#[derive(Debug, Clone)]
pub struct Session {
    pub name: String,
    pub agent_name: String,
    /// When the session was made, in microseconds since the Unix epoch.
    pub created_at: i64,
    pub audit_partition: String,
    pub state_path: String,
}

/// The audit partition of a session: the agent's name, a hyphen and the
/// session's name.
pub open spec fn partition_of(name: Seq<char>, agent_name: Seq<char>) -> Seq<char> {
    agent_name + "-"@ + name
}

/// The directory sessions are kept in: `.local/share/arconaut/sessions`
/// under the home directory, or `.arconaut/sessions` when there is none.
pub open spec fn sessions_dir(home: Option<Seq<char>>) -> Seq<char> {
    match home {
        Some(h) => path_joined(
            path_joined(path_joined(path_joined(h, ".local"@), "share"@), "arconaut"@),
            "sessions"@,
        ),
        None => path_joined(".arconaut"@, "sessions"@),
    }
}

/// Where a session's state is kept: `state.json` in a directory named by
/// its partition under the sessions directory.
pub open spec fn state_path_of(home: Option<Seq<char>>, partition: Seq<char>) -> Seq<char> {
    path_joined(path_joined(sessions_dir(home), partition), "state.json"@)
}

/// Where a session's audit log is kept: `audit.jsonl` beside its state
/// file (in the current directory when the state path has no parent).
pub open spec fn audit_log_path_of(state_path: Seq<char>) -> Seq<char> {
    match path_parent(state_path) {
        Some(p) => path_joined(p, "audit.jsonl"@),
        None => path_joined("."@, "audit.jsonl"@),
    }
}

impl Session {
    /// A new session of `agent_name` named `name`, with `home` the user's
    /// home directory when it is known.
    pub fn new(name: &str, agent_name: &str, home: Option<&str>) -> (r: Session)
        ensures
            r.name@ == name@,
            r.agent_name@ == agent_name@,
            r.audit_partition@ == partition_of(name@, agent_name@),
            r.state_path@ == state_path_of(
                match home {
                    Some(h) => Some(h@),
                    None => None,
                },
                partition_of(name@, agent_name@),
            ),
    {
        let mut audit_partition = agent_name.to_string();
        audit_partition.append("-");
        audit_partition.append(name);
        let dir = match home {
            Some(h) => {
                let a = join_path(h, ".local");
                let b = join_path(a.as_str(), "share");
                let c = join_path(b.as_str(), "arconaut");
                join_path(c.as_str(), "sessions")
            },
            None => join_path(".arconaut", "sessions"),
        };
        let d = join_path(dir.as_str(), audit_partition.as_str());
        let state_path = join_path(d.as_str(), "state.json");
        Session {
            name: name.to_string(),
            agent_name: agent_name.to_string(),
            created_at: now_micros(),
            audit_partition,
            state_path,
        }
    }

    /// Where the session's audit log is kept (see `audit_log_path_of`).
    pub fn audit_log_path(&self) -> (r: String)
        ensures
            r@ == audit_log_path_of(self.state_path@),
    {
        match parent_path(self.state_path.as_str()) {
            Some(p) => join_path(p.as_str(), "audit.jsonl"),
            None => join_path(".", "audit.jsonl"),
        }
    }
}

} // verus!
