//! Same-machine daemons: the options that name one and its socket id.

use vstd::prelude::*;

use crate::daemon_id::{daemon_id, daemon_socket_id, normalize_project_root, normalized_root, trim_separators, is_separator};

verus! {

/// Options for a same-machine daemon. `nickname` is for display only and is
/// not part of the daemon's identity.
#[derive(Debug, Clone, PartialEq, Eq, Hash)]
pub struct LocalConnectionOptions {
    pub project_root: String,
    pub nickname: Option<String>,
}

impl LocalConnectionOptions {
    pub fn new(project_root: String) -> (options: LocalConnectionOptions)
        ensures
            options.project_root@ == project_root@,
            options.nickname is None,
    {
        LocalConnectionOptions { project_root, nickname: None }
    }

    /// Socket-name body. Release-channel prefixes are applied by the caller.
    pub fn daemon_id(&self) -> (id: String)
        ensures
            id@ == daemon_id("local"@, "localhost"@, self.project_root@),
    {
        let root = self.identity_project_root();
        proof {
            lemma_normalized_root_idempotent(self.project_root@);
        }
        daemon_socket_id("local", "localhost", root.as_str())
    }

    /// Project root used for persistence identity (trailing slashes stripped).
    pub fn identity_project_root(&self) -> (root: String)
        ensures
            root@ == normalized_root(self.project_root@),
    {
        normalize_project_root(self.project_root.as_str()).to_owned()
    }
}

/// Options for a same-machine daemon as the session transport names it.
#[derive(Clone, Debug, PartialEq, Eq, Hash)]
pub struct LocalProject {
    pub project_root: String,
    pub nickname: Option<String>,
}

impl LocalProject {
    pub fn new(project_root: String) -> (project: LocalProject)
        ensures
            project.project_root@ == project_root@,
            project.nickname is None,
    {
        LocalProject { project_root, nickname: None }
    }

    pub fn daemon_id(&self) -> (id: String)
        ensures
            id@ == daemon_id("local"@, "localhost"@, self.project_root@),
    {
        daemon_socket_id("local", "localhost", self.project_root.as_str())
    }
}

/// Socket-name body for a daemon keyed by transport, host and project root.
pub fn stable_daemon_id(transport: &str, host: &str, project_root: &str) -> (id: String)
    ensures
        id@ == daemon_id(transport@, host@, project_root@),
{
    daemon_socket_id(transport, host, project_root)
}

/// Hook that production binaries call once to register the local transport.
/// It has nothing to set up yet.
pub fn init() {
}

proof fn lemma_trim_separators_is_trimmed(root: Seq<char>)
    ensures
        trim_separators(root).len() == 0 || !is_separator(trim_separators(root).last()),
        trim_separators(trim_separators(root)) == trim_separators(root),
    decreases root.len(),
{
    if root.len() > 0 && is_separator(root.last()) {
        lemma_trim_separators_is_trimmed(root.drop_last());
    }
}

/// Normalizing a project root twice is normalizing it once.
pub proof fn lemma_normalized_root_idempotent(root: Seq<char>)
    ensures
        normalized_root(normalized_root(root)) == normalized_root(root),
{
    lemma_trim_separators_is_trimmed(root);
}

} // verus!
