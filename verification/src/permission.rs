//! How the daemon waits for permission and elicitation when the GUI is gone.

use std::time::Duration;

use vstd::prelude::*;

use crate::time::{duration_from_millis, duration_nanos};

verus! {

/// ACP `_meta` key carrying Zed's `AuthorizationKind` across the tunnel.
pub const AUTHORIZATION_KIND_META: &'static str = "zed.dev/authorizationKind";

/// Default wait when `disconnected_prompt_wait` is `"timeout"` (five minutes).
pub const DEFAULT_PROMPT_TIMEOUT_MS: u64 = 300_000;

/// Shown when a GUI attaches to a remote or local daemon so that unattended
/// work is not a surprise. Server settings own the policy.
pub const DETACHED_WORK_ADVICE: &'static str = "Detached agent work waits for this window to approve tools and questions. For unattended remote runs, set agent.detached_permissions to \"permit_everything\" or a thorough agent.tool_permissions allow-list in server settings.";

/// Whether the daemon auto-allows tool permissions while the client is gone.
///
/// Elicitation is always asked: a form cannot be filled without a window.
#[derive(Clone, Copy, Debug, PartialEq, Eq, Structural)]
pub enum DetachedPermissions {
    /// Send permission and elicitation prompts to the GUI (or wait for one).
    Ask,
    /// Auto-allow tool permissions (permit everything). Still asks elicitation.
    PermitEverything,
}

impl Default for DetachedPermissions {
    fn default() -> (r: DetachedPermissions)
        ensures
            r == DetachedPermissions::Ask,
    {
        DetachedPermissions::Ask
    }
}

/// How long to wait for a GUI answer when a prompt is outstanding.
#[derive(Clone, Copy, Debug, PartialEq, Eq, Structural)]
pub enum DisconnectedPromptWait {
    /// Wait until a client reconnects and answers.
    Forever,
    /// Wait this many milliseconds, then apply the timeout outcome.
    Timeout { millis: u64 },
}

impl Default for DisconnectedPromptWait {
    fn default() -> (r: DisconnectedPromptWait)
        ensures
            r == DisconnectedPromptWait::Forever,
    {
        DisconnectedPromptWait::Forever
    }
}

impl DisconnectedPromptWait {
    /// No limit when waiting forever; otherwise the timeout.
    pub fn duration(self) -> (r: Option<Duration>)
        ensures
            match self {
                DisconnectedPromptWait::Forever => r is None,
                DisconnectedPromptWait::Timeout { millis } => r is Some && duration_nanos(r->0)
                    == millis as int * 1_000_000,
            },
    {
        match self {
            DisconnectedPromptWait::Forever => None,
            DisconnectedPromptWait::Timeout { millis } => Some(duration_from_millis(millis)),
        }
    }
}

/// Daemon policy for prompts while no GUI is attached (or one has not answered).
#[derive(Clone, Copy, Debug, PartialEq, Eq, Structural)]
pub struct DisconnectedPromptPolicy {
    pub permissions: DetachedPermissions,
    pub wait: DisconnectedPromptWait,
}

impl Default for DisconnectedPromptPolicy {
    fn default() -> (r: DisconnectedPromptPolicy)
        ensures
            r.permissions == DetachedPermissions::Ask,
            r.wait == DisconnectedPromptWait::Forever,
    {
        DisconnectedPromptPolicy {
            permissions: DetachedPermissions::Ask,
            wait: DisconnectedPromptWait::Forever,
        }
    }
}

impl DisconnectedPromptPolicy {
    pub fn permit_tool_permissions(self) -> (r: bool)
        ensures
            r == (self.permissions == DetachedPermissions::PermitEverything),
    {
        match self.permissions {
            DetachedPermissions::PermitEverything => true,
            DetachedPermissions::Ask => false,
        }
    }
}

} // verus!
