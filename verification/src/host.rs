//! How the daemon behaves with no attached GUI, and the heartbeat it agrees to.

use vstd::prelude::*;

use crate::permission::{DetachedPermissions, DisconnectedPromptWait, DEFAULT_PROMPT_TIMEOUT_MS};

verus! {

/// The `agent.detached_permissions` setting.
#[derive(Clone, Copy, Debug, PartialEq, Eq, Structural)]
pub enum DetachedPermissionsSetting {
    Ask,
    PermitEverything,
}

/// The `agent.disconnected_prompt_wait` setting.
#[derive(Clone, Copy, Debug, PartialEq, Eq, Structural)]
pub enum PromptWaitSetting {
    Forever,
    Timeout,
}

/// The agent settings the daemon reads; each may be left unset.
#[derive(Clone, Copy, Debug, PartialEq, Eq, Structural)]
pub struct AgentSessionSettings {
    pub detached_permissions: Option<DetachedPermissionsSetting>,
    pub disconnected_prompt_wait: Option<PromptWaitSetting>,
    pub disconnected_prompt_timeout_ms: Option<u64>,
}

/// How the daemon behaves with no attached GUI.
#[derive(Clone, Copy, Debug, PartialEq, Eq, Structural)]
pub struct HostConfig {
    pub detached_permissions: DetachedPermissions,
    pub disconnected_prompt_wait: DisconnectedPromptWait,
}

/// The configuration that settings ask for: unset permissions ask, an unset
/// wait waits forever, and a timeout without a length waits five minutes.
pub open spec fn configured(agent: Option<AgentSessionSettings>) -> HostConfig {
    let permissions = match agent {
        Some(a) => match a.detached_permissions {
            Some(DetachedPermissionsSetting::PermitEverything) => DetachedPermissions::PermitEverything,
            _ => DetachedPermissions::Ask,
        },
        None => DetachedPermissions::Ask,
    };
    let timeout_ms = match agent {
        Some(a) => match a.disconnected_prompt_timeout_ms {
            Some(ms) => ms,
            None => DEFAULT_PROMPT_TIMEOUT_MS,
        },
        None => DEFAULT_PROMPT_TIMEOUT_MS,
    };
    let wait = match agent {
        Some(a) => match a.disconnected_prompt_wait {
            Some(PromptWaitSetting::Timeout) => DisconnectedPromptWait::Timeout { millis: timeout_ms },
            _ => DisconnectedPromptWait::Forever,
        },
        None => DisconnectedPromptWait::Forever,
    };
    HostConfig { detached_permissions: permissions, disconnected_prompt_wait: wait }
}

impl Default for HostConfig {
    fn default() -> (config: HostConfig)
        ensures
            config.detached_permissions == DetachedPermissions::Ask,
            config.disconnected_prompt_wait == DisconnectedPromptWait::Forever,
    {
        HostConfig {
            detached_permissions: DetachedPermissions::Ask,
            disconnected_prompt_wait: DisconnectedPromptWait::Forever,
        }
    }
}

impl HostConfig {
    /// The configuration that the agent settings ask for.
    pub fn from_settings(agent: Option<AgentSessionSettings>) -> (config: HostConfig)
        ensures
            config == configured(agent),
    {
        let (permissions_setting, wait_setting, timeout_setting) = match agent {
            Some(a) => (a.detached_permissions, a.disconnected_prompt_wait, a.disconnected_prompt_timeout_ms),
            None => (None, None, None),
        };
        let timeout_ms = match timeout_setting {
            Some(ms) => ms,
            None => DEFAULT_PROMPT_TIMEOUT_MS,
        };
        let detached_permissions = match permissions_setting {
            Some(DetachedPermissionsSetting::PermitEverything) => DetachedPermissions::PermitEverything,
            _ => DetachedPermissions::Ask,
        };
        let disconnected_prompt_wait = match wait_setting {
            Some(PromptWaitSetting::Timeout) => DisconnectedPromptWait::Timeout { millis: timeout_ms },
            _ => DisconnectedPromptWait::Forever,
        };
        HostConfig { detached_permissions, disconnected_prompt_wait }
    }

    pub fn permit_tool_permissions(self) -> (r: bool)
        ensures
            r == (self.detached_permissions == DetachedPermissions::PermitEverything),
    {
        match self.detached_permissions {
            DetachedPermissions::PermitEverything => true,
            DetachedPermissions::Ask => false,
        }
    }
}

/// Heartbeat tunables of a `SessionHeartbeat` message. Zero means "use the
/// daemon's default".
#[derive(Clone, Copy, Debug, PartialEq, Eq, Structural)]
pub struct HeartbeatSettings {
    pub interval_ms: u64,
    pub timeout_ms: u64,
    pub max_missed: u32,
}

pub const DEFAULT_HEARTBEAT_INTERVAL_MS: u64 = 15_000;

pub const DEFAULT_HEARTBEAT_TIMEOUT_MS: u64 = 15_000;

pub const DEFAULT_HEARTBEAT_MAX_MISSED: u32 = 10;

/// Each requested tunable, or the default where zero was requested.
pub open spec fn negotiated_heartbeat(requested: HeartbeatSettings) -> HeartbeatSettings {
    HeartbeatSettings {
        interval_ms: if requested.interval_ms == 0 { DEFAULT_HEARTBEAT_INTERVAL_MS } else { requested.interval_ms },
        timeout_ms: if requested.timeout_ms == 0 { DEFAULT_HEARTBEAT_TIMEOUT_MS } else { requested.timeout_ms },
        max_missed: if requested.max_missed == 0 { DEFAULT_HEARTBEAT_MAX_MISSED } else { requested.max_missed },
    }
}

impl HeartbeatSettings {
    /// The heartbeat the daemon answers a GUI's request with.
    pub fn negotiate(self) -> (r: HeartbeatSettings)
        ensures
            r == negotiated_heartbeat(self),
    {
        HeartbeatSettings {
            interval_ms: if self.interval_ms == 0 { DEFAULT_HEARTBEAT_INTERVAL_MS } else { self.interval_ms },
            timeout_ms: if self.timeout_ms == 0 { DEFAULT_HEARTBEAT_TIMEOUT_MS } else { self.timeout_ms },
            max_missed: if self.max_missed == 0 { DEFAULT_HEARTBEAT_MAX_MISSED } else { self.max_missed },
        }
    }
}

/// The daemon's answer has no zero tunable, and answering its own answer
/// changes nothing.
pub proof fn lemma_negotiated_heartbeat_is_settled(requested: HeartbeatSettings)
    ensures
        negotiated_heartbeat(requested).interval_ms > 0,
        negotiated_heartbeat(requested).timeout_ms > 0,
        negotiated_heartbeat(requested).max_missed > 0,
        negotiated_heartbeat(negotiated_heartbeat(requested)) == negotiated_heartbeat(requested),
{
}

/// Each tunable the GUI asks for is kept when it is not zero; a zero one
/// becomes the daemon's default: a 15 s interval, a 15 s timeout, 10 missed
/// beats.
pub proof fn lemma_heartbeat_honors_requests(requested: HeartbeatSettings)
    ensures
        requested.interval_ms != 0 ==> negotiated_heartbeat(requested).interval_ms
            == requested.interval_ms,
        requested.timeout_ms != 0 ==> negotiated_heartbeat(requested).timeout_ms == requested.timeout_ms,
        requested.max_missed != 0 ==> negotiated_heartbeat(requested).max_missed == requested.max_missed,
        requested.interval_ms == 0 ==> negotiated_heartbeat(requested).interval_ms == 15_000,
        requested.timeout_ms == 0 ==> negotiated_heartbeat(requested).timeout_ms == 15_000,
        requested.max_missed == 0 ==> negotiated_heartbeat(requested).max_missed == 10,
{
}

/// Tool permissions are auto-allowed exactly when `detached_permissions` is
/// `permit_everything`, whatever the wait settings are; the wait is a timeout
/// exactly when `disconnected_prompt_wait` is `timeout`, of the configured
/// length or five minutes, whatever the permission setting is.
pub proof fn lemma_settings_are_independent(agent: Option<AgentSessionSettings>)
    ensures
        (configured(agent).detached_permissions == DetachedPermissions::PermitEverything) <==> (
        agent matches Some(a) && a.detached_permissions == Some(
            DetachedPermissionsSetting::PermitEverything,
        )),
        (configured(agent).detached_permissions == DetachedPermissions::Ask) <==> !(agent matches Some(
            a,
        ) && a.detached_permissions == Some(DetachedPermissionsSetting::PermitEverything)),
        (configured(agent).disconnected_prompt_wait is Timeout) <==> (agent matches Some(a)
            && a.disconnected_prompt_wait == Some(PromptWaitSetting::Timeout)),
        configured(agent).disconnected_prompt_wait matches DisconnectedPromptWait::Timeout { millis }
            ==> (agent matches Some(a) && millis == match a.disconnected_prompt_timeout_ms {
            Some(ms) => ms,
            None => 300_000,
        }),
{
}

} // verus!
