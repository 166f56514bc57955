//! The external ACP children the daemon holds, by agent id. A child outlives
//! the GUI that asked for it: a later `zed/acp_connect` for the same agent
//! reuses it instead of spawning another.

use vstd::prelude::*;

use crate::acp_connect::AcpConnectResponse;
use crate::text_map::TextMap;

verus! {

/// The identity each connected child reported, by agent id.
pub struct ExternalAgents {
    agents: TextMap<AcpConnectResponse>,
}

/// What `zed/acp_connect` does for an agent id.
pub enum ConnectPlan<'a> {
    /// A child is already running: answer with its identity.
    Reuse(&'a AcpConnectResponse),
    /// Spawn a child, then record it with `connected`.
    Spawn,
}

impl View for ExternalAgents {
    type V = Map<Seq<char>, AcpConnectResponse>;

    closed spec fn view(&self) -> Map<Seq<char>, AcpConnectResponse> {
        self.agents@
    }
}

impl ExternalAgents {
    /// No child yet.
    pub fn new() -> (agents: ExternalAgents)
        ensures
            agents@ == Map::<Seq<char>, AcpConnectResponse>::empty(),
    {
        ExternalAgents { agents: TextMap::new() }
    }

    /// Reuse the child of `agent_id` when there is one, otherwise spawn.
    pub fn connect_plan(&self, agent_id: &str) -> (plan: ConnectPlan)
        ensures
            match plan {
                ConnectPlan::Reuse(response) => self@.contains_key(agent_id@) && self@[agent_id@]
                    == *response,
                ConnectPlan::Spawn => !self@.contains_key(agent_id@),
            },
    {
        match self.agents.get(agent_id) {
            Some(response) => ConnectPlan::Reuse(response),
            None => ConnectPlan::Spawn,
        }
    }

    /// Records the child spawned for `agent_id`.
    pub fn connected(&mut self, agent_id: &str, response: AcpConnectResponse)
        ensures
            final(self)@ == old(self)@.insert(agent_id@, response),
    {
        self.agents.insert(agent_id, response);
    }

    /// Whether a child for `agent_id` is running.
    pub fn is_connected(&self, agent_id: &str) -> (r: bool)
        ensures
            r == self@.contains_key(agent_id@),
    {
        self.agents.get(agent_id).is_some()
    }
}

/// The error for a request to an agent without a child:
/// "external ACP agent `<id>` is not connected".
pub fn not_connected_message(agent_id: &str) -> (text: String)
    ensures
        text@ == "external ACP agent `"@ + agent_id@ + "` is not connected"@,
{
    let mut text = String::from_str("external ACP agent `");
    text.append(agent_id);
    text.append("` is not connected");
    text
}

/// Once a child is recorded for an agent, connecting that agent again
/// reuses it, and other agents are unaffected.
pub proof fn lemma_reconnect_reuses_child(
    agents: Map<Seq<char>, AcpConnectResponse>,
    agent_id: Seq<char>,
    response: AcpConnectResponse,
    other: Seq<char>,
)
    requires
        other != agent_id,
    ensures
        agents.insert(agent_id, response).contains_key(agent_id),
        agents.insert(agent_id, response)[agent_id] == response,
        agents.insert(agent_id, response).contains_key(other) == agents.contains_key(other),
{
}

} // verus!
