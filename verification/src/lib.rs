//! nanos: sandboxed AI agents on a WASM runtime. This crate holds the
//! runtime's verified core: manifests and their limits, capability checks,
//! the agent's conversation loop, the message bus and its network protocol,
//! traces and the dashboard, the model backends' protocols, and the
//! built-in transformer's file formats and tokenizer.
use vstd::prelude::*;
use vstd::string::*;

pub mod text;
pub mod json;
pub mod manifest;
pub mod agent;
pub mod orchestrator;
pub mod trace;
pub mod dashboard;
pub mod network;
pub mod sandbox;
pub mod js_bridge;
pub mod llm;
pub mod llama_model;
pub mod mcp;
pub mod cli;

verus! {

/// Configuration overrides for spawning an agent: an engine and a message
/// bus shared with other agents, given as the handles the embedding program
/// holds them by.
pub struct NanosConfig<L, B> {
    /// Override the LLM engine (share across agents).
    pub shared_llm: Option<L>,
    /// Override the message bus (for inter-agent communication).
    pub shared_bus: Option<B>,
}

impl<L, B> Default for NanosConfig<L, B> {
    /// No overrides: the agent loads its own engine and runs without a bus.
    fn default() -> (r: Self)
        ensures
            r.shared_llm is None,
            r.shared_bus is None,
    {
        NanosConfig { shared_llm: None, shared_bus: None }
    }
}

/// The error a handle without a message bus reports when asked to send.
pub fn no_bus_error(name: &str) -> (r: String)
    ensures
        r@ == "No message bus configured for agent '"@ + name@ + "'"@,
{
    let mut r = String::from_str("No message bus configured for agent '");
    r.append(name);
    r.append("'");
    r
}

} // verus!
