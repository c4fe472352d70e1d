//! The agent: the peer that runs inside a container or pod.

use crate::cli::loopback;
use crate::cli::Ipv4;
use crate::cli::LocalAddr;
use vstd::prelude::*;

verus! {

/// What the agent does with its port.
#[derive(Debug, Clone, Copy, PartialEq, Eq, Structural)]
pub enum AgentMode {
    /// Bind the address, and carry each connection that comes in as a logical
    /// stream over standard input and output.
    Listen(LocalAddr),
    /// Connect to the address, and couple the connection with standard input
    /// and output.
    Dial(LocalAddr),
}

/// The agent as it was called.
pub struct Agent {
    port: u16,
    listen: bool,
}

impl Agent {
    /// The port that the agent was given.
    pub closed spec fn port(&self) -> u16 {
        self.port
    }

    /// Whether the agent was told to listen.
    pub closed spec fn listens(&self) -> bool {
        self.listen
    }

    /// An agent for `port` on this machine.
    pub fn new(port: u16, listen: bool) -> (agent: Agent)
        ensures
            agent.port() == port,
            agent.listens() == listen,
    {
        Agent { port, listen }
    }

    /// What the agent is to do: listen on its port of this machine, or dial
    /// it.
    pub fn mode(&self) -> (mode: AgentMode)
        ensures
            mode == if self.listens() {
                AgentMode::Listen(loopback(self.port()))
            } else {
                AgentMode::Dial(loopback(self.port()))
            },
    {
        let addr = LocalAddr { host: Ipv4 { a: 127, b: 0, c: 0, d: 1 }, port: self.port };
        if self.listen {
            AgentMode::Listen(addr)
        } else {
            AgentMode::Dial(addr)
        }
    }
}

} // verus!
