//! Port forwarding.

use crate::cli::ForwardPoint;
use crate::endpoint::kube::KubeConfigs;
use crate::endpoint::AGENT_PATH;
use crate::text::decimal;
use crate::text::decimal_text;
use crate::text::texts;
use vstd::prelude::*;

verus! {

/// The forwarder, with the contexts through which it reaches pods.
pub struct Pf {
    kube: KubeConfigs,
}

impl Pf {
    /// The contexts of the forwarder.
    pub closed spec fn contexts(&self) -> KubeConfigs {
        self.kube
    }

    /// A forwarder that reaches pods through `kube`.
    pub fn new(kube: KubeConfigs) -> (pf: Pf)
        ensures
            pf.contexts() == kube,
    {
        Pf { kube }
    }

    /// The contexts of the forwarder.
    pub fn kube(&self) -> (kube: &KubeConfigs)
        ensures
            *kube == self.contexts(),
    {
        &self.kube
    }
}

/// The words with which the agent is called inside a container or pod.
pub open spec fn agent_words(port: u16, listen: bool) -> Seq<Seq<char>> {
    if listen {
        seq![AGENT_PATH@, "agent"@, "-l"@, "-p"@, decimal_text(port as nat)]
    } else {
        seq![AGENT_PATH@, "agent"@, "-p"@, decimal_text(port as nat)]
    }
}

/// The command that runs the agent for `port`: listening where connections
/// come from the far end, dialing where they go to it.
pub fn agent_command(port: u16, listen: bool) -> (cmd: Vec<String>)
    ensures
        texts(cmd@) == agent_words(port, listen),
{
    let mut cmd: Vec<String> = Vec::new();
    cmd.push(AGENT_PATH.to_owned());
    cmd.push("agent".to_owned());
    if listen {
        cmd.push("-l".to_owned());
    }
    cmd.push("-p".to_owned());
    cmd.push(decimal(port as u128));
    assert(texts(cmd@) =~= agent_words(port, listen));
    cmd
}

/// Whether both ends of a forwarding are standard input and output, which
/// cannot be.
pub fn both_stdio(origin: &ForwardPoint, dst: &ForwardPoint) -> (r: bool)
    ensures
        r == (origin is Stdio && dst is Stdio),
{
    match (origin, dst) {
        (ForwardPoint::Stdio, ForwardPoint::Stdio) => true,
        _ => false,
    }
}

} // verus!
