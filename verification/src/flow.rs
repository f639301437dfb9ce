//! Flows: how traffic enters a flow (match rules) and where it leaves it
//! (targets), with the abstract views that the contracts speak of.
use vstd::prelude::*;

use crate::proxy::ProxyMode;

verus! {

/// A hardware (MAC) address.
#[derive(Clone, Copy, Debug, PartialEq, Eq, Hash, Structural)]
pub struct MacAddr(pub u8, pub u8, pub u8, pub u8, pub u8, pub u8);

impl MacAddr {
    /// The address with the six given octets, in order.
    pub fn new(a: u8, b: u8, c: u8, d: u8, e: u8, f: u8) -> (r: MacAddr)
        ensures
            r == MacAddr(a, b, c, d, e, f),
    {
        MacAddr(a, b, c, d, e, f)
    }
}

/// An IP address: an IPv4 address as its 32-bit big-endian value, an IPv6
/// address as its 128-bit big-endian value.
#[derive(Clone, Copy, Debug, PartialEq, Eq, Hash, Structural)]
pub enum IpAddr {
    V4(u32),
    V6(u128),
}

/// How packets are recognised as entering a flow.
#[derive(Clone, Copy, Debug, PartialEq, Eq, Hash, Structural)]
pub enum FlowEntryMatchMode {
    Mac { mac_addr: MacAddr },
    Ip { ip: IpAddr, prefix_len: u8 },
    Device { device_id: u128 },
}

/// A match mode with enrolled devices replaced by their MAC addresses.
#[derive(Clone, Copy, Debug, PartialEq, Eq, Hash, Structural)]
pub enum ResolvedFlowEntryMatchMode {
    Mac { mac_addr: MacAddr },
    Ip { ip: IpAddr, prefix_len: u8 },
}

/// One entry rule of a flow.
#[derive(Clone, Copy, Debug, PartialEq, Eq, Structural)]
pub struct FlowEntryRule {
    pub qos: Option<u8>,
    pub mode: FlowEntryMatchMode,
}

/// One entry rule of a flow, resolved.
#[derive(Clone, Copy, Debug, PartialEq, Eq, Structural)]
pub struct ResolvedFlowEntryRule {
    pub qos: Option<u8>,
    pub mode: ResolvedFlowEntryMatchMode,
}

/// An enrolled device, as far as flows need it.
#[derive(Debug)]
pub struct EnrolledDevice {
    pub id: u128,
    pub name: String,
    pub mac: MacAddr,
}

/// Where a flow sends its traffic.
#[derive(Debug, PartialEq, Eq)]
pub enum FlowTarget {
    Interface { name: String },
    Netns { container_name: String },
    Proxy { node_id: u128, mode: ProxyMode },
}

/// The abstract value of a flow target.
pub enum FlowTargetView {
    Interface { name: Seq<char> },
    Netns { container_name: Seq<char> },
    Proxy { node_id: u128, mode: ProxyMode },
}

impl View for FlowTarget {
    type V = FlowTargetView;

    open spec fn view(&self) -> FlowTargetView {
        match self {
            FlowTarget::Interface { name } => FlowTargetView::Interface { name: name@ },
            FlowTarget::Netns { container_name } => FlowTargetView::Netns {
                container_name: container_name@,
            },
            FlowTarget::Proxy { node_id, mode } => FlowTargetView::Proxy {
                node_id: *node_id,
                mode: *mode,
            },
        }
    }
}

impl Clone for FlowTarget {
    fn clone(&self) -> (r: Self)
        ensures
            r@ == self@,
    {
        match self {
            FlowTarget::Interface { name } => FlowTarget::Interface { name: name.clone() },
            FlowTarget::Netns { container_name } => FlowTarget::Netns {
                container_name: container_name.clone(),
            },
            FlowTarget::Proxy { node_id, mode } => FlowTarget::Proxy {
                node_id: *node_id,
                mode: *mode,
            },
        }
    }
}

/// A flow target with the weight of its share of the traffic.
#[derive(Debug, PartialEq, Eq)]
pub struct WeightedFlowTarget {
    pub target: FlowTarget,
    pub weight: u32,
}

/// The abstract value of a weighted flow target.
pub struct WeightedFlowTargetView {
    pub target: FlowTargetView,
    pub weight: u32,
}

impl View for WeightedFlowTarget {
    type V = WeightedFlowTargetView;

    open spec fn view(&self) -> WeightedFlowTargetView {
        WeightedFlowTargetView { target: self.target@, weight: self.weight }
    }
}

impl WeightedFlowTarget {
    /// A target with its weight.
    pub fn new(target: FlowTarget, weight: u32) -> (r: Self)
        ensures
            r@ == (WeightedFlowTargetView { target: target@, weight }),
    {
        WeightedFlowTarget { target, weight }
    }
}

impl Clone for WeightedFlowTarget {
    fn clone(&self) -> (r: Self)
        ensures
            r@ == self@,
    {
        WeightedFlowTarget { target: self.target.clone(), weight: self.weight }
    }
}

/// The configuration of one flow.
#[derive(Debug)]
pub struct FlowConfig {
    pub id: u128,
    pub enable: bool,
    pub flow_id: u32,
    pub flow_match_rules: Vec<FlowEntryRule>,
    pub flow_targets: Vec<WeightedFlowTarget>,
    pub remark: String,
}

/// The abstract value of a flow configuration.
pub struct FlowConfigView {
    pub id: u128,
    pub enable: bool,
    pub flow_id: u32,
    pub flow_match_rules: Seq<FlowEntryRule>,
    pub flow_targets: Seq<WeightedFlowTargetView>,
    pub remark: Seq<char>,
}

/// The views of a sequence of weighted targets.
pub open spec fn targets_view(s: Seq<WeightedFlowTarget>) -> Seq<WeightedFlowTargetView> {
    s.map_values(|t: WeightedFlowTarget| t@)
}

impl View for FlowConfig {
    type V = FlowConfigView;

    open spec fn view(&self) -> FlowConfigView {
        FlowConfigView {
            id: self.id,
            enable: self.enable,
            flow_id: self.flow_id,
            flow_match_rules: self.flow_match_rules@,
            flow_targets: targets_view(self.flow_targets@),
            remark: self.remark@,
        }
    }
}

/// A copy of a list of weighted targets.
pub fn clone_targets(v: &Vec<WeightedFlowTarget>) -> (r: Vec<WeightedFlowTarget>)
    ensures
        targets_view(r@) == targets_view(v@),
{
    let mut r: Vec<WeightedFlowTarget> = Vec::new();
    let mut i: usize = 0;
    while i < v.len()
        invariant
            i <= v.len(),
            r@.len() == i,
            forall|j: int| 0 <= j < i ==> r@[j]@ == v@[j]@,
        decreases v.len() - i,
    {
        r.push(v[i].clone());
        i = i + 1;
    }
    assert(targets_view(r@) =~= targets_view(v@));
    r
}

/// A copy of a list of entry rules.
pub fn clone_rules(v: &Vec<FlowEntryRule>) -> (r: Vec<FlowEntryRule>)
    ensures
        r@ == v@,
{
    let mut r: Vec<FlowEntryRule> = Vec::new();
    let mut i: usize = 0;
    while i < v.len()
        invariant
            i <= v.len(),
            r@ == v@.subrange(0, i as int),
        decreases v.len() - i,
    {
        r.push(v[i]);
        i = i + 1;
    }
    assert(r@ =~= v@);
    r
}

impl Clone for FlowConfig {
    fn clone(&self) -> (r: Self)
        ensures
            r@ == self@,
    {
        FlowConfig {
            id: self.id,
            enable: self.enable,
            flow_id: self.flow_id,
            flow_match_rules: clone_rules(&self.flow_match_rules),
            flow_targets: clone_targets(&self.flow_targets),
            remark: self.remark.clone(),
        }
    }
}

/// The part of a flow that the data plane runs: its id and resolved entry rules.
#[derive(Debug, PartialEq, Eq)]
pub struct RuntimeFlowConfig {
    pub flow_id: u32,
    pub flow_match_rules: Vec<ResolvedFlowEntryRule>,
}

} // verus!
