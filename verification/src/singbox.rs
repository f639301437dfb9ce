//! The configuration of the sing-box proxy runtime: one outbound per proxy
//! node, a test inbound per node, and a transparent-proxy inbound per flow
//! that sends traffic to proxy nodes.
use vstd::prelude::*;
use std::collections::HashSet;

use crate::flow::{FlowConfig, FlowConfigView, FlowTarget, FlowTargetView, WeightedFlowTargetView};
use crate::flow_rule::configs_view;
use crate::ids::{format_uuid_simple, uuid_simple_text};
use crate::proxy::{
    nodes_view, opt_view, ProxyError, ProxyNodeConfig, ProxyNodeView, ProxyProtocolConfig,
    ProxyProtocolView,
};
use crate::text::{dec_text, push_decimal, string_of, trim, trim_text};

verus! {

broadcast use vstd::std_specs::hash::group_hash_axioms;

/// The first port of the per-flow transparent-proxy inbounds.
pub const FLOW_TPROXY_PORT_BASE: u32 = 12000;

/// The first port of the per-node test inbounds.
pub const NODE_TEST_PORT_BASE: u32 = 12100;

/// The TLS settings of an outbound (TLS is always enabled where present).
#[derive(Debug, PartialEq, Eq)]
pub struct TlsConfig {
    pub server_name: Option<String>,
    pub reality: Option<RealityConfig>,
    pub utls_fingerprint: Option<String>,
}

/// The REALITY settings of a TLS configuration (enabled where present).
#[derive(Debug, PartialEq, Eq)]
pub struct RealityConfig {
    pub public_key: Option<String>,
    pub short_id: Option<String>,
}

/// The protocol settings of a proxy node's outbound.
#[derive(Debug, PartialEq, Eq)]
pub enum OutboundSettings {
    Vless { uuid: String, flow: Option<String>, tls: Option<TlsConfig> },
    Vmess { uuid: String, alter_id: u16, security: Option<String>, tls: Option<TlsConfig> },
    Shadowsocks { method: String, password: String },
    Socks { username: Option<String>, password: Option<String> },
}

/// The outbound that reaches one proxy node.
#[derive(Debug, PartialEq, Eq)]
pub struct NodeOutbound {
    pub tag: String,
    pub server: String,
    pub server_port: u16,
    pub settings: OutboundSettings,
}

/// An outbound of the runtime.
#[derive(Debug, PartialEq, Eq)]
pub enum Outbound {
    Node(NodeOutbound),
    Selector { tag: String, outbounds: Vec<String>, default: String },
    Direct { tag: String },
}

/// The kinds of inbound the runtime listens with.
#[derive(Clone, Copy, Debug, PartialEq, Eq, Structural)]
pub enum InboundKind {
    Tproxy,
    Mixed,
}

/// An inbound of the runtime.
#[derive(Debug, PartialEq, Eq)]
pub struct Inbound {
    pub kind: InboundKind,
    pub tag: String,
    pub listen: String,
    pub listen_port: u16,
}

/// A routing rule: traffic from the inbounds goes to the outbound.
#[derive(Debug, PartialEq, Eq)]
pub struct RouteRule {
    pub inbound: Vec<String>,
    pub outbound: String,
}

/// The whole runtime configuration. Logging is at level `info` with
/// timestamps; traffic that no rule routes goes to `final_outbound`.
#[derive(Debug, PartialEq, Eq)]
pub struct SingBoxConfig {
    pub inbounds: Vec<Inbound>,
    pub outbounds: Vec<Outbound>,
    pub rules: Vec<RouteRule>,
    pub final_outbound: String,
}

pub struct RealityView {
    pub public_key: Option<Seq<char>>,
    pub short_id: Option<Seq<char>>,
}

pub struct TlsView {
    pub server_name: Option<Seq<char>>,
    pub reality: Option<RealityView>,
    pub utls_fingerprint: Option<Seq<char>>,
}

pub enum SettingsView {
    Vless { uuid: Seq<char>, flow: Option<Seq<char>>, tls: Option<TlsView> },
    Vmess { uuid: Seq<char>, alter_id: u16, security: Option<Seq<char>>, tls: Option<TlsView> },
    Shadowsocks { method: Seq<char>, password: Seq<char> },
    Socks { username: Option<Seq<char>>, password: Option<Seq<char>> },
}

pub struct NodeOutboundView {
    pub tag: Seq<char>,
    pub server: Seq<char>,
    pub server_port: u16,
    pub settings: SettingsView,
}

pub enum OutboundView {
    Node(NodeOutboundView),
    Selector { tag: Seq<char>, outbounds: Seq<Seq<char>>, default: Seq<char> },
    Direct { tag: Seq<char> },
}

pub struct InboundView {
    pub kind: InboundKind,
    pub tag: Seq<char>,
    pub listen: Seq<char>,
    pub listen_port: u16,
}

pub struct RouteRuleView {
    pub inbound: Seq<Seq<char>>,
    pub outbound: Seq<char>,
}

pub struct SingBoxView {
    pub inbounds: Seq<InboundView>,
    pub outbounds: Seq<OutboundView>,
    pub rules: Seq<RouteRuleView>,
    pub final_outbound: Seq<char>,
}

/// The views of a sequence of strings.
pub open spec fn strings_view(s: Seq<String>) -> Seq<Seq<char>> {
    s.map_values(|x: String| x@)
}

impl View for RealityConfig {
    type V = RealityView;

    open spec fn view(&self) -> RealityView {
        RealityView { public_key: opt_view(self.public_key), short_id: opt_view(self.short_id) }
    }
}

impl View for TlsConfig {
    type V = TlsView;

    open spec fn view(&self) -> TlsView {
        TlsView {
            server_name: opt_view(self.server_name),
            reality: match self.reality {
                Some(r) => Some(r@),
                None => None,
            },
            utls_fingerprint: opt_view(self.utls_fingerprint),
        }
    }
}

/// An optional TLS configuration's abstract value.
pub open spec fn tls_opt_view(t: Option<TlsConfig>) -> Option<TlsView> {
    match t {
        Some(t) => Some(t@),
        None => None,
    }
}

impl View for OutboundSettings {
    type V = SettingsView;

    open spec fn view(&self) -> SettingsView {
        match self {
            OutboundSettings::Vless { uuid, flow, tls } => SettingsView::Vless {
                uuid: uuid@,
                flow: opt_view(*flow),
                tls: tls_opt_view(*tls),
            },
            OutboundSettings::Vmess { uuid, alter_id, security, tls } => SettingsView::Vmess {
                uuid: uuid@,
                alter_id: *alter_id,
                security: opt_view(*security),
                tls: tls_opt_view(*tls),
            },
            OutboundSettings::Shadowsocks { method, password } => SettingsView::Shadowsocks {
                method: method@,
                password: password@,
            },
            OutboundSettings::Socks { username, password } => SettingsView::Socks {
                username: opt_view(*username),
                password: opt_view(*password),
            },
        }
    }
}

impl View for NodeOutbound {
    type V = NodeOutboundView;

    open spec fn view(&self) -> NodeOutboundView {
        NodeOutboundView {
            tag: self.tag@,
            server: self.server@,
            server_port: self.server_port,
            settings: self.settings@,
        }
    }
}

impl View for Outbound {
    type V = OutboundView;

    open spec fn view(&self) -> OutboundView {
        match self {
            Outbound::Node(n) => OutboundView::Node(n@),
            Outbound::Selector { tag, outbounds, default } => OutboundView::Selector {
                tag: tag@,
                outbounds: strings_view(outbounds@),
                default: default@,
            },
            Outbound::Direct { tag } => OutboundView::Direct { tag: tag@ },
        }
    }
}

impl View for Inbound {
    type V = InboundView;

    open spec fn view(&self) -> InboundView {
        InboundView {
            kind: self.kind,
            tag: self.tag@,
            listen: self.listen@,
            listen_port: self.listen_port,
        }
    }
}

impl View for RouteRule {
    type V = RouteRuleView;

    open spec fn view(&self) -> RouteRuleView {
        RouteRuleView { inbound: strings_view(self.inbound@), outbound: self.outbound@ }
    }
}

pub open spec fn inbounds_view(s: Seq<Inbound>) -> Seq<InboundView> {
    s.map_values(|x: Inbound| x@)
}

pub open spec fn outbounds_view(s: Seq<Outbound>) -> Seq<OutboundView> {
    s.map_values(|x: Outbound| x@)
}

pub open spec fn rules_view(s: Seq<RouteRule>) -> Seq<RouteRuleView> {
    s.map_values(|x: RouteRule| x@)
}

impl View for SingBoxConfig {
    type V = SingBoxView;

    open spec fn view(&self) -> SingBoxView {
        SingBoxView {
            inbounds: inbounds_view(self.inbounds@),
            outbounds: outbounds_view(self.outbounds@),
            rules: rules_view(self.rules@),
            final_outbound: self.final_outbound@,
        }
    }
}

/// An optional text with its surrounding whitespace removed, and `None` when
/// nothing remains.
pub open spec fn non_empty_text(o: Option<Seq<char>>) -> Option<Seq<char>> {
    match o {
        Some(s) => if trim_text(s).len() > 0 {
            Some(trim_text(s))
        } else {
            None
        },
        None => None,
    }
}

/// The TLS settings for the given server name, REALITY switch and keys.
pub open spec fn tls_of(
    server_name: Option<Seq<char>>,
    reality: bool,
    public_key: Option<Seq<char>>,
    short_id: Option<Seq<char>>,
    fingerprint: Option<Seq<char>>,
) -> TlsView {
    TlsView {
        server_name: non_empty_text(server_name),
        reality: if reality {
            Some(
                RealityView {
                    public_key: non_empty_text(public_key),
                    short_id: non_empty_text(short_id),
                },
            )
        } else {
            None
        },
        utls_fingerprint: non_empty_text(fingerprint),
    }
}

/// The outbound protocol settings of a proxy protocol configuration.
pub open spec fn settings_of(p: ProxyProtocolView) -> SettingsView {
    match p {
        ProxyProtocolView::Vless {
            uuid,
            flow,
            tls,
            server_name,
            reality,
            reality_public_key,
            reality_short_id,
            utls_fingerprint,
        } => SettingsView::Vless {
            uuid,
            flow: non_empty_text(flow),
            tls: if tls || reality {
                Some(
                    tls_of(
                        server_name,
                        reality,
                        reality_public_key,
                        reality_short_id,
                        utls_fingerprint,
                    ),
                )
            } else {
                None
            },
        },
        ProxyProtocolView::Vmess { uuid, alter_id, security, tls, server_name } =>
            SettingsView::Vmess {
            uuid,
            alter_id,
            security: non_empty_text(security),
            tls: if tls {
                Some(tls_of(server_name, false, None, None, None))
            } else {
                None
            },
        },
        ProxyProtocolView::Shadowsocks { method, password } => SettingsView::Shadowsocks {
            method,
            password,
        },
        ProxyProtocolView::Socks5 { username, password } => SettingsView::Socks {
            username: non_empty_text(username),
            password: non_empty_text(password),
        },
    }
}

/// The outbound, tagged `tag`, that reaches node `n`.
pub open spec fn outbound_of(n: ProxyNodeView, tag: Seq<char>) -> NodeOutboundView {
    NodeOutboundView {
        tag,
        server: n.server,
        server_port: n.port,
        settings: settings_of(n.protocol),
    }
}

/// The tag of a node's outbound.
pub open spec fn node_tag(id: u128) -> Seq<char> {
    "proxy-"@ + uuid_simple_text(id)
}

/// The tag of a node's test inbound.
pub open spec fn test_tag(id: u128) -> Seq<char> {
    "test-"@ + uuid_simple_text(id)
}

/// The tag of a flow's inbound.
pub open spec fn flow_tag(flow_id: u32) -> Seq<char> {
    "flow-"@ + dec_text(flow_id as nat)
}

/// The tag of the selector among a flow's proxy nodes.
pub open spec fn selector_tag(flow_id: u32) -> Seq<char> {
    "flow-proxy-"@ + dec_text(flow_id as nat)
}

/// The error for a flow id beyond the range of transparent-proxy ports.
pub open spec fn flow_port_error_text(flow_id: u32) -> Seq<char> {
    "flow id "@ + dec_text(flow_id as nat) + " is too large for proxy tproxy routing"@
}

/// The error for a node index beyond the range of test ports.
pub open spec fn test_port_error_text(index: nat) -> Seq<char> {
    "proxy node index "@ + dec_text(index) + " maps to invalid test port"@
}

/// The transparent-proxy port of a flow: the base plus the flow id, for flow
/// ids up to 255.
pub open spec fn flow_port(flow_id: u32) -> Result<u16, Seq<char>> {
    if flow_id > 255 {
        Err(flow_port_error_text(flow_id))
    } else {
        Ok((FLOW_TPROXY_PORT_BASE + flow_id) as u16)
    }
}

/// The test port of the node at `index` among the enabled nodes.
pub open spec fn test_port(index: nat) -> Result<u16, Seq<char>> {
    if index > u32::MAX {
        Err("proxy node index overflow"@)
    } else if NODE_TEST_PORT_BASE + index > u16::MAX {
        Err(test_port_error_text(index))
    } else {
        Ok((NODE_TEST_PORT_BASE + index) as u16)
    }
}

/// The tags of the proxy nodes, among `node_ids`, that the weighted targets
/// with a positive weight send traffic to, in order.
pub open spec fn flow_proxy_tags(targets: Seq<WeightedFlowTargetView>, node_ids: Set<u128>) -> Seq<
    Seq<char>,
>
    decreases targets.len(),
{
    if targets.len() == 0 {
        Seq::empty()
    } else {
        let rest = flow_proxy_tags(targets.drop_last(), node_ids);
        let t = targets.last();
        match t.target {
            FlowTargetView::Proxy { node_id, .. } => if t.weight > 0 && node_ids.contains(
                node_id,
            ) {
                rest.push(node_tag(node_id))
            } else {
                rest
            },
            _ => rest,
        }
    }
}

/// The inbounds, selectors and routing rules that the flows add, in order.
pub open spec fn flow_parts(flows: Seq<FlowConfigView>, node_ids: Set<u128>) -> (
    Seq<InboundView>,
    Seq<OutboundView>,
    Seq<RouteRuleView>,
)
    decreases flows.len(),
{
    if flows.len() == 0 {
        (Seq::empty(), Seq::empty(), Seq::empty())
    } else {
        let (ins, outs, rules) = flow_parts(flows.drop_last(), node_ids);
        let f = flows.last();
        let tags = flow_proxy_tags(f.flow_targets, node_ids);
        if !f.enable || tags.len() == 0 {
            (ins, outs, rules)
        } else {
            let inbound = InboundView {
                kind: InboundKind::Tproxy,
                tag: flow_tag(f.flow_id),
                listen: "::"@,
                listen_port: (FLOW_TPROXY_PORT_BASE + f.flow_id) as u16,
            };
            if tags.len() == 1 {
                (
                    ins.push(inbound),
                    outs,
                    rules.push(RouteRuleView { inbound: seq![flow_tag(f.flow_id)], outbound: tags[0] }),
                )
            } else {
                (
                    ins.push(inbound),
                    outs.push(
                        OutboundView::Selector {
                            tag: selector_tag(f.flow_id),
                            outbounds: tags,
                            default: tags[0],
                        },
                    ),
                    rules.push(
                        RouteRuleView {
                            inbound: seq![flow_tag(f.flow_id)],
                            outbound: selector_tag(f.flow_id),
                        },
                    ),
                )
            }
        }
    }
}

/// The first enabled flow with proxy nodes to reach whose id has no
/// transparent-proxy port.
pub open spec fn first_unroutable_flow(flows: Seq<FlowConfigView>, node_ids: Set<u128>) -> Option<u32>
    decreases flows.len(),
{
    if flows.len() == 0 {
        None
    } else {
        let f = flows[0];
        if f.enable && flow_proxy_tags(f.flow_targets, node_ids).len() > 0 && f.flow_id > 255 {
            Some(f.flow_id)
        } else {
            first_unroutable_flow(flows.drop_first(), node_ids)
        }
    }
}

/// The ids of the nodes.
pub open spec fn node_ids_of(nodes: Seq<ProxyNodeView>) -> Set<u128> {
    Set::new(|id: u128| exists|i: int| 0 <= i < nodes.len() && (#[trigger] nodes[i]).id == id)
}

/// The outbounds of the nodes, in order.
pub open spec fn node_outbounds(nodes: Seq<ProxyNodeView>) -> Seq<OutboundView> {
    nodes.map_values(|n: ProxyNodeView| OutboundView::Node(outbound_of(n, node_tag(n.id))))
}

/// The test inbounds of the nodes, in order, on consecutive test ports.
pub open spec fn test_inbounds(nodes: Seq<ProxyNodeView>) -> Seq<InboundView> {
    Seq::new(
        nodes.len(),
        |i: int|
            InboundView {
                kind: InboundKind::Mixed,
                tag: test_tag(nodes[i].id),
                listen: "127.0.0.1"@,
                listen_port: (NODE_TEST_PORT_BASE + i) as u16,
            },
    )
}

/// The rules that send each node's test inbound to that node.
pub open spec fn test_rules(nodes: Seq<ProxyNodeView>) -> Seq<RouteRuleView> {
    nodes.map_values(
        |n: ProxyNodeView| RouteRuleView { inbound: seq![test_tag(n.id)], outbound: node_tag(n.id) },
    )
}

/// The runtime configuration for the nodes and flows, when every port exists.
pub open spec fn sing_box_config_of(nodes: Seq<ProxyNodeView>, flows: Seq<FlowConfigView>) -> SingBoxView {
    let ids = node_ids_of(nodes);
    let (fins, fouts, frules) = flow_parts(flows, ids);
    SingBoxView {
        inbounds: seq![
            InboundView {
                kind: InboundKind::Tproxy,
                tag: "landscape-in"@,
                listen: "::"@,
                listen_port: FLOW_TPROXY_PORT_BASE as u16,
            },
        ] + test_inbounds(nodes) + fins,
        outbounds: node_outbounds(nodes) + seq![
            OutboundView::Selector {
                tag: "proxy"@,
                outbounds: nodes.map_values(|n: ProxyNodeView| node_tag(n.id)),
                default: node_tag(nodes[0].id),
            },
            OutboundView::Direct { tag: "direct"@ },
        ] + fouts,
        rules: test_rules(nodes) + frules,
        final_outbound: "proxy"@,
    }
}

/// An optional text with its surrounding whitespace removed; `None` when
/// nothing remains.
pub fn non_empty_opt(value: &Option<String>) -> (r: Option<String>)
    ensures
        opt_view(r) == non_empty_text(opt_view(*value)),
{
    match value {
        Some(v) => {
            let t = trim(v.as_str());
            if t.unicode_len() > 0 {
                Some(t)
            } else {
                None
            }
        },
        None => None,
    }
}

/// The TLS settings for the given server name, REALITY switch and keys.
pub fn tls_config(
    server_name: &Option<String>,
    reality: bool,
    reality_public_key: &Option<String>,
    reality_short_id: &Option<String>,
    utls_fingerprint: &Option<String>,
) -> (r: TlsConfig)
    ensures
        r@ == tls_of(
            opt_view(*server_name),
            reality,
            opt_view(*reality_public_key),
            opt_view(*reality_short_id),
            opt_view(*utls_fingerprint),
        ),
{
    let reality_config = if reality {
        Some(
            RealityConfig {
                public_key: non_empty_opt(reality_public_key),
                short_id: non_empty_opt(reality_short_id),
            },
        )
    } else {
        None
    };
    TlsConfig {
        server_name: non_empty_opt(server_name),
        reality: reality_config,
        utls_fingerprint: non_empty_opt(utls_fingerprint),
    }
}

/// The outbound, tagged `tag`, that reaches `node`.
pub fn build_outbound(node: &ProxyNodeConfig, tag: &str) -> (r: Result<NodeOutbound, ProxyError>)
    ensures
        r matches Ok(o) && o@ == outbound_of(node@, tag@),
{
    let none: Option<String> = None;
    let settings = match &node.protocol {
        ProxyProtocolConfig::Vless {
            uuid,
            flow,
            tls,
            server_name,
            reality,
            reality_public_key,
            reality_short_id,
            utls_fingerprint,
        } => {
            let tls_settings = if *tls || *reality {
                Some(
                    tls_config(
                        server_name,
                        *reality,
                        reality_public_key,
                        reality_short_id,
                        utls_fingerprint,
                    ),
                )
            } else {
                None
            };
            OutboundSettings::Vless {
                uuid: uuid.clone(),
                flow: non_empty_opt(flow),
                tls: tls_settings,
            }
        },
        ProxyProtocolConfig::Vmess { uuid, alter_id, security, tls, server_name } => {
            let tls_settings = if *tls {
                Some(tls_config(server_name, false, &none, &none, &none))
            } else {
                None
            };
            OutboundSettings::Vmess {
                uuid: uuid.clone(),
                alter_id: *alter_id,
                security: non_empty_opt(security),
                tls: tls_settings,
            }
        },
        ProxyProtocolConfig::Shadowsocks { method, password } => OutboundSettings::Shadowsocks {
            method: method.clone(),
            password: password.clone(),
        },
        ProxyProtocolConfig::Socks5 { username, password } => OutboundSettings::Socks {
            username: non_empty_opt(username),
            password: non_empty_opt(password),
        },
    };
    Ok(
        NodeOutbound {
            tag: string_of(tag),
            server: node.server.clone(),
            server_port: node.port,
            settings,
        },
    )
}

/// The transparent-proxy port of a flow; an error for flow ids above 255.
pub fn flow_tproxy_port(flow_id: u32) -> (r: Result<u16, ProxyError>)
    ensures
        match flow_port(flow_id) {
            Ok(p) => r == Ok::<u16, ProxyError>(p),
            Err(m) => r matches Err(ProxyError::RuntimeConfigError(e)) && e@ == m,
        },
{
    if flow_id > 255 {
        let mut m = string_of("flow id ");
        push_decimal(&mut m, flow_id as u64);
        m.append(" is too large for proxy tproxy routing");
        return Err(ProxyError::RuntimeConfigError(m));
    }
    Ok((FLOW_TPROXY_PORT_BASE + flow_id) as u16)
}

/// The test port of the node at `index` among the enabled nodes.
pub fn node_test_port(index: usize) -> (r: Result<u16, ProxyError>)
    requires
        index + NODE_TEST_PORT_BASE <= u32::MAX || index > u32::MAX,
    ensures
        match test_port(index as nat) {
            Ok(p) => r == Ok::<u16, ProxyError>(p),
            Err(m) => r matches Err(ProxyError::RuntimeConfigError(e)) && e@ == m,
        },
{
    if index as u64 > u32::MAX as u64 {
        return Err(ProxyError::RuntimeConfigError(string_of("proxy node index overflow")));
    }
    let port: u32 = NODE_TEST_PORT_BASE + index as u32;
    if port > u16::MAX as u32 {
        let mut m = string_of("proxy node index ");
        push_decimal(&mut m, index as u64);
        m.append(" maps to invalid test port");
        return Err(ProxyError::RuntimeConfigError(m));
    }
    Ok(port as u16)
}

/// The tag of a flow's inbound.
pub fn flow_inbound_tag(flow_id: u32) -> (r: String)
    ensures
        r@ == flow_tag(flow_id),
{
    let mut s = string_of("flow-");
    push_decimal(&mut s, flow_id as u64);
    s
}

/// The tag of the selector among a flow's proxy nodes.
pub fn flow_selector_tag(flow_id: u32) -> (r: String)
    ensures
        r@ == selector_tag(flow_id),
{
    let mut s = string_of("flow-proxy-");
    push_decimal(&mut s, flow_id as u64);
    s
}

/// The tag of a node's outbound.
pub fn node_outbound_tag(node_id: u128) -> (r: String)
    ensures
        r@ == node_tag(node_id),
{
    let mut s = string_of("proxy-");
    s.append(format_uuid_simple(node_id).as_str());
    s
}

/// The tag of a node's test inbound.
pub fn node_test_inbound_tag(node_id: u128) -> (r: String)
    ensures
        r@ == test_tag(node_id),
{
    let mut s = string_of("test-");
    s.append(format_uuid_simple(node_id).as_str());
    s
}

/// The tags of the proxy nodes, among `node_ids`, that the flow's targets of
/// positive weight send traffic to, in order.
pub fn proxy_tags_for_flow(flow: &FlowConfig, node_ids: &HashSet<u128>) -> (r: Vec<String>)
    ensures
        strings_view(r@) == flow_proxy_tags(flow@.flow_targets, node_ids@),
{
    let targets = &flow.flow_targets;
    let mut tags: Vec<String> = Vec::new();
    let mut i: usize = 0;
    while i < targets.len()
        invariant
            i <= targets@.len(),
            flow@.flow_targets == crate::flow::targets_view(targets@),
            strings_view(tags@) == flow_proxy_tags(
                crate::flow::targets_view(targets@).subrange(0, i as int),
                node_ids@,
            ),
        decreases targets.len() - i,
    {
        let ghost tv = crate::flow::targets_view(targets@);
        assert(tv.subrange(0, i + 1).drop_last() =~= tv.subrange(0, i as int));
        assert(tv.subrange(0, i + 1).last() == targets@[i as int]@);
        let t = &targets[i];
        match &t.target {
            FlowTarget::Proxy { node_id, .. } => {
                if t.weight > 0 && node_ids.contains(node_id) {
                    let ghost before = tags@;
                    tags.push(node_outbound_tag(*node_id));
                    assert(strings_view(tags@) =~= strings_view(before).push(tags@.last()@));
                }
            },
            _ => {},
        }
        i = i + 1;
    }
    assert(crate::flow::targets_view(targets@).subrange(0, targets@.len() as int)
        =~= crate::flow::targets_view(targets@));
    tags
}

proof fn lemma_strings_push(s: Seq<String>, x: String)
    ensures
        strings_view(s.push(x)) == strings_view(s).push(x@),
{
    assert(strings_view(s.push(x)) =~= strings_view(s).push(x@));
}

proof fn lemma_outbounds_push(s: Seq<Outbound>, x: Outbound)
    ensures
        outbounds_view(s.push(x)) == outbounds_view(s).push(x@),
{
    assert(outbounds_view(s.push(x)) =~= outbounds_view(s).push(x@));
}

proof fn lemma_inbounds_push(s: Seq<Inbound>, x: Inbound)
    ensures
        inbounds_view(s.push(x)) == inbounds_view(s).push(x@),
{
    assert(inbounds_view(s.push(x)) =~= inbounds_view(s).push(x@));
}

proof fn lemma_rules_push(s: Seq<RouteRule>, x: RouteRule)
    ensures
        rules_view(s.push(x)) == rules_view(s).push(x@),
{
    assert(rules_view(s.push(x)) =~= rules_view(s).push(x@));
}

proof fn lemma_subrange_push<A>(s: Seq<A>, i: int)
    requires
        0 <= i < s.len(),
    ensures
        s.subrange(0, i + 1) == s.subrange(0, i).push(s[i]),
{
    assert(s.subrange(0, i + 1) =~= s.subrange(0, i).push(s[i]));
}

/// A copy of a list of strings.
pub fn clone_strings(v: &Vec<String>) -> (r: Vec<String>)
    ensures
        strings_view(r@) == strings_view(v@),
{
    let mut r: Vec<String> = Vec::new();
    let mut i: usize = 0;
    while i < v.len()
        invariant
            i <= v@.len(),
            strings_view(r@) == strings_view(v@).subrange(0, i as int),
        decreases v.len() - i,
    {
        let ghost before = r@;
        let x = v[i].clone();
        r.push(x);
        proof {
            lemma_strings_push(before, x);
            lemma_subrange_push(strings_view(v@), i as int);
        }
        i = i + 1;
    }
    assert(strings_view(v@).subrange(0, v@.len() as int) =~= strings_view(v@));
    r
}

/// The first unroutable flow of a sequence is the first of its head and its tail.
proof fn lemma_unroutable_step(fv: Seq<FlowConfigView>, ids: Set<u128>, i: int)
    requires
        0 <= i < fv.len(),
    ensures
        ({
            let rest = fv.subrange(i, fv.len() as int);
            let f = fv[i];
            first_unroutable_flow(rest, ids) == if f.enable && flow_proxy_tags(f.flow_targets, ids).len() > 0
                && f.flow_id > 255 {
                Some(f.flow_id)
            } else {
                first_unroutable_flow(fv.subrange(i + 1, fv.len() as int), ids)
            }
        }),
{
    let rest = fv.subrange(i, fv.len() as int);
    assert(rest.drop_first() =~= fv.subrange(i + 1, fv.len() as int));
    assert(rest[0] == fv[i]);
}

/// The runtime configuration for the enabled `nodes` (sorted) and the `flows`.
pub fn build_sing_box_config(nodes: &[ProxyNodeConfig], flows: &[FlowConfig]) -> (r: Result<
    SingBoxConfig,
    ProxyError,
>)
    requires
        nodes@.len() > 0,
    ensures
        ({
            let nv = nodes_view(nodes@);
            let fv = configs_view(flows@);
            if nodes@.len() > 53436 {
                r matches Err(ProxyError::RuntimeConfigError(e)) && e@ == test_port_error_text(53436)
            } else {
                match first_unroutable_flow(fv, node_ids_of(nv)) {
                    Some(fid) => r matches Err(ProxyError::RuntimeConfigError(e)) && e@
                        == flow_port_error_text(fid),
                    None => r matches Ok(c) && c@ == sing_box_config_of(nv, fv),
                }
            }
        }),
{
    let ghost nv = nodes_view(nodes@);
    let ghost fv = configs_view(flows@);
    let n = nodes.len();

    // The ids of the nodes.
    let mut ids: HashSet<u128> = HashSet::new();
    let mut i: usize = 0;
    while i < n
        invariant
            n == nodes@.len(),
            nv == nodes_view(nodes@),
            i <= n,
            ids@ == node_ids_of(nv.subrange(0, i as int)),
        decreases n - i,
    {
        let ghost before = ids@;
        ids.insert(nodes[i].id);
        proof {
            let next = nv.subrange(0, i + 1);
            let prev = nv.subrange(0, i as int);
            assert forall|id: u128| #[trigger] ids@.contains(id) == node_ids_of(next).contains(id) by {
                if node_ids_of(next).contains(id) {
                    let k = choose|k: int| 0 <= k < next.len() && (#[trigger] next[k]).id == id;
                    if k < i {
                        assert(prev[k] == next[k]);
                    }
                }
                if before.contains(id) {
                    let k = choose|k: int| 0 <= k < prev.len() && (#[trigger] prev[k]).id == id;
                    assert(next[k] == prev[k]);
                }
                if ids@.contains(id) && !before.contains(id) {
                    assert(next[i as int] == nv[i as int]);
                }
            }
            assert(ids@ =~= node_ids_of(next));
        }
        i = i + 1;
    }
    assert(nv.subrange(0, n as int) =~= nv);
    let ghost node_ids = ids@;

    // One outbound per node, then the selector among all nodes and the direct outbound.
    let mut outbounds: Vec<Outbound> = Vec::new();
    let mut proxy_tags: Vec<String> = Vec::new();
    let mut i: usize = 0;
    while i < n
        invariant
            n == nodes@.len(),
            nv == nodes_view(nodes@),
            i <= n,
            outbounds_view(outbounds@) == node_outbounds(nv).subrange(0, i as int),
            strings_view(proxy_tags@) == nv.map_values(|x: ProxyNodeView| node_tag(x.id)).subrange(
                0,
                i as int,
            ),
        decreases n - i,
    {
        let tag = node_outbound_tag(nodes[i].id);
        let outbound = match build_outbound(&nodes[i], tag.as_str()) {
            Ok(o) => o,
            Err(e) => return Err(e),
        };
        let ghost outs_before = outbounds@;
        let ghost tags_before = proxy_tags@;
        let ob = Outbound::Node(outbound);
        proof {
            assert(nv[i as int] == nodes@[i as int]@);
            assert(ob@ == node_outbounds(nv)[i as int]);
            assert(tag@ == nv.map_values(|x: ProxyNodeView| node_tag(x.id))[i as int]);
            lemma_outbounds_push(outs_before, ob);
            lemma_strings_push(tags_before, tag);
            lemma_subrange_push(node_outbounds(nv), i as int);
            lemma_subrange_push(nv.map_values(|x: ProxyNodeView| node_tag(x.id)), i as int);
        }
        outbounds.push(ob);
        proxy_tags.push(tag);
        i = i + 1;
    }
    assert(node_outbounds(nv).subrange(0, n as int) =~= node_outbounds(nv));
    assert(nv.map_values(|x: ProxyNodeView| node_tag(x.id)).subrange(0, n as int) =~= nv.map_values(
        |x: ProxyNodeView| node_tag(x.id),
    ));
    let default_tag = node_outbound_tag(nodes[0].id);
    outbounds.push(
        Outbound::Selector {
            tag: string_of("proxy"),
            outbounds: clone_strings(&proxy_tags),
            default: default_tag,
        },
    );
    outbounds.push(Outbound::Direct { tag: string_of("direct") });
    let ghost head_outbounds = node_outbounds(nv) + seq![
        OutboundView::Selector {
            tag: "proxy"@,
            outbounds: nv.map_values(|x: ProxyNodeView| node_tag(x.id)),
            default: node_tag(nv[0].id),
        },
        OutboundView::Direct { tag: "direct"@ },
    ];
    assert(outbounds_view(outbounds@) =~= head_outbounds);

    // The shared inbound, then a test inbound and a rule per node.
    let mut inbounds: Vec<Inbound> = Vec::new();
    let mut rules: Vec<RouteRule> = Vec::new();
    inbounds.push(
        Inbound {
            kind: InboundKind::Tproxy,
            tag: string_of("landscape-in"),
            listen: string_of("::"),
            listen_port: FLOW_TPROXY_PORT_BASE as u16,
        },
    );
    let ghost first_in = seq![
        InboundView {
            kind: InboundKind::Tproxy,
            tag: "landscape-in"@,
            listen: "::"@,
            listen_port: FLOW_TPROXY_PORT_BASE as u16,
        },
    ];
    assert(inbounds_view(inbounds@) =~= first_in);
    let mut i: usize = 0;
    while i < n
        invariant
            n == nodes@.len(),
            nv == nodes_view(nodes@),
            i <= n,
            i <= 53436,
            inbounds_view(inbounds@) == first_in + test_inbounds(nv).subrange(0, i as int),
            rules_view(rules@) == test_rules(nv).subrange(0, i as int),
        decreases n - i,
    {
        let port = match node_test_port(i) {
            Ok(p) => p,
            Err(e) => {
                return Err(e);
            },
        };
        let inbound_tag = node_test_inbound_tag(nodes[i].id);
        let mut rule_inbounds: Vec<String> = Vec::new();
        rule_inbounds.push(inbound_tag.clone());
        let inb = Inbound {
            kind: InboundKind::Mixed,
            tag: inbound_tag,
            listen: string_of("127.0.0.1"),
            listen_port: port,
        };
        let rule = RouteRule { inbound: rule_inbounds, outbound: node_outbound_tag(nodes[i].id) };
        let ghost in_before = inbounds@;
        let ghost rules_before = rules@;
        proof {
            assert(nv[i as int] == nodes@[i as int]@);
            assert(strings_view(rule_inbounds@) =~= seq![test_tag(nv[i as int].id)]);
            assert(inb@ == test_inbounds(nv)[i as int]);
            assert(rule@ == test_rules(nv)[i as int]);
            lemma_inbounds_push(in_before, inb);
            lemma_rules_push(rules_before, rule);
            lemma_subrange_push(test_inbounds(nv), i as int);
            lemma_subrange_push(test_rules(nv), i as int);
            assert(first_in + test_inbounds(nv).subrange(0, i + 1) =~= (first_in
                + test_inbounds(nv).subrange(0, i as int)).push(test_inbounds(nv)[i as int]));
        }
        inbounds.push(inb);
        rules.push(rule);
        if i == 53436 {
            assert(false);
        }
        i = i + 1;
    }
    assert(test_inbounds(nv).subrange(0, n as int) =~= test_inbounds(nv));
    assert(test_rules(nv).subrange(0, n as int) =~= test_rules(nv));

    // A transparent-proxy inbound and a rule per enabled flow with proxy nodes.
    let ghost head_in = inbounds_view(inbounds@);
    let ghost head_rules = rules_view(rules@);
    let m = flows.len();
    let mut j: usize = 0;
    assert(fv.subrange(0, m as int) =~= fv);
    while j < m
        invariant
            m == flows@.len(),
            fv == configs_view(flows@),
            node_ids == node_ids_of(nv),
            ids@ == node_ids,
            n == nodes@.len(),
            n <= 53436,
            nv == nodes_view(nodes@),
            j <= m,
            ({
                let (fins, fouts, frules) = flow_parts(fv.subrange(0, j as int), node_ids);
                &&& inbounds_view(inbounds@) == head_in + fins
                &&& outbounds_view(outbounds@) == head_outbounds + fouts
                &&& rules_view(rules@) == head_rules + frules
            }),
            first_unroutable_flow(fv, node_ids) == first_unroutable_flow(
                fv.subrange(j as int, m as int),
                node_ids,
            ),
        decreases m - j,
    {
        proof {
            lemma_unroutable_step(fv, node_ids, j as int);
            assert(fv.subrange(0, j + 1).drop_last() =~= fv.subrange(0, j as int));
            assert(fv.subrange(0, j + 1).last() == flows@[j as int]@);
        }
        let flow = &flows[j];
        assert(fv[j as int] == flow@);
        if flow.enable {
            let flow_tags = proxy_tags_for_flow(flow, &ids);
            if flow_tags.len() > 0 {
                let listen_port = match flow_tproxy_port(flow.flow_id) {
                    Ok(p) => p,
                    Err(e) => {
                        return Err(e);
                    },
                };
                let inbound_tag = flow_inbound_tag(flow.flow_id);
                let mut rule_inbounds: Vec<String> = Vec::new();
                rule_inbounds.push(inbound_tag.clone());
                assert(strings_view(rule_inbounds@) =~= seq![flow_tag(flow.flow_id)]);
                let ghost in_before = inbounds_view(inbounds@);
                inbounds.push(
                    Inbound {
                        kind: InboundKind::Tproxy,
                        tag: inbound_tag,
                        listen: string_of("::"),
                        listen_port,
                    },
                );
                assert(inbounds_view(inbounds@) =~= in_before.push(inbounds@.last()@));
                let ghost rules_before = rules_view(rules@);
                let ghost outs_before = outbounds_view(outbounds@);
                if flow_tags.len() == 1 {
                    let target = flow_tags[0].clone();
                    rules.push(RouteRule { inbound: rule_inbounds, outbound: target });
                    assert(rules_view(rules@) =~= rules_before.push(rules@.last()@));
                } else {
                    let selector = flow_selector_tag(flow.flow_id);
                    let default = flow_tags[0].clone();
                    outbounds.push(
                        Outbound::Selector {
                            tag: selector.clone(),
                            outbounds: flow_tags,
                            default,
                        },
                    );
                    assert(outbounds_view(outbounds@) =~= outs_before.push(outbounds@.last()@));
                    rules.push(RouteRule { inbound: rule_inbounds, outbound: selector });
                    assert(rules_view(rules@) =~= rules_before.push(rules@.last()@));
                }
            }
        }
        j = j + 1;
    }
    proof {
        assert(fv.subrange(m as int, m as int) =~= Seq::<FlowConfigView>::empty());
    }
    let config = SingBoxConfig {
        inbounds,
        outbounds,
        rules,
        final_outbound: string_of("proxy"),
    };
    proof {
        let (fins, fouts, frules) = flow_parts(fv, node_ids);
        assert(inbounds_view(config.inbounds@) =~= first_in + test_inbounds(nv) + fins);
        assert(outbounds_view(config.outbounds@) =~= head_outbounds + fouts);
        assert(rules_view(config.rules@) =~= test_rules(nv) + frules);
    }
    Ok(config)
}

/// Distinct flows listen on distinct transparent-proxy ports, and distinct
/// nodes are tested on distinct ports; the ports of flows below 100 are
/// never a node's test port.
pub proof fn lemma_ports_distinct(a: u32, b: u32, i: nat, j: nat)
    ensures
        a != b && flow_port(a) is Ok && flow_port(b) is Ok ==> flow_port(a) != flow_port(b),
        i != j && test_port(i) is Ok && test_port(j) is Ok ==> test_port(i) != test_port(j),
        a < 100 && flow_port(a) is Ok && test_port(i) is Ok ==> flow_port(a)->Ok_0 != test_port(i)->Ok_0,
{
}

/// The tags of the configuration name their owners apart: distinct nodes
/// have distinct outbound and test tags, distinct flows distinct inbound and
/// selector tags, and no node's tag is the default selector's or the direct
/// outbound's.
pub proof fn lemma_tags_distinct(a: u128, b: u128, f: u32, g: u32)
    ensures
        a != b ==> node_tag(a) != node_tag(b) && test_tag(a) != test_tag(b),
        f != g ==> flow_tag(f) != flow_tag(g) && selector_tag(f) != selector_tag(g),
        node_tag(a) != "proxy"@ && node_tag(a) != "direct"@,
{
    crate::text::lemma_pow16_32();
    crate::text::lemma_hex_text_value(a as nat, 32);
    crate::text::lemma_hex_text_value(b as nat, 32);
    crate::text::lemma_hex_text_shape(a as nat, 32);
    crate::text::lemma_dec_text_value(f as nat);
    crate::text::lemma_dec_text_value(g as nat);
    reveal_strlit("proxy-");
    reveal_strlit("test-");
    reveal_strlit("flow-");
    reveal_strlit("flow-proxy-");
    reveal_strlit("proxy");
    reveal_strlit("direct");
    if a != b {
        assert(node_tag(a).skip(6) =~= uuid_simple_text(a));
        assert(node_tag(b).skip(6) =~= uuid_simple_text(b));
        assert(test_tag(a).skip(5) =~= uuid_simple_text(a));
        assert(test_tag(b).skip(5) =~= uuid_simple_text(b));
    }
    if f != g {
        assert(flow_tag(f).skip(5) =~= dec_text(f as nat));
        assert(flow_tag(g).skip(5) =~= dec_text(g as nat));
        assert(selector_tag(f).skip(11) =~= dec_text(f as nat));
        assert(selector_tag(g).skip(11) =~= dec_text(g as nat));
    }
    assert(node_tag(a).len() == 38);
}

/// The outbound of a node is the node's own settings, field by field: its
/// tag is the given tag, its server and port are the node's, and each
/// protocol setting comes from the node's setting of the same name, text
/// settings trimmed (absent where the node's is absent or blank). TLS is on
/// exactly where the node asks for it (for VLESS also where it asks for
/// REALITY), and then carries the node's server name, and for VLESS its
/// REALITY keys and uTLS fingerprint; VMess TLS never has REALITY or uTLS.
pub proof fn lemma_outbound_follows_node(n: ProxyNodeView, tag: Seq<char>)
    ensures
        outbound_of(n, tag).tag == tag,
        outbound_of(n, tag).server == n.server,
        outbound_of(n, tag).server_port == n.port,
        forall|o: Option<Seq<char>>| #[trigger] non_empty_text(o) == match o {
            Some(s) => if trim_text(s).len() > 0 { Some(trim_text(s)) } else { None::<Seq<char>> },
            None => None::<Seq<char>>,
        },
        match n.protocol {
            ProxyProtocolView::Vless {
                uuid,
                flow,
                tls,
                server_name,
                reality,
                reality_public_key,
                reality_short_id,
                utls_fingerprint,
            } => {
                &&& outbound_of(n, tag).settings is Vless
                &&& outbound_of(n, tag).settings->Vless_uuid == uuid
                &&& outbound_of(n, tag).settings->Vless_flow == non_empty_text(flow)
                &&& (outbound_of(n, tag).settings->Vless_tls is Some) == (tls || reality)
                &&& (outbound_of(n, tag).settings->Vless_tls matches Some(tv) ==> {
                    &&& tv.server_name == non_empty_text(server_name)
                    &&& tv.utls_fingerprint == non_empty_text(utls_fingerprint)
                    &&& (tv.reality is Some) == reality
                    &&& (tv.reality matches Some(rv) ==> rv.public_key == non_empty_text(
                        reality_public_key,
                    ) && rv.short_id == non_empty_text(reality_short_id))
                })
            },
            ProxyProtocolView::Vmess { uuid, alter_id, security, tls, server_name } => {
                &&& outbound_of(n, tag).settings is Vmess
                &&& outbound_of(n, tag).settings->Vmess_uuid == uuid
                &&& outbound_of(n, tag).settings->alter_id == alter_id
                &&& outbound_of(n, tag).settings->security == non_empty_text(security)
                &&& (outbound_of(n, tag).settings->Vmess_tls is Some) == tls
                &&& (outbound_of(n, tag).settings->Vmess_tls matches Some(tv) ==> {
                    &&& tv.server_name == non_empty_text(server_name)
                    &&& tv.reality is None
                    &&& tv.utls_fingerprint is None
                })
            },
            ProxyProtocolView::Shadowsocks { method, password } => {
                &&& outbound_of(n, tag).settings is Shadowsocks
                &&& outbound_of(n, tag).settings->method == method
                &&& outbound_of(n, tag).settings->Shadowsocks_password == password
            },
            ProxyProtocolView::Socks5 { username, password } => {
                &&& outbound_of(n, tag).settings is Socks
                &&& outbound_of(n, tag).settings->username == non_empty_text(username)
                &&& outbound_of(n, tag).settings->Socks_password == non_empty_text(password)
            },
        },
{
}

/// Whether the weighted target sends traffic to the proxy node `id`, one of
/// the nodes `ids`.
pub open spec fn routes_to_node(w: WeightedFlowTargetView, ids: Set<u128>, id: u128) -> bool {
    &&& w.weight > 0
    &&& ids.contains(id)
    &&& w.target matches FlowTargetView::Proxy { node_id, .. } && node_id == id
}

/// A flow reaches a node's outbound exactly when one of its targets with a
/// positive weight is that node, one of the configured nodes.
pub proof fn lemma_flow_proxy_tags_members(targets: Seq<WeightedFlowTargetView>, ids: Set<u128>)
    ensures
        forall|t: Seq<char>|
            #[trigger] flow_proxy_tags(targets, ids).contains(t) <==> exists|j: int, id: u128|
                0 <= j < targets.len() && #[trigger] routes_to_node(targets[j], ids, id) && t
                    == node_tag(id),
    decreases targets.len(),
{
    if targets.len() > 0 {
        let rest = targets.drop_last();
        lemma_flow_proxy_tags_members(rest, ids);
        let tags = flow_proxy_tags(targets, ids);
        let before = flow_proxy_tags(rest, ids);
        let last = targets.last();
        assert forall|t: Seq<char>| #[trigger] tags.contains(t) <==> exists|j: int, id: u128|
            0 <= j < targets.len() && #[trigger] routes_to_node(targets[j], ids, id) && t
                == node_tag(id) by {
            if tags.contains(t) {
                if before.contains(t) {
                    let (j, id) = choose|j: int, id: u128|
                        0 <= j < rest.len() && #[trigger] routes_to_node(rest[j], ids, id) && t
                            == node_tag(id);
                    assert(targets[j] == rest[j]);
                } else {
                    let k = choose|k: int| 0 <= k < tags.len() && tags[k] == t;
                    if let FlowTargetView::Proxy { node_id, .. } = last.target {
                        assert(k == before.len());
                        assert(routes_to_node(targets[targets.len() - 1], ids, node_id));
                    } else {
                        assert(tags == before);
                    }
                }
            }
            if exists|j: int, id: u128|
                0 <= j < targets.len() && #[trigger] routes_to_node(targets[j], ids, id) && t
                    == node_tag(id) {
                let (j, id) = choose|j: int, id: u128|
                    0 <= j < targets.len() && #[trigger] routes_to_node(targets[j], ids, id) && t
                        == node_tag(id);
                if j < rest.len() {
                    assert(rest[j] == targets[j]);
                    assert(routes_to_node(rest[j], ids, id));
                    assert(before.contains(t));
                    let k = choose|k: int| 0 <= k < before.len() && before[k] == t;
                    assert(tags[k] == t);
                } else {
                    assert(tags[tags.len() - 1] == t);
                }
            }
        }
    }
}

/// Every enabled flow that reaches at least one proxy node gets a
/// transparent-proxy inbound of its own, listening on all addresses at the
/// base port plus its flow id, and a rule that sends that inbound to its one
/// node, or, where it reaches several, to a selector of its own among them
/// whose default is the first it reaches. The flows add at most one
/// inbound each, and one rule per inbound: exactly one inbound each when
/// every flow is enabled and reaches a node.
pub proof fn lemma_flow_parts_route_flow(flows: Seq<FlowConfigView>, ids: Set<u128>, k: int)
    requires
        0 <= k < flows.len(),
    ensures
        ({
            let (ins, outs, rules) = flow_parts(flows, ids);
            let f = flows[k];
            let tags = flow_proxy_tags(f.flow_targets, ids);
            &&& f.enable && tags.len() > 0 ==> ins.contains(
                InboundView {
                    kind: InboundKind::Tproxy,
                    tag: flow_tag(f.flow_id),
                    listen: "::"@,
                    listen_port: (FLOW_TPROXY_PORT_BASE + f.flow_id) as u16,
                },
            )
            &&& f.enable && tags.len() == 1 ==> rules.contains(
                RouteRuleView { inbound: seq![flow_tag(f.flow_id)], outbound: tags[0] },
            )
            &&& f.enable && tags.len() > 1 ==> rules.contains(
                RouteRuleView { inbound: seq![flow_tag(f.flow_id)], outbound: selector_tag(f.flow_id) },
            ) && outs.contains(
                OutboundView::Selector { tag: selector_tag(f.flow_id), outbounds: tags, default: tags[0] },
            )
        }),
        ({
            let (ins, outs, rules) = flow_parts(flows, ids);
            &&& ins.len() <= flows.len()
            &&& rules.len() == ins.len()
        }),
        (forall|j: int|
            0 <= j < flows.len() ==> (#[trigger] flows[j]).enable && flow_proxy_tags(
                flows[j].flow_targets,
                ids,
            ).len() > 0) ==> flow_parts(flows, ids).0.len() == flows.len(),
    decreases flows.len(),
{
    let rest = flows.drop_last();
    let (ins, outs, rules) = flow_parts(flows, ids);
    let (bins, bouts, brules) = flow_parts(rest, ids);
    let last = flows.last();
    let ltags = flow_proxy_tags(last.flow_targets, ids);
    if k < flows.len() - 1 {
        lemma_flow_parts_route_flow(rest, ids, k);
        assert(rest[k] == flows[k]);
        assert forall|j: int| 0 <= j < rest.len() implies #[trigger] rest[j] == flows[j] by {}
        let f = flows[k];
        let tags = flow_proxy_tags(f.flow_targets, ids);
        if f.enable && tags.len() > 0 {
            let x = InboundView {
                kind: InboundKind::Tproxy,
                tag: flow_tag(f.flow_id),
                listen: "::"@,
                listen_port: (FLOW_TPROXY_PORT_BASE + f.flow_id) as u16,
            };
            let a = choose|a: int| 0 <= a < bins.len() && bins[a] == x;
            assert(ins[a] == x);
        }
        if f.enable && tags.len() == 1 {
            let x = RouteRuleView { inbound: seq![flow_tag(f.flow_id)], outbound: tags[0] };
            let a = choose|a: int| 0 <= a < brules.len() && brules[a] == x;
            assert(rules[a] == x);
        }
        if f.enable && tags.len() > 1 {
            let x = RouteRuleView { inbound: seq![flow_tag(f.flow_id)], outbound: selector_tag(f.flow_id) };
            let a = choose|a: int| 0 <= a < brules.len() && brules[a] == x;
            assert(rules[a] == x);
            let y = OutboundView::Selector { tag: selector_tag(f.flow_id), outbounds: tags, default: tags[0] };
            let b = choose|b: int| 0 <= b < bouts.len() && bouts[b] == y;
            assert(outs[b] == y);
        }
    } else {
        if flows.len() > 1 {
            lemma_flow_parts_route_flow(rest, ids, 0);
            assert forall|j: int| 0 <= j < rest.len() implies #[trigger] rest[j] == flows[j] by {}
        }
        if last.enable && ltags.len() > 0 {
            assert(ins[ins.len() - 1] == InboundView {
                kind: InboundKind::Tproxy,
                tag: flow_tag(last.flow_id),
                listen: "::"@,
                listen_port: (FLOW_TPROXY_PORT_BASE + last.flow_id) as u16,
            });
            assert(rules[rules.len() - 1] == rules.last());
            if ltags.len() > 1 {
                assert(outs[outs.len() - 1] == outs.last());
            }
        }
    }
}

/// The runtime configuration, node by node and flow by flow: it listens for
/// transparently proxied traffic on the base port, tests the node at
/// position `i` through a local mixed inbound on the test port base plus
/// `i`, routed to that node's outbound, which is built from that node; the
/// default selector offers every node in order, the first by default, and
/// is where unmatched traffic goes; and every enabled flow that reaches a
/// node is routed as its flow parts say.
pub proof fn lemma_config_routes(nodes: Seq<ProxyNodeView>, flows: Seq<FlowConfigView>, i: int)
    requires
        0 <= i < nodes.len(),
    ensures
        ({
            let c = sing_box_config_of(nodes, flows);
            let n = nodes[i];
            let ids = node_ids_of(nodes);
            &&& c.inbounds[0] == (InboundView {
                kind: InboundKind::Tproxy,
                tag: "landscape-in"@,
                listen: "::"@,
                listen_port: FLOW_TPROXY_PORT_BASE as u16,
            })
            &&& c.inbounds[1 + i] == (InboundView {
                kind: InboundKind::Mixed,
                tag: test_tag(n.id),
                listen: "127.0.0.1"@,
                listen_port: (NODE_TEST_PORT_BASE + i) as u16,
            })
            &&& c.outbounds[i] == OutboundView::Node(outbound_of(n, node_tag(n.id)))
            &&& c.rules[i] == (RouteRuleView { inbound: seq![test_tag(n.id)], outbound: node_tag(n.id) })
            &&& c.outbounds[nodes.len() as int] == (OutboundView::Selector {
                tag: "proxy"@,
                outbounds: nodes.map_values(|m: ProxyNodeView| node_tag(m.id)),
                default: node_tag(nodes[0].id),
            })
            &&& c.outbounds[nodes.len() as int + 1] == (OutboundView::Direct { tag: "direct"@ })
            &&& c.final_outbound == "proxy"@
            &&& ids.contains(n.id)
            &&& forall|k: int|
                0 <= k < flows.len() && (#[trigger] flows[k]).enable && flow_proxy_tags(
                    flows[k].flow_targets,
                    ids,
                ).len() > 0 ==> c.inbounds.contains(
                    InboundView {
                        kind: InboundKind::Tproxy,
                        tag: flow_tag(flows[k].flow_id),
                        listen: "::"@,
                        listen_port: (FLOW_TPROXY_PORT_BASE + flows[k].flow_id) as u16,
                    },
                )
            &&& forall|k: int|
                0 <= k < flows.len() && (#[trigger] flows[k]).enable && flow_proxy_tags(
                    flows[k].flow_targets,
                    ids,
                ).len() == 1 ==> c.rules.contains(
                    RouteRuleView {
                        inbound: seq![flow_tag(flows[k].flow_id)],
                        outbound: flow_proxy_tags(flows[k].flow_targets, ids)[0],
                    },
                )
            &&& forall|k: int|
                0 <= k < flows.len() && (#[trigger] flows[k]).enable && flow_proxy_tags(
                    flows[k].flow_targets,
                    ids,
                ).len() > 1 ==> c.rules.contains(
                    RouteRuleView {
                        inbound: seq![flow_tag(flows[k].flow_id)],
                        outbound: selector_tag(flows[k].flow_id),
                    },
                ) && c.outbounds.contains(
                    OutboundView::Selector {
                        tag: selector_tag(flows[k].flow_id),
                        outbounds: flow_proxy_tags(flows[k].flow_targets, ids),
                        default: flow_proxy_tags(flows[k].flow_targets, ids)[0],
                    },
                )
        }),
{
    let c = sing_box_config_of(nodes, flows);
    let ids = node_ids_of(nodes);
    let (fins, fouts, frules) = flow_parts(flows, ids);
    let head_in = seq![
        InboundView {
            kind: InboundKind::Tproxy,
            tag: "landscape-in"@,
            listen: "::"@,
            listen_port: FLOW_TPROXY_PORT_BASE as u16,
        },
    ];
    let ti = test_inbounds(nodes);
    let no = node_outbounds(nodes);
    let mid = seq![
        OutboundView::Selector {
            tag: "proxy"@,
            outbounds: nodes.map_values(|m: ProxyNodeView| node_tag(m.id)),
            default: node_tag(nodes[0].id),
        },
        OutboundView::Direct { tag: "direct"@ },
    ];
    let tr = test_rules(nodes);
    assert(c.inbounds == head_in + ti + fins);
    assert(c.outbounds == no + mid + fouts);
    assert(c.rules == tr + frules);
    assert(c.inbounds[1 + i] == ti[i]);
    assert(c.outbounds[i] == no[i]);
    assert(c.outbounds[nodes.len() as int] == mid[0]);
    assert(c.outbounds[nodes.len() as int + 1] == mid[1]);
    assert(c.rules[i] == tr[i]);
    assert(ids.contains(nodes[i].id));
    let pre_in = head_in + ti;
    let pre_out = no + mid;
    assert forall|k: int|
        0 <= k < flows.len() && (#[trigger] flows[k]).enable && flow_proxy_tags(
            flows[k].flow_targets,
            ids,
        ).len() > 0 implies c.inbounds.contains(
        InboundView {
            kind: InboundKind::Tproxy,
            tag: flow_tag(flows[k].flow_id),
            listen: "::"@,
            listen_port: (FLOW_TPROXY_PORT_BASE + flows[k].flow_id) as u16,
        },
    ) by {
        lemma_flow_parts_route_flow(flows, ids, k);
        let x = InboundView {
            kind: InboundKind::Tproxy,
            tag: flow_tag(flows[k].flow_id),
            listen: "::"@,
            listen_port: (FLOW_TPROXY_PORT_BASE + flows[k].flow_id) as u16,
        };
        let a = choose|a: int| 0 <= a < fins.len() && fins[a] == x;
        assert(c.inbounds[pre_in.len() + a] == x);
    }
    assert forall|k: int|
        0 <= k < flows.len() && (#[trigger] flows[k]).enable && flow_proxy_tags(
            flows[k].flow_targets,
            ids,
        ).len() == 1 implies c.rules.contains(
        RouteRuleView {
            inbound: seq![flow_tag(flows[k].flow_id)],
            outbound: flow_proxy_tags(flows[k].flow_targets, ids)[0],
        },
    ) by {
        lemma_flow_parts_route_flow(flows, ids, k);
        let x = RouteRuleView {
            inbound: seq![flow_tag(flows[k].flow_id)],
            outbound: flow_proxy_tags(flows[k].flow_targets, ids)[0],
        };
        let a = choose|a: int| 0 <= a < frules.len() && frules[a] == x;
        assert(c.rules[tr.len() + a] == x);
    }
    assert forall|k: int|
        0 <= k < flows.len() && (#[trigger] flows[k]).enable && flow_proxy_tags(
            flows[k].flow_targets,
            ids,
        ).len() > 1 implies c.rules.contains(
        RouteRuleView {
            inbound: seq![flow_tag(flows[k].flow_id)],
            outbound: selector_tag(flows[k].flow_id),
        },
    ) && c.outbounds.contains(
        OutboundView::Selector {
            tag: selector_tag(flows[k].flow_id),
            outbounds: flow_proxy_tags(flows[k].flow_targets, ids),
            default: flow_proxy_tags(flows[k].flow_targets, ids)[0],
        },
    ) by {
        lemma_flow_parts_route_flow(flows, ids, k);
        let x = RouteRuleView {
            inbound: seq![flow_tag(flows[k].flow_id)],
            outbound: selector_tag(flows[k].flow_id),
        };
        let a = choose|a: int| 0 <= a < frules.len() && frules[a] == x;
        assert(c.rules[tr.len() + a] == x);
        let y = OutboundView::Selector {
            tag: selector_tag(flows[k].flow_id),
            outbounds: flow_proxy_tags(flows[k].flow_targets, ids),
            default: flow_proxy_tags(flows[k].flow_targets, ids)[0],
        };
        let b = choose|b: int| 0 <= b < fouts.len() && fouts[b] == y;
        assert(c.outbounds[pre_out.len() + b] == y);
    }
}

/// The tag of an outbound.
pub open spec fn outbound_tag_of(o: OutboundView) -> Seq<char> {
    match o {
        OutboundView::Node(n) => n.tag,
        OutboundView::Selector { tag, .. } => tag,
        OutboundView::Direct { tag } => tag,
    }
}

/// Whether the configuration has an outbound tagged `tag`.
pub open spec fn has_outbound_tag(c: SingBoxView, tag: Seq<char>) -> bool {
    exists|j: int| 0 <= j < c.outbounds.len() && outbound_tag_of(#[trigger] c.outbounds[j]) == tag
}

/// Whether the rule `r` is the one that flow `k` adds: the flow is enabled
/// and reaches a node, and the rule sends its inbound to that one node or
/// to its selector.
spec fn rule_of_flow(flows: Seq<FlowConfigView>, ids: Set<u128>, r: RouteRuleView, k: int) -> bool {
    let tags = flow_proxy_tags(flows[k].flow_targets, ids);
    &&& 0 <= k < flows.len()
    &&& flows[k].enable
    &&& tags.len() > 0
    &&& (tags.len() == 1 ==> r.outbound == tags[0])
    &&& (tags.len() > 1 ==> r.outbound == selector_tag(flows[k].flow_id))
}

/// A flow that adds the rule `r`, where one does.
spec fn flow_of_rule(flows: Seq<FlowConfigView>, ids: Set<u128>, r: RouteRuleView) -> int {
    choose|k: int| rule_of_flow(flows, ids, r, k)
}

/// Whether every rule among `rules` is one that one of the flows adds.
spec fn rules_of_flows(flows: Seq<FlowConfigView>, ids: Set<u128>, rules: Seq<RouteRuleView>) -> bool {
    forall|a: int|
        0 <= a < rules.len() ==> #[trigger] rule_of_flow(flows, ids, rules[a], flow_of_rule(flows, ids, rules[a]))
}

/// Every rule that the flows add comes from one of them.
proof fn lemma_flow_rules_from_flows(flows: Seq<FlowConfigView>, ids: Set<u128>)
    ensures
        rules_of_flows(flows, ids, flow_parts(flows, ids).2),
    decreases flows.len(),
{
    if flows.len() > 0 {
        let rest = flows.drop_last();
        lemma_flow_rules_from_flows(rest, ids);
        let brules = flow_parts(rest, ids).2;
        let rules = flow_parts(flows, ids).2;
        assert forall|j: int| 0 <= j < rest.len() implies #[trigger] rest[j] == flows[j] by {}
        assert(rules_of_flows(rest, ids, brules));
        assert forall|a: int| 0 <= a < rules.len() implies #[trigger] rule_of_flow(flows, ids, rules[a], flow_of_rule(flows, ids, rules[a])) by {
            if a < brules.len() {
                assert(rules[a] == brules[a]);
                let k = flow_of_rule(rest, ids, brules[a]);
                assert(rule_of_flow(rest, ids, brules[a], k));
                assert(rest[k] == flows[k]);
                assert(rule_of_flow(flows, ids, rules[a], k));
            } else {
                let k = flows.len() - 1;
                let f = flows.last();
                let tags = flow_proxy_tags(f.flow_targets, ids);
                assert(flows[k] == f);
                assert(f.enable && tags.len() > 0);
                assert(rules[a] == rules.last());
                assert(rule_of_flow(flows, ids, rules[a], k));
            }
        }
        assert(rules_of_flows(flows, ids, rules));
    } else {
        assert(flow_parts(flows, ids).2.len() == 0);
    }
}

/// Every route of the runtime configuration leads somewhere: each rule, and
/// the route for unmatched traffic, names an outbound of the configuration.
pub proof fn lemma_config_rules_reach_outbounds(nodes: Seq<ProxyNodeView>, flows: Seq<FlowConfigView>)
    requires
        nodes.len() > 0,
    ensures
        forall|a: int|
            0 <= a < sing_box_config_of(nodes, flows).rules.len() ==> has_outbound_tag(
                sing_box_config_of(nodes, flows),
                (#[trigger] sing_box_config_of(nodes, flows).rules[a]).outbound,
            ),
        has_outbound_tag(sing_box_config_of(nodes, flows), sing_box_config_of(nodes, flows).final_outbound),
{
    let c = sing_box_config_of(nodes, flows);
    let ids = node_ids_of(nodes);
    let frules = flow_parts(flows, ids).2;
    let tr = test_rules(nodes);
    lemma_config_routes(nodes, flows, 0);
    assert(c.rules == tr + frules);
    assert(outbound_tag_of(c.outbounds[nodes.len() as int]) == "proxy"@);
    lemma_flow_rules_from_flows(flows, ids);
    assert forall|a: int| 0 <= a < c.rules.len() implies has_outbound_tag(c, (#[trigger] c.rules[a]).outbound) by {
        if a < tr.len() {
            lemma_config_routes(nodes, flows, a);
            assert(outbound_tag_of(c.outbounds[a]) == node_tag(nodes[a].id));
        } else {
            let b = a - tr.len();
            assert(c.rules[a] == frules[b]);
            assert(rules_of_flows(flows, ids, frules));
            let k = flow_of_rule(flows, ids, frules[b]);
            assert(rule_of_flow(flows, ids, frules[b], k));
            let tags = flow_proxy_tags(flows[k].flow_targets, ids);
            if tags.len() == 1 {
                lemma_flow_proxy_tags_members(flows[k].flow_targets, ids);
                assert(tags.contains(tags[0]));
                let (j, id) = choose|j: int, id: u128|
                    0 <= j < flows[k].flow_targets.len() && #[trigger] routes_to_node(
                        flows[k].flow_targets[j],
                        ids,
                        id,
                    ) && tags[0] == node_tag(id);
                assert(ids.contains(id));
                let i = choose|i: int| 0 <= i < nodes.len() && (#[trigger] nodes[i]).id == id;
                lemma_config_routes(nodes, flows, i);
                assert(outbound_tag_of(c.outbounds[i]) == node_tag(id));
            } else {
                lemma_config_routes(nodes, flows, 0);
                let y = OutboundView::Selector {
                    tag: selector_tag(flows[k].flow_id),
                    outbounds: tags,
                    default: tags[0],
                };
                assert(c.outbounds.contains(y));
                let j = choose|j: int| 0 <= j < c.outbounds.len() && c.outbounds[j] == y;
                assert(outbound_tag_of(c.outbounds[j]) == selector_tag(flows[k].flow_id));
            }
        }
    }
}

} // verus!
