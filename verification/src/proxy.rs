//! Proxy nodes: their configuration, their runtime status, and the errors of
//! the proxy services.
use vstd::prelude::*;

use crate::ids::{format_uuid_hyphenated, uuid_hyphenated_text};
use crate::text::{dec_text, push_decimal, string_of};

verus! {

/// How a flow that goes through a proxy treats Chinese destinations.
#[derive(Clone, Copy, Debug, PartialEq, Eq, Structural)]
pub enum ProxyMode {
    Global,
    BypassChina,
}

/// The errors of the proxy services.
#[derive(Debug)]
pub enum ProxyError {
    NodeNotFound(u128),
    NodeInUse { node_id: u128, flow_remark: String, flow_id: u32 },
    NodeDisabled(u128),
    RuntimeDockerError(String),
    RuntimeConfigError(String),
    BypassGeoCacheMissing,
    LatencyTestError(String),
}

/// The HTTP status that an API answer carries for each error.
pub open spec fn proxy_error_status(e: ProxyError) -> u16 {
    match e {
        ProxyError::NodeNotFound(_) => 404,
        ProxyError::NodeInUse { .. } => 400,
        ProxyError::NodeDisabled(_) => 400,
        ProxyError::RuntimeDockerError(_) => 500,
        ProxyError::RuntimeConfigError(_) => 400,
        ProxyError::BypassGeoCacheMissing => 400,
        ProxyError::LatencyTestError(_) => 500,
    }
}

/// The text of each error, as the user reads it.
pub open spec fn proxy_error_text(e: ProxyError) -> Seq<char> {
    match e {
        ProxyError::NodeNotFound(id) => "Proxy node '"@ + uuid_hyphenated_text(id) + "' not found"@,
        ProxyError::NodeInUse { node_id, flow_remark, flow_id } => "Proxy node '"@
            + uuid_hyphenated_text(node_id) + "' is used by flow '"@ + flow_remark@ + "' (ID: "@
            + dec_text(flow_id as nat) + ")"@,
        ProxyError::NodeDisabled(id) => "Proxy node '"@ + uuid_hyphenated_text(id)
            + "' is disabled"@,
        ProxyError::RuntimeDockerError(m) => "Proxy runtime Docker operation failed: "@ + m@,
        ProxyError::RuntimeConfigError(m) => "Proxy runtime config error: "@ + m@,
        ProxyError::BypassGeoCacheMissing => "Proxy bypass China Geo cache is missing"@,
        ProxyError::LatencyTestError(m) => "Proxy latency test failed: "@ + m@,
    }
}

impl ProxyError {
    /// The HTTP status of the error.
    pub fn status_code(&self) -> (r: u16)
        ensures
            r == proxy_error_status(*self),
    {
        match self {
            ProxyError::NodeNotFound(_) => 404,
            ProxyError::NodeInUse { .. } => 400,
            ProxyError::NodeDisabled(_) => 400,
            ProxyError::RuntimeDockerError(_) => 500,
            ProxyError::RuntimeConfigError(_) => 400,
            ProxyError::BypassGeoCacheMissing => 400,
            ProxyError::LatencyTestError(_) => 500,
        }
    }

    /// The text of the error.
    pub fn message(&self) -> (r: String)
        ensures
            r@ == proxy_error_text(*self),
    {
        match self {
            ProxyError::NodeNotFound(id) => {
                let mut s = string_of("Proxy node '");
                s.append(format_uuid_hyphenated(*id).as_str());
                s.append("' not found");
                s
            },
            ProxyError::NodeInUse { node_id, flow_remark, flow_id } => {
                let mut s = string_of("Proxy node '");
                s.append(format_uuid_hyphenated(*node_id).as_str());
                s.append("' is used by flow '");
                s.append(flow_remark.as_str());
                s.append("' (ID: ");
                push_decimal(&mut s, *flow_id as u64);
                s.append(")");
                s
            },
            ProxyError::NodeDisabled(id) => {
                let mut s = string_of("Proxy node '");
                s.append(format_uuid_hyphenated(*id).as_str());
                s.append("' is disabled");
                s
            },
            ProxyError::RuntimeDockerError(m) => {
                let mut s = string_of("Proxy runtime Docker operation failed: ");
                s.append(m.as_str());
                s
            },
            ProxyError::RuntimeConfigError(m) => {
                let mut s = string_of("Proxy runtime config error: ");
                s.append(m.as_str());
                s
            },
            ProxyError::BypassGeoCacheMissing => string_of("Proxy bypass China Geo cache is missing"),
            ProxyError::LatencyTestError(m) => {
                let mut s = string_of("Proxy latency test failed: ");
                s.append(m.as_str());
                s
            },
        }
    }
}

/// An optional string's abstract value.
pub open spec fn opt_view(o: Option<String>) -> Option<Seq<char>> {
    match o {
        Some(s) => Some(s@),
        None => None,
    }
}

/// A copy of an optional string.
pub fn clone_opt(o: &Option<String>) -> (r: Option<String>)
    ensures
        opt_view(r) == opt_view(*o),
{
    match o {
        Some(s) => Some(s.clone()),
        None => None,
    }
}

/// The protocol by which a proxy node is reached, with its credentials.
#[derive(Debug, PartialEq, Eq)]
pub enum ProxyProtocolConfig {
    Vless {
        uuid: String,
        flow: Option<String>,
        tls: bool,
        server_name: Option<String>,
        reality: bool,
        reality_public_key: Option<String>,
        reality_short_id: Option<String>,
        utls_fingerprint: Option<String>,
    },
    Vmess {
        uuid: String,
        alter_id: u16,
        security: Option<String>,
        tls: bool,
        server_name: Option<String>,
    },
    Shadowsocks { method: String, password: String },
    Socks5 { username: Option<String>, password: Option<String> },
}

/// The abstract value of a proxy protocol configuration.
pub enum ProxyProtocolView {
    Vless {
        uuid: Seq<char>,
        flow: Option<Seq<char>>,
        tls: bool,
        server_name: Option<Seq<char>>,
        reality: bool,
        reality_public_key: Option<Seq<char>>,
        reality_short_id: Option<Seq<char>>,
        utls_fingerprint: Option<Seq<char>>,
    },
    Vmess {
        uuid: Seq<char>,
        alter_id: u16,
        security: Option<Seq<char>>,
        tls: bool,
        server_name: Option<Seq<char>>,
    },
    Shadowsocks { method: Seq<char>, password: Seq<char> },
    Socks5 { username: Option<Seq<char>>, password: Option<Seq<char>> },
}

impl View for ProxyProtocolConfig {
    type V = ProxyProtocolView;

    open spec fn view(&self) -> ProxyProtocolView {
        match self {
            ProxyProtocolConfig::Vless {
                uuid,
                flow,
                tls,
                server_name,
                reality,
                reality_public_key,
                reality_short_id,
                utls_fingerprint,
            } => ProxyProtocolView::Vless {
                uuid: uuid@,
                flow: opt_view(*flow),
                tls: *tls,
                server_name: opt_view(*server_name),
                reality: *reality,
                reality_public_key: opt_view(*reality_public_key),
                reality_short_id: opt_view(*reality_short_id),
                utls_fingerprint: opt_view(*utls_fingerprint),
            },
            ProxyProtocolConfig::Vmess { uuid, alter_id, security, tls, server_name } =>
                ProxyProtocolView::Vmess {
                uuid: uuid@,
                alter_id: *alter_id,
                security: opt_view(*security),
                tls: *tls,
                server_name: opt_view(*server_name),
            },
            ProxyProtocolConfig::Shadowsocks { method, password } => ProxyProtocolView::Shadowsocks {
                method: method@,
                password: password@,
            },
            ProxyProtocolConfig::Socks5 { username, password } => ProxyProtocolView::Socks5 {
                username: opt_view(*username),
                password: opt_view(*password),
            },
        }
    }
}

impl Clone for ProxyProtocolConfig {
    fn clone(&self) -> (r: Self)
        ensures
            r@ == self@,
    {
        match self {
            ProxyProtocolConfig::Vless {
                uuid,
                flow,
                tls,
                server_name,
                reality,
                reality_public_key,
                reality_short_id,
                utls_fingerprint,
            } => ProxyProtocolConfig::Vless {
                uuid: uuid.clone(),
                flow: clone_opt(flow),
                tls: *tls,
                server_name: clone_opt(server_name),
                reality: *reality,
                reality_public_key: clone_opt(reality_public_key),
                reality_short_id: clone_opt(reality_short_id),
                utls_fingerprint: clone_opt(utls_fingerprint),
            },
            ProxyProtocolConfig::Vmess { uuid, alter_id, security, tls, server_name } =>
                ProxyProtocolConfig::Vmess {
                uuid: uuid.clone(),
                alter_id: *alter_id,
                security: clone_opt(security),
                tls: *tls,
                server_name: clone_opt(server_name),
            },
            ProxyProtocolConfig::Shadowsocks { method, password } => ProxyProtocolConfig::Shadowsocks {
                method: method.clone(),
                password: password.clone(),
            },
            ProxyProtocolConfig::Socks5 { username, password } => ProxyProtocolConfig::Socks5 {
                username: clone_opt(username),
                password: clone_opt(password),
            },
        }
    }
}

/// The configuration of one proxy node.
#[derive(Debug)]
pub struct ProxyNodeConfig {
    pub id: u128,
    pub name: String,
    pub enable: bool,
    pub server: String,
    pub port: u16,
    pub protocol: ProxyProtocolConfig,
    pub remark: String,
}

/// The abstract value of a proxy node configuration.
pub struct ProxyNodeView {
    pub id: u128,
    pub name: Seq<char>,
    pub enable: bool,
    pub server: Seq<char>,
    pub port: u16,
    pub protocol: ProxyProtocolView,
    pub remark: Seq<char>,
}

impl View for ProxyNodeConfig {
    type V = ProxyNodeView;

    open spec fn view(&self) -> ProxyNodeView {
        ProxyNodeView {
            id: self.id,
            name: self.name@,
            enable: self.enable,
            server: self.server@,
            port: self.port,
            protocol: self.protocol@,
            remark: self.remark@,
        }
    }
}

impl Clone for ProxyNodeConfig {
    fn clone(&self) -> (r: Self)
        ensures
            r@ == self@,
    {
        ProxyNodeConfig {
            id: self.id,
            name: self.name.clone(),
            enable: self.enable,
            server: self.server.clone(),
            port: self.port,
            protocol: self.protocol.clone(),
            remark: self.remark.clone(),
        }
    }
}

/// The views of a sequence of proxy nodes.
pub open spec fn nodes_view(s: Seq<ProxyNodeConfig>) -> Seq<ProxyNodeView> {
    s.map_values(|n: ProxyNodeConfig| n@)
}

/// The state of a proxy runtime container.
#[derive(Clone, Copy, Debug, PartialEq, Eq, Structural)]
pub enum ProxyRuntimeState {
    Missing,
    Created,
    Running,
    Exited,
    Unknown,
}

/// The runtime status of one proxy node.
#[derive(Debug)]
pub struct ProxyNodeRuntimeStatus {
    pub node_id: u128,
    pub container_name: String,
    pub state: ProxyRuntimeState,
    pub image: String,
    pub status: Option<String>,
}

/// The abstract value of a node's runtime status.
pub struct ProxyNodeRuntimeStatusView {
    pub node_id: u128,
    pub container_name: Seq<char>,
    pub state: ProxyRuntimeState,
    pub image: Seq<char>,
    pub status: Option<Seq<char>>,
}

impl View for ProxyNodeRuntimeStatus {
    type V = ProxyNodeRuntimeStatusView;

    open spec fn view(&self) -> ProxyNodeRuntimeStatusView {
        ProxyNodeRuntimeStatusView {
            node_id: self.node_id,
            container_name: self.container_name@,
            state: self.state,
            image: self.image@,
            status: opt_view(self.status),
        }
    }
}

impl Clone for ProxyNodeRuntimeStatus {
    fn clone(&self) -> (r: Self)
        ensures
            r@ == self@,
    {
        ProxyNodeRuntimeStatus {
            node_id: self.node_id,
            container_name: self.container_name.clone(),
            state: self.state,
            image: self.image.clone(),
            status: clone_opt(&self.status),
        }
    }
}

/// The views of a sequence of runtime statuses.
pub open spec fn statuses_view(s: Seq<ProxyNodeRuntimeStatus>) -> Seq<ProxyNodeRuntimeStatusView> {
    s.map_values(|x: ProxyNodeRuntimeStatus| x@)
}

/// Whether a node may be deleted, given whether it exists and the flows
/// that route through it (those found with a global proxy target, then those
/// with a bypass proxy target): it is refused while any flow uses it, naming
/// the first such flow, and otherwise refused as not found where there is no
/// such node.
pub fn node_deletion_check(
    node_id: u128,
    node_exists: bool,
    global_flows: &Vec<crate::flow::FlowConfig>,
    bypass_flows: &Vec<crate::flow::FlowConfig>,
) -> (r: Result<(), ProxyError>)
    ensures
        global_flows@.len() == 0 && bypass_flows@.len() == 0 ==> (if node_exists {
            r is Ok
        } else {
            r matches Err(ProxyError::NodeNotFound(n)) && n == node_id
        }),
        global_flows@.len() > 0 ==> (r matches Err(ProxyError::NodeInUse { node_id: n, flow_remark, flow_id }) && n == node_id
            && flow_remark@ == global_flows@[0].remark@ && flow_id == global_flows@[0].flow_id),
        global_flows@.len() == 0 && bypass_flows@.len() > 0 ==> (r matches Err(ProxyError::NodeInUse { node_id: n, flow_remark, flow_id }) && n == node_id
            && flow_remark@ == bypass_flows@[0].remark@ && flow_id == bypass_flows@[0].flow_id),
{
    let first = if global_flows.len() > 0 {
        Some(&global_flows[0])
    } else if bypass_flows.len() > 0 {
        Some(&bypass_flows[0])
    } else {
        None
    };
    match first {
        Some(flow) => Err(ProxyError::NodeInUse { node_id, flow_remark: flow.remark.clone(), flow_id: flow.flow_id }),
        None => if node_exists {
            Ok(())
        } else {
            Err(ProxyError::NodeNotFound(node_id))
        },
    }
}

/// The kinds of rule sources that the China bypass relies on.
#[derive(Clone, Copy, Debug, PartialEq, Eq, Structural)]
pub enum ProxyBypassRuleSourceKind {
    Domain,
    Ip,
}

} // verus!
