//! The native PPPoE data path of an uplink: when it may be switched on, the
//! system state that it installs (addresses, routes, neighbour, MTU) and
//! takes down again, and how the XDP ingress program is attached when a stale
//! copy of it is in the way.
//!
//! The commands, route updates and eBPF calls are performed by the caller;
//! the functions here say which, with which arguments, and in what order.
use vstd::prelude::*;

use crate::flow::MacAddr;
use crate::netaddr::{ipv4_text, ipv4_to_string, mac_text, mac_to_string};
use crate::route::{RouteInfo, RouteInfoView, RouteType};
use crate::text::{contains, contains_text, dec_text, int_text, push_decimal, push_signed_decimal, string_of};

verus! {

/// What the PPPoE client has negotiated so far, as far as the native data
/// path needs it.
#[derive(Debug)]
pub struct PppoeSessionFacts {
    /// The MRU of the local LCP configuration, once the peer acknowledged it.
    pub acked_mru: Option<u16>,
    /// The local IPv4 address from IPCP.
    pub client_ip: Option<u32>,
    /// The peer's IPv4 address from IPCP.
    pub server_ip: Option<u32>,
    /// The confirmed PPPoE session, if any.
    pub session: Option<PppoeSession>,
}

/// A confirmed PPPoE session: the access concentrator's MAC and the session id.
#[derive(Clone, Copy, Debug, PartialEq, Eq, Structural)]
pub struct PppoeSession {
    pub server_mac: MacAddr,
    pub session_id: u16,
}

/// The uplink's side of the configuration.
#[derive(Debug)]
pub struct PppoeIfaceConfig {
    pub index: u32,
    pub iface_name: String,
    pub iface_mac: MacAddr,
    pub default_router: bool,
    pub requested_mru: u16,
}

/// Why the native data path cannot be switched on yet.
#[derive(Clone, Copy, Debug, PartialEq, Eq, Structural)]
pub enum PppoeSetupError {
    LcpNotAcknowledged,
    LocalIpv4Missing,
    PeerIpv4Missing,
    NoActiveSession,
}

/// The log text of each refusal.
pub open spec fn setup_error_text(e: PppoeSetupError) -> Seq<char> {
    match e {
        PppoeSetupError::LcpNotAcknowledged => "cannot enable PPPoE eBPF because local LCP config is not acknowledged"@,
        PppoeSetupError::LocalIpv4Missing => "cannot enable PPPoE eBPF because local IPv4 address is missing"@,
        PppoeSetupError::PeerIpv4Missing => "cannot enable PPPoE eBPF because peer IPv4 address is missing"@,
        PppoeSetupError::NoActiveSession => "cannot enable PPPoE eBPF without an active session"@,
    }
}

impl PppoeSetupError {
    /// The log text of the refusal.
    pub fn message(&self) -> (r: &'static str)
        ensures
            r@ == setup_error_text(*self),
    {
        match self {
            PppoeSetupError::LcpNotAcknowledged => "cannot enable PPPoE eBPF because local LCP config is not acknowledged",
            PppoeSetupError::LocalIpv4Missing => "cannot enable PPPoE eBPF because local IPv4 address is missing",
            PppoeSetupError::PeerIpv4Missing => "cannot enable PPPoE eBPF because peer IPv4 address is missing",
            PppoeSetupError::NoActiveSession => "cannot enable PPPoE eBPF without an active session",
        }
    }
}

/// Everything the native data path of an uplink is set up from.
#[derive(Debug)]
pub struct NativePppoeState {
    pub index: u32,
    pub iface_name: String,
    pub iface_mac: MacAddr,
    pub default_router: bool,
    pub session_id: u16,
    pub server_mac: MacAddr,
    pub client_ip: u32,
    pub server_ip: u32,
    pub mru: u16,
}

/// The first thing that is missing for the native data path, in the order
/// the client checks them: the acknowledged LCP configuration, the local
/// address, the peer address, the session.
pub open spec fn setup_refusal(facts: PppoeSessionFacts) -> Option<PppoeSetupError> {
    if facts.acked_mru is None {
        Some(PppoeSetupError::LcpNotAcknowledged)
    } else if facts.client_ip is None {
        Some(PppoeSetupError::LocalIpv4Missing)
    } else if facts.server_ip is None {
        Some(PppoeSetupError::PeerIpv4Missing)
    } else if facts.session is None {
        Some(PppoeSetupError::NoActiveSession)
    } else {
        None
    }
}

/// The smaller of two MRUs.
pub open spec fn min_mru(a: u16, b: u16) -> u16 {
    if a <= b {
        a
    } else {
        b
    }
}

/// The state from which the native data path is set up: the uplink's
/// settings, the session, the two addresses, and the smaller of the
/// acknowledged and the requested MRU; or why it cannot be set up yet.
pub fn native_pppoe_state(facts: &PppoeSessionFacts, config: &PppoeIfaceConfig) -> (r: Result<
    NativePppoeState,
    PppoeSetupError,
>)
    ensures
        setup_refusal(*facts) matches Some(e) ==> r == Err::<NativePppoeState, PppoeSetupError>(e),
        setup_refusal(*facts) is None ==> (r matches Ok(st) && st.index == config.index
            && st.iface_name@ == config.iface_name@ && st.iface_mac == config.iface_mac
            && st.default_router == config.default_router && Some(st.client_ip)
            == facts.client_ip && Some(st.server_ip) == facts.server_ip && Some(
            PppoeSession { server_mac: st.server_mac, session_id: st.session_id },
        ) == facts.session && st.mru == min_mru(facts.acked_mru.unwrap(), config.requested_mru)),
{
    let acked = match facts.acked_mru {
        Some(m) => m,
        None => {
            return Err(PppoeSetupError::LcpNotAcknowledged);
        },
    };
    let mru = if acked <= config.requested_mru {
        acked
    } else {
        config.requested_mru
    };
    let client_ip = match facts.client_ip {
        Some(a) => a,
        None => {
            return Err(PppoeSetupError::LocalIpv4Missing);
        },
    };
    let server_ip = match facts.server_ip {
        Some(a) => a,
        None => {
            return Err(PppoeSetupError::PeerIpv4Missing);
        },
    };
    let session = match facts.session {
        Some(s) => s,
        None => {
            return Err(PppoeSetupError::NoActiveSession);
        },
    };
    Ok(
        NativePppoeState {
            index: config.index,
            iface_name: config.iface_name.clone(),
            iface_mac: config.iface_mac,
            default_router: config.default_router,
            session_id: session.session_id,
            server_mac: session.server_mac,
            client_ip,
            server_ip,
            mru,
        },
    )
}

/// The arguments of `ip` that set the MTU of an interface.
pub open spec fn link_mtu_args(iface: Seq<char>, mtu: u16) -> Seq<Seq<char>> {
    seq!["link"@, "set"@, "dev"@, iface, "mtu"@, dec_text(mtu as nat)]
}

/// The arguments of `ip` that add (or delete) the point-to-point address of
/// the session on an interface.
pub open spec fn peer_addr_args(add: bool, client_ip: u32, server_ip: u32, iface: Seq<char>) -> Seq<
    Seq<char>,
> {
    seq![
        "addr"@,
        if add {
            "add"@
        } else {
            "del"@
        },
        ipv4_text(client_ip),
        "peer"@,
        ipv4_text(server_ip) + "/32"@,
        "dev"@,
        iface,
    ]
}

/// The arguments of `ip` that enter the access concentrator as the peer's
/// neighbour.
pub open spec fn neigh_add_args(server_ip: u32, server_mac: MacAddr, iface: Seq<char>) -> Seq<
    Seq<char>,
> {
    seq!["neigh"@, "add"@, ipv4_text(server_ip), "lladdr"@, mac_text(server_mac), "dev"@, iface]
}

/// The views of a list of strings.
pub open spec fn strings_view(s: Seq<String>) -> Seq<Seq<char>> {
    s.map_values(|x: String| x@)
}

/// The `ip` arguments that set the MTU of `iface` to `mtu`.
pub fn link_mtu_command(iface: &str, mtu: u16) -> (r: Vec<String>)
    ensures
        strings_view(r@) == link_mtu_args(iface@, mtu),
{
    let mut v: Vec<String> = Vec::new();
    v.push(string_of("link"));
    v.push(string_of("set"));
    v.push(string_of("dev"));
    v.push(string_of(iface));
    v.push(string_of("mtu"));
    let mut m = String::new();
    push_decimal(&mut m, mtu as u64);
    v.push(m);
    assert(strings_view(v@) =~= link_mtu_args(iface@, mtu));
    v
}

/// The `ip` arguments that add (`add`) or delete the session's address on `iface`.
pub fn peer_addr_command(add: bool, client_ip: u32, server_ip: u32, iface: &str) -> (r: Vec<String>)
    ensures
        strings_view(r@) == peer_addr_args(add, client_ip, server_ip, iface@),
{
    let mut v: Vec<String> = Vec::new();
    v.push(string_of("addr"));
    if add {
        v.push(string_of("add"));
    } else {
        v.push(string_of("del"));
    }
    v.push(ipv4_to_string(client_ip));
    v.push(string_of("peer"));
    let mut peer = ipv4_to_string(server_ip);
    peer.append("/32");
    v.push(peer);
    v.push(string_of("dev"));
    v.push(string_of(iface));
    assert(strings_view(v@) =~= peer_addr_args(add, client_ip, server_ip, iface@));
    v
}

/// The `ip` arguments that enter the peer as a neighbour on `iface`.
pub fn neigh_add_command(server_ip: u32, server_mac: MacAddr, iface: &str) -> (r: Vec<String>)
    ensures
        strings_view(r@) == neigh_add_args(server_ip, server_mac, iface@),
{
    let mut v: Vec<String> = Vec::new();
    v.push(string_of("neigh"));
    v.push(string_of("add"));
    v.push(ipv4_to_string(server_ip));
    v.push(string_of("lladdr"));
    v.push(mac_to_string(server_mac));
    v.push(string_of("dev"));
    v.push(string_of(iface));
    assert(strings_view(v@) =~= neigh_add_args(server_ip, server_mac, iface@));
    v
}

/// The LAN route of the uplink's own address (a reachable /32).
#[derive(Debug)]
pub struct PppoeLanRoute {
    pub ifindex: u32,
    pub iface_name: String,
    pub iface_ip: u32,
    pub mac: MacAddr,
    pub prefix: u8,
}

/// The WAN route through the peer (weight 1, not a container).
#[derive(Debug)]
pub struct PppoeWanRoute {
    pub ifindex: u32,
    pub weight: u32,
    pub mac: MacAddr,
    pub iface_name: String,
    pub iface_ip: u32,
    pub default_route: bool,
    pub gateway_ip: u32,
}

/// What becomes of the uplink in the default routes.
#[derive(Debug)]
pub enum DefaultRouteChange {
    /// It joins them through the peer, with weight 1.
    Add(RouteInfo),
    /// It leaves them.
    RemoveIface(String),
}

/// The uplink's entry in the data path's table of WAN addresses: its
/// address, the peer as gateway, the prefix length and the uplink's MAC.
#[derive(Debug)]
pub struct PppoeWanIp {
    pub ifindex: u32,
    pub ip: u32,
    pub gateway: Option<u32>,
    pub prefix: u8,
    pub mac: Option<MacAddr>,
}

/// The system state that the native data path installs, in order: the WAN
/// address entry, the MTU, the session address, the LAN and WAN routes, the
/// default-route change, the neighbour entry. (The eBPF programs come after
/// it, from the same state.)
#[derive(Debug)]
pub struct NativeSetupPlan {
    pub wan_ip: PppoeWanIp,
    pub mtu_args: Vec<String>,
    pub addr_args: Vec<String>,
    pub lan_route: PppoeLanRoute,
    pub wan_route: PppoeWanRoute,
    pub default_route: DefaultRouteChange,
    pub neigh_args: Vec<String>,
}

/// The system state that the teardown removes, in order: the session
/// address, the uplink's default route (where it carried one), the WAN and
/// LAN routes, the WAN address entry of `wan_ip_index`, and the MTU back to
/// 1500.
#[derive(Debug)]
pub struct NativeCleanupPlan {
    pub addr_args: Vec<String>,
    pub remove_default_route: bool,
    pub wan_ip_index: u32,
    pub mtu_args: Vec<String>,
}

/// Whether a default-route change is the one of an uplink: it joins through
/// `server_ip` with weight 1 when it carries the default route, and leaves
/// otherwise.
pub open spec fn default_route_change_of(c: DefaultRouteChange, st: NativePppoeState) -> bool {
    if st.default_router {
        c matches DefaultRouteChange::Add(info) && info@ == (RouteInfoView {
            iface_name: st.iface_name@,
            weight: 1,
            route: RouteType::Ipv4(st.server_ip),
        })
    } else {
        c matches DefaultRouteChange::RemoveIface(name) && name@ == st.iface_name@
    }
}

/// The setup of the native data path from its state.
pub fn native_setup_plan(st: &NativePppoeState) -> (r: NativeSetupPlan)
    ensures
        r.wan_ip.ifindex == st.index && r.wan_ip.ip == st.client_ip && r.wan_ip.gateway == Some(
            st.server_ip,
        ) && r.wan_ip.prefix == 32 && r.wan_ip.mac == Some(st.iface_mac),
        strings_view(r.mtu_args@) == link_mtu_args(st.iface_name@, st.mru),
        strings_view(r.addr_args@) == peer_addr_args(true, st.client_ip, st.server_ip, st.iface_name@),
        r.lan_route.ifindex == st.index && r.lan_route.iface_name@ == st.iface_name@
            && r.lan_route.iface_ip == st.client_ip && r.lan_route.mac == st.iface_mac
            && r.lan_route.prefix == 32,
        r.wan_route.ifindex == st.index && r.wan_route.weight == 1 && r.wan_route.mac
            == st.iface_mac && r.wan_route.iface_name@ == st.iface_name@ && r.wan_route.iface_ip
            == st.client_ip && r.wan_route.default_route == st.default_router
            && r.wan_route.gateway_ip == st.server_ip,
        default_route_change_of(r.default_route, *st),
        strings_view(r.neigh_args@) == neigh_add_args(st.server_ip, st.server_mac, st.iface_name@),
{
    let iface = st.iface_name.as_str();
    let default_route = if st.default_router {
        DefaultRouteChange::Add(
            RouteInfo {
                iface_name: st.iface_name.clone(),
                weight: 1,
                route: RouteType::Ipv4(st.server_ip),
            },
        )
    } else {
        DefaultRouteChange::RemoveIface(st.iface_name.clone())
    };
    NativeSetupPlan {
        wan_ip: PppoeWanIp {
            ifindex: st.index,
            ip: st.client_ip,
            gateway: Some(st.server_ip),
            prefix: 32,
            mac: Some(st.iface_mac),
        },
        mtu_args: link_mtu_command(iface, st.mru),
        addr_args: peer_addr_command(true, st.client_ip, st.server_ip, iface),
        lan_route: PppoeLanRoute {
            ifindex: st.index,
            iface_name: st.iface_name.clone(),
            iface_ip: st.client_ip,
            mac: st.iface_mac,
            prefix: 32,
        },
        wan_route: PppoeWanRoute {
            ifindex: st.index,
            weight: 1,
            mac: st.iface_mac,
            iface_name: st.iface_name.clone(),
            iface_ip: st.client_ip,
            default_route: st.default_router,
            gateway_ip: st.server_ip,
        },
        default_route,
        neigh_args: neigh_add_command(st.server_ip, st.server_mac, iface),
    }
}

/// The teardown of the native data path from its state.
pub fn native_cleanup_plan(st: &NativePppoeState) -> (r: NativeCleanupPlan)
    ensures
        strings_view(r.addr_args@) == peer_addr_args(false, st.client_ip, st.server_ip, st.iface_name@),
        r.remove_default_route == st.default_router,
        r.wan_ip_index == st.index,
        strings_view(r.mtu_args@) == link_mtu_args(st.iface_name@, 1500),
{
    let iface = st.iface_name.as_str();
    NativeCleanupPlan {
        addr_args: peer_addr_command(false, st.client_ip, st.server_ip, iface),
        remove_default_route: st.default_router,
        wan_ip_index: st.index,
        mtu_args: link_mtu_command(iface, 1500),
    }
}

/// What the teardown undoes of the setup: it deletes the very address that
/// the setup added (the same arguments but for the verb), and it removes the
/// uplink's default route exactly when the setup added one.
pub proof fn lemma_cleanup_undoes_setup(client_ip: u32, server_ip: u32, iface: Seq<char>)
    ensures
        peer_addr_args(false, client_ip, server_ip, iface) == peer_addr_args(
            true,
            client_ip,
            server_ip,
            iface,
        ).update(1, "del"@),
        peer_addr_args(true, client_ip, server_ip, iface)[1] == "add"@,
{
    assert(peer_addr_args(false, client_ip, server_ip, iface) =~= peer_addr_args(
        true,
        client_ip,
        server_ip,
        iface,
    ).update(1, "del"@));
}

/// The errors of the eBPF side; a libbpf error is carried as its text.
#[derive(Debug)]
pub enum LandscapeEbpfError {
    Libbpf(String),
    Context { context: String, source: String },
    ParseIdErr,
    TryFromSliceError(String),
    Internal(String),
}

/// The text of each eBPF error.
pub open spec fn ebpf_error_text(e: LandscapeEbpfError) -> Seq<char> {
    match e {
        LandscapeEbpfError::Libbpf(m) => "libbpf error: "@ + m@,
        LandscapeEbpfError::Context { context, source } => context@ + ": "@ + source@,
        LandscapeEbpfError::ParseIdErr => "parse ID Error"@,
        LandscapeEbpfError::TryFromSliceError(m) => "parse ID Error: "@ + m@,
        LandscapeEbpfError::Internal(m) => m@,
    }
}

impl LandscapeEbpfError {
    /// The text of the error.
    pub fn message(&self) -> (r: String)
        ensures
            r@ == ebpf_error_text(*self),
    {
        match self {
            LandscapeEbpfError::Libbpf(m) => {
                let mut s = string_of("libbpf error: ");
                s.append(m.as_str());
                s
            },
            LandscapeEbpfError::Context { context, source } => {
                let mut s = context.clone();
                s.append(": ");
                s.append(source.as_str());
                s
            },
            LandscapeEbpfError::ParseIdErr => string_of("parse ID Error"),
            LandscapeEbpfError::TryFromSliceError(m) => {
                let mut s = string_of("parse ID Error: ");
                s.append(m.as_str());
                s
            },
            LandscapeEbpfError::Internal(m) => m.clone(),
        }
    }
}

/// Where the attachment of the XDP ingress program stands; each phase but
/// the first names the call the caller makes next.
#[derive(Clone, Copy, Debug, PartialEq, Eq, Structural)]
pub enum XdpAttachPhase {
    /// Attaching the program (in SKB mode, only where none is attached).
    Attaching,
    /// Another program is attached: querying its id.
    Querying,
    /// Looking up the program with this id among the loaded programs.
    Finding(u32),
    /// The attached program is a stale copy of ours: detaching it.
    Detaching,
    /// Attaching ours again.
    Reattaching,
}

/// What the caller's call gave back.
#[derive(Debug)]
pub enum XdpAttachEvent {
    /// The attach or detach call succeeded.
    Succeeded,
    /// The attach call found another program attached.
    AlreadyExists,
    /// The call failed; the text of the libbpf error.
    Failed(String),
    /// The id of the attached program.
    QueriedId(u32),
    /// The name of the program with the queried id, if one was found.
    ProgramName(Option<String>),
}

/// The next step: another phase, or the end with its outcome.
#[derive(Debug)]
pub enum XdpAttachStep {
    Next(XdpAttachPhase),
    Done(Result<(), LandscapeEbpfError>),
}

/// How far a phase is along the attachment; every step moves forward, so
/// the attachment ends after at most five calls.
pub open spec fn xdp_phase_rank(phase: XdpAttachPhase) -> nat {
    match phase {
        XdpAttachPhase::Attaching => 0,
        XdpAttachPhase::Querying => 1,
        XdpAttachPhase::Finding(_) => 2,
        XdpAttachPhase::Detaching => 3,
        XdpAttachPhase::Reattaching => 4,
    }
}

/// Whether an event is an answer to the call of a phase.
pub open spec fn xdp_event_fits(phase: XdpAttachPhase, event: XdpAttachEvent) -> bool {
    match phase {
        XdpAttachPhase::Attaching => event is Succeeded || event is AlreadyExists || event is Failed,
        XdpAttachPhase::Querying => event is QueriedId || event is Failed,
        XdpAttachPhase::Finding(_) => event is ProgramName,
        XdpAttachPhase::Detaching => event is Succeeded || event is Failed,
        XdpAttachPhase::Reattaching => event is Succeeded || event is Failed,
    }
}

/// The name part that marks a program as the PPPoE XDP program.
pub open spec fn pppoe_xdp_marker() -> Seq<char> {
    "pppoe_xdp"@
}

/// Whether a step ends with a context error of the given context and source.
pub open spec fn ends_with_context(r: XdpAttachStep, context: Seq<char>, source: Seq<char>) -> bool {
    r matches XdpAttachStep::Done(Err(LandscapeEbpfError::Context { context: c, source: s })) && c@
        == context && s@ == source
}

/// Whether a step ends with an internal error of the given text.
pub open spec fn ends_with_internal(r: XdpAttachStep, text: Seq<char>) -> bool {
    r matches XdpAttachStep::Done(Err(LandscapeEbpfError::Internal(t))) && t@ == text
}

fn ifindex_context(prefix: &str, ifindex: i32) -> (r: String)
    ensures
        r@ == prefix@ + int_text(ifindex as int),
{
    let mut s = string_of(prefix);
    push_signed_decimal(&mut s, ifindex);
    s
}

/// One step of attaching the PPPoE XDP program on `ifindex`. A first attach
/// that succeeds is the end; one that finds another program attached looks
/// that program up, and only when it is a stale copy of the PPPoE program
/// (its name holds `pppoe_xdp`) detaches it and attaches again. Every failure
/// ends the attachment with an error that says where it failed.
pub fn xdp_attach_step(phase: XdpAttachPhase, event: XdpAttachEvent, ifindex: i32) -> (r: XdpAttachStep)
    requires
        xdp_event_fits(phase, event),
    ensures
        r matches XdpAttachStep::Next(p) ==> xdp_phase_rank(p) > xdp_phase_rank(phase),
        phase == XdpAttachPhase::Attaching && event is Succeeded ==> r matches XdpAttachStep::Done(Ok(_)),
        phase == XdpAttachPhase::Attaching && event is AlreadyExists ==> r matches XdpAttachStep::Next(XdpAttachPhase::Querying),
        phase == XdpAttachPhase::Attaching ==> (event matches XdpAttachEvent::Failed(m) ==> (r matches XdpAttachStep::Done(Err(LandscapeEbpfError::Libbpf(t))) && t@ == m@)),
        phase == XdpAttachPhase::Querying ==> (event matches XdpAttachEvent::QueriedId(id) ==> r matches XdpAttachStep::Next(XdpAttachPhase::Finding(f)) && f == id),
        phase == XdpAttachPhase::Querying ==> (event matches XdpAttachEvent::Failed(m) ==> ends_with_context(r, "pppoe xdp query failed on ifindex "@ + int_text(ifindex as int), m@)),
        phase matches XdpAttachPhase::Finding(id) ==> (event matches XdpAttachEvent::ProgramName(None) ==> ends_with_internal(r, "pppoe xdp existing program id "@ + dec_text(id as nat) + " not found on ifindex "@ + int_text(ifindex as int))),
        phase is Finding ==> (event matches XdpAttachEvent::ProgramName(Some(n)) ==> if contains_text(n@, pppoe_xdp_marker()) {
            r matches XdpAttachStep::Next(XdpAttachPhase::Detaching)
        } else {
            ends_with_internal(r, "pppoe xdp already attached on ifindex "@ + int_text(ifindex as int) + " by non-pppoe program "@ + n@)
        }),
        phase == XdpAttachPhase::Detaching && event is Succeeded ==> r matches XdpAttachStep::Next(XdpAttachPhase::Reattaching),
        phase == XdpAttachPhase::Detaching ==> (event matches XdpAttachEvent::Failed(m) ==> ends_with_context(r, "pppoe xdp detach stale program failed on ifindex "@ + int_text(ifindex as int), m@)),
        phase == XdpAttachPhase::Reattaching && event is Succeeded ==> r matches XdpAttachStep::Done(Ok(_)),
        phase == XdpAttachPhase::Reattaching ==> (event matches XdpAttachEvent::Failed(m) ==> ends_with_context(r, "pppoe xdp attach after stale detach failed on ifindex "@ + int_text(ifindex as int), m@)),
{
    match phase {
        XdpAttachPhase::Attaching => match event {
            XdpAttachEvent::Succeeded => XdpAttachStep::Done(Ok(())),
            XdpAttachEvent::AlreadyExists => XdpAttachStep::Next(XdpAttachPhase::Querying),
            XdpAttachEvent::Failed(m) => XdpAttachStep::Done(Err(LandscapeEbpfError::Libbpf(m))),
            _ => XdpAttachStep::Next(XdpAttachPhase::Attaching),
        },
        XdpAttachPhase::Querying => match event {
            XdpAttachEvent::QueriedId(id) => XdpAttachStep::Next(XdpAttachPhase::Finding(id)),
            XdpAttachEvent::Failed(m) => XdpAttachStep::Done(
                Err(
                    LandscapeEbpfError::Context {
                        context: ifindex_context("pppoe xdp query failed on ifindex ", ifindex),
                        source: m,
                    },
                ),
            ),
            _ => XdpAttachStep::Next(XdpAttachPhase::Querying),
        },
        XdpAttachPhase::Finding(id) => match event {
            XdpAttachEvent::ProgramName(None) => {
                let mut t = string_of("pppoe xdp existing program id ");
                push_decimal(&mut t, id as u64);
                t.append(" not found on ifindex ");
                push_signed_decimal(&mut t, ifindex);
                XdpAttachStep::Done(Err(LandscapeEbpfError::Internal(t)))
            },
            XdpAttachEvent::ProgramName(Some(name)) => {
                if contains(name.as_str(), "pppoe_xdp") {
                    XdpAttachStep::Next(XdpAttachPhase::Detaching)
                } else {
                    let mut t = ifindex_context("pppoe xdp already attached on ifindex ", ifindex);
                    t.append(" by non-pppoe program ");
                    t.append(name.as_str());
                    XdpAttachStep::Done(Err(LandscapeEbpfError::Internal(t)))
                }
            },
            _ => XdpAttachStep::Next(XdpAttachPhase::Finding(id)),
        },
        XdpAttachPhase::Detaching => match event {
            XdpAttachEvent::Succeeded => XdpAttachStep::Next(XdpAttachPhase::Reattaching),
            XdpAttachEvent::Failed(m) => XdpAttachStep::Done(
                Err(
                    LandscapeEbpfError::Context {
                        context: ifindex_context(
                            "pppoe xdp detach stale program failed on ifindex ",
                            ifindex,
                        ),
                        source: m,
                    },
                ),
            ),
            _ => XdpAttachStep::Next(XdpAttachPhase::Detaching),
        },
        XdpAttachPhase::Reattaching => match event {
            XdpAttachEvent::Succeeded => XdpAttachStep::Done(Ok(())),
            XdpAttachEvent::Failed(m) => XdpAttachStep::Done(
                Err(
                    LandscapeEbpfError::Context {
                        context: ifindex_context(
                            "pppoe xdp attach after stale detach failed on ifindex ",
                            ifindex,
                        ),
                        source: m,
                    },
                ),
            ),
            _ => XdpAttachStep::Next(XdpAttachPhase::Reattaching),
        },
    }
}

/// Where the set-up of the PPPoE TC and XDP programs of an uplink stands;
/// each phase names the step the caller performs next.
#[derive(Clone, Copy, Debug, PartialEq, Eq, Structural)]
pub enum TcSetupPhase {
    /// Taking the uplink's TC pipeline.
    AcquirePipeline,
    /// Opening the PPPoE programs.
    OpenPrograms,
    /// Loading them, with the session id set.
    LoadPrograms,
    /// Registering the ingress and egress programs in the pipeline.
    RegisterPrograms,
    /// Attaching the XDP ingress program (see `xdp_attach_step`).
    AttachXdp,
}

/// How far a phase is along the set-up.
pub open spec fn tc_phase_rank(phase: TcSetupPhase) -> nat {
    match phase {
        TcSetupPhase::AcquirePipeline => 0,
        TcSetupPhase::OpenPrograms => 1,
        TcSetupPhase::LoadPrograms => 2,
        TcSetupPhase::RegisterPrograms => 3,
        TcSetupPhase::AttachXdp => 4,
    }
}

/// The next step of the set-up.
#[derive(Debug)]
pub enum TcSetupStep {
    /// Go on with the phase.
    Next(TcSetupPhase),
    /// Everything is in place: report the uplink ready.
    Ready,
    /// Give up with the error, unregistering the programs from the pipeline
    /// first where they were registered.
    Fail { unregister: bool, error: LandscapeEbpfError },
}

/// One step of setting up the PPPoE programs of an uplink: the phases run in
/// order, and a failure ends the set-up with its error; a failure to attach
/// the XDP program also takes the registered programs out of the pipeline.
pub fn tc_setup_step(phase: TcSetupPhase, outcome: Result<(), LandscapeEbpfError>) -> (r: TcSetupStep)
    ensures
        r matches TcSetupStep::Next(p) ==> tc_phase_rank(p) == tc_phase_rank(phase) + 1,
        outcome is Ok ==> match phase {
            TcSetupPhase::AcquirePipeline => r matches TcSetupStep::Next(TcSetupPhase::OpenPrograms),
            TcSetupPhase::OpenPrograms => r matches TcSetupStep::Next(TcSetupPhase::LoadPrograms),
            TcSetupPhase::LoadPrograms => r matches TcSetupStep::Next(TcSetupPhase::RegisterPrograms),
            TcSetupPhase::RegisterPrograms => r matches TcSetupStep::Next(TcSetupPhase::AttachXdp),
            TcSetupPhase::AttachXdp => r is Ready,
        },
        outcome matches Err(e) ==> (r matches TcSetupStep::Fail { unregister, error } && unregister
            == (phase == TcSetupPhase::AttachXdp) && error == e),
{
    match outcome {
        Ok(()) => match phase {
            TcSetupPhase::AcquirePipeline => TcSetupStep::Next(TcSetupPhase::OpenPrograms),
            TcSetupPhase::OpenPrograms => TcSetupStep::Next(TcSetupPhase::LoadPrograms),
            TcSetupPhase::LoadPrograms => TcSetupStep::Next(TcSetupPhase::RegisterPrograms),
            TcSetupPhase::RegisterPrograms => TcSetupStep::Next(TcSetupPhase::AttachXdp),
            TcSetupPhase::AttachXdp => TcSetupStep::Ready,
        },
        Err(error) => TcSetupStep::Fail { unregister: phase == TcSetupPhase::AttachXdp, error },
    }
}

/// The error when the set-up ended without reporting: the ready channel
/// closed with the text `reason`.
pub fn ready_channel_closed(ifindex: u32, reason: &str) -> (r: LandscapeEbpfError)
    ensures
        r matches LandscapeEbpfError::Internal(t) && t@ == "pppoe tc ready channel closed for ifindex="@
            + dec_text(ifindex as nat) + ": "@ + reason@,
{
    let mut t = string_of("pppoe tc ready channel closed for ifindex=");
    push_decimal(&mut t, ifindex as u64);
    t.append(": ");
    t.append(reason);
    LandscapeEbpfError::Internal(t)
}

/// Where the native data path of an uplink stands over its life; each phase
/// names the work the caller does next. `acknowledge` records whether the
/// one who asked for the stop waits to be told that it is done.
#[derive(Clone, Copy, Debug, PartialEq, Eq, Structural)]
pub enum PppoeLifecyclePhase {
    /// Installing the system state (`native_setup_plan`).
    InstallingState,
    /// Setting up the TC and XDP programs (`tc_setup_step`).
    SettingUpPrograms,
    /// Up and running, waiting for the request to stop.
    Running,
    /// Taking the programs out of the uplink's TC pipeline.
    UnregisteringPrograms { acknowledge: bool },
    /// Detaching the XDP ingress program.
    DetachingXdp { acknowledge: bool },
    /// Removing the system state (`native_cleanup_plan`).
    CleaningUp { acknowledge: bool },
    /// Telling the one who asked for the stop that it is done.
    Acknowledging,
}

/// What the caller's work in a phase came to.
#[derive(Debug)]
pub enum PppoeLifecycleEvent {
    /// The phase's work is done.
    Done,
    /// The programs could not be set up.
    ProgramsFailed(LandscapeEbpfError),
    /// The request to stop came (`acknowledge`: its sender waits for the
    /// acknowledgement), or its channel closed (`acknowledge` false).
    StopRequested { acknowledge: bool },
    /// Detaching the XDP program failed, with this text (a warning only).
    DetachFailed(String),
}

/// The next step of the life of the data path.
#[derive(Debug)]
pub enum PppoeLifecycleStep {
    /// Go on with the phase.
    Next(PppoeLifecyclePhase),
    /// The data path is up: report it ready, then wait in `Running`.
    Ready,
    /// The set-up failed: remove the system state, then report the failure
    /// with this text; the data path's life ends there.
    CleanUpThenFail(String),
    /// The teardown is complete.
    Finished,
}

/// Whether an event is an outcome of the work of a phase.
pub open spec fn lifecycle_event_fits(phase: PppoeLifecyclePhase, event: PppoeLifecycleEvent) -> bool {
    match phase {
        PppoeLifecyclePhase::SettingUpPrograms => event is Done || event is ProgramsFailed,
        PppoeLifecyclePhase::Running => event is StopRequested,
        PppoeLifecyclePhase::DetachingXdp { .. } => event is Done || event is DetachFailed,
        _ => event is Done,
    }
}

/// The text reported when the programs of `iface` could not be set up.
pub open spec fn programs_failure_text(iface: Seq<char>, e: LandscapeEbpfError) -> Seq<char> {
    "failed to enable native PPPoE TC/eBPF on iface "@ + iface + ": "@ + ebpf_error_text(e)
}

/// The abstract value of a lifecycle step.
pub enum PppoeLifecycleStepView {
    Next(PppoeLifecyclePhase),
    Ready,
    CleanUpThenFail(Seq<char>),
    Finished,
}

/// The abstract value of a lifecycle step.
pub open spec fn lifecycle_step_view(r: PppoeLifecycleStep) -> PppoeLifecycleStepView {
    match r {
        PppoeLifecycleStep::Next(p) => PppoeLifecycleStepView::Next(p),
        PppoeLifecycleStep::Ready => PppoeLifecycleStepView::Ready,
        PppoeLifecycleStep::CleanUpThenFail(t) => PppoeLifecycleStepView::CleanUpThenFail(t@),
        PppoeLifecycleStep::Finished => PppoeLifecycleStepView::Finished,
    }
}

/// The next step of the life of the data path of `iface`: the state is
/// installed, then the programs are set up; if that fails the state is
/// removed and the failure reported, else the data path is reported ready.
/// On the request to stop (or when its channel closes) the programs are
/// unregistered, the XDP program is detached (a failure to detach is only a
/// warning), the state is removed, and only then is the stop acknowledged,
/// where its sender waits.
pub open spec fn lifecycle_next(
    phase: PppoeLifecyclePhase,
    event: PppoeLifecycleEvent,
    iface: Seq<char>,
) -> PppoeLifecycleStepView {
    match phase {
        PppoeLifecyclePhase::InstallingState => PppoeLifecycleStepView::Next(
            PppoeLifecyclePhase::SettingUpPrograms,
        ),
        PppoeLifecyclePhase::SettingUpPrograms => match event {
            PppoeLifecycleEvent::ProgramsFailed(e) => PppoeLifecycleStepView::CleanUpThenFail(
                programs_failure_text(iface, e),
            ),
            _ => PppoeLifecycleStepView::Ready,
        },
        PppoeLifecyclePhase::Running => match event {
            PppoeLifecycleEvent::StopRequested { acknowledge } => PppoeLifecycleStepView::Next(
                PppoeLifecyclePhase::UnregisteringPrograms { acknowledge },
            ),
            _ => PppoeLifecycleStepView::Next(PppoeLifecyclePhase::Running),
        },
        PppoeLifecyclePhase::UnregisteringPrograms { acknowledge } => PppoeLifecycleStepView::Next(
            PppoeLifecyclePhase::DetachingXdp { acknowledge },
        ),
        PppoeLifecyclePhase::DetachingXdp { acknowledge } => PppoeLifecycleStepView::Next(
            PppoeLifecyclePhase::CleaningUp { acknowledge },
        ),
        PppoeLifecyclePhase::CleaningUp { acknowledge } => if acknowledge {
            PppoeLifecycleStepView::Next(PppoeLifecyclePhase::Acknowledging)
        } else {
            PppoeLifecycleStepView::Finished
        },
        PppoeLifecyclePhase::Acknowledging => PppoeLifecycleStepView::Finished,
    }
}

/// How far a phase is along the life of the data path.
pub open spec fn lifecycle_rank(phase: PppoeLifecyclePhase) -> nat {
    match phase {
        PppoeLifecyclePhase::InstallingState => 0,
        PppoeLifecyclePhase::SettingUpPrograms => 1,
        PppoeLifecyclePhase::Running => 2,
        PppoeLifecyclePhase::UnregisteringPrograms { .. } => 3,
        PppoeLifecyclePhase::DetachingXdp { .. } => 4,
        PppoeLifecyclePhase::CleaningUp { .. } => 5,
        PppoeLifecyclePhase::Acknowledging => 6,
    }
}

/// One step of the life of the native data path of the uplink `iface`.
pub fn pppoe_lifecycle_step(phase: PppoeLifecyclePhase, event: PppoeLifecycleEvent, iface: &str) -> (r:
    PppoeLifecycleStep)
    requires
        lifecycle_event_fits(phase, event),
    ensures
        lifecycle_step_view(r) == lifecycle_next(phase, event, iface@),
{
    match phase {
        PppoeLifecyclePhase::InstallingState => PppoeLifecycleStep::Next(
            PppoeLifecyclePhase::SettingUpPrograms,
        ),
        PppoeLifecyclePhase::SettingUpPrograms => match event {
            PppoeLifecycleEvent::ProgramsFailed(e) => {
                let mut t = string_of("failed to enable native PPPoE TC/eBPF on iface ");
                t.append(iface);
                t.append(": ");
                let m = e.message();
                t.append(m.as_str());
                PppoeLifecycleStep::CleanUpThenFail(t)
            },
            _ => PppoeLifecycleStep::Ready,
        },
        PppoeLifecyclePhase::Running => match event {
            PppoeLifecycleEvent::StopRequested { acknowledge } => PppoeLifecycleStep::Next(
                PppoeLifecyclePhase::UnregisteringPrograms { acknowledge },
            ),
            _ => PppoeLifecycleStep::Next(PppoeLifecyclePhase::Running),
        },
        PppoeLifecyclePhase::UnregisteringPrograms { acknowledge } => PppoeLifecycleStep::Next(
            PppoeLifecyclePhase::DetachingXdp { acknowledge },
        ),
        PppoeLifecyclePhase::DetachingXdp { acknowledge } => PppoeLifecycleStep::Next(
            PppoeLifecyclePhase::CleaningUp { acknowledge },
        ),
        PppoeLifecyclePhase::CleaningUp { acknowledge } => if acknowledge {
            PppoeLifecycleStep::Next(PppoeLifecyclePhase::Acknowledging)
        } else {
            PppoeLifecycleStep::Finished
        },
        PppoeLifecyclePhase::Acknowledging => PppoeLifecycleStep::Finished,
    }
}

/// The order of the life of the data path: every step moves forward; a
/// failed set-up ends in removing the state and reporting the failure; the
/// XDP program is detached only right after the programs are unregistered,
/// the state is removed only right after that, and the stop is acknowledged
/// only right after the state is removed, and only where it was asked for.
pub proof fn lemma_lifecycle_order(phase: PppoeLifecyclePhase, event: PppoeLifecycleEvent, iface: Seq<char>)
    requires
        lifecycle_event_fits(phase, event),
    ensures
        lifecycle_next(phase, event, iface) matches PppoeLifecycleStepView::Next(p) ==> lifecycle_rank(p)
            > lifecycle_rank(phase),
        phase == PppoeLifecyclePhase::SettingUpPrograms ==> (event matches PppoeLifecycleEvent::ProgramsFailed(e)
            ==> lifecycle_next(phase, event, iface) == PppoeLifecycleStepView::CleanUpThenFail(
            programs_failure_text(iface, e),
        )),
        phase == PppoeLifecyclePhase::SettingUpPrograms && event is Done ==> lifecycle_next(
            phase,
            event,
            iface,
        ) is Ready,
        lifecycle_next(phase, event, iface) is CleanUpThenFail ==> phase
            == PppoeLifecyclePhase::SettingUpPrograms && event is ProgramsFailed,
        lifecycle_next(phase, event, iface) matches PppoeLifecycleStepView::Next(
            PppoeLifecyclePhase::DetachingXdp { .. },
        ) ==> phase is UnregisteringPrograms,
        lifecycle_next(phase, event, iface) matches PppoeLifecycleStepView::Next(
            PppoeLifecyclePhase::CleaningUp { .. },
        ) ==> phase is DetachingXdp,
        lifecycle_next(phase, event, iface) == PppoeLifecycleStepView::Next(
            PppoeLifecyclePhase::Acknowledging,
        ) <==> phase == (PppoeLifecyclePhase::CleaningUp { acknowledge: true }),
        lifecycle_next(phase, event, iface) is Finished ==> (phase == PppoeLifecyclePhase::Acknowledging
            || phase == (PppoeLifecyclePhase::CleaningUp { acknowledge: false })),
{
}

/// The MRU the native data path uses is one of the acknowledged and the
/// requested MRU, and exceeds neither.
pub proof fn lemma_mru_is_the_smaller(acked: u16, requested: u16)
    ensures
        min_mru(acked, requested) <= acked,
        min_mru(acked, requested) <= requested,
        min_mru(acked, requested) == acked || min_mru(acked, requested) == requested,
{
}

} // verus!
