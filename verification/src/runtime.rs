//! The decisions of the proxy runtime service: which image it runs, how the
//! answers of the container engine become runtime states, which containers
//! it removes, and how a latency test is planned.
use vstd::prelude::*;
use vstd::utf8::{decode_utf8, valid_utf8};

use crate::ids::{
    container_name_text, proxy_container_name, proxy_runtime_container_text,
};
use crate::proxy::{
    nodes_view, opt_view, ProxyError, ProxyNodeConfig, ProxyNodeRuntimeStatus, ProxyNodeView,
    ProxyRuntimeState,
};
use crate::text::{string_of, trim, trim_text};

verus! {

/// The image the runtime runs unless the environment names another.
pub open spec fn default_proxy_image() -> Seq<char> {
    "ghcr.io/longxingze0925/landscape-singbox:latest"@
}

/// The image the runtime runs: the one the environment names, unless that is
/// blank, else the default.
pub open spec fn proxy_image_of(env: Option<Seq<char>>) -> Seq<char> {
    match env {
        Some(image) => if trim_text(image).len() > 0 {
            image
        } else {
            default_proxy_image()
        },
        None => default_proxy_image(),
    }
}

/// The image the runtime runs, given the value of `LANDSCAPE_PROXY_IMAGE`.
pub fn select_proxy_image(env: Option<String>) -> (r: String)
    ensures
        r@ == proxy_image_of(opt_view(env)),
{
    match env {
        Some(image) => {
            let t = trim(image.as_str());
            if t.unicode_len() > 0 {
                image
            } else {
                string_of("ghcr.io/longxingze0925/landscape-singbox:latest")
            }
        },
        None => string_of("ghcr.io/longxingze0925/landscape-singbox:latest"),
    }
}

/// The code of a character with ASCII upper case letters made lower case.
pub open spec fn ascii_lower_code(c: char) -> u32 {
    if 'A' <= c && c <= 'Z' {
        (c as u32 + 32) as u32
    } else {
        c as u32
    }
}

/// Whether two texts are equal when ASCII letters are compared without case
/// (`str::eq_ignore_ascii_case`).
pub open spec fn eq_ignore_ascii_case(a: Seq<char>, b: Seq<char>) -> bool {
    a.len() == b.len() && forall|i: int| 0 <= i < a.len() ==> ascii_lower_code(#[trigger] a[i])
        == ascii_lower_code(b[i])
}

fn lower_code(c: char) -> (r: u32)
    ensures
        r == ascii_lower_code(c),
{
    if 'A' <= c && c <= 'Z' {
        c as u32 + 32
    } else {
        c as u32
    }
}

/// Whether two texts are equal when ASCII letters are compared without case.
pub fn text_eq_ignore_ascii_case(a: &str, b: &str) -> (r: bool)
    ensures
        r == eq_ignore_ascii_case(a@, b@),
{
    let n = a.unicode_len();
    if n != b.unicode_len() {
        return false;
    }
    let mut i: usize = 0;
    while i < n
        invariant
            n == a@.len(),
            n == b@.len(),
            i <= n,
            forall|j: int| 0 <= j < i ==> ascii_lower_code(#[trigger] a@[j]) == ascii_lower_code(b@[j]),
        decreases n - i,
    {
        if lower_code(a.get_char(i)) != lower_code(b.get_char(i)) {
            return false;
        }
        i = i + 1;
    }
    true
}

/// When the runtime image is pulled.
#[derive(Clone, Copy, Debug, PartialEq, Eq, Structural)]
pub enum ImagePullPolicy {
    Never,
    Always,
    IfMissing,
}

/// The pull policy that `LANDSCAPE_PROXY_IMAGE_PULL_POLICY` names; unset or
/// anything other than `never` or `always` (in any case) means "if missing".
pub open spec fn pull_policy_of(env: Option<Seq<char>>) -> ImagePullPolicy {
    match env {
        Some(p) => if eq_ignore_ascii_case(p, "never"@) {
            ImagePullPolicy::Never
        } else if eq_ignore_ascii_case(p, "always"@) {
            ImagePullPolicy::Always
        } else {
            ImagePullPolicy::IfMissing
        },
        None => ImagePullPolicy::IfMissing,
    }
}

/// The pull policy that the environment names.
pub fn image_pull_policy(env: Option<String>) -> (r: ImagePullPolicy)
    ensures
        r == pull_policy_of(opt_view(env)),
{
    match env {
        Some(p) => {
            if text_eq_ignore_ascii_case(p.as_str(), "never") {
                ImagePullPolicy::Never
            } else if text_eq_ignore_ascii_case(p.as_str(), "always") {
                ImagePullPolicy::Always
            } else {
                ImagePullPolicy::IfMissing
            }
        },
        None => ImagePullPolicy::IfMissing,
    }
}

/// An error answer of the container engine: its HTTP status, where the
/// engine answered with one, and its text.
#[derive(Debug)]
pub struct DockerError {
    pub status_code: Option<u16>,
    pub message: String,
}

/// What an image inspection under the "if missing" policy means: `Ok(true)`
/// to pull (the image is not there), `Ok(false)` to go on, or the error.
pub fn pull_after_inspect(inspect: Result<(), DockerError>) -> (r: Result<bool, ProxyError>)
    ensures
        match inspect {
            Ok(()) => r == Ok::<bool, ProxyError>(false),
            Err(e) => if e.status_code == Some(404u16) {
                r == Ok::<bool, ProxyError>(true)
            } else {
                r matches Err(ProxyError::RuntimeDockerError(m)) && m@ == e.message@
            },
        },
{
    match inspect {
        Ok(()) => Ok(false),
        Err(e) => {
            if e.status_code == Some(404u16) {
                Ok(true)
            } else {
                Err(ProxyError::RuntimeDockerError(e.message))
            }
        },
    }
}

/// Whether a container removal succeeded as far as the runtime cares: done,
/// or there was no such container.
pub fn removal_outcome(result: Result<(), DockerError>) -> (r: Result<(), ProxyError>)
    ensures
        match result {
            Ok(()) => r is Ok,
            Err(e) => if e.status_code == Some(404u16) {
                r is Ok
            } else {
                r matches Err(ProxyError::RuntimeDockerError(m)) && m@ == e.message@
            },
        },
{
    match result {
        Ok(()) => Ok(()),
        Err(e) => {
            if e.status_code == Some(404u16) {
                Ok(())
            } else {
                Err(ProxyError::RuntimeDockerError(e.message))
            }
        },
    }
}

/// Whether stopping the runtime container succeeded as far as the runtime
/// cares: stopped, already stopped (304) or absent (404).
pub fn stop_outcome(result: Result<(), DockerError>) -> (r: Result<(), ProxyError>)
    ensures
        match result {
            Ok(()) => r is Ok,
            Err(e) => if e.status_code == Some(304u16) || e.status_code == Some(404u16) {
                r is Ok
            } else {
                r matches Err(ProxyError::RuntimeDockerError(m)) && m@ == e.message@
            },
        },
{
    match result {
        Ok(()) => Ok(()),
        Err(e) => {
            if e.status_code == Some(304u16) || e.status_code == Some(404u16) {
                Ok(())
            } else {
                Err(ProxyError::RuntimeDockerError(e.message))
            }
        },
    }
}

/// The status of a container, as the container engine reports it.
#[derive(Clone, Copy, Debug, PartialEq, Eq, Structural)]
pub enum ContainerStatus {
    Empty,
    Created,
    Running,
    Paused,
    Restarting,
    Removing,
    Exited,
    Dead,
}

/// The runtime state of a container with the reported status.
pub open spec fn state_of_status(status: Option<ContainerStatus>) -> ProxyRuntimeState {
    match status {
        Some(ContainerStatus::Created) => ProxyRuntimeState::Created,
        Some(ContainerStatus::Running) => ProxyRuntimeState::Running,
        Some(ContainerStatus::Exited) => ProxyRuntimeState::Exited,
        Some(ContainerStatus::Dead) => ProxyRuntimeState::Exited,
        _ => ProxyRuntimeState::Unknown,
    }
}

/// The engine's name of a status.
pub open spec fn status_text(status: ContainerStatus) -> Seq<char> {
    match status {
        ContainerStatus::Empty => Seq::<char>::empty(),
        ContainerStatus::Created => "created"@,
        ContainerStatus::Running => "running"@,
        ContainerStatus::Paused => "paused"@,
        ContainerStatus::Restarting => "restarting"@,
        ContainerStatus::Removing => "removing"@,
        ContainerStatus::Exited => "exited"@,
        ContainerStatus::Dead => "dead"@,
    }
}

/// The runtime state of a container with the reported status.
pub fn runtime_state_of(status: Option<ContainerStatus>) -> (r: ProxyRuntimeState)
    ensures
        r == state_of_status(status),
{
    match status {
        Some(ContainerStatus::Created) => ProxyRuntimeState::Created,
        Some(ContainerStatus::Running) => ProxyRuntimeState::Running,
        Some(ContainerStatus::Exited) => ProxyRuntimeState::Exited,
        Some(ContainerStatus::Dead) => ProxyRuntimeState::Exited,
        _ => ProxyRuntimeState::Unknown,
    }
}

/// The engine's name of a status.
pub fn container_status_text(status: ContainerStatus) -> (r: String)
    ensures
        r@ == status_text(status),
{
    match status {
        ContainerStatus::Empty => String::new(),
        ContainerStatus::Created => string_of("created"),
        ContainerStatus::Running => string_of("running"),
        ContainerStatus::Paused => string_of("paused"),
        ContainerStatus::Restarting => string_of("restarting"),
        ContainerStatus::Removing => string_of("removing"),
        ContainerStatus::Exited => string_of("exited"),
        ContainerStatus::Dead => string_of("dead"),
    }
}

/// The state of the runtime container after inspecting it: its status, or
/// `Missing` when the engine does not know it.
pub fn runtime_container_state(inspect: Result<Option<ContainerStatus>, DockerError>) -> (r: Result<
    ProxyRuntimeState,
    ProxyError,
>)
    ensures
        match inspect {
            Ok(status) => r == Ok::<ProxyRuntimeState, ProxyError>(state_of_status(status)),
            Err(e) => if e.status_code == Some(404u16) {
                r == Ok::<ProxyRuntimeState, ProxyError>(ProxyRuntimeState::Missing)
            } else {
                r matches Err(ProxyError::RuntimeDockerError(m)) && m@ == e.message@
            },
        },
{
    match inspect {
        Ok(status) => Ok(runtime_state_of(status)),
        Err(e) => {
            if e.status_code == Some(404u16) {
                Ok(ProxyRuntimeState::Missing)
            } else {
                Err(ProxyError::RuntimeDockerError(e.message))
            }
        },
    }
}

/// What the runtime service learns of a container: either the engine could
/// not be reached (with the error's text), or the answer to an inspection.
#[derive(Debug)]
pub enum ContainerProbe {
    Unreachable(String),
    Inspected(Result<Option<ContainerStatus>, DockerError>),
}

/// The runtime status of a node, from what the engine said of its container.
pub fn node_runtime_status(node_id: u128, image: &String, probe: ContainerProbe) -> (r: Result<
    ProxyNodeRuntimeStatus,
    ProxyError,
>)
    ensures
        match probe {
            ContainerProbe::Unreachable(m) => r matches Ok(s) && s.node_id == node_id
                && s.container_name@ == container_name_text(node_id) && s.state
                == ProxyRuntimeState::Unknown && s.image@ == image@ && opt_view(s.status) == Some(
                m@,
            ),
            ContainerProbe::Inspected(Ok(status)) => r matches Ok(s) && s.node_id == node_id
                && s.container_name@ == container_name_text(node_id) && s.state == state_of_status(
                status,
            ) && s.image@ == image@ && opt_view(s.status) == match status {
                Some(st) => Some(status_text(st)),
                None => None::<Seq<char>>,
            },
            ContainerProbe::Inspected(Err(e)) => if e.status_code == Some(404u16) {
                r matches Ok(s) && s.node_id == node_id && s.container_name@ == container_name_text(
                    node_id,
                ) && s.state == ProxyRuntimeState::Missing && s.image@ == image@ && s.status is None
            } else {
                r matches Err(ProxyError::RuntimeDockerError(m)) && m@ == e.message@
            },
        },
{
    let container_name = proxy_container_name(node_id);
    match probe {
        ContainerProbe::Unreachable(m) => Ok(
            ProxyNodeRuntimeStatus {
                node_id,
                container_name,
                state: ProxyRuntimeState::Unknown,
                image: image.clone(),
                status: Some(m),
            },
        ),
        ContainerProbe::Inspected(Ok(status)) => {
            let text = match status {
                Some(st) => Some(container_status_text(st)),
                None => None,
            };
            Ok(
                ProxyNodeRuntimeStatus {
                    node_id,
                    container_name,
                    state: runtime_state_of(status),
                    image: image.clone(),
                    status: text,
                },
            )
        },
        ContainerProbe::Inspected(Err(e)) => {
            if e.status_code == Some(404u16) {
                Ok(
                    ProxyNodeRuntimeStatus {
                        node_id,
                        container_name,
                        state: ProxyRuntimeState::Missing,
                        image: image.clone(),
                        status: None,
                    },
                )
            } else {
                Err(ProxyError::RuntimeDockerError(e.message))
            }
        },
    }
}

/// The per-node container names of an earlier layout, which the runtime
/// removes: every node's container name except the shared runtime's.
pub open spec fn legacy_names_of(nodes: Seq<ProxyNodeView>) -> Seq<Seq<char>>
    decreases nodes.len(),
{
    if nodes.len() == 0 {
        Seq::empty()
    } else {
        let rest = legacy_names_of(nodes.drop_last());
        let name = container_name_text(nodes.last().id);
        if name != proxy_runtime_container_text() {
            rest.push(name)
        } else {
            rest
        }
    }
}

/// The names of the per-node containers of an earlier layout, in node order.
pub fn legacy_container_names(nodes: &[ProxyNodeConfig]) -> (r: Vec<String>)
    ensures
        r@.map_values(|s: String| s@) == legacy_names_of(nodes_view(nodes@)),
{
    let ghost nv = nodes_view(nodes@);
    let mut names: Vec<String> = Vec::new();
    let mut i: usize = 0;
    while i < nodes.len()
        invariant
            i <= nodes@.len(),
            nv == nodes_view(nodes@),
            names@.map_values(|s: String| s@) == legacy_names_of(nv.subrange(0, i as int)),
        decreases nodes.len() - i,
    {
        assert(nv.subrange(0, i + 1).drop_last() =~= nv.subrange(0, i as int));
        assert(nv.subrange(0, i + 1).last() == nodes@[i as int]@);
        let name = proxy_container_name(nodes[i].id);
        let runtime = crate::ids::proxy_runtime_container_name();
        if !crate::text::str_equal(name.as_str(), runtime) {
            let ghost before = names@;
            names.push(name);
            assert(names@.map_values(|s: String| s@) =~= before.map_values(|s: String| s@).push(
                names@.last()@,
            ));
        }
        i = i + 1;
    }
    assert(nv.subrange(0, nodes@.len() as int) =~= nv);
    names
}

/// No node's container is named like the shared runtime container.
pub proof fn lemma_no_node_is_the_runtime(node_id: u128)
    ensures
        container_name_text(node_id) != proxy_runtime_container_text(),
{
    crate::text::lemma_hex_text_shape(node_id as nat, 32);
    assert(container_name_text(node_id).len() == 48);
    assert(proxy_runtime_container_text().len() == 23);
}

/// The position of the last occurrence of `c` in `s`.
pub open spec fn last_index_of(s: Seq<char>, c: char) -> Option<int>
    decreases s.len(),
{
    if s.len() == 0 {
        None
    } else if s.last() == c {
        Some(s.len() - 1)
    } else {
        last_index_of(s.drop_last(), c)
    }
}

/// What to pull for an image reference: a digest reference as it is; else
/// the repository and the tag after the last colon that follows the last
/// slash, with `latest` where there is no such colon.
pub open spec fn pull_request_of(image: Seq<char>) -> (Seq<char>, Option<Seq<char>>) {
    if image.contains('@') {
        (image, None)
    } else {
        match last_index_of(image, ':') {
            Some(colon) => if match last_index_of(image, '/') {
                Some(slash) => colon > slash,
                None => true,
            } {
                (image.subrange(0, colon), Some(image.subrange(colon + 1, image.len() as int)))
            } else {
                (image, Some("latest"@))
            },
            None => (image, Some("latest"@)),
        }
    }
}

/// The repository and tag to pull for an image reference.
#[derive(Debug, PartialEq, Eq)]
pub struct ImagePullRequest {
    pub from_image: String,
    pub tag: Option<String>,
}

/// The repository and tag to pull for an image reference.
pub fn create_image_options(image: &str) -> (r: ImagePullRequest)
    ensures
        (r.from_image@, opt_view(r.tag)) == pull_request_of(image@),
{
    let n = image.unicode_len();
    let mut has_at = false;
    let mut last_slash: Option<usize> = None;
    let mut last_colon: Option<usize> = None;
    let mut i: usize = 0;
    while i < n
        invariant
            n == image@.len(),
            i <= n,
            has_at == image@.subrange(0, i as int).contains('@'),
            match last_index_of(image@.subrange(0, i as int), '/') {
                Some(k) => last_slash == Some(k as usize) && 0 <= k < i,
                None => last_slash is None,
            },
            match last_index_of(image@.subrange(0, i as int), ':') {
                Some(k) => last_colon == Some(k as usize) && 0 <= k < i,
                None => last_colon is None,
            },
        decreases n - i,
    {
        let c = image.get_char(i);
        let ghost pre = image@.subrange(0, i as int);
        let ghost next = image@.subrange(0, i + 1);
        assert(next.drop_last() =~= pre);
        assert(next.last() == c);
        if c == '@' {
            has_at = true;
            assert(next[i as int] == '@');
        } else {
            assert(next.contains('@') ==> pre.contains('@')) by {
                if next.contains('@') {
                    let k = choose|k: int| 0 <= k < next.len() && next[k] == '@';
                    assert(pre[k] == next[k]);
                }
            }
            assert(pre.contains('@') ==> next.contains('@')) by {
                if pre.contains('@') {
                    let k = choose|k: int| 0 <= k < pre.len() && pre[k] == '@';
                    assert(next[k] == pre[k]);
                }
            }
        }
        if c == '/' {
            last_slash = Some(i);
        }
        if c == ':' {
            last_colon = Some(i);
        }
        i = i + 1;
    }
    assert(image@.subrange(0, n as int) =~= image@);
    if has_at {
        return ImagePullRequest { from_image: string_of(image), tag: None };
    }
    let split = match last_colon {
        Some(colon) => match last_slash {
            Some(slash) => colon > slash,
            None => true,
        },
        None => false,
    };
    if split {
        let colon = last_colon.unwrap();
        ImagePullRequest {
            from_image: string_of(image.substring_char(0, colon)),
            tag: Some(string_of(image.substring_char(colon + 1, n))),
        }
    } else {
        ImagePullRequest { from_image: string_of(image), tag: Some(string_of("latest")) }
    }
}

/// The enabled nodes, sorted by name then id.
pub fn enabled_sorted_nodes(nodes: Vec<ProxyNodeConfig>) -> (r: Vec<ProxyNodeConfig>)
    ensures
        crate::order::nodes_sorted(nodes_view(r@)),
        nodes_view(r@).to_multiset() == nodes_view(nodes@).filter(|n: ProxyNodeView| n.enable).to_multiset(),
{
    let ghost nv = nodes_view(nodes@);
    let mut enabled: Vec<ProxyNodeConfig> = Vec::new();
    let mut i: usize = 0;
    let n = nodes.len();
    while i < n
        invariant
            n == nodes@.len(),
            i <= n,
            nv == nodes_view(nodes@),
            nodes_view(enabled@) == nv.subrange(0, i as int).filter(|x: ProxyNodeView| x.enable),
        decreases n - i,
    {
        proof {
            reveal_with_fuel(Seq::filter, 1);
            assert(nv.subrange(0, i + 1).drop_last() =~= nv.subrange(0, i as int));
            assert(nv.subrange(0, i + 1).last() == nodes@[i as int]@);
        }
        if nodes[i].enable {
            let ghost before = enabled@;
            enabled.push(nodes[i].clone());
            assert(nodes_view(enabled@) =~= nodes_view(before).push(enabled@.last()@));
        }
        i = i + 1;
    }
    assert(nv.subrange(0, n as int) =~= nv);
    crate::order::sort_nodes(enabled)
}

/// All nodes, sorted by name then id.
pub fn sorted_nodes(nodes: Vec<ProxyNodeConfig>) -> (r: Vec<ProxyNodeConfig>)
    ensures
        crate::order::nodes_sorted(nodes_view(r@)),
        nodes_view(r@).to_multiset() == nodes_view(nodes@).to_multiset(),
{
    crate::order::sort_nodes(nodes)
}

/// The destinations a latency test measures.
#[derive(Clone, Copy, Debug, PartialEq, Eq, Structural)]
pub enum ProxyLatencyTestTarget {
    China,
    Global,
}

/// The outcomes of a latency test.
#[derive(Clone, Copy, Debug, PartialEq, Eq, Structural)]
pub enum ProxyLatencyTestState {
    Success,
    Failed,
    Timeout,
    RuntimeMissing,
    Disabled,
}

/// A request for latency tests: of the given nodes (all when none is given)
/// towards the given destinations (both when none is given).
#[derive(Debug)]
pub struct ProxyLatencyTestRequest {
    pub node_ids: Vec<u128>,
    pub targets: Vec<ProxyLatencyTestTarget>,
}

/// The URL a latency test towards a destination fetches.
pub open spec fn latency_url_of(target: ProxyLatencyTestTarget) -> Seq<char> {
    match target {
        ProxyLatencyTestTarget::China => "https://www.baidu.com"@,
        ProxyLatencyTestTarget::Global => "https://www.gstatic.com/generate_204"@,
    }
}

/// The URL a latency test towards `target` fetches.
pub fn latency_target_url(target: &ProxyLatencyTestTarget) -> (r: &'static str)
    ensures
        r@ == latency_url_of(*target),
{
    match target {
        ProxyLatencyTestTarget::China => "https://www.baidu.com",
        ProxyLatencyTestTarget::Global => "https://www.gstatic.com/generate_204",
    }
}

/// What to do for one node and destination: report an outcome at once, or
/// probe through the node's test port.
#[derive(Debug)]
pub enum LatencyAction {
    Report { state: ProxyLatencyTestState, error: Option<String> },
    Probe { port: u16 },
}

/// One planned latency test.
#[derive(Debug)]
pub struct LatencyJob {
    pub node_id: u128,
    pub node_name: String,
    pub target: ProxyLatencyTestTarget,
    pub action: LatencyAction,
}

pub enum LatencyActionView {
    Report { state: ProxyLatencyTestState, error: Option<Seq<char>> },
    Probe { port: u16 },
}

pub struct LatencyJobView {
    pub node_id: u128,
    pub node_name: Seq<char>,
    pub target: ProxyLatencyTestTarget,
    pub action: LatencyActionView,
}

/// The abstract value of a latency action.
pub open spec fn action_view(a: LatencyAction) -> LatencyActionView {
    match a {
        LatencyAction::Report { state, error } => LatencyActionView::Report {
            state,
            error: opt_view(error),
        },
        LatencyAction::Probe { port } => LatencyActionView::Probe { port },
    }
}

impl View for LatencyJob {
    type V = LatencyJobView;

    open spec fn view(&self) -> LatencyJobView {
        LatencyJobView {
            node_id: self.node_id,
            node_name: self.node_name@,
            target: self.target,
            action: action_view(self.action),
        }
    }
}

/// The name under which a runtime state is reported (its `Debug` form).
pub open spec fn state_name(s: ProxyRuntimeState) -> Seq<char> {
    match s {
        ProxyRuntimeState::Missing => "Missing"@,
        ProxyRuntimeState::Created => "Created"@,
        ProxyRuntimeState::Running => "Running"@,
        ProxyRuntimeState::Exited => "Exited"@,
        ProxyRuntimeState::Unknown => "Unknown"@,
    }
}

fn state_name_text(s: ProxyRuntimeState) -> (r: &'static str)
    ensures
        r@ == state_name(s),
{
    match s {
        ProxyRuntimeState::Missing => "Missing",
        ProxyRuntimeState::Created => "Created",
        ProxyRuntimeState::Running => "Running",
        ProxyRuntimeState::Exited => "Exited",
        ProxyRuntimeState::Unknown => "Unknown",
    }
}

/// The nodes a request selects, in order.
pub open spec fn selected_nodes(nodes: Seq<ProxyNodeView>, ids: Seq<u128>) -> Seq<ProxyNodeView> {
    if ids.len() == 0 {
        nodes
    } else {
        nodes.filter(|n: ProxyNodeView| ids.contains(n.id))
    }
}

/// The destinations a request measures.
pub open spec fn requested_targets(targets: Seq<ProxyLatencyTestTarget>) -> Seq<ProxyLatencyTestTarget> {
    if targets.len() == 0 {
        seq![ProxyLatencyTestTarget::China, ProxyLatencyTestTarget::Global]
    } else {
        targets
    }
}

/// The test port of a node: that of its last position among the enabled nodes.
pub open spec fn port_of_node(enabled: Seq<ProxyNodeView>, id: u128) -> Option<u16>
    decreases enabled.len(),
{
    if enabled.len() == 0 {
        None
    } else if enabled.last().id == id {
        Some((crate::singbox::NODE_TEST_PORT_BASE + enabled.len() - 1) as u16)
    } else {
        port_of_node(enabled.drop_last(), id)
    }
}

/// What is done for a node: with the runtime missing (and why), report
/// that; else disabled nodes are reported as such, nodes without a test port
/// as failed, and the rest are probed.
pub open spec fn node_action(node: ProxyNodeView, enabled: Seq<ProxyNodeView>, missing: Option<Seq<char>>) -> LatencyActionView {
    match missing {
        Some(m) => LatencyActionView::Report {
            state: ProxyLatencyTestState::RuntimeMissing,
            error: Some(m),
        },
        None => if !node.enable {
            LatencyActionView::Report { state: ProxyLatencyTestState::Disabled, error: None }
        } else {
            match port_of_node(enabled, node.id) {
                Some(p) => LatencyActionView::Probe { port: p },
                None => LatencyActionView::Report {
                    state: ProxyLatencyTestState::Failed,
                    error: Some("missing test port mapping"@),
                },
            }
        },
    }
}

/// The jobs for the nodes, node by node, each towards every destination in order.
pub open spec fn jobs_for(
    nodes: Seq<ProxyNodeView>,
    targets: Seq<ProxyLatencyTestTarget>,
    enabled: Seq<ProxyNodeView>,
    missing: Option<Seq<char>>,
) -> Seq<LatencyJobView>
    decreases nodes.len(),
{
    if nodes.len() == 0 {
        Seq::empty()
    } else {
        let n = nodes.last();
        jobs_for(nodes.drop_last(), targets, enabled, missing) + targets.map_values(
            |t: ProxyLatencyTestTarget|
                LatencyJobView {
                    node_id: n.id,
                    node_name: n.name,
                    target: t,
                    action: node_action(n, enabled, missing),
                },
        )
    }
}

/// Why the runtime counts as missing, from what the engine said of the
/// runtime container; `Ok(None)` when it runs.
pub open spec fn runtime_missing_reason(probe: ContainerProbe) -> Result<Option<Seq<char>>, Seq<char>> {
    match probe {
        ContainerProbe::Unreachable(m) => Ok(Some(m@)),
        ContainerProbe::Inspected(res) => {
            let state = match res {
                Ok(status) => Ok(state_of_status(status)),
                Err(e) => if e.status_code == Some(404u16) {
                    Ok(ProxyRuntimeState::Missing)
                } else {
                    Err(e.message@)
                },
            };
            match state {
                Ok(s) => if s == ProxyRuntimeState::Running {
                    Ok(None)
                } else {
                    Ok(Some("proxy runtime is "@ + state_name(s)))
                },
                Err(m) => Err(m),
            }
        },
    }
}

fn missing_reason(probe: ContainerProbe) -> (r: Result<Option<String>, ProxyError>)
    ensures
        match runtime_missing_reason(probe) {
            Ok(m) => r matches Ok(x) && opt_view(x) == m,
            Err(m) => r matches Err(ProxyError::RuntimeDockerError(e)) && e@ == m,
        },
{
    match probe {
        ContainerProbe::Unreachable(m) => Ok(Some(m)),
        ContainerProbe::Inspected(res) => {
            let state = match runtime_container_state(res) {
                Ok(s) => s,
                Err(e) => return Err(e),
            };
            if state == ProxyRuntimeState::Running {
                Ok(None)
            } else {
                let mut m = string_of("proxy runtime is ");
                m.append(state_name_text(state));
                Ok(Some(m))
            }
        },
    }
}

/// The test port of node `id`: that of its last position among the enabled nodes.
fn node_port(enabled: &[ProxyNodeConfig], id: u128) -> (r: Option<u16>)
    requires
        enabled@.len() <= 53436,
    ensures
        r == port_of_node(nodes_view(enabled@), id),
{
    let ghost ev = nodes_view(enabled@);
    let mut k: usize = enabled.len();
    assert(ev.subrange(0, k as int) =~= ev);
    while k > 0
        invariant
            k <= enabled@.len() <= 53436,
            ev == nodes_view(enabled@),
            port_of_node(ev, id) == port_of_node(ev.subrange(0, k as int), id),
        decreases k,
    {
        let ghost sub = ev.subrange(0, k as int);
        assert(sub.drop_last() =~= ev.subrange(0, k - 1));
        assert(sub.last() == enabled@[k - 1]@);
        if enabled[k - 1].id == id {
            return Some((crate::singbox::NODE_TEST_PORT_BASE + (k - 1) as u32) as u16);
        }
        k = k - 1;
    }
    None
}

fn clone_action(a: &LatencyAction) -> (r: LatencyAction)
    ensures
        action_view(r) == action_view(*a),
{
    match a {
        LatencyAction::Report { state, error } => LatencyAction::Report {
            state: *state,
            error: crate::proxy::clone_opt(error),
        },
        LatencyAction::Probe { port } => LatencyAction::Probe { port: *port },
    }
}

/// The latency tests to run or report, node by node (in the order of the
/// sorted nodes that the request selects), each towards every destination.
/// `sorted` holds all nodes and `enabled` the enabled ones, both sorted;
/// `runtime` is what the engine said of the shared runtime container.
pub fn plan_latency_tests(
    sorted: &[ProxyNodeConfig],
    enabled: &[ProxyNodeConfig],
    request: &ProxyLatencyTestRequest,
    runtime: ContainerProbe,
) -> (r: Result<Vec<LatencyJob>, ProxyError>)
    ensures
        if enabled@.len() > 53436 {
            r matches Err(ProxyError::RuntimeConfigError(e)) && e@ == crate::singbox::test_port_error_text(
                53436,
            )
        } else {
            match runtime_missing_reason(runtime) {
                Err(m) => r matches Err(ProxyError::RuntimeDockerError(e)) && e@ == m,
                Ok(missing) => r matches Ok(jobs) && jobs@.map_values(|j: LatencyJob| j@) == jobs_for(
                    selected_nodes(nodes_view(sorted@), request.node_ids@),
                    requested_targets(request.targets@),
                    nodes_view(enabled@),
                    missing,
                ),
            }
        },
{
    // Every enabled node must have a test port.
    let mut i: usize = 0;
    while i < enabled.len()
        invariant
            i <= enabled@.len(),
            i <= 53436,
        decreases enabled.len() - i,
    {
        match crate::singbox::node_test_port(i) {
            Ok(_) => {},
            Err(e) => return Err(e),
        }
        if i == 53436 {
            assert(false);
        }
        i = i + 1;
    }
    let missing = match missing_reason(runtime) {
        Ok(m) => m,
        Err(e) => return Err(e),
    };
    let ghost mv = opt_view(missing);

    // The selected nodes.
    let ghost ids = request.node_ids@;
    let mut id_set: std::collections::HashSet<u128> = std::collections::HashSet::new();
    let mut k: usize = 0;
    while k < request.node_ids.len()
        invariant
            k <= ids.len(),
            ids == request.node_ids@,
            forall|x: u128| #[trigger] id_set@.contains(x) <==> ids.subrange(0, k as int).contains(x),
        decreases request.node_ids.len() - k,
    {
        let ghost pre = ids.subrange(0, k as int);
        let ghost next = ids.subrange(0, k + 1);
        let ghost before = id_set@;
        let v = request.node_ids[k];
        id_set.insert(v);
        assert(id_set@ == before.insert(v));
        assert(next[k as int] == v);
        assert forall|x: u128| #[trigger] id_set@.contains(x) <==> next.contains(x) by {
            if next.contains(x) {
                let j = choose|j: int| 0 <= j < next.len() && next[j] == x;
                if j < k {
                    assert(pre[j] == x);
                }
            }
            if pre.contains(x) {
                let j = choose|j: int| 0 <= j < pre.len() && pre[j] == x;
                assert(next[j] == x);
            }
        }
        k = k + 1;
    }
    assert(ids.subrange(0, ids.len() as int) =~= ids);
    let filter_all = request.node_ids.len() == 0;
    let ghost sv = nodes_view(sorted@);
    let mut chosen: Vec<ProxyNodeConfig> = Vec::new();
    let mut k: usize = 0;
    while k < sorted.len()
        invariant
            k <= sorted@.len(),
            sv == nodes_view(sorted@),
            filter_all == (ids.len() == 0),
            forall|x: u128| #[trigger] id_set@.contains(x) <==> ids.contains(x),
            nodes_view(chosen@) == selected_nodes(sv.subrange(0, k as int), ids),
        decreases sorted.len() - k,
    {
        proof {
            reveal_with_fuel(Seq::filter, 1);
            assert(sv.subrange(0, k + 1).drop_last() =~= sv.subrange(0, k as int));
            assert(sv.subrange(0, k + 1).last() == sorted@[k as int]@);
        }
        if filter_all || id_set.contains(&sorted[k].id) {
            let ghost before = chosen@;
            chosen.push(sorted[k].clone());
            assert(nodes_view(chosen@) =~= nodes_view(before).push(chosen@.last()@));
        }
        k = k + 1;
    }
    assert(sv.subrange(0, sorted@.len() as int) =~= sv);
    let ghost sel = nodes_view(chosen@);

    // The destinations.
    let mut targets: Vec<ProxyLatencyTestTarget> = Vec::new();
    if request.targets.len() == 0 {
        targets.push(ProxyLatencyTestTarget::China);
        targets.push(ProxyLatencyTestTarget::Global);
        assert(targets@ =~= requested_targets(request.targets@));
    } else {
        let mut t: usize = 0;
        while t < request.targets.len()
            invariant
                t <= request.targets@.len(),
                targets@ == request.targets@.subrange(0, t as int),
            decreases request.targets.len() - t,
        {
            targets.push(request.targets[t]);
            t = t + 1;
        }
        assert(targets@ =~= requested_targets(request.targets@));
    }
    let ghost tv = targets@;
    let ghost ev = nodes_view(enabled@);

    // The jobs.
    let mut jobs: Vec<LatencyJob> = Vec::new();
    let mut n: usize = 0;
    while n < chosen.len()
        invariant
            n <= chosen@.len(),
            sel == nodes_view(chosen@),
            tv == targets@,
            ev == nodes_view(enabled@),
            enabled@.len() <= 53436,
            mv == opt_view(missing),
            jobs@.map_values(|j: LatencyJob| j@) == jobs_for(sel.subrange(0, n as int), tv, ev, mv),
        decreases chosen.len() - n,
    {
        let node = &chosen[n];
        let action = match &missing {
            Some(m) => LatencyAction::Report {
                state: ProxyLatencyTestState::RuntimeMissing,
                error: Some(m.clone()),
            },
            None => {
                if !node.enable {
                    LatencyAction::Report { state: ProxyLatencyTestState::Disabled, error: None }
                } else {
                    match node_port(enabled, node.id) {
                        Some(p) => LatencyAction::Probe { port: p },
                        None => LatencyAction::Report {
                            state: ProxyLatencyTestState::Failed,
                            error: Some(string_of("missing test port mapping")),
                        },
                    }
                }
            },
        };
        let ghost nodev = sel[n as int];
        assert(nodev == node@);
        let ghost row = tv.map_values(
            |t: ProxyLatencyTestTarget|
                LatencyJobView {
                    node_id: nodev.id,
                    node_name: nodev.name,
                    target: t,
                    action: node_action(nodev, ev, mv),
                },
        );
        let ghost base = jobs@.map_values(|j: LatencyJob| j@);
        let mut t: usize = 0;
        while t < targets.len()
            invariant
                t <= tv.len(),
                tv == targets@,
                base == jobs_for(sel.subrange(0, n as int), tv, ev, mv),
                jobs@.map_values(|j: LatencyJob| j@) == base + row.subrange(0, t as int),
                action_view(action) == node_action(nodev, ev, mv),
                nodev == node@,
                row == tv.map_values(
                    |x: ProxyLatencyTestTarget|
                        LatencyJobView {
                            node_id: nodev.id,
                            node_name: nodev.name,
                            target: x,
                            action: node_action(nodev, ev, mv),
                        },
                ),
            decreases targets.len() - t,
        {
            let job = LatencyJob {
                node_id: node.id,
                node_name: node.name.clone(),
                target: targets[t],
                action: clone_action(&action),
            };
            let ghost before = jobs@;
            assert(job@ == row[t as int]);
            jobs.push(job);
            assert(jobs@ == before.push(job));
            assert(jobs@.map_values(|j: LatencyJob| j@) =~= before.map_values(|j: LatencyJob| j@).push(job@));
            assert(jobs@.map_values(|j: LatencyJob| j@) =~= base + row.subrange(0, t + 1));
            t = t + 1;
        }
        proof {
            assert(row.subrange(0, tv.len() as int) =~= row);
            assert(sel.subrange(0, n + 1).drop_last() =~= sel.subrange(0, n as int));
            assert(sel.subrange(0, n + 1).last() == nodev);
        }
        n = n + 1;
    }
    assert(sel.subrange(0, chosen@.len() as int) =~= sel);
    Ok(jobs)
}

/// A bind mount of a host path into the container.
#[derive(Debug, PartialEq, Eq)]
pub struct BindMount {
    pub target: String,
    pub source: String,
    pub read_only: bool,
}

/// When the container engine restarts a container.
#[derive(Clone, Copy, Debug, PartialEq, Eq, Structural)]
pub enum RestartPolicyKind {
    No,
    Always,
    UnlessStopped,
    OnFailure,
}

/// How the runtime container is created.
#[derive(Debug, PartialEq, Eq)]
pub struct RuntimeContainerSpec {
    pub image: String,
    pub env: Vec<String>,
    pub labels: Vec<(String, String)>,
    pub restart_policy: RestartPolicyKind,
    pub restart_max_retries: i64,
    pub cap_add: Vec<String>,
    pub sysctls: Vec<(String, String)>,
    pub mounts: Vec<BindMount>,
}

/// The views of the pairs of strings.
pub open spec fn pairs_view(s: Seq<(String, String)>) -> Seq<(Seq<char>, Seq<char>)> {
    s.map_values(|p: (String, String)| (p.0@, p.1@))
}

/// The views of the bind mounts, as (target, source, read-only).
pub open spec fn mounts_view(s: Seq<BindMount>) -> Seq<(Seq<char>, Seq<char>, bool)> {
    s.map_values(|m: BindMount| (m.target@, m.source@, m.read_only))
}

/// The environment of the runtime container.
pub open spec fn runtime_env() -> Seq<Seq<char>> {
    seq![
        "LAND_PROXY_SERVER_ADDR=0.0.0.0"@,
        "LAND_PROXY_SERVER_ADDR_V6=::"@,
        "LAND_PROXY_SERVER_PORT=12000"@,
        "LAND_PROXY_HANDLE_MODE=multiple_tproxy"@,
    ]
}

/// Whether `r` is the runtime container created from `image`: with the
/// runtime's environment, label, capabilities and sysctl, restarted unless
/// stopped (no retry limit), with the configuration file and the
/// namespace-registration socket directory bound read-only.
pub open spec fn is_runtime_spec(
    r: RuntimeContainerSpec,
    image: Seq<char>,
    config_path: Seq<char>,
    socket_dir: Seq<char>,
    socket_dir_in_container: Seq<char>,
) -> bool {
    &&& r.image@ == image
    &&& r.env@.map_values(|s: String| s@) == runtime_env()
    &&& pairs_view(r.labels@) == seq![("ld_flow_edge"@, "proxy"@)]
    &&& r.restart_policy == RestartPolicyKind::UnlessStopped
    &&& r.restart_max_retries == 0
    &&& r.cap_add@.map_values(|s: String| s@) == seq!["NET_ADMIN"@, "BPF"@, "PERFMON"@]
    &&& pairs_view(r.sysctls@) == seq![("net.ipv4.conf.lo.accept_local"@, "1"@)]
    &&& mounts_view(r.mounts@) == seq![
        ("/etc/sing-box/config.json"@, config_path, true),
        ("/"@ + socket_dir_in_container, socket_dir, true),
    ]
}

/// How the runtime container is created from `image`, with the given
/// configuration file and socket directory.
pub fn runtime_container_spec(image: &str, config_path: &str, socket_dir: &str, socket_dir_in_container: &str) -> (r: RuntimeContainerSpec)
    ensures
        is_runtime_spec(r, image@, config_path@, socket_dir@, socket_dir_in_container@),
{
    let mut env: Vec<String> = Vec::new();
    env.push(string_of("LAND_PROXY_SERVER_ADDR=0.0.0.0"));
    env.push(string_of("LAND_PROXY_SERVER_ADDR_V6=::"));
    env.push(string_of("LAND_PROXY_SERVER_PORT=12000"));
    env.push(string_of("LAND_PROXY_HANDLE_MODE=multiple_tproxy"));
    let mut labels: Vec<(String, String)> = Vec::new();
    labels.push((string_of("ld_flow_edge"), string_of("proxy")));
    let mut caps: Vec<String> = Vec::new();
    caps.push(string_of("NET_ADMIN"));
    caps.push(string_of("BPF"));
    caps.push(string_of("PERFMON"));
    let mut sysctls: Vec<(String, String)> = Vec::new();
    sysctls.push((string_of("net.ipv4.conf.lo.accept_local"), string_of("1")));
    let mut socket_target = string_of("/");
    socket_target.append(socket_dir_in_container);
    let mut mounts: Vec<BindMount> = Vec::new();
    mounts.push(BindMount { target: string_of("/etc/sing-box/config.json"), source: string_of(config_path), read_only: true });
    mounts.push(BindMount { target: socket_target, source: string_of(socket_dir), read_only: true });
    let r = RuntimeContainerSpec {
        image: string_of(image),
        env,
        labels,
        restart_policy: RestartPolicyKind::UnlessStopped,
        restart_max_retries: 0,
        cap_add: caps,
        sysctls,
        mounts,
    };
    assert(r.env@.map_values(|s: String| s@) =~= runtime_env());
    assert(pairs_view(r.labels@) =~= seq![("ld_flow_edge"@, "proxy"@)]);
    assert(r.cap_add@.map_values(|s: String| s@) =~= seq!["NET_ADMIN"@, "BPF"@, "PERFMON"@]);
    assert(pairs_view(r.sysctls@) =~= seq![("net.ipv4.conf.lo.accept_local"@, "1"@)]);
    assert(mounts_view(r.mounts@) =~= seq![
        ("/etc/sing-box/config.json"@, config_path@, true),
        ("/"@ + socket_dir_in_container@, socket_dir@, true),
    ]);
    r
}

/// `std::str::from_utf8`: the text that the bytes encode in UTF-8, or
/// `None` where they are not valid UTF-8 (as its documentation says).
#[verifier::external_body]
fn utf8_text(bytes: &[u8]) -> (r: Option<String>)
    ensures
        r is Some <==> valid_utf8(bytes@),
        r matches Some(s) ==> s@ == decode_utf8(bytes@),
{
    std::str::from_utf8(bytes).ok().map(|s| s.to_string())
}

/// How the runtime container is created, from the bytes of the host paths
/// of its configuration file and of the socket directory: each must be
/// text (valid UTF-8), the configuration file's path first.
pub fn runtime_container_config(
    image: &str,
    config_path: &[u8],
    socket_dir: &[u8],
    socket_dir_in_container: &str,
) -> (r: Result<RuntimeContainerSpec, ProxyError>)
    ensures
        !valid_utf8(config_path@) ==> (r matches Err(ProxyError::RuntimeConfigError(m)) && m@
            == "invalid proxy config path"@),
        valid_utf8(config_path@) && !valid_utf8(socket_dir@) ==> (r matches Err(
            ProxyError::RuntimeConfigError(m),
        ) && m@ == "invalid unix socket path"@),
        valid_utf8(config_path@) && valid_utf8(socket_dir@) ==> (r matches Ok(spec)
            && is_runtime_spec(
            spec,
            image@,
            decode_utf8(config_path@),
            decode_utf8(socket_dir@),
            socket_dir_in_container@,
        )),
{
    let config = match utf8_text(config_path) {
        Some(s) => s,
        None => return Err(ProxyError::RuntimeConfigError(string_of("invalid proxy config path"))),
    };
    let socket = match utf8_text(socket_dir) {
        Some(s) => s,
        None => return Err(ProxyError::RuntimeConfigError(string_of("invalid unix socket path"))),
    };
    Ok(runtime_container_spec(image, config.as_str(), socket.as_str(), socket_dir_in_container))
}

/// The position of the node with the id `id`, or `NodeNotFound` naming it.
pub fn find_node(nodes: &[ProxyNodeConfig], id: u128) -> (r: Result<usize, ProxyError>)
    ensures
        r matches Ok(i) ==> i < nodes@.len() && nodes@[i as int].id == id && forall|j: int|
            0 <= j < i ==> nodes@[j].id != id,
        r is Err ==> (r matches Err(ProxyError::NodeNotFound(x)) && x == id) && forall|j: int|
            0 <= j < nodes@.len() ==> nodes@[j].id != id,
{
    let mut i: usize = 0;
    while i < nodes.len()
        invariant
            i <= nodes@.len(),
            forall|j: int| 0 <= j < i ==> nodes@[j].id != id,
        decreases nodes.len() - i,
    {
        if nodes[i].id == id {
            return Ok(i);
        }
        i = i + 1;
    }
    Err(ProxyError::NodeNotFound(id))
}

/// The verdict on syncing a node: a disabled node is refused (after the
/// runtime has been synced all the same).
pub fn sync_node_verdict(node: &ProxyNodeConfig) -> (r: Result<(), ProxyError>)
    ensures
        node.enable ==> r is Ok,
        !node.enable ==> (r matches Err(ProxyError::NodeDisabled(x)) && x == node.id),
{
    if node.enable {
        Ok(())
    } else {
        Err(ProxyError::NodeDisabled(node.id))
    }
}

/// Every latency job planned while the runtime is missing reports that, with
/// the reason: a job is never a probe then.
pub proof fn lemma_jobs_report_missing_runtime(
    nodes: Seq<ProxyNodeView>,
    targets: Seq<ProxyLatencyTestTarget>,
    enabled: Seq<ProxyNodeView>,
    missing: Option<Seq<char>>,
)
    ensures
        jobs_for(nodes, targets, enabled, missing).len() == nodes.len() * targets.len(),
        forall|i: int|
            0 <= i < jobs_for(nodes, targets, enabled, missing).len() && missing is Some ==> (
            #[trigger] jobs_for(nodes, targets, enabled, missing)[i]).action
                == (LatencyActionView::Report {
                state: ProxyLatencyTestState::RuntimeMissing,
                error: missing,
            }),
        forall|i: int|
            0 <= i < jobs_for(nodes, targets, enabled, missing).len() && (
            #[trigger] jobs_for(nodes, targets, enabled, missing)[i]).action is Probe ==> missing
                is None,
    decreases nodes.len(),
{
    if nodes.len() > 0 {
        let rest = nodes.drop_last();
        lemma_jobs_report_missing_runtime(rest, targets, enabled, missing);
        let before = jobs_for(rest, targets, enabled, missing);
        let all = jobs_for(nodes, targets, enabled, missing);
        assert(nodes.len() * targets.len() == rest.len() * targets.len() + targets.len()) by (
        nonlinear_arith)
            requires
                nodes.len() == rest.len() + 1,
        ;
        assert forall|i: int| 0 <= i < all.len() && missing is Some implies (#[trigger] all[i]).action
            == (LatencyActionView::Report {
            state: ProxyLatencyTestState::RuntimeMissing,
            error: missing,
        }) by {
            if i < before.len() {
                assert(all[i] == before[i]);
            }
        }
        assert forall|i: int| 0 <= i < all.len() && (#[trigger] all[i]).action is Probe implies missing
            is None by {
            if i < before.len() {
                assert(all[i] == before[i]);
            }
        }
    }
}

/// The runtime counts as running only when the engine reports its container
/// `running`: then nothing is missing. Otherwise the engine's error is
/// passed on, except that an unknown container (404) is the runtime
/// `Missing`, and every other state is named in the reason; an unreachable
/// engine is a reason of its own.
pub proof fn lemma_missing_reason_cases(probe: ContainerProbe)
    ensures
        (runtime_missing_reason(probe) == Ok::<Option<Seq<char>>, Seq<char>>(None)) <==> (probe
            matches ContainerProbe::Inspected(Ok(Some(st))) && st == ContainerStatus::Running),
        probe matches ContainerProbe::Unreachable(m) ==> runtime_missing_reason(probe) == Ok::<
            Option<Seq<char>>,
            Seq<char>,
        >(Some(m@)),
        probe matches ContainerProbe::Inspected(Err(e)) ==> runtime_missing_reason(probe) == (if e.status_code
            == Some(404u16) {
            Ok::<Option<Seq<char>>, Seq<char>>(Some("proxy runtime is "@ + "Missing"@))
        } else {
            Err::<Option<Seq<char>>, Seq<char>>(e.message@)
        }),
        probe matches ContainerProbe::Inspected(Ok(st)) ==> (st != Some(ContainerStatus::Running)
            ==> runtime_missing_reason(probe) == Ok::<Option<Seq<char>>, Seq<char>>(
            Some("proxy runtime is "@ + state_name(state_of_status(st))),
        )),
{
    match probe {
        ContainerProbe::Unreachable(m) => {},
        ContainerProbe::Inspected(res) => {
            match res {
                Ok(st) => {
                    if st != Some(ContainerStatus::Running) {
                        assert(state_of_status(st) != ProxyRuntimeState::Running);
                    }
                },
                Err(e) => {},
            }
        },
    }
}

/// A latency test is probed only through a runtime whose container the
/// engine reports `running`; for a runtime in any other state, missing
/// included, every job reports the runtime missing.
pub proof fn lemma_probe_needs_running_runtime(
    probe: ContainerProbe,
    missing: Option<Seq<char>>,
    nodes: Seq<ProxyNodeView>,
    targets: Seq<ProxyLatencyTestTarget>,
    enabled: Seq<ProxyNodeView>,
)
    requires
        runtime_missing_reason(probe) == Ok::<Option<Seq<char>>, Seq<char>>(missing),
    ensures
        forall|i: int|
            0 <= i < jobs_for(nodes, targets, enabled, missing).len() && (
            #[trigger] jobs_for(nodes, targets, enabled, missing)[i]).action is Probe ==> (probe
                matches ContainerProbe::Inspected(Ok(Some(st))) && st == ContainerStatus::Running),
        !(probe matches ContainerProbe::Inspected(Ok(Some(st))) && st == ContainerStatus::Running)
            ==> forall|i: int|
            0 <= i < jobs_for(nodes, targets, enabled, missing).len() ==> (
            #[trigger] jobs_for(nodes, targets, enabled, missing)[i]).action
                == (LatencyActionView::Report {
                state: ProxyLatencyTestState::RuntimeMissing,
                error: missing,
            }),
{
    lemma_missing_reason_cases(probe);
    lemma_jobs_report_missing_runtime(nodes, targets, enabled, missing);
}

/// A node's test port is that of one of its positions among the enabled
/// nodes; there is none only when no enabled node has its id.
pub proof fn lemma_port_of_node_position(enabled: Seq<ProxyNodeView>, id: u128)
    ensures
        port_of_node(enabled, id) matches Some(p) ==> exists|i: int|
            0 <= i < enabled.len() && (#[trigger] enabled[i]).id == id && p == (
            crate::singbox::NODE_TEST_PORT_BASE + i) as u16,
        port_of_node(enabled, id) is None <==> forall|i: int|
            0 <= i < enabled.len() ==> (#[trigger] enabled[i]).id != id,
    decreases enabled.len(),
{
    if enabled.len() > 0 {
        let rest = enabled.drop_last();
        lemma_port_of_node_position(rest, id);
        assert forall|i: int| 0 <= i < rest.len() implies #[trigger] rest[i] == enabled[i] by {}
        if enabled.last().id != id {
            if port_of_node(rest, id) is None {
                assert forall|i: int| 0 <= i < enabled.len() implies (#[trigger] enabled[i]).id != id by {
                    if i < rest.len() {
                        assert(rest[i] == enabled[i]);
                    }
                }
            }
        }
    }
}

/// A latency test probes a node through the port on which the runtime
/// configuration of the same enabled nodes has that node's local test
/// inbound, and that inbound is routed to the node's own outbound.
pub proof fn lemma_probe_port_reaches_node(
    enabled: Seq<ProxyNodeView>,
    flows: Seq<crate::flow::FlowConfigView>,
    id: u128,
    p: u16,
)
    requires
        port_of_node(enabled, id) == Some(p),
    ensures
        exists|i: int|
            0 <= i < enabled.len() && (#[trigger] enabled[i]).id == id && ({
                let c = crate::singbox::sing_box_config_of(enabled, flows);
                &&& c.inbounds[1 + i].listen_port == p
                &&& c.inbounds[1 + i].listen == "127.0.0.1"@
                &&& c.inbounds[1 + i].tag == crate::singbox::test_tag(id)
                &&& c.rules[i] == (crate::singbox::RouteRuleView {
                    inbound: seq![crate::singbox::test_tag(id)],
                    outbound: crate::singbox::node_tag(id),
                })
                &&& c.outbounds[i] == crate::singbox::OutboundView::Node(
                    crate::singbox::outbound_of(enabled[i], crate::singbox::node_tag(id)),
                )
            }),
{
    lemma_port_of_node_position(enabled, id);
    let i = choose|i: int|
        0 <= i < enabled.len() && (#[trigger] enabled[i]).id == id && p == (
        crate::singbox::NODE_TEST_PORT_BASE + i) as u16;
    crate::singbox::lemma_config_routes(enabled, flows, i);
}

/// The last occurrence of `c` is an occurrence with none after it; there is
/// none only where `c` does not occur.
proof fn lemma_last_index_of(s: Seq<char>, c: char)
    ensures
        last_index_of(s, c) matches Some(k) ==> 0 <= k < s.len() && s[k] == c && forall|j: int|
            k < j < s.len() ==> #[trigger] s[j] != c,
        last_index_of(s, c) is None <==> !s.contains(c),
    decreases s.len(),
{
    if s.len() > 0 {
        let d = s.drop_last();
        lemma_last_index_of(d, c);
        if s.last() != c {
            if let Some(k) = last_index_of(d, c) {
                assert(d[k] == s[k]);
                assert forall|j: int| k < j < s.len() implies #[trigger] s[j] != c by {
                    if j < d.len() {
                        assert(d[j] == s[j]);
                    }
                }
            } else {
                if s.contains(c) {
                    let j = choose|j: int| 0 <= j < s.len() && s[j] == c;
                    assert(d[j] == s[j]);
                }
            }
        } else {
            assert(s[s.len() - 1] == c);
        }
    }
}

/// Whether the image reference has a colon with no slash after it, which
/// starts its tag.
pub open spec fn has_tag_colon(image: Seq<char>) -> bool {
    exists|k: int|
        0 <= k < image.len() && image[k] == ':' && forall|j: int| k < j < image.len() ==> #[trigger] image[j] != '/'
}

/// An image reference is pulled as it is when it names a digest. Otherwise
/// it is split at the colon that starts its tag, so that the repository, a
/// colon and the tag give the reference back and the tag holds neither a
/// colon nor a slash; a reference without a tag is pulled with the tag
/// `latest`.
pub proof fn lemma_pull_request_splits_tag(image: Seq<char>)
    ensures
        image.contains('@') ==> pull_request_of(image) == (image, None::<Seq<char>>),
        !image.contains('@') && has_tag_colon(image) ==> ({
            let (from, tag) = pull_request_of(image);
            &&& tag is Some
            &&& from + seq![':'] + tag.unwrap() == image
            &&& !tag.unwrap().contains(':')
            &&& !tag.unwrap().contains('/')
        }),
        !image.contains('@') && !has_tag_colon(image) ==> pull_request_of(image) == (
            image,
            Some("latest"@),
        ),
{
    lemma_last_index_of(image, ':');
    lemma_last_index_of(image, '/');
    if !image.contains('@') {
        match last_index_of(image, ':') {
            Some(colon) => {
                let split = match last_index_of(image, '/') {
                    Some(slash) => colon > slash,
                    None => true,
                };
                if split {
                    let from = image.subrange(0, colon);
                    let tag = image.subrange(colon + 1, image.len() as int);
                    assert(from + seq![':'] + tag =~= image);
                    assert forall|j: int| colon < j < image.len() implies #[trigger] image[j] != '/' by {
                        if let Some(slash) = last_index_of(image, '/') {
                            if image[j] == '/' {
                                assert(j <= slash);
                            }
                        } else {
                            if image[j] == '/' {
                                assert(image.contains('/'));
                            }
                        }
                    }
                    assert(has_tag_colon(image));
                    if tag.contains(':') {
                        let j = choose|j: int| 0 <= j < tag.len() && tag[j] == ':';
                        assert(image[colon + 1 + j] == ':');
                    }
                    if tag.contains('/') {
                        let j = choose|j: int| 0 <= j < tag.len() && tag[j] == '/';
                        assert(image[colon + 1 + j] == '/');
                    }
                } else {
                    let slash = last_index_of(image, '/')->Some_0;
                    if has_tag_colon(image) {
                        let k = choose|k: int|
                            0 <= k < image.len() && image[k] == ':' && forall|j: int|
                                k < j < image.len() ==> #[trigger] image[j] != '/';
                        assert(k <= colon);
                        assert(image[slash] == '/');
                    }
                }
            },
            None => {
                if has_tag_colon(image) {
                    let k = choose|k: int|
                        0 <= k < image.len() && image[k] == ':' && forall|j: int|
                            k < j < image.len() ==> #[trigger] image[j] != '/';
                    assert(image.contains(':'));
                }
            },
        }
    }
}

/// The containers of the earlier layout that are removed are those of all
/// the nodes, one per node in node order: no node's container is the shared
/// runtime's, so none is spared.
pub proof fn lemma_legacy_names_are_all_nodes(nodes: Seq<ProxyNodeView>)
    ensures
        legacy_names_of(nodes) == nodes.map_values(|n: ProxyNodeView| container_name_text(n.id)),
    decreases nodes.len(),
{
    if nodes.len() > 0 {
        lemma_legacy_names_are_all_nodes(nodes.drop_last());
        lemma_no_node_is_the_runtime(nodes.last().id);
        assert(nodes.map_values(|n: ProxyNodeView| container_name_text(n.id)) =~= nodes.drop_last().map_values(
            |n: ProxyNodeView| container_name_text(n.id),
        ).push(container_name_text(nodes.last().id)));
    } else {
        assert(nodes.map_values(|n: ProxyNodeView| container_name_text(n.id)) =~= Seq::<Seq<char>>::empty());
    }
}

/// The jobs go node by node and, for each node, destination by destination:
/// the job at position `k * targets.len() + t` tests node `k` towards
/// destination `t`, and does what is done for that node.
pub proof fn lemma_jobs_node_by_node(
    nodes: Seq<ProxyNodeView>,
    targets: Seq<ProxyLatencyTestTarget>,
    enabled: Seq<ProxyNodeView>,
    missing: Option<Seq<char>>,
    k: int,
    t: int,
)
    requires
        0 <= k < nodes.len(),
        0 <= t < targets.len(),
    ensures
        0 <= k * targets.len() + t < jobs_for(nodes, targets, enabled, missing).len(),
        jobs_for(nodes, targets, enabled, missing)[k * targets.len() + t] == (LatencyJobView {
            node_id: nodes[k].id,
            node_name: nodes[k].name,
            target: targets[t],
            action: node_action(nodes[k], enabled, missing),
        }),
    decreases nodes.len(),
{
    lemma_jobs_report_missing_runtime(nodes, targets, enabled, missing);
    let rest = nodes.drop_last();
    lemma_jobs_report_missing_runtime(rest, targets, enabled, missing);
    let n = nodes.len() as int;
    let tl = targets.len() as int;
    assert(0 <= k * tl) by (nonlinear_arith)
        requires
            0 <= k,
            0 <= tl,
    ;
    if k < n - 1 {
        lemma_jobs_node_by_node(rest, targets, enabled, missing, k, t);
        assert(rest[k] == nodes[k]);
        assert(k * tl + t < (n - 1) * tl) by (nonlinear_arith)
            requires
                0 <= k < n - 1,
                0 <= t < tl,
        ;
    } else {
        assert(k * tl == (n - 1) * tl);
        assert((n - 1) * tl == rest.len() * tl);
    }
}

/// A request that names nodes tests exactly those of them that exist, in
/// node order; a request that names none tests every node.
pub proof fn lemma_selected_nodes(nodes: Seq<ProxyNodeView>, ids: Seq<u128>)
    ensures
        ids.len() == 0 ==> selected_nodes(nodes, ids) == nodes,
        ids.len() > 0 ==> forall|i: int|
            0 <= i < selected_nodes(nodes, ids).len() ==> ids.contains(
                (#[trigger] selected_nodes(nodes, ids)[i]).id,
            ) && nodes.contains(selected_nodes(nodes, ids)[i]),
        ids.len() > 0 ==> forall|j: int|
            0 <= j < nodes.len() && ids.contains((#[trigger] nodes[j]).id) ==> selected_nodes(
                nodes,
                ids,
            ).contains(nodes[j]),
{
    if ids.len() > 0 {
        let f = |n: ProxyNodeView| ids.contains(n.id);
        let sel = selected_nodes(nodes, ids);
        assert(sel == nodes.filter(f));
        assert forall|i: int| 0 <= i < sel.len() implies ids.contains((#[trigger] sel[i]).id) && nodes.contains(
            sel[i],
        ) by {
            nodes.lemma_filter_pred(f, i);
            assert(nodes.filter(f).contains(sel[i]));
            nodes.lemma_filter_contains_rev(f, sel[i]);
        }
        assert forall|j: int| 0 <= j < nodes.len() && ids.contains((#[trigger] nodes[j]).id) implies sel.contains(
            nodes[j],
        ) by {
            nodes.lemma_filter_contains(f, j);
        }
    }
}

} // verus!
