use landscape::flow::FlowConfig;
use landscape::order::sort_statuses;
use landscape::proxy::{
    node_deletion_check, ProxyError, ProxyNodeConfig, ProxyNodeRuntimeStatus, ProxyProtocolConfig,
    ProxyRuntimeState,
};
use landscape::runtime::{
    container_status_text, create_image_options, enabled_sorted_nodes, find_node, image_pull_policy,
    latency_target_url, legacy_container_names, node_runtime_status, plan_latency_tests,
    pull_after_inspect, removal_outcome, runtime_container_config, runtime_container_spec,
    runtime_container_state, RestartPolicyKind,
    runtime_state_of, select_proxy_image, sorted_nodes, stop_outcome, sync_node_verdict,
    text_eq_ignore_ascii_case,
    ContainerProbe, ContainerStatus, DockerError, ImagePullPolicy, LatencyAction,
    ProxyLatencyTestRequest, ProxyLatencyTestState, ProxyLatencyTestTarget,
};

const DEFAULT_IMAGE: &str = "ghcr.io/longxingze0925/landscape-singbox:latest";

fn node(id: u128, name: &str, enable: bool) -> ProxyNodeConfig {
    ProxyNodeConfig {
        id,
        name: name.to_string(),
        enable,
        server: "10.1.1.1".to_string(),
        port: 443,
        protocol: ProxyProtocolConfig::Shadowsocks {
            method: "aes-128-gcm".to_string(),
            password: "pw".to_string(),
        },
        remark: String::new(),
    }
}

fn docker_error(status: Option<u16>, message: &str) -> DockerError {
    DockerError { status_code: status, message: message.to_string() }
}

#[test]
fn image_comes_from_the_environment_unless_blank() {
    assert_eq!(select_proxy_image(None), DEFAULT_IMAGE);
    assert_eq!(select_proxy_image(Some("  \t".into())), DEFAULT_IMAGE);
    assert_eq!(select_proxy_image(Some(" my/image:1 ".into())), " my/image:1 ");
}

#[test]
fn pull_policy_names_ignore_case() {
    assert_eq!(image_pull_policy(Some("NEVER".into())), ImagePullPolicy::Never);
    assert_eq!(image_pull_policy(Some("Always".into())), ImagePullPolicy::Always);
    assert_eq!(image_pull_policy(Some("sometimes".into())), ImagePullPolicy::IfMissing);
    assert_eq!(image_pull_policy(None), ImagePullPolicy::IfMissing);
    assert!(text_eq_ignore_ascii_case("aBc", "AbC"));
    assert!(!text_eq_ignore_ascii_case("abc", "abd"));
    assert!(!text_eq_ignore_ascii_case("abc", "ab"));
}

#[test]
fn docker_answers_are_judged() {
    assert_eq!(pull_after_inspect(Ok(())).unwrap(), false);
    assert_eq!(pull_after_inspect(Err(docker_error(Some(404), "no such image"))).unwrap(), true);
    match pull_after_inspect(Err(docker_error(Some(500), "boom"))) {
        Err(ProxyError::RuntimeDockerError(m)) => assert_eq!(m, "boom"),
        other => panic!("unexpected {other:?}"),
    }
    assert!(removal_outcome(Err(docker_error(Some(404), "gone"))).is_ok());
    assert!(removal_outcome(Err(docker_error(Some(304), "x"))).is_err());
    assert!(stop_outcome(Err(docker_error(Some(304), "not modified"))).is_ok());
    assert!(stop_outcome(Err(docker_error(Some(404), "gone"))).is_ok());
    match stop_outcome(Err(docker_error(None, "socket closed"))) {
        Err(e) => {
            assert_eq!(e.message(), "Proxy runtime Docker operation failed: socket closed");
            assert_eq!(e.status_code(), 500);
        }
        Ok(()) => panic!("stop should fail"),
    }
}

#[test]
fn container_states_follow_the_engine() {
    assert_eq!(runtime_state_of(Some(ContainerStatus::Running)), ProxyRuntimeState::Running);
    assert_eq!(runtime_state_of(Some(ContainerStatus::Dead)), ProxyRuntimeState::Exited);
    assert_eq!(runtime_state_of(Some(ContainerStatus::Paused)), ProxyRuntimeState::Unknown);
    assert_eq!(runtime_state_of(None), ProxyRuntimeState::Unknown);
    assert_eq!(container_status_text(ContainerStatus::Restarting), "restarting");
    assert_eq!(container_status_text(ContainerStatus::Empty), "");
    assert_eq!(
        runtime_container_state(Err(docker_error(Some(404), "no such container"))).unwrap(),
        ProxyRuntimeState::Missing
    );
    assert_eq!(
        runtime_container_state(Ok(Some(ContainerStatus::Created))).unwrap(),
        ProxyRuntimeState::Created
    );
}

#[test]
fn node_status_names_its_container() {
    let image = DEFAULT_IMAGE.to_string();
    let s = node_runtime_status(0xab, &image, ContainerProbe::Inspected(Ok(Some(ContainerStatus::Running))))
        .unwrap();
    assert_eq!(s.container_name, "landscape_proxy_000000000000000000000000000000ab");
    assert_eq!(s.state, ProxyRuntimeState::Running);
    assert_eq!(s.image, DEFAULT_IMAGE);
    assert_eq!(s.status.as_deref(), Some("running"));
    let s = node_runtime_status(1, &image, ContainerProbe::Unreachable("down".into())).unwrap();
    assert_eq!(s.state, ProxyRuntimeState::Unknown);
    assert_eq!(s.status.as_deref(), Some("down"));
    let s = node_runtime_status(1, &image, ContainerProbe::Inspected(Err(docker_error(Some(404), "x"))))
        .unwrap();
    assert_eq!(s.state, ProxyRuntimeState::Missing);
    assert_eq!(s.status, None);
}

#[test]
fn legacy_names_are_the_node_containers() {
    let names = legacy_container_names(&[node(1, "a", true), node(2, "b", false)]);
    assert_eq!(
        names,
        vec![
            "landscape_proxy_00000000000000000000000000000001".to_string(),
            "landscape_proxy_00000000000000000000000000000002".to_string(),
        ]
    );
}

#[test]
fn image_references_split_into_repository_and_tag() {
    let r = create_image_options("ghcr.io/a/b:1.2");
    assert_eq!((r.from_image.as_str(), r.tag.as_deref()), ("ghcr.io/a/b", Some("1.2")));
    let r = create_image_options("localhost:5000/img");
    assert_eq!((r.from_image.as_str(), r.tag.as_deref()), ("localhost:5000/img", Some("latest")));
    let r = create_image_options("busybox");
    assert_eq!((r.from_image.as_str(), r.tag.as_deref()), ("busybox", Some("latest")));
    let r = create_image_options("img@sha256:abcd");
    assert_eq!((r.from_image.as_str(), r.tag.as_deref()), ("img@sha256:abcd", None));
}

#[test]
fn nodes_are_sorted_by_name_then_id() {
    let sorted = sorted_nodes(vec![node(3, "b", true), node(2, "a", false), node(1, "b", true)]);
    let ids: Vec<u128> = sorted.iter().map(|n| n.id).collect();
    assert_eq!(ids, vec![2, 1, 3]);
    let enabled = enabled_sorted_nodes(vec![node(3, "b", true), node(2, "a", false), node(1, "b", true)]);
    let ids: Vec<u128> = enabled.iter().map(|n| n.id).collect();
    assert_eq!(ids, vec![1, 3]);
}

#[test]
fn latency_plan_probes_enabled_nodes_on_their_ports() {
    let all = sorted_nodes(vec![node(1, "a", true), node(2, "b", false), node(3, "c", true)]);
    let enabled = enabled_sorted_nodes(vec![node(1, "a", true), node(2, "b", false), node(3, "c", true)]);
    let request = ProxyLatencyTestRequest { node_ids: vec![], targets: vec![] };
    let jobs = plan_latency_tests(
        &all,
        &enabled,
        &request,
        ContainerProbe::Inspected(Ok(Some(ContainerStatus::Running))),
    )
    .unwrap();
    assert_eq!(jobs.len(), 6);
    assert_eq!(jobs[0].target, ProxyLatencyTestTarget::China);
    assert_eq!(jobs[1].target, ProxyLatencyTestTarget::Global);
    assert!(matches!(jobs[0].action, LatencyAction::Probe { port: 12100 }));
    assert!(matches!(
        jobs[2].action,
        LatencyAction::Report { state: ProxyLatencyTestState::Disabled, error: None }
    ));
    assert!(matches!(jobs[4].action, LatencyAction::Probe { port: 12101 }));
    assert_eq!(jobs[4].node_name, "c");

    let request = ProxyLatencyTestRequest { node_ids: vec![3], targets: vec![ProxyLatencyTestTarget::Global] };
    let jobs = plan_latency_tests(
        &all,
        &enabled,
        &request,
        ContainerProbe::Inspected(Ok(Some(ContainerStatus::Exited))),
    )
    .unwrap();
    assert_eq!(jobs.len(), 1);
    match &jobs[0].action {
        LatencyAction::Report { state, error } => {
            assert_eq!(*state, ProxyLatencyTestState::RuntimeMissing);
            assert_eq!(error.as_deref(), Some("proxy runtime is Exited"));
        }
        other => panic!("unexpected {other:?}"),
    }
    assert_eq!(latency_target_url(&ProxyLatencyTestTarget::China), "https://www.baidu.com");
    assert_eq!(
        latency_target_url(&ProxyLatencyTestTarget::Global),
        "https://www.gstatic.com/generate_204"
    );
}

#[test]
fn runtime_container_is_created_with_its_settings() {
    let spec = runtime_container_spec(DEFAULT_IMAGE, "/var/lib/cfg.json", "/run/ld", "ld");
    assert_eq!(spec.image, DEFAULT_IMAGE);
    assert_eq!(spec.env[2], "LAND_PROXY_SERVER_PORT=12000");
    assert_eq!(spec.labels, vec![("ld_flow_edge".to_string(), "proxy".to_string())]);
    assert_eq!(spec.cap_add, vec!["NET_ADMIN".to_string(), "BPF".to_string(), "PERFMON".to_string()]);
    assert_eq!(spec.mounts[0].target, "/etc/sing-box/config.json");
    assert_eq!(spec.mounts[0].source, "/var/lib/cfg.json");
    assert_eq!(spec.mounts[1].target, "/ld");
    assert_eq!(spec.mounts[1].source, "/run/ld");
    assert!(spec.mounts[0].read_only && spec.mounts[1].read_only);
    assert_eq!(spec.restart_policy, RestartPolicyKind::UnlessStopped);
    assert_eq!(spec.restart_max_retries, 0);
}

#[test]
fn container_paths_must_be_text() {
    let spec = runtime_container_config(DEFAULT_IMAGE, b"/var/lib/cfg.json", b"/run/ld", "ld").unwrap();
    assert_eq!(spec.mounts[0].source, "/var/lib/cfg.json");
    assert_eq!(spec.mounts[1].target, "/ld");
    match runtime_container_config(DEFAULT_IMAGE, b"/var/\xff/cfg.json", b"/run/\xfe", "ld") {
        Err(ProxyError::RuntimeConfigError(m)) => assert_eq!(m, "invalid proxy config path"),
        other => panic!("unexpected {other:?}"),
    }
    match runtime_container_config(DEFAULT_IMAGE, b"/cfg.json", b"/run/\xfe", "ld") {
        Err(ProxyError::RuntimeConfigError(m)) => assert_eq!(m, "invalid unix socket path"),
        other => panic!("unexpected {other:?}"),
    }
}

#[test]
fn statuses_are_listed_by_container_name() {
    let status = |id: u128, name: &str| ProxyNodeRuntimeStatus {
        node_id: id,
        container_name: name.to_string(),
        state: ProxyRuntimeState::Unknown,
        image: String::new(),
        status: None,
    };
    let sorted = sort_statuses(vec![status(1, "landscape_proxy_c"), status(2, "landscape_proxy_a"), status(3, "landscape_proxy_b")]);
    let ids: Vec<u128> = sorted.iter().map(|s| s.node_id).collect();
    assert_eq!(ids, vec![2, 3, 1]);
}

#[test]
fn nodes_in_use_cannot_be_deleted() {
    let flow = |flow_id: u32, remark: &str| FlowConfig {
        id: 0,
        enable: true,
        flow_id,
        flow_match_rules: vec![],
        flow_targets: vec![],
        remark: remark.to_string(),
    };
    assert!(node_deletion_check(5, true, &vec![], &vec![]).is_ok());
    match node_deletion_check(5, false, &vec![], &vec![]) {
        Err(e) => {
            assert!(matches!(e, ProxyError::NodeNotFound(5)));
            assert_eq!(e.status_code(), 404);
        }
        Ok(()) => panic!("an unknown node cannot be deleted"),
    }
    match node_deletion_check(5, true, &vec![flow(1, "home"), flow(2, "x")], &vec![flow(3, "bypass")]) {
        Err(e) => assert_eq!(
            e.message(),
            "Proxy node '00000000-0000-0000-0000-000000000005' is used by flow 'home' (ID: 1)"
        ),
        Ok(()) => panic!("node is in use"),
    }
    match node_deletion_check(5, false, &vec![], &vec![flow(3, "bypass")]) {
        Err(ProxyError::NodeInUse { node_id, flow_remark, flow_id }) => {
            assert_eq!((node_id, flow_remark.as_str(), flow_id), (5, "bypass", 3))
        }
        other => panic!("unexpected {other:?}"),
    }
}

#[test]
fn nodes_are_found_by_id_and_disabled_ones_refused() {
    let nodes = vec![node(4, "a", true), node(9, "b", false)];
    assert_eq!(find_node(&nodes, 9).unwrap(), 1);
    match find_node(&nodes, 5) {
        Err(e) => assert_eq!(e.message(), "Proxy node '00000000-0000-0000-0000-000000000005' not found"),
        Ok(i) => panic!("unexpected index {i}"),
    }
    assert!(sync_node_verdict(&nodes[0]).is_ok());
    match sync_node_verdict(&nodes[1]) {
        Err(ProxyError::NodeDisabled(id)) => assert_eq!(id, 9),
        other => panic!("unexpected {other:?}"),
    }
}
