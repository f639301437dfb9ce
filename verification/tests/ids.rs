use landscape::ids::{
    proxy_container_name, proxy_container_name_prefix, proxy_node_id_from_container_name,
    proxy_runtime_container_name,
};
use landscape::proxy::ProxyError;
use uuid::Uuid;

#[test]
fn container_names_carry_the_simple_uuid() {
    let id = Uuid::parse_str("67e55044-10b1-426f-9247-bb680e5fe0c8").unwrap().as_u128();
    assert_eq!(proxy_container_name(id), "landscape_proxy_67e5504410b1426f9247bb680e5fe0c8");
    assert_eq!(proxy_container_name_prefix(), "landscape_proxy_");
}

#[test]
fn container_names_read_back_as_their_node() {
    for _ in 0..20 {
        let id = Uuid::new_v4().as_u128();
        assert_eq!(proxy_node_id_from_container_name(&proxy_container_name(id)), Some(id));
    }
    let id = Uuid::new_v4();
    let hyphenated = format!("landscape_proxy_{id}");
    assert_eq!(proxy_node_id_from_container_name(&hyphenated), Some(id.as_u128()));
}

#[test]
fn other_names_are_no_node() {
    assert_eq!(proxy_node_id_from_container_name(proxy_runtime_container_name()), None);
    assert_eq!(proxy_node_id_from_container_name("ordinary-container"), None);
    assert_eq!(proxy_node_id_from_container_name("landscape_proxy_"), None);
    assert_eq!(proxy_node_id_from_container_name("landscape_proxy_zz"), None);
    assert_eq!(
        proxy_node_id_from_container_name("landscape_proxy_67e5504410b1426f9247bb680e5fe0cg"),
        None
    );
}

#[test]
fn proxy_errors_have_their_texts_and_statuses() {
    let id = 0x67e5504410b1426f9247bb680e5fe0c8u128;
    let e = ProxyError::NodeNotFound(id);
    assert_eq!(e.message(), "Proxy node '67e55044-10b1-426f-9247-bb680e5fe0c8' not found");
    assert_eq!(e.status_code(), 404);
    let e = ProxyError::NodeInUse { node_id: id, flow_remark: "home".into(), flow_id: 3 };
    assert_eq!(
        e.message(),
        "Proxy node '67e55044-10b1-426f-9247-bb680e5fe0c8' is used by flow 'home' (ID: 3)"
    );
    assert_eq!(e.status_code(), 400);
    let e = ProxyError::NodeDisabled(id);
    assert_eq!(e.message(), "Proxy node '67e55044-10b1-426f-9247-bb680e5fe0c8' is disabled");
    assert_eq!(ProxyError::RuntimeConfigError("bad".into()).message(), "Proxy runtime config error: bad");
    assert_eq!(ProxyError::RuntimeConfigError("bad".into()).status_code(), 400);
    assert_eq!(ProxyError::LatencyTestError("t".into()).message(), "Proxy latency test failed: t");
}
