use std::collections::HashSet;

use landscape::flow::{FlowConfig, FlowTarget, WeightedFlowTarget};
use landscape::proxy::{ProxyError, ProxyMode, ProxyNodeConfig, ProxyProtocolConfig};
use landscape::singbox::{
    build_sing_box_config, flow_inbound_tag, flow_selector_tag, flow_tproxy_port,
    node_outbound_tag, node_test_inbound_tag, node_test_port, proxy_tags_for_flow, InboundKind,
    Outbound, FLOW_TPROXY_PORT_BASE,
};
use landscape::singbox_file::sing_box_config_file;
use uuid::Uuid;

fn proxy_node(id: u128, name: &str) -> ProxyNodeConfig {
    ProxyNodeConfig {
        id,
        name: name.to_string(),
        enable: true,
        server: "127.0.0.1".to_string(),
        port: 1080,
        protocol: ProxyProtocolConfig::Socks5 { username: None, password: None },
        remark: String::new(),
    }
}

fn flow(flow_id: u32, enable: bool, targets: Vec<WeightedFlowTarget>) -> FlowConfig {
    FlowConfig {
        id: Uuid::new_v4().as_u128(),
        enable,
        flow_id,
        flow_match_rules: vec![],
        flow_targets: targets,
        remark: String::new(),
    }
}

#[test]
fn sing_box_config_routes_flow_inbound_to_selected_proxy_node() {
    let first_id = Uuid::new_v4().as_u128();
    let second_id = Uuid::new_v4().as_u128();
    let nodes = vec![proxy_node(first_id, "first"), proxy_node(second_id, "second")];
    let flows = vec![flow(
        7,
        true,
        vec![WeightedFlowTarget::new(
            FlowTarget::Proxy { node_id: second_id, mode: ProxyMode::Global },
            1,
        )],
    )];

    let config = build_sing_box_config(&nodes, &flows).expect("build sing-box config");

    let inbounds = &config.inbounds;
    assert!(inbounds.iter().any(|inbound| {
        inbound.tag == "flow-7" && inbound.listen_port as u32 == FLOW_TPROXY_PORT_BASE + 7
    }));

    let route_rules = &config.rules;
    assert!(route_rules.iter().any(|rule| {
        rule.inbound == vec!["flow-7".to_string()] && rule.outbound == node_outbound_tag(second_id)
    }));
}

#[test]
fn config_lists_default_and_test_inbounds_in_order() {
    let a = 0x0123_4567_89ab_cdef_0123_4567_89ab_cdefu128;
    let b = 0xffff_0000_ffff_0000_ffff_0000_ffff_0000u128;
    let nodes = vec![proxy_node(a, "a"), proxy_node(b, "b")];
    let config = build_sing_box_config(&nodes, &[]).unwrap();

    assert_eq!(config.inbounds.len(), 3);
    assert_eq!(config.inbounds[0].kind, InboundKind::Tproxy);
    assert_eq!(config.inbounds[0].tag, "landscape-in");
    assert_eq!(config.inbounds[0].listen, "::");
    assert_eq!(config.inbounds[0].listen_port, 12000);
    assert_eq!(config.inbounds[1].kind, InboundKind::Mixed);
    assert_eq!(config.inbounds[1].tag, "test-0123456789abcdef0123456789abcdef");
    assert_eq!(config.inbounds[1].listen, "127.0.0.1");
    assert_eq!(config.inbounds[1].listen_port, 12100);
    assert_eq!(config.inbounds[2].listen_port, 12101);

    assert_eq!(config.rules.len(), 2);
    assert_eq!(config.rules[1].inbound, vec![node_test_inbound_tag(b)]);
    assert_eq!(config.rules[1].outbound, node_outbound_tag(b));

    // Node outbounds, then the default selector, then the direct outbound.
    assert_eq!(config.outbounds.len(), 4);
    match &config.outbounds[2] {
        Outbound::Selector { tag, outbounds, default } => {
            assert_eq!(tag, "proxy");
            assert_eq!(outbounds, &vec![node_outbound_tag(a), node_outbound_tag(b)]);
            assert_eq!(default, &node_outbound_tag(a));
        }
        other => panic!("unexpected outbound {other:?}"),
    }
    match &config.outbounds[3] {
        Outbound::Direct { tag } => assert_eq!(tag, "direct"),
        other => panic!("unexpected outbound {other:?}"),
    }
}

#[test]
fn flow_with_several_nodes_gets_a_selector() {
    let a = 1u128;
    let b = 2u128;
    let nodes = vec![proxy_node(a, "a"), proxy_node(b, "b")];
    let flows = vec![flow(
        3,
        true,
        vec![
            WeightedFlowTarget::new(FlowTarget::Proxy { node_id: a, mode: ProxyMode::Global }, 2),
            WeightedFlowTarget::new(FlowTarget::Proxy { node_id: b, mode: ProxyMode::Global }, 1),
        ],
    )];
    let config = build_sing_box_config(&nodes, &flows).unwrap();
    let last_rule = config.rules.last().unwrap();
    assert_eq!(last_rule.inbound, vec!["flow-3".to_string()]);
    assert_eq!(last_rule.outbound, "flow-proxy-3");
    assert!(config.outbounds.iter().any(|o| matches!(
        o,
        Outbound::Selector { tag, outbounds, default }
            if tag == "flow-proxy-3"
                && outbounds == &vec![node_outbound_tag(a), node_outbound_tag(b)]
                && default == &node_outbound_tag(a)
    )));
}

#[test]
fn disabled_or_unrouted_flows_get_no_inbound() {
    let a = 9u128;
    let nodes = vec![proxy_node(a, "a")];
    let flows = vec![
        flow(4, false, vec![WeightedFlowTarget::new(FlowTarget::Proxy { node_id: a, mode: ProxyMode::Global }, 1)]),
        flow(5, true, vec![WeightedFlowTarget::new(FlowTarget::Proxy { node_id: a, mode: ProxyMode::Global }, 0)]),
        flow(6, true, vec![WeightedFlowTarget::new(FlowTarget::Proxy { node_id: 77, mode: ProxyMode::Global }, 1)]),
    ];
    let config = build_sing_box_config(&nodes, &flows).unwrap();
    assert_eq!(config.inbounds.len(), 2);
    assert_eq!(config.rules.len(), 1);
}

#[test]
fn flow_beyond_port_range_is_refused() {
    let a = 9u128;
    let nodes = vec![proxy_node(a, "a")];
    let flows = vec![flow(
        256,
        true,
        vec![WeightedFlowTarget::new(FlowTarget::Proxy { node_id: a, mode: ProxyMode::Global }, 1)],
    )];
    match build_sing_box_config(&nodes, &flows) {
        Err(ProxyError::RuntimeConfigError(m)) => {
            assert_eq!(m, "flow id 256 is too large for proxy tproxy routing")
        }
        other => panic!("unexpected result {other:?}"),
    }
}

#[test]
fn ports_and_tags_have_their_formats() {
    assert_eq!(flow_tproxy_port(0).unwrap(), 12000);
    assert_eq!(flow_tproxy_port(255).unwrap(), 12255);
    assert!(matches!(flow_tproxy_port(256), Err(ProxyError::RuntimeConfigError(_))));
    assert_eq!(node_test_port(0).unwrap(), 12100);
    assert_eq!(node_test_port(53435).unwrap(), 65535);
    match node_test_port(53436) {
        Err(ProxyError::RuntimeConfigError(m)) => {
            assert_eq!(m, "proxy node index 53436 maps to invalid test port")
        }
        other => panic!("unexpected result {other:?}"),
    }
    assert_eq!(flow_inbound_tag(12), "flow-12");
    assert_eq!(flow_selector_tag(12), "flow-proxy-12");
    assert_eq!(node_outbound_tag(0xab), "proxy-000000000000000000000000000000ab");
    assert_eq!(node_test_inbound_tag(0xab), "test-000000000000000000000000000000ab");
}

#[test]
fn flow_proxy_tags_follow_positive_weights_to_known_nodes() {
    let mut known = HashSet::new();
    known.insert(1u128);
    known.insert(2u128);
    let f = flow(
        1,
        true,
        vec![
            WeightedFlowTarget::new(FlowTarget::Proxy { node_id: 2, mode: ProxyMode::BypassChina }, 3),
            WeightedFlowTarget::new(FlowTarget::Proxy { node_id: 3, mode: ProxyMode::Global }, 3),
            WeightedFlowTarget::new(FlowTarget::Interface { name: "eth0".to_string() }, 1),
            WeightedFlowTarget::new(FlowTarget::Proxy { node_id: 1, mode: ProxyMode::Global }, 0),
        ],
    );
    assert_eq!(proxy_tags_for_flow(&f, &known), vec![node_outbound_tag(2)]);
}

fn vless_node(id: u128) -> ProxyNodeConfig {
    ProxyNodeConfig {
        id,
        name: "v".to_string(),
        enable: true,
        server: "example.org".to_string(),
        port: 443,
        protocol: ProxyProtocolConfig::Vless {
            uuid: "u\"1\\".to_string(),
            flow: Some(" xtls-rprx-vision ".to_string()),
            tls: true,
            server_name: Some("sni.example".to_string()),
            reality: true,
            reality_public_key: Some("pk".to_string()),
            reality_short_id: Some("  ".to_string()),
            utls_fingerprint: Some("chrome".to_string()),
        },
        remark: String::new(),
    }
}

#[test]
fn config_file_is_pretty_json_with_sorted_keys() {
    let nodes = vec![vless_node(1), proxy_node(2, "s")];
    let flows = vec![flow(
        7,
        true,
        vec![WeightedFlowTarget::new(FlowTarget::Proxy { node_id: 2, mode: ProxyMode::Global }, 1)],
    )];
    let config = build_sing_box_config(&nodes, &flows).unwrap();
    let text = sing_box_config_file(&config);
    let value: serde_json::Value = serde_json::from_str(&text).expect("valid JSON");
    // serde_json writes a value pretty-printed with its keys sorted: the
    // library's text is exactly that.
    assert_eq!(text, serde_json::to_string_pretty(&value).unwrap());
    assert_eq!(value["log"]["level"], "info");
    assert_eq!(value["log"]["timestamp"], true);
    assert_eq!(value["route"]["final"], "proxy");
    let outbound = &value["outbounds"][0];
    assert_eq!(outbound["type"], "vless");
    assert_eq!(outbound["uuid"], "u\"1\\");
    assert_eq!(outbound["flow"], "xtls-rprx-vision");
    assert_eq!(outbound["server_port"], 443);
    assert_eq!(outbound["tls"]["enabled"], true);
    assert_eq!(outbound["tls"]["server_name"], "sni.example");
    assert_eq!(outbound["tls"]["reality"]["enabled"], true);
    assert_eq!(outbound["tls"]["reality"]["public_key"], "pk");
    assert!(outbound["tls"]["reality"].get("short_id").is_none());
    assert_eq!(outbound["tls"]["utls"]["fingerprint"], "chrome");
    assert_eq!(value["outbounds"][1]["type"], "socks");
    assert_eq!(value["outbounds"][2]["type"], "selector");
    assert_eq!(value["outbounds"][3]["type"], "direct");
    assert_eq!(value["inbounds"][0]["type"], "tproxy");
    assert_eq!(value["inbounds"][0]["listen_port"], 12000);
    assert_eq!(value["inbounds"][1]["type"], "mixed");
    let last = value["route"]["rules"].as_array().unwrap().last().unwrap().clone();
    assert_eq!(last["inbound"][0], "flow-7");
    assert_eq!(last["outbound"], node_outbound_tag(2));
}

#[test]
fn config_file_escapes_control_characters() {
    let mut node = proxy_node(3, "c");
    node.protocol = ProxyProtocolConfig::Shadowsocks {
        method: "a\u{1}b\tc\u{7f}é".to_string(),
        password: "p\nq".to_string(),
    };
    let config = build_sing_box_config(&[node], &[]).unwrap();
    let text = sing_box_config_file(&config);
    assert!(text.contains("\"method\": \"a\\u0001b\\tc\u{7f}é\""));
    assert!(text.contains("\"password\": \"p\\nq\""));
    let value: serde_json::Value = serde_json::from_str(&text).unwrap();
    assert_eq!(text, serde_json::to_string_pretty(&value).unwrap());
}
