use std::collections::HashMap;

use landscape::flow::{
    EnrolledDevice, FlowConfig, FlowEntryMatchMode, FlowEntryRule, FlowTarget, IpAddr, MacAddr,
    ResolvedFlowEntryMatchMode, ResolvedFlowEntryRule, WeightedFlowTarget,
};
use landscape::flow_rule::{
    build_target_match_condition, collect_device_ids, find_duplicate_resolved_modes,
    find_missing_device_id, find_resolved_conflict_by_entry_mode,
    find_resolved_conflict_for_modes, resolve_flow_entry_mode, resolve_flow_entry_rule,
    resolve_flow_target_for_route, resolve_modes, runtime_configs, target_filter_sql,
    validate_modes_resolvable, DevicesById, LdError, SqlValue,
};
use landscape::ids::{proxy_container_name_prefix, proxy_runtime_container_name};
use landscape::proxy::ProxyMode;
use uuid::Uuid;

fn device(id: Uuid, mac: MacAddr) -> EnrolledDevice {
    EnrolledDevice { id: id.as_u128(), name: "device".to_string(), mac }
}

fn flow(id: u128, flow_id: u32, rules: Vec<FlowEntryMatchMode>) -> FlowConfig {
    FlowConfig {
        id,
        enable: true,
        flow_id,
        flow_match_rules: rules.into_iter().map(|mode| FlowEntryRule { qos: None, mode }).collect(),
        flow_targets: vec![],
        remark: format!("flow {flow_id}"),
    }
}

#[test]
fn detects_duplicate_resolved_modes() {
    let mac_addr = MacAddr::new(0x00, 0x11, 0x22, 0x33, 0x44, 0x55);
    let resolved = vec![
        (
            FlowEntryMatchMode::Device { device_id: Uuid::new_v4().as_u128() },
            ResolvedFlowEntryMatchMode::Mac { mac_addr },
        ),
        (FlowEntryMatchMode::Mac { mac_addr }, ResolvedFlowEntryMatchMode::Mac { mac_addr }),
    ];

    let duplicate = find_duplicate_resolved_modes(&resolved);

    assert!(matches!(duplicate, Some(FlowEntryMatchMode::Mac { .. })));
}

#[test]
fn reports_missing_device_targets() {
    let device_id = Uuid::new_v4().as_u128();
    let modes = vec![FlowEntryMatchMode::Device { device_id }];

    assert_eq!(find_missing_device_id(&modes, &HashMap::new()), Some(device_id));
}

#[test]
fn accepts_known_device_targets() {
    let device_id = Uuid::new_v4();
    let modes = vec![FlowEntryMatchMode::Device { device_id: device_id.as_u128() }];
    let devices: DevicesById = HashMap::from([(
        device_id.as_u128(),
        device(device_id, MacAddr::new(0x00, 0x11, 0x22, 0x33, 0x44, 0x55)),
    )]);

    assert_eq!(find_missing_device_id(&modes, &devices), None);
}

#[test]
fn proxy_runtime_container_matches_proxy_targets() {
    let (sql, params) = build_target_match_condition(FlowTarget::Netns {
        container_name: proxy_runtime_container_name().to_string(),
    });

    assert!(sql.contains("json_extract(json_each.value, '$.target.t') = 'proxy'"));
    assert_eq!(params.len(), 1);
}

#[test]
fn ordinary_netns_target_does_not_match_proxy_targets() {
    let (sql, params) = build_target_match_condition(FlowTarget::Netns {
        container_name: "ordinary-container".to_string(),
    });

    assert!(!sql.contains("json_extract(json_each.value, '$.target.t') = 'proxy'"));
    assert_eq!(params.len(), 1);
}

#[test]
fn legacy_per_node_proxy_container_matches_that_proxy_node() {
    let node_id = Uuid::new_v4();
    let (sql, params) = build_target_match_condition(FlowTarget::Netns {
        container_name: format!("{}{node_id}", proxy_container_name_prefix()),
    });

    assert!(sql.contains("json_extract(json_each.value, '$.target.t') = 'proxy'"));
    assert!(sql.contains("json_extract(json_each.value, '$.target.node_id') = ?"));
    assert_eq!(params.len(), 2);
}

#[test]
fn interface_and_proxy_targets_bind_their_names() {
    let node_id = Uuid::new_v4();
    let (sql, params) = build_target_match_condition(FlowTarget::Proxy {
        node_id: node_id.as_u128(),
        mode: ProxyMode::Global,
    });
    assert_eq!(
        sql,
        "json_extract(json_each.value, '$.target.t') = 'proxy' AND json_extract(json_each.value, '$.target.node_id') = ?"
    );
    assert_eq!(params, vec![SqlValue::String(node_id.to_string())]);

    let (sql, params) =
        build_target_match_condition(FlowTarget::Interface { name: "eth0".to_string() });
    assert!(sql.contains("'interface'"));
    assert_eq!(params, vec![SqlValue::String("eth0".to_string())]);
}

#[test]
fn target_filter_wraps_condition_in_exists() {
    let (sql, params) = target_filter_sql(FlowTarget::Netns { container_name: "c1".to_string() });
    assert!(sql.starts_with("EXISTS (\n            SELECT 1 FROM json_each(packet_handle_iface_name)\n            WHERE json_extract"));
    assert!(sql.ends_with("= ?\n        )"));
    assert_eq!(params, vec![SqlValue::String("c1".to_string())]);
}

#[test]
fn legacy_simple_container_name_matches_node() {
    let node_id = Uuid::new_v4();
    let name = format!("landscape_proxy_{}", node_id.simple());
    let (_, params) = build_target_match_condition(FlowTarget::Netns { container_name: name.clone() });
    assert_eq!(params, vec![SqlValue::String(name), SqlValue::String(node_id.to_string())]);
}

#[test]
fn routes_to_proxy_through_its_container() {
    let node_id = Uuid::new_v4();
    let routed = resolve_flow_target_for_route(&FlowTarget::Proxy {
        node_id: node_id.as_u128(),
        mode: ProxyMode::BypassChina,
    });
    assert_eq!(
        routed,
        FlowTarget::Netns { container_name: format!("landscape_proxy_{}", node_id.simple()) }
    );
    let iface = FlowTarget::Interface { name: "wan".to_string() };
    assert_eq!(resolve_flow_target_for_route(&iface), iface);
}

#[test]
fn resolves_devices_to_their_mac() {
    let id = Uuid::new_v4();
    let mac = MacAddr::new(1, 2, 3, 4, 5, 6);
    let devices: DevicesById = HashMap::from([(id.as_u128(), device(id, mac))]);
    let mode = FlowEntryMatchMode::Device { device_id: id.as_u128() };
    assert_eq!(resolve_flow_entry_mode(mode, &devices), Some(FlowEntryMatchMode::Mac { mac_addr: mac }));
    assert_eq!(
        resolve_flow_entry_mode(FlowEntryMatchMode::Device { device_id: 7 }, &devices),
        None
    );
    let ip = FlowEntryMatchMode::Ip { ip: IpAddr::V4(0x0a00_0001), prefix_len: 24 };
    assert_eq!(resolve_flow_entry_mode(ip, &devices), Some(ip));
    assert_eq!(
        resolve_flow_entry_rule(FlowEntryRule { qos: Some(3), mode }, &devices),
        Some(ResolvedFlowEntryRule { qos: Some(3), mode: ResolvedFlowEntryMatchMode::Mac { mac_addr: mac } })
    );
}

#[test]
fn collects_device_ids_once() {
    let a = FlowEntryMatchMode::Device { device_id: 1 };
    let b = FlowEntryMatchMode::Device { device_id: 2 };
    let m = FlowEntryMatchMode::Mac { mac_addr: MacAddr::new(0, 0, 0, 0, 0, 1) };
    let ids = collect_device_ids(&[a, m, b, a]);
    assert_eq!(ids.len(), 2);
    assert!(ids.contains(&1) && ids.contains(&2));
}

#[test]
fn runtime_configs_keep_enabled_flows_and_resolvable_rules() {
    let id = Uuid::new_v4();
    let mac = MacAddr::new(1, 2, 3, 4, 5, 6);
    let devices: DevicesById = HashMap::from([(id.as_u128(), device(id, mac))]);
    let mut disabled = flow(2, 2, vec![]);
    disabled.enable = false;
    let configs = vec![
        flow(1, 1, vec![
            FlowEntryMatchMode::Device { device_id: id.as_u128() },
            FlowEntryMatchMode::Device { device_id: 99 },
        ]),
        disabled,
    ];
    let result = runtime_configs(&configs, &devices);
    assert_eq!(result.len(), 1);
    assert_eq!(result[0].flow_id, 1);
    assert_eq!(
        result[0].flow_match_rules,
        vec![ResolvedFlowEntryRule { qos: None, mode: ResolvedFlowEntryMatchMode::Mac { mac_addr: mac } }]
    );
}

#[test]
fn finds_conflicts_after_resolution() {
    let id = Uuid::new_v4();
    let mac = MacAddr::new(1, 2, 3, 4, 5, 6);
    let devices: DevicesById = HashMap::from([(id.as_u128(), device(id, mac))]);
    let configs = vec![
        flow(10, 1, vec![FlowEntryMatchMode::Mac { mac_addr: mac }]),
        flow(11, 2, vec![FlowEntryMatchMode::Device { device_id: id.as_u128() }]),
    ];
    let mode = FlowEntryMatchMode::Device { device_id: id.as_u128() };
    let found = find_resolved_conflict_by_entry_mode(&configs, &devices, 10, &mode);
    assert_eq!(found.map(|c| c.id), Some(11));
    let found = find_resolved_conflict_by_entry_mode(&configs, &devices, 99, &mode);
    assert_eq!(found.map(|c| c.id), Some(10));
    let unknown = FlowEntryMatchMode::Device { device_id: 5 };
    assert!(find_resolved_conflict_by_entry_mode(&configs, &devices, 99, &unknown).is_none());

    let modes = vec![FlowEntryMatchMode::Mac { mac_addr: MacAddr::new(9, 9, 9, 9, 9, 9) }, mode];
    match find_resolved_conflict_for_modes(&configs, &devices, 10, &modes) {
        Ok(Some((m, c))) => {
            assert_eq!(m, mode);
            assert_eq!(c.id, 11);
        }
        other => panic!("unexpected {other:?}"),
    }
    match find_resolved_conflict_for_modes(&configs, &devices, 10, &[unknown]) {
        Err(LdError::ConfigError(m)) => {
            assert_eq!(m, format!("flow device target {} not found", Uuid::from_u128(5)))
        }
        other => panic!("unexpected {other:?}"),
    }
}

#[test]
fn resolves_and_validates_modes() {
    let id = Uuid::new_v4();
    let mac = MacAddr::new(1, 2, 3, 4, 5, 6);
    let devices: DevicesById = HashMap::from([(id.as_u128(), device(id, mac))]);
    let mode = FlowEntryMatchMode::Device { device_id: id.as_u128() };
    let pairs = resolve_modes(&[mode], &devices).unwrap();
    assert_eq!(pairs, vec![(mode, ResolvedFlowEntryMatchMode::Mac { mac_addr: mac })]);
    assert!(validate_modes_resolvable(&[mode], &devices).is_ok());
    assert!(matches!(
        validate_modes_resolvable(&[FlowEntryMatchMode::Device { device_id: 3 }], &devices),
        Err(LdError::ConfigError(_))
    ));
    assert!(resolve_modes(&[FlowEntryMatchMode::Device { device_id: 3 }], &devices).is_err());
}

#[test]
fn weighted_target_keeps_its_weight() {
    let t = WeightedFlowTarget::new(FlowTarget::Interface { name: "a".to_string() }, 3);
    assert_eq!(t.weight, 3);
}
