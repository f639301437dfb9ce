use landscape::bypass::{
    auto_rule_index, choose_dns_upstream, cn_geo_key, deterministic_uuid, domain_rule_source_status,
    ensure_geo_ip_source, ensure_geo_site_source, flow_has_bypass_proxy_target, flows_need_geo,
    generated_dns_rule, generated_ip_rule, generated_rule_ids, geo_cache_needs_refresh,
    geo_cache_verdict, geo_cn_cache_key, ip_rule_source_status, refresh_targets,
    GeneratedRuleKind, GeoIpFileFormat, GeoIpSource, GeoIpSourceConfig, GeoRefreshRuntimeStatus,
    GeoSiteSource, GeoSiteSourceConfig, ProxyBypassService, RuleLabel,
};
use landscape::flow::{FlowConfig, FlowTarget, WeightedFlowTarget};
use landscape::proxy::{ProxyBypassRuleSourceKind, ProxyError, ProxyMode};

const SITE_URL: &str =
    "https://github.com/v2fly/domain-list-community/releases/latest/download/dlc.dat";
const IP_URL: &str = "https://github.com/v2fly/geoip/releases/latest/download/geoip.dat";

fn flow(flow_id: u32, enable: bool, targets: Vec<WeightedFlowTarget>) -> FlowConfig {
    FlowConfig {
        id: flow_id as u128,
        enable,
        flow_id,
        flow_match_rules: vec![],
        flow_targets: targets,
        remark: String::new(),
    }
}

fn proxy(mode: ProxyMode, weight: u32) -> WeightedFlowTarget {
    WeightedFlowTarget::new(FlowTarget::Proxy { node_id: 1, mode }, weight)
}

fn site_config(id: u128, name: &str, source: GeoSiteSource) -> GeoSiteSourceConfig {
    GeoSiteSourceConfig { id, update_at: 7, name: name.to_string(), enable: false, source }
}

fn ip_config(id: u128, name: &str, source: GeoIpSource) -> GeoIpSourceConfig {
    GeoIpSourceConfig { id, update_at: 7, name: name.to_string(), enable: true, source }
}

#[test]
fn rule_ids_come_from_the_sha256_of_their_seed() {
    assert_eq!(
        deterministic_uuid(GeneratedRuleKind::Dns, 5),
        0xee820f6dc9524024acd7528928f7bef9u128
    );
    assert_eq!(
        deterministic_uuid(GeneratedRuleKind::Ip, 5),
        0x155dbaa60ed848d1986f0b4a8c1f53cfu128
    );
    assert_eq!(
        deterministic_uuid(GeneratedRuleKind::Dns, 0),
        0x925e1f9e4af44d77972597078b31c0abu128
    );
    assert_eq!(
        deterministic_uuid(GeneratedRuleKind::Ip, 4242),
        0x58b6e6a2f8bb42b9b428e59d778ec5d4u128
    );
    let id = uuid::Uuid::from_u128(deterministic_uuid(GeneratedRuleKind::Ip, 4242));
    assert_eq!(id.get_version_num(), 4);
    assert_eq!(id.get_variant(), uuid::Variant::RFC4122);
}

#[test]
fn bypass_target_needs_the_mode_and_a_weight() {
    assert!(flow_has_bypass_proxy_target(&flow(1, true, vec![proxy(ProxyMode::BypassChina, 1)])));
    assert!(!flow_has_bypass_proxy_target(&flow(1, true, vec![proxy(ProxyMode::BypassChina, 0)])));
    assert!(!flow_has_bypass_proxy_target(&flow(1, true, vec![proxy(ProxyMode::Global, 3)])));
    assert!(!flow_has_bypass_proxy_target(&flow(
        1,
        true,
        vec![WeightedFlowTarget::new(FlowTarget::Interface { name: "eth0".into() }, 1)]
    )));
    assert!(flow_has_bypass_proxy_target(&flow(
        1,
        false,
        vec![proxy(ProxyMode::Global, 1), proxy(ProxyMode::BypassChina, 2)]
    )));
}

#[test]
fn only_enabled_bypass_flows_need_geo_data() {
    let service = ProxyBypassService::new();
    let disabled = flow(1, false, vec![proxy(ProxyMode::BypassChina, 1)]);
    let global = flow(2, true, vec![proxy(ProxyMode::Global, 1)]);
    let bypass = flow(3, true, vec![proxy(ProxyMode::BypassChina, 1)]);
    assert!(!service.flow_needs_geo(&disabled));
    assert!(!service.flow_needs_geo(&global));
    assert!(service.flow_needs_geo(&bypass));
    assert!(!flows_need_geo(&vec![disabled, global]));
    assert!(flows_need_geo(&vec![flow(2, true, vec![]), bypass]));
    assert!(!flows_need_geo(&vec![]));
}

#[test]
fn rule_index_stays_in_its_band() {
    assert_eq!(auto_rule_index(0), 1000);
    assert_eq!(auto_rule_index(7), 1007);
    assert_eq!(auto_rule_index(7999), 8999);
    assert_eq!(auto_rule_index(8000), 1000);
    assert_eq!(auto_rule_index(u32::MAX), 1000 + u32::MAX % 8000);
}

#[test]
fn generated_rules_carry_their_marks() {
    let dns = generated_dns_rule(12, 99);
    assert_eq!(dns.id, deterministic_uuid(GeneratedRuleKind::Dns, 12));
    assert_eq!(dns.name, "__landscape_proxy_bypass_china_dns__ flow=12");
    assert_eq!(dns.index, 1012);
    assert!(dns.enable);
    assert_eq!(dns.upstream_id, 99);
    assert_eq!(dns.flow_id, 12);
    assert_eq!(dns.source.name, "proxy-default");
    assert_eq!(dns.source.key, "CN");
    assert!(!dns.source.inverse);
    assert_eq!(dns.source.attribute_key, None);

    let ip = generated_ip_rule(12);
    assert_eq!(ip.id, deterministic_uuid(GeneratedRuleKind::Ip, 12));
    assert_eq!(ip.remark, "__landscape_proxy_bypass_china_ip__ flow=12");
    assert_eq!(ip.index, 1012);
    assert!(ip.enable && ip.override_dns);
    assert_eq!(ip.flow_id, 12);

    let key = cn_geo_key();
    assert_eq!((key.name.as_str(), key.key.as_str()), ("proxy-default", "CN"));
    let cache = geo_cn_cache_key();
    assert_eq!((cache.name.as_str(), cache.key.as_str()), ("proxy-default", "CN"));
}

#[test]
fn sync_deletes_only_generated_rules() {
    let service = ProxyBypassService::new();
    let written = generated_dns_rule(3, 1);
    let dns_rules = vec![
        RuleLabel { id: 1, label: "my own rule".into() },
        RuleLabel { id: written.id, label: written.name.clone() },
        RuleLabel { id: 2, label: "__landscape_proxy_bypass_china_ip__ flow=3".into() },
        RuleLabel { id: 3, label: "__landscape_proxy_bypass_china_dns__ old".into() },
    ];
    let ip_rules = vec![
        RuleLabel { id: 4, label: "__landscape_proxy_bypass_china_ip__ flow=3".into() },
        RuleLabel { id: 5, label: "x__landscape_proxy_bypass_china_ip__".into() },
    ];
    assert_eq!(generated_rule_ids(&dns_rules, GeneratedRuleKind::Dns), vec![written.id, 3]);
    assert_eq!(generated_rule_ids(&ip_rules, GeneratedRuleKind::Ip), vec![4]);

    let plan = service.sync_plan(
        &flow(3, true, vec![proxy(ProxyMode::BypassChina, 1)]),
        &dns_rules,
        &ip_rules,
    );
    assert_eq!(plan.remove_dns, vec![written.id, 3]);
    assert_eq!(plan.remove_ip, vec![4]);
    assert!(plan.write);

    let plan = service.sync_plan(&flow(3, false, vec![proxy(ProxyMode::BypassChina, 1)]), &vec![], &vec![]);
    assert!(plan.remove_dns.is_empty() && plan.remove_ip.is_empty());
    assert!(!plan.write);
}

#[test]
fn dns_upstream_is_the_first_or_a_new_default() {
    assert_eq!(choose_dns_upstream(&vec![8, 9], 1), (8, false));
    assert_eq!(choose_dns_upstream(&vec![], 1), (1, true));
}

#[test]
fn geo_cache_checks() {
    assert!(!geo_cache_needs_refresh(true, true));
    assert!(geo_cache_needs_refresh(false, true));
    assert!(geo_cache_needs_refresh(true, false));
    assert!(geo_cache_verdict(true, true).is_ok());
    for (s, i) in [(false, true), (true, false), (false, false)] {
        match geo_cache_verdict(s, i) {
            Err(e) => {
                assert!(matches!(e, ProxyError::BypassGeoCacheMissing));
                assert_eq!(e.message(), "Proxy bypass China Geo cache is missing");
                assert_eq!(e.status_code(), 400);
            }
            Ok(()) => panic!("cache verdict should fail"),
        }
    }
}

#[test]
fn refresh_targets_follow_the_kind() {
    assert_eq!(refresh_targets(Some(ProxyBypassRuleSourceKind::Domain)), (true, false));
    assert_eq!(refresh_targets(Some(ProxyBypassRuleSourceKind::Ip)), (false, true));
    assert_eq!(refresh_targets(None), (true, true));
}

#[test]
fn missing_site_source_is_created() {
    let created = ensure_geo_site_source(&vec![], 42, 1234).expect("a new source");
    assert_eq!(created.id, 42);
    assert_eq!(created.update_at, 1234);
    assert_eq!(created.name, "proxy-default");
    assert!(created.enable);
    match created.source {
        GeoSiteSource::Url { url, next_update_at, geo_keys } => {
            assert_eq!(url, SITE_URL);
            assert_eq!(next_update_at, 0);
            assert_eq!(geo_keys, vec!["CN".to_string()]);
        }
        other => panic!("unexpected source {other:?}"),
    }
    // A source with another name does not count.
    let other = vec![site_config(1, "other", GeoSiteSource::Direct)];
    assert_eq!(ensure_geo_site_source(&other, 42, 1).unwrap().id, 42);
}

#[test]
fn last_misfit_site_source_is_repaired() {
    let configs = vec![
        site_config(1, "proxy-default", GeoSiteSource::Direct),
        site_config(
            2,
            "proxy-default",
            GeoSiteSource::Url { url: SITE_URL.into(), next_update_at: 5, geo_keys: vec!["CN".into(), "US".into()] },
        ),
    ];
    let fixed = ensure_geo_site_source(&configs, 42, 99).expect("a repaired source");
    assert_eq!(fixed.id, 2);
    assert_eq!(fixed.update_at, 99);
    assert!(!fixed.enable);
    assert!(matches!(
        fixed.source,
        GeoSiteSource::Url { ref url, next_update_at: 0, ref geo_keys } if url == SITE_URL && geo_keys == &vec!["CN".to_string()]
    ));

    let fitting = vec![
        site_config(1, "proxy-default", GeoSiteSource::Direct),
        site_config(2, "proxy-default", GeoSiteSource::Url { url: SITE_URL.into(), next_update_at: 5, geo_keys: vec!["CN".into()] }),
    ];
    assert!(ensure_geo_site_source(&fitting, 42, 99).is_none());
}

#[test]
fn ip_source_is_created_or_repaired() {
    let created = ensure_geo_ip_source(&vec![], 5, 6).unwrap();
    assert_eq!((created.id, created.update_at, created.name.as_str()), (5, 6, "proxy-default"));
    assert!(matches!(
        created.source,
        GeoIpSource::Url { ref url, next_update_at: 0, format: GeoIpFileFormat::Dat, txt_key: None } if url == IP_URL
    ));
    let txt = vec![ip_config(
        8,
        "proxy-default",
        GeoIpSource::Url { url: IP_URL.into(), next_update_at: 1, format: GeoIpFileFormat::Txt, txt_key: None },
    )];
    assert_eq!(ensure_geo_ip_source(&txt, 5, 6).unwrap().id, 8);
    let fitting = vec![ip_config(
        8,
        "proxy-default",
        GeoIpSource::Url { url: IP_URL.into(), next_update_at: 1, format: GeoIpFileFormat::Dat, txt_key: None },
    )];
    assert!(ensure_geo_ip_source(&fitting, 5, 6).is_none());
}

#[test]
fn source_status_reports_the_first_source_and_the_cache() {
    let configs = vec![
        site_config(1, "other", GeoSiteSource::Direct),
        site_config(2, "proxy-default", GeoSiteSource::AdguardHome { url: "https://a".into(), next_update_at: 17 }),
        site_config(3, "proxy-default", GeoSiteSource::Direct),
    ];
    let status = domain_rule_source_status(
        &configs,
        Some(25),
        GeoRefreshRuntimeStatus { last_success_at: Some(3), last_error: Some("boom".into()) },
    );
    assert_eq!(status.kind, ProxyBypassRuleSourceKind::Domain);
    assert_eq!(status.name, "proxy-default");
    assert_eq!(status.key, "CN");
    assert_eq!(status.url.as_deref(), Some("https://a"));
    assert_eq!(status.next_update_at, Some(17));
    assert!(status.cache_exists);
    assert_eq!(status.item_count, 25);
    assert_eq!(status.last_success_at, Some(3));
    assert_eq!(status.last_error.as_deref(), Some("boom"));

    let status = ip_rule_source_status(
        &vec![],
        None,
        GeoRefreshRuntimeStatus { last_success_at: None, last_error: None },
    );
    assert_eq!(status.kind, ProxyBypassRuleSourceKind::Ip);
    assert_eq!(status.url, None);
    assert_eq!(status.next_update_at, None);
    assert!(!status.cache_exists);
    assert_eq!(status.item_count, 0);
}
