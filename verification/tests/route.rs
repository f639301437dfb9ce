use landscape::flow::IpAddr;
use landscape::route::{DefaultRouterManager, RouteInfo, RouteType};

fn info(iface: &str, weight: u32, route: RouteType) -> RouteInfo {
    RouteInfo { iface_name: iface.to_string(), weight, route }
}

fn args(v: &[&str]) -> Vec<String> {
    v.iter().map(|s| s.to_string()).collect()
}

#[test]
fn empty_manager_deletes_both_default_routes() {
    let m = DefaultRouterManager::new();
    assert_eq!(
        m.default_route_commands(),
        vec![args(&["route", "del", "default"]), args(&["-6", "route", "del", "default"])]
    );
}

#[test]
fn uplinks_become_multipath_next_hops() {
    let mut m = DefaultRouterManager::new();
    m.add_route(info("eth0", 1, RouteType::Ipv4(0xc0a8_0101)));
    m.add_route(info("ppp0", 2, RouteType::PPP));
    let cmds = m.add_route(info("eth1", 3, RouteType::Ipv6(0x2001_0db8 << 96 | 1)));
    assert_eq!(
        cmds[0],
        args(&[
            "route", "add", "default", "nexthop", "via", "192.168.1.1", "dev", "eth0",
            "weight", "1", "nexthop", "dev", "ppp0", "weight", "2",
        ])
    );
    assert_eq!(
        cmds[1],
        args(&[
            "-6", "route", "add", "default", "nexthop", "via", "2001:db8::1", "dev", "eth1",
            "weight", "3",
        ])
    );
}

#[test]
fn adding_twice_is_adding_once() {
    let mut m = DefaultRouterManager::new();
    let first = m.add_route(info("eth0", 1, RouteType::Ipv4(0x0a00_0001)));
    let second = m.add_route(info("eth0", 1, RouteType::Ipv4(0x0a00_0001)));
    assert_eq!(first, second);
    assert_eq!(m.routes().len(), 1);
}

#[test]
fn removing_an_interface_removes_all_its_uplinks() {
    let mut m = DefaultRouterManager::new();
    m.add_route(info("eth0", 1, RouteType::Ipv4(0x0a00_0001)));
    m.add_route(info("eth0", 1, RouteType::Ipv6(1)));
    m.add_route(info("eth1", 4, RouteType::Ipv4(0x0a00_0102)));
    let cmds = m.del_route_by_iface("eth0");
    assert_eq!(
        cmds,
        vec![
            args(&["route", "add", "default", "nexthop", "via", "10.0.1.2", "dev", "eth1", "weight", "4"]),
            args(&["-6", "route", "del", "default"]),
        ]
    );
    let cmds = m.del_route_by_iface("eth1");
    assert_eq!(
        cmds,
        vec![args(&["route", "del", "default"]), args(&["-6", "route", "del", "default"])]
    );
}

#[test]
fn addresses_become_next_hops() {
    assert_eq!(RouteType::from(IpAddr::V4(0x0a00_0001)), RouteType::Ipv4(0x0a00_0001));
    assert_eq!(RouteType::from(IpAddr::V6(7)), RouteType::Ipv6(7));
}
