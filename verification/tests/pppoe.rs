use landscape::flow::MacAddr;
use landscape::pppoe::{
    link_mtu_command, native_cleanup_plan, native_pppoe_state, native_setup_plan,
    neigh_add_command, peer_addr_command, pppoe_lifecycle_step, ready_channel_closed, tc_setup_step,
    xdp_attach_step, PppoeLifecycleEvent, PppoeLifecyclePhase, PppoeLifecycleStep,
    DefaultRouteChange, LandscapeEbpfError, PppoeIfaceConfig, PppoeSession, PppoeSessionFacts,
    PppoeSetupError, TcSetupPhase, TcSetupStep, XdpAttachEvent, XdpAttachPhase, XdpAttachStep,
};
use landscape::route::RouteType;

const CLIENT: u32 = 0x0a00_0002; // 10.0.0.2
const SERVER: u32 = 0x0a00_0001; // 10.0.0.1

fn config(default_router: bool) -> PppoeIfaceConfig {
    PppoeIfaceConfig {
        index: 7,
        iface_name: "ppp-wan".to_string(),
        iface_mac: MacAddr::new(0x02, 0x11, 0x22, 0x33, 0x44, 0x55),
        default_router,
        requested_mru: 1492,
    }
}

fn facts() -> PppoeSessionFacts {
    PppoeSessionFacts {
        acked_mru: Some(1480),
        client_ip: Some(CLIENT),
        server_ip: Some(SERVER),
        session: Some(PppoeSession {
            server_mac: MacAddr::new(0xaa, 0xbb, 0xcc, 0xdd, 0xee, 0xff),
            session_id: 0x2233,
        }),
    }
}

fn strings(v: &[&str]) -> Vec<String> {
    v.iter().map(|s| s.to_string()).collect()
}

#[test]
fn setup_is_refused_in_the_order_of_the_checks() {
    let mut f = facts();
    f.acked_mru = None;
    f.client_ip = None;
    let e = native_pppoe_state(&f, &config(true)).unwrap_err();
    assert_eq!(e, PppoeSetupError::LcpNotAcknowledged);
    assert_eq!(
        e.message(),
        "cannot enable PPPoE eBPF because local LCP config is not acknowledged"
    );

    let mut f = facts();
    f.client_ip = None;
    f.session = None;
    assert_eq!(native_pppoe_state(&f, &config(true)).unwrap_err(), PppoeSetupError::LocalIpv4Missing);

    let mut f = facts();
    f.server_ip = None;
    assert_eq!(native_pppoe_state(&f, &config(true)).unwrap_err(), PppoeSetupError::PeerIpv4Missing);

    let mut f = facts();
    f.session = None;
    let e = native_pppoe_state(&f, &config(true)).unwrap_err();
    assert_eq!(e, PppoeSetupError::NoActiveSession);
    assert_eq!(e.message(), "cannot enable PPPoE eBPF without an active session");
}

#[test]
fn mru_is_the_smaller_of_acked_and_requested() {
    let st = native_pppoe_state(&facts(), &config(true)).unwrap();
    assert_eq!(st.mru, 1480);
    assert_eq!(st.session_id, 0x2233);
    assert_eq!(st.index, 7);
    assert_eq!(st.iface_name, "ppp-wan");
    let mut f = facts();
    f.acked_mru = Some(1500);
    assert_eq!(native_pppoe_state(&f, &config(true)).unwrap().mru, 1492);
}

#[test]
fn ip_commands_have_their_arguments() {
    assert_eq!(link_mtu_command("eth0", 1492), strings(&["link", "set", "dev", "eth0", "mtu", "1492"]));
    assert_eq!(
        peer_addr_command(true, CLIENT, SERVER, "eth0"),
        strings(&["addr", "add", "10.0.0.2", "peer", "10.0.0.1/32", "dev", "eth0"])
    );
    assert_eq!(
        peer_addr_command(false, CLIENT, SERVER, "eth0"),
        strings(&["addr", "del", "10.0.0.2", "peer", "10.0.0.1/32", "dev", "eth0"])
    );
    assert_eq!(
        neigh_add_command(SERVER, MacAddr::new(0xaa, 0xbb, 0xcc, 0x0d, 0xee, 0x0f), "eth0"),
        strings(&["neigh", "add", "10.0.0.1", "lladdr", "aa:bb:cc:0d:ee:0f", "dev", "eth0"])
    );
}

#[test]
fn setup_and_cleanup_mirror_each_other() {
    let st = native_pppoe_state(&facts(), &config(true)).unwrap();
    let setup = native_setup_plan(&st);
    assert_eq!(setup.wan_ip.ifindex, 7);
    assert_eq!(setup.wan_ip.ip, CLIENT);
    assert_eq!(setup.wan_ip.gateway, Some(SERVER));
    assert_eq!(setup.wan_ip.prefix, 32);
    assert_eq!(setup.wan_ip.mac, Some(MacAddr::new(0x02, 0x11, 0x22, 0x33, 0x44, 0x55)));
    assert_eq!(setup.mtu_args, strings(&["link", "set", "dev", "ppp-wan", "mtu", "1480"]));
    assert_eq!(
        setup.addr_args,
        strings(&["addr", "add", "10.0.0.2", "peer", "10.0.0.1/32", "dev", "ppp-wan"])
    );
    assert_eq!(setup.lan_route.prefix, 32);
    assert_eq!(setup.lan_route.iface_ip, CLIENT);
    assert_eq!(setup.wan_route.gateway_ip, SERVER);
    assert_eq!(setup.wan_route.weight, 1);
    assert!(setup.wan_route.default_route);
    match &setup.default_route {
        DefaultRouteChange::Add(info) => {
            assert_eq!(info.iface_name, "ppp-wan");
            assert_eq!(info.weight, 1);
            assert_eq!(info.route, RouteType::Ipv4(SERVER));
        }
        other => panic!("unexpected change {other:?}"),
    }
    assert_eq!(
        setup.neigh_args,
        strings(&["neigh", "add", "10.0.0.1", "lladdr", "aa:bb:cc:dd:ee:ff", "dev", "ppp-wan"])
    );

    let cleanup = native_cleanup_plan(&st);
    assert_eq!(
        cleanup.addr_args,
        strings(&["addr", "del", "10.0.0.2", "peer", "10.0.0.1/32", "dev", "ppp-wan"])
    );
    assert!(cleanup.remove_default_route);
    assert_eq!(cleanup.wan_ip_index, 7);
    assert_eq!(cleanup.mtu_args, strings(&["link", "set", "dev", "ppp-wan", "mtu", "1500"]));

    let st = native_pppoe_state(&facts(), &config(false)).unwrap();
    match native_setup_plan(&st).default_route {
        DefaultRouteChange::RemoveIface(name) => assert_eq!(name, "ppp-wan"),
        other => panic!("unexpected change {other:?}"),
    }
    assert!(!native_cleanup_plan(&st).remove_default_route);
}

fn done_error(step: XdpAttachStep) -> String {
    match step {
        XdpAttachStep::Done(Err(e)) => e.message(),
        other => panic!("unexpected step {other:?}"),
    }
}

#[test]
fn xdp_attach_first_try() {
    assert!(matches!(
        xdp_attach_step(XdpAttachPhase::Attaching, XdpAttachEvent::Succeeded, 3),
        XdpAttachStep::Done(Ok(()))
    ));
    let step = xdp_attach_step(XdpAttachPhase::Attaching, XdpAttachEvent::Failed("Invalid argument".into()), 3);
    assert!(matches!(&step, XdpAttachStep::Done(Err(LandscapeEbpfError::Libbpf(_)))));
    assert_eq!(done_error(step), "libbpf error: Invalid argument");
}

#[test]
fn xdp_attach_replaces_a_stale_copy() {
    let step = xdp_attach_step(XdpAttachPhase::Attaching, XdpAttachEvent::AlreadyExists, 3);
    assert!(matches!(step, XdpAttachStep::Next(XdpAttachPhase::Querying)));
    let step = xdp_attach_step(XdpAttachPhase::Querying, XdpAttachEvent::QueriedId(41), 3);
    assert!(matches!(step, XdpAttachStep::Next(XdpAttachPhase::Finding(41))));
    let step = xdp_attach_step(
        XdpAttachPhase::Finding(41),
        XdpAttachEvent::ProgramName(Some("pppoe_xdp_ingr".into())),
        3,
    );
    assert!(matches!(step, XdpAttachStep::Next(XdpAttachPhase::Detaching)));
    let step = xdp_attach_step(XdpAttachPhase::Detaching, XdpAttachEvent::Succeeded, 3);
    assert!(matches!(step, XdpAttachStep::Next(XdpAttachPhase::Reattaching)));
    let step = xdp_attach_step(XdpAttachPhase::Reattaching, XdpAttachEvent::Succeeded, 3);
    assert!(matches!(step, XdpAttachStep::Done(Ok(()))));
}

#[test]
fn xdp_attach_failures_say_where() {
    assert_eq!(
        done_error(xdp_attach_step(XdpAttachPhase::Querying, XdpAttachEvent::Failed("EPERM".into()), 3)),
        "pppoe xdp query failed on ifindex 3: EPERM"
    );
    assert_eq!(
        done_error(xdp_attach_step(XdpAttachPhase::Finding(41), XdpAttachEvent::ProgramName(None), -2)),
        "pppoe xdp existing program id 41 not found on ifindex -2"
    );
    assert_eq!(
        done_error(xdp_attach_step(
            XdpAttachPhase::Finding(41),
            XdpAttachEvent::ProgramName(Some("xdp_firewall".into())),
            3
        )),
        "pppoe xdp already attached on ifindex 3 by non-pppoe program xdp_firewall"
    );
    assert_eq!(
        done_error(xdp_attach_step(XdpAttachPhase::Detaching, XdpAttachEvent::Failed("EBUSY".into()), 3)),
        "pppoe xdp detach stale program failed on ifindex 3: EBUSY"
    );
    assert_eq!(
        done_error(xdp_attach_step(XdpAttachPhase::Reattaching, XdpAttachEvent::Failed("EEXIST".into()), 3)),
        "pppoe xdp attach after stale detach failed on ifindex 3: EEXIST"
    );
}

#[test]
fn ebpf_error_texts() {
    assert_eq!(LandscapeEbpfError::ParseIdErr.message(), "parse ID Error");
    assert_eq!(LandscapeEbpfError::TryFromSliceError("x".into()).message(), "parse ID Error: x");
    assert_eq!(LandscapeEbpfError::Internal("plain".into()).message(), "plain");
}

#[test]
fn tc_setup_runs_in_order_and_cleans_up_after_xdp_failure() {
    let mut phase = TcSetupPhase::AcquirePipeline;
    let mut seen = vec![phase];
    loop {
        match tc_setup_step(phase, Ok(())) {
            TcSetupStep::Next(next) => {
                phase = next;
                seen.push(phase);
            }
            TcSetupStep::Ready => break,
            TcSetupStep::Fail { .. } => panic!("no failure expected"),
        }
    }
    assert_eq!(
        seen,
        vec![
            TcSetupPhase::AcquirePipeline,
            TcSetupPhase::OpenPrograms,
            TcSetupPhase::LoadPrograms,
            TcSetupPhase::RegisterPrograms,
            TcSetupPhase::AttachXdp,
        ]
    );
    match tc_setup_step(TcSetupPhase::AttachXdp, Err(LandscapeEbpfError::Internal("x".into()))) {
        TcSetupStep::Fail { unregister, error } => {
            assert!(unregister);
            assert_eq!(error.message(), "x");
        }
        other => panic!("unexpected {other:?}"),
    }
    match tc_setup_step(TcSetupPhase::LoadPrograms, Err(LandscapeEbpfError::ParseIdErr)) {
        TcSetupStep::Fail { unregister, .. } => assert!(!unregister),
        other => panic!("unexpected {other:?}"),
    }
    assert_eq!(
        ready_channel_closed(7, "receiving on a closed channel").message(),
        "pppoe tc ready channel closed for ifindex=7: receiving on a closed channel"
    );
}

#[test]
fn lifecycle_cleans_up_on_failure_and_acknowledges_last() {
    let next = |phase, event| pppoe_lifecycle_step(phase, event, "ppp-wan");
    assert!(matches!(
        next(PppoeLifecyclePhase::InstallingState, PppoeLifecycleEvent::Done),
        PppoeLifecycleStep::Next(PppoeLifecyclePhase::SettingUpPrograms)
    ));
    assert!(matches!(
        next(PppoeLifecyclePhase::SettingUpPrograms, PppoeLifecycleEvent::Done),
        PppoeLifecycleStep::Ready
    ));
    match next(
        PppoeLifecyclePhase::SettingUpPrograms,
        PppoeLifecycleEvent::ProgramsFailed(LandscapeEbpfError::Internal("no pipeline".into())),
    ) {
        PppoeLifecycleStep::CleanUpThenFail(text) => assert_eq!(
            text,
            "failed to enable native PPPoE TC/eBPF on iface ppp-wan: no pipeline"
        ),
        other => panic!("unexpected {other:?}"),
    }

    // The teardown, with the stop acknowledged at the very end.
    let mut phase = PppoeLifecyclePhase::Running;
    let mut seen = vec![];
    let mut event = PppoeLifecycleEvent::StopRequested { acknowledge: true };
    loop {
        match next(phase, event) {
            PppoeLifecycleStep::Next(p) => {
                phase = p;
                seen.push(p);
            }
            PppoeLifecycleStep::Finished => break,
            other => panic!("unexpected {other:?}"),
        }
        event = if matches!(phase, PppoeLifecyclePhase::DetachingXdp { .. }) && seen.len() == 2 {
            PppoeLifecycleEvent::DetachFailed("busy".into())
        } else {
            PppoeLifecycleEvent::Done
        };
    }
    assert_eq!(
        seen,
        vec![
            PppoeLifecyclePhase::UnregisteringPrograms { acknowledge: true },
            PppoeLifecyclePhase::DetachingXdp { acknowledge: true },
            PppoeLifecyclePhase::CleaningUp { acknowledge: true },
            PppoeLifecyclePhase::Acknowledging,
        ]
    );
    // Without anyone waiting, the teardown ends after the clean-up.
    assert!(matches!(
        next(PppoeLifecyclePhase::CleaningUp { acknowledge: false }, PppoeLifecycleEvent::Done),
        PppoeLifecycleStep::Finished
    ));
}
