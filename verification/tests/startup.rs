use http_proxy::cli::{
    build_client, plan_servers, Cli, ListenAddr, StartupError, DEFAULT_LISTEN,
    DEFAULT_TIMEOUT_SECS,
};
use http_proxy::lifecycle::{
    shutdown_handler, shutdown_signal, stdin_closed, wait_for_port, PortAction, PortEvent,
    PortWait, ShutdownEvent, RETRY_SECS, SHUTDOWN_PATH,
};

const LOOPBACK: u32 = 0x7f00_0001;

fn cli(target2: Option<&str>, listen2: Option<&str>) -> Cli {
    Cli {
        target: "https://example.com".to_string(),
        listen: DEFAULT_LISTEN.to_string(),
        target2: target2.map(|t| t.to_string()),
        listen2: listen2.map(|l| l.to_string()),
        timeout: DEFAULT_TIMEOUT_SECS,
        timeout2: None,
    }
}

fn v4(port: u16) -> ListenAddr {
    ListenAddr::V4 { ip: LOOPBACK, port }
}

#[test]
fn defaults_of_the_command_line() {
    assert_eq!(DEFAULT_LISTEN, "127.0.0.1:18080");
    assert_eq!(DEFAULT_TIMEOUT_SECS, 200);
}

#[test]
fn one_target_runs_one_server() {
    let plan = plan_servers(&cli(None, None), Some(v4(18080)), None).unwrap();
    assert_eq!(plan.primary.target, "https://example.com");
    assert_eq!(plan.primary.addr, v4(18080));
    assert!(plan.secondary.is_none());
}

#[test]
fn listen2_is_ignored_without_target2() {
    for listen2 in [None, Some(v4(9))] {
        let plan = plan_servers(&cli(None, Some("garbage")), Some(v4(65535)), listen2).unwrap();
        assert!(plan.secondary.is_none());
    }
}

#[test]
fn second_server_takes_the_next_port() {
    for port in [18080u16, 1234, 65534] {
        let plan =
            plan_servers(&cli(Some("https://exampletwo.com"), None), Some(v4(port)), None).unwrap();
        let second = plan.secondary.unwrap();
        assert_eq!(second.target, "https://exampletwo.com");
        assert_eq!(second.addr, v4(port + 1));
        assert_eq!(plan.primary.addr, v4(port));
    }
}

#[test]
fn second_server_takes_its_own_address() {
    let plan = plan_servers(
        &cli(Some("https://exampletwo.com"), Some("127.0.0.1:23450")),
        Some(v4(1234)),
        Some(v4(23450)),
    )
    .unwrap();
    assert_eq!(plan.secondary.unwrap().addr, v4(23450));
}

#[test]
fn next_port_keeps_nothing_but_the_ip() {
    let addr = ListenAddr::V6 { ip6: 1, port: 80, flowinfo: 7, scope_id: 3 };
    assert_eq!(addr.port(), 80);
    assert_eq!(
        addr.next_port(),
        Some(ListenAddr::V6 { ip6: 1, port: 81, flowinfo: 0, scope_id: 0 })
    );
}

#[test]
fn addresses_that_cannot_be_used_are_refused() {
    assert_eq!(
        plan_servers(&cli(None, None), None, None).unwrap_err(),
        StartupError::InvalidListen
    );
    assert_eq!(
        plan_servers(&cli(Some("https://b"), Some("x")), Some(v4(1)), None).unwrap_err(),
        StartupError::InvalidListen2
    );
    assert_eq!(
        plan_servers(&cli(Some("https://b"), None), Some(v4(65535)), None).unwrap_err(),
        StartupError::NoNextPort { port: 65535 }
    );
}

#[test]
fn client_policy_is_fixed_but_for_the_timeout() {
    let policy = build_client(60);
    assert_eq!(policy.pool_max_idle_per_host, 64);
    assert_eq!(policy.pool_idle_timeout_secs, 90);
    assert_eq!(policy.tcp_keepalive_secs, 60);
    assert!(policy.tcp_nodelay);
    assert!(!policy.follow_redirects);
    assert!(!policy.decompress);
    assert_eq!(policy.timeout_secs, Some(60));
    assert_eq!(build_client(0).timeout_secs, None);
}

#[test]
fn second_timeout_defaults_to_the_first() {
    let mut args = cli(None, None);
    args.timeout2 = Some(5);
    let (first, second) = args.client_policies();
    assert_eq!(first.timeout_secs, Some(200));
    assert!(second.is_none());

    let mut args = cli(Some("https://b"), None);
    assert_eq!(args.client_policies().1.unwrap().timeout_secs, Some(200));
    args.timeout2 = Some(0);
    assert_eq!(args.client_policies().1.unwrap().timeout_secs, None);
    args.timeout2 = Some(7);
    let (first, second) = args.client_policies();
    assert_eq!(first.timeout_secs, Some(200));
    assert_eq!(second.unwrap().timeout_secs, Some(7));
}

#[test]
fn free_port_is_served_at_once() {
    assert_eq!(
        wait_for_port(PortWait::Binding { dormant: false }, PortEvent::Bound),
        Some((PortWait::Over, PortAction::Serve { announce: false }))
    );
    assert_eq!(
        wait_for_port(PortWait::Binding { dormant: false }, PortEvent::BindFailed),
        Some((PortWait::Over, PortAction::Abort))
    );
}

#[test]
fn dormant_mode_announces_once() {
    assert_eq!(RETRY_SECS, 1);
    let mut state = PortWait::Binding { dormant: false };
    let mut actions = Vec::new();
    for event in [
        PortEvent::InUse,
        PortEvent::PauseOver,
        PortEvent::InUse,
        PortEvent::PauseOver,
        PortEvent::Bound,
    ] {
        let (next, action) = wait_for_port(state, event).unwrap();
        state = next;
        actions.push(action);
    }
    assert_eq!(
        actions,
        vec![
            PortAction::Sleep { announce: true },
            PortAction::Bind,
            PortAction::Sleep { announce: false },
            PortAction::Bind,
            PortAction::Serve { announce: true },
        ]
    );
    assert_eq!(state, PortWait::Over);
}

#[test]
fn dormant_mode_ends_with_a_shutdown_request() {
    let start = PortWait::Binding { dormant: false };
    let (state, action) = wait_for_port(start, PortEvent::InUse).unwrap();
    assert_eq!(action, PortAction::Sleep { announce: true });
    assert_eq!(
        wait_for_port(state, PortEvent::ShutdownRequested),
        Some((PortWait::Over, PortAction::Leave))
    );
    assert_eq!(wait_for_port(start, PortEvent::ShutdownRequested), None);
    for event in [
        PortEvent::PauseOver,
        PortEvent::StdinClosed,
        PortEvent::ShutdownRequested,
    ] {
        assert!(wait_for_port(PortWait::Sleeping, event).is_some());
    }
    for event in [PortEvent::Bound, PortEvent::InUse, PortEvent::BindFailed] {
        assert!(wait_for_port(PortWait::Binding { dormant: true }, event).is_some());
    }
}

#[test]
fn dormant_mode_ends_with_stdin() {
    assert_eq!(
        wait_for_port(PortWait::Sleeping, PortEvent::StdinClosed),
        Some((PortWait::Over, PortAction::Leave))
    );
    assert_eq!(wait_for_port(PortWait::Sleeping, PortEvent::Bound), None);
    assert_eq!(wait_for_port(PortWait::Binding { dormant: true }, PortEvent::PauseOver), None);
    assert_eq!(wait_for_port(PortWait::Over, PortEvent::Bound), None);
}

#[test]
fn stdin_counts_as_closed_at_its_end_or_on_error() {
    assert!(stdin_closed(Some(0)));
    assert!(stdin_closed(None));
    assert!(!stdin_closed(Some(1)));
}

#[test]
fn every_trigger_shuts_down() {
    for event in [
        ShutdownEvent::Interrupt,
        ShutdownEvent::Terminate,
        ShutdownEvent::Requested,
        ShutdownEvent::StdinClosed,
    ] {
        assert!(shutdown_signal(event));
    }
    assert!(!shutdown_signal(ShutdownEvent::TerminateUnavailable));
}

#[test]
fn shutdown_requests_are_granted() {
    assert_eq!(SHUTDOWN_PATH, "/__shutdown");
    let reply = shutdown_handler();
    assert!(reply.shut_down);
    assert_eq!(reply.status, 200);
}
