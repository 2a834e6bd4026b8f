//! Following a tunnel through OpenVPN's management interface.

use splitway::config::OpenVpnConfig;
use splitway::detector::linux::openvpn::parser::ManagementAddr;
use splitway::detector::linux::openvpn::session::{
    backoff_after, next_backoff, password_in, probe_commands, retry_delay, session_commands,
    OpenVpnDetector, Probe, ProbeNext, ProbeRead, SessionNext, SessionRead, TunnelWatch,
    INITIAL_BACKOFF, MAX_BACKOFF, MIN_HEALTHY_SESSION,
};
use splitway::platform::{PlatformError, VpnEvent, VpnInfo};

const CONNECTED: &str = ">STATE:1700000000,CONNECTED,SUCCESS,10.8.0.2,192.0.2.10,1194,,";
const CONNECTED_LATER: &str = "1700000500,CONNECTED,SUCCESS,10.8.0.2,192.0.2.10,1194,,";
const RECONNECTING: &str = ">STATE:1700000123,RECONNECTING,ping-restart,,,,,";
const PUSH: &str = ">LOG:1,I,PUSH: Received control message: 'PUSH_REPLY,dhcp-option DNS 10.8.0.1'";
const PUSH_OTHER: &str =
    ">LOG:1,I,PUSH: Received control message: 'PUSH_REPLY,dhcp-option DNS 10.9.0.1'";
const PUSH_NONE: &str = ">LOG:1,I,PUSH: Received control message: 'PUSH_REPLY,route 10.8.0.0'";

fn up(dns: &[&str]) -> Option<VpnEvent> {
    Some(VpnEvent::Up(info(dns)))
}

fn info(dns: &[&str]) -> VpnInfo {
    VpnInfo {
        interface_name: "tun0".to_string(),
        dns_servers: dns.iter().map(|s| s.to_string()).collect(),
        demote_target: None,
    }
}

fn down() -> Option<VpnEvent> {
    Some(VpnEvent::Down { interface_name: "tun0".to_string() })
}

/// A watch of a tunnel that is up with one server.
fn connected() -> TunnelWatch {
    let mut watch = TunnelWatch::new("tun0");
    watch.on_connect();
    assert_eq!(watch.handle_line(PUSH), None);
    assert_eq!(watch.handle_line(CONNECTED), up(&["10.8.0.1"]));
    watch
}

#[test]
fn an_up_carries_what_was_pushed_before_it() {
    connected();
    let mut watch = TunnelWatch::new("tun0");
    watch.on_connect();
    assert_eq!(watch.handle_line(CONNECTED), up(&[]));
}

#[test]
fn a_repeated_state_is_reported_once() {
    let mut watch = connected();
    assert_eq!(watch.handle_line(CONNECTED), None);
    assert_eq!(watch.handle_line(RECONNECTING), down());
    assert_eq!(watch.handle_line(RECONNECTING), None);
}

#[test]
fn a_down_forgets_what_was_pushed() {
    let mut watch = connected();
    assert_eq!(watch.handle_line(RECONNECTING), down());
    assert_eq!(watch.handle_line(CONNECTED), up(&[]));
}

#[test]
fn lines_without_a_state_change_nothing() {
    let mut watch = connected();
    for line in ["END", ">INFO:hello", ">STATE:1,WAIT,,,,,,", ">LOG:1,I,dhcp-option DNS 9.9.9.9"] {
        assert_eq!(watch.handle_line(line), None);
    }
    assert_eq!(watch, connected());
}

#[test]
fn the_same_tunnel_found_again_is_not_reported() {
    let mut watch = connected();
    watch.on_connect();
    assert_eq!(watch.handle_line(CONNECTED), None);
    watch.on_connect();
    assert_eq!(watch.handle_line(PUSH), None);
    assert_eq!(watch.handle_line(CONNECTED), None);
}

#[test]
fn other_servers_found_on_reconnecting_are_reported() {
    let mut watch = connected();
    watch.on_connect();
    assert_eq!(watch.handle_line(PUSH_OTHER), None);
    assert_eq!(watch.handle_line(CONNECTED_LATER), up(&["10.9.0.1"]));
    watch.on_connect();
    assert_eq!(watch.handle_line(PUSH_NONE), None);
    assert_eq!(watch.handle_line(CONNECTED_LATER), up(&[]));
}

#[test]
fn a_new_tunnel_does_not_take_over_the_servers_of_the_old_one() {
    let mut watch = connected();
    watch.on_connect();
    assert_eq!(watch.handle_line(CONNECTED_LATER), up(&[]));
}

#[test]
fn servers_pushed_while_connected_wait_for_the_next_up() {
    let mut watch = connected();
    assert_eq!(watch.handle_line(PUSH_OTHER), None);
    assert_eq!(watch.handle_line(CONNECTED), None);
}

#[test]
fn backoff_doubles_up_to_its_cap() {
    assert_eq!(next_backoff(INITIAL_BACKOFF), 2 * INITIAL_BACKOFF);
    assert_eq!(next_backoff(MAX_BACKOFF), MAX_BACKOFF);
    assert_eq!(next_backoff(u64::MAX), MAX_BACKOFF);
    assert_eq!(retry_delay(INITIAL_BACKOFF, None), (1, 2));
    assert_eq!(retry_delay(8, Some(MIN_HEALTHY_SESSION - 1)), (8, 16));
    assert_eq!(retry_delay(16, None), (16, MAX_BACKOFF));
    assert_eq!(retry_delay(16, Some(MIN_HEALTHY_SESSION)), (INITIAL_BACKOFF, 2));
    assert_eq!(backoff_after(8, MIN_HEALTHY_SESSION), INITIAL_BACKOFF);
    assert_eq!(backoff_after(8, MIN_HEALTHY_SESSION - 1), 8);
}

#[test]
fn commands_of_a_session_and_of_a_probe() {
    let secret = Some("hunter".to_string());
    assert_eq!(session_commands(&None), vec!["log on all", "state on", "state"]);
    assert_eq!(session_commands(&secret), vec!["hunter", "log on all", "state on", "state"]);
    assert_eq!(probe_commands(&None), vec!["log on all", "state"]);
    assert_eq!(probe_commands(&secret), vec!["hunter", "log on all", "state"]);
}

#[test]
fn the_password_is_the_first_line_of_its_file() {
    assert_eq!(password_in("hunter\r\nrest\n"), "hunter");
    assert_eq!(password_in(" spaced \n"), " spaced ");
    assert_eq!(password_in(""), "");
    let protected = OpenVpnDetector {
        management: "h:1".to_string(),
        password_file: Some("/etc/pass".to_string()),
    };
    assert_eq!(
        protected.read_password(Ok("hunter\n".to_string())),
        Ok(Some("hunter".to_string()))
    );
    assert_eq!(
        protected.read_password(Err("denied".to_string())),
        Err(PlatformError::CommandFailed(
            "failed to read openvpn management password file /etc/pass: denied".to_string()
        ))
    );
    let open = OpenVpnDetector { management: "h:1".to_string(), password_file: None };
    assert_eq!(open.read_password(Err("denied".to_string())), Ok(None));
}

#[test]
fn a_connection_that_ends_is_made_anew_and_changes_nothing() {
    let mut watch = connected();
    assert_eq!(
        watch.on_read(SessionRead::Eof),
        SessionNext::Reconnect(PlatformError::CommandFailed(
            "openvpn closed the management connection".to_string()
        ))
    );
    let reset = || PlatformError::Io("connection reset".to_string());
    assert_eq!(watch.on_read(SessionRead::Failed(reset())), SessionNext::Reconnect(reset()));
    assert_eq!(watch, connected());
    assert_eq!(
        watch.on_read(SessionRead::Line(RECONNECTING.to_string())),
        SessionNext::ReadOn(down())
    );
}

#[test]
fn a_probe_ends_with_silence_and_fails_with_an_error() {
    let mut probe = Probe::new();
    assert_eq!(probe.on_read(ProbeRead::Line(CONNECTED.to_string())), ProbeNext::ReadOn);
    assert_eq!(probe.on_read(ProbeRead::Quiet), ProbeNext::Enough);
    assert_eq!(probe.on_read(ProbeRead::Eof), ProbeNext::Enough);
    let reset = || PlatformError::Io("connection reset".to_string());
    assert_eq!(probe.on_read(ProbeRead::Failed(reset())), ProbeNext::Failed(reset()));
    assert_eq!(probe.finish("tun0"), Ok(info(&[])));
}

#[test]
fn a_probe_reads_past_the_log() {
    let mut probe = Probe::new();
    assert!(!probe.on_line("1,I,PUSH: Received control message: 'PUSH_REPLY,dhcp-option DNS 10.8.0.1'\n"));
    assert!(!probe.on_line("END\r\n"));
    assert!(!probe.on_line(CONNECTED_LATER));
    assert!(!probe.on_line(PUSH_NONE));
    assert!(probe.on_line("END\n"));
    assert_eq!(probe.finish("tun0"), Ok(info(&["10.8.0.1"])));
}

#[test]
fn a_probe_of_a_tunnel_that_is_down_finds_none() {
    let mut probe = Probe::new();
    probe.on_line(CONNECTED);
    probe.on_line(RECONNECTING);
    assert_eq!(probe.finish("tun0"), Err(PlatformError::VpnNotFound("tun0".to_string())));
}

#[test]
fn a_detector_is_made_from_its_configuration() {
    let config = OpenVpnConfig {
        management: "/run/m.sock".to_string(),
        management_password_file: Some("/etc/pass".to_string()),
    };
    let detector = OpenVpnDetector::from_config(&config);
    assert_eq!(detector.management, "/run/m.sock");
    assert_eq!(detector.password_file.as_deref(), Some("/etc/pass"));
}

#[test]
fn a_management_address_in_words() {
    assert_eq!(ManagementAddr::Tcp("h:1".to_string()).describe(), "tcp h:1");
    assert_eq!(ManagementAddr::Unix("/s".to_string()).describe(), "unix /s");
}
