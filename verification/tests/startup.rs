//! Starting and stopping.

use splitway::config::{
    watch_settings_changed, LocalConfig, OpenVpnConfig, ResolvedConfig, VpnBackend,
};
use splitway::daemon::startup::{
    created_config, load_or_init_config, revert_report, revert_target, touches_config, watch_dir,
    watch_parent, watched_file, DetectorChoice, FileConfigStore, InitStep, LoadFailure, PlatformDetectorFactory,
};
use splitway::exec::{missing_tool, tool_from};
use splitway::resolve::{resolve_dns, ConfigController};

fn config(vpn_name: &str) -> LocalConfig {
    LocalConfig {
        vpn_name: vpn_name.to_string(),
        vpn_hosts: vec!["a.com".to_string()],
        enabled: true,
        vpn_backend: VpnBackend::NetworkManager,
        openvpn: OpenVpnConfig { management: String::new(), management_password_file: None },
        fallback_dns: None,
    }
}

#[test]
fn watch_dir_resolves_parent_or_current_directory() {
    // An absolute path watches its parent directory.
    assert_eq!(
        watch_dir("/var/lib/splitway/config.json"),
        Some("/var/lib/splitway".to_string())
    );
    // A bare relative path watches the current directory (where load/save
    // operate), rather than disabling the live watch.
    assert_eq!(watch_dir("config.json"), Some(".".to_string()));
    // A relative path with a directory component watches that directory.
    assert_eq!(watch_dir("sub/config.json"), Some("sub".to_string()));
    // A parent-less path (a bare root) cannot be watched.
    assert_eq!(watch_dir("/"), None);
}

#[test]
fn the_parent_is_watched_unless_it_is_empty_or_missing() {
    assert_eq!(watch_parent(Some("/etc".to_string())), Some("/etc".to_string()));
    assert_eq!(watch_parent(Some(String::new())), Some(".".to_string()));
    assert_eq!(watch_parent(None), None);
    assert_eq!(watch_dir(""), None);
    assert_eq!(watch_dir("/config.json"), Some("/".to_string()));
}

#[test]
fn the_watched_file_is_the_last_name_of_the_path() {
    assert_eq!(watched_file("/var/lib/splitway/config.json"), Some("config.json".to_string()));
    assert_eq!(watched_file("config.json"), Some("config.json".to_string()));
    assert_eq!(watched_file("../config.json"), Some("config.json".to_string()));
    assert_eq!(watch_dir("../config.json"), Some("..".to_string()));
    assert_eq!(watch_dir("./config.json"), Some(".".to_string()));
    // Repeated and trailing separators do not count, nor does a `.` between.
    for path in ["sub//config.json", "sub/./config.json", "sub/config.json/", "sub/config.json/."] {
        assert_eq!(watched_file(path), Some("config.json".to_string()), "{path}");
        assert_eq!(watch_dir(path), Some("sub".to_string()), "{path}");
    }
    assert_eq!(watch_dir("/./config.json"), Some("/".to_string()));
    assert_eq!(watch_dir("config.json/"), Some(".".to_string()));
    assert_eq!(watch_dir("../.."), Some("..".to_string()));
    assert_eq!(watched_file("sub/.."), None);
    assert_eq!(watch_dir("."), Some(".".to_string()));
    assert_eq!(watch_dir("/."), None);
    assert_eq!(watched_file("/"), None);
    assert_eq!(watched_file(".."), None);
    assert_eq!(watched_file(""), None);
}

#[test]
fn override_value_wins_over_default() {
    assert_eq!(
        tool_from(Some("/nix/store/abc-networkmanager/bin/nmcli".to_string()), "nmcli"),
        "/nix/store/abc-networkmanager/bin/nmcli"
    );
}

#[test]
fn falls_back_to_bare_name_when_override_absent() {
    assert_eq!(tool_from(None, "nmcli"), "nmcli");
}

#[test]
fn a_missing_tool_is_named_with_what_it_is_for() {
    assert_eq!(
        missing_tool("nmcli", "VPN detection"),
        "required tool `nmcli` not found on PATH; VPN detection cannot work — check the service \
         PATH (or the SPLITWAY_* tool override)"
    );
}

#[test]
fn only_a_change_of_the_file_itself_counts() {
    let other = vec![Some("config.json.tmp".to_string()), None];
    assert!(!touches_config(&other, "config.json"));
    let same = vec![None, Some("config.json".to_string())];
    assert!(touches_config(&same, "config.json"));
}

#[test]
fn a_missing_configuration_is_created() {
    assert_eq!(load_or_init_config(Ok(config("wg0"))), InitStep::Use(config("wg0")));
    assert_eq!(load_or_init_config(Err(LoadFailure::NotFound)), InitStep::Create);
    assert_eq!(
        load_or_init_config(Err(LoadFailure::Other("bad".to_string()))),
        InitStep::GiveUp("failed to read config: bad".to_string())
    );
    assert_eq!(created_config(Ok(()), Ok(config("wg0"))), InitStep::Use(config("wg0")));
    assert_eq!(
        created_config(Err("full".to_string()), Ok(config("wg0"))),
        InitStep::GiveUp("failed to create empty config: full".to_string())
    );
    assert_eq!(
        created_config(Ok(()), Err("bad".to_string())),
        InitStep::GiveUp("failed to read freshly created config: bad".to_string())
    );
}

#[test]
fn a_direct_revert_needs_an_interface() {
    assert_eq!(revert_target(Ok(config("wg0"))), Ok("wg0".to_string()));
    assert_eq!(
        revert_target(Ok(config(""))),
        Err("no vpn_name configured to revert".to_string())
    );
    assert_eq!(
        revert_target(Err("bad".to_string())),
        Err("failed to read config: bad".to_string())
    );
    assert_eq!(revert_report("wg0", Ok(())), Ok("reverted DNS rules on wg0".to_string()));
    assert_eq!(
        revert_report("wg0", Err("denied".to_string())),
        Err("revert failed on wg0: denied".to_string())
    );
}

#[test]
fn the_configuration_chooses_the_detector() {
    assert_eq!(PlatformDetectorFactory.create(&config("wg0")), DetectorChoice::NetworkManager);
    let mut openvpn = config("tun0");
    openvpn.vpn_backend = VpnBackend::OpenVpn;
    openvpn.openvpn.management = "h:1".to_string();
    match PlatformDetectorFactory.create(&openvpn) {
        DetectorChoice::OpenVpn(detector) => {
            assert_eq!(detector.management, "h:1");
            assert_eq!(detector.password_file, None);
        }
        other => panic!("expected OpenVPN, got {other:?}"),
    }
    assert!(watch_settings_changed(&config("tun0"), &openvpn));
}

#[test]
fn a_store_says_where_it_is() {
    assert_eq!(FileConfigStore::new("/c.json".to_string()).describe(), "/c.json");
}

#[test]
fn the_first_dns_line_gives_the_resolver() {
    let output = b"GENERAL.DEVICE: wg0\nIP4.DNS[1]:    192.0.2.1\nIP4.DNS[2]: 192.0.2.2\n".to_vec();
    assert_eq!(resolve_dns(&output).as_deref(), Some("192.0.2.1"));
    assert_eq!(resolve_dns(&b"GENERAL.DEVICE: wg0\n\xff\n".to_vec()), None);
    assert_eq!(
        config("wg0").resolve(&Some(output)),
        Some(ResolvedConfig {
            vpn_name: "wg0".to_string(),
            vpn_ip: "192.0.2.1".to_string(),
            vpn_hosts: vec!["a.com".to_string()],
        })
    );
    assert_eq!(config("wg0").resolve(&None), None);
}
