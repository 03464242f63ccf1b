use netcfg::model::{ConnectionStore, IpAddress, IpMethod, IpSettings};
use netcfg::networkcfg::{ip_string, IPConfig, NetworkConfig};
use netcfg::nmmgr::MapNMManger;
use netcfg::ConfigError;

fn manual_v4_cfg() -> IPConfig {
    IPConfig {
        address: IpAddress::V4(10, 0, 0, 5),
        gateway: Some(IpAddress::V4(10, 0, 0, 1)),
        dns: Some(IpAddress::V4(8, 8, 8, 8)),
        prefix: 24,
    }
}

fn manual_v6_cfg() -> IPConfig {
    IPConfig {
        address: IpAddress::V6(0x2001, 0xdb8, 0, 0, 0, 0, 0, 1),
        gateway: Some(IpAddress::V6(0x2001, 0xdb8, 0, 0, 0, 0, 0, 0xff)),
        dns: Some(IpAddress::V6(0x2001, 0x4860, 0x4860, 0, 0, 0, 0, 0x8888)),
        prefix: 64,
    }
}

#[test]
fn round_trip_v4() {
    let mut s = IpSettings::new();
    let cfg = manual_v4_cfg();
    NetworkConfig::set_manual(&mut s, &cfg);
    assert_eq!(IPConfig::from_settings(&s), Some(cfg));
}

#[test]
fn round_trip_v6() {
    let mut s = IpSettings::new();
    let cfg = manual_v6_cfg();
    NetworkConfig::set_manual(&mut s, &cfg);
    assert_eq!(IPConfig::from_settings(&s), Some(cfg));
}

#[test]
fn round_trip_without_gateway_and_dns() {
    let mut s = IpSettings::new();
    let cfg = IPConfig {
        address: IpAddress::V4(192, 168, 1, 2),
        gateway: None,
        dns: None,
        prefix: 16,
    };
    NetworkConfig::set_manual(&mut s, &cfg);
    assert_eq!(IPConfig::from_settings(&s), Some(cfg));
}

#[test]
fn apply_twice_keeps_single_address_entry() {
    let mut s = IpSettings::new();
    let cfg = manual_v4_cfg();
    NetworkConfig::set_manual(&mut s, &cfg);
    NetworkConfig::set_manual(&mut s, &cfg);
    assert_eq!(s.address(0), Some((IpAddress::V4(10, 0, 0, 5), 24)));
    assert_eq!(s.address(1), None);
    assert_eq!(s.dns(0), Some(IpAddress::V4(8, 8, 8, 8)));
    assert_eq!(s.dns(1), None);
    assert_eq!(s.method(), Some(IpMethod::ManualV4));
    assert_eq!(s.gateway(), Some(IpAddress::V4(10, 0, 0, 1)));
}

#[test]
fn dhcp_reset_clears_everything() {
    let mut s = IpSettings::new();
    NetworkConfig::set_manual(&mut s, &manual_v4_cfg());
    NetworkConfig::set_dhcp(&mut s, 4);
    assert_eq!(s.address(0), None);
    assert_eq!(s.dns(0), None);
    assert_eq!(s.gateway(), None);
    assert_eq!(s.method(), Some(IpMethod::AutoV4));

    let mut s6 = IpSettings::new();
    NetworkConfig::set_manual(&mut s6, &manual_v6_cfg());
    NetworkConfig::set_dhcp(&mut s6, 6);
    assert_eq!(s6.method(), Some(IpMethod::AutoV6));
    assert_eq!(s6.address(0), None);
}

#[test]
fn family_selects_matching_method() {
    let mut s = IpSettings::new();
    NetworkConfig::set_manual(&mut s, &manual_v6_cfg());
    assert_eq!(s.method(), Some(IpMethod::ManualV6));

    let mut s4 = IpSettings::new();
    NetworkConfig::set_manual(&mut s4, &manual_v4_cfg());
    assert_eq!(s4.method(), Some(IpMethod::ManualV4));
}

#[test]
fn manual_then_dhcp_scenario() {
    let mut s = IpSettings::new();
    let cfg = manual_v4_cfg();
    NetworkConfig::set_manual(&mut s, &cfg);
    let read_back = IPConfig::from_settings(&s).unwrap();
    assert_eq!(read_back.address, IpAddress::V4(10, 0, 0, 5));
    assert_eq!(read_back.prefix, 24);
    assert_eq!(read_back.gateway, Some(IpAddress::V4(10, 0, 0, 1)));
    assert_eq!(read_back.dns, Some(IpAddress::V4(8, 8, 8, 8)));
    NetworkConfig::set_dhcp(&mut s, 4);
    assert_eq!(IPConfig::from_settings(&s), None);
}

#[test]
fn manual_block_without_address_reads_as_none() {
    let mut s = IpSettings::new();
    s.set_method(Some(IpMethod::ManualV4));
    assert_eq!(IPConfig::from_settings(&s), None);
}

#[test]
fn auto_block_reads_as_none() {
    let mut s = IpSettings::new();
    NetworkConfig::set_dhcp(&mut s, 4);
    assert_eq!(IPConfig::from_settings(&s), None);
}

#[test]
fn handle_attaches_missing_block() {
    let mut mgr = MapNMManger::new(vec![("eth0".to_string(), "enp1s0".to_string())]);
    let mut store = ConnectionStore::new();
    let i = mgr.connection_by_name(&mut store, "eth0").unwrap();
    assert!(store.get(i).ipv4.is_none());
    assert!(store.get(i).ipv6.is_none());
    let cfg = NetworkConfig {
        name: "eth0".to_string(),
        ipv4cfg: Some(manual_v4_cfg()),
        ipv6cfg: None,
    };
    cfg.save(&mut mgr, &mut store).unwrap();
    let conn = store.get(i);
    let v4 = conn.ipv4.as_ref().unwrap();
    assert_eq!(v4.method(), Some(IpMethod::ManualV4));
    assert_eq!(v4.address(0), Some((IpAddress::V4(10, 0, 0, 5), 24)));
    let v6 = conn.ipv6.as_ref().unwrap();
    assert_eq!(v6.method(), Some(IpMethod::AutoV6));
    assert_eq!(v6.address(0), None);
}

#[test]
fn save_unmapped_name_fails_without_creating() {
    let mut mgr = MapNMManger::new(vec![("eth0".to_string(), "enp1s0".to_string())]);
    let mut store = ConnectionStore::new();
    let cfg = NetworkConfig {
        name: "eth7".to_string(),
        ipv4cfg: Some(manual_v4_cfg()),
        ipv6cfg: None,
    };
    assert_eq!(cfg.save(&mut mgr, &mut store), Err(ConfigError::UnmappedInterface));
    assert_eq!(store.len(), 0);
}

#[test]
fn save_creates_missing_connection_and_round_trips() {
    let mut mgr = MapNMManger::new(vec![("eth0".to_string(), "enp1s0".to_string())]);
    let mut store = ConnectionStore::new();
    let cfg = NetworkConfig {
        name: "eth0".to_string(),
        ipv4cfg: Some(manual_v4_cfg()),
        ipv6cfg: None,
    };
    cfg.save(&mut mgr, &mut store).unwrap();
    assert_eq!(store.len(), 1);
    assert_eq!(store.get(0).id, "eth0");
    assert_eq!(store.get(0).interface_name.as_deref(), Some("enp1s0"));
    let loaded = NetworkConfig::load(&mut mgr, &mut store, "eth0").unwrap();
    assert_eq!(loaded.ipv4cfg, cfg.ipv4cfg);
    assert_eq!(loaded.ipv6cfg, None);
    assert_eq!(store.len(), 1);
}

#[test]
fn renders_config_text() {
    let cfg = manual_v4_cfg();
    assert_eq!(
        cfg.to_text(),
        "address: 10.0.0.5/24\ngateway: 10.0.0.1\ndns: 8.8.8.8"
    );
    let bare = IPConfig {
        address: IpAddress::V4(192, 168, 1, 2),
        gateway: None,
        dns: None,
        prefix: 16,
    };
    assert_eq!(bare.to_text(), "address: 192.168.1.2/16\ngateway: \ndns: ");
    let cfg6 = manual_v6_cfg();
    assert_eq!(
        cfg6.to_text(),
        "address: 2001:db8::1/64\ngateway: 2001:db8::ff\ndns: 2001:4860:4860::8888"
    );
}

#[test]
fn renders_v6_addresses() {
    assert_eq!(ip_string(&IpAddress::V6(0, 0, 0, 0, 0, 0, 0, 0)), "::");
    assert_eq!(ip_string(&IpAddress::V6(0, 0, 0, 0, 0, 0, 0, 1)), "::1");
    assert_eq!(
        ip_string(&IpAddress::V6(0x2001, 0xdb8, 0, 0, 0, 0, 0, 1)),
        "2001:db8::1"
    );
    // a lone zero group is not compressed
    assert_eq!(
        ip_string(&IpAddress::V6(1, 0, 2, 3, 4, 5, 6, 7)),
        "1:0:2:3:4:5:6:7"
    );
    // the earliest of two equally long runs is the one compressed
    assert_eq!(
        ip_string(&IpAddress::V6(1, 0, 0, 2, 3, 0, 0, 4)),
        "1::2:3:0:0:4"
    );
    // a longer later run beats a shorter earlier one
    assert_eq!(
        ip_string(&IpAddress::V6(1, 0, 0, 2, 0, 0, 0, 4)),
        "1:0:0:2::4"
    );
    // a run at the end leaves a trailing marker
    assert_eq!(
        ip_string(&IpAddress::V6(1, 2, 3, 4, 0, 0, 0, 0)),
        "1:2:3:4::"
    );
    // the v4-mapped form renders its tail in dotted decimal
    assert_eq!(
        ip_string(&IpAddress::V6(0, 0, 0, 0, 0, 0xffff, 0xc0a8, 0x0105)),
        "::ffff:192.168.1.5"
    );
}

#[test]
fn test_setting() {
    let mut mgr = MapNMManger::new(vec![("eth0".to_string(), "enp1s0".to_string())]);
    let mut store = ConnectionStore::new();
    let example = NetworkConfig {
        name: "eth0".to_string(),
        ipv4cfg: Some(IPConfig {
            address: IpAddress::V4(192, 168, 233, 233),
            gateway: Some(IpAddress::V4(192, 168, 233, 1)),
            dns: Some(IpAddress::V4(8, 8, 8, 8)),
            prefix: 32,
        }),
        ipv6cfg: None,
    };
    example.save(&mut mgr, &mut store).unwrap();
    let loaded = NetworkConfig::load(&mut mgr, &mut store, "eth0").unwrap();
    println!("{}", loaded.to_text());
    assert_eq!(loaded.name, "eth0");
    assert_eq!(loaded.ipv4cfg, example.ipv4cfg);
    assert_eq!(loaded.ipv6cfg, None);
    assert_eq!(
        loaded.to_text(),
        "\nname: eth0\n\n===== ipv4 ===== \naddress: 192.168.233.233/32\ngateway: 192.168.233.1\ndns: 8.8.8.8\n===== ipv4 =====\n\n===== ipv6 =====\n\n===== ipv6 ====="
    );
}
