use netcfg::model::ConnectionStore;
use netcfg::names::{dec_string, eth_name_string, hex_string, str_eq, str_le};
use netcfg::nmmgr::MapNMManger;
use netcfg::ConfigError;

#[test]
fn default_mapping_is_deterministic() {
    let devices = vec!["enp3s0".to_string(), "enp1s0".to_string()];
    let m = MapNMManger::get_deafult_mapping(devices);
    assert_eq!(m.len(), 2);
    assert_eq!(m[0].0, "eth0");
    assert_eq!(m[0].1, "enp1s0");
    assert_eq!(m[1].0, "eth1");
    assert_eq!(m[1].1, "enp3s0");
}

#[test]
fn default_mapping_with_two_digit_indices() {
    let mut devices: Vec<String> = Vec::new();
    let mut i = 0u8;
    while i < 11 {
        let mut name = "dev".to_string();
        name.push((b'a' + i) as char);
        devices.push(name);
        i += 1;
    }
    let m = MapNMManger::get_deafult_mapping(devices);
    assert_eq!(m.len(), 11);
    assert_eq!(m[10].0, "eth10");
    assert_eq!(m[10].1, "devk");
}

#[test]
fn ether_devices_filters_and_sorts() {
    let interfaces = vec![
        ("wlan0".to_string(), false),
        ("enp3s0".to_string(), true),
        ("lo".to_string(), false),
        ("enp1s0".to_string(), true),
    ];
    let devices = MapNMManger::get_ether_devices(interfaces);
    assert_eq!(devices, vec!["enp1s0".to_string(), "enp3s0".to_string()]);
}

#[test]
fn resolve_creates_once() {
    let mut mgr = MapNMManger::new(vec![("eth0".to_string(), "enp1s0".to_string())]);
    let mut store = ConnectionStore::new();
    assert!(!mgr.is_created("eth0"));
    let first = mgr.connection_by_name(&mut store, "eth0").unwrap();
    assert_eq!(store.len(), 1);
    assert!(mgr.is_created("eth0"));
    let second = mgr.connection_by_name(&mut store, "eth0").unwrap();
    assert_eq!(store.len(), 1);
    assert_eq!(first, second);
    assert_eq!(store.get(first).id, store.get(second).id);
    let conn = store.get(first);
    assert_eq!(conn.id, "eth0");
    assert!(conn.wired);
    assert!(conn.autoconnect);
    assert_eq!(conn.interface_name.as_deref(), Some("enp1s0"));
}

#[test]
fn resolve_finds_existing_without_creating() {
    let mut mgr = MapNMManger::new(vec![("eth0".to_string(), "enp1s0".to_string())]);
    let mut store = ConnectionStore::new();
    store.add_connection(MapNMManger::create_connection("eth0", Some("enp1s0")));
    let i = mgr.connection_by_name(&mut store, "eth0").unwrap();
    assert_eq!(store.len(), 1);
    assert_eq!(i, 0);
    assert!(!mgr.is_created("eth0"));
}

#[test]
fn resolve_unmapped_fails_without_creating() {
    let mut mgr = MapNMManger::new(vec![("eth0".to_string(), "enp1s0".to_string())]);
    let mut store = ConnectionStore::new();
    let r = mgr.connection_by_name(&mut store, "eth9");
    assert_eq!(r, Err(ConfigError::UnmappedInterface));
    assert_eq!(store.len(), 0);
    assert!(!mgr.is_created("eth9"));
}

#[test]
fn get_connection_probe_changes_nothing() {
    let mgr = MapNMManger::new(vec![("eth0".to_string(), "enp1s0".to_string())]);
    mgr.get_connection("eth0");
    mgr.get_connection("eth9");
}

#[test]
fn test_map_networkcfg() {
    let mut mgr = MapNMManger::new(vec![("eth0".to_string(), "enp1s0".to_string())]);
    let mut store = ConnectionStore::new();
    let i = mgr.connection_by_name(&mut store, "eth0").unwrap();
    println!("{:?}", store.get(i));
    assert_eq!(store.get(i).id, "eth0");
}

#[test]
fn string_order_and_rendering() {
    assert!(str_le("enp1s0", "enp3s0"));
    assert!(!str_le("enp3s0", "enp1s0"));
    assert!(str_le("a", "ab"));
    assert!(str_le("same", "same"));
    assert!(str_eq("eth0", "eth0"));
    assert!(!str_eq("eth0", "eth1"));
    assert_eq!(dec_string(0), "0");
    assert_eq!(dec_string(10), "10");
    assert_eq!(dec_string(2049), "2049");
    assert_eq!(hex_string(0), "0");
    assert_eq!(hex_string(255), "ff");
    assert_eq!(hex_string(0x2001), "2001");
    assert_eq!(eth_name_string(0), "eth0");
    assert_eq!(eth_name_string(42), "eth42");
}
