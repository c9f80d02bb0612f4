use dockless::lifecycle::{init_service, InitError};
use dockless::ports::{PortError, PortManager, PortsFile};
use dockless::registry::RegistryManager;

fn manager_with(start: u16, end: u16, allocations: Vec<(&str, u16)>) -> PortManager {
    let file = PortsFile {
        version: 1,
        port_range_start: start,
        port_range_end: end,
        allocations: allocations.into_iter().map(|(k, v)| (k.to_string(), v)).collect(),
    };
    PortManager::from_file("ports.json".to_string(), file).unwrap()
}

#[test]
fn allocate_picks_lowest_free_port() {
    let mut pm = manager_with(8100, 8999, vec![("a", 8100), ("b", 8102)]);
    assert_eq!(pm.allocate(&"c".to_string()), Ok(8101));
    assert_eq!(pm.allocate(&"d".to_string()), Ok(8103));
    assert_eq!(pm.get_port(&"c".to_string()), Some(8101));
}

#[test]
fn allocate_twice_returns_same_port() {
    let mut pm = manager_with(8100, 8999, vec![]);
    let id = "svc".to_string();
    let first = pm.allocate(&id).unwrap();
    let second = pm.allocate(&id).unwrap();
    assert_eq!(first, 8100);
    assert_eq!(first, second);
    assert_eq!(pm.all_allocations().len(), 1);
    assert_eq!(pm.allocate(&"other".to_string()), Ok(8101));
}

#[test]
fn deallocate_unknown_is_noop() {
    let mut pm = manager_with(8100, 8999, vec![("a", 8100)]);
    assert!(!pm.deallocate(&"nobody".to_string()));
    assert_eq!(pm.all_allocations().len(), 1);
    assert_eq!(pm.get_port(&"a".to_string()), Some(8100));
}

#[test]
fn deallocate_frees_port_for_reuse() {
    let mut pm = manager_with(8100, 8999, vec![("a", 8100), ("b", 8101)]);
    assert!(pm.deallocate(&"a".to_string()));
    assert_eq!(pm.get_port(&"a".to_string()), None);
    assert_eq!(pm.allocate(&"c".to_string()), Ok(8100));
}

#[test]
fn allocate_fails_when_range_exhausted() {
    let mut pm = manager_with(8100, 8101, vec![("a", 8100), ("b", 8101)]);
    assert_eq!(pm.allocate(&"c".to_string()), Err(PortError::RangeExhausted));
    assert_eq!(pm.all_allocations().len(), 2);
}

#[test]
fn allocate_at_top_of_port_space() {
    let mut pm = manager_with(65534, 65535, vec![("a", 65534)]);
    assert_eq!(pm.allocate(&"b".to_string()), Ok(65535));
    assert_eq!(pm.allocate(&"c".to_string()), Err(PortError::RangeExhausted));
}

#[test]
fn third_init_fails_when_two_ports_taken() {
    let mut pm = manager_with(8100, 8101, vec![("a", 8100), ("b", 8101)]);
    let mut reg = RegistryManager::new("projects.json".to_string());
    let r = init_service(&mut reg, &mut pm, "c".to_string(), "C".to_string());
    assert_eq!(r, Err(InitError::PortsExhausted));
    assert!(reg.get(&"c".to_string()).is_none());
    assert_eq!(reg.list_definitions().len(), 0);
    assert_eq!(pm.all_allocations().len(), 2);
}

#[test]
fn ports_file_version_must_be_one() {
    let file = PortsFile { version: 2, port_range_start: 8100, port_range_end: 8999, allocations: vec![] };
    assert_eq!(PortManager::from_file("p".to_string(), file).err(), Some(PortError::UnsupportedVersion(2)));
}

#[test]
fn ports_file_with_shared_port_is_corrupt() {
    let file = PortsFile {
        version: 1,
        port_range_start: 8100,
        port_range_end: 8999,
        allocations: vec![("a".to_string(), 8100), ("b".to_string(), 8100)],
    };
    assert_eq!(PortManager::from_file("p".to_string(), file).err(), Some(PortError::Corrupt));
}

#[test]
fn ports_file_with_port_outside_range_is_corrupt() {
    let file = PortsFile {
        version: 1,
        port_range_start: 8100,
        port_range_end: 8999,
        allocations: vec![("a".to_string(), 9000)],
    };
    assert_eq!(PortManager::from_file("p".to_string(), file).err(), Some(PortError::Corrupt));
}

#[test]
fn ports_round_trip_through_file_contents() {
    let mut pm = manager_with(8100, 8999, vec![]);
    pm.allocate(&"x".to_string()).unwrap();
    pm.allocate(&"y".to_string()).unwrap();
    let file = PortsFile {
        version: 1,
        port_range_start: pm.port_range_start(),
        port_range_end: pm.port_range_end(),
        allocations: pm.all_allocations().to_vec(),
    };
    let back = PortManager::from_file(pm.path().clone(), file).unwrap();
    assert_eq!(back.all_allocations(), pm.all_allocations());
    assert_eq!(back.port_range_start(), 8100);
    assert_eq!(back.port_range_end(), 8999);
}

#[test]
fn empty_ports_file_uses_default_range() {
    let f = PortManager::empty_file();
    assert_eq!(f.version, 1);
    assert_eq!(f.port_range_start, 8100);
    assert_eq!(f.port_range_end, 8999);
    assert!(f.allocations.is_empty());
}
