use dockless::lifecycle::{
    bootstrap_services, check_controllable, created_restart_limit, delete_service, init_service,
    plan_binary_name, release_url, resolve_service_id, select_asset, service_root, validate_definition,
    version_dir, version_link_target, AssetError, ControlError, CreateError, InitError,
};
use dockless::manager::SupervisorManager;
use dockless::ports::{PortManager, PortsFile};
use dockless::registry::{RegistryFile, RegistryManager, ServiceDefinition};
use dockless::state::ServiceState;
use dockless::supervisor::{Supervisor, SupervisorAction, SupervisorEvent};

fn ports(allocs: Vec<(&str, u16)>) -> PortManager {
    let file = PortsFile {
        version: 1,
        port_range_start: 8100,
        port_range_end: 8999,
        allocations: allocs.into_iter().map(|(k, v)| (k.to_string(), v)).collect(),
    };
    PortManager::from_file("data/ports.json".to_string(), file).unwrap()
}

fn ready_def(id: &str) -> ServiceDefinition {
    let mut d = ServiceDefinition::fresh(id.to_string(), id.to_string());
    d.ready = true;
    d.binary_path = format!("bin/current/{}", id);
    d
}

#[test]
fn cold_start_with_ready_service() {
    let file = RegistryFile { version: 1, services: vec![ready_def("foxd"), ServiceDefinition::fresh("idle".to_string(), "idle".to_string())] };
    let reg = RegistryManager::from_file("data/projects.json".to_string(), file).unwrap();
    let mut pm = ports(vec![("foxd", 8100)]);
    let services = bootstrap_services(&reg, &mut pm, &"data".to_string()).unwrap();
    assert_eq!(services.len(), 1);
    let svc = &services[0];
    assert_eq!(svc.id, "foxd");
    assert_eq!(svc.working_dir, "data/services/foxd");
    assert_eq!(svc.binary_path, "bin/current/foxd");
    assert!(svc.env.contains(&("PORT".to_string(), "8100".to_string())));
    assert_eq!(svc.log_buffer.log_file_path(), "data/services/foxd/logs/service.log");
    assert_eq!(svc.state, ServiceState::Stopped);

    let mut mgr: SupervisorManager<String, u32> = SupervisorManager::new();
    mgr.register_service(svc.id.clone(), svc.id.clone()).unwrap();
    for id in mgr.list_ids() {
        assert!(mgr.prepare_start(&id).is_ok());
        mgr.start(&id, 1).unwrap();
    }
    assert_eq!(mgr.running_count(), 1);
    assert_eq!(pm.all_allocations(), &[("foxd".to_string(), 8100)][..]);
    let mut m = Supervisor::new(svc.state, svc.auto_restart, svc.restart_limit);
    m.begin();
    let s = m.handle(SupervisorEvent::Spawned);
    assert_eq!(s.states, vec![ServiceState::Running]);
    assert_eq!(s.action, SupervisorAction::AwaitChild);
}

#[test]
fn bootstrap_allocates_missing_port() {
    let file = RegistryFile { version: 1, services: vec![ready_def("a"), ready_def("b")] };
    let reg = RegistryManager::from_file("p".to_string(), file).unwrap();
    let mut pm = ports(vec![("b", 8100)]);
    let services = bootstrap_services(&reg, &mut pm, &"/srv".to_string()).unwrap();
    assert_eq!(services.len(), 2);
    assert!(services[0].env.contains(&("PORT".to_string(), "8101".to_string())));
    assert!(services[1].env.contains(&("PORT".to_string(), "8100".to_string())));
    assert_eq!(pm.get_port(&"a".to_string()), Some(8101));
}

#[test]
fn bootstrap_replaces_existing_port_variable() {
    let mut d = ready_def("a");
    d.env = vec![("PORT".to_string(), "1".to_string()), ("MODE".to_string(), "x".to_string())];
    let reg = RegistryManager::from_file("p".to_string(), RegistryFile { version: 1, services: vec![d] }).unwrap();
    let mut pm = ports(vec![("a", 8123)]);
    let services = bootstrap_services(&reg, &mut pm, &"/srv".to_string()).unwrap();
    assert_eq!(
        services[0].env,
        vec![("MODE".to_string(), "x".to_string()), ("PORT".to_string(), "8123".to_string())]
    );
}

#[test]
fn init_then_delete_leaves_nothing() {
    let mut reg = RegistryManager::new("p".to_string());
    let mut pm = ports(vec![]);
    let mut mgr: SupervisorManager<String, u32> = SupervisorManager::new();
    let id = resolve_service_id(&"My Service".to_string(), None).unwrap();
    assert_eq!(id, "my-service");
    let port = init_service(&mut reg, &mut pm, id.clone(), "My Service".to_string()).unwrap();
    assert_eq!(port, 8100);
    assert!(reg.get(&id).is_some());
    assert_eq!(delete_service(&mut reg, &mut pm, &mut mgr, &id), Ok(None));
    assert!(reg.get(&id).is_none());
    assert_eq!(pm.get_port(&id), None);
    assert!(pm.all_allocations().is_empty());
    assert_eq!(reg.list_definitions().len(), 0);
}

#[test]
fn delete_stops_and_unregisters() {
    let mut reg = RegistryManager::new("p".to_string());
    let mut pm = ports(vec![]);
    let mut mgr: SupervisorManager<String, u32> = SupervisorManager::new();
    init_service(&mut reg, &mut pm, "a".to_string(), "A".to_string()).unwrap();
    mgr.register_service("a".to_string(), "A".to_string()).unwrap();
    mgr.start(&"a".to_string(), 9).unwrap();
    assert_eq!(delete_service(&mut reg, &mut pm, &mut mgr, &"a".to_string()), Ok(Some(9)));
    assert_eq!(mgr.service_count(), 0);
    assert_eq!(mgr.running_count(), 0);
}

#[test]
fn delete_unknown_is_not_found() {
    let mut reg = RegistryManager::new("p".to_string());
    let mut pm = ports(vec![("x", 8100)]);
    let mut mgr: SupervisorManager<String, u32> = SupervisorManager::new();
    assert_eq!(delete_service(&mut reg, &mut pm, &mut mgr, &"x".to_string()), Err(ControlError::NotFound));
    assert_eq!(pm.get_port(&"x".to_string()), Some(8100));
}

#[test]
fn init_duplicate_fails() {
    let mut reg = RegistryManager::new("p".to_string());
    let mut pm = ports(vec![]);
    init_service(&mut reg, &mut pm, "a".to_string(), "A".to_string()).unwrap();
    assert_eq!(init_service(&mut reg, &mut pm, "a".to_string(), "A".to_string()), Err(InitError::AlreadyExists));
    assert_eq!(pm.all_allocations().len(), 1);
}

#[test]
fn init_requires_name_and_id() {
    assert_eq!(resolve_service_id(&"  ".to_string(), None), Err(InitError::NameRequired));
    assert_eq!(resolve_service_id(&"".to_string(), Some("x".to_string())), Err(InitError::NameRequired));
    assert_eq!(resolve_service_id(&"!!!".to_string(), None), Err(InitError::IdRequired));
    assert_eq!(resolve_service_id(&"Web".to_string(), Some("custom".to_string())), Ok("custom".to_string()));
    assert_eq!(resolve_service_id(&"Foo Bar_Baz".to_string(), None), Ok("foo-barbaz".to_string()));
}

#[test]
fn artifact_swap_keeps_established_name() {
    let mut reg = RegistryManager::new("p".to_string());
    reg.add(ready_def("foxd")).unwrap();
    let plan = plan_binary_name(reg.get(&"foxd".to_string()), &"foxd-v2".to_string());
    assert_eq!(plan.name, "foxd");
    assert!(plan.copy_needed);
    assert_eq!(version_link_target(&"v2".to_string()), "../versions/v2");
    let root = service_root(&"data".to_string(), &"foxd".to_string());
    assert_eq!(version_dir(&root, &"v2".to_string()), "data/services/foxd/versions/v2");
    assert!(reg.record_install(&"foxd".to_string(), "v2".to_string(), &plan.name));
    let d = reg.get(&"foxd".to_string()).unwrap();
    assert_eq!(d.current_version.as_deref(), Some("v2"));
    assert_eq!(d.binary_path, "bin/current/foxd");
}

#[test]
fn first_artifact_uses_uploaded_name() {
    let d = ServiceDefinition::fresh("n".to_string(), "n".to_string());
    let plan = plan_binary_name(Some(&d), &"server".to_string());
    assert_eq!(plan.name, "server");
    assert!(!plan.copy_needed);
    let same = plan_binary_name(Some(&ready_def("server")), &"server".to_string());
    assert_eq!(same.name, "server");
    assert!(!same.copy_needed);
    let none = plan_binary_name(None, &"x".to_string());
    assert_eq!(none.name, "x");
}

#[test]
fn control_requires_ready_registered_service() {
    let mut reg = RegistryManager::new("p".to_string());
    reg.add(ServiceDefinition::fresh("n".to_string(), "n".to_string())).unwrap();
    reg.add(ready_def("r")).unwrap();
    let mut mgr: SupervisorManager<u8, u8> = SupervisorManager::new();
    assert_eq!(check_controllable(&reg, &mgr, &"zz".to_string()), Err(ControlError::NotFound));
    assert_eq!(check_controllable(&reg, &mgr, &"n".to_string()), Err(ControlError::NotReady));
    assert_eq!(check_controllable(&reg, &mgr, &"r".to_string()), Err(ControlError::NotRegistered));
    mgr.register_service("r".to_string(), 0).unwrap();
    assert_eq!(check_controllable(&reg, &mgr, &"r".to_string()), Ok(()));
}

#[test]
fn select_asset_first_match() {
    let assets = vec![
        ("a.tar".to_string(), "http://x/a".to_string()),
        ("bin".to_string(), "".to_string()),
        ("tool".to_string(), "http://x/tool".to_string()),
        ("tool".to_string(), "http://x/tool2".to_string()),
    ];
    assert_eq!(select_asset(&assets, &"tool".to_string()), Ok("http://x/tool".to_string()));
    assert_eq!(select_asset(&assets, &"bin".to_string()), Err(AssetError::EmptyUrl));
    assert_eq!(select_asset(&assets, &"none".to_string()), Err(AssetError::NotListed));
}

#[test]
fn release_url_shape() {
    assert_eq!(
        release_url(&"owner/repo".to_string(), &"v1.2".to_string()),
        "https://api.github.com/repos/owner/repo/releases/tags/v1.2"
    );
}

#[test]
fn validate_whole_definition() {
    let mut d = ServiceDefinition::fresh("a".to_string(), "a".to_string());
    assert_eq!(validate_definition(&d), Err(CreateError::MissingFields));
    d.binary_path = "relative/bin".to_string();
    assert_eq!(validate_definition(&d), Err(CreateError::NotAbsolute));
    d.binary_path = "/usr/bin/true".to_string();
    assert_eq!(validate_definition(&d), Ok(()));
    d.id = " ".to_string();
    assert_eq!(validate_definition(&d), Err(CreateError::MissingFields));
    assert_eq!(created_restart_limit(None), Some(3));
    assert_eq!(created_restart_limit(Some(0)), Some(0));
}

#[test]
fn bootstrap_fails_when_no_port_is_free() {
    let file = RegistryFile { version: 1, services: vec![ready_def("a"), ready_def("b")] };
    let reg = RegistryManager::from_file("p".to_string(), file).unwrap();
    let pf = PortsFile {
        version: 1,
        port_range_start: 8100,
        port_range_end: 8100,
        allocations: vec![("a".to_string(), 8100)],
    };
    let mut pm = PortManager::from_file("q".to_string(), pf).unwrap();
    assert!(bootstrap_services(&reg, &mut pm, &"/srv".to_string()).is_err());
    assert_eq!(pm.all_allocations().len(), 1);
}
