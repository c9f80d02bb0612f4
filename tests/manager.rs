use dockless::manager::{ManagerError, SupervisorManager};

fn s(x: &str) -> String {
    x.to_string()
}

#[test]
fn register_start_stop() {
    let mut m: SupervisorManager<&str, u32> = SupervisorManager::new();
    assert_eq!(m.register_service(s("a"), "svc-a"), Ok(()));
    assert_eq!(m.register_service(s("a"), "again"), Err(ManagerError::AlreadyRegistered));
    assert_eq!(m.prepare_start(&s("a")), Ok(&"svc-a"));
    assert_eq!(m.start(&s("a"), 7), Ok(()));
    assert_eq!(m.start(&s("a"), 8), Err(ManagerError::AlreadyRunning));
    assert_eq!(m.prepare_start(&s("a")).err(), Some(ManagerError::AlreadyRunning));
    assert!(m.is_running(&s("a")));
    assert_eq!(m.running_count(), 1);
    assert_eq!(m.stop(&s("a")), Ok(7));
    assert_eq!(m.stop(&s("a")), Err(ManagerError::NotRunning));
    assert_eq!(m.running_count(), 0);
}

#[test]
fn start_unknown_is_not_found() {
    let mut m: SupervisorManager<&str, u32> = SupervisorManager::new();
    assert_eq!(m.start(&s("x"), 1), Err(ManagerError::NotFound));
    assert_eq!(m.prepare_start(&s("x")).err(), Some(ManagerError::NotFound));
}

#[test]
fn update_and_unregister() {
    let mut m: SupervisorManager<&str, u32> = SupervisorManager::new();
    assert_eq!(m.update_service(s("a"), "x"), Err(ManagerError::NotRegistered));
    m.register_service(s("a"), "one").unwrap();
    m.register_service(s("b"), "two").unwrap();
    assert_eq!(m.update_service(s("a"), "uno"), Ok(()));
    assert_eq!(m.get_service(&s("a")), Some(&"uno"));
    assert_eq!(m.list_ids(), vec![s("a"), s("b")]);
    assert_eq!(m.list(), vec![&"uno", &"two"]);
    assert_eq!(m.unregister_service(&s("a")), Ok("uno"));
    assert_eq!(m.unregister_service(&s("a")), Err(ManagerError::NotRegistered));
    assert_eq!(m.service_count(), 1);
    assert!(!m.is_registered(&s("a")));
}

#[test]
fn shutdown_all_drains_handles() {
    let mut m: SupervisorManager<&str, u32> = SupervisorManager::new();
    m.register_service(s("a"), "a").unwrap();
    m.register_service(s("b"), "b").unwrap();
    m.start(&s("b"), 2).unwrap();
    m.start(&s("a"), 1).unwrap();
    let drained = m.shutdown_all();
    assert_eq!(drained, vec![(s("b"), 2), (s("a"), 1)]);
    assert_eq!(m.running_count(), 0);
    assert_eq!(m.service_count(), 2);
}

#[test]
fn running_ids_stay_registered() {
    let mut m: SupervisorManager<&str, u32> = SupervisorManager::new();
    m.register_service(s("a"), "a").unwrap();
    m.start(&s("a"), 1).unwrap();
    m.update_service(s("a"), "a2").unwrap();
    for id in ["a", "b"] {
        if m.is_running(&s(id)) {
            assert!(m.is_registered(&s(id)));
        }
    }
}

#[test]
fn begin_restart_detaches_running_handle() {
    let mut m: SupervisorManager<&str, u32> = SupervisorManager::new();
    assert_eq!(m.begin_restart(&s("a")), Err(ManagerError::NotFound));
    m.register_service(s("a"), "a").unwrap();
    assert_eq!(m.begin_restart(&s("a")), Ok(None));
    m.start(&s("a"), 5).unwrap();
    assert_eq!(m.begin_restart(&s("a")), Ok(Some(5)));
    assert!(!m.is_running(&s("a")));
    assert_eq!(m.start(&s("a"), 6), Ok(()));
}
