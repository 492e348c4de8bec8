use iotedge::authorization::{Authorization, Pid, Policy};
use iotedge::rules::{Connection, Rule};
use iotedge::sidecar::{FirstExit, SidecarManager, SidecarShutdownHandle, SidecarShutdownHandleError};

#[test]
fn authorization_allows_everything() {
    let auth = Authorization::new((), Policy::Caller);
    assert!(auth.authorize(None, Pid::Absent));
    assert!(auth.authorize(Some("edgeHub".to_string()), Pid::Value(12)));
    let auth = Authorization::new(5u8, Policy::Module("edgeAgent"));
    assert!(auth.authorize(None, Pid::Any));
}

#[test]
fn sidecars_are_kept_in_order() {
    let mut manager = SidecarManager::new();
    manager.add_sidecar("first");
    manager.add_sidecar("second");
    assert_eq!(manager.into_sidecars(), vec!["first", "second"]);
}

#[test]
fn server_exit_shuts_down_every_sidecar() {
    let mut manager = SidecarManager::new();
    for name in ["a", "b", "c"] {
        manager.add_sidecar(name);
    }
    let plan = manager.shutdown_plan(FirstExit::Server);
    assert!(!plan.signal_broker);
    assert_eq!(plan.shut_down, vec![0, 1, 2]);
}

#[test]
fn sidecar_exit_signals_broker_and_shuts_down_the_others() {
    let mut manager = SidecarManager::new();
    for name in ["a", "b", "c"] {
        manager.add_sidecar(name);
    }
    let plan = manager.shutdown_plan(FirstExit::Sidecar(1));
    assert!(plan.signal_broker);
    assert_eq!(plan.shut_down, vec![0, 2]);
    let plan = manager.shutdown_plan(FirstExit::Sidecar(2));
    assert_eq!(plan.shut_down, vec![0, 1]);
}

#[test]
fn shutdown_handle_gives_back_its_future() {
    let handle = SidecarShutdownHandle::new(17u32);
    assert_eq!(handle.into_future(), 17);
    assert_eq!(SidecarShutdownHandleError.message(), "unable to obtain shutdown handler for sidecar");
}

#[test]
fn connection_ignores_rules() {
    let _connection = Connection::new(Vec::<Rule>::new());
}
