use akari_server::api::{Command, Error, Operation, Request, Response, VmStatus};
use akari_server::registry::{ContainerState, Registry, DEFAULT_MIN_PORT};

fn id(name: &str) -> String {
    name.to_string()
}

/// Registers a container and has the guest acknowledge it on its port.
fn created(registry: &mut Registry, name: &str, bundle: &str) -> u32 {
    let commands = registry
        .create(id(name), bundle.to_string(), Vec::new())
        .unwrap();
    let port = match commands[0] {
        Command::Connect(port) => port,
        _ => panic!("a create opens the guest channel first"),
    };
    assert_eq!(registry.finish_create(&id(name), Some(port)), Ok(()));
    port
}

fn status(registry: &Registry, name: &str) -> Option<VmStatus> {
    registry.get(&id(name)).map(|state| state.status)
}

fn port(registry: &Registry, name: &str) -> Option<u32> {
    registry.get(&id(name)).map(|state| state.vsock_port)
}

#[test]
fn lifecycle_of_two_containers() {
    let mut registry = Registry::new();

    let payload = b"{\"bundle\":\"/tmp/b1\"}".to_vec();
    let commands = registry
        .create(id("c1"), "/tmp/b1".to_string(), payload.clone())
        .unwrap();
    assert_eq!(
        commands,
        vec![Command::Connect(1234), Command::VsockSend(1234, payload)]
    );
    assert_eq!(status(&registry, "c1"), Some(VmStatus::Creating));
    assert_eq!(registry.finish_create(&id("c1"), Some(1234)), Ok(()));
    assert_eq!(status(&registry, "c1"), Some(VmStatus::Created));
    assert_eq!(port(&registry, "c1"), Some(1234));

    assert_eq!(created(&mut registry, "c2", "/tmp/b2"), 1235);
    assert_eq!(port(&registry, "c2"), Some(1235));

    assert_eq!(
        registry.start(&id("c1")),
        Ok(vec![Command::VsockSend(1234, b"start".to_vec())])
    );
    assert_eq!(registry.finish_start(&id("c1"), true), Ok(()));
    assert_eq!(status(&registry, "c1"), Some(VmStatus::Running));

    assert_eq!(
        registry.kill(&id("c1")),
        Ok(vec![Command::VsockSend(1234, b"kill".to_vec())])
    );
    assert_eq!(registry.finish_kill(&id("c1"), true), Ok(()));
    assert_eq!(status(&registry, "c1"), Some(VmStatus::Stopped));

    assert_eq!(
        registry.delete(&id("c1")),
        Ok(vec![
            Command::VsockSend(1234, b"delete".to_vec()),
            Command::Disconnect(1234),
        ])
    );
    assert_eq!(registry.finish_delete(&id("c1"), true), Ok(()));
    assert_eq!(registry.get(&id("c1")), None);

    assert_eq!(registry.state(&id("c1")), Err(Error::ContainerNotFound));
    assert_eq!(
        registry.finish_state(&id("c1"), true),
        Err(Error::ContainerNotFound)
    );
    assert_eq!(status(&registry, "c2"), Some(VmStatus::Created));
    assert_eq!(port(&registry, "c2"), Some(1235));
}

#[test]
fn new_registry_is_empty() {
    let registry = Registry::new();
    assert!(!registry.contains(&id("c1")));
    assert_eq!(registry.get(&id("c1")), None);
    assert_eq!(registry.next_port(), Some(1234));
    assert_eq!(DEFAULT_MIN_PORT, 1234);
}

#[test]
fn creates_get_rising_distinct_ports() {
    let mut registry = Registry::new();
    let mut ports = Vec::new();
    for i in 0..20 {
        ports.push(created(&mut registry, &format!("c{}", i), "/b"));
    }
    for i in 0..20 {
        assert_eq!(ports[i], 1234 + i as u32);
        assert_eq!(port(&registry, &format!("c{}", i)), Some(1234 + i as u32));
        for j in 0..i {
            assert_ne!(ports[i], ports[j]);
            assert!(ports[j] < ports[i]);
        }
    }
}

#[test]
fn create_without_acknowledgement_still_takes_the_port() {
    let mut registry = Registry::new();
    registry.create(id("a"), "/a".to_string(), Vec::new()).unwrap();
    let commands = registry.create(id("b"), "/b".to_string(), vec![1, 2, 3]).unwrap();
    assert_eq!(
        commands,
        vec![Command::Connect(1235), Command::VsockSend(1235, vec![1, 2, 3])]
    );
    assert_eq!(
        registry.get(&id("b")),
        Some(ContainerState {
            bundle: "/b".to_string(),
            status: VmStatus::Creating,
            vsock_port: 1235,
        })
    );
}

#[test]
fn create_of_registered_container_is_refused() {
    let mut registry = Registry::new();
    created(&mut registry, "c1", "/tmp/b1");
    assert_eq!(registry.finish_start(&id("c1"), true), Ok(()));
    let before = registry.get(&id("c1"));

    assert_eq!(
        registry.create(id("c1"), "/other".to_string(), vec![9]),
        Err(Error::ContainerAlreadyExists)
    );
    assert_eq!(registry.get(&id("c1")), before);
    assert_eq!(
        before,
        Some(ContainerState {
            bundle: "/tmp/b1".to_string(),
            status: VmStatus::Running,
            vsock_port: 1234,
        })
    );
    assert_eq!(registry.next_port(), Some(1235));
}

#[test]
fn create_of_creating_container_is_refused() {
    let mut registry = Registry::new();
    registry.create(id("c1"), "/b".to_string(), Vec::new()).unwrap();
    assert_eq!(
        registry.create(id("c1"), "/b".to_string(), Vec::new()),
        Err(Error::ContainerAlreadyExists)
    );
    assert_eq!(status(&registry, "c1"), Some(VmStatus::Creating));
}

#[test]
fn unknown_container_is_not_found() {
    let mut registry = Registry::new();
    created(&mut registry, "known", "/b");
    let unknown = id("unknown");

    assert_eq!(registry.start(&unknown), Err(Error::ContainerNotFound));
    assert_eq!(registry.kill(&unknown), Err(Error::ContainerNotFound));
    assert_eq!(registry.delete(&unknown), Err(Error::ContainerNotFound));
    assert_eq!(registry.state(&unknown), Err(Error::ContainerNotFound));
    assert_eq!(registry.connect(&unknown, 7), Err(Error::ContainerNotFound));
    for delivered in [true, false] {
        assert_eq!(
            registry.finish_start(&unknown, delivered),
            Err(Error::ContainerNotFound)
        );
        assert_eq!(
            registry.finish_kill(&unknown, delivered),
            Err(Error::ContainerNotFound)
        );
        assert_eq!(
            registry.finish_delete(&unknown, delivered),
            Err(Error::ContainerNotFound)
        );
        assert_eq!(
            registry.finish_state(&unknown, delivered),
            Err(Error::ContainerNotFound)
        );
    }
    assert_eq!(
        registry.finish_create(&unknown, Some(1234)),
        Err(Error::ContainerNotFound)
    );
    assert_eq!(status(&registry, "known"), Some(VmStatus::Created));
    assert!(!registry.contains(&unknown));
}

#[test]
fn identifiers_are_compared_whole() {
    let mut registry = Registry::new();
    created(&mut registry, "c1", "/b");
    assert_eq!(registry.start(&id("c")), Err(Error::ContainerNotFound));
    assert_eq!(registry.start(&id("c11")), Err(Error::ContainerNotFound));
    assert_eq!(registry.start(&id("")), Err(Error::ContainerNotFound));
    assert_eq!(registry.start(&id("C1")), Err(Error::ContainerNotFound));
    assert_eq!(created(&mut registry, "", "/empty"), 1235);
    assert_eq!(status(&registry, ""), Some(VmStatus::Created));
}

#[test]
fn start_twice_fails_the_second_time() {
    let mut registry = Registry::new();
    created(&mut registry, "c1", "/b");
    assert!(registry.start(&id("c1")).is_ok());
    assert_eq!(registry.finish_start(&id("c1"), true), Ok(()));
    assert_eq!(
        registry.start(&id("c1")),
        Err(Error::UnexpectedContainerStatus(VmStatus::Running))
    );
    assert_eq!(
        registry.finish_start(&id("c1"), true),
        Err(Error::UnexpectedContainerStatus(VmStatus::Running))
    );
    assert_eq!(status(&registry, "c1"), Some(VmStatus::Running));
}

#[test]
fn start_needs_a_created_container() {
    let mut registry = Registry::new();
    registry.create(id("c1"), "/b".to_string(), Vec::new()).unwrap();
    assert_eq!(
        registry.start(&id("c1")),
        Err(Error::UnexpectedContainerStatus(VmStatus::Creating))
    );
    assert_eq!(
        registry.finish_start(&id("c1"), true),
        Err(Error::UnexpectedContainerStatus(VmStatus::Creating))
    );
    assert_eq!(status(&registry, "c1"), Some(VmStatus::Creating));

    assert_eq!(registry.finish_create(&id("c1"), Some(1234)), Ok(()));
    assert_eq!(registry.finish_kill(&id("c1"), true), Ok(()));
    assert_eq!(
        registry.start(&id("c1")),
        Err(Error::UnexpectedContainerStatus(VmStatus::Stopped))
    );
    assert_eq!(status(&registry, "c1"), Some(VmStatus::Stopped));
}

#[test]
fn kill_stops_created_and_running_containers() {
    let mut registry = Registry::new();
    created(&mut registry, "fresh", "/a");
    created(&mut registry, "busy", "/b");
    assert_eq!(registry.finish_start(&id("busy"), true), Ok(()));

    assert_eq!(
        registry.kill(&id("fresh")),
        Ok(vec![Command::VsockSend(1234, b"kill".to_vec())])
    );
    assert_eq!(registry.finish_kill(&id("fresh"), true), Ok(()));
    assert_eq!(status(&registry, "fresh"), Some(VmStatus::Stopped));

    assert_eq!(
        registry.kill(&id("busy")),
        Ok(vec![Command::VsockSend(1235, b"kill".to_vec())])
    );
    assert_eq!(registry.finish_kill(&id("busy"), true), Ok(()));
    assert_eq!(status(&registry, "busy"), Some(VmStatus::Stopped));

    assert_eq!(
        registry.kill(&id("busy")),
        Err(Error::UnexpectedContainerStatus(VmStatus::Stopped))
    );
    assert_eq!(
        registry.finish_kill(&id("busy"), true),
        Err(Error::UnexpectedContainerStatus(VmStatus::Stopped))
    );
}

#[test]
fn kill_of_creating_container_is_refused() {
    let mut registry = Registry::new();
    registry.create(id("c1"), "/b".to_string(), Vec::new()).unwrap();
    assert_eq!(
        registry.kill(&id("c1")),
        Err(Error::UnexpectedContainerStatus(VmStatus::Creating))
    );
}

#[test]
fn delete_removes_created_and_stopped_containers() {
    let mut registry = Registry::new();
    created(&mut registry, "fresh", "/a");
    created(&mut registry, "done", "/b");
    created(&mut registry, "busy", "/c");
    assert_eq!(registry.finish_kill(&id("done"), true), Ok(()));
    assert_eq!(registry.finish_start(&id("busy"), true), Ok(()));

    assert_eq!(registry.finish_delete(&id("fresh"), true), Ok(()));
    assert!(!registry.contains(&id("fresh")));
    assert_eq!(
        registry.delete(&id("done")),
        Ok(vec![
            Command::VsockSend(1235, b"delete".to_vec()),
            Command::Disconnect(1235),
        ])
    );
    assert_eq!(registry.finish_delete(&id("done"), true), Ok(()));
    assert!(!registry.contains(&id("done")));

    assert_eq!(
        registry.delete(&id("busy")),
        Err(Error::UnexpectedContainerStatus(VmStatus::Running))
    );
    assert_eq!(
        registry.finish_delete(&id("busy"), true),
        Err(Error::UnexpectedContainerStatus(VmStatus::Running))
    );
    assert_eq!(status(&registry, "busy"), Some(VmStatus::Running));
    assert_eq!(port(&registry, "busy"), Some(1236));

    assert_eq!(registry.state(&id("done")), Err(Error::ContainerNotFound));
    assert_eq!(registry.finish_delete(&id("done"), true), Err(Error::ContainerNotFound));
}

#[test]
fn delete_of_creating_container_is_refused() {
    let mut registry = Registry::new();
    registry.create(id("c1"), "/b".to_string(), Vec::new()).unwrap();
    assert_eq!(
        registry.delete(&id("c1")),
        Err(Error::UnexpectedContainerStatus(VmStatus::Creating))
    );
    assert!(registry.contains(&id("c1")));
}

#[test]
fn undelivered_commands_change_nothing() {
    let mut registry = Registry::new();
    created(&mut registry, "c1", "/b");

    assert_eq!(registry.finish_start(&id("c1"), false), Err(Error::VmCommandFailed));
    assert_eq!(status(&registry, "c1"), Some(VmStatus::Created));
    assert_eq!(registry.finish_kill(&id("c1"), false), Err(Error::VmCommandFailed));
    assert_eq!(status(&registry, "c1"), Some(VmStatus::Created));
    assert_eq!(registry.finish_delete(&id("c1"), false), Err(Error::VmCommandFailed));
    assert_eq!(status(&registry, "c1"), Some(VmStatus::Created));
    assert_eq!(registry.finish_state(&id("c1"), false), Err(Error::VmCommandFailed));

    assert_eq!(registry.finish_start(&id("c1"), true), Ok(()));
    assert_eq!(
        registry.finish_delete(&id("c1"), false),
        Err(Error::UnexpectedContainerStatus(VmStatus::Running))
    );
}

#[test]
fn failed_create_leaves_no_container() {
    let mut registry = Registry::new();
    created(&mut registry, "c1", "/b1");

    registry.create(id("c2"), "/b2".to_string(), Vec::new()).unwrap();
    assert_eq!(registry.finish_create(&id("c2"), None), Err(Error::VmCommandFailed));
    assert!(!registry.contains(&id("c2")));
    assert_eq!(port(&registry, "c1"), Some(1234));

    registry.create(id("c2"), "/b2".to_string(), Vec::new()).unwrap();
    assert_eq!(port(&registry, "c2"), Some(1235));
    assert_eq!(
        registry.finish_create(&id("c2"), Some(1234)),
        Err(Error::VmCommandFailed)
    );
    assert!(!registry.contains(&id("c2")));
    assert_eq!(status(&registry, "c1"), Some(VmStatus::Created));

    assert_eq!(created(&mut registry, "c2", "/b2"), 1235);
}

#[test]
fn container_is_recorded_on_the_port_of_the_reply() {
    let mut registry = Registry::new();
    registry
        .create(id("c1"), "/tmp/b1".to_string(), Vec::new())
        .unwrap();
    assert_eq!(port(&registry, "c1"), Some(1234));

    assert_eq!(registry.finish_create(&id("c1"), Some(2000)), Ok(()));
    assert_eq!(
        registry.get(&id("c1")),
        Some(ContainerState {
            bundle: "/tmp/b1".to_string(),
            status: VmStatus::Created,
            vsock_port: 2000,
        })
    );
    assert!(registry.holds_port(2000));
    assert!(!registry.holds_port(1234));

    // The next port follows the highest in use.
    assert_eq!(registry.next_port(), Some(2001));
    assert_eq!(
        registry.start(&id("c1")),
        Ok(vec![Command::VsockSend(2000, b"start".to_vec())])
    );

    // A reply may name a port below the one that was given.
    registry
        .create(id("c2"), "/tmp/b2".to_string(), Vec::new())
        .unwrap();
    assert_eq!(port(&registry, "c2"), Some(2001));
    assert_eq!(registry.finish_create(&id("c2"), Some(7)), Ok(()));
    assert_eq!(port(&registry, "c2"), Some(7));
    assert_eq!(port(&registry, "c1"), Some(2000));
    assert_eq!(registry.next_port(), Some(2001));
}

#[test]
fn reply_on_the_port_of_another_container_fails_the_create() {
    let mut registry = Registry::new();
    created(&mut registry, "c1", "/b1");
    created(&mut registry, "c2", "/b2");
    let before = (registry.get(&id("c1")), registry.get(&id("c2")));

    registry
        .create(id("c3"), "/b3".to_string(), Vec::new())
        .unwrap();
    assert_eq!(port(&registry, "c3"), Some(1236));
    assert_eq!(
        registry.finish_create(&id("c3"), Some(1235)),
        Err(Error::VmCommandFailed)
    );
    assert!(!registry.contains(&id("c3")));
    assert_eq!((registry.get(&id("c1")), registry.get(&id("c2"))), before);
    assert!(registry.holds_port(1234));
    assert!(registry.holds_port(1235));
    assert!(!registry.holds_port(1236));
}

#[test]
fn highest_port_leaves_no_next_port() {
    let mut registry = Registry::new();
    registry
        .create(id("last"), "/b".to_string(), Vec::new())
        .unwrap();
    assert_eq!(registry.finish_create(&id("last"), Some(u32::MAX)), Ok(()));
    assert_eq!(port(&registry, "last"), Some(u32::MAX));
    assert_eq!(registry.next_port(), None);
    assert_eq!(
        registry.create(id("last"), "/b".to_string(), Vec::new()),
        Err(Error::ContainerAlreadyExists)
    );

    assert_eq!(registry.finish_delete(&id("last"), true), Ok(()));
    assert_eq!(registry.next_port(), Some(1234));
}

#[test]
fn create_is_finished_once() {
    let mut registry = Registry::new();
    created(&mut registry, "c1", "/b");
    assert_eq!(
        registry.finish_create(&id("c1"), Some(1234)),
        Err(Error::UnexpectedContainerStatus(VmStatus::Created))
    );
    assert_eq!(
        registry.finish_create(&id("c1"), None),
        Err(Error::UnexpectedContainerStatus(VmStatus::Created))
    );
    assert_eq!(status(&registry, "c1"), Some(VmStatus::Created));
    assert_eq!(registry.finish_start(&id("c1"), true), Ok(()));
    assert_eq!(
        registry.finish_create(&id("c1"), Some(1234)),
        Err(Error::UnexpectedContainerStatus(VmStatus::Running))
    );
}

#[test]
fn port_follows_the_highest_in_use() {
    let mut registry = Registry::new();
    created(&mut registry, "a", "/a");
    created(&mut registry, "b", "/b");
    created(&mut registry, "c", "/c");

    // A freed port below the highest is not taken again.
    assert_eq!(registry.finish_delete(&id("a"), true), Ok(()));
    assert_eq!(registry.next_port(), Some(1237));
    assert_eq!(created(&mut registry, "d", "/d"), 1237);

    // The highest port, once freed, is the next one again.
    assert_eq!(registry.finish_delete(&id("d"), true), Ok(()));
    assert_eq!(registry.next_port(), Some(1237));
    assert_eq!(registry.finish_delete(&id("c"), true), Ok(()));
    assert_eq!(registry.next_port(), Some(1236));

    // An emptied registry starts at the floor.
    assert_eq!(registry.finish_delete(&id("b"), true), Ok(()));
    assert_eq!(registry.next_port(), Some(1234));
    assert_eq!(created(&mut registry, "e", "/e"), 1234);
}

#[test]
fn state_reports_what_is_recorded() {
    let mut registry = Registry::new();
    created(&mut registry, "c1", "/tmp/b1");
    created(&mut registry, "c2", "/tmp/b2");
    assert_eq!(registry.finish_start(&id("c2"), true), Ok(()));

    assert_eq!(
        registry.state(&id("c2")),
        Ok(vec![Command::VsockSend(1235, b"state".to_vec())])
    );
    assert_eq!(
        registry.finish_state(&id("c2"), true),
        Ok(Response {
            container_id: id("c2"),
            status: VmStatus::Running,
            pid: None,
            bundle: "/tmp/b2".to_string(),
        })
    );
    assert_eq!(
        registry.finish_state(&id("c1"), true),
        Ok(Response {
            container_id: id("c1"),
            status: VmStatus::Created,
            pid: None,
            bundle: "/tmp/b1".to_string(),
        })
    );
    assert_eq!(status(&registry, "c2"), Some(VmStatus::Running));
}

#[test]
fn state_is_answered_in_every_status() {
    let mut registry = Registry::new();
    registry.create(id("c1"), "/b".to_string(), Vec::new()).unwrap();
    assert_eq!(
        registry.finish_state(&id("c1"), true).map(|r| r.status),
        Ok(VmStatus::Creating)
    );
    assert_eq!(registry.finish_create(&id("c1"), Some(1234)), Ok(()));
    assert_eq!(
        registry.finish_state(&id("c1"), true).map(|r| r.status),
        Ok(VmStatus::Created)
    );
    assert_eq!(registry.finish_start(&id("c1"), true), Ok(()));
    assert_eq!(
        registry.finish_state(&id("c1"), true).map(|r| r.status),
        Ok(VmStatus::Running)
    );
    assert_eq!(registry.finish_kill(&id("c1"), true), Ok(()));
    assert_eq!(
        registry.finish_state(&id("c1"), true).map(|r| r.status),
        Ok(VmStatus::Stopped)
    );
    assert!(registry.state(&id("c1")).is_ok());
}

#[test]
fn connect_needs_a_running_container() {
    let mut registry = Registry::new();
    registry.create(id("c1"), "/b".to_string(), Vec::new()).unwrap();
    assert_eq!(
        registry.connect(&id("c1"), 1),
        Err(Error::UnexpectedContainerStatus(VmStatus::Creating))
    );
    assert_eq!(registry.finish_create(&id("c1"), Some(1234)), Ok(()));
    assert_eq!(
        registry.connect(&id("c1"), 1),
        Err(Error::UnexpectedContainerStatus(VmStatus::Created))
    );
    assert_eq!(registry.finish_start(&id("c1"), true), Ok(()));
    assert_eq!(registry.connect(&id("c1"), 1), Ok(()));
    assert_eq!(status(&registry, "c1"), Some(VmStatus::Running));
    assert_eq!(registry.finish_kill(&id("c1"), true), Ok(()));
    assert_eq!(
        registry.connect(&id("c1"), 1),
        Err(Error::UnexpectedContainerStatus(VmStatus::Stopped))
    );
}

#[test]
fn validate_gives_the_verdict_on_a_request() {
    let mut registry = Registry::new();
    created(&mut registry, "c1", "/b");
    let request = |name: &str, operation: Operation| Request {
        container_id: id(name),
        operation,
        bundle: None,
    };

    assert_eq!(
        registry.validate(&request("c1", Operation::Create)),
        Err(Error::ContainerAlreadyExists)
    );
    assert_eq!(registry.validate(&request("c2", Operation::Create)), Ok(()));
    assert_eq!(registry.validate(&request("c1", Operation::Start)), Ok(()));
    assert_eq!(registry.validate(&request("c1", Operation::Kill)), Ok(()));
    assert_eq!(registry.validate(&request("c1", Operation::State)), Ok(()));
    assert_eq!(registry.validate(&request("c1", Operation::Delete)), Ok(()));
    assert_eq!(
        registry.validate(&request("c1", Operation::Connect)),
        Err(Error::UnexpectedContainerStatus(VmStatus::Created))
    );
    for operation in [
        Operation::Start,
        Operation::Kill,
        Operation::State,
        Operation::Delete,
        Operation::Connect,
    ] {
        assert_eq!(
            registry.validate(&request("c2", operation)),
            Err(Error::ContainerNotFound)
        );
    }
}
