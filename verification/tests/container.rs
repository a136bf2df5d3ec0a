use testcontainers_rs::address::{HostAddress, IpAddress};
use testcontainers_rs::client::{Error, NetworkSettings, RemoveRequest, Request};
use testcontainers_rs::container::{Container, Lifecycle, Operation};
use testcontainers_rs::image::DockerImage;
use testcontainers_rs::ports::{PortBinding, RawPort};

fn text(value: &str) -> String {
    String::from(value)
}

fn container() -> Container {
    Container::new(text("4f2a"), DockerImage::new("nginx").with_tag("1.25"))
}

fn removal() -> Request {
    Request::Remove(RemoveRequest { id: text("4f2a"), force: true, volumes: true })
}

fn network() -> NetworkSettings {
    NetworkSettings {
        ip_address: Some(HostAddress::Parsed(IpAddress::V4([172, 17, 0, 2]))),
        ports: Some(vec![RawPort {
            key: text("80/tcp"),
            bindings: Some(vec![
                PortBinding {
                    host_ip: Some(HostAddress::Parsed(IpAddress::V4([0, 0, 0, 0]))),
                    host_port: Some(text("32768")),
                },
                PortBinding {
                    host_ip: Some(HostAddress::Parsed(IpAddress::V6([0; 8]))),
                    host_port: Some(text("32769")),
                },
            ]),
        }]),
    }
}

#[test]
fn new_container_is_created_and_not_started() {
    let container = container();
    assert_eq!(container.id(), "4f2a");
    assert_eq!(container.state(), Lifecycle::Created);
    assert_eq!(container.image().descriptor(), "nginx:1.25");
}

#[test]
fn start_and_stop_ask_the_backend() {
    let container = container();
    assert_eq!(container.start(), Ok(Request::Start { id: text("4f2a") }));
    assert_eq!(container.stop(), Ok(Request::Stop { id: text("4f2a") }));
    assert_eq!(container.inspect(), Ok(Request::Inspect { id: text("4f2a") }));
    assert_eq!(container.state(), Lifecycle::Created);
}

#[test]
fn state_follows_what_the_daemon_has_done() {
    let mut container = container();
    assert_eq!(container.completed::<String>(Operation::Start, Ok(())), Ok(()));
    assert_eq!(container.state(), Lifecycle::Started);
    assert_eq!(container.completed::<String>(Operation::Stop, Ok(())), Ok(()));
    assert_eq!(container.state(), Lifecycle::Stopped);
}

#[test]
fn refused_operation_changes_nothing_and_hands_the_error_on() {
    let mut container = container();
    assert_eq!(container.completed(Operation::Start, Err(text("conflict"))), Err(text("conflict")));
    assert_eq!(container.state(), Lifecycle::Created);
    assert_eq!(container.completed::<String>(Operation::Start, Ok(())), Ok(()));
    assert_eq!(container.completed(Operation::Stop, Err(404)), Err(404));
    assert_eq!(container.state(), Lifecycle::Started);
}

#[test]
fn scope_end_without_rm_removes_exactly_once() {
    let mut container = container();
    let mut removals = 0;
    if container.start().is_ok() {
        let _ = container.completed::<String>(Operation::Start, Ok(()));
    }
    if let Some(request) = container.release() {
        assert_eq!(request, removal());
        removals += 1;
    }
    if container.release().is_some() {
        removals += 1;
    }
    assert_eq!(removals, 1);
    assert_eq!(container.state(), Lifecycle::Removed);
}

#[test]
fn explicit_rm_leaves_nothing_to_the_cleanup() {
    let mut container = container();
    assert_eq!(container.rm(), Ok(removal()));
    assert_eq!(container.state(), Lifecycle::Removed);
    assert_eq!(container.release(), None);
}

#[test]
fn second_rm_fails() {
    let mut container = container();
    assert_eq!(container.rm(), Ok(removal()));
    assert_eq!(container.rm(), Err(Error::AlreadyRemoved));
    assert_eq!(container.release(), None);
}

#[test]
fn rm_after_release_fails() {
    let mut container = container();
    assert_eq!(container.release(), Some(removal()));
    assert_eq!(container.rm(), Err(Error::AlreadyRemoved));
}

#[test]
fn removed_container_refuses_every_operation_but_id() {
    let mut container = container();
    assert!(container.rm().is_ok());
    assert_eq!(container.id(), "4f2a");
    assert_eq!(container.start(), Err(Error::AlreadyRemoved));
    assert_eq!(container.stop(), Err(Error::AlreadyRemoved));
    assert_eq!(container.inspect(), Err(Error::AlreadyRemoved));
    assert_eq!(container.host(Some(network())), Err(Error::AlreadyRemoved));
    assert_eq!(container.mapped_port_ipv4(Some(network()), 80), Err(Error::AlreadyRemoved));
    assert_eq!(container.mapped_port_ipv6(Some(network()), 80), Err(Error::AlreadyRemoved));
}

#[test]
fn removed_is_terminal() {
    let mut container = container();
    assert!(container.rm().is_ok());
    assert_eq!(container.completed::<String>(Operation::Start, Ok(())), Ok(()));
    assert_eq!(container.state(), Lifecycle::Removed);
    assert_eq!(container.completed::<String>(Operation::Stop, Ok(())), Ok(()));
    assert_eq!(container.state(), Lifecycle::Removed);
}

#[test]
fn removal_may_come_from_every_state() {
    let mut created = container();
    assert_eq!(created.rm(), Ok(removal()));
    let mut started = container();
    let _ = started.completed::<String>(Operation::Start, Ok(()));
    assert_eq!(started.rm(), Ok(removal()));
    let mut stopped = container();
    let _ = stopped.completed::<String>(Operation::Stop, Ok(()));
    assert_eq!(stopped.release(), Some(removal()));
}

#[test]
fn host_is_read_from_the_network_settings() {
    let container = container();
    assert_eq!(container.host(Some(network())), Ok(IpAddress::V4([172, 17, 0, 2])));
    assert_eq!(container.host(None), Err(Error::MissingHost));
}

#[test]
fn mapped_ports_are_read_from_the_network_settings() {
    let container = container();
    assert_eq!(container.mapped_port_ipv4(Some(network()), 80), Ok(Some(32768)));
    assert_eq!(container.mapped_port_ipv6(Some(network()), 80), Ok(Some(32769)));
    assert_eq!(container.mapped_port_ipv4(Some(network()), 443), Ok(None));
    assert_eq!(container.mapped_port_ipv4(None, 80), Ok(None));
}

#[test]
fn mapped_port_fails_on_a_malformed_host_port() {
    let container = container();
    let mut network = network();
    network.ports = Some(vec![RawPort {
        key: text("80/tcp"),
        bindings: Some(vec![PortBinding { host_ip: None, host_port: Some(text("?")) }]),
    }]);
    assert_eq!(
        container.mapped_port_ipv4(Some(network), 80),
        Err(Error::UnparseablePort { port: text("?") })
    );
}
