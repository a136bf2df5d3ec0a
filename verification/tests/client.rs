use testcontainers_rs::address::{HostAddress, IpAddress};
use testcontainers_rs::client::{
    create_container, host, inspect, ports, rm, start, stderr_logs, stdout_logs, stop,
    CreateRequest, Error, LogsRequest, NetworkSettings, RemoveRequest, Request,
};
use testcontainers_rs::image::DockerImage;
use testcontainers_rs::ports::{PortBinding, Ports, RawPort};

fn text(value: &str) -> String {
    String::from(value)
}

#[test]
fn create_request_of_a_bare_descriptor_carries_the_reference() {
    let image = DockerImage::new("nginx").with_tag("1.25");
    assert_eq!(
        create_container(&image),
        CreateRequest {
            name: None,
            image: text("nginx:1.25"),
            cmd: vec![],
            entrypoint: vec![],
            exposed_ports: vec![],
            volumes: vec![],
            shm_size: None,
        }
    );
}

#[test]
fn create_request_carries_what_the_descriptor_says() {
    let mut image = DockerImage::new("postgres")
        .with_container_name("db")
        .with_mapped_port(5432, 5432)
        .with_mapped_port(8080, 80)
        .with_mapped_port(8081, 80)
        .with_mapped_port(1, 0)
        .with_mapped_port(2, 65535)
        .with_volume("/var/data", "/var/lib/postgresql/data")
        .with_volume("/etc/pg", "/etc/postgresql")
        .with_env_var("POSTGRES_PASSWORD", "secret")
        .with_shm_size(268_435_456);
    image.cmd = vec![text("postgres"), text("-c"), text("fsync=off")];
    image.entrypoint = vec![text("docker-entrypoint.sh")];
    assert_eq!(
        create_container(&image),
        CreateRequest {
            name: Some(text("db")),
            image: text("postgres:latest"),
            cmd: vec![text("postgres"), text("-c"), text("fsync=off")],
            entrypoint: vec![text("docker-entrypoint.sh")],
            exposed_ports: vec![
                text("5432/tcp"),
                text("80/tcp"),
                text("80/tcp"),
                text("0/tcp"),
                text("65535/tcp"),
            ],
            volumes: vec![
                text("/var/data:/var/lib/postgresql/data"),
                text("/etc/pg:/etc/postgresql"),
            ],
            shm_size: Some(268_435_456),
        }
    );
}

#[test]
fn exposed_key_resolves_to_its_port() {
    let image = DockerImage::new("nginx").with_mapped_port(8080, 80);
    let key = create_container(&image).exposed_ports[0].clone();
    let table = vec![RawPort {
        key,
        bindings: Some(vec![PortBinding {
            host_ip: Some(HostAddress::Parsed(IpAddress::V4([0, 0, 0, 0]))),
            host_port: Some(text("8080")),
        }]),
    }];
    assert_eq!(Ports::from(table).unwrap().mapped_port_ipv4(80), Some(8080));
}

#[test]
fn lifecycle_requests_name_the_container() {
    assert_eq!(start("abc"), Request::Start { id: text("abc") });
    assert_eq!(stop("abc"), Request::Stop { id: text("abc") });
    assert_eq!(inspect("abc"), Request::Inspect { id: text("abc") });
}

#[test]
fn removal_is_forced_and_takes_the_volumes() {
    assert_eq!(rm("abc"), RemoveRequest { id: text("abc"), force: true, volumes: true });
}

#[test]
fn stdout_logs_follow_standard_output_from_the_start() {
    assert_eq!(
        stdout_logs("abc"),
        LogsRequest { id: text("abc"), follow: true, stdout: true, stderr: false, tail: text("all") }
    );
}

#[test]
fn stderr_logs_follow_standard_error_from_the_start() {
    assert_eq!(
        stderr_logs("abc"),
        LogsRequest { id: text("abc"), follow: true, stdout: false, stderr: true, tail: text("all") }
    );
}

#[test]
fn host_is_the_reported_address() {
    let network = NetworkSettings {
        ip_address: Some(HostAddress::Parsed(IpAddress::V4([172, 17, 0, 2]))),
        ports: None,
    };
    assert_eq!(host(Some(network)), Ok(IpAddress::V4([172, 17, 0, 2])));
}

#[test]
fn host_is_missing_without_network_settings() {
    assert_eq!(host(None), Err(Error::MissingHost));
}

#[test]
fn host_is_missing_without_an_address() {
    let network = NetworkSettings { ip_address: None, ports: Some(vec![]) };
    assert_eq!(host(Some(network)), Err(Error::MissingHost));
}

#[test]
fn host_with_malformed_address_fails_with_the_address() {
    let network = NetworkSettings {
        ip_address: Some(HostAddress::Malformed(text("not-an-address"))),
        ports: None,
    };
    assert_eq!(host(Some(network)), Err(Error::ParseAddr { addr: text("not-an-address") }));
    let network =
        NetworkSettings { ip_address: Some(HostAddress::Malformed(text(""))), ports: None };
    assert_eq!(host(Some(network)), Err(Error::ParseAddr { addr: text("") }));
}

#[test]
fn ports_without_network_settings_are_empty() {
    assert_eq!(ports(None), Ok(Ports::default()));
    let network = NetworkSettings { ip_address: None, ports: None };
    assert_eq!(ports(Some(network)), Ok(Ports::default()));
}

#[test]
fn ports_are_resolved_from_the_port_table() {
    let network = NetworkSettings {
        ip_address: None,
        ports: Some(vec![RawPort {
            key: text("80/tcp"),
            bindings: Some(vec![PortBinding {
                host_ip: Some(HostAddress::Parsed(IpAddress::V6([0; 8]))),
                host_port: Some(text("49153")),
            }]),
        }]),
    };
    let resolved = ports(Some(network)).unwrap();
    assert_eq!(resolved.mapped_port_ipv6(80), Some(49153));
    assert_eq!(resolved.mapped_port_ipv4(80), None);
}

#[test]
fn ports_with_malformed_host_port_fail_with_the_port() {
    let network = NetworkSettings {
        ip_address: None,
        ports: Some(vec![RawPort {
            key: text("80/tcp"),
            bindings: Some(vec![PortBinding { host_ip: None, host_port: Some(text("http")) }]),
        }]),
    };
    assert_eq!(ports(Some(network)), Err(Error::UnparseablePort { port: text("http") }));
}
