use testcontainers_rs::address::{HostAddress, IpAddress};
use testcontainers_rs::ports::{PortBinding, Ports, RawPort, UnparseablePort};

fn v4() -> Option<HostAddress> {
    Some(HostAddress::Parsed(IpAddress::V4([127, 0, 0, 1])))
}

fn v6() -> Option<HostAddress> {
    Some(HostAddress::Parsed(IpAddress::V6([0, 0, 0, 0, 0, 0, 0, 1])))
}

fn malformed(words: &str) -> Option<HostAddress> {
    Some(HostAddress::Malformed(String::from(words)))
}

fn binding(host_ip: Option<HostAddress>, host_port: Option<&str>) -> PortBinding {
    PortBinding { host_ip, host_port: host_port.map(String::from) }
}

fn entry(key: &str, bindings: Option<Vec<PortBinding>>) -> RawPort {
    RawPort { key: String::from(key), bindings }
}

#[test]
fn ipv4_binding_is_resolved_for_ipv4_only() {
    let table = vec![entry("80/tcp", Some(vec![binding(v4(), Some("8080"))]))];
    let ports = Ports::from(table).unwrap();
    assert_eq!(ports.mapped_port_ipv4(80), Some(8080));
    assert_eq!(ports.mapped_port_ipv6(80), None);
    assert_eq!(ports.mapped_port_ipv4(8080), None);
}

#[test]
fn ipv6_binding_is_resolved_for_ipv6_only() {
    let table = vec![entry("443/tcp", Some(vec![binding(v6(), Some("8443"))]))];
    let ports = Ports::from(table).unwrap();
    assert_eq!(ports.mapped_port_ipv6(443), Some(8443));
    assert_eq!(ports.mapped_port_ipv4(443), None);
}

#[test]
fn a_port_may_be_published_for_both_families() {
    let table = vec![entry(
        "80/tcp",
        Some(vec![binding(v4(), Some("32768")), binding(v6(), Some("32769"))]),
    )];
    let ports = Ports::from(table).unwrap();
    assert_eq!(ports.mapped_port_ipv4(80), Some(32768));
    assert_eq!(ports.mapped_port_ipv6(80), Some(32769));
}

#[test]
fn key_without_parseable_port_is_dropped_entirely() {
    let table = vec![
        entry("http/tcp", Some(vec![binding(v4(), Some("8080"))])),
        entry("/tcp", Some(vec![binding(v4(), Some("8081"))])),
        entry("", Some(vec![binding(v6(), Some("8082"))])),
        entry("70000/tcp", Some(vec![binding(v4(), Some("8083"))])),
    ];
    let ports = Ports::from(table).unwrap();
    assert_eq!(ports, Ports::default());
}

#[test]
fn dropped_key_hides_even_a_malformed_host_port() {
    let table = vec![
        entry("http/tcp", Some(vec![binding(v4(), Some("not a port"))])),
        entry("80/tcp", Some(vec![binding(v4(), Some("8080"))])),
    ];
    let ports = Ports::from(table).unwrap();
    assert_eq!(ports.mapped_port_ipv4(80), Some(8080));
}

#[test]
fn binding_without_host_port_is_skipped() {
    let table = vec![entry(
        "80/tcp",
        Some(vec![binding(v4(), None), binding(v6(), Some("9090"))]),
    )];
    let ports = Ports::from(table).unwrap();
    assert_eq!(ports.mapped_port_ipv4(80), None);
    assert_eq!(ports.mapped_port_ipv6(80), Some(9090));
}

#[test]
fn binding_without_host_port_does_not_undo_an_earlier_one() {
    let table = vec![entry(
        "80/tcp",
        Some(vec![binding(v4(), Some("8080")), binding(v4(), None)]),
    )];
    let ports = Ports::from(table).unwrap();
    assert_eq!(ports.mapped_port_ipv4(80), Some(8080));
}

#[test]
fn binding_without_address_is_skipped() {
    let table = vec![entry("80/tcp", Some(vec![binding(None, Some("8080"))]))];
    let ports = Ports::from(table).unwrap();
    assert_eq!(ports.mapped_port_ipv4(80), None);
    assert_eq!(ports.mapped_port_ipv6(80), None);
}

#[test]
fn binding_with_malformed_address_is_skipped() {
    let table = vec![entry(
        "80/tcp",
        Some(vec![binding(malformed("localhost"), Some("8080")), binding(malformed(""), Some("1"))]),
    )];
    let ports = Ports::from(table).unwrap();
    assert_eq!(ports, Ports::default());
}

#[test]
fn later_binding_wins() {
    let table = vec![entry(
        "80/tcp",
        Some(vec![
            binding(v4(), Some("8080")),
            binding(v6(), Some("7070")),
            binding(v4(), Some("9090")),
        ]),
    )];
    let ports = Ports::from(table).unwrap();
    assert_eq!(ports.mapped_port_ipv4(80), Some(9090));
    assert_eq!(ports.mapped_port_ipv6(80), Some(7070));
}

#[test]
fn later_entry_wins_over_an_earlier_entry_for_the_same_port() {
    let table = vec![
        entry("80/tcp", Some(vec![binding(v4(), Some("8080"))])),
        entry("81/tcp", Some(vec![binding(v4(), Some("8181"))])),
        entry("80/udp", Some(vec![binding(v4(), Some("9090"))])),
    ];
    let ports = Ports::from(table).unwrap();
    assert_eq!(ports.mapped_port_ipv4(80), Some(9090));
    assert_eq!(ports.mapped_port_ipv4(81), Some(8181));
}

#[test]
fn entry_without_bindings_publishes_nothing() {
    let table = vec![entry("80/tcp", None), entry("81/tcp", Some(vec![]))];
    let ports = Ports::from(table).unwrap();
    assert_eq!(ports, Ports::default());
}

#[test]
fn empty_table_publishes_nothing() {
    let ports = Ports::from(vec![]).unwrap();
    assert_eq!(ports, Ports::default());
    assert_eq!(ports.mapped_port_ipv4(0), None);
    assert_eq!(ports.mapped_port_ipv6(0), None);
}

#[test]
fn key_without_protocol_names_its_port() {
    let table = vec![entry("5432", Some(vec![binding(v4(), Some("+05432"))]))];
    let ports = Ports::from(table).unwrap();
    assert_eq!(ports.mapped_port_ipv4(5432), Some(5432));
}

#[test]
fn malformed_host_port_fails_the_table() {
    let table = vec![
        entry("80/tcp", Some(vec![binding(v4(), Some("8080"))])),
        entry("81/tcp", Some(vec![binding(v4(), Some("eighty"))])),
    ];
    assert_eq!(Ports::from(table), Err(UnparseablePort { port: String::from("eighty") }));
}

#[test]
fn malformed_host_port_fails_whatever_the_address() {
    let table = vec![entry("80/tcp", Some(vec![binding(None, Some("65536"))]))];
    assert_eq!(Ports::from(table), Err(UnparseablePort { port: String::from("65536") }));
    let table = vec![entry("80/tcp", Some(vec![binding(malformed("x"), Some(""))]))];
    assert_eq!(Ports::from(table), Err(UnparseablePort { port: String::new() }));
}

#[test]
fn first_malformed_host_port_is_reported() {
    let table = vec![
        entry("80/tcp", Some(vec![binding(v4(), None), binding(v6(), Some("a"))])),
        entry("81/tcp", Some(vec![binding(v4(), Some("b"))])),
    ];
    assert_eq!(Ports::from(table), Err(UnparseablePort { port: String::from("a") }));
}

#[test]
fn ports_default_publishes_nothing() {
    let ports = Ports::default();
    assert_eq!(ports.mapped_port_ipv4(80), None);
    assert_eq!(ports.mapped_port_ipv6(80), None);
}
