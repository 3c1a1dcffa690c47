use pve_imds::listen::{get_exposed_address, IpAddress, ListenAddressError, NetworkInterface};

fn iface(name: &str, addresses: Vec<IpAddress>) -> NetworkInterface {
    NetworkInterface { name: name.to_string(), addresses }
}

#[test]
fn first_ipv4_address_of_the_interface() {
    let ifs = vec![
        iface("lo", vec![IpAddress::V4(0x7f00_0001)]),
        iface("vnet1", vec![IpAddress::V6(1), IpAddress::V4(0x0a00_0005), IpAddress::V4(0x0a00_0006)]),
        iface("vnet1", vec![IpAddress::V4(0x0a00_0007)]),
    ];
    let r = get_exposed_address(&ifs, "vnet1", 3001).unwrap();
    assert_eq!(r, (IpAddress::V4(0x0a00_0005), 3001));
}

#[test]
fn missing_interface() {
    let ifs = vec![iface("lo", vec![IpAddress::V4(1)])];
    match get_exposed_address(&ifs, "vnet1", 3001) {
        Err(e @ ListenAddressError::InterfaceNotFound { .. }) => {
            assert_eq!(e.message(), "Network interface vnet1 not found")
        }
        other => panic!("unexpected {other:?}"),
    }
}

#[test]
fn interface_without_ipv4() {
    let ifs = vec![iface("vnet1", vec![IpAddress::V6(5)])];
    match get_exposed_address(&ifs, "vnet1", 80) {
        Err(e @ ListenAddressError::NoIpv4Address) => assert_eq!(e.message(), "No IPv4 address found"),
        other => panic!("unexpected {other:?}"),
    }
}
