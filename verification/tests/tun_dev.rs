use soulvpn::net::Ipv4Addr;
use soulvpn::tun_dev::{ipv4_network, network_cidr, prefix_to_netmask};

#[test]
fn netmask_24() {
    assert_eq!(prefix_to_netmask(24), Ipv4Addr::new(255, 255, 255, 0));
}

#[test]
fn netmask_32() {
    assert_eq!(prefix_to_netmask(32), Ipv4Addr::new(255, 255, 255, 255));
}

#[test]
fn netmask_edges() {
    assert_eq!(prefix_to_netmask(0), Ipv4Addr::new(0, 0, 0, 0));
    assert_eq!(prefix_to_netmask(1), Ipv4Addr::new(128, 0, 0, 0));
    assert_eq!(prefix_to_netmask(20), Ipv4Addr::new(255, 255, 240, 0));
    assert_eq!(prefix_to_netmask(31), Ipv4Addr::new(255, 255, 255, 254));
}

#[test]
fn networks() {
    let addr = Ipv4Addr::new(10, 66, 77, 201);
    assert_eq!(ipv4_network(addr, 24), Ipv4Addr::new(10, 66, 77, 0));
    assert_eq!(ipv4_network(addr, 20), Ipv4Addr::new(10, 66, 64, 0));
    assert_eq!(ipv4_network(addr, 32), addr);
    assert_eq!(ipv4_network(addr, 0), Ipv4Addr::new(0, 0, 0, 0));
    assert_eq!(ipv4_network(ipv4_network(addr, 20), 20), ipv4_network(addr, 20));
    assert_eq!(network_cidr(addr, 24), "10.66.77.0/24");
}
