use substrate_egress::error::ProxyError;
use substrate_egress::network::{decide_cidr, decide_network, IpAddress, IpNetwork};

const HOST: u32 = 0xC000_020A; // 192.0.2.10

#[test]
fn a_network_is_a_block_of_addresses() {
    let net = IpNetwork::V4(0xC000_0217, 24);
    for (address, inside) in [
        (0xC000_01FF, false),
        (0xC000_0200, true),
        (0xC000_02FF, true),
        (0xC000_0300, false),
    ] {
        assert_eq!(decide_network(Ok(net), IpAddress::V4(address)).unwrap(), inside);
    }
}

#[test]
fn the_longest_and_shortest_prefixes_hold_one_and_all() {
    assert!(decide_network(Ok(IpNetwork::V4(HOST, 32)), IpAddress::V4(HOST)).unwrap());
    assert!(!decide_network(Ok(IpNetwork::V4(HOST, 32)), IpAddress::V4(HOST + 1)).unwrap());
    assert!(decide_network(Ok(IpNetwork::V4(HOST, 0)), IpAddress::V4(u32::MAX)).unwrap());
    assert!(decide_network(Ok(IpNetwork::V6(7, 128)), IpAddress::V6(7)).unwrap());
    assert!(!decide_network(Ok(IpNetwork::V6(7, 128)), IpAddress::V6(6)).unwrap());
    assert!(decide_network(Ok(IpNetwork::V6(7, 0)), IpAddress::V6(u128::MAX)).unwrap());
    assert!(decide_network(Ok(IpNetwork::V6(7, 127)), IpAddress::V6(6)).unwrap());
}

#[test]
fn families_do_not_mix() {
    assert!(!decide_network(Ok(IpNetwork::V4(0, 0)), IpAddress::V6(0)).unwrap());
    assert!(!decide_network(Ok(IpNetwork::V6(0, 0)), IpAddress::V4(0)).unwrap());
}

#[test]
fn cidr_texts_are_parsed() {
    let host = IpAddress::V4(HOST);
    assert!(decide_cidr("192.0.2.0/24", host).unwrap());
    assert!(decide_cidr("192.0.2.77/24", host).unwrap());
    assert!(!decide_cidr("192.0.3.0/24", host).unwrap());
    assert!(decide_cidr("192.0.2.10/32", host).unwrap());
    assert!(!decide_cidr("::/0", host).unwrap());
    assert!(decide_cidr("::/0", IpAddress::V6(1)).unwrap());
}

#[test]
fn texts_that_are_no_networks_deny() {
    for text in ["", "nonsense", "192.0.2.0", "192.0.2.0/33", "192.0.2/24", "::/129", "192.0.2.0/-1"] {
        let Err(ProxyError::SubstrateEgressDenied(message)) = decide_cidr(text, IpAddress::V4(HOST))
        else {
            panic!("{text}")
        };
        assert_eq!(message, "invalid actor egress CIDR: invalid IP address syntax");
    }
    let error = "nonsense".parse::<ipnet::IpNet>().unwrap_err();
    let decided = decide_network(Err(error), IpAddress::V4(HOST));
    assert!(matches!(decided, Err(ProxyError::SubstrateEgressDenied(_))));
}
