use std::str::FromStr;

use ipsubnet::net::Net;
use ipsubnet::error::Error;
use ipsubnet::rng::RandomRangeGenerator;

fn ip_to_u32(ip: &str) -> u32 {
    let cidr = format!("{ip}/32");

    u32::from(ipnet::Ipv4Net::from_str(&cidr).unwrap().addr())
}

fn v4_string(x: u32) -> String {
    format!("{}.{}.{}.{}", x >> 24, (x >> 16) & 0xff, (x >> 8) & 0xff, x & 0xff)
}

fn v4_cidr_string(n: &Net<u32>) -> String {
    format!("{}/{}", v4_string(n.addr()), n.prefix_len())
}

fn v4_net(cidr: &str) -> Net<u32> {
    let parsed = ipnet::Ipv4Net::from_str(cidr).unwrap();
    Net::from_addr_prefix(u32::from(parsed.addr()), parsed.prefix_len()).unwrap()
}

struct MockRng {
    value: u32,
}

impl MockRng {
    fn new(value: u32) -> Self {
        Self { value }
    }
}

impl RandomRangeGenerator<u32> for MockRng {
    fn random_range(&mut self, _low: u32, _high: u32) -> u32 {
        self.value
    }
}

#[test]
fn ipv4_sumarizes_an_interface() {
    let ip = v4_net("10.1.1.1/32");

    assert_eq!(v4_string(ip.addr()), "10.1.1.1");
    assert_eq!(ip.addr(), 167837953);
    assert_eq!(format!("{:X}", ip.addr()), "A010101");
    assert_eq!(v4_string(ip.network()), "10.1.1.1");
    assert_eq!(v4_string(ip.netmask()), "255.255.255.255");
    assert_eq!(ip.prefix_len(), 32);
    assert_eq!(format!("{:X}", ip.netmask()), "FFFFFFFF");
    assert_eq!(v4_string(ip.broadcast()), "10.1.1.1");
    assert_eq!(v4_string(ip.hostmask()), "0.0.0.0");
    assert_eq!(ip.addresses_in_network(), 1);
    let range = ip.network_range();
    assert_eq!(
        format!("{} - {}", v4_string(range.0), v4_string(range.1)),
        "10.1.1.1 - 10.1.1.1"
    );
    assert!(ip.usable_range().is_none());
}

#[test]
fn includes_usable_range_below_31() {
    let ip = v4_net("10.1.1.1/30");

    assert_eq!(v4_string(ip.network()), "10.1.1.0");
    assert_eq!(v4_string(ip.netmask()), "255.255.255.252");
    assert_eq!(format!("{:X}", ip.netmask()), "FFFFFFFC");
    assert_eq!(v4_string(ip.broadcast()), "10.1.1.3");
    assert_eq!(v4_string(ip.hostmask()), "0.0.0.3");
    assert_eq!(ip.addresses_in_network(), 4);
    let range = ip.network_range();
    assert_eq!(
        format!("{} - {}", v4_string(range.0), v4_string(range.1)),
        "10.1.1.0 - 10.1.1.3"
    );
    let usable = ip.usable_range().unwrap();
    assert_eq!(
        format!("{} - {}", v4_string(usable.0), v4_string(usable.1)),
        "10.1.1.1 - 10.1.1.2"
    );
}

#[test]
fn ipv4_splits_a_range() {
    let expected = [
        ("1.2.3.0", "1.2.3.15"),
        ("1.2.3.16", "1.2.3.31"),
        ("1.2.3.32", "1.2.3.47"),
        ("1.2.3.48", "1.2.3.63"),
        ("1.2.3.64", "1.2.3.79"),
        ("1.2.3.80", "1.2.3.95"),
        ("1.2.3.96", "1.2.3.111"),
        ("1.2.3.112", "1.2.3.127"),
    ];
    let ip = v4_net("1.2.3.4/25");

    let split = ip.subnets(28).unwrap();
    assert_eq!(split.max_index(), expected.len() as u32 - 1);
    for (i, (network, broadcast)) in expected.iter().enumerate() {
        let member = split.get(i as u32);
        assert_eq!(v4_string(member.addr()), *network);
        assert_eq!(v4_string(member.broadcast()), *broadcast);
    }
}

#[test]
fn ipv4_reports_oversized_range_split() {
    let ip = v4_net("1.2.3.4/29");

    let e = ip.subnets(24).unwrap_err();

    assert!(matches!(e, Error::SplitSmallerThanPrefixLen(24, 29)));
}

#[test]
fn ipv4_random_split_produces_different_results_with_different_random_values() {
    let ip = v4_net("182.37.233.188/16");

    let mut mock_rng1 = MockRng::new(ip_to_u32("34.86.183.34"));
    let output1 = ip.generate_random_split(24, &mut mock_rng1).unwrap();

    assert_eq!(v4_cidr_string(&output1), "182.37.183.0/24");

    let mut mock_rng2 = MockRng::new(ip_to_u32("33.25.245.44"));
    let output2 = ip.generate_random_split(18, &mut mock_rng2).unwrap();

    assert_eq!(v4_cidr_string(&output2), "182.37.192.0/18");

    assert_ne!(output1, output2);
}

#[test]
fn ipv4_random_split_works_with_netmask_0_input() {
    let ip = v4_net("0.0.0.0/0");

    let mut mock_rng = MockRng::new(ip_to_u32("230.141.13.62"));
    let output = ip.generate_random_split(24, &mut mock_rng).unwrap();

    assert_eq!(v4_cidr_string(&output), "230.141.13.0/24");
}
