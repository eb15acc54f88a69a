use std::str::FromStr;

use ipsubnet::ipv6::{address_type, segments, AddressType};
use ipsubnet::net::Net;
use ipsubnet::error::Error;
use ipsubnet::rng::RandomRangeGenerator;

fn ip_to_u128(ip: &str) -> u128 {
    let cidr = format!("{ip}/128");

    u128::from(ipnet::Ipv6Net::from_str(&cidr).unwrap().addr())
}

fn v6_expanded(x: u128) -> String {
    let mut groups: Vec<String> = Vec::new();
    for i in 0..8u32 {
        groups.push(format!("{:x}", (x >> (112 - 16 * i)) as u16));
    }
    groups.join(":")
}

fn v6_string(x: u128) -> String {
    let cidr = format!("{}/128", v6_expanded(x));
    ipnet::Ipv6Net::from_str(&cidr).unwrap().addr().to_string()
}

fn v6_cidr_string(n: &Net<u128>) -> String {
    let cidr = format!("{}/{}", v6_expanded(n.addr()), n.prefix_len());
    ipnet::Ipv6Net::from_str(&cidr).unwrap().to_string()
}

fn v6_net(cidr: &str) -> Net<u128> {
    let parsed = ipnet::Ipv6Net::from_str(cidr).unwrap();
    Net::from_addr_prefix(u128::from(parsed.addr()), parsed.prefix_len()).unwrap()
}

struct MockRng {
    value: u128,
}

impl MockRng {
    fn new(value: u128) -> Self {
        Self { value }
    }
}

impl RandomRangeGenerator<u128> for MockRng {
    fn random_range(&mut self, _low: u128, _high: u128) -> u128 {
        self.value
    }
}

#[test]
fn ipv6_sumarizes_an_interface() {
    let ip = v6_net("3bc7:a1c8:8d4:f9fc:3ed1:bfed:f539:a271/64");

    let groups = segments(ip.addr());
    assert_eq!(
        format!(
            "{:04x}:{:04x}:{:04x}:{:04x}:{:04x}:{:04x}:{:04x}:{:04x}",
            groups[0], groups[1], groups[2], groups[3],
            groups[4], groups[5], groups[6], groups[7],
        ),
        "3bc7:a1c8:08d4:f9fc:3ed1:bfed:f539:a271"
    );
    assert_eq!(v6_string(ip.addr()), "3bc7:a1c8:8d4:f9fc:3ed1:bfed:f539:a271");
    let prefix_masked = Net::from_addr_prefix(ip.network(), ip.prefix_len()).unwrap();
    assert_eq!(v6_cidr_string(&prefix_masked), "3bc7:a1c8:8d4:f9fc::/64");
    let id_masked = Net::from_addr_prefix(ip.address_id(), ip.prefix_len()).unwrap();
    assert_eq!(v6_cidr_string(&id_masked), "::3ed1:bfed:f539:a271/64");
    assert_eq!(v6_string(ip.netmask()), "ffff:ffff:ffff:ffff::");
    assert_eq!(ip.prefix_len(), 64);
    assert_eq!(address_type(ip.addr()), AddressType::AggregatableGlobalUnicast);
    let range = ip.network_range();
    assert_eq!(v6_string(range.0), "3bc7:a1c8:8d4:f9fc::");
    assert_eq!(v6_string(range.1), "3bc7:a1c8:8d4:f9fc:ffff:ffff:ffff:ffff");
}

#[test]
fn ipv6_splits_a_range() {
    let expected = [
        ("ffff::", "ffff::fff:ffff:ffff"),
        ("ffff::1000:0:0", "ffff::1fff:ffff:ffff"),
        ("ffff::2000:0:0", "ffff::2fff:ffff:ffff"),
        ("ffff::3000:0:0", "ffff::3fff:ffff:ffff"),
        ("ffff::4000:0:0", "ffff::4fff:ffff:ffff"),
        ("ffff::5000:0:0", "ffff::5fff:ffff:ffff"),
        ("ffff::6000:0:0", "ffff::6fff:ffff:ffff"),
        ("ffff::7000:0:0", "ffff::7fff:ffff:ffff"),
    ];
    let ip = v6_net("ffff::/81");

    let split = ip.subnets(84).unwrap();
    assert_eq!(split.max_index(), expected.len() as u128 - 1);
    for (i, (network, broadcast)) in expected.iter().enumerate() {
        let member = split.get(i as u128);
        assert_eq!(v6_string(member.addr()), *network);
        assert_eq!(v6_string(member.broadcast()), *broadcast);
    }
}

#[test]
fn ipv6_reports_oversized_range_split() {
    let ip = v6_net("1234:5678::/64");

    let e = ip.subnets(25).unwrap_err();

    assert!(matches!(e, Error::SplitSmallerThanPrefixLen(25, 64)));
}

#[test]
fn ipv6_random_split_produces_different_results_with_different_random_values() {
    let ip = v6_net("7a18:549a:ecb0:5573:edfc:fa96:d303:ce5b/48");

    let mut mock_rng1 = MockRng::new(ip_to_u128("7a18:549a:ecb0:5573:edfc:fa96:d303:ce5b"));
    let output1 = ip.generate_random_split(64, &mut mock_rng1).unwrap();

    assert_eq!(v6_cidr_string(&output1), "7a18:549a:ecb0:5573::/64");

    let mut mock_rng2 = MockRng::new(ip_to_u128("45c0:b8e4:e243:4159:439c:d13d:3e2a:8c80"));
    let output2 = ip.generate_random_split(72, &mut mock_rng2).unwrap();

    assert_eq!(v6_cidr_string(&output2), "7a18:549a:ecb0:4159:4300::/72");

    assert_ne!(output1, output2);
}

#[test]
fn ipv6_random_split_works_with_netmask_0_input() {
    let ip = v6_net("::/0");

    let mut mock_rng = MockRng::new(ip_to_u128("4cc7:8e7:b232:e2dd:4920:68b5:e628:406f"));
    let output = ip.generate_random_split(64, &mut mock_rng).unwrap();

    assert_eq!(v6_cidr_string(&output), "4cc7:8e7:b232:e2dd::/64");
}
