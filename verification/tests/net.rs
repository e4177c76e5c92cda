use sendit::vm::net::{find_lease, parse_ip, parse_mac, vm_ip, Ipv4, Mac};

const LEASES: &str = "\
{
\tname=sendit
\tip_address=192.168.64.7
\thw_address=ff,f1:f5:dd:7f:0:2:0:0:ab:11:f1:e0:82:2f:f9:c8:b:5a
\tidentifier=ff,f1:f5:dd:7f:0:2:0:0:ab:11:f1:e0:82:2f:f9:c8:b:5a
\tlease=0x6ab60aa8
}
{
\tname=sendit
\tip_address=192.168.64.4
\thw_address=1,a2:9d:8:3e:f4:ec
\tidentifier=1,a2:9d:8:3e:f4:ec
\tlease=0x6ab60865
}
{
\tname=sendit
\tip_address=192.168.64.9
\thw_address=1,a2:9d:8:3e:f4:ec
\tidentifier=1,a2:9d:8:3e:f4:ec
\tlease=0x6ab60900
}
{
\tname=other
\tip_address=192.168.64.5
\thw_address=1,2:0:0:0:0:1
\tlease=0x6ab60999
}
";

fn ip(a: u8, b: u8, c: u8, d: u8) -> Ipv4 {
    Ipv4 { a, b, c, d }
}

fn mac(o: [u8; 6]) -> Mac {
    Mac {
        a: o[0],
        b: o[1],
        c: o[2],
        d: o[3],
        e: o[4],
        f: o[5],
    }
}

#[test]
fn finds_the_newest_lease_for_a_mac() {
    assert_eq!(
        find_lease(LEASES, "a2:9d:08:3e:f4:ec"),
        Some(ip(192, 168, 64, 9))
    );
    assert_eq!(
        find_lease(LEASES, "02:00:00:00:00:01"),
        Some(ip(192, 168, 64, 5))
    );
    assert_eq!(find_lease(LEASES, "02:00:00:00:00:02"), None);
    assert_eq!(find_lease("", "02:00:00:00:00:01"), None);
}

#[test]
fn parses_macs() {
    assert_eq!(
        parse_mac("a2:9d:8:3e:f4:ec"),
        Some(mac([0xa2, 0x9d, 8, 0x3e, 0xf4, 0xec]))
    );
    assert_eq!(parse_mac("a2:9d:8:3e:f4"), None);
    assert_eq!(parse_mac("a2:9d:8:3e:f4:ec:00"), None);
    assert_eq!(parse_mac("zz:9d:8:3e:f4:ec"), None);
}

#[test]
fn macs_have_octets_in_hex() {
    assert_eq!(
        parse_mac(" A2:9d:+8:003e:f4:EC\n"),
        Some(mac([0xa2, 0x9d, 8, 0x3e, 0xf4, 0xec]))
    );
    assert_eq!(parse_mac("100:0:0:0:0:0"), None);
    assert_eq!(parse_mac(":0:0:0:0:0"), None);
    assert_eq!(parse_mac("-1:0:0:0:0:0"), None);
    assert_eq!(parse_mac(""), None);
}

#[test]
fn addresses_are_read_like_those_of_the_standard_library() {
    for s in [
        "192.168.64.9",
        "0.0.0.0",
        "255.255.255.255",
        "256.0.0.1",
        "1.2.3",
        "1.2.3.4.5",
        "01.2.3.4",
        "1.2.3.",
        ".1.2.3",
        "1..2.3",
        " 1.2.3.4",
        "+1.2.3.4",
        "1.2.3.0004",
        "a.b.c.d",
        "",
    ] {
        let chars: Vec<char> = s.chars().collect();
        let own = parse_ip(&chars).map(|ip| ip.to_string());
        let std = s
            .parse::<core::net::Ipv4Addr>()
            .ok()
            .map(|ip| ip.to_string());
        assert_eq!(own, std, "{s}");
    }
}

#[test]
fn of_leases_that_expire_together_the_last_one_counts() {
    let entry = |ip: &str, lease: &str| {
        format!("{{\r\n  ip_address={ip}\r\n  hw_address=1,2:0:0:0:0:1\r\n{lease}}}\n")
    };
    let text = entry("10.0.0.1", "lease=0x10\n") + &entry("10.0.0.2", "lease=0x0x10\n");
    assert_eq!(find_lease(&text, "2:0:0:0:0:1"), Some(ip(10, 0, 0, 2)));
    // Without an expiry time, or with one that can't be read, it is 0.
    let text = entry("10.0.0.1", "lease=0x1\n")
        + &entry("10.0.0.2", "")
        + &entry("10.0.0.3", "lease=soon\n");
    assert_eq!(find_lease(&text, "2:0:0:0:0:1"), Some(ip(10, 0, 0, 1)));
    // An address that can't be read doesn't count.
    let text = entry("10.0.0.1", "lease=0x1\n") + &entry("nowhere", "lease=0x2\n");
    assert_eq!(find_lease(&text, "2:0:0:0:0:1"), Some(ip(10, 0, 0, 1)));
    assert_eq!(find_lease(&text, "no mac"), None);
}

#[test]
fn a_vm_has_an_address_once_it_has_a_mac_and_a_lease() {
    let mac = Some("a2:9d:08:3e:f4:ec\n".to_string());
    let leases = Some(LEASES.to_string());
    assert_eq!(vm_ip(&mac, &leases), Some(ip(192, 168, 64, 9)));
    assert_eq!(vm_ip(&None, &leases), None);
    assert_eq!(vm_ip(&mac, &None), None);
    assert_eq!(ip(10, 0, 255, 1).to_string(), "10.0.255.1");
}
