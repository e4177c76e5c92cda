//! Finding a VM's IP address in the leases of macOS's NAT DHCP server.
use vstd::prelude::*;
use vstd::string::*;

use crate::number::{dec, decimal, number, parse_digits, parse_radix, strip_plus};
use crate::text::{
    chars_of, find, find_from, has_lead, lines, lines_of, pieces, reads, split, split_at_char,
    starts_with, sub_text, trim, trimmed,
};

verus! {

pub const LEASES_FILE: &'static str = "/var/db/dhcpd_leases";

/// An IPv4 address, its numbers in order.
#[derive(Clone, Copy, Debug, PartialEq, Eq, Structural)]
pub struct Ipv4 {
    pub a: u8,
    pub b: u8,
    pub c: u8,
    pub d: u8,
}

/// A MAC address, its octets in order.
#[derive(Clone, Copy, Debug, PartialEq, Eq, Structural)]
pub struct Mac {
    pub a: u8,
    pub b: u8,
    pub c: u8,
    pub d: u8,
    pub e: u8,
    pub f: u8,
}

impl Ipv4 {
    pub open spec fn text(self) -> Seq<char> {
        dec(self.a as nat) + "."@ + dec(self.b as nat) + "."@ + dec(self.c as nat) + "."@ + dec(
            self.d as nat,
        )
    }

    /// The address for people to read.
    pub fn to_string(&self) -> (s: String)
        ensures
            s@ == self.text(),
    {
        decimal(self.a as u64).concat(".").concat(decimal(self.b as u64).as_str()).concat(
            ".",
        ).concat(decimal(self.c as u64).as_str()).concat(".").concat(
            decimal(self.d as u64).as_str(),
        )
    }
}

// ---------------------------------------------------------------------------
// MAC addresses
// ---------------------------------------------------------------------------

/// An octet in hex, leading zeros allowed and not needed.
pub open spec fn octet(s: Seq<char>) -> Option<u8> {
    match number(strip_plus(s), 16, 255) {
        Some(n) => Some(n as u8),
        None => None,
    }
}

/// The MAC address that `s` writes: six octets between colons, white space
/// around them.
pub open spec fn mac_of_text(s: Seq<char>) -> Option<Mac> {
    let parts = split(trim(s), ':');
    if parts.len() != 6 {
        None
    } else {
        match (
            octet(parts[0]),
            octet(parts[1]),
            octet(parts[2]),
            octet(parts[3]),
            octet(parts[4]),
            octet(parts[5]),
        ) {
            (Some(a), Some(b), Some(c), Some(d), Some(e), Some(f)) => Some(
                Mac { a, b, c, d, e, f },
            ),
            _ => None,
        }
    }
}

fn parse_octet(s: &Vec<char>) -> (r: Option<u8>)
    ensures
        r == octet(s@),
{
    match parse_radix(s.as_slice(), 16, 255) {
        Some(n) => Some(n as u8),
        None => None,
    }
}

fn mac_of_chars(s: &[char]) -> (r: Option<Mac>)
    ensures
        r == mac_of_text(s@),
{
    let text = trimmed(s);
    let parts = split_at_char(text.as_slice(), ':');
    let ghost all = pieces(parts@);
    if parts.len() != 6 {
        return None;
    }
    assert(forall|i: int| 0 <= i < 6 ==> #[trigger] all[i] == parts@[i]@);
    match (
        parse_octet(&parts[0]),
        parse_octet(&parts[1]),
        parse_octet(&parts[2]),
        parse_octet(&parts[3]),
        parse_octet(&parts[4]),
        parse_octet(&parts[5]),
    ) {
        (Some(a), Some(b), Some(c), Some(d), Some(e), Some(f)) => Some(Mac { a, b, c, d, e, f }),
        _ => None,
    }
}

/// Reads a MAC address.
pub fn parse_mac(s: &str) -> (r: Option<Mac>)
    ensures
        r == mac_of_text(s@),
{
    let chars = chars_of(s);
    mac_of_chars(chars.as_slice())
}

// ---------------------------------------------------------------------------
// IP addresses
// ---------------------------------------------------------------------------

/// One number of an IPv4 address: up to three digits, without leading zeros.
pub open spec fn ip_number(s: Seq<char>) -> Option<u8> {
    if s.len() > 3 || (s.len() > 1 && s[0] == '0') {
        None
    } else {
        match number(s, 10, 255) {
            Some(n) => Some(n as u8),
            None => None,
        }
    }
}

/// The IPv4 address that `s` writes: four numbers between dots.
pub open spec fn ip_of_text(s: Seq<char>) -> Option<Ipv4> {
    let parts = split(s, '.');
    if parts.len() != 4 {
        None
    } else {
        match (
            ip_number(parts[0]),
            ip_number(parts[1]),
            ip_number(parts[2]),
            ip_number(parts[3]),
        ) {
            (Some(a), Some(b), Some(c), Some(d)) => Some(Ipv4 { a, b, c, d }),
            _ => None,
        }
    }
}

fn parse_ip_number(s: &Vec<char>) -> (r: Option<u8>)
    ensures
        r == ip_number(s@),
{
    if s.len() > 3 || (s.len() > 1 && s[0] == '0') {
        return None;
    }
    match parse_digits(s.as_slice(), 10, 255) {
        Some(n) => Some(n as u8),
        None => None,
    }
}

/// Reads an IPv4 address.
pub fn parse_ip(s: &[char]) -> (r: Option<Ipv4>)
    ensures
        r == ip_of_text(s@),
{
    let parts = split_at_char(s, '.');
    let ghost all = pieces(parts@);
    if parts.len() != 4 {
        return None;
    }
    assert(forall|i: int| 0 <= i < 4 ==> #[trigger] all[i] == parts@[i]@);
    match (
        parse_ip_number(&parts[0]),
        parse_ip_number(&parts[1]),
        parse_ip_number(&parts[2]),
        parse_ip_number(&parts[3]),
    ) {
        (Some(a), Some(b), Some(c), Some(d)) => Some(Ipv4 { a, b, c, d }),
        _ => None,
    }
}

// ---------------------------------------------------------------------------
// Leases
// ---------------------------------------------------------------------------

/// What `line` gives for `name`: what stands behind the first `=`, if the
/// name stands before it.
pub open spec fn line_value(line: Seq<char>, name: Seq<char>) -> Option<Seq<char>> {
    let text = trim(line);
    let at = find(text, '=') as int;
    if at < text.len() && text.take(at) == name {
        Some(text.skip(at + 1))
    } else {
        None
    }
}

/// What the first of `list` that gives anything for `name` gives.
pub open spec fn first_value(list: Seq<Seq<char>>, name: Seq<char>) -> Option<Seq<char>>
    decreases list.len(),
{
    if list.len() == 0 {
        None
    } else {
        match line_value(list[0], name) {
            Some(value) => Some(value),
            None => first_value(list.skip(1), name),
        }
    }
}

/// A field of an entry.
pub open spec fn field_of(entry: Seq<char>, name: Seq<char>) -> Option<Seq<char>> {
    first_value(lines(entry), name)
}

/// `s` without all the `0x` that it starts with.
pub open spec fn strip_hex(s: Seq<char>) -> Seq<char>
    decreases s.len(),
{
    if s.len() >= 2 && s[0] == '0' && s[1] == 'x' {
        strip_hex(s.skip(2))
    } else {
        s
    }
}

/// When the lease of an entry expires; 0 if it doesn't say.
pub open spec fn expiry_of(entry: Seq<char>) -> nat {
    match field_of(entry, "lease"@) {
        None => 0,
        Some(value) => match number(strip_plus(strip_hex(value)), 16, u64::MAX as nat) {
            None => 0,
            Some(n) => n,
        },
    }
}

/// The hardware address of an entry, if it is a MAC address.
pub open spec fn hardware_of(entry: Seq<char>) -> Option<Mac> {
    match field_of(entry, "hw_address"@) {
        None => None,
        Some(value) => if starts_with(value, "1,"@) {
            mac_of_text(value.skip("1,"@.len() as int))
        } else {
            None
        },
    }
}

/// The address that an entry leases to `mac`, if it does.
pub open spec fn leased(entry: Seq<char>, mac: Mac) -> Option<Ipv4> {
    if hardware_of(entry) != Some(mac) {
        None
    } else {
        match field_of(entry, "ip_address"@) {
            None => None,
            Some(value) => ip_of_text(value),
        }
    }
}

/// A lease of an address.
pub struct Lease {
    pub expiry: nat,
    pub ip: Ipv4,
}

/// The lease for `mac` among the first `n` entries that expires last, the
/// latest entry if there are several.
pub open spec fn newest(entries: Seq<Seq<char>>, mac: Mac, n: nat) -> Option<Lease>
    decreases n,
{
    if n == 0 {
        None
    } else {
        let before = newest(entries, mac, (n - 1) as nat);
        match leased(entries[n - 1], mac) {
            None => before,
            Some(ip) => if before is None || expiry_of(entries[n - 1]) >= before->0.expiry {
                Some(Lease { expiry: expiry_of(entries[n - 1]), ip })
            } else {
                before
            },
        }
    }
}

/// The address most recently leased to the MAC address written as `mac`.
pub open spec fn lease_in(text: Seq<char>, mac: Seq<char>) -> Option<Ipv4> {
    match mac_of_text(mac) {
        None => None,
        Some(wanted) => {
            let entries = split(text, '}');
            match newest(entries, wanted, entries.len()) {
                None => None,
                Some(lease) => Some(lease.ip),
            }
        },
    }
}

/// The contents of an optional text.
pub open spec fn chars_view(s: Option<Vec<char>>) -> Option<Seq<char>> {
    match s {
        Some(s) => Some(s@),
        None => None,
    }
}

fn value_in_line(line: &Vec<char>, name: &str) -> (r: Option<Vec<char>>)
    ensures
        chars_view(r) == line_value(line@, name@),
{
    let text = trimmed(line.as_slice());
    assert(text@.skip(0) == text@);
    let at = find_from(text.as_slice(), '=', 0);
    if at >= text.len() {
        return None;
    }
    let key = sub_text(text.as_slice(), 0, at);
    assert(key@ == text@.take(at as int));
    if !reads(key.as_slice(), name) {
        return None;
    }
    let value = sub_text(text.as_slice(), at + 1, text.len());
    assert(value@ == text@.skip(at + 1));
    Some(value)
}

fn field(list: &Vec<Vec<char>>, name: &str) -> (r: Option<Vec<char>>)
    ensures
        chars_view(r) == first_value(pieces(list@), name@),
{
    let ghost all = pieces(list@);
    let mut i: usize = 0;
    assert(all.skip(0) == all);
    while i < list.len()
        invariant
            i <= list@.len(),
            all == pieces(list@),
            first_value(all, name@) == first_value(all.skip(i as int), name@),
        decreases list.len() - i,
    {
        assert(all.skip(i as int)[0] == list@[i as int]@);
        assert(all.skip(i as int).skip(1) == all.skip(i + 1));
        match value_in_line(&list[i], name) {
            Some(value) => {
                return Some(value);
            },
            None => {},
        }
        i += 1;
    }
    None
}

fn without_hex_lead(s: &Vec<char>) -> (v: Vec<char>)
    ensures
        v@ == strip_hex(s@),
{
    let mut from: usize = 0;
    assert(s@.skip(0) == s@);
    while s.len() - from >= 2 && s[from] == '0' && s[from + 1] == 'x'
        invariant
            from <= s@.len(),
            strip_hex(s@) == strip_hex(s@.skip(from as int)),
        decreases s.len() - from,
    {
        assert(s@.skip(from as int).skip(2) == s@.skip(from + 2));
        from += 2;
    }
    let v = sub_text(s.as_slice(), from, s.len());
    assert(v@ == s@.skip(from as int));
    v
}

fn expiry(list: &Vec<Vec<char>>, Ghost(entry): Ghost<Seq<char>>) -> (n: u64)
    requires
        pieces(list@) == lines(entry),
    ensures
        n == expiry_of(entry),
{
    match field(list, "lease") {
        None => 0,
        Some(value) => {
            let digits = without_hex_lead(&value);
            match parse_radix(digits.as_slice(), 16, u64::MAX) {
                None => 0,
                Some(n) => n,
            }
        },
    }
}

fn lease(list: &Vec<Vec<char>>, wanted: Mac, Ghost(entry): Ghost<Seq<char>>) -> (r: Option<Ipv4>)
    requires
        pieces(list@) == lines(entry),
    ensures
        r == leased(entry, wanted),
{
    let value = match field(list, "hw_address") {
        None => {
            return None;
        },
        Some(value) => value,
    };
    proof {
        reveal_strlit("1,");
    }
    if !has_lead(value.as_slice(), "1,") {
        return None;
    }
    let hw = sub_text(value.as_slice(), 2, value.len());
    assert(hw@ == value@.skip(2));
    match mac_of_chars(hw.as_slice()) {
        None => {
            return None;
        },
        Some(mac) => if mac != wanted {
            return None;
        },
    }
    match field(list, "ip_address") {
        None => None,
        Some(value) => parse_ip(value.as_slice()),
    }
}

/// The address most recently leased to `mac`, if any. Entries look like this,
/// with leading zeros dropped from the MAC's octets:
///
/// ```text
/// {
///     name=sendit
///     ip_address=192.168.64.4
///     hw_address=1,a2:9d:8:3e:f4:ec
///     identifier=1,a2:9d:8:3e:f4:ec
///     lease=0x6ab60865
/// }
/// ```
///
/// `lease` is the expiry time; a VM that rebooted may have several entries.
pub fn find_lease(text: &str, mac: &str) -> (r: Option<Ipv4>)
    ensures
        r == lease_in(text@, mac@),
{
    let wanted = match parse_mac(mac) {
        None => {
            return None;
        },
        Some(mac) => mac,
    };
    let chars = chars_of(text);
    let entries = split_at_char(chars.as_slice(), '}');
    let ghost all = pieces(entries@);
    let mut best: Option<(u64, Ipv4)> = None;
    let mut i: usize = 0;
    while i < entries.len()
        invariant
            i <= entries@.len(),
            all == pieces(entries@),
            match newest(all, wanted, i as nat) {
                None => best is None,
                Some(lease) => best matches Some((e, ip)) && e == lease.expiry && ip == lease.ip,
            },
        decreases entries.len() - i,
    {
        let ghost entry = all[i as int];
        let list = lines_of(entries[i].as_slice());
        match lease(&list, wanted, Ghost(entry)) {
            None => {},
            Some(ip) => {
                let e = expiry(&list, Ghost(entry));
                let newer = match best {
                    None => true,
                    Some((old_e, _)) => e >= old_e,
                };
                if newer {
                    best = Some((e, ip));
                }
            },
        }
        i += 1;
    }
    match best {
        None => None,
        Some((_, ip)) => Some(ip),
    }
}

/// The IP address of a VM, given the text of its MAC address, if it has one
/// yet, and the leases, if there are any.
pub fn vm_ip(mac: &Option<String>, leases: &Option<String>) -> (r: Option<Ipv4>)
    ensures
        r == (match (mac, leases) {
            (Some(mac), Some(leases)) => lease_in(leases@, trim(mac@)),
            _ => None,
        }),
{
    match mac {
        None => None,
        Some(mac) => {
            let chars = chars_of(mac.as_str());
            let text = crate::text::string_of(trimmed(chars.as_slice()).as_slice());
            match leases {
                None => None,
                Some(leases) => find_lease(leases.as_str(), text.as_str()),
            }
        },
    }
}

// ---------------------------------------------------------------------------
// Laws
// ---------------------------------------------------------------------------

proof fn lemma_newest(entries: Seq<Seq<char>>, mac: Mac, n: nat, i: int)
    requires
        0 <= i < n <= entries.len(),
        leased(entries[i], mac) is Some,
    ensures
        newest(entries, mac, n) is Some,
        newest(entries, mac, n)->0.expiry >= expiry_of(entries[i]),
    decreases n,
{
    if i < n - 1 {
        lemma_newest(entries, mac, (n - 1) as nat, i);
    }
}

proof fn lemma_newest_found(entries: Seq<Seq<char>>, mac: Mac, n: nat) -> (i: int)
    requires
        n <= entries.len(),
        newest(entries, mac, n) is Some,
    ensures
        0 <= i < n,
        leased(entries[i], mac) == Some(newest(entries, mac, n)->0.ip),
        expiry_of(entries[i]) == newest(entries, mac, n)->0.expiry,
        forall|k: int|
            i < k < n && leased(#[trigger] entries[k], mac) is Some ==> expiry_of(entries[k])
                < expiry_of(entries[i]),
    decreases n,
{
    let before = newest(entries, mac, (n - 1) as nat);
    match leased(entries[n - 1], mac) {
        Some(ip) => if before is None || expiry_of(entries[n - 1]) >= before->0.expiry {
            n - 1
        } else {
            lemma_newest_found(entries, mac, (n - 1) as nat)
        },
        None => lemma_newest_found(entries, mac, (n - 1) as nat),
    }
}

/// The lease that is found is the one of the MAC address that expires last,
/// and none is found only if there is none. Of several that expire at the
/// same time, it is the last one.
pub proof fn law_newest_lease(text: Seq<char>, mac: Seq<char>)
    requires
        mac_of_text(mac) is Some,
    ensures
        ({
            let entries = split(text, '}');
            let wanted = mac_of_text(mac)->0;
            &&& lease_in(text, mac) is None ==> forall|i: int|
                0 <= i < entries.len() ==> leased(#[trigger] entries[i], wanted) is None
            &&& lease_in(text, mac) is Some ==> exists|i: int|
                {
                    &&& 0 <= i < entries.len()
                    &&& leased(#[trigger] entries[i], wanted) == lease_in(text, mac)
                    &&& forall|k: int|
                        0 <= k < entries.len() && leased(#[trigger] entries[k], wanted) is Some
                            ==> expiry_of(entries[k]) <= expiry_of(entries[i]) && (k > i
                            ==> expiry_of(entries[k]) < expiry_of(entries[i]))
                }
        }),
{
    let entries = split(text, '}');
    let wanted = mac_of_text(mac)->0;
    if lease_in(text, mac) is None {
        assert forall|i: int| 0 <= i < entries.len() implies leased(
            #[trigger] entries[i],
            wanted,
        ) is None by {
            if leased(entries[i], wanted) is Some {
                lemma_newest(entries, wanted, entries.len(), i);
            }
        }
    } else {
        let i = lemma_newest_found(entries, wanted, entries.len());
        assert forall|k: int|
            0 <= k < entries.len() && leased(#[trigger] entries[k], wanted) is Some implies expiry_of(
            entries[k],
        ) <= expiry_of(entries[i]) && (k > i ==> expiry_of(entries[k]) < expiry_of(entries[i])) by {
            lemma_newest(entries, wanted, entries.len(), k);
        }
        assert(leased(entries[i], wanted) == lease_in(text, mac));
    }
}

} // verus!
