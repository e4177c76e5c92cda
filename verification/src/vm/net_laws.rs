//! What finding a VM's address comes to.
use vstd::prelude::*;
use vstd::string::*;

use super::net::{
    expiry_of, field_of, first_value, hardware_of, ip_number, ip_of_text, law_newest_lease,
    lease_in, leased, line_value, mac_of_text, octet, strip_hex, Ipv4, Mac,
};
use crate::number::{all_digits, dec, digit, digit_char, lemma_dec_value, number, strip_plus, value};
use crate::text::{find, lemma_find, lemma_find_at, lines, split, trim};
use crate::text_laws::{all_white, joined, law_split, law_trim};

verus! {

// ---------------------------------------------------------------------------
// Addresses
// ---------------------------------------------------------------------------

/// Whether `s` writes an octet in hex: digits only, and no more than 255.
pub open spec fn writes_octet(s: Seq<char>) -> bool {
    s.len() > 0 && all_digits(s, 16) && value(s, 16) <= 255
}

proof fn lemma_octet(s: Seq<char>)
    requires
        writes_octet(s),
    ensures
        octet(s) == Some(value(s, 16) as u8),
        !s.contains(':'),
        !crate::text::is_white(s[0]),
        !crate::text::is_white(s.last()),
{
    assert(digit(s[0]) is Some);
    assert(digit(s[s.len() - 1]) is Some);
    assert forall|i: int| 0 <= i < s.len() implies s[i] != ':' by {
        assert(digit(s[i]) is Some);
    }
}

/// Six octets in hex with colons between them are a MAC address, each octet
/// in its place, white space around them notwithstanding.
pub proof fn law_mac_addresses(a: Seq<char>, octets: Seq<Seq<char>>, b: Seq<char>)
    requires
        all_white(a),
        all_white(b),
        octets.len() == 6,
        forall|i: int| 0 <= i < 6 ==> writes_octet(#[trigger] octets[i]),
    ensures
        mac_of_text(a + joined(octets, ':') + b) == Some(
            Mac {
                a: value(octets[0], 16) as u8,
                b: value(octets[1], 16) as u8,
                c: value(octets[2], 16) as u8,
                d: value(octets[3], 16) as u8,
                e: value(octets[4], 16) as u8,
                f: value(octets[5], 16) as u8,
            },
        ),
{
    assert forall|i: int| 0 <= i < octets.len() implies !(#[trigger] octets[i]).contains(':') by {
        lemma_octet(octets[i]);
    }
    lemma_octet(octets[0]);
    lemma_octet(octets[1]);
    lemma_octet(octets[2]);
    lemma_octet(octets[3]);
    lemma_octet(octets[4]);
    lemma_octet(octets[5]);
    let s = joined(octets, ':');
    lemma_joined_ends(octets, ':');
    law_trim(a, s, b);
    law_split(octets, ':');
}

proof fn lemma_joined_ends(parts: Seq<Seq<char>>, c: char)
    requires
        parts.len() > 0,
        parts[0].len() > 0,
        parts.last().len() > 0,
    ensures
        joined(parts, c).len() > 0,
        joined(parts, c)[0] == parts[0][0],
        joined(parts, c).last() == parts.last().last(),
    decreases parts.len(),
{
    if parts.len() > 1 {
        let init = parts.drop_last();
        lemma_joined_first(init, c);
    }
}

proof fn lemma_joined_first(parts: Seq<Seq<char>>, c: char)
    requires
        parts.len() > 0,
        parts[0].len() > 0,
    ensures
        joined(parts, c).len() > 0,
        joined(parts, c)[0] == parts[0][0],
    decreases parts.len(),
{
    if parts.len() > 1 {
        lemma_joined_first(parts.drop_last(), c);
    }
}

/// Text that does not consist of six parts between colons is no MAC address,
/// nor is one with a part that is no octet.
pub proof fn law_no_mac_address(s: Seq<char>, parts: Seq<Seq<char>>, i: int)
    requires
        parts.len() > 0,
        forall|k: int| 0 <= k < parts.len() ==> !(#[trigger] parts[k]).contains(':'),
        trim(s) == joined(parts, ':'),
    ensures
        parts.len() != 6 ==> mac_of_text(s) is None,
        0 <= i < parts.len() && !writes_octet(parts[i]) && !(parts[i].len() > 0 && parts[i][0]
            == '+') ==> mac_of_text(s) is None,
{
    law_split(parts, ':');
}

proof fn lemma_ip_number(n: u8)
    ensures
        ip_number(dec(n as nat)) == Some(n),
        !dec(n as nat).contains('.'),
{
    lemma_dec_value(n as nat);
    crate::text_laws::law_decimals(n as nat, 255);
    let d = dec(n as nat);
    reveal_with_fuel(dec, 4);
    assert(d.len() <= 3);
    assert forall|i: int| 0 <= i < d.len() implies d[i] != '.' by {
        assert('0' <= d[i] <= '9');
    }
}

proof fn lemma_digit_char(c: char)
    requires
        digit(c) is Some,
        digit(c)->0 < 10,
    ensures
        digit_char(digit(c)->0) == c,
{
}

proof fn lemma_number_ip(s: Seq<char>)
    requires
        ip_number(s) is Some,
    ensures
        s == dec(ip_number(s)->0 as nat),
{
    reveal_with_fuel(dec, 4);
    reveal_with_fuel(value, 4);
    let n = value(s, 10);
    assert(digit(s[0]) is Some && digit(s[0])->0 < 10);
    lemma_digit_char(s[0]);
    if s.len() == 1 {
        assert(n == digit(s[0])->0);
        assert(s == seq![s[0]]);
    } else if s.len() == 2 {
        assert(digit(s[1]) is Some && digit(s[1])->0 < 10);
        lemma_digit_char(s[1]);
        let x = digit(s[0])->0;
        let y = digit(s[1])->0;
        assert(s.drop_last().last() == s[0]);
        assert(n == x * 10 + y);
        assert(x > 0);
        assert(n / 10 == x && n % 10 == y);
        assert(s == seq![s[0]].push(s[1]));
    } else {
        assert(digit(s[1]) is Some && digit(s[1])->0 < 10);
        assert(digit(s[2]) is Some && digit(s[2])->0 < 10);
        lemma_digit_char(s[1]);
        lemma_digit_char(s[2]);
        let x = digit(s[0])->0;
        let y = digit(s[1])->0;
        let z = digit(s[2])->0;
        assert(s.drop_last().last() == s[1]);
        assert(s.drop_last().drop_last().last() == s[0]);
        assert(n == (x * 10 + y) * 10 + z);
        assert(x > 0);
        assert(n / 10 == x * 10 + y && n % 10 == z);
        assert((n / 10) / 10 == x && (n / 10) % 10 == y);
        assert(s == seq![s[0]].push(s[1]).push(s[2]));
    }
}

/// The address as four numbers with dots between them.
pub open spec fn numbers(ip: Ipv4) -> Seq<Seq<char>> {
    seq![dec(ip.a as nat), dec(ip.b as nat), dec(ip.c as nat), dec(ip.d as nat)]
}

proof fn lemma_ip_text(ip: Ipv4)
    ensures
        ip.text() == joined(numbers(ip), '.'),
{
    reveal_strlit(".");
    assert("."@ == seq!['.']);
    reveal_with_fuel(joined, 5);
    let p = numbers(ip);
    assert(p.drop_last() == seq![p[0], p[1], p[2]]);
    assert(p.drop_last().drop_last() == seq![p[0], p[1]]);
    assert(p.drop_last().drop_last().drop_last() == seq![p[0]]);
    assert(joined(seq![p[0]], '.') == p[0]);
    assert(joined(seq![p[0], p[1]], '.') == p[0] + "."@ + p[1]);
    assert(joined(seq![p[0], p[1], p[2]], '.') == p[0] + "."@ + p[1] + "."@ + p[2]);
    assert(joined(p, '.') == p[0] + "."@ + p[1] + "."@ + p[2] + "."@ + p[3]);
}

proof fn lemma_joined_four(p: Seq<Seq<char>>, s: Seq<char>)
    requires
        split(s, '.') == p,
    ensures
        joined(p, '.') == s,
{
    lemma_unsplit(s, '.');
}

/// What splitting takes apart can be put together again.
proof fn lemma_unsplit(s: Seq<char>, c: char)
    ensures
        joined(split(s, c), c) == s,
    decreases s.len(),
{
    lemma_find(s, c);
    let at = find(s, c) as int;
    if at < s.len() {
        let rest = s.skip(at + 1);
        lemma_unsplit(rest, c);
        crate::text::lemma_split_pieces(rest, c);
        lemma_joined_cons(s.take(at), split(rest, c), c);
        assert(s == s.take(at).push(c) + rest);
    } else {
        assert(split(s, c) == seq![s]);
    }
}

proof fn lemma_joined_cons(first: Seq<char>, rest: Seq<Seq<char>>, c: char)
    requires
        rest.len() > 0,
    ensures
        joined(seq![first] + rest, c) == first.push(c) + joined(rest, c),
    decreases rest.len(),
{
    let all = seq![first] + rest;
    assert(all.last() == rest.last());
    assert(all.drop_last() == seq![first] + rest.drop_last());
    if rest.len() == 1 {
        assert(all.drop_last() == seq![first]);
        assert(joined(seq![first], c) == first);
    } else {
        lemma_joined_cons(first, rest.drop_last(), c);
        assert((first.push(c) + joined(rest.drop_last(), c)).push(c) + rest.last() == first.push(c)
            + (joined(rest.drop_last(), c).push(c) + rest.last()));
    }
}

/// An address reads as itself when it is written out, and nothing else reads
/// as an address.
pub proof fn law_ip_addresses(ip: Ipv4, s: Seq<char>)
    ensures
        ip_of_text(ip.text()) == Some(ip),
        ip_of_text(s) is Some ==> s == ip_of_text(s)->0.text(),
{
    lemma_ip_text(ip);
    lemma_ip_number(ip.a);
    lemma_ip_number(ip.b);
    lemma_ip_number(ip.c);
    lemma_ip_number(ip.d);
    law_split(numbers(ip), '.');
    if ip_of_text(s) is Some {
        let p = split(s, '.');
        let found = ip_of_text(s)->0;
        lemma_number_ip(p[0]);
        lemma_number_ip(p[1]);
        lemma_number_ip(p[2]);
        lemma_number_ip(p[3]);
        lemma_ip_text(found);
        assert(p =~= numbers(found));
        lemma_joined_four(p, s);
    }
}

// ---------------------------------------------------------------------------
// Entries
// ---------------------------------------------------------------------------

/// Whether `line` gives `text` for `name`: with `=` between them, and white
/// space around them.
pub open spec fn says(line: Seq<char>, name: Seq<char>, text: Seq<char>) -> bool {
    exists|a: Seq<char>, b: Seq<char>|
        #[trigger] all_white(a) && #[trigger] all_white(b) && line == a + (name.push('=') + text)
            + b
}

/// Whether text can stand for a field's name.
pub open spec fn plain_name(name: Seq<char>) -> bool {
    name.len() > 0 && !name.contains('=') && !crate::text::is_white(name[0])
}

/// Whether text is kept as a field's contents: it doesn't end in white space.
pub open spec fn kept_text(text: Seq<char>) -> bool {
    text.len() > 0 ==> !crate::text::is_white(text.last())
}

/// A line that says a thing of a name gives it for that name, and nothing for
/// other names.
pub proof fn law_line(line: Seq<char>, name: Seq<char>, text: Seq<char>, other: Seq<char>)
    requires
        plain_name(name),
        kept_text(text),
        says(line, name, text),
    ensures
        line_value(line, name) == Some(text),
        other != name ==> line_value(line, other) is None,
{
    let (a, b) = choose|a: Seq<char>, b: Seq<char>|
        #[trigger] all_white(a) && #[trigger] all_white(b) && line == a + (name.push('=') + text)
            + b;
    let s = name.push('=') + text;
    assert(s[0] == name[0]);
    assert(s.last() == (if text.len() > 0 {
        text.last()
    } else {
        '='
    }));
    law_trim(a, s, b);
    assert forall|i: int| 0 <= i < name.len() implies s[i] != '=' by {
        assert(name.contains(name[i]));
    }
    lemma_find_at(s, '=', name.len() as int);
    assert(s.take(name.len() as int) == name);
    assert(s.skip(name.len() as int + 1) == text);
}

/// A line without `=` says nothing.
pub proof fn law_line_without_sign(line: Seq<char>, name: Seq<char>)
    requires
        !trim(line).contains('='),
    ensures
        line_value(line, name) is None,
{
    let t = trim(line);
    lemma_find(t, '=');
    if find(t, '=') < t.len() {
        assert(t.contains(t[find(t, '=') as int]));
    }
}

proof fn lemma_first_value(list: Seq<Seq<char>>, name: Seq<char>, i: int)
    requires
        0 <= i < list.len(),
        line_value(list[i], name) is Some,
        forall|j: int| 0 <= j < i ==> line_value(#[trigger] list[j], name) is None,
    ensures
        first_value(list, name) == line_value(list[i], name),
    decreases i,
{
    if i > 0 {
        assert(line_value(list[0], name) is None);
        let rest = list.skip(1);
        assert forall|j: int| 0 <= j < i - 1 implies line_value(#[trigger] rest[j], name) is None by {
            assert(rest[j] == list[j + 1]);
        }
        assert(rest[i - 1] == list[i]);
        lemma_first_value(rest, name, i - 1);
    }
}

/// Whether the first line of `entry` that says anything of `name` says `text`.
pub open spec fn entry_says(entry: Seq<char>, name: Seq<char>, text: Seq<char>) -> bool {
    exists|i: int|
        {
            &&& 0 <= i < lines(entry).len()
            &&& says(#[trigger] lines(entry)[i], name, text)
            &&& forall|j: int| 0 <= j < i ==> line_value(#[trigger] lines(entry)[j], name) is None
        }
}

/// An entry's field is what its first line for it says.
pub proof fn law_fields(entry: Seq<char>, name: Seq<char>, text: Seq<char>)
    requires
        plain_name(name),
        kept_text(text),
        entry_says(entry, name, text),
    ensures
        field_of(entry, name) == Some(text),
{
    let i = choose|i: int|
        {
            &&& 0 <= i < lines(entry).len()
            &&& says(#[trigger] lines(entry)[i], name, text)
            &&& forall|j: int| 0 <= j < i ==> line_value(#[trigger] lines(entry)[j], name) is None
        };
    law_line(lines(entry)[i], name, text, name);
    lemma_first_value(lines(entry), name, i);
}

proof fn lemma_no_value(list: Seq<Seq<char>>, name: Seq<char>)
    requires
        forall|j: int| 0 <= j < list.len() ==> line_value(#[trigger] list[j], name) is None,
    ensures
        first_value(list, name) is None,
    decreases list.len(),
{
    if list.len() > 0 {
        assert(line_value(list[0], name) is None);
        let rest = list.skip(1);
        assert forall|j: int| 0 <= j < rest.len() implies line_value(
            #[trigger] rest[j],
            name,
        ) is None by {
            assert(rest[j] == list[j + 1]);
        }
        lemma_no_value(rest, name);
    }
}

proof fn lemma_names()
    ensures
        plain_name("lease"@),
        plain_name("hw_address"@),
        plain_name("ip_address"@),
{
    reveal_strlit("lease");
    reveal_strlit("hw_address");
    reveal_strlit("ip_address");
    assert("lease"@ =~= seq!['l', 'e', 'a', 's', 'e']);
    assert("hw_address"@ =~= seq!['h', 'w', '_', 'a', 'd', 'd', 'r', 'e', 's', 's']);
    assert("ip_address"@ =~= seq!['i', 'p', '_', 'a', 'd', 'd', 'r', 'e', 's', 's']);
}

/// A lease that is written in hex, with `0x` before it or without, expires at
/// the time that it writes; without a lease, an entry expires at time zero.
pub proof fn law_expiry(entry: Seq<char>, digits: Seq<char>)
    requires
        digits.len() > 0,
        all_digits(digits, 16),
        value(digits, 16) <= u64::MAX,
    ensures
        entry_says(entry, "lease"@, seq!['0', 'x'] + digits) ==> expiry_of(entry) == value(
            digits,
            16,
        ),
        entry_says(entry, "lease"@, digits) ==> expiry_of(entry) == value(digits, 16),
        (forall|j: int|
            0 <= j < lines(entry).len() ==> line_value(#[trigger] lines(entry)[j], "lease"@)
                is None) ==> expiry_of(entry) == 0,
{
    lemma_names();
    assert(digit(digits[0]) is Some);
    assert(digit(digits[digits.len() - 1]) is Some);
    let text = seq!['0', 'x'] + digits;
    assert(text.last() == digits.last());
    assert(text.skip(2) == digits);
    if digits.len() > 1 {
        assert(digit(digits[1]) is Some);
    }
    assert(strip_hex(digits) == digits);
    assert(strip_hex(text) == digits);
    assert(strip_plus(digits) == digits);
    if entry_says(entry, "lease"@, text) {
        law_fields(entry, "lease"@, text);
    }
    if entry_says(entry, "lease"@, digits) {
        law_fields(entry, "lease"@, digits);
    }
    if forall|j: int|
        0 <= j < lines(entry).len() ==> line_value(#[trigger] lines(entry)[j], "lease"@) is None {
        lemma_no_value(lines(entry), "lease"@);
    }
}

/// An entry that says `1,` and a MAC address, and an IP address, leases the
/// one to the other, and to no other MAC address.
pub proof fn law_leases(entry: Seq<char>, hw: Seq<char>, mac: Mac, ip: Ipv4, other: Mac)
    requires
        kept_text(hw),
        hw.len() > 0,
        mac_of_text(hw) == Some(mac),
        entry_says(entry, "hw_address"@, seq!['1', ','] + hw),
        entry_says(entry, "ip_address"@, ip.text()),
    ensures
        leased(entry, mac) == Some(ip),
        other != mac ==> leased(entry, other) is None,
{
    lemma_names();
    reveal_strlit("1,");
    assert("1,"@ == seq!['1', ',']);
    let text = seq!['1', ','] + hw;
    assert(text.last() == hw.last());
    assert(text.take(2) == seq!['1', ',']);
    assert(text.skip(2) == hw);
    law_fields(entry, "hw_address"@, text);
    lemma_dec_value(ip.d as nat);
    let d = dec(ip.d as nat);
    assert('0' <= d[d.len() - 1] <= '9');
    assert(ip.text().last() == d.last());
    law_fields(entry, "ip_address"@, ip.text());
    law_ip_addresses(ip, ip.text());
}

/// Of all entries between braces, the one for the MAC address that expires
/// last gives the VM's address: an entry that expires later than all others
/// for it is the one that is found.
pub proof fn law_last_to_expire_is_found(
    mac: Seq<char>,
    entries: Seq<Seq<char>>,
    j: int,
)
    requires
        mac_of_text(mac) is Some,
        0 <= j < entries.len(),
        forall|i: int| 0 <= i < entries.len() ==> !(#[trigger] entries[i]).contains('}'),
        leased(entries[j], mac_of_text(mac)->0) is Some,
        forall|i: int|
            0 <= i < entries.len() && i != j && leased(#[trigger] entries[i], mac_of_text(mac)->0)
                is Some ==> expiry_of(entries[i]) < expiry_of(entries[j]),
    ensures
        lease_in(joined(entries, '}'), mac) == leased(entries[j], mac_of_text(mac)->0),
{
    let text = joined(entries, '}');
    let wanted = mac_of_text(mac)->0;
    law_split(entries, '}');
    law_newest_lease(text, mac);
    if lease_in(text, mac) is None {
        assert(leased(entries[j], wanted) is None);
    } else {
        let i = choose|i: int|
            {
                &&& 0 <= i < entries.len()
                &&& leased(#[trigger] entries[i], wanted) == lease_in(text, mac)
                &&& forall|k: int|
                    0 <= k < entries.len() && leased(#[trigger] entries[k], wanted) is Some
                        ==> expiry_of(entries[k]) <= expiry_of(entries[i]) && (k > i ==> expiry_of(
                        entries[k],
                    ) < expiry_of(entries[i]))
            };
        assert(expiry_of(entries[j]) <= expiry_of(entries[i]));
    }
}

/// Of two entries for one MAC address whose leases are written in hex, the
/// address of the one that is written with the smaller number is not found,
/// unless another entry leases it too.
pub proof fn law_earlier_lease_is_not_found(
    mac: Seq<char>,
    entries: Seq<Seq<char>>,
    i: int,
    j: int,
    first: Seq<char>,
    second: Seq<char>,
)
    requires
        mac_of_text(mac) is Some,
        0 <= i < entries.len(),
        0 <= j < entries.len(),
        forall|k: int| 0 <= k < entries.len() ==> !(#[trigger] entries[k]).contains('}'),
        leased(entries[i], mac_of_text(mac)->0) is Some,
        leased(entries[j], mac_of_text(mac)->0) is Some,
        first.len() > 0 && all_digits(first, 16),
        second.len() > 0 && all_digits(second, 16),
        value(first, 16) < value(second, 16) <= u64::MAX,
        entry_says(entries[i], "lease"@, seq!['0', 'x'] + first),
        entry_says(entries[j], "lease"@, seq!['0', 'x'] + second),
        forall|k: int|
            0 <= k < entries.len() && k != i ==> leased(#[trigger] entries[k], mac_of_text(mac)->0)
                != leased(entries[i], mac_of_text(mac)->0),
    ensures
        lease_in(joined(entries, '}'), mac) is Some,
        lease_in(joined(entries, '}'), mac) != leased(entries[i], mac_of_text(mac)->0),
{
    let text = joined(entries, '}');
    let wanted = mac_of_text(mac)->0;
    law_expiry(entries[i], first);
    law_expiry(entries[j], second);
    law_split(entries, '}');
    law_newest_lease(text, mac);
    if lease_in(text, mac) is None {
        assert(leased(entries[j], wanted) is None);
    } else {
        let k = choose|k: int|
            {
                &&& 0 <= k < entries.len()
                &&& leased(#[trigger] entries[k], wanted) == lease_in(text, mac)
                &&& forall|m: int|
                    0 <= m < entries.len() && leased(#[trigger] entries[m], wanted) is Some
                        ==> expiry_of(entries[m]) <= expiry_of(entries[k]) && (m > k ==> expiry_of(
                        entries[m],
                    ) < expiry_of(entries[k]))
            };
        assert(expiry_of(entries[j]) <= expiry_of(entries[k]));
    }
}

/// `s` behind `n` times `0x`.
pub open spec fn behind_hex(s: Seq<char>, n: nat) -> Seq<char>
    decreases n,
{
    if n == 0 {
        s
    } else {
        seq!['0', 'x'] + behind_hex(s, (n - 1) as nat)
    }
}

proof fn lemma_behind_hex(s: Seq<char>, n: nat)
    ensures
        strip_hex(behind_hex(s, n)) == strip_hex(s),
        s.len() > 0 ==> behind_hex(s, n).len() > 0 && behind_hex(s, n).last() == s.last(),
    decreases n,
{
    if n > 0 {
        lemma_behind_hex(s, (n - 1) as nat);
        assert(behind_hex(s, n).skip(2) == behind_hex(s, (n - 1) as nat));
    }
}

/// However often `0x` stands before the digits of a lease, and with a plus
/// sign before them too, the lease expires at the time that they write; digits
/// that write too large a number, and anything else, count as time zero.
pub proof fn law_expiry_forms(entry: Seq<char>, digits: Seq<char>, n: nat)
    requires
        digits.len() > 0,
        all_digits(digits, 16),
    ensures
        entry_says(entry, "lease"@, behind_hex(digits, n)) || entry_says(
            entry,
            "lease"@,
            behind_hex(seq!['+'] + digits, n),
        ) ==> expiry_of(entry) == (if value(digits, 16) <= u64::MAX {
            value(digits, 16)
        } else {
            0
        }),
{
    lemma_names();
    let plus = seq!['+'] + digits;
    assert(digit(digits[0]) is Some);
    assert(digit(digits[digits.len() - 1]) is Some);
    if digits.len() > 1 {
        assert(digit(digits[1]) is Some);
    }
    assert(strip_hex(digits) == digits);
    assert(strip_hex(plus) == plus);
    assert(plus.skip(1) == digits);
    assert(plus.last() == digits.last());
    lemma_behind_hex(digits, n);
    lemma_behind_hex(plus, n);
    if entry_says(entry, "lease"@, behind_hex(digits, n)) {
        law_fields(entry, "lease"@, behind_hex(digits, n));
    }
    if entry_says(entry, "lease"@, behind_hex(plus, n)) {
        law_fields(entry, "lease"@, behind_hex(plus, n));
    }
}

/// An octet may have a plus sign before it, which changes nothing, and leading
/// zeros, which change nothing either.
pub proof fn law_octets(s: Seq<char>)
    requires
        writes_octet(s),
    ensures
        octet(s) == Some(value(s, 16) as u8),
        octet(seq!['+'] + s) == octet(s),
        octet(seq!['0'] + s) == octet(s),
{
    lemma_octet(s);
    assert((seq!['+'] + s).skip(1) == s);
    assert(digit(s[0]) is Some);
    let z = seq!['0'] + s;
    crate::text_laws::law_places(seq!['0'], s, '0', 16);
    assert(0 * vstd::arithmetic::power::pow(16, s.len()) == 0);
    assert forall|i: int| 0 <= i < z.len() implies digit(#[trigger] z[i]) is Some && digit(z[i])->0
        < 16 by {
        if i > 0 {
            assert(z[i] == s[i - 1]);
        }
    }
}

/// The hardware address of an entry without one, or of another type than `1`,
/// is no MAC address, and such an entry leases nothing.
pub proof fn law_other_hardware(entry: Seq<char>, text: Seq<char>, mac: Mac)
    requires
        kept_text(text),
        !(text.len() >= 2 && text[0] == '1' && text[1] == ','),
    ensures
        entry_says(entry, "hw_address"@, text) ==> hardware_of(entry) is None && leased(entry, mac)
            is None,
        (forall|j: int|
            0 <= j < lines(entry).len() ==> line_value(#[trigger] lines(entry)[j], "hw_address"@)
                is None) ==> leased(entry, mac) is None,
{
    lemma_names();
    reveal_strlit("1,");
    if entry_says(entry, "hw_address"@, text) {
        law_fields(entry, "hw_address"@, text);
        if crate::text::starts_with(text, "1,"@) {
            assert(text.take(2)[0] == "1,"@[0]);
            assert(text.take(2)[1] == "1,"@[1]);
        }
    }
    if forall|j: int|
        0 <= j < lines(entry).len() ==> line_value(#[trigger] lines(entry)[j], "hw_address"@)
            is None {
        lemma_no_value(lines(entry), "hw_address"@);
    }
}

} // verus!
