//! Numbers in text: decimal rendering, digits in a radix, and padding.
use vstd::prelude::*;
use vstd::string::*;

use crate::text::chars_of;

verus! {

// ---------------------------------------------------------------------------
// Digits
// ---------------------------------------------------------------------------

/// The value of a digit, letters counting from ten; none for characters that
/// are no digit in any radix up to sixteen.
pub open spec fn digit(c: char) -> Option<nat> {
    if '0' <= c <= '9' {
        Some((c as int - '0' as int) as nat)
    } else if 'a' <= c <= 'f' {
        Some((c as int - 'a' as int + 10) as nat)
    } else if 'A' <= c <= 'F' {
        Some((c as int - 'A' as int + 10) as nat)
    } else {
        None
    }
}

/// Whether every character of `s` is a digit in `radix`.
pub open spec fn all_digits(s: Seq<char>, radix: nat) -> bool {
    forall|i: int| 0 <= i < s.len() ==> digit(#[trigger] s[i]) is Some && digit(s[i])->0 < radix
}

/// The number that the digits `s` write in `radix`.
pub open spec fn value(s: Seq<char>, radix: nat) -> nat
    decreases s.len(),
{
    if s.len() == 0 {
        0
    } else {
        value(s.drop_last(), radix) * radix + digit(s.last())->0
    }
}

/// The number that `s` writes in `radix`: at least one digit, nothing else,
/// and no more than `max`.
pub open spec fn number(s: Seq<char>, radix: nat, max: nat) -> Option<nat> {
    if s.len() > 0 && all_digits(s, radix) && value(s, radix) <= max {
        Some(value(s, radix))
    } else {
        None
    }
}

/// `s` without a plus sign in front.
pub open spec fn strip_plus(s: Seq<char>) -> Seq<char> {
    if s.len() > 0 && s[0] == '+' {
        s.skip(1)
    } else {
        s
    }
}

proof fn lemma_value_grows(s: Seq<char>, radix: nat, n: int)
    requires
        0 <= n <= s.len(),
        radix >= 1,
    ensures
        value(s.take(n), radix) <= value(s, radix),
    decreases s.len(),
{
    if n == s.len() {
        assert(s.take(n) == s);
    } else {
        lemma_value_grows(s.drop_last(), radix, n);
        assert(s.drop_last().take(n) == s.take(n));
        let v = value(s.drop_last(), radix);
        assert(v <= v * radix) by (nonlinear_arith)
            requires
                radix >= 1,
                v >= 0,
        ;
    }
}

/// Value of one digit below `radix`.
fn digit_of(c: char, radix: u64) -> (d: Option<u64>)
    requires
        radix <= 16,
    ensures
        d == (if digit(c) is Some && digit(c)->0 < radix {
            Some(digit(c)->0 as u64)
        } else {
            None
        }),
{
    let v: u64 = if '0' <= c && c <= '9' {
        c as u64 - '0' as u64
    } else if 'a' <= c && c <= 'f' {
        c as u64 - 'a' as u64 + 10
    } else if 'A' <= c && c <= 'F' {
        c as u64 - 'A' as u64 + 10
    } else {
        return None;
    };
    if v < radix {
        Some(v)
    } else {
        None
    }
}

/// Reads `s` as digits in `radix`.
pub fn parse_digits(s: &[char], radix: u64, max: u64) -> (n: Option<u64>)
    requires
        2 <= radix <= 16,
    ensures
        n is Some == number(s@, radix as nat, max as nat) is Some,
        n is Some ==> n->0 == number(s@, radix as nat, max as nat)->0,
{
    if s.len() == 0 {
        return None;
    }
    let mut n: u64 = 0;
    let mut i: usize = 0;
    while i < s.len()
        invariant
            2 <= radix <= 16,
            i <= s@.len(),
            n <= max,
            all_digits(s@.take(i as int), radix as nat),
            n == value(s@.take(i as int), radix as nat),
        decreases s.len() - i,
    {
        let ghost head = s@.take(i + 1);
        assert(head.drop_last() == s@.take(i as int));
        match digit_of(s[i], radix) {
            None => {
                assert(!all_digits(s@, radix as nat)) by {
                    assert(s@[i as int] == head.last());
                }
                return None;
            },
            Some(d) => {
                proof {
                    lemma_value_grows(s@, radix as nat, i + 1);
                    assert(value(head, radix as nat) == n * radix + d);
                }
                match n.checked_mul(radix) {
                    None => {
                        return None;
                    },
                    Some(m) => match m.checked_add(d) {
                        None => {
                            return None;
                        },
                        Some(next) => {
                            if next > max {
                                return None;
                            }
                            n = next;
                        },
                    },
                }
                assert(all_digits(head, radix as nat)) by {
                    assert forall|j: int| 0 <= j < head.len() implies digit(#[trigger] head[j]) is Some
                        && digit(head[j])->0 < radix by {
                        if j < i {
                            assert(head[j] == s@.take(i as int)[j]);
                        }
                    }
                }
            },
        }
        i += 1;
    }
    assert(s@.take(s@.len() as int) == s@);
    Some(n)
}

/// Reads `s` as digits in `radix`, a plus sign allowed in front of them.
pub fn parse_radix(s: &[char], radix: u64, max: u64) -> (n: Option<u64>)
    requires
        2 <= radix <= 16,
    ensures
        n is Some == number(strip_plus(s@), radix as nat, max as nat) is Some,
        n is Some ==> n->0 == number(strip_plus(s@), radix as nat, max as nat)->0,
{
    if s.len() > 0 && s[0] == '+' {
        let rest = crate::text::sub_text(s, 1, s.len());
        assert(rest@ == s@.skip(1));
        parse_digits(rest.as_slice(), radix, max)
    } else {
        parse_digits(s, radix, max)
    }
}

// ---------------------------------------------------------------------------
// Rendering
// ---------------------------------------------------------------------------

/// The decimal digit for `d`.
pub open spec fn digit_char(d: nat) -> char {
    ('0' as u8 + d) as u8 as char
}

/// `n` in decimal, without leading zeros.
pub open spec fn dec(n: nat) -> Seq<char>
    decreases n,
{
    if n < 10 {
        seq![digit_char(n)]
    } else {
        dec(n / 10).push(digit_char(n % 10))
    }
}

/// Renders `n` in decimal.
pub fn decimal(n: u64) -> (s: String)
    ensures
        s@ == dec(n as nat),
    decreases n,
{
    if n < 10 {
        let mut s = String::new();
        s.push((48 + n as u8) as char);
        s
    } else {
        let mut s = decimal(n / 10);
        s.push((48 + (n % 10) as u8) as char);
        s
    }
}

/// A rendered number consists of digits and reads back as itself.
pub proof fn lemma_dec_value(n: nat)
    ensures
        dec(n).len() > 0,
        all_digits(dec(n), 10),
        value(dec(n), 10) == n,
        forall|i: int| 0 <= i < dec(n).len() ==> '0' <= #[trigger] dec(n)[i] <= '9',
    decreases n,
{
    if n < 10 {
        assert(dec(n).drop_last().len() == 0);
        assert(value(dec(n).drop_last(), 10) == 0);
    } else {
        lemma_dec_value(n / 10);
        assert(dec(n).drop_last() == dec(n / 10));
        assert forall|i: int| 0 <= i < dec(n).len() implies '0' <= #[trigger] dec(n)[i] <= '9' by {
            if i < dec(n / 10).len() {
                assert(dec(n)[i] == dec(n / 10)[i]);
            }
        }
    }
}

/// `n` copies of `c`.
pub open spec fn repeat(c: char, n: nat) -> Seq<char> {
    Seq::new(n, |i: int| c)
}

/// `n` blanks, or none if `n` is negative.
pub open spec fn blanks(n: int) -> Seq<char> {
    repeat(' ', if n < 0 { 0 } else { n as nat })
}

/// `s` with blanks behind it up to `width` characters.
pub open spec fn pad_right(s: Seq<char>, width: nat) -> Seq<char> {
    s + blanks(width - s.len())
}

/// `s` with blanks before it up to `width` characters.
pub open spec fn pad_left(s: Seq<char>, width: nat) -> Seq<char> {
    blanks(width - s.len()) + s
}

/// `n` with zeros before it up to `width` digits.
pub open spec fn dec_padded(n: nat, width: nat) -> Seq<char> {
    repeat('0', if width <= dec(n).len() { 0 } else { (width - dec(n).len()) as nat }) + dec(n)
}

/// As many `c` as a text of `len` characters lacks to `width`.
fn fill(c: char, len: usize, width: usize) -> (s: String)
    ensures
        s@ == repeat(c, if width <= len { 0 } else { (width - len) as nat }),
{
    let mut s = String::new();
    let mut i: usize = len;
    while i < width
        invariant
            len <= i,
            i <= width || i == len,
            s@ == repeat(c, (i - len) as nat),
        decreases width - i,
    {
        s.push(c);
        i += 1;
    }
    s
}

/// Pads `s` with blanks behind it.
pub fn padded_right(s: &str, width: usize) -> (r: String)
    ensures
        r@ == pad_right(s@, width as nat),
{
    let mut r = s.to_owned();
    r.append(fill(' ', chars_of(s).len(), width).as_str());
    r
}

/// Pads `s` with blanks before it.
pub fn padded_left(s: &str, width: usize) -> (r: String)
    ensures
        r@ == pad_left(s@, width as nat),
{
    let mut r = fill(' ', chars_of(s).len(), width);
    r.append(s);
    r
}

/// Renders `n` in decimal, padded with zeros.
pub fn decimal_padded(n: u64, width: usize) -> (r: String)
    ensures
        r@ == dec_padded(n as nat, width as nat),
{
    let d = decimal(n);
    let mut r = fill('0', chars_of(d.as_str()).len(), width);
    r.append(d.as_str());
    r
}

} // verus!
