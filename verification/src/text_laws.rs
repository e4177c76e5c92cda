//! What splitting, trimming and reading text comes to.
use vstd::arithmetic::power::{lemma_pow1, lemma_pow_adds, pow};
use vstd::prelude::*;
use vstd::string::*;
use vstd::utf8::*;

use crate::foreign::{lossy_text, lower_hex, text_of};
use crate::number::{
    dec, dec_padded, digit, lemma_dec_value, number, pad_left, pad_right, strip_plus, value,
};
use crate::order::bytes_less;
use crate::text::{
    ends_with, has_control, is_control, is_white, lemma_find_at, lemma_split_joined,
    lemma_split_single, lemma_trim_fixed, lines, split, starts_with, strip_return, trim, trim_end,
    trim_start, upper, upper_text,
};

verus! {

// ---------------------------------------------------------------------------
// Character classes
// ---------------------------------------------------------------------------

/// The code points of white space.
pub open spec fn white_codes() -> Seq<int> {
    seq![
        0x9int,
        0xa,
        0xb,
        0xc,
        0xd,
        0x20,
        0x85,
        0xa0,
        0x1680,
        0x2000,
        0x2001,
        0x2002,
        0x2003,
        0x2004,
        0x2005,
        0x2006,
        0x2007,
        0x2008,
        0x2009,
        0x200a,
        0x2028,
        0x2029,
        0x202f,
        0x205f,
        0x3000,
    ]
}

/// White space is what Unicode says it is.
pub proof fn law_white_space(c: char)
    ensures
        is_white(c) <==> white_codes().contains(c as int),
{
    let w = white_codes();
    assert(w[0] == 0x9 && w[1] == 0xa && w[2] == 0xb && w[3] == 0xc && w[4] == 0xd && w[5] == 0x20
        && w[6] == 0x85 && w[7] == 0xa0 && w[8] == 0x1680);
    assert(w[9] == 0x2000 && w[10] == 0x2001 && w[11] == 0x2002 && w[12] == 0x2003 && w[13]
        == 0x2004 && w[14] == 0x2005 && w[15] == 0x2006 && w[16] == 0x2007 && w[17] == 0x2008
        && w[18] == 0x2009 && w[19] == 0x200a);
    assert(w[20] == 0x2028 && w[21] == 0x2029 && w[22] == 0x202f && w[23] == 0x205f && w[24]
        == 0x3000);
}

/// Control characters are the first 32 and those from 127 to 159, and a text
/// has one wherever it stands.
pub proof fn law_control_characters(before: Seq<char>, c: char, behind: Seq<char>)
    ensures
        is_control(c) <==> (c as int) < 32 || 127 <= c as int <= 159,
        is_control(c) ==> has_control(before.push(c) + behind),
        has_control(before.push(c) + behind) ==> is_control(c) || has_control(before)
            || has_control(behind),
        !has_control(Seq::<char>::empty()),
{
    let s = before.push(c) + behind;
    assert(s[before.len() as int] == c);
    if has_control(s) {
        let i = choose|i: int| 0 <= i < s.len() && is_control(#[trigger] s[i]);
        if i < before.len() {
            assert(is_control(before[i]));
        } else if i > before.len() {
            assert(is_control(behind[i - before.len() - 1]));
        }
    }
}

/// The letters from `a` to `z` become those from `A` to `Z`, one by one, and
/// everything else stays.
pub proof fn law_capitals(text: Seq<char>, i: int)
    requires
        0 <= i < text.len(),
    ensures
        upper_text(text).len() == text.len(),
        'a' as int <= text[i] as int <= 'z' as int ==> upper_text(text)[i] as int - 'A' as int
            == text[i] as int - 'a' as int,
        !('a' as int <= text[i] as int <= 'z' as int) ==> upper_text(text)[i] == text[i],
{
    let c = text[i];
    if 'a' <= c <= 'z' {
        assert((c as u8) as int == c as int);
    }
}

// ---------------------------------------------------------------------------
// Trimming
// ---------------------------------------------------------------------------

/// Whether `s` is all white space.
pub open spec fn all_white(s: Seq<char>) -> bool {
    forall|i: int| 0 <= i < s.len() ==> is_white(#[trigger] s[i])
}

/// Whether `s` has no white space at its ends.
pub open spec fn snug(s: Seq<char>) -> bool {
    s.len() > 0 ==> !is_white(s[0]) && !is_white(s.last())
}

proof fn lemma_trim_start(a: Seq<char>, s: Seq<char>)
    requires
        all_white(a),
    ensures
        trim_start(a + s) == trim_start(s),
    decreases a.len(),
{
    if a.len() > 0 {
        assert(is_white(a[0]));
        assert((a + s)[0] == a[0]);
        assert((a + s).skip(1) == a.skip(1) + s);
        assert forall|i: int| 0 <= i < a.skip(1).len() implies is_white(
            #[trigger] a.skip(1)[i],
        ) by {
            assert(a.skip(1)[i] == a[i + 1]);
        }
        lemma_trim_start(a.skip(1), s);
    } else {
        assert(a + s == s);
    }
}

proof fn lemma_trim_end(s: Seq<char>, b: Seq<char>)
    requires
        all_white(b),
    ensures
        trim_end(s + b) == trim_end(s),
    decreases b.len(),
{
    if b.len() > 0 {
        assert(is_white(b[b.len() - 1]));
        assert((s + b).last() == b.last());
        assert((s + b).drop_last() == s + b.drop_last());
        assert forall|i: int| 0 <= i < b.drop_last().len() implies is_white(
            #[trigger] b.drop_last()[i],
        ) by {
            assert(b.drop_last()[i] == b[i]);
        }
        lemma_trim_end(s, b.drop_last());
    } else {
        assert(s + b == s);
    }
}

/// Trimming takes away the white space around a text, and nothing else.
pub proof fn law_trim(a: Seq<char>, s: Seq<char>, b: Seq<char>)
    requires
        all_white(a),
        snug(s),
        all_white(b),
    ensures
        trim(a + s + b) == s,
{
    assert(a + s + b == a + (s + b));
    lemma_trim_start(a, s + b);
    if s.len() > 0 {
        assert((s + b)[0] == s[0]);
        lemma_trim_end(s, b);
    } else {
        assert(s + b == b + s);
        lemma_trim_start(b, s);
        assert(trim_start(s) == s);
    }
    lemma_trim_fixed(s);
}

/// What trimming leaves is snug.
pub proof fn law_trimmed_is_snug(s: Seq<char>)
    ensures
        snug(trim(s)),
        trim(trim(s)) == trim(s),
{
    lemma_start_snug(s);
    lemma_end_snug(trim_start(s));
    lemma_trim_fixed(trim(s));
}

proof fn lemma_start_snug(s: Seq<char>)
    ensures
        trim_start(s).len() > 0 ==> !is_white(trim_start(s)[0]),
    decreases s.len(),
{
    if s.len() > 0 && is_white(s[0]) {
        lemma_start_snug(s.skip(1));
    }
}

proof fn lemma_end_snug(s: Seq<char>)
    requires
        s.len() > 0 ==> !is_white(s[0]),
    ensures
        snug(trim_end(s)),
    decreases s.len(),
{
    if s.len() > 0 && is_white(s.last()) {
        lemma_end_snug(s.drop_last());
    }
}

// ---------------------------------------------------------------------------
// Splitting
// ---------------------------------------------------------------------------

/// The parts with `c` between them.
pub open spec fn joined<T>(parts: Seq<Seq<T>>, c: T) -> Seq<T>
    decreases parts.len(),
{
    if parts.len() == 0 {
        Seq::empty()
    } else if parts.len() == 1 {
        parts[0]
    } else {
        joined(parts.drop_last(), c).push(c) + parts.last()
    }
}

/// Splitting gives back the parts that were put together with a separator
/// between them.
pub proof fn law_split<T>(parts: Seq<Seq<T>>, c: T)
    requires
        parts.len() > 0,
        forall|i: int| 0 <= i < parts.len() ==> !(#[trigger] parts[i]).contains(c),
    ensures
        split(joined(parts, c), c) == parts,
    decreases parts.len(),
{
    if parts.len() == 1 {
        lemma_split_single(parts[0], c);
        assert(seq![parts[0]] == parts);
    } else {
        let init = parts.drop_last();
        assert forall|i: int| 0 <= i < init.len() implies !(#[trigger] init[i]).contains(c) by {
            assert(init[i] == parts[i]);
        }
        law_split(init, c);
        assert(!parts[parts.len() - 1].contains(c));
        lemma_split_single(parts.last(), c);
        lemma_split_joined(joined(init, c), c, parts.last());
        assert(init + seq![parts.last()] == parts);
    }
}

/// A text's first line ends at the first line feed; a carriage return before
/// that is part of the end. What follows is the other lines. The last line
/// needs no end, and there is none in an empty text.
pub proof fn law_lines(line: Seq<char>, rest: Seq<char>)
    requires
        !line.contains('\n'),
    ensures
        lines(line + seq!['\r', '\n'] + rest) == seq![line] + lines(rest),
        line.len() == 0 || line.last() != '\r' ==> lines(line + seq!['\n'] + rest) == seq![line]
            + lines(rest),
        line.len() > 0 ==> lines(line) == seq![line],
        lines(Seq::empty()) == Seq::<Seq<char>>::empty(),
{
    assert forall|i: int| 0 <= i < line.len() implies line[i] != '\n' by {
        assert(line.contains(line[i]));
    }
    let n = line.len() as int;
    let a = line + seq!['\r', '\n'] + rest;
    lemma_find_at(a, '\n', n + 1);
    assert(a.take(n + 1) == line.push('\r'));
    assert(strip_return(line.push('\r')) == line);
    assert(a.skip(n + 2) == rest);
    let b = line + seq!['\n'] + rest;
    lemma_find_at(b, '\n', n);
    assert(b.take(n) == line);
    assert(b.skip(n + 1) == rest);
    lemma_find_at(line, '\n', n);
}

/// A text starts with what stands at its start and ends with what stands at
/// its end.
pub proof fn law_leads_and_tails<T>(lead: Seq<T>, rest: Seq<T>, s: Seq<T>)
    ensures
        starts_with(lead + rest, lead),
        starts_with(s, lead) ==> s == lead + s.skip(lead.len() as int),
        ends_with(rest + lead, lead),
        ends_with(s, lead) ==> s == s.take(s.len() - lead.len()) + lead,
{
    assert((lead + rest).take(lead.len() as int) == lead);
    assert((rest + lead).skip(rest.len() as int) == lead);
    if starts_with(s, lead) {
        assert(s == s.take(lead.len() as int) + s.skip(lead.len() as int));
    }
    if ends_with(s, lead) {
        assert(s == s.take(s.len() - lead.len()) + s.skip(s.len() - lead.len()));
    }
}

// ---------------------------------------------------------------------------
// Numbers
// ---------------------------------------------------------------------------

/// The digits in order.
pub open spec fn digit_row() -> Seq<char> {
    seq!['0', '1', '2', '3', '4', '5', '6', '7', '8', '9', 'a', 'b', 'c', 'd', 'e', 'f']
}

/// A digit's value is its place in the row of digits; letters may be capital.
pub proof fn law_digits(c: char)
    ensures
        forall|i: int| 0 <= i < 16 ==> digit(#[trigger] digit_row()[i]) == Some(i as nat),
        forall|i: int| 0 <= i < 16 ==> digit(upper(#[trigger] digit_row()[i])) == Some(i as nat),
        digit(c) is Some ==> digit(c)->0 < 16 && (c == digit_row()[digit(c)->0 as int] || c
            == upper(digit_row()[digit(c)->0 as int])),
{
    let r = digit_row();
    assert(r[0] == '0' && r[1] == '1' && r[2] == '2' && r[3] == '3' && r[4] == '4' && r[5] == '5'
        && r[6] == '6' && r[7] == '7' && r[8] == '8' && r[9] == '9' && r[10] == 'a' && r[11] == 'b'
        && r[12] == 'c' && r[13] == 'd' && r[14] == 'e' && r[15] == 'f');
    assert forall|i: int| 0 <= i < 16 implies digit(#[trigger] r[i]) == Some(i as nat) && digit(
        upper(r[i]),
    ) == Some(i as nat) by {
        if i >= 10 {
            assert((r[i] as u8) as int == r[i] as int);
            assert(r[i] as int == 87 + i);
            assert(upper(r[i]) as int == 55 + i);
        } else {
            assert(r[i] as int == 48 + i);
        }
    }
    if digit(c) is Some {
        let d = digit(c)->0 as int;
        if 'A' <= c <= 'F' {
            assert(upper(r[d]) as int == 55 + d);
        }
    }
}

/// A digit counts the more the further left it stands: what two rows of digits
/// write together is what the first writes, moved to the left by as many
/// places as the second has, and what the second writes.
pub proof fn law_places(a: Seq<char>, b: Seq<char>, c: char, radix: nat)
    requires
        radix >= 2,
    ensures
        value(a + b, radix) == value(a, radix) * pow(radix as int, b.len()) + value(b, radix),
        value(seq![c], radix) == digit(c)->0,
        value(Seq::empty(), radix) == 0,
    decreases b.len(),
{
    assert(seq![c].drop_last() == Seq::<char>::empty());
    assert(value(Seq::<char>::empty(), radix) == 0);
    assert(0 * radix == 0);
    if b.len() == 0 {
        assert(a + b == a);
        vstd::arithmetic::power::lemma_pow0(radix as int);
    } else {
        law_places(a, b.drop_last(), c, radix);
        assert((a + b).drop_last() == a + b.drop_last());
        assert((a + b).last() == b.last());
        let k = (b.len() - 1) as nat;
        lemma_pow_adds(radix as int, k, 1);
        lemma_pow1(radix as int);
        let x = value(a, radix) as int;
        let p = pow(radix as int, k);
        let y = value(b.drop_last(), radix) as int;
        let r = radix as int;
        assert((x * p + y) * r == x * (p * r) + y * r) by (nonlinear_arith);
    }
}

/// A number is read if and only if there is at least one digit and nothing
/// else, and it is no more than the limit; a plus sign may be stripped first.
pub proof fn law_numbers(s: Seq<char>, radix: nat, max: nat)
    ensures
        number(s, radix, max) is Some <==> s.len() > 0 && (forall|i: int|
            0 <= i < s.len() ==> digit(#[trigger] s[i]) is Some && digit(s[i])->0 < radix)
            && value(s, radix) <= max,
        number(s, radix, max) is Some ==> number(s, radix, max)->0 == value(s, radix),
        strip_plus(seq!['+'] + s) == s,
        s.len() == 0 || s[0] != '+' ==> strip_plus(s) == s,
{
    assert((seq!['+'] + s).skip(1) == s);
}

proof fn lemma_dec_lead(n: nat)
    ensures
        dec(n).len() > 0,
        n > 0 ==> dec(n)[0] != '0',
        n < 10 ==> dec(n).len() == 1,
    decreases n,
{
    if n >= 10 {
        lemma_dec_lead(n / 10);
        assert(dec(n)[0] == dec(n / 10)[0]);
    }
}

/// A number is written with decimal digits alone, without needless zeros, and
/// reads back as itself.
pub proof fn law_decimals(n: nat, max: nat)
    requires
        n <= max,
    ensures
        number(dec(n), 10, max) == Some(n),
        dec(n).len() > 1 ==> dec(n)[0] != '0',
        forall|i: int| 0 <= i < dec(n).len() ==> '0' <= #[trigger] dec(n)[i] <= '9',
{
    lemma_dec_value(n);
    lemma_dec_lead(n);
}

/// Padding fills a text up to a width, on one side, and keeps the text.
pub proof fn law_padding(s: Seq<char>, width: nat, n: nat)
    ensures
        pad_right(s, width).len() == (if width > s.len() { width } else { s.len() }),
        pad_right(s, width).take(s.len() as int) == s,
        forall|i: int|
            s.len() <= i < pad_right(s, width).len() ==> #[trigger] pad_right(s, width)[i] == ' ',
        pad_left(s, width).len() == (if width > s.len() { width } else { s.len() }),
        pad_left(s, width).skip(pad_left(s, width).len() - s.len()) == s,
        forall|i: int|
            0 <= i < pad_left(s, width).len() - s.len() ==> #[trigger] pad_left(s, width)[i] == ' ',
        dec_padded(n, width).len() == (if width > dec(n).len() { width } else { dec(n).len() }),
        dec_padded(n, width).skip(dec_padded(n, width).len() - dec(n).len()) == dec(n),
        forall|i: int|
            0 <= i < dec_padded(n, width).len() - dec(n).len() ==> #[trigger] dec_padded(
                n,
                width,
            )[i] == '0',
{
    assert(pad_right(s, width).take(s.len() as int) == s);
    assert(pad_left(s, width).skip(pad_left(s, width).len() - s.len()) == s);
    assert(dec_padded(n, width).skip(dec_padded(n, width).len() - dec(n).len()) == dec(n));
}

// ---------------------------------------------------------------------------
// Order
// ---------------------------------------------------------------------------

/// Byte strings are ordered by the first byte in which they differ; one that
/// is the beginning of another comes first.
pub proof fn law_byte_order(lead: Seq<u8>, x: u8, y: u8, a: Seq<u8>, b: Seq<u8>)
    ensures
        x < y ==> bytes_less(lead.push(x) + a, lead.push(y) + b),
        bytes_less(lead, lead.push(y) + b),
        !bytes_less(lead, lead),
    decreases lead.len(),
{
    let p = lead.push(x) + a;
    let q = lead.push(y) + b;
    if lead.len() > 0 {
        law_byte_order(lead.skip(1), x, y, a, b);
        assert(p.skip(1) == lead.skip(1).push(x) + a);
        assert(q.skip(1) == lead.skip(1).push(y) + b);
        assert(p[0] == lead[0] && q[0] == lead[0]);
    } else {
        assert(p[0] == x && q[0] == y);
    }
}

// ---------------------------------------------------------------------------
// Bytes as text
// ---------------------------------------------------------------------------

/// Bytes that are text in UTF-8 are shown as that text; others with
/// replacements.
pub proof fn law_text_of(s: Seq<char>, bytes: Seq<u8>)
    ensures
        text_of(encode_utf8(s)) == s,
        !valid_utf8(bytes) ==> text_of(bytes) == lossy_text(bytes),
{
    encode_utf8_valid_utf8(s);
    encode_utf8_decode_utf8(s);
}

/// A byte has two hex digits, which write its value, and small letters.
pub proof fn law_hex(data: Seq<u8>, i: int)
    requires
        0 <= i < data.len(),
    ensures
        lower_hex(data).len() == 2 * data.len(),
        digit(lower_hex(data)[2 * i]) is Some,
        digit(lower_hex(data)[2 * i + 1]) is Some,
        16 * digit(lower_hex(data)[2 * i])->0 + digit(lower_hex(data)[2 * i + 1])->0 == data[i],
        upper(lower_hex(data)[2 * i]) == lower_hex(data)[2 * i] ==> '0' <= lower_hex(data)[2 * i]
            <= '9',
{
    assert((2 * i) / 2 == i && (2 * i) % 2 == 0);
    assert((2 * i + 1) / 2 == i && (2 * i + 1) % 2 == 1);
    let high = data[i] as int / 16;
    let low = data[i] as int % 16;
    assert(data[i] == 16 * high + low);
    let c = lower_hex(data)[2 * i];
    if 'a' <= c <= 'z' {
        assert((c as u8) as int == c as int);
        assert(upper(c) as int == c as int - 32);
    }
}

} // verus!
