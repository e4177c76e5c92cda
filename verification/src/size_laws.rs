//! What sizes are read and written as.
use vstd::prelude::*;
use vstd::string::*;

use crate::number::{dec, digit, number, value};
use crate::size::{
    approx_text, half_even, leading_digits, lemma_leading_digits, lemma_spacing, rounded,
    size_of_text, size_text, spacing, unit_bytes, SizeFault,
};
use crate::text::{is_white, upper, upper_text};
use crate::text_laws::{all_white, law_trim, snug};

verus! {

// ---------------------------------------------------------------------------
// Reading
// ---------------------------------------------------------------------------

/// Whether `unit` reads `name`, which is in capitals, small letters allowed.
pub open spec fn reads_as(unit: Seq<char>, name: Seq<char>) -> bool {
    unit.len() == name.len() && forall|i: int|
        0 <= i < unit.len() ==> (#[trigger] unit[i] as int == name[i] as int || unit[i] as int
            == name[i] as int + 32)
}

/// Whether `unit` is the binary unit with this letter: `G`, `GB` or `GiB`.
pub open spec fn unit_is(unit: Seq<char>, letter: char) -> bool {
    reads_as(unit, seq![letter]) || reads_as(unit, seq![letter, 'B']) || reads_as(
        unit,
        seq![letter, 'I', 'B'],
    )
}

proof fn lemma_upper(unit: Seq<char>, name: Seq<char>)
    requires
        forall|i: int| 0 <= i < name.len() ==> 'A' <= #[trigger] name[i] <= 'Z',
    ensures
        upper_text(unit) == name <==> reads_as(unit, name),
{
    if reads_as(unit, name) {
        assert forall|i: int| 0 <= i < unit.len() implies #[trigger] upper_text(unit)[i]
            == name[i] by {
            let c = unit[i];
            assert('A' <= name[i] <= 'Z');
            if 'a' <= c <= 'z' {
                assert((c as u8) as int == c as int);
                assert(upper(c) as int == c as int - 32);
            }
        }
        assert(upper_text(unit) == name);
    }
    if upper_text(unit) == name {
        assert(upper_text(unit).len() == unit.len());
        assert forall|i: int| 0 <= i < unit.len() implies (#[trigger] unit[i] as int
            == name[i] as int || unit[i] as int == name[i] as int + 32) by {
            let c = unit[i];
            assert(upper_text(unit)[i] == name[i]);
            if 'a' <= c <= 'z' {
                assert((c as u8) as int == c as int);
                assert(upper(c) as int == c as int - 32);
            }
        }
    }
}

proof fn lemma_units(unit: Seq<char>)
    ensures
        unit_bytes(upper_text(unit)) == (if unit_is(unit, 'K') {
            Some(1024nat)
        } else if unit_is(unit, 'M') {
            Some(1048576nat)
        } else if unit_is(unit, 'G') {
            Some(1073741824nat)
        } else if unit_is(unit, 'T') {
            Some(1099511627776nat)
        } else {
            None
        }),
{
    reveal_strlit("K");
    reveal_strlit("KB");
    reveal_strlit("KIB");
    reveal_strlit("M");
    reveal_strlit("MB");
    reveal_strlit("MIB");
    reveal_strlit("G");
    reveal_strlit("GB");
    reveal_strlit("GIB");
    reveal_strlit("T");
    reveal_strlit("TB");
    reveal_strlit("TIB");
    assert("K"@ == seq!['K'] && "KB"@ == seq!['K', 'B'] && "KIB"@ == seq!['K', 'I', 'B']);
    assert("M"@ == seq!['M'] && "MB"@ == seq!['M', 'B'] && "MIB"@ == seq!['M', 'I', 'B']);
    assert("G"@ == seq!['G'] && "GB"@ == seq!['G', 'B'] && "GIB"@ == seq!['G', 'I', 'B']);
    assert("T"@ == seq!['T'] && "TB"@ == seq!['T', 'B'] && "TIB"@ == seq!['T', 'I', 'B']);
    lemma_upper(unit, "K"@);
    lemma_upper(unit, "KB"@);
    lemma_upper(unit, "KIB"@);
    lemma_upper(unit, "M"@);
    lemma_upper(unit, "MB"@);
    lemma_upper(unit, "MIB"@);
    lemma_upper(unit, "G"@);
    lemma_upper(unit, "GB"@);
    lemma_upper(unit, "GIB"@);
    lemma_upper(unit, "T"@);
    lemma_upper(unit, "TB"@);
    lemma_upper(unit, "TIB"@);
}

/// So many units of `unit` bytes.
pub open spec fn so_many(n: nat, unit: nat) -> Result<nat, SizeFault> {
    if n > u64::MAX {
        Err(SizeFault::Number)
    } else if n * unit > u64::MAX {
        Err(SizeFault::TooLarge)
    } else {
        Ok(n * unit)
    }
}

/// A size is decimal digits and a binary unit, in small letters or capitals,
/// white space around both: it reads as so many units. Without a unit that is
/// known, without a number, and with too large a number it is none.
pub proof fn law_sizes(
    a: Seq<char>,
    digits: Seq<char>,
    gap: Seq<char>,
    unit: Seq<char>,
    b: Seq<char>,
)
    requires
        all_white(a),
        all_white(gap),
        all_white(b),
        forall|i: int| 0 <= i < digits.len() ==> '0' <= #[trigger] digits[i] <= '9',
        digits.len() > 0 || gap.len() == 0,
        unit.len() > 0,
        snug(unit),
        !('0' <= unit[0] <= '9'),
    ensures
        ({
            let size = size_of_text(a + (digits + gap + unit) + b);
            let n = value(digits, 10);
            if unit_is(unit, 'K') || unit_is(unit, 'M') || unit_is(unit, 'G') || unit_is(unit, 'T') {
                &&& digits.len() == 0 ==> size == Err::<nat, SizeFault>(SizeFault::Number)
                &&& digits.len() > 0 ==> {
                    &&& unit_is(unit, 'K') ==> size == so_many(n, 1024)
                    &&& unit_is(unit, 'M') ==> size == so_many(n, 1048576)
                    &&& unit_is(unit, 'G') ==> size == so_many(n, 1073741824)
                    &&& unit_is(unit, 'T') ==> size == so_many(n, 1099511627776)
                }
            } else {
                size == Err::<nat, SizeFault>(SizeFault::Unit)
            }
        }),
{
    let t = digits + gap + unit;
    let rest = gap + unit;
    assert(t == digits + rest);
    assert(t.last() == unit.last());
    if digits.len() > 0 {
        assert(t[0] == digits[0]);
        assert('0' <= digits[0] <= '9');
    } else {
        assert(t[0] == unit[0]);
    }
    law_trim(a, t, b);
    if gap.len() > 0 {
        assert(is_white(gap[0]));
        assert(rest[0] == gap[0]);
    } else {
        assert(rest[0] == unit[0]);
    }
    lemma_leading_digits(digits, rest);
    let k = digits.len() as int;
    assert(t.skip(k) == rest);
    assert(t.take(k) == digits);
    law_trim(gap, unit, Seq::empty());
    assert(gap + unit + Seq::<char>::empty() == rest);
    lemma_units(unit);
    assert(crate::number::all_digits(digits, 10)) by {
        assert forall|i: int| 0 <= i < digits.len() implies digit(#[trigger] digits[i]) is Some
            && digit(digits[i])->0 < 10 by {
            assert('0' <= digits[i] <= '9');
        }
    }
    assert(unit[0] as int == 'K' as int || unit[0] as int == 'k' as int || !unit_is(unit, 'K'));
    assert(unit[0] as int == 'M' as int || unit[0] as int == 'm' as int || !unit_is(unit, 'M'));
    assert(unit[0] as int == 'G' as int || unit[0] as int == 'g' as int || !unit_is(unit, 'G'));
    assert(unit[0] as int == 'T' as int || unit[0] as int == 't' as int || !unit_is(unit, 'T'));
}

proof fn lemma_all_leading(digits: Seq<char>)
    requires
        forall|i: int| 0 <= i < digits.len() ==> '0' <= #[trigger] digits[i] <= '9',
    ensures
        leading_digits(digits) == digits.len(),
    decreases digits.len(),
{
    if digits.len() > 0 {
        assert('0' <= digits[0] <= '9');
        let rest = digits.skip(1);
        assert forall|i: int| 0 <= i < rest.len() implies '0' <= #[trigger] rest[i] <= '9' by {
            assert(rest[i] == digits[i + 1]);
        }
        lemma_all_leading(rest);
    }
}

/// A number without a unit is no size.
pub proof fn law_units_are_needed(a: Seq<char>, digits: Seq<char>, b: Seq<char>)
    requires
        all_white(a),
        all_white(b),
        forall|i: int| 0 <= i < digits.len() ==> '0' <= #[trigger] digits[i] <= '9',
    ensures
        size_of_text(a + digits + b) == Err::<nat, SizeFault>(SizeFault::Unit),
{
    if digits.len() > 0 {
        assert('0' <= digits[0] <= '9');
        assert('0' <= digits[digits.len() - 1] <= '9');
    }
    law_trim(a, digits, b);
    lemma_all_leading(digits);
    let none = digits.skip(digits.len() as int);
    assert(none == Seq::<char>::empty());
    law_trim(Seq::empty(), Seq::empty(), Seq::empty());
    assert(Seq::<char>::empty() + Seq::<char>::empty() + Seq::<char>::empty()
        == Seq::<char>::empty());
    lemma_units(Seq::empty());
}

// ---------------------------------------------------------------------------
// Writing
// ---------------------------------------------------------------------------

/// A size that is a whole number of a unit, and of no larger one, is written
/// as that many of the unit.
pub proof fn law_size_text(k: nat, n: nat)
    ensures
        k > 0 ==> size_text(k * 1099511627776) == dec(k) + " TiB"@,
        0 < k && k % 1024 != 0 ==> size_text(k * 1073741824) == dec(k) + " GiB"@,
        0 < k && k % 1024 != 0 ==> size_text(k * 1048576) == dec(k) + " MiB"@,
        0 < k && k % 1024 != 0 ==> size_text(k * 1024) == dec(k) + " KiB"@,
        n == 0 || n % 1024 != 0 ==> size_text(n) == dec(n) + " B"@,
{
    assert((k * 1099511627776) / 1099511627776 == k && (k * 1099511627776) % 1099511627776 == 0);
    assert((k * 1073741824) / 1073741824 == k && (k * 1073741824) % 1073741824 == 0);
    assert((k * 1048576) / 1048576 == k && (k * 1048576) % 1048576 == 0);
    assert((k * 1024) / 1024 == k && (k * 1024) % 1024 == 0);
    if k % 1024 != 0 {
        assert((k * 1073741824) % 1099511627776 != 0);
        assert((k * 1048576) % 1073741824 != 0);
        assert((k * 1024) % 1048576 != 0);
        assert((k * 1048576) % 1099511627776 != 0);
        assert((k * 1024) % 1099511627776 != 0);
        assert((k * 1024) % 1073741824 != 0);
    }
    if n % 1024 != 0 {
        assert(n % 1048576 != 0);
        assert(n % 1073741824 != 0);
        assert(n % 1099511627776 != 0);
    }
}

proof fn lemma_half_even(a: nat, b: nat)
    requires
        b > 0,
    ensures
        ({
            let d = a - half_even(a, b) * b;
            &&& -b <= 2 * d <= b
            &&& (2 * d == b || 2 * d == -b) ==> half_even(a, b) % 2 == 0
        }),
{
    let q = a / b;
    let r = a % b;
    assert(a == q * b + r && 0 <= r < b) by (nonlinear_arith)
        requires
            b > 0,
            q == a / b,
            r == a % b,
            a >= 0,
    ;
    assert((q + 1) * b == q * b + b) by (nonlinear_arith);
}

/// For people, a size is in the largest unit that it reaches, in tenths: as
/// many as are nearest, an even number of two that are as near. From 2^53 bytes
/// on, the size is first rounded to a multiple of at most 2048.
pub proof fn law_approx(n: nat) -> (r: (nat, nat))
    requires
        n <= u64::MAX,
    ensures
        n < 0x20_0000_0000_0000 ==> r.0 == n,
        -2048 <= 2 * (r.0 - n) <= 2048,
        n < 1024 ==> approx_text(n) == dec(n) + " B"@,
        n >= 1024 ==> ({
            let (unit, name) = if n >= 1099511627776 {
                (1099511627776, " TiB"@)
            } else if n >= 1073741824 {
                (1073741824, " GiB"@)
            } else if n >= 1048576 {
                (1048576int, " MiB"@)
            } else {
                (1024, " KiB"@)
            };
            let d = 10 * r.0 - r.1 * unit;
            &&& -unit <= 2 * d <= unit
            &&& (2 * d == unit || 2 * d == -unit) ==> r.1 % 2 == 0
            &&& approx_text(n) == dec(r.1 / 10) + "."@ + dec(r.1 % 10) + name
        }),
{
    let m = rounded(n);
    let g = spacing(n);
    lemma_spacing(n);
    lemma_half_even(n, g);
    if n < 0x20_0000_0000_0000 {
        assert(g == 1);
        assert(half_even(n, 1) == n);
        assert(m == n);
    } else {
        assert(m >= 1099511627776);
    }
    let unit: nat = if n >= 1099511627776 {
        1099511627776
    } else if n >= 1073741824 {
        1073741824
    } else if n >= 1048576 {
        1048576
    } else {
        1024
    };
    lemma_half_even(10 * m, unit);
    (m, half_even(10 * m, unit))
}

} // verus!
