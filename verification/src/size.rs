//! Sizes in bytes, as people write and read them.
use vstd::prelude::*;
use vstd::string::*;

use crate::foreign::{quoted, quoted_text};
use crate::number::{dec, decimal, lemma_dec_value, number, parse_digits};
use crate::text::{
    chars_of, is_white, lemma_trim_fixed, reads, string_of, sub_text, to_upper, trim, trim_start,
    trimmed, upper_text,
};

verus! {

/// A size in bytes, written with a binary unit: `512M`, `4G`, `64GiB`, `1T`.
#[derive(Clone, Copy, Debug, PartialEq, Eq, PartialOrd, Ord, Structural)]
pub struct ByteSize(pub u64);

pub const KIB: u64 = 0x400;

pub const MIB: u64 = 0x10_0000;

pub const GIB: u64 = 0x4000_0000;

pub const TIB: u64 = 0x100_0000_0000;

/// The number of values of a 64-bit word.
pub const WORD: u128 = 0x1_0000_0000_0000_0000;

/// What is wrong with a text that is no size.
#[derive(Clone, Copy, Debug, PartialEq, Eq, Structural)]
pub enum SizeFault {
    /// There is no unit, or none that is known.
    Unit,
    /// There is no number before the unit, or it is too large to read.
    Number,
    /// The number of bytes is too large.
    TooLarge,
}

/// A text that is no size.
#[derive(Debug)]
pub struct SizeError {
    pub text: String,
    pub fault: SizeFault,
}

impl SizeError {
    pub open spec fn message_text(self) -> Seq<char> {
        match self.fault {
            SizeFault::Unit => "invalid size "@ + quoted_text(self.text@)
                + ": expected a number with a unit, e.g. 512M or 4G"@,
            SizeFault::Number => "invalid size "@ + quoted_text(self.text@),
            SizeFault::TooLarge => "size "@ + quoted_text(self.text@) + " is too large"@,
        }
    }

    /// What went wrong, for people.
    pub fn message(&self) -> (s: String)
        ensures
            s@ == self.message_text(),
    {
        let text = quoted(self.text.as_str());
        match self.fault {
            SizeFault::Unit => "invalid size ".to_owned().concat(text.as_str()).concat(
                ": expected a number with a unit, e.g. 512M or 4G",
            ),
            SizeFault::Number => "invalid size ".to_owned().concat(text.as_str()),
            SizeFault::TooLarge => "size ".to_owned().concat(text.as_str()).concat(" is too large"),
        }
    }
}

/// How many characters at the start of `s` are decimal digits.
pub open spec fn leading_digits(s: Seq<char>) -> nat
    decreases s.len(),
{
    if s.len() > 0 && '0' <= s[0] <= '9' {
        1 + leading_digits(s.skip(1))
    } else {
        0
    }
}

/// The number of bytes in a unit, by its name in capitals.
pub open spec fn unit_bytes(unit: Seq<char>) -> Option<nat> {
    if unit == "K"@ || unit == "KB"@ || unit == "KIB"@ {
        Some(KIB as nat)
    } else if unit == "M"@ || unit == "MB"@ || unit == "MIB"@ {
        Some(MIB as nat)
    } else if unit == "G"@ || unit == "GB"@ || unit == "GIB"@ {
        Some(GIB as nat)
    } else if unit == "T"@ || unit == "TB"@ || unit == "TIB"@ {
        Some(TIB as nat)
    } else {
        None
    }
}

/// The size that `s` writes: a number and a unit, blanks allowed around both.
pub open spec fn size_of_text(s: Seq<char>) -> Result<nat, SizeFault> {
    let t = trim(s);
    let k = leading_digits(t) as int;
    match unit_bytes(upper_text(trim(t.skip(k)))) {
        None => Err(SizeFault::Unit),
        Some(unit) => match number(t.take(k), 10, u64::MAX as nat) {
            None => Err(SizeFault::Number),
            Some(n) => if n * unit <= u64::MAX {
                Ok(n * unit)
            } else {
                Err(SizeFault::TooLarge)
            },
        },
    }
}

/// A size with the largest unit that it is a whole number of.
pub open spec fn size_text(n: nat) -> Seq<char> {
    if n >= TIB && n % (TIB as nat) == 0 {
        dec(n / (TIB as nat)) + " TiB"@
    } else if n >= GIB && n % (GIB as nat) == 0 {
        dec(n / (GIB as nat)) + " GiB"@
    } else if n >= MIB && n % (MIB as nat) == 0 {
        dec(n / (MIB as nat)) + " MiB"@
    } else if n >= KIB && n % (KIB as nat) == 0 {
        dec(n / (KIB as nat)) + " KiB"@
    } else {
        dec(n) + " B"@
    }
}

/// The quotient of `a` and `b`, rounded to the nearest whole number and to
/// the even one of two that are as near.
pub open spec fn half_even(a: nat, b: nat) -> nat {
    let q = a / b;
    let r = a % b;
    if 2 * r > b || (2 * r == b && q % 2 == 1) {
        q + 1
    } else {
        q
    }
}

/// The distance between neighbouring numbers of 53 significant bits at `n`.
pub open spec fn spacing(n: nat) -> nat
    decreases n,
{
    if n < 0x20_0000_0000_0000 {
        1
    } else {
        2 * spacing(n / 2)
    }
}

/// `n` rounded to 53 significant bits.
pub open spec fn rounded(n: nat) -> nat {
    half_even(n, spacing(n)) * spacing(n)
}

/// `m` in units of `unit` bytes, with one decimal.
pub open spec fn one_decimal(m: nat, unit: u64) -> Seq<char> {
    let tenths = half_even(10 * m, unit as nat);
    dec(tenths / 10) + "."@ + dec(tenths % 10)
}

/// A size for people, rounded to one decimal.
pub open spec fn approx_text(n: nat) -> Seq<char> {
    let m = rounded(n);
    if m >= TIB {
        one_decimal(m, TIB) + " TiB"@
    } else if m >= GIB {
        one_decimal(m, GIB) + " GiB"@
    } else if m >= MIB {
        one_decimal(m, MIB) + " MiB"@
    } else if m >= KIB {
        one_decimal(m, KIB) + " KiB"@
    } else {
        dec(n) + " B"@
    }
}

/// Rounding a 64-bit number to 53 bits gives no more than the next power of
/// two.
pub proof fn lemma_spacing(n: nat)
    requires
        n < WORD,
    ensures
        1 <= spacing(n) <= 2048,
        rounded(n) <= WORD,
{
    let g = spacing(n);
    reveal_with_fuel(spacing, 13);
    assert(g == 1 || g == 2 || g == 4 || g == 8 || g == 16 || g == 32 || g == 64 || g == 128 || g
        == 256 || g == 512 || g == 1024 || g == 2048);
    let q = half_even(n, g);
    assert(q <= n / g + 1);
    if g == 1 {
    } else if g == 2 {
        assert((n / 2 + 1) * 2 <= WORD);
    } else if g == 4 {
        assert((n / 4 + 1) * 4 <= WORD);
    } else if g == 8 {
        assert((n / 8 + 1) * 8 <= WORD);
    } else if g == 16 {
        assert((n / 16 + 1) * 16 <= WORD);
    } else if g == 32 {
        assert((n / 32 + 1) * 32 <= WORD);
    } else if g == 64 {
        assert((n / 64 + 1) * 64 <= WORD);
    } else if g == 128 {
        assert((n / 128 + 1) * 128 <= WORD);
    } else if g == 256 {
        assert((n / 256 + 1) * 256 <= WORD);
    } else if g == 512 {
        assert((n / 512 + 1) * 512 <= WORD);
    } else if g == 1024 {
        assert((n / 1024 + 1) * 1024 <= WORD);
    } else {
        assert((n / 2048 + 1) * 2048 <= WORD);
    }
}

/// Rounds a quotient.
fn divide_half_even(a: u128, b: u128) -> (q: u128)
    requires
        0 < b <= WORD,
        a <= 16 * WORD,
    ensures
        q == half_even(a as nat, b as nat),
        q <= a + 1,
{
    let q = a / b;
    let r = a % b;
    assert(q <= a) by (nonlinear_arith)
        requires
            q == a / b,
            b > 0,
    ;
    if 2 * r > b || (2 * r == b && q % 2 == 1) {
        q + 1
    } else {
        q
    }
}

/// Renders a size in units, with one decimal.
fn with_decimal(m: u128, unit: u64, name: &str) -> (s: String)
    requires
        unit >= KIB,
        m <= WORD,
    ensures
        s@ == one_decimal(m as nat, unit) + name@,
{
    let tenths = divide_half_even(10 * m, unit as u128);
    assert(tenths <= 10 * m / 1024 + 1) by (nonlinear_arith)
        requires
            tenths <= 10 * m / (unit as int) + 1,
            unit >= 1024,
            m >= 0,
    ;
    let mut s = decimal((tenths / 10) as u64);
    s.append(".");
    s.append(decimal((tenths % 10) as u64).as_str());
    s.append(name);
    s
}

impl ByteSize {
    /// `n` MiB; bits beyond the 64th are dropped.
    pub fn mib(n: u64) -> (r: Self)
        ensures
            r.0 == (n * MIB) % (WORD as int),
    {
        assert((n << 20u64) == (n * 0x10_0000) % 0x1_0000_0000_0000_0000) by (bit_vector);
        ByteSize(n << 20u64)
    }

    /// `n` GiB; bits beyond the 64th are dropped.
    pub fn gib(n: u64) -> (r: Self)
        ensures
            r.0 == (n * GIB) % (WORD as int),
    {
        assert((n << 30u64) == (n * 0x4000_0000) % 0x1_0000_0000_0000_0000) by (bit_vector);
        ByteSize(n << 30u64)
    }

    /// Formats the size for humans, rounded to one decimal, e.g. `1.8 GiB`.
    pub fn approx(self) -> (s: String)
        ensures
            s@ == approx_text(self.0 as nat),
    {
        let n = self.0;
        let mut gap: u128 = 1;
        let mut rest: u64 = n;
        while rest >= 0x20_0000_0000_0000
            invariant
                rest <= n,
                gap >= 1,
                gap * spacing(rest as nat) == spacing(n as nat),
                gap * (rest as int) <= n,
            decreases rest,
        {
            assert((2 * gap) * spacing((rest / 2) as nat) == gap * (2 * spacing(
                (rest / 2) as nat,
            ))) by (nonlinear_arith);
            assert((2 * gap) * (rest / 2) as int <= gap * rest) by (nonlinear_arith)
                requires
                    gap >= 1,
                    rest >= 2,
            ;
            assert(gap <= n) by (nonlinear_arith)
                requires
                    gap * (rest as int) <= n,
                    rest >= 1,
                    gap >= 1,
            ;
            gap = 2 * gap;
            rest = rest / 2;
        }
        assert(spacing(rest as nat) == 1);
        assert(gap == spacing(n as nat)) by (nonlinear_arith)
            requires
                gap * 1 == spacing(n as nat),
        ;
        proof {
            lemma_spacing(n as nat);
        }
        let q = divide_half_even(n as u128, gap);
        let m: u128 = q * gap;
        if m >= TIB as u128 {
            with_decimal(m, TIB, " TiB")
        } else if m >= GIB as u128 {
            with_decimal(m, GIB, " GiB")
        } else if m >= MIB as u128 {
            with_decimal(m, MIB, " MiB")
        } else if m >= KIB as u128 {
            with_decimal(m, KIB, " KiB")
        } else {
            decimal(n).concat(" B")
        }
    }

    /// Reads a size: a number with a unit.
    pub fn parse(s: &str) -> (r: Result<Self, SizeError>)
        ensures
            match size_of_text(s@) {
                Ok(n) => r is Ok && r->Ok_0.0 == n,
                Err(fault) => r is Err && r->Err_0.fault == fault && r->Err_0.text@ == trim(s@),
            },
    {
        let chars = chars_of(s);
        let t = trimmed(chars.as_slice());
        let mut k: usize = 0;
        assert(t@.skip(0) == t@);
        while k < t.len() && '0' <= t[k] && t[k] <= '9'
            invariant
                k <= t@.len(),
                leading_digits(t@) == k + leading_digits(t@.skip(k as int)),
            decreases t.len() - k,
        {
            assert(t@.skip(k as int).skip(1) == t@.skip(k + 1));
            k += 1;
        }
        assert(leading_digits(t@) == k);
        let rest = sub_text(t.as_slice(), k, t.len());
        assert(rest@ == t@.skip(k as int));
        let name = to_upper(trimmed(rest.as_slice()).as_slice());
        let unit = match unit_of(name.as_slice()) {
            None => {
                return Err(SizeError { text: string_of(t.as_slice()), fault: SizeFault::Unit });
            },
            Some(unit) => unit,
        };
        let digits = sub_text(t.as_slice(), 0, k);
        assert(digits@ == t@.take(k as int));
        match parse_digits(digits.as_slice(), 10, u64::MAX) {
            None => Err(SizeError { text: string_of(t.as_slice()), fault: SizeFault::Number }),
            Some(n) => match n.checked_mul(unit) {
                None => Err(
                    SizeError { text: string_of(t.as_slice()), fault: SizeFault::TooLarge },
                ),
                Some(bytes) => Ok(ByteSize(bytes)),
            },
        }
    }

    /// The size with the largest unit that it is a whole number of.
    pub fn to_string(&self) -> (s: String)
        ensures
            s@ == size_text(self.0 as nat),
    {
        let n = self.0;
        if n >= TIB && n % TIB == 0 {
            decimal(n / TIB).concat(" TiB")
        } else if n >= GIB && n % GIB == 0 {
            decimal(n / GIB).concat(" GiB")
        } else if n >= MIB && n % MIB == 0 {
            decimal(n / MIB).concat(" MiB")
        } else if n >= KIB && n % KIB == 0 {
            decimal(n / KIB).concat(" KiB")
        } else {
            decimal(n).concat(" B")
        }
    }
}

impl core::str::FromStr for ByteSize {
    type Err = SizeError;

    fn from_str(s: &str) -> (r: Result<Self, SizeError>)
        ensures
            match size_of_text(s@) {
                Ok(n) => r is Ok && r->Ok_0.0 == n,
                Err(fault) => r is Err && r->Err_0.fault == fault && r->Err_0.text@ == trim(s@),
            },
    {
        ByteSize::parse(s)
    }
}

/// The number of bytes in the unit with this name.
fn unit_of(name: &[char]) -> (r: Option<u64>)
    ensures
        r is Some == unit_bytes(name@) is Some,
        r is Some ==> r->0 == unit_bytes(name@)->0,
{
    if reads(name, "K") || reads(name, "KB") || reads(name, "KIB") {
        Some(KIB)
    } else if reads(name, "M") || reads(name, "MB") || reads(name, "MIB") {
        Some(MIB)
    } else if reads(name, "G") || reads(name, "GB") || reads(name, "GIB") {
        Some(GIB)
    } else if reads(name, "T") || reads(name, "TB") || reads(name, "TIB") {
        Some(TIB)
    } else {
        None
    }
}

pub proof fn lemma_leading_digits(d: Seq<char>, rest: Seq<char>)
    requires
        forall|i: int| 0 <= i < d.len() ==> '0' <= #[trigger] d[i] <= '9',
        rest.len() > 0,
        !('0' <= rest[0] <= '9'),
    ensures
        leading_digits(d + rest) == d.len(),
    decreases d.len(),
{
    if d.len() == 0 {
        assert(d + rest == rest);
    } else {
        assert forall|i: int| 0 <= i < d.skip(1).len() implies '0' <= #[trigger] d.skip(1)[i]
            <= '9' by {
            assert(d.skip(1)[i] == d[i + 1]);
        }
        lemma_leading_digits(d.skip(1), rest);
        assert((d + rest).skip(1) == d.skip(1) + rest);
        assert((d + rest)[0] == d[0]);
    }
}

/// A number, a blank and a unit read as that many units.
proof fn lemma_reads_back(k: nat, tail: Seq<char>, name: Seq<char>, unit: nat)
    requires
        tail.len() == 4,
        tail[0] == ' ',
        tail[3] == 'B',
        !is_white(tail[1]),
        tail.skip(1) == name,
        unit_bytes(upper_text(name)) == Some(unit),
        k <= u64::MAX,
        k * unit <= u64::MAX,
    ensures
        size_of_text(dec(k) + tail) == Ok::<nat, SizeFault>(k * unit),
{
    lemma_dec_value(k);
    let s = dec(k) + tail;
    assert(s[0] == dec(k)[0]);
    assert(s.last() == tail[3]);
    lemma_trim_fixed(s);
    lemma_leading_digits(dec(k), tail);
    let n = dec(k).len() as int;
    assert(s.skip(n) == tail);
    assert(s.take(n) == dec(k));
    assert(trim_start(tail) == trim_start(name));
    assert(name[0] == tail[1]);
    assert(name.last() == tail[3]);
    lemma_trim_fixed(name);
    assert(trim(tail) == name);
}

/// A size of whole KiB that is written out reads back as itself.
pub proof fn law_sizes_read_back(n: nat)
    requires
        KIB <= n <= u64::MAX,
        n % (KIB as nat) == 0,
    ensures
        size_of_text(size_text(n)) == Ok::<nat, SizeFault>(n),
{
    if n >= TIB && n % (TIB as nat) == 0 {
        reveal_strlit(" TiB");
        reveal_strlit("TIB");
        let name = seq!['T', 'i', 'B'];
        assert(" TiB"@.skip(1) == name);
        assert(upper_text(name) == "TIB"@);
        lemma_unit_names();
        lemma_reads_back(n / (TIB as nat), " TiB"@, name, TIB as nat);
    } else if n >= GIB && n % (GIB as nat) == 0 {
        reveal_strlit(" GiB");
        reveal_strlit("GIB");
        let name = seq!['G', 'i', 'B'];
        assert(" GiB"@.skip(1) == name);
        assert(upper_text(name) == "GIB"@);
        lemma_unit_names();
        lemma_reads_back(n / (GIB as nat), " GiB"@, name, GIB as nat);
    } else if n >= MIB && n % (MIB as nat) == 0 {
        reveal_strlit(" MiB");
        reveal_strlit("MIB");
        let name = seq!['M', 'i', 'B'];
        assert(" MiB"@.skip(1) == name);
        assert(upper_text(name) == "MIB"@);
        lemma_unit_names();
        lemma_reads_back(n / (MIB as nat), " MiB"@, name, MIB as nat);
    } else {
        reveal_strlit(" KiB");
        reveal_strlit("KIB");
        let name = seq!['K', 'i', 'B'];
        assert(" KiB"@.skip(1) == name);
        assert(upper_text(name) == "KIB"@);
        lemma_unit_names();
        lemma_reads_back(n / (KIB as nat), " KiB"@, name, KIB as nat);
    }
}

/// The long names of the units stand for them.
proof fn lemma_unit_names()
    ensures
        unit_bytes("KIB"@) == Some(KIB as nat),
        unit_bytes("MIB"@) == Some(MIB as nat),
        unit_bytes("GIB"@) == Some(GIB as nat),
        unit_bytes("TIB"@) == Some(TIB as nat),
{
    reveal_strlit("K");
    reveal_strlit("KB");
    reveal_strlit("KIB");
    reveal_strlit("M");
    reveal_strlit("MB");
    reveal_strlit("MIB");
    reveal_strlit("G");
    reveal_strlit("GB");
    reveal_strlit("GIB");
    reveal_strlit("TIB");
    assert("MIB"@[0] == 'M' && "GIB"@[0] == 'G' && "TIB"@[0] == 'T');
    assert("K"@[0] == 'K' && "KB"@[0] == 'K' && "KIB"@[0] == 'K');
    assert("M"@[0] == 'M' && "MB"@[0] == 'M');
    assert("G"@[0] == 'G' && "GB"@[0] == 'G');
}

} // verus!
