//! Text as sequences of characters: splitting, trimming, numbers and padding.
use vstd::prelude::*;
use vstd::string::*;

verus! {

/// `String::push`: appends one character.
pub assume_specification[ String::push ](s: &mut String, c: char)
    ensures
        final(s)@ == old(s)@.push(c),
;

/// The contents of each piece of a split text.
pub open spec fn pieces(parts: Seq<Vec<char>>) -> Seq<Seq<char>> {
    Seq::new(parts.len(), |i: int| parts[i]@)
}

/// The contents of an optional string.
pub open spec fn text_view(s: Option<String>) -> Option<Seq<char>> {
    match s {
        Some(s) => Some(s@),
        None => None,
    }
}

/// The characters of `s`, in order.
pub fn chars_of(s: &str) -> (v: Vec<char>)
    ensures
        v@ == s@,
{
    let mut v: Vec<char> = Vec::new();
    for c in it: s.chars()
        invariant
            it.seq() == s@,
            v@ == s@.take(it.index()),
    {
        v.push(c);
    }
    v
}

/// The string made of `chars`.
pub fn string_of(chars: &[char]) -> (s: String)
    ensures
        s@ == chars@,
{
    let mut s = String::new();
    let mut i: usize = 0;
    while i < chars.len()
        invariant
            i <= chars.len(),
            s@ == chars@.take(i as int),
        decreases chars.len() - i,
    {
        s.push(chars[i]);
        i += 1;
    }
    s
}

/// `chars[from..to]` as a text of its own.
pub fn sub_text(chars: &[char], from: usize, to: usize) -> (v: Vec<char>)
    requires
        from <= to <= chars@.len(),
    ensures
        v@ == chars@.subrange(from as int, to as int),
{
    let mut v: Vec<char> = Vec::new();
    let mut i = from;
    while i < to
        invariant
            from <= i <= to <= chars@.len(),
            v@ == chars@.subrange(from as int, i as int),
        decreases to - i,
    {
        v.push(chars[i]);
        i += 1;
    }
    v
}

/// Whether two texts are the same.
pub fn same_chars(a: &[char], b: &[char]) -> (r: bool)
    ensures
        r == (a@ == b@),
{
    if a.len() != b.len() {
        return false;
    }
    let mut i: usize = 0;
    while i < a.len()
        invariant
            i <= a.len(),
            a.len() == b.len(),
            a@.take(i as int) == b@.take(i as int),
        decreases a.len() - i,
    {
        if a[i] != b[i] {
            assert(a@[i as int] != b@[i as int]);
            return false;
        }
        assert(a@.take(i + 1) == a@.take(i as int).push(a@[i as int]));
        assert(b@.take(i + 1) == b@.take(i as int).push(b@[i as int]));
        i += 1;
    }
    assert(a@.take(a@.len() as int) == a@);
    assert(b@.take(b@.len() as int) == b@);
    true
}

/// Whether the text `a` reads `b`.
pub fn reads(a: &[char], b: &str) -> (r: bool)
    ensures
        r == (a@ == b@),
{
    let b = chars_of(b);
    same_chars(a, b.as_slice())
}

/// Whether two strings are the same.
pub fn same_str(a: &str, b: &str) -> (r: bool)
    ensures
        r == (a@ == b@),
{
    let a = chars_of(a);
    reads(a.as_slice(), b)
}

// ---------------------------------------------------------------------------
// Character classes
// ---------------------------------------------------------------------------

/// Unicode white space.
pub open spec fn is_white(c: char) -> bool {
    ||| '\u{9}' <= c <= '\u{d}'
    ||| c == ' '
    ||| c == '\u{85}'
    ||| c == '\u{a0}'
    ||| c == '\u{1680}'
    ||| '\u{2000}' <= c <= '\u{200a}'
    ||| c == '\u{2028}'
    ||| c == '\u{2029}'
    ||| c == '\u{202f}'
    ||| c == '\u{205f}'
    ||| c == '\u{3000}'
}

/// Whether `c` is Unicode white space.
pub fn white(c: char) -> (r: bool)
    ensures
        r == is_white(c),
{
    ('\u{9}' <= c && c <= '\u{d}') || c == ' ' || c == '\u{85}' || c == '\u{a0}' || c == '\u{1680}'
        || ('\u{2000}' <= c && c <= '\u{200a}') || c == '\u{2028}' || c == '\u{2029}' || c
        == '\u{202f}' || c == '\u{205f}' || c == '\u{3000}'
}

/// Control characters.
pub open spec fn is_control(c: char) -> bool {
    c <= '\u{1f}' || '\u{7f}' <= c <= '\u{9f}'
}

/// Whether `text` has a control character.
pub open spec fn has_control(text: Seq<char>) -> bool {
    exists|i: int| 0 <= i < text.len() && is_control(#[trigger] text[i])
}

/// Whether a text has a control character.
pub fn contains_control(text: &[char]) -> (r: bool)
    ensures
        r == has_control(text@),
{
    let mut i: usize = 0;
    while i < text.len()
        invariant
            i <= text.len(),
            forall|j: int| 0 <= j < i ==> !is_control(#[trigger] text@[j]),
        decreases text.len() - i,
    {
        let c = text[i];
        if c <= '\u{1f}' || ('\u{7f}' <= c && c <= '\u{9f}') {
            assert(is_control(text@[i as int]));
            return true;
        }
        i += 1;
    }
    false
}

/// ASCII letters turned into capitals, other characters kept.
pub open spec fn upper(c: char) -> char {
    if 'a' <= c <= 'z' {
        (c as u8 - 32) as u8 as char
    } else {
        c
    }
}

/// `text` with its ASCII letters turned into capitals.
pub open spec fn upper_text(text: Seq<char>) -> Seq<char> {
    Seq::new(text.len(), |i: int| upper(text[i]))
}

/// Turns the ASCII letters of `text` into capitals.
pub fn to_upper(text: &[char]) -> (v: Vec<char>)
    ensures
        v@ == upper_text(text@),
{
    let mut v: Vec<char> = Vec::new();
    let mut i: usize = 0;
    while i < text.len()
        invariant
            i <= text.len(),
            v@ == upper_text(text@).take(i as int),
        decreases text.len() - i,
    {
        let c = text[i];
        if 'a' <= c && c <= 'z' {
            v.push((c as u8 - 32) as char);
        } else {
            v.push(c);
        }
        i += 1;
    }
    v
}

// ---------------------------------------------------------------------------
// Trimming
// ---------------------------------------------------------------------------

/// `s` without its leading white space.
pub open spec fn trim_start(s: Seq<char>) -> Seq<char>
    decreases s.len(),
{
    if s.len() > 0 && is_white(s[0]) {
        trim_start(s.skip(1))
    } else {
        s
    }
}

/// `s` without its trailing white space.
pub open spec fn trim_end(s: Seq<char>) -> Seq<char>
    decreases s.len(),
{
    if s.len() > 0 && is_white(s.last()) {
        trim_end(s.drop_last())
    } else {
        s
    }
}

/// `s` without the white space around it.
pub open spec fn trim(s: Seq<char>) -> Seq<char> {
    trim_end(trim_start(s))
}

/// Trims the white space around `s`.
pub fn trimmed(s: &[char]) -> (v: Vec<char>)
    ensures
        v@ == trim(s@),
{
    let mut from: usize = 0;
    assert(s@.skip(0) == s@);
    while from < s.len() && white(s[from])
        invariant
            from <= s@.len(),
            trim_start(s@) == trim_start(s@.skip(from as int)),
        decreases s.len() - from,
    {
        assert(s@.skip(from as int).skip(1) == s@.skip(from + 1));
        from += 1;
    }
    let ghost rest = s@.skip(from as int);
    assert(trim_start(s@) == rest);
    let mut to: usize = s.len();
    assert(s@.subrange(from as int, to as int) == rest);
    while from < to && white(s[to - 1])
        invariant
            from <= to <= s@.len(),
            trim_end(rest) == trim_end(s@.subrange(from as int, to as int)),
        decreases to,
    {
        let ghost cur = s@.subrange(from as int, to as int);
        assert(cur.drop_last() == s@.subrange(from as int, to - 1));
        assert(cur.last() == s@[to - 1]);
        to -= 1;
    }
    assert(from < to ==> s@.subrange(from as int, to as int).last() == s@[to - 1]);
    sub_text(s, from, to)
}

/// Text without white space at its ends is left as it is.
pub proof fn lemma_trim_fixed(s: Seq<char>)
    requires
        s.len() > 0 ==> !is_white(s[0]) && !is_white(s.last()),
    ensures
        trim(s) == s,
{
}

// ---------------------------------------------------------------------------
// Splitting
// ---------------------------------------------------------------------------

/// How many characters of `s` come before the first `c`; all of them if
/// there is none.
pub open spec fn find<T>(s: Seq<T>, c: T) -> nat
    decreases s.len(),
{
    if s.len() == 0 || s[0] == c {
        0
    } else {
        1 + find(s.skip(1), c)
    }
}

pub proof fn lemma_find<T>(s: Seq<T>, c: T)
    ensures
        find(s, c) <= s.len(),
        find(s, c) < s.len() ==> s[find(s, c) as int] == c,
        forall|i: int| 0 <= i < find(s, c) ==> s[i] != c,
    decreases s.len(),
{
    if s.len() > 0 && s[0] != c {
        lemma_find(s.skip(1), c);
        assert forall|i: int| 0 <= i < find(s, c) implies s[i] != c by {
            if i > 0 {
                assert(s[i] == s.skip(1)[i - 1]);
            }
        }
    }
}

/// The first `c` is where it stands after characters that are not `c`.
pub proof fn lemma_find_at<T>(s: Seq<T>, c: T, at: int)
    requires
        0 <= at <= s.len(),
        forall|i: int| 0 <= i < at ==> s[i] != c,
        at < s.len() ==> s[at] == c,
    ensures
        find(s, c) == at,
{
    lemma_find(s, c);
}

/// The pieces of `s` between the separators `c`; one more than there are
/// separators.
pub open spec fn split<T>(s: Seq<T>, c: T) -> Seq<Seq<T>>
    decreases s.len(),
{
    let at = find(s, c) as int;
    if at < s.len() {
        seq![s.take(at)] + split(s.skip(at + 1), c)
    } else {
        seq![s]
    }
}

/// Splitting never gives an empty list, and no piece holds the separator.
pub proof fn lemma_split_pieces<T>(s: Seq<T>, c: T)
    ensures
        split(s, c).len() > 0,
        forall|i: int| 0 <= i < split(s, c).len() ==> !(#[trigger] split(s, c)[i]).contains(c),
    decreases s.len(),
{
    lemma_find(s, c);
    let at = find(s, c) as int;
    let all = split(s, c);
    if at < s.len() {
        lemma_split_pieces(s.skip(at + 1), c);
        assert forall|i: int| 0 <= i < all.len() implies !(#[trigger] all[i]).contains(c) by {
            if i == 0 {
                assert(all[0] == s.take(at));
            } else {
                assert(all[i] == split(s.skip(at + 1), c)[i - 1]);
            }
        }
    } else {
        assert(all[0] == s);
    }
}

/// A text without the separator is its only piece.
pub proof fn lemma_split_single<T>(s: Seq<T>, c: T)
    requires
        !s.contains(c),
    ensures
        split(s, c) == seq![s],
{
    assert forall|i: int| 0 <= i < s.len() implies s[i] != c by {
        assert(s.contains(s[i]));
    }
    lemma_find_at(s, c, s.len() as int);
}

/// The pieces of two texts with a separator between them.
pub proof fn lemma_split_joined<T>(a: Seq<T>, c: T, b: Seq<T>)
    ensures
        split(a.push(c) + b, c) == split(a, c) + split(b, c),
    decreases a.len(),
{
    lemma_find(a, c);
    let whole = a.push(c) + b;
    let at = find(a, c) as int;
    lemma_find_at(whole, c, at);
    if at < a.len() {
        lemma_split_joined(a.skip(at + 1), c, b);
        assert(whole.skip(at + 1) == a.skip(at + 1).push(c) + b);
        assert(whole.take(at) == a.take(at));
        assert(seq![a.take(at)] + (split(a.skip(at + 1), c) + split(b, c)) == (seq![a.take(at)]
            + split(a.skip(at + 1), c)) + split(b, c));
    } else {
        assert(whole.take(at) == a);
        assert(whole.skip(at + 1) == b);
    }
}

/// Index of the first `c` in `s` from `from` on, or the length of `s`.
pub fn find_from(s: &[char], c: char, from: usize) -> (at: usize)
    requires
        from <= s@.len(),
    ensures
        from <= at <= s@.len(),
        at == from + find(s@.skip(from as int), c),
{
    let mut at = from;
    while at < s.len() && s[at] != c
        invariant
            from <= at <= s@.len(),
            forall|i: int| from <= i < at ==> s@[i] != c,
        decreases s.len() - at,
    {
        at += 1;
    }
    proof {
        let rest = s@.skip(from as int);
        lemma_find_at(rest, c, at - from);
    }
    at
}

/// Splits `s` at each `c`.
pub fn split_at_char(s: &[char], c: char) -> (parts: Vec<Vec<char>>)
    ensures
        pieces(parts@) == split(s@, c),
        parts@.len() > 0,
{
    let mut parts: Vec<Vec<char>> = Vec::new();
    let mut from: usize = 0;
    assert(s@.skip(0) == s@);
    loop
        invariant_except_break
            from <= s@.len(),
            split(s@, c) == pieces(parts@) + split(s@.skip(from as int), c),
        ensures
            split(s@, c) == pieces(parts@),
            parts@.len() > 0,
        decreases s.len() - from,
    {
        let at = find_from(s, c, from);
        let ghost before = pieces(parts@);
        let ghost rest = s@.skip(from as int);
        parts.push(sub_text(s, from, at));
        assert(s@.subrange(from as int, at as int) == rest.take(at - from));
        assert(pieces(parts@) == before.push(rest.take(at - from)));
        if at >= s.len() {
            assert(rest.take(at - from) == rest);
            break;
        }
        assert(rest.skip(at - from + 1) == s@.skip(at + 1));
        assert(before + (seq![rest.take(at - from)] + split(s@.skip(at + 1), c)) == before.push(
            rest.take(at - from),
        ) + split(s@.skip(at + 1), c));
        from = at + 1;
    }
    parts
}

/// `line` without a carriage return at its end.
pub open spec fn strip_return(line: Seq<char>) -> Seq<char> {
    if line.len() > 0 && line.last() == '\r' {
        line.drop_last()
    } else {
        line
    }
}

/// The lines of `s`. A line ends with a line feed, or a carriage return and
/// a line feed; the last line may do without.
pub open spec fn lines(s: Seq<char>) -> Seq<Seq<char>>
    decreases s.len(),
{
    let at = find(s, '\n') as int;
    if s.len() == 0 {
        Seq::empty()
    } else if at < s.len() {
        seq![strip_return(s.take(at))] + lines(s.skip(at + 1))
    } else {
        seq![s]
    }
}

/// Splits `s` into its lines.
pub fn lines_of(s: &[char]) -> (v: Vec<Vec<char>>)
    ensures
        pieces(v@) == lines(s@),
{
    let mut v: Vec<Vec<char>> = Vec::new();
    let mut from: usize = 0;
    assert(s@.skip(0) == s@);
    while from < s.len()
        invariant
            from <= s@.len(),
            lines(s@) == pieces(v@) + lines(s@.skip(from as int)),
        decreases s.len() - from,
    {
        let at = find_from(s, '\n', from);
        let ghost before = pieces(v@);
        let ghost rest = s@.skip(from as int);
        proof {
            lemma_find(rest, '\n');
        }
        assert(s@.subrange(from as int, at as int) == rest.take(at - from));
        if at >= s.len() {
            v.push(sub_text(s, from, at));
            assert(rest.take(at - from) == rest);
            assert(pieces(v@) == before.push(rest));
            assert(before + seq![rest] == before.push(rest) + lines(s@.skip(at as int)));
            from = at;
        } else {
            let mut to = at;
            if from < at && s[at - 1] == '\r' {
                to = at - 1;
            }
            v.push(sub_text(s, from, to));
            let ghost line = strip_return(rest.take(at - from));
            assert(s@.subrange(from as int, to as int) == line);
            assert(pieces(v@) == before.push(line));
            assert(rest.skip(at - from + 1) == s@.skip(at + 1));
            assert(before + (seq![line] + lines(s@.skip(at + 1))) == before.push(line) + lines(
                s@.skip(at + 1),
            ));
            from = at + 1;
        }
    }
    assert(lines(s@.skip(from as int)).len() == 0);
    v
}

/// `lead`, then `rest`: whether `s` starts with `lead`.
pub open spec fn starts_with<T>(s: Seq<T>, lead: Seq<T>) -> bool {
    lead.len() <= s.len() && s.take(lead.len() as int) == lead
}

/// Whether `s` starts with `lead`.
pub fn has_lead(s: &[char], lead: &str) -> (r: bool)
    ensures
        r == starts_with(s@, lead@),
{
    let lead = chars_of(lead);
    if lead.len() > s.len() {
        return false;
    }
    let head = sub_text(s, 0, lead.len());
    assert(head@ == s@.take(lead@.len() as int));
    same_chars(head.as_slice(), lead.as_slice())
}

/// Whether `s` ends with `tail`.
pub open spec fn ends_with<T>(s: Seq<T>, tail: Seq<T>) -> bool {
    tail.len() <= s.len() && s.skip(s.len() - tail.len()) == tail
}

/// Whether `s` ends with `tail`.
pub fn has_tail(s: &[char], tail: &str) -> (r: bool)
    ensures
        r == ends_with(s@, tail@),
{
    let tail = chars_of(tail);
    if tail.len() > s.len() {
        return false;
    }
    let end = sub_text(s, s.len() - tail.len(), s.len());
    assert(end@ == s@.skip(s@.len() - tail@.len()));
    same_chars(end.as_slice(), tail.as_slice())
}

} // verus!
