use sendit::number::{decimal, decimal_padded, padded_left, padded_right, parse_digits, parse_radix};
use sendit::order::{rank_bytes, Rank};
use sendit::text::{
    chars_of, contains_control, lines_of, same_str, split_at_char, string_of, to_upper, trimmed,
    white,
};

fn text(chars: &[char]) -> String {
    chars.iter().collect()
}

const SAMPLES: [&str; 14] = [
    "",
    " ",
    "a",
    " a b ",
    "\u{2003}é\t",
    "a\nb",
    "a\r\nb\r",
    "\n\n",
    "a\n",
    "a:b::c:",
    ":",
    "\r\n",
    "x\u{85}",
    "\u{3000}",
];

#[test]
fn text_is_handled_like_in_the_standard_library() {
    for s in SAMPLES {
        let chars = chars_of(s);
        assert_eq!(text(&chars), s);
        assert_eq!(string_of(&chars), s);
        assert_eq!(text(&trimmed(&chars)), s.trim(), "{s:?}");
        let lines: Vec<String> = lines_of(&chars).iter().map(|l| text(l)).collect();
        assert_eq!(lines, s.lines().collect::<Vec<_>>(), "{s:?}");
        let parts: Vec<String> = split_at_char(&chars, ':').iter().map(|l| text(l)).collect();
        assert_eq!(parts, s.split(':').collect::<Vec<_>>(), "{s:?}");
        assert_eq!(text(&to_upper(&chars)), s.to_ascii_uppercase());
        assert_eq!(contains_control(&chars), s.contains(char::is_control));
        for t in SAMPLES {
            assert_eq!(same_str(s, t), s == t);
            let rank = match s.as_bytes().cmp(t.as_bytes()) {
                std::cmp::Ordering::Less => Rank::Before,
                std::cmp::Ordering::Equal => Rank::Same,
                std::cmp::Ordering::Greater => Rank::After,
            };
            assert!(rank_bytes(s.as_bytes(), t.as_bytes()) == rank);
        }
    }
}

#[test]
fn white_space_and_control_characters_are_those_of_the_standard_library() {
    for n in 0..=0x10_ffff_u32 {
        if let Some(c) = char::from_u32(n) {
            assert_eq!(white(c), c.is_whitespace(), "{n:x}");
            assert_eq!(contains_control(&[c]), c.is_control(), "{n:x}");
        }
    }
}

#[test]
fn numbers_are_read_like_in_the_standard_library() {
    for s in [
        "", "0", "7", "007", "255", "256", "+5", "+", "-1", "ff", "FF", "1g", "18446744073709551615",
        "18446744073709551616", "ffffffffffffffff", "10000000000000000", " 1", "+-1", "++1",
    ] {
        let chars = chars_of(s);
        for radix in [10u64, 16] {
            let expected = u64::from_str_radix(s, radix as u32).ok();
            assert_eq!(parse_radix(&chars, radix, u64::MAX), expected, "{s}");
            let expected = u8::from_str_radix(s, radix as u32).ok().map(u64::from);
            assert_eq!(parse_radix(&chars, radix, 255), expected, "{s}");
        }
        if !s.starts_with('+') {
            assert_eq!(parse_digits(&chars, 10, u64::MAX), s.parse().ok(), "{s}");
        }
    }
    assert_eq!(parse_digits(&chars_of("+5"), 10, u64::MAX), None);
}

#[test]
fn numbers_are_written_like_in_the_standard_library() {
    for n in [0, 9, 10, 99, 100, 12_345, u64::MAX] {
        assert_eq!(decimal(n), n.to_string());
        assert_eq!(decimal_padded(n, 3), format!("{n:03}"));
    }
}

#[test]
fn padding_counts_characters() {
    for s in ["", "é", "abc", "abcdefghij"] {
        assert_eq!(padded_right(s, 8), format!("{s:<8}"));
        assert_eq!(padded_left(s, 8), format!("{s:>8}"));
    }
}
