use couchmic::limit::{count_up, time_since, Window};
use couchmic::number::{parse_i32, parse_u16, parse_u64, to_decimal};
use couchmic::text::{
    chars_of, contains, contains_text, find, find_text, lower_string, matches_at, rfind, same,
    space, string_of, take_chars, trim, trim_end_char,
};

fn chars(s: &str) -> Vec<char> {
    s.chars().collect()
}

#[test]
fn white_space_is_unicode_white_space() {
    for u in 0..=0x10ffffu32 {
        if let Some(c) = char::from_u32(u) {
            assert_eq!(space(c), c.is_whitespace(), "{u:#x}");
        }
    }
}

#[test]
fn trimming_is_like_std() {
    for s in ["", " ", "a", "  a b\t", "\u{3000}x\u{85}", "\n\r x", "x  "] {
        assert_eq!(string_of(&trim(&chars(s))), s.trim(), "{s:?}");
    }
    for s in ["", ".", "a.", "a..", "a.b", ".a"] {
        assert_eq!(string_of(&trim_end_char(&chars(s), '.')), s.trim_end_matches('.'));
    }
}

#[test]
fn searching_is_like_std() {
    let hay = "abcabd";
    for pat in ["", "a", "abd", "bca", "abcabd", "abcabde", "x"] {
        let at = find_text(&chars(hay), &chars(pat));
        assert_eq!(at, hay.find(pat), "{pat}");
        assert_eq!(contains_text(&chars(hay), &chars(pat)), hay.contains(pat), "{pat}");
    }
    assert_eq!(find(&chars(hay), 'b'), Some(1));
    assert_eq!(rfind(&chars(hay), 'b'), Some(4));
    assert_eq!((find(&chars(hay), 'x'), rfind(&chars(hay), 'x')), (None, None));
    assert!(contains(&chars(hay), 'd') && !contains(&chars(hay), 'e'));
    assert!(matches_at(&chars(hay), &chars("ab"), 3) && !matches_at(&chars(hay), &chars("ab"), 1));
}

#[test]
fn letters_and_parts() {
    assert_eq!(lower_string("ÄbC-Z@[`1"), "Äbc-z@[`1");
    assert!(same("gerät", "gerät") && !same("a", "A") && !same("a", "ab"));
    assert_eq!(string_of(&take_chars(&chars("äöü"), 2)), "äö");
    assert_eq!(string_of(&take_chars(&chars("äöü"), 9)), "äöü");
    assert_eq!(chars_of("a\u{1f3a4}"), ['a', '\u{1f3a4}']);
}

#[test]
fn numbers_are_read_like_std() {
    for s in [
        "", "0", "7", "+7", "-7", "-0", "00012", "65535", "65536", "2147483647", "2147483648",
        "-2147483648", "-2147483649", "18446744073709551615", "18446744073709551616", "1 ", "٣",
        "+", "-", "1e3", "0x1",
    ] {
        assert_eq!(parse_u16(&chars(s)), s.parse::<u16>().ok(), "{s}");
        assert_eq!(parse_u64(&chars(s)), s.parse::<u64>().ok(), "{s}");
        assert_eq!(parse_i32(&chars(s)), s.parse::<i32>().ok(), "{s}");
    }
    for n in [0, 9, 10, 4711, u64::MAX] {
        assert_eq!(to_decimal(n), n.to_string());
    }
}

#[test]
fn windows_and_counters() {
    assert_eq!(count_up(u64::MAX - 1, 5), u64::MAX);
    assert_eq!(count_up(3, 4), 7);
    assert_eq!((time_since(5, 9), time_since(9, 5)), (4, 0));
    let mut w = Window::new(0);
    assert!(w.count(1, 10, 2).allowed && w.count(2, 10, 2).allowed);
    assert!(!w.count(9, 10, 2).allowed);
    assert_eq!((w.used, w.dropped), (2, 1));
    let v = w.count(10, 10, 2);
    assert_eq!((v.allowed, v.summary), (true, Some(1)));
}
