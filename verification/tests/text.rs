use warden_twofactor::text::{
    find_char, has_char, is_white_space, parse_i32, rsplit_once, split, split_once, take_bytes,
    text_not_after, trim, trim_end_of, write_decimal,
};

#[test]
fn white_space_is_that_of_unicode() {
    let mut c: u32 = 0;
    while c <= 0x10ffff {
        if let Some(ch) = char::from_u32(c) {
            assert_eq!(is_white_space(ch), ch.is_whitespace(), "{:x}", c);
        }
        c += 1;
    }
}

#[test]
fn trimming_agrees_with_std() {
    let cases = vec!["", " ", "a", " a ", "\t a b \r\n", "\u{3000}x\u{2003}", "a\u{200b} "];
    for s in cases {
        assert_eq!(trim(s), s.trim());
    }
    assert_eq!(trim_end_of("a//", '/'), "a");
    assert_eq!(trim_end_of("//", '/'), "");
    assert_eq!(trim_end_of("/a", '/'), "/a");
}

#[test]
fn splitting_agrees_with_std() {
    let cases = vec!["", "=", "a=b", "a=b=c", "==", "abc", "=a", "a="];
    for s in cases {
        let once = s.split_once('=').map(|(a, b)| (a.to_string(), b.to_string()));
        assert_eq!(split_once(s, '='), once);
        let last = s.rsplit_once('=').map(|(a, b)| (a.to_string(), b.to_string()));
        assert_eq!(rsplit_once(s, '='), last);
        let all: Vec<String> = s.split('=').map(|p| p.to_string()).collect();
        assert_eq!(split(s, '='), all);
        assert_eq!(has_char(s, '='), s.contains('='));
    }
    assert_eq!(find_char(&vec!['a', 'b'], 'b'), 1);
    assert_eq!(find_char(&vec!['a', 'b'], 'c'), 2);
}

#[test]
fn numbers_are_read_as_std_reads_them() {
    let cases = vec![
        "", "-", "+", "0", "-0", "+7", "007", "2147483647", "2147483648", "-2147483648",
        "-2147483649", "99999999999999999999", "1a", " 1", "1 ", "--1", "\u{661}",
    ];
    for s in cases {
        assert_eq!(parse_i32(s), s.parse::<i32>().ok(), "{}", s);
    }
}

#[test]
fn numbers_are_written_in_base_ten() {
    let cases: Vec<usize> = vec![0, 7, 10, 99, 100, 1005, usize::MAX];
    for n in cases {
        assert_eq!(write_decimal(n), n.to_string());
    }
}

#[test]
fn texts_are_ordered_as_std_orders_them() {
    let cases = vec!["", "a", "ab", "b", "\u{7f}", "\u{80}", "\u{ffff}", "\u{10000}", "a\u{10000}"];
    for a in &cases {
        for b in &cases {
            assert_eq!(text_not_after(a, b), a <= b, "{:?} {:?}", a, b);
        }
    }
}

#[test]
fn leading_bytes_end_with_a_character() {
    assert_eq!(take_bytes("abcdef", 3), Some("abc".to_string()));
    assert_eq!(take_bytes("ab\u{e9}", 3), None);
    assert_eq!(take_bytes("ab\u{e9}", 4), Some("ab\u{e9}".to_string()));
    assert_eq!(take_bytes("ab", 3), None);
    assert_eq!(take_bytes("", 0), Some(String::new()));
}
