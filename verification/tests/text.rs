use runphi::text::{
    chars_of, dec_chars, dec_digit_chars, dec_digit_chars_wide, dec_string, extend_chars,
    extend_str, hex_chars, hex_digit_chars, hex_text, join, occurs_at_index, parse_count_chars,
    parse_hex, parse_hex_chars, parse_id_chars, parse_integer_chars, read_unsigned, same_chars,
    slice_chars, space, split, string_of, substitute, trim, words,
};

fn c(s: &str) -> Vec<char> {
    s.chars().collect()
}

fn s(v: Vec<char>) -> String {
    v.into_iter().collect()
}

#[test]
fn strings_and_characters() {
    assert_eq!(chars_of("aß→z"), vec!['a', 'ß', '→', 'z']);
    assert_eq!(string_of(&vec!['a', 'ß', '→', 'z']), "aß→z");
    assert_eq!(string_of(&Vec::new()), "");
    let mut out = c("ab");
    extend_chars(&mut out, &c("cd"));
    extend_str(&mut out, "éf");
    assert_eq!(s(out), "abcdéf");
    assert_eq!(s(slice_chars(&c("abcdef"), 2, 4)), "cd");
    assert_eq!(s(slice_chars(&c("abcdef"), 6, 6)), "");
    assert!(same_chars(&c("abc"), &c("abc")));
    assert!(!same_chars(&c("abc"), &c("abd")));
    assert!(!same_chars(&c("abc"), &c("ab")));
    assert!(occurs_at_index(&c("hello"), &c("ll"), 2));
    assert!(!occurs_at_index(&c("hello"), &c("ll"), 3));
    assert!(!occurs_at_index(&c("hello"), &c("lo!"), 3));
    assert!(occurs_at_index(&c("hello"), &c(""), 5));
}

#[test]
fn hexadecimal_literals() {
    assert_eq!(hex_text(0), "0x0");
    assert_eq!(hex_text(0x7000_0000), "0x70000000");
    assert_eq!(hex_text(0x400_0000), "0x4000000");
    assert_eq!(hex_text(u64::MAX), "0xffffffffffffffff");
    assert_eq!(hex_text(0xabcdef), format!("0x{:x}", 0xabcdef));
    assert_eq!(s(hex_chars(255)), "0xff");
    assert_eq!(s(hex_digit_chars(0x10)), "10");
}

#[test]
fn decimal_numbers() {
    assert_eq!(dec_string(0), "0");
    assert_eq!(dec_string(7), "7");
    assert_eq!(dec_string(-7), "-7");
    assert_eq!(dec_string(1234567890), "1234567890");
    assert_eq!(dec_string(i64::MAX), i64::MAX.to_string());
    assert_eq!(dec_string(i64::MIN), i64::MIN.to_string());
    assert_eq!(s(dec_chars(-128)), "-128");
    assert_eq!(s(dec_digit_chars(u64::MAX)), u64::MAX.to_string());
    assert_eq!(s(dec_digit_chars_wide(u128::MAX)), u128::MAX.to_string());
    assert_eq!(s(dec_digit_chars_wide(10)), "10");
}

#[test]
fn hexadecimal_addresses_are_read() {
    assert_eq!(parse_hex("0x70000000"), Some(0x7000_0000));
    assert_eq!(parse_hex("70000000"), Some(0x7000_0000));
    assert_eq!(parse_hex("0xFFff"), Some(0xffff));
    assert_eq!(parse_hex("0x0x10"), Some(0x10));
    assert_eq!(parse_hex("0x+10"), Some(0x10));
    assert_eq!(parse_hex("+10"), Some(0x10));
    assert_eq!(parse_hex("0xffffffffffffffff"), Some(u64::MAX));
    assert_eq!(parse_hex("0x10000000000000000"), None);
    assert_eq!(parse_hex("0x"), None);
    assert_eq!(parse_hex(""), None);
    assert_eq!(parse_hex("+"), None);
    assert_eq!(parse_hex("-10"), None);
    assert_eq!(parse_hex("0X10"), None);
    assert_eq!(parse_hex("12g"), None);
    assert_eq!(parse_hex(" 12"), None);
    assert_eq!(parse_hex("000000000000000000000000ff"), Some(0xff));
    assert_eq!(parse_hex_chars(&c("0xdead")), Some(0xdead));
    for n in [0u64, 1, 15, 16, 0x7f8f_0000, u64::MAX] {
        assert_eq!(parse_hex(&hex_text(n)), Some(n));
    }
}

#[test]
fn small_numbers_are_read() {
    assert_eq!(parse_id_chars(&c("0")), Some(0));
    assert_eq!(parse_id_chars(&c("127")), Some(127));
    assert_eq!(parse_id_chars(&c("128")), None);
    assert_eq!(parse_id_chars(&c("+5")), Some(5));
    assert_eq!(parse_id_chars(&c("007")), Some(7));
    assert_eq!(parse_id_chars(&c("-5")), None);
    assert_eq!(parse_id_chars(&c("")), None);
    assert_eq!(parse_id_chars(&c("1a")), None);
    assert_eq!(parse_count_chars(&c("18446744073709551615")), Some(u64::MAX));
    assert_eq!(parse_count_chars(&c("18446744073709551616")), None);
    assert_eq!(parse_count_chars(&c("99999999999999999999999")), None);
    assert_eq!(read_unsigned(&c("ab12"), 2, 10, 127), Some(12));
    assert_eq!(read_unsigned(&c("ab12"), 4, 10, 127), None);
    assert_eq!(read_unsigned(&c("ff"), 0, 16, u64::MAX), Some(255));
    assert_eq!(read_unsigned(&c("ff"), 0, 10, u64::MAX), None);
}

#[test]
fn splitting_is_as_in_the_standard_library() {
    let cases = [
        ("a, b, c", ", "),
        ("abc", ", "),
        ("", ", "),
        (", ", ", "),
        ("a, ", ", "),
        (", a", ", "),
        ("a,, b", ", "),
        ("2-3", "-"),
        ("--", "-"),
        ("aaa", "aa"),
        ("a/b/c/", "/"),
        ("xäyäz", "ä"),
    ];
    for (text, sep) in cases {
        let want: Vec<String> = text.split(sep).map(|p| p.to_string()).collect();
        let got: Vec<String> = split(&c(text), &c(sep)).into_iter().map(s).collect();
        assert_eq!(got, want, "{:?} by {:?}", text, sep);
    }
    assert_eq!(split(&c("abc"), &c("")), vec![c("abc")]);
}

#[test]
fn joining() {
    assert_eq!(s(join(&vec![c("a"), c("b"), c("c")], &c(", "))), "a, b, c");
    assert_eq!(s(join(&vec![c("a")], &c(", "))), "a");
    assert_eq!(s(join(&Vec::new(), &c(", "))), "");
    assert_eq!(s(join(&vec![c(""), c("")], &c("/"))), "/");
}

#[test]
fn substitution_is_as_in_the_standard_library() {
    let cases = [
        ("a {x} b {x}", "{x}", "1"),
        ("{x}{x}", "{x}", "{x}{x}"),
        ("aaa", "aa", "b"),
        ("abc", "d", "e"),
        ("", "d", "e"),
        ("abc", "abc", ""),
        ("ab", "abc", "x"),
        ("{phys_start}, {size}", "{size}", "0x10"),
    ];
    for (text, from, to) in cases {
        assert_eq!(s(substitute(&c(text), &c(from), &c(to))), text.replace(from, to));
    }
    assert_eq!(s(substitute(&c("abc"), &c(""), &c("x"))), "abc");
}

#[test]
fn trimming_is_as_in_the_standard_library() {
    for text in ["  a b \n", "0-3\n", "", "   ", "\u{a0}x\u{3000}", "\t\r\n x", "x", "\u{2003}a\u{200b}"] {
        assert_eq!(s(trim(&c(text))), text.trim(), "{:?}", text);
    }
}

#[test]
fn words_are_as_in_the_standard_library() {
    for text in ["", "  ", "a", " a ", "CPU(s):   8", "a\tb\u{a0}c\n", "x  y   z", "Guest1 1 0 7 r--"] {
        let want: Vec<String> = text.split_whitespace().map(|w| w.to_string()).collect();
        let got: Vec<String> = words(&c(text)).into_iter().map(s).collect();
        assert_eq!(got, want, "{:?}", text);
    }
    assert!(space(' ') && space('\n') && space('\u{3000}'));
    assert!(!space('a') && !space('\u{200b}'));
}

#[test]
fn whole_numbers_are_read_as_in_the_standard_library() {
    for text in ["0", "7", "-7", "+7", "-0", "9223372036854775807", "9223372036854775808",
        "-9223372036854775808", "-9223372036854775809", "", "-", "+", "--1", "-+1", "+-1", "1a",
        " 1", "18446744073709551616", "-18446744073709551616", "007"] {
        assert_eq!(parse_integer_chars(&c(text)), text.parse::<i64>().ok(), "{:?}", text);
    }
}
