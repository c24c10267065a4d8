use packhub::codec::{decode, decode_optional, encode, encode_optional};
use packhub::text::{
    compare_str, decimal, decimal_int, from_chars, last_path_segment, parse_i64, parse_u64,
    replace_each, str_eq, strip_repeated_prefix, strip_repeated_suffix, to_ascii_lower, to_chars,
    trim_end, Order,
};

fn chars(s: &str) -> Vec<char> {
    s.chars().collect()
}

fn text(v: Vec<char>) -> String {
    v.into_iter().collect()
}

#[test]
fn text_and_characters_convert_both_ways() {
    assert_eq!(to_chars("héllo"), vec!['h', 'é', 'l', 'l', 'o']);
    assert_eq!(from_chars(&vec!['a', 'ß', 'c']), "aßc");
    assert_eq!(from_chars(&to_chars("")), "");
    assert!(str_eq("abc", "abc"));
    assert!(!str_eq("abc", "abd"));
    assert!(!str_eq("abc", "ab"));
}

#[test]
fn decimal_notation_is_exact() {
    assert_eq!(decimal(0), "0");
    assert_eq!(decimal(7), "7");
    assert_eq!(decimal(10), "10");
    assert_eq!(decimal(2729), "2729");
    assert_eq!(decimal(u64::MAX), "18446744073709551615");
    assert_eq!(decimal_int(0), "0");
    assert_eq!(decimal_int(-1), "-1");
    assert_eq!(decimal_int(1699461612), "1699461612");
    assert_eq!(decimal_int(i64::MIN), "-9223372036854775808");
    assert_eq!(decimal_int(i64::MAX), "9223372036854775807");
}

#[test]
fn numbers_are_read_back() {
    assert_eq!(parse_u64(&chars("0")), Some(0));
    assert_eq!(parse_u64(&chars("007")), Some(7));
    assert_eq!(parse_u64(&chars("18446744073709551615")), Some(u64::MAX));
    assert_eq!(parse_u64(&chars("18446744073709551616")), None);
    assert_eq!(parse_u64(&chars("")), None);
    assert_eq!(parse_u64(&chars("12a")), None);
    assert_eq!(parse_u64(&chars("+5")), None);
    assert_eq!(parse_i64(&chars("-9223372036854775808")), Some(i64::MIN));
    assert_eq!(parse_i64(&chars("-9223372036854775809")), None);
    assert_eq!(parse_i64(&chars("9223372036854775807")), Some(i64::MAX));
    assert_eq!(parse_i64(&chars("9223372036854775808")), None);
    assert_eq!(parse_i64(&chars("-")), None);
    assert_eq!(parse_i64(&chars("-12")), Some(-12));
    for n in [0u64, 9, 10, 99, 100, 12345, u64::MAX] {
        assert_eq!(parse_u64(&chars(&decimal(n))), Some(n));
    }
    for i in [i64::MIN, -10, -1, 0, 1, 42, i64::MAX] {
        assert_eq!(parse_i64(&chars(&decimal_int(i))), Some(i));
    }
}

#[test]
fn texts_compare_lexicographically() {
    assert_eq!(compare_str("a", "b"), Order::Less);
    assert_eq!(compare_str("b", "a"), Order::Greater);
    assert_eq!(compare_str("abc", "abc"), Order::Equal);
    assert_eq!(compare_str("ab", "abc"), Order::Less);
    assert_eq!(compare_str("abc", "ab"), Order::Greater);
    assert_eq!(compare_str("", ""), Order::Equal);
    assert_eq!(compare_str("", "a"), Order::Less);
    assert_eq!(compare_str("Z", "a"), Order::Less);
    // The order is that of the standard library.
    for (a, b) in [("fcitx", "ibus"), ("a-1", "a_1"), ("é", "z"), ("x10", "x9")] {
        let expected = match a.cmp(b) {
            std::cmp::Ordering::Less => Order::Less,
            std::cmp::Ordering::Equal => Order::Equal,
            std::cmp::Ordering::Greater => Order::Greater,
        };
        assert_eq!(compare_str(a, b), expected);
    }
}

#[test]
fn white_space_is_trimmed() {
    assert_eq!(text(trim_end(&chars("abc \n\t"))), "abc");
    assert_eq!(text(trim_end(&chars(" abc"))), " abc");
    assert_eq!(text(trim_end(&chars(" \n"))), "");
    assert_eq!(text(trim_end(&chars("\n  a b \u{a0}\u{3000}"))), "\n  a b");
    assert_eq!(text(trim_end(&chars(""))), "");
    for s in ["  x  ", "\r\nline\r\n", "\u{2003}wide\u{2003}", "none", "\u{200b}zero\u{200b}"] {
        assert_eq!(text(trim_end(&chars(s))), s.trim_end());
    }
}

#[test]
fn prefixes_suffixes_and_segments() {
    assert_eq!(text(strip_repeated_prefix(&chars("ababc"), &chars("ab"))), "c");
    assert_eq!(text(strip_repeated_prefix(&chars("abc"), &chars(""))), "abc");
    assert_eq!(text(strip_repeated_prefix(&chars("abc"), &chars("x"))), "abc");
    assert_eq!(text(strip_repeated_prefix(&chars("ubuntu_24_04"), &chars("ubuntu_"))), "24_04");
    assert_eq!(
        text(strip_repeated_suffix(&chars("ubuntu_24_04_proposed"), &chars("_proposed"))),
        "ubuntu_24_04"
    );
    assert_eq!(text(strip_repeated_suffix(&chars("xyzyz"), &chars("yz"))), "x");
    assert_eq!(text(strip_repeated_suffix(&chars("abc"), &chars(""))), "abc");
    assert_eq!(text(last_path_segment(&chars("https://host/a/b/file.deb"))), "file.deb");
    assert_eq!(text(last_path_segment(&chars("file.deb"))), "file.deb");
    assert_eq!(text(last_path_segment(&chars("a/"))), "");
    assert_eq!(text(last_path_segment(&chars(""))), "");
    assert_eq!(text(replace_each(&chars("24_04_1"), '_', '.')), "24.04.1");
    assert_eq!(text(to_ascii_lower(&chars("X86_64-ÄB"))), "x86_64-Äb");
}

fn strings(v: &[&str]) -> Vec<String> {
    v.iter().map(|s| s.to_string()).collect()
}

#[test]
fn fields_are_framed_by_their_length() {
    assert_eq!(encode(&strings(&[])), "");
    assert_eq!(encode(&strings(&["abc"])), "3:abc");
    assert_eq!(encode(&strings(&["", "a:b", "héllo wörld!"])), "0:3:a:b12:héllo wörld!");
    assert_eq!(decode("0:3:a:b12:héllo wörld!"), Some(strings(&["", "a:b", "héllo wörld!"])));
    assert_eq!(decode(""), Some(strings(&[])));
    assert_eq!(decode("03:abc"), Some(strings(&["abc"])));
}

#[test]
fn broken_frames_are_refused() {
    assert_eq!(decode("3:ab"), None);
    assert_eq!(decode("abc"), None);
    assert_eq!(decode(":abc"), None);
    assert_eq!(decode("3"), None);
    assert_eq!(decode("-1:a"), None);
    assert_eq!(decode("3:abc1"), None);
    assert_eq!(decode("99999999999999999999999:a"), None);
}

#[test]
fn every_list_of_fields_reads_back() {
    let cases: Vec<Vec<String>> = vec![
        strings(&[]),
        strings(&[""]),
        strings(&["", ""]),
        strings(&["1:", ":", "::1:2"]),
        strings(&["line\nbreak", "tab\t", "ünïcödé", "0123456789"]),
        vec!["x".repeat(1000), "3:abc".to_string()],
    ];
    for fields in cases {
        assert_eq!(decode(&encode(&fields)), Some(fields));
    }
    // A framed list is itself a text that can be a field.
    let inner = encode(&strings(&["a", "b"]));
    let outer = encode(&vec![inner.clone(), "c".to_string()]);
    assert_eq!(decode(&outer), Some(vec![inner, "c".to_string()]));
}

#[test]
fn optional_texts_are_marked() {
    assert_eq!(encode_optional(&None), "-");
    assert_eq!(encode_optional(&Some("".to_string())), "+");
    assert_eq!(encode_optional(&Some("-".to_string())), "+-");
    assert_eq!(decode_optional("-"), Some(None));
    assert_eq!(decode_optional("+"), Some(Some("".to_string())));
    assert_eq!(decode_optional("+abc"), Some(Some("abc".to_string())));
    assert_eq!(decode_optional(""), None);
    assert_eq!(decode_optional("abc"), None);
    assert_eq!(decode_optional("--"), None);
}
