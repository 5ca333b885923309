use backpack::text::{
    chars_of, concat_strs, decimal_string, parse_bool, parse_integer, replace_chars, str_equal,
    string_of, trim_start_matches_chars,
};

#[test]
fn decimal_notation() {
    assert_eq!(decimal_string(0), "0");
    assert_eq!(decimal_string(7), "7");
    assert_eq!(decimal_string(12345), "12345");
    assert_eq!(decimal_string(u64::MAX), "18446744073709551615");
}

#[test]
fn decimal_reads_back() {
    for n in [0u64, 9, 10, 99, 100, 65535, 1 << 40] {
        let text = decimal_string(n);
        assert_eq!(parse_integer(&text, 0, u64::MAX as i128), Some(n as i128));
    }
}

#[test]
fn integers_parse_like_std() {
    let imin = i64::MIN as i128;
    let imax = i64::MAX as i128;
    for s in ["0", "42", "+42", "-42", "-0", "007", "9223372036854775807", "-9223372036854775808"] {
        assert_eq!(parse_integer(s, imin, imax), s.parse::<i64>().ok().map(|v| v as i128), "{}", s);
    }
    for s in ["", "+", "-", "4 2", "42a", "9223372036854775808", "-9223372036854775809", "++1", "٣"] {
        assert_eq!(parse_integer(s, imin, imax), None, "{}", s);
        assert!(s.parse::<i64>().is_err());
    }
}

#[test]
fn unsigned_refuses_minus() {
    assert_eq!(parse_integer("-0", 0, 65535), None);
    assert_eq!(parse_integer("-1", 0, 65535), None);
    assert_eq!(parse_integer("+7", 0, 65535), Some(7));
    assert_eq!(parse_integer("65535", 0, 65535), Some(65535));
    assert_eq!(parse_integer("65536", 0, 65535), None);
    assert_eq!(parse_integer("99999999999999999999999999", 0, 65535), None);
}

#[test]
fn booleans() {
    assert_eq!(parse_bool("true"), Some(true));
    assert_eq!(parse_bool("false"), Some(false));
    assert_eq!(parse_bool("True"), None);
    assert_eq!(parse_bool(""), None);
}

#[test]
fn replace_and_trim() {
    let s = chars_of("a[]b[][]");
    let r = replace_chars(&s, &chars_of("[]"), &Vec::new());
    assert_eq!(string_of(&r), "a[]b[][]".replace("[]", ""));
    let r = replace_chars(&chars_of("[[]]"), &chars_of("[]"), &Vec::new());
    assert_eq!(string_of(&r), "[]");
    let t = trim_start_matches_chars(&chars_of("Bearer Bearer x"), &chars_of("Bearer "));
    assert_eq!(string_of(&t), "x");
    assert!(str_equal("héllo", "héllo"));
    assert!(!str_equal("a", "ab"));
    assert_eq!(concat_strs(&vec!["ab", "", "c"]), "abc");
}
