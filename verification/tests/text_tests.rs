use doris_cli::strmap::{lex_less, StrMap};
use doris_cli::text::{
    chars_eq, contains_str, copy_range, ends_with_str, eq_ignore_ascii_case, find_str,
    from_chars, i64_to_string, index_of_char, join_strings, lines_of, parse_i64_chars,
    parse_u16_chars, parse_u32_chars, parse_u64_chars, push_i64, push_u64, slice_string,
    split_char, starts_with_str, string_eq_str, to_chars, to_lower, trim_bounds,
    trim_char_string, trim_string, u64_to_string,
};

fn c(s: &str) -> Vec<char> {
    to_chars(s)
}

fn strs(v: Vec<Vec<char>>) -> Vec<String> {
    v.iter().map(|x| from_chars(x)).collect()
}

#[test]
fn chars_and_slices() {
    assert_eq!(to_chars("añb"), vec!['a', 'ñ', 'b']);
    assert_eq!(from_chars(&['x', 'y']), "xy");
    assert_eq!(slice_string(&c("hello"), 1, 4), "ell");
    assert_eq!(copy_range(&c("hello"), 2, 5), c("llo"));
    assert!(chars_eq(&c("ab"), &c("ab")));
    assert!(!chars_eq(&c("ab"), &c("abc")));
    assert!(string_eq_str(&"same".to_string(), "same"));
    assert!(!string_eq_str(&"same".to_string(), "Same"));
}

#[test]
fn trimming_and_case() {
    assert_eq!(trim_string(&c(" \t a b \n")), "a b");
    assert_eq!(trim_bounds(&c("  x ")), (2, 3));
    assert_eq!(trim_bounds(&c("   ")).0, trim_bounds(&c("   ")).1);
    assert_eq!(trim_char_string("``db``", '`'), "db");
    assert_eq!(trim_char_string("`", '`'), "");
    assert_eq!(to_lower(&c("AbC-É")), c("abc-É"));
    assert!(eq_ignore_ascii_case(&c("TRUE"), &c("true")));
    assert!(!eq_ignore_ascii_case(&c("true"), &c("tru")));
}

#[test]
fn searching() {
    assert_eq!(find_str(&c("a](http://x)"), "](http"), Some(1));
    assert_eq!(find_str(&c("abc"), "d"), None);
    assert_eq!(find_str(&c("abc"), ""), Some(0));
    assert!(contains_str(&c("Permission denied (publickey)"), "Permission denied"));
    assert!(starts_with_str(&c("4.0.1"), "4.0."));
    assert!(!starts_with_str(&c("4"), "4.0."));
    assert!(ends_with_str(&c("a.tar.gz"), ".tar.gz"));
    assert_eq!(index_of_char(&c("k=v"), '=', 0), 1);
    assert_eq!(index_of_char(&c("kv"), '=', 0), 2);
}

#[test]
fn splitting_lines_and_joining() {
    assert_eq!(strs(split_char(&c("a,,b"), ',')), vec!["a", "", "b"]);
    assert_eq!(strs(split_char(&c(""), ',')), vec![""]);
    assert_eq!(strs(lines_of(&c("a\r\nb\n\nc\n"))), vec!["a", "b", "", "c"]);
    assert_eq!(strs(lines_of(&c(""))), Vec::<String>::new());
    assert_eq!(strs(lines_of(&c("x\r"))), vec!["x\r"]);
    let parts = vec!["a".to_string(), "b".to_string(), "c".to_string()];
    assert_eq!(join_strings(&parts, ", "), "a, b, c");
    assert_eq!(join_strings(&Vec::new(), ", "), "");
}

#[test]
fn numbers_to_and_from_text() {
    assert_eq!(u64_to_string(0), "0");
    assert_eq!(u64_to_string(u64::MAX), "18446744073709551615");
    assert_eq!(i64_to_string(i64::MIN), "-9223372036854775808");
    let mut s = String::from("n=");
    push_u64(&mut s, 42);
    push_i64(&mut s, -7);
    assert_eq!(s, "n=42-7");
    assert_eq!(parse_i64_chars(&c("-12")), Some(-12));
    assert_eq!(parse_i64_chars(&c("+5")), Some(5));
    assert_eq!(parse_i64_chars(&c("9223372036854775808")), None);
    assert_eq!(parse_i64_chars(&c("-9223372036854775808")), Some(i64::MIN));
    assert_eq!(parse_i64_chars(&c("1 ")), None);
    assert_eq!(parse_u64_chars(&c("18446744073709551615")), Some(u64::MAX));
    assert_eq!(parse_u64_chars(&c("-1")), None);
    assert_eq!(parse_u32_chars(&c("4294967296")), None);
    assert_eq!(parse_u16_chars(&c("65535")), Some(65535));
    assert_eq!(parse_u16_chars(&c("65536")), None);
    assert_eq!(parse_u16_chars(&c("")), None);
}

#[test]
fn sorted_map_operations() {
    let mut m: StrMap<u32> = StrMap::new();
    assert!(m.is_empty());
    m.insert("b".to_string(), 2);
    m.insert("a".to_string(), 1);
    m.insert("c".to_string(), 3);
    m.insert("b".to_string(), 20);
    assert_eq!(m.len(), 3);
    assert_eq!(m.keys(), vec!["a", "b", "c"]);
    assert_eq!(m.get("b"), Some(&20));
    assert!(m.contains_key("c"));
    assert_eq!(m.first_key().as_deref(), Some("a"));
    let (k, v) = m.entry_at(2);
    assert_eq!((k.as_str(), *v), ("c", 3));
    m.remove("a");
    m.remove("zz");
    assert_eq!(m.keys(), vec!["b", "c"]);
    assert!(m.get("a").is_none());
    assert!(lex_less(&c("ab"), &c("b")));
    assert!(lex_less(&c("a"), &c("ab")));
    assert!(!lex_less(&c("b"), &c("b")));
}
