//! Texts, tables, documents and searches.

use henk::search::found;
use henk::table::{is_less, Table};
use henk::text::{
    decimal_i32, decimal_u16, decimal_u64, find, join, lines, lower, pad, parse_u16, replace,
    rsplit_once, split, split_once, strip_prefix, trim, trim_end, trim_start, words,
};
use henk::yaml::{self, Yaml};

#[test]
fn texts_are_taken_apart() {
    assert_eq!(lines("a\r\nb\n\nc"), vec!["a", "b", "", "c"]);
    assert_eq!(lines(""), Vec::<String>::new());
    assert_eq!(split("a,,b", ','), vec!["a", "", "b"]);
    assert_eq!(split("", ','), vec![""]);
    assert_eq!(words("  a \t b\n"), vec!["a", "b"]);
    assert_eq!(split_once("a->b->c", "->"), Some(("a".to_string(), "b->c".to_string())));
    assert_eq!(split_once("abc", "->"), None);
    assert_eq!(rsplit_once("a:b:c", ':'), Some(("a:b".to_string(), "c".to_string())));
    assert_eq!(strip_prefix("DNS:x", "DNS:"), Some("x".to_string()));
    assert_eq!(strip_prefix("x", "DNS:"), None);
    assert_eq!(find("äbc", "bc"), Some(1));
}

#[test]
fn texts_are_put_together() {
    assert_eq!(trim("\u{a0} a b \n"), "a b");
    assert_eq!(trim_start("  a "), "a ");
    assert_eq!(trim_end("  a \u{2028}"), "  a");
    assert_eq!(lower("AbÄ"), "abÄ");
    assert_eq!(replace("aXbX", "X", "--"), "a--b--");
    assert_eq!(join(&vec!["a".to_string(), "b".to_string()], ", "), "a, b");
    assert_eq!(join(&vec![], ", "), "");
    assert_eq!(pad("ab", 4), "ab  ");
    assert_eq!(pad("abcde", 4), "abcde");
}

#[test]
fn numbers_are_written_and_read() {
    assert_eq!(decimal_u64(0), "0");
    assert_eq!(decimal_u64(u64::MAX), "18446744073709551615");
    assert_eq!(decimal_i32(i32::MIN), "-2147483648");
    assert_eq!(parse_u16("+80"), Some(80));
    assert_eq!(parse_u16("00080"), Some(80));
    assert_eq!(parse_u16("65535"), Some(65535));
    assert_eq!(parse_u16("65536"), None);
    assert_eq!(parse_u16(""), None);
    assert_eq!(parse_u16("+"), None);
    assert_eq!(parse_u16("-1"), None);
    assert_eq!(parse_u16(" 80"), None);
    for port in [0u16, 9, 80, 443, 5173, 65535] {
        assert_eq!(parse_u16(decimal_u16(port).as_str()), Some(port));
    }
}

#[test]
fn tables_are_sorted_and_overwrite() {
    let mut t: Table<u16> = Table::new();
    assert!(t.is_empty());
    t.insert("b".to_string(), 1);
    t.insert("a".to_string(), 2);
    t.insert("b".to_string(), 3);
    assert_eq!(t.get("b"), Some(&3));
    assert_eq!(t.get("c"), None);
    assert_eq!(t.entries().len(), 2);
    assert_eq!(t.entries()[0].0, "a");
    assert!(is_less("a", "ab") && is_less("Z", "a") && !is_less("a", "a"));
}

#[test]
fn documents_are_read() {
    let doc = yaml::parse("a: 1\nb: [x, -1, true, ~, 1.5]\nc: !tag y\n").unwrap();
    assert_eq!(doc.field("a").unwrap().as_u64(), Some(1));
    match doc.field("b").unwrap() {
        Yaml::Sequence(items) => {
            assert_eq!(items.len(), 5);
            assert_eq!(items[0].as_str().unwrap(), "x");
            assert_eq!(items[1].as_u64(), None);
            assert!(matches!(items[2], Yaml::Bool(true)));
            assert!(matches!(items[3], Yaml::Null));
            assert!(matches!(items[4], Yaml::Number(None)));
        }
        _ => panic!("a list"),
    }
    assert_eq!(doc.field("c").unwrap().as_str().unwrap(), "y");
    assert!(doc.field("d").is_none());
    assert!(yaml::parse("a: [").is_none());
}

#[test]
fn groups_that_took_no_part_are_left_out() {
    assert_eq!(
        found(Some(vec![Some("a".to_string()), None, Some("b".to_string())])),
        vec!["a", "b"]
    );
    assert!(found(None).is_empty());
}
