use yy_dps::strmap::StrMap;
use yy_dps::text as texts;
use yy_dps::text::{
    contains_text, decimal_text, drop_last_chars, ends_with_text, is_blank, join_texts, parse_usize, quote,
    str_eq, str_lt, unique_texts,
};

fn s(x: &str) -> String {
    x.to_string()
}

#[test]
fn text_order_is_byte_order() {
    assert!(str_lt("B001", "B002"));
    assert!(!str_lt("B002", "B001"));
    assert!(!str_lt("B001", "B001"));
    assert!(str_lt("B00", "B001"));
    assert!(str_lt("Z", "a"));
    assert!(str_eq("箱号", "箱号"));
    assert!(!str_eq("箱号", "盒号"));
}

#[test]
fn joining_and_quoting() {
    let v = vec![s("a"), s("b"), s("c")];
    assert_eq!(join_texts(&v, ", "), "a, b, c");
    assert_eq!(join_texts(&vec![], ", "), "");
    assert_eq!(join_texts(&vec![s("x")], ";"), "x");
    assert_eq!(quote("SN1"), "'SN1'");
    assert_eq!(texts::concat("ab", "cd"), "abcd");
}

#[test]
fn decimal_and_parsing() {
    assert_eq!(decimal_text(0), "0");
    assert_eq!(decimal_text(7), "7");
    assert_eq!(decimal_text(1000), "1000");
    assert_eq!(decimal_text(4096), "4096");
    assert_eq!(parse_usize("42"), Some(42));
    assert_eq!(parse_usize("007"), Some(7));
    assert_eq!(parse_usize(""), None);
    assert_eq!(parse_usize("4a"), None);
    assert_eq!(parse_usize("-1"), None);
}

#[test]
fn suffixes_and_blanks() {
    assert!(ends_with_text("x UNION ALL ", " UNION ALL "));
    assert!(!ends_with_text("x UNION ALL", " UNION ALL "));
    assert_eq!(drop_last_chars("abcdef", 2), "abcd");
    assert_eq!(drop_last_chars("箱号盒号", 2), "箱号");
    assert!(is_blank("  \t"));
    assert!(is_blank(""));
    assert!(!is_blank(" a "));
}

#[test]
fn unique_texts_keep_first_occurrence() {
    let v = vec![s("t2"), s("t1"), s("t2"), s("t3"), s("t1")];
    assert_eq!(unique_texts(v), vec![s("t2"), s("t1"), s("t3")]);
    assert!(contains_text(&vec![s("a"), s("b")], "b"));
    assert!(!contains_text(&vec![s("a"), s("b")], "c"));
}

#[test]
fn strmap_insert_replaces_in_place() {
    let mut m: StrMap<String> = StrMap::new();
    assert!(m.is_empty());
    m.insert(s("box_no"), s("B1"));
    m.insert(s("sn"), s("S1"));
    m.insert(s("box_no"), s("B2"));
    assert_eq!(m.len(), 2);
    assert_eq!(m.get("box_no"), Some(&s("B2")));
    assert_eq!(m.get("sn"), Some(&s("S1")));
    assert_eq!(m.get("pn"), None);
    assert_eq!(m.keys(), vec![s("box_no"), s("sn")]);
    assert_eq!(m.position("sn"), Some(1));
    assert!(m.contains_key("sn"));
    assert_eq!(m.key_at(0), "box_no");
    assert_eq!(m.value_at(1), "S1");
    let c = m.copy();
    assert_eq!(c.get("box_no"), Some(&s("B2")));
}

#[test]
fn strmap_lookup_finds_first_entry() {
    let m = StrMap::from_entries(vec![(s("k"), 1u32), (s("k"), 2u32), (s("j"), 3u32)]);
    assert_eq!(m.get("k"), Some(&1));
    assert_eq!(m.get("j"), Some(&3));
}
