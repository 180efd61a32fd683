//! Tests of the individual grammar productions.

use phylum::layout::yarn_line_ending;
use phylum::literal::{yarn_string, Expected, Outcome, SourceString};
use phylum::position::get_position;
use phylum::structure::{yarn_map, MapEntry, Value};

fn lit(r: Outcome<SourceString>) -> (usize, String) {
    match r {
        Outcome::Match(p, s) => (p, s.text),
        other => panic!("expected a literal match, got {:?}", other),
    }
}

fn table(r: Outcome<Vec<MapEntry>>) -> (usize, Vec<MapEntry>) {
    match r {
        Outcome::Match(p, es) => (p, es),
        other => panic!("expected a map match, got {:?}", other),
    }
}

fn str_val(v: &Value) -> &str {
    match v {
        Value::Str(s) => s.text.as_str(),
        other => panic!("expected a string value, got {:?}", other),
    }
}

fn table_val(v: &Value) -> &Vec<MapEntry> {
    match v {
        Value::Table(es) => es,
        other => panic!("expected a map value, got {:?}", other),
    }
}

#[test]
fn parse_string() {
    assert_eq!(lit(yarn_string("a", 0)), (1, "a".to_string()));
    assert_eq!(lit(yarn_string("a ", 0)), (1, "a".to_string()));
    assert_eq!(lit(yarn_string("a:", 0)), (1, "a".to_string()));
    assert_eq!(lit(yarn_string("a\n", 0)), (1, "a".to_string()));

    assert_eq!(lit(yarn_string(r#""a""#, 0)), (3, "a".to_string()));
    assert_eq!(lit(yarn_string(r#""a" "#, 0)), (3, "a".to_string()));
    assert_eq!(lit(yarn_string(r#""a":"#, 0)), (3, "a".to_string()));
    assert_eq!(lit(yarn_string(r#""a: ""#, 0)), (5, "a: ".to_string()));

    assert!(matches!(yarn_string("", 0), Outcome::Soft));
    assert!(matches!(yarn_string(" ", 0), Outcome::Soft));

    match yarn_string(r#""a"#, 0) {
        Outcome::Hard(e) => {
            assert_eq!(e.offset, 2);
            assert_eq!(e.expected, Expected::ClosingQuote);
        }
        other => panic!("expected a hard failure, got {:?}", other),
    }
}

#[test]
fn parse_line_ending() {
    assert_eq!(yarn_line_ending("", 0), Some(0));
    assert_eq!(yarn_line_ending("\n", 0), Some(1));
    assert_eq!(yarn_line_ending("\na", 0), Some(1));
    assert_eq!(yarn_line_ending("#comment\na", 0), Some(9));
    assert_eq!(yarn_line_ending(" \n #comment\n\na\n", 0), Some(13));
}

#[test]
fn parse_map() {
    let (p, es) = table(yarn_map(r#"a "b""#, 0, 0));
    assert_eq!(p, 5);
    assert_eq!(es.len(), 1);
    assert_eq!(es[0].key.text, "a");
    assert_eq!(str_val(&es[0].val), "b");

    let (p, es) = table(yarn_map(r#""a" "b""#, 0, 0));
    assert_eq!(p, 7);
    assert_eq!(es.len(), 1);
    assert_eq!(es[0].key.text, "a");
    assert_eq!(str_val(&es[0].val), "b");

    let (p, es) = table(yarn_map("a:\n  b", 0, 0));
    assert_eq!(p, 6);
    assert_eq!(es.len(), 1);
    assert_eq!(es[0].key.text, "a");
    assert_eq!(str_val(&es[0].val), "b");

    let (p, es) = table(yarn_map("a:\n  b \"c\"", 0, 0));
    assert_eq!(p, 10);
    assert_eq!(es.len(), 1);
    assert_eq!(es[0].key.text, "a");
    let inner = table_val(&es[0].val);
    assert_eq!(inner.len(), 1);
    assert_eq!(inner[0].key.text, "b");
    assert_eq!(str_val(&inner[0].val), "c");

    let (p, es) = table(yarn_map("a:\n  b:\n  c \"d\"", 0, 0));
    assert_eq!(p, 15);
    assert_eq!(es.len(), 1);
    assert_eq!(es[0].key.text, "a");
    let inner = table_val(&es[0].val);
    assert_eq!(inner.len(), 2);
    assert_eq!(inner[0].key.text, "b");
    assert_eq!(table_val(&inner[0].val).len(), 0);
    assert_eq!(inner[1].key.text, "c");
    assert_eq!(str_val(&inner[1].val), "d");

    let (p, es) = table(yarn_map(r#"a,b "c""#, 0, 0));
    assert_eq!(p, 7);
    assert_eq!(es.len(), 2);
    assert_eq!(es[0].key.text, "a");
    assert_eq!(str_val(&es[0].val), "c");
    assert_eq!(es[1].key.text, "b");
    assert_eq!(str_val(&es[1].val), "c");
}

#[test]
fn get_position_test() {
    let text = "0123\n5678";
    assert_eq!(get_position(text, 0), (1, 1));
    assert_eq!(get_position(text, 1), (1, 2));
    assert_eq!(get_position(text, 3), (1, 4));
    assert_eq!(get_position(text, 5), (2, 1));
    assert_eq!(get_position(text, 8), (2, 4));
}

#[test]
fn literal_decoding() {
    // A quoted literal decodes JSON escapes; the span keeps the quotes.
    let (p, text) = lit(yarn_string(r#""a: b""#, 0));
    assert_eq!(p, 6);
    assert_eq!(text, "a: b");
    assert_eq!(text.chars().count(), "a: b".chars().count());

    let (p, text) = lit(yarn_string(r#""a\nb""#, 0));
    assert_eq!(p, 6);
    assert_eq!(text, "a\nb");

    let (p, text) = lit(yarn_string("\"a\\u0041\"", 0));
    assert_eq!(p, 9);
    assert_eq!(text, "aA");

    // A raw literal stops right before a colon.
    let (p, text) = lit(yarn_string("a:", 0));
    assert_eq!(p, 1);
    assert_eq!(text, "a");
}

#[test]
fn source_string_equality() {
    // Equality is on the decoded text only, not on the position.
    let at_start = match yarn_string("a b", 0) {
        Outcome::Match(_, s) => s,
        other => panic!("expected a match, got {:?}", other),
    };
    let at_end = match yarn_string("b a", 2) {
        Outcome::Match(_, s) => s,
        other => panic!("expected a match, got {:?}", other),
    };
    assert_ne!(at_start.offset, at_end.offset);
    assert_eq!(at_start, at_end);

    // A quoted and a raw literal with the same decoded text compare equal.
    let quoted = match yarn_string("\"a\"", 0) {
        Outcome::Match(_, s) => s,
        other => panic!("expected a match, got {:?}", other),
    };
    assert_eq!(quoted, at_start);
}

#[test]
fn raw_literal_starts() {
    // Raw literals may start with an alphabetic character or / . -
    assert_eq!(lit(yarn_string("/x", 0)), (2, "/x".to_string()));
    assert_eq!(lit(yarn_string(".1", 0)), (2, ".1".to_string()));
    assert_eq!(lit(yarn_string("-a", 0)), (2, "-a".to_string()));
    // ... but not with a digit or punctuation.
    assert!(matches!(yarn_string("1a", 0), Outcome::Soft));
    assert!(matches!(yarn_string(":a", 0), Outcome::Soft));
}

#[test]
fn layout_tolerance() {
    // Blank and comment-only lines between entries never affect the tree.
    let (p, es) = table(yarn_map("x \"y\"\n #comment\n\na \"b\"\n", 0, 0));
    assert_eq!(p, 23);
    assert_eq!(es.len(), 2);
    assert_eq!(es[0].key.text, "x");
    assert_eq!(str_val(&es[0].val), "y");
    assert_eq!(es[1].key.text, "a");
    assert_eq!(str_val(&es[1].val), "b");
}

#[test]
fn duplicate_key_overwrites() {
    // A repeated key at one level keeps its position, with the later value.
    let (_, es) = table(yarn_map("a \"1\"\nb \"2\"\na \"3\"\n", 0, 0));
    assert_eq!(es.len(), 2);
    assert_eq!(es[0].key.text, "a");
    assert_eq!(str_val(&es[0].val), "3");
    assert_eq!(es[1].key.text, "b");
    assert_eq!(str_val(&es[1].val), "2");
}

#[test]
fn multi_key_values_are_copies() {
    let (_, es) = table(yarn_map(r#"a,b "c""#, 0, 0));
    assert_eq!(es.len(), 2);
    // Each key holds its own copy of the shared value.
    let first = str_val(&es[0].val).to_string();
    let second = str_val(&es[1].val).to_string();
    assert_eq!(first, second);
    assert_eq!(first, "c");
}
