use bbm::table::{format_table, lex_less, table_layout};

fn rec(fields: &[(&str, &str)]) -> Vec<(String, String)> {
    fields.iter().map(|(k, v)| (k.to_string(), v.to_string())).collect()
}

#[test]
fn headers_are_the_sorted_union_of_field_names() {
    let records = vec![rec(&[("timestamp", "t1"), ("id", "1")]), rec(&[("plan_id", "p"), ("id", "2")])];
    let (headers, rows) = table_layout(&records);
    assert_eq!(headers, vec!["id", "plan_id", "timestamp"]);
    assert_eq!(rows, vec![vec!["1", "", "t1"], vec!["2", "p", ""]]);
}

#[test]
fn upper_case_sorts_before_lower_case() {
    let records = vec![rec(&[("b", "1"), ("B", "2"), ("a", "3"), ("ab", "4")])];
    let (headers, rows) = table_layout(&records);
    assert_eq!(headers, vec!["B", "a", "ab", "b"]);
    assert_eq!(rows, vec![vec!["2", "3", "4", "1"]]);
}

#[test]
fn no_records_draw_nothing() {
    assert_eq!(format_table(&Vec::new()), "");
}

#[test]
fn a_table_is_drawn_with_its_header() {
    let records = vec![rec(&[("id", "1"), ("plan_id", "p1")])];
    let text = format_table(&records);
    assert!(text.contains("id"));
    assert!(text.contains("plan_id"));
    assert!(text.contains("p1"));
    assert!(text.lines().count() >= 5, "{text}");
}

#[test]
fn lexicographic_order_of_characters() {
    let v = |s: &str| s.chars().collect::<Vec<char>>();
    assert!(lex_less(&v("a"), &v("b")));
    assert!(lex_less(&v("a"), &v("ab")));
    assert!(!lex_less(&v("ab"), &v("a")));
    assert!(!lex_less(&v("a"), &v("a")));
    assert!(lex_less(&v(""), &v("a")));
    assert!(lex_less(&v("Z"), &v("a")));
}
