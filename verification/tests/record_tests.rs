use maxbib::record::QueryData;
use maxbib::record::RawRecord;

fn record_of(pairs: &[(&str, &str)]) -> RawRecord {
    RawRecord {
        fields: pairs.iter().map(|(k, v)| (k.to_string(), v.to_string())).collect(),
    }
}

#[test]
fn querydata_builds_correctly_multiples() {
    let v = record_of(&[("title", "a test title"), ("author", "arthur grunp")]);
    let query = QueryData::build(
        0,
        &v,
        &vec![vec!["title", "author"], vec!["author", "title", "title"]],
    );
    assert_eq!(
        query,
        QueryData {
            strings: vec![
                String::from("a test title\narthur grunp"),
                String::from("arthur grunp\na test title\na test title")
            ],
            id: 0
        }
    )
}

#[test]
fn querydata_build_truncates_to_1024_chars() {
    let long_str: String = (0..1050).map(|_| 'a').collect();
    let shorter_str: String = (0..1024).map(|_| 'a').collect();
    let v = record_of(&[("long", &long_str)]);
    let query = QueryData::build(0, &v, &vec![vec!["long", "long"]]);
    assert_eq!(query.strings, vec![shorter_str]);
}

#[test]
fn build_keeps_category_count_with_missing_fields() {
    let v = record_of(&[("title", "x")]);
    let query = QueryData::build(3, &v, &vec![vec!["title"], vec!["absent"]]);
    assert_eq!(query.strings.len(), 2);
    assert_eq!(query.strings[0], "x");
    assert_eq!(query.strings[1], "");
    assert_eq!(query.id, 3);

    let empty = record_of(&[]);
    let query = QueryData::build(9, &empty, &vec![vec!["a"], vec!["b"], vec!["c"]]);
    assert_eq!(query.strings.len(), 3);
    assert_eq!(query.strings, vec!["", "", ""]);
}

#[test]
fn build_joins_with_newlines_keeping_missing_slots() {
    let v = record_of(&[("title", "x")]);
    let query = QueryData::build(0, &v, &vec![vec!["title", "absent", "title"]]);
    assert_eq!(query.strings, vec!["x\n\nx"]);
}

#[test]
fn build_uses_first_matching_field() {
    let v = record_of(&[("k", "first"), ("k", "second")]);
    let query = QueryData::build(0, &v, &vec![vec!["k"]]);
    assert_eq!(query.strings, vec!["first"]);
}

#[test]
fn build_keeps_strings_at_limit_unchanged() {
    let exact: String = (0..1024).map(|_| 'b').collect();
    let v = record_of(&[("f", &exact)]);
    let query = QueryData::build(0, &v, &vec![vec!["f"]]);
    assert_eq!(query.strings, vec![exact.clone()]);

    let under: String = (0..1023).map(|_| 'c').collect();
    let v = record_of(&[("f", &under)]);
    let query = QueryData::build(0, &v, &vec![vec!["f"]]);
    assert_eq!(query.strings, vec![under.clone()]);

    let over: String = (0..1025).map(|_| 'd').collect();
    let v = record_of(&[("f", &over)]);
    let query = QueryData::build(0, &v, &vec![vec!["f"]]);
    assert_eq!(query.strings[0].chars().count(), 1024);
}

#[test]
fn raw_record_lookup() {
    let v = record_of(&[("title", "x"), ("year", "1999")]);
    assert_eq!(v.get("year"), Some(&"1999".to_string()));
    assert_eq!(v.get("absent"), None);
}

#[test]
fn querydata_len_counts_categories() {
    let v = record_of(&[("title", "x")]);
    let query = QueryData::build(0, &v, &vec![vec!["title"], vec!["title"]]);
    assert_eq!(query.len(), 2);
    let none: QueryData = Default::default();
    assert_eq!(none.len(), 0);
    assert_eq!(none.id, 0);
}
