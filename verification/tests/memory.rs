use ant::kernel::memory::{build_filter, filtered_search_sql, where_clause, MemoryFilters};

#[test]
fn filters_become_conditions_in_order() {
    let mut f = MemoryFilters::default();
    f.tool = Some("git".into());
    f.session_id = Some("s1".into());
    f.tags = Some(vec!["a".into(), "b\"c".into()]);
    f.to_date = Some("2024-01-01T00:00:00+00:00".into());
    let q = build_filter(&f);
    assert_eq!(
        q.clauses,
        vec![
            "session_id = ?".to_string(),
            "json_extract(metadata, '$.tags') LIKE ?".to_string(),
            "json_extract(metadata, '$.tool') = ?".to_string(),
            "created_at <= ?".to_string()
        ]
    );
    assert_eq!(q.params[1], "%[\"a\",\"b\\\"c\"]%");
    assert_eq!(q.params[2], "git");
}

#[test]
fn where_clause_and_query() {
    assert_eq!(where_clause(&vec![]), "");
    assert_eq!(where_clause(&vec!["a = ?".into(), "b = ?".into()]), "WHERE a = ? AND b = ?");
    let sql = filtered_search_sql("WHERE a = ?");
    assert!(sql.starts_with("WITH vector_scores AS ("));
    assert!(sql.contains("FROM knowledge_base\n                WHERE a = ?\n            )"));
    assert!(sql.ends_with("LIMIT ?"));
    let none = build_filter(&MemoryFilters::default());
    assert!(none.clauses.is_empty() && none.params.is_empty());
}

#[test]
fn tags_are_written_as_compact_json() {
    let mut f = MemoryFilters::default();
    f.tags = Some(vec!["x\\y".into(), "l\n\t\r".into(), "\u{1}\u{1f}".into(), "ю/".into()]);
    let q = build_filter(&f);
    assert_eq!(q.params[0], "%[\"x\\\\y\",\"l\\n\\t\\r\",\"\\u0001\\u001f\",\"ю/\"]%");
    f.tags = Some(vec![]);
    assert_eq!(build_filter(&f).params[0], "%[]%");
}
