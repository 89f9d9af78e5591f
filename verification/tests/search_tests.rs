use bq_meta::error::ErrorKind;
use bq_meta::models::{ColumnInfo, MatchType, SearchResult, TableInfo, TableMetadata};
use bq_meta::ranking::{dedupe, sort_by_table};
use bq_meta::search::{
    collect_hits, compile_pattern, matches_pattern, search_tables, search_with, SearchOptions,
};
use bq_meta::storage::{save_table_metadata, FileContent, Store};
use regex::Regex;

fn column(name: &str, description: Option<&str>) -> ColumnInfo {
    ColumnInfo {
        name: name.to_string(),
        column_type: "STRING".to_string(),
        description: description.map(|d| d.to_string()),
        mode: None,
    }
}

fn table(
    project: &str,
    dataset: &str,
    name: &str,
    description: Option<&str>,
    columns: Vec<ColumnInfo>,
) -> TableMetadata {
    TableMetadata {
        table: TableInfo {
            name: name.to_string(),
            project_id: project.to_string(),
            dataset_id: dataset.to_string(),
            description: description.map(|d| d.to_string()),
        },
        columns,
    }
}

fn options(pattern: &str) -> SearchOptions {
    SearchOptions { pattern: pattern.to_string(), ..SearchOptions::default() }
}

fn sample_store() -> Store {
    let mut store = Store::new();
    save_table_metadata(
        &mut store,
        &table(
            "shop",
            "sales",
            "user_events",
            Some("Events raised by users"),
            vec![
                column("user_id", Some("Identifier of the user")),
                column("event", Some("What happened")),
                column("ts", None),
            ],
        ),
    );
    save_table_metadata(
        &mut store,
        &table(
            "shop",
            "sales",
            "orders",
            Some("Orders placed"),
            vec![column("order_id", None), column("user_id", Some("Who ordered"))],
        ),
    );
    save_table_metadata(
        &mut store,
        &table("shop", "stock", "items", None, vec![column("sku", Some("Stock keeping unit"))]),
    );
    save_table_metadata(
        &mut store,
        &table("lab", "raw", "users", Some("All USERS"), vec![column("name", None)]),
    );
    store
}

fn result(
    table_path: &str,
    match_type: MatchType,
    content: &str,
    context: Option<&str>,
) -> SearchResult {
    SearchResult {
        table_path: table_path.to_string(),
        match_type,
        matched_content: content.to_string(),
        context: context.map(|c| c.to_string()),
    }
}

#[test]
fn test_matches_pattern() {
    // Case insensitive substring match
    assert!(matches_pattern("user_events", "user", &None, false));
    assert!(matches_pattern("user_events", "USER", &None, false));
    assert!(!matches_pattern("events", "user", &None, false));

    // Case sensitive substring match
    assert!(matches_pattern("user_events", "user", &None, true));
    assert!(!matches_pattern("user_events", "USER", &None, true));

    // Regex match
    let regex = Regex::new(r"^user_.*").unwrap();
    assert!(matches_pattern("user_events", "", &Some(regex), false));

    let regex = Regex::new(r"events$").unwrap();
    assert!(matches_pattern("user_events", "", &Some(regex.clone()), false));
    assert!(!matches_pattern("user_data", "", &Some(regex), false));
}

#[test]
fn literal_match_edges() {
    assert!(matches_pattern("abc", "", &None, true));
    assert!(matches_pattern("", "", &None, false));
    assert!(!matches_pattern("", "a", &None, true));
    assert!(matches_pattern("abc", "abc", &None, true));
    assert!(!matches_pattern("abc", "abcd", &None, true));
    assert!(matches_pattern("xxabc", "abc", &None, true));
    assert!(matches_pattern("ÄPFEL", "äpfel", &None, false));
    assert!(!matches_pattern("ÄPFEL", "äpfel", &None, true));
}

#[test]
fn default_options_search_names_only() {
    let o = SearchOptions::default();
    assert_eq!(o.pattern, "");
    assert!(!o.regex && !o.case_sensitive && !o.search_all);
    assert!(!o.search_table_desc && !o.search_column_name && !o.search_column_desc);
    assert_eq!(o.project_filter, None);
    assert_eq!(o.dataset_filter, None);
}

#[test]
fn search_by_name_finds_the_table() {
    let mut store = Store::new();
    save_table_metadata(
        &mut store,
        &table("shop", "sales", "user_events", Some("about users"), vec![column("user_id", None)]),
    );
    let found = search_tables(&store, &options("user")).unwrap();
    assert_eq!(
        found,
        vec![result("shop.sales.user_events", MatchType::TableName, "user_events", None)]
    );
}

#[test]
fn search_by_name_is_case_insensitive_by_default() {
    let store = sample_store();
    let found = search_tables(&store, &options("USER")).unwrap();
    assert_eq!(
        found,
        vec![
            result("lab.raw.users", MatchType::TableName, "users", None),
            result("shop.sales.user_events", MatchType::TableName, "user_events", None),
        ]
    );
    let mut strict = options("USER");
    strict.case_sensitive = true;
    assert_eq!(search_tables(&store, &strict).unwrap(), vec![]);
}

#[test]
fn search_column_descriptions_names_the_column() {
    let store = sample_store();
    let mut o = options("user");
    o.search_column_desc = true;
    let found = search_tables(&store, &o).unwrap();
    assert_eq!(
        found,
        vec![result(
            "shop.sales.user_events",
            MatchType::ColumnDescription,
            "Identifier of the user",
            Some("Column: user_id"),
        )]
    );
}

#[test]
fn table_name_alone_gives_nothing_when_only_columns_are_searched() {
    let mut store = Store::new();
    save_table_metadata(
        &mut store,
        &table("p", "d", "user_events", None, vec![column("id", Some("a key"))]),
    );
    let mut o = options("user");
    o.search_column_desc = true;
    assert_eq!(search_tables(&store, &o).unwrap(), vec![]);
    o.search_column_desc = false;
    o.search_column_name = true;
    assert_eq!(search_tables(&store, &o).unwrap(), vec![]);
}

#[test]
fn search_column_names() {
    let store = sample_store();
    let mut o = options("user_id");
    o.search_column_name = true;
    let found = search_tables(&store, &o).unwrap();
    assert_eq!(
        found,
        vec![
            result("shop.sales.orders", MatchType::ColumnName, "user_id", Some("Column: user_id")),
            result(
                "shop.sales.user_events",
                MatchType::ColumnName,
                "user_id",
                Some("Column: user_id"),
            ),
        ]
    );
}

#[test]
fn description_flag_also_checks_the_name() {
    let store = sample_store();
    let mut o = options("users");
    o.search_table_desc = true;
    let found = search_tables(&store, &o).unwrap();
    assert_eq!(
        found,
        vec![
            result("lab.raw.users", MatchType::TableName, "users", None),
            result("lab.raw.users", MatchType::TableDescription, "All USERS", None),
            result(
                "shop.sales.user_events",
                MatchType::TableDescription,
                "Events raised by users",
                None,
            ),
        ]
    );
}

#[test]
fn search_all_orders_fields_within_a_table() {
    let store = sample_store();
    let mut o = options("user");
    o.search_all = true;
    o.project_filter = Some("shop".to_string());
    o.dataset_filter = Some("sales".to_string());
    let found = search_tables(&store, &o).unwrap();
    assert_eq!(
        found,
        vec![
            result("shop.sales.orders", MatchType::ColumnName, "user_id", Some("Column: user_id")),
            result("shop.sales.user_events", MatchType::TableName, "user_events", None),
            result(
                "shop.sales.user_events",
                MatchType::TableDescription,
                "Events raised by users",
                None,
            ),
            result(
                "shop.sales.user_events",
                MatchType::ColumnName,
                "user_id",
                Some("Column: user_id"),
            ),
            result(
                "shop.sales.user_events",
                MatchType::ColumnDescription,
                "Identifier of the user",
                Some("Column: user_id"),
            ),
        ]
    );
}

#[test]
fn search_respects_the_project_filter() {
    let store = sample_store();
    let mut o = options("user");
    o.project_filter = Some("lab".to_string());
    assert_eq!(
        search_tables(&store, &o).unwrap(),
        vec![result("lab.raw.users", MatchType::TableName, "users", None)]
    );
}

#[test]
fn search_refuses_a_dataset_without_a_project() {
    let store = sample_store();
    let mut o = options("user");
    o.dataset_filter = Some("sales".to_string());
    let e = search_tables(&store, &o).unwrap_err();
    assert_eq!(e.kind, ErrorKind::InvalidInput);
    assert_eq!(e.to_string(), "Cannot specify dataset without project");
    let e = search_with(&store, &o, &None).unwrap_err();
    assert_eq!(e.kind, ErrorKind::InvalidInput);
}

#[test]
fn search_with_an_invalid_regex_fails() {
    let store = sample_store();
    let mut o = options("user(");
    o.regex = true;
    let e = search_tables(&store, &o).unwrap_err();
    assert_eq!(e.kind, ErrorKind::InvalidInput);
    assert_eq!(e.to_string(), "Invalid regular expression: user(");
    let e = search_tables(&Store::new(), &o).unwrap_err();
    assert_eq!(e.kind, ErrorKind::InvalidInput);
}

#[test]
fn invalid_regex_is_no_error_in_literal_mode() {
    let mut store = Store::new();
    save_table_metadata(&mut store, &table("p", "d", "user(x", None, vec![]));
    let found = search_tables(&store, &options("user(")).unwrap();
    assert_eq!(found, vec![result("p.d.user(x", MatchType::TableName, "user(x", None)]);
}

#[test]
fn search_with_regex() {
    let store = sample_store();
    let mut o = options("^user");
    o.regex = true;
    assert_eq!(
        search_tables(&store, &o).unwrap(),
        vec![
            result("lab.raw.users", MatchType::TableName, "users", None),
            result("shop.sales.user_events", MatchType::TableName, "user_events", None),
        ]
    );
    let mut o = options("^USER_");
    o.regex = true;
    assert_eq!(
        search_tables(&store, &o).unwrap(),
        vec![result("shop.sales.user_events", MatchType::TableName, "user_events", None)]
    );
    o.case_sensitive = true;
    assert_eq!(search_tables(&store, &o).unwrap(), vec![]);
}

#[test]
fn compile_pattern_follows_the_mode() {
    let o = options("a+");
    assert!(compile_pattern(&o).unwrap().is_none());
    let mut o = options("a+");
    o.regex = true;
    let re = compile_pattern(&o).unwrap().unwrap();
    assert_eq!(re.as_str(), "(?i)a+");
    assert!(re.is_match("xAAy"));
    o.case_sensitive = true;
    let re = compile_pattern(&o).unwrap().unwrap();
    assert_eq!(re.as_str(), "a+");
    assert!(!re.is_match("xAAy"));
    let mut bad = options("[");
    bad.regex = true;
    assert_eq!(compile_pattern(&bad).unwrap_err().kind, ErrorKind::InvalidInput);
}

#[test]
fn search_skips_files_that_hold_no_document() {
    let mut store = sample_store();
    store.insert_file(
        vec!["shop".to_string(), "sales".to_string(), "user_broken.yaml".to_string()],
        FileContent::Malformed,
    );
    store.insert_file(
        vec!["shop".to_string(), "sales".to_string(), "user_locked.yaml".to_string()],
        FileContent::Unreadable,
    );
    let found = search_tables(&store, &options("user")).unwrap();
    assert_eq!(
        found,
        vec![
            result("lab.raw.users", MatchType::TableName, "users", None),
            result("shop.sales.user_events", MatchType::TableName, "user_events", None),
        ]
    );
}

#[test]
fn search_uses_the_name_of_the_file() {
    let mut store = Store::new();
    store.insert_file(
        vec!["p".to_string(), "d".to_string(), "stored_name.yaml".to_string()],
        FileContent::Document(table("other", "place", "inner_name", None, vec![])),
    );
    assert_eq!(
        search_tables(&store, &options("stored")).unwrap(),
        vec![result("p.d.stored_name", MatchType::TableName, "stored_name", None)]
    );
    assert_eq!(search_tables(&store, &options("inner")).unwrap(), vec![]);
}

#[test]
fn duplicates_keep_the_first_hit() {
    let mut store = Store::new();
    save_table_metadata(
        &mut store,
        &table(
            "p",
            "d",
            "t",
            None,
            vec![column("a", Some("same text")), column("b", Some("same text"))],
        ),
    );
    let mut o = options("same");
    o.search_column_desc = true;
    assert_eq!(
        search_tables(&store, &o).unwrap(),
        vec![result("p.d.t", MatchType::ColumnDescription, "same text", Some("Column: a"))]
    );
    let ids = vec![("p".to_string(), "d".to_string(), "t".to_string())];
    let hits = collect_hits(&store, &ids, &o, &None);
    assert_eq!(hits.len(), 2);
    assert_eq!(hits[1].context, Some("Column: b".to_string()));
}

#[test]
fn dedupe_compares_table_kind_and_text() {
    let hits = vec![
        result("a.b.c", MatchType::ColumnName, "x", Some("Column: x")),
        result("a.b.c", MatchType::ColumnDescription, "x", Some("Column: x")),
        result("a.b.c", MatchType::ColumnName, "x", Some("Column: other")),
        result("a.b.d", MatchType::ColumnName, "x", Some("Column: x")),
        result("a.b.c", MatchType::ColumnName, "y", None),
        result("a.b.c", MatchType::ColumnDescription, "x", None),
    ];
    assert_eq!(
        dedupe(&hits),
        vec![
            result("a.b.c", MatchType::ColumnName, "x", Some("Column: x")),
            result("a.b.c", MatchType::ColumnDescription, "x", Some("Column: x")),
            result("a.b.d", MatchType::ColumnName, "x", Some("Column: x")),
            result("a.b.c", MatchType::ColumnName, "y", None),
        ]
    );
    assert_eq!(dedupe(&Vec::new()), Vec::new());
}

#[test]
fn sort_by_table_is_stable() {
    let hits = vec![
        result("b", MatchType::TableName, "1", None),
        result("a", MatchType::TableName, "2", None),
        result("b", MatchType::ColumnName, "3", None),
        result("a", MatchType::ColumnName, "4", None),
        result("ab", MatchType::ColumnName, "5", None),
        result("B", MatchType::ColumnName, "6", None),
    ];
    assert_eq!(
        sort_by_table(&hits),
        vec![
            result("B", MatchType::ColumnName, "6", None),
            result("a", MatchType::TableName, "2", None),
            result("a", MatchType::ColumnName, "4", None),
            result("ab", MatchType::ColumnName, "5", None),
            result("b", MatchType::TableName, "1", None),
            result("b", MatchType::ColumnName, "3", None),
        ]
    );
}

#[test]
fn match_type_labels() {
    assert_eq!(MatchType::TableName.to_string(), "TABLE");
    assert_eq!(MatchType::TableDescription.to_string(), "DESC");
    assert_eq!(MatchType::ColumnName.to_string(), "COL");
    assert_eq!(MatchType::ColumnDescription.to_string(), "COL-DESC");
}

#[test]
fn column_description_hit_is_found_with_its_column() {
    let mut store = sample_store();
    save_table_metadata(
        &mut store,
        &table(
            "shop",
            "sales",
            "visits",
            None,
            vec![
                column("who", Some("Identifier of the user")),
                column("page", Some("Page that the user saw")),
            ],
        ),
    );
    for case_sensitive in [false, true] {
        let mut o = options("user");
        o.search_column_desc = true;
        o.case_sensitive = case_sensitive;
        let found = search_tables(&store, &o).unwrap();
        for (path, text, name) in [
            ("shop.sales.user_events", "Identifier of the user", "Column: user_id"),
            ("shop.sales.visits", "Identifier of the user", "Column: who"),
            ("shop.sales.visits", "Page that the user saw", "Column: page"),
        ] {
            assert!(found.contains(&result(path, MatchType::ColumnDescription, text, Some(name))));
        }
        assert_eq!(found.len(), 3);
    }
}

#[test]
fn tables_with_one_dotted_name_keep_the_first_of_equal_hits() {
    let mut store = Store::new();
    save_table_metadata(
        &mut store,
        &table("a.b", "c", "t", None, vec![column("y", Some("same text"))]),
    );
    save_table_metadata(
        &mut store,
        &table("a", "b.c", "t", None, vec![column("x", Some("same text"))]),
    );
    let mut o = options("same");
    o.search_column_desc = true;
    assert_eq!(
        search_tables(&store, &o).unwrap(),
        vec![result("a.b.c.t", MatchType::ColumnDescription, "same text", Some("Column: x"))]
    );
}
