use bq_meta::catalog::{
    create_table_metadata, edit_column_description, export_table_metadata, find_column,
    import_format, import_table_metadata,
};
use bq_meta::error::ErrorKind;
use bq_meta::ident::{compare_ids, dotted_name};
use bq_meta::models::{ColumnInfo, OutputFormat, TableInfo, TableMetadata};
use bq_meta::paths::{get_table_path, same_path, table_file, table_of_file};
use bq_meta::storage::{
    delete_table_metadata, list_tables, load_table_metadata, save_table_metadata, scan_root,
    FileContent, Store,
};
use bq_meta::text::{chars_of, compare, contains, ends_with, str_eq, Rank};

fn column(name: &str, description: Option<&str>) -> ColumnInfo {
    ColumnInfo {
        name: name.to_string(),
        column_type: "INT64".to_string(),
        description: description.map(|d| d.to_string()),
        mode: Some("NULLABLE".to_string()),
    }
}

fn table(project: &str, dataset: &str, name: &str, columns: Vec<ColumnInfo>) -> TableMetadata {
    TableMetadata {
        table: TableInfo {
            name: name.to_string(),
            project_id: project.to_string(),
            dataset_id: dataset.to_string(),
            description: Some(format!("about {}", name)),
        },
        columns,
    }
}

fn id(p: &str, d: &str, t: &str) -> (String, String, String) {
    (p.to_string(), d.to_string(), t.to_string())
}

fn path(parts: &[&str]) -> Vec<String> {
    parts.iter().map(|p| p.to_string()).collect()
}

fn filled() -> Store {
    let mut store = Store::new();
    for (p, d, t) in [
        ("zeta", "a", "t1"),
        ("alpha", "b", "t2"),
        ("alpha", "a", "t9"),
        ("alpha", "a", "t10"),
        ("alpha", "ab", "t0"),
        ("beta", "a", "t1"),
    ] {
        save_table_metadata(&mut store, &table(p, d, t, vec![]));
    }
    store
}

#[test]
fn table_path_formula() {
    assert_eq!(
        get_table_path("/home/u/.bq-meta/data", "proj", "ds", "tbl"),
        "/home/u/.bq-meta/data/proj/ds/tbl.yaml"
    );
    assert_eq!(get_table_path("", "", "", ""), "///.yaml");
    assert_eq!(table_file("proj", "ds", "tbl"), path(&["proj", "ds", "tbl.yaml"]));
    assert_eq!(dotted_name("proj", "ds", "tbl"), "proj.ds.tbl");
}

#[test]
fn table_path_is_injective_on_plain_names() {
    let a = get_table_path("/r", "p", "d", "t");
    assert_ne!(a, get_table_path("/r", "p", "d", "u"));
    assert_ne!(a, get_table_path("/r", "p", "e", "t"));
    assert_ne!(a, get_table_path("/r", "q", "d", "t"));
    assert_eq!(a, get_table_path("/r", "p", "d", "t"));
}

#[test]
fn file_paths_map_back_to_identifiers() {
    assert_eq!(table_of_file(&path(&["p", "d", "t.yaml"])), Some(id("p", "d", "t")));
    assert_eq!(table_of_file(&path(&["p", "d", "a.b.yaml"])), Some(id("p", "d", "a.b")));
    assert_eq!(table_of_file(&path(&["p", "d", ".x.yaml"])), Some(id("p", "d", ".x")));
    assert_eq!(table_of_file(&path(&["p", "d", ".yaml"])), None);
    assert_eq!(table_of_file(&path(&["p", "d", "t.yml"])), None);
    assert_eq!(table_of_file(&path(&["p", "d", "t.YAML"])), None);
    assert_eq!(table_of_file(&path(&["p", "d", "yaml"])), None);
    assert_eq!(table_of_file(&path(&["p", "d", "t.yaml.bak"])), None);
    assert_eq!(table_of_file(&path(&["p", "t.yaml"])), None);
    assert_eq!(table_of_file(&path(&["t.yaml"])), None);
    assert_eq!(table_of_file(&path(&[])), None);
    assert_eq!(table_of_file(&path(&["p", "d", "e", "t.yaml"])), None);
    assert_eq!(table_of_file(&table_file("p", "d", "t")), Some(id("p", "d", "t")));
}

#[test]
fn save_then_load_round_trips() {
    let mut store = Store::new();
    let doc = table("p", "d", "t", vec![column("a", Some("first")), column("b", None)]);
    let written = save_table_metadata(&mut store, &doc);
    assert_eq!(written, path(&["p", "d", "t.yaml"]));
    assert_eq!(load_table_metadata(&store, "p", "d", "t").unwrap(), doc);
}

#[test]
fn save_twice_is_idempotent() {
    let mut once = Store::new();
    let doc = table("p", "d", "t", vec![column("a", None)]);
    save_table_metadata(&mut once, &doc);
    let mut twice = Store::new();
    save_table_metadata(&mut twice, &doc);
    save_table_metadata(&mut twice, &doc);
    assert_eq!(load_table_metadata(&twice, "p", "d", "t").unwrap(), doc);
    assert_eq!(
        list_tables(&twice, None, None).unwrap(),
        list_tables(&once, None, None).unwrap()
    );
    assert_eq!(list_tables(&twice, None, None).unwrap(), vec![id("p", "d", "t")]);
}

#[test]
fn save_overwrites() {
    let mut store = Store::new();
    save_table_metadata(&mut store, &table("p", "d", "t", vec![column("a", None)]));
    let newer = table("p", "d", "t", vec![column("b", Some("new"))]);
    save_table_metadata(&mut store, &newer);
    assert_eq!(load_table_metadata(&store, "p", "d", "t").unwrap(), newer);
}

#[test]
fn load_reports_each_failure() {
    let mut store = Store::new();
    let e = load_table_metadata(&store, "p", "d", "t").unwrap_err();
    assert_eq!(e.kind, ErrorKind::NotFound);
    assert_eq!(e.to_string(), "Table metadata not found: p.d.t");
    store.insert_file(table_file("p", "d", "t"), FileContent::Malformed);
    let e = load_table_metadata(&store, "p", "d", "t").unwrap_err();
    assert_eq!(e.kind, ErrorKind::Corrupt);
    assert_eq!(e.to_string(), "Failed to parse table metadata: p.d.t");
    store.insert_file(table_file("p", "d", "t"), FileContent::Unreadable);
    let e = load_table_metadata(&store, "p", "d", "t").unwrap_err();
    assert_eq!(e.kind, ErrorKind::StorageIO);
    assert_eq!(e.to_string(), "Failed to read table metadata: p.d.t");
}

#[test]
fn list_is_sorted_and_complete() {
    let store = filled();
    assert_eq!(
        list_tables(&store, None, None).unwrap(),
        vec![
            id("alpha", "a", "t10"),
            id("alpha", "a", "t9"),
            id("alpha", "ab", "t0"),
            id("alpha", "b", "t2"),
            id("beta", "a", "t1"),
            id("zeta", "a", "t1"),
        ]
    );
}

#[test]
fn list_of_an_empty_store_is_empty() {
    assert_eq!(list_tables(&Store::new(), None, None).unwrap(), vec![]);
    assert_eq!(list_tables(&Store::new(), Some("p"), Some("d")).unwrap(), vec![]);
}

#[test]
fn list_filters_by_project_and_dataset() {
    let store = filled();
    assert_eq!(
        list_tables(&store, Some("alpha"), Some("a")).unwrap(),
        vec![id("alpha", "a", "t10"), id("alpha", "a", "t9")]
    );
    assert_eq!(
        list_tables(&store, Some("alpha"), None).unwrap(),
        vec![
            id("alpha", "a", "t10"),
            id("alpha", "a", "t9"),
            id("alpha", "ab", "t0"),
            id("alpha", "b", "t2"),
        ]
    );
    assert_eq!(list_tables(&store, Some("alpha"), Some("zz")).unwrap(), vec![]);
    assert_eq!(list_tables(&store, Some("alph"), None).unwrap(), vec![]);
}

#[test]
fn project_listing_is_the_union_of_its_datasets() {
    let store = filled();
    let mut joined = Vec::new();
    for d in ["a", "ab", "b"] {
        joined.extend(list_tables(&store, Some("alpha"), Some(d)).unwrap());
    }
    assert_eq!(list_tables(&store, Some("alpha"), None).unwrap(), joined);
    let all = list_tables(&store, None, None).unwrap();
    let kept: Vec<_> = all.into_iter().filter(|t| t.0 == "alpha" && t.1 == "a").collect();
    assert_eq!(list_tables(&store, Some("alpha"), Some("a")).unwrap(), kept);
}

#[test]
fn list_refuses_a_dataset_without_a_project() {
    for store in [Store::new(), filled()] {
        let e = list_tables(&store, None, Some("a")).unwrap_err();
        assert_eq!(e.kind, ErrorKind::InvalidInput);
        assert_eq!(e.to_string(), "Cannot specify dataset without project");
    }
    assert_eq!(scan_root(None, Some("a")).unwrap_err().kind, ErrorKind::InvalidInput);
}

#[test]
fn scan_root_follows_the_filters() {
    assert_eq!(scan_root(None, None).unwrap(), path(&[]));
    assert_eq!(scan_root(Some("p"), None).unwrap(), path(&["p"]));
    assert_eq!(scan_root(Some("p"), Some("d")).unwrap(), path(&["p", "d"]));
}

#[test]
fn list_skips_files_at_other_depths_and_other_names() {
    let mut store = Store::new();
    let doc = table("p", "d", "t", vec![]);
    store.insert_file(path(&["top.yaml"]), FileContent::Document(doc.clone()));
    store.insert_file(path(&["p", "shallow.yaml"]), FileContent::Document(doc.clone()));
    store.insert_file(path(&["p", "d", "e", "deep.yaml"]), FileContent::Document(doc.clone()));
    store.insert_file(path(&["p", "d", "notes.txt"]), FileContent::Malformed);
    store.insert_file(path(&["p", "d", ".yaml"]), FileContent::Malformed);
    store.insert_file(path(&["p", "d", "good.yaml"]), FileContent::Document(doc.clone()));
    store.insert_file(path(&["p", "d", "broken.yaml"]), FileContent::Malformed);
    assert_eq!(
        list_tables(&store, None, None).unwrap(),
        vec![id("p", "d", "broken"), id("p", "d", "good")]
    );
}

#[test]
fn delete_removes_the_document() {
    let mut store = filled();
    let removed = delete_table_metadata(&mut store, "alpha", "a", "t9").unwrap();
    assert_eq!(removed, path(&["alpha", "a", "t9.yaml"]));
    let e = load_table_metadata(&store, "alpha", "a", "t9").unwrap_err();
    assert_eq!(e.kind, ErrorKind::NotFound);
    assert_eq!(list_tables(&store, Some("alpha"), Some("a")).unwrap(), vec![id("alpha", "a", "t10")]);
    assert!(load_table_metadata(&store, "alpha", "a", "t10").is_ok());
}

#[test]
fn delete_of_a_missing_document_fails() {
    let mut store = filled();
    let e = delete_table_metadata(&mut store, "alpha", "a", "none").unwrap_err();
    assert_eq!(e.kind, ErrorKind::NotFound);
    assert_eq!(e.to_string(), "Table metadata not found: alpha.a.none");
    assert_eq!(list_tables(&store, None, None).unwrap().len(), 6);
    let e = delete_table_metadata(&mut Store::new(), "p", "d", "t").unwrap_err();
    assert_eq!(e.kind, ErrorKind::NotFound);
}

#[test]
fn store_files() {
    let mut store = Store::new();
    let p = path(&["a", "b", "c.yaml"]);
    assert!(!store.has_file(&p));
    assert_eq!(store.file(&p), None);
    store.insert_file(p.clone(), FileContent::Malformed);
    assert!(store.has_file(&p));
    assert_eq!(store.file(&p), Some(&FileContent::Malformed));
    store.insert_file(p.clone(), FileContent::Unreadable);
    assert_eq!(store.file(&p), Some(&FileContent::Unreadable));
    assert!(!store.has_file(&path(&["a", "b"])));
    assert!(store.remove_file(&p));
    assert!(!store.remove_file(&p));
    assert!(!store.has_file(&p));
}

#[test]
fn import_conflicts_without_force() {
    let mut store = Store::new();
    let old = table("p", "d", "t", vec![column("a", None)]);
    save_table_metadata(&mut store, &old);
    let new = table("p", "d", "t", vec![column("b", Some("imported"))]);
    let e = import_table_metadata(&mut store, &new, false).unwrap_err();
    assert_eq!(e.kind, ErrorKind::Conflict);
    assert_eq!(e.to_string(), "Table metadata already exists: p.d.t (use --force to overwrite)");
    assert_eq!(load_table_metadata(&store, "p", "d", "t").unwrap(), old);
    let written = import_table_metadata(&mut store, &new, true).unwrap();
    assert_eq!(written, path(&["p", "d", "t.yaml"]));
    assert_eq!(load_table_metadata(&store, "p", "d", "t").unwrap(), new);
}

#[test]
fn import_into_a_free_place() {
    let mut store = Store::new();
    let doc = table("p", "d", "t", vec![]);
    assert_eq!(import_table_metadata(&mut store, &doc, false).unwrap(), path(&["p", "d", "t.yaml"]));
    assert_eq!(load_table_metadata(&store, "p", "d", "t").unwrap(), doc);
    let mut store = Store::new();
    assert!(import_table_metadata(&mut store, &doc, true).is_ok());
}

#[test]
fn import_format_by_extension() {
    assert_eq!(import_format("dump.json"), OutputFormat::Json);
    assert_eq!(import_format("dump.yaml"), OutputFormat::Yaml);
    assert_eq!(import_format("dump"), OutputFormat::Yaml);
    assert_eq!(import_format("dump.JSON"), OutputFormat::Yaml);
    assert_eq!(import_format(".json"), OutputFormat::Json);
    assert_eq!(import_format("json"), OutputFormat::Yaml);
}

#[test]
fn create_makes_an_empty_document() {
    let mut store = Store::new();
    let saved = create_table_metadata(&mut store, "p", "d", "t", Some("fresh".to_string()));
    assert_eq!(saved.path, path(&["p", "d", "t.yaml"]));
    assert_eq!(saved.document.table.name, "t");
    assert_eq!(saved.document.table.project_id, "p");
    assert_eq!(saved.document.table.dataset_id, "d");
    assert_eq!(saved.document.table.description, Some("fresh".to_string()));
    assert!(saved.document.columns.is_empty());
    assert_eq!(load_table_metadata(&store, "p", "d", "t").unwrap(), saved.document);
    let saved = create_table_metadata(&mut store, "p", "d", "u", None);
    assert_eq!(saved.document.table.description, None);
}

#[test]
fn edit_sets_the_description_of_the_first_column_of_that_name() {
    let mut store = Store::new();
    save_table_metadata(
        &mut store,
        &table("p", "d", "t", vec![column("a", None), column("b", Some("old")), column("b", None)]),
    );
    let saved =
        edit_column_description(&mut store, "p", "d", "t", "b", "new text".to_string()).unwrap();
    assert_eq!(saved.path, path(&["p", "d", "t.yaml"]));
    let expected = table(
        "p",
        "d",
        "t",
        vec![column("a", None), column("b", Some("new text")), column("b", None)],
    );
    assert_eq!(saved.document, expected);
    assert_eq!(load_table_metadata(&store, "p", "d", "t").unwrap(), expected);
    let saved = edit_column_description(&mut store, "p", "d", "t", "b", String::new()).unwrap();
    assert_eq!(saved.document.columns[1].description, None);
    assert_eq!(find_column(&saved.document, "b"), Some(1));
    assert_eq!(find_column(&saved.document, "c"), None);
}

#[test]
fn edit_reports_a_missing_table_or_column() {
    let mut store = Store::new();
    let e = edit_column_description(&mut store, "p", "d", "t", "a", "x".to_string()).unwrap_err();
    assert_eq!(e.kind, ErrorKind::NotFound);
    assert_eq!(e.to_string(), "Table metadata not found: p.d.t");
    let doc = table("p", "d", "t", vec![column("a", None)]);
    save_table_metadata(&mut store, &doc);
    let e = edit_column_description(&mut store, "p", "d", "t", "zz", "x".to_string()).unwrap_err();
    assert_eq!(e.kind, ErrorKind::NotFound);
    assert_eq!(e.to_string(), "Column 'zz' not found in table");
    assert_eq!(load_table_metadata(&store, "p", "d", "t").unwrap(), doc);
}

#[test]
fn export_checks_the_document_then_the_format() {
    let mut store = Store::new();
    let doc = table("p", "d", "t", vec![column("a", None)]);
    save_table_metadata(&mut store, &doc);
    assert_eq!(
        export_table_metadata(&store, "p", "d", "t", "json").unwrap(),
        (doc.clone(), OutputFormat::Json)
    );
    assert_eq!(
        export_table_metadata(&store, "p", "d", "t", "yaml").unwrap(),
        (doc.clone(), OutputFormat::Yaml)
    );
    let e = export_table_metadata(&store, "p", "d", "t", "table").unwrap_err();
    assert_eq!(e.kind, ErrorKind::InvalidInput);
    assert_eq!(e.to_string(), "Unsupported format: table");
    let e = export_table_metadata(&store, "p", "d", "t", "xml").unwrap_err();
    assert_eq!(e.to_string(), "Unsupported format: xml");
    let e = export_table_metadata(&store, "p", "d", "none", "xml").unwrap_err();
    assert_eq!(e.kind, ErrorKind::NotFound);
}

#[test]
fn identifiers_are_ordered_part_by_part() {
    assert_eq!(compare_ids(&id("a", "z", "z"), &id("b", "a", "a")), Rank::Before);
    assert_eq!(compare_ids(&id("a", "b", "z"), &id("a", "c", "a")), Rank::Before);
    assert_eq!(compare_ids(&id("a", "b", "c"), &id("a", "b", "c")), Rank::Same);
    assert_eq!(compare_ids(&id("a", "b", "d"), &id("a", "b", "c")), Rank::After);
    assert_eq!(compare_ids(&id("ab", "", ""), &id("a", "b", "")), Rank::After);
    let mut store = Store::new();
    for t in ["m", "c", "x", "c", "a", "m"] {
        save_table_metadata(&mut store, &table("p", "d", t, vec![]));
    }
    assert_eq!(
        list_tables(&store, None, None).unwrap(),
        vec![id("p", "d", "a"), id("p", "d", "c"), id("p", "d", "m"), id("p", "d", "x")]
    );
}

#[test]
fn text_order_and_search() {
    assert_eq!(compare("", ""), Rank::Same);
    assert_eq!(compare("", "a"), Rank::Before);
    assert_eq!(compare("a", ""), Rank::After);
    assert_eq!(compare("abc", "abd"), Rank::Before);
    assert_eq!(compare("abc", "ab"), Rank::After);
    assert_eq!(compare("Z", "a"), Rank::Before);
    assert_eq!(compare("t10", "t9"), Rank::Before);
    assert_eq!(compare("é", "z"), Rank::After);
    for (a, b) in [("a", "b"), ("é", "z"), ("", "x"), ("ab", "a"), ("日本", "日本語")] {
        let expected = match a.cmp(b) {
            std::cmp::Ordering::Less => Rank::Before,
            std::cmp::Ordering::Equal => Rank::Same,
            std::cmp::Ordering::Greater => Rank::After,
        };
        assert_eq!(compare(a, b), expected);
    }
    assert!(str_eq("abc", "abc"));
    assert!(!str_eq("abc", "abd"));
    assert!(!str_eq("abc", "ab"));
    assert_eq!(chars_of("aé日"), vec!['a', 'é', '日']);
    assert!(contains("hello world", "o w"));
    assert!(contains("hello", ""));
    assert!(contains("hello", "hello"));
    assert!(!contains("hello", "hello!"));
    assert!(!contains("hello", "lol"));
    assert!(contains("aaab", "aab"));
    assert!(ends_with("t.yaml", ".yaml"));
    assert!(ends_with(".yaml", ".yaml"));
    assert!(!ends_with("yaml", ".yaml"));
    assert!(!ends_with("t.yaml ", ".yaml"));
    assert!(ends_with("x", ""));
    assert!(same_path(&path(&["a", "b"]), &path(&["a", "b"])));
    assert!(!same_path(&path(&["a", "b"]), &path(&["a"])));
    assert!(!same_path(&path(&["a", "b"]), &path(&["a", "c"])));
}
