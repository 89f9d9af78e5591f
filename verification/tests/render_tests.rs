use bq_meta::models::{
    ColumnInfo, Config, MatchType, OutputFormat, SearchResult, TableInfo, TableMetadata,
};
use bq_meta::render::{
    list_config, render_column_descriptions, render_search_results, render_table_list,
    render_table_metadata, rule, Span, Style,
};

fn s(text: &str, style: Style) -> Span {
    Span { text: text.to_string(), style }
}

fn p(text: &str) -> Span {
    s(text, Style::Plain)
}

fn text_of(lines: &[Vec<Span>]) -> Vec<String> {
    lines.iter().map(|line| line.iter().map(|span| span.text.as_str()).collect()).collect()
}

fn sample() -> TableMetadata {
    TableMetadata {
        table: TableInfo {
            name: "events".to_string(),
            project_id: "shop".to_string(),
            dataset_id: "sales".to_string(),
            description: Some("What users did".to_string()),
        },
        columns: vec![
            ColumnInfo {
                name: "id".to_string(),
                column_type: "INT64".to_string(),
                description: Some("The key".to_string()),
                mode: Some("REQUIRED".to_string()),
            },
            ColumnInfo {
                name: "ts".to_string(),
                column_type: "TIMESTAMP".to_string(),
                description: None,
                mode: None,
            },
        ],
    }
}

#[test]
fn rule_has_the_width_asked_for() {
    assert_eq!(rule(0), "");
    assert_eq!(rule(3), "───");
    assert_eq!(rule(50), "─".repeat(50));
    assert_eq!(rule(20).chars().count(), 20);
}

#[test]
fn empty_table_list() {
    assert_eq!(render_table_list(&vec![]), vec![vec![p("No tables found.")]]);
}

#[test]
fn table_list_lines() {
    let tables = vec![
        ("a".to_string(), "b".to_string(), "c".to_string()),
        ("shop".to_string(), "sales".to_string(), "events".to_string()),
    ];
    assert_eq!(
        render_table_list(&tables),
        vec![
            vec![s("Project.Dataset.Table", Style::Bold)],
            vec![p(&"─".repeat(50))],
            vec![s("a", Style::Cyan), p("."), s("b", Style::Yellow), p("."), s("c", Style::Green)],
            vec![
                s("shop", Style::Cyan),
                p("."),
                s("sales", Style::Yellow),
                p("."),
                s("events", Style::Green),
            ],
        ]
    );
    assert_eq!(text_of(&render_table_list(&tables))[3], "shop.sales.events");
}

#[test]
fn empty_search_results() {
    assert_eq!(render_search_results(&vec![]), vec![vec![p("No matches found.")]]);
}

#[test]
fn search_result_lines() {
    let results = vec![
        SearchResult {
            table_path: "shop.sales.events".to_string(),
            match_type: MatchType::TableName,
            matched_content: "events".to_string(),
            context: None,
        },
        SearchResult {
            table_path: "shop.sales.events".to_string(),
            match_type: MatchType::ColumnDescription,
            matched_content: "The key".to_string(),
            context: Some("Column: id".to_string()),
        },
    ];
    let lines = render_search_results(&results);
    assert_eq!(
        lines,
        vec![
            vec![p("["), s("TABLE", Style::Green), p("] "), s("shop.sales.events", Style::Cyan)],
            vec![p("  "), s("events", Style::Italic)],
            vec![],
            vec![
                p("["),
                s("COL-DESC", Style::Magenta),
                p("] "),
                s("shop.sales.events", Style::Cyan),
                p(" ("),
                s("Column: id", Style::Dimmed),
                p(")"),
            ],
            vec![p("  "), s("The key", Style::Italic)],
            vec![],
        ]
    );
    assert_eq!(
        text_of(&lines),
        vec![
            "[TABLE] shop.sales.events",
            "  events",
            "",
            "[COL-DESC] shop.sales.events (Column: id)",
            "  The key",
            "",
        ]
    );
}

#[test]
fn search_result_label_colours() {
    for (kind, label, style) in [
        (MatchType::TableName, "TABLE", Style::Green),
        (MatchType::TableDescription, "DESC", Style::Blue),
        (MatchType::ColumnName, "COL", Style::Yellow),
        (MatchType::ColumnDescription, "COL-DESC", Style::Magenta),
    ] {
        let lines = render_search_results(&vec![SearchResult {
            table_path: "t".to_string(),
            match_type: kind,
            matched_content: "x".to_string(),
            context: None,
        }]);
        assert_eq!(lines[0][1], s(label, style));
    }
}

#[test]
fn document_lines() {
    let lines = render_table_metadata(&sample());
    assert_eq!(
        text_of(&lines),
        vec![
            "Table Information".to_string(),
            "─".repeat(30),
            "Name: events".to_string(),
            "Project: shop".to_string(),
            "Dataset: sales".to_string(),
            "Description: What users did".to_string(),
            "".to_string(),
            "Columns".to_string(),
            "─".repeat(30),
            "  id (INT64)".to_string(),
            "    The key".to_string(),
            "  ts (TIMESTAMP)".to_string(),
        ]
    );
    assert_eq!(lines[0], vec![s("Table Information", Style::Bold)]);
    assert_eq!(lines[2], vec![p("Name: "), s("events", Style::Green)]);
    assert_eq!(lines[3], vec![p("Project: "), s("shop", Style::Cyan)]);
    assert_eq!(lines[4], vec![p("Dataset: "), s("sales", Style::Yellow)]);
    assert_eq!(lines[5], vec![p("Description: "), p("What users did")]);
    assert_eq!(
        lines[9],
        vec![p("  "), s("id", Style::Green), p(" ("), s("INT64", Style::Blue), p(")")]
    );
    assert_eq!(lines[10], vec![p("    "), s("The key", Style::Italic)]);
}

#[test]
fn document_without_description_or_columns() {
    let mut doc = sample();
    doc.table.description = None;
    doc.columns.clear();
    assert_eq!(
        text_of(&render_table_metadata(&doc)),
        vec![
            "Table Information".to_string(),
            "─".repeat(30),
            "Name: events".to_string(),
            "Project: shop".to_string(),
            "Dataset: sales".to_string(),
            "".to_string(),
            "Columns".to_string(),
            "─".repeat(30),
        ]
    );
}

#[test]
fn column_description_lines() {
    let lines = render_column_descriptions(&sample());
    assert_eq!(
        text_of(&lines),
        vec![
            "events - Column Descriptions".to_string(),
            "─".repeat(50),
            "id (INT64)".to_string(),
            "  The key".to_string(),
            "".to_string(),
            "ts (TIMESTAMP)".to_string(),
            "  No description".to_string(),
            "".to_string(),
        ]
    );
    assert_eq!(lines[0], vec![s("events", Style::Bold), p(" - Column Descriptions")]);
    assert_eq!(lines[3], vec![p("  "), s("The key", Style::Italic)]);
    assert_eq!(lines[6], vec![p("  "), s("No description", Style::Dimmed)]);
}

#[test]
fn config_lines() {
    let lines = list_config(&Config::default());
    assert_eq!(
        text_of(&lines),
        vec![
            "Configuration".to_string(),
            "─".repeat(20),
            "default_project: None".to_string(),
            "default_dataset: None".to_string(),
            "output_format: table".to_string(),
        ]
    );
    assert_eq!(lines[0], vec![s("Configuration", Style::Bold)]);
    let c = Config {
        default_project: Some("proj".to_string()),
        default_dataset: Some("ds".to_string()),
        output_format: OutputFormat::Json,
    };
    assert_eq!(
        text_of(&list_config(&c))[2..],
        ["default_project: proj", "default_dataset: ds", "output_format: json"]
    );
}
