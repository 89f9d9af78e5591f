//! What is shown on the terminal, line by line: the text of each part of a
//! line and the style it is shown in. Colouring and printing are left to the
//! program.

use vstd::prelude::*;
use crate::config::{format_name, format_text, show, shown};
use crate::ident::{IdModel, TableId};
use crate::models::{
    ColumnInfo, ColumnModel, Config, ConfigModel, DocumentModel, MatchModel, MatchType,
    SearchResult, TableMetadata,
};

verus! {

/// How a part of a line is shown.
#[derive(Clone, Copy, Debug, PartialEq, Eq, Structural)]
pub enum Style {
    Plain,
    Bold,
    Italic,
    Dimmed,
    Green,
    Blue,
    Cyan,
    Yellow,
    Magenta,
}

/// A part of a line: a text in one style.
#[derive(Debug, PartialEq, Eq)]
pub struct Span {
    pub text: String,
    pub style: Style,
}

/// The value of a [`Span`].
pub struct SpanModel {
    pub text: Seq<char>,
    pub style: Style,
}

/// A line: its parts from left to right.
pub type Line = Vec<Span>;

/// The value of a [`Line`].
pub type LineModel = Seq<SpanModel>;

impl DeepView for Span {
    type V = SpanModel;

    open spec fn deep_view(&self) -> SpanModel {
        SpanModel { text: self.text@, style: self.style }
    }
}

impl View for Span {
    type V = SpanModel;

    open spec fn view(&self) -> SpanModel {
        self.deep_view()
    }
}

/// A text in a style.
pub open spec fn styled(text: Seq<char>, style: Style) -> SpanModel {
    SpanModel { text, style }
}

/// A text in no particular style.
pub open spec fn plain(text: Seq<char>) -> SpanModel {
    SpanModel { text, style: Style::Plain }
}

/// A horizontal rule of the given width.
pub open spec fn rule_text(width: nat) -> Seq<char> {
    Seq::new(width, |i: int| '─')
}

/// The line for one table of a listing: project, dataset and table, each in
/// its colour, with dots between.
pub open spec fn table_line(id: IdModel) -> LineModel {
    seq![
        styled(id.0, Style::Cyan),
        plain("."@),
        styled(id.1, Style::Yellow),
        plain("."@),
        styled(id.2, Style::Green),
    ]
}

/// The lines for the tables of a listing, one each.
pub open spec fn table_lines(ids: Seq<IdModel>) -> Seq<LineModel>
    decreases ids.len(),
{
    if ids.len() == 0 {
        seq![]
    } else {
        table_lines(ids.drop_last()).push(table_line(ids.last()))
    }
}

/// A listing as shown: a heading, a rule and a line for each table, or a
/// note that there are none.
pub open spec fn table_list_lines(ids: Seq<IdModel>) -> Seq<LineModel> {
    if ids.len() == 0 {
        seq![seq![plain("No tables found."@)]]
    } else {
        seq![seq![styled("Project.Dataset.Table"@, Style::Bold)], seq![plain(rule_text(50))]]
            + table_lines(ids)
    }
}

/// The colour in which a kind of hit is labelled.
pub open spec fn label_style(kind: MatchType) -> Style {
    match kind {
        MatchType::TableName => Style::Green,
        MatchType::TableDescription => Style::Blue,
        MatchType::ColumnName => Style::Yellow,
        MatchType::ColumnDescription => Style::Magenta,
    }
}

/// The first line for a hit: its label in brackets, the table, and the
/// place of the hit in parentheses if it has one.
pub open spec fn hit_heading(hit: MatchModel) -> LineModel {
    let head = seq![
        plain("["@),
        styled(hit.match_type.label_text(), label_style(hit.match_type)),
        plain("] "@),
        styled(hit.table_path, Style::Cyan),
    ];
    match hit.context {
        Some(context) => head + seq![plain(" ("@), styled(context, Style::Dimmed), plain(")"@)],
        None => head,
    }
}

/// The lines for one hit: the heading, the matched text indented, and an
/// empty line.
pub open spec fn hit_lines(hit: MatchModel) -> Seq<LineModel> {
    seq![
        hit_heading(hit),
        seq![plain("  "@), styled(hit.matched_content, Style::Italic)],
        seq![],
    ]
}

/// The lines for the hits of a search, hit by hit.
pub open spec fn hits_lines(hits: Seq<MatchModel>) -> Seq<LineModel>
    decreases hits.len(),
{
    if hits.len() == 0 {
        seq![]
    } else {
        hits_lines(hits.drop_last()) + hit_lines(hits.last())
    }
}

/// The result of a search as shown: the lines of its hits, or a note that
/// there are none.
pub open spec fn search_lines(hits: Seq<MatchModel>) -> Seq<LineModel> {
    if hits.len() == 0 {
        seq![seq![plain("No matches found."@)]]
    } else {
        hits_lines(hits)
    }
}

/// The lines for one column of a document: name and type, then the
/// description indented if there is one.
pub open spec fn column_lines(column: ColumnModel) -> Seq<LineModel> {
    let head = seq![
        plain("  "@),
        styled(column.name, Style::Green),
        plain(" ("@),
        styled(column.column_type, Style::Blue),
        plain(")"@),
    ];
    match column.description {
        Some(text) => seq![head, seq![plain("    "@), styled(text, Style::Italic)]],
        None => seq![head],
    }
}

/// The lines for the columns of a document, column by column.
pub open spec fn columns_lines(columns: Seq<ColumnModel>) -> Seq<LineModel>
    decreases columns.len(),
{
    if columns.len() == 0 {
        seq![]
    } else {
        columns_lines(columns.drop_last()) + column_lines(columns.last())
    }
}

/// The line for the description of a table, if it has one.
pub open spec fn description_lines(description: Option<Seq<char>>) -> Seq<LineModel> {
    match description {
        Some(text) => seq![seq![plain("Description: "@), plain(text)]],
        None => seq![],
    }
}

/// A document as shown: the table's fields under a heading, then its
/// columns under another.
pub open spec fn document_lines(document: DocumentModel) -> Seq<LineModel> {
    seq![
        seq![styled("Table Information"@, Style::Bold)],
        seq![plain(rule_text(30))],
        seq![plain("Name: "@), styled(document.table.name, Style::Green)],
        seq![plain("Project: "@), styled(document.table.project_id, Style::Cyan)],
        seq![plain("Dataset: "@), styled(document.table.dataset_id, Style::Yellow)],
    ] + description_lines(document.table.description) + seq![
        seq![],
        seq![styled("Columns"@, Style::Bold)],
        seq![plain(rule_text(30))],
    ] + columns_lines(document.columns)
}

/// The lines that describe one column: name and type, the description
/// indented or a note that there is none, and an empty line.
pub open spec fn described_column_lines(column: ColumnModel) -> Seq<LineModel> {
    seq![
        seq![
            styled(column.name, Style::Green),
            plain(" ("@),
            styled(column.column_type, Style::Blue),
            plain(")"@),
        ],
        match column.description {
            Some(text) => seq![plain("  "@), styled(text, Style::Italic)],
            None => seq![plain("  "@), styled("No description"@, Style::Dimmed)],
        },
        seq![],
    ]
}

/// The lines that describe the columns of a document, column by column.
pub open spec fn described_columns_lines(columns: Seq<ColumnModel>) -> Seq<LineModel>
    decreases columns.len(),
{
    if columns.len() == 0 {
        seq![]
    } else {
        described_columns_lines(columns.drop_last()) + described_column_lines(columns.last())
    }
}

/// The columns of a document as described: a heading with the table's name,
/// a rule, and the lines of each column.
pub open spec fn description_page(document: DocumentModel) -> Seq<LineModel> {
    seq![
        seq![styled(document.table.name, Style::Bold), plain(" - Column Descriptions"@)],
        seq![plain(rule_text(50))],
    ] + described_columns_lines(document.columns)
}

/// The preferences as shown: a heading, a rule, and each preference with
/// its value.
pub open spec fn config_lines(config: ConfigModel) -> Seq<LineModel> {
    seq![
        seq![styled("Configuration"@, Style::Bold)],
        seq![plain(rule_text(20))],
        seq![plain("default_project: "@), plain(shown(config.default_project))],
        seq![plain("default_dataset: "@), plain(shown(config.default_dataset))],
        seq![plain("output_format: "@), plain(format_name(config.output_format))],
    ]
}

/// A part of a line.
fn span(text: &str, style: Style) -> (s: Span)
    ensures
        s@ == styled(text@, style),
{
    Span { text: String::from_str(text), style }
}

/// A horizontal rule of the given width.
pub fn rule(width: usize) -> (text: String)
    ensures
        text@ == rule_text(width as nat),
{
    let mut text = String::new();
    let mut i: usize = 0;
    while i < width
        invariant
            i <= width,
            text@ == rule_text(i as nat),
        decreases width - i,
    {
        let ghost before = text@;
        text.append("─");
        proof {
            reveal_strlit("─");
            assert(before + "─"@ =~= rule_text((i + 1) as nat));
        }
        i = i + 1;
    }
    text
}

/// A line of one part.
fn line1(a: Span) -> (line: Line)
    ensures
        line.deep_view() == seq![a@],
{
    let ghost model = seq![a@];
    let mut line: Line = Vec::new();
    line.push(a);
    assert(line.deep_view() =~= model);
    line
}

/// A line of two parts.
fn line2(a: Span, b: Span) -> (line: Line)
    ensures
        line.deep_view() == seq![a@, b@],
{
    let ghost model = seq![a@, b@];
    let mut line: Line = Vec::new();
    line.push(a);
    line.push(b);
    assert(line.deep_view() =~= model);
    line
}

/// An empty line.
fn blank() -> (line: Line)
    ensures
        line.deep_view() == Seq::<SpanModel>::empty(),
{
    let line: Line = Vec::new();
    assert(line.deep_view() =~= Seq::<SpanModel>::empty());
    line
}

/// No lines.
fn no_lines() -> (lines: Vec<Line>)
    ensures
        lines.deep_view() == Seq::<LineModel>::empty(),
{
    let lines: Vec<Line> = Vec::new();
    assert(lines.deep_view() =~= Seq::<LineModel>::empty());
    lines
}

/// Puts a line behind the others.
fn put(lines: &mut Vec<Line>, line: Line)
    ensures
        final(lines).deep_view() == old(lines).deep_view().push(line.deep_view()),
{
    let ghost model = line.deep_view();
    lines.push(line);
    assert(lines.deep_view() =~= old(lines).deep_view().push(model));
}

/// A listing as shown.
pub fn render_table_list(tables: &Vec<TableId>) -> (lines: Vec<Line>)
    ensures
        lines.deep_view() == table_list_lines(tables.deep_view()),
{
    let ghost ids = tables.deep_view();
    let mut lines = no_lines();
    if tables.len() == 0 {
        put(&mut lines, line1(span("No tables found.", Style::Plain)));
        assert(lines.deep_view() =~= table_list_lines(ids));
        return lines;
    }
    put(&mut lines, line1(span("Project.Dataset.Table", Style::Bold)));
    let bar = rule(50);
    put(&mut lines, line1(span(bar.as_str(), Style::Plain)));
    let ghost head = lines.deep_view();
    assert(head =~= seq![
        seq![styled("Project.Dataset.Table"@, Style::Bold)],
        seq![plain(rule_text(50))],
    ]);
    assert(ids.take(0) =~= Seq::<IdModel>::empty());
    let mut k: usize = 0;
    while k < tables.len()
        invariant
            k <= tables.len(),
            ids == tables.deep_view(),
            lines.deep_view() == head + table_lines(ids.take(k as int)),
        decreases tables.len() - k,
    {
        let id = &tables[k];
        assert(ids[k as int] == id.deep_view());
        let ghost before = lines.deep_view();
        let ghost model = table_line(id.deep_view());
        let mut line: Line = Vec::new();
        line.push(span(id.0.as_str(), Style::Cyan));
        line.push(span(".", Style::Plain));
        line.push(span(id.1.as_str(), Style::Yellow));
        line.push(span(".", Style::Plain));
        line.push(span(id.2.as_str(), Style::Green));
        assert(line.deep_view() =~= model);
        put(&mut lines, line);
        proof {
            assert(ids.take(k + 1).drop_last() =~= ids.take(k as int));
            assert(ids.take(k + 1).last() == id.deep_view());
            assert(lines.deep_view() =~= head + table_lines(ids.take(k + 1)));
        }
        k = k + 1;
    }
    assert(ids.take(k as int) =~= ids);
    lines
}

/// The colour in which a kind of hit is labelled.
fn style_of(kind: MatchType) -> (style: Style)
    ensures
        style == label_style(kind),
{
    match kind {
        MatchType::TableName => Style::Green,
        MatchType::TableDescription => Style::Blue,
        MatchType::ColumnName => Style::Yellow,
        MatchType::ColumnDescription => Style::Magenta,
    }
}

/// The first line for a hit.
fn heading_of(hit: &SearchResult) -> (line: Line)
    ensures
        line.deep_view() == hit_heading(hit@),
{
    let label = hit.match_type.to_string();
    let mut line: Line = Vec::new();
    line.push(span("[", Style::Plain));
    line.push(span(label.as_str(), style_of(hit.match_type)));
    line.push(span("] ", Style::Plain));
    line.push(span(hit.table_path.as_str(), Style::Cyan));
    let ghost head = line.deep_view();
    assert(head =~= seq![
        plain("["@),
        styled(hit@.match_type.label_text(), label_style(hit@.match_type)),
        plain("] "@),
        styled(hit@.table_path, Style::Cyan),
    ]);
    match &hit.context {
        Some(context) => {
            line.push(span(" (", Style::Plain));
            line.push(span(context.as_str(), Style::Dimmed));
            line.push(span(")", Style::Plain));
            assert(line.deep_view() =~= head + seq![
                plain(" ("@),
                styled(context@, Style::Dimmed),
                plain(")"@),
            ]);
        },
        None => {},
    }
    line
}

/// The result of a search as shown.
pub fn render_search_results(results: &Vec<SearchResult>) -> (lines: Vec<Line>)
    ensures
        lines.deep_view() == search_lines(results.deep_view()),
{
    let ghost hits = results.deep_view();
    let mut lines = no_lines();
    if results.len() == 0 {
        put(&mut lines, line1(span("No matches found.", Style::Plain)));
        assert(lines.deep_view() =~= search_lines(hits));
        return lines;
    }
    assert(hits.take(0) =~= Seq::<MatchModel>::empty());
    let mut k: usize = 0;
    while k < results.len()
        invariant
            k <= results.len(),
            hits == results.deep_view(),
            lines.deep_view() == hits_lines(hits.take(k as int)),
        decreases results.len() - k,
    {
        let hit = &results[k];
        assert(hits[k as int] == hit@);
        let ghost before = lines.deep_view();
        put(&mut lines, heading_of(hit));
        put(
            &mut lines,
            line2(span("  ", Style::Plain), span(hit.matched_content.as_str(), Style::Italic)),
        );
        put(&mut lines, blank());
        proof {
            assert(hits.take(k + 1).drop_last() =~= hits.take(k as int));
            assert(hits.take(k + 1).last() == hit@);
            assert(lines.deep_view() =~= before + hit_lines(hit@));
        }
        k = k + 1;
    }
    assert(hits.take(k as int) =~= hits);
    lines
}

/// A document as shown.
pub fn render_table_metadata(metadata: &TableMetadata) -> (lines: Vec<Line>)
    ensures
        lines.deep_view() == document_lines(metadata@),
{
    let ghost document = metadata@;
    let ghost columns = document.columns;
    let bar = rule(30);
    let mut lines = no_lines();
    put(&mut lines, line1(span("Table Information", Style::Bold)));
    put(&mut lines, line1(span(bar.as_str(), Style::Plain)));
    put(
        &mut lines,
        line2(span("Name: ", Style::Plain), span(metadata.table.name.as_str(), Style::Green)),
    );
    put(
        &mut lines,
        line2(
            span("Project: ", Style::Plain),
            span(metadata.table.project_id.as_str(), Style::Cyan),
        ),
    );
    put(
        &mut lines,
        line2(
            span("Dataset: ", Style::Plain),
            span(metadata.table.dataset_id.as_str(), Style::Yellow),
        ),
    );
    match &metadata.table.description {
        Some(text) => {
            put(
                &mut lines,
                line2(span("Description: ", Style::Plain), span(text.as_str(), Style::Plain)),
            );
        },
        None => {},
    }
    put(&mut lines, blank());
    put(&mut lines, line1(span("Columns", Style::Bold)));
    put(&mut lines, line1(span(bar.as_str(), Style::Plain)));
    let ghost head = lines.deep_view();
    assert(head =~= seq![
        seq![styled("Table Information"@, Style::Bold)],
        seq![plain(rule_text(30))],
        seq![plain("Name: "@), styled(document.table.name, Style::Green)],
        seq![plain("Project: "@), styled(document.table.project_id, Style::Cyan)],
        seq![plain("Dataset: "@), styled(document.table.dataset_id, Style::Yellow)],
    ] + description_lines(document.table.description) + seq![
        seq![],
        seq![styled("Columns"@, Style::Bold)],
        seq![plain(rule_text(30))],
    ]);
    assert(columns.len() == metadata.columns.len());
    assert(columns.take(0) =~= Seq::<ColumnModel>::empty());
    let mut k: usize = 0;
    while k < metadata.columns.len()
        invariant
            k <= metadata.columns.len(),
            columns == metadata@.columns,
            lines.deep_view() == head + columns_lines(columns.take(k as int)),
        decreases metadata.columns.len() - k,
    {
        let column: &ColumnInfo = &metadata.columns[k];
        assert(columns[k as int] == column@);
        let ghost before = lines.deep_view();
        let mut line: Line = Vec::new();
        line.push(span("  ", Style::Plain));
        line.push(span(column.name.as_str(), Style::Green));
        line.push(span(" (", Style::Plain));
        line.push(span(column.column_type.as_str(), Style::Blue));
        line.push(span(")", Style::Plain));
        assert(line.deep_view() =~= seq![
            plain("  "@),
            styled(column@.name, Style::Green),
            plain(" ("@),
            styled(column@.column_type, Style::Blue),
            plain(")"@),
        ]);
        put(&mut lines, line);
        match &column.description {
            Some(text) => {
                put(
                    &mut lines,
                    line2(span("    ", Style::Plain), span(text.as_str(), Style::Italic)),
                );
            },
            None => {},
        }
        proof {
            assert(columns.take(k + 1).drop_last() =~= columns.take(k as int));
            assert(columns.take(k + 1).last() == column@);
            assert(lines.deep_view() =~= before + column_lines(column@));
        }
        k = k + 1;
    }
    assert(columns.take(k as int) =~= columns);
    lines
}

/// The columns of a document as described.
pub fn render_column_descriptions(metadata: &TableMetadata) -> (lines: Vec<Line>)
    ensures
        lines.deep_view() == description_page(metadata@),
{
    let ghost columns = metadata@.columns;
    let bar = rule(50);
    let mut lines = no_lines();
    put(
        &mut lines,
        line2(
            span(metadata.table.name.as_str(), Style::Bold),
            span(" - Column Descriptions", Style::Plain),
        ),
    );
    put(&mut lines, line1(span(bar.as_str(), Style::Plain)));
    let ghost head = lines.deep_view();
    assert(head =~= seq![
        seq![styled(metadata@.table.name, Style::Bold), plain(" - Column Descriptions"@)],
        seq![plain(rule_text(50))],
    ]);
    assert(columns.len() == metadata.columns.len());
    assert(columns.take(0) =~= Seq::<ColumnModel>::empty());
    let mut k: usize = 0;
    while k < metadata.columns.len()
        invariant
            k <= metadata.columns.len(),
            columns == metadata@.columns,
            lines.deep_view() == head + described_columns_lines(columns.take(k as int)),
        decreases metadata.columns.len() - k,
    {
        let column: &ColumnInfo = &metadata.columns[k];
        assert(columns[k as int] == column@);
        let ghost before = lines.deep_view();
        let mut line: Line = Vec::new();
        line.push(span(column.name.as_str(), Style::Green));
        line.push(span(" (", Style::Plain));
        line.push(span(column.column_type.as_str(), Style::Blue));
        line.push(span(")", Style::Plain));
        assert(line.deep_view() =~= seq![
            styled(column@.name, Style::Green),
            plain(" ("@),
            styled(column@.column_type, Style::Blue),
            plain(")"@),
        ]);
        put(&mut lines, line);
        let note: Line = match &column.description {
            Some(text) => line2(span("  ", Style::Plain), span(text.as_str(), Style::Italic)),
            None => line2(span("  ", Style::Plain), span("No description", Style::Dimmed)),
        };
        put(&mut lines, note);
        put(&mut lines, blank());
        proof {
            assert(columns.take(k + 1).drop_last() =~= columns.take(k as int));
            assert(columns.take(k + 1).last() == column@);
            assert(lines.deep_view() =~= before + described_column_lines(column@));
        }
        k = k + 1;
    }
    assert(columns.take(k as int) =~= columns);
    lines
}

/// The preferences as shown.
pub fn list_config(config: &Config) -> (lines: Vec<Line>)
    ensures
        lines.deep_view() == config_lines(config@),
{
    let bar = rule(20);
    let project = show(&config.default_project);
    let dataset = show(&config.default_dataset);
    let format = format_text(config.output_format);
    let mut lines = no_lines();
    put(&mut lines, line1(span("Configuration", Style::Bold)));
    put(&mut lines, line1(span(bar.as_str(), Style::Plain)));
    put(
        &mut lines,
        line2(span("default_project: ", Style::Plain), span(project.as_str(), Style::Plain)),
    );
    put(
        &mut lines,
        line2(span("default_dataset: ", Style::Plain), span(dataset.as_str(), Style::Plain)),
    );
    put(
        &mut lines,
        line2(span("output_format: ", Style::Plain), span(format.as_str(), Style::Plain)),
    );
    assert(lines.deep_view() =~= config_lines(config@));
    lines
}

} // verus!
