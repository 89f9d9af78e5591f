//! The catalog's data: table documents, configuration and search matches,
//! each with the mathematical value that contracts speak of.

use vstd::prelude::*;

verus! {

/// One column of a table.
#[derive(Debug, PartialEq, Eq)]
pub struct ColumnInfo {
    pub name: String,
    pub column_type: String,
    pub description: Option<String>,
    pub mode: Option<String>,
}

/// The identifying and descriptive fields of a table.
#[derive(Debug, PartialEq, Eq)]
pub struct TableInfo {
    pub name: String,
    pub project_id: String,
    pub dataset_id: String,
    pub description: Option<String>,
}

/// The document stored for one table.
#[derive(Debug, PartialEq, Eq)]
pub struct TableMetadata {
    pub table: TableInfo,
    pub columns: Vec<ColumnInfo>,
}

/// How results are rendered.
#[derive(Clone, Copy, Debug, PartialEq, Eq, Structural)]
pub enum OutputFormat {
    Table,
    Json,
    Yaml,
}

/// The user's preferences.
#[derive(Debug, PartialEq, Eq)]
pub struct Config {
    pub default_project: Option<String>,
    pub default_dataset: Option<String>,
    pub output_format: OutputFormat,
}

/// Which field of a table produced a search hit.
#[derive(Clone, Copy, Debug, PartialEq, Eq, Structural)]
pub enum MatchType {
    TableName,
    TableDescription,
    ColumnName,
    ColumnDescription,
}

/// One search hit.
#[derive(Debug, PartialEq, Eq)]
pub struct SearchResult {
    pub table_path: String,
    pub match_type: MatchType,
    pub matched_content: String,
    pub context: Option<String>,
}

/// The value of a [`ColumnInfo`].
pub struct ColumnModel {
    pub name: Seq<char>,
    pub column_type: Seq<char>,
    pub description: Option<Seq<char>>,
    pub mode: Option<Seq<char>>,
}

/// The value of a [`TableInfo`].
pub struct TableModel {
    pub name: Seq<char>,
    pub project_id: Seq<char>,
    pub dataset_id: Seq<char>,
    pub description: Option<Seq<char>>,
}

/// The value of a [`TableMetadata`].
pub struct DocumentModel {
    pub table: TableModel,
    pub columns: Seq<ColumnModel>,
}

/// The value of a [`Config`].
pub struct ConfigModel {
    pub default_project: Option<Seq<char>>,
    pub default_dataset: Option<Seq<char>>,
    pub output_format: OutputFormat,
}

/// The value of a [`SearchResult`].
pub struct MatchModel {
    pub table_path: Seq<char>,
    pub match_type: MatchType,
    pub matched_content: Seq<char>,
    pub context: Option<Seq<char>>,
}

impl DeepView for ColumnInfo {
    type V = ColumnModel;

    open spec fn deep_view(&self) -> ColumnModel {
        ColumnModel {
            name: self.name@,
            column_type: self.column_type@,
            description: self.description.deep_view(),
            mode: self.mode.deep_view(),
        }
    }
}

impl View for ColumnInfo {
    type V = ColumnModel;

    open spec fn view(&self) -> ColumnModel {
        self.deep_view()
    }
}

impl DeepView for TableInfo {
    type V = TableModel;

    open spec fn deep_view(&self) -> TableModel {
        TableModel {
            name: self.name@,
            project_id: self.project_id@,
            dataset_id: self.dataset_id@,
            description: self.description.deep_view(),
        }
    }
}

impl View for TableInfo {
    type V = TableModel;

    open spec fn view(&self) -> TableModel {
        self.deep_view()
    }
}

impl DeepView for TableMetadata {
    type V = DocumentModel;

    open spec fn deep_view(&self) -> DocumentModel {
        DocumentModel { table: self.table@, columns: self.columns.deep_view() }
    }
}

impl View for TableMetadata {
    type V = DocumentModel;

    open spec fn view(&self) -> DocumentModel {
        self.deep_view()
    }
}

impl View for Config {
    type V = ConfigModel;

    open spec fn view(&self) -> ConfigModel {
        ConfigModel {
            default_project: self.default_project.deep_view(),
            default_dataset: self.default_dataset.deep_view(),
            output_format: self.output_format,
        }
    }
}

impl DeepView for SearchResult {
    type V = MatchModel;

    open spec fn deep_view(&self) -> MatchModel {
        MatchModel {
            table_path: self.table_path@,
            match_type: self.match_type,
            matched_content: self.matched_content@,
            context: self.context.deep_view(),
        }
    }
}

impl View for SearchResult {
    type V = MatchModel;

    open spec fn view(&self) -> MatchModel {
        self.deep_view()
    }
}

/// A copy of an optional string.
pub fn clone_text(text: &Option<String>) -> (r: Option<String>)
    ensures
        r.deep_view() == text.deep_view(),
{
    match text {
        Some(s) => Some(s.clone()),
        None => None,
    }
}

impl Clone for ColumnInfo {
    fn clone(&self) -> (r: Self)
        ensures
            r@ == self@,
    {
        ColumnInfo {
            name: self.name.clone(),
            column_type: self.column_type.clone(),
            description: clone_text(&self.description),
            mode: clone_text(&self.mode),
        }
    }
}

impl Clone for TableInfo {
    fn clone(&self) -> (r: Self)
        ensures
            r@ == self@,
    {
        TableInfo {
            name: self.name.clone(),
            project_id: self.project_id.clone(),
            dataset_id: self.dataset_id.clone(),
            description: clone_text(&self.description),
        }
    }
}

impl Clone for TableMetadata {
    fn clone(&self) -> (r: Self)
        ensures
            r@ == self@,
    {
        let mut columns: Vec<ColumnInfo> = Vec::new();
        let mut i: usize = 0;
        while i < self.columns.len()
            invariant
                i <= self.columns.len(),
                columns.len() == i,
                forall|k: int| 0 <= k < i ==> columns[k]@ == self.columns[k]@,
            decreases self.columns.len() - i,
        {
            columns.push(self.columns[i].clone());
            i = i + 1;
        }
        assert(columns.deep_view() =~= self.columns.deep_view());
        TableMetadata { table: self.table.clone(), columns }
    }
}

impl Clone for Config {
    fn clone(&self) -> (r: Self)
        ensures
            r@ == self@,
    {
        Config {
            default_project: clone_text(&self.default_project),
            default_dataset: clone_text(&self.default_dataset),
            output_format: self.output_format,
        }
    }
}

impl Clone for SearchResult {
    fn clone(&self) -> (r: Self)
        ensures
            r@ == self@,
    {
        SearchResult {
            table_path: self.table_path.clone(),
            match_type: self.match_type,
            matched_content: self.matched_content.clone(),
            context: clone_text(&self.context),
        }
    }
}

impl Default for Config {
    /// No default project or dataset, and results rendered as a table.
    fn default() -> (c: Config)
        ensures
            c@ == (ConfigModel {
                default_project: None,
                default_dataset: None,
                output_format: OutputFormat::Table,
            }),
    {
        Config { default_project: None, default_dataset: None, output_format: OutputFormat::Table }
    }
}

impl MatchType {
    /// The short label under which a kind of hit is shown.
    pub open spec fn label_text(self) -> Seq<char> {
        match self {
            MatchType::TableName => "TABLE"@,
            MatchType::TableDescription => "DESC"@,
            MatchType::ColumnName => "COL"@,
            MatchType::ColumnDescription => "COL-DESC"@,
        }
    }

    /// The short label under which a kind of hit is shown.
    pub fn to_string(&self) -> (s: String)
        ensures
            s@ == self.label_text(),
    {
        match self {
            MatchType::TableName => String::from_str("TABLE"),
            MatchType::TableDescription => String::from_str("DESC"),
            MatchType::ColumnName => String::from_str("COL"),
            MatchType::ColumnDescription => String::from_str("COL-DESC"),
        }
    }
}

} // verus!
