//! The catalog's commands on documents: create, edit, export and import.

use vstd::prelude::*;
use crate::cli::{format_named, parse_format};
use crate::error::{ErrorKind, ErrorModel, StoreError};
use crate::ident::{dotted, dotted_name, IdModel};
use crate::models::{
    ColumnModel, DocumentModel, OutputFormat, TableInfo, TableMetadata, TableModel,
};
use crate::paths::{relative_path, table_file};
use crate::storage::{
    document_id, load_outcome, load_table_metadata, save_table_metadata, ContentModel, Store,
    StoreModel,
};
use crate::text::{ends_with, has_suffix, str_eq};

verus! {

/// A document that was stored, and the file to write for it.
#[derive(Debug, PartialEq, Eq)]
pub struct Saved {
    /// The path of the file below the data directory, part by part.
    pub path: Vec<String>,
    /// The document to write there.
    pub document: TableMetadata,
}

/// A new document: the identifier, the description if one is given, and no
/// columns.
pub open spec fn new_document(id: IdModel, description: Option<Seq<char>>) -> DocumentModel {
    DocumentModel {
        table: TableModel { name: id.2, project_id: id.0, dataset_id: id.1, description },
        columns: seq![],
    }
}

/// Creates the document of a table, without columns, and stores it in place
/// of the one stored there if there is one.
pub fn create_table_metadata(
    store: &mut Store,
    project: &str,
    dataset: &str,
    table_name: &str,
    description: Option<String>,
) -> (saved: Saved)
    ensures
        saved.document@ == new_document((project@, dataset@, table_name@), description.deep_view()),
        saved.path.deep_view() == relative_path((project@, dataset@, table_name@)),
        final(store)@ == old(store)@.insert(
            relative_path((project@, dataset@, table_name@)),
            ContentModel::Document(saved.document@),
        ),
{
    let document = TableMetadata {
        table: TableInfo {
            name: String::from_str(table_name),
            project_id: String::from_str(project),
            dataset_id: String::from_str(dataset),
            description,
        },
        columns: Vec::new(),
    };
    assert(document.columns.deep_view() =~= Seq::<ColumnModel>::empty());
    let path = save_table_metadata(store, &document);
    Saved { path, document }
}

/// Column `k` is the first with the given name.
pub open spec fn is_first_column(columns: Seq<ColumnModel>, name: Seq<char>, k: int) -> bool {
    0 <= k < columns.len() && columns[k].name == name && forall|j: int|
        0 <= j < k ==> columns[j].name != name
}

/// The table has a column with the given name.
pub open spec fn has_column(columns: Seq<ColumnModel>, name: Seq<char>) -> bool {
    exists|k: int| is_first_column(columns, name, k)
}

/// The place of the first column with the given name.
pub open spec fn first_column(columns: Seq<ColumnModel>, name: Seq<char>) -> int {
    choose|k: int| is_first_column(columns, name, k)
}

/// The place of the first column with the given name, if there is one.
pub fn find_column(metadata: &TableMetadata, column_name: &str) -> (found: Option<usize>)
    ensures
        match found {
            Some(k) => has_column(metadata@.columns, column_name@) && k == first_column(
                metadata@.columns,
                column_name@,
            ),
            None => !has_column(metadata@.columns, column_name@),
        },
{
    let ghost columns = metadata@.columns;
    assert(columns.len() == metadata.columns.len());
    let mut k: usize = 0;
    while k < metadata.columns.len()
        invariant
            k <= metadata.columns.len(),
            columns == metadata@.columns,
            forall|j: int| 0 <= j < k ==> columns[j].name != column_name@,
        decreases metadata.columns.len() - k,
    {
        assert(columns[k as int] == metadata.columns[k as int]@);
        if str_eq(metadata.columns[k].name.as_str(), column_name) {
            assert(is_first_column(columns, column_name@, k as int));
            return Some(k);
        }
        k = k + 1;
    }
    None
}

/// The description that an entered text stands for: none if it is empty.
pub open spec fn entered(description: Seq<char>) -> Option<Seq<char>> {
    if description.len() == 0 {
        None
    } else {
        Some(description)
    }
}

/// The document with the description of column `k` replaced.
pub open spec fn with_description(
    document: DocumentModel,
    k: int,
    description: Seq<char>,
) -> DocumentModel {
    DocumentModel {
        columns: document.columns.update(
            k,
            ColumnModel { description: entered(description), ..document.columns[k] },
        ),
        ..document
    }
}

/// The failure for a column that the table does not have.
pub open spec fn column_error(column_name: Seq<char>) -> ErrorModel {
    ErrorModel {
        kind: ErrorKind::NotFound,
        message: "Column '"@ + column_name + "' not found in table"@,
    }
}

/// What editing a column's description gives: the document to store, or why
/// there is none. The document must load, and have the column.
pub open spec fn edit_outcome(
    store: StoreModel,
    id: IdModel,
    column_name: Seq<char>,
    description: Seq<char>,
) -> Result<DocumentModel, ErrorModel> {
    match load_outcome(store, id) {
        Err(e) => Err(e),
        Ok(document) => if has_column(document.columns, column_name) {
            Ok(
                with_description(
                    document,
                    first_column(document.columns, column_name),
                    description,
                ),
            )
        } else {
            Err(column_error(column_name))
        },
    }
}

/// Replaces the description of the first column with the given name, by
/// none if the new one is empty, and stores the document under the
/// identifier that it names. On failure the store stays as it was.
pub fn edit_column_description(
    store: &mut Store,
    project: &str,
    dataset: &str,
    table_name: &str,
    column_name: &str,
    description: String,
) -> (r: Result<Saved, StoreError>)
    ensures
        match r {
            Ok(saved) => {
                &&& edit_outcome(
                    old(store)@,
                    (project@, dataset@, table_name@),
                    column_name@,
                    description@,
                ) == Ok::<DocumentModel, ErrorModel>(saved.document@)
                &&& saved.path.deep_view() == relative_path(document_id(saved.document@))
                &&& final(store)@ == old(store)@.insert(
                    saved.path.deep_view(),
                    ContentModel::Document(saved.document@),
                )
            },
            Err(e) => {
                &&& edit_outcome(
                    old(store)@,
                    (project@, dataset@, table_name@),
                    column_name@,
                    description@,
                ) == Err::<DocumentModel, ErrorModel>(e@)
                &&& final(store)@ == old(store)@
            },
        },
{
    let mut document = match load_table_metadata(store, project, dataset, table_name) {
        Ok(document) => document,
        Err(e) => {
            return Err(e);
        },
    };
    let ghost loaded = document@;
    let k = match find_column(&document, column_name) {
        Some(k) => k,
        None => {
            let mut message = String::from_str("Column '");
            message.append(column_name);
            message.append("' not found in table");
            return Err(StoreError::new(ErrorKind::NotFound, message));
        },
    };
    assert(is_first_column(loaded.columns, column_name@, k as int));
    assert(loaded.columns[k as int] == document.columns[k as int]@);
    let mut column = document.columns[k].clone();
    column.description = if description.as_str().unicode_len() == 0 {
        None
    } else {
        Some(description)
    };
    document.columns.set(k, column);
    assert(document@.columns =~= with_description(loaded, k as int, description@).columns);
    let path = save_table_metadata(store, &document);
    Ok(Saved { path, document })
}

/// The format that a name asks an export for, if it names one: `json` or
/// `yaml`.
pub open spec fn export_format(name: Seq<char>) -> Option<OutputFormat> {
    match format_named(name) {
        Some(OutputFormat::Table) => None,
        other => other,
    }
}

/// The failure for a name that names no format of export.
pub open spec fn export_error(format: Seq<char>) -> ErrorModel {
    ErrorModel { kind: ErrorKind::InvalidInput, message: "Unsupported format: "@ + format }
}

/// What exporting a table gives: the document and the format to write it
/// in, or why it cannot be exported. The document must load, and the name
/// must name a format of export.
pub open spec fn export_outcome(store: StoreModel, id: IdModel, format: Seq<char>) -> Result<
    (DocumentModel, OutputFormat),
    ErrorModel,
> {
    match load_outcome(store, id) {
        Err(e) => Err(e),
        Ok(document) => match export_format(format) {
            Some(f) => Ok((document, f)),
            None => Err(export_error(format)),
        },
    }
}

/// Loads a table's document for export, with the format to write it in.
pub fn export_table_metadata(
    store: &Store,
    project: &str,
    dataset: &str,
    table_name: &str,
    format: &str,
) -> (r: Result<(TableMetadata, OutputFormat), StoreError>)
    ensures
        match r {
            Ok((document, f)) => export_outcome(
                store@,
                (project@, dataset@, table_name@),
                format@,
            ) == Ok::<(DocumentModel, OutputFormat), ErrorModel>((document@, f)),
            Err(e) => export_outcome(store@, (project@, dataset@, table_name@), format@) == Err::<
                (DocumentModel, OutputFormat),
                ErrorModel,
            >(e@),
        },
{
    let document = match load_table_metadata(store, project, dataset, table_name) {
        Ok(document) => document,
        Err(e) => {
            return Err(e);
        },
    };
    match parse_format(format) {
        Some(OutputFormat::Json) => Ok((document, OutputFormat::Json)),
        Some(OutputFormat::Yaml) => Ok((document, OutputFormat::Yaml)),
        _ => Err(StoreError::with_detail(ErrorKind::InvalidInput, "Unsupported format: ", format)),
    }
}

/// The format in which a file to import is read: JSON if its path ends in
/// `.json`, YAML otherwise.
pub fn import_format(file_path: &str) -> (format: OutputFormat)
    ensures
        format == if has_suffix(file_path@, ".json"@) {
            OutputFormat::Json
        } else {
            OutputFormat::Yaml
        },
{
    if ends_with(file_path, ".json") {
        OutputFormat::Json
    } else {
        OutputFormat::Yaml
    }
}

/// The failure for an import onto a stored document.
pub open spec fn conflict_error(id: IdModel) -> ErrorModel {
    ErrorModel {
        kind: ErrorKind::Conflict,
        message: "Table metadata already exists: "@ + dotted(id) + " (use --force to overwrite)"@,
    }
}

/// Stores an imported document under the identifier that it names, and
/// returns the path of the file to write below the data directory. Where a
/// file is stored there already, the import is refused unless `force` is
/// set, and the store stays as it was.
pub fn import_table_metadata(store: &mut Store, metadata: &TableMetadata, force: bool) -> (r: Result<
    Vec<String>,
    StoreError,
>)
    ensures
        match r {
            Ok(path) => {
                &&& force || !old(store)@.contains_key(relative_path(document_id(metadata@)))
                &&& path.deep_view() == relative_path(document_id(metadata@))
                &&& final(store)@ == old(store)@.insert(
                    relative_path(document_id(metadata@)),
                    ContentModel::Document(metadata@),
                )
            },
            Err(e) => {
                &&& !force && old(store)@.contains_key(relative_path(document_id(metadata@)))
                &&& e@ == conflict_error(document_id(metadata@))
                &&& final(store)@ == old(store)@
            },
        },
{
    let project: &str = metadata.table.project_id.as_str();
    let dataset: &str = metadata.table.dataset_id.as_str();
    let table_name: &str = metadata.table.name.as_str();
    let target = table_file(project, dataset, table_name);
    if store.has_file(&target) && !force {
        let mut message = String::from_str("Table metadata already exists: ");
        message.append(dotted_name(project, dataset, table_name).as_str());
        message.append(" (use --force to overwrite)");
        return Err(StoreError::new(ErrorKind::Conflict, message));
    }
    Ok(save_table_metadata(store, metadata))
}

} // verus!
