//! The document store: a snapshot of the files below the data directory,
//! and the operations that load, save, delete and enumerate documents.

use vstd::prelude::*;
use crate::error::{ErrorKind, ErrorModel, StoreError};
use crate::ident::{ascending, dotted, dotted_name, insert_id, IdModel, TableId};
use crate::models::{DocumentModel, TableMetadata};
use crate::paths::{lemma_path_id_inverse, path_id, relative_path, same_path, table_file, table_of_file};
use crate::text::str_eq;

verus! {

/// What a stored file holds.
#[derive(Debug, PartialEq, Eq)]
pub enum FileContent {
    /// The file could not be read.
    Unreadable,
    /// The file was read but does not hold a document.
    Malformed,
    /// The file holds this document.
    Document(TableMetadata),
}

/// The value of a [`FileContent`].
pub enum ContentModel {
    Unreadable,
    Malformed,
    Document(DocumentModel),
}

impl View for FileContent {
    type V = ContentModel;

    open spec fn view(&self) -> ContentModel {
        match self {
            FileContent::Unreadable => ContentModel::Unreadable,
            FileContent::Malformed => ContentModel::Malformed,
            FileContent::Document(m) => ContentModel::Document(m@),
        }
    }
}

/// One file of the snapshot: its path below the data directory, part by
/// part, and what it holds.
#[derive(Debug)]
struct StoredFile {
    path: Vec<String>,
    content: FileContent,
}

/// The value of a [`Store`]: what each path below the data directory holds.
pub type StoreModel = Map<Seq<Seq<char>>, ContentModel>;

/// A snapshot of the files below the data directory.
#[derive(Debug)]
pub struct Store {
    files: Vec<StoredFile>,
}

/// The files as a map; of two files with one path the later counts.
spec fn files_map(files: Seq<StoredFile>) -> StoreModel
    decreases files.len(),
{
    if files.len() == 0 {
        Map::empty()
    } else {
        files_map(files.drop_last()).insert(
            files.last().path.deep_view(),
            files.last().content@,
        )
    }
}

/// Adding a file at the end adds its path to the map.
proof fn lemma_files_map_push(files: Seq<StoredFile>, file: StoredFile)
    ensures
        files_map(files.push(file)) == files_map(files).insert(
            file.path.deep_view(),
            file.content@,
        ),
{
    assert(files.push(file).drop_last() =~= files);
}

/// The map holds exactly the paths of the files.
proof fn lemma_files_map_domain(files: Seq<StoredFile>, path: Seq<Seq<char>>)
    ensures
        files_map(files).contains_key(path) <==> exists|k: int|
            0 <= k < files.len() && (#[trigger] files[k]).path.deep_view() == path,
    decreases files.len(),
{
    if files.len() > 0 {
        let front = files.drop_last();
        lemma_files_map_domain(front, path);
        if files_map(files).contains_key(path) {
            if files.last().path.deep_view() == path {
                assert(files[files.len() - 1].path.deep_view() == path);
            } else {
                let k = choose|k: int|
                    0 <= k < front.len() && (#[trigger] front[k]).path.deep_view() == path;
                assert(files[k].path.deep_view() == path);
            }
        }
        if exists|k: int| 0 <= k < files.len() && (#[trigger] files[k]).path.deep_view() == path {
            let k = choose|k: int|
                0 <= k < files.len() && (#[trigger] files[k]).path.deep_view() == path;
            if k < files.len() - 1 {
                assert(front[k].path.deep_view() == path);
            }
        }
    }
}

/// Taking out a file leaves the map as it is at every other path.
proof fn lemma_files_map_remove(files: Seq<StoredFile>, i: int, path: Seq<Seq<char>>)
    requires
        0 <= i < files.len(),
        files[i].path.deep_view() == path,
    ensures
        files_map(files.remove(i)).remove(path) == files_map(files).remove(path),
    decreases files.len(),
{
    let front = files.drop_last();
    if i == files.len() - 1 {
        assert(files.remove(i) =~= front);
        assert(files_map(front).remove(path) =~= files_map(files).remove(path));
    } else {
        let last = files.last();
        assert(files.remove(i).drop_last() =~= front.remove(i));
        assert(files.remove(i).last() == last);
        lemma_files_map_remove(front, i, path);
        let m1 = files_map(front.remove(i));
        let m2 = files_map(front);
        let q = last.path.deep_view();
        let a = m1.insert(q, last.content@).remove(path);
        let b = m2.insert(q, last.content@).remove(path);
        assert(files_map(files.remove(i)) == m1.insert(q, last.content@));
        assert(files_map(files) == m2.insert(q, last.content@));
        assert forall|k: Seq<Seq<char>>|
            (#[trigger] a.dom().contains(k)) == b.dom().contains(k) && (a.dom().contains(k)
                ==> a[k] == b[k]) by {
            if k != path && k != q {
                assert(m1.remove(path).contains_key(k) == m1.contains_key(k));
                assert(m2.remove(path).contains_key(k) == m2.contains_key(k));
                if m1.contains_key(k) {
                    assert(m1.remove(path)[k] == m1[k]);
                    assert(m2.remove(path)[k] == m2[k]);
                }
            }
        }
        assert(a =~= b);
    }
}

/// The identifier under which a document is stored: the one it names
/// itself.
pub open spec fn document_id(document: DocumentModel) -> IdModel {
    (document.table.project_id, document.table.dataset_id, document.table.name)
}

/// An identifier lies in the scope of a listing: in the project, if one is
/// given, and in the dataset, if one is given.
pub open spec fn in_scope(
    id: IdModel,
    project: Option<Seq<char>>,
    dataset: Option<Seq<char>>,
) -> bool {
    (project matches Some(p) ==> id.0 == p) && (dataset matches Some(d) ==> id.1 == d)
}

/// A listing shows an identifier: its table name is not empty, the store has
/// a file at its document's path, and it lies in scope. A file that is not
/// exactly two directories below the data directory, or lacks the
/// extension, is the document of no identifier.
pub open spec fn listed(
    store: StoreModel,
    project: Option<Seq<char>>,
    dataset: Option<Seq<char>>,
    id: IdModel,
) -> bool {
    id.2.len() > 0 && store.contains_key(relative_path(id)) && in_scope(id, project, dataset)
}

/// `ids` is the listing of the store in a scope: every identifier shown,
/// each once, ascending.
pub open spec fn is_listing(
    store: StoreModel,
    project: Option<Seq<char>>,
    dataset: Option<Seq<char>>,
    ids: Seq<IdModel>,
) -> bool {
    ascending(ids) && forall|id: IdModel| ids.contains(id) <==> listed(store, project, dataset, id)
}

impl View for Store {
    type V = StoreModel;

    closed spec fn view(&self) -> StoreModel {
        files_map(self.files@)
    }
}

impl Store {
    /// A snapshot without files.
    pub fn new() -> (store: Store)
        ensures
            store@ == Map::<Seq<Seq<char>>, ContentModel>::empty(),
    {
        Store { files: Vec::new() }
    }

    /// The place of the file that counts for `path`, if there is one.
    fn index_of(&self, path: &Vec<String>) -> (found: Option<usize>)
        ensures
            match found {
                Some(j) => j < self.files.len() && self@.contains_key(path.deep_view())
                    && self@[path.deep_view()] == self.files[j as int].content@,
                None => !self@.contains_key(path.deep_view()),
            },
    {
        let ghost key = path.deep_view();
        let mut found: Option<usize> = None;
        let mut i: usize = 0;
        while i < self.files.len()
            invariant
                i <= self.files.len(),
                key == path.deep_view(),
                match found {
                    Some(j) => j < i && files_map(self.files@.take(i as int)).contains_key(key)
                        && files_map(self.files@.take(i as int))[key]
                        == self.files[j as int].content@,
                    None => !files_map(self.files@.take(i as int)).contains_key(key),
                },
            decreases self.files.len() - i,
        {
            proof {
                assert(self.files@.take(i + 1).drop_last() =~= self.files@.take(i as int));
            }
            if same_path(&self.files[i].path, path) {
                found = Some(i);
            }
            i = i + 1;
        }
        assert(self.files@.take(i as int) =~= self.files@);
        found
    }

    /// What the file at `path` holds, if the snapshot has such a file.
    pub fn file(&self, path: &Vec<String>) -> (content: Option<&FileContent>)
        ensures
            match content {
                Some(c) => self@.contains_key(path.deep_view()) && self@[path.deep_view()] == c@,
                None => !self@.contains_key(path.deep_view()),
            },
    {
        match self.index_of(path) {
            Some(j) => Some(&self.files[j].content),
            None => None,
        }
    }

    /// Whether the snapshot has a file at `path`.
    pub fn has_file(&self, path: &Vec<String>) -> (r: bool)
        ensures
            r == self@.contains_key(path.deep_view()),
    {
        self.index_of(path).is_some()
    }

    /// Takes the file at `path` out of the snapshot, and says whether there
    /// was one.
    pub fn remove_file(&mut self, path: &Vec<String>) -> (removed: bool)
        ensures
            final(self)@ == old(self)@.remove(path.deep_view()),
            removed == old(self)@.contains_key(path.deep_view()),
    {
        let ghost key = path.deep_view();
        let ghost before = self.files@;
        let mut removed = false;
        let mut i: usize = 0;
        while i < self.files.len()
            invariant
                i <= self.files.len(),
                key == path.deep_view(),
                files_map(self.files@).remove(key) == files_map(before).remove(key),
                forall|k: int| 0 <= k < i ==> (#[trigger] self.files[k]).path.deep_view() != key,
                removed || files_map(self.files@).contains_key(key) == files_map(
                    before,
                ).contains_key(key),
                removed ==> files_map(before).contains_key(key),
            decreases self.files.len() - i,
        {
            if same_path(&self.files[i].path, path) {
                proof {
                    lemma_files_map_remove(self.files@, i as int, key);
                    lemma_files_map_domain(self.files@, key);
                }
                self.files.remove(i);
                removed = true;
            } else {
                i = i + 1;
            }
        }
        proof {
            lemma_files_map_domain(self.files@, key);
            assert(files_map(self.files@).remove(key) =~= files_map(self.files@));
        }
        removed
    }

    /// The identifiers of the documents in scope, ascending.
    fn tables(&self, project_id: Option<&str>, dataset_id: Option<&str>) -> (ids: Vec<TableId>)
        ensures
            is_listing(self@, project_id.deep_view(), dataset_id.deep_view(), ids.deep_view()),
    {
        let ghost project = project_id.deep_view();
        let ghost dataset = dataset_id.deep_view();
        let mut ids: Vec<TableId> = Vec::new();
        let mut i: usize = 0;
        while i < self.files.len()
            invariant
                i <= self.files.len(),
                project == project_id.deep_view(),
                dataset == dataset_id.deep_view(),
                ascending(ids.deep_view()),
                forall|x: IdModel|
                    ids.deep_view().contains(x) <==> (in_scope(x, project, dataset) && exists|
                        k: int,
                    |
                        0 <= k < i && path_id((#[trigger] self.files[k]).path.deep_view()) == Some(
                            x,
                        )),
            decreases self.files.len() - i,
        {
            let ghost before = ids.deep_view();
            let ghost here = path_id(self.files[i as int].path.deep_view());
            let mut added = false;
            match table_of_file(&self.files[i].path) {
                Some(id) => {
                    let in_project = match project_id {
                        Some(p) => str_eq(id.0.as_str(), p),
                        None => true,
                    };
                    let in_dataset = match dataset_id {
                        Some(d) => str_eq(id.1.as_str(), d),
                        None => true,
                    };
                    assert((in_project && in_dataset) == in_scope(
                        id.deep_view(),
                        project,
                        dataset,
                    ));
                    if in_project && in_dataset {
                        insert_id(&mut ids, id);
                        added = true;
                    }
                },
                None => {},
            }
            proof {
                let after = ids.deep_view();
                assert forall|x: IdModel|
                    after.contains(x) <==> (in_scope(x, project, dataset) && exists|k: int|
                        0 <= k < i + 1 && path_id((#[trigger] self.files[k]).path.deep_view())
                            == Some(x)) by {
                    if after.contains(x) {
                        if before.contains(x) {
                            let k = choose|k: int|
                                0 <= k < i && path_id(
                                    (#[trigger] self.files[k]).path.deep_view(),
                                ) == Some(x);
                            assert(path_id(self.files[k].path.deep_view()) == Some(x));
                        } else {
                            assert(path_id(self.files[i as int].path.deep_view()) == Some(x));
                        }
                    }
                    if in_scope(x, project, dataset) && exists|k: int|
                        0 <= k < i + 1 && path_id((#[trigger] self.files[k]).path.deep_view())
                            == Some(x) {
                        let k = choose|k: int|
                            0 <= k < i + 1 && path_id((#[trigger] self.files[k]).path.deep_view())
                                == Some(x);
                        if k < i {
                            assert(before.contains(x));
                        } else {
                            assert(here == Some(x));
                            assert(added);
                        }
                    }
                }
            }
            i = i + 1;
        }
        proof {
            let found = ids.deep_view();
            assert forall|x: IdModel|
                found.contains(x) <==> listed(self@, project, dataset, x) by {
                lemma_files_map_domain(self.files@, relative_path(x));
                if found.contains(x) {
                    let k = choose|k: int|
                        0 <= k < i && path_id((#[trigger] self.files[k]).path.deep_view())
                            == Some(x);
                    lemma_path_id_inverse(self.files[k].path.deep_view(), x);
                }
                if listed(self@, project, dataset, x) {
                    let k = choose|k: int|
                        0 <= k < self.files.len() && (#[trigger] self.files[k]).path.deep_view()
                            == relative_path(x);
                    lemma_path_id_inverse(self.files[k].path.deep_view(), x);
                }
            }
        }
        ids
    }

    /// Puts a file into the snapshot, in place of the one at its path if
    /// there is one.
    pub fn insert_file(&mut self, path: Vec<String>, content: FileContent)
        ensures
            final(self)@ == old(self)@.insert(path.deep_view(), content@),
    {
        self.remove_file(&path);
        let ghost key = path.deep_view();
        let ghost value = content@;
        let ghost middle = self.files@;
        let file = StoredFile { path, content };
        proof {
            lemma_files_map_push(middle, file);
        }
        self.files.push(file);
        assert(old(self)@.remove(key).insert(key, value) =~= old(self)@.insert(key, value));
    }
}

/// What loading a table's document gives: the document, or why there is
/// none to give.
pub open spec fn load_outcome(store: StoreModel, id: IdModel) -> Result<DocumentModel, ErrorModel> {
    if !store.contains_key(relative_path(id)) {
        Err(
            ErrorModel {
                kind: ErrorKind::NotFound,
                message: "Table metadata not found: "@ + dotted(id),
            },
        )
    } else {
        match store[relative_path(id)] {
            ContentModel::Unreadable => Err(
                ErrorModel {
                    kind: ErrorKind::StorageIO,
                    message: "Failed to read table metadata: "@ + dotted(id),
                },
            ),
            ContentModel::Malformed => Err(
                ErrorModel {
                    kind: ErrorKind::Corrupt,
                    message: "Failed to parse table metadata: "@ + dotted(id),
                },
            ),
            ContentModel::Document(document) => Ok(document),
        }
    }
}

/// The failure for a listing that names a dataset and no project.
pub open spec fn scope_error() -> ErrorModel {
    ErrorModel {
        kind: ErrorKind::InvalidInput,
        message: "Cannot specify dataset without project"@,
    }
}

/// The directory to scan for a listing, below the data directory and part
/// by part: the dataset's, the project's, or the data directory itself.
pub open spec fn scan_path(project: Option<Seq<char>>, dataset: Option<Seq<char>>) -> Seq<
    Seq<char>,
> {
    match (project, dataset) {
        (Some(p), Some(d)) => seq![p, d],
        (Some(p), None) => seq![p],
        _ => seq![],
    }
}

/// The directory to scan for a listing. A dataset without a project is
/// refused.
pub fn scan_root(project_id: Option<&str>, dataset_id: Option<&str>) -> (r: Result<
    Vec<String>,
    StoreError,
>)
    ensures
        match r {
            Ok(path) => !(project_id is None && dataset_id is Some) && path.deep_view()
                == scan_path(project_id.deep_view(), dataset_id.deep_view()),
            Err(e) => project_id is None && dataset_id is Some && e@ == scope_error(),
        },
{
    let mut path: Vec<String> = Vec::new();
    match (project_id, dataset_id) {
        (Some(p), Some(d)) => {
            path.push(String::from_str(p));
            path.push(String::from_str(d));
            assert(path.deep_view() =~= seq![p@, d@]);
        },
        (Some(p), None) => {
            path.push(String::from_str(p));
            assert(path.deep_view() =~= seq![p@]);
        },
        (None, None) => {
            assert(path.deep_view() =~= Seq::<Seq<char>>::empty());
        },
        (None, Some(_)) => {
            return Err(
                StoreError::new(
                    ErrorKind::InvalidInput,
                    String::from_str("Cannot specify dataset without project"),
                ),
            );
        },
    }
    Ok(path)
}

/// Loads the document of a table.
pub fn load_table_metadata(
    store: &Store,
    project_id: &str,
    dataset_id: &str,
    table_name: &str,
) -> (r: Result<TableMetadata, StoreError>)
    ensures
        match r {
            Ok(document) => load_outcome(store@, (project_id@, dataset_id@, table_name@)) == Ok::<
                DocumentModel,
                ErrorModel,
            >(document@),
            Err(e) => load_outcome(store@, (project_id@, dataset_id@, table_name@)) == Err::<
                DocumentModel,
                ErrorModel,
            >(e@),
        },
{
    let path = table_file(project_id, dataset_id, table_name);
    let name = dotted_name(project_id, dataset_id, table_name);
    match store.file(&path) {
        None => Err(
            StoreError::with_detail(
                ErrorKind::NotFound,
                "Table metadata not found: ",
                name.as_str(),
            ),
        ),
        Some(FileContent::Unreadable) => Err(
            StoreError::with_detail(
                ErrorKind::StorageIO,
                "Failed to read table metadata: ",
                name.as_str(),
            ),
        ),
        Some(FileContent::Malformed) => Err(
            StoreError::with_detail(
                ErrorKind::Corrupt,
                "Failed to parse table metadata: ",
                name.as_str(),
            ),
        ),
        Some(FileContent::Document(document)) => Ok(document.clone()),
    }
}

/// Stores a document under the identifier that it names, in place of the
/// one stored there if there is one, and returns the path of the file to
/// write below the data directory.
pub fn save_table_metadata(store: &mut Store, metadata: &TableMetadata) -> (path: Vec<String>)
    ensures
        path.deep_view() == relative_path(document_id(metadata@)),
        final(store)@ == old(store)@.insert(
            relative_path(document_id(metadata@)),
            ContentModel::Document(metadata@),
        ),
{
    let path = table_file(
        metadata.table.project_id.as_str(),
        metadata.table.dataset_id.as_str(),
        metadata.table.name.as_str(),
    );
    let target = path.clone();
    assert(target.deep_view() =~= path.deep_view());
    store.insert_file(target, FileContent::Document(metadata.clone()));
    path
}

/// The identifiers of the stored documents, ascending by project, dataset
/// and table, in the given project and dataset if they are given. A dataset
/// without a project is refused.
pub fn list_tables(store: &Store, project_id: Option<&str>, dataset_id: Option<&str>) -> (r: Result<
    Vec<TableId>,
    StoreError,
>)
    ensures
        match r {
            Ok(ids) => !(project_id is None && dataset_id is Some) && is_listing(
                store@,
                project_id.deep_view(),
                dataset_id.deep_view(),
                ids.deep_view(),
            ),
            Err(e) => project_id is None && dataset_id is Some && e@ == scope_error(),
        },
{
    match scan_root(project_id, dataset_id) {
        Err(e) => Err(e),
        Ok(_) => Ok(store.tables(project_id, dataset_id)),
    }
}

/// Deletes the document of a table, and returns the path of the file to
/// remove below the data directory.
pub fn delete_table_metadata(
    store: &mut Store,
    project_id: &str,
    dataset_id: &str,
    table_name: &str,
) -> (r: Result<Vec<String>, StoreError>)
    ensures
        match r {
            Ok(path) => {
                &&& old(store)@.contains_key(path.deep_view())
                &&& path.deep_view() == relative_path((project_id@, dataset_id@, table_name@))
                &&& final(store)@ == old(store)@.remove(path.deep_view())
            },
            Err(e) => {
                &&& !old(store)@.contains_key(
                    relative_path((project_id@, dataset_id@, table_name@)),
                )
                &&& e@ == (ErrorModel {
                    kind: ErrorKind::NotFound,
                    message: "Table metadata not found: "@ + dotted(
                        (project_id@, dataset_id@, table_name@),
                    ),
                })
                &&& final(store)@ == old(store)@
            },
        },
{
    let path = table_file(project_id, dataset_id, table_name);
    if store.remove_file(&path) {
        Ok(path)
    } else {
        let name = dotted_name(project_id, dataset_id, table_name);
        assert(store@ =~= old(store)@);
        Err(
            StoreError::with_detail(
                ErrorKind::NotFound,
                "Table metadata not found: ",
                name.as_str(),
            ),
        )
    }
}

} // verus!
