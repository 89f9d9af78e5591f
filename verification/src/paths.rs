//! Where a table's document lives: the mapping between identifiers and
//! file paths below the data directory.

use vstd::prelude::*;
use crate::ident::{IdModel, TableId};
use crate::text::{ends_with, free_of, has_suffix, lemma_split_unique, str_eq};

verus! {

/// The suffix of every document's file name.
pub open spec fn extension() -> Seq<char> {
    ".yaml"@
}

/// The separator between the parts of a path.
pub open spec fn separator() -> Seq<char> {
    "/"@
}

/// The file name of a table's document.
pub open spec fn file_name(table: Seq<char>) -> Seq<char> {
    table + extension()
}

/// The path of a table's document below the data directory, part by part.
pub open spec fn relative_path(id: IdModel) -> Seq<Seq<char>> {
    seq![id.0, id.1, file_name(id.2)]
}

/// The path of a table's document: `data_dir/project/dataset/table.yaml`.
/// Each part is used as it is: a name that holds the separator is not
/// refused, and then names a file deeper in the tree.
pub open spec fn table_path(data_dir: Seq<char>, id: IdModel) -> Seq<char> {
    data_dir + separator() + id.0 + separator() + id.1 + separator() + id.2 + extension()
}

/// The identifier that a path below the data directory stands for: the path
/// has exactly three parts, and the last is a non-empty table name followed
/// by the extension.
pub open spec fn path_id(path: Seq<Seq<char>>) -> Option<IdModel> {
    if path.len() == 3 && has_suffix(path[2], extension()) && path[2].len() > extension().len() {
        Some((path[0], path[1], path[2].subrange(0, path[2].len() - extension().len())))
    } else {
        None
    }
}

/// A path stands for an identifier exactly when it is the path of that
/// identifier's document and the table name is not empty: the mapping from
/// identifiers to paths loses nothing.
pub proof fn lemma_path_id_inverse(path: Seq<Seq<char>>, id: IdModel)
    ensures
        path_id(path) == Some(id) <==> (path == relative_path(id) && id.2.len() > 0),
{
    let ext = extension();
    if path_id(path) == Some(id) {
        let name = path[2];
        assert(name =~= id.2 + ext);
        assert(path =~= relative_path(id));
    }
    if path == relative_path(id) && id.2.len() > 0 {
        let name = file_name(id.2);
        assert(name.subrange(name.len() - ext.len(), name.len() as int) =~= ext);
        assert(name.subrange(0, name.len() - ext.len()) =~= id.2);
    }
}

/// Distinct identifiers have distinct document paths.
pub proof fn lemma_relative_path_injective(a: IdModel, b: IdModel)
    requires
        relative_path(a) == relative_path(b),
    ensures
        a == b,
{
    let pa = relative_path(a);
    let pb = relative_path(b);
    assert(pa[0] == pb[0] && pa[1] == pb[1] && pa[2] == pb[2]);
    let ext = extension();
    assert(file_name(a.2).subrange(0, a.2.len() as int) =~= a.2);
    assert(file_name(b.2).subrange(0, b.2.len() as int) =~= b.2);
    assert(a.2.len() == file_name(a.2).len() - ext.len());
    assert(b.2.len() == file_name(b.2).len() - ext.len());
}

/// Below one data directory, distinct identifiers have distinct document
/// paths, provided that no project or dataset name holds the separator.
pub proof fn lemma_table_path_injective(data_dir: Seq<char>, a: IdModel, b: IdModel)
    requires
        free_of(a.0, '/'),
        free_of(a.1, '/'),
        free_of(b.0, '/'),
        free_of(b.1, '/'),
        table_path(data_dir, a) == table_path(data_dir, b),
    ensures
        a == b,
{
    reveal_strlit("/");
    let ext = extension();
    let head = data_dir + separator();
    let tail_a = a.1.push('/') + (a.2 + ext);
    let tail_b = b.1.push('/') + (b.2 + ext);
    let rest_a = a.0.push('/') + tail_a;
    let rest_b = b.0.push('/') + tail_b;
    assert(table_path(data_dir, a) =~= head + rest_a);
    assert(table_path(data_dir, b) =~= head + rest_b);
    assert(rest_a =~= (head + rest_a).subrange(head.len() as int, (head + rest_a).len() as int));
    assert(rest_b =~= (head + rest_b).subrange(head.len() as int, (head + rest_b).len() as int));
    lemma_split_unique(a.0, tail_a, b.0, tail_b, '/');
    lemma_split_unique(a.1, a.2 + ext, b.1, b.2 + ext, '/');
    assert(a.2 =~= (a.2 + ext).subrange(0, a.2.len() as int));
    assert(b.2 =~= (b.2 + ext).subrange(0, b.2.len() as int));
    assert(a.2.len() == (a.2 + ext).len() - ext.len());
}

/// The path of a table's document, for the file system. It depends on the
/// data directory and the identifier alone.
pub fn get_table_path(data_dir: &str, project_id: &str, dataset_id: &str, table_name: &str) -> (path:
    String)
    ensures
        path@ == table_path(data_dir@, (project_id@, dataset_id@, table_name@)),
{
    let mut path = String::from_str(data_dir);
    path.append("/");
    path.append(project_id);
    path.append("/");
    path.append(dataset_id);
    path.append("/");
    path.append(table_name);
    path.append(".yaml");
    path
}

/// The path of a table's document below the data directory, part by part.
pub fn table_file(project_id: &str, dataset_id: &str, table_name: &str) -> (path: Vec<String>)
    ensures
        path.deep_view() == relative_path((project_id@, dataset_id@, table_name@)),
{
    let mut name = String::from_str(table_name);
    name.append(".yaml");
    let mut path: Vec<String> = Vec::new();
    path.push(String::from_str(project_id));
    path.push(String::from_str(dataset_id));
    path.push(name);
    assert(path.deep_view() =~= relative_path((project_id@, dataset_id@, table_name@)));
    path
}

/// The identifier that a path below the data directory stands for, if any.
pub fn table_of_file(path: &Vec<String>) -> (id: Option<TableId>)
    ensures
        id.deep_view() == path_id(path.deep_view()),
{
    assert(path.deep_view().len() == path.len());
    if path.len() != 3 {
        return None;
    }
    assert(path.deep_view()[2] == path[2]@);
    assert(path.deep_view()[1] == path[1]@);
    assert(path.deep_view()[0] == path[0]@);
    let name: &str = path[2].as_str();
    let ext: &str = ".yaml";
    if !ends_with(name, ext) {
        return None;
    }
    let n: usize = name.unicode_len();
    let m: usize = ext.unicode_len();
    if n <= m {
        return None;
    }
    let stem = String::from_str(name.substring_char(0, n - m));
    Some((path[0].clone(), path[1].clone(), stem))
}

/// Whether two paths have the same parts.
pub fn same_path(a: &Vec<String>, b: &Vec<String>) -> (r: bool)
    ensures
        r == (a.deep_view() == b.deep_view()),
{
    assert(a.deep_view().len() == a.len() && b.deep_view().len() == b.len());
    if a.len() != b.len() {
        return false;
    }
    let mut i: usize = 0;
    while i < a.len()
        invariant
            a.len() == b.len(),
            i <= a.len(),
            forall|k: int| 0 <= k < i ==> a[k]@ == b[k]@,
        decreases a.len() - i,
    {
        if !str_eq(a[i].as_str(), b[i].as_str()) {
            assert(a.deep_view()[i as int] != b.deep_view()[i as int]);
            return false;
        }
        i = i + 1;
    }
    assert(a.deep_view() =~= b.deep_view());
    true
}

} // verus!
