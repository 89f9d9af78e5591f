//! What holds of the store's operations taken together.

use vstd::prelude::*;
use regex::Regex;
use crate::error::{ErrorKind, ErrorModel};
use crate::ident::{ascending, id_lt, lemma_id_lt_irreflexive, lemma_id_lt_transitive, IdModel};
use crate::models::{ColumnModel, DocumentModel, MatchModel, MatchType};
use crate::paths::{lemma_path_id_inverse, lemma_relative_path_injective, path_id, relative_path};
use crate::ident::dotted;
use crate::ranking::{
    first_hits, is_ordering, lemma_concat_holds, lemma_first_hits_keeps,
    lemma_ordering_holds_the_same, lemma_ordering_unique, same_key,
};
use crate::search::{
    all_hits, column_description_hits, column_hits, column_label, column_name_hits,
    description_hits, in_table_fields, is_search_result, lemma_all_hits_upto,
    lemma_column_hit_from, lemma_column_hits_upto, lemma_hit_from, lemma_table_hit_from,
    name_hits, names_only, pattern_matches, stored_hits, table_hits, OptionsModel,
};
use crate::storage::{document_id, is_listing, listed, load_outcome, ContentModel, StoreModel};

verus! {

/// A document that was saved loads again, under the identifier that it
/// names, as the document that was saved. This holds whatever was stored
/// there before, so also of an import that overwrites.
pub proof fn lemma_save_then_load(store: StoreModel, document: DocumentModel)
    ensures
        load_outcome(
            store.insert(relative_path(document_id(document)), ContentModel::Document(document)),
            document_id(document),
        ) == Ok::<DocumentModel, ErrorModel>(document),
{
}

/// Saving a document a second time changes nothing.
pub proof fn lemma_save_twice(store: StoreModel, document: DocumentModel)
    ensures
        store.insert(
            relative_path(document_id(document)),
            ContentModel::Document(document),
        ).insert(relative_path(document_id(document)), ContentModel::Document(document))
            == store.insert(relative_path(document_id(document)), ContentModel::Document(document)),
{
    let path = relative_path(document_id(document));
    let content = ContentModel::Document(document);
    assert(store.insert(path, content).insert(path, content) =~= store.insert(path, content));
}

/// Saving a document leaves every other table's document as it was.
pub proof fn lemma_save_keeps_others(store: StoreModel, document: DocumentModel, other: IdModel)
    requires
        other != document_id(document),
    ensures
        load_outcome(
            store.insert(relative_path(document_id(document)), ContentModel::Document(document)),
            other,
        ) == load_outcome(store, other),
{
    if relative_path(other) == relative_path(document_id(document)) {
        lemma_relative_path_injective(other, document_id(document));
    }
}

/// After a document was deleted, loading it fails: it is not found.
pub proof fn lemma_delete_then_load(store: StoreModel, id: IdModel)
    ensures
        load_outcome(store.remove(relative_path(id)), id) matches Err(e) && e.kind
            == ErrorKind::NotFound,
{
}

/// Every identifier of a listing is that of a stored file whose path has
/// exactly three parts: project, dataset and the table's file name.
pub proof fn lemma_listing_shows_documents(
    store: StoreModel,
    project: Option<Seq<char>>,
    dataset: Option<Seq<char>>,
    ids: Seq<IdModel>,
    id: IdModel,
)
    requires
        is_listing(store, project, dataset, ids),
        ids.contains(id),
    ensures
        store.contains_key(relative_path(id)),
        relative_path(id).len() == 3,
        path_id(relative_path(id)) == Some(id),
{
    lemma_path_id_inverse(relative_path(id), id);
}

/// A file that is no table's document, because its path has not exactly
/// three parts or its name is not a table's file name, shows in no listing.
pub proof fn lemma_other_files_not_listed(
    store: StoreModel,
    path: Seq<Seq<char>>,
    content: ContentModel,
    project: Option<Seq<char>>,
    dataset: Option<Seq<char>>,
    id: IdModel,
)
    requires
        path_id(path) is None,
    ensures
        listed(store.insert(path, content), project, dataset, id) == listed(
            store,
            project,
            dataset,
            id,
        ),
{
    lemma_path_id_inverse(path, id);
}

/// A store without files lists nothing, in any scope.
pub proof fn lemma_empty_store_lists_nothing(
    project: Option<Seq<char>>,
    dataset: Option<Seq<char>>,
    ids: Seq<IdModel>,
)
    requires
        is_listing(Map::<Seq<Seq<char>>, ContentModel>::empty(), project, dataset, ids),
    ensures
        ids == Seq::<IdModel>::empty(),
{
    if ids.len() > 0 {
        assert(ids.contains(ids[0]));
    }
    assert(ids =~= Seq::<IdModel>::empty());
}

/// An ascending list holds no identifier twice.
pub proof fn lemma_ascending_distinct(ids: Seq<IdModel>)
    requires
        ascending(ids),
    ensures
        ids.no_duplicates(),
{
    assert forall|i: int, j: int| 0 <= i < ids.len() && 0 <= j < ids.len() && i != j implies ids[i]
        != ids[j] by {
        lemma_id_lt_irreflexive(ids[i]);
        if i < j {
            assert(id_lt(ids[i], ids[j]));
        } else {
            assert(id_lt(ids[j], ids[i]));
        }
    }
}

/// Two ascending lists of the same identifiers are one list.
pub proof fn lemma_ascending_unique(a: Seq<IdModel>, b: Seq<IdModel>)
    requires
        ascending(a),
        ascending(b),
        forall|x: IdModel| a.contains(x) <==> b.contains(x),
    ensures
        a == b,
    decreases a.len(),
{
    if a.len() == 0 {
        if b.len() > 0 {
            assert(b.contains(b[0]));
        }
        assert(a =~= b);
    } else {
        let x = a.last();
        assert(a.contains(x));
        let j = choose|j: int| 0 <= j < b.len() && b[j] == x;
        let y = b.last();
        assert(b.contains(y));
        let i = choose|i: int| 0 <= i < a.len() && a[i] == y;
        lemma_id_lt_irreflexive(x);
        if j < b.len() - 1 {
            assert(id_lt(b[j], b[b.len() - 1]));
            if i < a.len() - 1 {
                assert(id_lt(a[i], a[a.len() - 1]));
                lemma_id_lt_transitive(x, y, x);
            }
        }
        assert(x == y);
        let fa = a.drop_last();
        let fb = b.drop_last();
        assert forall|z: IdModel| fa.contains(z) <==> fb.contains(z) by {
            lemma_id_lt_irreflexive(z);
            if fa.contains(z) {
                let k = choose|k: int| 0 <= k < fa.len() && fa[k] == z;
                assert(a[k] == z);
                assert(id_lt(a[k], a[a.len() - 1]));
                assert(a.contains(z));
                let m = choose|m: int| 0 <= m < b.len() && b[m] == z;
                assert(m < b.len() - 1);
                assert(fb[m] == z);
            }
            if fb.contains(z) {
                let k = choose|k: int| 0 <= k < fb.len() && fb[k] == z;
                assert(b[k] == z);
                assert(id_lt(b[k], b[b.len() - 1]));
                assert(b.contains(z));
                let m = choose|m: int| 0 <= m < a.len() && a[m] == z;
                assert(m < a.len() - 1);
                assert(fa[m] == z);
            }
        }
        assert(ascending(fa)) by {
            assert forall|p: int, q: int| 0 <= p < q < fa.len() implies id_lt(
                #[trigger] fa[p],
                #[trigger] fa[q],
            ) by {
                assert(id_lt(a[p], a[q]));
            }
        }
        assert(ascending(fb)) by {
            assert forall|p: int, q: int| 0 <= p < q < fb.len() implies id_lt(
                #[trigger] fb[p],
                #[trigger] fb[q],
            ) by {
                assert(id_lt(b[p], b[q]));
            }
        }
        lemma_ascending_unique(fa, fb);
        assert(a =~= fa.push(x));
        assert(b =~= fb.push(y));
    }
}

/// A store has one listing in each scope: what a listing returns depends on
/// the stored files and the scope alone.
pub proof fn lemma_listing_unique(
    store: StoreModel,
    project: Option<Seq<char>>,
    dataset: Option<Seq<char>>,
    a: Seq<IdModel>,
    b: Seq<IdModel>,
)
    requires
        is_listing(store, project, dataset, a),
        is_listing(store, project, dataset, b),
    ensures
        a == b,
{
    lemma_ascending_unique(a, b);
}

/// The listing of the whole store shows every stored document's identifier,
/// each once.
pub proof fn lemma_listing_complete(store: StoreModel, ids: Seq<IdModel>, id: IdModel)
    requires
        is_listing(store, None, None, ids),
    ensures
        ids.contains(id) <==> (id.2.len() > 0 && store.contains_key(relative_path(id))),
        ids.no_duplicates(),
{
    lemma_ascending_distinct(ids);
}

/// The listing of a dataset shows those identifiers of the whole store's
/// listing that lie in that project and dataset.
pub proof fn lemma_dataset_listing(
    store: StoreModel,
    project: Seq<char>,
    dataset: Seq<char>,
    all: Seq<IdModel>,
    part: Seq<IdModel>,
    id: IdModel,
)
    requires
        is_listing(store, None, None, all),
        is_listing(store, Some(project), Some(dataset), part),
    ensures
        part.contains(id) <==> (all.contains(id) && id.0 == project && id.1 == dataset),
{
}

/// The listing of a project shows those identifiers of the whole store's
/// listing that lie in that project.
pub proof fn lemma_project_in_whole(
    store: StoreModel,
    project: Seq<char>,
    all: Seq<IdModel>,
    part: Seq<IdModel>,
    id: IdModel,
)
    requires
        is_listing(store, None, None, all),
        is_listing(store, Some(project), None, part),
    ensures
        part.contains(id) <==> (all.contains(id) && id.0 == project),
{
}

/// The listing of a project shows what the listings of its datasets show
/// together: an identifier is in the project's listing exactly when it is
/// in the listing of its own dataset in that project.
pub proof fn lemma_project_listing(
    store: StoreModel,
    project: Seq<char>,
    whole: Seq<IdModel>,
    part: Seq<IdModel>,
    id: IdModel,
)
    requires
        is_listing(store, Some(project), None, whole),
        is_listing(store, Some(project), Some(id.1), part),
    ensures
        whole.contains(id) <==> part.contains(id),
{
}

/// A search has one result: what it returns depends on the stored files,
/// the options and the compiled expression alone.
pub proof fn lemma_search_result_unique(
    store: StoreModel,
    o: OptionsModel,
    re: Option<Regex>,
    a: Seq<MatchModel>,
    b: Seq<MatchModel>,
)
    requires
        is_search_result(store, o, re, a),
        is_search_result(store, o, re, b),
    ensures
        a == b,
{
    let ids_a = choose|ids: Seq<IdModel>|
        #![trigger all_hits(store, ids, o, re)]
        is_listing(store, o.project_filter, o.dataset_filter, ids) && is_ordering(
            first_hits(all_hits(store, ids, o, re)),
            a,
        );
    let ids_b = choose|ids: Seq<IdModel>|
        #![trigger all_hits(store, ids, o, re)]
        is_listing(store, o.project_filter, o.dataset_filter, ids) && is_ordering(
            first_hits(all_hits(store, ids, o, re)),
            b,
        );
    lemma_listing_unique(store, o.project_filter, o.dataset_filter, ids_a, ids_b);
    lemma_ordering_unique(first_hits(all_hits(store, ids_a, o, re)), a, b);
}

/// With no field selected, a table is searched by its name alone: its
/// description and columns give no hits.
pub proof fn lemma_search_by_name(
    id: IdModel,
    document: DocumentModel,
    o: OptionsModel,
    re: Option<Regex>,
)
    requires
        names_only(o),
    ensures
        table_hits(id, document, o, re) == name_hits(id, o, re),
{
}

/// Where only columns are searched, a table whose name matches gives no hit
/// for that: its hits are those on its columns.
pub proof fn lemma_search_by_columns(
    id: IdModel,
    document: DocumentModel,
    o: OptionsModel,
    re: Option<Regex>,
)
    requires
        !names_only(o),
        !in_table_fields(o),
    ensures
        table_hits(id, document, o, re) == column_hits(id, document.columns, o, re),
{
    assert(Seq::<MatchModel>::empty() + column_hits(id, document.columns, o, re) =~= column_hits(
        id,
        document.columns,
        o,
        re,
    ));
}

/// The columns of the document stored under an identifier; none where no
/// document is stored there.
pub open spec fn stored_columns(store: StoreModel, id: IdModel) -> Seq<ColumnModel> {
    if store.contains_key(relative_path(id)) {
        match store[relative_path(id)] {
            ContentModel::Document(document) => document.columns,
            _ => seq![],
        }
    } else {
        seq![]
    }
}

/// Column `j` of the table `other` is searched before column `k` of the
/// table `id`, and a hit on its description counts as one with a hit on
/// that column's: `other` is listed and has the same dotted name, it comes
/// before `id` or is `id` with `j` before `k`, and the two descriptions are
/// the same.
pub open spec fn twin_before(
    store: StoreModel,
    o: OptionsModel,
    id: IdModel,
    k: int,
    other: IdModel,
    j: int,
) -> bool {
    &&& listed(store, o.project_filter, o.dataset_filter, other)
    &&& 0 <= j < stored_columns(store, other).len()
    &&& 0 <= k < stored_columns(store, id).len()
    &&& id_lt(other, id) || (other == id && j < k)
    &&& dotted(other) == dotted(id)
    &&& stored_columns(store, other)[j].description == stored_columns(store, id)[k].description
}

/// The hit on the description `text` of a column of a table.
pub open spec fn description_hit(id: IdModel, name: Seq<char>, text: Seq<char>) -> MatchModel {
    MatchModel {
        table_path: dotted(id),
        match_type: MatchType::ColumnDescription,
        matched_content: text,
        context: Some(column_label(name)),
    }
}

/// A search on column descriptions finds a column whose description
/// matches, and names that column: the result holds the hit on it. The
/// table must be listed in the scope of the search and its document must
/// load. Left out are the stores in which an equal hit comes first under
/// another column's name: a column searched before, of a table with the
/// same dotted name and with the same description, must have the same name.
pub proof fn lemma_column_description_found(
    store: StoreModel,
    o: OptionsModel,
    re: Option<Regex>,
    result: Seq<MatchModel>,
    id: IdModel,
    document: DocumentModel,
    k: int,
    text: Seq<char>,
)
    requires
        is_search_result(store, o, re, result),
        o.search_all || o.search_column_desc,
        listed(store, o.project_filter, o.dataset_filter, id),
        store[relative_path(id)] == ContentModel::Document(document),
        0 <= k < document.columns.len(),
        document.columns[k].description == Some(text),
        pattern_matches(text, o.pattern, re, o.case_sensitive),
        forall|other: IdModel, j: int| #[trigger]
            twin_before(store, o, id, k, other, j) ==> stored_columns(store, other)[j].name
                == document.columns[k].name,
    ensures
        result.contains(description_hit(id, document.columns[k].name, text)),
{
    let ids = choose|ids: Seq<IdModel>|
        #![trigger all_hits(store, ids, o, re)]
        is_listing(store, o.project_filter, o.dataset_filter, ids) && is_ordering(
            first_hits(all_hits(store, ids, o, re)),
            result,
        );
    let all = all_hits(store, ids, o, re);
    let columns = document.columns;
    let h = description_hit(id, columns[k].name, text);
    assert(ids.contains(id));
    let m = choose|m: int| 0 <= m < ids.len() && ids[m] == id;
    let rest_tables = lemma_all_hits_upto(store, ids, m, o, re);
    let rest_columns = lemma_column_hits_upto(id, columns, k, o, re);
    let a = all_hits(store, ids.take(m), o, re);
    let t = if in_table_fields(o) {
        name_hits(id, o, re) + description_hits(id, document.table.description, o, re)
    } else {
        Seq::<MatchModel>::empty()
    };
    let c = column_hits(id, columns.take(k), o, re);
    let n = column_name_hits(id, columns[k], o, re);
    let d = column_description_hits(id, columns[k], o, re);
    assert(d =~= seq![h]);
    assert(stored_hits(store, id, o, re) == t + column_hits(id, columns, o, re));
    let before = a + t + c + n;
    let after = rest_columns + rest_tables;
    assert(all =~= before.push(h) + after);
    assert forall|i: int| 0 <= i < before.len() && same_key(#[trigger] before[i], h) implies before[i]
        == h by {
        let g = before[i];
        assert(before.contains(g));
        lemma_concat_holds(a + t + c, n, g);
        lemma_concat_holds(a + t, c, g);
        lemma_concat_holds(a, t, g);
        if a.contains(g) {
            lemma_hit_from(store, ids.take(m), o, re, g);
            let x = choose|x: int|
                0 <= x < ids.take(m).len() && stored_hits(
                    store,
                    #[trigger] ids.take(m)[x],
                    o,
                    re,
                ).contains(g);
            let other = ids[x];
            assert(ids.take(m)[x] == other);
            assert(id_lt(ids[x], ids[m]));
            assert(ids.contains(other));
            let found = stored_hits(store, other, o, re);
            let y = choose|y: int| 0 <= y < found.len() && found[y] == g;
            match store[relative_path(other)] {
                ContentModel::Document(theirs) => {
                    lemma_table_hit_from(other, theirs, o, re, g);
                    let j = choose|j: int|
                        0 <= j < theirs.columns.len() && (#[trigger] theirs.columns[j]).description
                            == Some(g.matched_content) && g.context == Some(
                            column_label(theirs.columns[j].name),
                        );
                    assert(twin_before(store, o, id, k, other, j));
                },
                _ => {},
            }
        } else if t.contains(g) {
            let names = name_hits(id, o, re);
            let described = description_hits(id, document.table.description, o, re);
            lemma_concat_holds(names, described, g);
            if names.contains(g) {
                let y = choose|y: int| 0 <= y < names.len() && names[y] == g;
            }
            if described.contains(g) {
                let y = choose|y: int| 0 <= y < described.len() && described[y] == g;
            }
        } else if c.contains(g) {
            lemma_column_hit_from(id, columns.take(k), o, re, g);
            let j = choose|j: int|
                0 <= j < columns.take(k).len() && (#[trigger] columns.take(k)[j]).description
                    == Some(g.matched_content) && g.context == Some(
                    column_label(columns.take(k)[j].name),
                );
            assert(columns.take(k)[j] == columns[j]);
            assert(twin_before(store, o, id, k, id, j));
        } else {
            let y = choose|y: int| 0 <= y < n.len() && n[y] == g;
        }
    }
    lemma_first_hits_keeps(before, h, after);
    lemma_ordering_holds_the_same(first_hits(all), result, h);
}

} // verus!
