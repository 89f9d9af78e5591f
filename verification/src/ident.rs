//! Table identifiers, `(project, dataset, table)`, and their order.

use vstd::prelude::*;
use crate::text::{
    compare, lemma_lt_asymmetric, lemma_lt_irreflexive, lemma_lt_total, lemma_lt_transitive,
    seq_lt, Rank,
};

verus! {

/// A table identifier: project, dataset and table name.
pub type TableId = (String, String, String);

/// The value of a [`TableId`].
pub type IdModel = (Seq<char>, Seq<char>, Seq<char>);

/// The dotted name of a table: `project.dataset.table`.
pub open spec fn dotted(id: IdModel) -> Seq<char> {
    id.0 + "."@ + id.1 + "."@ + id.2
}

/// The dotted name of a table: `project.dataset.table`.
pub fn dotted_name(project_id: &str, dataset_id: &str, table_name: &str) -> (name: String)
    ensures
        name@ == dotted((project_id@, dataset_id@, table_name@)),
{
    let mut name = String::from_str(project_id);
    name.append(".");
    name.append(dataset_id);
    name.append(".");
    name.append(table_name);
    name
}

/// Identifiers are ordered by project, then dataset, then table name.
pub open spec fn id_lt(a: IdModel, b: IdModel) -> bool {
    seq_lt(a.0, b.0) || (a.0 == b.0 && (seq_lt(a.1, b.1) || (a.1 == b.1 && seq_lt(a.2, b.2))))
}

/// Each identifier sorts strictly before the ones after it, so none occurs
/// twice.
pub open spec fn ascending(s: Seq<IdModel>) -> bool {
    forall|i: int, j: int| 0 <= i < j < s.len() ==> id_lt(#[trigger] s[i], #[trigger] s[j])
}

/// No identifier sorts before itself.
pub proof fn lemma_id_lt_irreflexive(a: IdModel)
    ensures
        !id_lt(a, a),
{
    lemma_lt_irreflexive(a.0);
    lemma_lt_irreflexive(a.1);
    lemma_lt_irreflexive(a.2);
}

/// The order on identifiers is transitive.
pub proof fn lemma_id_lt_transitive(a: IdModel, b: IdModel, c: IdModel)
    requires
        id_lt(a, b),
        id_lt(b, c),
    ensures
        id_lt(a, c),
{
    if seq_lt(a.0, b.0) && seq_lt(b.0, c.0) {
        lemma_lt_transitive(a.0, b.0, c.0);
    }
    if seq_lt(a.1, b.1) && seq_lt(b.1, c.1) {
        lemma_lt_transitive(a.1, b.1, c.1);
    }
    if seq_lt(a.2, b.2) && seq_lt(b.2, c.2) {
        lemma_lt_transitive(a.2, b.2, c.2);
    }
}

/// The order on identifiers is total.
pub proof fn lemma_id_lt_total(a: IdModel, b: IdModel)
    ensures
        a == b || id_lt(a, b) || id_lt(b, a),
{
    lemma_lt_total(a.0, b.0);
    lemma_lt_total(a.1, b.1);
    lemma_lt_total(a.2, b.2);
}

/// Compares two identifiers.
pub fn compare_ids(a: &TableId, b: &TableId) -> (r: Rank)
    ensures
        r == Rank::Before <==> id_lt(a.deep_view(), b.deep_view()),
        r == Rank::Same <==> a.deep_view() == b.deep_view(),
        r == Rank::After <==> id_lt(b.deep_view(), a.deep_view()),
{
    proof {
        lemma_lt_irreflexive(a.0@);
        lemma_lt_irreflexive(a.1@);
        lemma_lt_irreflexive(a.2@);
        if seq_lt(a.0@, b.0@) {
            lemma_lt_asymmetric(a.0@, b.0@);
        }
        if seq_lt(b.0@, a.0@) {
            lemma_lt_asymmetric(b.0@, a.0@);
        }
        if seq_lt(a.1@, b.1@) {
            lemma_lt_asymmetric(a.1@, b.1@);
        }
        if seq_lt(b.1@, a.1@) {
            lemma_lt_asymmetric(b.1@, a.1@);
        }
        if seq_lt(a.2@, b.2@) {
            lemma_lt_asymmetric(a.2@, b.2@);
        }
        if seq_lt(b.2@, a.2@) {
            lemma_lt_asymmetric(b.2@, a.2@);
        }
    }
    match compare(a.0.as_str(), b.0.as_str()) {
        Rank::Before => Rank::Before,
        Rank::After => Rank::After,
        Rank::Same => match compare(a.1.as_str(), b.1.as_str()) {
            Rank::Before => Rank::Before,
            Rank::After => Rank::After,
            Rank::Same => compare(a.2.as_str(), b.2.as_str()),
        },
    }
}

/// Puts `id` at its place in an ascending list, unless the list holds it
/// already.
pub(crate) fn insert_id(ids: &mut Vec<TableId>, id: TableId)
    requires
        ascending(old(ids).deep_view()),
    ensures
        ascending(final(ids).deep_view()),
        forall|x: IdModel|
            final(ids).deep_view().contains(x) <==> (old(ids).deep_view().contains(x) || x
                == id.deep_view()),
{
    let ghost before = ids.deep_view();
    let mut k: usize = 0;
    while k < ids.len()
        invariant
            k <= ids.len(),
            ids.deep_view() == before,
            before == old(ids).deep_view(),
            ascending(before),
            forall|j: int| 0 <= j < k ==> id_lt(#[trigger] before[j], id.deep_view()),
        ensures
            k == ids.len() || id_lt(id.deep_view(), before[k as int]),
        decreases ids.len() - k,
    {
        match compare_ids(&ids[k], &id) {
            Rank::Before => {
                k = k + 1;
            },
            Rank::Same => {
                assert(before[k as int] == id.deep_view());
                return ;
            },
            Rank::After => {
                break ;
            },
        }
    }
    proof {
        assert forall|j: int| k <= j < before.len() implies id_lt(
            id.deep_view(),
            #[trigger] before[j],
        ) by {
            if j > k {
                lemma_id_lt_transitive(id.deep_view(), before[k as int], before[j]);
            }
        }
        assert forall|x: IdModel| before.contains(x) implies x != id.deep_view() by {
            let j = choose|j: int| 0 <= j < before.len() && before[j] == x;
            lemma_id_lt_irreflexive(x);
        }
    }
    let ghost key = id.deep_view();
    ids.insert(k, id);
    proof {
        let after = ids.deep_view();
        assert(after =~= before.insert(k as int, key));
        assert forall|x: IdModel| after.contains(x) <==> (before.contains(x) || x == key) by {
            if after.contains(x) {
                let j = choose|j: int| 0 <= j < after.len() && after[j] == x;
                if j < k {
                    assert(before[j] == x);
                } else if j > k {
                    assert(before[j - 1] == x);
                }
            }
            if before.contains(x) {
                let j = choose|j: int| 0 <= j < before.len() && before[j] == x;
                if j < k {
                    assert(after[j] == x);
                } else {
                    assert(after[j + 1] == x);
                }
            }
            if x == key {
                assert(after[k as int] == x);
            }
        }
    }
}

} // verus!
