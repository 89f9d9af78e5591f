//! What becomes of the hits of a search: duplicates are dropped, and the
//! rest is ordered by table.

use vstd::prelude::*;
use crate::models::{MatchModel, SearchResult};
use crate::text::{
    compare, lemma_lt_asymmetric, lemma_lt_irreflexive, lemma_lt_total, lemma_lt_transitive,
    seq_le, seq_lt, str_eq, Rank,
};

verus! {

/// Two hits count as one: same table, same kind of field, same matched
/// text.
pub open spec fn same_key(a: MatchModel, b: MatchModel) -> bool {
    a.table_path == b.table_path && a.match_type == b.match_type && a.matched_content
        == b.matched_content
}

/// `hits` holds a hit that counts as one with `h`.
pub open spec fn seen(hits: Seq<MatchModel>, h: MatchModel) -> bool {
    exists|i: int| 0 <= i < hits.len() && same_key(#[trigger] hits[i], h)
}

/// The hits without duplicates: of hits that count as one, the first stays,
/// at its place.
pub open spec fn first_hits(hits: Seq<MatchModel>) -> Seq<MatchModel>
    decreases hits.len(),
{
    if hits.len() == 0 {
        seq![]
    } else if seen(hits.drop_last(), hits.last()) {
        first_hits(hits.drop_last())
    } else {
        first_hits(hits.drop_last()).push(hits.last())
    }
}

/// The hits on one table, in their order.
pub open spec fn by_table(hits: Seq<MatchModel>, table_path: Seq<char>) -> Seq<MatchModel>
    decreases hits.len(),
{
    if hits.len() == 0 {
        seq![]
    } else if hits.last().table_path == table_path {
        by_table(hits.drop_last(), table_path).push(hits.last())
    } else {
        by_table(hits.drop_last(), table_path)
    }
}

/// Tables come in ascending order of their dotted names.
pub open spec fn ordered_by_table(hits: Seq<MatchModel>) -> bool {
    forall|i: int, j: int|
        0 <= i < j < hits.len() ==> seq_le(
            (#[trigger] hits[i]).table_path,
            (#[trigger] hits[j]).table_path,
        )
}

/// `ordered` is `hits` ordered by table: tables ascend, and the hits on
/// each table are those of `hits`, in their order there.
pub open spec fn is_ordering(hits: Seq<MatchModel>, ordered: Seq<MatchModel>) -> bool {
    ordered_by_table(ordered) && forall|table_path: Seq<char>|
        by_table(ordered, table_path) == by_table(hits, table_path)
}

/// Dropping duplicates keeps a representative of every hit, and adds none.
pub proof fn lemma_first_hits_seen(hits: Seq<MatchModel>, h: MatchModel)
    ensures
        seen(first_hits(hits), h) <==> seen(hits, h),
    decreases hits.len(),
{
    if hits.len() > 0 {
        let front = hits.drop_last();
        let last = hits.last();
        let kept = first_hits(hits);
        lemma_first_hits_seen(front, h);
        lemma_first_hits_seen(front, last);
        if seen(kept, h) {
            let i = choose|i: int| 0 <= i < kept.len() && same_key(#[trigger] kept[i], h);
            if i < first_hits(front).len() {
                assert(same_key(first_hits(front)[i], h));
                let j = choose|j: int| 0 <= j < front.len() && same_key(#[trigger] front[j], h);
                assert(same_key(hits[j], h));
            } else {
                assert(same_key(hits[hits.len() - 1], h));
            }
        }
        if seen(hits, h) {
            let j = choose|j: int| 0 <= j < hits.len() && same_key(#[trigger] hits[j], h);
            if j < front.len() {
                assert(same_key(front[j], h));
                let i = choose|i: int|
                    0 <= i < first_hits(front).len() && same_key(
                        #[trigger] first_hits(front)[i],
                        h,
                    );
                assert(same_key(kept[i], h));
            } else if seen(front, last) {
                let i = choose|i: int|
                    0 <= i < first_hits(front).len() && same_key(
                        #[trigger] first_hits(front)[i],
                        last,
                    );
                assert(same_key(kept[i], h));
            } else {
                assert(same_key(kept[kept.len() - 1], h));
            }
        }
    }
}

/// After dropping duplicates no two hits count as one.
pub proof fn lemma_first_hits_distinct(hits: Seq<MatchModel>)
    ensures
        forall|i: int, j: int|
            0 <= i < j < first_hits(hits).len() ==> !same_key(
                #[trigger] first_hits(hits)[i],
                #[trigger] first_hits(hits)[j],
            ),
    decreases hits.len(),
{
    if hits.len() > 0 {
        let front = hits.drop_last();
        let last = hits.last();
        let kept = first_hits(hits);
        lemma_first_hits_distinct(front);
        if !seen(front, last) {
            lemma_first_hits_seen(front, last);
            assert forall|i: int, j: int| 0 <= i < j < kept.len() implies !same_key(
                #[trigger] kept[i],
                #[trigger] kept[j],
            ) by {
                if j == kept.len() - 1 {
                    if same_key(kept[i], kept[j]) {
                        assert(same_key(first_hits(front)[i], last));
                    }
                }
            }
        }
    }
}

/// Putting a hit into a list, before hits on other tables only, adds it at
/// the end of the hits on its table and leaves every other table's alone.
proof fn lemma_by_table_insert(hits: Seq<MatchModel>, k: int, h: MatchModel, table_path: Seq<char>)
    requires
        0 <= k <= hits.len(),
        forall|j: int| k <= j < hits.len() ==> (#[trigger] hits[j]).table_path != h.table_path,
    ensures
        by_table(hits.insert(k, h), table_path) == if h.table_path == table_path {
            by_table(hits, table_path).push(h)
        } else {
            by_table(hits, table_path)
        },
    decreases hits.len() - k,
{
    if k == hits.len() {
        assert(hits.insert(k, h) =~= hits.push(h));
        assert(hits.push(h).drop_last() =~= hits);
    } else {
        let front = hits.drop_last();
        let last = hits.last();
        assert(hits.insert(k, h).drop_last() =~= front.insert(k, h));
        assert(hits.insert(k, h).last() == last);
        assert(hits[hits.len() - 1].table_path != h.table_path);
        assert forall|j: int| k <= j < front.len() implies (#[trigger] front[j]).table_path
            != h.table_path by {
            assert(front[j] == hits[j]);
        }
        lemma_by_table_insert(front, k, h, table_path);
    }
}

/// A list with a hit on a table has hits on that table.
proof fn lemma_by_table_holds(hits: Seq<MatchModel>, j: int)
    requires
        0 <= j < hits.len(),
    ensures
        by_table(hits, hits[j].table_path).len() > 0,
    decreases hits.len(),
{
    if j < hits.len() - 1 && hits.last().table_path != hits[j].table_path {
        assert(hits.drop_last()[j] == hits[j]);
        lemma_by_table_holds(hits.drop_last(), j);
    }
}

/// The hits on a table come from the list.
proof fn lemma_by_table_from(hits: Seq<MatchModel>, table_path: Seq<char>)
    requires
        by_table(hits, table_path).len() > 0,
    ensures
        exists|j: int| 0 <= j < hits.len() && (#[trigger] hits[j]).table_path == table_path,
    decreases hits.len(),
{
    if hits.len() > 0 {
        if hits.last().table_path == table_path {
            assert(hits[hits.len() - 1].table_path == table_path);
        } else {
            lemma_by_table_from(hits.drop_last(), table_path);
            let j = choose|j: int|
                0 <= j < hits.drop_last().len() && (#[trigger] hits.drop_last()[j]).table_path
                    == table_path;
            assert(hits[j].table_path == table_path);
        }
    }
}

/// The table of the last hit of an ordered list is the greatest of the list.
proof fn lemma_last_table_greatest(hits: Seq<MatchModel>, table_path: Seq<char>)
    requires
        ordered_by_table(hits),
        by_table(hits, table_path).len() > 0,
    ensures
        seq_le(table_path, hits.last().table_path),
{
    lemma_by_table_from(hits, table_path);
    let j = choose|j: int| 0 <= j < hits.len() && (#[trigger] hits[j]).table_path == table_path;
    lemma_lt_irreflexive(table_path);
    if j < hits.len() - 1 {
        assert(seq_le(hits[j].table_path, hits[hits.len() - 1].table_path));
    }
}

/// Two ordered lists with the same hits on every table, in the same order
/// there, are one list.
pub proof fn lemma_ordered_unique(a: Seq<MatchModel>, b: Seq<MatchModel>)
    requires
        ordered_by_table(a),
        ordered_by_table(b),
        forall|table_path: Seq<char>| by_table(a, table_path) == by_table(b, table_path),
    ensures
        a == b,
    decreases a.len(),
{
    if a.len() == 0 {
        if b.len() > 0 {
            lemma_by_table_holds(b, b.len() - 1);
            assert(by_table(a, b[b.len() - 1].table_path).len() == 0);
        }
        assert(a =~= b);
    } else {
        let x = a.last();
        let t = x.table_path;
        lemma_by_table_holds(a, a.len() - 1);
        assert(by_table(b, t).len() > 0);
        let y = b.last();
        let u = y.table_path;
        lemma_by_table_holds(b, b.len() - 1);
        assert(by_table(a, u) == by_table(b, u));
        lemma_last_table_greatest(a, u);
        lemma_last_table_greatest(b, t);
        lemma_lt_total(t, u);
        assert(t == u);
        let fa = a.drop_last();
        let fb = b.drop_last();
        assert(by_table(a, t) == by_table(fa, t).push(x));
        assert(by_table(b, t) == by_table(fb, t).push(y));
        assert(by_table(fa, t).push(x).last() == by_table(fb, t).push(y).last());
        assert(x == y);
        assert forall|w: Seq<char>| by_table(fa, w) == by_table(fb, w) by {
            assert(by_table(a, w) == by_table(b, w));
            if w == t {
                assert(by_table(fa, t) =~= by_table(fa, t).push(x).drop_last());
                assert(by_table(fb, t) =~= by_table(fb, t).push(y).drop_last());
            }
        }
        assert(ordered_by_table(fa)) by {
            assert forall|i: int, j: int| 0 <= i < j < fa.len() implies seq_le(
                (#[trigger] fa[i]).table_path,
                (#[trigger] fa[j]).table_path,
            ) by {
                assert(seq_le(a[i].table_path, a[j].table_path));
            }
        }
        assert(ordered_by_table(fb)) by {
            assert forall|i: int, j: int| 0 <= i < j < fb.len() implies seq_le(
                (#[trigger] fb[i]).table_path,
                (#[trigger] fb[j]).table_path,
            ) by {
                assert(seq_le(b[i].table_path, b[j].table_path));
            }
        }
        lemma_ordered_unique(fa, fb);
        assert(a =~= fa.push(x));
        assert(b =~= fb.push(y));
    }
}

/// Hits are ordered by table in one way only.
pub proof fn lemma_ordering_unique(hits: Seq<MatchModel>, a: Seq<MatchModel>, b: Seq<MatchModel>)
    requires
        is_ordering(hits, a),
        is_ordering(hits, b),
    ensures
        a == b,
{
    lemma_ordered_unique(a, b);
}

/// What two lists hold, one behind the other, is what either holds.
pub proof fn lemma_concat_holds(a: Seq<MatchModel>, b: Seq<MatchModel>, h: MatchModel)
    ensures
        (a + b).contains(h) <==> (a.contains(h) || b.contains(h)),
{
    if (a + b).contains(h) {
        let i = choose|i: int| 0 <= i < (a + b).len() && (a + b)[i] == h;
        if i < a.len() {
            assert(a[i] == h);
        } else {
            assert(b[i - a.len()] == h);
        }
    }
    if a.contains(h) {
        let i = choose|i: int| 0 <= i < a.len() && a[i] == h;
        assert((a + b)[i] == h);
    }
    if b.contains(h) {
        let i = choose|i: int| 0 <= i < b.len() && b[i] == h;
        assert((a + b)[a.len() + i] == h);
    }
}

/// Dropping duplicates adds no hit: what stays was there.
pub proof fn lemma_first_hits_from(hits: Seq<MatchModel>, h: MatchModel)
    requires
        first_hits(hits).contains(h),
    ensures
        hits.contains(h),
    decreases hits.len(),
{
    if hits.len() > 0 {
        let front = hits.drop_last();
        let kept = first_hits(hits);
        let i = choose|i: int| 0 <= i < kept.len() && kept[i] == h;
        if i < first_hits(front).len() {
            assert(first_hits(front)[i] == h);
            lemma_first_hits_from(front, h);
            let j = choose|j: int| 0 <= j < front.len() && front[j] == h;
            assert(hits[j] == h);
        } else {
            assert(hits[hits.len() - 1] == h);
        }
    }
}

/// What stays of a list when duplicates are dropped also stays of every
/// list that goes on from it.
pub proof fn lemma_first_hits_grows(a: Seq<MatchModel>, b: Seq<MatchModel>, h: MatchModel)
    requires
        first_hits(a).contains(h),
    ensures
        first_hits(a + b).contains(h),
    decreases b.len(),
{
    if b.len() == 0 {
        assert(a + b =~= a);
    } else {
        assert((a + b).drop_last() =~= a + b.drop_last());
        lemma_first_hits_grows(a, b.drop_last(), h);
        let front = first_hits(a + b.drop_last());
        let i = choose|i: int| 0 <= i < front.len() && front[i] == h;
        assert(first_hits(a + b)[i] == h);
    }
}

/// A hit stays when duplicates are dropped, provided that every hit before
/// it that counts as one with it is that very hit.
pub proof fn lemma_first_hits_keeps(before: Seq<MatchModel>, h: MatchModel, after: Seq<MatchModel>)
    requires
        forall|i: int| 0 <= i < before.len() && same_key(#[trigger] before[i], h) ==> before[i] == h,
    ensures
        first_hits(before.push(h) + after).contains(h),
{
    let upto = before.push(h);
    assert(upto.drop_last() =~= before);
    assert(upto.last() == h);
    if seen(before, h) {
        lemma_first_hits_seen(before, h);
        let kept = first_hits(before);
        let i = choose|i: int| 0 <= i < kept.len() && same_key(#[trigger] kept[i], h);
        assert(kept.contains(kept[i]));
        lemma_first_hits_from(before, kept[i]);
        let j = choose|j: int| 0 <= j < before.len() && before[j] == kept[i];
        assert(same_key(before[j], h));
        assert(kept[i] == h);
        assert(first_hits(upto).contains(h));
    } else {
        let kept = first_hits(upto);
        assert(kept[kept.len() - 1] == h);
    }
    lemma_first_hits_grows(upto, after, h);
}

/// The hits on a table hold every hit of the list on that table.
pub proof fn lemma_by_table_keeps(hits: Seq<MatchModel>, h: MatchModel)
    requires
        hits.contains(h),
    ensures
        by_table(hits, h.table_path).contains(h),
    decreases hits.len(),
{
    let i = choose|i: int| 0 <= i < hits.len() && hits[i] == h;
    let front = hits.drop_last();
    let part = by_table(hits, h.table_path);
    if i == hits.len() - 1 {
        assert(part[part.len() - 1] == h);
    } else {
        assert(front[i] == h);
        lemma_by_table_keeps(front, h);
        let inner = by_table(front, h.table_path);
        let j = choose|j: int| 0 <= j < inner.len() && inner[j] == h;
        assert(part[j] == h);
    }
}

/// The hits on a table are hits of the list.
pub proof fn lemma_by_table_within(hits: Seq<MatchModel>, table_path: Seq<char>, h: MatchModel)
    requires
        by_table(hits, table_path).contains(h),
    ensures
        hits.contains(h),
    decreases hits.len(),
{
    if hits.len() > 0 {
        let front = hits.drop_last();
        let part = by_table(hits, table_path);
        let inner = by_table(front, table_path);
        let j = choose|j: int| 0 <= j < part.len() && part[j] == h;
        if j < inner.len() {
            assert(inner[j] == h);
            lemma_by_table_within(front, table_path, h);
            let i = choose|i: int| 0 <= i < front.len() && front[i] == h;
            assert(hits[i] == h);
        } else {
            assert(hits[hits.len() - 1] == h);
        }
    }
}

/// Ordering by table adds no hit and drops none.
pub proof fn lemma_ordering_holds_the_same(
    hits: Seq<MatchModel>,
    ordered: Seq<MatchModel>,
    h: MatchModel,
)
    requires
        is_ordering(hits, ordered),
    ensures
        ordered.contains(h) <==> hits.contains(h),
{
    assert(by_table(ordered, h.table_path) == by_table(hits, h.table_path));
    if hits.contains(h) {
        lemma_by_table_keeps(hits, h);
        lemma_by_table_within(ordered, h.table_path, h);
    }
    if ordered.contains(h) {
        lemma_by_table_keeps(ordered, h);
        lemma_by_table_within(hits, h.table_path, h);
    }
}

/// Whether `hits` holds a hit that counts as one with `h`.
fn holds(hits: &Vec<SearchResult>, h: &SearchResult) -> (r: bool)
    ensures
        r == seen(hits.deep_view(), h@),
{
    let mut i: usize = 0;
    while i < hits.len()
        invariant
            i <= hits.len(),
            forall|k: int| 0 <= k < i ==> !same_key(#[trigger] hits.deep_view()[k], h@),
        decreases hits.len() - i,
    {
        let other = &hits[i];
        assert(hits.deep_view()[i as int] == other@);
        if other.match_type == h.match_type && str_eq(
            other.table_path.as_str(),
            h.table_path.as_str(),
        ) && str_eq(other.matched_content.as_str(), h.matched_content.as_str()) {
            return true;
        }
        i = i + 1;
    }
    false
}

/// Drops duplicates: of hits with the same table, kind of field and matched
/// text, the first stays.
pub fn dedupe(hits: &Vec<SearchResult>) -> (kept: Vec<SearchResult>)
    ensures
        kept.deep_view() == first_hits(hits.deep_view()),
{
    let ghost all = hits.deep_view();
    let mut kept: Vec<SearchResult> = Vec::new();
    assert(kept.deep_view() =~= first_hits(all.take(0)));
    let mut i: usize = 0;
    while i < hits.len()
        invariant
            i <= hits.len(),
            all == hits.deep_view(),
            kept.deep_view() == first_hits(all.take(i as int)),
        decreases hits.len() - i,
    {
        let h = &hits[i];
        proof {
            assert(all[i as int] == h@);
            assert(all.take(i + 1).drop_last() =~= all.take(i as int));
            assert(all.take(i + 1).last() == h@);
            lemma_first_hits_seen(all.take(i as int), h@);
        }
        if !holds(&kept, h) {
            let ghost before = kept.deep_view();
            kept.push(h.clone());
            assert(kept.deep_view() =~= before.push(h@));
        }
        i = i + 1;
    }
    assert(all.take(i as int) =~= all);
    kept
}

/// Orders hits by table, ascending by dotted name; the hits on one table
/// keep their order.
pub fn sort_by_table(hits: &Vec<SearchResult>) -> (ordered: Vec<SearchResult>)
    ensures
        is_ordering(hits.deep_view(), ordered.deep_view()),
{
    let ghost all = hits.deep_view();
    let mut ordered: Vec<SearchResult> = Vec::new();
    assert(ordered.deep_view() =~= Seq::<MatchModel>::empty());
    assert(all.take(0) =~= Seq::<MatchModel>::empty());
    let mut i: usize = 0;
    while i < hits.len()
        invariant
            i <= hits.len(),
            all == hits.deep_view(),
            is_ordering(all.take(i as int), ordered.deep_view()),
        decreases hits.len() - i,
    {
        let h = &hits[i];
        let ghost before = ordered.deep_view();
        let ghost key = h@.table_path;
        let mut k: usize = 0;
        while k < ordered.len()
            invariant
                k <= ordered.len(),
                ordered.deep_view() == before,
                key == h@.table_path,
                forall|j: int| 0 <= j < k ==> seq_le((#[trigger] before[j]).table_path, key),
            ensures
                k == ordered.len() || seq_lt(key, before[k as int].table_path),
            decreases ordered.len() - k,
        {
            assert(before[k as int] == ordered[k as int]@);
            match compare(h.table_path.as_str(), ordered[k].table_path.as_str()) {
                Rank::Before => {
                    break ;
                },
                _ => {
                    k = k + 1;
                },
            }
        }
        proof {
            assert forall|j: int| k <= j < before.len() implies seq_lt(
                key,
                (#[trigger] before[j]).table_path,
            ) by {
                let at = before[k as int].table_path;
                let to = before[j].table_path;
                if j > k {
                    lemma_lt_total(at, to);
                    if seq_lt(at, to) {
                        lemma_lt_transitive(key, at, to);
                    }
                }
            }
            assert forall|j: int| k <= j < before.len() implies (#[trigger] before[j]).table_path
                != key by {
                lemma_lt_irreflexive(key);
            }
            assert forall|j: int| k <= j < before.len() implies seq_le(
                key,
                (#[trigger] before[j]).table_path,
            ) by {
                lemma_lt_asymmetric(key, before[j].table_path);
            }
        }
        ordered.insert(k, h.clone());
        proof {
            let after = ordered.deep_view();
            assert(after =~= before.insert(k as int, h@));
            assert(all[i as int] == h@);
            assert(all.take(i + 1).drop_last() =~= all.take(i as int));
            assert(all.take(i + 1).last() == h@);
            assert forall|table_path: Seq<char>|
                by_table(after, table_path) == by_table(all.take(i + 1), table_path) by {
                lemma_by_table_insert(before, k as int, h@, table_path);
            }
            assert forall|a: int, b: int| 0 <= a < b < after.len() implies seq_le(
                (#[trigger] after[a]).table_path,
                (#[trigger] after[b]).table_path,
            ) by {
                lemma_lt_irreflexive(key);
                if a < k && b > k {
                    assert(after[a] == before[a]);
                    assert(after[b] == before[b - 1]);
                } else if a < k && b < k {
                    assert(after[a] == before[a]);
                    assert(after[b] == before[b]);
                } else if a < k {
                    assert(after[a] == before[a]);
                } else if a == k {
                    assert(after[b] == before[b - 1]);
                } else {
                    assert(after[a] == before[a - 1]);
                    assert(after[b] == before[b - 1]);
                }
            }
        }
        i = i + 1;
    }
    assert(all.take(i as int) =~= all);
    ordered
}

} // verus!
