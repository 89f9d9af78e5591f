//! The search engine: which fields of which tables a pattern matches.

use vstd::prelude::*;
use regex::Regex;
use crate::error::{ErrorKind, ErrorModel, StoreError};
use crate::ident::{dotted, dotted_name, IdModel, TableId};
use crate::models::{
    ColumnInfo, ColumnModel, DocumentModel, MatchModel, MatchType, SearchResult, TableMetadata,
};
use crate::paths::{relative_path, table_file};
use crate::ranking::{dedupe, first_hits, is_ordering, lemma_concat_holds, sort_by_table};
use crate::storage::{
    is_listing, list_tables, scope_error, ContentModel, FileContent, Store, StoreModel,
};
use crate::text::{contains, is_substring, lowercase, to_lowercase};

verus! {

/// A compiled regular expression of the `regex` crate.
#[verifier::external_type_specification]
#[verifier::external_body]
pub struct ExRegex(Regex);

/// The failure of the `regex` crate's compiler.
#[verifier::external_type_specification]
#[verifier::external_body]
pub struct ExRegexError(regex::Error);

/// The pattern text that a compiled expression was made from: what
/// `Regex::as_str` returns.
pub uninterp spec fn compiled_from(re: Regex) -> Seq<char>;

/// Whether a compiled expression matches somewhere in a text: what
/// `Regex::is_match` returns.
pub uninterp spec fn regex_is_match(re: Regex, text: Seq<char>) -> bool;

/// Calls `Regex::new`. Whether a pattern compiles is left open; an
/// expression that comes back was made from the pattern given.
#[verifier::external_body]
fn compile(pattern: &str) -> (r: Result<Regex, regex::Error>)
    ensures
        r matches Ok(re) ==> compiled_from(re) == pattern@,
{
    Regex::new(pattern)
}

/// Calls `Regex::is_match`. The contract only names the result: it depends
/// on the expression and the text alone.
#[verifier::external_body]
fn is_match(re: &Regex, text: &str) -> (b: bool)
    ensures
        b == regex_is_match(*re, text@),
{
    re.is_match(text)
}

/// What to search for, where, and how.
#[derive(Debug)]
pub struct SearchOptions {
    pub pattern: String,
    pub regex: bool,
    pub case_sensitive: bool,
    pub search_all: bool,
    pub search_table_desc: bool,
    pub search_column_name: bool,
    pub search_column_desc: bool,
    pub project_filter: Option<String>,
    pub dataset_filter: Option<String>,
}

/// The value of a [`SearchOptions`].
pub struct OptionsModel {
    pub pattern: Seq<char>,
    pub regex: bool,
    pub case_sensitive: bool,
    pub search_all: bool,
    pub search_table_desc: bool,
    pub search_column_name: bool,
    pub search_column_desc: bool,
    pub project_filter: Option<Seq<char>>,
    pub dataset_filter: Option<Seq<char>>,
}

impl View for SearchOptions {
    type V = OptionsModel;

    open spec fn view(&self) -> OptionsModel {
        OptionsModel {
            pattern: self.pattern@,
            regex: self.regex,
            case_sensitive: self.case_sensitive,
            search_all: self.search_all,
            search_table_desc: self.search_table_desc,
            search_column_name: self.search_column_name,
            search_column_desc: self.search_column_desc,
            project_filter: self.project_filter.deep_view(),
            dataset_filter: self.dataset_filter.deep_view(),
        }
    }
}

impl Default for SearchOptions {
    /// An empty literal pattern, case-insensitive, on table names only, in
    /// every project and dataset.
    fn default() -> (options: SearchOptions)
        ensures
            options@ == (OptionsModel {
                pattern: Seq::empty(),
                regex: false,
                case_sensitive: false,
                search_all: false,
                search_table_desc: false,
                search_column_name: false,
                search_column_desc: false,
                project_filter: None,
                dataset_filter: None,
            }),
    {
        SearchOptions {
            pattern: String::new(),
            regex: false,
            case_sensitive: false,
            search_all: false,
            search_table_desc: false,
            search_column_name: false,
            search_column_desc: false,
            project_filter: None,
            dataset_filter: None,
        }
    }
}

/// The match predicate: with a compiled expression, whether it matches
/// somewhere in the text; without one, whether the pattern occurs in the
/// text, both in lowercase unless the search is case-sensitive.
pub open spec fn pattern_matches(
    text: Seq<char>,
    pattern: Seq<char>,
    regex: Option<Regex>,
    case_sensitive: bool,
) -> bool {
    match regex {
        Some(re) => regex_is_match(re, text),
        None => if case_sensitive {
            is_substring(text, pattern)
        } else {
            is_substring(lowercase(text), lowercase(pattern))
        },
    }
}

/// Whether `text` matches: by the compiled expression if there is one, by
/// substring search for `pattern` otherwise.
pub fn matches_pattern(text: &str, pattern: &str, regex: &Option<Regex>, case_sensitive: bool) -> (b:
    bool)
    ensures
        b == pattern_matches(text@, pattern@, *regex, case_sensitive),
{
    match regex {
        Some(re) => is_match(re, text),
        None => if case_sensitive {
            contains(text, pattern)
        } else {
            let folded_text = to_lowercase(text);
            let folded_pattern = to_lowercase(pattern);
            contains(folded_text.as_str(), folded_pattern.as_str())
        },
    }
}

/// No field is selected: the search is on table names only.
pub open spec fn names_only(o: OptionsModel) -> bool {
    !o.search_all && !o.search_table_desc && !o.search_column_name && !o.search_column_desc
}

/// Table names and table descriptions are searched.
pub open spec fn in_table_fields(o: OptionsModel) -> bool {
    o.search_all || o.search_table_desc
}

/// The label that names a column as the place of a hit.
pub open spec fn column_label(name: Seq<char>) -> Seq<char> {
    "Column: "@ + name
}

/// The hit on the name of a table, if the name matches.
pub open spec fn name_hits(id: IdModel, o: OptionsModel, re: Option<Regex>) -> Seq<MatchModel> {
    if pattern_matches(id.2, o.pattern, re, o.case_sensitive) {
        seq![
            MatchModel {
                table_path: dotted(id),
                match_type: MatchType::TableName,
                matched_content: id.2,
                context: None,
            },
        ]
    } else {
        seq![]
    }
}

/// The hit on the description of a table, if it has one that matches.
pub open spec fn description_hits(
    id: IdModel,
    description: Option<Seq<char>>,
    o: OptionsModel,
    re: Option<Regex>,
) -> Seq<MatchModel> {
    match description {
        Some(text) => if pattern_matches(text, o.pattern, re, o.case_sensitive) {
            seq![
                MatchModel {
                    table_path: dotted(id),
                    match_type: MatchType::TableDescription,
                    matched_content: text,
                    context: None,
                },
            ]
        } else {
            seq![]
        },
        None => seq![],
    }
}

/// The hit on the name of a column, if names are searched and it matches.
pub open spec fn column_name_hits(
    id: IdModel,
    column: ColumnModel,
    o: OptionsModel,
    re: Option<Regex>,
) -> Seq<MatchModel> {
    if (o.search_all || o.search_column_name) && pattern_matches(
        column.name,
        o.pattern,
        re,
        o.case_sensitive,
    ) {
        seq![
            MatchModel {
                table_path: dotted(id),
                match_type: MatchType::ColumnName,
                matched_content: column.name,
                context: Some(column_label(column.name)),
            },
        ]
    } else {
        seq![]
    }
}

/// The hit on the description of a column, if descriptions are searched and
/// it has one that matches.
pub open spec fn column_description_hits(
    id: IdModel,
    column: ColumnModel,
    o: OptionsModel,
    re: Option<Regex>,
) -> Seq<MatchModel> {
    match column.description {
        Some(text) => if (o.search_all || o.search_column_desc) && pattern_matches(
            text,
            o.pattern,
            re,
            o.case_sensitive,
        ) {
            seq![
                MatchModel {
                    table_path: dotted(id),
                    match_type: MatchType::ColumnDescription,
                    matched_content: text,
                    context: Some(column_label(column.name)),
                },
            ]
        } else {
            seq![]
        },
        None => seq![],
    }
}

/// The hits on the columns of a table, column by column in document order,
/// the name before the description.
pub open spec fn column_hits(
    id: IdModel,
    columns: Seq<ColumnModel>,
    o: OptionsModel,
    re: Option<Regex>,
) -> Seq<MatchModel>
    decreases columns.len(),
{
    if columns.len() == 0 {
        seq![]
    } else {
        column_hits(id, columns.drop_last(), o, re) + column_name_hits(id, columns.last(), o, re)
            + column_description_hits(id, columns.last(), o, re)
    }
}

/// The hits on one table: with no field selected, on its name; otherwise
/// on its name and description if table fields are searched, then on its
/// columns. The name is the one under which the document is stored.
pub open spec fn table_hits(
    id: IdModel,
    document: DocumentModel,
    o: OptionsModel,
    re: Option<Regex>,
) -> Seq<MatchModel> {
    if names_only(o) {
        name_hits(id, o, re)
    } else {
        (if in_table_fields(o) {
            name_hits(id, o, re) + description_hits(id, document.table.description, o, re)
        } else {
            seq![]
        }) + column_hits(id, document.columns, o, re)
    }
}

/// The hits on the table stored under `id`; none if the store holds no
/// document there.
pub open spec fn stored_hits(store: StoreModel, id: IdModel, o: OptionsModel, re: Option<Regex>) -> Seq<
    MatchModel,
> {
    if store.contains_key(relative_path(id)) {
        match store[relative_path(id)] {
            ContentModel::Document(document) => table_hits(id, document, o, re),
            _ => seq![],
        }
    } else {
        seq![]
    }
}

/// The hits on the tables `ids`, table by table.
pub open spec fn all_hits(store: StoreModel, ids: Seq<IdModel>, o: OptionsModel, re: Option<Regex>) -> Seq<
    MatchModel,
>
    decreases ids.len(),
{
    if ids.len() == 0 {
        seq![]
    } else {
        all_hits(store, ids.drop_last(), o, re) + stored_hits(store, ids.last(), o, re)
    }
}

/// A hit on the columns of a table names that table, and is a hit on the
/// name or on the description of one of the columns.
pub proof fn lemma_column_hit_from(
    id: IdModel,
    columns: Seq<ColumnModel>,
    o: OptionsModel,
    re: Option<Regex>,
    g: MatchModel,
)
    requires
        column_hits(id, columns, o, re).contains(g),
    ensures
        g.table_path == dotted(id),
        g.match_type == MatchType::ColumnName || g.match_type == MatchType::ColumnDescription,
        g.match_type == MatchType::ColumnDescription ==> exists|j: int|
            0 <= j < columns.len() && (#[trigger] columns[j]).description == Some(
                g.matched_content,
            ) && g.context == Some(column_label(columns[j].name)),
    decreases columns.len(),
{
    if columns.len() > 0 {
        let front = columns.drop_last();
        let last = columns.last();
        let a = column_hits(id, front, o, re);
        let b = column_name_hits(id, last, o, re);
        let c = column_description_hits(id, last, o, re);
        lemma_concat_holds(a + b, c, g);
        lemma_concat_holds(a, b, g);
        if a.contains(g) {
            lemma_column_hit_from(id, front, o, re, g);
            if g.match_type == MatchType::ColumnDescription {
                let j = choose|j: int|
                    0 <= j < front.len() && (#[trigger] front[j]).description == Some(
                        g.matched_content,
                    ) && g.context == Some(column_label(front[j].name));
                assert(columns[j] == front[j]);
            }
        } else if b.contains(g) {
            let i = choose|i: int| 0 <= i < b.len() && b[i] == g;
        } else {
            let i = choose|i: int| 0 <= i < c.len() && c[i] == g;
            assert(columns[columns.len() - 1] == last);
        }
    }
}

/// A hit on a table names that table; a hit on the description of a column
/// is a hit on one of the table's columns.
pub proof fn lemma_table_hit_from(
    id: IdModel,
    document: DocumentModel,
    o: OptionsModel,
    re: Option<Regex>,
    g: MatchModel,
)
    requires
        table_hits(id, document, o, re).contains(g),
    ensures
        g.table_path == dotted(id),
        g.match_type == MatchType::ColumnDescription ==> exists|j: int|
            0 <= j < document.columns.len() && (#[trigger] document.columns[j]).description
                == Some(g.matched_content) && g.context == Some(
                column_label(document.columns[j].name),
            ),
{
    let names = name_hits(id, o, re);
    let described = description_hits(id, document.table.description, o, re);
    let columns = column_hits(id, document.columns, o, re);
    let in_names = names.contains(g);
    let in_described = described.contains(g);
    if in_names {
        let i = choose|i: int| 0 <= i < names.len() && names[i] == g;
    }
    if in_described {
        let i = choose|i: int| 0 <= i < described.len() && described[i] == g;
    }
    if !names_only(o) {
        if in_table_fields(o) {
            lemma_concat_holds(names + described, columns, g);
            lemma_concat_holds(names, described, g);
        } else {
            lemma_concat_holds(Seq::<MatchModel>::empty(), columns, g);
        }
        if columns.contains(g) {
            lemma_column_hit_from(id, document.columns, o, re, g);
        }
    }
}

/// A hit of a search on tables is a hit on one of them.
pub proof fn lemma_hit_from(
    store: StoreModel,
    ids: Seq<IdModel>,
    o: OptionsModel,
    re: Option<Regex>,
    g: MatchModel,
)
    requires
        all_hits(store, ids, o, re).contains(g),
    ensures
        exists|i: int| 0 <= i < ids.len() && stored_hits(store, #[trigger] ids[i], o, re).contains(g),
    decreases ids.len(),
{
    if ids.len() > 0 {
        let front = ids.drop_last();
        lemma_concat_holds(all_hits(store, front, o, re), stored_hits(store, ids.last(), o, re), g);
        if all_hits(store, front, o, re).contains(g) {
            lemma_hit_from(store, front, o, re, g);
            let i = choose|i: int|
                0 <= i < front.len() && stored_hits(store, #[trigger] front[i], o, re).contains(g);
            assert(ids[i] == front[i]);
        } else {
            assert(ids[ids.len() - 1] == ids.last());
        }
    }
}

/// The hits of a search on tables are those on the tables before one of
/// them, then those on that table, then the rest, which is returned.
pub proof fn lemma_all_hits_upto(
    store: StoreModel,
    ids: Seq<IdModel>,
    m: int,
    o: OptionsModel,
    re: Option<Regex>,
) -> (rest: Seq<MatchModel>)
    requires
        0 <= m < ids.len(),
    ensures
        all_hits(store, ids, o, re) == all_hits(store, ids.take(m), o, re) + stored_hits(
            store,
            ids[m],
            o,
            re,
        ) + rest,
    decreases ids.len(),
{
    let front = ids.drop_last();
    let own = stored_hits(store, ids[m], o, re);
    let before = all_hits(store, ids.take(m), o, re);
    if m == ids.len() - 1 {
        assert(front =~= ids.take(m));
        assert(before + own + Seq::<MatchModel>::empty() =~= before + own);
        Seq::empty()
    } else {
        let inner = lemma_all_hits_upto(store, front, m, o, re);
        assert(front.take(m) =~= ids.take(m));
        assert(front[m] == ids[m]);
        let last = stored_hits(store, ids.last(), o, re);
        assert(before + own + inner + last =~= before + own + (inner + last));
        inner + last
    }
}

/// The hits on the columns of a table are those on the columns before one
/// of them, then those on that column's name and description, then the
/// rest, which is returned.
pub proof fn lemma_column_hits_upto(
    id: IdModel,
    columns: Seq<ColumnModel>,
    k: int,
    o: OptionsModel,
    re: Option<Regex>,
) -> (rest: Seq<MatchModel>)
    requires
        0 <= k < columns.len(),
    ensures
        column_hits(id, columns, o, re) == column_hits(id, columns.take(k), o, re)
            + column_name_hits(id, columns[k], o, re) + column_description_hits(
            id,
            columns[k],
            o,
            re,
        ) + rest,
    decreases columns.len(),
{
    let front = columns.drop_last();
    let before = column_hits(id, columns.take(k), o, re);
    if k == columns.len() - 1 {
        assert(front =~= columns.take(k));
        assert(before + column_name_hits(id, columns[k], o, re) + column_description_hits(
            id,
            columns[k],
            o,
            re,
        ) + Seq::<MatchModel>::empty() =~= column_hits(id, columns, o, re));
        Seq::empty()
    } else {
        let inner = lemma_column_hits_upto(id, front, k, o, re);
        assert(front.take(k) =~= columns.take(k));
        assert(front[k] == columns[k]);
        let last = column_name_hits(id, columns.last(), o, re) + column_description_hits(
            id,
            columns.last(),
            o,
            re,
        );
        assert(column_hits(id, columns, o, re) =~= column_hits(id, front, o, re) + last);
        assert(before + column_name_hits(id, columns[k], o, re) + column_description_hits(
            id,
            columns[k],
            o,
            re,
        ) + (inner + last) =~= column_hits(id, front, o, re) + last);
        inner + last
    }
}

/// One hit, built from its parts.
fn hit(table_path: &String, match_type: MatchType, content: &String, context: Option<String>) -> (r:
    Vec<SearchResult>)
    ensures
        r.deep_view() == seq![
            MatchModel {
                table_path: table_path@,
                match_type,
                matched_content: content@,
                context: context.deep_view(),
            },
        ],
{
    let mut r: Vec<SearchResult> = Vec::new();
    r.push(
        SearchResult {
            table_path: table_path.clone(),
            match_type,
            matched_content: content.clone(),
            context,
        },
    );
    assert(r.deep_view() =~= seq![
        MatchModel {
            table_path: table_path@,
            match_type,
            matched_content: content@,
            context: context.deep_view(),
        },
    ]);
    r
}

/// No hit.
fn no_hit() -> (r: Vec<SearchResult>)
    ensures
        r.deep_view() == Seq::<MatchModel>::empty(),
{
    let r: Vec<SearchResult> = Vec::new();
    assert(r.deep_view() =~= Seq::<MatchModel>::empty());
    r
}

/// Moves the hits of `more` behind those of `hits`.
fn extend(hits: &mut Vec<SearchResult>, more: Vec<SearchResult>)
    ensures
        final(hits).deep_view() == old(hits).deep_view() + more.deep_view(),
{
    let mut more = more;
    let ghost tail = more.deep_view();
    hits.append(&mut more);
    assert(hits.deep_view() =~= old(hits).deep_view() + tail);
}

/// The label that names a column as the place of a hit.
fn label_of(column: &ColumnInfo) -> (label: String)
    ensures
        label@ == column_label(column.name@),
{
    let mut label = String::from_str("Column: ");
    label.append(column.name.as_str());
    label
}

/// The hits on one table.
fn hits_in_table(
    id: &TableId,
    document: &TableMetadata,
    options: &SearchOptions,
    regex: &Option<Regex>,
) -> (hits: Vec<SearchResult>)
    ensures
        hits.deep_view() == table_hits(id.deep_view(), document@, options@, *regex),
{
    let ghost i = id.deep_view();
    let ghost o = options@;
    let table_path = dotted_name(id.0.as_str(), id.1.as_str(), id.2.as_str());
    let pattern: &str = options.pattern.as_str();
    let case_sensitive = options.case_sensitive;
    let name: Vec<SearchResult> = if matches_pattern(
        id.2.as_str(),
        pattern,
        regex,
        case_sensitive,
    ) {
        hit(&table_path, MatchType::TableName, &id.2, None)
    } else {
        no_hit()
    };
    assert(name.deep_view() == name_hits(i, o, *regex));
    if !options.search_all && !options.search_table_desc && !options.search_column_name
        && !options.search_column_desc {
        return name;
    }
    let mut hits: Vec<SearchResult> = no_hit();
    if options.search_all || options.search_table_desc {
        extend(&mut hits, name);
        let described: Vec<SearchResult> = match &document.table.description {
            Some(text) => if matches_pattern(text.as_str(), pattern, regex, case_sensitive) {
                hit(&table_path, MatchType::TableDescription, text, None)
            } else {
                no_hit()
            },
            None => no_hit(),
        };
        extend(&mut hits, described);
        assert(hits.deep_view() =~= name_hits(i, o, *regex) + description_hits(
            i,
            document@.table.description,
            o,
            *regex,
        ));
    }
    let ghost head = hits.deep_view();
    let ghost columns = document@.columns;
    assert(columns.len() == document.columns.len());
    let mut k: usize = 0;
    while k < document.columns.len()
        invariant
            k <= document.columns.len(),
            i == id.deep_view(),
            o == options@,
            columns == document@.columns,
            pattern@ == o.pattern,
            case_sensitive == o.case_sensitive,
            table_path@ == dotted(i),
            hits.deep_view() == head + column_hits(i, columns.take(k as int), o, *regex),
        decreases document.columns.len() - k,
    {
        let column = &document.columns[k];
        assert(columns[k as int] == column@);
        let ghost before = hits.deep_view();
        let named: Vec<SearchResult> = if (options.search_all || options.search_column_name)
            && matches_pattern(column.name.as_str(), pattern, regex, case_sensitive) {
            hit(&table_path, MatchType::ColumnName, &column.name, Some(label_of(column)))
        } else {
            no_hit()
        };
        extend(&mut hits, named);
        let described: Vec<SearchResult> = match &column.description {
            Some(text) => if (options.search_all || options.search_column_desc)
                && matches_pattern(text.as_str(), pattern, regex, case_sensitive) {
                hit(&table_path, MatchType::ColumnDescription, text, Some(label_of(column)))
            } else {
                no_hit()
            },
            None => no_hit(),
        };
        extend(&mut hits, described);
        proof {
            assert(columns.take(k + 1).drop_last() =~= columns.take(k as int));
            assert(columns.take(k + 1).last() == column@);
            assert(hits.deep_view() =~= head + column_hits(i, columns.take(k + 1), o, *regex));
        }
        k = k + 1;
    }
    assert(columns.take(k as int) =~= columns);
    hits
}

/// The hits on the tables `ids` of the store, table by table. A table whose
/// document cannot be loaded is passed over.
pub fn collect_hits(
    store: &Store,
    ids: &Vec<TableId>,
    options: &SearchOptions,
    regex: &Option<Regex>,
) -> (hits: Vec<SearchResult>)
    ensures
        hits.deep_view() == all_hits(store@, ids.deep_view(), options@, *regex),
{
    let ghost all = ids.deep_view();
    let mut hits: Vec<SearchResult> = no_hit();
    let mut k: usize = 0;
    while k < ids.len()
        invariant
            k <= ids.len(),
            all == ids.deep_view(),
            hits.deep_view() == all_hits(store@, all.take(k as int), options@, *regex),
        decreases ids.len() - k,
    {
        let id = &ids[k];
        assert(all[k as int] == id.deep_view());
        let path = table_file(id.0.as_str(), id.1.as_str(), id.2.as_str());
        let found: Vec<SearchResult> = match store.file(&path) {
            Some(FileContent::Document(document)) => hits_in_table(id, document, options, regex),
            _ => no_hit(),
        };
        assert(found.deep_view() == stored_hits(store@, id.deep_view(), options@, *regex));
        extend(&mut hits, found);
        proof {
            assert(all.take(k + 1).drop_last() =~= all.take(k as int));
            assert(all.take(k + 1).last() == id.deep_view());
        }
        k = k + 1;
    }
    assert(all.take(k as int) =~= all);
    hits
}

/// The pattern handed to the compiler of regular expressions: the user's,
/// behind the flag for case-insensitive matching unless the search is
/// case-sensitive.
pub open spec fn search_pattern(o: OptionsModel) -> Seq<char> {
    if o.case_sensitive {
        o.pattern
    } else {
        "(?i)"@ + o.pattern
    }
}

/// The failure for a pattern that is no regular expression.
pub open spec fn pattern_error(pattern: Seq<char>) -> ErrorModel {
    ErrorModel {
        kind: ErrorKind::InvalidInput,
        message: "Invalid regular expression: "@ + pattern,
    }
}

/// The search names a dataset and no project.
pub open spec fn scope_refused(o: OptionsModel) -> bool {
    o.project_filter is None && o.dataset_filter is Some
}

/// `result` is what the search gives on the store: the hits on the listed
/// tables in scope, table by table, without duplicates, ordered by table.
pub open spec fn is_search_result(
    store: StoreModel,
    o: OptionsModel,
    re: Option<Regex>,
    result: Seq<MatchModel>,
) -> bool {
    exists|ids: Seq<IdModel>|
        #![trigger all_hits(store, ids, o, re)]
        is_listing(store, o.project_filter, o.dataset_filter, ids) && is_ordering(
            first_hits(all_hits(store, ids, o, re)),
            result,
        )
}

/// The text of an optional string.
fn as_text(text: &Option<String>) -> (r: Option<&str>)
    ensures
        r.deep_view() == text.deep_view(),
{
    match text {
        Some(s) => Some(s.as_str()),
        None => None,
    }
}

/// Compiles the pattern of a search in regular-expression mode, once for
/// the whole search; in literal mode there is nothing to compile.
pub fn compile_pattern(options: &SearchOptions) -> (r: Result<Option<Regex>, StoreError>)
    ensures
        !options.regex ==> r == Ok::<Option<Regex>, StoreError>(None),
        options.regex ==> match r {
            Ok(Some(re)) => compiled_from(re) == search_pattern(options@),
            Ok(None) => false,
            Err(e) => e@ == pattern_error(options@.pattern),
        },
{
    if !options.regex {
        return Ok(None);
    }
    let compiled = if options.case_sensitive {
        compile(options.pattern.as_str())
    } else {
        let mut folded = String::from_str("(?i)");
        folded.append(options.pattern.as_str());
        compile(folded.as_str())
    };
    match compiled {
        Ok(re) => Ok(Some(re)),
        Err(_) => Err(
            StoreError::with_detail(
                ErrorKind::InvalidInput,
                "Invalid regular expression: ",
                options.pattern.as_str(),
            ),
        ),
    }
}

/// Searches the store with the pattern compiled beforehand, if the search
/// is by regular expression. A dataset without a project is refused.
pub fn search_with(store: &Store, options: &SearchOptions, regex: &Option<Regex>) -> (r: Result<
    Vec<SearchResult>,
    StoreError,
>)
    ensures
        match r {
            Ok(results) => !scope_refused(options@) && is_search_result(
                store@,
                options@,
                *regex,
                results.deep_view(),
            ),
            Err(e) => scope_refused(options@) && e@ == scope_error(),
        },
{
    let ids = match list_tables(
        store,
        as_text(&options.project_filter),
        as_text(&options.dataset_filter),
    ) {
        Ok(ids) => ids,
        Err(e) => {
            return Err(e);
        },
    };
    let hits = collect_hits(store, &ids, options, regex);
    let kept = dedupe(&hits);
    let results = sort_by_table(&kept);
    assert(is_listing(
        store@,
        options@.project_filter,
        options@.dataset_filter,
        ids.deep_view(),
    ) && is_ordering(
        first_hits(all_hits(store@, ids.deep_view(), options@, *regex)),
        results.deep_view(),
    ));
    Ok(results)
}

/// Searches the store. A dataset without a project is refused, and then a
/// pattern that is no regular expression, both before any table is read.
pub fn search_tables(store: &Store, options: &SearchOptions) -> (r: Result<
    Vec<SearchResult>,
    StoreError,
>)
    ensures
        scope_refused(options@) ==> (r matches Err(e) && e@ == scope_error()),
        !scope_refused(options@) && !options.regex ==> (r matches Ok(results) && is_search_result(
            store@,
            options@,
            None,
            results.deep_view(),
        )),
        !scope_refused(options@) && options.regex ==> match r {
            Ok(results) => exists|re: Regex|
                compiled_from(re) == search_pattern(options@) && #[trigger] is_search_result(
                    store@,
                    options@,
                    Some(re),
                    results.deep_view(),
                ),
            Err(e) => e@ == pattern_error(options@.pattern),
        },
{
    if options.project_filter.is_none() && options.dataset_filter.is_some() {
        return Err(
            StoreError::new(
                ErrorKind::InvalidInput,
                String::from_str("Cannot specify dataset without project"),
            ),
        );
    }
    let regex = match compile_pattern(options) {
        Ok(regex) => regex,
        Err(e) => {
            return Err(e);
        },
    };
    search_with(store, options, &regex)
}

} // verus!
