//! Reading what the user typed: table specifications and format names.

use vstd::prelude::*;
use crate::error::{ErrorKind, ErrorModel, StoreError};
use crate::ident::{dotted, IdModel, TableId};
use crate::models::OutputFormat;
use crate::text::{chars_of, free_of, lemma_split_unique, str_eq};

verus! {

/// How many dots a text holds.
pub open spec fn dots(s: Seq<char>) -> nat
    decreases s.len(),
{
    if s.len() == 0 {
        0
    } else if s.last() == '.' {
        dots(s.drop_last()) + 1
    } else {
        dots(s.drop_last())
    }
}

/// The text holds no dot.
pub open spec fn dot_free(s: Seq<char>) -> bool {
    free_of(s, '.')
}

/// `id` is what the table specification `s` names: `s` is the dotted name of
/// `id`, and each of the three parts is without dots and not empty.
pub open spec fn names_table(s: Seq<char>, id: IdModel) -> bool {
    &&& s == dotted(id)
    &&& dot_free(id.0) && dot_free(id.1) && dot_free(id.2)
    &&& id.0.len() > 0 && id.1.len() > 0 && id.2.len() > 0
}

/// The text is a table specification: it names a table.
pub open spec fn is_table_spec(s: Seq<char>) -> bool {
    exists|id: IdModel| names_table(s, id)
}

/// The failure for a text that is no table specification.
pub open spec fn spec_error() -> ErrorModel {
    ErrorModel {
        kind: ErrorKind::InvalidInput,
        message: "Table specification must be in format: project.dataset.table"@,
    }
}

/// A text without dots counts none.
proof fn lemma_dots_none(s: Seq<char>)
    requires
        dot_free(s),
    ensures
        dots(s) == 0,
    decreases s.len(),
{
    if s.len() > 0 {
        assert(s.last() == s[s.len() - 1]);
        lemma_dots_none(s.drop_last());
    }
}

/// The failure for a text that is no table specification.
fn refused() -> (e: StoreError)
    ensures
        e@ == spec_error(),
{
    StoreError::new(
        ErrorKind::InvalidInput,
        String::from_str("Table specification must be in format: project.dataset.table"),
    )
}

/// Reads a table specification, `project.dataset.table`: three parts
/// between two dots, none of them empty. Any other text is refused.
pub fn parse_table_spec(table_spec: &str) -> (r: Result<TableId, StoreError>)
    ensures
        r is Ok <==> is_table_spec(table_spec@),
        match r {
            Ok(id) => names_table(table_spec@, id.deep_view()),
            Err(e) => e@ == spec_error(),
        },
{
    let chars = chars_of(table_spec);
    let ghost s = table_spec@;
    let n: usize = chars.len();
    let mut count: usize = 0;
    let mut first: usize = 0;
    let mut second: usize = 0;
    let mut i: usize = 0;
    while i < n
        invariant
            i <= n,
            n == s.len(),
            chars@ == s,
            count <= i,
            count == dots(s.take(i as int)),
            count >= 1 ==> first < i && s[first as int] == '.' && dot_free(s.take(first as int)),
            count >= 2 ==> first < second < i && s[second as int] == '.' && dot_free(
                s.subrange(first + 1, second as int),
            ),
            count == 0 ==> dot_free(s.take(i as int)),
            count == 1 ==> dot_free(s.subrange(first + 1, i as int)),
            count == 2 ==> dot_free(s.subrange(second + 1, i as int)),
        decreases n - i,
    {
        proof {
            assert(s.take(i + 1).drop_last() =~= s.take(i as int));
            assert(s.take(i + 1).last() == s[i as int]);
        }
        if chars[i] == '.' {
            if count == 0 {
                first = i;
            } else if count == 1 {
                second = i;
            }
            count = count + 1;
        }
        i = i + 1;
    }
    assert(s.take(n as int) =~= s);
    if count != 2 {
        proof {
            if is_table_spec(s) {
                let id = choose|id: IdModel| names_table(s, id);
                lemma_dotted_has_two_dots(id);
            }
        }
        return Err(refused());
    }
    let ghost found: IdModel = (
        s.subrange(0, first as int),
        s.subrange(first + 1, second as int),
        s.subrange(second + 1, n as int),
    );
    proof {
        reveal_strlit(".");
        assert(s.take(first as int) =~= found.0);
        assert(s =~= dotted(found));
    }
    if first == 0 || second == first + 1 || second + 1 == n {
        proof {
            if is_table_spec(s) {
                let id = choose|id: IdModel| names_table(s, id);
                lemma_dotted_injective(found, id);
            }
        }
        return Err(refused());
    }
    let project = String::from_str(table_spec.substring_char(0, first));
    let dataset = String::from_str(table_spec.substring_char(first + 1, second));
    let table = String::from_str(table_spec.substring_char(second + 1, n));
    assert(names_table(s, (project@, dataset@, table@)));
    Ok((project, dataset, table))
}

/// The dotted name of three parts without dots holds exactly two dots.
pub proof fn lemma_dotted_has_two_dots(id: IdModel)
    requires
        dot_free(id.0),
        dot_free(id.1),
        dot_free(id.2),
    ensures
        dots(dotted(id)) == 2,
{
    reveal_strlit(".");
    lemma_dots_concat(id.0 + "."@ + id.1 + "."@, id.2);
    lemma_dots_none(id.2);
    lemma_dots_push(id.0 + "."@ + id.1, '.');
    assert(id.0 + "."@ + id.1 + "."@ =~= (id.0 + "."@ + id.1).push('.'));
    lemma_dots_concat(id.0 + "."@, id.1);
    lemma_dots_none(id.1);
    lemma_dots_push(id.0, '.');
    assert(id.0 + "."@ =~= id.0.push('.'));
    lemma_dots_none(id.0);
}

/// A dotted name is read in one way only: two triples without dots in
/// project and dataset that have one dotted name are one triple.
pub proof fn lemma_dotted_injective(a: IdModel, b: IdModel)
    requires
        dot_free(a.0),
        dot_free(a.1),
        dot_free(b.0),
        dot_free(b.1),
        dotted(a) == dotted(b),
    ensures
        a == b,
{
    reveal_strlit(".");
    let rest_a = a.1.push('.') + a.2;
    let rest_b = b.1.push('.') + b.2;
    assert(dotted(a) =~= a.0.push('.') + rest_a);
    assert(dotted(b) =~= b.0.push('.') + rest_b);
    lemma_split_unique(a.0, rest_a, b.0, rest_b, '.');
    lemma_split_unique(a.1, a.2, b.1, b.2, '.');
}

/// A table specification names one table only.
pub proof fn lemma_table_spec_names_one(s: Seq<char>, a: IdModel, b: IdModel)
    requires
        names_table(s, a),
        names_table(s, b),
    ensures
        a == b,
{
    lemma_dotted_injective(a, b);
}

/// The dots of a text with one more character.
proof fn lemma_dots_push(s: Seq<char>, c: char)
    ensures
        dots(s.push(c)) == dots(s) + if c == '.' {
            1nat
        } else {
            0nat
        },
{
    assert(s.push(c).drop_last() =~= s);
}

/// The dots of two texts, one behind the other.
proof fn lemma_dots_concat(a: Seq<char>, b: Seq<char>)
    ensures
        dots(a + b) == dots(a) + dots(b),
    decreases b.len(),
{
    if b.len() == 0 {
        assert(a + b =~= a);
    } else {
        assert((a + b).drop_last() =~= a + b.drop_last());
        assert((a + b).last() == b.last());
        lemma_dots_concat(a, b.drop_last());
    }
}

/// The format that a name stands for, if it names one: `table`, `json` or
/// `yaml`.
pub open spec fn format_named(name: Seq<char>) -> Option<OutputFormat> {
    if name == "table"@ {
        Some(OutputFormat::Table)
    } else if name == "json"@ {
        Some(OutputFormat::Json)
    } else if name == "yaml"@ {
        Some(OutputFormat::Yaml)
    } else {
        None
    }
}

/// The format that a name stands for, if it names one.
pub fn parse_format(name: &str) -> (format: Option<OutputFormat>)
    ensures
        format == format_named(name@),
{
    if str_eq(name, "table") {
        Some(OutputFormat::Table)
    } else if str_eq(name, "json") {
        Some(OutputFormat::Json)
    } else if str_eq(name, "yaml") {
        Some(OutputFormat::Yaml)
    } else {
        None
    }
}

/// The format in which results are shown: JSON or YAML where asked for by
/// name, a table for every other word.
pub fn display_format(output: &str) -> (format: OutputFormat)
    ensures
        format == match format_named(output@) {
            Some(f) => f,
            None => OutputFormat::Table,
        },
{
    match parse_format(output) {
        Some(format) => format,
        None => OutputFormat::Table,
    }
}

} // verus!
