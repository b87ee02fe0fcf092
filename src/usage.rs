//! Usage resolution: which catalog columns a request refers to, and under
//! which label each of them is released.

use vstd::prelude::*;
use crate::error::QueryError;
use crate::schema::{Column, ColumnView, Sensitivity, Table, TableView, columns_view, tables_view};
use crate::text::{chars_of, lower, lower_chars, string_from_chars};

verus! {

/// The label of an aggregate over a column: the aggregate's prefix (such as
/// `sum(`), the column name and a closing parenthesis.
pub open spec fn usage_label(prefix: Seq<char>, name: Seq<char>) -> Seq<char> {
    prefix + name + seq![')']
}

/// The copies of a column, one for each allowed aggregate whose label the
/// request holds, in the order of the aggregates.
pub open spec fn aggregate_uses(
    c: ColumnView,
    requested: Seq<Seq<char>>,
    aggregates: Seq<Seq<char>>,
) -> Seq<ColumnView>
    decreases aggregates.len(),
{
    if aggregates.len() == 0 {
        Seq::empty()
    } else {
        let before = aggregate_uses(c, requested, aggregates.drop_last());
        let label = usage_label(aggregates.last(), c.name);
        if requested.contains(label) {
            before.push(ColumnView { usage: Some(label), ..c })
        } else {
            before
        }
    }
}

/// The uses of one column: its aggregate uses, then a bare use under its own
/// name where the request names it.
pub open spec fn column_uses(
    c: ColumnView,
    requested: Seq<Seq<char>>,
    aggregates: Seq<Seq<char>>,
) -> Seq<ColumnView> {
    aggregate_uses(c, requested, aggregates) + if requested.contains(c.name) {
        seq![ColumnView { usage: Some(c.name), ..c }]
    } else {
        Seq::empty()
    }
}

/// The uses of all columns, column after column.
pub open spec fn resolve_usage(
    cols: Seq<ColumnView>,
    requested: Seq<Seq<char>>,
    aggregates: Seq<Seq<char>>,
) -> Seq<ColumnView>
    decreases cols.len(),
{
    if cols.len() == 0 {
        Seq::empty()
    } else {
        resolve_usage(cols.drop_last(), requested, aggregates) + column_uses(
            cols.last(),
            requested,
            aggregates,
        )
    }
}

/// The names of the tables whose lower-cased name the request holds, in
/// catalog order.
pub open spec fn used_tables(ts: Seq<TableView>, requested: Seq<Seq<char>>) -> Seq<Seq<char>>
    decreases ts.len(),
{
    if ts.len() == 0 {
        Seq::empty()
    } else {
        let before = used_tables(ts.drop_last(), requested);
        if requested.contains(lower(ts.last().name)) {
            before.push(ts.last().name)
        } else {
            before
        }
    }
}

pub open spec fn wildcard() -> Seq<char> {
    seq!['*']
}

/// A use that would release a column's raw values.
pub open spec fn is_raw_use(c: ColumnView) -> bool {
    c.usage == Some(c.name)
}

/// Whether the text is among the strings.
pub fn contains_string(v: &Vec<String>, s: &String) -> (r: bool)
    ensures
        r == v.deep_view().contains(s@),
{
    let mut i: usize = 0;
    while i < v.len()
        invariant
            i <= v.len(),
            forall|k: int| 0 <= k < i ==> v.deep_view()[k] != s@,
        decreases v.len() - i,
    {
        if v[i] == *s {
            assert(v.deep_view()[i as int] == s@);
            return true;
        }
        i = i + 1;
    }
    false
}

/// The label of an aggregate over a column.
pub fn make_label(prefix: &String, name: &String) -> (r: String)
    ensures
        r@ == usage_label(prefix@, name@),
{
    let mut chars = chars_of(prefix.as_str());
    let mut rest = chars_of(name.as_str());
    chars.append(&mut rest);
    chars.push(')');
    string_from_chars(&chars)
}

/// The columns that a request uses: for each catalog column, a copy for each
/// allowed aggregate whose label (`sum(age)`) the request holds, labelled
/// with it, then a copy labelled with the bare name where the request names
/// the column. The catalog's columns are not changed.
pub fn used_columns(
    requested: &Vec<String>,
    existing: &Vec<Column>,
    allowed_aggregates: &Vec<String>,
) -> (r: Vec<Column>)
    ensures
        columns_view(r@) == resolve_usage(
            columns_view(existing@),
            requested.deep_view(),
            allowed_aggregates.deep_view(),
        ),
{
    let ghost req = requested.deep_view();
    let ghost aggs = allowed_aggregates.deep_view();
    let ghost cols = columns_view(existing@);
    let mut out: Vec<Column> = Vec::new();
    let mut i: usize = 0;
    while i < existing.len()
        invariant
            i <= existing.len(),
            req == requested.deep_view(),
            aggs == allowed_aggregates.deep_view(),
            cols == columns_view(existing@),
            columns_view(out@) == resolve_usage(cols.take(i as int), req, aggs),
        decreases existing.len() - i,
    {
        let column = &existing[i];
        let ghost c = cols[i as int];
        let ghost start = columns_view(out@);
        let mut j: usize = 0;
        while j < allowed_aggregates.len()
            invariant
                i < existing.len(),
                j <= allowed_aggregates.len(),
                req == requested.deep_view(),
                aggs == allowed_aggregates.deep_view(),
                cols == columns_view(existing@),
                c == cols[i as int],
                *column == existing@[i as int],
                columns_view(out@) == start + aggregate_uses(c, req, aggs.take(j as int)),
            decreases allowed_aggregates.len() - j,
        {
            let label = make_label(&allowed_aggregates[j], &column.name);
            assert(aggs.take(j + 1).drop_last() =~= aggs.take(j as int));
            if contains_string(requested, &label) {
                let ghost before = columns_view(out@);
                out.push(column.with_usage(label));
                assert(columns_view(out@) =~= before.push(columns_view(out@).last()));
            }
            j = j + 1;
        }
        assert(aggs.take(j as int) =~= aggs);
        if contains_string(requested, &column.name) {
            let ghost before = columns_view(out@);
            let bare = column.name.clone();
            out.push(column.with_usage(bare));
            assert(columns_view(out@) =~= before.push(columns_view(out@).last()));
        }
        assert(cols.take(i + 1).drop_last() =~= cols.take(i as int));
        i = i + 1;
    }
    assert(cols.take(i as int) =~= cols);
    out
}

/// The names of the catalog tables whose lower-cased name the request holds.
pub fn used_table_names(requested: &Vec<String>, existing: &Vec<Table>) -> (r: Vec<String>)
    ensures
        r.deep_view() == used_tables(tables_view(existing@), requested.deep_view()),
{
    let ghost ts = tables_view(existing@);
    let mut out: Vec<String> = Vec::new();
    let mut i: usize = 0;
    while i < existing.len()
        invariant
            i <= existing.len(),
            ts == tables_view(existing@),
            out.deep_view() == used_tables(ts.take(i as int), requested.deep_view()),
        decreases existing.len() - i,
    {
        let lowered = string_from_chars(&lower_chars(&chars_of(existing[i].name.as_str())));
        assert(ts.take(i + 1).drop_last() =~= ts.take(i as int));
        if contains_string(requested, &lowered) {
            let ghost before = out.deep_view();
            let name = existing[i].name.clone();
            out.push(name);
            assert(out.deep_view() =~= before.push(ts[i as int].name));
        }
        i = i + 1;
    }
    assert(ts.take(i as int) =~= ts);
    out
}

/// Refuses a request that would release raw values or that no noise can
/// cover: `*` among the requested expressions, a bare use of a column, or a
/// use of a column whose sensitivity is unbounded, checked in that order.
pub fn check_release_policy(requested: &Vec<String>, used: &Vec<Column>) -> (r: Result<
    (),
    QueryError,
>)
    ensures
        ({
            let req = requested.deep_view();
            let cs = columns_view(used@);
            let raw = exists|i: int| 0 <= i < cs.len() && is_raw_use(#[trigger] cs[i]);
            let unbounded = exists|i: int|
                0 <= i < cs.len() && (#[trigger] cs[i]).sensitivity == Sensitivity::Unbounded;
            &&& req.contains(wildcard()) ==> (r matches Err(QueryError::RawColumnRequested(t))
                && t@ == wildcard())
            &&& !req.contains(wildcard()) && raw ==> (r matches Err(
                QueryError::RawColumnRequested(t),
            ) && exists|i: int| 0 <= i < cs.len() && is_raw_use(#[trigger] cs[i]) && t@ == cs[i].name)
            &&& !req.contains(wildcard()) && !raw && unbounded ==> (r matches Err(
                QueryError::UnboundedSensitivity(t),
            ) && exists|i: int|
                0 <= i < cs.len() && (#[trigger] cs[i]).sensitivity == Sensitivity::Unbounded
                    && t@ == cs[i].name)
            &&& r is Ok <==> !req.contains(wildcard()) && !raw && !unbounded
        }),
{
    let ghost cs = columns_view(used@);
    let star_chars = vec!['*'];
    assert(star_chars@ =~= wildcard());
    let star = string_from_chars(&star_chars);
    if contains_string(requested, &star) {
        return Err(QueryError::RawColumnRequested(star));
    }
    let mut i: usize = 0;
    while i < used.len()
        invariant
            i <= used.len(),
            cs == columns_view(used@),
            !requested.deep_view().contains(wildcard()),
            forall|k: int| 0 <= k < i ==> !is_raw_use(#[trigger] cs[k]),
        decreases used.len() - i,
    {
        let is_raw = match &used[i].usage {
            Some(u) => *u == used[i].name,
            None => false,
        };
        if is_raw {
            let name = used[i].name.clone();
            assert(is_raw_use(cs[i as int]) && name@ == cs[i as int].name);
            return Err(QueryError::RawColumnRequested(name));
        }
        i = i + 1;
    }
    let mut i: usize = 0;
    while i < used.len()
        invariant
            i <= used.len(),
            cs == columns_view(used@),
            !requested.deep_view().contains(wildcard()),
            forall|k: int| 0 <= k < used.len() ==> !is_raw_use(#[trigger] cs[k]),
            forall|k: int| 0 <= k < i ==> (#[trigger] cs[k]).sensitivity != Sensitivity::Unbounded,
        decreases used.len() - i,
    {
        if used[i].sensitivity == Sensitivity::Unbounded {
            let name = used[i].name.clone();
            assert(cs[i as int].sensitivity == Sensitivity::Unbounded && name@ == cs[i as int].name);
            return Err(QueryError::UnboundedSensitivity(name));
        }
        i = i + 1;
    }
    Ok(())
}

} // verus!
