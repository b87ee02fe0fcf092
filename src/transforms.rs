//! The transform pipeline: which values of the raw result rows are released,
//! under which label, and with which noise scale. The noise itself is drawn
//! outside the library; every value that leaves goes through it.

use vstd::prelude::*;
use crate::schema::{Column, ColumnView, Sensitivity, columns_view, opt_view};

verus! {

pub struct NoiseRequestView {
    pub label: Seq<char>,
    pub raw_value: Seq<char>,
    pub sensitivity: int,
    pub epsilon: int,
}

/// One value to release: `raw_value` read as a number (zero where it does
/// not read as one), plus Laplace noise of scale `sensitivity / epsilon`,
/// released under `label`. Both are in millionths; `epsilon` is positive.
#[derive(Debug)]
pub struct NoiseRequest {
    pub label: String,
    pub raw_value: String,
    pub sensitivity: u64,
    pub epsilon: i64,
}

impl View for NoiseRequest {
    type V = NoiseRequestView;

    open spec fn view(&self) -> NoiseRequestView {
        NoiseRequestView {
            label: self.label@,
            raw_value: self.raw_value@,
            sensitivity: self.sensitivity as int,
            epsilon: self.epsilon as int,
        }
    }
}

pub open spec fn requests_view(rs: Seq<NoiseRequest>) -> Seq<NoiseRequestView> {
    rs.map_values(|r: NoiseRequest| r@)
}

pub open spec fn pairs_view(ps: Seq<(String, String)>) -> Seq<(Seq<char>, Seq<char>)> {
    ps.map_values(|p: (String, String)| (p.0@, p.1@))
}

pub open spec fn rows_view(rows: Seq<Vec<(String, String)>>) -> Seq<Seq<(Seq<char>, Seq<char>)>> {
    rows.map_values(|r: Vec<(String, String)>| pairs_view(r@))
}

pub open spec fn epsilons_view(es: Seq<(String, i64)>) -> Seq<(Seq<char>, int)> {
    es.map_values(|e: (String, i64)| (e.0@, e.1 as int))
}

/// The last used column labelled with the key.
pub open spec fn column_for_label(cols: Seq<ColumnView>, key: Seq<char>) -> Option<ColumnView>
    decreases cols.len(),
{
    if cols.len() == 0 {
        None
    } else if cols.last().usage == Some(key) {
        Some(cols.last())
    } else {
        column_for_label(cols.drop_last(), key)
    }
}

/// The epsilon of the last entry for the table.
pub open spec fn epsilon_for(es: Seq<(Seq<char>, int)>, table: Seq<char>) -> Option<int>
    decreases es.len(),
{
    if es.len() == 0 {
        None
    } else if es.last().0 == table {
        Some(es.last().1)
    } else {
        epsilon_for(es.drop_last(), table)
    }
}

/// What is released of one value of a row: nothing where its key labels no
/// used column, where that column's sensitivity is unbounded, or where its
/// table has no positive epsilon; else a request for noise.
pub open spec fn release(
    cols: Seq<ColumnView>,
    es: Seq<(Seq<char>, int)>,
    key: Seq<char>,
    value: Seq<char>,
) -> Option<NoiseRequestView> {
    match column_for_label(cols, key) {
        None => None,
        Some(c) => match c.sensitivity {
            Sensitivity::Unbounded => None,
            Sensitivity::Bounded(s) => match epsilon_for(es, c.table_name) {
                Some(e) => if e > 0 {
                    Some(NoiseRequestView { label: key, raw_value: value, sensitivity: s as int, epsilon: e })
                } else {
                    None
                },
                None => None,
            },
        },
    }
}

pub open spec fn opt_seq<A>(o: Option<A>) -> Seq<A> {
    match o {
        Some(a) => seq![a],
        None => Seq::empty(),
    }
}

/// What is released of a row, value after value.
pub open spec fn row_releases(
    cols: Seq<ColumnView>,
    es: Seq<(Seq<char>, int)>,
    row: Seq<(Seq<char>, Seq<char>)>,
) -> Seq<NoiseRequestView>
    decreases row.len(),
{
    if row.len() == 0 {
        Seq::empty()
    } else {
        row_releases(cols, es, row.drop_last()) + opt_seq(
            release(cols, es, row.last().0, row.last().1),
        )
    }
}

/// What is released of all rows, row after row.
pub open spec fn releases(
    cols: Seq<ColumnView>,
    es: Seq<(Seq<char>, int)>,
    rows: Seq<Seq<(Seq<char>, Seq<char>)>>,
) -> Seq<NoiseRequestView>
    decreases rows.len(),
{
    if rows.len() == 0 {
        Seq::empty()
    } else {
        releases(cols, es, rows.drop_last()) + row_releases(cols, es, rows.last())
    }
}

/// Whether a release is covered: its label is the usage label of a used
/// column of bounded sensitivity, whose table has a positive epsilon, and
/// the release carries that sensitivity and that epsilon.
pub open spec fn covered(
    cols: Seq<ColumnView>,
    es: Seq<(Seq<char>, int)>,
    q: NoiseRequestView,
) -> bool {
    match column_for_label(cols, q.label) {
        Some(c) => c.sensitivity == Sensitivity::Bounded(q.sensitivity as u64) && 0 <= q.sensitivity
            <= u64::MAX && epsilon_for(es, c.table_name) == Some(q.epsilon) && q.epsilon > 0,
        None => false,
    }
}

proof fn lemma_row_releases_covered(
    cols: Seq<ColumnView>,
    es: Seq<(Seq<char>, int)>,
    row: Seq<(Seq<char>, Seq<char>)>,
)
    ensures
        forall|k: int|
            0 <= k < row_releases(cols, es, row).len() ==> covered(
                cols,
                es,
                #[trigger] row_releases(cols, es, row)[k],
            ),
    decreases row.len(),
{
    if row.len() > 0 {
        lemma_row_releases_covered(cols, es, row.drop_last());
        let before = row_releases(cols, es, row.drop_last());
        let last = opt_seq(release(cols, es, row.last().0, row.last().1));
        assert forall|k: int| 0 <= k < last.len() implies covered(cols, es, #[trigger] last[k]) by {
        }
        assert forall|k: int|
            0 <= k < row_releases(cols, es, row).len() implies covered(
            cols,
            es,
            #[trigger] row_releases(cols, es, row)[k],
        ) by {
            if k < before.len() {
                assert(row_releases(cols, es, row)[k] == before[k]);
            } else {
                assert(row_releases(cols, es, row)[k] == last[k - before.len()]);
            }
        }
    }
}

/// No value leaves the pipeline uncovered: whatever the rows hold, each
/// release is labelled with the usage label of a used column of bounded
/// sensitivity whose table has a positive epsilon, and carries exactly that
/// sensitivity and epsilon. A key that labels no used column never leaves.
pub proof fn law_releases_are_covered(
    cols: Seq<ColumnView>,
    es: Seq<(Seq<char>, int)>,
    rows: Seq<Seq<(Seq<char>, Seq<char>)>>,
)
    ensures
        forall|k: int|
            0 <= k < releases(cols, es, rows).len() ==> covered(
                cols,
                es,
                #[trigger] releases(cols, es, rows)[k],
            ),
    decreases rows.len(),
{
    if rows.len() > 0 {
        law_releases_are_covered(cols, es, rows.drop_last());
        lemma_row_releases_covered(cols, es, rows.last());
        let before = releases(cols, es, rows.drop_last());
        let last = row_releases(cols, es, rows.last());
        assert forall|k: int|
            0 <= k < releases(cols, es, rows).len() implies covered(
            cols,
            es,
            #[trigger] releases(cols, es, rows)[k],
        ) by {
            if k < before.len() {
                assert(releases(cols, es, rows)[k] == before[k]);
            } else {
                assert(releases(cols, es, rows)[k] == last[k - before.len()]);
            }
        }
    }
}

fn find_labelled(cols: &Vec<Column>, key: &String) -> (r: Option<usize>)
    ensures
        match column_for_label(columns_view(cols@), key@) {
            Some(c) => r matches Some(i) && i < cols.len() && cols@[i as int]@ == c,
            None => r is None,
        },
{
    let ghost cv = columns_view(cols@);
    let mut k: usize = cols.len();
    assert(cv.take(k as int) =~= cv);
    while k > 0
        invariant
            k <= cols.len(),
            cv == columns_view(cols@),
            column_for_label(cv, key@) == column_for_label(cv.take(k as int), key@),
        decreases k,
    {
        assert(cv.take(k as int).drop_last() =~= cv.take(k - 1));
        let hit = match &cols[k - 1].usage {
            Some(u) => *u == *key,
            None => false,
        };
        if hit {
            assert(opt_view(cols@[k - 1].usage) == Some(key@));
            return Some(k - 1);
        }
        k = k - 1;
    }
    None
}

fn find_epsilon(es: &Vec<(String, i64)>, table: &String) -> (r: Option<i64>)
    ensures
        r matches Some(v) ==> epsilon_for(epsilons_view(es@), table@) == Some(v as int),
        r is None ==> epsilon_for(epsilons_view(es@), table@) is None,
{
    let ghost ev = epsilons_view(es@);
    let mut k: usize = es.len();
    assert(ev.take(k as int) =~= ev);
    while k > 0
        invariant
            k <= es.len(),
            ev == epsilons_view(es@),
            epsilon_for(ev, table@) == epsilon_for(ev.take(k as int), table@),
        decreases k,
    {
        assert(ev.take(k as int).drop_last() =~= ev.take(k - 1));
        if es[k - 1].0 == *table {
            return Some(es[k - 1].1);
        }
        k = k - 1;
    }
    None
}

/// The values of the raw rows that are released, each with its noise
/// scale: a value is released only where its key is the usage label of a
/// used column, that column's sensitivity is bounded and its table's epsilon
/// is positive. Every other value is dropped, so no raw value leaves.
pub fn apply_transforms(
    used_columns: &Vec<Column>,
    raw_rows: &Vec<Vec<(String, String)>>,
    epsilon_by_table: &Vec<(String, i64)>,
) -> (r: Vec<NoiseRequest>)
    ensures
        requests_view(r@) == releases(
            columns_view(used_columns@),
            epsilons_view(epsilon_by_table@),
            rows_view(raw_rows@),
        ),
{
    let ghost cv = columns_view(used_columns@);
    let ghost ev = epsilons_view(epsilon_by_table@);
    let ghost rv = rows_view(raw_rows@);
    let mut out: Vec<NoiseRequest> = Vec::new();
    let mut i: usize = 0;
    while i < raw_rows.len()
        invariant
            i <= raw_rows.len(),
            cv == columns_view(used_columns@),
            ev == epsilons_view(epsilon_by_table@),
            rv == rows_view(raw_rows@),
            requests_view(out@) == releases(cv, ev, rv.take(i as int)),
        decreases raw_rows.len() - i,
    {
        let row = &raw_rows[i];
        let ghost pv = pairs_view(row@);
        let ghost start = requests_view(out@);
        let mut j: usize = 0;
        while j < row.len()
            invariant
                i < raw_rows.len(),
                j <= row.len(),
                *row == raw_rows@[i as int],
                pv == pairs_view(row@),
                cv == columns_view(used_columns@),
                ev == epsilons_view(epsilon_by_table@),
                requests_view(out@) == start + row_releases(cv, ev, pv.take(j as int)),
            decreases row.len() - j,
        {
            let key = &row[j].0;
            let value = &row[j].1;
            assert(pv.take(j + 1).drop_last() =~= pv.take(j as int));
            let ghost rel = release(cv, ev, key@, value@);
            let ghost before = requests_view(out@);
            match find_labelled(used_columns, key) {
                None => {
                    assert(rel is None);
                },
                Some(c) => {
                    let ghost col = used_columns@[c as int]@;
                    assert(column_for_label(cv, key@) == Some(col));
                    match used_columns[c].sensitivity {
                        Sensitivity::Unbounded => {
                            assert(rel is None);
                        },
                        Sensitivity::Bounded(s) => {
                            let found = find_epsilon(epsilon_by_table, &used_columns[c].table_name);
                            match found {
                                Some(e) => {
                                    if e > 0 {
                                        let req = NoiseRequest {
                                            label: key.clone(),
                                            raw_value: value.clone(),
                                            sensitivity: s,
                                            epsilon: e,
                                        };
                                        assert(rel == Some(req@));
                                        out.push(req);
                                        assert(requests_view(out@) =~= before.push(rel->0));
                                    } else {
                                        assert(rel is None);
                                    }
                                },
                                None => {
                                    assert(rel is None);
                                },
                            }
                        },
                    }
                },
            }
            assert(requests_view(out@) =~= before + opt_seq(rel));
            j = j + 1;
        }
        assert(pv.take(j as int) =~= pv);
        assert(rv.take(i + 1).drop_last() =~= rv.take(i as int));
        assert(rv[i as int] == pv);
        i = i + 1;
    }
    assert(rv.take(i as int) =~= rv);
    out
}

} // verus!
