//! The catalog of tables and columns, with each column's sensitivity and
//! each table's privacy budget.
//!
//! Budgets, epsilons and sensitivities are fixed-point numbers counted in
//! millionths: `UNIT` stands for 1.0.

use vstd::prelude::*;
use crate::error::QueryError;
use crate::text::string_from_chars;

verus! {

/// The fixed-point value of 1.0.
pub const UNIT: i64 = 1_000_000;

/// How much one record can move an aggregate over a column, in millionths.
/// `Unbounded` is the value of a column whose sensitivity was never set: such
/// a column is never released.
#[derive(Debug, Clone, Copy, PartialEq, Eq, Structural)]
pub enum Sensitivity {
    Bounded(u64),
    Unbounded,
}

pub struct ColumnView {
    pub name: Seq<char>,
    pub ctype: Seq<char>,
    pub sensitivity: Sensitivity,
    pub usage: Option<Seq<char>>,
    pub table_name: Seq<char>,
}

/// A column of a table. `usage` is set only on the request-scoped copies
/// that usage resolution makes, never in the catalog itself.
#[derive(Debug)]
pub struct Column {
    pub name: String,
    pub ctype: String,
    pub sensitivity: Sensitivity,
    pub usage: Option<String>,
    pub table_name: String,
}

pub open spec fn opt_view(o: Option<String>) -> Option<Seq<char>> {
    match o {
        Some(s) => Some(s@),
        None => None,
    }
}

impl View for Column {
    type V = ColumnView;

    open spec fn view(&self) -> ColumnView {
        ColumnView {
            name: self.name@,
            ctype: self.ctype@,
            sensitivity: self.sensitivity,
            usage: opt_view(self.usage),
            table_name: self.table_name@,
        }
    }
}

pub open spec fn columns_view(cs: Seq<Column>) -> Seq<ColumnView> {
    cs.map_values(|c: Column| c@)
}

/// The declared type that a column without one is read as.
pub open spec fn default_ctype() -> Seq<char> {
    seq!['V', 'a', 'r', 'c', 'h', 'a', 'r']
}

pub fn copy_string(s: &String) -> (r: String)
    ensures
        r@ == s@,
{
    s.clone()
}

impl Column {
    /// A column as introspection reports it: no sensitivity yet, no usage,
    /// and a declared type of `Varchar` where none was given.
    pub fn new(name: String, ctype: String, table_name: String) -> (r: Self)
        ensures
            r@ == (ColumnView {
                name: name@,
                ctype: if ctype@.len() == 0 {
                    default_ctype()
                } else {
                    ctype@
                },
                sensitivity: Sensitivity::Unbounded,
                usage: None,
                table_name: table_name@,
            }),
    {
        let ctype = if ctype.as_str().is_empty() {
            let d = vec!['V', 'a', 'r', 'c', 'h', 'a', 'r'];
            string_from_chars(&d)
        } else {
            ctype
        };
        Column { name, ctype, sensitivity: Sensitivity::Unbounded, usage: None, table_name }
    }

    pub fn cloned(&self) -> (r: Self)
        ensures
            r@ == self@,
    {
        let usage = match &self.usage {
            Some(u) => Some(copy_string(u)),
            None => None,
        };
        Column {
            name: copy_string(&self.name),
            ctype: copy_string(&self.ctype),
            sensitivity: self.sensitivity,
            usage,
            table_name: copy_string(&self.table_name),
        }
    }

    /// A copy of the column tagged with a usage label.
    pub fn with_usage(&self, label: String) -> (r: Self)
        ensures
            r@ == (ColumnView { usage: Some(label@), ..self@ }),
    {
        Column {
            name: copy_string(&self.name),
            ctype: copy_string(&self.ctype),
            sensitivity: self.sensitivity,
            usage: Some(label),
            table_name: copy_string(&self.table_name),
        }
    }

    /// A copy of the column with another sensitivity.
    pub fn with_sensitivity(&self, sensitivity: Sensitivity) -> (r: Self)
        ensures
            r@ == (ColumnView { sensitivity, ..self@ }),
    {
        let mut c = self.cloned();
        c.sensitivity = sensitivity;
        c
    }
}

pub struct TableView {
    pub name: Seq<char>,
    pub columns: Seq<ColumnView>,
    pub privacy_budget: int,
}

/// A table of the store, with its columns in order and its configured
/// privacy budget.
#[derive(Debug)]
pub struct Table {
    pub name: String,
    pub columns: Vec<Column>,
    pub privacy_budget: i64,
}

impl View for Table {
    type V = TableView;

    open spec fn view(&self) -> TableView {
        TableView {
            name: self.name@,
            columns: columns_view(self.columns@),
            privacy_budget: self.privacy_budget as int,
        }
    }
}

pub open spec fn tables_view(ts: Seq<Table>) -> Seq<TableView> {
    ts.map_values(|t: Table| t@)
}

/// The columns of all the tables, table after table.
pub open spec fn all_columns(ts: Seq<TableView>) -> Seq<ColumnView>
    decreases ts.len(),
{
    if ts.len() == 0 {
        Seq::empty()
    } else {
        all_columns(ts.drop_last()) + ts.last().columns
    }
}

pub fn clone_columns(cs: &Vec<Column>) -> (r: Vec<Column>)
    ensures
        columns_view(r@) == columns_view(cs@),
{
    let mut out: Vec<Column> = Vec::new();
    let mut i: usize = 0;
    while i < cs.len()
        invariant
            i <= cs.len(),
            columns_view(out@) =~= columns_view(cs@.take(i as int)),
        decreases cs.len() - i,
    {
        let c = cs[i].cloned();
        let ghost before = out@;
        out.push(c);
        assert(columns_view(out@) =~= columns_view(before).push(cs@[i as int]@));
        assert(columns_view(cs@.take(i + 1)) =~= columns_view(cs@.take(i as int)).push(
            cs@[i as int]@,
        ));
        i = i + 1;
    }
    assert(cs@.take(i as int) =~= cs@);
    out
}

impl Table {
    /// A table as introspection reports it, with no budget yet.
    pub fn new(name: String, columns: Vec<Column>) -> (r: Self)
        ensures
            r@ == (TableView { name: name@, columns: columns_view(columns@), privacy_budget: 0 }),
    {
        Table { name, columns, privacy_budget: 0 }
    }

    pub fn cloned(&self) -> (r: Self)
        ensures
            r@ == self@,
    {
        Table {
            name: copy_string(&self.name),
            columns: clone_columns(&self.columns),
            privacy_budget: self.privacy_budget,
        }
    }
}

pub fn clone_tables(ts: &Vec<Table>) -> (r: Vec<Table>)
    ensures
        tables_view(r@) == tables_view(ts@),
{
    let mut out: Vec<Table> = Vec::new();
    let mut i: usize = 0;
    while i < ts.len()
        invariant
            i <= ts.len(),
            tables_view(out@) =~= tables_view(ts@.take(i as int)),
        decreases ts.len() - i,
    {
        let t = ts[i].cloned();
        let ghost before = out@;
        out.push(t);
        assert(tables_view(out@) =~= tables_view(before).push(ts@[i as int]@));
        assert(tables_view(ts@.take(i + 1)) =~= tables_view(ts@.take(i as int)).push(
            ts@[i as int]@,
        ));
        i = i + 1;
    }
    assert(ts@.take(i as int) =~= ts@);
    out
}

/// Whether some table has the name.
pub open spec fn has_table(ts: Seq<TableView>, name: Seq<char>) -> bool {
    exists|i: int| 0 <= i < ts.len() && (#[trigger] ts[i]).name == name
}

/// Whether the table has a column of that name.
pub open spec fn has_column(t: TableView, name: Seq<char>) -> bool {
    exists|j: int| 0 <= j < t.columns.len() && (#[trigger] t.columns[j]).name == name
}

pub open spec fn settings_view(s: Seq<(String, Sensitivity)>) -> Seq<(Seq<char>, Sensitivity)> {
    s.map_values(|p: (String, Sensitivity)| (p.0@, p.1))
}

/// The last sensitivity that the settings give to a column name.
pub open spec fn setting_for(settings: Seq<(Seq<char>, Sensitivity)>, name: Seq<char>) -> Option<
    Sensitivity,
>
    decreases settings.len(),
{
    if settings.len() == 0 {
        None
    } else if settings.last().0 == name {
        Some(settings.last().1)
    } else {
        setting_for(settings.drop_last(), name)
    }
}

pub open spec fn configured_column(
    c: ColumnView,
    settings: Seq<(Seq<char>, Sensitivity)>,
) -> ColumnView {
    match setting_for(settings, c.name) {
        Some(s) => ColumnView { sensitivity: s, ..c },
        None => c,
    }
}

/// The table after the settings are applied to it, if it has the name.
pub open spec fn configured_table(
    t: TableView,
    name: Seq<char>,
    settings: Seq<(Seq<char>, Sensitivity)>,
) -> TableView {
    if t.name == name {
        TableView {
            columns: t.columns.map_values(|c: ColumnView| configured_column(c, settings)),
            ..t
        }
    } else {
        t
    }
}

/// Whether a setting names a column that a table of that name lacks.
pub open spec fn names_missing_column(
    ts: Seq<TableView>,
    name: Seq<char>,
    settings: Seq<(Seq<char>, Sensitivity)>,
) -> bool {
    exists|i: int, k: int|
        0 <= i < ts.len() && 0 <= k < settings.len() && (#[trigger] ts[i]).name == name
            && !has_column(ts[i], (#[trigger] settings[k]).0)
}

/// The table with a new budget, if it has the name.
pub open spec fn budgeted_table(t: TableView, name: Seq<char>, budget: int) -> TableView {
    if t.name == name {
        TableView { privacy_budget: budget, ..t }
    } else {
        t
    }
}

pub fn table_has_column(t: &Table, name: &String) -> (r: bool)
    ensures
        r == has_column(t@, name@),
{
    let mut j: usize = 0;
    while j < t.columns.len()
        invariant
            j <= t.columns.len(),
            forall|k: int| 0 <= k < j ==> (#[trigger] t.columns@[k]).name@ != name@,
        decreases t.columns.len() - j,
    {
        if t.columns[j].name == *name {
            assert(t@.columns[j as int].name == name@);
            return true;
        }
        j = j + 1;
    }
    assert forall|k: int| 0 <= k < t@.columns.len() implies (#[trigger] t@.columns[k]).name
        != name@ by {
        assert(t@.columns[k] == t.columns@[k]@);
    }
    false
}

fn setting_lookup(settings: &Vec<(String, Sensitivity)>, name: &String) -> (r: Option<Sensitivity>)
    ensures
        r == setting_for(settings_view(settings@), name@),
{
    let ghost sv = settings_view(settings@);
    let mut k: usize = settings.len();
    assert(sv.take(k as int) =~= sv);
    while k > 0
        invariant
            k <= settings.len(),
            sv == settings_view(settings@),
            setting_for(sv, name@) == setting_for(sv.take(k as int), name@),
        decreases k,
    {
        assert(sv.take(k as int).drop_last() =~= sv.take(k - 1));
        if settings[k - 1].0 == *name {
            return Some(settings[k - 1].1);
        }
        k = k - 1;
    }
    None
}

/// The columns of a table after the settings are applied.
fn configure_columns(cs: &Vec<Column>, settings: &Vec<(String, Sensitivity)>) -> (r: Vec<Column>)
    ensures
        columns_view(r@) == columns_view(cs@).map_values(
            |c: ColumnView| configured_column(c, settings_view(settings@)),
        ),
{
    let ghost sv = settings_view(settings@);
    let mut out: Vec<Column> = Vec::new();
    let mut i: usize = 0;
    while i < cs.len()
        invariant
            i <= cs.len(),
            sv == settings_view(settings@),
            columns_view(out@) =~= columns_view(cs@.take(i as int)).map_values(
                |c: ColumnView| configured_column(c, sv),
            ),
        decreases cs.len() - i,
    {
        let c = match setting_lookup(settings, &cs[i].name) {
            Some(s) => cs[i].with_sensitivity(s),
            None => cs[i].cloned(),
        };
        let ghost before = out@;
        out.push(c);
        assert(columns_view(out@) =~= columns_view(before).push(configured_column(cs@[i as int]@, sv)));
        assert(columns_view(cs@.take(i + 1)) =~= columns_view(cs@.take(i as int)).push(cs@[i as int]@));
        i = i + 1;
    }
    assert(cs@.take(i as int) =~= cs@);
    out
}

/// The catalog of the connected store: its tables, in the order that
/// introspection gave them.
#[derive(Debug)]
pub struct Schema {
    pub tables: Vec<Table>,
}

impl Schema {
    /// The catalog of an introspected store.
    pub fn load(tables: Vec<Table>) -> (r: Self)
        ensures
            tables_view(r.tables@) == tables_view(tables@),
    {
        Schema { tables }
    }

    /// The columns of all tables, table after table.
    pub fn get_all_columns(&self) -> (r: Vec<Column>)
        ensures
            columns_view(r@) == all_columns(tables_view(self.tables@)),
    {
        let ghost tv = tables_view(self.tables@);
        let mut out: Vec<Column> = Vec::new();
        let mut i: usize = 0;
        while i < self.tables.len()
            invariant
                i <= self.tables.len(),
                tv == tables_view(self.tables@),
                columns_view(out@) == all_columns(tv.take(i as int)),
            decreases self.tables.len() - i,
        {
            let cs = clone_columns(&self.tables[i].columns);
            let ghost before = out@;
            let mut j: usize = 0;
            while j < cs.len()
                invariant
                    j <= cs.len(),
                    columns_view(out@) =~= columns_view(before) + columns_view(cs@.take(j as int)),
                decreases cs.len() - j,
            {
                let c = cs[j].cloned();
                let ghost mid = out@;
                out.push(c);
                assert(columns_view(out@) =~= columns_view(mid).push(cs@[j as int]@));
                assert(columns_view(cs@.take(j + 1)) =~= columns_view(cs@.take(j as int)).push(cs@[j as int]@));
                j = j + 1;
            }
            assert(cs@.take(j as int) =~= cs@);
            assert(tv.take(i + 1).drop_last() =~= tv.take(i as int));
            i = i + 1;
        }
        assert(tv.take(i as int) =~= tv);
        out
    }

    /// Sets the sensitivities of columns of the named table. Fails, and
    /// changes nothing, where no table has that name or a setting names a
    /// column that the table lacks. Where a column is named twice, the last
    /// setting holds.
    pub fn apply_sensitivities(
        &mut self,
        table_name: &str,
        sensitivities: &Vec<(String, Sensitivity)>,
    ) -> (r: Result<(), QueryError>)
        ensures
            ({
                let ts = tables_view(old(self).tables@);
                let sv = settings_view(sensitivities@);
                &&& !has_table(ts, table_name@) ==> (r matches Err(QueryError::UnknownTable(t))
                    && t@ == table_name@)
                &&& has_table(ts, table_name@) && names_missing_column(ts, table_name@, sv)
                    ==> (r matches Err(QueryError::UnknownColumn { table, column }) && table@
                    == table_name@ && exists|i: int|
                    0 <= i < ts.len() && (#[trigger] ts[i]).name == table_name@ && !has_column(
                        ts[i],
                        column@,
                    ))
                &&& r is Err ==> tables_view(final(self).tables@) == ts
                &&& r is Ok <==> has_table(ts, table_name@) && !names_missing_column(
                    ts,
                    table_name@,
                    sv,
                )
                &&& r is Ok ==> tables_view(final(self).tables@) == ts.map_values(
                    |t: TableView| configured_table(t, table_name@, sv),
                )
            }),
    {
        let name = table_name.to_owned();
        let ghost ts = tables_view(self.tables@);
        let ghost sv = settings_view(sensitivities@);
        let mut found = false;
        let mut i: usize = 0;
        while i < self.tables.len()
            invariant
                i <= self.tables.len(),
                ts == tables_view(self.tables@),
                sv == settings_view(sensitivities@),
                name@ == table_name@,
                found <==> exists|k: int| 0 <= k < i && (#[trigger] ts[k]).name == name@,
                forall|k: int, m: int|
                    0 <= k < i && 0 <= m < sv.len() && (#[trigger] ts[k]).name == name@ ==> has_column(
                        ts[k],
                        (#[trigger] sv[m]).0,
                    ),
            decreases self.tables.len() - i,
        {
            if self.tables[i].name == name {
                assert(ts[i as int].name == name@);
                found = true;
                let mut m: usize = 0;
                while m < sensitivities.len()
                    invariant
                        i < self.tables.len(),
                        m <= sensitivities.len(),
                        ts == tables_view(self.tables@),
                        sv == settings_view(sensitivities@),
                        forall|q: int| 0 <= q < m ==> has_column(ts[i as int], (#[trigger] sv[q]).0),
                        name@ == table_name@,
                        ts[i as int].name == name@,
                        found,
                        forall|k: int, q: int|
                            0 <= k < i && 0 <= q < sv.len() && (#[trigger] ts[k]).name == name@ ==> has_column(
                                ts[k],
                                (#[trigger] sv[q]).0,
                            ),
                    decreases sensitivities.len() - m,
                {
                    if !table_has_column(&self.tables[i], &sensitivities[m].0) {
                        let column = sensitivities[m].0.clone();
                        proof {
                            assert(ts[i as int].name == name@);
                            assert(names_missing_column(ts, table_name@, sv)) by {
                                assert(sv[m as int].0 == column@);
                            }
                        }
                        return Err(QueryError::UnknownColumn { table: name, column });
                    }
                    m = m + 1;
                }
            }
            i = i + 1;
        }
        if !found {
            return Err(QueryError::UnknownTable(name));
        }
        let mut out: Vec<Table> = Vec::new();
        let mut i: usize = 0;
        while i < self.tables.len()
            invariant
                i <= self.tables.len(),
                ts == tables_view(self.tables@),
                sv == settings_view(sensitivities@),
                name@ == table_name@,
                tables_view(out@) =~= ts.take(i as int).map_values(
                    |t: TableView| configured_table(t, table_name@, sv),
                ),
            decreases self.tables.len() - i,
        {
            let t = if self.tables[i].name == name {
                Table {
                    name: copy_string(&self.tables[i].name),
                    columns: configure_columns(&self.tables[i].columns, sensitivities),
                    privacy_budget: self.tables[i].privacy_budget,
                }
            } else {
                self.tables[i].cloned()
            };
            let ghost before = out@;
            out.push(t);
            assert(tables_view(out@) =~= tables_view(before).push(
                configured_table(ts[i as int], table_name@, sv),
            ));
            assert(ts.take(i + 1) =~= ts.take(i as int).push(ts[i as int]));
            i = i + 1;
        }
        assert(ts.take(i as int) =~= ts);
        self.tables = out;
        Ok(())
    }

    /// Sets the privacy budget of the named table. Fails, and changes
    /// nothing, where no table has that name.
    pub fn apply_table_budget(&mut self, table_name: &str, budget: i64) -> (r: Result<(), QueryError>)
        ensures
            ({
                let ts = tables_view(old(self).tables@);
                &&& !has_table(ts, table_name@) ==> (r matches Err(QueryError::UnknownTable(t))
                    && t@ == table_name@ && tables_view(final(self).tables@) == ts)
                &&& has_table(ts, table_name@) ==> r is Ok && tables_view(final(self).tables@)
                    == ts.map_values(|t: TableView| budgeted_table(t, table_name@, budget as int))
            }),
    {
        let name = table_name.to_owned();
        let ghost ts = tables_view(self.tables@);
        let mut found = false;
        let mut out: Vec<Table> = Vec::new();
        let mut i: usize = 0;
        while i < self.tables.len()
            invariant
                i <= self.tables.len(),
                ts == tables_view(self.tables@),
                name@ == table_name@,
                found <==> exists|k: int| 0 <= k < i && (#[trigger] ts[k]).name == name@,
                tables_view(out@) =~= ts.take(i as int).map_values(
                    |t: TableView| budgeted_table(t, table_name@, budget as int),
                ),
            decreases self.tables.len() - i,
        {
            let mut t = self.tables[i].cloned();
            if t.name == name {
                found = true;
                t.privacy_budget = budget;
            }
            let ghost before = out@;
            out.push(t);
            assert(tables_view(out@) =~= tables_view(before).push(
                budgeted_table(ts[i as int], table_name@, budget as int),
            ));
            assert(ts.take(i + 1) =~= ts.take(i as int).push(ts[i as int]));
            i = i + 1;
        }
        if !found {
            return Err(QueryError::UnknownTable(name));
        }
        assert(ts.take(i as int) =~= ts);
        self.tables = out;
        Ok(())
    }
}

} // verus!
