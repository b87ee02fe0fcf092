//! The session: one connected store's catalog and budget ledger, and the
//! decisions around a query. The surrounding program owns the connection,
//! runs the statement between `authorize_query` and `QueryPlan::transform`,
//! and holds one exclusive lock over the session across that whole sequence,
//! so that two queries cannot both pass the budget check on a stale balance.

use vstd::prelude::*;
use crate::analyzer::{
    SqlAnalyzer, column_tokens, is_read_sql, normalize, sanitize_input, sanitized, table_tokens,
};
use crate::error::QueryError;
use crate::ledger::{BudgetLedger, charged, has_exhausted, has_unknown, ledger_of};
use crate::schema::{
    Column, ColumnView, Schema, Sensitivity, Table, TableView, all_columns, budgeted_table,
    clone_tables, columns_view, configured_table, has_table, names_missing_column, settings_view,
    tables_view,
};
use crate::transforms::{
    NoiseRequest, apply_transforms, epsilons_view, releases, requests_view, rows_view,
};
use crate::usage::{
    check_release_policy, is_raw_use, resolve_usage, used_columns, used_table_names, used_tables,
    wildcard,
};

verus! {

pub enum SessionView {
    Disconnected,
    Connected { tables: Seq<TableView>, ledger: Seq<(Seq<char>, int)> },
}

/// `Disconnected`, or `Connected` with the catalog of the store and its
/// ledger. `connect` leads from the first to the second, `reset` back.
#[derive(Debug)]
pub enum Session {
    Disconnected,
    Connected { catalog: Schema, ledger: BudgetLedger },
}

impl View for Session {
    type V = SessionView;

    open spec fn view(&self) -> SessionView {
        match self {
            Session::Disconnected => SessionView::Disconnected,
            Session::Connected { catalog, ledger } => SessionView::Connected {
                tables: tables_view(catalog.tables@),
                ledger: ledger@,
            },
        }
    }
}

/// A session freshly connected to a store with these tables: the ledger
/// holds each table's configured budget.
pub open spec fn connected_to(ts: Seq<TableView>) -> SessionView {
    SessionView::Connected { tables: ts, ledger: ledger_of(ts) }
}

/// The session after `connect`: a connected session stays as it is.
pub open spec fn after_connect(s: SessionView, ts: Seq<TableView>) -> SessionView {
    match s {
        SessionView::Disconnected => connected_to(ts),
        SessionView::Connected { .. } => s,
    }
}

/// The session after `reset`.
pub open spec fn after_reset(s: SessionView) -> SessionView {
    SessionView::Disconnected
}

/// Resetting a session and connecting it again to the same introspection
/// output restores exactly the tables and the ledger of a first connection,
/// whatever was configured or spent in between; doing so twice changes
/// nothing more.
pub proof fn law_reset_then_reconnect(s: SessionView, ts: Seq<TableView>)
    ensures
        after_connect(after_reset(s), ts) == after_connect(SessionView::Disconnected, ts),
        after_connect(after_reset(s), ts) == connected_to(ts),
        after_connect(after_reset(after_connect(after_reset(s), ts)), ts) == after_connect(
            after_reset(s),
            ts,
        ),
{
}

/// Whether the request asks for raw values: `*`, or a bare use of a column.
pub open spec fn asks_raw(req: Seq<Seq<char>>, used: Seq<ColumnView>) -> bool {
    req.contains(wildcard()) || exists|i: int| 0 <= i < used.len() && is_raw_use(#[trigger] used[i])
}

pub open spec fn has_unbounded(used: Seq<ColumnView>) -> bool {
    exists|i: int| 0 <= i < used.len() && (#[trigger] used[i]).sensitivity == Sensitivity::Unbounded
}

/// What a query was authorized to release: the statement to run, the columns
/// it uses with their labels, and the epsilon charged to each used table.
#[derive(Debug)]
pub struct QueryPlan {
    pub sql: String,
    pub used_columns: Vec<Column>,
    pub epsilon_by_table: Vec<(String, i64)>,
}

impl QueryPlan {
    /// The values of the rows that the statement returned which may be
    /// released, each with its noise scale.
    pub fn transform(&self, raw_rows: &Vec<Vec<(String, String)>>) -> (r: Vec<NoiseRequest>)
        ensures
            requests_view(r@) == releases(
                columns_view(self.used_columns@),
                epsilons_view(self.epsilon_by_table@),
                rows_view(raw_rows@),
            ),
    {
        apply_transforms(&self.used_columns, raw_rows, &self.epsilon_by_table)
    }
}

fn charge_list(names: &Vec<String>, epsilon: i64) -> (r: Vec<(String, i64)>)
    ensures
        epsilons_view(r@) == names.deep_view().map_values(|n: Seq<char>| (n, epsilon as int)),
{
    let mut out: Vec<(String, i64)> = Vec::new();
    let mut i: usize = 0;
    while i < names.len()
        invariant
            i <= names.len(),
            epsilons_view(out@) =~= names.deep_view().take(i as int).map_values(
                |n: Seq<char>| (n, epsilon as int),
            ),
        decreases names.len() - i,
    {
        let ghost before = out@;
        out.push((names[i].clone(), epsilon));
        assert(epsilons_view(out@) =~= epsilons_view(before).push((names.deep_view()[i as int], epsilon as int)));
        assert(names.deep_view().take(i + 1) =~= names.deep_view().take(i as int).push(
            names.deep_view()[i as int],
        ));
        i = i + 1;
    }
    assert(names.deep_view().take(i as int) =~= names.deep_view());
    out
}

impl Session {
    pub fn new() -> (r: Self)
        ensures
            r@ == SessionView::Disconnected,
    {
        Session::Disconnected
    }

    /// Loads the catalog of a newly connected store and opens its ledger.
    /// A session that is already connected stays as it is; the result says
    /// whether the session was connected by this call.
    pub fn connect(&mut self, tables: Vec<Table>) -> (r: bool)
        ensures
            final(self)@ == after_connect(old(self)@, tables_view(tables@)),
            r == (old(self)@ is Disconnected),
    {
        match self {
            Session::Connected { .. } => false,
            Session::Disconnected => {
                let ledger = BudgetLedger::from_tables(&tables);
                *self = Session::Connected { catalog: Schema::load(tables), ledger };
                true
            },
        }
    }

    /// Drops the catalog and the ledger.
    pub fn reset(&mut self)
        ensures
            final(self)@ == after_reset(old(self)@),
    {
        *self = Session::Disconnected;
    }

    /// Replaces the catalog and the ledger of a connected session with a new
    /// introspection of its store; budgets are back at the tables' values.
    pub fn reload(&mut self, tables: Vec<Table>) -> (r: Result<(), QueryError>)
        ensures
            old(self)@ is Disconnected ==> (r matches Err(QueryError::NotConnected) && final(self)@
                == old(self)@),
            old(self)@ is Connected ==> r is Ok && final(self)@ == connected_to(tables_view(tables@)),
    {
        match self {
            Session::Disconnected => Err(QueryError::NotConnected),
            Session::Connected { .. } => {
                let ledger = BudgetLedger::from_tables(&tables);
                *self = Session::Connected { catalog: Schema::load(tables), ledger };
                Ok(())
            },
        }
    }

    /// A copy of the catalog's tables.
    pub fn tables(&self) -> (r: Result<Vec<Table>, QueryError>)
        ensures
            match self@ {
                SessionView::Disconnected => (r matches Err(QueryError::NotConnected)),
                SessionView::Connected { tables, .. } => (r matches Ok(v) && tables_view(v@)
                    == tables),
            },
    {
        match self {
            Session::Disconnected => Err(QueryError::NotConnected),
            Session::Connected { catalog, .. } => Ok(clone_tables(&catalog.tables)),
        }
    }

    /// Sets sensitivities of columns of one table, as
    /// `Schema::apply_sensitivities` does; the ledger is untouched.
    pub fn set_sensitivities(
        &mut self,
        table_name: &str,
        sensitivities: &Vec<(String, Sensitivity)>,
    ) -> (r: Result<(), QueryError>)
        ensures
            match old(self)@ {
                SessionView::Disconnected => (r matches Err(QueryError::NotConnected) && final(self)@
                    == old(self)@),
                SessionView::Connected { tables, ledger } => {
                    let sv = settings_view(sensitivities@);
                    &&& r is Ok <==> has_table(tables, table_name@) && !names_missing_column(
                        tables,
                        table_name@,
                        sv,
                    )
                    &&& !has_table(tables, table_name@) ==> (r matches Err(
                        QueryError::UnknownTable(_),
                    ))
                    &&& has_table(tables, table_name@) && names_missing_column(
                        tables,
                        table_name@,
                        sv,
                    ) ==> (r matches Err(QueryError::UnknownColumn { .. }))
                    &&& r is Err ==> final(self)@ == old(self)@
                    &&& r is Ok ==> final(self)@ == SessionView::Connected {
                        tables: tables.map_values(
                            |t: TableView| configured_table(t, table_name@, sv),
                        ),
                        ledger,
                    }
                },
            },
    {
        match self {
            Session::Disconnected => Err(QueryError::NotConnected),
            Session::Connected { catalog, .. } => catalog.apply_sensitivities(table_name, sensitivities),
        }
    }

    /// Sets the privacy budget of one table: its configured value in the
    /// catalog, and its remaining budget in the ledger.
    pub fn set_table_budget(&mut self, table_name: &str, budget: i64) -> (r: Result<(), QueryError>)
        ensures
            match old(self)@ {
                SessionView::Disconnected => (r matches Err(QueryError::NotConnected) && final(self)@
                    == old(self)@),
                SessionView::Connected { tables, ledger } => {
                    &&& r is Ok <==> has_table(tables, table_name@)
                    &&& !has_table(tables, table_name@) ==> (r matches Err(
                        QueryError::UnknownTable(_),
                    ) && final(self)@ == old(self)@)
                    &&& r is Ok ==> final(self)@ == SessionView::Connected {
                        tables: tables.map_values(
                            |t: TableView| budgeted_table(t, table_name@, budget as int),
                        ),
                        ledger: ledger.map_values(
                            |e: (Seq<char>, int)| crate::ledger::rebudgeted(e, table_name@, budget as int),
                        ),
                    }
                },
            },
    {
        match self {
            Session::Disconnected => Err(QueryError::NotConnected),
            Session::Connected { catalog, ledger } => {
                let ghost old_ledger = ledger@;
                match catalog.apply_table_budget(table_name, budget) {
                    Err(e) => Err(e),
                    Ok(()) => {
                        match ledger.set_budget(table_name, budget) {
                            Ok(()) => {},
                            Err(_) => {
                                assert(old_ledger.map_values(
                                    |e: (Seq<char>, int)| crate::ledger::rebudgeted(e, table_name@, budget as int),
                                ) =~= old_ledger);
                            },
                        }
                        Ok(())
                    },
                }
            },
        }
    }

    /// Decides whether a query may run, and charges it. The statement must
    /// be a read with a `from` clause; it must not ask for `*` or for a bare
    /// column, nor use a column of unbounded sensitivity; every table that
    /// it uses must have budget left. Only then is `epsilon` charged to each
    /// used table, and the plan returned; a refused query is charged nothing.
    pub fn authorize_query(
        &mut self,
        query: &str,
        epsilon: i64,
        allowed_aggregates: &Vec<String>,
    ) -> (r: Result<QueryPlan, QueryError>)
        requires
            0 < epsilon,
        ensures
            match old(self)@ {
                SessionView::Disconnected => (r matches Err(QueryError::NotConnected) && final(self)@
                    == old(self)@),
                SessionView::Connected { tables, ledger } => {
                    let sql = normalize(query@);
                    let req = column_tokens(sql);
                    let used = resolve_usage(all_columns(tables), req, allowed_aggregates.deep_view());
                    let parsed = is_read_sql(sql) && table_tokens(sql) is Some;
                    let names = used_tables(tables, table_tokens(sql)->0);
                    let raw = asks_raw(req, used);
                    let unbounded = has_unbounded(used);
                    &&& !parsed ==> (r matches Err(QueryError::ParseFailure))
                    &&& parsed && raw ==> (r matches Err(QueryError::RawColumnRequested(_)))
                    &&& parsed && !raw && unbounded ==> (r matches Err(
                        QueryError::UnboundedSensitivity(_),
                    ))
                    &&& parsed && !raw && !unbounded && has_unknown(ledger, names) ==> (r matches Err(
                        QueryError::UnknownTable(_),
                    ))
                    &&& parsed && !raw && !unbounded && !has_unknown(ledger, names) && has_exhausted(
                        ledger,
                        names,
                    ) ==> (r matches Err(QueryError::InsufficientBudget(_)))
                    &&& r is Err ==> final(self)@ == old(self)@
                    &&& r is Ok <==> parsed && !raw && !unbounded && !has_unknown(ledger, names)
                        && !has_exhausted(ledger, names)
                    &&& r matches Ok(plan) ==> {
                        &&& final(self)@ == SessionView::Connected {
                            tables,
                            ledger: ledger.map_values(
                                |e: (Seq<char>, int)| charged(e, names, epsilon as int),
                            ),
                        }
                        &&& plan.sql@ == sanitized(query@)
                        &&& columns_view(plan.used_columns@) == used
                        &&& epsilons_view(plan.epsilon_by_table@) == names.map_values(
                            |n: Seq<char>| (n, epsilon as int),
                        )
                    }
                },
            },
    {
        match self {
            Session::Disconnected => Err(QueryError::NotConnected),
            Session::Connected { catalog, ledger } => {
                let analyzer = SqlAnalyzer::new(query);
                if !analyzer.is_read() {
                    return Err(QueryError::ParseFailure);
                }
                let requested_tables = match analyzer.tables_from_sql() {
                    Ok(t) => t,
                    Err(e) => {
                        return Err(e);
                    },
                };
                let requested_columns = analyzer.columns_from_sql();
                let existing = catalog.get_all_columns();
                let used = used_columns(&requested_columns, &existing, allowed_aggregates);
                match check_release_policy(&requested_columns, &used) {
                    Ok(()) => {},
                    Err(e) => {
                        return Err(e);
                    },
                }
                let names = used_table_names(&requested_tables, &catalog.tables);
                match ledger.check_and_spend(&names, epsilon) {
                    Ok(()) => {},
                    Err(e) => {
                        return Err(e);
                    },
                }
                let epsilon_by_table = charge_list(&names, epsilon);
                Ok(QueryPlan { sql: sanitize_input(query), used_columns: used, epsilon_by_table })
            },
        }
    }
}

} // verus!
