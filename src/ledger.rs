//! The budget ledger: how much privacy budget each table has left, spent
//! check-then-charge and all-or-nothing across the tables of a query.

use vstd::prelude::*;
use crate::error::QueryError;
use crate::schema::{Table, TableView, tables_view};
use crate::usage::contains_string;

verus! {

/// The remaining budget of one table, in millionths. It may fall to zero or
/// below, which marks the table as exhausted.
#[derive(Debug)]
pub struct LedgerEntry {
    pub table: String,
    pub remaining: i64,
}

/// Remaining budget per table.
#[derive(Debug)]
pub struct BudgetLedger {
    pub entries: Vec<LedgerEntry>,
}

pub open spec fn entries_view(es: Seq<LedgerEntry>) -> Seq<(Seq<char>, int)> {
    es.map_values(|e: LedgerEntry| (e.table@, e.remaining as int))
}

impl View for BudgetLedger {
    type V = Seq<(Seq<char>, int)>;

    open spec fn view(&self) -> Seq<(Seq<char>, int)> {
        entries_view(self.entries@)
    }
}

/// Whether the ledger has an entry for the table.
pub open spec fn has_entry(ls: Seq<(Seq<char>, int)>, table: Seq<char>) -> bool {
    exists|i: int| 0 <= i < ls.len() && (#[trigger] ls[i]).0 == table
}

/// The remaining budget of the last entry for the table.
pub open spec fn remaining_of(ls: Seq<(Seq<char>, int)>, table: Seq<char>) -> Option<int>
    decreases ls.len(),
{
    if ls.len() == 0 {
        None
    } else if ls.last().0 == table {
        Some(ls.last().1)
    } else {
        remaining_of(ls.drop_last(), table)
    }
}

/// Whether some used table has no entry.
pub open spec fn has_unknown(ls: Seq<(Seq<char>, int)>, used: Seq<Seq<char>>) -> bool {
    exists|k: int| 0 <= k < used.len() && !has_entry(ls, #[trigger] used[k])
}

/// Whether some entry of a used table has nothing left.
pub open spec fn has_exhausted(ls: Seq<(Seq<char>, int)>, used: Seq<Seq<char>>) -> bool {
    exists|i: int| 0 <= i < ls.len() && used.contains((#[trigger] ls[i]).0) && ls[i].1 <= 0
}

/// The entry after a query that used the given tables and spent `epsilon`.
pub open spec fn charged(e: (Seq<char>, int), used: Seq<Seq<char>>, epsilon: int) -> (
    Seq<char>,
    int,
) {
    if used.contains(e.0) {
        (e.0, e.1 - epsilon)
    } else {
        e
    }
}

/// The entries of a ledger made from tables: each table's name and budget.
pub open spec fn ledger_of(ts: Seq<TableView>) -> Seq<(Seq<char>, int)> {
    ts.map_values(|t: TableView| (t.name, t.privacy_budget))
}

/// The entry with a new remaining budget, if it is for the table.
pub open spec fn rebudgeted(e: (Seq<char>, int), table: Seq<char>, budget: int) -> (Seq<char>, int) {
    if e.0 == table {
        (e.0, budget)
    } else {
        e
    }
}

/// Spending never raises a budget: after a charge of a non-negative epsilon
/// every entry keeps its table and has at most what it had, and an entry of
/// a table that the query did not use is unchanged.
pub proof fn law_spending_never_raises(
    ls: Seq<(Seq<char>, int)>,
    used: Seq<Seq<char>>,
    epsilon: int,
)
    requires
        0 <= epsilon,
    ensures
        ({
            let after = ls.map_values(|e: (Seq<char>, int)| charged(e, used, epsilon));
            &&& after.len() == ls.len()
            &&& forall|i: int|
                0 <= i < ls.len() ==> (#[trigger] after[i]).0 == ls[i].0 && after[i].1 <= ls[i].1
                    && (!used.contains(ls[i].0) ==> after[i] == ls[i])
        }),
{
}

impl BudgetLedger {
    /// A ledger whose entries are the tables' names and configured budgets.
    pub fn from_tables(tables: &Vec<Table>) -> (r: Self)
        ensures
            r@ == ledger_of(tables_view(tables@)),
    {
        let ghost ts = tables_view(tables@);
        let mut entries: Vec<LedgerEntry> = Vec::new();
        let mut i: usize = 0;
        while i < tables.len()
            invariant
                i <= tables.len(),
                ts == tables_view(tables@),
                entries_view(entries@) =~= ledger_of(ts.take(i as int)),
            decreases tables.len() - i,
        {
            let e = LedgerEntry {
                table: tables[i].name.clone(),
                remaining: tables[i].privacy_budget,
            };
            let ghost before = entries@;
            entries.push(e);
            assert(entries_view(entries@) =~= entries_view(before).push(
                (ts[i as int].name, ts[i as int].privacy_budget),
            ));
            assert(ts.take(i + 1) =~= ts.take(i as int).push(ts[i as int]));
            i = i + 1;
        }
        assert(ts.take(i as int) =~= ts);
        BudgetLedger { entries }
    }

    /// The remaining budget of a table, if the ledger has an entry for it.
    pub fn remaining(&self, table: &str) -> (r: Option<i64>)
        ensures
            r matches Some(v) ==> remaining_of(self@, table@) == Some(v as int),
            r is None ==> remaining_of(self@, table@) is None,
    {
        let name = table.to_owned();
        let ghost ls = self@;
        let mut k: usize = self.entries.len();
        assert(ls.take(k as int) =~= ls);
        while k > 0
            invariant
                k <= self.entries.len(),
                ls == self@,
                name@ == table@,
                remaining_of(ls, table@) == remaining_of(ls.take(k as int), table@),
            decreases k,
        {
            assert(ls.take(k as int).drop_last() =~= ls.take(k - 1));
            if self.entries[k - 1].table == name {
                return Some(self.entries[k - 1].remaining);
            }
            k = k - 1;
        }
        None
    }

    /// Sets the remaining budget of every entry for the table. Fails, and
    /// changes nothing, where the ledger has no entry for it.
    pub fn set_budget(&mut self, table: &str, budget: i64) -> (r: Result<(), QueryError>)
        ensures
            !has_entry(old(self)@, table@) ==> (r matches Err(QueryError::UnknownTable(t)) && t@
                == table@ && final(self)@ == old(self)@),
            has_entry(old(self)@, table@) ==> r is Ok && final(self)@ == old(self)@.map_values(
                |e: (Seq<char>, int)| rebudgeted(e, table@, budget as int),
            ),
    {
        let name = table.to_owned();
        let ghost ls = self@;
        let mut found = false;
        let mut out: Vec<LedgerEntry> = Vec::new();
        let mut i: usize = 0;
        while i < self.entries.len()
            invariant
                i <= self.entries.len(),
                ls == self@,
                name@ == table@,
                found <==> exists|k: int| 0 <= k < i && (#[trigger] ls[k]).0 == table@,
                entries_view(out@) =~= ls.take(i as int).map_values(
                    |e: (Seq<char>, int)| rebudgeted(e, table@, budget as int),
                ),
            decreases self.entries.len() - i,
        {
            let is_it = self.entries[i].table == name;
            let e = LedgerEntry {
                table: self.entries[i].table.clone(),
                remaining: if is_it {
                    budget
                } else {
                    self.entries[i].remaining
                },
            };
            if is_it {
                found = true;
            }
            let ghost before = out@;
            out.push(e);
            assert(entries_view(out@) =~= entries_view(before).push(
                rebudgeted(ls[i as int], table@, budget as int),
            ));
            assert(ls.take(i + 1) =~= ls.take(i as int).push(ls[i as int]));
            i = i + 1;
        }
        if !found {
            return Err(QueryError::UnknownTable(name));
        }
        assert(ls.take(i as int) =~= ls);
        self.entries = out;
        Ok(())
    }

    /// Charges `epsilon` to every used table, all or nothing: where a used
    /// table has no entry, or an entry of a used table has nothing left
    /// (zero or below), nothing is charged and the query is refused.
    /// Otherwise each entry of a used table loses `epsilon`, even where that
    /// leaves it at zero or below.
    pub fn check_and_spend(&mut self, used_tables: &Vec<String>, epsilon: i64) -> (r: Result<
        (),
        QueryError,
    >)
        requires
            0 <= epsilon,
        ensures
            ({
                let ls = old(self)@;
                let used = used_tables.deep_view();
                &&& has_unknown(ls, used) ==> (r matches Err(QueryError::UnknownTable(t))
                    && used.contains(t@) && !has_entry(ls, t@))
                &&& !has_unknown(ls, used) && has_exhausted(ls, used) ==> (r matches Err(
                    QueryError::InsufficientBudget(t),
                ) && used.contains(t@) && exists|i: int|
                    0 <= i < ls.len() && (#[trigger] ls[i]).0 == t@ && ls[i].1 <= 0)
                &&& r is Err ==> final(self)@ == ls
                &&& r is Ok <==> !has_unknown(ls, used) && !has_exhausted(ls, used)
                &&& r is Ok ==> final(self)@ == ls.map_values(
                    |e: (Seq<char>, int)| charged(e, used, epsilon as int),
                )
            }),
    {
        let ghost ls = self@;
        let ghost used = used_tables.deep_view();
        let mut k: usize = 0;
        while k < used_tables.len()
            invariant
                k <= used_tables.len(),
                ls == self@,
                used == used_tables.deep_view(),
                forall|q: int| 0 <= q < k ==> has_entry(ls, #[trigger] used[q]),
            decreases used_tables.len() - k,
        {
            let mut i: usize = 0;
            let mut seen = false;
            while i < self.entries.len()
                invariant
                    k < used_tables.len(),
                    i <= self.entries.len(),
                    ls == self@,
                    used == used_tables.deep_view(),
                    seen ==> has_entry(ls, used[k as int]),
                    !seen ==> forall|q: int| 0 <= q < i ==> (#[trigger] ls[q]).0 != used[k as int],
                decreases self.entries.len() - i,
            {
                if self.entries[i].table == used_tables[k] {
                    assert(ls[i as int].0 == used[k as int]);
                    seen = true;
                }
                i = i + 1;
            }
            if !seen {
                let t = used_tables[k].clone();
                assert(used[k as int] == t@);
                return Err(QueryError::UnknownTable(t));
            }
            k = k + 1;
        }
        let mut i: usize = 0;
        while i < self.entries.len()
            invariant
                i <= self.entries.len(),
                ls == self@,
                used == used_tables.deep_view(),
                !has_unknown(ls, used),
                forall|q: int| 0 <= q < i && used.contains((#[trigger] ls[q]).0) ==> ls[q].1 > 0,
            decreases self.entries.len() - i,
        {
            if self.entries[i].remaining <= 0 && contains_string(used_tables, &self.entries[i].table) {
                let t = self.entries[i].table.clone();
                assert(ls[i as int].0 == t@ && ls[i as int].1 <= 0);
                return Err(QueryError::InsufficientBudget(t));
            }
            i = i + 1;
        }
        let mut out: Vec<LedgerEntry> = Vec::new();
        let mut i: usize = 0;
        while i < self.entries.len()
            invariant
                0 <= epsilon,
                i <= self.entries.len(),
                ls == self@,
                used == used_tables.deep_view(),
                !has_exhausted(ls, used),
                entries_view(out@) =~= ls.take(i as int).map_values(
                    |e: (Seq<char>, int)| charged(e, used, epsilon as int),
                ),
            decreases self.entries.len() - i,
        {
            let in_use = contains_string(used_tables, &self.entries[i].table);
            let remaining = if in_use {
                assert(ls[i as int].1 > 0);
                self.entries[i].remaining - epsilon
            } else {
                self.entries[i].remaining
            };
            let e = LedgerEntry { table: self.entries[i].table.clone(), remaining };
            let ghost before = out@;
            out.push(e);
            assert(entries_view(out@) =~= entries_view(before).push(
                charged(ls[i as int], used, epsilon as int),
            ));
            assert(ls.take(i + 1) =~= ls.take(i as int).push(ls[i as int]));
            i = i + 1;
        }
        assert(ls.take(i as int) =~= ls);
        self.entries = out;
        Ok(())
    }
}

} // verus!
