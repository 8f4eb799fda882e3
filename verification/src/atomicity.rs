//! What a batch leaves in a table, whatever happens on the way.
//!
//! The storage engine is stood for by its least promise: rows that are
//! inserted in a transaction are kept aside, they join the table when the
//! transaction is committed, and they are dropped when it is rolled back or
//! cannot be committed. Against such an engine, a batch adds all of its rows
//! or none.

use vstd::prelude::*;
use crate::database::Phase;
use crate::database::insert_phase;
use crate::database::next_phase;
use crate::entry::RowView;

verus! {

/// A table as the engine holds it: the rows that are committed, and the rows
/// that the open transaction has inserted so far.
pub struct Table {
    pub rows: Seq<RowView>,
    pub staged: Seq<RowView>,
}

/// The table after the step of `phase` was taken and succeeded (`ok`) or
/// failed.
pub open spec fn perform(table: Table, phase: Phase, rows: Seq<Option<RowView>>, ok: bool) -> Table {
    match phase {
        Phase::Beginning => Table { rows: table.rows, staged: Seq::empty() },
        Phase::Inserting(i) => if ok && 0 <= i < rows.len() && rows[i] is Some {
            Table { rows: table.rows, staged: table.staged.push(rows[i]->0) }
        } else {
            table
        },
        Phase::Committing => if ok {
            Table { rows: table.rows + table.staged, staged: Seq::empty() }
        } else {
            Table { rows: table.rows, staged: Seq::empty() }
        },
        Phase::RollingBack => Table { rows: table.rows, staged: Seq::empty() },
        Phase::Succeeded => table,
        Phase::Failed => table,
    }
}

/// Where a batch stands, and what the table holds, after its steps went as
/// `outcomes` say, one after the other.
pub open spec fn run(table: Table, rows: Seq<Option<RowView>>, outcomes: Seq<bool>) -> (Phase, Table)
    decreases outcomes.len(),
{
    if outcomes.len() == 0 {
        (Phase::Beginning, table)
    } else {
        let (phase, before) = run(table, rows, outcomes.drop_last());
        (next_phase(phase, rows, outcomes.last()), perform(before, phase, rows, outcomes.last()))
    }
}

/// The first `n` rows, each of which is there.
pub open spec fn present(rows: Seq<Option<RowView>>, n: int) -> Seq<RowView> {
    Seq::new(n as nat, |i: int| rows[i]->0)
}

/// Whether each of the first `n` entries has a row.
pub open spec fn all_present(rows: Seq<Option<RowView>>, n: int) -> bool {
    forall|i: int| 0 <= i < n ==> (#[trigger] rows[i]) is Some
}

/// What holds of a batch and the table at every step.
pub open spec fn consistent(
    committed: Seq<RowView>,
    rows: Seq<Option<RowView>>,
    phase: Phase,
    table: Table,
) -> bool {
    match phase {
        Phase::Beginning => table.rows == committed,
        Phase::Inserting(i) => {
            &&& 0 <= i < rows.len()
            &&& all_present(rows, i + 1)
            &&& table.rows == committed
            &&& table.staged == present(rows, i)
        },
        Phase::Committing => {
            &&& all_present(rows, rows.len() as int)
            &&& table.rows == committed
            &&& table.staged == present(rows, rows.len() as int)
        },
        Phase::RollingBack => table.rows == committed,
        Phase::Succeeded => {
            &&& all_present(rows, rows.len() as int)
            &&& table.rows == committed + present(rows, rows.len() as int)
        },
        Phase::Failed => table.rows == committed,
    }
}

/// Every step keeps a batch and the table consistent.
pub proof fn lemma_run_is_consistent(table: Table, rows: Seq<Option<RowView>>, outcomes: Seq<bool>)
    ensures
        consistent(table.rows, rows, run(table, rows, outcomes).0, run(table, rows, outcomes).1),
    decreases outcomes.len(),
{
    if outcomes.len() > 0 {
        lemma_run_is_consistent(table, rows, outcomes.drop_last());
        let (phase, before) = run(table, rows, outcomes.drop_last());
        let ok = outcomes.last();
        let after = perform(before, phase, rows, ok);
        match phase {
            Phase::Beginning => {
                if ok {
                    assert(after.staged =~= present(rows, 0));
                }
            },
            Phase::Inserting(i) => {
                if ok {
                    assert(after.staged =~= present(rows, i + 1));
                }
            },
            _ => {},
        }
    }
}

/// A batch is written as a whole or not at all: when it has succeeded, the
/// table holds what it held before and, behind that, the row of every entry
/// in the entries' order; at any other time, also when the batch has failed,
/// the table holds what it held before.
pub proof fn lemma_all_or_nothing(table: Table, rows: Seq<Option<RowView>>, outcomes: Seq<bool>)
    ensures
        ({
            let (phase, after) = run(table, rows, outcomes);
            if phase == Phase::Succeeded {
                &&& all_present(rows, rows.len() as int)
                &&& after.rows == table.rows + present(rows, rows.len() as int)
            } else {
                after.rows == table.rows
            }
        }),
{
    lemma_run_is_consistent(table, rows, outcomes);
}

/// While every step succeeds, the entries are inserted in their order: after
/// the transaction has begun and `n` entries are inserted, the next entry is
/// due, or the commit when none is left.
pub proof fn lemma_steady_run(table: Table, rows: Seq<Option<RowView>>, n: int)
    requires
        0 <= n <= rows.len(),
        all_present(rows, n),
    ensures
        run(table, rows, Seq::new((n + 1) as nat, |i: int| true)).0 == insert_phase(rows, n),
    decreases n,
{
    let outcomes = Seq::new((n + 1) as nat, |i: int| true);
    assert(outcomes.drop_last() =~= Seq::new(n as nat, |i: int| true));
    if n == 0 {
        assert(run(table, rows, outcomes.drop_last()).0 == Phase::Beginning);
    } else {
        lemma_steady_run(table, rows, n - 1);
    }
}

/// A batch whose every step succeeds is written: the table then holds what it
/// held before and, behind that, the row of every entry. For a batch without
/// entries that is the table as it was.
pub proof fn lemma_batch_succeeds(table: Table, rows: Seq<Option<RowView>>)
    requires
        all_present(rows, rows.len() as int),
    ensures
        ({
            let (phase, after) = run(table, rows, Seq::new(rows.len() + 2, |i: int| true));
            &&& phase == Phase::Succeeded
            &&& after.rows == table.rows + present(rows, rows.len() as int)
            &&& rows.len() == 0 ==> after.rows == table.rows
        }),
{
    let outcomes = Seq::new(rows.len() + 2, |i: int| true);
    assert(outcomes.drop_last() =~= Seq::new((rows.len() + 1) as nat, |i: int| true));
    lemma_steady_run(table, rows, rows.len() as int);
    lemma_all_or_nothing(table, rows, outcomes);
    if rows.len() == 0 {
        assert(table.rows + present(rows, 0) =~= table.rows);
    }
}

/// A batch in which the entry at `k` cannot be inserted fails, and the table
/// holds what it held before: none of the batch's rows, not those either that
/// were inserted before the failure.
pub proof fn lemma_failed_insert_leaves_table(
    table: Table,
    rows: Seq<Option<RowView>>,
    k: int,
    rolled_back: bool,
)
    requires
        0 <= k < rows.len(),
        all_present(rows, k + 1),
    ensures
        ({
            let outcomes = Seq::new((k + 1) as nat, |i: int| true).push(false).push(rolled_back);
            let (phase, after) = run(table, rows, outcomes);
            &&& phase == Phase::Failed
            &&& after.rows == table.rows
        }),
{
    let steady = Seq::new((k + 1) as nat, |i: int| true);
    let failing = steady.push(false);
    let outcomes = failing.push(rolled_back);
    lemma_steady_run(table, rows, k);
    assert(failing.drop_last() =~= steady);
    assert(outcomes.drop_last() =~= failing);
    assert(run(table, rows, failing).0 == Phase::RollingBack);
    lemma_all_or_nothing(table, rows, outcomes);
}

/// A batch in which the entry at `k` has no row fails before that entry is
/// inserted, and the table holds what it held before.
pub proof fn lemma_entry_without_row_leaves_table(
    table: Table,
    rows: Seq<Option<RowView>>,
    k: int,
    rolled_back: bool,
)
    requires
        0 <= k < rows.len(),
        all_present(rows, k),
        rows[k] is None,
    ensures
        ({
            let outcomes = Seq::new((k + 1) as nat, |i: int| true).push(rolled_back);
            let (phase, after) = run(table, rows, outcomes);
            &&& phase == Phase::Failed
            &&& after.rows == table.rows
        }),
{
    let steady = Seq::new((k + 1) as nat, |i: int| true);
    let outcomes = steady.push(rolled_back);
    lemma_steady_run(table, rows, k);
    assert(outcomes.drop_last() =~= steady);
    lemma_all_or_nothing(table, rows, outcomes);
}

} // verus!
