//! The steps by which a store is opened and a batch of entries is written.
//!
//! Nothing here touches a store. Each kind of work is a value that says what is
//! to be done next; whoever drives it does that, and hands back how it went.

use vstd::prelude::*;
use vstd::string::StringExecFns;
use crate::entry::Entry;
use crate::entry::Row;
use crate::entry::RowView;
use crate::entry::entry_row;
use crate::error::Error;
use crate::statement::create_table_statement;
use crate::statement::create_table_text;
use crate::statement::insert_statement;
use crate::statement::insert_text;

verus! {

/// An open store, bound to the table that holds its molecules.
#[derive(Debug, PartialEq, Eq)]
pub struct Database {
    molecule_table: String,
}

impl View for Database {
    type V = Seq<char>;

    /// The name of the table.
    closed spec fn view(&self) -> Seq<char> {
        self.molecule_table@
    }
}

/// Opening a store, step by step.
#[derive(Debug, PartialEq, Eq)]
pub enum Connecting {
    /// Next, the store at `location` is opened.
    Opening { location: String, molecule_table: String },
    /// Next, `statement` is run on the open store.
    Creating { statement: String, molecule_table: String },
    /// The store is open and holds the table.
    Connected(Database),
    /// The store could not be opened, or the table could not be made.
    Failed(Error),
}

/// Writing a batch of entries, step by step.
#[derive(Debug, PartialEq)]
pub enum Batch {
    /// Next, a transaction is begun.
    Beginning { statement: String, entries: Vec<Entry> },
    /// Next, `statement` is run in the transaction, with the three values of
    /// `row` bound to it: the row of the entry at `index`.
    Inserting { statement: String, entries: Vec<Entry>, index: usize, row: Row },
    /// Next, the transaction is committed.
    Committing,
    /// Next, the transaction is rolled back. Whatever comes of that, the batch
    /// has failed with the error that is kept here.
    RollingBack(Error),
    /// The batch is written as a whole, or not at all.
    Done(Result<(), Error>),
}

/// How far a batch has come.
pub enum Phase {
    /// The transaction is to be begun.
    Beginning,
    /// The entry at this place is to be inserted.
    Inserting(int),
    /// The transaction is to be committed.
    Committing,
    /// The transaction is to be rolled back.
    RollingBack,
    /// The batch is written.
    Succeeded,
    /// The batch has failed.
    Failed,
}

/// The row of each entry, where it has one.
pub open spec fn entry_rows(entries: Seq<Entry>) -> Seq<Option<RowView>> {
    Seq::new(entries.len(), |i: int| entry_row(entries[i]))
}

/// The phase in which the entry at `i` is next: it is inserted if it has a
/// row, the transaction is rolled back if it has none, and committed if no
/// entry is left.
pub open spec fn insert_phase(rows: Seq<Option<RowView>>, i: int) -> Phase {
    if i >= rows.len() {
        Phase::Committing
    } else if rows[i] is Some {
        Phase::Inserting(i)
    } else {
        Phase::RollingBack
    }
}

/// The phase that follows `phase` when its step succeeded (`ok`) or failed.
pub open spec fn next_phase(phase: Phase, rows: Seq<Option<RowView>>, ok: bool) -> Phase {
    match phase {
        Phase::Beginning => if ok {
            insert_phase(rows, 0)
        } else {
            Phase::Failed
        },
        Phase::Inserting(i) => if ok {
            insert_phase(rows, i + 1)
        } else {
            Phase::RollingBack
        },
        Phase::Committing => if ok {
            Phase::Succeeded
        } else {
            Phase::Failed
        },
        Phase::RollingBack => Phase::Failed,
        Phase::Succeeded => Phase::Succeeded,
        Phase::Failed => Phase::Failed,
    }
}

/// What follows when the entries before `i` are inserted: the next entry's
/// row is inserted, or the transaction is committed when none is left, or it
/// is rolled back when the next entry's properties cannot be written.
pub open spec fn inserts_from(next: Batch, statement: Seq<char>, entries: Seq<Entry>, i: int) -> bool {
    if i >= entries.len() {
        next is Committing
    } else {
        match entry_row(entries[i]) {
            Some(expected) => next matches Batch::Inserting { statement: s, entries: es, index, row }
                && s@ == statement && es@ == entries && index == i && row@ == expected,
            None => next matches Batch::RollingBack(Error::Transaction(_)),
        }
    }
}

/// Turns to the entry at `i`.
fn insert_from(statement: String, entries: Vec<Entry>, i: usize) -> (next: Batch)
    ensures
        inserts_from(next, statement@, entries@, i as int),
{
    if i < entries.len() {
        match entries[i].to_row() {
            Ok(row) => Batch::Inserting { statement, entries, index: i, row },
            Err(cause) => Batch::RollingBack(Error::Transaction(cause)),
        }
    } else {
        Batch::Committing
    }
}

impl Database {
    /// The name of the table that holds the molecules.
    pub fn molecule_table(&self) -> (name: &str)
        ensures
            name@ == self@,
    {
        self.molecule_table.as_str()
    }

    /// Starts to open the store at `path`, with the table `molecules`.
    pub fn connect(path: &str) -> (start: Connecting)
        ensures
            start matches Connecting::Opening { location, molecule_table } && location@ == path@
                && molecule_table@ == "molecules"@,
    {
        Self::connect_with_table(path, "molecules")
    }

    /// Starts to open the store at `path`, with the table `molecule_table`.
    pub fn connect_with_table(path: &str, molecule_table: &str) -> (start: Connecting)
        ensures
            start matches Connecting::Opening { location, molecule_table: table } && location@
                == path@ && table@ == molecule_table@,
    {
        Connecting::Opening {
            location: String::from_str(path),
            molecule_table: String::from_str(molecule_table),
        }
    }

    /// Starts to write `entries` to the table, in their order and as a whole.
    pub fn add_entries(&self, entries: Vec<Entry>) -> (start: Batch)
        ensures
            start matches Batch::Beginning { statement, entries: es } && statement@ == insert_text(
                self@,
            ) && es == entries,
    {
        Batch::Beginning { statement: insert_statement(self.molecule_table.as_str()), entries }
    }
}

impl Connecting {
    /// What follows when the step that was due went as `outcome` says.
    ///
    /// A store that cannot be opened fails the work with a `Connect` error, a
    /// table that cannot be made with a `Transaction` error. Once the store is
    /// open and holds the table, or the work has failed, nothing changes any
    /// more.
    pub fn advance(self, outcome: Result<(), String>) -> (next: Connecting)
        ensures
            match self {
                Connecting::Opening { location, molecule_table } => match outcome {
                    Ok(_) => next matches Connecting::Creating { statement, molecule_table: table }
                        && statement@ == create_table_text(molecule_table@) && table@
                        == molecule_table@,
                    Err(cause) => next == Connecting::Failed(Error::Connect(cause)),
                },
                Connecting::Creating { statement, molecule_table } => match outcome {
                    Ok(_) => next matches Connecting::Connected(database) && database@
                        == molecule_table@,
                    Err(cause) => next == Connecting::Failed(Error::Transaction(cause)),
                },
                Connecting::Connected(_) => next == self,
                Connecting::Failed(_) => next == self,
            },
    {
        match self {
            Connecting::Opening { location, molecule_table } => match outcome {
                Ok(_) => Connecting::Creating {
                    statement: create_table_statement(molecule_table.as_str()),
                    molecule_table,
                },
                Err(cause) => Connecting::Failed(Error::Connect(cause)),
            },
            Connecting::Creating { statement, molecule_table } => match outcome {
                Ok(_) => Connecting::Connected(Database { molecule_table }),
                Err(cause) => Connecting::Failed(Error::Transaction(cause)),
            },
            Connecting::Connected(database) => Connecting::Connected(database),
            Connecting::Failed(error) => Connecting::Failed(error),
        }
    }
}

impl Batch {
    /// How far the batch has come.
    pub open spec fn phase(self) -> Phase {
        match self {
            Batch::Beginning { .. } => Phase::Beginning,
            Batch::Inserting { index, .. } => Phase::Inserting(index as int),
            Batch::Committing => Phase::Committing,
            Batch::RollingBack(_) => Phase::RollingBack,
            Batch::Done(Ok(_)) => Phase::Succeeded,
            Batch::Done(Err(_)) => Phase::Failed,
        }
    }

    /// The rows of the entries that the batch still holds.
    pub open spec fn rows(self) -> Seq<Option<RowView>> {
        match self {
            Batch::Beginning { entries, .. } => entry_rows(entries@),
            Batch::Inserting { entries, .. } => entry_rows(entries@),
            _ => Seq::empty(),
        }
    }

    /// What follows when the step that was due went as `outcome` says.
    ///
    /// The entries are inserted one by one, in their order. The transaction is
    /// committed only when each of them is inserted. When a step fails, the
    /// batch fails with a `Transaction` error that carries what the step
    /// reported; a transaction that has begun is rolled back first.
    pub fn advance(self, outcome: Result<(), String>) -> (next: Batch)
        ensures
            match self {
                Batch::Beginning { statement, entries } => match outcome {
                    Ok(_) => inserts_from(next, statement@, entries@, 0),
                    Err(cause) => next == Batch::Done(Err(Error::Transaction(cause))),
                },
                Batch::Inserting { statement, entries, index, row } => match outcome {
                    Ok(_) => inserts_from(next, statement@, entries@, index + 1),
                    Err(cause) => next == Batch::RollingBack(Error::Transaction(cause)),
                },
                Batch::Committing => match outcome {
                    Ok(_) => next == Batch::Done(Ok(())),
                    Err(cause) => next == Batch::Done(Err(Error::Transaction(cause))),
                },
                Batch::RollingBack(error) => next == Batch::Done(Err(error)),
                Batch::Done(_) => next == self,
            },
            next.phase() == next_phase(self.phase(), self.rows(), outcome is Ok),
            next is Inserting ==> next.rows() == self.rows(),
    {
        match self {
            Batch::Beginning { statement, entries } => match outcome {
                Ok(_) => insert_from(statement, entries, 0),
                Err(cause) => Batch::Done(Err(Error::Transaction(cause))),
            },
            Batch::Inserting { statement, entries, index, row } => match outcome {
                Ok(_) => if index < entries.len() {
                    insert_from(statement, entries, index + 1)
                } else {
                    Batch::Committing
                },
                Err(cause) => Batch::RollingBack(Error::Transaction(cause)),
            },
            Batch::Committing => match outcome {
                Ok(_) => Batch::Done(Ok(())),
                Err(cause) => Batch::Done(Err(Error::Transaction(cause))),
            },
            Batch::RollingBack(error) => Batch::Done(Err(error)),
            Batch::Done(result) => Batch::Done(result),
        }
    }
}

} // verus!
