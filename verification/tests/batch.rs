use atomlite::statement::create_table_statement;
use atomlite::statement::insert_statement;
use atomlite::Batch;
use atomlite::Connecting;
use atomlite::Database;
use atomlite::Entry;
use atomlite::Error;
use atomlite::Molecule;
use atomlite::Row;

fn entry(key: &str, atomic_numbers: Vec<u8>) -> Entry {
    let mut properties = serde_json::Map::new();
    properties.insert("name".to_string(), serde_json::Value::from(key));
    Entry {
        key: key.to_string(),
        molecule: Molecule {
            atomic_numbers,
            atom_charges: None,
            bonds: None,
            dative_bonds: None,
            aromatic_bonds: None,
            conformers: None,
        },
        properties,
    }
}

fn database(table: &str) -> Database {
    let connecting = Database::connect_with_table("sqlite::memory:", table)
        .advance(Ok(()))
        .advance(Ok(()));
    match connecting {
        Connecting::Connected(database) => database,
        other => panic!("{:?}", other),
    }
}

const INSERT: &str = "INSERT INTO molecules (key, molecule, properties) VALUES (?, ?, ?)";

#[test]
fn statements() {
    assert_eq!(
        create_table_statement("molecules"),
        "CREATE TABLE IF NOT EXISTS molecules (key TEXT PRIMARY KEY NOT NULL, molecule JSON, \
         properties JSON NOT NULL)"
    );
    assert_eq!(insert_statement("molecules"), INSERT);
    assert_eq!(
        insert_statement("other"),
        "INSERT INTO other (key, molecule, properties) VALUES (?, ?, ?)"
    );
}

#[test]
fn connect_uses_the_table_of_molecules() {
    assert_eq!(
        Database::connect("sqlite:data.db"),
        Connecting::Opening {
            location: "sqlite:data.db".to_string(),
            molecule_table: "molecules".to_string()
        }
    );
    assert_eq!(
        Database::connect("sqlite:data.db"),
        Database::connect_with_table("sqlite:data.db", "molecules")
    );
}

#[test]
fn connecting_opens_then_creates() {
    let opening = Database::connect_with_table("sqlite:data.db", "structures");
    assert_eq!(
        opening,
        Connecting::Opening {
            location: "sqlite:data.db".to_string(),
            molecule_table: "structures".to_string()
        }
    );
    let creating = opening.advance(Ok(()));
    assert_eq!(
        creating,
        Connecting::Creating {
            statement: create_table_statement("structures"),
            molecule_table: "structures".to_string()
        }
    );
    let connected = creating.advance(Ok(()));
    match &connected {
        Connecting::Connected(database) => assert_eq!(database.molecule_table(), "structures"),
        other => panic!("{:?}", other),
    }
    let still = connected.advance(Err("late".to_string()));
    assert!(matches!(still, Connecting::Connected(_)));
}

#[test]
fn store_that_cannot_be_opened() {
    let failed = Database::connect("sqlite:/nowhere/data.db").advance(Err("no file".to_string()));
    assert_eq!(failed, Connecting::Failed(Error::Connect("no file".to_string())));
    let still = failed.advance(Ok(()));
    assert_eq!(still, Connecting::Failed(Error::Connect("no file".to_string())));
}

#[test]
fn table_that_cannot_be_made() {
    let failed = Database::connect_with_table("sqlite::memory:", "not a name")
        .advance(Ok(()))
        .advance(Err("syntax error".to_string()));
    assert_eq!(failed, Connecting::Failed(Error::Transaction("syntax error".to_string())));
}

#[test]
fn error_messages() {
    let connect = Error::Connect("no file".to_string());
    let transaction = Error::Transaction("locked".to_string());
    assert_eq!(connect.message(), "failed to connect to database");
    assert_eq!(transaction.message(), "transaction error");
    assert_eq!(connect.cause(), "no file");
    assert_eq!(transaction.cause(), "locked");
}

#[test]
fn entry_becomes_a_row() {
    let row = entry("water", vec![1, 8, 1]).to_row().unwrap();
    assert_eq!(
        row,
        Row {
            key: "water".to_string(),
            molecule: "{\"atomic_numbers\":[1,8,1]}".to_string(),
            properties: "{\"name\":\"water\"}".to_string(),
        }
    );
}

#[test]
fn batch_inserts_in_order_then_commits() {
    let entries = vec![entry("a", vec![1]), entry("b", vec![2]), entry("c", vec![3])];
    let batch = database("molecules").add_entries(entries);
    match &batch {
        Batch::Beginning { statement, entries } => {
            assert_eq!(statement, INSERT);
            assert_eq!(entries.len(), 3);
        }
        other => panic!("{:?}", other),
    }
    let mut batch = batch.advance(Ok(()));
    for (i, key) in ["a", "b", "c"].iter().enumerate() {
        match &batch {
            Batch::Inserting { statement, entries, index, row } => {
                assert_eq!(statement, INSERT);
                assert_eq!(entries.len(), 3);
                assert_eq!(*index, i);
                assert_eq!(row.key, *key);
                assert_eq!(row.molecule, format!("{{\"atomic_numbers\":[{}]}}", i + 1));
                assert_eq!(row.properties, format!("{{\"name\":\"{}\"}}", key));
            }
            other => panic!("{:?}", other),
        }
        batch = batch.advance(Ok(()));
    }
    assert_eq!(batch, Batch::Committing);
    let batch = batch.advance(Ok(()));
    assert_eq!(batch, Batch::Done(Ok(())));
    assert_eq!(batch.advance(Err("late".to_string())), Batch::Done(Ok(())));
}

#[test]
fn empty_batch_commits_at_once() {
    let batch = database("molecules").add_entries(vec![]).advance(Ok(()));
    assert_eq!(batch, Batch::Committing);
    assert_eq!(batch.advance(Ok(())), Batch::Done(Ok(())));
}

#[test]
fn failed_insert_rolls_back() {
    let entries = vec![entry("a", vec![1]), entry("b", vec![2]), entry("c", vec![3])];
    let batch = database("molecules")
        .add_entries(entries)
        .advance(Ok(()))
        .advance(Ok(()))
        .advance(Err("UNIQUE constraint failed".to_string()));
    assert_eq!(
        batch,
        Batch::RollingBack(Error::Transaction("UNIQUE constraint failed".to_string()))
    );
    let done = batch.advance(Ok(()));
    assert_eq!(
        done,
        Batch::Done(Err(Error::Transaction("UNIQUE constraint failed".to_string())))
    );
}

#[test]
fn failed_rollback_keeps_the_first_error() {
    let batch = database("molecules")
        .add_entries(vec![entry("a", vec![1])])
        .advance(Ok(()))
        .advance(Err("disk full".to_string()))
        .advance(Err("cannot roll back".to_string()));
    assert_eq!(batch, Batch::Done(Err(Error::Transaction("disk full".to_string()))));
}

#[test]
fn transaction_that_cannot_begin() {
    let batch = database("molecules")
        .add_entries(vec![entry("a", vec![1])])
        .advance(Err("pool closed".to_string()));
    assert_eq!(batch, Batch::Done(Err(Error::Transaction("pool closed".to_string()))));
}

#[test]
fn commit_that_fails() {
    let batch = database("molecules")
        .add_entries(vec![entry("a", vec![1])])
        .advance(Ok(()))
        .advance(Ok(()));
    assert_eq!(batch, Batch::Committing);
    assert_eq!(
        batch.advance(Err("busy".to_string())),
        Batch::Done(Err(Error::Transaction("busy".to_string())))
    );
}
