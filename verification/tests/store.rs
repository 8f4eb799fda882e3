use atomlite::AromaticBonds;
use atomlite::Batch;
use atomlite::Bonds;
use atomlite::Connecting;
use atomlite::Coordinate;
use atomlite::Database;
use atomlite::Entry;
use atomlite::Error;
use atomlite::Molecule;

struct Store {
    pool: sqlx::SqlitePool,
    database: Database,
}

fn report(outcome: Result<(), sqlx::Error>) -> Result<(), String> {
    outcome.map_err(|error| error.to_string())
}

async fn connect(path: &str, table: Option<&str>) -> Result<Store, Error> {
    let mut state = match table {
        Some(table) => Database::connect_with_table(path, table),
        None => Database::connect(path),
    };
    let mut pool = None;
    loop {
        let outcome = match &state {
            Connecting::Opening { location, .. } => {
                let options = sqlx::sqlite::SqlitePoolOptions::new().max_connections(1);
                match options.connect(location).await {
                    Ok(opened) => {
                        pool = Some(opened);
                        Ok(())
                    }
                    Err(error) => Err(error.to_string()),
                }
            }
            Connecting::Creating { statement, .. } => report(
                sqlx::query(sqlx::AssertSqlSafe(statement.clone()))
                    .execute(pool.as_ref().unwrap())
                    .await
                    .map(|_| ()),
            ),
            Connecting::Connected(_) | Connecting::Failed(_) => break,
        };
        state = state.advance(outcome);
    }
    match state {
        Connecting::Connected(database) => Ok(Store { pool: pool.unwrap(), database }),
        Connecting::Failed(error) => Err(error),
        other => panic!("{:?}", other),
    }
}

async fn add_entries(store: &Store, entries: Vec<Entry>) -> Result<(), Error> {
    let mut state = store.database.add_entries(entries);
    let mut transaction = None;
    loop {
        let outcome = match &state {
            Batch::Beginning { .. } => match store.pool.begin().await {
                Ok(begun) => {
                    transaction = Some(begun);
                    Ok(())
                }
                Err(error) => Err(error.to_string()),
            },
            Batch::Inserting { statement, row, .. } => report(
                sqlx::query(sqlx::AssertSqlSafe(statement.clone()))
                    .bind(row.key.clone())
                    .bind(row.molecule.clone())
                    .bind(row.properties.clone())
                    .execute(&mut **transaction.as_mut().unwrap())
                    .await
                    .map(|_| ()),
            ),
            Batch::Committing => report(transaction.take().unwrap().commit().await),
            Batch::RollingBack(_) => report(transaction.take().unwrap().rollback().await),
            Batch::Done(_) => break,
        };
        state = state.advance(outcome);
    }
    match state {
        Batch::Done(result) => result,
        other => panic!("{:?}", other),
    }
}

async fn rows(store: &Store, table: &str) -> Vec<(String, String, String)> {
    let statement = format!(
        "SELECT key, CAST(molecule AS TEXT), CAST(properties AS TEXT) FROM {} ORDER BY key",
        table
    );
    sqlx::query_as(sqlx::AssertSqlSafe(statement)).fetch_all(&store.pool).await.unwrap()
}

fn block_on<F: std::future::Future>(work: F) -> F::Output {
    tokio::runtime::Builder::new_current_thread().enable_all().build().unwrap().block_on(work)
}

fn coordinate(x: f32) -> Coordinate {
    Coordinate::new(&serde_json::to_string(&x).unwrap()).unwrap()
}

fn point(x: f32, y: f32, z: f32) -> [Coordinate; 3] {
    [coordinate(x), coordinate(y), coordinate(z)]
}

fn object(fields: Vec<(&str, serde_json::Value)>) -> serde_json::Map<String, serde_json::Value> {
    let mut map = serde_json::Map::new();
    for (name, value) in fields {
        map.insert(name.to_string(), value);
    }
    map
}

fn first() -> Entry {
    Entry {
        key: "first".into(),
        molecule: Molecule {
            atomic_numbers: vec![1, 2, 3],
            atom_charges: Some(vec![0, 0, 0]),
            bonds: Some(Bonds { atom1: vec![0, 1], atom2: vec![1, 2], order: vec![1, 2] }),
            dative_bonds: None,
            aromatic_bonds: None,
            conformers: Some(vec![vec![
                point(0.0, 0.0, 0.0),
                point(1.0, 1.0, 1.0),
                point(2.0, 2.0, 2.0),
            ]]),
        },
        properties: object(vec![
            ("density", serde_json::Value::from(1.0)),
            ("color", serde_json::Value::from("colorless")),
        ]),
    }
}

fn second() -> Entry {
    Entry {
        key: "second".into(),
        molecule: Molecule {
            atomic_numbers: vec![4, 5],
            atom_charges: None,
            bonds: None,
            dative_bonds: None,
            aromatic_bonds: Some(AromaticBonds { atom1: vec![0, 1], atom2: vec![1, 2] }),
            conformers: Some(vec![vec![point(0.0, 0.0, 0.0), point(1.0, 1.0, 1.0)]]),
        },
        properties: object(vec![
            ("density", serde_json::Value::from(2.0)),
            ("odor", serde_json::Value::from(false)),
            (
                "other",
                serde_json::Value::Object(object(vec![(
                    "optimized",
                    serde_json::Value::from(true),
                )])),
            ),
        ]),
    }
}

fn plain(key: &str, atomic_numbers: Vec<u8>) -> Entry {
    Entry {
        key: key.to_string(),
        molecule: Molecule {
            atomic_numbers,
            atom_charges: None,
            bonds: None,
            dative_bonds: None,
            aromatic_bonds: None,
            conformers: None,
        },
        properties: serde_json::Map::new(),
    }
}

#[test]
fn it_works() {
    let result: Result<(), Error> = block_on(async {
        let database = connect("sqlite::memory:", None).await?;
        add_entries(&database, vec![first(), second()]).await?;
        Ok(())
    });
    assert_eq!(result, Ok(()));
}

#[test]
fn two_entries_become_two_rows() {
    let stored = block_on(async {
        let store = connect("sqlite::memory:", None).await.unwrap();
        add_entries(&store, vec![first(), second()]).await.unwrap();
        rows(&store, "molecules").await
    });
    assert_eq!(stored.len(), 2);
    assert_eq!(stored[0].0, "first");
    assert_eq!(stored[1].0, "second");
    let one: serde_json::Value = serde_json::from_str(&stored[0].1).unwrap();
    let one = one.as_object().unwrap();
    assert!(one.contains_key("atomic_numbers"));
    assert!(one.contains_key("atom_charges"));
    assert!(one.contains_key("bonds"));
    assert!(one.contains_key("conformers"));
    assert!(!one.contains_key("dative_bonds"));
    assert!(!one.contains_key("aromatic_bonds"));
    assert_eq!(one["atomic_numbers"], serde_json::Value::from(vec![1, 2, 3]));
    assert_eq!(one["bonds"]["atom1"], serde_json::Value::from(vec![0, 1]));
    assert_eq!(one["bonds"]["atom2"], serde_json::Value::from(vec![1, 2]));
    assert_eq!(one["bonds"]["order"], serde_json::Value::from(vec![1, 2]));
    assert_eq!(one["conformers"][0].as_array().unwrap().len(), 3);
    let two: serde_json::Value = serde_json::from_str(&stored[1].1).unwrap();
    let two = two.as_object().unwrap();
    assert!(two.contains_key("aromatic_bonds"));
    assert!(two.contains_key("conformers"));
    assert!(!two.contains_key("bonds"));
    assert!(!two.contains_key("dative_bonds"));
    assert!(!two.contains_key("atom_charges"));
    assert_eq!(two["conformers"][0].as_array().unwrap().len(), 2);
    assert_eq!(
        stored[1].1,
        "{\"atomic_numbers\":[4,5],\"aromatic_bonds\":{\"atom1\":[0,1],\"atom2\":[1,2]},\
         \"conformers\":[[[0.0,0.0,0.0],[1.0,1.0,1.0]]]}"
    );
}

#[test]
fn batch_with_a_taken_key_leaves_no_row() {
    let (result, stored) = block_on(async {
        let store = connect("sqlite::memory:", None).await.unwrap();
        add_entries(&store, vec![plain("taken", vec![1])]).await.unwrap();
        let result = add_entries(
            &store,
            vec![plain("a", vec![2]), plain("taken", vec![3]), plain("c", vec![4])],
        )
        .await;
        (result, rows(&store, "molecules").await)
    });
    assert!(matches!(result, Err(Error::Transaction(_))));
    assert_eq!(stored.len(), 1);
    assert_eq!(stored[0].0, "taken");
    assert_eq!(stored[0].1, "{\"atomic_numbers\":[1]}");
}

#[test]
fn batch_with_a_repeated_key_leaves_no_row() {
    let (result, stored) = block_on(async {
        let store = connect("sqlite::memory:", None).await.unwrap();
        let result =
            add_entries(&store, vec![plain("a", vec![1]), plain("b", vec![2]), plain("a", vec![3])])
                .await;
        (result, rows(&store, "molecules").await)
    });
    assert!(matches!(result, Err(Error::Transaction(_))));
    assert_eq!(stored.len(), 0);
}

#[test]
fn batch_after_a_failed_batch() {
    let stored = block_on(async {
        let store = connect("sqlite::memory:", None).await.unwrap();
        add_entries(&store, vec![plain("a", vec![1])]).await.unwrap();
        add_entries(&store, vec![plain("b", vec![2]), plain("a", vec![3])]).await.unwrap_err();
        add_entries(&store, vec![plain("b", vec![4])]).await.unwrap();
        rows(&store, "molecules").await
    });
    assert_eq!(stored.len(), 2);
    assert_eq!(stored[1].0, "b");
    assert_eq!(stored[1].1, "{\"atomic_numbers\":[4]}");
}

#[test]
fn table_is_made_once() {
    let location = "sqlite:file:atomlite_made_once?mode=memory&cache=shared";
    let (before, after) = block_on(async {
        let store = connect(location, Some("structures")).await.unwrap();
        add_entries(&store, vec![first()]).await.unwrap();
        let before = rows(&store, "structures").await;
        let again = connect(location, Some("structures")).await.unwrap();
        let after = rows(&again, "structures").await;
        (before, after)
    });
    assert_eq!(before.len(), 1);
    assert_eq!(after, before);
}

#[test]
fn properties_come_back_as_they_went() {
    let properties = object(vec![
        ("odor", serde_json::Value::from(false)),
        ("count", serde_json::Value::from(0)),
        ("ratio", serde_json::Value::from(0.0)),
        ("name", serde_json::Value::from("")),
        ("nothing", serde_json::Value::Null),
        ("list", serde_json::Value::Array(vec![])),
        (
            "other",
            serde_json::Value::Object(object(vec![
                ("optimized", serde_json::Value::from(true)),
                ("inner", serde_json::Value::Object(serde_json::Map::new())),
            ])),
        ),
    ]);
    let mut entry = plain("bag", vec![1]);
    entry.properties = properties.clone();
    let stored = block_on(async {
        let store = connect("sqlite::memory:", None).await.unwrap();
        add_entries(&store, vec![entry]).await.unwrap();
        rows(&store, "molecules").await
    });
    assert_eq!(stored.len(), 1);
    let reloaded: serde_json::Map<String, serde_json::Value> =
        serde_json::from_str(&stored[0].2).unwrap();
    assert_eq!(reloaded.len(), 7);
    assert_eq!(reloaded["odor"], serde_json::Value::Bool(false));
    assert_eq!(reloaded["count"], serde_json::Value::from(0));
    assert_eq!(reloaded, properties);
}

#[test]
fn empty_batch_changes_nothing() {
    let (result, before, after) = block_on(async {
        let store = connect("sqlite::memory:", None).await.unwrap();
        add_entries(&store, vec![first()]).await.unwrap();
        let before = rows(&store, "molecules").await;
        let result = add_entries(&store, vec![]).await;
        (result, before, rows(&store, "molecules").await)
    });
    assert_eq!(result, Ok(()));
    assert_eq!(before.len(), 1);
    assert_eq!(after, before);
}

#[test]
fn store_that_is_not_there() {
    let result = block_on(connect("sqlite:/nowhere/at/all/data.db", None));
    assert!(matches!(result, Err(Error::Connect(_))));
}

#[test]
fn table_with_a_malformed_name() {
    let result = block_on(connect("sqlite::memory:", Some("not a (name")));
    assert!(matches!(result, Err(Error::Transaction(_))));
}

#[test]
fn table_of_another_name() {
    let stored = block_on(async {
        let store = connect("sqlite::memory:", Some("structures")).await.unwrap();
        add_entries(&store, vec![second()]).await.unwrap();
        rows(&store, "structures").await
    });
    assert_eq!(stored.len(), 1);
    assert_eq!(stored[0].2, "{\"density\":2.0,\"odor\":false,\"other\":{\"optimized\":true}}");
}
