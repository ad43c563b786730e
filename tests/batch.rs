use rusqlite::Connection;
use sqlite_ledger::commands::execute_batch;
use sqlite_ledger::error::Error;

#[test]
fn execute_batch_test() {
    let connection = Connection::open_in_memory().unwrap();
    let batch_sql = r#"
            CREATE TABLE users (id INTEGER PRIMARY KEY, name TEXT NOT NULL);
            INSERT INTO users (name) VALUES ('Alice');
            "#
    .to_string();
    execute_batch(&connection, batch_sql).unwrap();

    let select_sql = "SELECT * FROM users";
    let mut statement = connection.prepare(select_sql).unwrap();
    let mut rows = statement.query([]).unwrap();

    let first_row = rows.next().unwrap().unwrap();

    assert_eq!(first_row.get::<_, i64>(0).unwrap(), 1);
    assert_eq!(first_row.get::<_, String>(1).unwrap(), "Alice");

    assert!(rows.next().unwrap().is_none());
}

#[test]
fn execute_batch_drop_table_test() {
    let connection = Connection::open_in_memory().unwrap();
    let create_table_sql = r#"
            CREATE TABLE users (id INTEGER PRIMARY KEY, name TEXT NOT NULL);
            INSERT INTO users (name) VALUES ('Alice');
            "#
    .to_string();
    let result = execute_batch(&connection, create_table_sql);
    assert!(result.is_ok());

    let drop_table_sql = "DROP TABLE users;".to_string();
    let result = execute_batch(&connection, drop_table_sql);
    assert!(result.is_ok());
}

#[test]
fn execute_batch_reports_database_error() {
    let connection = Connection::open_in_memory().unwrap();
    let result = execute_batch(&connection, "DROP TABLE missing;".to_string());
    match result {
        Err(Error::Database(text)) => assert!(text.contains("missing")),
        other => panic!("unexpected result: {:?}", other),
    }
}

#[test]
fn error_messages_carry_their_kind() {
    assert_eq!(
        Error::Database("boom".to_string()).message(),
        "Database error: boom"
    );
    assert_eq!(
        Error::Migration("m".to_string()).message(),
        "Migration error: m"
    );
    assert_eq!(
        Error::Marshalling("x".to_string()).message(),
        "Marshalling error: x"
    );
    assert!(Error::Connection().message().starts_with("Please run the open_in_memory"));
}
