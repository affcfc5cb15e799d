use users_service::harness::{
    bootstrap_sql, create_db_sql, drop_db_sql, fresh_db_url, parse_db_url,
    teardown_sql, terminate_backends_sql, test_db_url,
};

#[test]
fn splitting_a_connection_string() {
    let parts = parse_db_url("postgres://localhost:5432/mydb").unwrap();
    assert_eq!(parts.0, "postgres://localhost:5432/");
    assert_eq!(parts.1, "mydb");

    let parts = parse_db_url("postgres://host/").unwrap();
    assert_eq!(parts.0, "postgres://host/");
    assert_eq!(parts.1, "");

    assert!(parse_db_url("no separator here").is_none());
}

#[test]
fn deriving_a_test_url() {
    assert_eq!(test_db_url("postgres://host/app", "abc123"), "postgres://host/app_abc123");
}

#[test]
fn fresh_urls_carry_a_random_suffix() {
    let base = "postgres://host/app";
    let url = fresh_db_url(base);
    assert_eq!(url.len(), base.len() + 17);
    assert!(url.starts_with(base));
    assert_eq!(url.as_bytes()[base.len()], b'_');
    assert!(url[base.len() + 1..].bytes().all(|b| b.is_ascii_alphanumeric()));
}

#[test]
fn isolation_of_two_runs() {
    let base = "postgres://host/app";
    let url1 = test_db_url(base, "aaaaaaaaaaaaaaaa");
    let url2 = test_db_url(base, "bbbbbbbbbbbbbbbb");
    assert_ne!(url1, url2);
    let name1 = parse_db_url(&url1).unwrap().1;
    let name2 = parse_db_url(&url2).unwrap().1;
    assert_ne!(name1, name2);
    assert_eq!(name1, "app_aaaaaaaaaaaaaaaa");
    assert_eq!(name2, "app_bbbbbbbbbbbbbbbb");
}

#[test]
fn provisioning_statement() {
    assert_eq!(create_db_sql("app_abc123"), "CREATE DATABASE \"app_abc123\"");
}

#[test]
fn teardown_statements_in_order() {
    let statements = teardown_sql("app_abc123");
    assert_eq!(statements.len(), 2);
    assert_eq!(
        statements[0],
        "SELECT pg_terminate_backend(pg_stat_activity.pid)\nFROM pg_stat_activity\nWHERE pg_stat_activity.datname = 'app_abc123'\nAND pid <> pg_backend_pid();"
    );
    assert_eq!(statements[1], "DROP DATABASE \"app_abc123\";");
    assert_eq!(statements[0], terminate_backends_sql("app_abc123"));
    assert_eq!(statements[1], drop_db_sql("app_abc123"));
}

#[test]
fn bootstrap_creates_the_users_table() {
    assert_eq!(bootstrap_sql(), "CREATE TABLE users (id UUID PRIMARY KEY, username TEXT NOT NULL)");
}
