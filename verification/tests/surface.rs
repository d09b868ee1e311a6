use db_introspect::commands::{
    connection_status, execution_success_message, greet, health_check_statement,
};
use db_introspect::errors::DbError;
use db_introspect::strings::{str_contains_sub, str_eq, str_has_prefix, str_leq};
use db_introspect::tables::{list_tables_from_catalog, select_base_tables, sort_names, TableRow};

fn table(schema: &str, name: &str, kind: &str) -> TableRow {
    TableRow {
        schema: schema.to_string(),
        name: name.to_string(),
        table_type: kind.to_string(),
    }
}

#[test]
fn greeting_embeds_the_name() {
    assert_eq!(greet("World"), "Hello, World! You've been greeted from Rust!");
}

#[test]
fn connection_status_reports_the_server_version() {
    assert_eq!(
        connection_status("PostgreSQL 16.1 on x86_64"),
        "Connected to: PostgreSQL 16.1 on x86_64"
    );
}

#[test]
fn fixed_surface_strings() {
    assert_eq!(execution_success_message(), "Execution successful");
    assert_eq!(health_check_statement(), "SELECT version()");
}

#[test]
fn query_failure_message_carries_the_underlying_text() {
    let e = DbError::QueryFailure("syntax error at or near \"SELEC\"".to_string());
    let m = e.message();
    assert!(m.contains("syntax error"));
    assert_eq!(m, "syntax error at or near \"SELEC\"");
}

#[test]
fn connection_failure_message_carries_the_underlying_text() {
    let e = DbError::ConnectionFailure("connection refused".to_string());
    assert_eq!(e.message(), "connection refused");
}

#[test]
fn empty_catalog_yields_an_empty_listing() {
    let out = list_tables_from_catalog(&vec![]);
    assert!(out.is_empty());
}

#[test]
fn views_and_foreign_schemas_are_excluded() {
    let rows = vec![
        table("public", "orders", "BASE TABLE"),
        table("public", "recent_orders", "VIEW"),
        table("public", "totals", "MATERIALIZED VIEW"),
        table("pg_catalog", "pg_class", "BASE TABLE"),
        table("public", "customers", "BASE TABLE"),
    ];
    let out = list_tables_from_catalog(&rows);
    assert_eq!(out, vec!["customers".to_string(), "orders".to_string()]);
}

#[test]
fn listing_is_sorted_lexicographically() {
    let rows = vec![
        table("public", "zebra", "BASE TABLE"),
        table("public", "apple", "BASE TABLE"),
        table("public", "mango", "BASE TABLE"),
    ];
    let out = list_tables_from_catalog(&rows);
    assert_eq!(
        out,
        vec!["apple".to_string(), "mango".to_string(), "zebra".to_string()]
    );
}

#[test]
fn selection_keeps_catalog_order_before_sorting() {
    let rows = vec![
        table("public", "zebra", "BASE TABLE"),
        table("public", "apple", "BASE TABLE"),
    ];
    let out = select_base_tables(&rows);
    assert_eq!(out, vec!["zebra".to_string(), "apple".to_string()]);
}

#[test]
fn sorting_keeps_duplicates() {
    let out = sort_names(vec!["b".to_string(), "a".to_string(), "b".to_string()]);
    assert_eq!(out, vec!["a".to_string(), "b".to_string(), "b".to_string()]);
}

#[test]
fn string_predicates() {
    assert!(str_eq("abc", "abc"));
    assert!(!str_eq("abc", "abd"));
    assert!(!str_eq("abc", "ab"));
    assert!(str_leq("apple", "banana"));
    assert!(!str_leq("banana", "apple"));
    assert!(str_leq("app", "apple"));
    assert!(str_leq("same", "same"));
    assert!(str_has_prefix("nextval('seq')", "nextval"));
    assert!(!str_has_prefix("next", "nextval"));
    assert!(str_contains_sub("has auto_increment inside", "auto_increment"));
    assert!(!str_contains_sub("nothing here", "auto_increment"));
    assert!(str_contains_sub("anything", ""));
}
