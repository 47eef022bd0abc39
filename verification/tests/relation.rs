use amadeus_postgres::relation::{copy_query, Source, Table};

#[test]
fn table_without_schema_renders_its_quoted_name() {
    let table = Table::new(None, "weather".to_string());
    assert_eq!(table.to_string(), "\"weather\"");
}

#[test]
fn schema_qualified_table_renders_two_segments_joined_by_a_dot() {
    let table = Table::new(Some("public".to_string()), "weather".to_string());
    assert_eq!(table.to_string(), "\"public\".\"weather\"");
}

#[test]
fn quotes_in_schema_and_table_are_doubled() {
    let table = Table::new(Some("pu\"blic".to_string()), "wea\"ther".to_string());
    assert_eq!(table.to_string(), "\"pu\"\"blic\".\"wea\"\"ther\"");
}

#[test]
fn dot_inside_a_name_stays_inside_the_quotes() {
    let table = Table::new(None, "a.b".to_string());
    assert_eq!(table.to_string(), "\"a.b\"");
}

#[test]
fn bare_name_parses_as_a_table_without_schema() {
    let table = Table::from_str("weather").unwrap();
    assert_eq!(table.to_string(), "\"weather\"");
    let table: Table = "weather".parse().unwrap();
    assert_eq!(table.to_string(), "\"weather\"");
    assert_eq!(Table::from_str("").unwrap().to_string(), "\"\"");
}

#[test]
fn text_with_reserved_characters_is_refused() {
    assert!(Table::from_str("a\0b").is_err());
    assert!(Table::from_str("public.weather").is_err());
    assert!(Table::from_str("\"weather\"").is_err());
    assert!("a\0".parse::<Table>().is_err());
    assert!(Table::from_str("wea ther").is_ok());
}

#[test]
fn table_source_renders_as_the_table() {
    let source = Source::Table(Table::new(Some("s".to_string()), "t".to_string()));
    assert_eq!(source.to_string(), "\"s\".\"t\"");
}

#[test]
fn query_source_renders_as_a_derived_relation() {
    let source = Source::Query("select 1".to_string());
    assert_eq!(source.to_string(), "(select 1) _");
    assert_eq!(Source::Query(String::new()).to_string(), "() _");
}

#[test]
fn copy_query_wraps_columns_and_relation() {
    assert_eq!(
        copy_query("\"a\", \"b\"", "\"s\".\"t\""),
        "COPY (SELECT \"a\", \"b\" FROM \"s\".\"t\") TO STDOUT (FORMAT BINARY)"
    );
    assert_eq!(copy_query("", ""), "COPY (SELECT  FROM ) TO STDOUT (FORMAT BINARY)");
}

#[test]
fn table_gives_its_parts_back() {
    let table = Table::new(Some("s".to_string()), "t".to_string());
    assert_eq!(table.schema(), Some("s".to_string()));
    assert_eq!(table.table(), "t");
    assert_eq!(Table::new(None, "t".to_string()).schema(), None);
}
