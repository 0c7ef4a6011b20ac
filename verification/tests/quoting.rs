use pg_maintenance::configuration::{ExcludedSchemas, Settings};
use pg_maintenance::quoting::{
    qualified_name, quote_identifier, quote_literal, render_literal_list,
};

fn names(items: &[&str]) -> Vec<String> {
    items.iter().map(|s| s.to_string()).collect()
}

#[test]
fn literal_of_a_plain_name_is_single_quoted() {
    assert_eq!(quote_literal("internal"), "'internal'");
}

#[test]
fn literal_of_the_empty_name_is_two_quotes() {
    assert_eq!(quote_literal(""), "''");
}

#[test]
fn literal_doubles_single_quotes() {
    assert_eq!(quote_literal("o'brien"), "'o''brien'");
    assert_eq!(quote_literal("'"), "''''");
    assert_eq!(quote_literal("a') OR ('1'='1"), "'a'') OR (''1''=''1'");
}

#[test]
fn literal_leaves_double_quotes_alone() {
    assert_eq!(quote_literal("a\"b"), "'a\"b'");
}

#[test]
fn identifier_of_a_plain_name_is_double_quoted() {
    assert_eq!(quote_identifier("users"), "\"users\"");
}

#[test]
fn identifier_doubles_double_quotes() {
    assert_eq!(quote_identifier("a\"b"), "\"a\"\"b\"");
    assert_eq!(quote_identifier("\""), "\"\"\"\"");
}

#[test]
fn identifier_leaves_single_quotes_alone() {
    assert_eq!(quote_identifier("o'brien"), "\"o'brien\"");
}

#[test]
fn identifier_keeps_characters_outside_ascii() {
    assert_eq!(quote_identifier("größe"), "\"größe\"");
}

#[test]
fn qualified_name_joins_two_identifiers_with_a_dot() {
    assert_eq!(qualified_name("public", "users"), "\"public\".\"users\"");
}

#[test]
fn qualified_name_of_a_schema_that_looks_like_two_names_stays_one() {
    assert_eq!(qualified_name("a\".\"b", "t"), "\"a\"\".\"\"b\".\"t\"");
    assert_ne!(qualified_name("a\".\"b", "t"), qualified_name("a", "b\".\"t"));
}

#[test]
fn qualified_name_escapes_the_object_too() {
    assert_eq!(
        qualified_name("public", "t\"; DROP TABLE x; --"),
        "\"public\".\"t\"\"; DROP TABLE x; --\""
    );
}

#[test]
fn literal_list_of_nothing_is_empty() {
    assert_eq!(render_literal_list(&names(&[])), "");
}

#[test]
fn literal_list_of_one_name_has_no_separator() {
    assert_eq!(render_literal_list(&names(&["internal"])), "'internal'");
}

#[test]
fn literal_list_separates_by_commas_only() {
    assert_eq!(
        render_literal_list(&names(&["pg_catalog", "information_schema", "internal"])),
        "'pg_catalog','information_schema','internal'"
    );
}

#[test]
fn literal_list_escapes_each_name() {
    assert_eq!(render_literal_list(&names(&["a'b", "c"])), "'a''b','c'");
}

#[test]
fn excluded_schemas_hold_names_and_rendering() {
    let excluded = ExcludedSchemas::new(names(&["internal", "audit"]));
    assert_eq!(excluded.names(), &names(&["internal", "audit"]));
    assert_eq!(excluded.as_sql(), "'internal','audit'");
    assert!(!excluded.is_empty());
    assert!(excluded.contains(&"audit".to_string()));
    assert!(!excluded.contains(&"public".to_string()));
    assert!(!excluded.contains(&"Audit".to_string()));
}

#[test]
fn excluded_schemas_of_nothing_are_empty() {
    let excluded = ExcludedSchemas::new(Vec::new());
    assert!(excluded.is_empty());
    assert_eq!(excluded.as_sql(), "");
    assert!(!excluded.contains(&"public".to_string()));
}

#[test]
fn excluded_schemas_clone_excludes_the_same() {
    let excluded = ExcludedSchemas::new(names(&["a'b", "c"]));
    let copy = excluded.clone();
    assert_eq!(copy.names(), excluded.names());
    assert_eq!(copy.as_sql(), "'a''b','c'");
}

#[test]
fn settings_keep_what_they_were_given() {
    let settings = Settings::builder(
        "postgres://localhost/app".to_string(),
        names(&["internal", "audit"]),
        "/var/log/maintenance".to_string(),
        Some(true),
        Some(false),
        Some(true),
    );
    assert_eq!(settings.database(), "postgres://localhost/app");
    assert_eq!(settings.excluded_schema_list(), &names(&["internal", "audit"]));
    assert_eq!(settings.excluded_schemas(), "'internal','audit'");
    assert_eq!(settings.excluded().as_sql(), "'internal','audit'");
    assert_eq!(settings.log_dir(), "/var/log/maintenance");
    assert!(settings.vacuum());
    assert!(!settings.reindex());
    assert!(settings.refresh_matviews());
}

#[test]
fn settings_flags_that_were_left_out_are_set() {
    let settings = Settings::builder(
        "postgres://localhost/app".to_string(),
        Vec::new(),
        "logs".to_string(),
        None,
        None,
        None,
    );
    assert!(settings.vacuum());
    assert!(settings.reindex());
    assert!(settings.refresh_matviews());
    assert_eq!(settings.excluded_schemas(), "");
}

#[test]
fn settings_flags_can_all_be_cleared() {
    let settings = Settings::builder(
        "postgres://localhost/app".to_string(),
        Vec::new(),
        "logs".to_string(),
        Some(false),
        Some(false),
        Some(false),
    );
    assert!(!settings.vacuum());
    assert!(!settings.reindex());
    assert!(!settings.refresh_matviews());
}
