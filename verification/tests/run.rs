use pg_maintenance::configuration::{ExcludedSchemas, Settings};
use pg_maintenance::db::{
    refresh_matviews, reindex_indexes, vacuum_tables, Action, Event, Run, Step,
};
use pg_maintenance::row::CatalogRow;
use pg_maintenance::target::TargetKind;

const TABLES: &str = "SELECT table_schema::text, table_name::text FROM information_schema.tables \
                      WHERE table_type = 'BASE TABLE' AND table_schema NOT IN ('internal') \
                      ORDER BY table_schema, table_name;";
const INDEXES: &str = "SELECT schemaname::text, indexname::text FROM pg_indexes \
                       WHERE schemaname NOT IN ('internal') ORDER BY schemaname, indexname;";
const MATVIEWS: &str = "SELECT schemaname::text, matviewname::text FROM pg_matviews \
                        ORDER BY schemaname, matviewname;";

fn schemas(items: &[&str]) -> ExcludedSchemas {
    ExcludedSchemas::new(items.iter().map(|s| s.to_string()).collect())
}

fn found(items: &[(&str, &str)]) -> Vec<CatalogRow> {
    items
        .iter()
        .map(|(schema, name)| CatalogRow { schema: schema.to_string(), name: name.to_string() })
        .collect()
}

fn settings_with(vacuum: Option<bool>, reindex: Option<bool>, refresh: Option<bool>) -> Settings {
    Settings::builder(
        "postgres://localhost/app".to_string(),
        vec!["internal".to_string()],
        "logs".to_string(),
        vacuum,
        reindex,
        refresh,
    )
}

fn query_of(action: &Action) -> &str {
    match action {
        Action::Query(sql) => sql,
        _ => panic!("expected a catalog query"),
    }
}

fn statement_of(action: &Action) -> &str {
    match action {
        Action::Execute(sql) => sql,
        _ => panic!("expected a maintenance statement"),
    }
}

/// Drives a run to its end against a database that answers each catalog query
/// with the rows given for it and fails the statements listed in `failing`.
/// Returns the statements that were run and the errors that were logged.
fn drive(
    started: (Run, Action),
    answers: &[(&str, Option<Vec<(&str, &str)>>)],
    failing: &[&str],
) -> (Vec<String>, Vec<String>) {
    let (mut run, mut action) = started;
    let mut executed = Vec::new();
    let mut logged = Vec::new();
    let mut steps = 0;
    loop {
        steps += 1;
        assert!(steps < 1000, "the run does not end");
        let event = match &action {
            Action::Finish => {
                assert!(run.is_finished());
                return (executed, logged);
            }
            Action::Query(sql) => {
                let answer = answers
                    .iter()
                    .find(|(query, _)| query == sql)
                    .unwrap_or_else(|| panic!("unexpected query: {}", sql));
                match &answer.1 {
                    Some(rows) => Event::Rows(found(rows)),
                    None => Event::QueryFailed(format!("query failed: {}", sql)),
                }
            }
            Action::Execute(sql) => {
                executed.push(sql.clone());
                if failing.contains(&sql.as_str()) {
                    Event::Failed(format!("failed: {}", sql))
                } else {
                    Event::Succeeded
                }
            }
        };
        assert!(!run.is_finished());
        let (next, Step { action: next_action, error }) = run.step(event);
        if let Some(message) = error {
            logged.push(message);
        }
        run = next;
        action = next_action;
    }
}

#[test]
fn vacuum_pass_starts_with_the_table_query() {
    let (run, action) = vacuum_tables(&schemas(&["internal"]));
    assert!(!run.is_finished());
    assert_eq!(query_of(&action), TABLES);
}

#[test]
fn reindex_pass_starts_with_the_index_query() {
    let (run, action) = reindex_indexes(&schemas(&["internal"]));
    assert!(!run.is_finished());
    assert_eq!(query_of(&action), INDEXES);
}

#[test]
fn refresh_pass_starts_with_the_matview_query() {
    let (run, action) = refresh_matviews();
    assert!(!run.is_finished());
    assert_eq!(query_of(&action), MATVIEWS);
}

#[test]
fn table_phase_vacuums_exactly_the_public_tables() {
    let rows = vec![
        ("public", "users"),
        ("internal", "jobs"),
        ("public", "accounts"),
        ("internal", "audit"),
    ];
    let (executed, logged) =
        drive(vacuum_tables(&schemas(&["internal"])), &[(TABLES, Some(rows))], &[]);
    assert_eq!(
        executed,
        vec![
            "VACUUM ANALYZE \"public\".\"accounts\";".to_string(),
            "VACUUM ANALYZE \"public\".\"users\";".to_string(),
        ]
    );
    assert!(executed.iter().all(|sql| !sql.contains("internal")));
    assert!(logged.is_empty());
}

#[test]
fn concurrently_dropped_index_is_logged_once_and_the_rest_are_rebuilt() {
    let rows = vec![("public", "a_idx"), ("public", "b_idx"), ("public", "c_idx")];
    let dropped = "REINDEX INDEX \"public\".\"b_idx\";";
    let (executed, logged) =
        drive(reindex_indexes(&schemas(&["internal"])), &[(INDEXES, Some(rows))], &[dropped]);
    assert_eq!(
        executed,
        vec![
            "REINDEX INDEX \"public\".\"a_idx\";".to_string(),
            dropped.to_string(),
            "REINDEX INDEX \"public\".\"c_idx\";".to_string(),
        ]
    );
    assert_eq!(logged, vec![format!("failed: {}", dropped)]);
}

#[test]
fn applier_attempts_every_object_whichever_one_fails() {
    let rows = vec![("s", "t0"), ("s", "t1"), ("s", "t2"), ("s", "t3"), ("s", "t4")];
    for k in 0..rows.len() {
        let failing = format!("VACUUM ANALYZE \"s\".\"t{}\";", k);
        let (executed, logged) = drive(
            vacuum_tables(&schemas(&["internal"])),
            &[(TABLES, Some(rows.clone()))],
            &[failing.as_str()],
        );
        assert_eq!(executed.len(), rows.len());
        for (i, sql) in executed.iter().enumerate() {
            assert_eq!(sql, &format!("VACUUM ANALYZE \"s\".\"t{}\";", i));
        }
        assert_eq!(logged, vec![format!("failed: {}", failing)]);
    }
}

#[test]
fn applier_goes_on_when_every_statement_fails() {
    let rows = vec![("s", "a"), ("s", "b")];
    let all = ["REFRESH MATERIALIZED VIEW \"s\".\"a\";", "REFRESH MATERIALIZED VIEW \"s\".\"b\";"];
    let (executed, logged) = drive(refresh_matviews(), &[(MATVIEWS, Some(rows))], &all);
    assert_eq!(executed, vec![all[0].to_string(), all[1].to_string()]);
    assert_eq!(logged, vec![format!("failed: {}", all[0]), format!("failed: {}", all[1])]);
}

#[test]
fn refresh_pass_covers_every_schema() {
    let rows = vec![("public", "totals"), ("internal", "rollup")];
    let (executed, logged) = drive(refresh_matviews(), &[(MATVIEWS, Some(rows))], &[]);
    assert_eq!(
        executed,
        vec![
            "REFRESH MATERIALIZED VIEW \"internal\".\"rollup\";".to_string(),
            "REFRESH MATERIALIZED VIEW \"public\".\"totals\";".to_string(),
        ]
    );
    assert!(logged.is_empty());
}

#[test]
fn pass_without_objects_finishes_at_once() {
    let (run, _) = vacuum_tables(&schemas(&[]));
    let (run, step) = run.step(Event::Rows(Vec::new()));
    assert!(run.is_finished());
    assert!(matches!(step.action, Action::Finish));
    assert!(step.error.is_none());
}

#[test]
fn failed_catalog_query_ends_the_pass_and_is_logged() {
    let (run, _) = vacuum_tables(&schemas(&[]));
    let (run, step) = run.step(Event::QueryFailed("connection lost".to_string()));
    assert!(run.is_finished());
    assert!(matches!(step.action, Action::Finish));
    assert_eq!(step.error, Some("connection lost".to_string()));
}

#[test]
fn full_run_works_through_tables_indexes_and_matviews() {
    let (executed, logged) = drive(
        Run::new(&settings_with(None, None, None)),
        &[
            (TABLES, Some(vec![("public", "users")])),
            (INDEXES, Some(vec![("public", "users_pkey")])),
            (MATVIEWS, Some(vec![("internal", "rollup")])),
        ],
        &[],
    );
    assert_eq!(
        executed,
        vec![
            "VACUUM ANALYZE \"public\".\"users\";".to_string(),
            "REINDEX INDEX \"public\".\"users_pkey\";".to_string(),
            "REFRESH MATERIALIZED VIEW \"internal\".\"rollup\";".to_string(),
        ]
    );
    assert!(logged.is_empty());
}

#[test]
fn failed_listing_of_one_kind_does_not_stop_the_kinds_after_it() {
    let (executed, logged) = drive(
        Run::new(&settings_with(None, None, None)),
        &[
            (TABLES, None),
            (INDEXES, Some(vec![("public", "users_pkey")])),
            (MATVIEWS, Some(vec![("public", "totals")])),
        ],
        &[],
    );
    assert_eq!(
        executed,
        vec![
            "REINDEX INDEX \"public\".\"users_pkey\";".to_string(),
            "REFRESH MATERIALIZED VIEW \"public\".\"totals\";".to_string(),
        ]
    );
    assert_eq!(logged, vec![format!("query failed: {}", TABLES)]);
}

#[test]
fn failed_statement_of_one_kind_does_not_stop_the_kinds_after_it() {
    let (executed, logged) = drive(
        Run::new(&settings_with(None, None, None)),
        &[
            (TABLES, Some(vec![("public", "users")])),
            (INDEXES, Some(vec![])),
            (MATVIEWS, Some(vec![("public", "totals")])),
        ],
        &["VACUUM ANALYZE \"public\".\"users\";"],
    );
    assert_eq!(
        executed,
        vec![
            "VACUUM ANALYZE \"public\".\"users\";".to_string(),
            "REFRESH MATERIALIZED VIEW \"public\".\"totals\";".to_string(),
        ]
    );
    assert_eq!(logged, vec!["failed: VACUUM ANALYZE \"public\".\"users\";".to_string()]);
}

#[test]
fn run_skips_the_operations_that_are_switched_off() {
    let (run, action) = Run::new(&settings_with(Some(false), Some(true), Some(false)));
    assert_eq!(query_of(&action), INDEXES);
    let (run, step) = run.step(Event::Rows(Vec::new()));
    assert!(run.is_finished());
    assert!(matches!(step.action, Action::Finish));
}

#[test]
fn run_with_everything_switched_off_is_finished_from_the_start() {
    let (run, action) = Run::new(&settings_with(Some(false), Some(false), Some(false)));
    assert!(run.is_finished());
    assert!(matches!(action, Action::Finish));
}

#[test]
fn run_over_a_plan_follows_its_order() {
    let plan = vec![TargetKind::MaterializedView, TargetKind::Table];
    let (run, action) = Run::start(plan, schemas(&["internal"]));
    assert_eq!(query_of(&action), MATVIEWS);
    let (run, step) = run.step(Event::Rows(Vec::new()));
    assert_eq!(query_of(&step.action), TABLES);
    let (run, step) = run.step(Event::Rows(Vec::new()));
    assert!(run.is_finished());
    assert!(matches!(step.action, Action::Finish));
}

#[test]
fn event_that_answers_nothing_leaves_the_run_where_it_stands() {
    let (run, _) = vacuum_tables(&schemas(&["internal"]));
    let (run, step) = run.step(Event::Succeeded);
    assert_eq!(query_of(&step.action), TABLES);
    assert!(step.error.is_none());
    let (run, step) = run.step(Event::Failed("stray".to_string()));
    assert_eq!(query_of(&step.action), TABLES);
    assert_eq!(step.error, Some("stray".to_string()));

    let (run, step) = run.step(Event::Rows(found(&[("s", "a"), ("s", "b")])));
    assert_eq!(statement_of(&step.action), "VACUUM ANALYZE \"s\".\"a\";");
    let (run, step) = run.step(Event::Rows(found(&[("s", "z")])));
    assert_eq!(statement_of(&step.action), "VACUUM ANALYZE \"s\".\"a\";");
    assert!(step.error.is_none());
    let (run, step) = run.step(Event::QueryFailed("stray".to_string()));
    assert_eq!(statement_of(&step.action), "VACUUM ANALYZE \"s\".\"a\";");
    assert_eq!(step.error, Some("stray".to_string()));
    let (run, step) = run.step(Event::Succeeded);
    assert_eq!(statement_of(&step.action), "VACUUM ANALYZE \"s\".\"b\";");
    let (run, step) = run.step(Event::Succeeded);
    assert!(run.is_finished());
    assert!(matches!(step.action, Action::Finish));
}

#[test]
fn finished_run_stays_finished() {
    let (run, _) = refresh_matviews();
    let (run, _) = run.step(Event::Rows(Vec::new()));
    let (run, step) = run.step(Event::Succeeded);
    assert!(run.is_finished());
    assert!(matches!(step.action, Action::Finish));
    assert!(step.error.is_none());
    let (run, step) = run.step(Event::Failed("late".to_string()));
    assert!(run.is_finished());
    assert!(matches!(step.action, Action::Finish));
    assert_eq!(step.error, Some("late".to_string()));
}
