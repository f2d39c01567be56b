use refinery_core::{AppliedMigration, Error, Migration, MigrationPrefix, Runner, Target};
use std::hash::{Hash, Hasher};

const NOW: &str = "2024-05-01T10:00:00+02:00";

fn fixture() -> Vec<Migration> {
    vec![
        Migration::from_filename(
            "V1__initial",
            "CREATE TABLE persons (id int, name varchar(255), city varchar(255));",
        )
        .unwrap(),
        Migration::from_filename(
            "V2__add_cars_table",
            "CREATE TABLE cars (id int, name varchar(255));",
        )
        .unwrap(),
        Migration::from_filename(
            "V3__add_brand_to_cars_table",
            "ALTER TABLE cars ADD brand varchar(255);",
        )
        .unwrap(),
        Migration::from_filename(
            "V4__add_year_to_motos_table",
            "CREATE TABLE motos (id int, name varchar(255), year int);",
        )
        .unwrap(),
    ]
}

fn applied_fixture() -> Vec<AppliedMigration> {
    let mut history = Vec::new();
    Runner::new(&fixture())
        .run(&mut history, None, &NOW.to_string())
        .unwrap();
    history
}

fn versions(ms: &[Migration]) -> Vec<usize> {
    ms.iter().map(|m| m.version).collect()
}

#[test]
fn mod_updates_schema_history() {
    let history = applied_fixture();
    let current = history.iter().map(|row| row.version).max().unwrap();
    assert_eq!(4, current);

    let now = chrono::Local::now();
    let mut history = Vec::new();
    Runner::new(&fixture())
        .run(&mut history, None, &now.to_rfc3339())
        .unwrap();
    let applied_on = chrono::DateTime::parse_from_rfc3339(&history[3].applied_on)
        .unwrap()
        .with_timezone(&chrono::Local);
    assert_eq!(now.date_naive(), applied_on.date_naive());
}

#[test]
fn aborts_on_missing_migration_on_filesystem() {
    let mut history = applied_fixture();
    let migration = Migration::from_filename(
        "V4__add_year_field_to_cars",
        &"ALTER TABLE cars ADD year INTEGER;",
    )
    .unwrap();
    let mut runner = Runner::new(&vec![migration]);
    runner.abort_divergent = true;
    runner.abort_missing = true;
    runner.grouped = false;
    let err = runner
        .run(&mut history, None, &NOW.to_string())
        .unwrap_err();

    match err {
        Error::MissingVersion(missing) => {
            assert_eq!(1, missing.version);
            assert_eq!("initial", missing.name);
        }
        _ => panic!("failed test"),
    }
}

#[test]
fn aborts_on_divergent_migration() {
    let mut history = applied_fixture();
    let migration = Migration::from_filename(
        "V2__add_year_field_to_cars",
        &"ALTER TABLE cars ADD year INTEGER;",
    )
    .unwrap();
    let mut runner = Runner::new(&vec![migration.clone()]);
    runner.abort_divergent = true;
    runner.abort_missing = false;
    runner.grouped = false;
    let err = runner
        .run(&mut history, None, &NOW.to_string())
        .unwrap_err();

    match err {
        Error::DivergentVersion(applied, divergent) => {
            assert_eq!(migration, divergent);
            assert_eq!(2, applied.version);
            assert_eq!("add_cars_table", applied.name);
        }
        _ => panic!("failed test"),
    }
}

#[test]
fn parses_versioned_file_name() {
    let m = Migration::from_filename("V12__add_index.sql", "CREATE INDEX i ON t (c);").unwrap();
    assert_eq!(12, m.version);
    assert_eq!("add_index", m.name);
    assert_eq!("CREATE INDEX i ON t (c);", m.sql);
    assert!(matches!(m.prefix, MigrationPrefix::Versioned));
}

#[test]
fn name_takes_underscores_after_separator() {
    let m = Migration::from_filename("V3___x_y", "").unwrap();
    assert_eq!(3, m.version);
    assert_eq!("_x_y", m.name);
}

#[test]
fn rejects_names_without_pattern() {
    for bad in ["", "V", "V__x", "X1__x", "v1__x", "V1_x", "V1__", "V1.__x", "1__x", "V1__-x"] {
        assert!(
            matches!(Migration::from_filename(bad, "").unwrap_err(), Error::InvalidName),
            "{}",
            bad
        );
    }
}

#[test]
fn rejects_fractional_and_huge_versions() {
    assert!(matches!(
        Migration::from_filename("V1.2__x", "").unwrap_err(),
        Error::InvalidVersion
    ));
    assert!(matches!(
        Migration::from_filename("V99999999999999999999999__x", "").unwrap_err(),
        Error::InvalidVersion
    ));
    let max = format!("V{}__x", usize::MAX);
    assert_eq!(usize::MAX, Migration::from_filename(&max, "").unwrap().version);
}

#[test]
fn checksum_is_siphash13_of_name_version_sql() {
    let m = Migration::from_filename("V7__users", "CREATE TABLE users (id int);").unwrap();
    let mut hasher = siphasher::sip::SipHasher13::new();
    "users".to_string().hash(&mut hasher);
    7usize.hash(&mut hasher);
    "CREATE TABLE users (id int);".to_string().hash(&mut hasher);
    let expected = hasher.finish();
    assert_eq!(expected, m.checksum());
    assert_eq!(expected.to_string(), m.checksum_string());
    let again = Migration::from_filename("V7__users", "CREATE TABLE users (id int);").unwrap();
    assert_eq!(m.checksum(), again.checksum());
    let other = Migration::from_filename("V8__users", "CREATE TABLE users (id int);").unwrap();
    assert_ne!(m.checksum(), other.checksum());
}

#[test]
fn empty_history_pends_all_ascending() {
    let mut known = fixture();
    known.reverse();
    let pending = Runner::new(&known).pending(&Vec::new()).unwrap();
    assert_eq!(vec![1, 2, 3, 4], versions(&pending));
}

#[test]
fn applies_only_newer_migrations() {
    let known: Vec<Migration> = fixture().into_iter().take(3).collect();
    let mut history = Vec::new();
    Runner::new(&known[..2].to_vec())
        .run(&mut history, None, &NOW.to_string())
        .unwrap();
    assert_eq!(2, history.len());

    let applied = Runner::new(&known)
        .run(&mut history, None, &NOW.to_string())
        .unwrap();
    assert_eq!(vec![3], versions(&applied));
    assert_eq!(vec![1, 2, 3], history.iter().map(|r| r.version).collect::<Vec<_>>());
    assert_eq!(known[2].checksum().to_string(), history[2].checksum);
    assert_eq!(NOW, history[2].applied_on);
}

#[test]
fn matching_history_never_diverges_or_misses() {
    let history = applied_fixture();
    for (d, m) in [(false, false), (true, false), (false, true), (true, true)] {
        let mut runner = Runner::new(&fixture());
        runner.abort_divergent = d;
        runner.abort_missing = m;
        assert!(runner.pending(&history).unwrap().is_empty());
    }
}

#[test]
fn divergent_allowed_still_applies_later() {
    let mut history = Vec::new();
    Runner::new(&fixture()[..2].to_vec())
        .run(&mut history, None, &NOW.to_string())
        .unwrap();
    let mut known = fixture();
    known[1] = Migration::from_filename("V2__add_cars_table", "CREATE TABLE cars (id int);").unwrap();
    let mut runner = Runner::new(&known);
    let err = runner.run(&mut history.clone(), None, &NOW.to_string()).unwrap_err();
    match err {
        Error::DivergentVersion(applied, divergent) => {
            assert_eq!(2, applied.version);
            assert_eq!(known[1], divergent);
        }
        _ => panic!("expected divergence"),
    }
    runner.abort_divergent = false;
    let applied = runner.run(&mut history, None, &NOW.to_string()).unwrap();
    assert_eq!(vec![3, 4], versions(&applied));
}

#[test]
fn missing_aborts_before_any_statement() {
    let mut history = applied_fixture();
    let before = history.clone();
    let known: Vec<Migration> = fixture().into_iter().skip(1).collect();
    let err = Runner::new(&known)
        .run(&mut history, None, &NOW.to_string())
        .unwrap_err();
    match err {
        Error::MissingVersion(missing) => {
            assert_eq!(1, missing.version);
            assert_eq!("initial", missing.name);
        }
        _ => panic!("expected missing"),
    }
    assert_eq!(before, history);

    let mut runner = Runner::new(&known);
    runner.abort_missing = false;
    assert!(runner.pending(&history).unwrap().is_empty());
}

#[test]
fn grouped_failure_writes_no_rows() {
    let mut runner = Runner::new(&fixture()[..3].to_vec());
    runner.grouped = true;
    let mut history = Vec::new();
    let err = runner.run(&mut history, Some(2), &NOW.to_string()).unwrap_err();
    match err {
        Error::Connection(m) => assert_eq!(2, m.version),
        _ => panic!("expected store failure"),
    }
    assert!(history.is_empty());
}

#[test]
fn ungrouped_failure_keeps_earlier_rows() {
    let runner = Runner::new(&fixture()[..3].to_vec());
    let mut history = Vec::new();
    let err = runner.run(&mut history, Some(2), &NOW.to_string()).unwrap_err();
    match err {
        Error::Connection(m) => assert_eq!(2, m.version),
        _ => panic!("expected store failure"),
    }
    assert_eq!(1, history.len());
    assert_eq!(1, history[0].version);
    assert_eq!("initial", history[0].name);
}

#[test]
fn recorded_checksum_round_trips() {
    let history = applied_fixture();
    for (row, m) in history.iter().zip(fixture()) {
        let again = Migration::from_filename(&format!("V{}__{}", row.version, row.name), &m.sql).unwrap();
        assert_eq!(row.checksum, again.checksum_string());
    }
}

#[test]
fn duplicate_versions_fail_first() {
    let mut known = fixture();
    known.push(Migration::from_filename("V3__again", "SELECT 1;").unwrap());
    let mut history = vec![AppliedMigration {
        name: "gone".to_string(),
        version: 9,
        applied_on: NOW.to_string(),
        checksum: "1".to_string(),
    }];
    let err = Runner::new(&known).run(&mut history, None, &NOW.to_string()).unwrap_err();
    assert!(matches!(err, Error::DuplicateVersion(3)));
    assert_eq!(1, history.len());
}

#[test]
fn target_version_bounds_pending() {
    let mut runner = Runner::new(&fixture());
    runner.target = Target::Version(2);
    let mut history = Vec::new();
    let applied = runner.run(&mut history, None, &NOW.to_string()).unwrap();
    assert_eq!(vec![1, 2], versions(&applied));
    runner.target = Target::Latest;
    assert_eq!(vec![3, 4], versions(&runner.pending(&history).unwrap()));
}

#[test]
fn commit_counts_executed_migrations() {
    let pending = fixture();
    let mut history = Vec::new();
    let r = refinery_core::runner::commit(&mut history, &pending, 4, true, &NOW.to_string()).unwrap();
    assert_eq!(vec![1, 2, 3, 4], versions(&r));
    assert_eq!(4, history.len());
}

#[test]
fn migrations_order_by_version() {
    let ms = fixture();
    assert!(ms[0] < ms[1]);
    assert!(ms[3] > ms[2]);
    let same_version = Migration::from_filename("V2__other", "SELECT 2;").unwrap();
    assert_eq!(Some(std::cmp::Ordering::Equal), ms[1].partial_cmp(&same_version));
    assert_ne!(ms[1], same_version);
}

#[test]
fn applied_rows_compare_by_identity() {
    let history = applied_fixture();
    let mut other = history[0].clone();
    other.applied_on = "2000-01-01T00:00:00+00:00".to_string();
    assert_eq!(history[0], other);
    other.checksum = "0".to_string();
    assert_ne!(history[0], other);
}

#[test]
fn names_take_unicode_word_characters() {
    let m = Migration::from_filename("V1__é", "").unwrap();
    assert_eq!("é", m.name);
    let m = Migration::from_filename("V2__café-latte", "").unwrap();
    assert_eq!(2, m.version);
    assert_eq!("café", m.name);
}

#[test]
fn non_ascii_version_digits_are_invalid_versions() {
    assert!(matches!(
        Migration::from_filename("V١__x", "").unwrap_err(),
        Error::InvalidVersion
    ));
    assert!(matches!(
        Migration::from_filename("V1.١__x", "").unwrap_err(),
        Error::InvalidVersion
    ));
    assert!(matches!(
        Migration::from_filename("Vx__x", "").unwrap_err(),
        Error::InvalidName
    ));
}

#[test]
fn version_zero_is_pending_on_first_run() {
    let known = vec![
        Migration::from_filename("V1__second", "SELECT 1;").unwrap(),
        Migration::from_filename("V0__first", "SELECT 0;").unwrap(),
    ];
    let mut history = Vec::new();
    let applied = Runner::new(&known)
        .run(&mut history, None, &NOW.to_string())
        .unwrap();
    assert_eq!(vec![0, 1], versions(&applied));
    assert!(Runner::new(&known).pending(&history).unwrap().is_empty());
}
