use embedded_migrations::errors::{BuildError, RunError, ScanError};
use embedded_migrations::registry::{
    build, build_entry, sort_entries, DirectoryEntry, UpFile,
};
use embedded_migrations::runner::{FailingConnection, InMemoryConnection, Migration};
use embedded_migrations::scan::{scan, DirListing, FsEntry};
use embedded_migrations::version::version_of;

fn dir(name: &str) -> FsEntry {
    FsEntry { name: name.to_string(), is_dir: true }
}

fn file(name: &str) -> FsEntry {
    FsEntry { name: name.to_string(), is_dir: false }
}

fn entry(name: &str, sql: &str) -> DirectoryEntry {
    DirectoryEntry { name: name.to_string(), up_file: UpFile::Content(sql.to_string()) }
}

#[test]
fn version_takes_segment_before_underscore() {
    assert_eq!(version_of("20230101_init").unwrap(), "20230101");
}

#[test]
fn version_strips_dashes() {
    assert_eq!(version_of("2023-01-01_create_users").unwrap(), "20230101");
}

#[test]
fn version_of_name_without_separator_is_whole_name() {
    assert_eq!(version_of("20230101").unwrap(), "20230101");
}

#[test]
fn version_rejects_empty_leading_segment() {
    assert_eq!(
        version_of("_init"),
        Err(ScanError::InvalidVersion("_init".to_string()))
    );
    assert_eq!(version_of(""), Err(ScanError::InvalidVersion(String::new())));
    assert_eq!(version_of("-_x"), Err(ScanError::InvalidVersion("-_x".to_string())));
}

#[test]
fn scan_missing_root_fails() {
    assert_eq!(scan(&DirListing::NotFound), Err(ScanError::DirectoryNotFound));
}

#[test]
fn scan_unreadable_root_fails() {
    assert_eq!(
        scan(&DirListing::Unreadable("permission denied".to_string())),
        Err(ScanError::IoError("permission denied".to_string()))
    );
}

#[test]
fn scan_keeps_only_visible_directories() {
    let listing = DirListing::Entries(vec![
        file("README.md"),
        dir("20230101_init"),
        dir(".git"),
        file("20230099_not_a_dir"),
        dir("20230102_add_users"),
    ]);
    let names = scan(&listing).unwrap();
    assert_eq!(names, vec!["20230101_init".to_string(), "20230102_add_users".to_string()]);
}

#[test]
fn scan_of_empty_root_succeeds_with_nothing() {
    let names = scan(&DirListing::Entries(Vec::new())).unwrap();
    assert_eq!(names.len(), 0);
}

#[test]
fn scan_reports_first_unversioned_directory() {
    let listing = DirListing::Entries(vec![
        dir("20230101_init"),
        dir("_bad"),
        dir("_worse"),
    ]);
    assert_eq!(
        scan(&listing),
        Err(ScanError::InvalidVersion("_bad".to_string()))
    );
}

#[test]
fn sort_entries_orders_by_name_bytes() {
    let sorted = sort_entries(vec![
        entry("20230103_add_index", "c"),
        entry("20230101_init", "a"),
        entry("20230102_add_users", "b"),
    ]);
    let names: Vec<&str> = sorted.iter().map(|e| e.name.as_str()).collect();
    assert_eq!(names, vec!["20230101_init", "20230102_add_users", "20230103_add_index"]);
}

#[test]
fn build_entry_captures_version_and_sql() {
    let m = build_entry(&entry("20230101_init", "CREATE TABLE users (id INTEGER);")).unwrap();
    assert_eq!(m.version, "20230101");
    assert_eq!(m.up_sql, "CREATE TABLE users (id INTEGER);");
}

#[test]
fn build_entry_missing_up_file_fails() {
    let e = DirectoryEntry { name: "20230101_init".to_string(), up_file: UpFile::Missing };
    assert_eq!(
        build_entry(&e),
        Err(BuildError::MissingUpFile("20230101_init".to_string()))
    );
}

#[test]
fn build_orders_three_migrations_by_version() {
    // Handed in out of order on purpose: the registry must not depend on
    // listing order.
    let r = build(vec![
        entry("20230103_add_index", "CREATE INDEX users_name ON users (name);"),
        entry("20230101_init", "CREATE TABLE users (id INTEGER);"),
        entry("20230102_add_users", "INSERT INTO users VALUES (1);"),
    ])
    .unwrap();
    assert_eq!(r.migrations.len(), 3);
    assert_eq!(r.migrations[0].version, "20230101");
    assert_eq!(r.migrations[1].version, "20230102");
    assert_eq!(r.migrations[2].version, "20230103");
}

#[test]
fn ordering_follows_names_where_the_convention_is_broken() {
    // `1` sorts before `12` as a version, but `1_b` after `12_a` as a name:
    // such names break the naming convention, and the registry then follows
    // name order, as the builder's contract says.
    let r = build(vec![entry("1_b", "B"), entry("12_a", "A")]).unwrap();
    assert_eq!(r.migrations[0].version, "12");
    assert_eq!(r.migrations[1].version, "1");
}

#[test]
fn build_missing_up_file_fails_whole_build() {
    let r = build(vec![
        entry("20230101_init", "CREATE TABLE users (id INTEGER);"),
        DirectoryEntry {
            name: "20230102_add_users".to_string(),
            up_file: UpFile::Missing,
        },
    ]);
    assert_eq!(r, Err(BuildError::MissingUpFile("20230102_add_users".to_string())));
}

#[test]
fn build_unreadable_up_file_fails_whole_build() {
    let r = build(vec![DirectoryEntry {
        name: "20230101_init".to_string(),
        up_file: UpFile::Unreadable("interrupted".to_string()),
    }]);
    assert_eq!(r, Err(BuildError::IoError("interrupted".to_string())));
}

#[test]
fn build_unversioned_directory_fails_whole_build() {
    let r = build(vec![entry("_init", "SELECT 1;")]);
    assert_eq!(r, Err(BuildError::InvalidVersion("_init".to_string())));
}

#[test]
fn build_of_nothing_is_an_empty_registry() {
    let names = scan(&DirListing::Entries(Vec::new())).unwrap();
    assert_eq!(names.len(), 0);
    let r = build(Vec::new()).unwrap();
    assert_eq!(r.migrations.len(), 0);
}

#[test]
fn up_sql_round_trips_byte_for_byte() {
    let text = "-- header\nCREATE TABLE t (x);\n\n\t SELECT '\u{e9}';\n";
    let r = build(vec![entry("20230101_init", text)]).unwrap();
    assert_eq!(r.migrations[0].up_sql.as_bytes(), text.as_bytes());
}

#[test]
fn run_applies_all_migrations_in_version_order() {
    let r = build(vec![
        entry("20230102_add_users", "INSERT INTO users VALUES (1);"),
        entry("20230103_add_index", "CREATE INDEX users_name ON users (name);"),
        entry("20230101_init", "CREATE TABLE users (id INTEGER);"),
    ])
    .unwrap();
    let mut conn = InMemoryConnection::new();
    assert_eq!(r.run(&mut conn), Ok(()));
    assert_eq!(
        conn.executed,
        vec![
            "CREATE TABLE users (id INTEGER);".to_string(),
            "INSERT INTO users VALUES (1);".to_string(),
            "CREATE INDEX users_name ON users (name);".to_string(),
        ]
    );
}

#[test]
fn run_with_output_reports_each_version() {
    let r = build(vec![
        entry("20230101_init", "CREATE TABLE users (id INTEGER);"),
        entry("20230102_add_users", "INSERT INTO users VALUES (1);"),
    ])
    .unwrap();
    let mut conn = InMemoryConnection::new();
    let mut out: Vec<String> = Vec::new();
    assert_eq!(r.run_with_output(&mut conn, &mut out), Ok(()));
    assert_eq!(
        out,
        vec![
            "Running migration 20230101".to_string(),
            "Running migration 20230102".to_string(),
        ]
    );
}

#[test]
fn run_failure_names_the_failing_version() {
    let r = build(vec![entry("20230101_init", "CREATE TABLE users (id INTEGER);")]).unwrap();
    let mut conn = FailingConnection { message: "no such table".to_string() };
    assert_eq!(
        r.run(&mut conn),
        Err(RunError::DatabaseError {
            version: "20230101".to_string(),
            message: "no such table".to_string(),
        })
    );
}

#[test]
fn revert_always_signals_failure() {
    let r = build(vec![
        entry("20230101_init", "CREATE TABLE users (id INTEGER);"),
        entry("20230102_add_users", "INSERT INTO users VALUES (1);"),
    ])
    .unwrap();
    let mut conn = InMemoryConnection::new();
    for m in r.migrations.iter() {
        assert_eq!(m.revert(&mut conn), Err(RunError::RevertUnsupported));
    }
    assert_eq!(conn.executed.len(), 0);
}

#[test]
fn scan_then_build_covers_every_qualifying_directory() {
    let listing = DirListing::Entries(vec![
        dir("20230102_add_users"),
        file("stray.txt"),
        dir("20230101_init"),
    ]);
    let names = scan(&listing).unwrap();
    let entries: Vec<DirectoryEntry> = names
        .iter()
        .map(|n| entry(n, "SELECT 1;"))
        .collect();
    let r = build(entries).unwrap();
    assert_eq!(r.migrations.len(), 2);
    assert_eq!(r.migrations[0].version, "20230101");
    assert_eq!(r.migrations[1].version, "20230102");
}

#[test]
fn migration_exposes_its_version() {
    let m = build_entry(&entry("20230101_init", "SELECT 1;")).unwrap();
    assert_eq!(m.version(), "20230101");
}
