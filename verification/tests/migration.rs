//! The order of migrations and their checksums.

use sqlx_pool::migration::{AppliedMigration, Migration, MigrationType};
use std::borrow::Cow;
use std::cmp::Ordering;

fn migration(version: i64, migration_type: MigrationType, sql: &'static str) -> Migration {
    Migration::new(
        version,
        Cow::Borrowed("test migration"),
        migration_type,
        Cow::Borrowed(sql),
        false,
    )
}

fn hex(bytes: &[u8]) -> String {
    let mut text = String::new();
    for byte in bytes {
        text.push_str(&format!("{:02x}", byte));
    }
    text
}

#[test]
fn ordering_is_consistent_with_equality() {
    let first = migration(7, MigrationType::ReversibleUp, "SELECT 1");
    let same_ordering_key = migration(7, MigrationType::ReversibleUp, "SELECT 2");

    assert_eq!(first, same_ordering_key);
    assert_eq!(first.cmp(&same_ordering_key), Ordering::Equal);
}

#[test]
fn ordering_uses_version_then_canonical_migration_type() {
    let mut migrations = vec![
        migration(2, MigrationType::Simple, "SELECT 4"),
        migration(1, MigrationType::ReversibleDown, "SELECT 3"),
        migration(1, MigrationType::ReversibleUp, "SELECT 2"),
        migration(1, MigrationType::Simple, "SELECT 1"),
    ];

    migrations.sort_by(|a, b| a.cmp(b));

    let ordering_keys: Vec<_> = migrations
        .iter()
        .map(|migration| (migration.version, migration.migration_type))
        .collect();
    assert_eq!(
        ordering_keys,
        vec![
            (1, MigrationType::Simple),
            (1, MigrationType::ReversibleUp),
            (1, MigrationType::ReversibleDown),
            (2, MigrationType::Simple),
        ]
    );
}

#[test]
fn the_operators_follow_the_order() {
    let older = migration(-1, MigrationType::ReversibleDown, "SELECT 1");
    let newer = migration(0, MigrationType::Simple, "SELECT 1");
    assert!(older < newer);
    assert!(newer > older);
    assert!(older != newer);
    assert_eq!(older.partial_cmp(&newer), Some(Ordering::Less));
    assert_eq!(newer.cmp(&older), Ordering::Greater);
}

#[test]
fn the_kinds_are_ordered_as_the_migrations_are() {
    assert!(MigrationType::Simple < MigrationType::ReversibleUp);
    assert!(MigrationType::ReversibleUp < MigrationType::ReversibleDown);
}

#[test]
fn the_checksum_is_the_digest_of_the_sql() {
    let borrowed = migration(1, MigrationType::Simple, "SELECT 1");
    assert_eq!(
        hex(&borrowed.checksum),
        "a87be5ea59a50f1537b8361d62582b67f0f8665b89a1afa8f5f5ccc3ec84e9b8c62649fb92c16783942166f392ecc20e"
    );
    let owned = Migration::new(
        2,
        Cow::Owned(String::from("another one")),
        MigrationType::ReversibleUp,
        Cow::Owned(String::from("SELECT 1")),
        true,
    );
    assert_eq!(owned.checksum, borrowed.checksum);
    assert_eq!(owned.description, "another one");
    assert_eq!(owned.sql, "SELECT 1");
    assert!(owned.no_tx && !borrowed.no_tx);
    let empty = migration(1, MigrationType::Simple, "");
    assert_eq!(
        hex(&empty.checksum),
        "38b060a751ac96384cd9327eb1b1e36a21fdb71114be07434c0cc7bf63f6e1da274edebfe76f65fbd51ad2f14898b95b"
    );
}

#[test]
fn a_checksum_that_is_known_is_kept() {
    let migration = Migration::with_checksum(
        3,
        Cow::Borrowed("known"),
        MigrationType::Simple,
        Cow::Borrowed("SELECT 1"),
        vec![1, 2, 3],
        false,
    );
    assert_eq!(migration.checksum.as_ref(), &[1u8, 2, 3][..]);
    let copy = migration.clone();
    assert_eq!(copy, migration);
    assert_eq!(copy.sql, migration.sql);
    assert_eq!(copy.checksum, migration.checksum);
    let applied = AppliedMigration { version: 3, checksum: copy.checksum };
    let again = applied.clone();
    assert_eq!((again.version, again.checksum), (applied.version, applied.checksum));
}
