//! Migrations: what identifies them, how they are ordered, and their checksum.

use sha2::{Digest, Sha384};
use std::borrow::Cow;
use std::cmp::Ordering;
use vstd::prelude::*;

verus! {

/// The kind of a migration. Of those with the same version, a simple one comes first, then the one
/// that goes up, then the one that goes down.
#[derive(Clone, Copy, Debug, PartialEq, Eq, PartialOrd, Ord, Structural)]
pub enum MigrationType {
    /// Only ever applied.
    Simple,
    /// Applied, and reverted by its `ReversibleDown`.
    ReversibleUp,
    /// Reverts its `ReversibleUp`.
    ReversibleDown,
}

impl MigrationType {
    /// The place among the migrations of one version.
    pub open spec fn rank(self) -> int {
        match self {
            MigrationType::Simple => 0,
            MigrationType::ReversibleUp => 1,
            MigrationType::ReversibleDown => 2,
        }
    }

    fn place(&self) -> (place: u8)
        ensures
            place == self.rank(),
    {
        match self {
            MigrationType::Simple => 0,
            MigrationType::ReversibleUp => 1,
            MigrationType::ReversibleDown => 2,
        }
    }
}

/// What `Sha384::digest` returns for a message.
pub uninterp spec fn sha384(message: Seq<u8>) -> Seq<u8>;

/// Calls `Sha384::digest`, which hashes the whole message. The result is a function of the message
/// alone, and is 48 bytes long. Which bytes it holds is not stated.
#[verifier::external_body]
fn sha384_digest(message: &[u8]) -> (digest: Vec<u8>)
    ensures
        digest@ == sha384(message@),
        digest@.len() == 48,
{
    Vec::from(Sha384::digest(message).as_slice())
}

/// One step in the history of a database's schema.
#[derive(Debug)]
pub struct Migration {
    pub version: i64,
    pub description: Cow<'static, str>,
    pub migration_type: MigrationType,
    pub sql: Cow<'static, str>,
    pub checksum: Cow<'static, [u8]>,
    pub no_tx: bool,
}

/// A migration that a database has seen.
#[derive(Debug)]
pub struct AppliedMigration {
    pub version: i64,
    pub checksum: Cow<'static, [u8]>,
}

impl Migration {
    /// A migration whose checksum is the SHA-384 digest of its SQL text.
    pub fn new(
        version: i64,
        description: Cow<'static, str>,
        migration_type: MigrationType,
        sql: Cow<'static, str>,
        no_tx: bool,
    ) -> (migration: Migration)
        ensures
            migration.version == version,
            migration.description == description,
            migration.migration_type == migration_type,
            migration.sql == sql,
            migration.checksum@ == sha384(vstd::utf8::encode_utf8(sql@)),
            migration.checksum@.len() == 48,
            migration.no_tx == no_tx,
    {
        let checksum = match &sql {
            Cow::Borrowed(text) => sha384_digest(text.as_bytes()),
            Cow::Owned(text) => sha384_digest(text.as_str().as_bytes()),
        };
        Self::with_checksum(version, description, migration_type, sql, checksum, no_tx)
    }

    /// A migration with a checksum that is known already.
    pub fn with_checksum(
        version: i64,
        description: Cow<'static, str>,
        migration_type: MigrationType,
        sql: Cow<'static, str>,
        checksum: Vec<u8>,
        no_tx: bool,
    ) -> (migration: Migration)
        ensures
            migration.version == version,
            migration.description == description,
            migration.migration_type == migration_type,
            migration.sql == sql,
            migration.checksum@ == checksum@,
            migration.no_tx == no_tx,
    {
        Migration {
            version,
            description,
            migration_type,
            sql,
            checksum: Cow::Owned(checksum),
            no_tx,
        }
    }

    /// Whether `self` is the same step as `other`.
    pub open spec fn same(self, other: Migration) -> bool {
        self.version == other.version && self.migration_type == other.migration_type
    }

    /// Whether `self` comes before `other`: by version, then by kind.
    pub open spec fn precedes(self, other: Migration) -> bool {
        ||| self.version < other.version
        ||| self.version == other.version && self.migration_type.rank()
            < other.migration_type.rank()
    }

    pub open spec fn order(self, other: Migration) -> Ordering {
        if self.precedes(other) {
            Ordering::Less
        } else if self.same(other) {
            Ordering::Equal
        } else {
            Ordering::Greater
        }
    }

    /// Compares by version, then by kind. The rest does not matter.
    pub fn cmp(&self, other: &Migration) -> (ordering: Ordering)
        ensures
            ordering == self.order(*other),
    {
        if self.version < other.version {
            Ordering::Less
        } else if self.version > other.version {
            Ordering::Greater
        } else if self.migration_type.place() < other.migration_type.place() {
            Ordering::Less
        } else if self.migration_type.place() > other.migration_type.place() {
            Ordering::Greater
        } else {
            Ordering::Equal
        }
    }
}

fn clone_text(text: &Cow<'static, str>) -> (copy: Cow<'static, str>)
    ensures
        copy@ == text@,
{
    match text {
        Cow::Borrowed(text) => Cow::Borrowed(*text),
        Cow::Owned(text) => Cow::Owned(text.clone()),
    }
}

fn clone_bytes(bytes: &Cow<'static, [u8]>) -> (copy: Cow<'static, [u8]>)
    ensures
        copy@ == bytes@,
{
    match bytes {
        Cow::Borrowed(bytes) => Cow::Borrowed(*bytes),
        Cow::Owned(bytes) => Cow::Owned(bytes.clone()),
    }
}

impl Clone for Migration {
    fn clone(&self) -> (copy: Migration)
        ensures
            copy.version == self.version,
            copy.description@ == self.description@,
            copy.migration_type == self.migration_type,
            copy.sql@ == self.sql@,
            copy.checksum@ == self.checksum@,
            copy.no_tx == self.no_tx,
    {
        Migration {
            version: self.version,
            description: clone_text(&self.description),
            migration_type: self.migration_type,
            sql: clone_text(&self.sql),
            checksum: clone_bytes(&self.checksum),
            no_tx: self.no_tx,
        }
    }
}

impl Clone for AppliedMigration {
    fn clone(&self) -> (copy: AppliedMigration)
        ensures
            copy.version == self.version,
            copy.checksum@ == self.checksum@,
    {
        AppliedMigration { version: self.version, checksum: clone_bytes(&self.checksum) }
    }
}

impl PartialEq for Migration {
    fn eq(&self, other: &Migration) -> (equal: bool) {
        self.version == other.version && self.migration_type == other.migration_type
    }
}

impl vstd::std_specs::cmp::PartialEqSpecImpl for Migration {
    open spec fn obeys_eq_spec() -> bool {
        true
    }

    open spec fn eq_spec(&self, other: &Migration) -> bool {
        self.same(*other)
    }
}

impl Eq for Migration {

}

impl PartialOrd for Migration {
    fn partial_cmp(&self, other: &Migration) -> (ordering: Option<Ordering>) {
        Some(self.cmp(other))
    }
}

impl vstd::std_specs::cmp::PartialOrdSpecImpl for Migration {
    open spec fn obeys_partial_cmp_spec() -> bool {
        true
    }

    open spec fn partial_cmp_spec(&self, other: &Migration) -> Option<Ordering> {
        Some(self.order(*other))
    }
}

} // verus!
