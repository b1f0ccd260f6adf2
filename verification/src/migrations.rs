//! The decisions of schema migration: which embedded migrations are applied,
//! whether the recorded history matches them, and what is still pending.
use vstd::prelude::*;
use crate::canonical::{sha256, sha256_digest};
use crate::error::StoreError;
use crate::model::{Project, project_check, str_eq};
use crate::error::{input_error_text, prefixed_input_error};

verus! {

/// The decimal digits of `n`, most significant first.
pub open spec fn decimal_text(n: nat) -> Seq<char>
    decreases n,
{
    if n < 10 {
        seq![digit_char(n)]
    } else {
        decimal_text(n / 10) + seq![digit_char(n % 10)]
    }
}

/// The digit character of `d < 10`.
pub open spec fn digit_char(d: nat) -> char {
    if d == 0 {
        '0'
    } else if d == 1 {
        '1'
    } else if d == 2 {
        '2'
    } else if d == 3 {
        '3'
    } else if d == 4 {
        '4'
    } else if d == 5 {
        '5'
    } else if d == 6 {
        '6'
    } else if d == 7 {
        '7'
    } else if d == 8 {
        '8'
    } else {
        '9'
    }
}

fn push_digit(text: &mut String, d: u64)
    requires
        d < 10,
    ensures
        final(text)@ == old(text)@ + seq![digit_char(d as nat)],
{
    let s = if d == 0 {
        "0"
    } else if d == 1 {
        "1"
    } else if d == 2 {
        "2"
    } else if d == 3 {
        "3"
    } else if d == 4 {
        "4"
    } else if d == 5 {
        "5"
    } else if d == 6 {
        "6"
    } else if d == 7 {
        "7"
    } else if d == 8 {
        "8"
    } else {
        "9"
    };
    proof {
        reveal_strlit("0");
        reveal_strlit("1");
        reveal_strlit("2");
        reveal_strlit("3");
        reveal_strlit("4");
        reveal_strlit("5");
        reveal_strlit("6");
        reveal_strlit("7");
        reveal_strlit("8");
        reveal_strlit("9");
    }
    assert(s@ =~= seq![digit_char(d as nat)]);
    text.append(s);
}

/// Appends the decimal text of `n`.
pub fn push_decimal(text: &mut String, n: u64)
    ensures
        final(text)@ == old(text)@ + decimal_text(n as nat),
    decreases n,
{
    if n >= 10 {
        push_decimal(text, n / 10);
    }
    push_digit(text, n % 10);
    assert(final(text)@ =~= old(text)@ + decimal_text(n as nat));
}

/// An embedded migration: its version, name and SQL text.
#[derive(Debug)]
pub struct Migration {
    pub version: u32,
    pub name: String,
    pub sql: String,
}

/// A row of the recorded migration history.
#[derive(Debug)]
pub struct MigrationRecord {
    pub version: u32,
    pub name: String,
    pub sha256: Vec<u8>,
}

/// The checksum of a migration: the SHA-256 digest of its SQL text's bytes.
pub open spec fn migration_checksum(m: Migration) -> [u8; 32] {
    sha256(vstd::utf8::encode_utf8(m.sql@))
}

/// The checksum of a migration's SQL text.
pub fn checksum(sql: &str) -> (r: [u8; 32])
    ensures
        r == sha256(vstd::utf8::encode_utf8(sql@)),
{
    sha256_digest(sql.as_bytes())
}

/// The newest version that the embedded migrations reach, 0 for none.
pub open spec fn supported_version(ms: Seq<Migration>) -> u32 {
    if ms.len() == 0 {
        0
    } else {
        ms.last().version
    }
}

/// The newest version that the embedded migrations reach.
pub fn supported(migrations: &Vec<Migration>) -> (r: u32)
    ensures
        r == supported_version(migrations@),
{
    if migrations.len() == 0 {
        0
    } else {
        migrations[migrations.len() - 1].version
    }
}

/// The index of the first embedded migration at or after `i` with version
/// `v`, if any.
pub open spec fn migration_index_from(ms: Seq<Migration>, v: u32, i: int) -> Option<int>
    decreases ms.len() - i,
{
    if i < 0 || i >= ms.len() {
        None
    } else if ms[i].version == v {
        Some(i)
    } else {
        migration_index_from(ms, v, i + 1)
    }
}

/// The index of the first embedded migration with version `v`, if any.
pub open spec fn migration_index(ms: Seq<Migration>, v: u32) -> Option<int> {
    migration_index_from(ms, v, 0)
}

proof fn lemma_migration_index_bound(ms: Seq<Migration>, v: u32, i: int)
    ensures
        migration_index_from(ms, v, i) matches Some(j) ==> 0 <= j < ms.len() && ms[j].version == v,
    decreases ms.len() - i,
{
    if 0 <= i < ms.len() && ms[i].version != v {
        lemma_migration_index_bound(ms, v, i + 1);
    }
}

/// Why a recorded history does not match the embedded migrations.
pub enum HistoryFailure {
    NonContiguous(u32),
    TooNew(u32, u32),
    ChecksumMismatch(u32),
}

/// The check of one history row at position `i`, whose version must be
/// `i + 1`, name an embedded migration, and match its name and checksum.
pub open spec fn record_check(ms: Seq<Migration>, r: MigrationRecord, i: int) -> Option<HistoryFailure> {
    if r.version != i + 1 {
        Some(HistoryFailure::NonContiguous(r.version))
    } else {
        match migration_index(ms, r.version) {
            None => Some(HistoryFailure::TooNew(r.version, supported_version(ms))),
            Some(j) => if r.name@ != ms[j].name@ || r.sha256@ != migration_checksum(ms[j])@ {
                Some(HistoryFailure::ChecksumMismatch(r.version))
            } else {
                None
            },
        }
    }
}

/// The first failing row of a history, checked in order, if any.
pub open spec fn history_failure(ms: Seq<Migration>, rows: Seq<MigrationRecord>) -> Option<HistoryFailure>
    decreases rows.len(),
{
    if rows.len() == 0 {
        None
    } else {
        match history_failure(ms, rows.drop_last()) {
            Some(f) => Some(f),
            None => record_check(ms, rows.last(), rows.len() - 1),
        }
    }
}

/// An error that is the failure described.
pub open spec fn history_error(e: StoreError, f: HistoryFailure) -> bool {
    match f {
        HistoryFailure::NonContiguous(v) => e matches StoreError::IntegrityFailure(m) && m@
            == "non-contiguous migration history at version "@ + decimal_text(v as nat),
        HistoryFailure::TooNew(found, s) => e == StoreError::DatabaseTooNew { found, supported: s },
        HistoryFailure::ChecksumMismatch(v) => e == StoreError::MigrationChecksumMismatch(v),
    }
}

fn find_migration(migrations: &Vec<Migration>, version: u32) -> (r: Option<usize>)
    ensures
        migration_index(migrations@, version) is None <==> r is None,
        r matches Some(k) ==> migration_index(migrations@, version) == Some(k as int) && k
            < migrations@.len(),
{
    let mut i: usize = 0;
    while i < migrations.len()
        invariant
            i <= migrations@.len(),
            migration_index(migrations@, version) == migration_index_from(migrations@, version, i as int),
        decreases migrations.len() - i,
    {
        if migrations[i].version == version {
            return Some(i);
        }
        i = i + 1;
    }
    proof {
        lemma_migration_index_bound(migrations@, version, 0);
    }
    None
}

fn check_record(migrations: &Vec<Migration>, row: &MigrationRecord, i: usize) -> (r: Result<(), StoreError>)
    requires
        i < u32::MAX,
    ensures
        match record_check(migrations@, *row, i as int) {
            None => r is Ok,
            Some(f) => r matches Err(e) && history_error(e, f),
        },
{
    let expected = (i + 1) as u32;
    if row.version != expected {
        let mut text = "non-contiguous migration history at version ".to_owned();
        push_decimal(&mut text, row.version as u64);
        return Err(StoreError::IntegrityFailure(text));
    }
    let index = match find_migration(migrations, row.version) {
        Some(j) => j,
        None => {
            return Err(
                StoreError::DatabaseTooNew { found: row.version, supported: supported(migrations) },
            );
        },
    };
    let migration = &migrations[index];
    let digest = checksum(migration.sql.as_str());
    let same_digest = crate::bytes::bytes_eq(row.sha256.as_slice(), vstd::array::array_as_slice(&digest));
    if !str_eq(row.name.as_str(), migration.name.as_str()) || !same_digest {
        return Err(StoreError::MigrationChecksumMismatch(row.version));
    }
    Ok(())
}

/// Checks the recorded history against the embedded migrations and gives
/// the version it reaches.
pub fn verify_applied_checksums(migrations: &Vec<Migration>, rows: &Vec<MigrationRecord>) -> (r: Result<u32, StoreError>)
    requires
        rows@.len() < u32::MAX,
    ensures
        match history_failure(migrations@, rows@) {
            None => r == Ok::<u32, StoreError>(rows@.len() as u32),
            Some(f) => r matches Err(e) && history_error(e, f),
        },
{
    let mut i: usize = 0;
    while i < rows.len()
        invariant
            i <= rows@.len() < u32::MAX,
            history_failure(migrations@, rows@.take(i as int)) is None,
        decreases rows.len() - i,
    {
        let checked = check_record(migrations, &rows[i], i);
        proof {
            assert(rows@.take(i + 1).drop_last() =~= rows@.take(i as int));
            assert(rows@.take(i + 1).last() == rows@[i as int]);
            lemma_history_prefix(migrations@, rows@, i + 1);
        }
        if checked.is_err() {
            return Err(checked.unwrap_err());
        }
        i = i + 1;
    }
    assert(rows@.take(rows@.len() as int) =~= rows@);
    Ok(rows.len() as u32)
}

/// A failure on a prefix of the history is the failure of the whole history.
proof fn lemma_history_prefix(ms: Seq<Migration>, rows: Seq<MigrationRecord>, k: int)
    requires
        0 <= k <= rows.len(),
    ensures
        history_failure(ms, rows.take(k)) is Some ==> history_failure(ms, rows) == history_failure(
            ms,
            rows.take(k),
        ),
    decreases rows.len() - k,
{
    if k < rows.len() {
        assert(rows.take(k + 1).drop_last() =~= rows.take(k));
        lemma_history_prefix(ms, rows, k + 1);
    } else {
        assert(rows.take(k) =~= rows);
    }
}

/// The text of a disagreement between the schema version pragma and the
/// recorded history.
pub open spec fn disagreement_text(user_version: u32, applied: u32) -> Seq<char> {
    "schema version metadata disagrees: pragma="@ + decimal_text(user_version as nat)
        + ", migrations="@ + decimal_text(applied as nat)
}

fn disagreement(user_version: u32, applied: u32) -> (r: StoreError)
    ensures
        r matches StoreError::IntegrityFailure(m) && m@ == disagreement_text(user_version, applied),
{
    let mut text = "schema version metadata disagrees: pragma=".to_owned();
    push_decimal(&mut text, user_version as u64);
    text.append(", migrations=");
    push_decimal(&mut text, applied as u64);
    StoreError::IntegrityFailure(text)
}

/// What opening a database does about its schema.
#[derive(Debug)]
pub struct MigrationPlan {
    pub supported: u32,
    pub applied_version: u32,
    pub pending: Vec<u32>,
    pub backup_first: bool,
}

/// The versions of the embedded migrations newer than `applied`, in order.
pub open spec fn pending_versions(ms: Seq<Migration>, applied: u32) -> Seq<u32> {
    ms.map_values(|m: Migration| m.version).filter(|v: u32| v > applied)
}

/// What is owed when the schema cannot be migrated, or `None`: a database
/// newer than the embedded migrations, one with tables but no history, a
/// history that does not match, or a version pragma that disagrees with it.
pub open spec fn migration_refusal(
    ms: Seq<Migration>,
    user_version: u32,
    history: Option<Seq<MigrationRecord>>,
    user_table_count: u32,
) -> Option<MigrationRefusal> {
    if user_version > supported_version(ms) {
        Some(MigrationRefusal::TooNew(user_version, supported_version(ms)))
    } else {
        match history {
            None => if user_version != 0 || user_table_count != 0 {
                Some(MigrationRefusal::Integrity("database has schema but no migration history"@))
            } else {
                None
            },
            Some(rows) => match history_failure(ms, rows) {
                Some(f) => Some(MigrationRefusal::History(f)),
                None => if user_version != rows.len() {
                    Some(MigrationRefusal::Integrity(disagreement_text(user_version, rows.len() as u32)))
                } else {
                    None
                },
            },
        }
    }
}

/// Why a schema cannot be migrated.
pub enum MigrationRefusal {
    TooNew(u32, u32),
    Integrity(Seq<char>),
    History(HistoryFailure),
}

/// An error that is the refusal described.
pub open spec fn refusal_error(e: StoreError, f: MigrationRefusal) -> bool {
    match f {
        MigrationRefusal::TooNew(found, s) => e == StoreError::DatabaseTooNew { found, supported: s },
        MigrationRefusal::Integrity(text) => e matches StoreError::IntegrityFailure(m) && m@ == text,
        MigrationRefusal::History(h) => history_error(e, h),
    }
}

fn pending(migrations: &Vec<Migration>, applied: u32) -> (r: Vec<u32>)
    ensures
        r@ == pending_versions(migrations@, applied),
{
    let mut versions: Vec<u32> = Vec::new();
    let mut i: usize = 0;
    while i < migrations.len()
        invariant
            i <= migrations@.len(),
            versions@ == migrations@.take(i as int).map_values(|m: Migration| m.version).filter(
                |v: u32| v > applied,
            ),
        decreases migrations.len() - i,
    {
        proof {
            reveal(Seq::filter);
            let vs = migrations@.take(i + 1).map_values(|m: Migration| m.version);
            assert(vs.drop_last() =~= migrations@.take(i as int).map_values(|m: Migration| m.version));
            assert(vs.last() == migrations@[i as int].version);
        }
        if migrations[i].version > applied {
            versions.push(migrations[i].version);
        }
        i = i + 1;
    }
    assert(migrations@.take(migrations@.len() as int) =~= migrations@);
    versions
}

/// Decides what opening a database does about its schema: the version it is
/// at, the embedded migrations still to apply, and whether to back the
/// database up first (it is when it already holds an applied migration).
/// `history` is the recorded history, or `None` when the database has none.
pub fn plan_migrations(
    migrations: &Vec<Migration>,
    user_version: u32,
    history: Option<&Vec<MigrationRecord>>,
    user_table_count: u32,
) -> (r: Result<MigrationPlan, StoreError>)
    requires
        history matches Some(rows) ==> rows@.len() < u32::MAX,
    ensures
        match migration_refusal(
            migrations@,
            user_version,
            match history {
                Some(rows) => Some(rows@),
                None => None,
            },
            user_table_count,
        ) {
            Some(f) => r matches Err(e) && refusal_error(e, f),
            None => r matches Ok(plan) && plan.supported == supported_version(migrations@)
                && plan.applied_version == user_version && plan.pending@ == pending_versions(
                migrations@,
                user_version,
            ) && plan.backup_first == (user_version > 0 && plan.pending@.len() > 0),
        },
{
    let supported_version = supported(migrations);
    if user_version > supported_version {
        return Err(StoreError::DatabaseTooNew { found: user_version, supported: supported_version });
    }
    let applied = match history {
        None => {
            if user_version != 0 || user_table_count != 0 {
                return Err(
                    StoreError::IntegrityFailure(
                        "database has schema but no migration history".to_owned(),
                    ),
                );
            }
            0
        },
        Some(rows) => verify_applied_checksums(migrations, rows)?,
    };
    if user_version != applied {
        return Err(disagreement(user_version, applied));
    }
    let versions = pending(migrations, applied);
    let backup_first = applied > 0 && versions.len() > 0;
    Ok(MigrationPlan { supported: supported_version, applied_version: applied, pending: versions, backup_first })
}

/// Checks the schema of a database that is to be restored: not newer than
/// the embedded migrations, with a history that matches them and agrees with
/// the version pragma. Gives the version reached.
pub fn validate_migration_history(
    migrations: &Vec<Migration>,
    user_version: u32,
    history: Option<&Vec<MigrationRecord>>,
) -> (r: Result<u32, StoreError>)
    requires
        history matches Some(rows) ==> rows@.len() < u32::MAX,
    ensures
        user_version > supported_version(migrations@) ==> r == Err::<u32, StoreError>(
            StoreError::DatabaseTooNew { found: user_version, supported: supported_version(migrations@) },
        ),
        user_version <= supported_version(migrations@) ==> match history {
            None => r matches Err(StoreError::IntegrityFailure(m)) && m@
                == "database has no migration history"@,
            Some(rows) => match history_failure(migrations@, rows@) {
                Some(f) => r matches Err(e) && history_error(e, f),
                None => if user_version != rows@.len() {
                    r matches Err(StoreError::IntegrityFailure(m)) && m@ == disagreement_text(
                        user_version,
                        rows@.len() as u32,
                    )
                } else {
                    r == Ok::<u32, StoreError>(user_version)
                },
            },
        },
{
    let supported_version = supported(migrations);
    if user_version > supported_version {
        return Err(StoreError::DatabaseTooNew { found: user_version, supported: supported_version });
    }
    let rows = match history {
        None => {
            return Err(StoreError::IntegrityFailure("database has no migration history".to_owned()));
        },
        Some(rows) => rows,
    };
    let applied = verify_applied_checksums(migrations, rows)?;
    if user_version != applied {
        return Err(disagreement(user_version, applied));
    }
    Ok(applied)
}

/// Checks a project that a migration imported as an event: it must be valid
/// and carry the event's aggregate id and revision.
pub fn check_imported_project(project: &Project, aggregate_id: &str, revision: i64) -> (r: Result<(), StoreError>)
    ensures
        match project_check(project@) {
            Err(e) => r matches Err(StoreError::IntegrityFailure(m)) && m@ == "invalid migrated project: "@
                + input_error_text(e),
            Ok(_) => if project.id@ != aggregate_id@ {
                r matches Err(StoreError::IntegrityFailure(m)) && m@
                    == "migrated project event metadata mismatch"@
            } else if project.revision > i64::MAX {
                r matches Err(StoreError::IntegrityFailure(m)) && m@ == "project revision overflow"@
            } else if project.revision != revision {
                r matches Err(StoreError::IntegrityFailure(m)) && m@
                    == "migrated project event metadata mismatch"@
            } else {
                r is Ok
            },
        },
{
    match project.validate() {
        Ok(()) => {},
        Err(error) => {
            proof {
                crate::projects::lemma_project_check_names_input(project@);
            }
            return Err(
                StoreError::IntegrityFailure(prefixed_input_error("invalid migrated project: ", error)),
            );
        },
    }
    let id_matches = str_eq(project.id.as_str(), aggregate_id);
    if project.revision > 0x7fff_ffff_ffff_ffff {
        if !id_matches {
            return Err(
                StoreError::IntegrityFailure("migrated project event metadata mismatch".to_owned()),
            );
        }
        return Err(StoreError::IntegrityFailure("project revision overflow".to_owned()));
    }
    if !id_matches || project.revision as i64 != revision {
        return Err(
            StoreError::IntegrityFailure("migrated project event metadata mismatch".to_owned()),
        );
    }
    Ok(())
}

} // verus!
