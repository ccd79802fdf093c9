//! Database migrations: metadata and assembly of the combined migration
//! script. Reading migration files from disk is the host's part.

use vstd::prelude::*;

use crate::text::{append_str, spec_dec, u64_to_string};

verus! {

/// Migration metadata.
#[derive(Debug)]
pub struct Migration {
    pub version: i32,
    pub name: String,
    pub sql: String,
}

/// The statement that creates the migration tracking table.
pub const MIGRATIONS_TABLE_SQL: &'static str =
    "CREATE TABLE IF NOT EXISTS schema_migrations (\n    version INTEGER PRIMARY KEY,\n    name TEXT NOT NULL,\n    applied_at INTEGER NOT NULL\n);\n";

/// Decimal rendering of a version number; versions are parsed from
/// file names and are never negative.
pub open spec fn spec_version_text(v: int) -> Seq<char> {
    spec_dec(if v >= 0 { v as nat } else { 0 })
}

/// The script block of one migration: a comment header, its SQL, and the
/// statement that records it as applied.
pub open spec fn spec_migration_block(m: Migration) -> Seq<char> {
    "-- Migration "@ + spec_version_text(m.version as int) + ": "@ + m.name@ + "\n"@ + m.sql@
        + "\n\n"@ + "INSERT OR IGNORE INTO schema_migrations (version, name, applied_at) VALUES ("@
        + spec_version_text(m.version as int) + ", '"@ + m.name@
        + "', strftime('%s', 'now'));\n\n"@
}

/// The combined script of a migration list, in order, after the tracking
/// table header.
pub open spec fn spec_migrations_sql(ms: Seq<Migration>) -> Seq<char>
    decreases ms.len(),
{
    if ms.len() == 0 {
        MIGRATIONS_TABLE_SQL@ + "\n\n"@
    } else {
        spec_migrations_sql(ms.drop_last()) + spec_migration_block(ms.last())
    }
}

/// The SQL for a whole migration list as a single script: the tracking
/// table first, then each migration's block in the given order.
pub fn get_all_migrations_sql(migrations: &Vec<Migration>) -> (r: String)
    ensures
        r@ == spec_migrations_sql(migrations@),
{
    let mut r = MIGRATIONS_TABLE_SQL.to_owned();
    append_str(&mut r, "\n\n");
    let mut i: usize = 0;
    while i < migrations.len()
        invariant
            i <= migrations@.len(),
            r@ == spec_migrations_sql(migrations@.take(i as int)),
        decreases migrations@.len() - i,
    {
        let m = &migrations[i];
        append_str(&mut r, "-- Migration ");
        let v = if m.version >= 0 {
            m.version as u64
        } else {
            0
        };
        let vt = u64_to_string(v);
        append_str(&mut r, vt.as_str());
        append_str(&mut r, ": ");
        append_str(&mut r, m.name.as_str());
        append_str(&mut r, "\n");
        append_str(&mut r, m.sql.as_str());
        append_str(&mut r, "\n\n");
        append_str(&mut r, "INSERT OR IGNORE INTO schema_migrations (version, name, applied_at) VALUES (");
        append_str(&mut r, vt.as_str());
        append_str(&mut r, ", '");
        append_str(&mut r, m.name.as_str());
        append_str(&mut r, "', strftime('%s', 'now'));\n\n");
        proof {
            assert(migrations@.take(i + 1).drop_last() =~= migrations@.take(i as int));
            assert(migrations@.take(i + 1).last() == migrations@[i as int]);
            assert(r@ =~= spec_migrations_sql(migrations@.take(i + 1)));
        }
        i += 1;
    }
    proof {
        assert(migrations@.take(migrations@.len() as int) =~= migrations@);
    }
    r
}

} // verus!
