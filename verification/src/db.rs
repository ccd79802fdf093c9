//! Database location and reference schema.

use vstd::prelude::*;

use crate::text::append_str;

verus! {

/// Reference schema for the application database.
pub const INIT_SCHEMA: &'static str = "CREATE TABLE IF NOT EXISTS lanes (\n    id TEXT PRIMARY KEY,\n    name TEXT NOT NULL,\n    working_dir TEXT NOT NULL,\n    created_at INTEGER NOT NULL,\n    updated_at INTEGER NOT NULL\n);\n\nCREATE TABLE IF NOT EXISTS reviews (\n    id TEXT PRIMARY KEY,\n    lane_id TEXT NOT NULL REFERENCES lanes(id),\n    title TEXT NOT NULL,\n    status TEXT NOT NULL,\n    created_at INTEGER NOT NULL,\n    updated_at INTEGER NOT NULL\n);\n\nCREATE INDEX IF NOT EXISTS idx_reviews_lane ON reviews(lane_id);\n";

/// The database URL handed to the SQL layer: `sqlite:` followed by the
/// database file under `<home>/.codelane/`.
pub fn get_db_url(home: &str) -> (r: String)
    ensures
        r@ == "sqlite:"@ + home@ + "/.codelane/codelane.db"@,
{
    let mut r = "sqlite:".to_owned();
    append_str(&mut r, home);
    append_str(&mut r, "/.codelane/codelane.db");
    proof {
        assert(r@ =~= "sqlite:"@ + home@ + "/.codelane/codelane.db"@);
    }
    r
}

} // verus!
