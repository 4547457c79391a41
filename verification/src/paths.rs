//! Names of the app's files inside its data directory: one database per
//! installed edition, and the persisted settings. Where the data directory
//! itself is depends on the platform and is decided by the caller.
use vstd::prelude::*;

use crate::catalog::spec_edition;
use crate::library::spec_db_stem;
use crate::text::concat;

verus! {

/// The file name of the persisted settings.
pub const SETTINGS_FILE_NAME: &'static str = "settings.json";

/// The file name of edition `code`'s database: `{code}.db`.
pub open spec fn spec_db_file_name(code: Seq<char>) -> Seq<char> {
    code + ".db"@
}

/// The file name of edition `code`'s database, e.g. `en.db`.
pub fn db_file_name(code: &str) -> (r: String)
    ensures
        r@ == spec_db_file_name(code@),
{
    concat(code, ".db")
}

/// The database file that an install writes for a catalog edition is the
/// one that a scan of the data directory recognizes as that edition.
pub proof fn law_db_file_is_recognized(code: Seq<char>)
    requires
        spec_edition(code) is Some,
    ensures
        spec_db_stem(spec_db_file_name(code)) == Some(code),
{
    reveal_strlit(".db");
    let name = spec_db_file_name(code);
    assert(name.take(name.len() - 3) =~= code);
}

} // verus!
