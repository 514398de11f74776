//! Run configuration for the test-preparation tool, and which script files
//! it picks up.

use vstd::prelude::*;

verus! {

/// Configuration of the script-loading run. The tenant id is a nonzero
/// snowflake.
#[derive(Clone, Debug, PartialEq, Eq)]
pub struct RunConfig {
    pub database_url: String,
    pub scripts_path: String,
    pub guild_id: u64,
    pub filter: Option<String>,
}

impl RunConfig {
    pub open spec fn wf(&self) -> bool {
        self.guild_id != 0
    }

    /// Assemble a configuration; a zero tenant id is rejected.
    pub fn new(
        database_url: String,
        scripts_path: String,
        guild_id: u64,
        filter: Option<String>,
    ) -> (r: Option<RunConfig>)
        ensures
            match r {
                Some(c) => guild_id != 0 && c.wf() && c.guild_id == guild_id
                    && c.database_url@ == database_url@ && c.scripts_path@ == scripts_path@,
                None => guild_id == 0,
            },
    {
        if guild_id == 0 {
            None
        } else {
            Some(RunConfig { database_url, scripts_path, guild_id, filter })
        }
    }
}

/// A loadable script file: a `.ts` source that is not a type declaration
/// file.
pub open spec fn is_script_file(name: Seq<char>) -> bool {
    &&& name.len() >= 3
    &&& name[name.len() - 3] == '.'
    &&& name[name.len() - 2] == 't'
    &&& name[name.len() - 1] == 's'
    &&& !(name.len() >= 5 && name[name.len() - 5] == '.' && name[name.len() - 4] == 'd')
}

/// Whether a directory entry is a loadable script file.
pub fn is_script_file_name(name: &str) -> (r: bool)
    ensures
        r == is_script_file(name@),
{
    let n = name.unicode_len();
    if n < 3 {
        return false;
    }
    let ts = name.get_char(n - 3) == '.' && name.get_char(n - 2) == 't' && name.get_char(n - 1)
        == 's';
    if !ts {
        return false;
    }
    if n >= 5 && name.get_char(n - 5) == '.' && name.get_char(n - 4) == 'd' {
        return false;
    }
    true
}

/// The script's name: the file name with its `.ts` suffix removed.
pub fn script_name_of(name: &str) -> (r: String)
    requires
        is_script_file(name@),
    ensures
        r@ == name@.subrange(0, name@.len() - 3),
{
    let n = name.unicode_len();
    let stem = name.substring_char(0, n - 3);
    stem.to_owned()
}

} // verus!
