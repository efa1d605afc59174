//! Paths derived from the environment.

use vstd::prelude::*;
use vstd::string::StringExecFns;

use crate::env::{env_lookup, env_value, Env};

verus! {

/// The path of the history file: the value of `HISTFILE` when bound, else
/// `.rush_history` under the home directory.  A home directory must be
/// bound, as it is for any login session.
pub fn get_histfile_path(env: &Env) -> (r: String)
    requires
        env_lookup(env@, "HOME"@) is Some,
    ensures
        env_lookup(env@, "HISTFILE"@) matches Some(v) ==> r@ == v,
        env_lookup(env@, "HISTFILE"@) is None ==> r@ == env_value(env@, "HOME"@)
            + "/.rush_history"@,
{
    match env.get(&String::from_str("HISTFILE")) {
        Some(v) => v,
        None => {
            let home = env.value_of(&String::from_str("HOME"));
            home.concat("/.rush_history")
        },
    }
}

} // verus!
