//! `henk` without arguments.

use vstd::prelude::*;
use vstd::string::*;

verus! {

/// What `henk` without arguments prints.
pub fn greeting(version: &str) -> (r: String)
    ensures
        r@ == "henk "@ + version@
            + " — local-dev URL routing for Docker\n\nNot yet initialised. Run `henk init` to set up the global stack.\n`henk --help` to list commands.\n"@,
{
    "henk ".to_owned().concat(version).concat(
        " — local-dev URL routing for Docker\n\nNot yet initialised. Run `henk init` to set up the global stack.\n`henk --help` to list commands.\n",
    )
}

} // verus!
