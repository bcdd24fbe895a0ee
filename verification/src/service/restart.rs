//! Whether the process restarts itself after a scan.

use crate::text::str_eq;
use vstd::prelude::*;

verus! {

/// `AUXM_DISABLE_RESTART` disables the restart when it is `1`, `true`, `TRUE`, `yes`
/// or `YES`.
pub open spec fn restart_disabled_spec(value: Option<Seq<char>>) -> bool {
    match value {
        Some(v) => v == "1"@ || v == "true"@ || v == "TRUE"@ || v == "yes"@ || v == "YES"@,
        None => false,
    }
}

/// Whether the value of `AUXM_DISABLE_RESTART` (`None` when unset) disables the restart.
pub fn restart_disabled(value: Option<&str>) -> (r: bool)
    ensures
        r == restart_disabled_spec(
            match value {
                Some(v) => Some(v@),
                None => None,
            },
        ),
{
    match value {
        Some(v) => str_eq(v, "1") || str_eq(v, "true") || str_eq(v, "TRUE") || str_eq(v, "yes")
            || str_eq(v, "YES"),
        None => false,
    }
}

} // verus!
