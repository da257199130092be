//! What the persistence banner says. Reading and writing files is the
//! store's own work; this decides which message, if any, is shown.
use vstd::prelude::*;

verus! {

/// The banner message before translation: its key and the error text.
/// Failing to open the data directory wins over a failed write; a failed
/// write shows until the next successful one clears it.
pub fn banner(unavailable: Option<String>, last_write_error: Option<String>) -> (b: Option<(&'static str, String)>)
    ensures
        b == (match unavailable {
            Some(e) => Some(("store.unavailable", e)),
            None => match last_write_error {
                Some(e) => Some(("store.write_failed", e)),
                None => None,
            },
        }),
{
    match unavailable {
        Some(e) => Some(("store.unavailable", e)),
        None => match last_write_error {
            Some(e) => Some(("store.write_failed", e)),
            None => None,
        },
    }
}

} // verus!
