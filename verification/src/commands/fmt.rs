//! The formatter: re-serializes the document and compares it with the
//! original text.  Because the store preserves formatting, a document that
//! was loaded and never mutated always matches its source.
use vstd::prelude::*;

use crate::manifest::Manifest;
use crate::report::{EditError, Outcome};
use crate::store;
use crate::text::str_eq;

verus! {

/// Formats the document.  In check mode, succeeds exactly when the
/// serialization equals `original` and never writes; in write mode, hands
/// back the canonical serialization unless `dry_run` is set.
pub fn handle(m: &Manifest, original: &str, check: bool, dry_run: bool) -> (r: Result<
    Outcome,
    EditError,
>)
    ensures
        store::render(m.doc) == original@ ==> r is Ok,
        check ==> (r is Ok <==> store::render(m.doc) == original@),
        check ==> (r matches Ok(out) ==> out.save is None),
        !check ==> r is Ok,
        dry_run ==> (r matches Ok(out) ==> out.save is None),
        !check && !dry_run ==> (r matches Ok(out) ==> out.save matches Some(s) && s@
            == store::render(m.doc)),
{
    let formatted = m.serialize();
    let mut out = Outcome::new();
    if check {
        if str_eq(formatted.as_str(), original) {
            out.say("Cargo.toml is already formatted".to_owned(), false);
            Ok(out)
        } else {
            Err(EditError::BadValue("Formatting check failed".to_owned()))
        }
    } else {
        if !dry_run {
            out.save = Some(formatted);
            out.say("Cargo.toml formatted successfully".to_owned(), false);
        } else {
            out.say("Would format Cargo.toml".to_owned(), false);
            out.say("(dry run - no changes made)".to_owned(), false);
        }
        Ok(out)
    }
}

} // verus!
