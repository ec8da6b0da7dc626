//! The field reader: prints one package field for display.
use vstd::prelude::*;

use crate::manifest::Manifest;
use crate::model::{entries_at, has_key, lemma_has_key_lookup, lookup, strs_of, Node};
use crate::report::{EditError, Outcome};
use crate::store;
use crate::text::{str_concat, views_of};

verus! {

/// Reads one package field: a string prints verbatim, an array one string
/// item per line, anything else in its display form.  Fails if there is no
/// package table or the field is absent.  The display form of a value the
/// store does not interpret comes from the underlying renderer and is not
/// fixed by the contract.
pub fn handle(m: &Manifest, field: &str) -> (r: Result<Outcome, EditError>)
    ensures
        r is Ok <==> ((lookup(m@, "package"@) matches Some(n) && n is Tab) && has_key(
            entries_at(m@, "package"@),
            field@,
        )),
        r matches Err(e) ==> e is NotFound,
        r matches Ok(out) ==> out.save is None && out.warnings@.len() == 0,
        lookup(entries_at(m@, "package"@), field@) matches Some(Node::Str(sv)) ==> (r matches Ok(
            out,
        ) && views_of(out.lines@) == seq![sv]),
        lookup(entries_at(m@, "package"@), field@) matches Some(Node::Arr(av)) ==> (r matches Ok(
            out,
        ) && views_of(out.lines@) == strs_of(av)),
{
    let t = match m.package() {
        Some(t) => t,
        None => {
            return Err(EditError::NotFound("No [package] section found".to_owned()));
        },
    };
    proof {
        lemma_has_key_lookup(store::table_entries(*t), field@);
    }
    let it = match store::tbl_get(t, field) {
        Some(it) => it,
        None => {
            return Err(
                EditError::NotFound(
                    str_concat(
                        str_concat("Field '", field).as_str(),
                        "' not found in [package]",
                    ),
                ),
            );
        },
    };
    let mut out = Outcome::new();
    match store::item_str(it) {
        Some(s) => {
            out.say(s, false);
            return Ok(out);
        },
        None => {},
    }
    match store::item_array(it) {
        Some(a) => {
            let ghost ns = store::arr_nodes(*a);
            let n = store::arr_len(a);
            let mut i: usize = 0;
            while i < n
                invariant
                    n == ns.len(),
                    i <= n,
                    ns == store::arr_nodes(*a),
                    out.save is None,
                    out.warnings@.len() == 0,
                    views_of(out.lines@) =~= strs_of(ns.subrange(0, i as int)),
                decreases n - i,
            {
                proof {
                    assert(ns.subrange(0, i + 1) =~= ns.subrange(0, i as int).push(ns[i as int]));
                    crate::model::lemma_strs_of_snoc(ns.subrange(0, i as int), ns[i as int]);
                }
                match store::arr_str_at(a, i) {
                    Some(s) => {
                        out.say(s, false);
                    },
                    None => {},
                }
                i += 1;
            }
            proof {
                assert(ns.subrange(0, n as int) =~= ns);
            }
            return Ok(out);
        },
        None => {},
    }
    out.say(store::item_display(it), false);
    Ok(out)
}

} // verus!
