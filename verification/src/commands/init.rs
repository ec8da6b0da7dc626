//! Initialization of recommended publishing fields: writes the field
//! values the caller gathered, skipping nothing, into the package section.
//! Which fields to offer is decided by [`needs_field`]; gathering the
//! values is the caller's interactive business.
use vstd::prelude::*;

use crate::manifest::{views_of_strs, Manifest};
use crate::model::{entries_at, insert_path, lookup, path_free, set_key, table_slot_free, Entries, Node};
use crate::report::{EditError, Outcome};
use crate::store;
use crate::text::str_concat;

verus! {

/// Whether the package section still lacks the field, so that
/// initialization should offer it.
pub fn needs_field(m: &Manifest, field: &str) -> (r: bool)
    ensures
        r == !((lookup(m@, "package"@) matches Some(n) && n is Tab) && crate::model::has_key(
            entries_at(m@, "package"@),
            field@,
        )),
{
    !m.section_has_key("package", field)
}

/// The document after the first `i` gathered fields are written.
pub open spec fn init_state(root: Entries, es: Seq<(Seq<char>, Seq<char>)>, i: int) -> Entries
    decreases i,
{
    if i <= 0 {
        root
    } else {
        let prev = init_state(root, es, i - 1);
        set_key(
            prev,
            "package"@,
            Node::Tab(set_key(entries_at(prev, "package"@), es[i - 1].0, Node::Str(es[i - 1].1))),
        )
    }
}

/// The views of the gathered field/value pairs.
pub open spec fn entry_views(es: Seq<(String, String)>) -> Seq<(Seq<char>, Seq<char>)> {
    es.map_values(|p: (String, String)| (p.0@, p.1@))
}

/// Writes the gathered field values into the package section, creating it
/// if absent.
pub fn handle(m: &mut Manifest, entries: &Vec<(String, String)>, dry_run: bool) -> (r: Result<
    Outcome,
    EditError,
>)
    ensures
        r is Ok <==> entries@.len() == 0 || table_slot_free(old(m)@, "package"@),
        r is Ok ==> final(m)@ == init_state(old(m)@, entry_views(entries@), entries@.len() as int),
        r matches Err(e) ==> final(m)@ == old(m)@ && e is TypeConflict,
        dry_run ==> (r matches Ok(out) ==> out.save is None),
        r matches Ok(out) ==> (out.save matches Some(s) ==> s@ == store::render(final(m).doc)),
{
    let ghost root0 = m@;
    let ghost ev = entry_views(entries@);
    let mut out = Outcome::new();
    let mut i: usize = 0;
    while i < entries.len()
        invariant
            root0 == old(m)@,
            i <= entries@.len(),
            ev == entry_views(entries@),
            m@ == init_state(root0, ev, i as int),
            i > 0 ==> (lookup(m@, "package"@) matches Some(n) && n is Tab),
            i > 0 ==> table_slot_free(root0, "package"@),
            i == 0 ==> m@ == root0,
            out.save is None,
        decreases entries@.len() - i,
    {
        let ghost pre = m@;
        let mut path: Vec<String> = Vec::new();
        path.push("package".to_owned());
        path.push(entries[i].0.clone());
        proof {
            let vp = views_of_strs(path@);
            assert(vp.len() == 2);
            assert(vp[0] == "package"@);
            assert(vp[1] == ev[i as int].0);
            assert(ev[i as int] == (entries@[i as int].0@, entries@[i as int].1@));
            assert(path_free(entries_at(pre, "package"@), vp, 1));
            assert(path_free(pre, vp, 0) == table_slot_free(pre, "package"@));
        }
        let item = store::mk_str_item(entries[i].1.as_str());
        let ghost nd = store::item_node(item);
        match m.insert_at(&path, item) {
            Err(e) => {
                proof {
                    if i > 0 {
                        assert(table_slot_free(pre, "package"@));
                        assert(path_free(pre, views_of_strs(path@), 0));
                    }
                    assert(i == 0);
                    assert(pre == root0);
                    assert(!table_slot_free(root0, "package"@));
                }
                return Err(e);
            },
            Ok(()) => {},
        }
        proof {
            if i == 0 {
                assert(path_free(root0, views_of_strs(path@), 0));
                assert(table_slot_free(root0, "package"@));
            }
        }
        proof {
            let vp = views_of_strs(path@);
            assert(insert_path(entries_at(pre, "package"@), vp, 1, nd) == set_key(
                entries_at(pre, "package"@),
                ev[i as int].0,
                nd,
            ));
            assert(m@ == init_state(root0, ev, i + 1));
            crate::model::lemma_lookup_set_same(
                pre,
                "package"@,
                Node::Tab(set_key(entries_at(pre, "package"@), ev[i as int].0, nd)),
            );
        }
        out.say(
            str_concat(
                str_concat(str_concat("+ ", entries[i].0.as_str()).as_str(), ": ").as_str(),
                entries[i].1.as_str(),
            ),
            false,
        );
        i += 1;
    }
    if !dry_run {
        out.save = Some(m.serialize());
        out.say("Initialization complete".to_owned(), false);
    } else {
        out.say("(dry run - no changes made)".to_owned(), false);
    }
    Ok(out)
}

} // verus!
