//! The shared engine of the list-valued package fields: batch add and
//! batch remove against the document, with the field's rules applied.
use vstd::prelude::*;

use crate::listfield::{plan_add, spec_add, ItemOutcome, ListRules};
use crate::manifest::{array_ready, Manifest};
use crate::model::{arr_has_str, entries_at, items_at, lemma_frame_collapse, lemma_frame_view, lemma_strs_of_len, lemma_set_existing, rm_state, set_key, strs_of, strs_to_nodes, array_slot_free, table_slot_free, Entries, Node};
use crate::report::EditError;
use crate::text::views_of;
use vstd::pervasive::unreached;

verus! {

/// The document after an `add` batch on the array at `key` of the package
/// section.
pub open spec fn add_result(
    root: Entries,
    key: Seq<char>,
    names: Seq<Seq<char>>,
    rules: ListRules,
) -> Entries {
    let ses = entries_at(root, "package"@);
    let ns = items_at(ses, key);
    let appended = spec_add(
        strs_of(ns),
        (ns.len() - strs_of(ns).len()) as nat,
        names,
        rules,
    ).0;
    set_key(root, "package"@, Node::Tab(set_key(ses, key, Node::Arr(ns + strs_to_nodes(appended)))))
}

/// The outcomes an `add` batch reports.
pub open spec fn add_outcomes(
    root: Entries,
    key: Seq<char>,
    names: Seq<Seq<char>>,
    rules: ListRules,
) -> Seq<ItemOutcome> {
    let ses = entries_at(root, "package"@);
    let ns = items_at(ses, key);
    spec_add(strs_of(ns), (ns.len() - strs_of(ns).len()) as nat, names, rules).1
}

/// The document after a `remove` batch on the array at `key` of the
/// package section.
pub open spec fn remove_result(root: Entries, key: Seq<char>, names: Seq<Seq<char>>) -> Entries {
    let ses = entries_at(root, "package"@);
    let ns = items_at(ses, key);
    set_key(
        root,
        "package"@,
        Node::Tab(set_key(ses, key, Node::Arr(rm_state(ns, names, names.len() as int)))),
    )
}

/// Runs an `add` batch against the document: makes sure the array exists,
/// plans the batch under `rules`, and appends what the plan admits.
/// Returns the appended values and the per-name outcomes.
pub fn apply_add(m: &mut Manifest, key: &str, names: &Vec<String>, rules: &ListRules) -> (r: Result<
    (Vec<String>, Vec<ItemOutcome>),
    EditError,
>)
    ensures
        r is Ok <==> table_slot_free(old(m)@, "package"@) && array_slot_free(
            entries_at(old(m)@, "package"@),
            key@,
        ),
        r matches Err(e) ==> final(m)@ == old(m)@ && e is TypeConflict,
        r matches Ok(p) ==> {
            &&& final(m)@ == add_result(old(m)@, key@, views_of(names@), *rules)
            &&& views_of(p.0@) == spec_add(
                strs_of(items_at(entries_at(old(m)@, "package"@), key@)),
                (items_at(entries_at(old(m)@, "package"@), key@).len() - strs_of(
                    items_at(entries_at(old(m)@, "package"@), key@),
                ).len()) as nat,
                views_of(names@),
                *rules,
            ).0
            &&& p.1@ == add_outcomes(old(m)@, key@, views_of(names@), *rules)
        },
{
    let ghost root0 = m@;
    let ghost ses0 = entries_at(root0, "package"@);
    let ghost ns0 = items_at(ses0, key@);
    match m.ensure_section_array("package", key) {
        Err(e) => {
            return Err(e);
        },
        Ok(()) => {},
    }
    let (cur, total) = match m.section_array_strings("package", key) {
        Some(p) => p,
        None => unreached(),
    };
    proof {
        lemma_frame_view(root0, "package"@, ses0, key@, ns0);
        lemma_strs_of_len(ns0);
        assert(views_of(cur@) == strs_of(ns0));
        assert(total == ns0.len());
    }
    let others = total - cur.len();
    let (ap, os) = plan_add(cur, others, names, 0, rules);
    proof {
        assert(views_of(names@).skip(0) =~= views_of(names@));
    }
    let ghost plan0 = spec_add(
        strs_of(ns0),
        (ns0.len() - strs_of(ns0).len()) as nat,
        views_of(names@),
        *rules,
    );
    let mut i: usize = 0;
    while i < ap.len()
        invariant
            i <= ap@.len(),
            views_of(ap@) == plan0.0,
            array_ready(m@, "package"@, key@),
            m@ == set_key(
                root0,
                "package"@,
                Node::Tab(
                    set_key(
                        ses0,
                        key@,
                        Node::Arr(ns0 + strs_to_nodes(views_of(ap@).subrange(0, i as int))),
                    ),
                ),
            ),
        decreases ap@.len() - i,
    {
        let ghost a_cur = ns0 + strs_to_nodes(views_of(ap@).subrange(0, i as int));
        proof {
            lemma_frame_view(root0, "package"@, ses0, key@, a_cur);
        }
        m.section_array_push("package", key, ap[i].as_str());
        proof {
            lemma_frame_collapse(
                root0,
                "package"@,
                ses0,
                key@,
                a_cur,
                a_cur.push(Node::Str(ap@[i as int]@)),
            );
            assert(views_of(ap@).subrange(0, i + 1) =~= views_of(ap@).subrange(0, i as int).push(
                ap@[i as int]@,
            ));
            assert(strs_to_nodes(views_of(ap@).subrange(0, i + 1)) =~= strs_to_nodes(
                views_of(ap@).subrange(0, i as int),
            ).push(Node::Str(ap@[i as int]@)));
            assert(a_cur.push(Node::Str(ap@[i as int]@)) =~= ns0 + strs_to_nodes(
                views_of(ap@).subrange(0, i + 1),
            ));
        }
        i += 1;
    }
    proof {
        assert(views_of(ap@).subrange(0, ap@.len() as int) =~= views_of(ap@));
    }
    Ok((ap, os))
}

/// Runs a `remove` batch against the document: for each name, in order,
/// removes every equal string entry of the array at `key`, reporting per
/// name whether anything was there.  The array must already exist.
pub fn apply_remove(m: &mut Manifest, key: &str, names: &Vec<String>) -> (r: Result<
    Vec<bool>,
    EditError,
>)
    ensures
        r is Ok <==> array_ready(old(m)@, "package"@, key@),
        r matches Err(e) ==> final(m)@ == old(m)@ && (e is TypeConflict || e is NotFound),
        r matches Ok(found) ==> {
            &&& final(m)@ == remove_result(old(m)@, key@, views_of(names@))
            &&& found@.len() == names@.len()
            &&& forall|i: int|
                0 <= i < names@.len() ==> found@[i] == arr_has_str(
                    rm_state(
                        items_at(entries_at(old(m)@, "package"@), key@),
                        views_of(names@),
                        i,
                    ),
                    views_of(names@)[i],
                )
        },
{
    let ghost root0 = m@;
    let ghost ses0 = entries_at(root0, "package"@);
    let ghost ns0 = items_at(ses0, key@);
    // Check that the array is there, and classify the failure otherwise.
    match m.section_array_strings("package", key) {
        Some(_) => {},
        None => {
            if m.get_section("package").is_none() {
                let rt = crate::store::root(&m.doc);
                proof {
                    crate::model::lemma_has_key_lookup(crate::store::table_entries(*rt), "package"@);
                }
                if crate::store::tbl_get(rt, "package").is_some() {
                    return Err(
                        EditError::TypeConflict(
                            crate::text::str_concat("package", " is not a table"),
                        ),
                    );
                }
                return Err(EditError::NotFound(crate::text::str_concat(key, " field not found")));
            }
            if !m.section_has_key("package", key) {
                return Err(EditError::NotFound(crate::text::str_concat(key, " field not found")));
            }
            return Err(EditError::TypeConflict(crate::text::str_concat(key, " is not an array")));
        },
    }
    proof {
        lemma_set_existing(ses0, key@, Node::Arr(ns0));
        lemma_set_existing(root0, "package"@, Node::Tab(ses0));
    }
    let mut found: Vec<bool> = Vec::new();
    let mut i: usize = 0;
    while i < names.len()
        invariant
            i <= names@.len(),
            found@.len() == i,
            array_ready(m@, "package"@, key@),
            m@ == set_key(
                root0,
                "package"@,
                Node::Tab(
                    set_key(ses0, key@, Node::Arr(rm_state(ns0, views_of(names@), i as int))),
                ),
            ),
            forall|j: int|
                0 <= j < i ==> found@[j] == arr_has_str(
                    rm_state(ns0, views_of(names@), j),
                    views_of(names@)[j],
                ),
        decreases names@.len() - i,
    {
        let ghost a_cur = rm_state(ns0, views_of(names@), i as int);
        proof {
            lemma_frame_view(root0, "package"@, ses0, key@, a_cur);
        }
        let was = m.section_array_remove_val("package", key, names[i].as_str());
        found.push(was);
        proof {
            lemma_frame_collapse(
                root0,
                "package"@,
                ses0,
                key@,
                a_cur,
                crate::model::arr_remove_str(a_cur, names@[i as int]@),
            );
        }
        i += 1;
    }
    Ok(found)
}

} // verus!
