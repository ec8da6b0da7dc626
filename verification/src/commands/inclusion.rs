//! The inclusion-pattern command: maintains the `include` array of the
//! package section.
use vstd::prelude::*;

use crate::commands::listcmd::{add_result, apply_add, apply_remove, remove_result};
use crate::commands::ListCommand;
use crate::listfield::{ItemOutcome, ListRules};
use crate::manifest::Manifest;
use crate::model::{array_slot_free, entries_at, has_key, lookup, remove_key, set_key, table_slot_free, Node, items_at};
use crate::report::{EditError, Outcome};
use crate::store;
use crate::text::{str_concat, views_of};

verus! {

/// The line the listing shows for one entry.
pub open spec fn item_line(s: Seq<char>) -> Seq<char> {
    "  - "@ + s
}

/// The lines the listing shows for a non-empty array: a header, then one
/// line per string item in storage order.
pub open spec fn list_lines(ns: Seq<Node>) -> Seq<Seq<char>> {
    seq!["Include patterns:"@] + crate::model::strs_of(ns).map_values(
        (|s: Seq<char>| item_line(s)),
    )
}

/// The rules of the inclusion list: no capacity and no content rules.
pub open spec fn spec_rules() -> ListRules {
    ListRules { cap: None, max_len: None, charset: false }
}

fn rules() -> (r: ListRules)
    ensures
        r == spec_rules(),
{
    ListRules { cap: None, max_len: None, charset: false }
}

/// Runs one inclusion-pattern sub-command against the document.  Mutating
/// sub-commands hand back the text to save unless `dry_run` is set; `quiet`
/// suppresses ordinary output.
pub fn handle(m: &mut Manifest, cmd: ListCommand, dry_run: bool, quiet: bool) -> (r: Result<
    Outcome,
    EditError,
>)
    ensures
        r matches Ok(out) ==> (out.save matches Some(s) ==> s@ == store::render(final(m).doc)),
        dry_run ==> (r matches Ok(out) ==> out.save is None),
        cmd matches ListCommand::Add(names) ==> {
            &&& r is Ok <==> table_slot_free(old(m)@, "package"@) && array_slot_free(
                entries_at(old(m)@, "package"@),
                "include"@,
            )
            &&& r is Ok ==> final(m)@ == add_result(
                old(m)@,
                "include"@,
                views_of(names@),
                spec_rules(),
            )
            &&& r is Ok && !dry_run ==> (r matches Ok(out) && out.save is Some)
        },
        cmd matches ListCommand::Remove(names) ==> {
            &&& r is Ok <==> crate::manifest::array_ready(old(m)@, "package"@, "include"@)
            &&& r is Ok ==> final(m)@ == remove_result(old(m)@, "include"@, views_of(names@))
            &&& r is Ok && !dry_run ==> (r matches Ok(out) && out.save is Some)
        },
        cmd is List ==> r is Ok && final(m)@ == old(m)@ && (r matches Ok(out) ==> out.save is None
            && views_of(out.lines@) == (if crate::manifest::array_ready(
            old(m)@,
            "package"@,
            "include"@,
        ) && items_at(entries_at(old(m)@, "package"@), "include"@).len() > 0 {
            list_lines(items_at(entries_at(old(m)@, "package"@), "include"@))
        } else {
            seq!["No include patterns"@]
        })),
        cmd matches ListCommand::Clear ==> {
            &&& r is Err <==> (lookup(old(m)@, "package"@) matches Some(n) && !(n is Tab))
            &&& r is Ok && !dry_run && has_key(entries_at(old(m)@, "package"@), "include"@)
                && (lookup(old(m)@, "package"@) matches Some(n) && n is Tab) ==> final(m)@
                == set_key(
                old(m)@,
                "package"@,
                Node::Tab(remove_key(entries_at(old(m)@, "package"@), "include"@)),
            )
            &&& r is Ok && !has_key(entries_at(old(m)@, "package"@), "include"@) ==> final(m)@
                == old(m)@
            &&& !dry_run ==> (r matches Ok(out) ==> (out.save is Some <==> has_key(
                entries_at(old(m)@, "package"@),
                "include"@,
            )))
            &&& !dry_run && !quiet ==> (r matches Ok(out) ==> views_of(out.lines@) == seq![
                if has_key(entries_at(old(m)@, "package"@), "include"@) {
                    "All include patterns cleared"@
                } else {
                    "No include patterns to clear"@
                },
            ])
            &&& dry_run ==> final(m)@ == old(m)@
        },
        r is Err ==> final(m)@ == old(m)@,
    {
    match cmd {
        ListCommand::Add(names) => {
            let rl = rules();
            let (ap, os) = apply_add(m, "include", &names, &rl)?;
            let mut out = Outcome::new();
            let mut i: usize = 0;
            while i < os.len()
                invariant
                    out.save is None,
                decreases os@.len() - i,
            {
                if i < names.len() {
                    match os[i] {
                        ItemOutcome::Added => {
                            out.say(str_concat("+ ", names[i].as_str()), quiet);
                        },
                        ItemOutcome::Duplicate => {
                            out.say(
                                str_concat(
                                    str_concat("~ ", names[i].as_str()).as_str(),
                                    " (already exists)",
                                ),
                                quiet,
                            );
                        },
                        _ => {},
                    }
                }
                i += 1;
            }
            if !dry_run {
                out.save = Some(m.serialize());
                out.say("Include patterns updated".to_owned(), quiet);
            } else {
                out.say("(dry run - no changes made)".to_owned(), false);
            }
            Ok(out)
        },
        ListCommand::Remove(names) => {
            let found = apply_remove(m, "include", &names)?;
            let mut out = Outcome::new();
            let mut i: usize = 0;
            while i < names.len()
                invariant
                    found@.len() == names@.len(),
                    out.save is None,
                decreases names@.len() - i,
            {
                if found[i] {
                    out.say(str_concat("- ", names[i].as_str()), quiet);
                } else {
                    out.say(
                        str_concat(str_concat("? ", names[i].as_str()).as_str(), " (not found)"),
                        quiet,
                    );
                }
                i += 1;
            }
            if !dry_run {
                out.save = Some(m.serialize());
                out.say("Include patterns updated".to_owned(), quiet);
            } else {
                out.say("(dry run - no changes made)".to_owned(), false);
            }
            Ok(out)
        },
        ListCommand::List => {
            let mut out = Outcome::new();
            match m.section_array_strings("package", "include") {
                Some(p) => {
                    let (items, total) = p;
                    let ghost ns = items_at(entries_at(m@, "package"@), "include"@);
                    if total == 0 {
                        out.say("No include patterns".to_owned(), false);
                        proof {
                            assert(views_of(out.lines@) =~= seq!["No include patterns"@]);
                        }
                    } else {
                        let ghost mapped = crate::model::strs_of(ns).map_values(
                            (|s: Seq<char>| item_line(s)),
                        );
                        out.say("Include patterns:".to_owned(), false);
                        proof {
                            assert(views_of(out.lines@) =~= seq!["Include patterns:"@]
                                + mapped.subrange(0, 0));
                        }
                        let mut i: usize = 0;
                        while i < items.len()
                            invariant
                                ns == items_at(entries_at(m@, "package"@), "include"@),
                                views_of(items@) == crate::model::strs_of(ns),
                                mapped == crate::model::strs_of(ns).map_values(
                                    (|s: Seq<char>| item_line(s)),
                                ),
                                i <= items@.len(),
                                out.save is None,
                                views_of(out.lines@) == seq!["Include patterns:"@]
                                    + mapped.subrange(0, i as int),
                            decreases items@.len() - i,
                        {
                            proof {
                                assert(mapped[i as int] == item_line(
                                    crate::model::strs_of(ns)[i as int],
                                ));
                                assert(views_of(items@)[i as int] == items@[i as int]@);
                                assert(mapped.subrange(0, i + 1) =~= mapped.subrange(
                                    0,
                                    i as int,
                                ).push(mapped[i as int]));
                            }
                            let line = str_concat("  - ", items[i].as_str());
                            let ghost prev = out.lines;
                            out.say(line, false);
                            proof {
                                crate::text::lemma_views_push(prev@, line);
                                assert(views_of(out.lines@) =~= seq!["Include patterns:"@]
                                    + mapped.subrange(0, i + 1));
                            }
                            i += 1;
                        }
                        proof {
                            assert(mapped.subrange(0, mapped.len() as int) =~= mapped);
                            assert(views_of(out.lines@) =~= list_lines(ns));
                        }
                    }
                },
                None => {
                    out.say("No include patterns".to_owned(), false);
                    proof {
                        assert(views_of(out.lines@) =~= seq!["No include patterns"@]);
                    }
                },
            }
            Ok(out)
        },
        ListCommand::Clear => {
            let mut out = Outcome::new();
            if dry_run {
                if m.section_has_key("package", "include") {
                    out.say("All include patterns cleared".to_owned(), quiet);
                    out.say("(dry run - no changes made)".to_owned(), false);
                } else {
                    if m.get_section("package").is_none() {
                        let rt = store::root(&m.doc);
                        proof {
                            crate::model::lemma_has_key_lookup(
                                store::table_entries(*rt),
                                "package"@,
                            );
                        }
                        if store::tbl_get(rt, "package").is_some() {
                            return Err(
                                EditError::TypeConflict(
                                    str_concat("package", " is not a table"),
                                ),
                            );
                        }
                    }
                    out.say("No include patterns to clear".to_owned(), quiet);
                    out.say("(dry run - no changes made)".to_owned(), false);
                }
                Ok(out)
            } else {
                match m.remove_section_key("package", "include") {
                    Err(e) => Err(e),
                    Ok(true) => {
                        out.save = Some(m.serialize());
                        out.say("All include patterns cleared".to_owned(), quiet);
                        proof {
                            if !quiet {
                                assert(views_of(out.lines@) =~= seq!["All include patterns cleared"@]);
                            }
                        }
                        Ok(out)
                    },
                    Ok(false) => {
                        out.say("No include patterns to clear".to_owned(), quiet);
                        proof {
                            if !quiet {
                                assert(views_of(out.lines@) =~= seq!["No include patterns to clear"@]);
                            }
                        }
                        Ok(out)
                    },
                }
            }
        },
    }
}

} // verus!
