//! The keywords command: maintains the `keywords` array of the package
//! section, capped at five entries of at most twenty characters drawn from
//! alphanumerics, hyphens and underscores.
use vstd::prelude::*;

use crate::commands::listcmd::{add_result, apply_add, apply_remove, remove_result};
use crate::commands::ListCommand;
use crate::listfield::{ItemOutcome, ListRules};
use crate::manifest::Manifest;
use crate::model::{array_slot_free, entries_at, has_key, lookup, remove_key, set_key, table_slot_free, Node, items_at};
use crate::report::{EditError, Outcome};
use crate::store;
use crate::text::{str_concat, views_of};

verus! {

/// The line the listing shows for one entry: over-long keywords carry a
/// marker.
pub open spec fn kw_line(s: Seq<char>) -> Seq<char> {
    if crate::text::utf8_len(s) > 20 {
        "  - "@ + s + " (too long)"@
    } else {
        "  - "@ + s
    }
}

/// The lines the listing shows for a non-empty array: a counted header,
/// then one line per string item in storage order.
pub open spec fn list_lines(ns: Seq<Node>) -> Seq<Seq<char>> {
    seq!["Keywords ("@ + crate::text::dec_str(ns.len()) + "/5):"@] + crate::model::strs_of(
        ns,
    ).map_values((|s: Seq<char>| kw_line(s)))
}

/// The rules of the keyword list: at most five entries, each at most
/// twenty characters, drawn from alphanumerics, hyphens and underscores.
pub open spec fn spec_rules() -> ListRules {
    ListRules { cap: Some(5usize), max_len: Some(20usize), charset: true }
}

fn rules() -> (r: ListRules)
    ensures
        r == spec_rules(),
{
    ListRules { cap: Some(5), max_len: Some(20), charset: true }
}

/// Runs one keywords sub-command against the document.  Mutating
/// sub-commands hand back the text to save unless `dry_run` is set; `quiet`
/// suppresses ordinary output.
pub fn handle(m: &mut Manifest, cmd: ListCommand, dry_run: bool, quiet: bool) -> (r: Result<
    Outcome,
    EditError,
>)
    ensures
        r matches Ok(out) ==> (out.save matches Some(s) ==> s@ == store::render(final(m).doc)),
        dry_run ==> (r matches Ok(out) ==> out.save is None),
        cmd matches ListCommand::Add(names) ==> {
            &&& r is Ok <==> table_slot_free(old(m)@, "package"@) && array_slot_free(
                entries_at(old(m)@, "package"@),
                "keywords"@,
            )
            &&& r is Ok ==> final(m)@ == add_result(
                old(m)@,
                "keywords"@,
                views_of(names@),
                spec_rules(),
            )
            &&& r is Ok && !dry_run ==> (r matches Ok(out) && out.save is Some)
        },
        cmd matches ListCommand::Remove(names) ==> {
            &&& r is Ok <==> crate::manifest::array_ready(old(m)@, "package"@, "keywords"@)
            &&& r is Ok ==> final(m)@ == remove_result(old(m)@, "keywords"@, views_of(names@))
            &&& r is Ok && !dry_run ==> (r matches Ok(out) && out.save is Some)
        },
        cmd is List ==> r is Ok && final(m)@ == old(m)@ && (r matches Ok(out) ==> out.save is None
            && views_of(out.lines@) == (if crate::manifest::array_ready(
            old(m)@,
            "package"@,
            "keywords"@,
        ) && items_at(entries_at(old(m)@, "package"@), "keywords"@).len() > 0 {
            list_lines(items_at(entries_at(old(m)@, "package"@), "keywords"@))
        } else {
            seq!["No keywords"@]
        })),
        cmd matches ListCommand::Clear ==> {
            &&& r is Err <==> (lookup(old(m)@, "package"@) matches Some(n) && !(n is Tab))
            &&& r is Ok && !dry_run && has_key(entries_at(old(m)@, "package"@), "keywords"@)
                && (lookup(old(m)@, "package"@) matches Some(n) && n is Tab) ==> final(m)@
                == set_key(
                old(m)@,
                "package"@,
                Node::Tab(remove_key(entries_at(old(m)@, "package"@), "keywords"@)),
            )
            &&& r is Ok && !has_key(entries_at(old(m)@, "package"@), "keywords"@) ==> final(m)@
                == old(m)@
            &&& !dry_run ==> (r matches Ok(out) ==> (out.save is Some <==> has_key(
                entries_at(old(m)@, "package"@),
                "keywords"@,
            )))
            &&& !dry_run && !quiet ==> (r matches Ok(out) ==> views_of(out.lines@) == seq![
                if has_key(entries_at(old(m)@, "package"@), "keywords"@) {
                    "All keywords cleared"@
                } else {
                    "No keywords to clear"@
                },
            ])
            &&& dry_run ==> final(m)@ == old(m)@
        },
        r is Err ==> final(m)@ == old(m)@,
    {
    match cmd {
        ListCommand::Add(names) => {
            let rl = rules();
            let (ap, os) = apply_add(m, "keywords", &names, &rl)?;
            let mut out = Outcome::new();
            let mut i: usize = 0;
            while i < os.len()
                invariant
                    out.save is None,
                decreases os@.len() - i,
            {
                if i < names.len() {
                    match os[i] {
                        ItemOutcome::Added => {
                            out.say(str_concat("+ ", names[i].as_str()), quiet);
                        },
                        ItemOutcome::Duplicate => {
                            out.say(
                                str_concat(
                                    str_concat("~ ", names[i].as_str()).as_str(),
                                    " (already exists)",
                                ),
                                quiet,
                            );
                        },
                        ItemOutcome::TooLong => {
                            out.warn(
                                str_concat(
                                    str_concat("Keyword '", names[i].as_str()).as_str(),
                                    "' exceeds 20 characters (crates.io limit)",
                                ),
                            );
                        },
                        ItemOutcome::BadChars => {
                            out.warn(
                                str_concat(
                                    str_concat("Keyword '", names[i].as_str()).as_str(),
                                    "' contains invalid characters. Only alphanumeric, hyphens, and underscores are allowed.",
                                ),
                            );
                        },
                        ItemOutcome::LimitStop => {
                            out.warn("Maximum 5 keywords allowed for crates.io".to_owned());
                            out.say(
                                str_concat(
                                    str_concat("Skipping '", names[i].as_str()).as_str(),
                                    "' and remaining keywords",
                                ),
                                quiet,
                            );
                        },
                    }
                }
                i += 1;
            }
            if !dry_run {
                out.save = Some(m.serialize());
                out.say("Keywords updated".to_owned(), quiet);
            } else {
                out.say("(dry run - no changes made)".to_owned(), false);
            }
            Ok(out)
        },
        ListCommand::Remove(names) => {
            let found = apply_remove(m, "keywords", &names)?;
            let mut out = Outcome::new();
            let mut i: usize = 0;
            while i < names.len()
                invariant
                    found@.len() == names@.len(),
                    out.save is None,
                decreases names@.len() - i,
            {
                if found[i] {
                    out.say(str_concat("- ", names[i].as_str()), quiet);
                } else {
                    out.say(
                        str_concat(str_concat("? ", names[i].as_str()).as_str(), " (not found)"),
                        quiet,
                    );
                }
                i += 1;
            }
            if !dry_run {
                out.save = Some(m.serialize());
                out.say("Keywords updated".to_owned(), quiet);
            } else {
                out.say("(dry run - no changes made)".to_owned(), false);
            }
            Ok(out)
        },
        ListCommand::List => {
            let mut out = Outcome::new();
            match m.section_array_strings("package", "keywords") {
                Some(p) => {
                    let (items, total) = p;
                    let ghost ns = items_at(entries_at(m@, "package"@), "keywords"@);
                    if total == 0 {
                        out.say("No keywords".to_owned(), false);
                        proof {
                            assert(views_of(out.lines@) =~= seq!["No keywords"@]);
                        }
                    } else {
                        let ghost mapped = crate::model::strs_of(ns).map_values(
                            (|s: Seq<char>| kw_line(s)),
                        );
                        let header = str_concat(
                            str_concat(
                                "Keywords (",
                                crate::text::u64_to_string(total as u64).as_str(),
                            ).as_str(),
                            "/5):",
                        );
                        let ghost hv = header@;
                        out.say(header, false);
                        proof {
                            assert(hv == "Keywords ("@ + crate::text::dec_str(ns.len()) + "/5):"@);
                            assert(views_of(out.lines@) =~= seq![hv] + mapped.subrange(0, 0));
                        }
                        let mut i: usize = 0;
                        while i < items.len()
                            invariant
                                ns == items_at(entries_at(m@, "package"@), "keywords"@),
                                views_of(items@) == crate::model::strs_of(ns),
                                mapped == crate::model::strs_of(ns).map_values(
                                    (|s: Seq<char>| kw_line(s)),
                                ),
                                hv == "Keywords ("@ + crate::text::dec_str(ns.len()) + "/5):"@,
                                i <= items@.len(),
                                out.save is None,
                                views_of(out.lines@) == seq![hv] + mapped.subrange(0, i as int),
                            decreases items@.len() - i,
                        {
                            proof {
                                assert(mapped[i as int] == kw_line(
                                    crate::model::strs_of(ns)[i as int],
                                ));
                                assert(views_of(items@)[i as int] == items@[i as int]@);
                                assert(mapped.subrange(0, i + 1) =~= mapped.subrange(
                                    0,
                                    i as int,
                                ).push(mapped[i as int]));
                            }
                            let line = if crate::text::byte_len(items[i].as_str()) > 20 {
                                str_concat(
                                    str_concat("  - ", items[i].as_str()).as_str(),
                                    " (too long)",
                                )
                            } else {
                                str_concat("  - ", items[i].as_str())
                            };
                            let ghost prev = out.lines;
                            out.say(line, false);
                            proof {
                                crate::text::lemma_views_push(prev@, line);
                                assert(views_of(out.lines@) =~= seq![hv] + mapped.subrange(
                                    0,
                                    i + 1,
                                ));
                            }
                            i += 1;
                        }
                        proof {
                            assert(mapped.subrange(0, mapped.len() as int) =~= mapped);
                            assert(views_of(out.lines@) =~= list_lines(ns));
                        }
                    }
                },
                None => {
                    out.say("No keywords".to_owned(), false);
                    proof {
                        assert(views_of(out.lines@) =~= seq!["No keywords"@]);
                    }
                },
            }
            Ok(out)
        },
        ListCommand::Clear => {
            let mut out = Outcome::new();
            if dry_run {
                if m.section_has_key("package", "keywords") {
                    out.say("All keywords cleared".to_owned(), quiet);
                    out.say("(dry run - no changes made)".to_owned(), false);
                } else {
                    if m.get_section("package").is_none() {
                        let rt = store::root(&m.doc);
                        proof {
                            crate::model::lemma_has_key_lookup(
                                store::table_entries(*rt),
                                "package"@,
                            );
                        }
                        if store::tbl_get(rt, "package").is_some() {
                            return Err(
                                EditError::TypeConflict(
                                    str_concat("package", " is not a table"),
                                ),
                            );
                        }
                    }
                    out.say("No keywords to clear".to_owned(), quiet);
                    out.say("(dry run - no changes made)".to_owned(), false);
                }
                Ok(out)
            } else {
                match m.remove_section_key("package", "keywords") {
                    Err(e) => Err(e),
                    Ok(true) => {
                        out.save = Some(m.serialize());
                        out.say("All keywords cleared".to_owned(), quiet);
                        proof {
                            if !quiet {
                                assert(views_of(out.lines@) =~= seq!["All keywords cleared"@]);
                            }
                        }
                        Ok(out)
                    },
                    Ok(false) => {
                        out.say("No keywords to clear".to_owned(), quiet);
                        proof {
                            if !quiet {
                                assert(views_of(out.lines@) =~= seq!["No keywords to clear"@]);
                            }
                        }
                        Ok(out)
                    },
                }
            }
        },
    }
}

} // verus!
