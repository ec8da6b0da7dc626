//! The categories command: maintains the `categories` array of the
//! package section, capped at five entries, with an advisory check against
//! the known registry categories.
use vstd::prelude::*;

use crate::commands::listcmd::{add_result, apply_add, apply_remove, remove_result};
use crate::listfield::{ItemOutcome, ListRules};
use crate::manifest::Manifest;
use crate::model::{array_slot_free, entries_at, has_key, lookup, remove_key, set_key, table_slot_free, Node, items_at};
use crate::report::{EditError, Outcome};
use crate::store;
use crate::text::{str_concat, views_of};

verus! {

/// A sub-command of the categories field.
pub enum CategoriesCommand {
    /// Append the given categories, skipping duplicates, warning on
    /// unknown names, and stopping at the capacity.
    Add(Vec<String>),
    /// Remove every occurrence of each given category.
    Remove(Vec<String>),
    /// Show the current categories.
    List,
    /// Remove the whole array entry.
    Clear,
    /// Show the known registry categories.
    Valid,
}

/// The rules of the category list: at most five entries.
pub open spec fn spec_rules() -> ListRules {
    ListRules { cap: Some(5usize), max_len: None, charset: false }
}

fn rules() -> (r: ListRules)
    ensures
        r == spec_rules(),
{
    ListRules { cap: Some(5), max_len: None, charset: false }
}

/// The category names the registry knows.
pub open spec fn spec_categories() -> Seq<Seq<char>> {
    seq![
        "algorithms"@,
        "api-bindings"@,
        "asynchronous"@,
        "authentication"@,
        "caching"@,
        "command-line-interface"@,
        "command-line-utilities"@,
        "compression"@,
        "concurrency"@,
        "config"@,
        "cryptography"@,
        "data-structures"@,
        "database"@,
        "database-implementations"@,
        "date-and-time"@,
        "development-tools"@,
        "development-tools::build-utils"@,
        "development-tools::cargo-plugins"@,
        "development-tools::debugging"@,
        "development-tools::ffi"@,
        "development-tools::profiling"@,
        "development-tools::testing"@,
        "email"@,
        "embedded"@,
        "emulators"@,
        "encoding"@,
        "filesystem"@,
        "game-development"@,
        "game-engines"@,
        "graphics"@,
        "gui"@,
        "hardware-support"@,
        "internationalization"@,
        "localization"@,
        "mathematics"@,
        "memory-management"@,
        "multimedia"@,
        "multimedia::audio"@,
        "multimedia::encoding"@,
        "multimedia::images"@,
        "multimedia::video"@,
        "network-programming"@,
        "no-std"@,
        "os"@,
        "os::freebsd-apis"@,
        "os::linux-apis"@,
        "os::macos-apis"@,
        "os::unix-apis"@,
        "os::windows-apis"@,
        "parser-implementations"@,
        "parsing"@,
        "rendering"@,
        "rendering::engine"@,
        "rendering::graphics-api"@,
        "rust-patterns"@,
        "science"@,
        "simulation"@,
        "template-engine"@,
        "text-editors"@,
        "text-processing"@,
        "value-formatting"@,
        "visualization"@,
        "wasm"@,
        "web-programming"@,
        "web-programming::http-client"@,
        "web-programming::http-server"@,
        "web-programming::websocket"@
    ]
}

/// The known registry categories, in sorted order.
pub fn known_categories() -> (r: Vec<String>)
    ensures
        views_of(r@) == spec_categories(),
{
    let mut v: Vec<String> = Vec::new();
    v.push("algorithms".to_owned());
    v.push("api-bindings".to_owned());
    v.push("asynchronous".to_owned());
    v.push("authentication".to_owned());
    v.push("caching".to_owned());
    v.push("command-line-interface".to_owned());
    v.push("command-line-utilities".to_owned());
    v.push("compression".to_owned());
    v.push("concurrency".to_owned());
    v.push("config".to_owned());
    v.push("cryptography".to_owned());
    v.push("data-structures".to_owned());
    v.push("database".to_owned());
    v.push("database-implementations".to_owned());
    v.push("date-and-time".to_owned());
    v.push("development-tools".to_owned());
    v.push("development-tools::build-utils".to_owned());
    v.push("development-tools::cargo-plugins".to_owned());
    v.push("development-tools::debugging".to_owned());
    v.push("development-tools::ffi".to_owned());
    v.push("development-tools::profiling".to_owned());
    v.push("development-tools::testing".to_owned());
    v.push("email".to_owned());
    v.push("embedded".to_owned());
    v.push("emulators".to_owned());
    v.push("encoding".to_owned());
    v.push("filesystem".to_owned());
    v.push("game-development".to_owned());
    v.push("game-engines".to_owned());
    v.push("graphics".to_owned());
    v.push("gui".to_owned());
    v.push("hardware-support".to_owned());
    v.push("internationalization".to_owned());
    v.push("localization".to_owned());
    v.push("mathematics".to_owned());
    v.push("memory-management".to_owned());
    v.push("multimedia".to_owned());
    v.push("multimedia::audio".to_owned());
    v.push("multimedia::encoding".to_owned());
    v.push("multimedia::images".to_owned());
    v.push("multimedia::video".to_owned());
    v.push("network-programming".to_owned());
    v.push("no-std".to_owned());
    v.push("os".to_owned());
    v.push("os::freebsd-apis".to_owned());
    v.push("os::linux-apis".to_owned());
    v.push("os::macos-apis".to_owned());
    v.push("os::unix-apis".to_owned());
    v.push("os::windows-apis".to_owned());
    v.push("parser-implementations".to_owned());
    v.push("parsing".to_owned());
    v.push("rendering".to_owned());
    v.push("rendering::engine".to_owned());
    v.push("rendering::graphics-api".to_owned());
    v.push("rust-patterns".to_owned());
    v.push("science".to_owned());
    v.push("simulation".to_owned());
    v.push("template-engine".to_owned());
    v.push("text-editors".to_owned());
    v.push("text-processing".to_owned());
    v.push("value-formatting".to_owned());
    v.push("visualization".to_owned());
    v.push("wasm".to_owned());
    v.push("web-programming".to_owned());
    v.push("web-programming::http-client".to_owned());
    v.push("web-programming::http-server".to_owned());
    v.push("web-programming::websocket".to_owned());
    proof {
        assert(views_of(v@) =~= spec_categories());
    }
    v
}

/// The line the listing shows for one entry: unknown names carry a
/// marker.
pub open spec fn cat_line(s: Seq<char>) -> Seq<char> {
    if spec_categories().contains(s) {
        "  - "@ + s
    } else {
        "  - "@ + s + " (not a known category)"@
    }
}

/// The lines the listing shows for a non-empty array: a counted header,
/// then one line per string item in storage order.
pub open spec fn list_lines(ns: Seq<Node>) -> Seq<Seq<char>> {
    seq!["Categories ("@ + crate::text::dec_str(ns.len()) + "/5):"@] + crate::model::strs_of(
        ns,
    ).map_values((|s: Seq<char>| cat_line(s)))
}

/// The top-level prefix of a qualified category name: everything before
/// the first colon, or the whole name if it has none.
pub open spec fn cat_top(c: Seq<char>) -> Seq<char> {
    c.subrange(0, crate::text::idx_of(c, ':'))
}

/// Whether the category name is qualified with a subcategory.
pub open spec fn has_colon(c: Seq<char>) -> bool {
    crate::text::idx_of(c, ':') < c.len()
}

/// The lines the category listing shows from entry `i` on, given the
/// top-level prefix last shown: qualified names are grouped under a
/// header per top-level prefix, plain names stand on their own with a
/// separating blank line after a group.
pub open spec fn valid_lines(cats: Seq<Seq<char>>, i: int, cur: Seq<char>) -> Seq<Seq<char>>
    decreases cats.len() - i,
{
    if i < 0 || i >= cats.len() {
        Seq::empty()
    } else {
        let c = cats[i];
        if has_colon(c) {
            (if cat_top(c) != cur {
                seq![""@, cat_top(c) + ":"@]
            } else {
                Seq::<Seq<char>>::empty()
            }) + seq!["  - "@ + c] + valid_lines(cats, i + 1, cat_top(c))
        } else {
            (if cur.len() != 0 {
                seq![""@]
            } else {
                Seq::<Seq<char>>::empty()
            }) + seq!["- "@ + c] + valid_lines(cats, i + 1, Seq::empty())
        }
    }
}

/// Whether the registry knows the category name.
pub fn is_known_category(s: &str) -> (r: bool)
    ensures
        r == spec_categories().contains(s@),
{
    let cats = known_categories();
    crate::text::vec_contains_str(&cats, s)
}

/// Runs one categories sub-command against the document.  Mutating
/// sub-commands hand back the text to save unless `dry_run` is set; `quiet`
/// suppresses ordinary output.
pub fn handle(m: &mut Manifest, cmd: CategoriesCommand, dry_run: bool, quiet: bool) -> (r: Result<
    Outcome,
    EditError,
>)
    ensures
        r matches Ok(out) ==> (out.save matches Some(s) ==> s@ == store::render(final(m).doc)),
        dry_run ==> (r matches Ok(out) ==> out.save is None),
        cmd matches CategoriesCommand::Add(names) ==> {
            &&& r is Ok <==> table_slot_free(old(m)@, "package"@) && array_slot_free(
                entries_at(old(m)@, "package"@),
                "categories"@,
            )
            &&& r is Ok ==> final(m)@ == add_result(
                old(m)@,
                "categories"@,
                views_of(names@),
                spec_rules(),
            )
            &&& r is Ok && !dry_run ==> (r matches Ok(out) && out.save is Some)
        },
        cmd matches CategoriesCommand::Remove(names) ==> {
            &&& r is Ok <==> crate::manifest::array_ready(old(m)@, "package"@, "categories"@)
            &&& r is Ok ==> final(m)@ == remove_result(old(m)@, "categories"@, views_of(names@))
            &&& r is Ok && !dry_run ==> (r matches Ok(out) && out.save is Some)
        },
        cmd is List ==> r is Ok && final(m)@ == old(m)@ && (r matches Ok(out) ==> out.save is None
            && views_of(out.lines@) == (if crate::manifest::array_ready(
            old(m)@,
            "package"@,
            "categories"@,
        ) && items_at(entries_at(old(m)@, "package"@), "categories"@).len() > 0 {
            list_lines(items_at(entries_at(old(m)@, "package"@), "categories"@))
        } else {
            seq!["No categories"@]
        })),
        cmd is Valid ==> r is Ok && final(m)@ == old(m)@ && (r matches Ok(out) ==> out.save is None
            && out.warnings@.len() == 0 && views_of(out.lines@) == seq![
            "Valid crates.io categories:"@,
            ""@,
        ] + valid_lines(spec_categories(), 0, Seq::empty())),
        cmd matches CategoriesCommand::Clear ==> {
            &&& r is Err <==> (lookup(old(m)@, "package"@) matches Some(n) && !(n is Tab))
            &&& r is Ok && !dry_run && has_key(entries_at(old(m)@, "package"@), "categories"@)
                && (lookup(old(m)@, "package"@) matches Some(n) && n is Tab) ==> final(m)@
                == set_key(
                old(m)@,
                "package"@,
                Node::Tab(remove_key(entries_at(old(m)@, "package"@), "categories"@)),
            )
            &&& r is Ok && !has_key(entries_at(old(m)@, "package"@), "categories"@) ==> final(m)@
                == old(m)@
            &&& !dry_run ==> (r matches Ok(out) ==> (out.save is Some <==> has_key(
                entries_at(old(m)@, "package"@),
                "categories"@,
            )))
            &&& !dry_run && !quiet ==> (r matches Ok(out) ==> views_of(out.lines@) == seq![
                if has_key(entries_at(old(m)@, "package"@), "categories"@) {
                    "All categories cleared"@
                } else {
                    "No categories to clear"@
                },
            ])
            &&& dry_run ==> final(m)@ == old(m)@
        },
        r is Err ==> final(m)@ == old(m)@,
    {
    match cmd {
        CategoriesCommand::Add(names) => {
            let rl = rules();
            let (ap, os) = apply_add(m, "categories", &names, &rl)?;
            let mut out = Outcome::new();
            let mut i: usize = 0;
            while i < os.len()
                invariant
                    out.save is None,
                decreases os@.len() - i,
            {
                if i < names.len() {
                    if !is_known_category(names[i].as_str()) {
                        out.warn(
                            str_concat(
                                str_concat("Category '", names[i].as_str()).as_str(),
                                "' is not in the registry's category list. Use 'cargoe categories valid' to see valid categories.",
                            ),
                        );
                    }
                    match os[i] {
                        ItemOutcome::Added => {
                            out.say(str_concat("+ ", names[i].as_str()), quiet);
                        },
                        ItemOutcome::Duplicate => {
                            out.say(
                                str_concat(
                                    str_concat("~ ", names[i].as_str()).as_str(),
                                    " (already exists)",
                                ),
                                quiet,
                            );
                        },
                        ItemOutcome::LimitStop => {
                            out.warn("Maximum 5 categories allowed for crates.io".to_owned());
                        },
                        _ => {},
                    }
                }
                i += 1;
            }
            if !dry_run {
                out.save = Some(m.serialize());
                out.say("Categories updated".to_owned(), quiet);
            } else {
                out.say("(dry run - no changes made)".to_owned(), false);
            }
            Ok(out)
        },
        CategoriesCommand::Remove(names) => {
            let found = apply_remove(m, "categories", &names)?;
            let mut out = Outcome::new();
            let mut i: usize = 0;
            while i < names.len()
                invariant
                    found@.len() == names@.len(),
                    out.save is None,
                decreases names@.len() - i,
            {
                if found[i] {
                    out.say(str_concat("- ", names[i].as_str()), quiet);
                } else {
                    out.say(
                        str_concat(str_concat("? ", names[i].as_str()).as_str(), " (not found)"),
                        quiet,
                    );
                }
                i += 1;
            }
            if !dry_run {
                out.save = Some(m.serialize());
                out.say("Categories updated".to_owned(), quiet);
            } else {
                out.say("(dry run - no changes made)".to_owned(), false);
            }
            Ok(out)
        },
        CategoriesCommand::List => {
            let mut out = Outcome::new();
            match m.section_array_strings("package", "categories") {
                Some(p) => {
                    let (items, total) = p;
                    let ghost ns = items_at(entries_at(m@, "package"@), "categories"@);
                    if total == 0 {
                        out.say("No categories".to_owned(), false);
                        proof {
                            assert(views_of(out.lines@) =~= seq!["No categories"@]);
                        }
                    } else {
                        let ghost mapped = crate::model::strs_of(ns).map_values(
                            (|s: Seq<char>| cat_line(s)),
                        );
                        let header = str_concat(
                            str_concat(
                                "Categories (",
                                crate::text::u64_to_string(total as u64).as_str(),
                            ).as_str(),
                            "/5):",
                        );
                        let ghost hv = header@;
                        out.say(header, false);
                        proof {
                            assert(hv == "Categories ("@ + crate::text::dec_str(ns.len())
                                + "/5):"@);
                            assert(views_of(out.lines@) =~= seq![hv] + mapped.subrange(0, 0));
                        }
                        let mut i: usize = 0;
                        while i < items.len()
                            invariant
                                ns == items_at(entries_at(m@, "package"@), "categories"@),
                                views_of(items@) == crate::model::strs_of(ns),
                                mapped == crate::model::strs_of(ns).map_values(
                                    (|s: Seq<char>| cat_line(s)),
                                ),
                                hv == "Categories ("@ + crate::text::dec_str(ns.len()) + "/5):"@,
                                i <= items@.len(),
                                out.save is None,
                                views_of(out.lines@) == seq![hv] + mapped.subrange(0, i as int),
                            decreases items@.len() - i,
                        {
                            proof {
                                assert(mapped[i as int] == cat_line(
                                    crate::model::strs_of(ns)[i as int],
                                ));
                                assert(views_of(items@)[i as int] == items@[i as int]@);
                                assert(mapped.subrange(0, i + 1) =~= mapped.subrange(
                                    0,
                                    i as int,
                                ).push(mapped[i as int]));
                            }
                            let line = if is_known_category(items[i].as_str()) {
                                str_concat("  - ", items[i].as_str())
                            } else {
                                str_concat(
                                    str_concat("  - ", items[i].as_str()).as_str(),
                                    " (not a known category)",
                                )
                            };
                            let ghost prev = out.lines;
                            out.say(line, false);
                            proof {
                                crate::text::lemma_views_push(prev@, line);
                                assert(views_of(out.lines@) =~= seq![hv] + mapped.subrange(
                                    0,
                                    i + 1,
                                ));
                            }
                            i += 1;
                        }
                        proof {
                            assert(mapped.subrange(0, mapped.len() as int) =~= mapped);
                            assert(views_of(out.lines@) =~= list_lines(ns));
                        }
                    }
                },
                None => {
                    out.say("No categories".to_owned(), false);
                    proof {
                        assert(views_of(out.lines@) =~= seq!["No categories"@]);
                    }
                },
            }
            Ok(out)
        },
        CategoriesCommand::Valid => {
            let mut out = Outcome::new();
            out.say("Valid crates.io categories:".to_owned(), false);
            out.say("".to_owned(), false);
            let cats = known_categories();
            let ghost cv = spec_categories();
            let ghost hdr = seq!["Valid crates.io categories:"@, ""@];
            proof {
                assert(views_of(out.lines@) =~= hdr);
            }
            let mut cur: String = String::new();
            let mut i: usize = 0;
            while i < cats.len()
                invariant
                    views_of(cats@) == cv,
                    cv == spec_categories(),
                    hdr == seq!["Valid crates.io categories:"@, ""@],
                    i <= cats@.len(),
                    out.save is None,
                    out.warnings@.len() == 0,
                    views_of(out.lines@) + valid_lines(cv, i as int, cur@) == hdr + valid_lines(
                        cv,
                        0,
                        Seq::empty(),
                    ),
                decreases cats@.len() - i,
            {
                let ghost pre = views_of(out.lines@);
                let c = cats[i].as_str();
                proof {
                    assert(views_of(cats@)[i as int] == cats@[i as int]@);
                    crate::text::lemma_idx_of(c@, ':');
                }
                let n = c.unicode_len();
                let idx = crate::text::find_char(c, ':');
                if idx < n {
                    proof {
                        assert(valid_lines(cv, i as int, cur@) == (if cat_top(cv[i as int]) != cur@ {
                            seq![""@, cat_top(cv[i as int]) + ":"@]
                        } else {
                            Seq::<Seq<char>>::empty()
                        }) + seq!["  - "@ + cv[i as int]] + valid_lines(
                            cv,
                            i + 1,
                            cat_top(cv[i as int]),
                        ));
                    }
                    let top = c.substring_char(0, idx).to_owned();
                    proof {
                        assert(top@ == cat_top(cv[i as int]));
                    }
                    if !crate::text::str_eq(top.as_str(), cur.as_str()) {
                        out.say("".to_owned(), false);
                        let hline = str_concat(top.as_str(), ":");
                        let ghost hl = hline@;
                        out.say(hline, false);
                        proof {
                            assert(views_of(out.lines@) =~= pre + seq![""@, hl]);
                        }
                    }
                    let ghost mid = views_of(out.lines@);
                    out.say(str_concat("  - ", c), false);
                    proof {
                        assert(views_of(out.lines@) =~= mid.push("  - "@ + cv[i as int]));
                        assert(views_of(out.lines@) + valid_lines(cv, i + 1, top@) =~= hdr
                            + valid_lines(cv, 0, Seq::empty()));
                    }
                    cur = top;
                } else {
                    proof {
                        assert(!has_colon(cv[i as int]));
                        assert(valid_lines(cv, i as int, cur@) == (if cur@.len() != 0 {
                            seq![""@]
                        } else {
                            Seq::<Seq<char>>::empty()
                        }) + seq!["- "@ + cv[i as int]] + valid_lines(cv, i + 1, Seq::empty()));
                    }
                    if !cur.as_str().is_empty() {
                        out.say("".to_owned(), false);
                        proof {
                            assert(views_of(out.lines@) =~= pre.push(""@));
                        }
                    }
                    let ghost mid = views_of(out.lines@);
                    out.say(str_concat("- ", c), false);
                    proof {
                        assert(views_of(out.lines@) =~= mid.push("- "@ + cv[i as int]));
                        assert(views_of(out.lines@) + valid_lines(cv, i + 1, Seq::<char>::empty())
                            =~= hdr + valid_lines(cv, 0, Seq::empty()));
                    }
                    cur = String::new();
                }
                i += 1;
            }
            proof {
                assert(valid_lines(cv, cats@.len() as int, cur@) =~= Seq::<Seq<char>>::empty());
                assert(views_of(out.lines@) + Seq::<Seq<char>>::empty() =~= views_of(out.lines@));
            }
            Ok(out)
        },
        CategoriesCommand::Clear => {
            let mut out = Outcome::new();
            if dry_run {
                if m.section_has_key("package", "categories") {
                    out.say("All categories cleared".to_owned(), quiet);
                    out.say("(dry run - no changes made)".to_owned(), false);
                } else {
                    if m.get_section("package").is_none() {
                        let rt = store::root(&m.doc);
                        proof {
                            crate::model::lemma_has_key_lookup(
                                store::table_entries(*rt),
                                "package"@,
                            );
                        }
                        if store::tbl_get(rt, "package").is_some() {
                            return Err(
                                EditError::TypeConflict(
                                    str_concat("package", " is not a table"),
                                ),
                            );
                        }
                    }
                    out.say("No categories to clear".to_owned(), quiet);
                    out.say("(dry run - no changes made)".to_owned(), false);
                }
                Ok(out)
            } else {
                match m.remove_section_key("package", "categories") {
                    Err(e) => Err(e),
                    Ok(true) => {
                        out.save = Some(m.serialize());
                        out.say("All categories cleared".to_owned(), quiet);
                        proof {
                            if !quiet {
                                assert(views_of(out.lines@) =~= seq!["All categories cleared"@]);
                            }
                        }
                        Ok(out)
                    },
                    Ok(false) => {
                        out.say("No categories to clear".to_owned(), quiet);
                        proof {
                            if !quiet {
                                assert(views_of(out.lines@) =~= seq!["No categories to clear"@]);
                            }
                        }
                        Ok(out)
                    },
                }
            }
        },
    }
}

} // verus!
