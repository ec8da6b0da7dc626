//! The package summary: a read-only rendering of the common package
//! fields.
use vstd::prelude::*;

use crate::manifest::Manifest;
use crate::model::{entries_at, items_at, lookup, strs_of, Entries, Node};
use crate::report::Outcome;
use crate::text::{dec_str, lemma_views_push, str_concat, u64_to_string, views_of};

verus! {

/// The line a string field shows: `Label: value`, or nothing if the field
/// is absent or not a string.
pub open spec fn field_line(ses: Entries, label: Seq<char>, key: Seq<char>) -> Seq<Seq<char>> {
    match lookup(ses, key) {
        Some(Node::Str(v)) => seq![label + ": "@ + v],
        _ => Seq::empty(),
    }
}

/// The tail of a comma-separated listing: `, item` for each item from `i`
/// on.
pub open spec fn inline_rest(ss: Seq<Seq<char>>, i: int) -> Seq<char>
    decreases ss.len() - i,
{
    if i < 0 || i >= ss.len() {
        Seq::empty()
    } else {
        ", "@ + ss[i] + inline_rest(ss, i + 1)
    }
}

/// The line an array field shows inline: `Label: a, b, c` over its string
/// items, or nothing if the field is not an array or has no string item.
pub open spec fn inline_line(ses: Entries, label: Seq<char>, key: Seq<char>) -> Seq<Seq<char>> {
    match lookup(ses, key) {
        Some(Node::Arr(ns)) => if strs_of(ns).len() > 0 {
            seq![label + ": "@ + strs_of(ns)[0] + inline_rest(strs_of(ns), 1)]
        } else {
            Seq::empty()
        },
        _ => Seq::empty(),
    }
}

/// The lines an array field shows as a block: a counted header then one
/// line per string item, or nothing if the field is not an array or is
/// empty.
pub open spec fn block_lines(ses: Entries, label: Seq<char>, key: Seq<char>) -> Seq<Seq<char>> {
    match lookup(ses, key) {
        Some(Node::Arr(ns)) => if ns.len() > 0 {
            seq![label + " ("@ + dec_str(ns.len()) + "):"@] + strs_of(ns).map_values(
                (|s: Seq<char>| "  - "@ + s),
            )
        } else {
            Seq::empty()
        },
        _ => Seq::empty(),
    }
}

/// Adds a `Label: value` line for a string field, if present.
fn say_field(m: &Manifest, label: &str, field: &str, out: &mut Outcome)
    ensures
        final(out).save == old(out).save,
        final(out).warnings == old(out).warnings,
        views_of(final(out).lines@) == views_of(old(out).lines@) + field_line(
            entries_at(m@, "package"@),
            label@,
            field@,
        ),
{
    let ghost pre = views_of(out.lines@);
    match m.section_str("package", field) {
        Some(v) => {
            let line = str_concat(str_concat(label, ": ").as_str(), v.as_str());
            let ghost lv = line@;
            out.say(line, false);
            proof {
                assert(views_of(out.lines@) =~= pre + field_line(
                    entries_at(m@, "package"@),
                    label@,
                    field@,
                ));
            }
        },
        None => {
            proof {
                assert(views_of(out.lines@) =~= pre + field_line(
                    entries_at(m@, "package"@),
                    label@,
                    field@,
                ));
            }
        },
    }
}

/// Adds the items of a string-array field on one line, comma separated,
/// if the field holds an array with a string item.
fn say_array_inline(m: &Manifest, label: &str, field: &str, out: &mut Outcome)
    ensures
        final(out).save == old(out).save,
        final(out).warnings == old(out).warnings,
        views_of(final(out).lines@) == views_of(old(out).lines@) + inline_line(
            entries_at(m@, "package"@),
            label@,
            field@,
        ),
{
    let ghost pre = views_of(out.lines@);
    let ghost ses = entries_at(m@, "package"@);
    match m.section_array_strings("package", field) {
        Some(p) => {
            let (items, _total) = p;
            let ghost ns = items_at(ses, field@);
            let ghost ss = strs_of(ns);
            if items.len() > 0 {
                let mut line = str_concat(str_concat(label, ": ").as_str(), items[0].as_str());
                let mut i: usize = 1;
                while i < items.len()
                    invariant
                        views_of(items@) == ss,
                        1 <= i <= items@.len(),
                        out.save == old(out).save,
                        out.warnings == old(out).warnings,
                        views_of(out.lines@) == pre,
                        line@ + inline_rest(ss, i as int) == label@ + ": "@ + ss[0] + inline_rest(
                            ss,
                            1,
                        ),
                    decreases items@.len() - i,
                {
                    proof {
                        assert(inline_rest(ss, i as int) == ", "@ + ss[i as int] + inline_rest(
                            ss,
                            i + 1,
                        ));
                        assert(views_of(items@)[i as int] == items@[i as int]@);
                    }
                    let ghost before = line@;
                    line = str_concat(str_concat(line.as_str(), ", ").as_str(), items[i].as_str());
                    proof {
                        assert(line@ + inline_rest(ss, i + 1) =~= before + inline_rest(
                            ss,
                            i as int,
                        ));
                    }
                    i += 1;
                }
                proof {
                    assert(inline_rest(ss, items@.len() as int) =~= Seq::<char>::empty());
                    assert(line@ + Seq::<char>::empty() =~= line@);
                }
                let ghost lv = line@;
                out.say(line, false);
                proof {
                    assert(views_of(out.lines@) =~= pre + inline_line(ses, label@, field@));
                }
            } else {
                proof {
                    assert(views_of(out.lines@) =~= pre + inline_line(ses, label@, field@));
                }
            }
        },
        None => {
            proof {
                assert(views_of(out.lines@) =~= pre + inline_line(ses, label@, field@));
            }
        },
    }
}

/// Adds a counted header and one line per string item for an array field,
/// if the field holds a non-empty array.
fn say_array_block(m: &Manifest, label: &str, field: &str, out: &mut Outcome)
    ensures
        final(out).save == old(out).save,
        final(out).warnings == old(out).warnings,
        views_of(final(out).lines@) == views_of(old(out).lines@) + block_lines(
            entries_at(m@, "package"@),
            label@,
            field@,
        ),
{
    let ghost pre = views_of(out.lines@);
    let ghost ses = entries_at(m@, "package"@);
    match m.section_array_strings("package", field) {
        Some(p) => {
            let (items, total) = p;
            let ghost ns = items_at(ses, field@);
            let ghost mapped = strs_of(ns).map_values((|s: Seq<char>| "  - "@ + s));
            if total > 0 {
                let header = str_concat(
                    str_concat(
                        str_concat(label, " (").as_str(),
                        u64_to_string(total as u64).as_str(),
                    ).as_str(),
                    "):",
                );
                let ghost hv = header@;
                out.say(header, false);
                proof {
                    assert(hv == label@ + " ("@ + dec_str(ns.len()) + "):"@);
                    assert(views_of(out.lines@) =~= pre + seq![hv] + mapped.subrange(0, 0));
                }
                let mut i: usize = 0;
                while i < items.len()
                    invariant
                        views_of(items@) == strs_of(ns),
                        mapped == strs_of(ns).map_values((|s: Seq<char>| "  - "@ + s)),
                        i <= items@.len(),
                        out.save == old(out).save,
                        out.warnings == old(out).warnings,
                        views_of(out.lines@) == pre + seq![hv] + mapped.subrange(0, i as int),
                        hv == label@ + " ("@ + dec_str(ns.len()) + "):"@,
                    decreases items@.len() - i,
                {
                    proof {
                        assert(mapped[i as int] == "  - "@ + strs_of(ns)[i as int]);
                        assert(views_of(items@)[i as int] == items@[i as int]@);
                        assert(mapped.subrange(0, i + 1) =~= mapped.subrange(0, i as int).push(
                            mapped[i as int],
                        ));
                    }
                    let line = str_concat("  - ", items[i].as_str());
                    let ghost prev = out.lines;
                    out.say(line, false);
                    proof {
                        lemma_views_push(prev@, line);
                        assert(views_of(out.lines@) =~= pre + seq![hv] + mapped.subrange(0, i + 1));
                    }
                    i += 1;
                }
                proof {
                    assert(mapped.subrange(0, mapped.len() as int) =~= mapped);
                    assert(views_of(out.lines@) =~= pre + block_lines(ses, label@, field@));
                }
            } else {
                proof {
                    assert(ns.len() == 0);
                    assert(views_of(out.lines@) =~= pre + block_lines(ses, label@, field@));
                }
            }
        },
        None => {
            proof {
                assert(views_of(out.lines@) =~= pre + block_lines(ses, label@, field@));
            }
        },
    }
}

/// Every line the summary shows for a package table.
pub open spec fn info_lines(ses: Entries) -> Seq<Seq<char>> {
    seq!["Package Information"@] + field_line(ses, "Name"@, "name"@) + field_line(
        ses,
        "Version"@,
        "version"@,
    ) + field_line(ses, "Edition"@, "edition"@) + field_line(ses, "Rust Version"@, "rust-version"@)
        + field_line(ses, "Description"@, "description"@) + field_line(ses, "License"@, "license"@)
        + inline_line(ses, "Authors"@, "authors"@) + field_line(ses, "Homepage"@, "homepage"@)
        + field_line(ses, "Repository"@, "repository"@) + field_line(
        ses,
        "Documentation"@,
        "documentation"@,
    ) + block_lines(ses, "Keywords"@, "keywords"@) + block_lines(ses, "Categories"@, "categories"@)
        + block_lines(ses, "Exclude"@, "exclude"@) + block_lines(ses, "Include"@, "include"@)
}

/// Shows the package information summary.  Never mutates and never saves.
pub fn handle(m: &Manifest) -> (r: Outcome)
    ensures
        r.save is None,
        r.warnings@.len() == 0,
        (lookup(m@, "package"@) matches Some(n) && n is Tab) ==> views_of(r.lines@) == info_lines(
            entries_at(m@, "package"@),
        ),
        !(lookup(m@, "package"@) matches Some(n) && n is Tab) ==> views_of(r.lines@) == seq![
            "No [package] section found"@,
        ],
{
    let mut out = Outcome::new();
    match m.package() {
        Some(_) => {
            out.say("Package Information".to_owned(), false);
            say_field(m, "Name", "name", &mut out);
            say_field(m, "Version", "version", &mut out);
            say_field(m, "Edition", "edition", &mut out);
            say_field(m, "Rust Version", "rust-version", &mut out);
            say_field(m, "Description", "description", &mut out);
            say_field(m, "License", "license", &mut out);
            say_array_inline(m, "Authors", "authors", &mut out);
            say_field(m, "Homepage", "homepage", &mut out);
            say_field(m, "Repository", "repository", &mut out);
            say_field(m, "Documentation", "documentation", &mut out);
            say_array_block(m, "Keywords", "keywords", &mut out);
            say_array_block(m, "Categories", "categories", &mut out);
            say_array_block(m, "Exclude", "exclude", &mut out);
            say_array_block(m, "Include", "include", &mut out);
            proof {
                assert(views_of(out.lines@) =~= info_lines(entries_at(m@, "package"@)));
            }
        },
        None => {
            out.say("No [package] section found".to_owned(), false);
            proof {
                assert(views_of(out.lines@) =~= seq!["No [package] section found"@]);
            }
        },
    }
    out
}

} // verus!
