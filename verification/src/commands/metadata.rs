//! The metadata command: maintains nested values under the package
//! section's metadata table, addressed by dot-separated key paths.
use vstd::prelude::*;

use crate::jsonval::{decode_value, fold_tree, parse_json, tree_node, tree_ok, JsonTree};
use crate::manifest::{views_of_strs, Manifest};
use crate::model::{entries_at, has_key, insert_path, lookup, path_free, path_target_has, remove_key, remove_path, rm_path_ok, set_key, Entries, Node};
use crate::report::{EditError, Outcome};
use crate::store;
use crate::text::{split_char, split_on, str_concat, views_of};

verus! {

/// A sub-command of the metadata table.
pub enum MetadataCommand {
    /// Bind a value at the key path, creating intermediate tables; with
    /// `json` set the value is decoded as a structured literal.
    Add { key: String, value: String, json: bool },
    /// Unbind the key path.
    Remove { key: String },
    /// Show the whole metadata table.
    List,
    /// Remove the whole metadata table.
    Clear,
}

/// The full path of a dotted metadata key: the package section, the
/// metadata table, then the key's own segments.
pub open spec fn meta_path(key: Seq<char>) -> Seq<Seq<char>> {
    seq!["package"@, "metadata"@] + split_on(key, '.')
}

/// Builds the full path of a dotted metadata key, executably.
fn build_meta_path(key: &str) -> (r: Vec<String>)
    ensures
        views_of_strs(r@) == meta_path(key@),
        r@.len() >= 3,
{
    let mut path: Vec<String> = Vec::new();
    path.push("package".to_owned());
    path.push("metadata".to_owned());
    let mut segs = split_char(key, '.');
    path.append(&mut segs);
    proof {
        assert(views_of_strs(path@) =~= meta_path(key@));
        crate::text::lemma_idx_of(key@, '.');
    }
    path
}

/// Runs one metadata sub-command against the document.
pub fn handle(m: &mut Manifest, cmd: MetadataCommand, dry_run: bool, quiet: bool) -> (r: Result<
    Outcome,
    EditError,
>)
    ensures
        r matches Ok(out) ==> (out.save matches Some(s) ==> s@ == store::render(final(m).doc)),
        dry_run ==> (r matches Ok(out) ==> out.save is None),
        r is Err ==> final(m)@ == old(m)@,
        cmd matches MetadataCommand::Add { key, value, json } ==> !json ==> {
            &&& r is Ok <==> path_free(old(m)@, meta_path(key@), 0)
            &&& r is Ok ==> final(m)@ == insert_path(
                old(m)@,
                meta_path(key@),
                0,
                Node::Str(value@),
            )
            &&& (r matches Err(e) ==> e is TypeConflict)
        },
        cmd matches MetadataCommand::Add { key, value, json } ==> json ==> {
            &&& r is Ok ==> path_free(old(m)@, meta_path(key@), 0)
            &&& r is Ok ==> exists|t: JsonTree|
                tree_ok(t) && final(m)@ == insert_path(
                    old(m)@,
                    meta_path(key@),
                    0,
                    #[trigger] tree_node(t),
                )
        },
        cmd matches MetadataCommand::Remove { key } ==> {
            &&& r is Err <==> !rm_path_ok(old(m)@, meta_path(key@), 0)
            &&& r is Ok && !dry_run && path_target_has(old(m)@, meta_path(key@), 0) ==> final(m)@ == remove_path(old(m)@, meta_path(key@), 0)
            &&& (r is Ok && !path_target_has(old(m)@, meta_path(key@), 0)) || dry_run ==> final(m)@ == old(m)@
        },
        cmd is List ==> r is Ok && final(m)@ == old(m)@ && (r matches Ok(out) ==> out.save is None),
        cmd is List ==> (r matches Ok(out) ==> ((lookup(old(m)@, "package"@) matches Some(n)
            && n is Tab) && (lookup(entries_at(old(m)@, "package"@), "metadata"@) matches Some(mn)
            && mn is Tab) && entries_at(entries_at(old(m)@, "package"@), "metadata"@).len() > 0
            && plain_entries(entries_at(entries_at(old(m)@, "package"@), "metadata"@), 0)
            ==> views_of(out.lines@) == seq!["Metadata:"@] + render_lines(
            entries_at(entries_at(old(m)@, "package"@), "metadata"@),
            "  "@,
            0,
        ))),
        cmd matches MetadataCommand::Add { key, value, json } ==> !dry_run ==> (r matches Ok(out)
            ==> out.save is Some),
        cmd matches MetadataCommand::Remove { key } ==> !dry_run ==> (r matches Ok(out) ==> (
        out.save is Some <==> path_target_has(old(m)@, meta_path(key@), 0))),
        cmd is Clear ==> {
            &&& r is Err <==> (lookup(old(m)@, "package"@) matches Some(n) && !(n is Tab))
            &&& r is Ok && !dry_run && has_key(entries_at(old(m)@, "package"@), "metadata"@)
                && (lookup(old(m)@, "package"@) matches Some(n) && n is Tab) ==> final(m)@
                == set_key(
                old(m)@,
                "package"@,
                Node::Tab(remove_key(entries_at(old(m)@, "package"@), "metadata"@)),
            )
            &&& r is Ok && !has_key(entries_at(old(m)@, "package"@), "metadata"@) ==> final(m)@
                == old(m)@
            &&& !dry_run ==> (r matches Ok(out) ==> (out.save is Some <==> has_key(
                entries_at(old(m)@, "package"@),
                "metadata"@,
            )))
            &&& !dry_run && !quiet ==> (r matches Ok(out) ==> views_of(out.lines@) == seq![
                if has_key(entries_at(old(m)@, "package"@), "metadata"@) {
                    "All metadata cleared"@
                } else {
                    "No metadata to clear"@
                },
            ])
            &&& dry_run ==> final(m)@ == old(m)@
        },
{
    match cmd {
        MetadataCommand::Add { key, value, json } => {
            let mut out = Outcome::new();
            let path = build_meta_path(key.as_str());
            let ghost mut gt: JsonTree = JsonTree::Null;
            let item = if json {
                let decoded = match parse_json(value.as_str()) {
                    Ok(v) => v,
                    Err(_) => {
                        return Err(EditError::BadValue("Invalid JSON value".to_owned()));
                    },
                };
                let tree = decode_value(&decoded);
                let folded = match fold_tree(&tree) {
                    Ok(it) => it,
                    Err(e) => {
                        return Err(e);
                    },
                };
                proof {
                    gt = tree;
                }
                folded
            } else {
                store::mk_str_item(value.as_str())
            };
            let ghost nd = store::item_node(item);
            match m.insert_at(&path, item) {
                Err(e) => {
                    return Err(e);
                },
                Ok(()) => {},
            }
            proof {
                if json {
                    assert(tree_ok(gt) && final(m)@ == insert_path(
                        old(m)@,
                        meta_path(key@),
                        0,
                        tree_node(gt),
                    ));
                }
            }
            out.say(
                str_concat(
                    str_concat(str_concat("+ ", key.as_str()).as_str(), " = ").as_str(),
                    value.as_str(),
                ),
                quiet,
            );
            if !dry_run {
                out.save = Some(m.serialize());
                out.say("Metadata updated".to_owned(), quiet);
            } else {
                out.say("(dry run - no changes made)".to_owned(), false);
            }
            Ok(out)
        },
        MetadataCommand::Remove { key } => {
            let mut out = Outcome::new();
            let path = build_meta_path(key.as_str());
            if dry_run {
                let had = match m.query_at(&path) {
                    Ok(b) => b,
                    Err(e) => {
                        return Err(e);
                    },
                };
                if had {
                    out.say(
                        str_concat(
                            str_concat("Metadata '", key.as_str()).as_str(),
                            "' removed",
                        ),
                        quiet,
                    );
                    out.say("(dry run - no changes made)".to_owned(), false);
                } else {
                    out.say(
                        str_concat(
                            str_concat("Metadata '", key.as_str()).as_str(),
                            "' not found",
                        ),
                        quiet,
                    );
                }
                return Ok(out);
            }
            match m.remove_at(&path) {
                Err(e) => Err(e),
                Ok(true) => {
                    out.save = Some(m.serialize());
                    out.say(
                        str_concat(
                            str_concat("Metadata '", key.as_str()).as_str(),
                            "' removed",
                        ),
                        quiet,
                    );
                    Ok(out)
                },
                Ok(false) => {
                    out.say(
                        str_concat(
                            str_concat("Metadata '", key.as_str()).as_str(),
                            "' not found",
                        ),
                        quiet,
                    );
                    Ok(out)
                },
            }
        },
        MetadataCommand::List => {
            let mut out = Outcome::new();
            let mut shown = false;
            match m.get_section("package") {
                Some(t) => {
                    proof {
                        crate::model::lemma_has_key_lookup(store::table_entries(*t), "metadata"@);
                    }
                    match store::tbl_get(t, "metadata") {
                        Some(it) => {
                            match store::item_table(it) {
                                Some(mt) => {
                                    let ghost mes = store::table_entries(*mt);
                                    proof {
                                        assert(mes == entries_at(
                                            entries_at(m@, "package"@),
                                            "metadata"@,
                                        ));
                                    }
                                    if store::tbl_len(mt) == 0 {
                                        out.say("No metadata defined".to_owned(), false);
                                    } else {
                                        out.say("Metadata:".to_owned(), false);
                                        proof {
                                            assert(views_of(out.lines@) =~= seq!["Metadata:"@]);
                                        }
                                        render_table(mt, "  ", &mut out);
                                    }
                                    shown = true;
                                },
                                None => {},
                            }
                        },
                        None => {},
                    }
                },
                None => {},
            }
            if !shown {
                out.say("No metadata defined".to_owned(), false);
            }
            Ok(out)
        },
        MetadataCommand::Clear => {
            let mut out = Outcome::new();
            if dry_run {
                if m.section_has_key("package", "metadata") {
                    out.say("All metadata cleared".to_owned(), quiet);
                    out.say("(dry run - no changes made)".to_owned(), false);
                } else {
                    if m.get_section("package").is_none() {
                        let rt = store::root(&m.doc);
                        proof {
                            crate::model::lemma_has_key_lookup(
                                store::table_entries(*rt),
                                "package"@,
                            );
                        }
                        if store::tbl_get(rt, "package").is_some() {
                            return Err(
                                EditError::TypeConflict(
                                    str_concat("package", " is not a table"),
                                ),
                            );
                        }
                    }
                    out.say("No metadata to clear".to_owned(), quiet);
                    out.say("(dry run - no changes made)".to_owned(), false);
                }
                return Ok(out);
            }
            match m.remove_section_key("package", "metadata") {
                Err(e) => Err(e),
                Ok(true) => {
                    out.save = Some(m.serialize());
                    out.say("All metadata cleared".to_owned(), quiet);
                    proof {
                        if !quiet {
                            assert(views_of(out.lines@) =~= seq!["All metadata cleared"@]);
                        }
                    }
                    Ok(out)
                },
                Ok(false) => {
                    out.say("No metadata to clear".to_owned(), quiet);
                    proof {
                        if !quiet {
                            assert(views_of(out.lines@) =~= seq!["No metadata to clear"@]);
                        }
                    }
                    Ok(out)
                },
            }
        },
    }
}

/// Whether a node is one the renderer states exactly: a string, or a
/// table of such nodes.
pub open spec fn plain_node(n: Node) -> bool
    decreases n,
{
    match n {
        Node::Str(_) => true,
        Node::Tab(es) => plain_entries(es, 0),
        _ => false,
    }
}

/// Whether every entry from `i` on holds a plain node.
pub open spec fn plain_entries(es: Entries, i: int) -> bool
    decreases es, es.len() - i, 0int,
{
    if i < 0 || i >= es.len() {
        true
    } else {
        plain_node(es[i].1) && plain_entries(es, i + 1)
    }
}

/// `plain_entries` covers each entry.
proof fn lemma_plain_at(es: Entries, i: int, j: int)
    requires
        plain_entries(es, i),
        0 <= i <= j < es.len(),
    ensures
        plain_node(es[j].1),
    decreases j - i,
{
    if i < j {
        lemma_plain_at(es, i + 1, j);
    }
}

/// The lines the renderer shows for the entries from `i` on, under the
/// indentation prefix `ind`: a table prints a bracketed header and then
/// its own entries one level deeper, a string prints as a quoted
/// key/value line.  Meaningful for plain entries.
pub open spec fn render_lines(es: Entries, ind: Seq<char>, i: int) -> Seq<Seq<char>>
    decreases es, es.len() - i, 0int,
{
    if i < 0 || i >= es.len() {
        Seq::empty()
    } else {
        (match es[i].1 {
            Node::Str(sv) => seq![ind + es[i].0 + " = \""@ + sv + "\""@],
            Node::Tab(inner) => seq![ind + "["@ + es[i].0 + "]"@] + render_lines(
                inner,
                ind + "  "@,
                0,
            ),
            _ => Seq::empty(),
        }) + render_lines(es, ind, i + 1)
    }
}

/// Renders a metadata table: tables as bracketed headers with their own
/// entries one level deeper, strings as quoted key/value lines, anything
/// else in its display form.
fn render_table(t: &toml_edit::Table, ind: &str, out: &mut Outcome)
    ensures
        final(out).save == old(out).save,
        final(out).warnings == old(out).warnings,
        plain_entries(store::table_entries(*t), 0) ==> views_of(final(out).lines@) == views_of(
            old(out).lines@,
        ) + render_lines(store::table_entries(*t), ind@, 0),
    decreases store::table_entries(*t),
{
    let ghost es = store::table_entries(*t);
    let ghost w0 = views_of(out.lines@);
    let n = store::tbl_len(t);
    let mut i: usize = 0;
    while i < n
        invariant
            es == store::table_entries(*t),
            n == es.len(),
            i <= n,
            out.save == old(out).save,
            out.warnings == old(out).warnings,
            w0 == views_of(old(out).lines@),
            plain_entries(es, 0) ==> views_of(out.lines@) + render_lines(es, ind@, i as int) == w0
                + render_lines(es, ind@, 0),
        decreases n - i,
    {
        let ghost pre_lines = views_of(out.lines@);
        proof {
            if plain_entries(es, 0) {
                lemma_plain_at(es, 0, i as int);
            }
            assert(render_lines(es, ind@, i as int) == (match es[i as int].1 {
                Node::Str(sv) => seq![ind@ + es[i as int].0 + " = \""@ + sv + "\""@],
                Node::Tab(inner) => seq![ind@ + "["@ + es[i as int].0 + "]"@] + render_lines(
                    inner,
                    ind@ + "  "@,
                    0,
                ),
                _ => Seq::empty(),
            }) + render_lines(es, ind@, i + 1));
        }
        let (key, it) = store::tbl_entry_at(t, i);
        match store::item_table(it) {
            Some(sub) => {
                proof {
                    assert(decreases_to!(es => es[i as int]));
                    assert(decreases_to!(es[i as int] => es[i as int].1));
                    assert(es[i as int].1 == Node::Tab(store::table_entries(*sub)));
                }
                let hdr = str_concat(
                    str_concat(str_concat(ind, "[").as_str(), key.as_str()).as_str(),
                    "]",
                );
                let ghost hv = hdr@;
                out.say(hdr, false);
                proof {
                    assert(views_of(out.lines@) =~= pre_lines.push(hv));
                }
                let deeper = str_concat(ind, "  ");
                render_table(sub, deeper.as_str(), out);
                proof {
                    if plain_entries(es, 0) {
                        let inner = store::table_entries(*sub);
                        assert(views_of(out.lines@) =~= pre_lines + seq![hv] + render_lines(
                            inner,
                            ind@ + "  "@,
                            0,
                        ));
                        assert(views_of(out.lines@) + render_lines(es, ind@, i + 1) =~= w0
                            + render_lines(es, ind@, 0));
                    }
                }
            },
            None => {
                match store::item_str(it) {
                    Some(sv) => {
                        let line = str_concat(
                            str_concat(
                                str_concat(str_concat(ind, key.as_str()).as_str(), " = \"").as_str(),
                                sv.as_str(),
                            ).as_str(),
                            "\"",
                        );
                        let ghost lv = line@;
                        out.say(line, false);
                        proof {
                            if plain_entries(es, 0) {
                                assert(views_of(out.lines@) =~= pre_lines.push(lv));
                                assert(views_of(out.lines@) + render_lines(es, ind@, i + 1) =~= w0
                                    + render_lines(es, ind@, 0));
                            }
                        }
                    },
                    None => {
                        out.say(
                            str_concat(
                                str_concat(
                                    str_concat(ind, key.as_str()).as_str(),
                                    " = ",
                                ).as_str(),
                                store::item_display(it).as_str(),
                            ),
                            false,
                        );
                        proof {
                            assert(!plain_entries(es, 0));
                        }
                    },
                }
            },
        }
        i += 1;
    }
    proof {
        assert(render_lines(es, ind@, n as int) =~= Seq::<Seq<char>>::empty());
        if plain_entries(es, 0) {
            assert(views_of(out.lines@) + Seq::<Seq<char>>::empty() =~= views_of(out.lines@));
        }
    }
}

} // verus!
