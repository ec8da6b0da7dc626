//! The badges command: maintains the top-level badges section, one table
//! per badge type.
use vstd::prelude::*;

use crate::manifest::{views_of_strs, Manifest};
use crate::model::{entries_at, has_key, insert_path, lemma_has_key_lookup, lemma_lookup_set_same, lookup, path_free, remove_key, set_key, table_slot_free, Entries, Node};
use crate::report::{EditError, Outcome};
use crate::store;
use crate::text::{str_concat, views_of};

verus! {

/// A sub-command of the badges section.
pub enum BadgesCommand {
    /// Create or update one badge: a table of attribute/value strings.
    Add(String, Vec<(String, String)>),
    /// Remove one badge.
    Remove(String),
    /// Show every badge with its attributes.
    List,
    /// Remove the whole badges section.
    Clear,
}

/// The attribute lines one badge shows: its string attributes as quoted
/// key/value lines, in storage order.
pub open spec fn attr_lines(es: Entries, j: int) -> Seq<Seq<char>>
    decreases es.len() - j,
{
    if j < 0 || j >= es.len() {
        Seq::empty()
    } else {
        (match es[j].1 {
            Node::Str(v) => seq!["    "@ + es[j].0 + " = \""@ + v + "\""@],
            _ => Seq::empty(),
        }) + attr_lines(es, j + 1)
    }
}

/// The lines the badge listing shows from badge `i` on: one bracketed
/// header per badge, then its string attributes.
pub open spec fn badges_lines(es: Entries, i: int) -> Seq<Seq<char>>
    decreases es.len() - i,
{
    if i < 0 || i >= es.len() {
        Seq::empty()
    } else {
        seq!["  ["@ + es[i].0 + "]"@] + (match es[i].1 {
            Node::Tab(inner) => attr_lines(inner, 0),
            _ => Seq::empty(),
        }) + badges_lines(es, i + 1)
    }
}

/// The document after the badge table for `bt` is made to exist: what is
/// already a table stays, anything else is replaced by an empty table.
pub open spec fn badge_base(root: Entries, bt: Seq<char>) -> Entries {
    if lookup(entries_at(root, "badges"@), bt) matches Some(n) && n is Tab {
        root
    } else {
        set_key(
            root,
            "badges"@,
            Node::Tab(set_key(entries_at(root, "badges"@), bt, Node::Tab(Seq::empty()))),
        )
    }
}

/// The document after the first `i` attributes are written into the badge
/// table for `bt`.
pub open spec fn badge_add_state(
    root: Entries,
    bt: Seq<char>,
    attrs: Seq<(Seq<char>, Seq<char>)>,
    i: int,
) -> Entries
    decreases i,
{
    if i <= 0 {
        badge_base(root, bt)
    } else {
        let prev = badge_add_state(root, bt, attrs, i - 1);
        set_key(
            prev,
            "badges"@,
            Node::Tab(
                set_key(
                    entries_at(prev, "badges"@),
                    bt,
                    Node::Tab(
                        set_key(
                            entries_at(entries_at(prev, "badges"@), bt),
                            attrs[i - 1].0,
                            Node::Str(attrs[i - 1].1),
                        ),
                    ),
                ),
            ),
        )
    }
}

/// The attribute pairs' views.
pub open spec fn attr_views(attrs: Seq<(String, String)>) -> Seq<(Seq<char>, Seq<char>)> {
    attrs.map_values(|p: (String, String)| (p.0@, p.1@))
}

/// Whether the badges slot and the badge's own slot can be written: each
/// is absent or already a table.
pub open spec fn badge_ready(root: Entries, bt: Seq<char>) -> bool {
    table_slot_free(root, "badges"@) && table_slot_free(entries_at(root, "badges"@), bt)
}

/// Runs one badges sub-command against the document.
pub fn handle(m: &mut Manifest, cmd: BadgesCommand, dry_run: bool, quiet: bool) -> (r: Result<
    Outcome,
    EditError,
>)
    ensures
        r matches Ok(out) ==> (out.save matches Some(s) ==> s@ == store::render(final(m).doc)),
        dry_run ==> (r matches Ok(out) ==> out.save is None),
        r is Err ==> final(m)@ == old(m)@,
        cmd matches BadgesCommand::Add(bt, attrs) ==> {
            &&& r is Ok <==> badge_ready(old(m)@, bt@)
            &&& r is Ok ==> final(m)@ == badge_add_state(
                old(m)@,
                bt@,
                attr_views(attrs@),
                attrs@.len() as int,
            )
            &&& (r matches Ok(out) ==> views_of(out.warnings@) == (if (lookup(
                old(m)@,
                "badges"@,
            ) matches Some(n) && n is Tab) && has_key(entries_at(old(m)@, "badges"@), bt@) {
                seq!["Badge '"@ + bt@ + "' already exists, updating..."@]
            } else {
                Seq::<Seq<char>>::empty()
            }))
            &&& (r matches Err(e) ==> e is TypeConflict)
        },
        cmd matches BadgesCommand::Remove(bt) ==> {
            &&& r is Err <==> !(lookup(old(m)@, "badges"@) matches Some(n) && n is Tab)
            &&& r is Ok && has_key(entries_at(old(m)@, "badges"@), bt@) && !dry_run ==> final(m)@ == set_key(
                old(m)@,
                "badges"@,
                Node::Tab(remove_key(entries_at(old(m)@, "badges"@), bt@)),
            )
            &&& (r is Ok && !has_key(entries_at(old(m)@, "badges"@), bt@)) || dry_run ==> final(m)@ == old(m)@
        },
        cmd is List ==> r is Ok && final(m)@ == old(m)@ && (r matches Ok(out) ==> out.save is None
            && views_of(out.lines@) == (if (lookup(old(m)@, "badges"@) matches Some(n) && n is Tab)
            && entries_at(old(m)@, "badges"@).len() > 0 {
            seq!["Badges:"@] + badges_lines(entries_at(old(m)@, "badges"@), 0)
        } else {
            seq!["No badges defined"@]
        })),
        cmd matches BadgesCommand::Clear ==> {
            &&& r is Ok
            &&& !dry_run && has_key(old(m)@, "badges"@) ==> final(m)@ == remove_key(
                old(m)@,
                "badges"@,
            )
            &&& dry_run || !has_key(old(m)@, "badges"@) ==> final(m)@ == old(m)@
        },
{
    match cmd {
        BadgesCommand::Add(bt, attrs) => {
            let ghost root0 = m@;
            let ghost av = attr_views(attrs@);
            let mut out = Outcome::new();
            // Check both slots before touching anything.
            {
                let rt = store::root(&m.doc);
                proof {
                    lemma_has_key_lookup(store::table_entries(*rt), "badges"@);
                }
                match store::tbl_get(rt, "badges") {
                    None => {},
                    Some(it) => {
                        match store::item_table(it) {
                            None => {
                                return Err(
                                    EditError::TypeConflict("badges is not a table".to_owned()),
                                );
                            },
                            Some(t2) => {
                                proof {
                                    lemma_has_key_lookup(store::table_entries(*t2), bt@);
                                }
                                match store::tbl_get(t2, bt.as_str()) {
                                    None => {},
                                    Some(it2) => {
                                        if store::item_table(it2).is_none() {
                                            return Err(
                                                EditError::TypeConflict(
                                                    "badge entry is not a table".to_owned(),
                                                ),
                                            );
                                        }
                                    },
                                }
                            },
                        }
                    },
                }
            }
            if m.section_has_key("badges", bt.as_str()) {
                out.warn(
                    str_concat(
                        str_concat("Badge '", bt.as_str()).as_str(),
                        "' already exists, updating...",
                    ),
                );
                proof {
                    assert(views_of(out.warnings@) =~= seq![
                        "Badge '"@ + bt@ + "' already exists, updating..."@,
                    ]);
                }
            } else {
                proof {
                    assert(views_of(out.warnings@) =~= Seq::<Seq<char>>::empty());
                }
            }
            let ghost warns0 = out.warnings;
            // Make the badge table exist.
            if !m.section_has_key("badges", bt.as_str()) {
                let mut path: Vec<String> = Vec::new();
                path.push("badges".to_owned());
                path.push(bt.clone());
                proof {
                    let vp = views_of_strs(path@);
                    assert(vp.len() == 2);
                    assert(vp[0] == "badges"@);
                    assert(vp[1] == bt@);
                    assert(path_free(entries_at(root0, "badges"@), vp, 1));
                    assert(path_free(root0, vp, 0) == table_slot_free(root0, "badges"@));
                    assert(insert_path(entries_at(root0, "badges"@), vp, 1, Node::Tab(Seq::empty()))
                        == set_key(entries_at(root0, "badges"@), bt@, Node::Tab(Seq::empty())));
                }
                match m.insert_at(&path, store::mk_table_item()) {
                    Err(e) => {
                        return Err(e);
                    },
                    Ok(()) => {},
                }
            } else {
                proof {
                    lemma_has_key_lookup(entries_at(root0, "badges"@), bt@);
                }
            }
            proof {
                assert(m@ == badge_base(root0, bt@));
                assert(badge_add_state(root0, bt@, av, 0) == badge_base(root0, bt@));
                if lookup(entries_at(root0, "badges"@), bt@) matches Some(n) && n is Tab {
                    assert(lookup(Seq::<(Seq<char>, Node)>::empty(), bt@) is None);
                    assert(lookup(root0, "badges"@) matches Some(n2) && n2 is Tab);
                } else {
                    lemma_lookup_set_same(
                        root0,
                        "badges"@,
                        Node::Tab(
                            set_key(entries_at(root0, "badges"@), bt@, Node::Tab(Seq::empty())),
                        ),
                    );
                    lemma_lookup_set_same(
                        entries_at(root0, "badges"@),
                        bt@,
                        Node::Tab(Seq::empty()),
                    );
                }
            }
            // Write the attributes, one insert each.
            let mut i: usize = 0;
            while i < attrs.len()
                invariant
                    i <= attrs@.len(),
                    av == attr_views(attrs@),
                    out.warnings == warns0,
                    m@ == badge_add_state(root0, bt@, av, i as int),
                    lookup(m@, "badges"@) matches Some(n) && n is Tab,
                    lookup(entries_at(m@, "badges"@), bt@) matches Some(n) && n is Tab,
                    out.save is None,
                decreases attrs@.len() - i,
            {
                let ghost pre = m@;
                let mut path: Vec<String> = Vec::new();
                path.push("badges".to_owned());
                path.push(bt.clone());
                path.push(attrs[i].0.clone());
                proof {
                    let vp = views_of_strs(path@);
                    assert(vp.len() == 3);
                    assert(vp[0] == "badges"@);
                    assert(vp[1] == bt@);
                    assert(vp[2] == av[i as int].0);
                    assert(av[i as int] == (attrs@[i as int].0@, attrs@[i as int].1@));
                    assert(path_free(
                        entries_at(entries_at(pre, "badges"@), bt@),
                        vp,
                        2,
                    ));
                    assert(path_free(entries_at(pre, "badges"@), vp, 1));
                    assert(path_free(pre, vp, 0));
                }
                let item = store::mk_str_item(attrs[i].1.as_str());
                let ghost nd = store::item_node(item);
                match m.insert_at(&path, item) {
                    Err(_) => {
                        proof {
                            assert(false);
                        }
                    },
                    Ok(()) => {},
                }
                proof {
                    let vp = views_of_strs(path@);
                    assert(insert_path(
                        entries_at(entries_at(pre, "badges"@), bt@),
                        vp,
                        2,
                        nd,
                    ) == set_key(entries_at(entries_at(pre, "badges"@), bt@), av[i as int].0, nd));
                    assert(insert_path(entries_at(pre, "badges"@), vp, 1, nd) == set_key(
                        entries_at(pre, "badges"@),
                        bt@,
                        Node::Tab(
                            set_key(
                                entries_at(entries_at(pre, "badges"@), bt@),
                                av[i as int].0,
                                nd,
                            ),
                        ),
                    ));
                    assert(m@ == badge_add_state(root0, bt@, av, i + 1));
                    let nxt = badge_add_state(root0, bt@, av, i + 1);
                    lemma_lookup_set_same(
                        pre,
                        "badges"@,
                        Node::Tab(
                            set_key(
                                entries_at(pre, "badges"@),
                                bt@,
                                Node::Tab(
                                    set_key(
                                        entries_at(entries_at(pre, "badges"@), bt@),
                                        av[i as int].0,
                                        nd,
                                    ),
                                ),
                            ),
                        ),
                    );
                    lemma_lookup_set_same(
                        entries_at(pre, "badges"@),
                        bt@,
                        Node::Tab(
                            set_key(
                                entries_at(entries_at(pre, "badges"@), bt@),
                                av[i as int].0,
                                nd,
                            ),
                        ),
                    );
                }
                out.say(
                    str_concat(
                        str_concat(str_concat("  ", attrs[i].0.as_str()).as_str(), " = ").as_str(),
                        attrs[i].1.as_str(),
                    ),
                    quiet,
                );
                i += 1;
            }
            if !dry_run {
                out.save = Some(m.serialize());
                out.say(
                    str_concat(str_concat("Badge '", bt.as_str()).as_str(), "' added"),
                    quiet,
                );
            } else {
                out.say("(dry run - no changes made)".to_owned(), false);
            }
            Ok(out)
        },
        BadgesCommand::Remove(bt) => {
            let mut out = Outcome::new();
            // The badges section must exist as a table.
            {
                let rt = store::root(&m.doc);
                proof {
                    lemma_has_key_lookup(store::table_entries(*rt), "badges"@);
                }
                match store::tbl_get(rt, "badges") {
                    None => {
                        return Err(EditError::NotFound("badges section not found".to_owned()));
                    },
                    Some(it) => {
                        if store::item_table(it).is_none() {
                            return Err(
                                EditError::TypeConflict("badges is not a table".to_owned()),
                            );
                        }
                    },
                }
            }
            if dry_run {
                if m.section_has_key("badges", bt.as_str()) {
                    out.say(
                        str_concat(str_concat("Badge '", bt.as_str()).as_str(), "' removed"),
                        quiet,
                    );
                    out.say("(dry run - no changes made)".to_owned(), false);
                } else {
                    out.say(
                        str_concat(str_concat("Badge '", bt.as_str()).as_str(), "' not found"),
                        quiet,
                    );
                }
                return Ok(out);
            }
            match m.remove_section_key("badges", bt.as_str()) {
                Err(e) => Err(e),
                Ok(true) => {
                    out.save = Some(m.serialize());
                    out.say(
                        str_concat(str_concat("Badge '", bt.as_str()).as_str(), "' removed"),
                        quiet,
                    );
                    Ok(out)
                },
                Ok(false) => {
                    out.say(
                        str_concat(str_concat("Badge '", bt.as_str()).as_str(), "' not found"),
                        quiet,
                    );
                    Ok(out)
                },
            }
        },
        BadgesCommand::List => {
            let mut out = Outcome::new();
            match m.get_section("badges") {
                Some(t) => {
                    let ghost es = store::table_entries(*t);
                    let n = store::tbl_len(t);
                    if n == 0 {
                        out.say("No badges defined".to_owned(), false);
                        proof {
                            assert(views_of(out.lines@) =~= seq!["No badges defined"@]);
                        }
                    } else {
                        out.say("Badges:".to_owned(), false);
                        proof {
                            assert(views_of(out.lines@) =~= seq!["Badges:"@]);
                        }
                        let mut i: usize = 0;
                        while i < n
                            invariant
                                es == store::table_entries(*t),
                                n == es.len(),
                                i <= n,
                                out.save is None,
                                views_of(out.lines@) + badges_lines(es, i as int) == seq![
                                    "Badges:"@,
                                ] + badges_lines(es, 0),
                            decreases n - i,
                        {
                            let ghost pre = views_of(out.lines@);
                            proof {
                                assert(badges_lines(es, i as int) == seq![
                                    "  ["@ + es[i as int].0 + "]"@,
                                ] + (match es[i as int].1 {
                                    Node::Tab(inner) => attr_lines(inner, 0),
                                    _ => Seq::empty(),
                                }) + badges_lines(es, i + 1));
                            }
                            let (key, it) = store::tbl_entry_at(t, i);
                            let hdr = str_concat(str_concat("  [", key.as_str()).as_str(), "]");
                            let ghost hv = hdr@;
                            out.say(hdr, false);
                            proof {
                                assert(views_of(out.lines@) =~= pre.push(hv));
                            }
                            match store::item_table(it) {
                                Some(cfg) => {
                                    let ghost inner = store::table_entries(*cfg);
                                    let ghost base = views_of(out.lines@);
                                    let k = store::tbl_len(cfg);
                                    let mut j: usize = 0;
                                    while j < k
                                        invariant
                                            inner == store::table_entries(*cfg),
                                            k == inner.len(),
                                            j <= k,
                                            out.save is None,
                                            views_of(out.lines@) + attr_lines(inner, j as int)
                                                == base + attr_lines(inner, 0),
                                        decreases k - j,
                                    {
                                        let ghost pre2 = views_of(out.lines@);
                                        proof {
                                            assert(attr_lines(inner, j as int) == (
                                            match inner[j as int].1 {
                                                Node::Str(v) => seq![
                                                    "    "@ + inner[j as int].0 + " = \""@ + v
                                                        + "\""@,
                                                ],
                                                _ => Seq::empty(),
                                            }) + attr_lines(inner, j + 1));
                                        }
                                        let (ak, av_it) = store::tbl_entry_at(cfg, j);
                                        match store::item_str(av_it) {
                                            Some(v) => {
                                                let line = str_concat(
                                                    str_concat(
                                                        str_concat(
                                                            str_concat("    ", ak.as_str()).as_str(),
                                                            " = \"",
                                                        ).as_str(),
                                                        v.as_str(),
                                                    ).as_str(),
                                                    "\"",
                                                );
                                                let ghost lv = line@;
                                                out.say(line, false);
                                                proof {
                                                    assert(views_of(out.lines@) =~= pre2.push(lv));
                                                    assert(views_of(out.lines@) + attr_lines(
                                                        inner,
                                                        j + 1,
                                                    ) =~= base + attr_lines(inner, 0));
                                                }
                                            },
                                            None => {},
                                        }
                                        j += 1;
                                    }
                                    proof {
                                        assert(attr_lines(inner, k as int)
                                            =~= Seq::<Seq<char>>::empty());
                                        assert(views_of(out.lines@) + Seq::<Seq<char>>::empty()
                                            =~= views_of(out.lines@));
                                        assert(views_of(out.lines@) + badges_lines(es, i + 1)
                                            =~= seq!["Badges:"@] + badges_lines(es, 0));
                                    }
                                },
                                None => {
                                    proof {
                                        assert(views_of(out.lines@) + badges_lines(es, i + 1)
                                            =~= seq!["Badges:"@] + badges_lines(es, 0));
                                    }
                                },
                            }
                            i += 1;
                        }
                        proof {
                            assert(badges_lines(es, n as int) =~= Seq::<Seq<char>>::empty());
                            assert(views_of(out.lines@) + Seq::<Seq<char>>::empty() =~= views_of(
                                out.lines@,
                            ));
                        }
                    }
                },
                None => {
                    out.say("No badges defined".to_owned(), false);
                    proof {
                        assert(views_of(out.lines@) =~= seq!["No badges defined"@]);
                    }
                },
            }
            Ok(out)
        },
        BadgesCommand::Clear => {
            let mut out = Outcome::new();
            if dry_run {
                let rt = store::root(&m.doc);
                if store::tbl_contains(rt, "badges") {
                    out.say("All badges cleared".to_owned(), quiet);
                    out.say("(dry run - no changes made)".to_owned(), false);
                } else {
                    out.say("No badges to clear".to_owned(), quiet);
                }
                return Ok(out);
            }
            if m.remove_root_key("badges") {
                out.save = Some(m.serialize());
                out.say("All badges cleared".to_owned(), quiet);
            } else {
                out.say("No badges to clear".to_owned(), quiet);
            }
            Ok(out)
        },
    }
}

} // verus!
