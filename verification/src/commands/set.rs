//! The scalar-field command: writes one package field.  Most fields are
//! written as string scalars; the author list is split on commas, trimmed,
//! and always stored as an array.
use vstd::prelude::*;

use crate::manifest::{str_array_item, Manifest};
use crate::model::{entries_at, insert_path, lookup, path_free, set_key, strs_to_nodes, table_slot_free, Node};
use crate::report::{EditError, Outcome};
use crate::store;
use crate::text::{split_char, split_on, str_concat, str_eq, trim_str, trimmed, views_of};

verus! {

/// The fields the command knows; others are accepted with an advisory
/// notice.
pub open spec fn spec_known_fields() -> Seq<Seq<char>> {
    seq![
        "repository"@,
        "homepage"@,
        "documentation"@,
        "readme"@,
        "license"@,
        "license-file"@,
        "description"@,
        "authors"@,
        "edition"@,
        "rust-version"@,
        "version"@,
    ]
}

/// Whether the command knows the field.
pub fn is_known_field(f: &str) -> (r: bool)
    ensures
        r == spec_known_fields().contains(f@),
{
    let mut v: Vec<String> = Vec::new();
    v.push("repository".to_owned());
    v.push("homepage".to_owned());
    v.push("documentation".to_owned());
    v.push("readme".to_owned());
    v.push("license".to_owned());
    v.push("license-file".to_owned());
    v.push("description".to_owned());
    v.push("authors".to_owned());
    v.push("edition".to_owned());
    v.push("rust-version".to_owned());
    v.push("version".to_owned());
    proof {
        assert(views_of(v@) =~= spec_known_fields());
    }
    crate::text::vec_contains_str(&v, f)
}

/// The comma-separated pieces of an author list, each trimmed, the empty
/// ones dropped.
pub open spec fn author_entries(parts: Seq<Seq<char>>) -> Seq<Seq<char>>
    decreases parts.len(),
{
    if parts.len() == 0 {
        Seq::empty()
    } else {
        let t = trimmed(parts[0]);
        let rest = author_entries(parts.drop_first());
        if t.len() == 0 {
            rest
        } else {
            seq![t] + rest
        }
    }
}

/// The author entries of a raw value.
pub open spec fn authors_of(v: Seq<char>) -> Seq<Seq<char>> {
    author_entries(split_on(v, ','))
}

/// Splits, trims and filters an author value, executably.
fn collect_authors(parts: &Vec<String>, i: usize) -> (r: Vec<String>)
    requires
        i <= parts@.len(),
    ensures
        views_of(r@) == author_entries(views_of(parts@).skip(i as int)),
    decreases parts@.len() - i,
{
    let ghost rest = views_of(parts@).skip(i as int);
    if i >= parts.len() {
        let r: Vec<String> = Vec::new();
        proof {
            assert(views_of(r@) =~= author_entries(rest));
        }
        r
    } else {
        proof {
            assert(rest[0] == views_of(parts@)[i as int]);
            assert(rest.drop_first() =~= views_of(parts@).skip(i + 1));
        }
        let t = trim_str(parts[i].as_str());
        let mut r = collect_authors(parts, i + 1);
        if t.as_str().unicode_len() > 0 {
            r.insert(0, t);
            proof {
                assert(views_of(r@) =~= seq![trimmed(rest[0])] + author_entries(
                    rest.drop_first(),
                ));
            }
        }
        r
    }
}

/// The node one `set` writes: an array of trimmed entries for the author
/// list, a string scalar for everything else.
pub open spec fn set_node(field: Seq<char>, value: Seq<char>) -> Node {
    if field == "authors"@ {
        Node::Arr(strs_to_nodes(authors_of(value)))
    } else {
        Node::Str(value)
    }
}

/// Writes one package field.  The package section is created if absent;
/// a package binding that is not a table fails, changing nothing.
pub fn handle(m: &mut Manifest, field: &str, value: &str, dry_run: bool, quiet: bool) -> (r: Result<
    Outcome,
    EditError,
>)
    ensures
        r is Ok <==> (lookup(old(m)@, "package"@) matches Some(n) ==> n is Tab),
        r is Ok ==> final(m)@ == set_key(
            old(m)@,
            "package"@,
            Node::Tab(set_key(entries_at(old(m)@, "package"@), field@, set_node(field@, value@))),
        ),
        r matches Err(e) ==> final(m)@ == old(m)@ && e is TypeConflict,
        dry_run ==> (r matches Ok(out) ==> out.save is None),
        !dry_run ==> (r matches Ok(out) ==> out.save matches Some(s) && s@ == store::render(
            final(m).doc,
        )),
{
    let mut out = Outcome::new();
    if !is_known_field(field) {
        out.warn(
            str_concat(
                str_concat("Field '", field).as_str(),
                "' is not a commonly set package field",
            ),
        );
        out.say(
            "Valid fields: repository, homepage, documentation, readme, license, license-file, description, authors, edition, rust-version, version".to_owned(),
            false,
        );
    }
    // Cross-field hints, decided before mutating.
    let hint_homepage = str_eq(field, "repository") && {
        let p = m.package();
        match p {
            Some(_) => !m.section_has_key("package", "homepage"),
            None => false,
        }
    };
    let hint_license_file = str_eq(field, "license") && {
        match m.package() {
            Some(_) => !m.section_has_key("package", "license-file"),
            None => false,
        }
    };
    let item = if str_eq(field, "authors") {
        let parts = split_char(value, ',');
        proof {
            assert(views_of(parts@).skip(0) =~= views_of(parts@));
        }
        let entries = collect_authors(&parts, 0);
        str_array_item(&entries)
    } else {
        store::mk_str_item(value)
    };
    let ghost nd = store::item_node(item);
    proof {
        assert(nd == set_node(field@, value@));
    }
    let mut path: Vec<String> = Vec::new();
    path.push("package".to_owned());
    path.push(field.to_owned());
    proof {
        let vp = views_of(path@);
        assert(vp.len() == 2);
        assert(vp[0] == "package"@);
        assert(vp[1] == field@);
        assert(path_free(entries_at(old(m)@, "package"@), vp, 1));
        assert(path_free(old(m)@, vp, 0) == table_slot_free(old(m)@, "package"@));
        assert(insert_path(entries_at(old(m)@, "package"@), vp, 1, nd) == set_key(
            entries_at(old(m)@, "package"@),
            field@,
            nd,
        ));
        assert(insert_path(old(m)@, vp, 0, nd) == set_key(
            old(m)@,
            "package"@,
            Node::Tab(set_key(entries_at(old(m)@, "package"@), field@, nd)),
        ));
    }
    match m.insert_at(&path, item) {
        Err(e) => {
            return Err(e);
        },
        Ok(()) => {},
    }
    out.say(
        str_concat(
            str_concat(str_concat(field, " = \"").as_str(), value).as_str(),
            "\"",
        ),
        quiet,
    );
    if !dry_run {
        out.save = Some(m.serialize());
        out.say(str_concat(str_concat("Field '", field).as_str(), "' updated"), quiet);
    } else {
        out.say("(dry run - no changes made)".to_owned(), false);
    }
    if hint_homepage {
        out.say(
            "Hint: Consider also setting 'homepage' with: cargoe set homepage <url>".to_owned(),
            false,
        );
    }
    if hint_license_file {
        out.say("Hint: If using a custom license, set 'license-file' instead".to_owned(), false);
    }
    Ok(out)
}

} // verus!
