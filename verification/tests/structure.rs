//! Tests of the table-valued commands: badges, nested metadata with and
//! without structured values, initialization, and the readers.
use cargoe::commands::badges::{self, BadgesCommand};
use cargoe::commands::get;
use cargoe::commands::init;
use cargoe::commands::metadata::{self, MetadataCommand};
use cargoe::manifest::Manifest;
use cargoe::report::EditError;

const BASE: &str = "[package]\nname = \"p\"\nversion = \"0.1.0\"\n";

fn load(text: &str) -> Manifest {
    Manifest::load(text).expect("well-formed manifest")
}

#[test]
fn badges_add_and_update_and_remove() {
    let mut m = load(BASE);
    let cmd = BadgesCommand::Add(
        "maintenance".to_owned(),
        vec![("status".to_owned(), "actively-developed".to_owned())],
    );
    let out = badges::handle(&mut m, cmd, false, false).unwrap();
    assert!(out.warnings.is_empty());
    let saved = out.save.unwrap();
    assert!(saved.contains("[badges.maintenance]"));
    assert!(saved.contains("actively-developed"));

    // Updating an existing badge warns but succeeds.
    let mut m2 = load(&saved);
    let cmd2 = BadgesCommand::Add(
        "maintenance".to_owned(),
        vec![("status".to_owned(), "deprecated".to_owned())],
    );
    let out2 = badges::handle(&mut m2, cmd2, false, false).unwrap();
    assert!(out2.warnings.iter().any(|w| w.contains("already exists")));
    let saved2 = out2.save.unwrap();
    assert!(saved2.contains("deprecated"));
    assert!(!saved2.contains("actively-developed"));

    // Removing it brings the badge down; a second removal reports absence.
    let mut m3 = load(&saved2);
    let out3 = badges::handle(&mut m3, BadgesCommand::Remove("maintenance".to_owned()), false, false)
        .unwrap();
    assert!(out3.lines.iter().any(|l| l.contains("Badge 'maintenance' removed")));
    let saved3 = out3.save.unwrap();
    assert!(!saved3.contains("maintenance"));
    let mut m4 = load(&saved3);
    let again = badges::handle(&mut m4, BadgesCommand::Remove("maintenance".to_owned()), false, false)
        .unwrap();
    assert!(again.lines.iter().any(|l| l.contains("Badge 'maintenance' not found")));
    assert!(again.save.is_none());

    // With no badges section at all, removal is fatal.
    let mut m5 = load(BASE);
    let err = badges::handle(&mut m5, BadgesCommand::Remove("maintenance".to_owned()), false, false)
        .unwrap_err();
    assert!(matches!(err, EditError::NotFound(_)));
}

#[test]
fn badges_list_shows_attributes() {
    let text = "[badges.maintenance]\nstatus = \"actively-developed\"\n";
    let mut m = load(text);
    let out = badges::handle(&mut m, BadgesCommand::List, false, false).unwrap();
    assert!(out.lines.iter().any(|l| l.contains("[maintenance]")));
    assert!(out.lines.iter().any(|l| l.contains("status = \"actively-developed\"")));
}

#[test]
fn metadata_nested_add_and_remove() {
    let mut m = load(BASE);
    let cmd = MetadataCommand::Add {
        key: "ci.provider".to_owned(),
        value: "builder".to_owned(),
        json: false,
    };
    let out = metadata::handle(&mut m, cmd, false, false).unwrap();
    let saved = out.save.unwrap();
    assert!(saved.contains("metadata"));
    assert!(saved.contains("builder"));

    let mut m2 = load(&saved);
    let out2 = metadata::handle(
        &mut m2,
        MetadataCommand::Remove { key: "ci.provider".to_owned() },
        false,
        false,
    )
    .unwrap();
    assert!(out2.lines.iter().any(|l| l.contains("Metadata 'ci.provider' removed")));
    assert!(!out2.save.unwrap().contains("builder"));

    // Removing through a missing intermediate key is fatal.
    let mut m3 = load(BASE);
    let err = metadata::handle(
        &mut m3,
        MetadataCommand::Remove { key: "no.such".to_owned() },
        false,
        false,
    )
    .unwrap_err();
    assert!(matches!(err, EditError::NotFound(_) | EditError::TypeConflict(_)));
}

#[test]
fn metadata_structured_value_folds_one_to_one() {
    let mut m = load(BASE);
    let cmd = MetadataCommand::Add {
        key: "cfg".to_owned(),
        value: "{\"flag\": true, \"count\": 3, \"name\": \"x\", \"tags\": [\"a\", 1], \"empty\": null}"
            .to_owned(),
        json: true,
    };
    let out = metadata::handle(&mut m, cmd, false, false).unwrap();
    let saved = out.save.unwrap();
    assert!(saved.contains("flag = true"));
    assert!(saved.contains("count = 3"));
    assert!(saved.contains("name = \"x\""));
    assert!(saved.contains("tags = [\"a\", 1]"));
    assert!(saved.contains("empty = \"\""));

    let mut m2 = load(BASE);
    let bad = MetadataCommand::Add {
        key: "cfg".to_owned(),
        value: "{not json".to_owned(),
        json: true,
    };
    let err = metadata::handle(&mut m2, bad, false, false).unwrap_err();
    assert!(matches!(err, EditError::BadValue(_)));
    assert!(err.message().contains("Invalid JSON value"));
}

#[test]
fn metadata_structured_arrays_carry_every_element() {
    // Arrays fold one to one: nulls become empty strings, nested arrays
    // stay arrays, objects become inline tables, floats are carried.
    let mut m = load(BASE);
    let cmd = MetadataCommand::Add {
        key: "cfg".to_owned(),
        value: "{\"tags\": [\"a\", 1, [true, 2], {\"k\": \"v\"}, null, 1.5]}".to_owned(),
        json: true,
    };
    let out = metadata::handle(&mut m, cmd, false, false).unwrap();
    let saved = out.save.unwrap();
    assert!(saved.contains("[true, 2]"));
    assert!(saved.contains("{ k = \"v\" }"));
    assert!(saved.contains("1.5"));
    // The array holds all six elements: five top-level commas plus one
    // inside the nested array.
    let tags_line = saved.lines().find(|l| l.contains("tags = ")).unwrap();
    assert_eq!(tags_line.matches(',').count(), 6);
    assert!(tags_line.contains("\"\""));
}

#[test]
fn metadata_list_renders_nested_tables() {
    let text = "[package.metadata.ci]\nprovider = \"builder\"\n";
    let mut m = load(text);
    let out = metadata::handle(&mut m, MetadataCommand::List, false, false).unwrap();
    assert!(out.lines.iter().any(|l| l.contains("[ci]")));
    assert!(out.lines.iter().any(|l| l.contains("provider = \"builder\"")));
}

#[test]
fn init_writes_only_gathered_fields() {
    let m0 = load(BASE);
    assert!(init::needs_field(&m0, "repository"));
    assert!(!init::needs_field(&m0, "name"));
    let mut m = m0;
    let entries = vec![
        ("repository".to_owned(), "https://example.invalid/r".to_owned()),
        ("readme".to_owned(), "README.md".to_owned()),
    ];
    let out = init::handle(&mut m, &entries, false).unwrap();
    assert!(out.lines.iter().any(|l| l.contains("+ repository")));
    let saved = out.save.unwrap();
    assert!(saved.contains("https://example.invalid/r"));
    assert!(saved.contains("README.md"));
    assert!(!saved.contains("homepage"));
}

#[test]
fn get_reads_arrays_one_item_per_line() {
    let m = load("[package]\nname = \"p\"\nkeywords = [\"a\", \"b\"]\n");
    let out = get::handle(&m, "keywords").unwrap();
    assert_eq!(out.lines, vec!["a".to_owned(), "b".to_owned()]);
    let err = get::handle(&m, "nope").unwrap_err();
    assert!(matches!(err, EditError::NotFound(_)));
    let no_pkg = load("[dependencies]\n");
    let err2 = get::handle(&no_pkg, "name").unwrap_err();
    assert!(err2.message().contains("No [package] section found"));
}

#[test]
fn package_accessors_read_name_and_version() {
    let m = load(BASE);
    assert_eq!(m.get_package_name().unwrap(), "p");
    assert_eq!(m.get_package_version().unwrap(), "0.1.0");
    assert!(m.package().is_some());
    assert!(m.get_section("dependencies").is_none());
}
