//! Property-level tests: the round-trip and isolation guarantees, the
//! list disciplines, dry runs, the validator's gate, and the end-to-end
//! scenarios.
use cargoe::commands::categories::CategoriesCommand;
use cargoe::commands::exclude;
use cargoe::commands::fmt;
use cargoe::commands::keywords;
use cargoe::commands::metadata::MetadataCommand;
use cargoe::commands::validate;
use cargoe::commands::ListCommand;
use cargoe::manifest::{round_trip, Manifest};
use cargoe::report::EditError;
use cargoe::utils::parse_key_val;

const COMMENTED: &str = "# top comment\n[package]\nname = \"p\"   # keep me\nversion = \"0.1.0\"\n\n# trailing comment\n[dependencies]\nserde = \"1\"\n";

fn load(text: &str) -> Manifest {
    Manifest::load(text).expect("well-formed manifest")
}

fn exclude_items(text: &str) -> Vec<String> {
    let m = load(text);
    let (items, _) = m.section_array_strings("package", "exclude").expect("exclude array");
    items
}

#[test]
fn round_trip_preserves_bytes() {
    assert_eq!(round_trip(COMMENTED).unwrap(), COMMENTED);
    let m = load(COMMENTED);
    assert_eq!(m.serialize(), COMMENTED);
}

#[test]
fn round_trip_fails_on_malformed_text() {
    assert!(round_trip("[package\nname = 3").is_err());
    assert!(Manifest::load("not = = toml").is_err());
}

#[test]
fn single_field_isolation() {
    let mut m = load(COMMENTED);
    let cmd = ListCommand::Add(vec!["*.log".to_owned()]);
    let out = exclude::handle(&mut m, cmd, false, false).unwrap();
    let saved = out.save.unwrap();
    // Every original line survives; the edit only adds the exclude entry.
    for line in COMMENTED.lines() {
        assert!(saved.contains(line), "lost line: {line}");
    }
    let added: Vec<&str> = saved.lines().filter(|l| !COMMENTED.contains(l)).collect();
    assert_eq!(added.len(), 1);
    assert!(added[0].contains("exclude"));
    assert!(added[0].contains("*.log"));
}

#[test]
fn add_is_idempotent_under_repetition() {
    let mut m = load("[package]\nname = \"p\"\nversion = \"0.1.0\"\n");
    let cmd = ListCommand::Add(vec!["docs".to_owned(), "docs".to_owned()]);
    let out = exclude::handle(&mut m, cmd, false, false).unwrap();
    assert!(out.lines.iter().any(|l| l.contains("+ docs")));
    assert!(out.lines.iter().any(|l| l.contains("~ docs (already exists)")));
    let items = exclude_items(&out.save.unwrap());
    assert_eq!(items, vec!["docs".to_owned()]);
}

#[test]
fn add_is_idempotent_across_calls() {
    let mut m = load("[package]\nname = \"p\"\nversion = \"0.1.0\"\n");
    let saved = exclude::handle(&mut m, ListCommand::Add(vec!["docs".to_owned()]), false, false)
        .unwrap()
        .save
        .unwrap();
    let mut m2 = load(&saved);
    let out = exclude::handle(&mut m2, ListCommand::Add(vec!["docs".to_owned()]), false, false)
        .unwrap();
    assert!(out.lines.iter().any(|l| l.contains("~ docs (already exists)")));
    let items = exclude_items(&out.save.unwrap());
    assert_eq!(items, vec!["docs".to_owned()]);
}

#[test]
fn keywords_capacity_appends_up_to_cap() {
    let mut m = load("[package]\nname = \"p\"\nversion = \"0.1.0\"\n");
    let names: Vec<String> = (1..=6).map(|i| format!("k{i}")).collect();
    let out = keywords::handle(&mut m, ListCommand::Add(names), false, false).unwrap();
    assert!(out.warnings.iter().any(|l| l.contains("Maximum 5 keywords")));
    assert!(out.lines.iter().any(|l| l.contains("Skipping 'k6' and remaining keywords")));
    let saved = out.save.unwrap();
    let m2 = load(&saved);
    let (items, total) = m2.section_array_strings("package", "keywords").unwrap();
    assert_eq!(total, 5);
    assert_eq!(
        items,
        vec![
            "k1".to_owned(),
            "k2".to_owned(),
            "k3".to_owned(),
            "k4".to_owned(),
            "k5".to_owned()
        ]
    );
}

#[test]
fn remove_deletes_every_equal_occurrence() {
    let text = "[package]\nname = \"p\"\nversion = \"0.1.0\"\nexclude = [\"a\", \"a\", \"b\"]\n";
    let mut m = load(text);
    let out = exclude::handle(&mut m, ListCommand::Remove(vec!["a".to_owned()]), false, false)
        .unwrap();
    assert!(out.lines.iter().any(|l| l.contains("- a")));
    let items = exclude_items(&out.save.unwrap());
    assert_eq!(items, vec!["b".to_owned()]);
}

#[test]
fn dry_run_never_saves() {
    let base = "[package]\nname = \"p\"\nversion = \"0.1.0\"\n";
    let mut m = load(base);
    let out = exclude::handle(
        &mut m,
        ListCommand::Add(vec!["x".to_owned()]),
        true,
        false,
    )
    .unwrap();
    assert!(out.save.is_none());
    let mut m = load(base);
    let out = keywords::handle(&mut m, ListCommand::Clear, true, false).unwrap();
    assert!(out.save.is_none());
    let mut m = load(base);
    let out = cargoe::commands::set::handle(&mut m, "description", "d", true, false).unwrap();
    assert!(out.save.is_none());
    let mut m = load(base);
    let cmd = MetadataCommand::Add { key: "k".to_owned(), value: "v".to_owned(), json: false };
    let out = cargoe::commands::metadata::handle(&mut m, cmd, true, false).unwrap();
    assert!(out.save.is_none());
    let m = load(base);
    let out = fmt::handle(&m, base, false, true).unwrap();
    assert!(out.save.is_none());
}

#[test]
fn strict_validation_gates_on_description() {
    let text = "[package]\nname = \"p\"\nversion = \"0.1.0\"\n";
    let m = load(text);
    let strict = validate::handle(&m, true);
    assert!(strict.errors.iter().any(|e| e.contains("Missing 'description'")));
    let base = validate::handle(&m, false);
    assert!(base.errors.is_empty());
}

#[test]
fn validator_checks_version_shape() {
    let ok = load("[package]\nname = \"p\"\nversion = \"1.2.3\"\n");
    assert!(validate::handle(&ok, false).errors.is_empty());
    let bad = load("[package]\nname = \"p\"\nversion = \"1.2\"\n");
    let report = validate::handle(&bad, false);
    assert!(report.errors.iter().any(|e| e.contains("Invalid version format: '1.2'")));
    let bad2 = load("[package]\nname = \"p\"\nversion = \"1.2.x\"\n");
    assert!(!validate::handle(&bad2, false).errors.is_empty());
    let huge = load("[package]\nname = \"p\"\nversion = \"1.2.4294967296\"\n");
    assert!(!validate::handle(&huge, false).errors.is_empty());
}

#[test]
fn validator_warns_on_odd_license_and_long_keywords() {
    let text = "[package]\nname = \"p\"\nversion = \"1.0.0\"\ndescription = \"a sensible description\"\nlicense = \"My Custom License\"\nkeywords = [\"averyveryverylongkeyworditis\", \"ok\"]\n";
    let m = load(text);
    let report = validate::handle(&m, true);
    assert!(report.warnings.iter().any(|w| w.contains("may not be a valid SPDX expression")));
    assert!(
        report.errors.iter().any(
            |e| e.contains("Keyword 'averyveryverylongkeyworditis' exceeds 20 characters"),
        )
    );
    let fine = load(
        "[package]\nname = \"p\"\nversion = \"1.0.0\"\ndescription = \"a sensible description\"\nlicense = \"MIT OR Apache-2.0\"\n",
    );
    let ok = validate::handle(&fine, true);
    assert!(!ok.warnings.iter().any(|w| w.contains("SPDX")));
}

#[test]
fn end_to_end_exclude_add_then_remove() {
    let text = "[package]\nname=\"p\"\nversion=\"0.1.0\"";
    let mut m = load(text);
    let out = exclude::handle(
        &mut m,
        ListCommand::Add(vec!["*.log".to_owned(), "target/".to_owned()]),
        false,
        false,
    )
    .unwrap();
    let saved = out.save.unwrap();
    let items = exclude_items(&saved);
    assert_eq!(items, vec!["*.log".to_owned(), "target/".to_owned()]);
    let mut m2 = load(&saved);
    let out2 = exclude::handle(
        &mut m2,
        ListCommand::Remove(vec!["*.log".to_owned()]),
        false,
        false,
    )
    .unwrap();
    let items2 = exclude_items(&out2.save.unwrap());
    assert_eq!(items2, vec!["target/".to_owned()]);
}

#[test]
fn end_to_end_set_authors_splits_and_trims() {
    let mut m = load("[package]\nname = \"p\"\nversion = \"0.1.0\"\n");
    let out = cargoe::commands::set::handle(&mut m, "authors", "A, B", false, false).unwrap();
    let saved = out.save.unwrap();
    let m2 = load(&saved);
    let (authors, total) = m2.section_array_strings("package", "authors").unwrap();
    assert_eq!(total, 2);
    assert_eq!(authors, vec!["A".to_owned(), "B".to_owned()]);
}

#[test]
fn set_single_author_still_becomes_array() {
    let mut m = load("[package]\nname = \"p\"\nversion = \"0.1.0\"\n");
    let out = cargoe::commands::set::handle(&mut m, "authors", "Solo Author", false, false).unwrap();
    let m2 = load(&out.save.unwrap());
    let (authors, _) = m2.section_array_strings("package", "authors").unwrap();
    assert_eq!(authors, vec!["Solo Author".to_owned()]);
}

#[test]
fn type_conflicts_are_fatal() {
    let mut m = load("package = 5\n");
    let err = exclude::handle(&mut m, ListCommand::Add(vec!["x".to_owned()]), false, false)
        .unwrap_err();
    assert!(matches!(err, EditError::TypeConflict(_)));
    assert!(err.message().contains("package is not a table"));
    let mut m2 = load("[package]\nexclude = \"oops\"\n");
    let err2 = exclude::handle(&mut m2, ListCommand::Add(vec!["x".to_owned()]), false, false)
        .unwrap_err();
    assert!(matches!(err2, EditError::TypeConflict(_)));
    assert!(err2.message().contains("exclude is not an array"));
}

#[test]
fn remove_without_field_reports_not_found() {
    let mut m = load("[package]\nname = \"p\"\n");
    let err = exclude::handle(&mut m, ListCommand::Remove(vec!["x".to_owned()]), false, false)
        .unwrap_err();
    assert!(matches!(err, EditError::NotFound(_)));
    assert!(err.message().contains("exclude field not found"));
}

#[test]
fn parse_key_val_splits_at_first_equals() {
    let (k, v) = parse_key_val("status=actively-developed").unwrap();
    assert_eq!(k, "status");
    assert_eq!(v, "actively-developed");
    let (k2, v2) = parse_key_val("a=b=c").unwrap();
    assert_eq!(k2, "a");
    assert_eq!(v2, "b=c");
    let err = parse_key_val("no-equals-here").unwrap_err();
    assert!(matches!(err, EditError::BadValue(_)));
}

#[test]
fn keyword_charset_is_enforced_at_add_time() {
    let mut m = load("[package]\nname = \"p\"\nversion = \"0.1.0\"\n");
    let out = keywords::handle(
        &mut m,
        ListCommand::Add(vec!["bad space".to_owned(), "good_one".to_owned()]),
        false,
        false,
    )
    .unwrap();
    assert!(out.warnings.iter().any(|l| l.contains("contains invalid characters")));
    let m2 = load(&out.save.unwrap());
    let (items, _) = m2.section_array_strings("package", "keywords").unwrap();
    assert_eq!(items, vec!["good_one".to_owned()]);
}

#[test]
fn keywords_list_shows_count_header() {
    let mut m = load("[package]\nname = \"p\"\nkeywords = [\"a\", \"b\"]\n");
    let out = keywords::handle(&mut m, ListCommand::List, false, false).unwrap();
    assert!(out.lines.iter().any(|l| l.contains("Keywords (2/5):")));
}

#[test]
fn categories_warn_on_unknown_names() {
    let mut m = load("[package]\nname = \"p\"\nversion = \"0.1.0\"\n");
    let out = cargoe::commands::categories::handle(
        &mut m,
        CategoriesCommand::Add(vec!["made-up-category".to_owned()]),
        false,
        false,
    )
    .unwrap();
    assert!(out.warnings.iter().any(|l| l.contains("made-up-category")));
    // The unknown name is still appended: the check is advisory.
    let m2 = load(&out.save.unwrap());
    let (items, _) = m2.section_array_strings("package", "categories").unwrap();
    assert_eq!(items, vec!["made-up-category".to_owned()]);
    let out2 = cargoe::commands::categories::handle(
        &mut load("[package]\n"),
        CategoriesCommand::Valid,
        false,
        false,
    )
    .unwrap();
    assert!(out2.lines.iter().any(|l| l == "- command-line-utilities"));
    // Qualified names are grouped under a header per top-level prefix;
    // plain names stand on their own.
    assert!(out2.lines.iter().any(|l| l == "development-tools:"));
    assert!(out2.lines.iter().any(|l| l == "  - development-tools::testing"));
    assert!(out2.lines.iter().any(|l| l == "- algorithms"));
}

#[test]
fn fmt_check_passes_on_loaded_text() {
    let m = load(COMMENTED);
    let out = fmt::handle(&m, COMMENTED, true, false).unwrap();
    assert!(out.save.is_none());
    assert!(out.lines.iter().any(|l| l.contains("already formatted")));
    let other = fmt::handle(&m, "[package]\n", true, false);
    assert!(other.is_err());
}

#[test]
fn inclusion_mirrors_exclusion() {
    let mut m = load("[package]\nname = \"p\"\nversion = \"0.1.0\"\n");
    let out = cargoe::commands::inclusion::handle(
        &mut m,
        ListCommand::Add(vec!["src/**".to_owned()]),
        false,
        false,
    )
    .unwrap();
    assert!(out.lines.iter().any(|l| l.contains("+ src/**")));
    let saved = out.save.unwrap();
    let m2 = load(&saved);
    let (items, _) = m2.section_array_strings("package", "include").unwrap();
    assert_eq!(items, vec!["src/**".to_owned()]);
}

#[test]
fn clear_removes_the_whole_entry() {
    let text = "[package]\nname = \"p\"\nexclude = [\"a\"]\n";
    let mut m = load(text);
    let out = exclude::handle(&mut m, ListCommand::Clear, false, false).unwrap();
    assert!(out.lines.iter().any(|l| l.contains("All exclude patterns cleared")));
    let saved = out.save.unwrap();
    assert!(!saved.contains("exclude"));
    // Clearing a field that is not there saves nothing.
    let mut m2 = load(&saved);
    let out2 = exclude::handle(&mut m2, ListCommand::Clear, false, false).unwrap();
    assert!(out2.lines.iter().any(|l| l.contains("No exclude patterns to clear")));
    assert!(out2.save.is_none());
}

#[test]
fn fmt_write_mode_hands_back_canonical_text() {
    let m = load(COMMENTED);
    let out = fmt::handle(&m, COMMENTED, false, false).unwrap();
    assert_eq!(out.save.unwrap(), COMMENTED);
}

#[test]
fn set_authors_drops_empty_pieces() {
    let mut m = load("[package]\nname = \"p\"\n");
    let out = cargoe::commands::set::handle(&mut m, "authors", " A ,, B ,", false, false).unwrap();
    let m2 = load(&out.save.unwrap());
    let (authors, _) = m2.section_array_strings("package", "authors").unwrap();
    assert_eq!(authors, vec!["A".to_owned(), "B".to_owned()]);
}

#[test]
fn set_unknown_field_warns_but_writes() {
    let mut m = load("[package]\nname = \"p\"\n");
    let out = cargoe::commands::set::handle(&mut m, "motto", "onward", false, false).unwrap();
    assert!(out.warnings.iter().any(|w| w.contains("not a commonly set package field")));
    assert!(out.save.unwrap().contains("motto = \"onward\""));
}

#[test]
fn set_repository_hints_at_homepage() {
    let mut m = load("[package]\nname = \"p\"\n");
    let out = cargoe::commands::set::handle(&mut m, "repository", "https://r", false, false)
        .unwrap();
    assert!(out.lines.iter().any(|l| l.contains("Consider also setting 'homepage'")));
}

#[test]
fn validate_reports_missing_package_section() {
    let m = load("[dependencies]\n");
    let report = validate::handle(&m, false);
    assert_eq!(report.errors, vec!["Missing [package] section".to_owned()]);
}

#[test]
fn validator_accepts_plus_signed_version_parts() {
    // A three-part version parses exactly as a 32-bit parser would,
    // leading plus signs included.
    let m = load("[package]\nname = \"p\"\nversion = \"+1.02.0\"\n");
    assert!(validate::handle(&m, false).errors.is_empty());
    let m2 = load("[package]\nname = \"p\"\nversion = \"1..2\"\n");
    assert!(!validate::handle(&m2, false).errors.is_empty());
}
