//! The command-level tests: each drives one sub-command against an
//! in-memory manifest and checks the reported lines and the saved text.
use cargoe::commands::badges::BadgesCommand;
use cargoe::commands::categories::CategoriesCommand;
use cargoe::commands::exclude;
use cargoe::commands::get;
use cargoe::commands::info;
use cargoe::commands::keywords;
use cargoe::commands::metadata::MetadataCommand;
use cargoe::commands::validate;
use cargoe::commands::ListCommand;
use cargoe::manifest::Manifest;

const BASE: &str = "[package]\nname = \"test-package\"\nversion = \"0.1.0\"\nedition = \"2021\"\n";

fn load(text: &str) -> Manifest {
    Manifest::load(text).expect("well-formed manifest")
}

fn has_line(lines: &[String], needle: &str) -> bool {
    lines.iter().any(|l| l.contains(needle))
}

#[test]
fn test_exclude_add() {
    let mut m = load(BASE);
    let cmd = ListCommand::Add(vec!["*.log".to_owned(), "target/".to_owned()]);
    let out = exclude::handle(&mut m, cmd, false, false).unwrap();
    assert!(has_line(&out.lines, "+ *.log"));
    assert!(has_line(&out.lines, "+ target/"));
    let content = out.save.expect("a mutating command saves");
    assert!(content.contains("exclude"));
    assert!(content.contains("*.log"));
    assert!(content.contains("target/"));
}

#[test]
fn test_exclude_list() {
    let mut m = load(BASE);
    let add = ListCommand::Add(vec!["*.log".to_owned()]);
    let saved = exclude::handle(&mut m, add, false, false).unwrap().save.unwrap();
    let mut m2 = load(&saved);
    let out = exclude::handle(&mut m2, ListCommand::List, false, false).unwrap();
    assert!(has_line(&out.lines, "*.log"));
}

#[test]
fn test_exclude_remove() {
    let mut m = load(BASE);
    let add = ListCommand::Add(vec!["*.log".to_owned()]);
    let saved = exclude::handle(&mut m, add, false, false).unwrap().save.unwrap();
    let mut m2 = load(&saved);
    let rm = ListCommand::Remove(vec!["*.log".to_owned()]);
    let out = exclude::handle(&mut m2, rm, false, false).unwrap();
    assert!(has_line(&out.lines, "- *.log"));
}

#[test]
fn test_keywords_add() {
    let mut m = load(BASE);
    let cmd = ListCommand::Add(vec!["cli".to_owned(), "cargo".to_owned()]);
    let out = keywords::handle(&mut m, cmd, false, false).unwrap();
    assert!(has_line(&out.lines, "+ cli"));
    assert!(has_line(&out.lines, "+ cargo"));
    let content = out.save.unwrap();
    assert!(content.contains("keywords"));
    assert!(content.contains("cli"));
}

#[test]
fn integration_test_test_keywords_limit() {
    let mut m = load(BASE);
    let cmd = ListCommand::Add(
        vec![
            "k1".to_owned(),
            "k2".to_owned(),
            "k3".to_owned(),
            "k4".to_owned(),
            "k5".to_owned(),
            "k6".to_owned(),
        ],
    );
    let out = keywords::handle(&mut m, cmd, false, false).unwrap();
    assert!(has_line(&out.warnings, "Maximum 5 keywords"));
}

#[test]
fn test_keywords_length_validation() {
    let mut m = load(BASE);
    let long_keyword = "a".repeat(21);
    let cmd = ListCommand::Add(vec![long_keyword]);
    let out = keywords::handle(&mut m, cmd, false, false).unwrap();
    assert!(has_line(&out.warnings, "exceeds 20 characters"));
}

#[test]
fn test_categories_add() {
    let mut m = load(BASE);
    let cmd = CategoriesCommand::Add(vec!["command-line-utilities".to_owned()]);
    let out = cargoe::commands::categories::handle(&mut m, cmd, false, false).unwrap();
    assert!(has_line(&out.lines, "+ command-line-utilities"));
}

#[test]
fn test_set_field() {
    let mut m = load(BASE);
    let out = cargoe::commands::set::handle(
        &mut m,
        "repository",
        "https://github.com/user/repo",
        false,
        false,
    )
    .unwrap();
    let content = out.save.unwrap();
    assert!(content.contains("repository"));
    assert!(content.contains("https://github.com/user/repo"));
}

#[test]
fn test_get_field() {
    let m = load(BASE);
    let out = get::handle(&m, "name").unwrap();
    assert!(has_line(&out.lines, "test-package"));
}

#[test]
fn test_validate_basic() {
    let m = load(BASE);
    let report = validate::handle(&m, false);
    assert!(report.errors.is_empty());
}

#[test]
fn test_validate_strict_missing_fields() {
    let m = load(BASE);
    let report = validate::handle(&m, true);
    assert!(!report.errors.is_empty());
    assert!(has_line(&report.errors, "Missing 'description'"));
}

#[test]
fn test_dry_run() {
    let mut m = load(BASE);
    let cmd = ListCommand::Add(vec!["*.log".to_owned()]);
    let out = exclude::handle(&mut m, cmd, true, false).unwrap();
    assert!(has_line(&out.lines, "dry run"));
    assert!(out.save.is_none());
}

#[test]
fn test_info_command() {
    let m = load(BASE);
    let out = info::handle(&m);
    assert!(has_line(&out.lines, "test-package"));
    assert!(has_line(&out.lines, "0.1.0"));
}

#[test]
fn test_badges_add() {
    let mut m = load(BASE);
    let cmd = BadgesCommand::Add(
        "maintenance".to_owned(),
        vec![("status".to_owned(), "actively-developed".to_owned())],
    );
    let out = cargoe::commands::badges::handle(&mut m, cmd, false, false).unwrap();
    let content = out.save.unwrap();
    assert!(content.contains("[badges.maintenance]"));
    assert!(content.contains("status"));
}

#[test]
fn test_metadata_add() {
    let mut m = load(BASE);
    let cmd = MetadataCommand::Add {
        key: "custom.key".to_owned(),
        value: "value".to_owned(),
        json: false,
    };
    let out = cargoe::commands::metadata::handle(&mut m, cmd, false, false).unwrap();
    let content = out.save.unwrap();
    assert!(content.contains("metadata"));
}

#[test]
fn test_quiet_flag() {
    let mut m = load(BASE);
    let cmd = ListCommand::Add(vec!["*.log".to_owned()]);
    let out = exclude::handle(&mut m, cmd, false, true).unwrap();
    assert!(out.lines.is_empty());
}

const MIGRATION_BASE: &str = "[package]\nname = \"test\"\nversion = \"0.1.0\"\n";

#[test]
fn migration_test_test_exclude_add() {
    let mut m = load(MIGRATION_BASE);
    let cmd = ListCommand::Add(vec!["*.log".to_owned()]);
    let out = exclude::handle(&mut m, cmd, false, false).unwrap();
    assert!(has_line(&out.lines, "+ *.log"));
    let content = out.save.unwrap();
    assert!(content.contains("exclude"));
    assert!(content.contains("*.log"));
}

#[test]
fn migration_test_test_keywords_limit() {
    let mut m = load(MIGRATION_BASE);
    let cmd = ListCommand::Add(
        vec![
            "k1".to_owned(),
            "k2".to_owned(),
            "k3".to_owned(),
            "k4".to_owned(),
            "k5".to_owned(),
            "k6".to_owned(),
        ],
    );
    let out = keywords::handle(&mut m, cmd, false, false).unwrap();
    assert!(has_line(&out.warnings, "Maximum 5 keywords"));
}

#[test]
fn test_validate_missing_fields() {
    let m = load(MIGRATION_BASE);
    let report = validate::handle(&m, true);
    assert!(has_line(&report.errors, "Missing 'description'"));
}
