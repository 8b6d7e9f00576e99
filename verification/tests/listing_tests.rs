use asciii_cli::listing::{print_kind, PrintKind};
use asciii_cli::listing::{
    csv_year, decide_mode, list, shown_virtual_fields, ListAction, ListArgs, ListMode, StorageDir,
};

fn args() -> ListArgs {
    ListArgs {
        templates: false,
        years: false,
        virtual_fields: false,
        simple: false,
        verbose: false,
        paths: false,
        nothing: false,
        csv: false,
        errors: false,
        all: false,
        broken: false,
        sort: None,
        details: None,
        filter: None,
        archive: None,
        year: None,
    }
}

#[test]
fn mode_precedence() {
    assert_eq!(decide_mode(true, true, true, true, true, true), ListMode::Csv);
    assert_eq!(decide_mode(true, true, true, true, false, true), ListMode::Nothing);
    assert_eq!(decide_mode(true, true, true, false, false, true), ListMode::Paths);
}

#[test]
fn mode_verbose_from_flag_or_config() {
    assert_eq!(decide_mode(false, true, false, false, false, false), ListMode::Verbose);
    assert_eq!(decide_mode(false, false, false, false, false, true), ListMode::Verbose);
    assert_eq!(decide_mode(true, true, false, false, false, true), ListMode::Simple);
    assert_eq!(decide_mode(false, false, false, false, false, false), ListMode::Simple);
}

#[test]
fn plain_listings_come_first() {
    let mut a = args();
    a.templates = true;
    a.years = true;
    assert!(matches!(list(a, false, None), ListAction::Templates));
    let mut a = args();
    a.years = true;
    a.virtual_fields = true;
    assert!(matches!(list(a, false, None), ListAction::Years));
    let mut a = args();
    a.virtual_fields = true;
    a.archive = Some("not a year".to_string());
    assert!(matches!(list(a, false, None), ListAction::VirtualFields));
}

#[test]
fn working_projects_with_configured_sort() {
    match list(args(), true, Some("manager".to_string())) {
        ListAction::Projects(dir, config) => {
            assert_eq!(dir, StorageDir::Working);
            assert_eq!(config.sort_by, "manager");
            assert_eq!(config.mode, ListMode::Verbose);
            assert!(config.details.is_none());
        }
        _ => panic!("expected a project listing"),
    }
}

#[test]
fn all_sorts_by_date_unless_sort_given() {
    let mut a = args();
    a.all = true;
    match list(a, false, Some("index".to_string())) {
        ListAction::Projects(dir, config) => {
            assert_eq!(dir, StorageDir::All);
            assert_eq!(config.sort_by, "date");
        }
        _ => panic!("expected a project listing"),
    }
    let mut a = args();
    a.all = true;
    a.sort = Some("name".to_string());
    match list(a, false, None) {
        ListAction::Projects(_, config) => assert_eq!(config.sort_by, "name"),
        _ => panic!("expected a project listing"),
    }
}

#[test]
fn archive_wins_over_year_and_all() {
    let mut a = args();
    a.archive = Some("2015".to_string());
    a.year = Some("2016".to_string());
    a.all = true;
    a.details = Some(vec!["Manager".to_string()]);
    a.filter = Some(vec!["name:foo".to_string()]);
    a.errors = true;
    match list(a, false, Some("index".to_string())) {
        ListAction::Projects(dir, config) => {
            assert_eq!(dir, StorageDir::Archive(2015));
            assert_eq!(config.sort_by, "index");
            assert_eq!(config.details, Some(vec!["Manager".to_string()]));
            assert_eq!(config.filter_by, Some(vec!["name:foo".to_string()]));
            assert!(config.show_errors);
        }
        _ => panic!("expected a project listing"),
    }
}

#[test]
fn year_and_broken() {
    let mut a = args();
    a.year = Some("2014".to_string());
    a.broken = true;
    assert!(matches!(list(a, false, Some("index".to_string())), ListAction::Broken(StorageDir::Year(2014))));
}

#[test]
fn virtual_fields_hide_invalid() {
    let names = vec!["Invalid".to_string(), "Name".to_string(), "Invalid ".to_string(), "Date".to_string()];
    assert_eq!(
        shown_virtual_fields(names),
        vec!["Name".to_string(), "Invalid ".to_string(), "Date".to_string()]
    );
}

#[test]
fn csv_year_given_or_current() {
    assert_eq!(csv_year(Some("2013"), 2024), 2013);
    assert_eq!(csv_year(Some("last year"), 2024), 2024);
    assert_eq!(csv_year(None, 2024), 2024);
}

#[test]
fn printers_for_modes() {
    assert_eq!(print_kind(ListMode::Csv, true), PrintKind::Csv);
    assert_eq!(print_kind(ListMode::Paths, true), PrintKind::PathRows);
    assert_eq!(print_kind(ListMode::Simple, true), PrintKind::SimpleRows);
    assert_eq!(print_kind(ListMode::Verbose, true), PrintKind::VerboseRows);
    assert_eq!(print_kind(ListMode::Nothing, true), PrintKind::DynamicRows);
    assert_eq!(print_kind(ListMode::Verbose, false), PrintKind::SimpleRows);
    assert_eq!(print_kind(ListMode::Csv, false), PrintKind::Csv);
}
