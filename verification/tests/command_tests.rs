use asciii_cli::commands::{
    archive, archive_step, config, edit, gather_matches, git_add, new, select_by_stem, show,
    unarchive, unarchive_unique, ArchiveStep, ConfigAction, EditAction, GitAddAction, NewArgs,
    ShowAction,
};
use asciii_cli::listing::StorageDir;

fn s(x: &str) -> String {
    x.to_string()
}

#[test]
fn new_fills_given_fields() {
    let a = NewArgs {
        name: s("Party"),
        template: None,
        description: Some(s("a party")),
        date: None,
        time: Some(s("18:00")),
        time_end: None,
        manager: Some(s("Hendrik")),
        dont_edit: false,
    };
    let p = new(a, Some(Some(s("default"))), Some(s("vim")));
    assert_eq!(p.name, "Party");
    assert_eq!(p.template, "default");
    assert_eq!(p.editor, Some(s("vim")));
    assert!(p.edit);
    assert_eq!(
        p.fill_data,
        vec![
            (s("DESCRIPTION"), s("a party")),
            (s("TIME-START"), s("18:00")),
            (s("MANAGER"), s("Hendrik")),
        ]
    );
}

#[test]
fn new_prefers_given_template() {
    let a = NewArgs {
        name: s("X"),
        template: Some(s("concert")),
        description: None,
        date: Some(s("24.12.2016")),
        time: None,
        time_end: Some(s("23:00")),
        manager: None,
        dont_edit: true,
    };
    let p = new(a, Some(None), None);
    assert_eq!(p.template, "concert");
    assert!(!p.edit);
    assert_eq!(p.fill_data, vec![(s("DATE-EVENT"), s("24.12.2016")), (s("TIME-END"), s("23:00"))]);
}

#[test]
fn edit_template_uses_first_term() {
    match edit(vec![s("invoice"), s("offer")], None, true, None, Some(s("nano"))) {
        EditAction::Template { name, editor } => {
            assert_eq!(name, "invoice");
            assert_eq!(editor, Some(s("nano")));
        }
        _ => panic!("expected a template"),
    }
}

#[test]
fn edit_projects_in_archive() {
    match edit(vec![s("a"), s("b")], Some(s("vi")), false, Some(s("2015")), Some(s("nano"))) {
        EditAction::Projects { dir, search_terms, editor } => {
            assert_eq!(dir, StorageDir::Archive(2015));
            assert_eq!(search_terms, vec![s("a"), s("b")]);
            assert_eq!(editor, Some(s("vi")));
        }
        _ => panic!("expected projects"),
    }
}

#[test]
fn gather_keeps_search_order() {
    assert_eq!(gather_matches(vec![vec![1, 2], vec![], vec![3]]), Some(vec![1, 2, 3]));
    assert_eq!(gather_matches::<u8>(vec![vec![], vec![]]), None);
    assert_eq!(gather_matches::<u8>(vec![]), None);
}

#[test]
fn show_prefers_archive_over_template() {
    assert_eq!(
        show(s("x"), Some(s("2014")), true),
        ShowAction::Project(StorageDir::Archive(2014), s("x"))
    );
    assert_eq!(show(s("x"), None, true), ShowAction::Template(s("x")));
    assert_eq!(show(s("x"), None, false), ShowAction::Project(StorageDir::Working, s("x")));
}

#[test]
fn archive_reads_year_leniently() {
    let r = archive(s("p"), Some("2016"), true);
    assert_eq!(r.year, Some(2016));
    assert!(r.force);
    assert_eq!(archive(s("p"), Some("soon"), false).year, None);
    assert_eq!(archive(s("p"), None, false).year, None);
}

#[test]
fn archive_step_uses_manual_year_but_reports_own() {
    assert_eq!(
        archive_step("R001", "/p/R001.yml", true, false, Some(2015), Some(2016)),
        ArchiveStep::Archive { year: 2015, message: s("archiving R001 (2016)") }
    );
    assert_eq!(
        archive_step("R001", "/p/R001.yml", false, true, None, Some(2016)),
        ArchiveStep::Archive { year: 2016, message: s("archiving R001 (2016)") }
    );
    assert_eq!(
        archive_step("R002", "/p/R002.yml", false, false, Some(2015), None),
        ArchiveStep::Skip { message: s("CANNOT archive R002 (/p/R002.yml)") }
    );
}

#[test]
fn unarchive_needs_one_match() {
    let r = unarchive("2013", s("p"));
    assert_eq!(r.year, 2013);
    assert_eq!(r.name, "p");
    assert!(unarchive_unique(1));
    assert!(!unarchive_unique(0));
    assert!(!unarchive_unique(2));
}

#[test]
fn config_shows_and_acts() {
    let p = config(Some(s("list/sort")), true, true, true, None, None);
    assert_eq!(p.show, Some(s("list/sort")));
    assert_eq!(p.next, ConfigAction::Location);
    let p = config(None, false, true, true, None, Some(s("ed")));
    assert_eq!(p.next, ConfigAction::Edit(Some(s("ed"))));
    assert_eq!(config(None, false, false, true, None, None).next, ConfigAction::Default);
    assert_eq!(config(None, false, false, false, None, None).next, ConfigAction::Nothing);
}

#[test]
fn git_add_templates_or_projects() {
    assert!(matches!(git_add(vec![s("a")], true, Some(s("bad"))), GitAddAction::Templates(t) if t == vec![s("a")]));
    assert!(matches!(git_add(vec![s("a")], false, Some(s("2012"))), GitAddAction::Projects(StorageDir::Archive(2012), _)));
    assert!(matches!(git_add(vec![], false, None), GitAddAction::Projects(StorageDir::Working, _)));
}

#[test]
fn stems_select_named_files() {
    let stems = vec![Some(s("invoice")), None, Some(s("offer")), Some(s("invoice"))];
    assert_eq!(select_by_stem(&stems, &vec![s("invoice")]), vec![0, 3]);
    assert_eq!(select_by_stem(&stems, &vec![s("offer"), s("")]), vec![1, 2]);
    assert_eq!(select_by_stem(&stems, &vec![]), Vec::<usize>::new());
}
