use asciii_cli::paths::file_stems;
use asciii_cli::errors::{Error, StorageError};
use asciii_cli::paths::{join_path, path, PathTarget};
use asciii_cli::reports::{git_remote, term, years_text, RemoteInfo};

fn s(x: &str) -> String {
    x.to_string()
}

#[test]
fn terminal_report() {
    assert_eq!(term(Some((80, 24))), "Your terminal is 80 cols wide and 24 lines tall");
    assert_eq!(term(None), "Unable to get terminal size");
}

#[test]
fn years_are_printed_like_debug() {
    assert_eq!(years_text(&vec![]), format!("{:?}", Vec::<i32>::new()));
    assert_eq!(years_text(&vec![2015]), format!("{:?}", vec![2015]));
    assert_eq!(years_text(&vec![2014, 2015, -3]), format!("{:?}", vec![2014, 2015, -3]));
}

#[test]
fn remote_lines() {
    let r = RemoteInfo { name: Some(s("origin")), url: Some(s("git@host:x")), push_url: None };
    assert_eq!(
        git_remote(true, Some(r)),
        "origin\tgit@host:x (fetch)\norigin\tgit@host:x (push)"
    );
    let r = RemoteInfo { name: None, url: None, push_url: Some(s("p")) };
    assert_eq!(git_remote(true, Some(r)), "no name\tno url (fetch)\nno name\tp (push)");
    let r = RemoteInfo { name: None, url: None, push_url: None };
    assert_eq!(git_remote(true, Some(r)), "no name\tno url (fetch)\nno name\t (push)");
    assert_eq!(git_remote(true, None), "no remote");
    assert_eq!(git_remote(false, None), "no remote name");
}

#[test]
fn joins_like_pathbuf() {
    for (a, b) in [("a", "b"), ("a/", "b"), ("", "b"), ("/x/y", "/z"), ("~/p", "caterings"), ("a", "")] {
        let expected = std::path::PathBuf::from(a).join(b);
        assert_eq!(join_path(a, b), expected.to_str().unwrap(), "{:?} {:?}", a, b);
    }
}

#[test]
fn path_choice() {
    assert_eq!(
        path(true, true, true, "~/ascii", "caterings", "templates", "~/out"),
        PathTarget::Templates(s("~/ascii/caterings/templates"))
    );
    assert_eq!(path(false, true, true, "~/a", "s", "t", "~/out"), PathTarget::Output(s("~/out")));
    assert_eq!(path(false, false, true, "~/a", "s", "t", "~/out"), PathTarget::Executable);
    assert_eq!(
        path(false, false, false, "~/a", "s", "t", "~/out"),
        PathTarget::Storage { base: s("~/a"), storage: s("s") }
    );
}

#[test]
fn storage_error_descriptions() {
    assert_eq!(StorageError::NoWorkingDir.description(), "There is no working dir.");
    assert_eq!(
        StorageError::TemplateNotFound.description(),
        "The described template file does not exist."
    );
    assert_eq!(StorageError::Io(s("disk full")).description(), "disk full");
    assert_eq!(StorageError::Io(s("disk full")).cause(), Some("disk full"));
    assert_eq!(StorageError::Git(s("locked")).cause(), Some("locked"));
    assert_eq!(StorageError::ParseError(s("bad yaml")).description(), "bad yaml");
    assert_eq!(StorageError::BadChoice.cause(), None);
}

#[test]
fn action_error_messages() {
    assert_eq!(Error::ActionError.message(), "unexpected response from service");
    assert_eq!(Error::AddingFailed.message(), "Adding Failed");
    assert_eq!(Error::Toml(s("expected =")).message(), "expected =");
}

#[test]
fn stems_of_template_files() {
    let paths = vec![s("templates/invoice.tex"), s("a/.hidden"), s("a/b.tar.gz"), s("/"), s("plain")];
    assert_eq!(
        file_stems(&paths),
        vec![Some(s("invoice")), Some(s(".hidden")), Some(s("b.tar")), None, Some(s("plain"))]
    );
}
