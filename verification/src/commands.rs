//! The sub-commands that create, edit, show, archive and configure projects:
//! what each one reads from its arguments and what it decides to do.

use vstd::prelude::*;
use crate::decimal::{parse_year, spec_parse_i32, int_text, year_text};
use crate::listing::StorageDir;
use crate::text::same_text;

verus! {

/// The arguments of the `new` command.
pub struct NewArgs {
    pub name: String,
    pub template: Option<String>,
    pub description: Option<String>,
    pub date: Option<String>,
    pub time: Option<String>,
    pub time_end: Option<String>,
    pub manager: Option<String>,
    pub dont_edit: bool,
}

/// A project to create.
pub struct NewProject {
    pub name: String,
    pub template: String,
    pub editor: Option<String>,
    /// Open the new project file in the editor.
    pub edit: bool,
    /// The template fields filled in from the arguments, key and value.
    pub fill_data: Vec<(String, String)>,
}

/// One template field, where its value was given.
pub open spec fn fill_entry(key: Seq<char>, value: Option<String>) -> Seq<(Seq<char>, Seq<char>)> {
    match value {
        Some(v) => seq![(key, v@)],
        None => Seq::empty(),
    }
}

/// The template fields that `new` fills in.
pub open spec fn spec_fill_data(a: NewArgs) -> Seq<(Seq<char>, Seq<char>)> {
    fill_entry("DESCRIPTION"@, a.description) + fill_entry("DATE-EVENT"@, a.date) + fill_entry(
        "TIME-START"@,
        a.time,
    ) + fill_entry("TIME-END"@, a.time_end) + fill_entry("MANAGER"@, a.manager)
}

/// The key and value texts of filled template fields.
pub open spec fn pairs_view(v: Seq<(String, String)>) -> Seq<(Seq<char>, Seq<char>)> {
    v.map_values(|p: (String, String)| (p.0@, p.1@))
}

fn push_field(fields: &mut Vec<(String, String)>, key: &str, value: Option<String>)
    ensures
        pairs_view(final(fields)@) == pairs_view(old(fields)@) + fill_entry(key@, value),
{
    match value {
        Some(v) => {
            fields.push((String::from_str(key), v));
        },
        None => {},
    }
    assert(pairs_view(final(fields)@) =~= pairs_view(old(fields)@) + fill_entry(key@, value));
}

/// Decides the project that `new` creates: the template given, else the
/// configured one; the configured editor; editing unless told not to; and
/// the template fields given on the command line.  `config_template` is the
/// configuration's `template` entry: `None` where there is no such entry,
/// `Some(None)` where it is not a string.  The entry must exist even when a
/// template is given.
pub fn new(args: NewArgs, config_template: Option<Option<String>>, config_editor: Option<String>) -> (p:
    NewProject)
    requires
        config_template is Some,
        args.template is Some || config_template->0 is Some,
    ensures
        p.name == args.name,
        p.template@ == (match args.template {
            Some(t) => t@,
            None => config_template->0->0@,
        }),
        p.editor == config_editor,
        p.edit == !args.dont_edit,
        pairs_view(p.fill_data@) == spec_fill_data(args),
{
    let mut fill_data: Vec<(String, String)> = Vec::new();
    let ghost a = args;
    push_field(&mut fill_data, "DESCRIPTION", args.description);
    push_field(&mut fill_data, "DATE-EVENT", args.date);
    push_field(&mut fill_data, "TIME-START", args.time);
    push_field(&mut fill_data, "TIME-END", args.time_end);
    push_field(&mut fill_data, "MANAGER", args.manager);
    assert(pairs_view(fill_data@) =~= spec_fill_data(a));
    let template = match args.template {
        Some(t) => t,
        None => match config_template {
            Some(Some(t)) => t,
            _ => String::new(),
        },
    };
    NewProject {
        name: args.name,
        template,
        editor: config_editor,
        edit: !args.dont_edit,
        fill_data,
    }
}

/// No template field is filled in twice.
pub proof fn lemma_fill_data_keys_distinct(a: NewArgs)
    ensures
        forall|i: int, j: int|
            0 <= i < j < spec_fill_data(a).len() ==> spec_fill_data(a)[i].0 != spec_fill_data(
                a,
            )[j].0,
{
    reveal_strlit("DESCRIPTION");
    reveal_strlit("DATE-EVENT");
    reveal_strlit("TIME-START");
    reveal_strlit("TIME-END");
    reveal_strlit("MANAGER");
    let s = spec_fill_data(a);
    let keys = seq!["DESCRIPTION"@, "DATE-EVENT"@, "TIME-START"@, "TIME-END"@, "MANAGER"@];
    assert forall|x: int, y: int| 0 <= x < y < 5 implies keys[x] != keys[y] by {
        assert(keys[x].len() != keys[y].len() || keys[x][0] != keys[y][0] || keys[x][5]
            != keys[y][5]);
    }
    assert forall|i: int, j: int| 0 <= i < j < s.len() implies s[i].0 != s[j].0 by {
        assert(exists|x: int, y: int| 0 <= x < y < 5 && s[i].0 == keys[x] && s[j].0 == keys[y]);
    }
}

/// The directory of a year given as text, where one is given, else the
/// working directory.
pub open spec fn spec_dir_of(archive: Option<String>) -> StorageDir {
    match archive {
        Some(y) => StorageDir::Archive(spec_parse_i32(y@)->0),
        None => StorageDir::Working,
    }
}

/// The year given as text reads as a number, where one is given.
pub open spec fn year_readable(archive: Option<String>) -> bool {
    match archive {
        Some(y) => spec_parse_i32(y@) is Some,
        None => true,
    }
}

fn dir_of(archive: &Option<String>) -> (d: StorageDir)
    requires
        year_readable(*archive),
    ensures
        d == spec_dir_of(*archive),
{
    match archive {
        Some(y) => match parse_year(y.as_str()) {
            Some(v) => StorageDir::Archive(v),
            None => StorageDir::Working,
        },
        None => StorageDir::Working,
    }
}

/// The editor given on the command line, else the configured one.
pub open spec fn spec_editor(given: Option<String>, configured: Option<String>) -> Option<String> {
    match given {
        Some(e) => Some(e),
        None => configured,
    }
}

/// What `edit` does.
pub enum EditAction {
    /// Edit the templates named `name`.
    Template { name: String, editor: Option<String> },
    /// Edit the projects that match any of the search terms.
    Projects { dir: StorageDir, search_terms: Vec<String>, editor: Option<String> },
}

/// Decides what `edit` does: with `template` edit the template named by the
/// first search term; else edit the projects matching the search terms, in
/// the archive of the year given or in the working directory.
pub fn edit(
    search_terms: Vec<String>,
    editor: Option<String>,
    template: bool,
    archive: Option<String>,
    config_editor: Option<String>,
) -> (r: EditAction)
    requires
        search_terms@.len() > 0,
        !template ==> year_readable(archive),
    ensures
        template ==> r is Template && r->Template_name == search_terms@[0]
            && r->Template_editor == spec_editor(editor, config_editor),
        !template ==> r is Projects && r->Projects_dir == spec_dir_of(archive)
            && r->Projects_search_terms == search_terms && r->Projects_editor == spec_editor(
            editor,
            config_editor,
        ),
{
    let editor = match editor {
        Some(e) => Some(e),
        None => config_editor,
    };
    if template {
        let name = search_terms[0].clone();
        EditAction::Template { name, editor }
    } else {
        let dir = dir_of(&archive);
        EditAction::Projects { dir, search_terms, editor }
    }
}

/// All matches of several searches, in the order of the searches.
pub open spec fn spec_all_matches<T>(results: Seq<Vec<T>>) -> Seq<T> {
    results.map_values(|v: Vec<T>| v@).flatten()
}

/// Gathers the matches of the searches for each term; `None` when no search
/// found anything.
pub fn gather_matches<T>(results: Vec<Vec<T>>) -> (r: Option<Vec<T>>)
    ensures
        match r {
            Some(all) => all@ == spec_all_matches(results@) && all@.len() > 0,
            None => spec_all_matches(results@).len() == 0,
        },
{
    let mut all: Vec<T> = Vec::new();
    let mut rest = results;
    let ghost whole = rest@;
    let mut i: usize = 0;
    let n = rest.len();
    assert(whole.take(0).map_values(|v: Vec<T>| v@) =~= Seq::<Seq<T>>::empty());
    while i < n
        invariant
            n == whole.len(),
            rest@.len() == n,
            i <= n,
            forall|j: int| i <= j < n ==> rest@[j] == whole[j],
            all@ == spec_all_matches(whole.take(i as int)),
        decreases n - i,
    {
        let mut found: Vec<T> = Vec::new();
        std::mem::swap(&mut found, &mut rest[i]);
        let ghost before = all@;
        let ghost views = whole.take(i + 1).map_values(|v: Vec<T>| v@);
        assert(views.drop_last() =~= whole.take(i as int).map_values(|v: Vec<T>| v@));
        assert(views.last() == found@);
        proof {
            views.lemma_flatten_and_flatten_alt_are_equivalent();
            views.drop_last().lemma_flatten_and_flatten_alt_are_equivalent();
        }
        all.append(&mut found);
        i = i + 1;
    }
    assert(whole.take(n as int) =~= whole);
    if all.len() == 0 {
        None
    } else {
        Some(all)
    }
}

/// What `show` does.
#[derive(PartialEq, Eq, Debug)]
pub enum ShowAction {
    /// Show the projects in `dir` matching the search term.
    Project(StorageDir, String),
    /// Show the keywords of a template.
    Template(String),
}

/// Decides what `show` does: with a year given, show matching projects of
/// that year's archive; else with `template` the template; else matching
/// projects in the working directory.
pub fn show(search_term: String, archive: Option<String>, template: bool) -> (r: ShowAction)
    requires
        year_readable(archive),
    ensures
        archive is Some ==> r == ShowAction::Project(spec_dir_of(archive), search_term),
        archive is None && template ==> r == ShowAction::Template(search_term),
        archive is None && !template ==> r == ShowAction::Project(
            StorageDir::Working,
            search_term,
        ),
{
    if archive.is_some() {
        ShowAction::Project(dir_of(&archive), search_term)
    } else if template {
        ShowAction::Template(search_term)
    } else {
        ShowAction::Project(StorageDir::Working, search_term)
    }
}

/// A request to archive projects.
#[derive(PartialEq, Eq, Debug)]
pub struct ArchiveRequest {
    pub name: String,
    /// The year to archive under, where one was given that reads as a number.
    pub year: Option<i32>,
    /// Archive even projects that are not finished.
    pub force: bool,
}

/// Reads the arguments of `archive`; a year that does not read as a number
/// counts as none.
pub fn archive(name: String, year: Option<&str>, force: bool) -> (r: ArchiveRequest)
    ensures
        r.name == name,
        r.force == force,
        r.year == (match year {
            Some(y) => spec_parse_i32(y@),
            None => None,
        }),
{
    let year = match year {
        Some(y) => parse_year(y),
        None => None,
    };
    ArchiveRequest { name, year, force }
}

/// What happens to one project found by `archive`.
#[derive(PartialEq, Eq, Debug)]
pub enum ArchiveStep {
    /// Archive it under `year`, reporting `message`.
    Archive { year: i32, message: String },
    /// Leave it, reporting `message`.
    Skip { message: String },
}

/// `text(first)` followed by ` (`, `second` and `)`.
pub open spec fn with_parenthesis(first: Seq<char>, second: Seq<char>) -> Seq<char> {
    first + " ("@ + second + ")"@
}

/// Decides what happens to one project: it is archived when it is finished
/// or `force` is given, under the year given, else under its own year; it is
/// reported with its own year.
pub fn archive_step(
    ident: &str,
    file: &str,
    finished: bool,
    force: bool,
    manual_year: Option<i32>,
    project_year: Option<i32>,
) -> (s: ArchiveStep)
    requires
        finished || force ==> project_year is Some,
    ensures
        finished || force ==> s is Archive && s->Archive_year == (match manual_year {
            Some(y) => y,
            None => project_year->0,
        }) && s->Archive_message@ == "archiving "@ + with_parenthesis(
            ident@,
            int_text(project_year->0 as int),
        ),
        !(finished || force) ==> s is Skip && s->Skip_message@ == "CANNOT archive "@
            + with_parenthesis(ident@, file@),
{
    if finished || force {
        let own = match project_year {
            Some(y) => y,
            None => 0,
        };
        let year = match manual_year {
            Some(y) => y,
            None => own,
        };
        let mut message = String::from_str("archiving ");
        message.append(ident);
        message.append(" (");
        let own_text = year_text(own);
        message.append(own_text.as_str());
        message.append(")");
        ArchiveStep::Archive { year, message }
    } else {
        let mut message = String::from_str("CANNOT archive ");
        message.append(ident);
        message.append(" (");
        message.append(file);
        message.append(")");
        ArchiveStep::Skip { message }
    }
}

/// A request to bring a project back from the archive.
#[derive(PartialEq, Eq, Debug)]
pub struct UnarchiveRequest {
    pub year: i32,
    pub name: String,
}

/// Reads the arguments of `unarchive`.
pub fn unarchive(year: &str, name: String) -> (r: UnarchiveRequest)
    requires
        spec_parse_i32(year@) is Some,
    ensures
        r.year == spec_parse_i32(year@)->0,
        r.name == name,
{
    let y = match parse_year(year) {
        Some(v) => v,
        None => 0,
    };
    UnarchiveRequest { year: y, name }
}

/// Whether `unarchive` goes ahead: only when the search found exactly one
/// project; otherwise the name is ambiguous.
pub fn unarchive_unique(found: usize) -> (go: bool)
    ensures
        go == (found == 1),
{
    found == 1
}

/// What `config` does after showing a value.
#[derive(PartialEq, Eq, Debug)]
pub enum ConfigAction {
    Location,
    Edit(Option<String>),
    Default,
    Nothing,
}

/// What `config` does: show the value at a path, where one is given, and
/// next one further action.
#[derive(PartialEq, Eq, Debug)]
pub struct ConfigPlan {
    pub show: Option<String>,
    pub next: ConfigAction,
}

/// Decides what `config` does: show the value at `show`, if given; next
/// print the location with `location`, else edit with `edit`, else show the
/// default with `default`.
pub fn config(
    show: Option<String>,
    location: bool,
    edit: bool,
    default: bool,
    editor: Option<String>,
    config_editor: Option<String>,
) -> (p: ConfigPlan)
    ensures
        p.show == show,
        location ==> p.next == ConfigAction::Location,
        !location && edit ==> p.next == ConfigAction::Edit(spec_editor(editor, config_editor)),
        !location && !edit && default ==> p.next == ConfigAction::Default,
        !location && !edit && !default ==> p.next == ConfigAction::Nothing,
{
    let next = if location {
        ConfigAction::Location
    } else if edit {
        ConfigAction::Edit(
            match editor {
                Some(e) => Some(e),
                None => config_editor,
            },
        )
    } else if default {
        ConfigAction::Default
    } else {
        ConfigAction::Nothing
    };
    ConfigPlan { show, next }
}

/// What `add` stages in the repository.
pub enum GitAddAction {
    /// The template files whose names are among the search terms.
    Templates(Vec<String>),
    /// The projects in `dir` matching the search terms.
    Projects(StorageDir, Vec<String>),
}

/// Decides what `add` stages: with `template` templates; else projects in
/// the archive of the year given or in the working directory.
pub fn git_add(search_terms: Vec<String>, template: bool, archive: Option<String>) -> (r:
    GitAddAction)
    requires
        !template ==> year_readable(archive),
    ensures
        template ==> r is Templates && r->Templates_0 == search_terms,
        !template ==> r is Projects && r->Projects_0 == spec_dir_of(archive) && r->Projects_1
            == search_terms,
{
    if template {
        GitAddAction::Templates(search_terms)
    } else {
        GitAddAction::Projects(dir_of(&archive), search_terms)
    }
}

/// The name that a file without a readable stem is taken to have.
pub open spec fn stem_text(stem: Option<String>) -> Seq<char> {
    match stem {
        Some(s) => s@,
        None => Seq::empty(),
    }
}

/// The stem is one of the names.
pub open spec fn stem_named(stem: Option<String>, names: Seq<String>) -> bool {
    exists|k: int| 0 <= k < names.len() && #[trigger] names[k]@ == stem_text(stem)
}

fn named(stem: &Option<String>, names: &Vec<String>) -> (r: bool)
    ensures
        r == stem_named(*stem, names@),
{
    let s: &str = match stem {
        Some(s) => s.as_str(),
        None => "",
    };
    proof {
        reveal_strlit("");
    }
    assert(s@ == stem_text(*stem));
    let mut k: usize = 0;
    while k < names.len()
        invariant
            k <= names@.len(),
            s@ == stem_text(*stem),
            forall|j: int| 0 <= j < k ==> names@[j]@ != s@,
        decreases names@.len() - k,
    {
        if same_text(names[k].as_str(), s) {
            return true;
        }
        k = k + 1;
    }
    false
}

/// The positions of the files whose stems are among `names`, in order; a
/// file without a stem counts as named by the empty name.
pub fn select_by_stem(stems: &Vec<Option<String>>, names: &Vec<String>) -> (r: Vec<usize>)
    ensures
        forall|p: int| 0 <= p < r@.len() ==> #[trigger] r@[p] < stems@.len(),
        forall|p: int, q: int| 0 <= p < q < r@.len() ==> r@[p] < r@[q],
        forall|i: int|
            0 <= i < stems@.len() ==> (r@.contains(i as usize) <==> stem_named(
                #[trigger] stems@[i],
                names@,
            )),
{
    let mut r: Vec<usize> = Vec::new();
    let mut i: usize = 0;
    while i < stems.len()
        invariant
            i <= stems@.len(),
            forall|p: int| 0 <= p < r@.len() ==> #[trigger] r@[p] < i,
            forall|p: int, q: int| 0 <= p < q < r@.len() ==> r@[p] < r@[q],
            forall|j: int|
                0 <= j < i ==> (r@.contains(j as usize) <==> stem_named(
                    #[trigger] stems@[j],
                    names@,
                )),
        decreases stems@.len() - i,
    {
        let hit = named(&stems[i], names);
        let ghost before = r@;
        if hit {
            r.push(i);
        }
        assert forall|j: int| 0 <= j < i + 1 implies (r@.contains(j as usize) <==> stem_named(
            #[trigger] stems@[j],
            names@,
        )) by {
            if hit && j < i {
                if r@.contains(j as usize) {
                    let w = choose|w: int| 0 <= w < r@.len() && r@[w] == j as usize;
                    if w < before.len() {
                        assert(before[w] == j as usize);
                    }
                }
                if before.contains(j as usize) {
                    let w = choose|w: int| 0 <= w < before.len() && before[w] == j as usize;
                    assert(r@[w] == j as usize);
                }
            }
            if hit && j == i {
                assert(r@[r@.len() - 1] == i);
            }
            if !hit && j == i {
                if r@.contains(j as usize) {
                    let w = choose|w: int| 0 <= w < r@.len() && r@[w] == j as usize;
                    assert(r@[w] < i);
                }
            }
        }
        i = i + 1;
    }
    r
}

} // verus!
