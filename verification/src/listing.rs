//! The `list` and `csv` commands: which listing the flags ask for, in which
//! mode, from which part of the storage, sorted by what.

use vstd::prelude::*;
use crate::decimal::{parse_year, spec_parse_i32};
use crate::text::same_text;

verus! {

/// The part of the storage that a command works on.
#[derive(PartialEq, Eq, Structural, Debug, Clone, Copy)]
pub enum StorageDir {
    Working,
    Archive(i32),
    Year(i32),
    All,
}

/// How projects are listed.
#[derive(PartialEq, Eq, Structural, Debug, Clone, Copy)]
pub enum ListMode {
    Simple,
    Verbose,
    Paths,
    Nothing,
    Csv,
}

/// The mode that the listing flags ask for: `csv` before `nothing` before
/// `paths`; otherwise verbose when asked for, or configured and `simple` is
/// not given; otherwise simple.
pub open spec fn spec_decide_mode(
    simple: bool,
    verbose: bool,
    paths: bool,
    nothing: bool,
    csv: bool,
    config_verbose: bool,
) -> ListMode {
    if csv {
        ListMode::Csv
    } else if nothing {
        ListMode::Nothing
    } else if paths {
        ListMode::Paths
    } else if !simple && (verbose || config_verbose) {
        ListMode::Verbose
    } else {
        ListMode::Simple
    }
}

/// Decides the listing mode; `config_verbose` is the configured
/// `list/verbose`.
pub fn decide_mode(
    simple: bool,
    verbose: bool,
    paths: bool,
    nothing: bool,
    csv: bool,
    config_verbose: bool,
) -> (m: ListMode)
    ensures
        m == spec_decide_mode(simple, verbose, paths, nothing, csv, config_verbose),
{
    if csv {
        ListMode::Csv
    } else if nothing {
        ListMode::Nothing
    } else if paths {
        ListMode::Paths
    } else {
        match (simple, verbose, config_verbose) {
            (false, true, _) => ListMode::Verbose,
            (false, _, true) => ListMode::Verbose,
            _ => ListMode::Simple,
        }
    }
}

/// The arguments of the `list` command.
pub struct ListArgs {
    pub templates: bool,
    pub years: bool,
    pub virtual_fields: bool,
    pub simple: bool,
    pub verbose: bool,
    pub paths: bool,
    pub nothing: bool,
    pub csv: bool,
    pub errors: bool,
    pub all: bool,
    pub broken: bool,
    pub sort: Option<String>,
    pub details: Option<Vec<String>>,
    pub filter: Option<Vec<String>>,
    pub archive: Option<String>,
    pub year: Option<String>,
}

/// How a list of projects is shown.
pub struct ListConfig {
    pub sort_by: String,
    pub mode: ListMode,
    pub details: Option<Vec<String>>,
    pub filter_by: Option<Vec<String>>,
    pub show_errors: bool,
}

/// What the `list` command does.
pub enum ListAction {
    Templates,
    Years,
    VirtualFields,
    /// List the project files in a directory that cannot be opened.
    Broken(StorageDir),
    Projects(StorageDir, ListConfig),
}

/// The flags that choose one of the plain listings.
pub open spec fn lists_projects(a: ListArgs) -> bool {
    !a.templates && !a.years && !a.virtual_fields
}

/// The directory that `list` works on: the archive of a year, else a year,
/// else everything with `all`, else the working directory.
pub open spec fn spec_list_dir(a: ListArgs) -> StorageDir {
    match a.archive {
        Some(y) => StorageDir::Archive(spec_parse_i32(y@)->0),
        None => match a.year {
            Some(y) => StorageDir::Year(spec_parse_i32(y@)->0),
            None => if a.all {
                StorageDir::All
            } else {
                StorageDir::Working
            },
        },
    }
}

/// The field that `list` sorts by: the one given, else `date` when listing
/// everything, else the configured one.
pub open spec fn spec_list_sort(a: ListArgs, config_sort: Option<String>) -> Seq<char> {
    match a.sort {
        Some(s) => s@,
        None => if a.archive is None && a.year is None && a.all {
            "date"@
        } else {
            config_sort->0@
        },
    }
}

/// The years given to `list` are readable where they are used.
pub open spec fn list_years_readable(a: ListArgs) -> bool {
    match a.archive {
        Some(y) => spec_parse_i32(y@) is Some,
        None => match a.year {
            Some(y) => spec_parse_i32(y@) is Some,
            None => true,
        },
    }
}

/// Decides what `list` does.  `config_verbose` and `config_sort` are the
/// configured `list/verbose` and `list/sort`.
pub fn list(args: ListArgs, config_verbose: bool, config_sort: Option<String>) -> (r: ListAction)
    requires
        lists_projects(args) ==> list_years_readable(args),
        lists_projects(args) && args.sort is None ==> config_sort is Some,
    ensures
        args.templates ==> r is Templates,
        !args.templates && args.years ==> r is Years,
        !args.templates && !args.years && args.virtual_fields ==> r is VirtualFields,
        lists_projects(args) && args.broken ==> r == ListAction::Broken(spec_list_dir(args)),
        lists_projects(args) && !args.broken ==> r is Projects && r->Projects_0 == spec_list_dir(
            args,
        ) && r->Projects_1.sort_by@ == spec_list_sort(args, config_sort) && r->Projects_1.mode
            == spec_decide_mode(
            args.simple,
            args.verbose,
            args.paths,
            args.nothing,
            args.csv,
            config_verbose,
        ) && r->Projects_1.details == args.details && r->Projects_1.filter_by == args.filter
            && r->Projects_1.show_errors == args.errors,
{
    if args.templates {
        return ListAction::Templates;
    } else if args.years {
        return ListAction::Years;
    } else if args.virtual_fields {
        return ListAction::VirtualFields;
    }
    let mode = decide_mode(args.simple, args.verbose, args.paths, args.nothing, args.csv, config_verbose);
    let sort_given = args.sort.is_some();
    let mut sort_by = match args.sort {
        Some(s) => s,
        None => match config_sort {
            Some(s) => s,
            None => String::new(),
        },
    };
    let dir = match args.archive {
        Some(y) => match parse_year(y.as_str()) {
            Some(v) => StorageDir::Archive(v),
            None => StorageDir::Working,
        },
        None => match args.year {
            Some(y) => match parse_year(y.as_str()) {
                Some(v) => StorageDir::Year(v),
                None => StorageDir::Working,
            },
            None => if args.all {
                if !sort_given {
                    sort_by = String::from_str("date");
                }
                StorageDir::All
            } else {
                StorageDir::Working
            },
        },
    };
    let config = ListConfig {
        sort_by,
        mode,
        details: args.details,
        filter_by: args.filter,
        show_errors: args.errors,
    };
    if args.broken {
        ListAction::Broken(dir)
    } else {
        ListAction::Projects(dir, config)
    }
}

/// The names of the virtual fields that are shown: all but `Invalid`.
pub fn shown_virtual_fields(names: Vec<String>) -> (r: Vec<String>)
    ensures
        r@ == names@.filter(|s: String| s@ != "Invalid"@),
{
    let mut r: Vec<String> = Vec::new();
    let mut i: usize = 0;
    let ghost keep = |s: String| s@ != "Invalid"@;
    assert(names@.take(0) =~= Seq::<String>::empty());
    while i < names.len()
        invariant
            i <= names@.len(),
            keep == (|s: String| s@ != "Invalid"@),
            r@ == names@.take(i as int).filter(keep),
        decreases names@.len() - i,
    {
        let ghost before = names@.take(i as int);
        assert(names@.take(i + 1) =~= before.push(names@[i as int]));
        reveal_with_fuel(Seq::filter, 1);
        assert(names@.take(i + 1).drop_last() =~= before);
        if !same_text(names[i].as_str(), "Invalid") {
            r.push(names[i].clone());
        }
        i = i + 1;
    }
    assert(names@.take(names@.len() as int) =~= names@);
    r
}

/// The year that `csv` lists: the one given, where it reads as a number,
/// else the current year.
pub open spec fn spec_csv_year(arg: Option<Seq<char>>, current: i32) -> i32 {
    match arg {
        Some(s) => match spec_parse_i32(s) {
            Some(y) => y,
            None => current,
        },
        None => current,
    }
}

/// Chooses the year that `csv` lists, given the current year.
pub fn csv_year(arg: Option<&str>, current: i32) -> (y: i32)
    ensures
        y == spec_csv_year(
            match arg {
                Some(s) => Some(s@),
                None => None,
            },
            current,
        ),
{
    match arg {
        Some(s) => match parse_year(s) {
            Some(y) => y,
            None => current,
        },
        None => current,
    }
}

/// The printer that shows a listing.
#[derive(PartialEq, Eq, Structural, Debug, Clone, Copy)]
pub enum PrintKind {
    Csv,
    PathRows,
    SimpleRows,
    VerboseRows,
    DynamicRows,
}

/// The printer for a listing mode: simple rows when the screen is too
/// narrow (except for CSV), else the mode's own printer.
pub open spec fn spec_print_kind(mode: ListMode, wide_enough: bool) -> PrintKind {
    if !wide_enough && mode != ListMode::Csv {
        PrintKind::SimpleRows
    } else {
        match mode {
            ListMode::Csv => PrintKind::Csv,
            ListMode::Paths => PrintKind::PathRows,
            ListMode::Simple => PrintKind::SimpleRows,
            ListMode::Verbose => PrintKind::VerboseRows,
            ListMode::Nothing => PrintKind::DynamicRows,
        }
    }
}

/// Chooses the printer for a listing.
pub fn print_kind(mode: ListMode, wide_enough: bool) -> (k: PrintKind)
    ensures
        k == spec_print_kind(mode, wide_enough),
{
    if !wide_enough && mode != ListMode::Csv {
        PrintKind::SimpleRows
    } else {
        match mode {
            ListMode::Csv => PrintKind::Csv,
            ListMode::Paths => PrintKind::PathRows,
            ListMode::Simple => PrintKind::SimpleRows,
            ListMode::Verbose => PrintKind::VerboseRows,
            ListMode::Nothing => PrintKind::DynamicRows,
        }
    }
}

} // verus!
