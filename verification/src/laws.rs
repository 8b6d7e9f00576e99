//! What the listing, the sub-commands and the string order are for, stated
//! over all inputs and proved from the definitions the functions are held to.

use vstd::prelude::*;
use crate::commands::{fill_entry, spec_dir_of, spec_editor, spec_fill_data, NewArgs};
use crate::decimal::spec_parse_i32;
use crate::listing::{lists_projects, spec_decide_mode, spec_list_dir, spec_list_sort, ListArgs,
    ListMode, StorageDir};
use crate::ordering::{is_listing_order, precedes, record_lt, spec_sort_field, ProjectRecord,
    SortField};
use crate::text::chars_lt;

verus! {

// ---------------------------------------------------------------- strings

/// The text order is lexicographic: `a` comes before `b` exactly when, after
/// a common prefix of length `k`, either `a` ends while `b` goes on, or the
/// next character of `a` has the smaller code.
pub proof fn law_text_order_is_lexicographic(a: Seq<char>, b: Seq<char>)
    ensures
        chars_lt(a, b) <==> exists|k: int|
            #![trigger a.take(k), b.take(k)]
            0 <= k <= a.len() && k <= b.len() && a.take(k) == b.take(k) && ((k == a.len() && k
                < b.len()) || (k < a.len() && k < b.len() && (a[k] as int) < (b[k] as int))),
    decreases a.len(),
{
    if chars_lt(a, b) {
        if a.len() == 0 || (a[0] as int) < (b[0] as int) {
            assert(a.take(0) =~= b.take(0));
        } else {
            law_text_order_is_lexicographic(a.drop_first(), b.drop_first());
            let j = choose|j: int|
                #![trigger a.drop_first().take(j), b.drop_first().take(j)]
                0 <= j <= a.drop_first().len() && j <= b.drop_first().len()
                    && a.drop_first().take(j) == b.drop_first().take(j) && ((j
                    == a.drop_first().len() && j < b.drop_first().len()) || (j
                    < a.drop_first().len() && j < b.drop_first().len() && (a.drop_first()[j] as int)
                    < (b.drop_first()[j] as int)));
            assert(a.take(j + 1) =~= seq![a[0]] + a.drop_first().take(j));
            assert(b.take(j + 1) =~= seq![b[0]] + b.drop_first().take(j));
        }
    }
    if exists|k: int|
        #![trigger a.take(k), b.take(k)]
        0 <= k <= a.len() && k <= b.len() && a.take(k) == b.take(k) && ((k == a.len() && k
            < b.len()) || (k < a.len() && k < b.len() && (a[k] as int) < (b[k] as int))) {
        let k = choose|k: int|
            #![trigger a.take(k), b.take(k)]
            0 <= k <= a.len() && k <= b.len() && a.take(k) == b.take(k) && ((k == a.len() && k
                < b.len()) || (k < a.len() && k < b.len() && (a[k] as int) < (b[k] as int)));
        if k > 0 {
            assert(a[0] == a.take(k)[0] && b[0] == b.take(k)[0]);
            let (a1, b1) = (a.drop_first(), b.drop_first());
            assert(a1.take(k - 1) =~= a.take(k).drop_first());
            assert(b1.take(k - 1) =~= b.take(k).drop_first());
            if k < a.len() && k < b.len() {
                assert(a1[k - 1] == a[k] && b1[k - 1] == b[k]);
            }
            law_text_order_is_lexicographic(a1, b1);
        }
    }
}

// ---------------------------------------------------------------- sorting

/// Managers are ordered as `Option<String>` is: a project without a manager
/// comes before every project with one, and two managers compare as text.
/// No other field matters.
pub proof fn law_manager_order(a: ProjectRecord, b: ProjectRecord)
    ensures
        a.manager is None ==> (record_lt(a, b, SortField::Manager) <==> b.manager is Some),
        a.manager is Some && b.manager is None ==> !record_lt(a, b, SortField::Manager),
        a.manager is Some && b.manager is Some ==> (record_lt(a, b, SortField::Manager)
            <==> chars_lt(a.manager->0@, b.manager->0@)),
{
}

/// Names are ordered as `Option<String>` is: a project without a name comes
/// before every project with one, and two names compare as text.
pub proof fn law_name_order(a: ProjectRecord, b: ProjectRecord)
    ensures
        a.name is None ==> (record_lt(a, b, SortField::Name) <==> b.name is Some),
        a.name is Some && b.name is None ==> !record_lt(a, b, SortField::Name),
        a.name is Some && b.name is Some ==> (record_lt(a, b, SortField::Name) <==> chars_lt(
            a.name->0@,
            b.name->0@,
        )),
{
}

/// Dates are ordered as `Option` of dates is: a project without a date comes
/// first, and two dates compare by day.
pub proof fn law_date_order(a: ProjectRecord, b: ProjectRecord)
    ensures
        a.date is None ==> (record_lt(a, b, SortField::Date) <==> b.date is Some),
        a.date is Some && b.date is None ==> !record_lt(a, b, SortField::Date),
        a.date is Some && b.date is Some ==> (record_lt(a, b, SortField::Date) <==> a.date->0
            < b.date->0),
{
}

/// Indexes compare as text, a missing index counting as `zzzz`.
pub proof fn law_index_order(a: ProjectRecord, b: ProjectRecord)
    ensures
        record_lt(a, b, SortField::Index) <==> chars_lt(
            match a.index {
                Some(s) => s@,
                None => "zzzz"@,
            },
            match b.index {
                Some(s) => s@,
                None => "zzzz"@,
            },
        ),
{
}

/// In a listing by manager, no project with a manager is listed before a
/// project without one.
pub proof fn law_listing_puts_missing_managers_first(
    recs: Seq<ProjectRecord>,
    order: Seq<usize>,
    p: int,
    q: int,
)
    requires
        is_listing_order(recs, SortField::Manager, order),
        0 <= p < q < order.len(),
    ensures
        !(recs[order[p] as int].manager is Some && recs[order[q] as int].manager is None),
{
    assert(precedes(recs, SortField::Manager, order[p] as int, order[q] as int));
}

/// The words that choose a sort field; every other word sorts by index.
pub proof fn law_sort_field_words(s: Seq<char>)
    ensures
        s == "manager"@ ==> spec_sort_field(s) == SortField::Manager,
        s == "date"@ ==> spec_sort_field(s) == SortField::Date,
        s == "name"@ ==> spec_sort_field(s) == SortField::Name,
        s != "manager"@ && s != "date"@ && s != "name"@ ==> spec_sort_field(s) == SortField::Index,
{
    reveal_strlit("manager");
    reveal_strlit("date");
    reveal_strlit("name");
    assert("date"@.len() != "manager"@.len());
    assert("name"@.len() != "manager"@.len());
    assert("name"@[0] != "date"@[0]);
}

// ---------------------------------------------------------------- list

/// `--csv` wins over every other mode flag, then `--nothing`, then
/// `--paths`; otherwise `--simple` always gives the simple mode, `--verbose`
/// or the configured `list/verbose` give the verbose mode, and without any
/// of them the mode is simple.
pub proof fn law_mode_choice(
    simple: bool,
    verbose: bool,
    paths: bool,
    nothing: bool,
    csv: bool,
    config_verbose: bool,
)
    ensures
        csv ==> spec_decide_mode(simple, verbose, paths, nothing, csv, config_verbose)
            == ListMode::Csv,
        !csv && nothing ==> spec_decide_mode(simple, verbose, paths, nothing, csv, config_verbose)
            == ListMode::Nothing,
        !csv && !nothing && paths ==> spec_decide_mode(
            simple,
            verbose,
            paths,
            nothing,
            csv,
            config_verbose,
        ) == ListMode::Paths,
        !csv && !nothing && !paths && simple ==> spec_decide_mode(
            simple,
            verbose,
            paths,
            nothing,
            csv,
            config_verbose,
        ) == ListMode::Simple,
        !csv && !nothing && !paths && !simple && (verbose || config_verbose) ==> spec_decide_mode(
            simple,
            verbose,
            paths,
            nothing,
            csv,
            config_verbose,
        ) == ListMode::Verbose,
        !csv && !nothing && !paths && !verbose && !config_verbose ==> spec_decide_mode(
            simple,
            verbose,
            paths,
            nothing,
            csv,
            config_verbose,
        ) == ListMode::Simple,
{
}

/// `list` sorts by the field given with `--sort`; without it, by date only
/// when listing everything (`--all` and neither `--archive` nor `--year`),
/// and otherwise by the configured field, whatever `--year` or `--archive`
/// says.
pub proof fn law_list_sort_choice(a: ListArgs, config_sort: Option<String>)
    ensures
        a.sort is Some ==> spec_list_sort(a, config_sort) == a.sort->0@,
        a.sort is None && !a.all ==> spec_list_sort(a, config_sort) == config_sort->0@,
        a.sort is None && (a.archive is Some || a.year is Some) ==> spec_list_sort(a, config_sort)
            == config_sort->0@,
        a.sort is None && a.all && a.archive is None && a.year is None ==> spec_list_sort(
            a,
            config_sort,
        ) == "date"@,
{
}

/// `list` looks in the archive of the year given with `--archive`, else in
/// the year given with `--year`, else everywhere with `--all`, else in the
/// working directory.
pub proof fn law_list_dir_choice(a: ListArgs)
    ensures
        a.archive is Some ==> spec_list_dir(a) == StorageDir::Archive(
            spec_parse_i32(a.archive->0@)->0,
        ),
        a.archive is None && a.year is Some ==> spec_list_dir(a) == StorageDir::Year(
            spec_parse_i32(a.year->0@)->0,
        ),
        a.archive is None && a.year is None && a.all ==> spec_list_dir(a) == StorageDir::All,
        a.archive is None && a.year is None && !a.all ==> spec_list_dir(a) == StorageDir::Working,
{
}

// ---------------------------------------------------------------- new

proof fn lemma_contains_concat<A>(s: Seq<A>, t: Seq<A>, x: A)
    ensures
        (s + t).contains(x) <==> s.contains(x) || t.contains(x),
{
    if (s + t).contains(x) {
        let i = choose|i: int| 0 <= i < (s + t).len() && (s + t)[i] == x;
        if i < s.len() {
            assert(s[i] == x);
        } else {
            assert(t[i - s.len()] == x);
        }
    }
    if s.contains(x) {
        let i = choose|i: int| 0 <= i < s.len() && s[i] == x;
        assert((s + t)[i] == x);
    }
    if t.contains(x) {
        let i = choose|i: int| 0 <= i < t.len() && t[i] == x;
        assert((s + t)[i + s.len()] == x);
    }
}

proof fn lemma_entry_contains(key: Seq<char>, value: Option<String>, k: Seq<char>, v: Seq<char>)
    ensures
        fill_entry(key, value).contains((k, v)) <==> (k == key && value is Some && value->0@ == v),
{
    if value is Some {
        assert(fill_entry(key, value)[0] == (key, value->0@));
    }
}

/// The value that `new` fills in under `k`, where it fills one.
pub open spec fn filled(a: NewArgs, k: Seq<char>, v: Seq<char>) -> bool {
    spec_fill_data(a).contains((k, v))
}

/// Each template field that `new` fills holds exactly the argument of its
/// own name, and is filled exactly when that argument is given:
/// DESCRIPTION the description, DATE-EVENT the date, TIME-START the start
/// time, TIME-END the end time and MANAGER the manager.
pub proof fn law_fill_fields(a: NewArgs, v: Seq<char>)
    ensures
        filled(a, "DESCRIPTION"@, v) <==> (a.description is Some && a.description->0@ == v),
        filled(a, "DATE-EVENT"@, v) <==> (a.date is Some && a.date->0@ == v),
        filled(a, "TIME-START"@, v) <==> (a.time is Some && a.time->0@ == v),
        filled(a, "TIME-END"@, v) <==> (a.time_end is Some && a.time_end->0@ == v),
        filled(a, "MANAGER"@, v) <==> (a.manager is Some && a.manager->0@ == v),
{
    reveal_strlit("DESCRIPTION");
    reveal_strlit("DATE-EVENT");
    reveal_strlit("TIME-START");
    reveal_strlit("TIME-END");
    reveal_strlit("MANAGER");
    let keys = seq!["DESCRIPTION"@, "DATE-EVENT"@, "TIME-START"@, "TIME-END"@, "MANAGER"@];
    let vals = seq![a.description, a.date, a.time, a.time_end, a.manager];
    assert forall|x: int, y: int| 0 <= x < 5 && 0 <= y < 5 && x != y implies keys[x]
        != keys[y] by {
        assert(keys[x].len() != keys[y].len() || keys[x][0] != keys[y][0] || keys[x][5]
            != keys[y][5]);
    }
    let e0 = fill_entry(keys[0], vals[0]);
    let e1 = fill_entry(keys[1], vals[1]);
    let e2 = fill_entry(keys[2], vals[2]);
    let e3 = fill_entry(keys[3], vals[3]);
    let e4 = fill_entry(keys[4], vals[4]);
    assert(spec_fill_data(a) == e0 + e1 + e2 + e3 + e4);
    assert forall|i: int| 0 <= i < 5 implies (#[trigger] filled(a, keys[i], v)) <==> (vals[i] is Some
        && vals[i]->0@ == v) by {
        let x = (keys[i], v);
        lemma_contains_concat(e0 + e1 + e2 + e3, e4, x);
        lemma_contains_concat(e0 + e1 + e2, e3, x);
        lemma_contains_concat(e0 + e1, e2, x);
        lemma_contains_concat(e0, e1, x);
        lemma_entry_contains(keys[0], vals[0], keys[i], v);
        lemma_entry_contains(keys[1], vals[1], keys[i], v);
        lemma_entry_contains(keys[2], vals[2], keys[i], v);
        lemma_entry_contains(keys[3], vals[3], keys[i], v);
        lemma_entry_contains(keys[4], vals[4], keys[i], v);
    }
    assert(filled(a, keys[0], v) == filled(a, "DESCRIPTION"@, v));
    assert(filled(a, keys[1], v) == filled(a, "DATE-EVENT"@, v));
    assert(filled(a, keys[2], v) == filled(a, "TIME-START"@, v));
    assert(filled(a, keys[3], v) == filled(a, "TIME-END"@, v));
    assert(filled(a, keys[4], v) == filled(a, "MANAGER"@, v));
}

// ---------------------------------------------------------------- editors

/// The editor given on the command line is the one used, whether or not one
/// is configured; without one, the configured editor is used.
pub proof fn law_editor_choice(given: Option<String>, configured: Option<String>)
    ensures
        given is Some ==> spec_editor(given, configured) == given,
        given is None ==> spec_editor(given, configured) == configured,
{
}

/// A command given a year works in that year's archive; without one, in the
/// working directory.
pub proof fn law_year_dir(archive: Option<String>)
    ensures
        archive is Some ==> spec_dir_of(archive) == StorageDir::Archive(
            spec_parse_i32(archive->0@)->0,
        ),
        archive is None ==> spec_dir_of(archive) == StorageDir::Working,
{
}

} // verus!
