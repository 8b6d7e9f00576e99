//! Lines that the commands print: the terminal size, the list of years, the
//! remotes of the repository.

use vstd::prelude::*;
use crate::decimal::{count_text, int_text, year_text};

verus! {

/// What `term` reports for the terminal size, in columns and lines.
pub open spec fn spec_term_report(size: Option<(u16, u16)>) -> Seq<char> {
    match size {
        Some((w, h)) => "Your terminal is "@ + int_text(w as int) + " cols wide and "@ + int_text(
            h as int,
        ) + " lines tall"@,
        None => "Unable to get terminal size"@,
    }
}

/// The line that `term` prints.
pub fn term(size: Option<(u16, u16)>) -> (r: String)
    ensures
        r@ == spec_term_report(size),
{
    match size {
        Some((w, h)) => {
            let mut r = String::from_str("Your terminal is ");
            let wt = count_text(w);
            r.append(wt.as_str());
            r.append(" cols wide and ");
            let ht = count_text(h);
            r.append(ht.as_str());
            r.append(" lines tall");
            r
        },
        None => String::from_str("Unable to get terminal size"),
    }
}

/// The years separated by `, `.
pub open spec fn years_joined(years: Seq<i32>) -> Seq<char>
    decreases years.len(),
{
    if years.len() == 0 {
        Seq::empty()
    } else if years.len() == 1 {
        int_text(years[0] as int)
    } else {
        years_joined(years.drop_last()) + ", "@ + int_text(years.last() as int)
    }
}

/// How a list of years is printed: in brackets, separated by `, `.
pub open spec fn spec_years_text(years: Seq<i32>) -> Seq<char> {
    "["@ + years_joined(years) + "]"@
}

/// The line that lists the years of the archive.
pub fn years_text(years: &Vec<i32>) -> (r: String)
    ensures
        r@ == spec_years_text(years@),
{
    let mut body = String::new();
    let mut i: usize = 0;
    while i < years.len()
        invariant
            i <= years@.len(),
            body@ == years_joined(years@.take(i as int)),
        decreases years@.len() - i,
    {
        let t = year_text(years[i]);
        let ghost prefix = years@.take(i + 1);
        assert(prefix.drop_last() =~= years@.take(i as int));
        if i > 0 {
            body.append(", ");
        } else {
            assert(years@.take(0) =~= Seq::<i32>::empty());
        }
        body.append(t.as_str());
        assert(body@ =~= years_joined(prefix));
        i = i + 1;
    }
    assert(years@.take(years@.len() as int) =~= years@);
    let mut r = String::from_str("[");
    r.append(body.as_str());
    r.append("]");
    r
}

/// A remote of the repository, by its name and addresses.
pub struct RemoteInfo {
    pub name: Option<String>,
    pub url: Option<String>,
    pub push_url: Option<String>,
}

/// The text of an optional string, or `default`.
pub open spec fn text_or(o: Option<String>, default: Seq<char>) -> Seq<char> {
    match o {
        Some(s) => s@,
        None => default,
    }
}

/// How a remote is reported, as `git remote -v` reports it: its name, a tab
/// and its fetch address, then its name, a tab and its push address; the
/// push address falls back to the fetch address.
pub open spec fn spec_remote_lines(r: RemoteInfo) -> Seq<char> {
    let name = text_or(r.name, "no name"@);
    let push = match r.push_url {
        Some(p) => p@,
        None => text_or(r.url, ""@),
    };
    name + "\t"@ + text_or(r.url, "no url"@) + " (fetch)\n"@ + name + "\t"@ + push + " (push)"@
}

/// What `remote` prints for one remote name: nothing to look up without a
/// name, nothing found, or the remote's lines.
pub open spec fn spec_remote_report(has_name: bool, found: Option<RemoteInfo>) -> Seq<char> {
    if !has_name {
        "no remote name"@
    } else {
        match found {
            Some(r) => spec_remote_lines(r),
            None => "no remote"@,
        }
    }
}

fn str_or<'a>(o: &'a Option<String>, default: &'a str) -> (s: &'a str)
    ensures
        s@ == text_or(*o, default@),
{
    match o {
        Some(s) => s.as_str(),
        None => default,
    }
}

/// The text that `remote` prints for one entry of the repository's remotes.
pub fn git_remote(has_name: bool, found: Option<RemoteInfo>) -> (r: String)
    ensures
        r@ == spec_remote_report(has_name, found),
{
    if !has_name {
        return String::from_str("no remote name");
    }
    match found {
        None => String::from_str("no remote"),
        Some(remote) => {
            let name = str_or(&remote.name, "no name");
            let url = str_or(&remote.url, "no url");
            let push = match &remote.push_url {
                Some(p) => p.as_str(),
                None => str_or(&remote.url, ""),
            };
            let mut r = String::from_str(name);
            r.append("\t");
            r.append(url);
            r.append(" (fetch)\n");
            r.append(name);
            r.append("\t");
            r.append(push);
            r.append(" (push)");
            r
        },
    }
}

} // verus!
