//! Paths as text, joined the way `PathBuf::join` joins them on Unix, and the
//! choice of which configured path the `path` command shows.

use vstd::prelude::*;
use crate::text::push_char;

verus! {

/// A path is absolute when it starts at the root.
pub open spec fn is_absolute(p: Seq<char>) -> bool {
    p.len() > 0 && p[0] == '/'
}

/// `base` joined with `rest`: an absolute `rest` replaces `base`; otherwise
/// `rest` is appended, with a `/` between unless `base` is empty or already
/// ends in one.
pub open spec fn spec_join(base: Seq<char>, rest: Seq<char>) -> Seq<char> {
    if is_absolute(rest) {
        rest
    } else if base.len() == 0 || base.last() == '/' {
        base + rest
    } else {
        base.push('/') + rest
    }
}

/// Joins two paths.
pub fn join_path(base: &str, rest: &str) -> (r: String)
    ensures
        r@ == spec_join(base@, rest@),
        is_absolute(rest@) ==> r@ == rest@,
        !is_absolute(rest@) ==> r@.take(base@.len() as int) == base@,
        r@.len() >= rest@.len() && r@.skip(r@.len() - rest@.len()) == rest@,
{
    let rn = rest.unicode_len();
    if rn > 0 && rest.get_char(0) == '/' {
        let r = String::from_str(rest);
        assert(r@.skip(0) =~= rest@);
        return r;
    }
    let bn = base.unicode_len();
    let mut r = String::from_str(base);
    if bn > 0 && base.get_char(bn - 1) != '/' {
        push_char(&mut r, '/');
    }
    r.append(rest);
    assert(r@.take(base@.len() as int) =~= base@);
    assert(r@.skip(r@.len() - rest@.len()) =~= rest@);
    r
}

/// Which path the `path` command reports.
#[derive(PartialEq, Eq, Debug)]
pub enum PathTarget {
    /// The templates directory, fully joined.
    Templates(String),
    /// The output path, with `~` still to be replaced by the home directory.
    Output(String),
    /// The running executable.
    Executable,
    /// The storage directory inside `base`, once `~` in `base` is replaced by
    /// the home directory.
    Storage { base: String, storage: String },
}

/// Chooses the path to report: with `templates` the storage's templates
/// directory, else with `output` the output path, else with `bin` the
/// executable, else the storage directory.
pub fn path(
    templates: bool,
    output: bool,
    bin: bool,
    root: &str,
    storage: &str,
    templates_dir: &str,
    output_path: &str,
) -> (t: PathTarget)
    ensures
        templates ==> t is Templates && t->Templates_0@ == spec_join(
            spec_join(root@, storage@),
            templates_dir@,
        ),
        !templates && output ==> t is Output && t->Output_0@ == output_path@,
        !templates && !output && bin ==> t is Executable,
        !templates && !output && !bin ==> t is Storage && t->base@ == root@ && t->storage@
            == storage@,
{
    if templates {
        let first = join_path(root, storage);
        PathTarget::Templates(join_path(first.as_str(), templates_dir))
    } else if output {
        PathTarget::Output(String::from_str(output_path))
    } else if bin {
        PathTarget::Executable
    } else {
        PathTarget::Storage { base: String::from_str(root), storage: String::from_str(storage) }
    }
}

/// The stem of the file that a path names, as `Path::file_stem` gives it:
/// the file name without its last extension.
pub uninterp spec fn file_stem_of(path: Seq<char>) -> Option<Seq<char>>;

/// The stem of the file that `path` names (`Path::file_stem`); `None` where
/// the path names no file.  What the stem is for a given path is left to
/// `Path::file_stem` and not restated here.
#[verifier::external_body]
fn file_stem(path: &str) -> (r: Option<String>)
    ensures
        match r {
            Some(s) => file_stem_of(path@) == Some(s@),
            None => file_stem_of(path@) is None,
        },
{
    match std::path::Path::new(path).file_stem() {
        Some(stem) => Some(stem.to_string_lossy().into_owned()),
        None => None,
    }
}

/// The stem of each path, in order.
pub fn file_stems(paths: &Vec<String>) -> (r: Vec<Option<String>>)
    ensures
        r@.len() == paths@.len(),
        forall|i: int|
            0 <= i < paths@.len() ==> match #[trigger] r@[i] {
                Some(s) => file_stem_of(paths@[i]@) == Some(s@),
                None => file_stem_of(paths@[i]@) is None,
            },
{
    let mut r: Vec<Option<String>> = Vec::new();
    let mut i: usize = 0;
    while i < paths.len()
        invariant
            i <= paths@.len(),
            r@.len() == i,
            forall|j: int|
                0 <= j < i ==> match #[trigger] r@[j] {
                    Some(s) => file_stem_of(paths@[j]@) == Some(s@),
                    None => file_stem_of(paths@[j]@) is None,
                },
        decreases paths@.len() - i,
    {
        let stem = file_stem(paths[i].as_str());
        r.push(stem);
        i = i + 1;
    }
    r
}

} // verus!
