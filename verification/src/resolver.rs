//! Finds the file that a library reference names: the places where it may
//! lie, in the order in which the linker would look, and the first of them
//! that the machine reported to exist. A reference that names a file by its
//! path has that one place; a bare name is looked for in the search
//! directories.

use crate::host::Host;
use crate::paths::{
    compute_relative_path, joined_paths, parsed, relative, rendered, separator_of, views_of,
    LogicalPath, Step,
};
use crate::text::{chars_of, ends_with, glue, slice, starts_with, texts};
use vstd::prelude::*;

verus! {

/// The reference names a file by its path: it is no `-l` flag and ends in
/// `.a` or `.o`.
pub open spec fn is_path_reference(lib: Seq<char>) -> bool {
    !"-l"@.is_prefix_of(lib) && (".a"@.is_suffix_of(lib) || ".o"@.is_suffix_of(lib))
}

/// The name that a reference gives a library: the reference without its
/// `-l`.
pub open spec fn bare_name(lib: Seq<char>) -> Seq<char> {
    if "-l"@.is_prefix_of(lib) {
        lib.skip(2)
    } else {
        lib
    }
}

/// The file name under which a library is looked for in a directory:
/// `foo` is looked for as `libfoo.a`.
pub open spec fn decorated_name(lib: Seq<char>) -> Seq<char> {
    "lib"@ + bare_name(lib) + ".a"@
}

/// The directory that a search flag names: the flag without its `-L`.
pub open spec fn search_dir(flag: Seq<char>) -> Seq<char> {
    if "-L"@.is_prefix_of(flag) {
        flag.skip(2)
    } else {
        flag
    }
}

/// The file `name` in each of the first `n` search directories, read from
/// `root`, in the order in which the directories were declared.
pub open spec fn in_dirs(
    root: Seq<Step>,
    flags: Seq<Seq<char>>,
    name: Seq<char>,
    n: int,
) -> Seq<Seq<Step>>
    decreases n,
{
    if n <= 0 {
        Seq::empty()
    } else {
        in_dirs(root, flags, name, n - 1).push(
            joined_paths(joined_paths(root, parsed(search_dir(flags[n - 1]))), parsed(name)),
        )
    }
}

/// The places where a library may lie, in the order in which they are
/// tried. A reference that names a file by its path has one place: that
/// path, read from `root`; the search directories are not asked. Any other
/// reference is a bare name, looked for under its decorated file name in
/// each search directory.
pub open spec fn candidates(
    lib: Seq<char>,
    flags: Seq<Seq<char>>,
    root: Seq<Step>,
) -> Seq<Seq<Step>> {
    if is_path_reference(lib) {
        seq![joined_paths(root, parsed(lib))]
    } else {
        in_dirs(root, flags, decorated_name(lib), flags.len() as int)
    }
}

/// The first of the places at or after index `i` that exists.
pub open spec fn first_present(places: Seq<Seq<Step>>, host: Host, i: int) -> Option<Seq<Step>>
    decreases places.len() - i + 1,
{
    if i < 0 || i >= places.len() {
        None
    } else if host.has(rendered(places[i], separator_of(host.style))) {
        Some(places[i])
    } else {
        first_present(places, host, i + 1)
    }
}

/// A place as it is written: relative to `root` where the two share their
/// drive and root, else as it is.
pub open spec fn located(place: Seq<Step>, root: Seq<Step>, sep: char) -> Seq<char> {
    match relative(place, root) {
        Some(r) => rendered(r, sep),
        None => rendered(place, sep),
    }
}

/// The file that a library reference names: the first place that exists,
/// and none where none does.
pub open spec fn resolved(
    lib: Seq<char>,
    flags: Seq<Seq<char>>,
    root: Seq<Step>,
    host: Host,
) -> Option<Seq<char>> {
    match first_present(candidates(lib, flags, root), host, 0) {
        Some(place) => Some(located(place, root, separator_of(host.style))),
        None => None,
    }
}

/// The paths of a sequence that grew by one.
pub proof fn lemma_views_push(v: Seq<LogicalPath>, p: LogicalPath)
    ensures
        views_of(v.push(p)) == views_of(v).push(p@),
{
}

/// Whether the reference names a file by its path.
pub fn names_a_path(lib: &str) -> (r: bool)
    ensures
        r == is_path_reference(lib@),
{
    !starts_with(lib, "-l") && (ends_with(lib, ".a") || ends_with(lib, ".o"))
}

/// The file name under which a library is looked for in a directory.
pub fn decorate(lib: &str) -> (r: String)
    ensures
        r@ == decorated_name(lib@),
{
    let mut name = if starts_with(lib, "-l") {
        proof {
            reveal_strlit("-l");
        }
        let n = chars_of(lib).len();
        glue("lib", slice(lib, 2, n).as_str())
    } else {
        glue("lib", lib)
    };
    name.append(".a");
    name
}

/// The directory that a search flag names.
pub fn dir_of(flag: &str) -> (r: String)
    ensures
        r@ == search_dir(flag@),
{
    if starts_with(flag, "-L") {
        proof {
            reveal_strlit("-L");
        }
        let n = chars_of(flag).len();
        slice(flag, 2, n)
    } else {
        flag.to_string()
    }
}

/// The places where a library may lie, in the order in which they are
/// tried.
pub fn library_candidates(
    lib: &str,
    lib_dirs: &Vec<String>,
    root_dir: &LogicalPath,
) -> (r: Vec<LogicalPath>)
    ensures
        views_of(r@) == candidates(lib@, texts(lib_dirs@), root_dir@),
{
    let mut out: Vec<LogicalPath> = Vec::new();
    if names_a_path(lib) {
        let place = root_dir.join(&LogicalPath::parse(lib));
        proof {
            lemma_views_push(out@, place);
        }
        out.push(place);
        assert(views_of(out@) =~= seq![joined_paths(root_dir@, parsed(lib@))]);
        return out;
    }
    let name = LogicalPath::parse(decorate(lib).as_str());
    let mut i: usize = 0;
    while i < lib_dirs.len()
        invariant
            i <= lib_dirs.len(),
            name@ == parsed(decorated_name(lib@)),
            views_of(out@) == in_dirs(
                root_dir@,
                texts(lib_dirs@),
                decorated_name(lib@),
                i as int,
            ),
        decreases lib_dirs.len() - i,
    {
        let dir = root_dir.join(&LogicalPath::parse(dir_of(lib_dirs[i].as_str()).as_str()));
        let place = dir.join(&name);
        proof {
            lemma_views_push(out@, place);
        }
        out.push(place);
        i += 1;
    }
    out
}

/// The file that a library reference names, by what the machine reported
/// of the places where it may lie.
pub fn resolve_library_path(
    lib: &str,
    lib_dirs: &Vec<String>,
    root_dir: &LogicalPath,
    host: &Host,
) -> (r: Option<String>)
    ensures
        match r {
            Some(path) => resolved(lib@, texts(lib_dirs@), root_dir@, *host) == Some(path@),
            None => resolved(lib@, texts(lib_dirs@), root_dir@, *host) is None,
        },
{
    let places = library_candidates(lib, lib_dirs, root_dir);
    let ghost all = views_of(places@);
    let mut i: usize = 0;
    while i < places.len()
        invariant
            i <= places.len(),
            all == views_of(places@),
            all == candidates(lib@, texts(lib_dirs@), root_dir@),
            first_present(all, *host, 0) == first_present(all, *host, i as int),
        decreases places.len() - i,
    {
        let place = &places[i];
        if host.is_present(place.render(host.style).as_str()) {
            let path = match compute_relative_path(place, root_dir) {
                Some(rel) => rel.render(host.style),
                None => place.render(host.style),
            };
            return Some(path);
        }
        i += 1;
    }
    None
}

} // verus!
