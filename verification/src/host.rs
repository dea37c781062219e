//! What the machine told the caller: which files exist and which short
//! names they have. The generators decide on these answers and never ask
//! the machine themselves.

use crate::paths::PathStyle;
use crate::text::{same, texts};
use vstd::prelude::*;

verus! {

/// The short name that the machine gave for a path.
#[derive(Debug)]
pub struct ShortName {
    pub path: String,
    pub short: String,
}

/// The answers of the machine that a generator may need.
#[derive(Debug)]
pub struct Host {
    /// How paths are written in what is generated.
    pub style: PathStyle,
    /// The paths that were found to exist.
    pub files: Vec<String>,
    /// The short names that were found.
    pub short_names: Vec<ShortName>,
}

/// The short name recorded for `path` at or after index `i`, the first
/// record winning; `path` itself where there is none.
pub open spec fn short_from(names: Seq<ShortName>, path: Seq<char>, i: int) -> Seq<char>
    decreases names.len() - i,
{
    if i < 0 || i >= names.len() {
        path
    } else if names[i].path@ == path {
        names[i].short@
    } else {
        short_from(names, path, i + 1)
    }
}

impl Host {
    /// `path` is among the files that exist.
    pub open spec fn has(&self, path: Seq<char>) -> bool {
        texts(self.files@).contains(path)
    }

    /// The name under which `path` is written: its short name where one
    /// was found, else `path`.
    pub open spec fn short(&self, path: Seq<char>) -> Seq<char> {
        short_from(self.short_names@, path, 0)
    }

    /// A machine on which no file was found.
    pub fn new(style: PathStyle) -> (h: Host)
        ensures
            h.style == style,
            h.files@.len() == 0,
            h.short_names@.len() == 0,
    {
        Host { style, files: Vec::new(), short_names: Vec::new() }
    }

    /// Whether `path` was found to exist.
    pub fn is_present(&self, path: &str) -> (r: bool)
        ensures
            r == self.has(path@),
    {
        let mut i: usize = 0;
        while i < self.files.len()
            invariant
                i <= self.files.len(),
                forall|j: int| 0 <= j < i ==> texts(self.files@)[j] != path@,
            decreases self.files.len() - i,
        {
            assert(texts(self.files@)[i as int] == self.files@[i as int]@);
            if same(self.files[i].as_str(), path) {
                return true;
            }
            i += 1;
        }
        false
    }

    /// The name under which `path` is written.
    pub fn shorten(&self, path: &str) -> (r: String)
        ensures
            r@ == self.short(path@),
    {
        let mut i: usize = 0;
        while i < self.short_names.len()
            invariant
                i <= self.short_names.len(),
                self.short(path@) == short_from(self.short_names@, path@, i as int),
            decreases self.short_names.len() - i,
        {
            if same(self.short_names[i].path.as_str(), path) {
                return self.short_names[i].short.clone();
            }
            i += 1;
        }
        path.to_string()
    }
}

} // verus!
