//! Path algebra: paths as sequences of steps, computed on by their text
//! alone. Nothing here asks the file system whether a path exists, and
//! nothing follows links or mapped drives.

use crate::text::{
    chars_of, replace_char, same, split, split_on, string_of_range, texts, with_char,
};
use vstd::prelude::*;

verus! {

/// One step of a path, as a mathematical value.
pub enum Step {
    /// A drive, such as `C:`.
    Prefix(Seq<char>),
    /// The root directory.
    Root,
    /// A directory or file name; `.` and `..` are names too.
    Name(Seq<char>),
}

/// One step of a path.
#[derive(Debug)]
pub enum Component {
    /// A drive, such as `C:`.
    Prefix(String),
    /// The root directory.
    Root,
    /// A directory or file name; `.` and `..` are names too.
    Name(String),
}

impl View for Component {
    type V = Step;

    open spec fn view(&self) -> Step {
        match self {
            Component::Prefix(d) => Step::Prefix(d@),
            Component::Root => Step::Root,
            Component::Name(n) => Step::Name(n@),
        }
    }
}

/// Which separator is written between the steps of a path.
#[derive(Clone, Copy, Debug, PartialEq, Eq, Structural)]
pub enum PathStyle {
    /// Backslashes.
    Windows,
    /// Forward slashes.
    Posix,
}

/// A path as the sequence of its steps.
#[derive(Debug)]
pub struct LogicalPath {
    pub components: Vec<Component>,
}

/// The steps held by a sequence of components.
pub open spec fn steps(v: Seq<Component>) -> Seq<Step> {
    Seq::new(v.len(), |i: int| v[i]@)
}

impl View for LogicalPath {
    type V = Seq<Step>;

    open spec fn view(&self) -> Seq<Step> {
        steps(self.components@)
    }
}

/// The separator that a style writes.
pub open spec fn separator_of(style: PathStyle) -> char {
    match style {
        PathStyle::Windows => '\\',
        PathStyle::Posix => '/',
    }
}

/// Both slashes separate the steps of a path that is read.
pub open spec fn is_separator(c: char) -> bool {
    c == '/' || c == '\\'
}

/// `s` begins with a drive letter and a colon.
pub open spec fn has_drive(s: Seq<char>) -> bool {
    s.len() >= 2 && s[1] == ':' && (('a' <= s[0] && s[0] <= 'z') || ('A' <= s[0] && s[0]
        <= 'Z'))
}

/// What stands between the separators of `s`.
pub open spec fn segments(s: Seq<char>) -> Seq<Seq<char>> {
    split_on(with_char(s, '\\', '/'), "/"@)
}

/// The names among the first `n` segments: the empty segment and `.` are
/// no names.
pub open spec fn names_among(segs: Seq<Seq<char>>, n: int) -> Seq<Step>
    decreases n,
{
    if n <= 0 {
        Seq::empty()
    } else if segs[n - 1].len() == 0 || segs[n - 1] == "."@ {
        names_among(segs, n - 1)
    } else {
        names_among(segs, n - 1).push(Step::Name(segs[n - 1]))
    }
}

/// The steps that the text `s` denotes: a drive if it begins with one, the
/// root if a separator follows, then the names. A `.` is kept only where it
/// is the first thing in a path without drive and root.
pub open spec fn parsed(s: Seq<char>) -> Seq<Step> {
    let body = if has_drive(s) {
        s.skip(2)
    } else {
        s
    };
    let head = if has_drive(s) {
        seq![Step::Prefix(s.take(2))]
    } else {
        Seq::empty()
    };
    let rooted = body.len() > 0 && is_separator(body[0]);
    let front = if rooted {
        head.push(Step::Root)
    } else {
        head
    };
    let segs = segments(body);
    let led = if front.len() == 0 && segs[0] == "."@ {
        front.push(Step::Name("."@))
    } else {
        front
    };
    led + names_among(segs, segs.len() as int)
}

/// The text of one step.
pub open spec fn step_text(c: Step, sep: char) -> Seq<char> {
    match c {
        Step::Prefix(d) => d,
        Step::Root => seq![sep],
        Step::Name(n) => n,
    }
}

/// The text of a path: its steps in order, with the separator after each
/// name that another step follows.
pub open spec fn rendered(p: Seq<Step>, sep: char) -> Seq<char>
    decreases p.len(),
{
    if p.len() == 0 {
        Seq::empty()
    } else if p.len() >= 2 && p[p.len() - 2] is Name {
        rendered(p.drop_last(), sep).push(sep) + step_text(p.last(), sep)
    } else {
        rendered(p.drop_last(), sep) + step_text(p.last(), sep)
    }
}

/// The steps of a sequence that grew by one component.
pub proof fn lemma_steps_push(v: Seq<Component>, c: Component)
    ensures
        steps(v.push(c)) == steps(v).push(c@),
{
}

/// A drive stands only first, and the root only first or right after a
/// drive.
pub open spec fn well_formed(p: Seq<Step>) -> bool {
    forall|i: int|
        0 <= i < p.len() ==> match #[trigger] p[i] {
            Step::Prefix(_) => i == 0,
            Step::Root => i == 0 || (i == 1 && p[0] is Prefix),
            Step::Name(_) => true,
        }
}

/// Every step is a name.
pub open spec fn all_names(p: Seq<Step>) -> bool {
    forall|i: int| 0 <= i < p.len() ==> #[trigger] p[i] is Name
}

/// The paths held by a sequence of logical paths.
pub open spec fn views_of(v: Seq<LogicalPath>) -> Seq<Seq<Step>> {
    Seq::new(v.len(), |i: int| v[i]@)
}

/// The path `.`.
pub open spec fn dot() -> Seq<Step> {
    seq![Step::Name("."@)]
}

/// `p` without its last step, if that is a name; else `p`.
pub open spec fn popped(p: Seq<Step>) -> Seq<Step> {
    if p.len() > 0 && p.last() is Name {
        p.drop_last()
    } else {
        p
    }
}

/// The path reached from `acc` by one step `c`: `..` leaves the last name,
/// if there is one; `.` stays; a name enters; a drive starts anew; the root
/// starts anew, keeping only a bare drive that it follows.
pub open spec fn advanced(acc: Seq<Step>, c: Step) -> Seq<Step> {
    match c {
        Step::Prefix(_) => seq![c],
        Step::Root => if acc.len() == 1 && acc[0] is Prefix {
            acc.push(c)
        } else {
            seq![c]
        },
        Step::Name(n) => if n == ".."@ {
            popped(acc)
        } else if n == "."@ {
            acc
        } else {
            acc.push(c)
        },
    }
}

/// The path reached from `base` by the first `n` steps of `rel`.
pub open spec fn walked(base: Seq<Step>, rel: Seq<Step>, n: int) -> Seq<Step>
    decreases n,
{
    if n <= 0 {
        base
    } else {
        advanced(walked(base, rel, n - 1), rel[n - 1])
    }
}

/// The path that `rel` denotes when read from `base`.
pub open spec fn absolute(base: Seq<Step>, rel: Seq<Step>) -> Seq<Step> {
    walked(base, rel, rel.len() as int)
}

/// The directory that holds `p`: `p` without its last name, and the empty
/// path where `p` ends in no name.
pub open spec fn parent_of(p: Seq<Step>) -> Seq<Step> {
    if p.len() > 0 && p.last() is Name {
        p.drop_last()
    } else {
        Seq::empty()
    }
}

/// The longest beginning of `anc` that `p` begins with, reached by leaving
/// names only; none where a drive or the root would have to be left.
pub open spec fn narrowed(anc: Seq<Step>, p: Seq<Step>) -> Option<Seq<Step>>
    decreases anc.len(),
{
    if anc.is_prefix_of(p) {
        Some(anc)
    } else if anc.len() > 0 && anc.last() is Name {
        narrowed(anc.drop_last(), p)
    } else {
        None
    }
}

/// The common ancestor of the first `n` paths, for `n` of at least one: the
/// parent of the first path, narrowed by each of the others in turn.
pub open spec fn ancestor_within(paths: Seq<Seq<Step>>, n: int) -> Option<Seq<Step>>
    decreases n,
{
    if n <= 1 {
        Some(parent_of(paths[0]))
    } else {
        match ancestor_within(paths, n - 1) {
            None => None,
            Some(a) => narrowed(a, paths[n - 1]),
        }
    }
}

/// The deepest directory that every path lies in; `.` for no paths and
/// for paths that share no drive or root.
pub open spec fn common_ancestor(paths: Seq<Seq<Step>>) -> Seq<Step> {
    if paths.len() == 0 {
        dot()
    } else {
        match ancestor_within(paths, paths.len() as int) {
            Some(a) => a,
            None => dot(),
        }
    }
}

/// The number of leading steps that `a` and `b` share.
pub open spec fn shared_len(a: Seq<Step>, b: Seq<Step>) -> int
    decreases a.len(),
{
    if a.len() == 0 || b.len() == 0 || a[0] != b[0] {
        0
    } else {
        1 + shared_len(a.skip(1), b.skip(1))
    }
}

/// The drive and root that `p` begins with.
pub open spec fn root_part(p: Seq<Step>) -> Seq<Step> {
    if p.len() > 0 && !(p[0] is Name) {
        if p.len() > 1 && !(p[1] is Name) {
            p.take(2)
        } else {
            p.take(1)
        }
    } else {
        Seq::empty()
    }
}

/// `n` times `..`.
pub open spec fn ups(n: int) -> Seq<Step> {
    Seq::new(n as nat, |i: int| Step::Name(".."@))
}

/// The way from `base` to `target`: one `..` for each step of `base` that
/// the two do not share, then the steps of `target` that they do not share.
/// There is none where the two begin with different drives or roots.
pub open spec fn relative(target: Seq<Step>, base: Seq<Step>) -> Option<Seq<Step>> {
    if root_part(target) != root_part(base) {
        None
    } else {
        let k = shared_len(target, base);
        Some(ups(base.len() - k) + target.skip(k))
    }
}

/// `b` read from `a`: `b` itself where it begins with a drive or the root.
pub open spec fn joined_paths(a: Seq<Step>, b: Seq<Step>) -> Seq<Step> {
    if b.len() > 0 && !(b[0] is Name) {
        b
    } else {
        a + b
    }
}

/// The index of the last `c` in `n`, or -1.
pub open spec fn last_index_of(n: Seq<char>, c: char) -> int
    decreases n.len(),
{
    if n.len() == 0 {
        -1
    } else if n.last() == c {
        n.len() - 1
    } else {
        last_index_of(n.drop_last(), c)
    }
}

/// The file name `n` with its extension replaced by `ext`. The extension is
/// what follows the last dot, unless that dot is the first character.
pub open spec fn renamed(n: Seq<char>, ext: Seq<char>) -> Seq<char> {
    let d = last_index_of(n, '.');
    let stem = if d > 0 {
        n.take(d)
    } else {
        n
    };
    stem + "."@ + ext
}

/// The last step of `p` is the name of a file.
pub open spec fn has_file_name(p: Seq<Step>) -> bool {
    p.len() > 0 && p.last() is Name && p.last()->Name_0 != ".."@
}

/// `p` with the extension of its file name replaced; `p` itself where it
/// ends in no file name.
pub open spec fn with_extension(p: Seq<Step>, ext: Seq<char>) -> Seq<Step> {
    if has_file_name(p) {
        p.drop_last().push(Step::Name(renamed(p.last()->Name_0, ext)))
    } else {
        p
    }
}

/// The extension of the file name that `p` ends in.
pub open spec fn extension_of(p: Seq<Step>) -> Option<Seq<char>> {
    if has_file_name(p) {
        let n = p.last()->Name_0;
        let d = last_index_of(n, '.');
        if d > 0 {
            Some(n.skip(d + 1))
        } else {
            None
        }
    } else {
        None
    }
}

/// `s` with each separator written as `sep`.
pub open spec fn with_separator(s: Seq<char>, sep: char) -> Seq<char> {
    Seq::new(s.len(), |i: int| if is_separator(s[i]) { sep } else { s[i] })
}

impl PathStyle {
    /// The separator that this style writes.
    pub fn separator(&self) -> (c: char)
        ensures
            c == separator_of(*self),
    {
        match self {
            PathStyle::Windows => '\\',
            PathStyle::Posix => '/',
        }
    }
}

impl Component {
    /// A component that denotes the same step.
    pub fn duplicate(&self) -> (c: Component)
        ensures
            c@ == self@,
    {
        match self {
            Component::Prefix(d) => Component::Prefix(d.clone()),
            Component::Root => Component::Root,
            Component::Name(n) => Component::Name(n.clone()),
        }
    }

    /// Whether two components denote the same step.
    pub fn matches(&self, other: &Component) -> (r: bool)
        ensures
            r == (self@ == other@),
    {
        match (self, other) {
            (Component::Prefix(a), Component::Prefix(b)) => same(a.as_str(), b.as_str()),
            (Component::Root, Component::Root) => true,
            (Component::Name(a), Component::Name(b)) => same(a.as_str(), b.as_str()),
            _ => false,
        }
    }

    /// Whether this is a name.
    pub fn is_name(&self) -> (r: bool)
        ensures
            r == (self@ is Name),
    {
        match self {
            Component::Name(_) => true,
            _ => false,
        }
    }
}

impl LogicalPath {
    /// The path without steps.
    pub fn empty() -> (p: LogicalPath)
        ensures
            p@ == Seq::<Step>::empty(),
    {
        LogicalPath { components: Vec::new() }
    }

    /// The path `.`.
    pub fn current_dir() -> (p: LogicalPath)
        ensures
            p@ == dot(),
    {
        let mut out: Vec<Component> = Vec::new();
        out.push(Component::Name(".".to_string()));
        LogicalPath { components: out }
    }

    /// The path that the text `s` denotes.
    pub fn parse(s: &str) -> (p: LogicalPath)
        ensures
            p@ == parsed(s@),
            well_formed(p@),
    {
        proof {
            crate::path_facts::lemma_parsed_well_formed(s@);
        }
        let x = chars_of(s);
        let drive = x.len() >= 2 && x[1] == ':' && (('a' <= x[0] && x[0] <= 'z') || ('A' <= x[0]
            && x[0] <= 'Z'));
        let start: usize = if drive {
            2
        } else {
            0
        };
        let mut out: Vec<Component> = Vec::new();
        assert(steps(out@) =~= Seq::<Step>::empty());
        if drive {
            let ghost before = out@;
            out.push(Component::Prefix(string_of_range(&x, 0, 2)));
            proof {
                lemma_steps_push(before, out@.last());
            }
        }
        let body = string_of_range(&x, start, x.len());
        assert(body@ == if has_drive(s@) {
            s@.skip(2)
        } else {
            s@
        });
        if x.len() > start && (x[start] == '/' || x[start] == '\\') {
            let ghost before = out@;
            out.push(Component::Root);
            proof {
                lemma_steps_push(before, out@.last());
            }
        }
        let flat = replace_char(body.as_str(), '\\', '/');
        let segs = split(flat.as_str(), "/");
        proof {
            crate::text::lemma_split_nonempty(flat@, "/"@);
        }
        if out.len() == 0 && same(segs[0].as_str(), ".") {
            let ghost before = out@;
            out.push(Component::Name(segs[0].clone()));
            proof {
                lemma_steps_push(before, out@.last());
            }
        }
        let ghost led = steps(out@);
        let mut i: usize = 0;
        while i < segs.len()
            invariant
                i <= segs.len(),
                steps(out@) == led + names_among(texts(segs@), i as int),
            decreases segs.len() - i,
        {
            let seg = &segs[i];
            if seg.as_str().unicode_len() > 0 && !same(seg.as_str(), ".") {
                let ghost before = out@;
                out.push(Component::Name(seg.clone()));
                proof {
                    lemma_steps_push(before, out@.last());
                }
            }
            i += 1;
        }
        LogicalPath { components: out }
    }

    /// The text of the path in the given style.
    pub fn render(&self, style: PathStyle) -> (s: String)
        ensures
            s@ == rendered(self@, separator_of(style)),
    {
        let sep = style.separator();
        let mut out = String::new();
        let mut i: usize = 0;
        while i < self.components.len()
            invariant
                i <= self.components.len(),
                sep == separator_of(style),
                out@ == rendered(self@.take(i as int), sep),
            decreases self.components.len() - i,
        {
            let ghost done = self@.take(i as int);
            let ghost next = self@.take(i + 1);
            assert(next.drop_last() == done);
            if i > 0 {
                if self.components[i - 1].is_name() {
                    out.push(sep);
                }
            }
            match &self.components[i] {
                Component::Prefix(d) => {
                    out.append(d.as_str());
                },
                Component::Root => {
                    out.push(sep);
                },
                Component::Name(n) => {
                    out.append(n.as_str());
                },
            }
            i += 1;
        }
        assert(self@.take(self.components.len() as int) == self@);
        out
    }

    /// A path with the same steps.
    pub fn duplicate(&self) -> (p: LogicalPath)
        ensures
            p@ == self@,
    {
        let mut out: Vec<Component> = Vec::new();
        let mut i: usize = 0;
        while i < self.components.len()
            invariant
                i <= self.components.len(),
                steps(out@) == self@.take(i as int),
            decreases self.components.len() - i,
        {
            let ghost before = out@;
            out.push(self.components[i].duplicate());
            proof {
                lemma_steps_push(before, out@.last());
            }
            i += 1;
        }
        LogicalPath { components: out }
    }
}

/// The components of `v` from `from` up to `to`.
pub(crate) fn copy_range(v: &Vec<Component>, from: usize, to: usize) -> (r: Vec<Component>)
    requires
        from <= to <= v.len(),
    ensures
        steps(r@) == steps(v@).subrange(from as int, to as int),
{
    let mut out: Vec<Component> = Vec::new();
    let mut i: usize = from;
    while i < to
        invariant
            from <= i <= to <= v.len(),
            steps(out@) == steps(v@).subrange(from as int, i as int),
        decreases to - i,
    {
        let ghost before = out@;
        out.push(v[i].duplicate());
        proof {
            lemma_steps_push(before, out@.last());
        }
        i += 1;
    }
    out
}

/// Appends the components of `more` to `out`.
pub fn append_components(out: &mut Vec<Component>, more: &Vec<Component>)
    ensures
        steps(final(out)@) == steps(old(out)@) + steps(more@),
{
    let mut i: usize = 0;
    while i < more.len()
        invariant
            i <= more.len(),
            steps(out@) == steps(old(out)@) + steps(more@).take(i as int),
        decreases more.len() - i,
    {
        let ghost before = out@;
        out.push(more[i].duplicate());
        proof {
            lemma_steps_push(before, out@.last());
        }
        i += 1;
    }
}

/// Whether the steps of `p` begin with the steps of `base`.
pub fn begins_with(p: &Vec<Component>, base: &Vec<Component>) -> (r: bool)
    ensures
        r == steps(base@).is_prefix_of(steps(p@)),
{
    if base.len() > p.len() {
        return false;
    }
    let mut i: usize = 0;
    while i < base.len()
        invariant
            i <= base.len() <= p.len(),
            forall|j: int| 0 <= j < i ==> steps(base@)[j] == steps(p@)[j],
        decreases base.len() - i,
    {
        if !base[i].matches(&p[i]) {
            assert(steps(p@).subrange(0, base.len() as int)[i as int] == steps(p@)[i as int]);
            return false;
        }
        i += 1;
    }
    true
}

/// The path that `rel` denotes when read from `base`, by the text of the
/// two alone.
pub fn get_clean_absolute_path(base: &LogicalPath, rel: &LogicalPath) -> (r: LogicalPath)
    ensures
        r@ == absolute(base@, rel@),
        well_formed(base@) ==> well_formed(r@),
{
    proof {
        if well_formed(base@) {
            crate::path_facts::lemma_absolute_well_formed(base@, rel@, rel@.len() as int);
        }
    }
    let mut out: Vec<Component> = base.duplicate().components;
    let mut i: usize = 0;
    while i < rel.components.len()
        invariant
            i <= rel.components.len(),
            steps(out@) == walked(base@, rel@, i as int),
        decreases rel.components.len() - i,
    {
        let ghost before = out@;
        match &rel.components[i] {
            Component::Prefix(d) => {
                out = Vec::new();
                out.push(Component::Prefix(d.clone()));
            },
            Component::Root => {
                if out.len() == 1 && !out[0].is_name() && !matches!(out[0], Component::Root) {
                    out.push(Component::Root);
                    proof {
                        lemma_steps_push(before, out@.last());
                    }
                } else {
                    out = Vec::new();
                    out.push(Component::Root);
                }
            },
            Component::Name(n) => {
                if same(n.as_str(), "..") {
                    if out.len() > 0 && out[out.len() - 1].is_name() {
                        out.pop();
                    }
                } else if !same(n.as_str(), ".") {
                    out.push(Component::Name(n.clone()));
                    proof {
                        lemma_steps_push(before, out@.last());
                    }
                }
            },
        }
        i += 1;
    }
    LogicalPath { components: out }
}

/// The deepest directory that every one of `paths` lies in.
pub fn find_common_ancestor(paths: &Vec<LogicalPath>) -> (r: LogicalPath)
    ensures
        r@ == common_ancestor(views_of(paths@)),
        (paths@.len() > 0 ==> well_formed(paths@[0]@)) ==> well_formed(r@),
{
    proof {
        if paths@.len() > 0 ==> well_formed(paths@[0]@) {
            crate::path_facts::lemma_common_ancestor_well_formed(views_of(paths@));
        }
    }
    if paths.len() == 0 {
        return LogicalPath::current_dir();
    }
    let ghost all = views_of(paths@);
    let mut anc: Vec<Component> = paths[0].parent().components;
    let mut i: usize = 1;
    while i < paths.len()
        invariant
            1 <= i <= paths.len(),
            all == views_of(paths@),
            ancestor_within(all, i as int) == Some(steps(anc@)),
        decreases paths.len() - i,
    {
        let ghost start = steps(anc@);
        let path = &paths[i];
        while !begins_with(&path.components, &anc)
            invariant
                1 <= i < paths.len(),
                all == views_of(paths@),
                all[i as int] == path@,
                ancestor_within(all, i as int) == Some(start),
                narrowed(start, path@) == narrowed(steps(anc@), path@),
            decreases anc.len(),
        {
            if anc.len() > 0 && anc[anc.len() - 1].is_name() {
                let ghost before = anc@;
                anc.pop();
                assert(steps(anc@) =~= steps(before).drop_last());
            } else {
                proof {
                    lemma_ancestor_lost(all, i + 1, paths.len() as int);
                }
                return LogicalPath::current_dir();
            }
        }
        i += 1;
    }
    LogicalPath { components: anc }
}

/// Once the first `n` paths share no ancestor, no more of them do.
pub proof fn lemma_ancestor_lost(paths: Seq<Seq<Step>>, n: int, m: int)
    requires
        1 <= n <= m,
        ancestor_within(paths, n) is None,
    ensures
        ancestor_within(paths, m) is None,
    decreases m - n,
{
    if n < m {
        lemma_ancestor_lost(paths, n, m - 1);
    }
}

/// The way from `base` to `target`, by the text of the two alone.
pub fn compute_relative_path(
    target: &LogicalPath,
    base: &LogicalPath,
) -> (r: Option<LogicalPath>)
    ensures
        match r {
            Some(p) => relative(target@, base@) == Some(p@) && (well_formed(target@)
                ==> all_names(p@)),
            None => relative(target@, base@) is None,
        },
{
    proof {
        if well_formed(target@) {
            crate::path_facts::lemma_relative_names(target@, base@);
        }
    }
    let t = &target.components;
    let b = &base.components;
    let tr = root_len(t);
    let br = root_len(b);
    if tr != br {
        return None;
    }
    let mut j: usize = 0;
    while j < tr
        invariant
            j <= tr,
            tr == br,
            tr <= t.len(),
            br <= b.len(),
            t == &target.components,
            b == &base.components,
            tr == root_part(target@).len(),
            br == root_part(base@).len(),
            forall|k: int| 0 <= k < j ==> target@[k] == base@[k],
        decreases tr - j,
    {
        if !t[j].matches(&b[j]) {
            assert(root_part(target@)[j as int] == target@[j as int]);
            return None;
        }
        j += 1;
    }
    assert(root_part(target@) =~= root_part(base@));
    let k = shared_count(t, b);
    let mut out: Vec<Component> = Vec::new();
    let mut u: usize = k;
    while u < b.len()
        invariant
            k <= u <= b.len(),
            steps(out@) == ups(u - k),
        decreases b.len() - u,
    {
        let ghost before = out@;
        out.push(Component::Name("..".to_string()));
        proof {
            lemma_steps_push(before, out@.last());
        }
        u += 1;
    }
    let rest = copy_range(t, k, t.len());
    append_components(&mut out, &rest);
    Some(LogicalPath { components: out })
}

/// How many leading steps `t` and `b` share.
pub fn shared_count(t: &Vec<Component>, b: &Vec<Component>) -> (k: usize)
    ensures
        k == shared_len(steps(t@), steps(b@)),
        k <= t.len(),
        k <= b.len(),
{
    let ghost x = steps(t@);
    let ghost y = steps(b@);
    let mut k: usize = 0;
    assert(x.skip(0) == x && y.skip(0) == y);
    while k < t.len() && k < b.len()
        invariant
            k <= t.len(),
            k <= b.len(),
            x == steps(t@),
            y == steps(b@),
            shared_len(x, y) == k + shared_len(x.skip(k as int), y.skip(k as int)),
        decreases t.len() - k,
    {
        if !t[k].matches(&b[k]) {
            return k;
        }
        assert(x.skip(k as int).skip(1) == x.skip(k + 1));
        assert(y.skip(k as int).skip(1) == y.skip(k + 1));
        k += 1;
    }
    k
}

/// How many steps of `p` form its drive and root.
pub fn root_len(p: &Vec<Component>) -> (n: usize)
    ensures
        n == root_part(steps(p@)).len(),
        n <= p.len(),
{
    if p.len() > 0 && !p[0].is_name() {
        if p.len() > 1 && !p[1].is_name() {
            2
        } else {
            1
        }
    } else {
        0
    }
}

/// `s` with each separator written in the given style.
pub fn normalize_str(s: &str, style: PathStyle) -> (r: String)
    ensures
        r@ == with_separator(s@, separator_of(style)),
{
    let sep = style.separator();
    let x = chars_of(s);
    let mut out = String::new();
    let mut i: usize = 0;
    while i < x.len()
        invariant
            i <= x.len(),
            x@ == s@,
            out@ == with_separator(x@.take(i as int), sep),
        decreases x.len() - i,
    {
        let c = if x[i] == '/' || x[i] == '\\' {
            sep
        } else {
            x[i]
        };
        out.push(c);
        i += 1;
    }
    out
}

/// A compiler or linker flag with the separators of any path in it
/// written in the given style.
pub fn sanitize_flag(flag: &str, style: PathStyle) -> (r: String)
    ensures
        r@ == with_separator(flag@, separator_of(style)),
{
    normalize_str(flag, style)
}

/// The text of `path` in the given style.
pub fn normalize_path(path: &LogicalPath, style: PathStyle) -> (r: String)
    ensures
        r@ == rendered(path@, separator_of(style)),
{
    path.render(style)
}

/// The index of the last `c` in `n`.
pub fn last_index(n: &Vec<char>, c: char) -> (r: Option<usize>)
    ensures
        match r {
            Some(i) => last_index_of(n@, c) == i && i < n.len(),
            None => last_index_of(n@, c) == -1,
        },
{
    let mut i: usize = n.len();
    assert(n@.take(i as int) == n@);
    while i > 0
        invariant
            i <= n.len(),
            last_index_of(n@, c) == last_index_of(n@.take(i as int), c),
        decreases i,
    {
        if n[i - 1] == c {
            return Some(i - 1);
        }
        assert(n@.take(i as int).drop_last() == n@.take(i - 1));
        i -= 1;
    }
    None
}

impl LogicalPath {
    /// Whether this path begins with the steps of `base`.
    pub fn starts_with(&self, base: &LogicalPath) -> (r: bool)
        ensures
            r == base@.is_prefix_of(self@),
    {
        begins_with(&self.components, &base.components)
    }

    /// The directory that holds this path.
    pub fn parent(&self) -> (r: LogicalPath)
        ensures
            r@ == parent_of(self@),
            well_formed(self@) ==> well_formed(r@),
    {
        proof {
            if well_formed(self@) {
                crate::path_facts::lemma_parts_well_formed(self@, self@, Seq::empty());
            }
        }
        let n = self.components.len();
        if n > 0 && self.components[n - 1].is_name() {
            let out = copy_range(&self.components, 0, n - 1);
            LogicalPath { components: out }
        } else {
            LogicalPath::empty()
        }
    }

    /// Whether this path begins with a drive or the root.
    pub fn is_absolute(&self) -> (r: bool)
        ensures
            r == (self@.len() > 0 && !(self@[0] is Name)),
    {
        self.components.len() > 0 && !self.components[0].is_name()
    }

    /// `other` read from this path.
    pub fn join(&self, other: &LogicalPath) -> (r: LogicalPath)
        ensures
            r@ == joined_paths(self@, other@),
            well_formed(self@) && well_formed(other@) ==> well_formed(r@),
    {
        proof {
            if well_formed(self@) && well_formed(other@) {
                crate::path_facts::lemma_parts_well_formed(self@, other@, Seq::empty());
            }
        }
        if other.is_absolute() {
            other.duplicate()
        } else {
            let mut out = self.duplicate().components;
            append_components(&mut out, &other.components);
            LogicalPath { components: out }
        }
    }

    /// What is left of this path after the steps of `base`, where it begins
    /// with them.
    pub fn strip_prefix(&self, base: &LogicalPath) -> (r: Option<LogicalPath>)
        ensures
            match r {
                Some(p) => base@.is_prefix_of(self@) && p@ == self@.skip(base@.len() as int),
                None => !base@.is_prefix_of(self@),
            },
    {
        if self.starts_with(base) {
            let out = copy_range(&self.components, base.components.len(), self.components.len());
            Some(LogicalPath { components: out })
        } else {
            None
        }
    }

    /// The name of the file that this path ends in.
    pub fn file_name(&self) -> (r: Option<String>)
        ensures
            match r {
                Some(n) => has_file_name(self@) && n@ == self@.last()->Name_0,
                None => !has_file_name(self@),
            },
    {
        let n = self.components.len();
        if n == 0 {
            return None;
        }
        match &self.components[n - 1] {
            Component::Name(name) => {
                if same(name.as_str(), "..") {
                    None
                } else {
                    Some(name.clone())
                }
            },
            _ => None,
        }
    }

    /// This path with the extension of its file name replaced by `ext`.
    pub fn with_extension(&self, ext: &str) -> (r: LogicalPath)
        ensures
            r@ == with_extension(self@, ext@),
            well_formed(self@) ==> well_formed(r@),
    {
        proof {
            if well_formed(self@) {
                crate::path_facts::lemma_parts_well_formed(self@, self@, ext@);
            }
        }
        match self.file_name() {
            None => self.duplicate(),
            Some(name) => {
                let n = self.components.len();
                let x = chars_of(name.as_str());
                let stem = match last_index(&x, '.') {
                    Some(d) => if d > 0 {
                        string_of_range(&x, 0, d)
                    } else {
                        name
                    },
                    None => name,
                };
                let mut renamed = stem;
                renamed.append(".");
                renamed.append(ext);
                let mut out = copy_range(&self.components, 0, n - 1);
                let ghost before = out@;
                out.push(Component::Name(renamed));
                proof {
                    lemma_steps_push(before, out@.last());
                }
                LogicalPath { components: out }
            },
        }
    }

    /// The extension of the file name that this path ends in.
    pub fn extension(&self) -> (r: Option<String>)
        ensures
            match r {
                Some(e) => extension_of(self@) == Some(e@),
                None => extension_of(self@) is None,
            },
    {
        match self.file_name() {
            None => None,
            Some(name) => {
                let x = chars_of(name.as_str());
                match last_index(&x, '.') {
                    Some(d) => if d > 0 {
                        Some(string_of_range(&x, d + 1, x.len()))
                    } else {
                        None
                    },
                    None => None,
                }
            },
        }
    }
}

} // verus!
