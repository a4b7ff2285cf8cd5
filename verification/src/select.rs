//! Selecting files from a walk over directory trees.
//!
//! The walk itself is the caller's: it hands over each entry that it meets,
//! parents before children, and is told what to do with it. Which files are
//! selected is stated over the sequence of entries, without reference to
//! the order of the decisions.

use vstd::prelude::*;
use vstd::string::*;

verus! {

#[verifier::external_type_specification]
#[verifier::external_body]
pub struct ExGlobMatcher(glob::Pattern);

#[verifier::external_type_specification]
#[verifier::external_body]
pub struct ExGlobPatternError(glob::PatternError);

/// Whether `source` is a well-formed glob.
pub uninterp spec fn glob_valid(source: Seq<char>) -> bool;

/// Whether the glob `source` matches all of `name`, under the path
/// conventions of the platform that the library is built for.
pub uninterp spec fn glob_matches(source: Seq<char>, name: Seq<u8>) -> bool;

/// Why a glob was refused.
#[derive(Debug)]
pub struct InvalidGlob {
    pub message: String,
}

/// A compiled glob. `matcher` is always what was compiled from `source`:
/// the fields are private and only `compile_glob` builds the pair.
pub struct GlobPattern {
    source: String,
    matcher: glob::Pattern,
}

impl View for GlobPattern {
    type V = Seq<char>;

    closed spec fn view(&self) -> Seq<char> {
        self.source@
    }
}

/// `Pattern::new` on `source`.
#[verifier::external_body]
fn compile_glob(source: &str) -> (r: Result<GlobPattern, glob::PatternError>)
    ensures
        r is Ok == glob_valid(source@),
        r matches Ok(g) ==> g@ == source@,
{
    match glob::Pattern::new(source) {
        Ok(matcher) => Ok(GlobPattern { source: source.to_string(), matcher }),
        Err(e) => Err(e),
    }
}

/// The `Display` text of a `glob::PatternError`.
#[verifier::external_body]
fn glob_error_text(e: &glob::PatternError) -> String {
    e.to_string()
}

/// `Pattern::matches`: whether the glob matches all of `name`.
#[verifier::external_body]
fn glob_test(g: &GlobPattern, name: &str) -> (b: bool)
    ensures
        b == glob_matches(g@, name.spec_bytes()),
{
    g.matcher.matches(name)
}

impl GlobPattern {
    /// Compiles the glob `source`.
    pub fn new(source: &str) -> (r: Result<GlobPattern, InvalidGlob>)
        ensures
            r is Ok == glob_valid(source@),
            r matches Ok(g) ==> g@ == source@,
    {
        match compile_glob(source) {
            Ok(g) => Ok(g),
            Err(e) => Err(InvalidGlob { message: glob_error_text(&e) }),
        }
    }

    /// The glob as it was written.
    pub fn source(&self) -> (s: &str)
        ensures
            s@ == self@,
    {
        self.source.as_str()
    }
}

/// Which files a walk selects.
pub struct FileSelectionCriteria {
    /// Descend without limit; else only the root's direct children count.
    pub recursive: bool,
    /// Follow symbolic links. This is for the walk to observe.
    pub follow_symlinks: bool,
    /// Where not empty, a file's name has to match one of these.
    pub include_globs: Vec<GlobPattern>,
    /// A file whose name matches one of these is passed over.
    pub exclude_globs: Vec<GlobPattern>,
    /// A directory whose name matches one of these is not entered.
    pub exclude_dir_globs: Vec<GlobPattern>,
    /// Entries whose name begins with `.` count like the others.
    pub show_hidden: bool,
}

/// What an entry of a directory is.
#[derive(Clone, Copy, Debug, PartialEq, Eq, Structural)]
pub enum EntryKind {
    File,
    Directory,
    /// A symbolic link that is not followed, a device, a socket and the like.
    Other,
}

/// An entry that the walk met: how far below its root it lies (the root
/// itself at depth 0), its base name and what it is.
pub struct Entry<'a> {
    pub depth: usize,
    pub name: &'a str,
    pub kind: EntryKind,
}

/// An `Entry` as the contracts speak of it: its name as bytes.
pub struct EntrySpec {
    pub depth: int,
    pub name: Seq<u8>,
    pub kind: EntryKind,
}

impl<'a> View for Entry<'a> {
    type V = EntrySpec;

    open spec fn view(&self) -> EntrySpec {
        EntrySpec { depth: self.depth as int, name: self.name.spec_bytes(), kind: self.kind }
    }
}

/// What the walk is to do with an entry.
#[derive(Clone, Copy, Debug, PartialEq, Eq, Structural)]
pub enum Verdict {
    /// A selected file.
    Yield,
    /// A directory to descend into.
    Enter,
    /// A directory not to descend into.
    Prune,
    /// Nothing to do.
    Skip,
}

/// The byte `.`, with which the name of a hidden entry begins.
pub const DOT: u8 = 46;

/// A name that begins with `.`.
pub open spec fn is_hidden(name: Seq<u8>) -> bool {
    name.len() > 0 && name[0] == DOT
}

/// One of `globs` matches `name`.
pub open spec fn any_matches(globs: Seq<GlobPattern>, name: Seq<u8>) -> bool {
    exists|i: int| 0 <= i < globs.len() && glob_matches(#[trigger] globs[i]@, name)
}

/// A directory below the root that is not entered: the walk is not
/// recursive, or the directory is hidden, or an `exclude_dir` glob matches
/// its name.
pub open spec fn closed_dir(criteria: FileSelectionCriteria, entry: EntrySpec) -> bool {
    &&& entry.kind is Directory
    &&& entry.depth >= 1
    &&& (!criteria.recursive || (!criteria.show_hidden && is_hidden(entry.name)) || any_matches(
        criteria.exclude_dir_globs@,
        entry.name,
    ))
}

/// A regular file that passes the filters on files: within the depth of the
/// walk, not hidden if it lies below the root, matched by an `include` glob
/// if there are any, and matched by no `exclude` glob.
pub open spec fn admitted_file(criteria: FileSelectionCriteria, entry: EntrySpec) -> bool {
    &&& entry.kind is File
    &&& (criteria.recursive || entry.depth <= 1)
    &&& (entry.depth >= 1 ==> criteria.show_hidden || !is_hidden(entry.name))
    &&& (criteria.include_globs@.len() == 0 || any_matches(criteria.include_globs@, entry.name))
    &&& !any_matches(criteria.exclude_globs@, entry.name)
}

/// Entry `j` lies in the subtree of entry `i`: it comes later, and from `i`
/// to `j` no entry is as high as `i`.
pub open spec fn inside(entries: Seq<EntrySpec>, i: int, j: int) -> bool {
    &&& 0 <= i < j < entries.len()
    &&& forall|k: int| i < k <= j ==> (#[trigger] entries[k]).depth > entries[i].depth
}

/// Entry `j` lies in the subtree of a directory that is not entered.
pub open spec fn below_closed(
    criteria: FileSelectionCriteria,
    entries: Seq<EntrySpec>,
    j: int,
) -> bool {
    exists|i: int| #[trigger] inside(entries, i, j) && closed_dir(criteria, entries[i])
}

/// Entry `j` is selected: it is an admitted file and lies in no directory
/// that is not entered.
pub open spec fn selected(
    criteria: FileSelectionCriteria,
    entries: Seq<EntrySpec>,
    j: int,
) -> bool {
    &&& 0 <= j < entries.len()
    &&& admitted_file(criteria, entries[j])
    &&& !below_closed(criteria, entries, j)
}

/// What the walk is told about entry `j`.
pub open spec fn verdict_of(
    criteria: FileSelectionCriteria,
    entries: Seq<EntrySpec>,
    j: int,
) -> Verdict {
    if below_closed(criteria, entries, j) {
        Verdict::Skip
    } else {
        match entries[j].kind {
            EntryKind::Directory => if closed_dir(criteria, entries[j]) {
                Verdict::Prune
            } else {
                Verdict::Enter
            },
            EntryKind::File => if admitted_file(criteria, entries[j]) {
                Verdict::Yield
            } else {
                Verdict::Skip
            },
            EntryKind::Other => Verdict::Skip,
        }
    }
}

/// A file in a directory that an `exclude_dir` glob matches is not
/// selected, whatever the `include` globs say of it. The directory is any
/// below the root.
pub proof fn lemma_excluded_dir_prunes(
    criteria: FileSelectionCriteria,
    entries: Seq<EntrySpec>,
    dir: int,
    file: int,
)
    requires
        inside(entries, dir, file),
        entries[dir].kind is Directory,
        entries[dir].depth >= 1,
        any_matches(criteria.exclude_dir_globs@, entries[dir].name),
    ensures
        !selected(criteria, entries, file),
{
    assert(closed_dir(criteria, entries[dir]));
}

/// Without `show_hidden` no hidden entry below the root is selected, and
/// nothing in a hidden directory below the root is.
pub proof fn lemma_hidden_entries_pass(
    criteria: FileSelectionCriteria,
    entries: Seq<EntrySpec>,
    hidden: int,
    file: int,
)
    requires
        !criteria.show_hidden,
        0 <= hidden < entries.len(),
        entries[hidden].depth >= 1,
        is_hidden(entries[hidden].name),
        file == hidden || (entries[hidden].kind is Directory && inside(entries, hidden, file)),
    ensures
        !selected(criteria, entries, file),
{
    if file != hidden {
        assert(closed_dir(criteria, entries[hidden]));
    }
}

/// Whether one of `globs` matches `name`.
pub fn matches_any(globs: &Vec<GlobPattern>, name: &str) -> (b: bool)
    ensures
        b == any_matches(globs@, name.spec_bytes()),
{
    let mut i: usize = 0;
    while i < globs.len()
        invariant
            i <= globs@.len(),
            forall|k: int| 0 <= k < i ==> !glob_matches(#[trigger] globs@[k]@, name.spec_bytes()),
        decreases globs@.len() - i,
    {
        if glob_test(&globs[i], name) {
            return true;
        }
        i += 1;
    }
    false
}

/// Whether `name` begins with `.`.
pub fn name_is_hidden(name: &str) -> (b: bool)
    ensures
        b == is_hidden(name.spec_bytes()),
{
    let bytes = name.as_bytes();
    bytes.len() > 0 && bytes[0] == DOT
}

impl FileSelectionCriteria {
    /// The criteria with nothing set: the root's direct children, hidden
    /// entries passed over, no globs.
    pub fn new() -> (criteria: FileSelectionCriteria)
        ensures
            !criteria.recursive,
            !criteria.follow_symlinks,
            !criteria.show_hidden,
            criteria.include_globs@.len() == 0,
            criteria.exclude_globs@.len() == 0,
            criteria.exclude_dir_globs@.len() == 0,
    {
        FileSelectionCriteria {
            recursive: false,
            follow_symlinks: false,
            include_globs: Vec::new(),
            exclude_globs: Vec::new(),
            exclude_dir_globs: Vec::new(),
            show_hidden: false,
        }
    }

    /// How deep the walk has to go: one level, or without limit (`None`).
    pub fn max_depth(&self) -> (depth: Option<usize>)
        ensures
            depth == if self.recursive {
                None::<usize>
            } else {
                Some(1usize)
            },
    {
        if self.recursive {
            None
        } else {
            Some(1)
        }
    }

    /// Whether `entry` is a directory that the walk is not to enter.
    pub fn is_closed_dir(&self, entry: &Entry) -> (b: bool)
        ensures
            b == closed_dir(*self, entry@),
    {
        match entry.kind {
            EntryKind::Directory => entry.depth >= 1 && (!self.recursive || (!self.show_hidden
                && name_is_hidden(entry.name)) || matches_any(&self.exclude_dir_globs, entry.name)),
            _ => false,
        }
    }

    /// Whether `entry` is a file that passes the filters on files.
    pub fn admits_file(&self, entry: &Entry) -> (b: bool)
        ensures
            b == admitted_file(*self, entry@),
    {
        match entry.kind {
            EntryKind::File => (self.recursive || entry.depth <= 1) && (entry.depth == 0
                || self.show_hidden || !name_is_hidden(entry.name)) && (self.include_globs.len()
                == 0 || matches_any(&self.include_globs, entry.name)) && !matches_any(
                &self.exclude_globs,
                entry.name,
            ),
            _ => false,
        }
    }
}

/// Entry `k` ends the subtree of entry `i`.
pub open spec fn ends_subtree(entries: Seq<EntrySpec>, i: int, k: int) -> bool {
    i < k < entries.len() && entries[k].depth <= entries[i].depth
}

/// The decisions of one walk, entry by entry. It remembers the directory
/// that is being passed over, if there is one, and nothing else.
pub struct Selector<'a> {
    criteria: &'a FileSelectionCriteria,
    closed: Option<usize>,
    seen: Ghost<Seq<EntrySpec>>,
    witness: Ghost<int>,
}

impl<'a> Selector<'a> {
    /// The entries handed over so far.
    pub closed spec fn entries(&self) -> Seq<EntrySpec> {
        self.seen@
    }

    /// The criteria that the selector decides by.
    pub closed spec fn criteria(&self) -> FileSelectionCriteria {
        *self.criteria
    }

    /// Every directory before `upto` that is not entered has had its
    /// subtree ended, at `upto` at the latest.
    spec fn settled(&self, upto: int) -> bool {
        forall|i: int|
            0 <= i < upto && closed_dir(*self.criteria, #[trigger] self.seen@[i]) ==> exists|k: int|
                k <= upto && #[trigger] ends_subtree(self.seen@, i, k)
    }

    /// What the remembered depth stands for.
    pub closed spec fn wf(&self) -> bool {
        match self.closed {
            Some(depth) => {
                let w = self.witness@;
                &&& 0 <= w < self.seen@.len()
                &&& closed_dir(*self.criteria, self.seen@[w])
                &&& self.seen@[w].depth == depth
                &&& forall|k: int|
                    w < k < self.seen@.len() ==> (#[trigger] self.seen@[k]).depth > depth
                &&& self.settled(w)
            },
            None => self.settled(self.seen@.len() as int),
        }
    }

    /// A selector at the start of a walk.
    pub fn new(criteria: &'a FileSelectionCriteria) -> (s: Selector<'a>)
        ensures
            s.wf(),
            s.criteria() == *criteria,
            s.entries() == Seq::<EntrySpec>::empty(),
    {
        Selector { criteria, closed: None, seen: Ghost(Seq::empty()), witness: Ghost(0) }
    }

    /// Takes the next entry of the walk and says what to do with it.
    pub fn visit(&mut self, entry: &Entry) -> (verdict: Verdict)
        requires
            old(self).wf(),
        ensures
            final(self).wf(),
            final(self).criteria() == old(self).criteria(),
            final(self).entries() == old(self).entries().push(entry@),
            verdict == verdict_of(
                old(self).criteria(),
                final(self).entries(),
                old(self).entries().len() as int,
            ),
            verdict is Yield <==> selected(
                old(self).criteria(),
                final(self).entries(),
                old(self).entries().len() as int,
            ),
    {
        let ghost before = self.seen@;
        let ghost j = before.len() as int;
        let ghost after = before.push(entry@);
        let ghost c = *self.criteria;
        let passing = match self.closed {
            Some(depth) => entry.depth > depth,
            None => false,
        };
        if passing {
            proof {
                let w = self.witness@;
                assert(inside(after, w, j)) by {
                    assert forall|k: int| w < k <= j implies (#[trigger] after[k]).depth
                        > after[w].depth by {
                        if k < j {
                            assert(after[k] == before[k]);
                        }
                    }
                }
                assert(after[w] == before[w]);
                assert(below_closed(c, after, j));
                self.seen = Ghost(after);
                assert(self.settled(w)) by {
                    assert forall|i: int|
                        0 <= i < w && closed_dir(c, #[trigger] after[i]) implies exists|k: int|
                        k <= w && #[trigger] ends_subtree(after, i, k) by {
                        assert(after[i] == before[i]);
                        let k = choose|k: int| k <= w && #[trigger] ends_subtree(before, i, k);
                        assert(after[k] == before[k]);
                        assert(ends_subtree(after, i, k));
                    }
                }
                assert forall|k: int| w < k < after.len() implies (#[trigger] after[k]).depth
                    > after[w].depth by {
                    if k < j {
                        assert(after[k] == before[k]);
                    }
                }
            }
            return Verdict::Skip;
        }
        proof {
            // Every directory not entered has had its subtree ended by now.
            assert forall|i: int| 0 <= i < j && closed_dir(c, #[trigger] after[i]) implies exists|
                k: int,
            |
                k <= j && #[trigger] ends_subtree(after, i, k) by {
                assert(after[i] == before[i]);
                match self.closed {
                    Some(depth) => {
                        let w = self.witness@;
                        if i < w {
                            let k = choose|k: int| k <= w && #[trigger] ends_subtree(before, i, k);
                            assert(after[k] == before[k]);
                            assert(ends_subtree(after, i, k));
                        } else {
                            if i > w {
                                assert(before[i].depth > depth);
                            }
                            assert(ends_subtree(after, i, j));
                        }
                    },
                    None => {
                        let k = choose|k: int| k <= j && #[trigger] ends_subtree(before, i, k);
                        assert(after[k] == before[k]);
                        assert(ends_subtree(after, i, k));
                    },
                }
            }
            assert(!below_closed(c, after, j)) by {
                assert forall|i: int| #[trigger] inside(after, i, j) implies !closed_dir(
                    c,
                    after[i],
                ) by {
                    if closed_dir(c, after[i]) {
                        let k = choose|k: int| k <= j && #[trigger] ends_subtree(after, i, k);
                        assert(after[k].depth > after[i].depth);
                    }
                }
            }
        }
        let verdict = match entry.kind {
            EntryKind::Directory => if self.criteria.is_closed_dir(entry) {
                Verdict::Prune
            } else {
                Verdict::Enter
            },
            EntryKind::File => if self.criteria.admits_file(entry) {
                Verdict::Yield
            } else {
                Verdict::Skip
            },
            EntryKind::Other => Verdict::Skip,
        };
        match verdict {
            Verdict::Prune => {
                self.closed = Some(entry.depth);
                proof {
                    self.witness = Ghost(j);
                }
            },
            _ => {
                self.closed = None;
            },
        }
        proof {
            self.seen = Ghost(after);
            if !(verdict is Prune) {
                assert(!closed_dir(c, after[j]));
                assert(self.settled(after.len() as int)) by {
                    assert forall|i: int|
                        0 <= i < after.len() && closed_dir(c, #[trigger] after[i]) implies exists|
                        k: int,
                    |
                        k <= after.len() && #[trigger] ends_subtree(after, i, k) by {
                        let k = choose|k: int| k <= j && #[trigger] ends_subtree(after, i, k);
                        assert(ends_subtree(after, i, k));
                    }
                }
            }
        }
        verdict
    }
}

/// The entries as the contracts speak of them.
pub open spec fn entry_specs(entries: Seq<Entry<'_>>) -> Seq<EntrySpec> {
    entries.map_values(|e: Entry<'_>| e@)
}

/// The positions of the selected entries among the first `upto`, ascending.
pub open spec fn selection(
    criteria: FileSelectionCriteria,
    entries: Seq<EntrySpec>,
    upto: int,
) -> Seq<usize>
    decreases upto,
{
    if upto <= 0 {
        Seq::<usize>::empty()
    } else if selected(criteria, entries, upto - 1) {
        selection(criteria, entries, upto - 1).push((upto - 1) as usize)
    } else {
        selection(criteria, entries, upto - 1)
    }
}

/// Whether an entry is selected depends on the entries up to it alone.
pub proof fn lemma_selected_prefix(
    criteria: FileSelectionCriteria,
    entries: Seq<EntrySpec>,
    j: int,
)
    requires
        0 <= j < entries.len(),
    ensures
        selected(criteria, entries.take(j + 1), j) == selected(criteria, entries, j),
{
    let head = entries.take(j + 1);
    assert(head[j] == entries[j]);
    if below_closed(criteria, entries, j) {
        let i = choose|i: int| #[trigger] inside(entries, i, j) && closed_dir(criteria, entries[i]);
        assert(inside(head, i, j)) by {
            assert forall|k: int| i < k <= j implies (#[trigger] head[k]).depth > head[i].depth by {
                assert(head[k] == entries[k]);
            }
        }
        assert(head[i] == entries[i]);
    }
    if below_closed(criteria, head, j) {
        let i = choose|i: int| #[trigger] inside(head, i, j) && closed_dir(criteria, head[i]);
        assert(inside(entries, i, j)) by {
            assert forall|k: int| i < k <= j implies (#[trigger] entries[k]).depth
                > entries[i].depth by {
                assert(head[k] == entries[k]);
            }
        }
        assert(head[i] == entries[i]);
    }
}

/// The positions in `entries` of the files that a walk over them selects,
/// in the order of the walk.
pub fn select(criteria: &FileSelectionCriteria, entries: &Vec<Entry<'_>>) -> (chosen: Vec<usize>)
    ensures
        chosen@ == selection(*criteria, entry_specs(entries@), entries@.len() as int),
{
    let ghost all = entry_specs(entries@);
    let mut selector = Selector::new(criteria);
    let mut chosen: Vec<usize> = Vec::new();
    let mut j: usize = 0;
    assert(all.take(0) =~= Seq::<EntrySpec>::empty());
    while j < entries.len()
        invariant
            j <= entries@.len(),
            all == entry_specs(entries@),
            selector.wf(),
            selector.criteria() == *criteria,
            selector.entries() == all.take(j as int),
            chosen@ == selection(*criteria, all, j as int),
        decreases entries@.len() - j,
    {
        let verdict = selector.visit(&entries[j]);
        proof {
            assert(all[j as int] == entries@[j as int]@);
            assert(all.take(j + 1) =~= all.take(j as int).push(entries@[j as int]@));
            lemma_selected_prefix(*criteria, all, j as int);
        }
        match verdict {
            Verdict::Yield => {
                chosen.push(j);
            },
            _ => {},
        }
        j += 1;
    }
    chosen
}

} // verus!
