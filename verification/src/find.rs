//! The search for files by name: which directory to read next, what to do
//! with each entry found there, and the report at the end. Reading a
//! directory is left to the caller; `D` is whatever it reads one by.

use crate::number::{decimal, decimal_chars};
use crate::text::{join, push_chars, string_views, to_chars};
use vstd::prelude::*;

verus! {

/// Whether `needle` stands in `hay` at index `at`.
pub open spec fn stands_at(hay: Seq<char>, needle: Seq<char>, at: int) -> bool {
    0 <= at && at + needle.len() <= hay.len() && hay.subrange(at, at + needle.len()) == needle
}

/// Whether `needle` stands somewhere in `hay`. The empty text stands in
/// every text.
pub open spec fn occurs_in(needle: Seq<char>, hay: Seq<char>) -> bool {
    exists|at: int| stands_at(hay, needle, at)
}

/// An entry of a directory, as far as the search looks at it.
pub enum Entry<D> {
    /// A directory, to be read in its turn.
    Directory(D),
    /// Anything else: the path under which it is reported, and its name
    /// where it has one that is text.
    File { path: String, name: Option<String> },
}

/// What an `Entry` holds.
pub enum EntryView<D> {
    Directory(D),
    File { path: Seq<char>, name: Option<Seq<char>> },
}

impl<D> View for Entry<D> {
    type V = EntryView<D>;

    open spec fn view(&self) -> EntryView<D> {
        match self {
            Entry::Directory(d) => EntryView::Directory(*d),
            Entry::File { path, name } => EntryView::File {
                path: path@,
                name: match name {
                    Some(n) => Some(n@),
                    None => None,
                },
            },
        }
    }
}

/// A search under way.
pub struct FindWalk<D> {
    /// What a file's name must hold.
    pub pattern: String,
    /// The directories still to be read; the last one is read next.
    pub pending: Vec<D>,
    /// The paths of the files found so far, in the order in which they were
    /// found.
    pub found: Vec<String>,
}

/// What a `FindWalk` holds.
pub struct FindWalkView<D> {
    pub pattern: Seq<char>,
    pub pending: Seq<D>,
    pub found: Seq<Seq<char>>,
}

impl<D> View for FindWalk<D> {
    type V = FindWalkView<D>;

    open spec fn view(&self) -> FindWalkView<D> {
        FindWalkView {
            pattern: self.pattern@,
            pending: self.pending@,
            found: string_views(self.found@),
        }
    }
}

impl<D> FindWalkView<D> {
    /// A search that has `root` alone to read and has found nothing.
    pub open spec fn start(pattern: Seq<char>, root: D) -> Self {
        FindWalkView { pattern, pending: seq![root], found: Seq::empty() }
    }

    /// The search after an entry was looked at: a directory is added to
    /// those still to be read; a file is found if it has a name and the
    /// name holds the pattern; anything else is passed over.
    pub open spec fn visit(self, entry: EntryView<D>) -> Self {
        match entry {
            EntryView::Directory(d) => FindWalkView { pending: self.pending.push(d), ..self },
            EntryView::File { path, name } => {
                if name matches Some(n) && occurs_in(self.pattern, n) {
                    FindWalkView { found: self.found.push(path), ..self }
                } else {
                    self
                }
            },
        }
    }

    /// The report: how many files were found, and their paths, one on each
    /// line.
    pub open spec fn report(self) -> Seq<char> {
        "匹配到 "@ + decimal(self.found.len()) + " 个文件:\n"@ + join(self.found, "\n"@)
    }
}

fn stands_at_index(hay: &Vec<char>, needle: &Vec<char>, at: usize) -> (r: bool)
    requires
        at + needle.len() <= hay.len(),
    ensures
        r == stands_at(hay@, needle@, at as int),
{
    let mut k: usize = 0;
    while k < needle.len()
        invariant
            k <= needle.len(),
            at + needle.len() <= hay.len(),
            forall|j: int| 0 <= j < k ==> hay@[at + j] == needle@[j],
        decreases needle.len() - k,
    {
        if hay[at + k] != needle[k] {
            assert(hay@.subrange(at as int, at + needle.len())[k as int] != needle@[k as int]);
            return false;
        }
        k += 1;
    }
    assert(hay@.subrange(at as int, at + needle.len()) =~= needle@);
    true
}

/// Whether `needle` stands somewhere in `hay`.
pub fn contains_chars(hay: &Vec<char>, needle: &Vec<char>) -> (r: bool)
    ensures
        r == occurs_in(needle@, hay@),
{
    if needle.len() > hay.len() {
        return false;
    }
    let last: usize = hay.len() - needle.len();
    let mut at: usize = 0;
    while at < last
        invariant
            at <= last,
            last + needle.len() == hay.len(),
            forall|k: int| 0 <= k < at ==> !stands_at(hay@, needle@, k),
        decreases last - at,
    {
        if stands_at_index(hay, needle, at) {
            return true;
        }
        at += 1;
    }
    stands_at_index(hay, needle, last)
}

impl<D> FindWalk<D> {
    /// A search for files whose name holds `pattern`, in `root` and all
    /// that is under it.
    pub fn new(pattern: String, root: D) -> (walk: Self)
        ensures
            walk@ == FindWalkView::start(pattern@, root),
    {
        let mut pending: Vec<D> = Vec::new();
        pending.push(root);
        let walk = FindWalk { pattern, pending, found: Vec::new() };
        assert(walk@.found =~= Seq::empty());
        assert(walk@.pending =~= seq![root]);
        walk
    }

    /// The directory to read next: the one added last. `None` says that
    /// the search is over.
    pub fn next_dir(&mut self) -> (dir: Option<D>)
        ensures
            final(self)@.pattern == old(self)@.pattern,
            final(self)@.found == old(self)@.found,
            match dir {
                Some(d) => old(self)@.pending.len() > 0 && d == old(self)@.pending.last()
                    && final(self)@.pending == old(self)@.pending.drop_last(),
                None => old(self)@.pending.len() == 0 && final(self)@.pending == old(
                    self,
                )@.pending,
            },
    {
        self.pending.pop()
    }

    /// Looks at one entry of the directory being read.
    pub fn visit(&mut self, entry: Entry<D>)
        ensures
            final(self)@ == old(self)@.visit(entry@),
    {
        match entry {
            Entry::Directory(d) => {
                self.pending.push(d);
            },
            Entry::File { path, name } => {
                if let Some(n) = name {
                    if contains_chars(&to_chars(n.as_str()), &to_chars(self.pattern.as_str())) {
                        self.found.push(path);
                        assert(string_views(self.found@) =~= string_views(old(self).found@).push(
                            path@,
                        ));
                    }
                }
            },
        }
    }

    /// The report of the search: how many files were found, and their
    /// paths, one on each line.
    pub fn report(&self) -> (text: String)
        ensures
            text@ == self@.report(),
    {
        let mut text = "匹配到 ".to_string();
        push_chars(&mut text, &decimal_chars(self.found.len()));
        text.append(" 个文件:\n");
        let ghost head = text@;
        let ghost found = string_views(self.found@);
        let mut i: usize = 0;
        assert(found.take(0) =~= Seq::<Seq<char>>::empty());
        while i < self.found.len()
            invariant
                i <= self.found.len(),
                found == string_views(self.found@),
                text@ == head + join(found.take(i as int), "\n"@),
            decreases self.found.len() - i,
        {
            proof {
                assert(found.take(i + 1) =~= found.take(i as int).push(found[i as int]));
                crate::text::lemma_join_push(found.take(i as int), found[i as int], "\n"@);
            }
            if i > 0 {
                text.append("\n");
            }
            text.append(self.found[i].as_str());
            i += 1;
        }
        assert(found.take(i as int) =~= found);
        text
    }
}

} // verus!
