//! A value-level model of the part of the filesystem the reconciler reads and
//! writes.
//!
//! A [`Fs`] records, for each path that holds anything, whether it holds a
//! symbolic link (and that link's literal target) or some other kind of entry
//! (a regular file or a directory, which the reconciler never tells apart).
//! Its view is a map from path to entry; when the same path is recorded
//! twice, the later record wins.

use vstd::prelude::*;

verus! {

/// What occupies one path: a symbolic link with its literal, unnormalised
/// target, or any other kind of filesystem entry.
#[derive(Debug, Clone, PartialEq, Eq)]
pub enum Entry {
    Symlink { target: String },
    Other,
}

impl View for Entry {
    type V = Option<Seq<char>>;

    open spec fn view(&self) -> Option<Seq<char>> {
        match self {
            Entry::Symlink { target } => Some(target@),
            Entry::Other => None,
        }
    }
}

impl Entry {
    /// An equal copy of this entry.
    pub fn duplicate(&self) -> (r: Entry)
        ensures
            r == *self,
    {
        match self {
            Entry::Symlink { target } => Entry::Symlink { target: target.clone() },
            Entry::Other => Entry::Other,
        }
    }
}

/// One recorded path together with what occupies it.
#[derive(Debug, Clone, PartialEq, Eq)]
pub struct FsEntry {
    pub path: String,
    pub entry: Entry,
}

impl FsEntry {
    /// An equal copy of this record.
    pub fn duplicate(&self) -> (r: FsEntry)
        ensures
            r == *self,
    {
        FsEntry { path: self.path.clone(), entry: self.entry.duplicate() }
    }
}

/// The map a sequence of records denotes: each record inserted in order, so
/// the latest record for a path wins.
pub open spec fn entries_map(s: Seq<FsEntry>) -> Map<Seq<char>, Option<Seq<char>>>
    decreases s.len(),
{
    if s.len() == 0 {
        Map::empty()
    } else {
        entries_map(s.drop_last()).insert(s.last().path@, s.last().entry@)
    }
}

/// The filesystem state the reconciler works against.
#[derive(Debug, Clone, PartialEq, Eq)]
pub struct Fs {
    pub entries: Vec<FsEntry>,
}

impl View for Fs {
    type V = Map<Seq<char>, Option<Seq<char>>>;

    open spec fn view(&self) -> Map<Seq<char>, Option<Seq<char>>> {
        entries_map(self.entries@)
    }
}

pub proof fn lemma_entries_map_contains(s: Seq<FsEntry>, k: Seq<char>)
    ensures
        entries_map(s).contains_key(k) <==> exists|i: int| 0 <= i < s.len() && s[i].path@ == k,
    decreases s.len(),
{
    if s.len() > 0 {
        lemma_entries_map_contains(s.drop_last(), k);
        if s.last().path@ == k {
            assert(s[s.len() - 1].path@ == k);
        } else {
            if exists|i: int| 0 <= i < s.len() && s[i].path@ == k {
                let i = choose|i: int| 0 <= i < s.len() && s[i].path@ == k;
                assert(s.drop_last()[i].path@ == k);
            }
            if exists|i: int| 0 <= i < s.drop_last().len() && s.drop_last()[i].path@ == k {
                let i = choose|i: int| 0 <= i < s.drop_last().len() && s.drop_last()[i].path@ == k;
                assert(s[i].path@ == k);
            }
        }
    }
}

pub proof fn lemma_entries_map_last_match(s: Seq<FsEntry>, i: int)
    requires
        0 <= i < s.len(),
        forall|j: int| i < j < s.len() ==> s[j].path@ != s[i].path@,
    ensures
        entries_map(s).contains_key(s[i].path@),
        entries_map(s)[s[i].path@] == s[i].entry@,
    decreases s.len(),
{
    if i == s.len() - 1 {
    } else {
        assert forall|j: int| i < j < s.drop_last().len() implies s.drop_last()[j].path@
            != s.drop_last()[i].path@ by {
            assert(s[j].path@ != s[i].path@);
        }
        lemma_entries_map_last_match(s.drop_last(), i);
        assert(s.last().path@ != s[i].path@);
    }
}

impl Fs {
    /// A state with nothing recorded.
    pub fn new() -> (r: Fs)
        ensures
            r@ == Map::<Seq<char>, Option<Seq<char>>>::empty(),
    {
        Fs { entries: Vec::new() }
    }

    /// Whether anything occupies `p`.
    pub fn contains_path(&self, p: &String) -> (r: bool)
        ensures
            r == self@.contains_key(p@),
    {
        let n = self.entries.len();
        let mut i: usize = 0;
        while i < n
            invariant
                i <= n,
                n == self.entries@.len(),
                forall|j: int| 0 <= j < i ==> self.entries@[j].path@ != p@,
            decreases n - i,
        {
            if self.entries[i].path == *p {
                proof {
                    assert(self.entries@[i as int].path@ == p@);
                    lemma_entries_map_contains(self.entries@, p@);
                }
                return true;
            }
            i = i + 1;
        }
        proof {
            lemma_entries_map_contains(self.entries@, p@);
        }
        false
    }

    /// Whether `p` holds a symbolic link whose target is exactly `target`.
    pub fn is_symlink_to(&self, p: &String, target: &String) -> (r: bool)
        ensures
            r == (self@.contains_key(p@) && self@[p@] == Some(target@)),
    {
        let n = self.entries.len();
        let mut i: usize = n;
        while i > 0
            invariant
                i <= n,
                n == self.entries@.len(),
                forall|j: int| i <= j < n ==> self.entries@[j].path@ != p@,
            decreases i,
        {
            let e = &self.entries[i - 1];
            if e.path == *p {
                proof {
                    lemma_entries_map_last_match(self.entries@, i - 1);
                }
                match &e.entry {
                    Entry::Symlink { target: t } => {
                        return *t == *target;
                    },
                    Entry::Other => {
                        return false;
                    },
                }
            }
            i = i - 1;
        }
        proof {
            lemma_entries_map_contains(self.entries@, p@);
        }
        false
    }

    /// The state with whatever occupied `p` gone.
    pub fn remove_path(self, p: &String) -> (r: Fs)
        ensures
            r@ == self@.remove(p@),
    {
        let n = self.entries.len();
        let mut out: Vec<FsEntry> = Vec::new();
        let mut i: usize = 0;
        proof {
            assert(self.entries@.take(0) =~= Seq::<FsEntry>::empty());
            assert(entries_map(out@) =~= entries_map(self.entries@.take(0)).remove(p@));
        }
        while i < n
            invariant
                i <= n,
                n == self.entries@.len(),
                entries_map(out@) == entries_map(self.entries@.take(i as int)).remove(p@),
            decreases n - i,
        {
            let e = &self.entries[i];
            proof {
                assert(self.entries@.take(i + 1).drop_last() =~= self.entries@.take(i as int));
                assert(self.entries@.take(i + 1).last() == self.entries@[i as int]);
            }
            if !(e.path == *p) {
                let ghost old_out = out@;
                out.push(e.duplicate());
                proof {
                    assert(out@.drop_last() =~= old_out);
                    assert(entries_map(out@) == entries_map(old_out).insert(
                        self.entries@[i as int].path@,
                        self.entries@[i as int].entry@,
                    ));
                    assert(entries_map(self.entries@.take(i as int)).remove(p@).insert(
                        self.entries@[i as int].path@,
                        self.entries@[i as int].entry@,
                    ) =~= entries_map(self.entries@.take(i + 1)).remove(p@));
                }
            } else {
                proof {
                    assert(entries_map(self.entries@.take(i as int)).remove(p@)
                        =~= entries_map(self.entries@.take(i + 1)).remove(p@));
                }
            }
            i = i + 1;
        }
        proof {
            assert(self.entries@.take(n as int) =~= self.entries@);
        }
        Fs { entries: out }
    }

    /// The state with `p` occupied by exactly `e`.
    pub fn set_entry(self, p: String, e: Entry) -> (r: Fs)
        ensures
            r@ == self@.insert(p@, e@),
    {
        let ghost orig = self@;
        let mut r = self.remove_path(&p);
        let ghost trimmed = r.entries@;
        r.entries.push(FsEntry { path: p, entry: e });
        proof {
            assert(r.entries@.drop_last() =~= trimmed);
            assert(orig.remove(r.entries@.last().path@).insert(
                r.entries@.last().path@,
                r.entries@.last().entry@,
            ) =~= orig.insert(r.entries@.last().path@, r.entries@.last().entry@));
        }
        r
    }
}

} // verus!
