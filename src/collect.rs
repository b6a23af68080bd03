//! Depth-first collection of the eligible files of a tree.
//!
//! The collector never touches the file system: it asks for the listing of
//! one directory at a time and decides which entries are collected, which are
//! descended into and which are left out. The caller answers each request
//! with the directory's entries, in the order the platform lists them.
use vstd::prelude::*;
use vstd::string::*;
use crate::text::{lower_of, trim_of, lowercase, trimmed, names, copy_names};

verus! {

/// What a directory entry is.
#[derive(Clone, Copy, Debug)]
pub enum EntryKind {
    File,
    Directory,
    Other,
}

/// One entry of a directory listing, by base name.
pub struct ListedEntry {
    pub name: String,
    pub kind: EntryKind,
}

/// An entry waiting to be visited, with the directories that lead to it from
/// the root.
pub struct PendingEntry {
    pub dirs: Vec<String>,
    pub name: String,
    pub kind: EntryKind,
}

/// A collected file: the directories that lead to it from the root, and its
/// base name.
pub struct CollectedFile {
    pub dirs: Vec<String>,
    pub name: String,
}

/// What the collector needs next.
pub enum CollectStep {
    /// The entries of the directory reached through these names from the root.
    ReadDirectory(Vec<String>),
    /// The collection is complete.
    Done,
}

/// The name of the output directory, lower-cased; it is never descended into.
pub open spec fn output_dir_lower() -> Seq<char> {
    "organizer"@
}

/// Whether an entry with base name `name` takes part in a run, given the
/// normalized exclusion set `ex`.
pub open spec fn admitted(name: Seq<char>, ex: Seq<Seq<char>>) -> bool {
    lower_of(name) != output_dir_lower() && !ex.contains(lower_of(name))
}

/// Whether every name of a path takes part in a run.
pub open spec fn path_admitted(dirs: Seq<Seq<char>>, ex: Seq<Seq<char>>) -> bool {
    forall|i: int| 0 <= i < dirs.len() ==> admitted(#[trigger] dirs[i], ex)
}

/// The normal form of an exclusion list: each item trimmed and lower-cased.
pub open spec fn normalized(items: Seq<String>) -> Seq<Seq<char>> {
    items.map_values(|s: String| lower_of(trim_of(s@)))
}

/// A pending entry as directories, base name and kind.
pub type PendingView = (Seq<Seq<char>>, Seq<char>, EntryKind);

/// A collected file as directories and base name.
pub type FileView = (Seq<Seq<char>>, Seq<char>);

impl PendingEntry {
    pub open spec fn view(&self) -> PendingView {
        (names(self.dirs@), self.name@, self.kind)
    }
}

impl CollectedFile {
    pub open spec fn view(&self) -> FileView {
        (names(self.dirs@), self.name@)
    }
}

/// Visits pending entries from the top of the stack until a directory is to
/// be read or nothing is left: entries left out are dropped, files are
/// collected, a directory is returned with its path.
pub open spec fn advance(pending: Seq<PendingView>, files: Seq<FileView>, ex: Seq<Seq<char>>) -> (
    Seq<PendingView>,
    Seq<FileView>,
    Option<Seq<Seq<char>>>,
)
    decreases pending.len(),
{
    if pending.len() == 0 {
        (pending, files, None)
    } else {
        let top = pending.last();
        let rest = pending.drop_last();
        if !admitted(top.1, ex) {
            advance(rest, files, ex)
        } else {
            match top.2 {
                EntryKind::File => advance(rest, files.push((top.0, top.1)), ex),
                EntryKind::Directory => (rest, files, Some(top.0.push(top.1))),
                EntryKind::Other => advance(rest, files, ex),
            }
        }
    }
}

/// The stack after the entries of directory `dirs` are pushed so that the
/// first listed entry is on top.
pub open spec fn pushed_listing(
    pending: Seq<PendingView>,
    dirs: Seq<Seq<char>>,
    entries: Seq<ListedEntry>,
) -> Seq<PendingView> {
    pending + Seq::new(
        entries.len(),
        |i: int| (dirs, entries[entries.len() - 1 - i].name@, entries[entries.len() - 1 - i].kind),
    )
}

/// The state of one collection.
pub struct Collector {
    /// The exclusion set, trimmed and lower-cased.
    pub exclusions: Vec<String>,
    /// Entries still to visit; the last one is visited first.
    pub pending: Vec<PendingEntry>,
    /// The directory whose listing is awaited, if any.
    pub awaiting: Option<Vec<String>>,
    /// The files collected so far, in order.
    pub files: Vec<CollectedFile>,
}

impl Collector {
    pub open spec fn ex(&self) -> Seq<Seq<char>> {
        names(self.exclusions@)
    }

    pub open spec fn pending_view(&self) -> Seq<PendingView> {
        self.pending@.map_values(|p: PendingEntry| p.view())
    }

    pub open spec fn files_view(&self) -> Seq<FileView> {
        self.files@.map_values(|f: CollectedFile| f.view())
    }

    pub open spec fn awaiting_view(&self) -> Option<Seq<Seq<char>>> {
        match self.awaiting {
            Some(d) => Some(names(d@)),
            None => None,
        }
    }

    /// Every path held, pending, awaited or collected, consists of admitted
    /// names only.
    pub open spec fn wf(&self) -> bool {
        &&& forall|i: int|
            0 <= i < self.pending@.len() ==> path_admitted(
                #[trigger] self.pending_view()[i].0,
                self.ex(),
            )
        &&& self.awaiting_view() matches Some(d) ==> path_admitted(d, self.ex())
        &&& forall|i: int|
            0 <= i < self.files@.len() ==> path_admitted(#[trigger] self.files_view()[i].0, self.ex())
                && admitted(self.files_view()[i].1, self.ex())
    }

    /// A collection of the tree below the root, leaving out every entry whose
    /// base name matches an item of `excluded` once both are trimmed and
    /// lower-cased. The root's listing is the first thing asked for.
    pub fn new(excluded: &[String]) -> (r: Self)
        ensures
            r.wf(),
            r.ex() == normalized(excluded@),
            r.pending@.len() == 0,
            r.files@.len() == 0,
            r.awaiting_view() == Some(Seq::<Seq<char>>::empty()),
    {
        let mut exclusions: Vec<String> = Vec::new();
        let mut i: usize = 0;
        while i < excluded.len()
            invariant
                i <= excluded@.len(),
                names(exclusions@) == normalized(excluded@.subrange(0, i as int)),
            decreases excluded.len() - i,
        {
            let t = trimmed(excluded[i].as_str());
            let lower = lowercase(t);
            let ghost prev = names(exclusions@);
            exclusions.push(lower);
            assert(names(exclusions@) =~= prev.push(lower_of(trim_of(excluded@[i as int]@))));
            assert(excluded@.subrange(0, i + 1) =~= excluded@.subrange(0, i as int).push(excluded@[i as int]));
            i = i + 1;
            assert(names(exclusions@) =~= normalized(excluded@.subrange(0, i as int)));
        }
        assert(excluded@.subrange(0, excluded.len() as int) =~= excluded@);
        let root: Vec<String> = Vec::new();
        let r = Collector { exclusions, pending: Vec::new(), awaiting: Some(root), files: Vec::new() };
        assert(names(root@) =~= Seq::<Seq<char>>::empty());
        r
    }

    /// Whether an entry whose lower-cased base name is `lower` takes part.
    pub fn admits(&self, lower: &String) -> (r: bool)
        ensures
            r == (lower@ != output_dir_lower() && !self.ex().contains(lower@)),
    {
        let out = String::from_str("organizer");
        if *lower == out {
            return false;
        }
        let mut i: usize = 0;
        while i < self.exclusions.len()
            invariant
                i <= self.exclusions@.len(),
                forall|j: int| 0 <= j < i ==> self.ex()[j] != lower@,
            decreases self.exclusions.len() - i,
        {
            assert(self.ex()[i as int] == self.exclusions@[i as int]@);
            if self.exclusions[i] == *lower {
                return false;
            }
            i = i + 1;
        }
        true
    }

    /// The next request of the collection. While a listing is awaited, that
    /// request stands. Otherwise pending entries are visited, the first listed
    /// first: admitted files are collected, and the first admitted directory
    /// is asked for; `Done` when nothing is pending.
    pub fn next_step(&mut self) -> (r: CollectStep)
        requires
            old(self).wf(),
        ensures
            final(self).wf(),
            final(self).exclusions == old(self).exclusions,
            old(self).awaiting_view() is Some ==> {
                &&& *final(self) == *old(self)
                &&& r matches CollectStep::ReadDirectory(d) && Some(names(d@))
                    == old(self).awaiting_view()
            },
            old(self).awaiting_view() is None ==> ({
                let (p, f, a) = advance(old(self).pending_view(), old(self).files_view(), old(self).ex());
                &&& final(self).pending_view() == p
                &&& final(self).files_view() == f
                &&& final(self).awaiting_view() == a
                &&& match r {
                    CollectStep::ReadDirectory(d) => a == Some(names(d@)),
                    CollectStep::Done => a is None,
                }
            }),
    {
        if let Some(d) = &self.awaiting {
            return CollectStep::ReadDirectory(copy_names(d));
        }
        let ghost ex = self.ex();
        let ghost goal = advance(self.pending_view(), self.files_view(), ex);
        loop
            invariant
                self.wf(),
                self.ex() == ex,
                self.exclusions == old(self).exclusions,
                self.awaiting is None,
                old(self).awaiting_view() is None,
                ex == old(self).ex(),
                goal == advance(old(self).pending_view(), old(self).files_view(), old(self).ex()),
                advance(self.pending_view(), self.files_view(), ex) == goal,
            decreases self.pending@.len(),
        {
            let ghost pv = self.pending_view();
            let ghost fv = self.files_view();
            match self.pending.pop() {
                None => {
                    assert(pv.len() == 0);
                    return CollectStep::Done;
                },
                Some(top) => {
                    assert(self.pending_view() =~= pv.drop_last());
                    assert(top.view() == pv.last());
                    assert(path_admitted(pv.last().0, ex));
                    let lower = lowercase(top.name.as_str());
                    if self.admits(&lower) {
                        match top.kind {
                            EntryKind::File => {
                                let f = CollectedFile { dirs: top.dirs, name: top.name };
                                self.files.push(f);
                                assert(self.files_view() =~= fv.push((pv.last().0, pv.last().1)));
                                assert(advance(pv, fv, ex) == advance(
                                    pv.drop_last(),
                                    fv.push((pv.last().0, pv.last().1)),
                                    ex,
                                ));
                            },
                            EntryKind::Directory => {
                                let mut d = top.dirs;
                                d.push(top.name);
                                assert(names(d@) =~= pv.last().0.push(pv.last().1));
                                assert(path_admitted(names(d@), ex));
                                assert(advance(pv, fv, ex) == (
                                    pv.drop_last(),
                                    fv,
                                    Some(pv.last().0.push(pv.last().1)),
                                ));
                                self.awaiting = Some(copy_names(&d));
                                return CollectStep::ReadDirectory(d);
                            },
                            EntryKind::Other => {
                                assert(advance(pv, fv, ex) == advance(pv.drop_last(), fv, ex));
                            },
                        }
                    } else {
                        assert(advance(pv, fv, ex) == advance(pv.drop_last(), fv, ex));
                    }
                },
            }
        }
    }

    /// Hands over the listing of the awaited directory: its entries become
    /// pending, the first listed on top. Without an awaited directory nothing
    /// changes.
    pub fn feed(&mut self, entries: Vec<ListedEntry>)
        requires
            old(self).wf(),
        ensures
            final(self).wf(),
            final(self).exclusions == old(self).exclusions,
            final(self).files_view() == old(self).files_view(),
            old(self).awaiting_view() is None ==> *final(self) == *old(self),
            old(self).awaiting_view() matches Some(d) ==> {
                &&& final(self).awaiting_view() is None
                &&& final(self).pending_view() == pushed_listing(old(self).pending_view(), d, entries@)
            },
    {
        let ghost dv = match self.awaiting_view() {
            Some(d) => d,
            None => Seq::empty(),
        };
        let d = match self.awaiting.take() {
            Some(d) => d,
            None => {
                return;
            },
        };
        let ghost pv0 = self.pending_view();
        let ghost es = entries@;
        assert(path_admitted(dv, self.ex()));
        assert(self.pending_view() =~= pv0 + Seq::new(
            0,
            |i: int| (dv, es[es.len() - 1 - i].name@, es[es.len() - 1 - i].kind),
        ));
        assert(entries@ =~= es.subrange(0, entries@.len() as int));
        assert(self.pending_view() == old(self).pending_view());
        assert(self.files_view() == old(self).files_view());
        assert(self.wf());
        let mut entries = entries;
        while entries.len() > 0
            invariant
                self.wf(),
                self.exclusions == old(self).exclusions,
                self.files == old(self).files,
                self.awaiting is None,
                entries@ == es.subrange(0, entries@.len() as int),
                entries@.len() <= es.len(),
                path_admitted(dv, self.ex()),
                dv == names(d@),
                self.pending_view() == pv0 + Seq::new(
                    (es.len() - entries@.len()) as nat,
                    |i: int| (dv, es[es.len() - 1 - i].name@, es[es.len() - 1 - i].kind),
                ),
            decreases entries@.len(),
        {
            let ghost before = self.pending_view();
            let ghost n = entries@.len();
            let ghost fv_before = self.files_view();
            let ghost k = es.len() - n;
            let e = entries.pop().unwrap();
            assert(e == es[n - 1]);
            assert(entries@ =~= es.subrange(0, entries@.len() as int));
            let p = PendingEntry { dirs: copy_names(&d), name: e.name, kind: e.kind };
            self.pending.push(p);
            assert(self.pending_view() =~= before.push(p.view()));
            assert(p.view().0 == dv);
            assert(self.files_view() == fv_before);
            assert(self.pending_view()[pv0.len() + k] == (dv, es[n - 1].name@, es[n - 1].kind));
            assert forall|i: int| 0 <= i < self.pending@.len() implies path_admitted(
                #[trigger] self.pending_view()[i].0,
                self.ex(),
            ) by {
                if i < before.len() {
                    assert(self.pending_view()[i] == before[i]);
                }
            }
            assert(self.pending_view() =~= pv0 + Seq::new(
                (es.len() - entries@.len()) as nat,
                |i: int| (dv, es[es.len() - 1 - i].name@, es[es.len() - 1 - i].kind),
            ));
        }
        assert(self.pending_view() =~= pushed_listing(pv0, dv, es));
    }
}

/// Nothing inside the output directory is ever collected: no name on the path
/// of a collected file, the file's own included, is the output directory's
/// name in any letter case. So a second run over a tree whose files all sit
/// in the output directory collects nothing and moves nothing.
pub proof fn lemma_output_never_collected(c: Collector)
    requires
        c.wf(),
    ensures
        forall|i: int, j: int|
            0 <= i < c.files@.len() && 0 <= j < c.files_view()[i].0.len() ==> lower_of(
                #[trigger] c.files_view()[i].0[j],
            ) != output_dir_lower(),
        forall|i: int| 0 <= i < c.files@.len() ==> lower_of(#[trigger] c.files_view()[i].1) != output_dir_lower(),
{
    assert forall|i: int, j: int|
        0 <= i < c.files@.len() && 0 <= j < c.files_view()[i].0.len() implies lower_of(
        #[trigger] c.files_view()[i].0[j],
    ) != output_dir_lower() by {
        assert(path_admitted(c.files_view()[i].0, c.ex()));
        assert(admitted(c.files_view()[i].0[j], c.ex()));
    }
    assert forall|i: int| 0 <= i < c.files@.len() implies lower_of(#[trigger] c.files_view()[i].1)
        != output_dir_lower() by {
        assert(path_admitted(c.files_view()[i].0, c.ex()));
    }
}

/// A file whose name, or the name of a directory above it, matches an
/// exclusion item in any letter case is never collected: once lower-cased,
/// no such name equals an item of `items` trimmed and lower-cased.
pub proof fn lemma_excluded_never_collected(c: Collector, items: Seq<String>)
    requires
        c.wf(),
        c.ex() == normalized(items),
    ensures
        forall|i: int, j: int, k: int|
            0 <= i < c.files@.len() && 0 <= j < c.files_view()[i].0.len() && 0 <= k < items.len()
                ==> lower_of(#[trigger] c.files_view()[i].0[j]) != lower_of(trim_of(#[trigger] items[k]@)),
        forall|i: int, k: int|
            0 <= i < c.files@.len() && 0 <= k < items.len() ==> lower_of(#[trigger] c.files_view()[i].1)
                != lower_of(trim_of(#[trigger] items[k]@)),
{
    assert forall|i: int, j: int, k: int|
        0 <= i < c.files@.len() && 0 <= j < c.files_view()[i].0.len() && 0 <= k < items.len()
        implies lower_of(#[trigger] c.files_view()[i].0[j]) != lower_of(trim_of(#[trigger] items[k]@)) by {
        assert(path_admitted(c.files_view()[i].0, c.ex()));
        assert(admitted(c.files_view()[i].0[j], c.ex()));
        assert(c.ex()[k] == lower_of(trim_of(items[k]@)));
    }
    assert forall|i: int, k: int|
        0 <= i < c.files@.len() && 0 <= k < items.len() implies lower_of(#[trigger] c.files_view()[i].1)
        != lower_of(trim_of(#[trigger] items[k]@)) by {
        assert(path_admitted(c.files_view()[i].0, c.ex()));
        assert(c.ex()[k] == lower_of(trim_of(items[k]@)));
    }
}

} // verus!
