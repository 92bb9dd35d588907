//! The files that more than one session works on.

use vstd::prelude::*;
use crate::text::{first_index, lemma_first_index_is};
use crate::workspace::TerminalId;

verus! {

/// What is to happen when sessions share a file.
#[derive(Clone, Copy, Debug, PartialEq, Eq, Structural)]
pub enum ConflictResolution {
    Warn,
    Block,
    AutoResolve,
}

/// A file and the sessions that work on it.
#[derive(Debug)]
pub struct FileConflict {
    pub file: String,
    pub terminal_ids: Vec<TerminalId>,
}

/// The model of one entry: a file and the sessions that work on it, in the
/// order in which they took it up.
pub type Overlap = (Seq<char>, Seq<TerminalId>);

/// The files of the entries, in order.
pub open spec fn files_of(entries: Seq<Overlap>) -> Seq<Seq<char>> {
    Seq::new(entries.len(), |i: int| entries[i].0)
}

/// `ids` without every occurrence of `id`.
pub open spec fn without(ids: Seq<TerminalId>, id: TerminalId) -> Seq<TerminalId>
    decreases ids.len(),
{
    if ids.len() == 0 {
        Seq::empty()
    } else if ids.last() == id {
        without(ids.drop_last(), id)
    } else {
        without(ids.drop_last(), id).push(ids.last())
    }
}

/// The entries after the session named `id` took up `file`: it joins the
/// sessions of the entry of `file`, or a new entry at the end.
pub open spec fn added(entries: Seq<Overlap>, file: Seq<char>, id: TerminalId) -> Seq<Overlap> {
    let at = first_index(files_of(entries), file);
    if at < entries.len() {
        entries.update(at, (file, entries[at].1.push(id)))
    } else {
        entries.push((file, seq![id]))
    }
}

/// The entries after the session named `id` let go of `file`: the entry of
/// `file` loses the session, and goes where no session is left.
pub open spec fn removed(entries: Seq<Overlap>, file: Seq<char>, id: TerminalId) -> Seq<Overlap> {
    let at = first_index(files_of(entries), file);
    if at < entries.len() {
        let rest = without(entries[at].1, id);
        if rest.len() == 0 {
            entries.remove(at)
        } else {
            entries.update(at, (file, rest))
        }
    } else {
        entries
    }
}

/// The entries after the session named `id` let go of every file.
pub open spec fn purged(entries: Seq<Overlap>, id: TerminalId) -> Seq<Overlap>
    decreases entries.len(),
{
    if entries.len() == 0 {
        Seq::empty()
    } else {
        let head = purged(entries.drop_last(), id);
        let rest = without(entries.last().1, id);
        if rest.len() == 0 {
            head
        } else {
            head.push((entries.last().0, rest))
        }
    }
}

/// The entries that more than one session works on, in order.
pub open spec fn conflicts_of(entries: Seq<Overlap>) -> Seq<Overlap>
    decreases entries.len(),
{
    if entries.len() == 0 {
        Seq::empty()
    } else {
        let head = conflicts_of(entries.drop_last());
        if entries.last().1.len() > 1 {
            head.push(entries.last())
        } else {
            head
        }
    }
}

/// The model of a list of conflicts.
pub open spec fn conflicts_view(list: Seq<FileConflict>) -> Seq<Overlap> {
    Seq::new(list.len(), |i: int| (list[i].file@, list[i].terminal_ids@))
}

/// The detector of shared files.
pub struct ConflictDetector {
    overlaps: Vec<(String, Vec<TerminalId>)>,
    resolution_strategy: ConflictResolution,
}

/// A copy of a list of names.
fn copy_ids(ids: &Vec<TerminalId>) -> (copy: Vec<TerminalId>)
    ensures
        copy@ == ids@,
{
    let mut copy: Vec<TerminalId> = Vec::new();
    let mut i: usize = 0;
    while i < ids.len()
        invariant
            i <= ids.len(),
            copy@ == ids@.take(i as int),
        decreases ids.len() - i,
    {
        copy.push(ids[i]);
        assert(ids@.take(i + 1) =~= ids@.take(i as int).push(ids@[i as int]));
        i += 1;
    }
    assert(ids@.take(ids.len() as int) =~= ids@);
    copy
}

/// `ids` without every occurrence of `id`.
fn ids_without(ids: &Vec<TerminalId>, id: TerminalId) -> (rest: Vec<TerminalId>)
    ensures
        rest@ == without(ids@, id),
{
    let mut rest: Vec<TerminalId> = Vec::new();
    let mut i: usize = 0;
    while i < ids.len()
        invariant
            i <= ids.len(),
            rest@ == without(ids@.take(i as int), id),
        decreases ids.len() - i,
    {
        assert(ids@.take(i + 1).drop_last() =~= ids@.take(i as int));
        if ids[i] != id {
            rest.push(ids[i]);
        }
        i += 1;
    }
    assert(ids@.take(ids.len() as int) =~= ids@);
    rest
}

impl ConflictDetector {
    /// The entries of the detector: each file with the sessions that work on it.
    pub closed spec fn entries(&self) -> Seq<Overlap> {
        Seq::new(self.overlaps@.len(), |i: int| (self.overlaps@[i].0@, self.overlaps@[i].1@))
    }

    /// What is to happen when sessions share a file.
    pub closed spec fn strategy(&self) -> ConflictResolution {
        self.resolution_strategy
    }

    /// A detector without entries that warns of conflicts.
    pub fn new() -> (detector: ConflictDetector)
        ensures
            detector.entries() == Seq::<Overlap>::empty(),
            detector.strategy() == ConflictResolution::Warn,
    {
        let detector = ConflictDetector {
            overlaps: Vec::new(),
            resolution_strategy: ConflictResolution::Warn,
        };
        assert(detector.entries() =~= Seq::<Overlap>::empty());
        detector
    }

    /// Where the entry of `file` stands, if there is one.
    fn find_file(&self, file: &String) -> (at: Option<usize>)
        ensures
            match at {
                Some(i) => i == first_index(files_of(self.entries()), file@) && i
                    < self.entries().len() && self.entries()[i as int].0 == file@,
                None => first_index(files_of(self.entries()), file@) == self.entries().len(),
            },
    {
        let mut i: usize = 0;
        while i < self.overlaps.len()
            invariant
                i <= self.overlaps.len(),
                forall|j: int| 0 <= j < i ==> files_of(self.entries())[j] != file@,
            decreases self.overlaps.len() - i,
        {
            if self.overlaps[i].0 == *file {
                proof {
                    assert(files_of(self.entries())[i as int] == file@);
                    lemma_first_index_is(files_of(self.entries()), file@, i as int);
                }
                return Some(i);
            }
            i += 1;
        }
        proof {
            lemma_first_index_is(files_of(self.entries()), file@, i as int);
        }
        None
    }

    /// Notes that the session named `terminal_id` works on `file`.
    pub fn add_file_terminal(&mut self, file: String, terminal_id: TerminalId)
        ensures
            final(self).entries() == added(old(self).entries(), file@, terminal_id),
            final(self).strategy() == old(self).strategy(),
    {
        match self.find_file(&file) {
            Some(at) => {
                self.overlaps[at].1.push(terminal_id);
                assert(self.entries() =~= added(old(self).entries(), file@, terminal_id));
            },
            None => {
                let mut ids: Vec<TerminalId> = Vec::new();
                ids.push(terminal_id);
                assert(ids@ =~= seq![terminal_id]);
                self.overlaps.push((file, ids));
                assert(self.entries() =~= added(old(self).entries(), file@, terminal_id));
            },
        }
    }

    /// Notes that the session named `terminal_id` works on `file` no more.
    pub fn remove_file_terminal(&mut self, file: &String, terminal_id: TerminalId)
        ensures
            final(self).entries() == removed(old(self).entries(), file@, terminal_id),
            final(self).strategy() == old(self).strategy(),
    {
        match self.find_file(file) {
            Some(at) => {
                let rest = ids_without(&self.overlaps[at].1, terminal_id);
                if rest.len() == 0 {
                    self.overlaps.remove(at);
                    assert(self.entries() =~= removed(old(self).entries(), file@, terminal_id));
                } else {
                    self.overlaps[at].1 = rest;
                    assert(self.entries() =~= removed(old(self).entries(), file@, terminal_id));
                }
            },
            None => {},
        }
    }

    /// Notes that the session named `terminal_id` works on no file.
    pub fn remove_terminal(&mut self, terminal_id: TerminalId)
        ensures
            final(self).entries() == purged(old(self).entries(), terminal_id),
            final(self).strategy() == old(self).strategy(),
    {
        let mut kept: Vec<(String, Vec<TerminalId>)> = Vec::new();
        let ghost before = self.entries();
        let mut i: usize = 0;
        while i < self.overlaps.len()
            invariant
                i <= self.overlaps.len(),
                self.entries() == before,
                self.strategy() == old(self).strategy(),
                Seq::new(kept@.len(), |j: int| (kept@[j].0@, kept@[j].1@)) == purged(
                    before.take(i as int),
                    terminal_id,
                ),
            decreases self.overlaps.len() - i,
        {
            let ghost so_far = Seq::new(kept@.len(), |j: int| (kept@[j].0@, kept@[j].1@));
            assert(before.take(i + 1).drop_last() =~= before.take(i as int));
            assert(before.take(i + 1).last() == before[i as int]);
            let rest = ids_without(&self.overlaps[i].1, terminal_id);
            if rest.len() > 0 {
                kept.push((self.overlaps[i].0.clone(), rest));
                assert(Seq::new(kept@.len(), |j: int| (kept@[j].0@, kept@[j].1@)) =~= so_far.push(
                    (before[i as int].0, rest@),
                ));
            }
            i += 1;
        }
        assert(before.take(self.overlaps.len() as int) =~= before);
        self.overlaps = kept;
        assert(self.entries() =~= purged(before, terminal_id));
    }

    /// The files that more than one session works on, each with its sessions.
    pub fn get_conflicts(&self) -> (conflicts: Vec<FileConflict>)
        ensures
            conflicts_view(conflicts@) == conflicts_of(self.entries()),
    {
        let mut conflicts: Vec<FileConflict> = Vec::new();
        let ghost entries = self.entries();
        let mut i: usize = 0;
        while i < self.overlaps.len()
            invariant
                i <= self.overlaps.len(),
                entries == self.entries(),
                conflicts_view(conflicts@) == conflicts_of(entries.take(i as int)),
            decreases self.overlaps.len() - i,
        {
            let ghost so_far = conflicts_view(conflicts@);
            assert(entries.take(i + 1).drop_last() =~= entries.take(i as int));
            assert(entries.take(i + 1).last() == entries[i as int]);
            if self.overlaps[i].1.len() > 1 {
                conflicts.push(
                    FileConflict {
                        file: self.overlaps[i].0.clone(),
                        terminal_ids: copy_ids(&self.overlaps[i].1),
                    },
                );
                assert(conflicts_view(conflicts@) =~= so_far.push(entries[i as int]));
            }
            i += 1;
        }
        assert(entries.take(self.overlaps.len() as int) =~= entries);
        conflicts
    }

    /// Sets what is to happen when sessions share a file.
    pub fn set_resolution_strategy(&mut self, strategy: ConflictResolution)
        ensures
            final(self).strategy() == strategy,
            final(self).entries() == old(self).entries(),
    {
        self.resolution_strategy = strategy;
    }
}

} // verus!
