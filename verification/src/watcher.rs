//! Workspace change notifications: which file system events count as a
//! change, and the set of changed paths gathered between two broadcasts.
use vstd::prelude::*;
use crate::text::{chars_of, eq_chars};

verus! {

broadcast use vstd::seq_lib::group_seq_properties;

/// An event from the file watcher.
#[derive(Debug, Clone)]
pub enum FileChangedEvent {
    /// One or more files in the watched workspace changed.
    WorkspaceChanged { paths: Vec<String> },
}

/// The kind of a file system event, as the watcher reports it.
#[derive(Debug, Clone, Copy, PartialEq, Eq, Structural)]
pub enum FsEventKind {
    Any,
    Access,
    Create,
    Modify,
    Remove,
    Other,
}

/// Creations, modifications and removals are changes; accesses and
/// unknown events are not.
pub fn should_emit(kind: FsEventKind) -> (r: bool)
    ensures
        r == (kind == FsEventKind::Create || kind == FsEventKind::Modify || kind
            == FsEventKind::Remove),
{
    match kind {
        FsEventKind::Create | FsEventKind::Modify | FsEventKind::Remove => true,
        _ => false,
    }
}

/// Paths changed since the last broadcast, each once.
#[derive(Debug)]
pub struct PendingPaths {
    pub paths: Vec<String>,
}

impl View for PendingPaths {
    type V = Seq<Seq<char>>;

    open spec fn view(&self) -> Seq<Seq<char>> {
        self.paths@.map_values(|p: String| p@)
    }
}

pub open spec fn no_duplicates(s: Seq<Seq<char>>) -> bool {
    forall|i: int, j: int| 0 <= i < j < s.len() ==> s[i] != s[j]
}

impl PendingPaths {
    /// No path is held twice.
    pub open spec fn wf(&self) -> bool {
        no_duplicates(self@)
    }

    pub fn new() -> (r: Self)
        ensures
            r.wf(),
            r@ == Seq::<Seq<char>>::empty(),
    {
        let r = PendingPaths { paths: Vec::new() };
        proof {
            assert(r@ =~= Seq::<Seq<char>>::empty());
        }
        r
    }

    /// Records `path`; a path already held is not added again.
    pub fn insert(&mut self, path: &str)
        requires
            old(self).wf(),
        ensures
            final(self).wf(),
            final(self)@.to_set() == old(self)@.to_set().insert(path@),
            old(self)@.contains(path@) ==> final(self)@ == old(self)@,
            !old(self)@.contains(path@) ==> final(self)@ == old(self)@.push(path@),
    {
        let p = chars_of(path);
        let mut i: usize = 0;
        while i < self.paths.len()
            invariant
                i <= self.paths.len(),
                p@ == path@,
                self.wf(),
                self@ == old(self)@,
                forall|j: int| 0 <= j < i ==> self@[j] != path@,
            decreases self.paths.len() - i,
        {
            if eq_chars(&chars_of(self.paths[i].as_str()), &p) {
                proof {
                    assert(self@[i as int] == path@);
                    assert(self@.to_set().insert(path@) =~= self@.to_set());
                }
                return;
            }
            i = i + 1;
        }
        let ghost before = self@;
        self.paths.push(path.to_owned());
        proof {
            assert(self@ =~= before.push(path@));
            assert(!before.contains(path@));
            assert(self@.to_set() =~= before.to_set().insert(path@));
        }
    }

    /// Takes the held paths, leaving none.
    pub fn drain(&mut self) -> (r: Vec<String>)
        ensures
            r@.map_values(|p: String| p@) == old(self)@,
            final(self)@ == Seq::<Seq<char>>::empty(),
            final(self).wf(),
    {
        let mut out: Vec<String> = Vec::new();
        std::mem::swap(&mut out, &mut self.paths);
        proof {
            assert(self@ =~= Seq::<Seq<char>>::empty());
        }
        out
    }
}

} // verus!
