//! The parts of the build graph that staleness detection reads: files, their
//! modification times, and build edges.

use vstd::prelude::*;

verus! {

/// Stable handle naming a file of the graph. It indexes the graph's files and
/// the file states, so that a status is looked up without comparing names.
#[derive(Debug, Copy, Clone, PartialEq, Eq, Hash, Structural)]
pub struct FileId(pub u32);

impl FileId {
    /// The position of the file in the graph.
    pub open spec fn spec_index(self) -> int {
        self.0 as int
    }

    /// The position of the file in the graph.
    pub fn index(&self) -> (i: usize)
        ensures
            i == self.spec_index(),
    {
        self.0 as usize
    }
}

/// A file of the graph.
#[derive(Debug, Clone, PartialEq, Eq)]
pub struct File {
    /// Canonical path of the file.
    pub name: String,
}

/// The files of a build graph, each found by its `FileId`.
#[derive(Debug, Clone, PartialEq, Eq)]
pub struct Graph {
    pub files: Vec<File>,
}

impl Graph {
    /// True when `id` names a file of this graph.
    pub open spec fn contains(&self, id: FileId) -> bool {
        id.spec_index() < self.files@.len()
    }

    /// The name of the file that `id` names.
    pub open spec fn name(&self, id: FileId) -> Seq<char>
        recommends
            self.contains(id),
    {
        self.files@[id.spec_index()].name@
    }

    /// Looks up a file by its id.
    pub fn file(&self, id: FileId) -> (file: &File)
        requires
            self.contains(id),
        ensures
            *file == self.files@[id.spec_index()],
            file.name@ == self.name(id),
    {
        &self.files[id.index()]
    }
}

/// A point in time: whole seconds since the Unix epoch, and the nanoseconds
/// that follow them.
#[derive(Debug, Copy, Clone, PartialEq, Eq, Structural)]
pub struct Timestamp {
    pub secs: u64,
    pub nanos: u32,
}

impl Timestamp {
    /// Whole milliseconds since the Unix epoch.
    pub open spec fn spec_millis(self) -> nat {
        (self.secs as nat) * 1000 + (self.nanos as nat) / 1_000_000
    }

    /// Whole milliseconds since the Unix epoch.
    pub fn millis(&self) -> (ms: u128)
        ensures
            ms == self.spec_millis(),
    {
        (self.secs as u128) * 1000 + (self.nanos as u128) / 1_000_000
    }
}

/// The last observed status of a file.
#[derive(Debug, Copy, Clone, PartialEq, Eq, Structural)]
pub enum MTime {
    /// The file does not exist.
    Missing,
    /// The file exists and was last modified at the given time.
    Stamp(Timestamp),
}

/// A snapshot of file statuses, valid for one pass over the graph. A file
/// that has not been looked at yet has no status.
#[derive(Debug, Clone, PartialEq, Eq)]
pub struct FileState {
    pub stamps: Vec<Option<MTime>>,
}

impl FileState {
    /// The status recorded for `id`, if any.
    pub open spec fn status(&self, id: FileId) -> Option<MTime> {
        if id.spec_index() < self.stamps@.len() {
            self.stamps@[id.spec_index()]
        } else {
            None
        }
    }

    /// A snapshot in which no file has a status.
    pub fn new() -> (state: FileState)
        ensures
            forall|id: FileId| state.status(id) is None,
    {
        FileState { stamps: Vec::new() }
    }

    /// The status recorded for `id`, if any.
    pub fn get(&self, id: FileId) -> (mtime: Option<MTime>)
        ensures
            mtime == self.status(id),
    {
        let i = id.index();
        if i < self.stamps.len() {
            self.stamps[i]
        } else {
            None
        }
    }

    /// Records `mtime` as the status of `id`; every other status is kept.
    pub fn set(&mut self, id: FileId, mtime: MTime)
        ensures
            final(self).status(id) == Some(mtime),
            forall|other: FileId| other != id ==> final(self).status(other) == old(self).status(other),
    {
        let i = id.index();
        while self.stamps.len() <= i
            invariant
                i == id.spec_index(),
                old(self).stamps@.len() <= self.stamps@.len(),
                forall|k: int| 0 <= k < old(self).stamps@.len() ==> self.stamps@[k] == old(self).stamps@[k],
                forall|k: int| old(self).stamps@.len() <= k < self.stamps@.len() ==> self.stamps@[k] is None,
                self.stamps@.len() <= i + 1 || self.stamps@.len() == old(self).stamps@.len(),
            decreases i + 1 - self.stamps.len(),
        {
            self.stamps.push(None);
        }
        self.stamps.set(i, Some(mtime));
        assert forall|other: FileId| other != id implies self.status(other) == old(self).status(
            other,
        ) by {
            assert(other.0 != id.0);
        }
    }
}

/// An auxiliary file that holds the arguments of a command.
#[derive(Debug, Clone, PartialEq, Eq)]
pub struct RspFile {
    pub path: String,
    pub content: String,
}

/// A build edge: a command that reads its inputs and produces its outputs.
#[derive(Debug, Clone, PartialEq, Eq)]
pub struct Build {
    /// The command to execute, if the edge has one.
    pub cmdline: Option<String>,
    /// The response file that the command reads, if any.
    pub rspfile: Option<RspFile>,
    /// Inputs whose change makes the edge out of date, in manifest order.
    pub ins: Vec<FileId>,
    /// Inputs found by an earlier execution of the command, in the order in
    /// which they were reported.
    pub discovered: Vec<FileId>,
    /// Outputs of the command, in manifest order.
    pub outs: Vec<FileId>,
}

impl Build {
    /// Inputs that, if changed, invalidate the outputs.
    pub fn dirtying_ins(&self) -> (ids: &[FileId])
        ensures
            ids@ == self.ins@,
    {
        self.ins.as_slice()
    }

    /// Inputs that were discovered when the command last ran.
    pub fn discovered_ins(&self) -> (ids: &[FileId])
        ensures
            ids@ == self.discovered@,
    {
        self.discovered.as_slice()
    }

    /// Outputs of the command.
    pub fn outs(&self) -> (ids: &[FileId])
        ensures
            ids@ == self.outs@,
    {
        self.outs.as_slice()
    }

    /// The text of the command; empty where the edge has none.
    pub open spec fn spec_cmdline(&self) -> Seq<char> {
        match self.cmdline {
            Some(text) => text@,
            None => Seq::empty(),
        }
    }
}

} // verus!
