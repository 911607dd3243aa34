//! The units this stage works on: in-memory codegen units, serialized units
//! with their provenance, and the scoped temporary workspace that owns every
//! blob the merge materializes on disk.

use vstd::prelude::*;

use crate::bytes::{clone_bytes, join_path, spec_join_path};
use crate::errors::{LtoError, UnsupportedOp};

verus! {

/// What a codegen unit contains; only `Regular` units may become the base of
/// a merge.
#[derive(Clone, Copy, PartialEq, Eq, Structural, Debug)]
pub enum ModuleKind {
    /// Ordinary program code.
    Regular,
    /// The synthesized allocator shim.
    Allocator,
    /// Crate metadata only.
    Metadata,
}

/// A handle to a serialized unit: the path of the object file that holds it.
pub struct ModuleBuffer {
    pub path: Vec<u8>,
}

impl ModuleBuffer {
    pub fn new(path: Vec<u8>) -> (r: ModuleBuffer)
        ensures
            r.path@ == path@,
    {
        ModuleBuffer { path }
    }

    /// Reading the raw bytes back out of the buffer is an unsupported path:
    /// this code generator folds units by handing the file to the driver, so
    /// nothing ever needs the bytes in memory.
    pub fn data(&self) -> (r: Result<Vec<u8>, LtoError>)
        ensures
            r == Err::<Vec<u8>, LtoError>(
                LtoError::Unsupported { op: UnsupportedOp::ModuleBufferData },
            ),
    {
        Err(LtoError::Unsupported { op: UnsupportedOp::ModuleBufferData })
    }
}

/// A not-yet-reparsed unit, tagged by where it came from. Only `Local` units
/// — blobs backed by a file this session wrote — can be folded today; the
/// other two provenances are accepted as inputs but rejected at merge time.
pub enum SerializedModule {
    /// Backed by a file owned by the merge's temporary workspace or by the
    /// session's own output directory.
    Local(ModuleBuffer),
    /// Still inside an upstream library archive.
    FromRlib(Vec<u8>),
    /// In a plain file that was read without decompression.
    FromUncompressedFile(Vec<u8>),
}

impl SerializedModule {
    pub open spec fn is_local(&self) -> bool {
        matches!(self, SerializedModule::Local(_))
    }

    /// The backing path of a `Local` unit.
    pub open spec fn local_path(&self) -> Seq<u8>
        recommends
            self.is_local(),
    {
        match self {
            SerializedModule::Local(buffer) => buffer.path@,
            _ => Seq::empty(),
        }
    }
}

/// Reusable output of an earlier build session: the unit's name, under which
/// its serialized form re-enters the merge.
pub struct WorkProduct {
    pub cgu_name: Vec<u8>,
}

/// A named, independently built program fragment. The native-IR context that
/// can compile this unit stays with the code generator; the merge refers to
/// the unit by its name, which is unique within one session.
pub struct ModuleCodegen {
    pub name: Vec<u8>,
    pub kind: ModuleKind,
}

/// One input to the fat-LTO merge: either a unit still in memory, or one that
/// was already serialized by an earlier stage.
pub enum FatLtoInput {
    InMemory(ModuleCodegen),
    Serialized { name: Vec<u8>, buffer: ModuleBuffer },
}

/// The scoped temporary directory of one merge: a ledger of every file
/// created inside it, and whether its backing storage has been released.
/// Files are write-once: created, then only read. The directory is released
/// only after the merged unit has been fully emitted.
pub struct MergeWorkspace {
    /// The directory's path.
    pub root: Vec<u8>,
    /// The paths of the files created inside the directory.
    pub files: Vec<Vec<u8>>,
    /// Whether the backing storage has been given up.
    pub released: bool,
}

impl MergeWorkspace {
    /// The workspace still owns its files.
    pub open spec fn live(&self) -> bool {
        !self.released
    }

    /// The workspace has created a file at this path.
    pub open spec fn has_file(&self, path: Seq<u8>) -> bool {
        exists|i: int| 0 <= i < self.files@.len() && self.files@[i]@ == path
    }

    pub fn new(root: Vec<u8>) -> (ws: MergeWorkspace)
        ensures
            ws.root@ == root@,
            ws.files@.len() == 0,
            ws.live(),
    {
        MergeWorkspace { root, files: Vec::new(), released: false }
    }

    /// Records a fresh file with the given name inside the directory and
    /// returns its path.
    pub fn create_file(&mut self, name: &Vec<u8>) -> (path: Vec<u8>)
        requires
            old(self).live(),
        ensures
            path@ == spec_join_path(old(self).root@, name@),
            final(self).root@ == old(self).root@,
            final(self).files@.len() == old(self).files@.len() + 1,
            final(self).files@.last()@ == path@,
            forall|i: int|
                0 <= i < old(self).files@.len() ==> final(self).files@[i] == old(self).files@[i],
            final(self).live(),
            final(self).has_file(path@),
    {
        let path = join_path(&self.root, name);
        let recorded = clone_bytes(&path);
        self.files.push(recorded);
        path
    }

    /// Gives the directory's storage up. Nothing may read its files after
    /// this.
    pub fn release(&mut self)
        ensures
            final(self).released,
            final(self).root@ == old(self).root@,
            final(self).files@ == old(self).files@,
    {
        self.released = true;
    }
}

} // verus!
