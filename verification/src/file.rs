//! Flags of an open request and what opening a file does with them.
use vstd::prelude::*;

verus! {

/// Flags of an open request, as a bit set.
#[derive(Clone, Copy, PartialEq, Eq, Structural, Debug)]
pub struct OpenFlags(pub u32);

/// Read only: no bit set.
pub const O_RDONLY: u32 = 0;
/// Write only.
pub const O_WRONLY: u32 = 1;
/// Read and write.
pub const O_RDWR: u32 = 2;
/// Create the file when it does not exist, else empty it.
pub const O_CREATE: u32 = 0x200;
/// Empty the file.
pub const O_TRUNC: u32 = 0x400;
/// Every defined flag.
pub const O_ALL: u32 = 0x603;

impl OpenFlags {
    /// The flags of `bits`, or `None` when a bit is set that names no flag.
    pub fn from_bits(bits: u32) -> (r: Option<OpenFlags>)
        ensures
            r == (if bits & !O_ALL == 0 { Some(OpenFlags(bits)) } else { None }),
    {
        if bits & !O_ALL == 0 {
            Some(OpenFlags(bits))
        } else {
            None
        }
    }

    /// Whether every flag of `other` is set.
    pub fn contains(&self, other: u32) -> (r: bool)
        ensures
            r == (self.0 & other == other),
    {
        self.0 & other == other
    }

    /// Whether no flag is set.
    pub fn is_empty(&self) -> (r: bool)
        ensures
            r == (self.0 == 0),
    {
        self.0 == 0
    }

    /// Whether the file opens readable and writable: no flag reads only, a
    /// write-only flag writes only, anything else reads and writes.
    pub fn read_write(&self) -> (r: (bool, bool))
        ensures
            r == (if self.0 == 0 {
                (true, false)
            } else if self.0 & O_WRONLY == O_WRONLY {
                (false, true)
            } else {
                (true, true)
            }),
    {
        if self.is_empty() {
            (true, false)
        } else if self.contains(O_WRONLY) {
            (false, true)
        } else {
            (true, true)
        }
    }
}

/// What opening a path does.
#[derive(Clone, Copy, PartialEq, Eq, Structural, Debug)]
pub enum OpenPlan {
    /// Open the existing file, emptying it first when `clear` is set.
    Existing { clear: bool },
    /// Create the file.
    Create,
    /// Fail: the file does not exist and may not be created.
    Fail,
}

/// What opening a path with `flags` does, given whether the file exists:
/// with the create flag an existing file is emptied and a missing one is
/// created; without it an existing file is opened, emptied when the
/// truncate flag is set, and a missing one makes the open fail.
pub fn open_plan(flags: OpenFlags, exists: bool) -> (r: OpenPlan)
    ensures
        r == (if flags.0 & O_CREATE == O_CREATE {
            if exists { OpenPlan::Existing { clear: true } } else { OpenPlan::Create }
        } else if exists {
            OpenPlan::Existing { clear: flags.0 & O_TRUNC == O_TRUNC }
        } else {
            OpenPlan::Fail
        }),
{
    if flags.contains(O_CREATE) {
        if exists {
            OpenPlan::Existing { clear: true }
        } else {
            OpenPlan::Create
        }
    } else if exists {
        OpenPlan::Existing { clear: flags.contains(O_TRUNC) }
    } else {
        OpenPlan::Fail
    }
}

} // verus!
