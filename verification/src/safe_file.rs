//! What a file or a directory must be before private data is read from it or written to it.

use vstd::prelude::*;

verus! {

/// The mode bits that concern the group and others.
pub const SHARED_BITS: u32 = 0o077;

/// The mode bits that count for a private file.
pub const MODE_BITS: u32 = 0o7777;

/// The mode of a private file.
pub const PRIVATE_FILE_MODE: u32 = 0o600;

/// The mode of a private directory.
pub const PRIVATE_DIRECTORY_MODE: u32 = 0o700;

/// What stands at a path. A symbolic link is not followed.
#[derive(Clone, Copy, Debug, PartialEq, Eq, Structural)]
pub enum EntryKind {
    File,
    Directory,
    Symlink,
    Other,
}

/// What the file system says of an entry.
#[derive(Clone, Copy, Debug, PartialEq, Eq, Structural)]
pub struct EntryFacts {
    pub kind: EntryKind,
    pub owner: u32,
    pub links: u64,
    pub mode: u32,
}

/// Why an entry must not be used.
#[derive(Clone, Copy, Debug, PartialEq, Eq, Structural)]
pub enum UnsafeEntry {
    NotAFile,
    NotADirectory,
    ForeignOwner,
    HardLinks,
    FileMode,
    SharedAccess,
    LockDisappeared,
    NoParent,
}

impl UnsafeEntry {
    /// The reason in words.
    pub fn reason(self) -> (r: &'static str)
        ensures
            r == (match self {
                UnsafeEntry::NotAFile => "must be a regular file",
                UnsafeEntry::NotADirectory => "must be a real directory",
                UnsafeEntry::ForeignOwner => "must be owned by the current user",
                UnsafeEntry::HardLinks => "must not have hard links",
                UnsafeEntry::FileMode => "must have mode 0600",
                UnsafeEntry::SharedAccess => "must not grant group or other access",
                UnsafeEntry::LockDisappeared => "lock disappeared while opening",
                UnsafeEntry::NoParent => "file has no parent",
            }),
    {
        match self {
            UnsafeEntry::NotAFile => "must be a regular file",
            UnsafeEntry::NotADirectory => "must be a real directory",
            UnsafeEntry::ForeignOwner => "must be owned by the current user",
            UnsafeEntry::HardLinks => "must not have hard links",
            UnsafeEntry::FileMode => "must have mode 0600",
            UnsafeEntry::SharedAccess => "must not grant group or other access",
            UnsafeEntry::LockDisappeared => "lock disappeared while opening",
            UnsafeEntry::NoParent => "file has no parent",
        }
    }
}

/// Why a file must not hold private data: it is a regular file of the user with one name, and
/// nobody else can touch it.
pub open spec fn file_fault(facts: EntryFacts, user: u32) -> Option<UnsafeEntry> {
    if facts.kind != EntryKind::File {
        Some(UnsafeEntry::NotAFile)
    } else if facts.owner != user {
        Some(UnsafeEntry::ForeignOwner)
    } else if facts.links != 1 {
        Some(UnsafeEntry::HardLinks)
    } else if facts.mode & MODE_BITS != PRIVATE_FILE_MODE {
        Some(UnsafeEntry::FileMode)
    } else {
        None
    }
}

/// Whether this says if a file is private.
pub open spec fn checks_file(
    facts: EntryFacts,
    user: u32,
    r: Result<(), UnsafeEntry>,
) -> bool {
    r == (match file_fault(facts, user) {
        Some(fault) => Err::<(), UnsafeEntry>(fault),
        None => Ok(()),
    })
}

/// Checks that a file may hold private data.
pub fn validate_private_file(facts: EntryFacts, user: u32) -> (r: Result<(), UnsafeEntry>)
    ensures
        checks_file(facts, user, r),
{
    if facts.kind != EntryKind::File {
        Err(UnsafeEntry::NotAFile)
    } else if facts.owner != user {
        Err(UnsafeEntry::ForeignOwner)
    } else if facts.links != 1 {
        Err(UnsafeEntry::HardLinks)
    } else if facts.mode & MODE_BITS != PRIVATE_FILE_MODE {
        Err(UnsafeEntry::FileMode)
    } else {
        Ok(())
    }
}

/// Checks that a file can be read as one.
pub fn validate_regular_file(facts: EntryFacts) -> (r: Result<(), UnsafeEntry>)
    ensures
        r == (if facts.kind == EntryKind::File {
            Ok::<(), UnsafeEntry>(())
        } else {
            Err(UnsafeEntry::NotAFile)
        }),
{
    if facts.kind == EntryKind::File {
        Ok(())
    } else {
        Err(UnsafeEntry::NotAFile)
    }
}

/// Whether this says if a directory is the user's.
pub open spec fn checks_directory(
    facts: EntryFacts,
    user: u32,
    r: Result<(), UnsafeEntry>,
) -> bool {
    r == (if facts.kind != EntryKind::Directory {
        Err::<(), UnsafeEntry>(UnsafeEntry::NotADirectory)
    } else if facts.owner != user {
        Err(UnsafeEntry::ForeignOwner)
    } else {
        Ok(())
    })
}

/// Checks a directory that is to be made private: a real one of the user.
pub fn validate_directory(facts: EntryFacts, user: u32) -> (r: Result<(), UnsafeEntry>)
    ensures
        checks_directory(facts, user, r),
{
    if facts.kind != EntryKind::Directory {
        Err(UnsafeEntry::NotADirectory)
    } else if facts.owner != user {
        Err(UnsafeEntry::ForeignOwner)
    } else {
        Ok(())
    }
}

/// Whether this says if a private directory is there.
pub open spec fn finds_directory(
    found: Option<EntryFacts>,
    user: u32,
    r: Result<bool, UnsafeEntry>,
) -> bool {
    r == (match found {
        None => Ok::<bool, UnsafeEntry>(false),
        Some(facts) => if facts.kind != EntryKind::Directory {
            Err(UnsafeEntry::NotADirectory)
        } else if facts.owner != user {
            Err(UnsafeEntry::ForeignOwner)
        } else if facts.mode & SHARED_BITS != 0 {
            Err(UnsafeEntry::SharedAccess)
        } else {
            Ok(true)
        },
    })
}

/// Whether there is a private directory: nothing at all is none, anything else must be a real
/// directory of the user that nobody else can use.
pub fn private_directory_exists(found: Option<EntryFacts>, user: u32) -> (r: Result<bool, UnsafeEntry>)
    ensures
        finds_directory(found, user, r),
{
    match found {
        None => Ok(false),
        Some(facts) => match validate_directory(facts, user) {
            Ok(()) => {
                if facts.mode & SHARED_BITS != 0 {
                    Err(UnsafeEntry::SharedAccess)
                } else {
                    Ok(true)
                }
            },
            Err(fault) => Err(fault),
        },
    }
}

/// What to do to get hold of a lock file.
#[derive(Clone, Copy, Debug, PartialEq, Eq, Structural)]
pub enum LockStep {
    /// The file that is there is to be opened.
    Open,
    /// It is to be created.
    Create,
    /// It was opened or created and is to be locked.
    Lock,
}

/// Whether this is the next step to a lock.
pub open spec fn steps_lock(
    step: LockStep,
    found: bool,
    created: Option<bool>,
    r: Result<LockStep, UnsafeEntry>,
) -> bool {
    r == (match (step, created) {
        (LockStep::Lock, _) => Ok::<LockStep, UnsafeEntry>(LockStep::Lock),
        (LockStep::Open, None) => Ok(
            if found {
                LockStep::Lock
            } else {
                LockStep::Create
            },
        ),
        (LockStep::Open, Some(_)) => if found {
            Ok(LockStep::Lock)
        } else {
            Err(UnsafeEntry::LockDisappeared)
        },
        (LockStep::Create, Some(true)) => Ok(LockStep::Lock),
        (LockStep::Create, _) => Ok(LockStep::Open),
    })
}

/// What to do next to get hold of a lock file: it is opened; where it is not there it is created;
/// where somebody else was faster it is opened again; if it is gone by then the attempt fails.
pub fn next_lock_step(step: LockStep, found: bool, created: Option<bool>) -> (r: Result<
    LockStep,
    UnsafeEntry,
>)
    ensures
        steps_lock(step, found, created, r),
{
    match (step, created) {
        (LockStep::Lock, _) => Ok(LockStep::Lock),
        (LockStep::Open, None) => {
            if found {
                Ok(LockStep::Lock)
            } else {
                Ok(LockStep::Create)
            }
        },
        (LockStep::Open, Some(_)) => {
            if found {
                Ok(LockStep::Lock)
            } else {
                Err(UnsafeEntry::LockDisappeared)
            }
        },
        (LockStep::Create, Some(true)) => Ok(LockStep::Lock),
        (LockStep::Create, _) => Ok(LockStep::Open),
    }
}

/// A file that may hold private data can be read and written by its owner alone.
pub proof fn law_private_files_are_not_shared(facts: EntryFacts, user: u32)
    requires
        file_fault(facts, user) is None,
    ensures
        facts.mode & SHARED_BITS == 0,
        facts.owner == user,
        facts.links == 1,
{
    let mode = facts.mode;
    assert(mode & 0o077 == 0) by (bit_vector)
        requires
            mode & 0o7777 == 0o600,
    ;
}

} // verus!
