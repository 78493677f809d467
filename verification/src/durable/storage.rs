//! Rules for private storage files: where they may stand, what they must be, and how large their
//! documents may get.

use vstd::prelude::*;
use vstd::utf8::encode_utf8;

use crate::path::{absolute, append_bytes, file_name_of, joined, parent_of, FilePath};
use crate::safe_file::{EntryFacts, EntryKind, SHARED_BITS};

verus! {

/// The most bytes of a registry document.
pub const MAX_REGISTRY_BYTES: usize = 1024 * 1024;

/// Why private storage cannot be used.
#[derive(Debug, PartialEq, Eq)]
pub enum StorageError {
    RelativePath { path: FilePath },
    MissingParent { path: FilePath },
    MissingFileName { path: FilePath },
    UnsafeStorage { path: FilePath, reason: &'static str },
    DocumentTooLarge { path: FilePath, maximum_bytes: usize },
    InvalidDocument { path: FilePath, message: String },
    Busy { path: FilePath },
    Io { path: FilePath, message: String },
}

/// Why an entry must not be used as a private directory.
pub open spec fn directory_reason(facts: EntryFacts) -> Option<&'static str> {
    if facts.kind != EntryKind::Directory {
        Some("directory must be a real directory, not a symlink")
    } else if facts.mode & SHARED_BITS != 0 {
        Some("directory must not grant group or other access")
    } else {
        None
    }
}

/// Why the entry at a path must not be opened as a document.
pub open spec fn entry_reason(facts: EntryFacts) -> Option<&'static str> {
    if facts.kind != EntryKind::File {
        Some("storage document must be a regular file, not a symlink")
    } else {
        None
    }
}

/// Why an opened file must not be used as a document.
pub open spec fn open_file_reason(facts: EntryFacts) -> Option<&'static str> {
    if facts.kind != EntryKind::File {
        Some("storage document must be a regular file")
    } else if facts.mode & SHARED_BITS != 0 {
        Some("storage file must not grant group or other access")
    } else if facts.links != 1 {
        Some("storage file must not have hard links")
    } else {
        None
    }
}

/// Whether a check of a path has this outcome.
pub open spec fn checked(
    path: FilePath,
    reason: Option<&'static str>,
    outcome: Result<(), StorageError>,
) -> bool {
    match reason {
        Some(reason) => outcome matches Err(StorageError::UnsafeStorage { path: shown, reason: why })
            && shown@ == path@ && why == reason,
        None => outcome is Ok,
    }
}

/// Checks a private directory.
pub fn validate_private_directory(path: &FilePath, facts: EntryFacts) -> (r: Result<(), StorageError>)
    ensures
        checked(*path, directory_reason(facts), r),
{
    if facts.kind != EntryKind::Directory {
        return Err(
            StorageError::UnsafeStorage {
                path: path.copy(),
                reason: "directory must be a real directory, not a symlink",
            },
        );
    }
    if facts.mode & SHARED_BITS != 0 {
        return Err(
            StorageError::UnsafeStorage {
                path: path.copy(),
                reason: "directory must not grant group or other access",
            },
        );
    }
    Ok(())
}

/// Checks the entry at a path before it is opened as a document.
pub fn validate_existing_file(path: &FilePath, facts: EntryFacts) -> (r: Result<(), StorageError>)
    ensures
        checked(*path, entry_reason(facts), r),
{
    if facts.kind != EntryKind::File {
        return Err(
            StorageError::UnsafeStorage {
                path: path.copy(),
                reason: "storage document must be a regular file, not a symlink",
            },
        );
    }
    Ok(())
}

/// Checks a file that was opened as a document.
pub fn validate_open_file(path: &FilePath, facts: EntryFacts) -> (r: Result<(), StorageError>)
    ensures
        checked(*path, open_file_reason(facts), r),
{
    if facts.kind != EntryKind::File {
        return Err(
            StorageError::UnsafeStorage {
                path: path.copy(),
                reason: "storage document must be a regular file",
            },
        );
    }
    if facts.mode & SHARED_BITS != 0 {
        return Err(
            StorageError::UnsafeStorage {
                path: path.copy(),
                reason: "storage file must not grant group or other access",
            },
        );
    }
    if facts.links != 1 {
        return Err(
            StorageError::UnsafeStorage {
                path: path.copy(),
                reason: "storage file must not have hard links",
            },
        );
    }
    Ok(())
}

/// Checks that a document is not too large.
pub fn check_document_size(path: &FilePath, bytes: u64, maximum_bytes: usize) -> (r: Result<
    (),
    StorageError,
>)
    ensures
        if bytes > maximum_bytes {
            r matches Err(StorageError::DocumentTooLarge { path: shown, maximum_bytes: most })
                && shown@ == path@ && most == maximum_bytes
        } else {
            r is Ok
        },
{
    if bytes > maximum_bytes as u64 {
        return Err(StorageError::DocumentTooLarge { path: path.copy(), maximum_bytes });
    }
    Ok(())
}

/// The bytes of a document as they are written: its JSON and a line feed, unless that is too large.
pub fn framed_document(path: &FilePath, json: Vec<u8>, maximum_bytes: usize) -> (r: Result<
    Vec<u8>,
    StorageError,
>)
    ensures
        if json@.len() + 1 > maximum_bytes {
            r matches Err(StorageError::DocumentTooLarge { path: shown, maximum_bytes: most })
                && shown@ == path@ && most == maximum_bytes
        } else {
            r matches Ok(bytes) && bytes@ == json@.push(10)
        },
{
    let mut bytes = json;
    bytes.push(10);
    if bytes.len() > maximum_bytes {
        return Err(StorageError::DocumentTooLarge { path: path.copy(), maximum_bytes });
    }
    Ok(bytes)
}

/// Whether a private file that is named by a path has this place: a name in a directory, given by
/// an absolute path.
pub open spec fn places(path: Seq<u8>, r: Result<FilePath, StorageError>) -> bool {
    if !absolute(path) {
        r matches Err(StorageError::RelativePath { path: shown }) && shown@ == path
    } else {
        match (parent_of(path), file_name_of(path)) {
            (None, _) => r matches Err(StorageError::MissingParent { path: shown }) && shown@
                == path,
            (Some(_), None) => r matches Err(StorageError::MissingFileName { path: shown })
                && shown@ == path,
            (Some(parent), Some(name)) => r matches Ok(found) && found@ == joined(parent, name),
        }
    }
}

/// The place of a private file, which must be named by an absolute path.
pub fn private_file_path(path: &FilePath) -> (r: Result<FilePath, StorageError>)
    ensures
        places(path@, r),
{
    if !path.is_absolute() {
        return Err(StorageError::RelativePath { path: path.copy() });
    }
    let parent = match path.parent() {
        None => {
            return Err(StorageError::MissingParent { path: path.copy() });
        },
        Some(parent) => parent,
    };
    match path.file_name() {
        None => Err(StorageError::MissingFileName { path: path.copy() }),
        Some(name) => Ok(parent.join(&name)),
    }
}

/// The path of the lock beside a document.
pub fn lock_path(path: &FilePath) -> (r: FilePath)
    ensures
        r@ == path@ + encode_utf8(".lock"@),
{
    let mut r = path.copy();
    append_bytes(&mut r.bytes, ".lock".as_bytes());
    r
}

} // verus!
