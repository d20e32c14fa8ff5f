//! Organizes a directory of music files.
//!
//! The library holds the logic of the tool: collecting the files nested in
//! subfolders of a scanned directory, planning their extraction to the root,
//! and deciding how a root-level file is renamed from its embedded tag
//! metadata to the form `Title - Artist.ext`.  The surrounding binary scans
//! the filesystem, reads each file's tag block, hands both in as plain
//! values, and carries out the copies, deletions and renames that a plan or
//! a decision calls for.

pub mod collect;
pub mod extract;
pub mod fs_tree;
pub mod rename;
pub mod text;
