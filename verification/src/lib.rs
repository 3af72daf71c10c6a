//! A translation and lifecycle-management layer between a kernel-facing
//! filesystem transport, which names objects by opaque 64-bit inode numbers,
//! and an implementer-facing API that speaks in hierarchical paths.
//!
//! The heart of the crate is the inode table: a bidirectional store mapping
//! inode numbers to (parent, name) locations, tracking the reference counts
//! mandated by the transport's lookup/forget protocol and the generation
//! numbers that distinguish successive occupants of a reused inode number.
//! Around it stand the path resolver, which rebuilds canonical paths by
//! walking parent links, the dispatch helpers that perform the managed-mode
//! bookkeeping for each transport request, and the single-use completion
//! token used by the read operation.

pub mod callback;
pub mod dispatch;
pub mod inode_table;
pub mod laws;
pub mod resolve;
pub mod types;

pub use callback::run_read;
pub use callback::CallbackResult;
pub use callback::ReadCompleter;
pub use dispatch::Dispatcher;
pub use dispatch::Mode;
pub use dispatch::NumberedDirEntry;

pub use inode_table::Inode;
pub use inode_table::InodeTable;
pub use inode_table::ROOT_INODE;
pub use types::CreatedEntry;
pub use types::DirectoryEntry;
pub use types::FileAttr;
pub use types::FileType;
pub use types::RawFileAttr;
pub use types::RequestInfo;
pub use types::Statfs;
pub use types::TimeSpec;
pub use types::Ttl;
pub use types::XTimes;
pub use types::Xattr;
