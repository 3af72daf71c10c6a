//! Plain value records carried between the transport, the dispatcher and the
//! filesystem implementer: request context, file attributes, directory
//! entries, filesystem statistics, and the POSIX-style numeric error codes
//! that every failed operation reports.

use vstd::prelude::*;

verus! {

/// "No such file or directory": an inode or path component is absent from
/// the table, or a parent link along an ancestry chain is broken.
pub const ENOENT: i32 = 2;

/// "I/O error": the generic code an unexpected fault inside a single
/// implementer operation is converted to at the dispatcher boundary.
pub const EIO: i32 = 5;

/// "Invalid argument": a protocol violation from the transport, such as a
/// forget carrying a count larger than the live lookup count.
pub const EINVAL: i32 = 22;

/// "Function not implemented": the default response for any operation the
/// implementer did not provide.
pub const ENOSYS: i32 = 38;

/// Info about a request: opaque context threaded through every operation,
/// not interpreted by the core.
#[derive(Clone, Copy, Debug)]
pub struct RequestInfo {
    /// The unique ID assigned to this request by the transport.
    pub unique: u64,
    /// The user ID of the process making the request.
    pub uid: u32,
    /// The group ID of the process making the request.
    pub gid: u32,
    /// The process ID of the process making the request.
    pub pid: u32,
}

/// Kind of a filesystem entry (directory, regular file, pipe, etc.).
#[derive(Clone, Copy, Debug, PartialEq, Eq, Structural)]
pub enum FileType {
    /// Named pipe (FIFO)
    NamedPipe,
    /// Character device
    CharDevice,
    /// Block device
    BlockDevice,
    /// Directory
    Directory,
    /// Regular file
    RegularFile,
    /// Symbolic link
    Symlink,
    /// Unix domain socket
    Socket,
}

/// A point in time, as seconds and nanoseconds since the Unix epoch.
/// Timestamps are opaque to the core: they are produced by the implementer
/// and handed through to the transport unchanged.
#[derive(Clone, Copy, Debug, PartialEq, Eq, Structural)]
pub struct TimeSpec {
    /// Whole seconds since the Unix epoch (may be negative).
    pub sec: i64,
    /// Nanoseconds within the second.
    pub nsec: u32,
}

/// A cache time-to-live: how long the transport may treat returned metadata
/// as valid without re-querying. Honestly produced by the implementer per
/// call; the dispatcher never invents or overrides one.
#[derive(Clone, Copy, Debug, PartialEq, Eq, Structural)]
pub struct Ttl {
    /// Whole seconds of the duration.
    pub secs: u64,
    /// Nanoseconds within the second.
    pub nanos: u32,
}

/// A directory entry.
#[derive(Clone, Debug)]
pub struct DirectoryEntry {
    /// Name of the entry.
    pub name: String,
    /// Kind of file (directory, file, pipe, etc.).
    pub kind: FileType,
}

/// Filesystem statistics.
#[derive(Clone, Copy, Debug)]
pub struct Statfs {
    /// Total data blocks in the filesystem
    pub blocks: u64,
    /// Free blocks in filesystem
    pub bfree: u64,
    /// Free blocks available to unprivileged user
    pub bavail: u64,
    /// Total file nodes in filesystem
    pub files: u64,
    /// Free file nodes in filesystem
    pub ffree: u64,
    /// Optimal transfer block size
    pub bsize: u32,
    /// Maximum length of filenames
    pub namelen: u32,
    /// Fragment size
    pub frsize: u32,
}

/// File attributes.
#[derive(Clone, Copy, Debug)]
pub struct FileAttr {
    /// Size in bytes
    pub size: u64,
    /// Size in blocks
    pub blocks: u64,
    /// Time of last access
    pub atime: TimeSpec,
    /// Time of last modification
    pub mtime: TimeSpec,
    /// Time of last metadata change
    pub ctime: TimeSpec,
    /// Time of creation
    pub crtime: TimeSpec,
    /// Kind of file (directory, file, pipe, etc.)
    pub kind: FileType,
    /// Permissions
    pub perm: u16,
    /// Number of hard links
    pub nlink: u32,
    /// User ID
    pub uid: u32,
    /// Group ID
    pub gid: u32,
    /// Device ID (if special file)
    pub rdev: u32,
    /// Flags (see chflags(2))
    pub flags: u32,
}

/// File attributes together with the inode number and generation that
/// identify the object to the transport.
#[derive(Clone, Copy, Debug)]
pub struct RawFileAttr {
    /// Inode number.
    pub inode: u64,
    /// Generation of the inode number's slot.
    pub generation: u64,
    /// The attributes themselves.
    pub attr: FileAttr,
}

impl FileAttr {
    /// Convert this `FileAttr` instance to an instance of `RawFileAttr`
    /// by adding an inode and its generation.
    pub fn as_raw(self, inode: u64, generation: u64) -> (r: RawFileAttr)
        ensures
            r.inode == inode,
            r.generation == generation,
            r.attr == self,
    {
        RawFileAttr { inode, generation, attr: self }
    }
}

impl From<RawFileAttr> for FileAttr {
    fn from(value: RawFileAttr) -> (r: Self)
        ensures
            r == value.attr,
    {
        value.attr
    }
}

impl vstd::std_specs::convert::FromSpecImpl<RawFileAttr> for FileAttr {
    open spec fn obeys_from_spec() -> bool {
        true
    }

    open spec fn from_spec(value: RawFileAttr) -> Self {
        value.attr
    }
}

/// The return value for `create`: info on the newly-created file, as well as
/// a handle to the opened file.
#[derive(Clone, Debug)]
pub struct CreatedEntry<Attr = FileAttr> where Attr: Copy + Clone {
    /// How long the transport may cache the returned metadata.
    pub ttl: Ttl,
    /// Attributes of the new file.
    pub attr: Attr,
    /// Handle to the opened file.
    pub fh: u64,
    /// Flags the file was opened with.
    pub flags: u32,
}

/// The return value from the `listxattr` and `getxattr` calls, which can be
/// either a size or the data itself, depending on how they are called.
#[derive(Clone, Debug)]
pub enum Xattr {
    /// Size the attribute data would occupy.
    Size(u32),
    /// The attribute data itself.
    Data(Vec<u8>),
}

/// Extended times of an entry (backup time and creation time).
#[derive(Clone, Copy, Debug)]
pub struct XTimes {
    /// Time of last backup.
    pub bkuptime: TimeSpec,
    /// Time of creation.
    pub crtime: TimeSpec,
}

} // verus!
