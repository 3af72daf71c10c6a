//! Tests for the plain value records and for the read operation's
//! single-use completion token.

use fuse_mt::callback::run_read;
use fuse_mt::types::{
    CreatedEntry, DirectoryEntry, FileAttr, FileType, RequestInfo, Statfs, TimeSpec, Ttl, XTimes,
    Xattr, EINVAL, EIO, ENOENT, ENOSYS,
};

fn sample_attr() -> FileAttr {
    let t = TimeSpec { sec: 1_600_000_000, nsec: 250 };
    FileAttr {
        size: 42,
        blocks: 1,
        atime: t,
        mtime: t,
        ctime: t,
        crtime: t,
        kind: FileType::RegularFile,
        perm: 0o644,
        nlink: 1,
        uid: 1000,
        gid: 1000,
        rdev: 0,
        flags: 0,
    }
}

#[test]
fn as_raw_attaches_inode_and_generation() {
    let attr = sample_attr();
    let raw = attr.as_raw(7, 3);
    assert_eq!(raw.inode, 7);
    assert_eq!(raw.generation, 3);
    assert_eq!(raw.attr.size, 42);
    assert_eq!(raw.attr.kind, FileType::RegularFile);
}

#[test]
fn raw_attr_converts_back_to_plain_attr() {
    let raw = sample_attr().as_raw(9, 1);
    let attr = FileAttr::from(raw);
    assert_eq!(attr.size, 42);
    assert_eq!(attr.perm, 0o644);
}

#[test]
fn completion_token_round_trips_data() {
    let reply = run_read(|completer| completer.complete(Ok(vec![1u8, 2, 3])));
    assert_eq!(reply, Ok(vec![1u8, 2, 3]));
}

#[test]
fn completion_token_round_trips_error() {
    let reply = run_read(|completer| completer.complete(Err(ENOSYS)));
    assert_eq!(reply, Err(ENOSYS));
}

#[test]
fn xattr_carries_size_or_data() {
    let size = Xattr::Size(16);
    assert!(matches!(size, Xattr::Size(16)));
    let data = Xattr::Data(vec![b'v']);
    match data {
        Xattr::Data(bytes) => assert_eq!(bytes, vec![b'v']),
        Xattr::Size(_) => panic!("expected data"),
    }
}

#[test]
fn records_keep_their_fields() {
    let req = RequestInfo { unique: 11, uid: 1, gid: 2, pid: 3 };
    assert_eq!(req.unique, 11);
    assert_eq!(req.pid, 3);

    let statfs = Statfs {
        blocks: 10,
        bfree: 4,
        bavail: 3,
        files: 5,
        ffree: 2,
        bsize: 512,
        namelen: 255,
        frsize: 512,
    };
    assert_eq!(statfs.bavail, 3);

    let entry = DirectoryEntry { name: "e".to_string(), kind: FileType::Symlink };
    assert_eq!(entry.name, "e");

    let created: CreatedEntry = CreatedEntry {
        ttl: Ttl { secs: 1, nanos: 0 },
        attr: sample_attr(),
        fh: 8,
        flags: 0,
    };
    assert_eq!(created.ttl, Ttl { secs: 1, nanos: 0 });
    assert_eq!(created.fh, 8);

    let times = XTimes {
        bkuptime: TimeSpec { sec: 5, nsec: 6 },
        crtime: TimeSpec { sec: 7, nsec: 8 },
    };
    assert_eq!(times.crtime, TimeSpec { sec: 7, nsec: 8 });
}

#[test]
fn error_codes_match_their_posix_values() {
    assert_eq!(ENOENT, 2);
    assert_eq!(EIO, 5);
    assert_eq!(EINVAL, 22);
    assert_eq!(ENOSYS, 38);
}
