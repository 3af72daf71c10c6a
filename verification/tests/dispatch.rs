//! End-to-end scenario tests for the dispatcher: managed-mode lookup and
//! forget bookkeeping, directory-listing annotation with the synthetic "."
//! and ".." entries, and raw-mode pass-through.

use fuse_mt::dispatch::{Dispatcher, Mode};
use fuse_mt::types::{DirectoryEntry, FileType, ENOENT};

#[test]
fn managed_mount_end_to_end() {
    let mut fs = Dispatcher::new(Mode::Managed);
    assert_eq!(fs.mode(), Mode::Managed);
    assert_eq!(fs.path_for(1).unwrap(), "/");

    // a successful lookup of "hello.txt" under the root registers inode 2
    let (ino, generation) = fs
        .register_entry(1, "hello.txt".to_string(), FileType::RegularFile)
        .unwrap();
    assert_eq!(ino, 2);
    assert_eq!(generation, 0);
    assert_eq!(fs.path_for(ino).unwrap(), "/hello.txt");

    // listing the root shows "." and ".." resolved to the root itself,
    // then the implementer's real children with their table bindings
    let children = vec![DirectoryEntry { name: "hello.txt".to_string(), kind: FileType::RegularFile }];
    let listing = fs.annotate_readdir(1, &children).unwrap();
    assert_eq!(listing.len(), 3);
    assert_eq!(listing[0].name, ".");
    assert_eq!(listing[0].ino, 1);
    assert_eq!(listing[0].kind, FileType::Directory);
    assert_eq!(listing[1].name, "..");
    assert_eq!(listing[1].ino, 1);
    assert_eq!(listing[1].kind, FileType::Directory);
    assert_eq!(listing[2].name, "hello.txt");
    assert_eq!(listing[2].ino, 2);
    assert_eq!(listing[2].kind, FileType::RegularFile);

    // the forget removes the entry
    fs.forget_inode(ino, 1).unwrap();
    assert_eq!(fs.path_for(ino), Err(ENOENT));

    // an identical allocation reuses the number with a bumped generation
    let (ino2, generation2) = fs
        .register_entry(1, "hello.txt".to_string(), FileType::RegularFile)
        .unwrap();
    assert_eq!(ino2, 2);
    assert_eq!(generation2, 1);
}

#[test]
fn annotate_readdir_unknown_directory_fails() {
    let fs = Dispatcher::new(Mode::Managed);
    let listing = fs.annotate_readdir(5, &Vec::new());
    assert_eq!(listing.err(), Some(ENOENT));
}

#[test]
fn annotate_readdir_unbound_child_gets_inode_zero() {
    let fs = Dispatcher::new(Mode::Managed);
    let children = vec![DirectoryEntry { name: "new".to_string(), kind: FileType::RegularFile }];
    let listing = fs.annotate_readdir(1, &children).unwrap();
    assert_eq!(listing[2].ino, 0);
    assert_eq!(listing[2].name, "new");
}

#[test]
fn dotdot_names_the_parent_directory() {
    let mut fs = Dispatcher::new(Mode::Managed);
    let (dir, _) = fs.register_entry(1, "sub".to_string(), FileType::Directory).unwrap();
    let listing = fs.annotate_readdir(dir, &Vec::new()).unwrap();
    assert_eq!(listing.len(), 2);
    assert_eq!(listing[0].name, ".");
    assert_eq!(listing[0].ino, dir);
    assert_eq!(listing[1].name, "..");
    assert_eq!(listing[1].ino, 1);
}

#[test]
fn managed_rename_and_remove_flow() {
    let mut fs = Dispatcher::new(Mode::Managed);
    let (a, _) = fs.register_entry(1, "a".to_string(), FileType::RegularFile).unwrap();

    fs.rename_entry(1, &"a".to_string(), 1, "b".to_string()).unwrap();
    assert_eq!(fs.path_for(a).unwrap(), "/b");

    fs.remove_entry(1, &"b".to_string()).unwrap();
    // the reference is still outstanding: the inode keeps resolving
    assert_eq!(fs.path_for(a).unwrap(), "/b");
    // the forget destroys it
    fs.forget_inode(a, 1).unwrap();
    assert_eq!(fs.path_for(a), Err(ENOENT));
}

#[test]
fn raw_mode_forget_touches_no_table_state() {
    let mut fs = Dispatcher::new(Mode::Raw);
    assert_eq!(fs.mode(), Mode::Raw);
    // the implementer owns inode identity: the dispatcher accepts the
    // forget without consulting the table at all
    assert_eq!(fs.forget_inode(99, 3), Ok(()));
}
