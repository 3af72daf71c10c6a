//! Scenario tests for the inode table: allocation idempotence, forget
//! bookkeeping, generation bumps across slot reuse, unlink and rename.

use fuse_mt::inode_table::InodeTable;
use fuse_mt::resolve::resolve;
use fuse_mt::types::{FileType, EINVAL, ENOENT};

#[test]
fn allocate_twice_returns_same_inode_and_count_two() {
    let mut table = InodeTable::new();
    let a = table.allocate(1, "x".to_string(), FileType::RegularFile).unwrap();
    let b = table.allocate(1, "x".to_string(), FileType::RegularFile).unwrap();
    assert_eq!(a, b);
    assert_eq!(table.lookup_count(a).unwrap(), 2);
}

#[test]
fn lookup_count_never_negative_and_destroy_iff_zero_and_unlinked() {
    let mut table = InodeTable::new();
    let ino = table.allocate(1, "a".to_string(), FileType::RegularFile).unwrap();
    assert_eq!(table.lookup_count(ino).unwrap(), 1);
    let ino2 = table.allocate(1, "a".to_string(), FileType::RegularFile).unwrap();
    assert_eq!(ino, ino2);
    assert_eq!(table.lookup_count(ino).unwrap(), 2);

    // a forget larger than the count is rejected and changes nothing
    assert_eq!(table.lookup_count_adjust(ino, 3), Err(EINVAL));
    assert_eq!(table.lookup_count(ino).unwrap(), 2);

    // partial forget keeps the entry; the forget that reaches zero
    // destroys it, since nothing references an orphaned entry
    table.lookup_count_adjust(ino, 1).unwrap();
    assert_eq!(table.lookup_count(ino).unwrap(), 1);
    assert!(table.entry(ino).is_ok());
    table.lookup_count_adjust(ino, 1).unwrap();
    assert_eq!(table.entry(ino), Err(ENOENT));
    assert_eq!(table.find_binding(1, &"a".to_string()), None);
}

#[test]
fn forget_on_root_is_ignored() {
    let mut table = InodeTable::new();
    assert_eq!(table.lookup_count_adjust(1, 100), Ok(()));
    assert!(table.entry(1).is_ok());
}

#[test]
fn forget_unknown_inode_fails() {
    let mut table = InodeTable::new();
    assert_eq!(table.lookup_count_adjust(42, 1), Err(ENOENT));
}

#[test]
fn allocate_under_missing_parent_fails() {
    let mut table = InodeTable::new();
    assert_eq!(table.allocate(9, "x".to_string(), FileType::RegularFile), Err(ENOENT));
    assert_eq!(table.allocate(0, "x".to_string(), FileType::RegularFile), Err(ENOENT));
}

#[test]
fn generation_strictly_increases_across_reuse() {
    let mut table = InodeTable::new();
    let ino = table.allocate(1, "a".to_string(), FileType::RegularFile).unwrap();
    let (_, _, _, gen0) = table.entry(ino).unwrap();
    assert_eq!(gen0, 0);

    // fully free the slot: unlink the name, then forget the reference
    table.unlink(1, &"a".to_string()).unwrap();
    table.lookup_count_adjust(ino, 1).unwrap();
    assert_eq!(table.entry(ino), Err(ENOENT));

    // a new entry reuses the inode number with a strictly larger generation
    let reused = table.allocate(1, "b".to_string(), FileType::RegularFile).unwrap();
    assert_eq!(reused, ino);
    let (_, _, _, gen1) = table.entry(reused).unwrap();
    assert!(gen1 > gen0);
    assert_eq!(gen1, 1);
}

#[test]
fn resolve_reproduces_allocation_chain() {
    let mut table = InodeTable::new();
    assert_eq!(resolve(&table, 1).unwrap(), "/");
    let dir = table.allocate(1, "dir".to_string(), FileType::Directory).unwrap();
    assert_eq!(dir, 2);
    let file = table.allocate(dir, "file".to_string(), FileType::RegularFile).unwrap();
    assert_eq!(file, 3);
    assert_eq!(resolve(&table, dir).unwrap(), "/dir");
    assert_eq!(resolve(&table, file).unwrap(), "/dir/file");
}

#[test]
fn resolve_unknown_inode_fails() {
    let table = InodeTable::new();
    assert_eq!(resolve(&table, 7), Err(ENOENT));
}

#[test]
fn rename_rebinds_atomically() {
    let mut table = InodeTable::new();
    let dir = table.allocate(1, "d".to_string(), FileType::Directory).unwrap();
    let ino = table.allocate(dir, "a".to_string(), FileType::RegularFile).unwrap();
    assert_eq!(ino, 3);

    table.rename(dir, &"a".to_string(), 1, "b".to_string()).unwrap();
    assert_eq!(resolve(&table, ino).unwrap(), "/b");
    assert_eq!(table.find_binding(dir, &"a".to_string()), None);
    assert_eq!(table.find_binding(1, &"b".to_string()), Some(ino));
}

#[test]
fn rename_into_own_subtree_fails() {
    let mut table = InodeTable::new();
    let d = table.allocate(1, "d".to_string(), FileType::Directory).unwrap();
    let sub = table.allocate(d, "sub".to_string(), FileType::Directory).unwrap();

    // rebinding a directory under itself, or anywhere in its own subtree,
    // would make it an ancestor of its own parent: refused, table untouched
    assert_eq!(table.rename(1, &"d".to_string(), d, "c".to_string()), Err(EINVAL));
    assert_eq!(table.rename(1, &"d".to_string(), sub, "c".to_string()), Err(EINVAL));
    assert_eq!(resolve(&table, d).unwrap(), "/d");
    assert_eq!(table.find_binding(1, &"d".to_string()), Some(d));

    // moving a child out of the subtree is no cycle and succeeds
    table.rename(d, &"sub".to_string(), 1, "sub".to_string()).unwrap();
    assert_eq!(resolve(&table, sub).unwrap(), "/sub");
}

#[test]
fn rename_missing_source_fails() {
    let mut table = InodeTable::new();
    assert_eq!(table.rename(1, &"nope".to_string(), 1, "x".to_string()), Err(ENOENT));
}

#[test]
fn rename_onto_open_entry_marks_it_unlinked() {
    let mut table = InodeTable::new();
    let a = table.allocate(1, "a".to_string(), FileType::RegularFile).unwrap();
    let b = table.allocate(1, "b".to_string(), FileType::RegularFile).unwrap();

    // the destination entry still has a reference: it survives, nameless
    table.rename(1, &"a".to_string(), 1, "b".to_string()).unwrap();
    assert_eq!(table.find_binding(1, &"b".to_string()), Some(a));
    assert!(table.entry(b).is_ok());
    assert_eq!(resolve(&table, a).unwrap(), "/b");

    // its last forget destroys it
    table.lookup_count_adjust(b, 1).unwrap();
    assert_eq!(table.entry(b), Err(ENOENT));
}

#[test]
fn rename_onto_free_entry_destroys_it() {
    let mut table = InodeTable::new();
    let a = table.allocate(1, "a".to_string(), FileType::RegularFile).unwrap();
    let b = table.allocate(1, "b".to_string(), FileType::RegularFile).unwrap();
    table.lookup_count_adjust(b, 1).unwrap();

    table.rename(1, &"a".to_string(), 1, "b".to_string()).unwrap();
    assert_eq!(table.find_binding(1, &"b".to_string()), Some(a));
    assert_eq!(table.entry(b), Err(ENOENT));
}

#[test]
fn delete_while_open_keeps_entry_resolvable() {
    let mut table = InodeTable::new();
    let ino = table.allocate(1, "a".to_string(), FileType::RegularFile).unwrap();
    let again = table.allocate(1, "a".to_string(), FileType::RegularFile).unwrap();
    assert_eq!(ino, 2); // the first fresh slot after the root
    assert_eq!(again, ino);
    assert_eq!(table.lookup_count(ino).unwrap(), 2);

    table.unlink(1, &"a".to_string()).unwrap();
    // still resolvable by inode number, absent from the name index
    assert_eq!(resolve(&table, ino).unwrap(), "/a");
    assert_eq!(table.find_binding(1, &"a".to_string()), None);

    // the entry disappears only when the count reaches zero
    table.lookup_count_adjust(ino, 1).unwrap();
    assert!(table.entry(ino).is_ok());
    table.lookup_count_adjust(ino, 1).unwrap();
    assert_eq!(table.entry(ino), Err(ENOENT));
}

#[test]
fn reuse_never_grafts_a_cycle() {
    let mut table = InodeTable::new();
    let a = table.allocate(1, "a".to_string(), FileType::Directory).unwrap();
    let b = table.allocate(a, "b".to_string(), FileType::Directory).unwrap();

    // orphan b: its parent is fully forgotten and that slot freed
    table.lookup_count_adjust(a, 1).unwrap();
    assert_eq!(table.entry(a), Err(ENOENT));

    // allocating under the orphan must not reuse the freed slot sitting on
    // the orphan's own broken ancestry: a fresh number is minted instead
    let c = table.allocate(b, "c".to_string(), FileType::RegularFile).unwrap();
    assert_eq!(c, 4);
    assert_eq!(resolve(&table, c), Err(ENOENT)); // ancestry broken, never cyclic

    // the freed number stays available where no cycle threatens
    let d = table.allocate(1, "d".to_string(), FileType::RegularFile).unwrap();
    assert_eq!(d, a);
}

#[test]
fn unlink_missing_name_fails() {
    let mut table = InodeTable::new();
    assert_eq!(table.unlink(1, &"ghost".to_string()), Err(ENOENT));
}

#[test]
fn rmdir_behaves_like_unlink() {
    let mut table = InodeTable::new();
    let dir = table.allocate(1, "d".to_string(), FileType::Directory).unwrap();
    table.rmdir(1, &"d".to_string()).unwrap();
    assert!(table.entry(dir).is_ok());
    assert_eq!(table.find_binding(1, &"d".to_string()), None);
    table.lookup_count_adjust(dir, 1).unwrap();
    assert_eq!(table.entry(dir), Err(ENOENT));
}

#[test]
fn root_entry_always_exists() {
    let table = InodeTable::new();
    let (parent, name, kind, generation) = table.entry(1).unwrap();
    assert_eq!(parent, 1);
    assert_eq!(name, "");
    assert_eq!(kind, FileType::Directory);
    assert_eq!(generation, 0);
    assert_eq!(table.slot_count(), 2);
}
