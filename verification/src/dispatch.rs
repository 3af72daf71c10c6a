//! The protocol dispatcher's bookkeeping: the translation state each raw
//! transport request consults between arriving and being answered.
//!
//! A mounted filesystem instance operates in one of two modes, selected
//! once. In managed mode the dispatcher owns all inode identity: it resolves
//! every inode the transport names to a path before invoking the
//! implementer, registers every successful name resolution in the inode
//! table, and routes forgets straight to the table's lookup-count
//! adjustment. In raw mode the implementer owns inode identity: the
//! dispatcher performs no table operations and passes inode numbers through
//! unchanged.
//!
//! The functions here are the decisions and the table bookkeeping; the
//! surrounding loop — receiving a raw request, invoking the implementer
//! operation, sending the answer — is transport plumbing and stays outside
//! the core.

use vstd::prelude::*;
use crate::inode_table::{
    allocate_ensures, entry_of, find_live, forget_ensures, inode_exists, is_initial_table,
    rename_ensures, table_wf, unlink_ensures, Inode, InodeTable, TableView,
};
use crate::resolve::{path_of, resolve};
use crate::types::{DirectoryEntry, FileType, EIO, ENOENT};

verus! {

/// Operating mode of a mounted filesystem instance, selected once per
/// mount.
#[derive(Clone, Copy, Debug, PartialEq, Eq, Structural)]
pub enum Mode {
    /// The dispatcher owns inode identity: implementer operations are
    /// invoked with paths, never raw inode numbers.
    Managed,
    /// The implementer owns inode identity and itself implements lookup,
    /// forget and parent-inode resolution.
    Raw,
}

/// A directory entry annotated with the inode number the transport should
/// see, `0` when the table holds no live binding for the name.
#[derive(Clone, Debug)]
pub struct NumberedDirEntry {
    /// Inode number of the entry, or 0 when none is known.
    pub ino: u64,
    /// Name of the entry.
    pub name: String,
    /// Kind of file.
    pub kind: FileType,
}

/// The mathematical state of a [`Dispatcher`]: its mode and the state of
/// its inode table.
pub ghost struct DispatcherView {
    /// The selected operating mode.
    pub mode: Mode,
    /// The inode table's state.
    pub table: TableView,
}

/// The per-mount translation state: the inode table and the mode that
/// decides whether it is consulted. One dispatcher serves all of a mount's
/// concurrent requests; each method is a single atomic step against the
/// table.
pub struct Dispatcher {
    mode: Mode,
    table: InodeTable,
}

impl View for Dispatcher {
    type V = DispatcherView;

    closed spec fn view(&self) -> DispatcherView {
        DispatcherView { mode: self.mode, table: self.table@ }
    }
}

/// Well-formedness of a dispatcher: its table is well-formed.
pub open spec fn dispatcher_wf(v: DispatcherView) -> bool {
    table_wf(v.table)
}

impl Dispatcher {
    /// Mount-time setup: a fresh table holding only the root, and the mode
    /// the filesystem instance was mounted with.
    pub fn new(mode: Mode) -> (r: Dispatcher)
        ensures
            dispatcher_wf(r@),
            r@.mode == mode,
            is_initial_table(r@.table),
    {
        Dispatcher { mode, table: InodeTable::new() }
    }

    /// The mode this instance operates in.
    pub fn mode(&self) -> (m: Mode)
        ensures
            m == self@.mode,
    {
        self.mode
    }

    /// Managed-mode translation of an inode number to the canonical path
    /// the implementer is invoked with. Fails with `ENOENT` when the inode
    /// is unknown or its ancestry chain is broken.
    pub fn path_for(&self, ino: Inode) -> (r: Result<String, i32>)
        requires
            self@.mode == Mode::Managed,
        ensures
            match r {
                Ok(p) => path_of(self@.table.slots, ino) == Some(p@),
                Err(e) => e == ENOENT && path_of(self@.table.slots, ino) is None,
            },
    {
        resolve(&self.table, ino)
    }

    /// Managed-mode bookkeeping after the implementer succeeded at a
    /// name-resolution operation (lookup, mkdir, create, mknod, symlink,
    /// link): register the (parent, name) binding in the table and return
    /// the inode number and generation the transport should see.
    pub fn register_entry(&mut self, parent: Inode, name: String, kind: FileType) -> (r: Result<
        (Inode, u64),
        i32,
    >)
        requires
            old(self)@.mode == Mode::Managed,
            dispatcher_wf(old(self)@),
        ensures
            dispatcher_wf(final(self)@),
            final(self)@.mode == old(self)@.mode,
            match r {
                Ok((ino, generation)) => {
                    &&& allocate_ensures(
                        old(self)@.table,
                        final(self)@.table,
                        parent,
                        name@,
                        kind,
                        Ok(ino),
                    )
                    &&& inode_exists(final(self)@.table.slots, ino)
                    &&& generation == entry_of(final(self)@.table.slots[ino as int]).generation
                },
                Err(e) => allocate_ensures(
                    old(self)@.table,
                    final(self)@.table,
                    parent,
                    name@,
                    kind,
                    Err(e),
                ),
            },
    {
        let ghost nm = name@;
        match self.table.allocate(parent, name, kind) {
            Err(e) => Err(e),
            Ok(ino) => {
                proof {
                    let pre = old(self)@.table;
                    match find_live(pre.slots, parent, nm) {
                        Some(i) => {
                            crate::inode_table::lemma_find_live_from_some(
                                pre.slots,
                                parent,
                                nm,
                                2,
                                i,
                            );
                        },
                        None => {
                            if pre.free_list.len() > 0 && !crate::inode_table::on_ancestry(
                                pre.slots,
                                parent,
                                pre.free_list.last() as int,
                                pre.slots.len(),
                            ) {
                                assert(pre.free_list[pre.free_list.len() - 1] == ino);
                                assert(2 <= pre.free_list[pre.free_list.len() - 1]
                                    < pre.slots.len());
                            }
                        },
                    }
                }
                match self.table.entry(ino) {
                    Ok((_parent, _name, _kind, generation)) => Ok((ino, generation)),
                    Err(_) => {
                        proof {
                            assert(false);
                        }
                        Err(EIO)
                    },
                }
            },
        }
    }

    /// Route a forget from the transport. In managed mode it goes straight
    /// to the table's lookup-count adjustment; in raw mode the dispatcher
    /// touches nothing and the caller passes the forget through to the
    /// implementer unchanged.
    pub fn forget_inode(&mut self, ino: Inode, nlookup: u64) -> (r: Result<(), i32>)
        requires
            dispatcher_wf(old(self)@),
        ensures
            dispatcher_wf(final(self)@),
            final(self)@.mode == old(self)@.mode,
            match old(self)@.mode {
                Mode::Managed => forget_ensures(
                    old(self)@.table,
                    final(self)@.table,
                    ino,
                    nlookup,
                    r,
                ),
                Mode::Raw => final(self)@.table == old(self)@.table && r == Ok::<(), i32>(()),
            },
    {
        match self.mode {
            Mode::Managed => self.table.lookup_count_adjust(ino, nlookup),
            Mode::Raw => Ok(()),
        }
    }

    /// Managed-mode bookkeeping after the implementer succeeded at removing
    /// a name (unlink or rmdir): drop the (parent, name) binding from the
    /// table. An entry the transport still holds references to survives,
    /// unlinked, until its forget arrives; one without references is
    /// destroyed at once.
    pub fn remove_entry(&mut self, parent: Inode, name: &String) -> (r: Result<(), i32>)
        requires
            old(self)@.mode == Mode::Managed,
            dispatcher_wf(old(self)@),
        ensures
            dispatcher_wf(final(self)@),
            final(self)@.mode == old(self)@.mode,
            unlink_ensures(old(self)@.table, final(self)@.table, parent, name@, r),
    {
        self.table.unlink(parent, name)
    }

    /// Managed-mode bookkeeping after the implementer succeeded at a
    /// rename: rebind the entry atomically, overwriting a prior occupant of
    /// the destination name under the same rules as an explicit unlink.
    pub fn rename_entry(
        &mut self,
        parent: Inode,
        name: &String,
        newparent: Inode,
        newname: String,
    ) -> (r: Result<(), i32>)
        requires
            old(self)@.mode == Mode::Managed,
            dispatcher_wf(old(self)@),
        ensures
            dispatcher_wf(final(self)@),
            final(self)@.mode == old(self)@.mode,
            rename_ensures(
                old(self)@.table,
                final(self)@.table,
                parent,
                name@,
                newparent,
                newname@,
                r,
            ),
    {
        self.table.rename(parent, name, newparent, newname)
    }

    /// Managed-mode directory listing: the implementer enumerates only the
    /// directory's real children; the dispatcher supplies the synthetic "."
    /// and ".." entries, resolved to the directory's own inode and its
    /// parent's inode, and annotates each real child with the table's live
    /// binding for its name (or 0 when the table holds none). Fails with
    /// `ENOENT` when the directory itself is unknown to the table.
    pub fn annotate_readdir(&self, dir: Inode, entries: &Vec<DirectoryEntry>) -> (r: Result<
        Vec<NumberedDirEntry>,
        i32,
    >)
        requires
            self@.mode == Mode::Managed,
        ensures
            match r {
                Err(e) => e == ENOENT && !inode_exists(self@.table.slots, dir),
                Ok(v) => {
                    &&& inode_exists(self@.table.slots, dir)
                    &&& v@.len() == entries@.len() + 2
                    &&& v@[0].ino == dir
                    &&& v@[0].name@ == "."@
                    &&& v@[0].kind == FileType::Directory
                    &&& v@[1].ino == entry_of(self@.table.slots[dir as int]).parent
                    &&& v@[1].name@ == ".."@
                    &&& v@[1].kind == FileType::Directory
                    &&& forall|i: int|
                        2 <= i < v@.len() ==> {
                            &&& (#[trigger] v@[i]).name@ == entries@[i - 2].name@
                            &&& v@[i].kind == entries@[i - 2].kind
                            &&& v@[i].ino == match find_live(
                                self@.table.slots,
                                dir,
                                entries@[i - 2].name@,
                            ) {
                                Some(j) => j as u64,
                                None => 0u64,
                            }
                        }
                },
            },
    {
        let parent = match self.table.entry(dir) {
            Err(e) => {
                return Err(ENOENT);
            },
            Ok((parent, _name, _kind, _generation)) => parent,
        };
        let mut out: Vec<NumberedDirEntry> = Vec::new();
        out.push(NumberedDirEntry { ino: dir, name: ".".to_owned(), kind: FileType::Directory });
        out.push(
            NumberedDirEntry { ino: parent, name: "..".to_owned(), kind: FileType::Directory },
        );
        let mut idx: usize = 0;
        while idx < entries.len()
            invariant
                idx <= entries@.len(),
                out@.len() == idx + 2,
                out@[0].ino == dir,
                out@[0].name@ == "."@,
                out@[0].kind == FileType::Directory,
                out@[1].ino == entry_of(self@.table.slots[dir as int]).parent,
                out@[1].name@ == ".."@,
                out@[1].kind == FileType::Directory,
                inode_exists(self@.table.slots, dir),
                parent == entry_of(self@.table.slots[dir as int]).parent,
                forall|i: int|
                    2 <= i < out@.len() ==> {
                        &&& (#[trigger] out@[i]).name@ == entries@[i - 2].name@
                        &&& out@[i].kind == entries@[i - 2].kind
                        &&& out@[i].ino == match find_live(
                            self@.table.slots,
                            dir,
                            entries@[i - 2].name@,
                        ) {
                            Some(j) => j as u64,
                            None => 0u64,
                        }
                    },
            decreases entries@.len() - idx,
        {
            let name = entries[idx].name.clone();
            let kind = entries[idx].kind;
            let ino = match self.table.find_binding(dir, &name) {
                Some(j) => j,
                None => 0,
            };
            out.push(NumberedDirEntry { ino, name, kind });
            idx = idx + 1;
        }
        Ok(out)
    }
}

} // verus!
