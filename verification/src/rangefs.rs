//! The filesystem driver: the name/inode catalog and the protocol callback
//! state machine.
//!
//! The driver is request-driven and owns the catalog exclusively.  Callbacks
//! that need the backing file take the outcome of that outside work (a
//! metadata probe, a positioned read) as an argument: the caller performs
//! the probe exactly when `needs_refresh` says the cached snapshot is stale,
//! hands the outcome in, and the driver decides the reply.

use vstd::prelude::*;

use crate::bytes::{read_from, read_range};
use crate::metadata::{
    FileAttr, FileKind, InodeConfig, InodeConfigView, InodeInfo, ProbeError, ProbeInfo,
    spec_attr_from_probe, spec_new_info, spec_offset, spec_outdated, spec_refreshed,
};
use crate::text::str_eq;

verus! {

/// Inode number of the synthetic root directory.
pub const ROOT_INO: u64 = 1;

/// One catalog entry: a virtual file under its resolved name.
pub struct CatalogEntry {
    pub name: String,
    pub info: InodeInfo,
}

/// Error a callback reports to the transport.
#[derive(Clone, Copy, PartialEq, Eq, Structural, Debug)]
pub enum FsError {
    /// The name or inode is not in the catalog.
    NotFound,
    /// The backing file could not be probed or read.
    Io,
    /// A specific operating-system error code, passed through.
    Os(i32),
}

/// One directory entry of a listing, tagged with the cursor a later call
/// must pass to resume right after it.
pub struct DirEntry {
    pub ino: u64,
    pub cursor: u64,
    pub kind: FileKind,
    pub name: String,
}

/// How a read request is served: from memory, or by a positioned read of
/// the backing file at the given absolute offset and length.
pub enum ReadOutcome {
    Data(Vec<u8>),
    Fetch(u64, u64),
}

/// Aggregate filesystem statistics.
#[derive(Clone, Copy, PartialEq, Eq, Structural, Debug)]
pub struct StatfsInfo {
    pub blocks: u64,
    pub bfree: u64,
    pub bavail: u64,
    pub files: u64,
    pub ffree: u64,
    pub bsize: u32,
    pub namelen: u32,
    pub frsize: u32,
}

/// The name a configuration resolves to: its own, or the default (the
/// backing file's base name).
pub open spec fn spec_resolved_name(cfg: InodeConfigView, default_name: Seq<char>) -> Seq<char> {
    match cfg.name {
        Some(n) => n,
        None => default_name,
    }
}

/// The preload plan of a record: the absolute backing offset and length to
/// copy eagerly, present only when preloading is configured and the initial
/// probe succeeded.
pub open spec fn spec_plan(info: InodeInfo) -> Option<(u64, u64)> {
    if info.config@.preload && !info.err {
        Some((spec_offset(info.config@), info.attr.size))
    } else {
        None
    }
}

/// Relates a record after `set_preload` to the record before: only the
/// preloaded bytes change.
pub open spec fn spec_with_data(pre: InodeInfo, post: InodeInfo, data: Seq<u8>) -> bool {
    &&& post.ino == pre.ino
    &&& post.err == pre.err
    &&& post.attr == pre.attr
    &&& post.config == pre.config
    &&& post.timestamp == pre.timestamp
    &&& match post.data {
        Some(d) => d@ == data,
        None => false,
    }
}

/// The probe outcome behind an optional reference, as a plain value.
pub open spec fn spec_probe(probe: Option<&Result<ProbeInfo, ProbeError>>) -> Option<
    Result<ProbeInfo, ProbeError>,
> {
    match probe {
        Some(p) => Some(*p),
        None => None,
    }
}

/// The synthetic attribute snapshot of the root directory: empty, world
/// accessible, owned by root, timestamped with the current time and never
/// cached.
pub open spec fn spec_root_attr(now: u64) -> FileAttr {
    FileAttr {
        ino: ROOT_INO,
        size: 0,
        blocks: 0,
        atime: now,
        mtime: now,
        ctime: now,
        crtime: now,
        kind: FileKind::Directory,
        perm: 0o777,
        nlink: 1,
        uid: 0,
        gid: 0,
        rdev: 0,
        blksize: 512,
        flags: 0,
    }
}

/// The catalogs before and after a callback that refreshed entry `i` from
/// the probe outcome `p` and left every other entry alone.
pub open spec fn spec_refresh_frame(
    pre: RangeFs,
    post: RangeFs,
    i: int,
    p: Result<ProbeInfo, ProbeError>,
    now: u64,
) -> bool {
    &&& post.entries@.len() == pre.entries@.len()
    &&& forall|j: int|
        0 <= j < pre.entries@.len() && j != i ==> post.entries@[j] == pre.entries@[j]
    &&& post.entries@[i].name == pre.entries@[i].name
    &&& spec_refreshed(pre.entries@[i].info, post.entries@[i].info, p, now)
}

/// What `lookup` does once the name matched entry `i`: with no probe the
/// cached snapshot is returned unchanged; with a probe the entry is
/// refreshed first, a successful probe returns the re-derived snapshot, and
/// a failed probe propagates the operating-system error code when one is
/// available, else returns the previous snapshot.
pub open spec fn spec_lookup_hit(
    pre: RangeFs,
    post: RangeFs,
    i: int,
    probe: Option<Result<ProbeInfo, ProbeError>>,
    now: u64,
    r: Result<FileAttr, FsError>,
) -> bool {
    match probe {
        None => post == pre && r == Ok::<FileAttr, FsError>(pre.entries@[i].info.attr),
        Some(p) => {
            &&& spec_refresh_frame(pre, post, i, p, now)
            &&& match p {
                Ok(pi) => r == Ok::<FileAttr, FsError>(
                    spec_attr_from_probe(pi, pre.entries@[i].info.ino, pre.entries@[i].info.config@),
                ),
                Err(e) => match e.code {
                    Some(c) => r == Err::<FileAttr, FsError>(FsError::Os(c)),
                    None => r == Ok::<FileAttr, FsError>(pre.entries@[i].info.attr),
                },
            }
        },
    }
}

/// What `getattr` does once the inode matched entry `i`: refresh from the
/// probe when one was performed, then fail with an I/O error exactly when
/// the record's error flag is set, else return the cached snapshot.
pub open spec fn spec_getattr_hit(
    pre: RangeFs,
    post: RangeFs,
    i: int,
    probe: Option<Result<ProbeInfo, ProbeError>>,
    now: u64,
    r: Result<FileAttr, FsError>,
) -> bool {
    match probe {
        None => post == pre && r == (if pre.entries@[i].info.err {
            Err::<FileAttr, FsError>(FsError::Io)
        } else {
            Ok::<FileAttr, FsError>(pre.entries@[i].info.attr)
        }),
        Some(p) => {
            &&& spec_refresh_frame(pre, post, i, p, now)
            &&& match p {
                Ok(pi) => r == Ok::<FileAttr, FsError>(
                    spec_attr_from_probe(pi, pre.entries@[i].info.ino, pre.entries@[i].info.config@),
                ),
                Err(_) => r == Err::<FileAttr, FsError>(FsError::Io),
            }
        },
    }
}

/// What `open` does once the inode matched entry `i`: like `getattr`, but a
/// success returns the fixed placeholder handle and zero flags, as all the
/// state a read needs lives in the catalog.
pub open spec fn spec_open_hit(
    pre: RangeFs,
    post: RangeFs,
    i: int,
    probe: Option<Result<ProbeInfo, ProbeError>>,
    now: u64,
    r: Result<(u64, u32), FsError>,
) -> bool {
    match probe {
        None => post == pre && r == (if pre.entries@[i].info.err {
            Err::<(u64, u32), FsError>(FsError::Io)
        } else {
            Ok::<(u64, u32), FsError>((0u64, 0u32))
        }),
        Some(p) => {
            &&& spec_refresh_frame(pre, post, i, p, now)
            &&& match p {
                Ok(_) => r == Ok::<(u64, u32), FsError>((0u64, 0u32)),
                Err(_) => r == Err::<(u64, u32), FsError>(FsError::Io),
            }
        },
    }
}

/// The absolute backing-file offset a read at `off` into a range starting
/// at `cfg_off` lands on, saturated so that nothing ever wraps (a saturated
/// offset lies past any real file and reads empty).
pub open spec fn spec_fetch_off(cfg_off: u64, off: u64) -> u64 {
    cfg_off.saturating_add(off)
}

/// How many bytes a read of `len` bytes at offset `off` of a virtual file
/// of size `vsize` may fetch: the request clamped to the bytes left before
/// the end of the file, 0 at or past the end.
pub open spec fn spec_fetch_len(vsize: u64, off: u64, len: u64) -> u64 {
    if vsize.saturating_sub(off) <= len {
        vsize.saturating_sub(off)
    } else {
        len
    }
}

/// What `read` returns for the record `info`: an I/O error when the record
/// is degraded; the clamped slice of the preloaded bytes when they exist;
/// else the positioned read of the backing file the caller must perform.
pub open spec fn spec_read_result(
    info: InodeInfo,
    offset: u64,
    size: u64,
    r: Result<ReadOutcome, FsError>,
) -> bool {
    if info.err {
        r == Err::<ReadOutcome, FsError>(FsError::Io)
    } else {
        match info.data {
            Some(d) => match r {
                Ok(ReadOutcome::Data(v)) => v@ == read_range(d@, offset as int, size as int),
                _ => false,
            },
            None => match r {
                Ok(ReadOutcome::Fetch(fo, fl)) => fo == spec_fetch_off(
                    spec_offset(info.config@),
                    offset,
                ) && fl == spec_fetch_len(info.attr.size, offset, size),
                _ => false,
            },
        }
    }
}

/// The sum of the cached block counts over a catalog.
pub open spec fn spec_blocks_sum(s: Seq<CatalogEntry>) -> int
    decreases s.len(),
{
    if s.len() == 0 {
        0
    } else {
        spec_blocks_sum(s.drop_last()) + s.last().info.attr.blocks
    }
}

/// A sum of block counts is never negative.
proof fn lemma_blocks_sum_nonneg(s: Seq<CatalogEntry>)
    ensures
        spec_blocks_sum(s) >= 0,
    decreases s.len(),
{
    if s.len() > 0 {
        lemma_blocks_sum_nonneg(s.drop_last());
    }
}

/// The filesystem driver: the catalog of virtual files and the staleness
/// timeout, in ticks of the caller's clock.
pub struct RangeFs {
    /// Staleness timeout for cached metadata.
    pub timeout: u64,
    /// The next inode number to assign; starts at 2 and is never reused.
    pub next_ino: u64,
    /// The catalog, in registration order.
    pub entries: Vec<CatalogEntry>,
}

impl RangeFs {
    /// Catalog well-formedness: names unique, inode numbers unique and in
    /// `[2, next_ino)`, and the catalog small enough to enumerate.
    pub open spec fn wf(self) -> bool {
        &&& self.next_ino >= 2
        &&& self.entries@.len() + 2 <= self.next_ino
        &&& forall|i: int, j: int|
            0 <= i < j < self.entries@.len() ==> (#[trigger] self.entries@[i]).name@ != (
            #[trigger] self.entries@[j]).name@
        &&& forall|i: int, j: int|
            0 <= i < j < self.entries@.len() ==> (#[trigger] self.entries@[i]).info.ino != (
            #[trigger] self.entries@[j]).info.ino
        &&& forall|i: int|
            0 <= i < self.entries@.len() ==> 2 <= (#[trigger] self.entries@[i]).info.ino
                < self.next_ino
    }

    /// Whether some catalog entry carries this name.
    pub open spec fn has_name(self, name: Seq<char>) -> bool {
        exists|i: int|
            0 <= i < self.entries@.len() && (#[trigger] self.entries@[i]).name@ == name
    }

    /// Whether some catalog entry carries this inode number.
    pub open spec fn has_ino(self, ino: u64) -> bool {
        exists|i: int|
            0 <= i < self.entries@.len() && (#[trigger] self.entries@[i]).info.ino == ino
    }

    /// The full directory listing of the root: the synthetic `.` and `..`
    /// followed by one entry per catalog name, in registration order, each
    /// as (inode, kind, name).
    pub open spec fn spec_listing(self) -> Seq<(u64, FileKind, Seq<char>)> {
        seq![
            (ROOT_INO, FileKind::Directory, "."@),
            (ROOT_INO, FileKind::Directory, ".."@),
        ] + self.entries@.map(|i: int, e: CatalogEntry| (e.info.ino, FileKind::RegularFile, e.name@))
    }

    /// An empty driver with the given staleness timeout.
    pub fn new(timeout: u64) -> (r: Self)
        ensures
            r.wf(),
            r.timeout == timeout,
            r.next_ino == 2,
            r.entries@.len() == 0,
    {
        RangeFs { timeout, next_ino: 2, entries: Vec::new() }
    }

    /// Index of the entry with this name, if any.
    fn find_name(&self, name: &str) -> (r: Option<usize>)
        ensures
            match r {
                Some(i) => i < self.entries@.len() && self.entries@[i as int].name@ == name@,
                None => !self.has_name(name@),
            },
    {
        let n = self.entries.len();
        let mut i: usize = 0;
        while i < n
            invariant
                n == self.entries@.len(),
                0 <= i <= n,
                forall|j: int| 0 <= j < i ==> (#[trigger] self.entries@[j]).name@ != name@,
            decreases n - i,
        {
            if str_eq(self.entries[i].name.as_str(), name) {
                return Some(i);
            }
            i += 1;
        }
        None
    }

    /// Index of the entry with this inode number, if any.
    fn find_ino(&self, ino: u64) -> (r: Option<usize>)
        ensures
            match r {
                Some(i) => i < self.entries@.len() && self.entries@[i as int].info.ino == ino,
                None => !self.has_ino(ino),
            },
    {
        let n = self.entries.len();
        let mut i: usize = 0;
        while i < n
            invariant
                n == self.entries@.len(),
                0 <= i <= n,
                forall|j: int| 0 <= j < i ==> (#[trigger] self.entries@[j]).info.ino != ino,
            decreases n - i,
        {
            if self.entries[i].info.ino == ino {
                return Some(i);
            }
            i += 1;
        }
        None
    }

    /// Registers one configuration: resolves its name, assigns the next
    /// inode number, and inserts a record built from the initial probe
    /// outcome.  A name already in the catalog keeps its first registration;
    /// the duplicate is dropped and `None` returned.  The inode number is
    /// consumed either way, as each configuration owns one slot.
    pub fn register_config(
        &mut self,
        config: InodeConfig,
        default_name: &str,
        probe: &Result<ProbeInfo, ProbeError>,
        now: u64,
    ) -> (r: Option<u64>)
        requires
            old(self).wf(),
            old(self).next_ino < u64::MAX,
        ensures
            final(self).wf(),
            final(self).timeout == old(self).timeout,
            final(self).next_ino == old(self).next_ino + 1,
            ({
                let name = spec_resolved_name(config@, default_name@);
                if old(self).has_name(name) {
                    final(self).entries@ == old(self).entries@ && r is None
                } else {
                    &&& r == Some(old(self).next_ino)
                    &&& final(self).entries@.len() == old(self).entries@.len() + 1
                    &&& final(self).entries@.take(old(self).entries@.len() as int) == old(
                        self,
                    ).entries@
                    &&& final(self).entries@.last().name@ == name
                    &&& spec_new_info(
                        final(self).entries@.last().info,
                        old(self).next_ino,
                        config,
                        *probe,
                        now,
                    )
                }
            }),
    {
        let name: String = match &config.name {
            Some(n) => n.clone(),
            None => default_name.to_owned(),
        };
        let ino = self.next_ino;
        self.next_ino = ino + 1;
        match self.find_name(name.as_str()) {
            Some(_) => None,
            None => {
                let info = InodeInfo::new(ino, config, probe, now);
                self.entries.push(CatalogEntry { name, info });
                proof {
                    assert(final(self).entries@.take(old(self).entries@.len() as int) =~= old(
                        self,
                    ).entries@);
                }
                Some(ino)
            },
        }
    }

    /// Whether the record with this inode number exists and its snapshot is
    /// stale at `now`, so that the caller must probe the backing file before
    /// the next callback.
    pub fn needs_refresh(&self, ino: u64, now: u64) -> (r: bool)
        requires
            self.wf(),
        ensures
            r == exists|i: int|
                0 <= i < self.entries@.len() && (#[trigger] self.entries@[i]).info.ino == ino
                    && spec_outdated(self.entries@[i].info.timestamp, now, self.timeout),
    {
        match self.find_ino(ino) {
            Some(i) => {
                let r = self.entries[i].info.outdated(now, self.timeout);
                proof {
                    if !r {
                        assert forall|j: int|
                            0 <= j < self.entries@.len() && (#[trigger] self.entries@[j]).info.ino
                                == ino implies !spec_outdated(
                            self.entries@[j].info.timestamp,
                            now,
                            self.timeout,
                        ) by {
                            assert(j == i as int);
                        }
                    }
                }
                r
            },
            None => false,
        }
    }

    /// The preload plan of the record with this inode number, as
    /// `spec_plan` states it.
    pub fn preload_plan(&self, ino: u64) -> (r: Option<(u64, u64)>)
        requires
            self.wf(),
        ensures
            !self.has_ino(ino) ==> r is None,
            forall|i: int|
                0 <= i < self.entries@.len() && (#[trigger] self.entries@[i]).info.ino == ino
                    ==> r == spec_plan(self.entries@[i].info),
    {
        match self.find_ino(ino) {
            Some(i) => {
                let info = &self.entries[i].info;
                let r = if info.config.preload && !info.err {
                    let off = match info.config.offset {
                        Some(o) => o,
                        None => 0,
                    };
                    Some((off, info.attr.size))
                } else {
                    None
                };
                proof {
                    assert forall|j: int|
                        0 <= j < self.entries@.len() && (#[trigger] self.entries@[j]).info.ino
                            == ino implies r == spec_plan(self.entries@[j].info) by {
                        assert(j == i as int);
                    }
                }
                r
            },
            None => None,
        }
    }

    /// Looks a name up under a parent directory.  Fails with `NotFound`
    /// unless the parent is the root and the name is in the catalog; on a
    /// hit behaves as `spec_lookup_hit` states, refreshing the entry from
    /// the probe the caller performed when the snapshot was stale.
    pub fn lookup(
        &mut self,
        parent: u64,
        name: &str,
        probe: Option<&Result<ProbeInfo, ProbeError>>,
        now: u64,
    ) -> (r: Result<FileAttr, FsError>)
        requires
            old(self).wf(),
        ensures
            final(self).wf(),
            final(self).timeout == old(self).timeout,
            final(self).next_ino == old(self).next_ino,
            parent != ROOT_INO ==> *final(self) == *old(self) && r == Err::<FileAttr, FsError>(
                FsError::NotFound,
            ),
            parent == ROOT_INO && !old(self).has_name(name@) ==> *final(self) == *old(self) && r
                == Err::<FileAttr, FsError>(FsError::NotFound),
            parent == ROOT_INO ==> forall|i: int|
                0 <= i < old(self).entries@.len() && (#[trigger] old(self).entries@[i]).name@
                    == name@ ==> spec_lookup_hit(
                    *old(self),
                    *final(self),
                    i,
                    spec_probe(probe),
                    now,
                    r,
                ),
    {
        if parent != ROOT_INO {
            return Err(FsError::NotFound);
        }
        match self.find_name(name) {
            None => Err(FsError::NotFound),
            Some(i) => {
                proof {
                    assert forall|j: int|
                        0 <= j < old(self).entries@.len() && (#[trigger] old(
                            self,
                        ).entries@[j]).name@ == name@ implies j == i as int by {}
                }
                let r = match probe {
                    Some(p) => {
                        self.entries[i].info.update_info(p, now);
                        match p {
                            Ok(_) => Ok(self.entries[i].info.attr),
                            Err(e) => match e.code {
                                Some(c) => Err(FsError::Os(c)),
                                None => Ok(self.entries[i].info.attr),
                            },
                        }
                    },
                    None => Ok(self.entries[i].info.attr),
                };
                r
            },
        }
    }

    /// Returns the attributes of an inode.  The root directory is synthetic
    /// and always fresh; an unknown inode fails with `NotFound`; a known one
    /// behaves as `spec_getattr_hit` states.
    pub fn getattr(
        &mut self,
        ino: u64,
        probe: Option<&Result<ProbeInfo, ProbeError>>,
        now: u64,
    ) -> (r: Result<FileAttr, FsError>)
        requires
            old(self).wf(),
        ensures
            final(self).wf(),
            final(self).timeout == old(self).timeout,
            final(self).next_ino == old(self).next_ino,
            ino == ROOT_INO ==> *final(self) == *old(self) && r == Ok::<FileAttr, FsError>(
                spec_root_attr(now),
            ),
            ino != ROOT_INO && !old(self).has_ino(ino) ==> *final(self) == *old(self) && r
                == Err::<FileAttr, FsError>(FsError::NotFound),
            ino != ROOT_INO ==> forall|i: int|
                0 <= i < old(self).entries@.len() && (#[trigger] old(self).entries@[i]).info.ino
                    == ino ==> spec_getattr_hit(
                    *old(self),
                    *final(self),
                    i,
                    spec_probe(probe),
                    now,
                    r,
                ),
    {
        if ino == ROOT_INO {
            return Ok(
                FileAttr {
                    ino: ROOT_INO,
                    size: 0,
                    blocks: 0,
                    atime: now,
                    mtime: now,
                    ctime: now,
                    crtime: now,
                    kind: FileKind::Directory,
                    perm: 0o777,
                    nlink: 1,
                    uid: 0,
                    gid: 0,
                    rdev: 0,
                    blksize: 512,
                    flags: 0,
                },
            );
        }
        match self.find_ino(ino) {
            None => Err(FsError::NotFound),
            Some(i) => {
                proof {
                    assert forall|j: int|
                        0 <= j < old(self).entries@.len() && (#[trigger] old(
                            self,
                        ).entries@[j]).info.ino == ino implies j == i as int by {}
                }
                match probe {
                    Some(p) => {
                        self.entries[i].info.update_info(p, now);
                    },
                    None => {},
                }
                if self.entries[i].info.err {
                    Err(FsError::Io)
                } else {
                    Ok(self.entries[i].info.attr)
                }
            },
        }
    }

    /// Opens an inode for reading.  An unknown inode (the root included)
    /// fails with `NotFound`; a known one behaves as `spec_open_hit`
    /// states, returning the fixed placeholder handle and zero flags.
    pub fn open(
        &mut self,
        ino: u64,
        probe: Option<&Result<ProbeInfo, ProbeError>>,
        now: u64,
    ) -> (r: Result<(u64, u32), FsError>)
        requires
            old(self).wf(),
        ensures
            final(self).wf(),
            final(self).timeout == old(self).timeout,
            final(self).next_ino == old(self).next_ino,
            !old(self).has_ino(ino) ==> *final(self) == *old(self) && r == Err::<
                (u64, u32),
                FsError,
            >(FsError::NotFound),
            forall|i: int|
                0 <= i < old(self).entries@.len() && (#[trigger] old(self).entries@[i]).info.ino
                    == ino ==> spec_open_hit(
                    *old(self),
                    *final(self),
                    i,
                    spec_probe(probe),
                    now,
                    r,
                ),
    {
        match self.find_ino(ino) {
            None => Err(FsError::NotFound),
            Some(i) => {
                proof {
                    assert forall|j: int|
                        0 <= j < old(self).entries@.len() && (#[trigger] old(
                            self,
                        ).entries@[j]).info.ino == ino implies j == i as int by {}
                }
                match probe {
                    Some(p) => {
                        self.entries[i].info.update_info(p, now);
                    },
                    None => {},
                }
                if self.entries[i].info.err {
                    Err(FsError::Io)
                } else {
                    Ok((0, 0))
                }
            },
        }
    }

    /// Lists the root directory from the pagination cursor `offset`: every
    /// listing entry with index at least `offset`, in order, each tagged
    /// with the cursor (its index plus one) a later call passes to resume
    /// right after it.  A cursor at or past the end yields an empty page,
    /// and any inode but the root fails with `NotFound`.
    pub fn readdir(&self, ino: u64, offset: u64) -> (r: Result<Vec<DirEntry>, FsError>)
        requires
            self.wf(),
        ensures
            ino != ROOT_INO ==> r == Err::<Vec<DirEntry>, FsError>(FsError::NotFound),
            ino == ROOT_INO ==> match r {
                Ok(v) => {
                    let l = self.spec_listing();
                    let start = if offset <= l.len() {
                        offset as int
                    } else {
                        l.len() as int
                    };
                    &&& v@.len() == l.len() - start
                    &&& forall|k: int|
                        0 <= k < v@.len() ==> (#[trigger] v@[k]).ino == l[start + k].0
                            && v@[k].kind == l[start + k].1 && v@[k].name@ == l[start + k].2
                            && v@[k].cursor == start + k + 1
                },
                Err(_) => false,
            },
    {
        if ino != ROOT_INO {
            return Err(FsError::NotFound);
        }
        let n = self.entries.len();
        let total: u64 = n as u64 + 2;
        let start: u64 = if offset <= total {
            offset
        } else {
            total
        };
        let mut v: Vec<DirEntry> = Vec::new();
        let mut k: u64 = start;
        while k < total
            invariant
                self.wf(),
                n == self.entries@.len(),
                total == n + 2,
                total == self.spec_listing().len(),
                start <= k <= total,
                v@.len() == k - start,
                forall|m: int|
                    0 <= m < v@.len() ==> (#[trigger] v@[m]).ino == self.spec_listing()[start
                        + m].0 && v@[m].kind == self.spec_listing()[start + m].1 && v@[m].name@
                        == self.spec_listing()[start + m].2 && v@[m].cursor == start + m + 1,
            decreases total - k,
        {
            let e = if k == 0 {
                DirEntry {
                    ino: ROOT_INO,
                    cursor: k + 1,
                    kind: FileKind::Directory,
                    name: String::from_str("."),
                }
            } else if k == 1 {
                DirEntry {
                    ino: ROOT_INO,
                    cursor: k + 1,
                    kind: FileKind::Directory,
                    name: String::from_str(".."),
                }
            } else {
                let idx = (k - 2) as usize;
                DirEntry {
                    ino: self.entries[idx].info.ino,
                    cursor: k + 1,
                    kind: FileKind::RegularFile,
                    name: self.entries[idx].name.clone(),
                }
            };
            v.push(e);
            k = k + 1;
        }
        Ok(v)
    }

    /// Serves a read request, as `spec_read_result` states: `NotFound` for
    /// an unknown inode, an I/O error for a degraded record, the clamped
    /// bytes straight from memory for a preloaded record, and otherwise the
    /// positioned read of the backing file the caller is to perform, whose
    /// short or empty result is not an error.
    pub fn read(&self, ino: u64, offset: u64, size: u64) -> (r: Result<ReadOutcome, FsError>)
        requires
            self.wf(),
        ensures
            !self.has_ino(ino) ==> r == Err::<ReadOutcome, FsError>(FsError::NotFound),
            forall|i: int|
                0 <= i < self.entries@.len() && (#[trigger] self.entries@[i]).info.ino == ino
                    ==> spec_read_result(self.entries@[i].info, offset, size, r),
    {
        match self.find_ino(ino) {
            None => Err(FsError::NotFound),
            Some(i) => {
                proof {
                    assert forall|j: int|
                        0 <= j < self.entries@.len() && (#[trigger] self.entries@[j]).info.ino
                            == ino implies j == i as int by {}
                }
                let info = &self.entries[i].info;
                if info.err {
                    return Err(FsError::Io);
                }
                match &info.data {
                    Some(d) => Ok(ReadOutcome::Data(read_from(d, offset, size))),
                    None => {
                        let cfg_off = match info.config.offset {
                            Some(o) => o,
                            None => 0,
                        };
                        let fo = cfg_off.saturating_add(offset);
                        let avail = info.attr.size.saturating_sub(offset);
                        let fl = if avail <= size {
                            avail
                        } else {
                            size
                        };
                        Ok(ReadOutcome::Fetch(fo, fl))
                    },
                }
            },
        }
    }

    /// Aggregate statistics: the block counts of every record summed
    /// (saturated at the counter's width), the number of records as the
    /// file count, a fixed block size of 512, a name length bound of 255,
    /// and no free space, as the filesystem is read-only.
    pub fn statfs(&self) -> (r: StatfsInfo)
        ensures
            r.blocks == (if spec_blocks_sum(self.entries@) <= u64::MAX {
                spec_blocks_sum(self.entries@)
            } else {
                u64::MAX as int
            }),
            r.files == self.entries@.len(),
            r.bfree == 0 && r.bavail == 0 && r.ffree == 0,
            r.bsize == 512 && r.frsize == 512 && r.namelen == 255,
    {
        let n = self.entries.len();
        let mut blocks: u64 = 0;
        let mut i: usize = 0;
        while i < n
            invariant
                n == self.entries@.len(),
                0 <= i <= n,
                blocks == (if spec_blocks_sum(self.entries@.take(i as int)) <= u64::MAX {
                    spec_blocks_sum(self.entries@.take(i as int))
                } else {
                    u64::MAX as int
                }),
            decreases n - i,
        {
            proof {
                assert(self.entries@.take(i + 1).drop_last() =~= self.entries@.take(i as int));
                assert(self.entries@.take(i + 1).last() == self.entries@[i as int]);
                lemma_blocks_sum_nonneg(self.entries@.take(i as int));
            }
            blocks = blocks.saturating_add(self.entries[i].info.attr.blocks);
            i += 1;
        }
        proof {
            assert(self.entries@.take(n as int) =~= self.entries@);
        }
        StatfsInfo {
            blocks,
            bfree: 0,
            bavail: 0,
            files: n as u64,
            ffree: 0,
            bsize: 512,
            namelen: 255,
            frsize: 512,
        }
    }

    /// Stores the eagerly read bytes on the record with this inode number;
    /// nothing else changes.  Unknown inode numbers are ignored.
    pub fn set_preload(&mut self, ino: u64, data: Vec<u8>)
        requires
            old(self).wf(),
        ensures
            final(self).wf(),
            final(self).timeout == old(self).timeout,
            final(self).next_ino == old(self).next_ino,
            final(self).entries@.len() == old(self).entries@.len(),
            !old(self).has_ino(ino) ==> final(self).entries@ == old(self).entries@,
            forall|i: int|
                0 <= i < old(self).entries@.len() && (#[trigger] old(self).entries@[i]).info.ino
                    == ino ==> (forall|j: int|
                    0 <= j < old(self).entries@.len() && j != i ==> final(self).entries@[j] == old(
                        self,
                    ).entries@[j]) && final(self).entries@[i].name == old(self).entries@[i].name
                    && spec_with_data(
                    old(self).entries@[i].info,
                    final(self).entries@[i].info,
                    data@,
                ),
    {
        match self.find_ino(ino) {
            Some(i) => {
                self.entries[i].info.data = Some(data);
            },
            None => {},
        }
    }
}

/// Law: pagination neither loses nor repeats entries.  A first call walks
/// the listing up to some cursor `k`; a later call resuming at `k` returns
/// exactly the rest; concatenating the two reproduces the full listing,
/// whatever cut point the reply sink forced.
pub proof fn lemma_readdir_pagination(fs: RangeFs, k: int)
    requires
        fs.wf(),
        0 <= k <= fs.spec_listing().len(),
    ensures
        fs.spec_listing().take(k) + fs.spec_listing().skip(k) == fs.spec_listing(),
{
    assert(fs.spec_listing().take(k) + fs.spec_listing().skip(k) =~= fs.spec_listing());
}

/// Law: the root listing holds `.`, `..`, and exactly one entry per catalog
/// name, with no name twice — provided no virtual file was itself named `.`
/// or `..` (a configuration naming one so would collide with the synthetic
/// entries).
pub proof fn lemma_listing_names_unique(fs: RangeFs)
    requires
        fs.wf(),
        !fs.has_name("."@),
        !fs.has_name(".."@),
    ensures
        forall|i: int, j: int|
            0 <= i < j < fs.spec_listing().len() ==> (#[trigger] fs.spec_listing()[i]).2 != (
            #[trigger] fs.spec_listing()[j]).2,
{
    reveal_strlit(".");
    reveal_strlit("..");
    assert("."@.len() == 1);
    assert(".."@.len() == 2);
    let l = fs.spec_listing();
    assert forall|i: int, j: int| 0 <= i < j < l.len() implies (#[trigger] l[i]).2 != (
    #[trigger] l[j]).2 by {
        if i >= 2 && j >= 2 {
            assert(l[i].2 == fs.entries@[i - 2].name@);
            assert(l[j].2 == fs.entries@[j - 2].name@);
        } else if i < 2 && j >= 2 {
            assert(l[j].2 == fs.entries@[j - 2].name@);
            if l[i].2 == l[j].2 {
                assert(fs.has_name(l[i].2));
            }
        }
    }
}

/// Law: a read at or past the end of a virtual file returns zero bytes and
/// is not an error: the planned fetch length is 0, and a positioned read of
/// 0 bytes yields none, wherever it lands.
pub proof fn lemma_read_past_end(vsize: u64, offset: u64, size: u64, backing: Seq<u8>, fo: u64)
    requires
        offset >= vsize,
    ensures
        spec_fetch_len(vsize, offset, size) == 0,
        read_range(backing, fo as int, 0) == Seq::<u8>::empty(),
{
    assert(read_range(backing, fo as int, 0) =~= Seq::<u8>::empty());
}

/// Law: reading a virtual file of size `vsize` in full at offset 0 is
/// served by exactly the backing byte range `[cfg_off, cfg_off + vsize)`
/// (clamped at the end of the backing store): the planned fetch is that
/// very range.
pub proof fn lemma_full_read_covers_range(backing: Seq<u8>, cfg_off: u64, vsize: u64)
    ensures
        spec_fetch_off(cfg_off, 0) == cfg_off,
        spec_fetch_len(vsize, 0, vsize) == vsize,
        read_range(
            backing,
            spec_fetch_off(cfg_off, 0) as int,
            spec_fetch_len(vsize, 0, vsize) as int,
        ) == read_range(backing, cfg_off as int, vsize as int),
{
}

} // verus!
