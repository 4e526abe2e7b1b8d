//! Per-file configuration, derived attributes and the metadata-freshness
//! policy.
//!
//! Time is modelled as unsigned ticks on a single clock; callers pick the
//! unit and supply `now` with each call.  A probe of the backing file is
//! likewise handed in as plain values (`ProbeInfo`) or as a failure
//! (`ProbeError`), so everything here is deterministic and fully specified.

use vstd::prelude::*;

verus! {

/// Configuration for one virtual file, as supplied at startup.
pub struct InodeConfig {
    /// Name of the virtual file; the backing file's base name when absent.
    pub name: Option<String>,
    /// Byte offset of the range inside the backing file; 0 when absent.
    pub offset: Option<u64>,
    /// Size of the range; derived from the backing file's size when absent.
    pub size: Option<u64>,
    /// Owner user id; the backing file's when absent.
    pub uid: Option<u32>,
    /// Owner group id; the backing file's when absent.
    pub gid: Option<u32>,
    /// Eagerly copy the whole range into memory at startup.
    pub preload: bool,
}

/// Ghost image of an `InodeConfig`, with the name as a character sequence.
pub struct InodeConfigView {
    pub name: Option<Seq<char>>,
    pub offset: Option<u64>,
    pub size: Option<u64>,
    pub uid: Option<u32>,
    pub gid: Option<u32>,
    pub preload: bool,
}

impl View for InodeConfig {
    type V = InodeConfigView;

    open spec fn view(&self) -> InodeConfigView {
        InodeConfigView {
            name: match self.name {
                Some(n) => Some(n@),
                None => None,
            },
            offset: self.offset,
            size: self.size,
            uid: self.uid,
            gid: self.gid,
            preload: self.preload,
        }
    }
}

impl Default for InodeConfig {
    /// The configuration with every option left to its default.
    fn default() -> (c: Self)
        ensures
            c@ == (InodeConfigView {
                name: None,
                offset: None,
                size: None,
                uid: None,
                gid: None,
                preload: false,
            }),
    {
        InodeConfig { name: None, offset: None, size: None, uid: None, gid: None, preload: false }
    }
}

/// What a successful metadata probe of the backing file reports, as plain
/// values.  Timestamps are ticks of the caller's clock; the caller resolves
/// any timestamp the platform could not report to the current time.
#[derive(Clone, Copy, PartialEq, Eq, Structural, Debug)]
pub struct ProbeInfo {
    /// Size of the backing file in bytes.
    pub size: u64,
    /// Raw mode bits (permissions and format) of the backing file.
    pub mode: u32,
    /// Whether the backing file is a directory.
    pub is_dir: bool,
    /// Owner user id of the backing file.
    pub uid: u32,
    /// Owner group id of the backing file.
    pub gid: u32,
    /// Last access time.
    pub atime: u64,
    /// Last modification time.
    pub mtime: u64,
    /// Creation time.
    pub crtime: u64,
}

/// A failed metadata probe, with the operating-system error code when one
/// was reported.
#[derive(Clone, Copy, PartialEq, Eq, Structural, Debug)]
pub struct ProbeError {
    pub code: Option<i32>,
}

/// Kind of a directory entry or attribute record.
#[derive(Clone, Copy, PartialEq, Eq, Structural, Debug)]
pub enum FileKind {
    RegularFile,
    Directory,
}

/// Attribute snapshot of a virtual file, over plain values.
#[derive(Clone, Copy, PartialEq, Eq, Structural, Debug)]
pub struct FileAttr {
    pub ino: u64,
    pub size: u64,
    pub blocks: u64,
    pub atime: u64,
    pub mtime: u64,
    pub ctime: u64,
    pub crtime: u64,
    pub kind: FileKind,
    pub perm: u16,
    pub nlink: u32,
    pub uid: u32,
    pub gid: u32,
    pub rdev: u32,
    pub blksize: u32,
    pub flags: u32,
}

/// Block size the filesystem reports, and the unit block counts are stated in.
pub const BLOCK_SIZE: u64 = 512;

/// The format bits of a mode word, excluded from the reported permissions.
pub const FORMAT_BITS: u32 = 0o170000;

/// The executable permission bits, removed when the backing file is a
/// directory.
pub const EXEC_BITS: u32 = 0o111;

/// The configured offset, or 0 when absent.
pub open spec fn spec_offset(cfg: InodeConfigView) -> u64 {
    match cfg.offset {
        Some(o) => o,
        None => 0,
    }
}

/// The virtual file's size: the explicit size when configured, else the
/// backing file's size minus the offset, floored at 0.
pub open spec fn spec_derived_size(cfg: InodeConfigView, backing_size: u64) -> u64 {
    match cfg.size {
        Some(s) => s,
        None => backing_size.saturating_sub(spec_offset(cfg)),
    }
}

/// Number of `BLOCK_SIZE` blocks needed to hold `size` bytes, rounded up.
pub open spec fn spec_blocks(size: u64) -> u64 {
    ((size + 511) / 512) as u64
}

/// Permission bits derived from the backing file's mode: the format bits are
/// masked away, and the executable bits are removed when the backing file is
/// a directory.
pub open spec fn spec_perm(mode: u32, is_dir: bool) -> u16 {
    if is_dir {
        ((mode & !0o170000u32) & !0o111u32) as u16
    } else {
        (mode & !0o170000u32) as u16
    }
}

/// The attribute snapshot derived from a successful probe.
pub open spec fn spec_attr_from_probe(p: ProbeInfo, ino: u64, cfg: InodeConfigView) -> FileAttr {
    FileAttr {
        ino,
        size: spec_derived_size(cfg, p.size),
        blocks: spec_blocks(spec_derived_size(cfg, p.size)),
        atime: p.atime,
        mtime: p.mtime,
        ctime: p.atime,
        crtime: p.crtime,
        kind: FileKind::RegularFile,
        perm: spec_perm(p.mode, p.is_dir),
        nlink: 1,
        uid: match cfg.uid {
            Some(u) => u,
            None => p.uid,
        },
        gid: match cfg.gid {
            Some(g) => g,
            None => p.gid,
        },
        rdev: 0,
        blksize: 512,
        flags: 0,
    }
}

/// The placeholder attribute snapshot recorded when the very first probe of
/// the backing file fails: size 0, block count from the configured size if
/// any, current time for every timestamp, and owner taken from the
/// configuration or root.
pub open spec fn spec_attr_on_error(ino: u64, cfg: InodeConfigView, now: u64) -> FileAttr {
    FileAttr {
        ino,
        size: 0,
        blocks: spec_blocks(
            match cfg.size {
                Some(s) => s,
                None => 0,
            },
        ),
        atime: now,
        mtime: now,
        ctime: now,
        crtime: now,
        kind: FileKind::RegularFile,
        perm: 0o666,
        nlink: 1,
        uid: match cfg.uid {
            Some(u) => u,
            None => 0,
        },
        gid: match cfg.gid {
            Some(g) => g,
            None => 0,
        },
        rdev: 0,
        blksize: 512,
        flags: 0,
    }
}

/// A cached snapshot is stale when more than `timeout` ticks have passed
/// since it was taken, or when the clock reports a time before the snapshot
/// was taken (a clock that went backward counts as stale, a conservative
/// fail-safe).
pub open spec fn spec_outdated(ts: u64, now: u64, timeout: u64) -> bool {
    now < ts || now - ts > timeout
}

/// Rounds `size` up to whole blocks of `BLOCK_SIZE` bytes.
pub fn blocks_of(size: u64) -> (b: u64)
    ensures
        b == spec_blocks(size),
{
    let q = size / 512;
    let r = size % 512;
    proof {
        assert(size == 512 * (size as int / 512) + size as int % 512) by (nonlinear_arith);
        assert((512 * (q as int) + (r as int) + 511) / 512 == q as int + ((r as int) + 511) / 512)
            by (nonlinear_arith)
            requires
                0 <= r < 512,
        ;
    }
    if r == 0 {
        q
    } else {
        q + 1
    }
}

/// Derives the permission bits as `spec_perm` states them.
pub fn perm_of(mode: u32, is_dir: bool) -> (p: u16)
    ensures
        p == spec_perm(mode, is_dir),
{
    let masked = mode & !0o170000u32;
    if is_dir {
        (masked & !0o111u32) as u16
    } else {
        masked as u16
    }
}

/// Relates a fresh record to the probe it was built from: attributes and
/// error flag as derived, snapshot taken at `now`, nothing preloaded yet.
pub open spec fn spec_new_info(
    info: InodeInfo,
    ino: u64,
    config: InodeConfig,
    probe: Result<ProbeInfo, ProbeError>,
    now: u64,
) -> bool {
    &&& info.ino == ino
    &&& info.config == config
    &&& info.timestamp == now
    &&& info.data is None
    &&& match probe {
        Ok(p) => info.attr == spec_attr_from_probe(p, ino, config@) && !info.err,
        Err(_) => info.attr == spec_attr_on_error(ino, config@, now) && info.err,
    }
}

/// Relates a record after a refresh to the record before it: a successful
/// probe re-derives the attributes and clears the error flag; a failed probe
/// leaves the previous snapshot in place and sets the error flag; the
/// refresh timestamp is updated either way, so a failing backing file is
/// re-probed at most once per timeout window.
pub open spec fn spec_refreshed(
    pre: InodeInfo,
    post: InodeInfo,
    probe: Result<ProbeInfo, ProbeError>,
    now: u64,
) -> bool {
    &&& post.ino == pre.ino
    &&& post.config == pre.config
    &&& post.data == pre.data
    &&& post.timestamp == now
    &&& match probe {
        Ok(p) => post.attr == spec_attr_from_probe(p, pre.ino, pre.config@) && !post.err,
        Err(_) => post.attr == pre.attr && post.err,
    }
}

/// One virtual file: its inode number, configuration, cached attribute
/// snapshot, and the optional preloaded copy of its bytes.
pub struct InodeInfo {
    /// Inode number; unique, at least 2 (1 is the synthetic root directory).
    pub ino: u64,
    /// Whether the last metadata probe of the backing file failed.
    pub err: bool,
    /// Cached attribute snapshot of the virtual file.
    pub attr: FileAttr,
    /// The configuration this record was built from.
    pub config: InodeConfig,
    /// Tick at which the snapshot was last refreshed.
    pub timestamp: u64,
    /// The preloaded bytes, when preloading was configured and succeeded.
    pub data: Option<Vec<u8>>,
}

impl InodeInfo {
    /// Builds the record for one virtual file from the outcome of the
    /// initial probe of the backing file.
    pub fn new(ino: u64, config: InodeConfig, probe: &Result<ProbeInfo, ProbeError>, now: u64) -> (r:
        Self)
        ensures
            spec_new_info(r, ino, config, *probe, now),
    {
        let (attr, err) = InodeInfo::get_metadata(probe, ino, &config, now);
        InodeInfo { ino, err, attr, config, timestamp: now, data: None }
    }

    /// Derives the attribute snapshot and error flag from a probe outcome.
    pub fn get_metadata(
        probe: &Result<ProbeInfo, ProbeError>,
        ino: u64,
        config: &InodeConfig,
        now: u64,
    ) -> (r: (FileAttr, bool))
        ensures
            match *probe {
                Ok(p) => r.0 == spec_attr_from_probe(p, ino, config@) && r.1 == false,
                Err(_) => r.0 == spec_attr_on_error(ino, config@, now) && r.1 == true,
            },
    {
        match probe {
            Ok(p) => {
                let offset = match config.offset {
                    Some(o) => o,
                    None => 0,
                };
                let size = match config.size {
                    Some(s) => s,
                    None => p.size.saturating_sub(offset),
                };
                let attr = FileAttr {
                    ino,
                    size,
                    blocks: blocks_of(size),
                    atime: p.atime,
                    mtime: p.mtime,
                    ctime: p.atime,
                    crtime: p.crtime,
                    kind: FileKind::RegularFile,
                    perm: perm_of(p.mode, p.is_dir),
                    nlink: 1,
                    uid: match config.uid {
                        Some(u) => u,
                        None => p.uid,
                    },
                    gid: match config.gid {
                        Some(g) => g,
                        None => p.gid,
                    },
                    rdev: 0,
                    blksize: 512,
                    flags: 0,
                };
                (attr, false)
            },
            Err(_) => {
                let cfg_size = match config.size {
                    Some(s) => s,
                    None => 0,
                };
                let attr = FileAttr {
                    ino,
                    size: 0,
                    blocks: blocks_of(cfg_size),
                    atime: now,
                    mtime: now,
                    ctime: now,
                    crtime: now,
                    kind: FileKind::RegularFile,
                    perm: 0o666,
                    nlink: 1,
                    uid: match config.uid {
                        Some(u) => u,
                        None => 0,
                    },
                    gid: match config.gid {
                        Some(g) => g,
                        None => 0,
                    },
                    rdev: 0,
                    blksize: 512,
                    flags: 0,
                };
                (attr, true)
            },
        }
    }

    /// Whether the cached snapshot is stale at `now` under the given timeout.
    pub fn outdated(&self, now: u64, timeout: u64) -> (r: bool)
        ensures
            r == spec_outdated(self.timestamp, now, timeout),
    {
        now < self.timestamp || now - self.timestamp > timeout
    }

    /// Applies the outcome of a fresh probe to this record, as
    /// `spec_refreshed` states.
    pub fn update_info(&mut self, probe: &Result<ProbeInfo, ProbeError>, now: u64)
        ensures
            spec_refreshed(*old(self), *final(self), *probe, now),
    {
        match probe {
            Ok(_) => {
                let (attr, err) = InodeInfo::get_metadata(probe, self.ino, &self.config, now);
                self.attr = attr;
                self.err = err;
            },
            Err(_) => {
                self.err = true;
            },
        }
        self.timestamp = now;
    }
}

/// Law: right after a refresh at tick `ts`, the snapshot is fresh, and it
/// stays fresh for exactly `timeout` ticks: it turns stale strictly after
/// the timeout elapses, and at any tick before the refresh (a clock that
/// went backward).
pub proof fn lemma_fresh_until_timeout(ts: u64, now: u64, timeout: u64)
    ensures
        ts <= now && now - ts <= timeout ==> !spec_outdated(ts, now, timeout),
        ts <= now && now - ts > timeout ==> spec_outdated(ts, now, timeout),
        now < ts ==> spec_outdated(ts, now, timeout),
        !spec_outdated(ts, ts, timeout),
{
}

} // verus!
