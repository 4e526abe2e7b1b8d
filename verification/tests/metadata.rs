use rangefs::metadata::{
    blocks_of, perm_of, FileKind, InodeConfig, InodeInfo, ProbeError, ProbeInfo,
};

fn probe(size: u64) -> Result<ProbeInfo, ProbeError> {
    Ok(ProbeInfo {
        size,
        mode: 0o100644,
        is_dir: false,
        uid: 500,
        gid: 600,
        atime: 11,
        mtime: 12,
        crtime: 13,
    })
}

fn config(offset: Option<u64>, size: Option<u64>) -> InodeConfig {
    InodeConfig { name: None, offset, size, uid: None, gid: None, preload: false }
}

#[test]
fn derived_size_is_backing_minus_offset() {
    let (attr, err) = InodeInfo::get_metadata(&probe(100), 2, &config(Some(10), None), 0);
    assert!(!err);
    assert_eq!(attr.size, 90);
    assert_eq!(attr.blocks, 1);
}

#[test]
fn derived_size_floors_at_zero() {
    let (attr, err) = InodeInfo::get_metadata(&probe(4), 2, &config(Some(10), None), 0);
    assert!(!err);
    assert_eq!(attr.size, 0);
    assert_eq!(attr.blocks, 0);
}

#[test]
fn explicit_size_wins_over_backing() {
    let (attr, _) = InodeInfo::get_metadata(&probe(4), 2, &config(Some(10), Some(7)), 0);
    assert_eq!(attr.size, 7);
    assert_eq!(attr.blocks, 1);
}

#[test]
fn blocks_round_up_to_whole_blocks() {
    assert_eq!(blocks_of(0), 0);
    assert_eq!(blocks_of(1), 1);
    assert_eq!(blocks_of(512), 1);
    assert_eq!(blocks_of(513), 2);
    assert_eq!(blocks_of(1024), 2);
    assert_eq!(blocks_of(u64::MAX), u64::MAX / 512 + 1);
}

#[test]
fn perm_drops_format_bits_and_dir_exec_bits() {
    assert_eq!(perm_of(0o100644, false), 0o644);
    assert_eq!(perm_of(0o100755, false), 0o755);
    assert_eq!(perm_of(0o040755, true), 0o644);
}

#[test]
fn attr_carries_probe_values() {
    let (attr, err) = InodeInfo::get_metadata(&probe(100), 7, &config(None, None), 0);
    assert!(!err);
    assert_eq!(attr.ino, 7);
    assert_eq!(attr.size, 100);
    assert_eq!(attr.kind, FileKind::RegularFile);
    assert_eq!(attr.perm, 0o644);
    assert_eq!(attr.nlink, 1);
    assert_eq!(attr.uid, 500);
    assert_eq!(attr.gid, 600);
    assert_eq!(attr.atime, 11);
    assert_eq!(attr.mtime, 12);
    assert_eq!(attr.ctime, 11);
    assert_eq!(attr.crtime, 13);
    assert_eq!(attr.blksize, 512);
}

#[test]
fn config_owner_overrides_probe_owner() {
    let cfg = InodeConfig {
        name: None,
        offset: None,
        size: None,
        uid: Some(1),
        gid: Some(2),
        preload: false,
    };
    let (attr, _) = InodeInfo::get_metadata(&probe(8), 2, &cfg, 0);
    assert_eq!(attr.uid, 1);
    assert_eq!(attr.gid, 2);
}

#[test]
fn failed_probe_gives_placeholder_attr() {
    let failed: Result<ProbeInfo, ProbeError> = Err(ProbeError { code: Some(2) });
    let (attr, err) = InodeInfo::get_metadata(&failed, 3, &config(None, Some(1024)), 99);
    assert!(err);
    assert_eq!(attr.size, 0);
    assert_eq!(attr.blocks, 2);
    assert_eq!(attr.perm, 0o666);
    assert_eq!(attr.uid, 0);
    assert_eq!(attr.gid, 0);
    assert_eq!(attr.atime, 99);
}

#[test]
fn outdated_is_strict_at_the_timeout_boundary() {
    let info = InodeInfo::new(2, config(None, None), &probe(8), 100);
    assert!(!info.outdated(100, 5));
    assert!(!info.outdated(103, 5));
    assert!(!info.outdated(105, 5));
    assert!(info.outdated(106, 5));
    assert!(info.outdated(99, 5));
}

#[test]
fn refresh_failure_keeps_snapshot_and_sets_error() {
    let mut info = InodeInfo::new(2, config(None, None), &probe(100), 0);
    assert!(!info.err);
    assert_eq!(info.attr.size, 100);
    let failed: Result<ProbeInfo, ProbeError> = Err(ProbeError { code: None });
    info.update_info(&failed, 50);
    assert!(info.err);
    assert_eq!(info.attr.size, 100);
    assert_eq!(info.timestamp, 50);
}

#[test]
fn refresh_success_clears_error_and_rederives() {
    let mut info = InodeInfo::new(2, config(None, None), &Err(ProbeError { code: None }), 0);
    assert!(info.err);
    info.update_info(&probe(200), 10);
    assert!(!info.err);
    assert_eq!(info.attr.size, 200);
    assert_eq!(info.timestamp, 10);
}
