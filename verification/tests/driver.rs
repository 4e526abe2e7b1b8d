use rangefs::bytes::read_from;
use rangefs::metadata::{FileKind, InodeConfig, ProbeError, ProbeInfo};
use rangefs::options::parse_config;
use rangefs::rangefs::{FsError, RangeFs, ReadOutcome};

fn probe(size: u64) -> Result<ProbeInfo, ProbeError> {
    Ok(ProbeInfo {
        size,
        mode: 0o100644,
        is_dir: false,
        uid: 500,
        gid: 600,
        atime: 11,
        mtime: 12,
        crtime: 13,
    })
}

fn failed(code: Option<i32>) -> Result<ProbeInfo, ProbeError> {
    Err(ProbeError { code })
}

fn named(name: &str) -> InodeConfig {
    InodeConfig {
        name: Some(name.to_string()),
        offset: None,
        size: None,
        uid: None,
        gid: None,
        preload: false,
    }
}

/// Serves a read request against an in-memory backing file, the way the
/// caller of `read` would against a real one.
fn serve(fs: &RangeFs, backing: &Vec<u8>, ino: u64, offset: u64, size: u64) -> Result<Vec<u8>, FsError> {
    match fs.read(ino, offset, size)? {
        ReadOutcome::Data(v) => Ok(v),
        ReadOutcome::Fetch(off, len) => Ok(read_from(backing, off, len)),
    }
}

#[test]
fn register_assigns_sequential_inodes_from_two() {
    let mut fs = RangeFs::new(1);
    assert_eq!(fs.register_config(named("a"), "src", &probe(8), 0), Some(2));
    assert_eq!(fs.register_config(named("b"), "src", &probe(8), 0), Some(3));
}

#[test]
fn duplicate_name_keeps_first_registration() {
    let mut fs = RangeFs::new(1);
    let mut cfg = named("a");
    cfg.size = Some(4);
    assert_eq!(fs.register_config(cfg, "src", &probe(8), 0), Some(2));
    let mut dup = named("a");
    dup.size = Some(7);
    assert_eq!(fs.register_config(dup, "src", &probe(8), 0), None);
    // The duplicate consumed an inode slot all the same.
    assert_eq!(fs.register_config(named("b"), "src", &probe(8), 0), Some(4));
    // The first registration's size is the one served.
    let attr = fs.getattr(2, None, 0).unwrap();
    assert_eq!(attr.size, 4);
}

#[test]
fn default_name_is_the_backing_base_name() {
    let mut fs = RangeFs::new(1);
    let cfg = parse_config("offset=2").unwrap();
    assert_eq!(fs.register_config(cfg, "disk.img", &probe(8), 0), Some(2));
    let attr = fs.lookup(1, "disk.img", None, 0).unwrap();
    assert_eq!(attr.ino, 2);
    assert_eq!(attr.size, 6);
}

#[test]
fn lookup_misses_are_not_found() {
    let mut fs = RangeFs::new(1);
    fs.register_config(named("a"), "src", &probe(8), 0);
    assert_eq!(fs.lookup(2, "a", None, 0), Err(FsError::NotFound));
    assert_eq!(fs.lookup(1, "missing", None, 0), Err(FsError::NotFound));
}

#[test]
fn lookup_propagates_available_probe_error_code() {
    let mut fs = RangeFs::new(1);
    fs.register_config(named("a"), "src", &probe(8), 0);
    assert_eq!(fs.lookup(1, "a", Some(&failed(Some(13))), 9), Err(FsError::Os(13)));
    // Without a code the previous snapshot is returned instead.
    let attr = fs.lookup(1, "a", Some(&failed(None)), 10).unwrap();
    assert_eq!(attr.size, 8);
}

#[test]
fn getattr_root_is_synthetic_directory() {
    let mut fs = RangeFs::new(1);
    let attr = fs.getattr(1, None, 77).unwrap();
    assert_eq!(attr.ino, 1);
    assert_eq!(attr.kind, FileKind::Directory);
    assert_eq!(attr.size, 0);
    assert_eq!(attr.perm, 0o777);
    assert_eq!(attr.uid, 0);
    assert_eq!(attr.atime, 77);
}

#[test]
fn getattr_unknown_inode_is_not_found() {
    let mut fs = RangeFs::new(1);
    assert_eq!(fs.getattr(9, None, 0), Err(FsError::NotFound));
}

#[test]
fn stale_window_then_failed_probe_degrades_record() {
    // Timeout of 5 ticks; registered (and fresh) at tick 0.
    let mut fs = RangeFs::new(5);
    let ino = fs.register_config(named("a"), "src", &probe(8), 0).unwrap();
    // Within the window the cache is fresh: no probe needed, old attributes.
    assert!(!fs.needs_refresh(ino, 5));
    let attr = fs.getattr(ino, None, 5).unwrap();
    assert_eq!(attr.size, 8);
    // Strictly past the window the record is stale; the backing file is
    // gone, so the refresh fails and getattr reports an I/O error.
    assert!(fs.needs_refresh(ino, 6));
    assert_eq!(fs.getattr(ino, Some(&failed(Some(2))), 6), Err(FsError::Io));
    // The failure is remembered until a probe succeeds again.
    assert_eq!(fs.getattr(ino, None, 7), Err(FsError::Io));
    assert_eq!(fs.open(ino, None, 7), Err(FsError::Io));
    // The refresh stamped the record, so it is fresh again for a while.
    assert!(!fs.needs_refresh(ino, 8));
    // A successful probe heals the record.
    let attr = fs.getattr(ino, Some(&probe(16)), 20).unwrap();
    assert_eq!(attr.size, 16);
}

#[test]
fn open_returns_placeholder_handle() {
    let mut fs = RangeFs::new(1);
    let ino = fs.register_config(named("a"), "src", &probe(8), 0).unwrap();
    assert_eq!(fs.open(ino, None, 0), Ok((0, 0)));
    assert_eq!(fs.open(1, None, 0), Err(FsError::NotFound));
    assert_eq!(fs.open(9, None, 0), Err(FsError::NotFound));
}

#[test]
fn readdir_lists_dot_dotdot_and_every_name() {
    let mut fs = RangeFs::new(1);
    fs.register_config(named("a"), "src", &probe(8), 0);
    fs.register_config(named("b"), "src", &probe(8), 0);
    assert!(matches!(fs.readdir(2, 0), Err(FsError::NotFound)));
    let all = fs.readdir(1, 0).unwrap();
    let names: Vec<&str> = all.iter().map(|e| e.name.as_str()).collect();
    assert_eq!(names, vec![".", "..", "a", "b"]);
    assert_eq!(all[0].ino, 1);
    assert_eq!(all[0].kind, FileKind::Directory);
    assert_eq!(all[1].ino, 1);
    assert_eq!(all[2].ino, 2);
    assert_eq!(all[2].kind, FileKind::RegularFile);
    assert_eq!(all[3].ino, 3);
    let cursors: Vec<u64> = all.iter().map(|e| e.cursor).collect();
    assert_eq!(cursors, vec![1, 2, 3, 4]);
}

#[test]
fn paginated_readdir_concatenates_to_full_listing() {
    let mut fs = RangeFs::new(1);
    fs.register_config(named("a"), "src", &probe(8), 0);
    fs.register_config(named("b"), "src", &probe(8), 0);
    let full: Vec<String> = fs.readdir(1, 0).unwrap().into_iter().map(|e| e.name).collect();
    // A sink that takes three entries, then a resumed call at the cursor
    // of the last entry delivered.
    let first = fs.readdir(1, 0).unwrap();
    let page1: Vec<_> = first.into_iter().take(3).collect();
    let resume = page1.last().unwrap().cursor;
    let page2 = fs.readdir(1, resume).unwrap();
    let mut joined: Vec<String> = page1.into_iter().map(|e| e.name).collect();
    joined.extend(page2.into_iter().map(|e| e.name));
    assert_eq!(joined, full);
    // A cursor at or past the end yields an empty page, not an error.
    assert_eq!(fs.readdir(1, 4).unwrap().len(), 0);
    assert_eq!(fs.readdir(1, 100).unwrap().len(), 0);
}

#[test]
fn read_unknown_and_degraded_inodes_fail() {
    let mut fs = RangeFs::new(1);
    assert!(matches!(fs.read(2, 0, 4), Err(FsError::NotFound)));
    fs.register_config(named("bad"), "src", &failed(None), 0);
    assert!(matches!(fs.read(2, 0, 4), Err(FsError::Io)));
}

#[test]
fn read_past_the_end_returns_zero_bytes() {
    let backing: Vec<u8> = (0u8..8).collect();
    let mut fs = RangeFs::new(1);
    let mut cfg = named("a");
    cfg.size = Some(8);
    let ino = fs.register_config(cfg, "src", &probe(8), 0).unwrap();
    assert_eq!(serve(&fs, &backing, ino, 8, 4).unwrap(), Vec::<u8>::new());
    assert_eq!(serve(&fs, &backing, ino, 100, 4).unwrap(), Vec::<u8>::new());
    // A read crossing the end is shortened, not failed.
    assert_eq!(serve(&fs, &backing, ino, 6, 4).unwrap(), vec![6, 7]);
}

#[test]
fn full_read_equals_backing_range() {
    let backing: Vec<u8> = (0u8..32).collect();
    let mut fs = RangeFs::new(1);
    let cfg = parse_config("name=mid:offset=5:size=9").unwrap();
    let ino = fs.register_config(cfg, "src", &probe(32), 0).unwrap();
    let bytes = serve(&fs, &backing, ino, 0, 9).unwrap();
    assert_eq!(bytes, backing[5..14].to_vec());
}

#[test]
fn preloaded_and_direct_reads_agree() {
    // A virtual file with preload, size 100 at offset 10 of a 120-byte
    // backing file.
    let backing: Vec<u8> = (0..120).map(|i| (i * 7 % 256) as u8).collect();
    let mut fs = RangeFs::new(1);
    let cfg = parse_config("name=pre:offset=10:size=100:preload").unwrap();
    let ino = fs.register_config(cfg, "src", &probe(120), 0).unwrap();
    let (off, len) = fs.preload_plan(ino).unwrap();
    assert_eq!((off, len), (10, 100));
    fs.set_preload(ino, read_from(&backing, off, len));
    // Served from memory now.
    let from_cache = match fs.read(ino, 0, 50).unwrap() {
        ReadOutcome::Data(v) => v,
        ReadOutcome::Fetch(_, _) => panic!("expected the preloaded bytes"),
    };
    // The same 50 bytes a direct positioned read returns.
    let direct = read_from(&backing, 10, 50);
    assert_eq!(from_cache, direct);
    assert_eq!(from_cache, backing[10..60].to_vec());
}

#[test]
fn preload_plan_absent_without_flag_or_after_failed_probe() {
    let mut fs = RangeFs::new(1);
    let plain = fs.register_config(named("plain"), "src", &probe(8), 0).unwrap();
    assert_eq!(fs.preload_plan(plain), None);
    let mut cfg = named("bad");
    cfg.preload = true;
    let bad = fs.register_config(cfg, "src", &failed(None), 0).unwrap();
    assert_eq!(fs.preload_plan(bad), None);
    assert_eq!(fs.preload_plan(99), None);
}

#[test]
fn statfs_sums_blocks_and_counts_files() {
    let mut fs = RangeFs::new(1);
    let mut a = named("a");
    a.size = Some(1024);
    let mut b = named("b");
    b.size = Some(1);
    fs.register_config(a, "src", &probe(4096), 0);
    fs.register_config(b, "src", &probe(4096), 0);
    let st = fs.statfs();
    assert_eq!(st.blocks, 3);
    assert_eq!(st.files, 2);
    assert_eq!(st.bsize, 512);
    assert_eq!(st.frsize, 512);
    assert_eq!(st.namelen, 255);
    assert_eq!(st.bfree, 0);
    assert_eq!(st.bavail, 0);
    assert_eq!(st.ffree, 0);
}

#[test]
fn two_ranges_over_one_backing_file() {
    // Two virtual files over the 8-byte backing file "ABCDEFGH".
    let backing: Vec<u8> = b"ABCDEFGH".to_vec();
    let mut fs = RangeFs::new(1);
    let a = parse_config("name=a:offset=0:size=4").unwrap();
    let b = parse_config("name=b:offset=4:size=4").unwrap();
    let ia = fs.register_config(a, "src", &probe(8), 0).unwrap();
    let ib = fs.register_config(b, "src", &probe(8), 0).unwrap();
    assert_eq!(serve(&fs, &backing, ia, 0, 4).unwrap(), b"ABCD".to_vec());
    assert_eq!(serve(&fs, &backing, ib, 0, 4).unwrap(), b"EFGH".to_vec());
    assert_eq!(fs.statfs().files, 2);
}
