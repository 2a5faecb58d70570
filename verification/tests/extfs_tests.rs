use extfs::{compute_u64, DirEntryEnum, ExtfsError, FileSystem, Inode, SeekFrom, SuperBlock};
use extfs::BlockGroupDescriptor;

const LONG_TARGET: &str =
    "a1234567890/b1234567890/c1234567890/d1234567890/e1234567890/f1234567890/test.txt";

fn put_u16(img: &mut Vec<u8>, off: usize, v: u16) {
    img[off..off + 2].copy_from_slice(&v.to_le_bytes());
}

fn put_u32(img: &mut Vec<u8>, off: usize, v: u32) {
    img[off..off + 4].copy_from_slice(&v.to_le_bytes());
}

fn put_bytes(img: &mut Vec<u8>, off: usize, v: &[u8]) {
    img[off..off + v.len()].copy_from_slice(v);
}

/// A 60-byte inode block area holding an extent tree root with one leaf.
fn extent_root(first_block: u32, len: u16) -> Vec<u8> {
    let mut b = vec![0u8; 60];
    put_u16(&mut b, 0, 0xF30A); // magic
    put_u16(&mut b, 2, 1); // entries
    put_u16(&mut b, 4, 4); // max
    put_u16(&mut b, 6, 0); // depth
    put_u32(&mut b, 12, 0); // logical block
    put_u16(&mut b, 16, len); // covered blocks
    put_u16(&mut b, 18, 0); // start_hi
    put_u32(&mut b, 20, first_block); // start_lo
    b
}

/// Write inode `ino` (1-based) into the inode table at block 8.
fn put_inode(img: &mut Vec<u8>, ino: u32, mode: u16, size: u64, block: &[u8]) {
    let off = 8 * 1024 + (ino as usize - 1) * 256;
    put_u16(img, off, mode);
    put_u16(img, off + 2, 1000); // uid
    put_u32(img, off + 4, (size & 0xFFFF_FFFF) as u32); // size_lo
    put_u32(img, off + 8, 1_700_000_001); // atime
    put_u32(img, off + 12, 1_700_000_002); // ctime
    put_u32(img, off + 16, 1_700_000_000); // mtime
    put_u16(img, off + 24, 1000); // gid
    put_u16(img, off + 26, 1); // links_count
    put_u32(img, off + 32, 0x8_0000); // flags: extents
    put_bytes(img, off + 40, block);
    put_u32(img, off + 108, (size >> 32) as u32); // size_high
}

/// Append one filetype-layout directory entry at `off`; returns the next
/// offset.
fn put_dirent(img: &mut Vec<u8>, off: usize, ino: u32, name: &[u8], ftype: u8) -> usize {
    let base = 8 + name.len();
    let rec_len = ((base + 3) / 4) * 4;
    put_u32(img, off, ino);
    put_u16(img, off + 4, rec_len as u16);
    img[off + 6] = name.len() as u8;
    img[off + 7] = ftype;
    put_bytes(img, off + 8, name);
    off + rec_len
}

fn put_tail(img: &mut Vec<u8>, off: usize) {
    put_u32(img, off, 0);
    put_u16(img, off + 4, 12);
    img[off + 6] = 0;
    img[off + 7] = 0xDE;
    put_u32(img, off + 8, 0xABCD_1234);
}

/// A small ext4 image: 1 KiB blocks, one block group, a root directory
/// holding a file, two symlinks and a subdirectory.
fn build_image() -> Vec<u8> {
    let mut img = vec![0u8; 64 * 1024];

    // superblock at byte 1024
    put_u32(&mut img, 1024, 16); // inodes_count
    put_u32(&mut img, 1024 + 4, 64); // blocks_count_lo
    put_u32(&mut img, 1024 + 24, 0); // log_block_size: 1 KiB blocks
    put_u32(&mut img, 1024 + 32, 8192); // blocks_per_group
    put_u32(&mut img, 1024 + 40, 16); // inodes_per_group
    put_u16(&mut img, 1024 + 56, 0xEF53); // magic
    put_u16(&mut img, 1024 + 88, 256); // inode_size
    put_u32(&mut img, 1024 + 96, 0x42); // feature_incompat: filetype | extents

    // one 32-byte group descriptor at byte 2048: inode table at block 8
    put_u32(&mut img, 2048 + 8, 8);

    // inodes
    put_inode(&mut img, 2, 0x41ED, 1024, &extent_root(16, 1)); // root dir
    put_inode(&mut img, 11, 0x81A4, 6, &extent_root(18, 1)); // hello.txt
    let mut inline = vec![0u8; 60];
    inline[..9].copy_from_slice(b"hello.txt");
    put_inode(&mut img, 12, 0xA1FF, 9, &inline); // hello.txt.lnk
    put_inode(
        &mut img,
        13,
        0xA1FF,
        LONG_TARGET.len() as u64,
        &extent_root(19, 1),
    ); // test.txt.lnk
    put_inode(&mut img, 14, 0x41ED, 1024, &extent_root(17, 1)); // dir1
    put_inode(&mut img, 15, 0x81A4, 0, &extent_root(20, 0)); // dir1/file1
    put_inode(&mut img, 16, 0x81A4, 0, &extent_root(20, 0)); // dir1/file2

    // root directory data at block 16
    let mut off = 16 * 1024;
    off = put_dirent(&mut img, off, 2, b".", 2);
    off = put_dirent(&mut img, off, 2, b"..", 2);
    off = put_dirent(&mut img, off, 11, b"hello.txt", 1);
    off = put_dirent(&mut img, off, 12, b"hello.txt.lnk", 7);
    off = put_dirent(&mut img, off, 13, b"test.txt.lnk", 7);
    off = put_dirent(&mut img, off, 14, b"dir1", 2);
    put_tail(&mut img, off);

    // dir1 data at block 17
    let mut off = 17 * 1024;
    off = put_dirent(&mut img, off, 14, b".", 2);
    off = put_dirent(&mut img, off, 2, b"..", 2);
    off = put_dirent(&mut img, off, 15, b"file1", 1);
    off = put_dirent(&mut img, off, 16, b"file2", 1);
    put_tail(&mut img, off);

    // file contents
    put_bytes(&mut img, 18 * 1024, b"hello\n");
    put_bytes(&mut img, 19 * 1024, LONG_TARGET.as_bytes());

    img
}

fn new_fs() -> FileSystem {
    FileSystem::from_reader(build_image()).unwrap()
}

fn read_to_end(f: &mut extfs::File) -> Vec<u8> {
    let mut out = Vec::new();
    loop {
        let chunk = f.read(64).unwrap();
        if chunk.is_empty() {
            return out;
        }
        out.extend(chunk);
    }
}

#[test]
fn test_compute_u64() {
    assert_eq!(compute_u64(0x01, 0x01), 0x0000_0001_0000_0001);
    assert_eq!(compute_u64(0x00, 0x01), 0x0000_0001_0000_0000);
    assert_eq!(compute_u64(0x01, 0x00), 0x0000_0000_0000_0001);
}

#[test]
fn test_inode() {
    let size = std::mem::size_of::<Inode>();
    println!("{}", size);
}

#[test]
fn test_super_block() {
    let img = build_image();
    let super_block = SuperBlock::from_reader(&img).unwrap();
    assert!(!super_block.feature_incompat_64bit());
    assert!(super_block.feature_incompat_filetype());
    assert!(super_block.feature_incompat_extents());
    assert_eq!(super_block.get_block_size(), 1024);
    assert_eq!(super_block.get_block_count(), 64);
    assert_eq!(super_block.get_block_group_count(), 1);
}

#[test]
fn test_block_group_descriptor() {
    let img = build_image();
    let first_bgd = BlockGroupDescriptor::from_reader(&img, 2048, false).unwrap();
    assert_eq!(first_bgd.get_inode_table_loc(), 8);
    assert_eq!(first_bgd.get_block_bitmap_loc(), 0);
    assert_eq!(first_bgd.get_inode_bitmap_loc(), 0);
}

#[test]
fn test_get_inode() {
    let fs = new_fs();
    let block_size = fs.super_block.get_block_size();
    let m = fs.metadata("/").unwrap();
    assert!(m.is_dir());
    let extents = m.inode.extents(block_size, &fs.image).unwrap();
    assert_eq!(extents.len(), 1);
    assert_eq!(extents[0].get_block_loc(), 16);
    assert_eq!(extents[0].len, 1);
}

#[test]
fn test_read() {
    let fs = new_fs();
    let b = fs.read("/hello.txt").unwrap();
    assert_eq!("hello\n", String::from_utf8_lossy(&b).to_string());
}

#[test]
fn test_read_exact_size() {
    let fs = new_fs();
    let b = fs.read("/hello.txt").unwrap();
    let m = fs.metadata("/hello.txt").unwrap();
    assert_eq!(b.len() as u64, m.len());
}

#[test]
fn test_read_link() {
    let fs = new_fs();
    let p = fs.read_link("/hello.txt.lnk").unwrap();
    assert_eq!("hello.txt", p);

    let p = fs.read_link("/test.txt.lnk").unwrap();
    assert_eq!(LONG_TARGET, p);
}

#[test]
fn test_read_dir() {
    let fs = new_fs();
    let mut rd = fs.read_dir("/dir1").unwrap();
    let mut names = Vec::new();
    while let Some(x) = rd.next() {
        let e = x.unwrap();
        assert!(!e.is_dot());
        assert!(!e.is_dotdot());
        names.push(e.get_name_str());
    }
    assert_eq!(names, vec!["file1".to_string(), "file2".to_string()]);
}

#[test]
fn test_read_dir_root() {
    let fs = new_fs();
    let mut rd = fs.read_dir("/").unwrap();
    let mut names = Vec::new();
    while let Some(x) = rd.next() {
        names.push(x.unwrap().get_name_str());
    }
    assert_eq!(
        names,
        vec!["hello.txt", "hello.txt.lnk", "test.txt.lnk", "dir1"]
    );
}

#[test]
fn test_metadata() {
    let fs = new_fs();
    let m = fs.metadata("/hello.txt").unwrap();
    assert!(m.is_file());
    assert!(!m.is_dir());
    assert!(!m.is_symlink());
    assert_eq!(m.len(), 6);
    assert_eq!(m.uid(), 1000);
    assert_eq!(m.gid(), 1000);
    assert_eq!(m.permissions(), 0o644);
    assert_eq!(m.modified(), 1_700_000_000);
    assert_eq!(m.accessed(), 1_700_000_001);
    assert_eq!(m.created(), 1_700_000_002);
}

#[test]
fn test_open() {
    let fs = new_fs();
    let mut f = fs.open("/hello.txt").unwrap();
    let buf = read_to_end(&mut f);
    assert_eq!(buf, b"hello\n");

    f.seek(SeekFrom::Start(2)).unwrap();
    let buf = read_to_end(&mut f);
    assert_eq!(buf, b"llo\n");

    f.seek(SeekFrom::End(-2)).unwrap();
    let buf = read_to_end(&mut f);
    assert_eq!(buf, b"o\n");

    f.seek(SeekFrom::Current(-1)).unwrap();
    let buf = read_to_end(&mut f);
    assert_eq!(buf, b"\n");
}

#[test]
fn test_open_equals_read() {
    let fs = new_fs();
    let whole = fs.read("/hello.txt").unwrap();
    let fs2 = new_fs();
    let mut f = fs2.open("/hello.txt").unwrap();
    let streamed = read_to_end(&mut f);
    assert_eq!(whole, streamed);
}

#[test]
fn test_require_absolute_path() {
    let fs = new_fs();
    match fs.read_dir("relative/path") {
        Err(ExtfsError::RequireAbsolutePath(p)) => assert_eq!(p, "relative/path"),
        other => panic!("unexpected outcome: {:?}", other.map(|_| ())),
    }
}

#[test]
fn test_no_such_file_or_directory() {
    let fs = new_fs();
    match fs.read("/nope") {
        Err(ExtfsError::NoSuchFileOrDirectory(p)) => assert_eq!(p, "/nope"),
        other => panic!("unexpected outcome: {:?}", other),
    }
}

#[test]
fn test_is_not_regular() {
    let fs = new_fs();
    match fs.read("/dir1") {
        Err(ExtfsError::IsNotRegular(p)) => assert_eq!(p, "/dir1"),
        other => panic!("unexpected outcome: {:?}", other),
    }
}

#[test]
fn test_is_not_directory() {
    let fs = new_fs();
    match fs.read("/hello.txt/sub") {
        Err(ExtfsError::IsNotDirectory(p)) => assert_eq!(p, "/hello.txt/sub"),
        other => panic!("unexpected outcome: {:?}", other),
    }
}

#[test]
fn test_lookup_errors_carry_resolved_prefix() {
    let fs = new_fs();
    // the "." component is normalized away in the reported path
    match fs.read("/./nope") {
        Err(ExtfsError::NoSuchFileOrDirectory(p)) => assert_eq!(p, "/nope"),
        other => panic!("unexpected outcome: {:?}", other),
    }
    // ".." pops the reported path too
    match fs.read("/dir1/../nope") {
        Err(ExtfsError::NoSuchFileOrDirectory(p)) => assert_eq!(p, "/nope"),
        other => panic!("unexpected outcome: {:?}", other),
    }
    // walking past a non-directory reports the prefix up to the failing
    // component, not the whole path
    match fs.read("/hello.txt/a/b") {
        Err(ExtfsError::IsNotDirectory(p)) => assert_eq!(p, "/hello.txt/a"),
        other => panic!("unexpected outcome: {:?}", other),
    }
    match fs.read("/dir1/ghost/x") {
        Err(ExtfsError::NoSuchFileOrDirectory(p)) => assert_eq!(p, "/dir1/ghost"),
        other => panic!("unexpected outcome: {:?}", other),
    }
}

#[test]
fn test_is_not_symlink() {
    let fs = new_fs();
    match fs.read_link("/hello.txt") {
        Err(ExtfsError::IsNotSymlink(p)) => assert_eq!(p, "/hello.txt"),
        other => panic!("unexpected outcome: {:?}", other),
    }
}

#[test]
fn test_unexpected_parent_dir() {
    let fs = new_fs();
    match fs.read("/..") {
        Err(ExtfsError::UnexpectedParentDir(p)) => assert_eq!(p, "/.."),
        other => panic!("unexpected outcome: {:?}", other),
    }
}

#[test]
fn test_path_normalization() {
    let fs = new_fs();
    let plain = fs.read("/hello.txt").unwrap();
    let with_cur = fs.read("/./hello.txt").unwrap();
    let with_parent = fs.read("/dir1/../hello.txt").unwrap();
    assert_eq!(plain, with_cur);
    assert_eq!(plain, with_parent);
    let doubled = fs.read("//hello.txt").unwrap();
    assert_eq!(plain, doubled);
}

#[test]
fn test_large_block_size_mounts() {
    // 8 MiB blocks (log_block_size = 23) are legal geometry
    let mut img = vec![0u8; 4096];
    put_u32(&mut img, 1024, 16); // inodes_count
    put_u32(&mut img, 1024 + 4, 64); // blocks_count_lo
    put_u32(&mut img, 1024 + 24, 23); // log_block_size
    put_u32(&mut img, 1024 + 32, 8192); // blocks_per_group
    put_u32(&mut img, 1024 + 40, 16); // inodes_per_group
    put_u16(&mut img, 1024 + 56, 0xEF53); // magic
    put_u16(&mut img, 1024 + 88, 256); // inode_size
    put_u32(&mut img, 1024 + 96, 0x42); // feature_incompat
    let sb = SuperBlock::from_reader(&img).unwrap();
    assert_eq!(sb.get_block_size(), 1024u64 << 23);
    let fs = FileSystem::from_reader(img).unwrap();
    assert_eq!(fs.super_block.get_block_size(), 8_589_934_592);
}

#[test]
fn test_block_size_past_u64_is_rejected() {
    // 1024 << 54 does not fit a u64: the record is malformed
    let mut img = build_image();
    put_u32(&mut img, 1024 + 24, 54);
    match FileSystem::from_reader(img) {
        Err(ExtfsError::Decode) => {},
        other => panic!("unexpected outcome: {:?}", other.map(|_| ())),
    }
}

#[test]
fn test_invalid_super_block_magic() {
    let mut img = build_image();
    put_u16(&mut img, 1024 + 56, 0xBEEF);
    match FileSystem::from_reader(img) {
        Err(ExtfsError::InvalidSuperBlockMagic(m)) => assert_eq!(m, 0xBEEF),
        other => panic!("unexpected outcome: {:?}", other.map(|_| ())),
    }
}

#[test]
fn test_block_group_count_mismatch() {
    let mut img = build_image();
    put_u32(&mut img, 1024 + 40, 4); // inodes_per_group: 16/4 = 4 groups
    match FileSystem::from_reader(img) {
        Err(ExtfsError::BlockGroupCountMismatch { blocks, inodes }) => {
            assert_eq!(blocks, 1);
            assert_eq!(inodes, 4);
        },
        other => panic!("unexpected outcome: {:?}", other.map(|_| ())),
    }
}

#[test]
fn test_unsupported_without_extents() {
    let mut img = build_image();
    put_u32(&mut img, 1024 + 96, 0x2); // filetype only
    match FileSystem::from_reader(img) {
        Err(ExtfsError::Unsupported) => {},
        other => panic!("unexpected outcome: {:?}", other.map(|_| ())),
    }
}

#[test]
fn test_invalid_extent_header_magic() {
    let mut img = build_image();
    // corrupt the magic of the root directory inode's extent tree root
    let root_block_area = 8 * 1024 + 256 + 40;
    put_u16(&mut img, root_block_area, 0x1234);
    let fs = FileSystem::from_reader(img).unwrap();
    match fs.read("/hello.txt") {
        Err(ExtfsError::InvalidExtentHeaderMagic(m)) => assert_eq!(m, 0x1234),
        other => panic!("unexpected outcome: {:?}", other),
    }
}

#[test]
fn test_decode_error_on_truncated_image() {
    let img = vec![0u8; 100];
    match FileSystem::from_reader(img) {
        Err(ExtfsError::Decode) => {},
        other => panic!("unexpected outcome: {:?}", other.map(|_| ())),
    }
}

#[test]
fn test_block_group_descriptor_not_found() {
    let mut img = build_image();
    // point the hello.txt entry at inode 999: group 62, far past the
    // single descriptor of this image
    put_u32(&mut img, 16 * 1024 + 12 + 12, 999);
    let fs = FileSystem::from_reader(img).unwrap();
    match fs.read("/hello.txt") {
        Err(ExtfsError::BlockGroupDescriptorNotFound(g)) => assert_eq!(g, 62),
        other => panic!("unexpected outcome: {:?}", other),
    }
}

#[test]
fn test_dir_entry_surface() {
    let fs = new_fs();
    let mut rd = fs.read_dir("/").unwrap();
    let first = rd.next().unwrap().unwrap();
    match &first {
        DirEntryEnum::DirEntry2(e) => {
            assert_eq!(e.name, b"hello.txt".to_vec());
        },
        other => panic!("unexpected entry shape: {:?}", other),
    }
    assert_eq!(first.get_ino(), Some(11));
    assert_eq!(first.get_name_str(), "hello.txt");
    assert_eq!(first.get_rec_len(), 20);
}

#[test]
fn test_seek_rejections() {
    let fs = new_fs();
    let mut f = fs.open("/hello.txt").unwrap();
    match f.seek(SeekFrom::End(1)) {
        Err(ExtfsError::Other(_)) => {},
        other => panic!("unexpected outcome: {:?}", other),
    }
    match f.seek(SeekFrom::End(-100)) {
        Err(ExtfsError::Other(_)) => {},
        other => panic!("unexpected outcome: {:?}", other),
    }
    match f.seek(SeekFrom::Current(-1000)) {
        Err(ExtfsError::Other(_)) => {},
        other => panic!("unexpected outcome: {:?}", other),
    }
    // the cursor is untouched by rejected seeks
    let buf = read_to_end(&mut f);
    assert_eq!(buf, b"hello\n");
}

#[test]
fn test_malformed_tail_is_an_error() {
    let mut img = build_image();
    // dir1's tail entry: break its 0xDE marker
    let tail_off = 17 * 1024 + 12 + 12 + 16 + 16;
    img[tail_off + 7] = 0x00;
    let fs = FileSystem::from_reader(img).unwrap();
    let mut rd = fs.read_dir("/dir1").unwrap();
    let mut saw_error = false;
    while let Some(x) = rd.next() {
        match x {
            Ok(e) => {
                assert!(!e.is_dot() && !e.is_dotdot());
            },
            Err(ExtfsError::Other(_)) => {
                saw_error = true;
                break;
            },
            Err(e) => panic!("unexpected error: {:?}", e),
        }
    }
    assert!(saw_error);
}

#[test]
fn test_classic_layout_without_filetype() {
    // same image, but without the filetype feature: entries carry a 16-bit
    // name length and no type byte
    let mut img = vec![0u8; 64 * 1024];
    put_u32(&mut img, 1024, 16);
    put_u32(&mut img, 1024 + 4, 64);
    put_u32(&mut img, 1024 + 24, 0);
    put_u32(&mut img, 1024 + 32, 8192);
    put_u32(&mut img, 1024 + 40, 16);
    put_u16(&mut img, 1024 + 56, 0xEF53);
    put_u16(&mut img, 1024 + 88, 256);
    put_u32(&mut img, 1024 + 96, 0x40); // extents only
    put_u32(&mut img, 2048 + 8, 8);
    put_inode(&mut img, 2, 0x41ED, 1024, &extent_root(16, 1));
    put_inode(&mut img, 11, 0x81A4, 3, &extent_root(18, 1));
    // classic entry: u32 inode, u16 rec_len, u16 name_len, name
    let off = 16 * 1024;
    put_u32(&mut img, off, 11);
    put_u16(&mut img, off + 4, 12);
    put_u16(&mut img, off + 6, 3);
    put_bytes(&mut img, off + 8, b"abc");
    put_tail(&mut img, off + 12);
    put_bytes(&mut img, 18 * 1024, b"xy\n");

    let fs = FileSystem::from_reader(img).unwrap();
    let b = fs.read("/abc").unwrap();
    assert_eq!(b, b"xy\n");
}
