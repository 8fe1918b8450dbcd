use lib::errors::Errno;
use lib::fd_table::{FdFlags, FdTable, FileDescriptor};
use lib::name_map::{compare_bytes, ByteOrder, NameMap};
use lib::procfs::ProcDir;
use lib::tmpfs::TmpfsFile;
use lib::vfs::{init, NodeType, RootDir, Vfs};
use lib::tmpfs::TmpfsDir;

#[test]
fn fd_table_starts_with_standard_streams() {
    let table = FdTable::new();
    assert_eq!(table.get_descriptor(0), Ok(FileDescriptor::Stdin));
    assert_eq!(table.get_descriptor(1), Ok(FileDescriptor::Stdout));
    assert_eq!(table.get_descriptor(2), Ok(FileDescriptor::Stderr));
    assert_eq!(table.get_descriptor(3), Err(Errno::EBADF));
}

#[test]
fn fd_allocate_takes_lowest_free() {
    let mut table = FdTable::new();
    assert_eq!(table.allocate(FileDescriptor::VfsFile(7)), Ok(3));
    assert_eq!(table.allocate(FileDescriptor::PipeRead(1)), Ok(4));
    table.close(1).unwrap();
    assert_eq!(table.allocate(FileDescriptor::PipeWrite(1)), Ok(1));
    assert_eq!(table.get_vfs_file(3), Ok(7));
    assert_eq!(table.get_vfs_file(4), Err(Errno::EBADF));
}

#[test]
fn fd_close_unknown_is_ebadf() {
    let mut table = FdTable::new();
    assert!(matches!(table.close(9), Err(Errno::EBADF)));
    assert!(table.close(2).is_ok());
    assert!(matches!(table.close(2), Err(Errno::EBADF)));
}

#[test]
fn fd_dup_from_and_dup_to() {
    let mut table = FdTable::new();
    let flags = FdFlags::from_raw(0x80000);
    assert_eq!(table.dup_from(1, 10, flags), Ok(10));
    assert_eq!(table.get_descriptor(10), Ok(FileDescriptor::Stdout));
    assert!(table.get_flags(10).unwrap().is_cloexec());
    assert_eq!(table.dup_from(42, 0, flags), Err(Errno::EBADF));
    assert_eq!(table.dup_to(0, 0, 0), Err(Errno::EINVAL));
    assert_eq!(table.dup_to(5, 6, 0), Err(Errno::EBADF));
    assert_eq!(table.dup_to(0, 2, 0x800), Ok(2));
    assert_eq!(table.get_descriptor(2), Ok(FileDescriptor::Stdin));
    assert!(table.get_flags(2).unwrap().is_nonblocking());
}

#[test]
fn fd_flags_keep_only_known_bits() {
    let f = FdFlags::from_raw(0x800 | 0x80000 | 0x1);
    assert_eq!(f.as_raw(), 0x800 | 0x80000);
    assert!(f.is_nonblocking());
    assert!(f.is_cloexec());
    assert!(!FdFlags::default().is_cloexec());
}

#[test]
fn fd_close_cloexec_and_close_all() {
    let mut table = FdTable::new();
    table.set_flags(1, FdFlags::from_raw(0x80000)).unwrap();
    assert_eq!(table.set_flags(8, FdFlags::default()), Err(Errno::EBADF));
    table.close_cloexec_fds();
    assert_eq!(table.get_descriptor(1), Err(Errno::EBADF));
    assert_eq!(table.get_descriptor(0), Ok(FileDescriptor::Stdin));
    table.replace_descriptor(0, FileDescriptor::UnboundUdpSocket).unwrap();
    assert_eq!(table.get_descriptor(0), Ok(FileDescriptor::UnboundUdpSocket));
    table.close_all();
    assert_eq!(table.get_descriptor(0), Err(Errno::EBADF));
}

#[test]
fn name_order_is_byte_order() {
    assert_eq!(compare_bytes(b"abc", b"abd"), ByteOrder::Less);
    assert_eq!(compare_bytes(b"ab", b"abc"), ByteOrder::Less);
    assert_eq!(compare_bytes(b"b", b"abc"), ByteOrder::Greater);
    assert_eq!(compare_bytes(b"x", b"x"), ByteOrder::Equal);
}

#[test]
fn name_map_keeps_names_sorted() {
    let mut m = NameMap::new();
    m.insert(b"zeta", 1);
    m.insert(b"alpha", 2);
    m.insert(b"mid", 3);
    m.insert(b"alpha", 4);
    assert_eq!(m.len(), 3);
    assert_eq!(m.entry(0).0, b"alpha");
    assert_eq!(m.entry(0).1, 4);
    assert_eq!(m.entry(2).0, b"zeta");
    assert_eq!(m.get(b"mid"), Some(3));
    assert!(m.remove(b"mid"));
    assert!(!m.remove(b"mid"));
    assert_eq!(m.get(b"mid"), None);
}

#[test]
fn tmpfs_file_write_then_read() {
    let mut f = TmpfsFile::new(5);
    assert_eq!(f.write(2, b"hey"), Ok(3));
    assert_eq!(f.size(), 5);
    assert_eq!(f.data, vec![0, 0, b'h', b'e', b'y']);
    let mut buf = [9u8; 4];
    assert_eq!(f.read(1, &mut buf), Ok(4));
    assert_eq!(buf, [0, b'h', b'e', b'y']);
    let mut past = [1u8; 2];
    assert_eq!(f.read(9, &mut past), Ok(0));
    assert_eq!(past, [1, 1]);
    assert!(f.truncate().is_ok());
    assert_eq!(f.size(), 0);
}

fn mounted() -> (Vfs, usize, usize) {
    let mut vfs = Vfs::new();
    let root = RootDir::new(&mut vfs);
    init(&mut vfs);
    vfs.mount("/", root);
    (vfs, root, 1)
}

#[test]
fn init_mounts_tmp_and_proc() {
    let (mut vfs, root, tmp) = mounted();
    assert_eq!(vfs.resolve_path("/tmp"), Ok(tmp));
    assert_eq!(vfs.resolve_path("/"), Ok(root));
    let proc_dir = vfs.resolve_path("/proc").unwrap();
    let version = vfs.resolve_path("/proc/version").unwrap();
    assert_eq!(vfs.node_type(proc_dir), NodeType::Directory);
    assert_eq!(vfs.node_type(version), NodeType::File);
    let mut buf = [0u8; 32];
    assert_eq!(vfs.read(version, 0, &mut buf), Ok(13));
    assert_eq!(&buf[..13], b"Solaya 0.1.0\n");
    assert_eq!(vfs.write(version, 0, b"x"), Err(Errno::EACCES));
    assert_eq!(vfs.resolve_path("/proc/other"), Err(Errno::ENOENT));
}

#[test]
fn inode_numbers_count_up() {
    let mut vfs = Vfs::new();
    assert_eq!(vfs.alloc_ino(), 1);
    assert_eq!(vfs.alloc_ino(), 2);
    let d = TmpfsDir::new(&mut vfs);
    assert_eq!(vfs.ino(d), 3);
    let p = ProcDir::new(&mut vfs);
    assert_eq!(vfs.ino(p - 1), 4);
    assert_eq!(vfs.ino(p), 5);
}

#[test]
fn create_write_read_unlink() {
    let (mut vfs, _root, tmp) = mounted();
    let f = vfs.create(tmp, b"notes", NodeType::File).unwrap();
    assert_eq!(vfs.create(tmp, b"notes", NodeType::File), Err(Errno::EEXIST));
    assert_eq!(vfs.resolve_path("/tmp/notes"), Ok(f));
    assert_eq!(vfs.write(f, 0, b"hello"), Ok(5));
    let mut buf = [0u8; 5];
    assert_eq!(vfs.read(f, 0, &mut buf), Ok(5));
    assert_eq!(&buf, b"hello");
    assert_eq!(vfs.size(f), 5);
    let d = vfs.create(tmp, b"sub", NodeType::Directory).unwrap();
    assert_eq!(vfs.read(d, 0, &mut buf), Err(Errno::EISDIR));
    assert_eq!(vfs.create(f, b"x", NodeType::File), Err(Errno::ENOTDIR));
    let listing = vfs.readdir(tmp).unwrap();
    let names: Vec<Vec<u8>> = listing.iter().map(|e| e.name.clone()).collect();
    assert_eq!(names, vec![b"notes".to_vec(), b"sub".to_vec()]);
    assert_eq!(listing[1].node_type, NodeType::Directory);
    assert!(vfs.unlink(tmp, b"notes").is_ok());
    assert_eq!(vfs.unlink(tmp, b"notes"), Err(Errno::ENOENT));
    assert_eq!(vfs.resolve_path("/tmp/notes"), Err(Errno::ENOENT));
    assert!(vfs.truncate(d).is_err());
}

#[test]
fn resolve_parent_splits_last_component() {
    let (mut vfs, root, tmp) = mounted();
    let (parent, name) = vfs.resolve_parent("/tmp/new").unwrap();
    assert_eq!(parent, tmp);
    assert_eq!(name, b"new".to_vec());
    let (parent, name) = vfs.resolve_parent("/top").unwrap();
    assert_eq!(parent, root);
    assert_eq!(name, b"top".to_vec());
    assert!(matches!(vfs.resolve_parent("/tmp/"), Err(Errno::EINVAL)));
    assert!(matches!(vfs.resolve_parent("plain"), Err(Errno::EINVAL)));
    let d = vfs.create(tmp, b"a", NodeType::Directory).unwrap();
    let f = vfs.create(d, b"b", NodeType::File).unwrap();
    assert_eq!(vfs.resolve_relative(tmp, "a//b/"), Ok(f));
    assert_eq!(vfs.resolve_path("/tmp/a/b"), Ok(f));
    assert_eq!(vfs.resolve_path("/tmpx"), Err(Errno::ENOENT));
}

#[test]
fn longest_mount_wins_on_a_path_boundary() {
    let mut vfs = Vfs::new();
    let outer = TmpfsDir::new(&mut vfs);
    let inner = TmpfsDir::new(&mut vfs);
    vfs.mount("/a", outer);
    vfs.mount("/a/b", inner);
    assert_eq!(vfs.resolve_path("/a/b"), Ok(inner));
    assert_eq!(vfs.resolve_path("/a/bc"), Err(Errno::ENOENT));
    assert_eq!(vfs.resolve_path("/a"), Ok(outer));
    assert_eq!(vfs.resolve_path("/x"), Err(Errno::ENOENT));
}

#[test]
fn root_lists_mount_points() {
    let (vfs, root, _tmp) = mounted();
    let listing = vfs.readdir(root).unwrap();
    let names: Vec<Vec<u8>> = listing.iter().map(|e| e.name.clone()).collect();
    assert_eq!(names, vec![b"proc".to_vec(), b"tmp".to_vec()]);
    let proc_dir = vfs.resolve_path("/proc").unwrap();
    let listing = vfs.readdir(proc_dir).unwrap();
    assert_eq!(listing.len(), 1);
    assert_eq!(listing[0].name, b"version".to_vec());
    assert_eq!(listing[0].node_type, NodeType::File);
}

#[test]
fn device_files() {
    let null = lib::devfs::DevNull { ino: 1 };
    let mut buf = [7u8; 4];
    assert_eq!(null.read(0, &mut buf), Ok(0));
    assert_eq!(buf, [7u8; 4]);
    assert_eq!(null.write(0, b"abc"), Ok(3));
    assert_eq!(null.size(), 0);
    assert_eq!(null.truncate(), Ok(()));
    assert_eq!(null.node_type(), NodeType::File);

    let zero = lib::devfs::DevZero { ino: 2 };
    assert_eq!(zero.read(5, &mut buf), Ok(4));
    assert_eq!(buf, [0u8; 4]);
    assert_eq!(zero.write(0, b"abc"), Ok(3));
    assert_eq!(zero.ino(), 2);

    let vda = lib::devfs::DevVda { ino: 3 };
    assert_eq!(vda.size(&None), 0);
    let slot = Some(lib::block::BlockDevice::new(2));
    assert_eq!(vda.size(&slot), 1024);
    let sectors = vec![5u8; 512];
    let mut buf = [0u8; 3];
    assert_eq!(vda.read(&slot, 1, &mut buf, &sectors), Ok(3));
    assert_eq!(buf, [5, 5, 5]);
    assert_eq!(vda.read(&None, 1, &mut buf, &[]), Err(Errno::ENODEV));
    let (n, w) = vda.write(&slot, 1, &[1, 2], &sectors).unwrap();
    assert_eq!(n, 2);
    let w = w.unwrap();
    assert_eq!(&w.data[..4], &[5, 1, 2, 5]);
    assert_eq!(vda.truncate(), Err(Errno::EINVAL));
}

#[test]
fn an_empty_mount_path_serves_absolute_paths() {
    let mut vfs = Vfs::new();
    let dir = TmpfsDir::new(&mut vfs);
    vfs.mount("", dir);
    let f = vfs.create(dir, b"f", NodeType::File).unwrap();
    assert_eq!(vfs.resolve_path("/f"), Ok(f));
}
