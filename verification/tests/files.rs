use redox_kernel::error::{Error, EIO, ENOENT};
use redox_kernel::redoxfs::{Extent, ExtentRead, FileSystem, Node};
use redox_kernel::schemes::file::{
    path_of, DiskWrite, FileOpened, FileResource, FileScheme, O_CREAT,
};
use redox_kernel::schemes::resource::ResourceSeek;

fn node(block: u64, name: &str) -> Node {
    Node { block, name: name.as_bytes().to_vec(), extents: vec![Extent { block: 0, length: 0 }; 16] }
}

fn fs() -> FileSystem {
    FileSystem {
        free_space: Extent { block: 100, length: 1024 },
        nodes: vec![
            node(2, "readme.txt"),
            node(3, "bin/ls"),
            node(4, "bin/cat"),
            node(5, "home/user/notes"),
            node(6, "home/user/todo"),
            node(7, "home/root/x"),
        ],
    }
}

#[test]
fn extents_that_hold_nothing() {
    assert!(Extent { block: 0, length: 0 }.empty());
    assert!(Extent { block: 5, length: 0 }.empty());
    assert!(Extent { block: 0, length: 5 }.empty());
    assert!(!Extent { block: 5, length: 5 }.empty());
}

#[test]
fn the_reads_of_a_node() {
    let mut n = node(2, "f");
    n.extents[0] = Extent { block: 10, length: 1 };
    n.extents[1] = Extent { block: 0, length: 700 };
    n.extents[2] = Extent { block: 20, length: 512 };
    n.extents[5] = Extent { block: 30, length: 513 };
    assert_eq!(
        n.reads(),
        vec![
            ExtentRead { block: 10, max_size: 512, size: 1 },
            ExtentRead { block: 20, max_size: 512, size: 512 },
            ExtentRead { block: 30, max_size: 1024, size: 513 },
        ]
    );
    assert!(node(1, "empty").reads().is_empty());
    assert_eq!(n.duplicate(), n);
}

#[test]
fn nodes_by_name_and_by_directory() {
    let fs = fs();
    assert_eq!(fs.node(b"bin/cat").map(|n| n.block), Some(4));
    assert_eq!(fs.node(b"bin/"), None);
    assert_eq!(fs.node(b""), None);
    assert_eq!(fs.list(b"bin/"), vec![b"ls".to_vec(), b"cat".to_vec()]);
    assert_eq!(fs.list(b"home/user/"), vec![b"notes".to_vec(), b"todo".to_vec()]);
    assert_eq!(fs.list(b"none/"), Vec::<Vec<u8>>::new());
    assert_eq!(fs.list(b"readme.txt"), vec![Vec::<u8>::new()]);
    assert_eq!(fs.list(b"").len(), 6);
}

#[test]
fn the_path_of_a_reference() {
    assert_eq!(path_of(b"/bin/ls"), b"bin/ls".to_vec());
    assert_eq!(path_of(b"///bin/"), b"bin/".to_vec());
    assert_eq!(path_of(b"bin"), b"bin".to_vec());
    assert_eq!(path_of(b"//"), Vec::<u8>::new());
    assert_eq!(path_of(b""), Vec::<u8>::new());
}

#[test]
fn a_directory_lists_its_files_and_its_directories_once() {
    let scheme = FileScheme::new(fs());
    assert_eq!(scheme.listing(b""), b"readme.txt\nbin/\nhome/".to_vec());
    assert_eq!(scheme.listing(b"home/"), b"user/\nroot/".to_vec());
    assert_eq!(scheme.listing(b"bin/"), b"ls\ncat".to_vec());
    assert_eq!(scheme.listing(b"none/"), Vec::<u8>::new());
}

#[test]
fn open_of_a_directory() {
    let mut scheme = FileScheme::new(fs());
    match scheme.open(b"/bin/", 0) {
        Ok(FileOpened::Listing(list)) => {
            assert_eq!(list.data, b"ls\ncat".to_vec());
            assert_eq!(list.path, b"file:/bin/".to_vec());
        }
        other => panic!("{:?}", other),
    }
    assert!(matches!(scheme.open(b"/", 0), Ok(FileOpened::Listing(_))));
    assert!(matches!(scheme.open(b"", O_CREAT), Ok(FileOpened::Listing(_))));
    assert!(matches!(scheme.open(b"/none/", O_CREAT), Err(e) if e == Error::new(ENOENT)));
}

#[test]
fn open_of_a_file() {
    let mut scheme = FileScheme::new(fs());
    assert!(matches!(scheme.open(b"/bin/cat", 0), Ok(FileOpened::Found(2))));
    assert!(matches!(scheme.open(b"readme.txt", O_CREAT), Ok(FileOpened::Found(0))));
    assert!(matches!(scheme.open(b"/missing", 0), Err(e) if e == Error::new(ENOENT)));
    assert_eq!(scheme.fs.nodes.len(), 6);
}

#[test]
fn open_creates_a_file_and_takes_a_sector() {
    let mut scheme = FileScheme::new(fs());
    match scheme.open(b"/new.txt", O_CREAT) {
        Ok(FileOpened::Created(file)) => {
            assert_eq!(file.node, node(100, "new.txt"));
            assert!(file.vec.is_empty());
            assert_eq!(file.seek, 0);
            assert!(!file.dirty);
        }
        other => panic!("{:?}", other),
    }
    assert_eq!(scheme.fs.free_space, Extent { block: 101, length: 512 });
    assert_eq!(scheme.fs.nodes.last(), Some(&node(100, "new.txt")));
    assert!(matches!(scheme.open(b"/two", O_CREAT | 2), Ok(FileOpened::Created(_))));
    assert_eq!(scheme.fs.free_space, Extent { block: 102, length: 0 });
    // No sector is left: the node has no place on the disk yet.
    match scheme.open(b"/three", O_CREAT) {
        Ok(FileOpened::Created(file)) => assert_eq!(file.node.block, 0),
        other => panic!("{:?}", other),
    }
    assert_eq!(scheme.fs.free_space, Extent { block: 102, length: 0 });
    assert_eq!(scheme.fs.nodes.len(), 9);
}

#[test]
fn unlink_removes_the_nodes_of_the_name() {
    let mut scheme = FileScheme::new(fs());
    scheme.fs.nodes.push(node(9, "bin/ls"));
    assert_eq!(scheme.unlink(b"/bin/ls"), Ok(()));
    assert_eq!(
        scheme.fs.nodes.iter().map(|n| n.block).collect::<Vec<_>>(),
        vec![2, 4, 5, 6, 7]
    );
    assert_eq!(scheme.unlink(b"/bin/ls"), Err(Error::new(ENOENT)));
    assert_eq!(scheme.unlink(b"/bin/"), Err(Error::new(ENOENT)));
    assert_eq!(scheme.fs.nodes.len(), 5);
}

fn file(content: &[u8]) -> FileResource {
    FileResource { node: node(2, "dir/f"), vec: content.to_vec(), seek: 0, dirty: false }
}

#[test]
fn file_read_and_write() {
    let mut f = file(b"hello");
    let mut buf = [0u8; 3];
    assert_eq!(f.read(&mut buf), Ok(3));
    assert_eq!(&buf, b"hel");
    assert!(!f.dirty);
    assert_eq!(f.write(b""), Ok(0));
    assert!(!f.dirty);
    assert_eq!(f.write(b"p me"), Ok(4));
    assert_eq!(f.vec, b"help me".to_vec());
    assert_eq!(f.seek, 7);
    assert!(f.dirty);
    assert_eq!(f.read(&mut buf), Ok(0));
    assert_eq!(f.url(), b"file:/dir/f".to_vec());
    let copy = f.dup().unwrap();
    assert_eq!(copy.vec, f.vec);
    assert_eq!(copy.seek, 7);
    assert!(copy.dirty);
    assert_eq!(copy.node, f.node);
}

#[test]
fn file_seek_fills_up_with_zeros() {
    let mut f = file(b"abc");
    assert_eq!(f.seek(ResourceSeek::Start(2)), Ok(2));
    assert_eq!(f.vec, b"abc".to_vec());
    assert_eq!(f.seek(ResourceSeek::Current(-5)), Ok(0));
    assert_eq!(f.seek(ResourceSeek::End(-1)), Ok(2));
    assert_eq!(f.seek(ResourceSeek::End(3)), Ok(6));
    assert_eq!(f.vec, b"abc\0\0\0".to_vec());
    assert_eq!(f.seek(ResourceSeek::Current(1)), Ok(7));
    assert_eq!(f.vec.len(), 7);
    assert_eq!(f.seek(ResourceSeek::End(-100)), Ok(0));
    assert!(!f.dirty);
}

#[test]
fn file_truncate_marks_the_file() {
    let mut f = file(b"abcdef");
    f.seek(ResourceSeek::Start(5)).unwrap();
    assert_eq!(f.truncate(2), Ok(()));
    assert_eq!(f.vec, b"ab".to_vec());
    assert_eq!(f.seek, 2);
    assert!(f.dirty);
    assert_eq!(f.truncate(4), Ok(()));
    assert_eq!(f.vec, b"ab\0\0".to_vec());
    assert_eq!(f.seek, 2);
}

fn zeros(n: usize) -> Vec<u8> {
    vec![0u8; n]
}

#[test]
fn sync_of_a_clean_file_does_nothing() {
    let mut fs = fs();
    let mut f = file(b"abc");
    assert_eq!(f.sync(&mut fs), (Ok(()), vec![], false));
    assert_eq!(f.vec, b"abc".to_vec());
    assert_eq!(fs.free_space, Extent { block: 100, length: 1024 });
}

#[test]
fn sync_gives_a_new_file_room_from_the_free_space() {
    let mut fs = fs();
    fs.free_space = Extent { block: 100, length: 4096 };
    fs.nodes.push(node(2, "other"));
    let mut f = file(b"");
    f.write(&[7u8; 600]).unwrap();
    let (result, writes, rewrite) = f.sync(&mut fs);
    assert_eq!(result, Ok(()));
    assert!(rewrite);
    assert!(!f.dirty);
    let mut data = vec![7u8; 600];
    data.extend(zeros(424));
    assert_eq!(writes, vec![DiskWrite { block: 100, data }]);
    assert_eq!(f.node.extents[0], Extent { block: 100, length: 600 });
    assert_eq!(f.node.extents[1], Extent { block: 0, length: 0 });
    assert_eq!(fs.free_space, Extent { block: 102, length: 4096 - 1024 });
    assert_eq!(f.vec.len(), 600);
    // Every node at the sector of the file is brought up to date.
    assert_eq!(fs.nodes[0].name, b"dir/f".to_vec());
    assert_eq!(fs.nodes[0].extents[0], Extent { block: 100, length: 600 });
    assert_eq!(fs.nodes[6].name, b"dir/f".to_vec());
    assert_eq!(fs.nodes[1], node(3, "bin/ls"));
}

#[test]
fn sync_fills_the_extents_in_their_order() {
    let mut fs = fs();
    let mut f = file(b"");
    f.node.block = 50;
    f.node.extents[0] = Extent { block: 10, length: 512 };
    f.node.extents[2] = Extent { block: 20, length: 100 };
    f.write(&[1u8; 700]).unwrap();
    let (result, writes, rewrite) = f.sync(&mut fs);
    assert_eq!(result, Ok(()));
    assert!(rewrite);
    // The first extent is full; the second, which held nothing, gets room
    // for the rest; the third is left with nothing. The write of the first
    // extent cuts the content behind it: what follows is zeros.
    assert_eq!(writes.len(), 3);
    assert_eq!(writes[0], DiskWrite { block: 10, data: vec![1u8; 512] });
    assert_eq!(writes[1], DiskWrite { block: 100, data: zeros(512) });
    assert_eq!(writes[2], DiskWrite { block: 20, data: zeros(512) });
    assert_eq!(f.node.extents[0], Extent { block: 10, length: 512 });
    assert_eq!(f.node.extents[1], Extent { block: 100, length: 188 });
    assert_eq!(f.node.extents[2], Extent { block: 20, length: 0 });
    let mut content = vec![1u8; 512];
    content.extend(zeros(188));
    assert_eq!(f.vec, content);
    assert_eq!(fs.free_space, Extent { block: 101, length: 512 });
    // No node of the file system lies at the sector 50.
    assert_eq!(fs.nodes.len(), 6);
    assert_eq!(fs.nodes[0], node(2, "readme.txt"));
}

#[test]
fn sync_without_room_fails_and_cuts_the_file() {
    let mut fs = fs();
    fs.free_space = Extent { block: 100, length: 512 };
    let mut f = file(b"");
    f.node.extents[0] = Extent { block: 10, length: 512 };
    f.write(&[1u8; 1200]).unwrap();
    let (result, writes, rewrite) = f.sync(&mut fs);
    assert_eq!(result, Err(Error::new(EIO)));
    assert!(!rewrite);
    assert_eq!(writes, vec![DiskWrite { block: 10, data: vec![1u8; 512] }]);
    assert_eq!(f.vec.len(), 512);
    assert!(!f.dirty);
    assert_eq!(fs.free_space, Extent { block: 100, length: 512 });
}

#[test]
fn sync_of_a_shorter_file_shrinks_its_extents() {
    let mut fs = fs();
    let mut f = file(b"");
    f.node.extents[0] = Extent { block: 10, length: 1000 };
    f.node.extents[1] = Extent { block: 20, length: 512 };
    f.vec = vec![3u8; 40];
    f.dirty = true;
    let (result, writes, rewrite) = f.sync(&mut fs);
    assert_eq!(result, Ok(()));
    assert!(rewrite);
    let mut first = vec![3u8; 40];
    first.extend(zeros(984));
    assert_eq!(writes[0], DiskWrite { block: 10, data: first });
    assert_eq!(writes[1], DiskWrite { block: 20, data: zeros(512) });
    assert_eq!(f.node.extents[0], Extent { block: 10, length: 40 });
    assert_eq!(f.node.extents[1], Extent { block: 20, length: 0 });
    assert_eq!(f.vec, vec![3u8; 40]);
}

#[test]
fn a_disk_without_a_sector_to_count_still_lists_and_finds() {
    let mut full = fs();
    full.free_space = Extent { block: u64::MAX, length: 1024 };
    let mut scheme = FileScheme::new(full);
    assert!(matches!(scheme.open(b"/", 0), Ok(FileOpened::Listing(_))));
    assert!(matches!(scheme.open(b"/", O_CREAT), Ok(FileOpened::Listing(_))));
    let first = scheme.fs.nodes[0].name.clone();
    assert!(matches!(scheme.open(&first, O_CREAT), Ok(FileOpened::Found(0))));
    assert!(matches!(scheme.open(b"nothing/here", 0), Err(_)));
    assert_eq!(scheme.fs.free_space, Extent { block: u64::MAX, length: 1024 });
}
