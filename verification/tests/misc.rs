use redox_kernel::env::console::Console;
use redox_kernel::error::{Error, EACCES, ENOENT};
use redox_kernel::graphics::Point;
use redox_kernel::fs::{
    c_path, create_dir, read_dir, remove_dir, remove_file, DirEntry, File, FileType, ReadDir,
    SeekFrom,
};
use redox_kernel::network::icmp::{Icmp, IcmpHeader, IcmpScheme};
use redox_kernel::network::ip::{ArpEntry, IpScheme, Ipv4Addr, MacAddr};
use redox_kernel::network::udp::{be16, push_be16, Udp, UdpHeader, UdpScheme};
use redox_kernel::ordered::OrderedMap;
use redox_kernel::schemes::debug::{DebugResource, DebugScheme};
use redox_kernel::schemes::kscheme::KScheme;
use redox_kernel::schemes::memory::{push_decimal, MemoryScheme};
use redox_kernel::text::{
    bytes_eq, copy_from, copy_range, find, push_all, push_range, rfind_below, starts_with,
    str_bytes, to_vec,
};

#[test]
fn file_from_what_open_handed_back() {
    assert_eq!(File::from_fd(3), Ok(File { fd: 3 }));
    assert_eq!(File::from_fd(0), Ok(File { fd: 0 }));
    assert_eq!(File::from_fd((-2isize) as usize), Err(Error::new(ENOENT)));
    assert_eq!(File::result(12), Ok(12));
    assert_eq!(File::result(usize::MAX), Err(Error::new(1)));
    assert_eq!(File::done(0), Ok(()));
    assert_eq!(File::done(77), Ok(()));
    assert_eq!(File::done((-13isize) as usize), Err(Error::new(EACCES)));
}

#[test]
fn what_the_file_calls_are_handed() {
    assert_eq!(File::open(b"file:/a"), (b"file:/a\0".to_vec(), 2));
    assert_eq!(File::create(b"file:/a"), (b"file:/a\0".to_vec(), 0x200 | 2 | 0x400));
    assert_eq!(create_dir(b"file:/d"), (b"file:/d\0".to_vec(), 755));
    assert_eq!(remove_file(b"file:/a"), b"file:/a\0".to_vec());
    assert_eq!(remove_dir(b"file:/d"), Err(Error::new(EACCES)));
    assert_eq!(c_path(b""), vec![0u8]);
    assert_eq!(read_dir(b"file:/d"), b"file:/d/".to_vec());
    assert_eq!(read_dir(b"file:/d/"), b"file:/d/".to_vec());
    assert_eq!(read_dir(b""), Vec::<u8>::new());
    let file = File { fd: 1 };
    assert_eq!(file.seek(SeekFrom::Start(5)), (5, 0));
    assert_eq!(file.seek(SeekFrom::Current(-5)), (-5, 1));
    assert_eq!(file.seek(SeekFrom::End(-1)), (-1, 2));
}

#[test]
fn file_type_tells_directories_from_files() {
    let dir = FileType { dir: true, file: false };
    assert!(dir.is_dir());
    assert!(!dir.is_file());
    let file = FileType { dir: false, file: true };
    assert!(!file.is_dir());
    assert!(file.is_file());
    let entry = DirEntry { path: b"bin".to_vec(), dir: true, file: false };
    assert_eq!(entry.file_type(), Ok(dir));
    assert_eq!(entry.file_name(), &b"bin".to_vec());
    assert_eq!(entry.path(), &b"bin".to_vec());
}

#[test]
fn read_dir_gives_an_entry_for_each_line() {
    let mut reader = ReadDir::new(File { fd: 4 });
    let mut entries = Vec::new();
    let content = b"bin/\nfile.txt\n\nlast";
    for &b in content.iter() {
        if let Some(entry) = reader.next(Some(b)) {
            entries.push(entry);
        }
    }
    if let Some(entry) = reader.next(None) {
        entries.push(entry);
    }
    assert_eq!(
        entries,
        vec![
            DirEntry { path: b"bin".to_vec(), dir: true, file: false },
            DirEntry { path: b"file.txt".to_vec(), dir: false, file: true },
            DirEntry { path: b"last".to_vec(), dir: false, file: true },
        ]
    );
    assert_eq!(reader.next(None), None);
    assert_eq!(reader.next(Some(b'/')), None);
    assert_eq!(
        reader.next(None),
        Some(DirEntry { path: Vec::new(), dir: true, file: false })
    );
    assert_eq!(reader.file, File { fd: 4 });
}

#[test]
fn debug_read_takes_the_command_of_the_console() {
    let mut resource = DebugScheme::new().open(&redox_kernel::schemes::url::Url::new(), 0).unwrap();
    let mut console: Option<Vec<u8>> = None;
    let mut buf = [0u8; 4];
    // No command line yet: the reader waits.
    assert_eq!(resource.read(&mut console, &mut buf), None);
    console = Some(b"ls -la".to_vec());
    assert_eq!(resource.read(&mut console, &mut buf), Some(4));
    assert_eq!(&buf, b"ls -");
    assert_eq!(console, None);
    assert_eq!(resource.command, b"la".to_vec());
    assert!(!resource.line_toggle);
    // A new command line waits until the old one is read.
    console = Some(b"next".to_vec());
    assert_eq!(resource.read(&mut console, &mut buf), Some(2));
    assert_eq!(&buf[..2], b"la");
    assert!(resource.line_toggle);
    assert_eq!(console, Some(b"next".to_vec()));
    // The end of the line reads as 0, once.
    assert_eq!(resource.read(&mut console, &mut buf), Some(0));
    assert!(!resource.line_toggle);
    assert_eq!(resource.read(&mut console, &mut buf), Some(4));
    assert_eq!(&buf, b"next");
    assert!(resource.line_toggle);
}

#[test]
fn debug_read_with_an_empty_command_or_buffer() {
    let mut resource = DebugResource { command: Vec::new(), line_toggle: false };
    let mut console = Some(Vec::new());
    let mut buf = [0u8; 4];
    assert_eq!(resource.read(&mut console, &mut buf), Some(0));
    assert!(!resource.line_toggle);
    assert_eq!(console, None);
    let mut console = Some(b"abc".to_vec());
    assert_eq!(resource.read(&mut console, &mut []), Some(0));
    assert_eq!(resource.command, b"abc".to_vec());
    assert!(!resource.line_toggle);
}

#[test]
fn debug_write_dup_path_and_sync() {
    let mut resource = DebugResource { command: b"rest".to_vec(), line_toggle: true };
    let mut console = Console::new(640, 480);
    let (written, drawn) = resource.write(&mut console, true, b"hi");
    assert_eq!(written, Ok(2));
    assert_eq!(drawn.len(), 6);
    assert_eq!(console.point, Point { x: 16, y: 0 });
    let (written, drawn) = resource.write(&mut console, true, b"");
    assert_eq!(written, Ok(0));
    assert!(drawn.is_empty());
    assert_eq!(resource.sync(), Ok(()));
    assert_eq!(resource.path(), b"debug:".to_vec());
    let copy = resource.dup().unwrap();
    assert_eq!(copy.command, b"rest".to_vec());
    assert!(copy.line_toggle);
}

#[test]
fn decimal_digits() {
    for (n, text) in [(0usize, "0"), (7, "7"), (10, "10"), (99, "99"), (100, "100"), (65536, "65536")] {
        let mut out = b"n=".to_vec();
        push_decimal(&mut out, n);
        assert_eq!(out, format!("n={}", text).into_bytes());
    }
    let mut out = Vec::new();
    push_decimal(&mut out, usize::MAX);
    assert_eq!(out, format!("{}", usize::MAX).into_bytes());
}

#[test]
fn memory_report() {
    let scheme = MemoryScheme { used: 0, free: 1023 };
    assert_eq!(scheme.report(), b"Memory Used: 0 KB\nMemory Free: 0 KB".to_vec());
    let scheme = MemoryScheme { used: 1024, free: 10 * 1024 * 1024 };
    assert_eq!(scheme.report(), b"Memory Used: 1 KB\nMemory Free: 10240 KB".to_vec());
    assert_eq!(scheme.scheme(), b"memory".to_vec());
}

#[test]
fn udp_datagram_codec() {
    let bytes = [0x12u8, 0x34, 0x00, 0x35, 0x00, 0x0B, 0xAB, 0xCD, b'a', b'b', b'c'];
    let datagram = Udp::from_bytes(&bytes).unwrap();
    assert_eq!(
        datagram.header,
        UdpHeader { src: 0x1234, dst: 53, len: 11, checksum: 0xABCD }
    );
    assert_eq!(datagram.data, b"abc".to_vec());
    assert_eq!(datagram.to_bytes(), bytes.to_vec());
    assert!(Udp::from_bytes(&bytes[..7]).is_none());
    let empty = Udp::from_bytes(&bytes[..8]).unwrap();
    assert!(empty.data.is_empty());
    assert_eq!(be16(0xFF, 0x01), 0xFF01);
    let mut out = vec![1u8];
    push_be16(&mut out, 0x0203);
    assert_eq!(out, vec![1, 2, 3]);
    assert_eq!(UdpScheme.scheme(), b"udp".to_vec());
}

#[test]
fn icmp_message_codec() {
    let bytes = [0x08u8, 0x00, 0xF7, 0xFF, 0x00, 0x01, 0x00, 0x02, b'p', b'i', b'n', b'g'];
    let message = Icmp::from_bytes(&bytes).unwrap();
    assert_eq!(
        message.header,
        IcmpHeader { _type: 8, code: 0, checksum: 0xF7FF, data: [0, 1, 0, 2] }
    );
    assert_eq!(message.data, b"ping".to_vec());
    assert_eq!(message.to_bytes(), bytes.to_vec());
    assert!(Icmp::from_bytes(&bytes[..7]).is_none());
    assert_eq!(IcmpScheme.scheme(), b"icmp".to_vec());
}

#[test]
fn ordered_map_keeps_its_keys_in_order() {
    let mut map: OrderedMap<u32> = OrderedMap::new();
    assert_eq!(map.first_key(), None);
    assert_eq!(map.pop_first(), None);
    map.insert(5, 50);
    map.insert(1, 10);
    map.insert(3, 30);
    map.insert(9, 90);
    assert_eq!(map.entries, vec![(1, 10), (3, 30), (5, 50), (9, 90)]);
    assert_eq!(map.len(), 4);
    map.insert(3, 31);
    assert_eq!(map.entries, vec![(1, 10), (3, 31), (5, 50), (9, 90)]);
    assert!(map.contains_key(5));
    assert!(!map.contains_key(4));
    assert_eq!(map.get(9), Some(&90));
    assert_eq!(map.get(0), None);
    assert_eq!(map.remove(5), Some(50));
    assert_eq!(map.remove(5), None);
    assert_eq!(map.remove(100), None);
    assert_eq!(map.first_key(), Some(1));
    assert_eq!(map.pop_first(), Some((1, 10)));
    assert_eq!(map.pop_first(), Some((3, 31)));
    assert_eq!(map.entries, vec![(9, 90)]);
}

#[test]
fn byte_string_helpers() {
    assert_eq!(find(b"a:b:c", b':'), Some(1));
    assert_eq!(find(b"abc", b':'), None);
    assert_eq!(find(b"", b':'), None);
    assert_eq!(rfind_below(b"a/b/c/", b'/', 6), Some(5));
    assert_eq!(rfind_below(b"a/b/c/", b'/', 5), Some(3));
    assert_eq!(rfind_below(b"a/b/c/", b'/', 1), None);
    assert_eq!(rfind_below(b"a/b/c/", b'/', 0), None);
    assert!(bytes_eq(b"abc", b"abc"));
    assert!(!bytes_eq(b"abc", b"abd"));
    assert!(!bytes_eq(b"abc", b"ab"));
    assert!(bytes_eq(b"", b""));
    assert!(starts_with(b"../x", b"../"));
    assert!(!starts_with(b"./x", b"../"));
    assert!(!starts_with(b"..", b"../"));
    assert!(starts_with(b"abc", b""));
    let mut out = b"x".to_vec();
    push_range(&mut out, b"abcdef", 2, 4);
    assert_eq!(out, b"xcd".to_vec());
    push_all(&mut out, b"!!");
    assert_eq!(out, b"xcd!!".to_vec());
    assert_eq!(copy_range(b"abcdef", 1, 3), b"bc".to_vec());
    assert_eq!(copy_from(b"abcdef", 4), b"ef".to_vec());
    assert_eq!(copy_from(b"abcdef", 6), Vec::<u8>::new());
    assert_eq!(to_vec(b"abc"), b"abc".to_vec());
    assert_eq!(str_bytes("debug:"), b"debug:".to_vec());
}

#[test]
fn packets_go_to_the_peer_or_to_the_router() {
    let ip = |a, b, c, d| Ipv4Addr { a, b, c, d };
    let me = ip(10, 0, 2, 15);
    let mask = ip(255, 255, 255, 0);
    let router = ip(10, 0, 2, 2);
    assert!(!IpScheme::needs_routing(me, mask, ip(10, 0, 2, 99)));
    assert!(IpScheme::needs_routing(me, mask, ip(10, 0, 3, 15)));
    assert!(IpScheme::needs_routing(me, mask, ip(8, 8, 8, 8)));
    assert!(!IpScheme::needs_routing(me, ip(0, 0, 0, 0), ip(8, 8, 8, 8)));
    assert_eq!(IpScheme::route(me, mask, router, ip(10, 0, 2, 99)), ip(10, 0, 2, 99));
    assert_eq!(IpScheme::route(me, mask, router, ip(8, 8, 8, 8)), router);
    let mac = |f| MacAddr { a: 0x52, b: 0x54, c: 0, d: 0x12, e: 0x34, f };
    let mut scheme = IpScheme { arp: vec![] };
    assert_eq!(scheme.lookup(router), MacAddr::broadcast());
    scheme.learn(router, mac(2));
    scheme.learn(ip(10, 0, 2, 99), mac(99));
    scheme.learn(router, mac(3));
    assert_eq!(scheme.lookup(router), mac(2));
    assert_eq!(scheme.lookup(ip(10, 0, 2, 99)), mac(99));
    assert_eq!(scheme.lookup(ip(10, 0, 2, 98)), MacAddr::broadcast());
    assert_eq!(scheme.arp[2], ArpEntry { ip: router, mac: mac(3) });
    assert!(Ipv4Addr::broadcast().equals(ip(255, 255, 255, 255)));
    assert!(!mac(1).equals(mac(2)));
    assert_eq!(scheme.scheme(), b"ip".to_vec());
}
