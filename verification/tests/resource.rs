use redox_kernel::error::{Error, EBADF, ESPIPE};
use redox_kernel::schemes::resource::{read_step, ReadStep, Resource, ResourceSeek, Stat};
use redox_kernel::schemes::url::Url;
use redox_kernel::schemes::vec_resource::{copy_into, VecResource};

struct Nothing;

impl Resource for Nothing {}

#[test]
fn the_defaults_of_a_resource_fail() {
    let mut r = Nothing;
    let mut buf = [0u8; 4];
    assert!(matches!(r.dup(), Err(e) if e == Error::new(EBADF)));
    assert_eq!(r.path(&mut buf), Err(Error::new(EBADF)));
    assert_eq!(r.read(&mut buf), Err(Error::new(EBADF)));
    assert_eq!(r.write(&buf), Err(Error::new(EBADF)));
    assert_eq!(r.seek(ResourceSeek::Start(0)), Err(Error::new(ESPIPE)));
    assert_eq!(r.sync(), Err(Error::new(EBADF)));
    assert_eq!(r.truncate(0), Err(Error::new(EBADF)));
}

fn resource(data: &[u8]) -> VecResource {
    VecResource::new(b"test:/file".to_vec(), data.to_vec(), 0o644)
}

#[test]
fn read_moves_the_position() {
    let mut r = resource(b"hello world");
    let mut buf = [0u8; 5];
    assert_eq!(r.read(&mut buf), Ok(5));
    assert_eq!(&buf, b"hello");
    assert_eq!(r.seek, 5);
    let mut big = [b'.'; 10];
    assert_eq!(r.read(&mut big), Ok(6));
    assert_eq!(&big, b" world....");
    assert_eq!(r.read(&mut big), Ok(0));
    assert_eq!(r.read(&mut []), Ok(0));
    assert_eq!(r.seek, 11);
}

#[test]
fn write_overwrites_and_extends() {
    let mut r = resource(b"hello world");
    assert_eq!(r.seek(ResourceSeek::Start(6)), Ok(6));
    assert_eq!(r.write(b"there, you"), Ok(10));
    assert_eq!(r.data, b"hello there, you".to_vec());
    assert_eq!(r.seek, 16);
    assert_eq!(r.seek(ResourceSeek::Start(0)), Ok(0));
    assert_eq!(r.write(b"J"), Ok(1));
    assert_eq!(r.data, b"Jello there, you".to_vec());
    assert_eq!(r.write(b""), Ok(0));
    let mut empty = resource(b"");
    assert_eq!(empty.write(b"abc"), Ok(3));
    assert_eq!(empty.data, b"abc".to_vec());
}

#[test]
fn seek_from_the_start_stops_at_the_end() {
    let mut r = resource(b"0123456789");
    assert_eq!(r.seek(ResourceSeek::Start(4)), Ok(4));
    assert_eq!(r.seek(ResourceSeek::Start(10)), Ok(10));
    assert_eq!(r.seek(ResourceSeek::Start(11)), Ok(10));
    assert_eq!(r.seek(ResourceSeek::Start(usize::MAX)), Ok(10));
    assert_eq!(r.seek(ResourceSeek::Start(0)), Ok(0));
}

#[test]
fn seek_from_the_position_goes_back_only() {
    let mut r = resource(b"0123456789");
    r.seek(ResourceSeek::Start(6)).unwrap();
    assert_eq!(r.seek(ResourceSeek::Current(0)), Ok(6));
    assert_eq!(r.seek(ResourceSeek::Current(3)), Ok(6));
    assert_eq!(r.seek(ResourceSeek::Current(-2)), Ok(4));
    assert_eq!(r.seek(ResourceSeek::Current(-4)), Ok(0));
    r.seek(ResourceSeek::Start(6)).unwrap();
    assert_eq!(r.seek(ResourceSeek::Current(-7)), Ok(0));
    r.seek(ResourceSeek::Start(6)).unwrap();
    assert_eq!(r.seek(ResourceSeek::Current(isize::MIN)), Ok(0));
    r.seek(ResourceSeek::Start(6)).unwrap();
    assert_eq!(r.seek(ResourceSeek::Current(isize::MAX)), Ok(6));
}

#[test]
fn seek_from_the_end_goes_back_only() {
    let mut r = resource(b"0123456789");
    r.seek(ResourceSeek::Start(6)).unwrap();
    assert_eq!(r.seek(ResourceSeek::End(0)), Ok(6));
    assert_eq!(r.seek(ResourceSeek::End(-3)), Ok(6));
    assert_eq!(r.seek(ResourceSeek::End(-5)), Ok(5));
    assert_eq!(r.seek(ResourceSeek::End(-10)), Ok(0));
    r.seek(ResourceSeek::Start(6)).unwrap();
    assert_eq!(r.seek(ResourceSeek::End(-11)), Ok(0));
    r.seek(ResourceSeek::Start(6)).unwrap();
    assert_eq!(r.seek(ResourceSeek::End(isize::MIN)), Ok(0));
    r.seek(ResourceSeek::Start(6)).unwrap();
    assert_eq!(r.seek(ResourceSeek::End(5)), Ok(6));
}

#[test]
fn truncate_cuts_and_fills_with_zeros() {
    let mut r = resource(b"hello");
    r.seek(ResourceSeek::Start(4)).unwrap();
    assert_eq!(r.truncate(8), Ok(()));
    assert_eq!(r.data, b"hello\0\0\0".to_vec());
    assert_eq!(r.seek, 4);
    assert_eq!(r.truncate(2), Ok(()));
    assert_eq!(r.data, b"he".to_vec());
    assert_eq!(r.seek, 2);
    assert_eq!(r.truncate(2), Ok(()));
    assert_eq!(r.data, b"he".to_vec());
    assert_eq!(r.truncate(0), Ok(()));
    assert!(r.data.is_empty());
    assert_eq!(r.seek, 0);
}

#[test]
fn path_dup_stat_and_sync() {
    let mut r = resource(b"hello");
    r.seek(ResourceSeek::Start(3)).unwrap();
    let mut buf = [0u8; 20];
    assert_eq!(r.path(&mut buf), Ok(10));
    assert_eq!(&buf[..10], b"test:/file");
    let mut small = [0u8; 4];
    assert_eq!(r.path(&mut small), Ok(4));
    assert_eq!(&small, b"test");
    let copy = r.dup().unwrap();
    assert_eq!(copy.data, r.data);
    assert_eq!(copy.path, r.path);
    assert_eq!(copy.seek, 3);
    assert_eq!(copy.mode, 0o644);
    assert_eq!(r.stat(), Stat { st_mode: 0o644, st_size: 5 });
    assert_eq!(r.sync(), Ok(()));
    assert_eq!(r.data(), &b"hello".to_vec());
    assert_eq!(r.inner(), &b"hello".to_vec());
}

#[test]
fn copy_into_fills_the_start_of_the_buffer() {
    let mut buf = [9u8; 4];
    assert_eq!(copy_into(&mut buf, b"abcdef", 4), 2);
    assert_eq!(buf, [b'e', b'f', 9, 9]);
    assert_eq!(copy_into(&mut buf, b"abcdef", 0), 4);
    assert_eq!(&buf, b"abcd");
    assert_eq!(copy_into(&mut buf, b"abcdef", 6), 0);
    assert_eq!(&buf, b"abcd");
}

#[test]
fn url_has_a_scheme_and_a_reference() {
    let url = Url::from_str("file:/home/user");
    assert_eq!(url.scheme(), b"file".to_vec());
    assert_eq!(url.reference(), b"/home/user".to_vec());
    assert_eq!(url.len(), 15);
    assert_eq!(url.to_string(), b"file:/home/user".to_vec());
    let url = Url::from_str("a:b:c");
    assert_eq!(url.scheme(), b"a".to_vec());
    assert_eq!(url.reference(), b"b:c".to_vec());
    let url = Url::from_str(":foo");
    assert_eq!(url.scheme(), Vec::<u8>::new());
    assert_eq!(url.reference(), b"foo".to_vec());
    let url = Url::from_str("foo:");
    assert_eq!(url.scheme(), b"foo".to_vec());
    assert_eq!(url.reference(), Vec::<u8>::new());
}

#[test]
fn url_without_a_colon() {
    let url = Url::from_str("foo");
    assert_eq!(url.scheme(), b"foo".to_vec());
    assert_eq!(url.reference(), b"foo".to_vec());
    let url = Url::new();
    assert_eq!(url.len(), 0);
    assert_eq!(url.scheme(), Vec::<u8>::new());
    assert_eq!(url.reference(), Vec::<u8>::new());
    let url = Url::from_string(b"x:y".to_vec());
    assert_eq!(url.duplicate().string, b"x:y".to_vec());
}

/// A resource that reads `left` bytes of the value 7, at most three at a
/// time, and then fails if `fails` is set.
struct Trickle {
    left: usize,
    fails: bool,
}

impl Resource for Trickle {
    fn read(&mut self, buf: &mut [u8]) -> Result<usize, Error> {
        if self.left == 0 && self.fails {
            return Err(Error::new(EBADF));
        }
        let n = self.left.min(3).min(buf.len());
        for b in buf[..n].iter_mut() {
            *b = 7;
        }
        self.left -= n;
        Ok(n)
    }
}

#[test]
fn read_to_end_takes_all_that_is_there() {
    let data: Vec<u8> = (0..3000u32).map(|k| (k % 251) as u8).collect();
    let mut r = resource(&data);
    let mut out = b"head".to_vec();
    assert_eq!(r.read_to_end(&mut out), Ok(3000));
    assert_eq!(&out[..4], b"head");
    assert_eq!(&out[4..], &data[..]);
    assert_eq!(r.seek, 3000);
    assert_eq!(r.read_to_end(&mut out), Ok(0));
    assert_eq!(out.len(), 3004);
}

#[test]
fn read_to_end_goes_on_after_short_reads() {
    let mut r = Trickle { left: 10, fails: false };
    let mut out = Vec::new();
    assert_eq!(r.read_to_end(&mut out), Ok(10));
    assert_eq!(out, vec![7u8; 10]);
}

#[test]
fn read_to_end_keeps_what_was_read_before_an_error() {
    let mut r = Trickle { left: 4, fails: true };
    let mut out = vec![1u8];
    assert_eq!(r.read_to_end(&mut out), Err(Error::new(EBADF)));
    assert_eq!(out, vec![1, 7, 7, 7, 7]);
    let mut nothing = Nothing;
    assert_eq!(nothing.read_to_end(&mut out), Err(Error::new(EBADF)));
    assert_eq!(out.len(), 5);
}

#[test]
fn a_read_step_appends_what_was_read() {
    let mut out = b"ab".to_vec();
    let bytes = [1u8, 2, 3, 4, 5];
    assert_eq!(read_step(&mut out, 2, Ok(3), &bytes), ReadStep::More(5));
    assert_eq!(out, vec![b'a', b'b', 1, 2, 3]);
    assert_eq!(read_step(&mut out, 5, Ok(5), &bytes), ReadStep::More(10));
    assert_eq!(out, vec![b'a', b'b', 1, 2, 3, 1, 2, 3, 4, 5]);
}

#[test]
fn a_read_step_ends_the_run_on_nothing_and_on_a_failure() {
    let mut out = vec![9u8; 4];
    let bytes = [1u8, 2, 3];
    assert_eq!(read_step(&mut out, 4, Ok(0), &bytes), ReadStep::Done(Ok(4)));
    assert_eq!(read_step(&mut out, 0, Ok(0), &bytes), ReadStep::Done(Ok(0)));
    assert_eq!(
        read_step(&mut out, 3, Err(Error::new(ESPIPE)), &bytes),
        ReadStep::Done(Err(Error::new(ESPIPE)))
    );
    assert_eq!(out, vec![9u8; 4]);
}
