use redox_kernel::error::{Error, EBADF, EPIPE};
use redox_kernel::scheme::pipe::{pipe, PipeRead, PipeScheme, PipeWrite, O_NONBLOCK};
use std::collections::VecDeque;

#[test]
fn pipe_round_trip() {
    let mut pipes = PipeScheme::new();
    let (read_id, write_id) = pipe(&mut pipes, O_NONBLOCK);
    assert_eq!(pipes.write(write_id, b"hello"), Ok(5));
    let mut buf = [0u8; 10];
    assert_eq!(pipes.read(read_id, &mut buf), Ok(Some(5)));
    assert_eq!(&buf[0..5], b"hello");
    assert_eq!(&buf[5..], &[0u8; 5]);
    assert_eq!(pipes.read(read_id, &mut buf), Ok(Some(0)));
}

#[test]
fn pipe_gives_out_two_handles() {
    let mut pipes = PipeScheme::new();
    assert_eq!(pipe(&mut pipes, 0), (0, 1));
    assert_eq!(pipe(&mut pipes, O_NONBLOCK), (2, 3));
    assert_eq!(pipes.next_id, 4);
    assert_eq!(pipes.queues.len(), 2);
    assert_eq!(pipes.reads.get(2), Some(&PipeRead { flags: O_NONBLOCK, queue: 1 }));
    assert_eq!(pipes.writes.get(3), Some(&PipeWrite { queue: 1 }));
    assert_eq!(pipes.reads.get(1), None);
}

#[test]
fn a_read_takes_what_fits_from_the_front() {
    let mut pipes = PipeScheme::new();
    let (read_id, write_id) = pipe(&mut pipes, 0);
    assert_eq!(pipes.write(write_id, b"abcdef"), Ok(6));
    assert_eq!(pipes.write(write_id, b"gh"), Ok(2));
    let mut buf = [0u8; 4];
    assert_eq!(pipes.read(read_id, &mut buf), Ok(Some(4)));
    assert_eq!(&buf, b"abcd");
    assert_eq!(pipes.read(read_id, &mut buf), Ok(Some(4)));
    assert_eq!(&buf, b"efgh");
    assert_eq!(pipes.write(write_id, b""), Ok(0));
}

#[test]
fn a_blocking_read_on_an_empty_pipe_waits() {
    let mut pipes = PipeScheme::new();
    let (read_id, write_id) = pipe(&mut pipes, 0);
    let mut buf = [7u8; 4];
    assert_eq!(pipes.read(read_id, &mut buf), Ok(None));
    assert_eq!(buf, [7u8; 4]);
    // After a write the reader, once notified, finds the bytes.
    assert_eq!(pipes.write(write_id, b"x"), Ok(1));
    assert_eq!(pipes.read(read_id, &mut buf), Ok(Some(1)));
    assert_eq!(buf, [b'x', 7, 7, 7]);
}

#[test]
fn a_read_into_no_buffer_on_a_full_pipe() {
    let mut pipes = PipeScheme::new();
    let (read_id, write_id) = pipe(&mut pipes, 0);
    pipes.write(write_id, b"abc").unwrap();
    assert_eq!(pipes.read(read_id, &mut []), Ok(None));
    let (read_nb, write_nb) = pipe(&mut pipes, O_NONBLOCK);
    pipes.write(write_nb, b"abc").unwrap();
    assert_eq!(pipes.read(read_nb, &mut []), Ok(Some(0)));
}

#[test]
fn a_write_without_a_reader_fails_with_epipe() {
    let mut pipes = PipeScheme::new();
    let (read_id, write_id) = pipe(&mut pipes, 0);
    pipes.write(write_id, b"lost").unwrap();
    assert_eq!(pipes.close(read_id), Ok(0));
    assert_eq!(pipes.write(write_id, b"x"), Err(Error::new(EPIPE)));
    // The queue was destroyed with its reader.
    assert!(pipes.queues[0].is_empty());
}

#[test]
fn a_blocking_read_without_a_writer_returns_zero() {
    let mut pipes = PipeScheme::new();
    let (read_id, write_id) = pipe(&mut pipes, 0);
    pipes.write(write_id, b"ab").unwrap();
    assert_eq!(pipes.close(write_id), Ok(0));
    let mut buf = [0u8; 8];
    // What was written before can still be read.
    assert_eq!(pipes.read(read_id, &mut buf), Ok(Some(2)));
    assert_eq!(pipes.read(read_id, &mut buf), Ok(Some(0)));
    assert_eq!(pipes.read(read_id, &mut buf), Ok(Some(0)));
}

#[test]
fn duplicates_share_the_queue() {
    let mut pipes = PipeScheme::new();
    let (read_id, write_id) = pipe(&mut pipes, 0);
    assert_eq!(pipes.dup(read_id, b""), Ok(2));
    assert_eq!(pipes.dup(write_id, b""), Ok(3));
    assert_eq!(pipes.dup(9, b""), Err(Error::new(EBADF)));
    assert_eq!(pipes.write(3, b"ab"), Ok(2));
    assert_eq!(pipes.write(write_id, b"cd"), Ok(2));
    let mut buf = [0u8; 3];
    assert_eq!(pipes.read(2, &mut buf), Ok(Some(3)));
    assert_eq!(&buf, b"abc");
    assert_eq!(pipes.read(read_id, &mut buf), Ok(Some(1)));
    assert_eq!(buf[0], b'd');
    // One reader and one writer are closed; the pipe still works.
    assert_eq!(pipes.close(read_id), Ok(0));
    assert_eq!(pipes.close(write_id), Ok(0));
    assert_eq!(pipes.write(3, b"e"), Ok(1));
    assert_eq!(pipes.read(2, &mut buf), Ok(Some(1)));
    assert_eq!(pipes.read(2, &mut buf), Ok(None));
    // With the last writer gone the reader sees the end.
    assert_eq!(pipes.close(3), Ok(0));
    assert_eq!(pipes.read(2, &mut buf), Ok(Some(0)));
}

#[test]
fn handles_of_the_wrong_kind_fail_with_ebadf() {
    let mut pipes = PipeScheme::new();
    let (read_id, write_id) = pipe(&mut pipes, 0);
    let mut buf = [0u8; 4];
    assert_eq!(pipes.read(write_id, &mut buf), Err(Error::new(EBADF)));
    assert_eq!(pipes.write(read_id, b"x"), Err(Error::new(EBADF)));
    assert_eq!(pipes.read(17, &mut buf), Err(Error::new(EBADF)));
    assert_eq!(pipes.write(17, b"x"), Err(Error::new(EBADF)));
    assert_eq!(pipes.fsync(17), Ok(0));
    assert_eq!(pipes.close(17), Ok(0));
    assert_eq!(pipes.close(read_id), Ok(0));
    assert_eq!(pipes.read(read_id, &mut buf), Err(Error::new(EBADF)));
}

#[test]
fn pipes_do_not_mix() {
    let mut pipes = PipeScheme::new();
    let (r1, w1) = pipe(&mut pipes, O_NONBLOCK);
    let (r2, w2) = pipe(&mut pipes, O_NONBLOCK);
    pipes.write(w1, b"one").unwrap();
    pipes.write(w2, b"two").unwrap();
    let mut buf = [0u8; 3];
    assert_eq!(pipes.read(r2, &mut buf), Ok(Some(3)));
    assert_eq!(&buf, b"two");
    assert_eq!(pipes.read(r1, &mut buf), Ok(Some(3)));
    assert_eq!(&buf, b"one");
    assert_eq!(pipes.close(r1), Ok(0));
    assert_eq!(pipes.write(w2, b"x"), Ok(1));
    assert!(pipes.has_reader(1));
    assert!(!pipes.has_reader(0));
    assert!(pipes.has_writer(0));
}

#[test]
fn the_handles_read_and_write_a_queue() {
    let read = PipeRead::new(0, 3);
    let write = PipeWrite::new(&read);
    assert_eq!(write.queue, 3);
    let mut queue = VecDeque::new();
    assert_eq!(write.write(&mut queue, true, b"abc"), Ok(3));
    assert_eq!(write.write(&mut queue, false, b"def"), Err(Error::new(EPIPE)));
    assert_eq!(queue, VecDeque::from(b"abc".to_vec()));
    let mut buf = [0u8; 2];
    assert_eq!(read.read(&mut queue, true, &mut buf), Some(2));
    assert_eq!(&buf, b"ab");
    assert_eq!(read.read(&mut queue, true, &mut buf), Some(1));
    assert_eq!(read.read(&mut queue, true, &mut buf), None);
    assert_eq!(read.read(&mut queue, false, &mut buf), Some(0));
    assert_eq!(PipeRead::new(O_NONBLOCK | 2, 0).read(&mut queue, true, &mut buf), Some(0));
}
