use redox_kernel::error::{
    Error, EBADF, EEXIST, EINVAL, EIO, ENOENT, EPIPE, ERRNO_LIMIT, ESPIPE, ESRCH,
};

#[test]
fn error_numbers_of_the_taxonomy() {
    assert_eq!(ENOENT, 2);
    assert_eq!(ESRCH, 3);
    assert_eq!(EIO, 5);
    assert_eq!(EBADF, 9);
    assert_eq!(EEXIST, 17);
    assert_eq!(EINVAL, 22);
    assert_eq!(ESPIPE, 29);
    assert_eq!(EPIPE, 32);
    assert_eq!(ERRNO_LIMIT, 4096);
}

#[test]
fn mux_of_success_is_the_value() {
    assert_eq!(Error::mux(Ok(0)), 0);
    assert_eq!(Error::mux(Ok(5)), 5);
    assert_eq!(Error::mux(Ok(123456)), 123456);
}

#[test]
fn mux_of_error_is_the_negated_number() {
    assert_eq!(Error::mux(Err(Error::new(EBADF))), (-9isize) as usize);
    assert_eq!(Error::mux(Err(Error::new(ENOENT))), usize::MAX - 1);
    assert_eq!(Error::mux(Err(Error::new(1))), usize::MAX);
    assert_eq!(Error::mux(Err(Error::new(0))), 0);
    assert_eq!(Error::mux(Err(Error::new(-3))), 3);
    assert_eq!(Error::mux(Err(Error::new(isize::MIN))), (isize::MAX as usize) + 1);
}

#[test]
fn demux_tells_errors_from_values() {
    assert_eq!(Error::demux(0), Ok(0));
    assert_eq!(Error::demux(7), Ok(7));
    assert_eq!(Error::demux(usize::MAX), Err(Error::new(1)));
    assert_eq!(Error::demux((-9isize) as usize), Err(Error::new(EBADF)));
    assert_eq!(Error::demux((-4095isize) as usize), Err(Error::new(4095)));
    assert_eq!(Error::demux((-4096isize) as usize), Ok((-4096isize) as usize));
}

#[test]
fn demux_undoes_mux() {
    for errno in [1isize, 2, 9, 22, 32, 4095] {
        let e = Error::new(errno);
        assert_eq!(Error::demux(Error::mux(Err(e))), Err(e));
    }
    for value in [0usize, 1, 4096, usize::MAX - 4095] {
        assert_eq!(Error::demux(Error::mux(Ok(value))), Ok(value));
    }
}
