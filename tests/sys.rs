use nix::sys::socket::{socketpair, AddressFamily, SockFlag, SockType};

use cocaine_client::sys::{send_sequential, sendmsg, RawSocket, SendAll, SequentialSend};
use cocaine_client::tvm::Method;

/// Runs the sequential strategy against a peer whose writes accept at most
/// what `accept` gives for each call, and returns the bytes it received.
fn run_sequential(iov: &[&[u8]], mut accept: impl FnMut(usize) -> usize) -> (usize, Vec<u8>) {
    let mut state = SequentialSend::new();
    let mut received = Vec::new();
    while let Some(i) = state.next_buffer(iov) {
        let n = accept(iov[i].len()).min(iov[i].len());
        received.extend_from_slice(&iov[i][..n]);
        state.record(iov, n);
    }
    (state.sent(), received)
}

#[test]
fn sequential_stops_when_peer_is_full_after_first_buffer() {
    let mut calls: usize = 0;
    // the peer takes the first buffer, then has no room for the second
    let (sent, received) = run_sequential(&[b"HEAD", b"BODY"], |len| {
        calls += 1;
        if calls == 1 { len } else { 0 }
    });

    assert_eq!(4, sent);
    assert_eq!(b"HEAD".to_vec(), received);
}

#[test]
fn sequential_counts_bytes_of_short_write() {
    let mut left: usize = 5;
    let (sent, received) = run_sequential(&[b"HEAD", b"BODY", b"TAIL"], |len| {
        let n = len.min(left);
        left -= n;
        n
    });

    assert_eq!(5, sent);
    assert_eq!(b"HEADB".to_vec(), received);
}

#[test]
fn sequential_sends_everything_when_accepted() {
    let mut calls: usize = 0;
    let (sent, received) = run_sequential(&[b"ab", b"", b"cde"], |len| {
        calls += 1;
        len
    });

    assert_eq!(5, sent);
    assert_eq!(b"abcde".to_vec(), received);
    assert_eq!(3, calls);
}

#[test]
fn sequential_two_buffers_match_concatenation() {
    let (sent_two, two) = run_sequential(&[b"HEAD", b"BODY"], |len| len);
    let (sent_one, one) = run_sequential(&[b"HEADBODY"], |len| len);

    assert_eq!(8, sent_two);
    assert_eq!(sent_one, sent_two);
    assert_eq!(one, two);
}

#[test]
fn sequential_with_no_buffers_sends_nothing() {
    let state = SequentialSend::new();
    let iov: [&[u8]; 0] = [];

    assert_eq!(None, state.next_buffer(&iov));
    assert_eq!(0, state.sent());
}

#[test]
fn sequential_first_write_short_stops_at_once() {
    let (sent, received) = run_sequential(&[b"HEAD", b"BODY"], |_| 2);

    assert_eq!(2, sent);
    assert_eq!(b"HE".to_vec(), received);
}

/// The two lowest free descriptors, which the next pair of descriptors
/// that this process opens will take.
fn two_free_descriptors() -> (i32, i32) {
    let a = nix::unistd::dup(2).unwrap();
    let b = nix::unistd::dup(2).unwrap();
    nix::unistd::close(a).unwrap();
    nix::unistd::close(b).unwrap();
    (a, b)
}

#[test]
fn sendmsg_sends_all_buffers_in_one_call() {
    let (fd_a, fd_b) = two_free_descriptors();
    let pair = socketpair(AddressFamily::Unix, SockType::Stream, None, SockFlag::empty()).unwrap();

    let sent = sendmsg(fd_a, &[b"HEAD", b"BODY"]).unwrap();

    assert_eq!(8, sent);
    let mut buf = [0u8; 8];
    assert_eq!(8, nix::unistd::read(fd_b, &mut buf).unwrap());
    assert_eq!(b"HEADBODY", &buf);
    drop(pair);
}

#[test]
fn sendmsg_on_bad_descriptor_reports_os_error() {
    let err = sendmsg(-1, &[b"HEAD"]).unwrap_err();

    assert_eq!(Some(libc::EBADF), err.raw_os_error());
}

#[test]
fn raw_socket_send_all_delivers_bytes_in_order() {
    let (fd_a, fd_b) = two_free_descriptors();
    let pair = socketpair(AddressFamily::Unix, SockType::Stream, None, SockFlag::empty()).unwrap();
    let mut sock = RawSocket::new(fd_a);

    assert_eq!(fd_a, sock.fd());
    assert_eq!(8, sock.send_all(&[b"HEAD", b"BODY"]).unwrap());
    let mut buf = [0u8; 8];
    assert_eq!(8, nix::unistd::read(fd_b, &mut buf).unwrap());
    assert_eq!(b"HEADBODY", &buf);
    drop(pair);
}

#[test]
fn raw_socket_sequential_delivers_bytes_in_order() {
    let (fd_a, fd_b) = two_free_descriptors();
    let pair = socketpair(AddressFamily::Unix, SockType::Stream, None, SockFlag::empty()).unwrap();
    let mut sock = RawSocket::new(fd_a);

    assert_eq!(9, send_sequential(&mut sock, &[b"HEAD", b"", b"BODY", b"!"]).unwrap());
    let mut buf = [0u8; 9];
    assert_eq!(9, nix::unistd::read(fd_b, &mut buf).unwrap());
    assert_eq!(b"HEADBODY!", &buf);
    drop(pair);
}

#[test]
fn send_with_no_buffers_returns_zero() {
    let mut sock = RawSocket::new(-1);
    let none: [&[u8]; 0] = [];

    assert_eq!(0, sock.send_all(&none).unwrap());
    assert_eq!(0, send_sequential(&mut sock, &none).unwrap());
}

#[test]
fn raw_socket_errors_on_bad_descriptor() {
    let mut sock = RawSocket::new(-1);

    assert_eq!(Some(libc::EBADF), sock.send_all(&[b"HEAD"]).unwrap_err().raw_os_error());
    assert_eq!(
        Some(libc::EBADF),
        send_sequential(&mut sock, &[b"HEAD"]).unwrap_err().raw_os_error()
    );
}

#[test]
fn ticket_method_has_id_zero() {
    let id: u64 = Method::Ticket.into();

    assert_eq!(0, id);
}
