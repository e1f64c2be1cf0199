use roosty_clockd::frame;
use roosty_clockd::frame::{read, FrameError, Reader, HEADER_LEN};
use roosty_clockd::session::{poll, Poll};

#[test]
fn header_is_eight_bytes() {
    assert_eq!(HEADER_LEN, 8);
}

#[test]
fn write_puts_little_endian_length_first() {
    let mut w: Vec<u8> = Vec::new();
    let n = frame::write(&mut w, &[0xAA, 0xBB, 0xCC]);
    assert_eq!(n, Ok(11));
    assert_eq!(w, vec![3, 0, 0, 0, 0, 0, 0, 0, 0xAA, 0xBB, 0xCC]);
}

#[test]
fn write_length_above_one_byte() {
    let payload = vec![7u8; 258];
    let mut w: Vec<u8> = Vec::new();
    assert_eq!(frame::write(&mut w, &payload), Ok(266));
    assert_eq!(&w[..8], &[2, 1, 0, 0, 0, 0, 0, 0]);
    assert_eq!(&w[8..], &payload[..]);
}

#[test]
fn write_appends_after_what_is_there() {
    let mut w: Vec<u8> = vec![9, 9];
    assert_eq!(frame::write(&mut w, &[]), Ok(8));
    assert_eq!(w, vec![9, 9, 0, 0, 0, 0, 0, 0, 0, 0]);
}

#[test]
fn read_gives_back_what_write_framed() {
    let mut w: Vec<u8> = Vec::new();
    frame::write(&mut w, b"hello").unwrap();
    frame::write(&mut w, b"").unwrap();
    frame::write(&mut w, b"world!").unwrap();
    let mut r = Reader::new(w);
    let mut buf: Vec<u8> = vec![1, 2, 3];
    assert_eq!(read(&mut r, &mut buf), Ok(()));
    assert_eq!(buf, b"hello".to_vec());
    assert_eq!(read(&mut r, &mut buf), Ok(()));
    assert_eq!(buf, Vec::<u8>::new());
    assert_eq!(read(&mut r, &mut buf), Ok(()));
    assert_eq!(buf, b"world!".to_vec());
    assert_eq!(r.remaining_len(), 0);
    assert_eq!(read(&mut r, &mut buf), Err(FrameError::UnexpectedEof));
}

#[test]
fn read_fails_when_stream_ends_inside_payload() {
    // The header claims 40 bytes, the stream delivers 10 and closes.
    let mut bytes: Vec<u8> = vec![40, 0, 0, 0, 0, 0, 0, 0];
    bytes.extend_from_slice(&[5u8; 10]);
    let mut r = Reader::new(bytes);
    let mut buf: Vec<u8> = vec![1, 2, 3];
    assert_eq!(read(&mut r, &mut buf), Err(FrameError::UnexpectedEof));
    assert_eq!(buf, vec![1, 2, 3]);
    assert_eq!(r.remaining_len(), 18);
}

#[test]
fn read_fails_when_stream_ends_inside_header() {
    let mut r = Reader::new(vec![3, 0, 0]);
    let mut buf: Vec<u8> = Vec::new();
    assert_eq!(read(&mut r, &mut buf), Err(FrameError::UnexpectedEof));
    assert_eq!(r.remaining_len(), 3);
}

#[test]
fn read_rejects_length_beyond_what_is_there() {
    let mut bytes: Vec<u8> = vec![0xFF; 8];
    bytes.push(1);
    let mut r = Reader::new(bytes);
    let mut buf: Vec<u8> = Vec::new();
    assert_eq!(read(&mut r, &mut buf), Err(FrameError::UnexpectedEof));
}

#[test]
fn read_succeeds_once_the_rest_has_arrived() {
    let mut frame: Vec<u8> = Vec::new();
    frame::write(&mut frame, b"abcdef").unwrap();
    let mut r = Reader::new(frame[..10].to_vec());
    let mut buf: Vec<u8> = Vec::new();
    assert_eq!(read(&mut r, &mut buf), Err(FrameError::UnexpectedEof));
    r.extend(&frame[10..]);
    assert_eq!(read(&mut r, &mut buf), Ok(()));
    assert_eq!(buf, b"abcdef".to_vec());
}

#[test]
fn poll_tells_waiting_from_broken() {
    let mut bytes: Vec<u8> = vec![40, 0, 0, 0, 0, 0, 0, 0];
    bytes.extend_from_slice(&[5u8; 10]);
    let mut r = Reader::new(bytes.clone());
    assert_eq!(poll(&mut r, false), Poll::Wait);
    assert_eq!(poll(&mut r, true), Poll::Broken);
    let mut empty = Reader::new(Vec::new());
    assert_eq!(poll(&mut empty, false), Poll::Wait);
    assert_eq!(poll(&mut empty, true), Poll::End);
    let mut whole: Vec<u8> = Vec::new();
    frame::write(&mut whole, &[1, 2]).unwrap();
    let mut r = Reader::new(whole);
    assert_eq!(poll(&mut r, true), Poll::Frame(vec![1, 2]));
    assert_eq!(poll(&mut r, true), Poll::End);
}
