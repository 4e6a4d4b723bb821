use rocks_proxy::connection::{CopyState, HalfCopy, StreamCopier};
use rocks_proxy::cycbuffer::{SyncCycBuffer, CYC_CAPACITY};
use rocks_proxy::error::Error;
use rocks_proxy::stream_wrap::Preread;

#[test]
fn cycbuffer_fifo() {
    let mut b = SyncCycBuffer::new();
    assert_eq!(b.read(10), Err(Error::WouldBlock));
    assert_eq!(b.write(&[1, 2, 3, 4]), Ok(4));
    assert_eq!(b.read(1), Ok(vec![1]));
    assert_eq!(b.read(2), Ok(vec![2, 3]));
    assert_eq!(b.read(9), Ok(vec![4]));
    assert_eq!(b.read(9), Err(Error::WouldBlock));
}

#[test]
fn cycbuffer_fills_and_refuses() {
    let mut b = SyncCycBuffer::new();
    let big = vec![7u8; CYC_CAPACITY];
    assert_eq!(b.write(&big), Ok(CYC_CAPACITY - 1));
    assert_eq!(b.write(&[1]), Err(Error::WouldBlock));
    let out = b.read(CYC_CAPACITY).unwrap();
    assert_eq!(out.len(), CYC_CAPACITY - 1);
    assert!(out.iter().all(|&x| x == 7));
}

#[test]
fn cycbuffer_wraps_around() {
    let mut b = SyncCycBuffer::new();
    let fill = vec![1u8; CYC_CAPACITY - 1];
    assert_eq!(b.write(&fill), Ok(CYC_CAPACITY - 1));
    assert_eq!(b.read(CYC_CAPACITY - 5).unwrap().len(), CYC_CAPACITY - 5);
    assert_eq!(b.write(&[9, 8, 7, 6, 5, 4]), Ok(6));
    let out = b.read(100).unwrap();
    assert_eq!(out, vec![1, 1, 1, 1, 9, 8, 7, 6, 5, 4]);
}

#[test]
fn half_copy_forwards_exactly() {
    let mut c = HalfCopy::new();
    let mut received: Vec<u8> = Vec::new();
    for chunk in [b"he".to_vec(), b"llo".to_vec(), b" world".to_vec()] {
        let w = c.on_chunk(chunk.clone());
        assert_eq!(w, chunk);
        received.extend_from_slice(&w);
        c.on_written();
    }
    c.on_eof();
    assert_eq!(received, b"hello world".to_vec());
}

#[test]
fn stream_copier_finishes_both_directions() {
    let mut c = StreamCopier::new();
    assert!(!c.finished());
    let w = c.client_to_server.on_chunk(b"hello".to_vec());
    assert_eq!(w, b"hello".to_vec());
    c.client_to_server.on_written();
    let w = c.server_to_client.on_chunk(b"hello".to_vec());
    assert_eq!(w, b"hello".to_vec());
    c.server_to_client.on_written();
    c.client_to_server.on_eof();
    assert!(!c.finished());
    c.server_to_client.on_eof();
    assert!(c.finished());
    assert_eq!(c.client_to_server.state, CopyState::Done);
}

#[test]
fn preread_serves_held_bytes_first() {
    let mut p = Preread::new(b"head".to_vec());
    let r = p.read(b"tail");
    assert_eq!(r, b"headtail".to_vec());
    let r = p.read(b"more");
    assert_eq!(r, b"more".to_vec());
}
