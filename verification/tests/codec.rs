use bytes::BytesMut;
use rusty_pipe::mux::frame::decode;
use rusty_pipe::mux::frame::encode;
use rusty_pipe::mux::frame::MuxFrame;

#[test]
fn encode_writes_id_length_payload() {
    let mut wire = BytesMut::new();
    encode(&MuxFrame::new(7, vec![10, 20, 30]), &mut wire);
    assert_eq!(&wire[..], &[7u8, 3, 10, 20, 30][..]);
}

#[test]
fn decode_waits_for_the_whole_frame() {
    let mut wire = BytesMut::from(&[7u8][..]);
    assert!(decode(&mut wire).is_none());
    assert_eq!(&wire[..], &[7u8][..]);
    let mut wire = BytesMut::from(&[7u8, 3, 10, 20][..]);
    assert!(decode(&mut wire).is_none());
    assert_eq!(&wire[..], &[7u8, 3, 10, 20][..]);
}

#[test]
fn decode_takes_one_frame_and_leaves_the_rest() {
    let mut wire = BytesMut::from(&[7u8, 3, 10, 20, 30, 9, 1, 42, 5][..]);
    let first = decode(&mut wire).expect("first frame");
    assert_eq!(first.stream_id, 7);
    assert_eq!(first.bytes, vec![10, 20, 30]);
    assert_eq!(&wire[..], &[9u8, 1, 42, 5][..]);
    let second = decode(&mut wire).expect("second frame");
    assert_eq!(second.stream_id, 9);
    assert_eq!(second.bytes, vec![42]);
    assert_eq!(&wire[..], &[5u8][..]);
    assert!(decode(&mut wire).is_none());
}
