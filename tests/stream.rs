use pcap::capture::{Dead, Offline};
use pcap::error::Error;
use pcap::packet::{Linktype, Packet, PacketHeader};
use pcap::stream::{poll_step, Async, HeaderCodec, PacketStream};

fn header(ts_sec: u32, n: u32) -> PacketHeader {
    PacketHeader { ts_sec, ts_frac: 0, caplen: n, len: n }
}

#[test]
fn would_block_is_not_ready() {
    let mut codec = HeaderCodec;
    assert_eq!(poll_step(Err(Error::WouldBlock), &mut codec), Ok(Async::NotReady));
}

#[test]
fn other_retrieval_error_ends_stream() {
    let mut codec = HeaderCodec;
    assert_eq!(poll_step(Err(Error::NoMorePackets), &mut codec), Err(Error::NoMorePackets));
}

#[test]
fn packet_is_decoded() {
    let mut codec = HeaderCodec;
    let p = Packet::new(header(7, 2), vec![1, 2]);
    assert_eq!(poll_step(Ok(p), &mut codec), Ok(Async::Ready(Some(header(7, 2)))));
}

#[test]
fn stream_rejects_invalid_descriptor() {
    let off = Offline::from_bytes(Dead::dead(Linktype(1)).savefile().into_bytes()).unwrap();
    assert!(matches!(PacketStream::new(off, -1, HeaderCodec), Err(Error::InvalidDescriptor)));
}

#[test]
fn stream_yields_in_order() {
    let mut save = Dead::dead(Linktype(1)).savefile();
    save.write(&Packet::new(header(1, 1), vec![1]));
    save.write(&Packet::new(header(2, 2), vec![2, 2]));
    let off = Offline::from_bytes(save.into_bytes()).unwrap();
    let mut s = PacketStream::new(off, 3, HeaderCodec).unwrap();
    assert_eq!(s.fd(), 3);
    assert_eq!(s.poll(), Ok(Async::Ready(Some(header(1, 1)))));
    assert_eq!(s.poll(), Ok(Async::Ready(Some(header(2, 2)))));
    assert_eq!(s.poll(), Err(Error::NoMorePackets));
}
