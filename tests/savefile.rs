use pcap::capture::{check_descriptor, encode_global, Dead, Offline, Savefile};
use pcap::error::Error;
use pcap::format::FileHeader;
use pcap::packet::{Linktype, Packet, PacketHeader, Precision};

fn packet(ts_sec: u32, ts_frac: u32, data: Vec<u8>) -> Packet {
    let n = data.len() as u32;
    Packet::new(PacketHeader { ts_sec, ts_frac, caplen: n, len: n }, data)
}

fn replay(bytes: Vec<u8>) -> (Vec<Packet>, Error) {
    let mut cap = Offline::from_bytes(bytes).unwrap();
    let mut out = Vec::new();
    loop {
        match cap.next() {
            Ok(p) => out.push(p),
            Err(e) => return (out, e),
        }
    }
}

#[test]
fn capture_dead_savefile() {
    let packets = vec![packet(1460408319, 1234, vec![1]), packet(1460408320, 4321, vec![2])];
    let cap = Dead::dead(Linktype(1));
    let mut save = cap.savefile();
    for p in &packets {
        save.write(p);
    }
    let (got, end) = replay(save.into_bytes());
    assert_eq!(got.len(), 2);
    for (a, b) in got.iter().zip(packets.iter()) {
        assert!(a.same_as(b));
        assert_eq!(a.header, b.header);
        assert_eq!(a.data, b.data);
    }
    assert_eq!(end, Error::NoMorePackets);
}

#[test]
fn capture_dead_savefile_append() {
    let packets1 = vec![packet(1460408319, 1234, vec![1]), packet(1460408320, 4321, vec![2])];
    let packets2 = vec![packet(1460408321, 2345, vec![3]), packet(1460408322, 5432, vec![4])];
    let cap = Dead::dead(Linktype(1));
    let mut save = cap.savefile();
    for p in &packets1 {
        save.write(p);
    }
    let first = save.into_bytes();
    let mut save = cap.savefile_append(first.clone()).unwrap();
    for p in &packets2 {
        save.write(p);
    }
    let bytes = save.into_bytes();
    assert_eq!(&bytes[..24], &first[..24]);
    let (got, end) = replay(bytes);
    let all: Vec<&Packet> = packets1.iter().chain(packets2.iter()).collect();
    assert_eq!(got.len(), 4);
    for (a, b) in got.iter().zip(all.iter()) {
        assert!(a.same_as(b));
    }
    assert_eq!(end, Error::NoMorePackets);
}

#[test]
fn global_header_bytes() {
    let h = FileHeader { precision: Precision::Micro, snaplen: 65535, linktype: Linktype(1) };
    assert_eq!(
        encode_global(h),
        vec![
            0xd4, 0xc3, 0xb2, 0xa1, 2, 0, 4, 0, 0, 0, 0, 0, 0, 0, 0, 0, 0xff, 0xff, 0, 0, 1, 0,
            0, 0
        ]
    );
    let n = FileHeader { precision: Precision::Nano, snaplen: 20, linktype: Linktype(101) };
    let b = encode_global(n);
    assert_eq!(&b[..4], &[0x4d, 0x3c, 0xb2, 0xa1]);
    assert_eq!(&b[16..], &[20, 0, 0, 0, 101, 0, 0, 0]);
}

#[test]
fn record_bytes_written() {
    let cap = Dead::dead(Linktype(1));
    let mut save = cap.savefile();
    save.write(&packet(1460408319, 1000, vec![7, 8]));
    let b = save.bytes().clone();
    assert_eq!(b.len(), 24 + 16 + 2);
    assert_eq!(
        &b[24..],
        &[0xff, 0x0f, 0x0c, 0x57, 0xe8, 0x03, 0, 0, 2, 0, 0, 0, 2, 0, 0, 0, 7, 8]
    );
}

#[test]
fn precision_kept_on_replay() {
    let cap = Dead::dead_with_precision(Linktype(1), Precision::Nano);
    let mut save = cap.savefile();
    save.write(&packet(1460408319, 999_999_999, vec![5]));
    let mut off = Offline::from_bytes(save.into_bytes()).unwrap();
    assert_eq!(off.get_precision(), Precision::Nano);
    assert_eq!(off.get_datalink(), Linktype(1));
    assert_eq!(off.next().unwrap().header.ts_frac, 999_999_999);
}

#[test]
fn read_packet_with_truncated_data() {
    let cap = Dead::dead(Linktype(1));
    let mut save = cap.savefile();
    let data: Vec<u8> = (0..20).collect();
    save.write(&Packet::new(PacketHeader { ts_sec: 1, ts_frac: 2, caplen: 20, len: 98 }, data));
    let mut off = Offline::from_bytes(save.into_bytes()).unwrap();
    let p = off.next().unwrap();
    assert!(p.is_truncated());
    assert!(p.header.len > p.header.caplen);
    assert_eq!(p.data.len(), p.header.caplen as usize);
    assert_eq!(p.data.len(), 20);
}

#[test]
fn read_packet_with_full_data() {
    let cap = Dead::dead(Linktype(1));
    let mut save = cap.savefile();
    save.write(&packet(1, 2, vec![9; 98]));
    let mut off = Offline::from_bytes(save.into_bytes()).unwrap();
    let p = off.next().unwrap();
    assert!(!p.is_truncated());
    assert_eq!(p.data.len(), 98);
}

#[test]
fn exhausted_offline_reports_no_more_packets() {
    let cap = Dead::dead(Linktype(1));
    let mut off = Offline::from_bytes(cap.savefile().into_bytes()).unwrap();
    assert_eq!(off.next().unwrap_err(), Error::NoMorePackets);
    assert_eq!(off.next_noblock().unwrap_err(), Error::NoMorePackets);
    assert_eq!(off.next().unwrap_err(), Error::NoMorePackets);
}

#[test]
fn stats_unavailable_offline_and_dead() {
    let cap = Dead::dead(Linktype(1));
    assert_eq!(cap.stats().unwrap_err(), Error::StatsUnavailable);
    let off = Offline::from_bytes(cap.savefile().into_bytes()).unwrap();
    assert_eq!(off.stats().unwrap_err(), Error::StatsUnavailable);
}

#[test]
fn dead_capture_cannot_read() {
    let mut cap = Dead::dead(Linktype(1));
    assert!(cap.next().is_err());
}

#[test]
fn invalid_descriptor_rejected() {
    assert_eq!(check_descriptor(-1), Err(Error::InvalidDescriptor));
    assert_eq!(check_descriptor(3), Ok(3));
}

#[test]
fn bad_header_rejected() {
    assert!(matches!(Offline::from_bytes(vec![1, 2, 3]), Err(Error::IoError(_))));
    let mut b = encode_global(FileHeader {
        precision: Precision::Micro,
        snaplen: 65535,
        linktype: Linktype(1),
    });
    b[0] = 0;
    assert!(matches!(Offline::from_bytes(b.clone()), Err(Error::IoError(_))));
    assert!(matches!(Savefile::append(b, Linktype(1)), Err(Error::IoError(_))));
}

#[test]
fn append_rejects_other_linktype() {
    let bytes = Dead::dead(Linktype(1)).savefile().into_bytes();
    assert!(matches!(Dead::dead(Linktype(105)).savefile_append(bytes.clone()), Err(Error::IoError(_))));
    let s = Savefile::append(bytes.clone(), Linktype(1)).unwrap();
    assert_eq!(s.header().linktype, Linktype(1));
    assert_eq!(s.into_bytes(), bytes);
}

#[test]
fn truncated_record_is_an_error() {
    let cap = Dead::dead(Linktype(1));
    let mut save = cap.savefile();
    save.write(&packet(1, 2, vec![1, 2, 3, 4]));
    let mut bytes = save.into_bytes();
    bytes.pop();
    let mut off = Offline::from_bytes(bytes).unwrap();
    assert!(matches!(off.next(), Err(Error::IoError(_))));
}
