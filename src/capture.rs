use vstd::prelude::*;

use crate::bytes::{get_le32, lemma_read_shifted, push_le32};
use crate::error::Error;
use crate::format::{
    global_bytes, parse_global, parse_one, record_bytes, FileHeader, GLOBAL_LEN,
    MAGIC_MICRO, MAGIC_NANO, RECORD_HEADER_LEN, VERSION,
};
use crate::packet::{Linktype, Packet, PacketHeader, Precision, Stat};

verus! {

/// The snapshot length that a dead capture declares unless told otherwise.
pub const DEFAULT_SNAPLEN: u32 = 65535;

/// The bytes of a global header for `h`.
pub fn encode_global(h: FileHeader) -> (r: Vec<u8>)
    ensures
        r@ == global_bytes(h),
{
    let mut out: Vec<u8> = Vec::new();
    let magic: u32 = match h.precision {
        Precision::Micro => MAGIC_MICRO,
        Precision::Nano => MAGIC_NANO,
    };
    push_le32(&mut out, magic);
    push_le32(&mut out, VERSION);
    push_le32(&mut out, 0);
    push_le32(&mut out, 0);
    push_le32(&mut out, h.snaplen);
    push_le32(&mut out, h.linktype.0);
    out
}

/// Appends the record of `p`: its header fields, then its payload.
pub fn encode_record(out: &mut Vec<u8>, p: &Packet)
    ensures
        final(out)@ == old(out)@ + record_bytes(p@),
{
    push_le32(out, p.header.ts_sec);
    push_le32(out, p.header.ts_frac);
    push_le32(out, p.header.caplen);
    push_le32(out, p.header.len);
    let ghost start = out@;
    let mut i: usize = 0;
    while i < p.data.len()
        invariant
            i <= p.data@.len(),
            out@ == start + p.data@.subrange(0, i as int),
        decreases p.data@.len() - i,
    {
        out.push(p.data[i]);
        i = i + 1;
        assert(out@ =~= start + p.data@.subrange(0, i as int));
    }
    assert(p.data@.subrange(0, i as int) =~= p.data@);
    assert(final(out)@ =~= old(out)@ + record_bytes(p@));
}

/// The global header at the start of `b`, if it is a valid one.
pub fn decode_global(b: &Vec<u8>) -> (r: Option<FileHeader>)
    ensures
        r == parse_global(b@),
{
    if b.len() < GLOBAL_LEN {
        return None;
    }
    if get_le32(b, 4) != VERSION {
        return None;
    }
    let m = get_le32(b, 0);
    let precision = if m == MAGIC_MICRO {
        Precision::Micro
    } else if m == MAGIC_NANO {
        Precision::Nano
    } else {
        return None;
    };
    Some(FileHeader { precision, snaplen: get_le32(b, 16), linktype: Linktype(get_le32(b, 20)) })
}

/// The record at `b[pos..]` and the position after it, if one is there whole
/// and its lengths are consistent.
pub fn decode_record(b: &Vec<u8>, pos: usize) -> (r: Option<(Packet, usize)>)
    requires
        pos <= b@.len(),
    ensures
        match parse_one(b@.subrange(pos as int, b@.len() as int)) {
            None => r is None,
            Some((rec, n)) => r is Some && r->Some_0.0@ == rec && r->Some_0.0.wf()
                && r->Some_0.1 == pos + n,
        },
{
    let ghost rest = b@.subrange(pos as int, b@.len() as int);
    let total: usize = b.len();
    if total - pos < RECORD_HEADER_LEN {
        return None;
    }
    let ts_sec = get_le32(b, pos);
    let ts_frac = get_le32(b, pos + 4);
    let caplen = get_le32(b, pos + 8);
    let len = get_le32(b, pos + 12);
    proof {
        lemma_read_shifted(b@, pos as int, b@.len() as int, 0);
        lemma_read_shifted(b@, pos as int, b@.len() as int, 4);
        lemma_read_shifted(b@, pos as int, b@.len() as int, 8);
        lemma_read_shifted(b@, pos as int, b@.len() as int, 12);
    }
    if caplen > len || caplen as usize > total - pos - RECORD_HEADER_LEN {
        return None;
    }
    let header = PacketHeader { ts_sec, ts_frac, caplen, len };
    let start: usize = pos + RECORD_HEADER_LEN;
    let end: usize = start + caplen as usize;
    let mut data: Vec<u8> = Vec::new();
    let mut i: usize = start;
    while i < end
        invariant
            start <= i <= end,
            end <= b@.len(),
            data@ == b@.subrange(start as int, i as int),
        decreases end - i,
    {
        data.push(b[i]);
        i = i + 1;
        assert(data@ =~= b@.subrange(start as int, i as int));
    }
    assert(rest.subrange(RECORD_HEADER_LEN as int, RECORD_HEADER_LEN + caplen) =~= data@);
    Some((Packet { header, data }, end))
}

/// Fails unless `fd` can name an open descriptor.
pub fn check_descriptor(fd: i32) -> (r: Result<i32, Error>)
    ensures
        fd < 0 ==> r == Err::<i32, Error>(Error::InvalidDescriptor),
        fd >= 0 ==> r == Ok::<i32, Error>(fd),
{
    if fd < 0 {
        Err(Error::InvalidDescriptor)
    } else {
        Ok(fd)
    }
}

/// A savefile being written: a header fixed at creation, then records.
pub struct Savefile {
    header: FileHeader,
    bytes: Vec<u8>,
}

impl View for Savefile {
    type V = Seq<u8>;

    /// The contents written so far.
    closed spec fn view(&self) -> Seq<u8> {
        self.bytes@
    }
}

impl Savefile {
    pub closed spec fn header_spec(&self) -> FileHeader {
        self.header
    }

    /// A fresh savefile: the global header of `header` and no records.
    pub fn new(header: FileHeader) -> (s: Savefile)
        ensures
            s@ == global_bytes(header),
            s.header_spec() == header,
    {
        Savefile { header, bytes: encode_global(header) }
    }

    /// Reopens the contents `existing` of a savefile to write more records after
    /// its last one. Fails unless they start with a valid global header whose
    /// linktype is `linktype`; the header is kept as it is.
    pub fn append(existing: Vec<u8>, linktype: Linktype) -> (r: Result<Savefile, Error>)
        ensures
            r is Ok <==> (parse_global(existing@) is Some && parse_global(
                existing@,
            )->Some_0.linktype == linktype),
            r is Ok ==> r->Ok_0@ == existing@ && r->Ok_0.header_spec() == parse_global(
                existing@,
            )->Some_0,
            r is Err ==> r->Err_0 is IoError,
    {
        match decode_global(&existing) {
            None => Err(Error::IoError("not a savefile: bad global header".to_string())),
            Some(h) => {
                if h.linktype != linktype {
                    Err(Error::IoError("linktype differs from the savefile's".to_string()))
                } else {
                    Ok(Savefile { header: h, bytes: existing })
                }
            },
        }
    }

    /// Writes one record after the last.
    pub fn write(&mut self, packet: &Packet)
        ensures
            final(self)@ == old(self)@ + record_bytes(packet@),
            final(self).header_spec() == old(self).header_spec(),
    {
        encode_record(&mut self.bytes, packet);
    }

    /// The header this savefile was created or reopened with.
    pub fn header(&self) -> (r: FileHeader)
        ensures
            r == self.header_spec(),
    {
        self.header
    }

    /// The contents written so far.
    pub fn bytes(&self) -> (r: &Vec<u8>)
        ensures
            r@ == self@,
    {
        &self.bytes
    }

    /// Ends the session and hands over the contents.
    pub fn into_bytes(self) -> (r: Vec<u8>)
        ensures
            r@ == self@,
    {
        self.bytes
    }
}

/// A capture that replays the records of a savefile's contents, in order.
pub struct Offline {
    header: FileHeader,
    bytes: Vec<u8>,
    pos: usize,
}

impl Offline {
    pub closed spec fn wf(&self) -> bool {
        self.pos <= self.bytes@.len()
    }

    pub closed spec fn header_spec(&self) -> FileHeader {
        self.header
    }

    /// The bytes not yet replayed.
    pub closed spec fn remaining(&self) -> Seq<u8> {
        self.bytes@.subrange(self.pos as int, self.bytes@.len() as int)
    }

    /// Opens the contents of a savefile. Fails unless they start with a valid
    /// global header; the records are checked as they are read.
    pub fn from_bytes(bytes: Vec<u8>) -> (r: Result<Offline, Error>)
        ensures
            r is Ok <==> parse_global(bytes@) is Some,
            r is Ok ==> r->Ok_0.wf() && r->Ok_0.header_spec() == parse_global(bytes@)->Some_0
                && r->Ok_0.remaining() == bytes@.subrange(GLOBAL_LEN as int, bytes@.len() as int),
            r is Err ==> r->Err_0 is IoError,
    {
        match decode_global(&bytes) {
            None => Err(Error::IoError("not a savefile: bad global header".to_string())),
            Some(h) => Ok(Offline { header: h, bytes, pos: GLOBAL_LEN }),
        }
    }

    /// The next record. At the end of the contents this fails with
    /// `NoMorePackets`; where the record there is cut short or its lengths
    /// disagree, with `IoError`. Only a record that is read moves the position.
    pub fn next(&mut self) -> (r: Result<Packet, Error>)
        requires
            old(self).wf(),
        ensures
            final(self).wf(),
            final(self).header_spec() == old(self).header_spec(),
            old(self).remaining().len() == 0 ==> r == Err::<Packet, Error>(Error::NoMorePackets)
                && final(self).remaining() == old(self).remaining(),
            old(self).remaining().len() > 0 ==> match parse_one(old(self).remaining()) {
                None => r is Err && r->Err_0 is IoError && final(self).remaining() == old(
                    self,
                ).remaining(),
                Some((rec, n)) => r is Ok && r->Ok_0@ == rec && r->Ok_0.wf()
                    && final(self).remaining() == old(self).remaining().subrange(
                    n,
                    old(self).remaining().len() as int,
                ),
            },
    {
        if self.pos == self.bytes.len() {
            return Err(Error::NoMorePackets);
        }
        match decode_record(&self.bytes, self.pos) {
            None => Err(Error::IoError("truncated or malformed record".to_string())),
            Some((p, end)) => {
                let ghost old_pos = self.pos as int;
                self.pos = end;
                proof {
                    let b = self.bytes@;
                    assert(b.subrange(old_pos, b.len() as int).subrange(
                        end - old_pos,
                        b.len() - old_pos,
                    ) =~= b.subrange(end as int, b.len() as int));
                }
                Ok(p)
            },
        }
    }

    /// Reading a file never waits, so this is `next`.
    pub fn next_noblock(&mut self) -> (r: Result<Packet, Error>)
        requires
            old(self).wf(),
        ensures
            final(self).wf(),
            final(self).header_spec() == old(self).header_spec(),
            old(self).remaining().len() == 0 ==> r == Err::<Packet, Error>(Error::NoMorePackets)
                && final(self).remaining() == old(self).remaining(),
            old(self).remaining().len() > 0 ==> match parse_one(old(self).remaining()) {
                None => r is Err && r->Err_0 is IoError && final(self).remaining() == old(
                    self,
                ).remaining(),
                Some((rec, n)) => r is Ok && r->Ok_0@ == rec && r->Ok_0.wf()
                    && final(self).remaining() == old(self).remaining().subrange(
                    n,
                    old(self).remaining().len() as int,
                ),
            },
    {
        self.next()
    }

    /// The linktype that the file's header records.
    pub fn get_datalink(&self) -> (r: Linktype)
        ensures
            r == self.header_spec().linktype,
    {
        self.header.linktype
    }

    /// The timestamp precision that the file's magic number selects.
    pub fn get_precision(&self) -> (r: Precision)
        ensures
            r == self.header_spec().precision,
    {
        self.header.precision
    }

    /// A file has no capture statistics: this always fails.
    pub fn stats(&self) -> (r: Result<Stat, Error>)
        ensures
            r == Err::<Stat, Error>(Error::StatsUnavailable),
    {
        Err(Error::StatsUnavailable)
    }

    /// A new savefile with this capture's header.
    pub fn savefile(&self) -> (s: Savefile)
        ensures
            s@ == global_bytes(self.header_spec()),
            s.header_spec() == self.header_spec(),
    {
        Savefile::new(self.header)
    }
}

/// A capture with no source, which declares a linktype and serves to write savefiles.
pub struct Dead {
    header: FileHeader,
}

impl Dead {
    pub closed spec fn header_spec(&self) -> FileHeader {
        self.header
    }

    /// A dead capture of `linktype`, with microsecond timestamps.
    pub fn dead(linktype: Linktype) -> (d: Dead)
        ensures
            d.header_spec() == (FileHeader {
                precision: Precision::Micro,
                snaplen: DEFAULT_SNAPLEN,
                linktype,
            }),
    {
        Dead { header: FileHeader { precision: Precision::Micro, snaplen: DEFAULT_SNAPLEN, linktype } }
    }

    /// A dead capture of `linktype`, with timestamps of the given precision.
    pub fn dead_with_precision(linktype: Linktype, precision: Precision) -> (d: Dead)
        ensures
            d.header_spec() == (FileHeader { precision, snaplen: DEFAULT_SNAPLEN, linktype }),
    {
        Dead { header: FileHeader { precision, snaplen: DEFAULT_SNAPLEN, linktype } }
    }

    /// The declared linktype.
    pub fn get_datalink(&self) -> (r: Linktype)
        ensures
            r == self.header_spec().linktype,
    {
        self.header.linktype
    }

    /// A dead capture has no source: reading always fails.
    pub fn next(&mut self) -> (r: Result<Packet, Error>)
        ensures
            r == Err::<Packet, Error>(Error::NoMorePackets),
            *final(self) == *old(self),
    {
        Err(Error::NoMorePackets)
    }

    /// A dead capture has no statistics: this always fails.
    pub fn stats(&self) -> (r: Result<Stat, Error>)
        ensures
            r == Err::<Stat, Error>(Error::StatsUnavailable),
    {
        Err(Error::StatsUnavailable)
    }

    /// A new savefile with the declared header.
    pub fn savefile(&self) -> (s: Savefile)
        ensures
            s@ == global_bytes(self.header_spec()),
            s.header_spec() == self.header_spec(),
    {
        Savefile::new(self.header)
    }

    /// Reopens savefile contents to append to them; see `Savefile::append`.
    pub fn savefile_append(&self, existing: Vec<u8>) -> (r: Result<Savefile, Error>)
        ensures
            r is Ok <==> (parse_global(existing@) is Some && parse_global(
                existing@,
            )->Some_0.linktype == self.header_spec().linktype),
            r is Ok ==> r->Ok_0@ == existing@ && r->Ok_0.header_spec() == parse_global(
                existing@,
            )->Some_0,
            r is Err ==> r->Err_0 is IoError,
    {
        Savefile::append(existing, self.header.linktype)
    }
}

} // verus!
