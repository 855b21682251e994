use vstd::prelude::*;

use crate::bytes::{le32, lemma_read_written, read_le32};
use crate::packet::{Linktype, PacketHeader, Precision, Record, record_wf};

verus! {

/// Magic number of a file whose timestamps carry microseconds.
pub const MAGIC_MICRO: u32 = 0xa1b2c3d4;

/// Magic number of a file whose timestamps carry nanoseconds.
pub const MAGIC_NANO: u32 = 0xa1b23c4d;

/// Format version 2.4: major then minor, each a 16-bit field.
pub const VERSION: u32 = 0x0004_0002;

/// Bytes in the global header.
pub const GLOBAL_LEN: usize = 24;

/// Bytes in a record header.
pub const RECORD_HEADER_LEN: usize = 16;

/// What a savefile's global header records.
#[derive(Debug, Clone, Copy, PartialEq, Eq, Structural)]
pub struct FileHeader {
    pub precision: Precision,
    pub snaplen: u32,
    pub linktype: Linktype,
}

pub open spec fn magic_of(p: Precision) -> u32 {
    match p {
        Precision::Micro => MAGIC_MICRO,
        Precision::Nano => MAGIC_NANO,
    }
}

/// The global header: magic, version, zero time zone offset, zero accuracy,
/// snapshot length and linktype.
pub open spec fn global_bytes(h: FileHeader) -> Seq<u8> {
    le32(magic_of(h.precision)) + le32(VERSION) + le32(0) + le32(0) + le32(h.snaplen) + le32(
        h.linktype.0,
    )
}

/// The header that the first bytes of `b` hold, if they are a valid global header.
pub open spec fn parse_global(b: Seq<u8>) -> Option<FileHeader> {
    if b.len() < GLOBAL_LEN {
        None
    } else if read_le32(b, 4) != VERSION {
        None
    } else {
        let m = read_le32(b, 0);
        let precision = if m == MAGIC_MICRO {
            Some(Precision::Micro)
        } else if m == MAGIC_NANO {
            Some(Precision::Nano)
        } else {
            None
        };
        match precision {
            None => None,
            Some(p) => Some(
                FileHeader {
                    precision: p,
                    snaplen: read_le32(b, 16),
                    linktype: Linktype(read_le32(b, 20)),
                },
            ),
        }
    }
}

/// One record: its four header fields, then the payload.
pub open spec fn record_bytes(r: Record) -> Seq<u8> {
    le32(r.0.ts_sec) + le32(r.0.ts_frac) + le32(r.0.caplen) + le32(r.0.len) + r.1
}

/// The records in order, each right after the one before.
pub open spec fn records_bytes(rs: Seq<Record>) -> Seq<u8>
    decreases rs.len(),
{
    if rs.len() == 0 {
        Seq::empty()
    } else {
        record_bytes(rs[0]) + records_bytes(rs.drop_first())
    }
}

/// The contents of a savefile with header `h` and records `rs`.
pub open spec fn savefile_bytes(h: FileHeader, rs: Seq<Record>) -> Seq<u8> {
    global_bytes(h) + records_bytes(rs)
}

/// The record at the start of `b` and its length in bytes, if one is there
/// whole and its lengths are consistent.
pub open spec fn parse_one(b: Seq<u8>) -> Option<(Record, int)> {
    if b.len() < RECORD_HEADER_LEN {
        None
    } else {
        let h = PacketHeader {
            ts_sec: read_le32(b, 0),
            ts_frac: read_le32(b, 4),
            caplen: read_le32(b, 8),
            len: read_le32(b, 12),
        };
        if h.caplen > h.len || h.caplen > b.len() - RECORD_HEADER_LEN {
            None
        } else {
            let n = RECORD_HEADER_LEN + h.caplen;
            Some(((h, b.subrange(RECORD_HEADER_LEN as int, n)), n))
        }
    }
}

/// Every record in `b`, in order, if `b` is a whole number of valid records.
pub open spec fn parse_records(b: Seq<u8>) -> Option<Seq<Record>>
    decreases b.len(),
{
    if b.len() == 0 {
        Some(Seq::empty())
    } else {
        match parse_one(b) {
            None => None,
            Some((r, n)) => match parse_records(b.subrange(n, b.len() as int)) {
                None => None,
                Some(rest) => Some(seq![r] + rest),
            },
        }
    }
}

proof fn lemma_global_round_trip(h: FileHeader, rest: Seq<u8>)
    ensures
        parse_global(global_bytes(h) + rest) == Some(h),
{
    let b = global_bytes(h) + rest;
    assert(b.subrange(0, 4) =~= le32(magic_of(h.precision)));
    assert(b.subrange(4, 8) =~= le32(VERSION));
    assert(b.subrange(16, 20) =~= le32(h.snaplen));
    assert(b.subrange(20, 24) =~= le32(h.linktype.0));
    lemma_read_written(b, 0, magic_of(h.precision));
    lemma_read_written(b, 4, VERSION);
    lemma_read_written(b, 16, h.snaplen);
    lemma_read_written(b, 20, h.linktype.0);
}

proof fn lemma_parse_one_prefix(r: Record, rest: Seq<u8>)
    requires
        record_wf(r),
    ensures
        parse_one(record_bytes(r) + rest) == Some(
            (r, RECORD_HEADER_LEN + r.0.caplen),
        ),
        (record_bytes(r) + rest).subrange(
            RECORD_HEADER_LEN + r.0.caplen,
            (record_bytes(r) + rest).len() as int,
        ) == rest,
{
    let b = record_bytes(r) + rest;
    let n = RECORD_HEADER_LEN + r.0.caplen;
    assert(b.subrange(0, 4) =~= le32(r.0.ts_sec));
    assert(b.subrange(4, 8) =~= le32(r.0.ts_frac));
    assert(b.subrange(8, 12) =~= le32(r.0.caplen));
    assert(b.subrange(12, 16) =~= le32(r.0.len));
    lemma_read_written(b, 0, r.0.ts_sec);
    lemma_read_written(b, 4, r.0.ts_frac);
    lemma_read_written(b, 8, r.0.caplen);
    lemma_read_written(b, 12, r.0.len);
    assert(b.subrange(RECORD_HEADER_LEN as int, n) =~= r.1);
    assert(b.subrange(n, b.len() as int) =~= rest);
    let h = PacketHeader {
        ts_sec: read_le32(b, 0),
        ts_frac: read_le32(b, 4),
        caplen: read_le32(b, 8),
        len: read_le32(b, 12),
    };
    assert(h == r.0);
}

/// The bytes of a sequence of valid records parse back to exactly those records.
pub proof fn lemma_records_round_trip(rs: Seq<Record>)
    requires
        forall|i: int| 0 <= i < rs.len() ==> record_wf(#[trigger] rs[i]),
    ensures
        parse_records(records_bytes(rs)) == Some(rs),
    decreases rs.len(),
{
    if rs.len() > 0 {
        let tail = rs.drop_first();
        assert forall|i: int| 0 <= i < tail.len() implies record_wf(#[trigger] tail[i]) by {
            assert(tail[i] == rs[i + 1]);
        }
        lemma_records_round_trip(tail);
        assert(record_wf(rs[0]));
        lemma_parse_one_prefix(rs[0], records_bytes(tail));
        let b = records_bytes(rs);
        assert(b.len() > 0) by {
            assert(record_bytes(rs[0]).len() >= 16);
        }
        assert(seq![rs[0]] + tail =~= rs);
    } else {
        assert(records_bytes(rs) =~= Seq::<u8>::empty());
    }
}

/// Writing one more record after `rs` gives the bytes of `rs` followed by it.
pub proof fn lemma_records_push(rs: Seq<Record>, r: Record)
    ensures
        records_bytes(rs.push(r)) == records_bytes(rs) + record_bytes(r),
    decreases rs.len(),
{
    if rs.len() == 0 {
        assert(rs.push(r).drop_first() =~= Seq::<Record>::empty());
        assert(rs.push(r)[0] == r);
        assert(records_bytes(rs) =~= Seq::<u8>::empty());
        assert(records_bytes(rs.push(r).drop_first()) =~= Seq::<u8>::empty());
        assert(records_bytes(rs.push(r)) =~= records_bytes(rs) + record_bytes(r));
    } else {
        assert(rs.push(r).drop_first() =~= rs.drop_first().push(r));
        lemma_records_push(rs.drop_first(), r);
        assert(rs.push(r)[0] == rs[0]);
        assert(records_bytes(rs.push(r)) =~= records_bytes(rs) + record_bytes(r));
    }
}

/// The bytes of `a + b` are those of `a` followed by those of `b`.
pub proof fn lemma_records_concat(a: Seq<Record>, b: Seq<Record>)
    ensures
        records_bytes(a + b) == records_bytes(a) + records_bytes(b),
    decreases a.len(),
{
    if a.len() == 0 {
        assert(a + b =~= b);
        assert(records_bytes(a) =~= Seq::<u8>::empty());
        assert(records_bytes(a + b) =~= records_bytes(a) + records_bytes(b));
    } else {
        assert((a + b).drop_first() =~= a.drop_first() + b);
        lemma_records_concat(a.drop_first(), b);
        assert((a + b)[0] == a[0]);
        assert(records_bytes(a + b) =~= records_bytes(a) + records_bytes(b));
    }
}

/// A file written with header `h` and records `rs` reads back as `h`, followed by
/// exactly `rs` in the order in which they were written.
pub proof fn lemma_written_file_replays(h: FileHeader, rs: Seq<Record>)
    requires
        forall|i: int| 0 <= i < rs.len() ==> record_wf(#[trigger] rs[i]),
    ensures
        parse_global(savefile_bytes(h, rs)) == Some(h),
        savefile_bytes(h, rs).subrange(GLOBAL_LEN as int, savefile_bytes(h, rs).len() as int)
            == records_bytes(rs),
        parse_records(records_bytes(rs)) == Some(rs),
{
    lemma_global_round_trip(h, records_bytes(rs));
    let f = savefile_bytes(h, rs);
    assert(f.subrange(GLOBAL_LEN as int, f.len() as int) =~= records_bytes(rs));
    lemma_records_round_trip(rs);
}

/// A file of session `a`, reopened for appending and given session `b`, holds the
/// same bytes as one written with `a` then `b`: the header is kept and it replays
/// as `a + b`.
pub proof fn lemma_appended_sessions_replay(h: FileHeader, a: Seq<Record>, b: Seq<Record>)
    requires
        forall|i: int| 0 <= i < a.len() ==> record_wf(#[trigger] a[i]),
        forall|i: int| 0 <= i < b.len() ==> record_wf(#[trigger] b[i]),
    ensures
        savefile_bytes(h, a) + records_bytes(b) == savefile_bytes(h, a + b),
        parse_global(savefile_bytes(h, a) + records_bytes(b)) == Some(h),
        parse_records(records_bytes(a + b)) == Some(a + b),
{
    lemma_records_concat(a, b);
    assert(savefile_bytes(h, a) + records_bytes(b) =~= savefile_bytes(h, a + b));
    assert forall|i: int| 0 <= i < (a + b).len() implies record_wf(#[trigger] (a + b)[i]) by {
        if i < a.len() {
            assert((a + b)[i] == a[i]);
        } else {
            assert((a + b)[i] == b[i - a.len()]);
        }
    }
    lemma_written_file_replays(h, a + b);
}

/// Replay takes records from the front: a non-empty run of records starts with
/// the first of them, and what follows it is the rest.
pub proof fn lemma_replay_step(b: Seq<u8>, rs: Seq<Record>)
    requires
        parse_records(b) == Some(rs),
    ensures
        rs.len() == 0 <==> b.len() == 0,
        rs.len() > 0 ==> parse_one(b) == Some((rs[0], RECORD_HEADER_LEN + rs[0].0.caplen)),
        rs.len() > 0 ==> parse_records(
            b.subrange(RECORD_HEADER_LEN + rs[0].0.caplen, b.len() as int),
        ) == Some(rs.drop_first()),
{
    if b.len() > 0 {
        let (r, n) = parse_one(b)->Some_0;
        let rest = parse_records(b.subrange(n, b.len() as int))->Some_0;
        assert(rs == seq![r] + rest);
        assert(rs[0] == r);
        assert(rs.drop_first() =~= rest);
    }
}

} // verus!
