use vstd::prelude::*;

verus! {

/// A data-link type identifier, as stored in a savefile's header.
#[derive(Debug, Clone, Copy, PartialEq, Eq, Structural)]
pub struct Linktype(pub u32);

/// The unit of the sub-second part of a timestamp.
#[derive(Debug, Clone, Copy, PartialEq, Eq, Structural)]
pub enum Precision {
    Micro,
    Nano,
}

/// The per-packet header: timestamp, captured length and on-wire length.
#[derive(Debug, Clone, Copy, PartialEq, Eq, Structural)]
pub struct PacketHeader {
    pub ts_sec: u32,
    pub ts_frac: u32,
    pub caplen: u32,
    pub len: u32,
}

/// One captured packet: its header and exactly `caplen` bytes of payload.
#[derive(Debug, Clone)]
pub struct Packet {
    pub header: PacketHeader,
    pub data: Vec<u8>,
}

/// A packet as a value: its header and its payload bytes.
pub type Record = (PacketHeader, Seq<u8>);

/// The payload holds exactly `caplen` bytes, and no more was captured than was sent.
pub open spec fn record_wf(r: Record) -> bool {
    r.1.len() == r.0.caplen && r.0.caplen <= r.0.len
}

impl View for Packet {
    type V = Record;

    open spec fn view(&self) -> Record {
        (self.header, self.data@)
    }
}

impl Packet {
    pub open spec fn wf(&self) -> bool {
        record_wf(self@)
    }

    /// A packet from its header and payload.
    pub fn new(header: PacketHeader, data: Vec<u8>) -> (p: Packet)
        requires
            data@.len() == header.caplen,
            header.caplen <= header.len,
        ensures
            p@ == (header, data@),
            p.wf(),
    {
        Packet { header, data }
    }

    /// The payload was cut short by the snapshot length.
    pub fn is_truncated(&self) -> (r: bool)
        ensures
            r == (self.header.caplen < self.header.len),
    {
        self.header.caplen < self.header.len
    }

    /// Two packets are equal when their headers and payloads are.
    pub fn same_as(&self, other: &Packet) -> (r: bool)
        ensures
            r == (self@ == other@),
    {
        if self.header != other.header || self.data.len() != other.data.len() {
            proof {
                if self.data.len() != other.data.len() {
                    assert(self.data@.len() != other.data@.len());
                }
            }
            return false;
        }
        let mut i: usize = 0;
        while i < self.data.len()
            invariant
                self.data@.len() == other.data@.len(),
                i <= self.data@.len(),
                forall|j: int| 0 <= j < i ==> self.data@[j] == other.data@[j],
            decreases self.data@.len() - i,
        {
            if self.data[i] != other.data[i] {
                return false;
            }
            i = i + 1;
        }
        assert(self.data@ =~= other.data@);
        true
    }
}

/// Counters that a live capture reports.
#[derive(Debug, Clone, Copy, PartialEq, Eq, Structural)]
pub struct Stat {
    pub received: u32,
    pub dropped: u32,
    pub if_dropped: u32,
}

} // verus!
