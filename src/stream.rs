use vstd::prelude::*;

use crate::capture::{check_descriptor, Offline};
use crate::error::Error;
use crate::packet::{Packet, PacketHeader, Record};

verus! {

/// Turns a retrieved packet into a value of the application's choosing.
pub trait PacketCodec {
    type Type;

    /// What `decode` gives for `packet` from this codec's current state.
    spec fn decoded(&self, packet: Record) -> Result<Self::Type, Error>;

    fn decode(&mut self, packet: Packet) -> (r: Result<Self::Type, Error>)
        ensures
            r == old(self).decoded(packet@),
    ;
}

/// A codec whose output is the packet's header.
pub struct HeaderCodec;

impl PacketCodec for HeaderCodec {
    type Type = PacketHeader;

    open spec fn decoded(&self, packet: Record) -> Result<PacketHeader, Error> {
        Ok(packet.0)
    }

    fn decode(&mut self, packet: Packet) -> (r: Result<PacketHeader, Error>) {
        Ok(packet.header)
    }
}

/// The outcome of one poll of a stream that has not failed.
#[derive(Debug, PartialEq, Eq)]
pub enum Async<T> {
    /// The item is ready; `None` would end the stream.
    Ready(Option<T>),
    /// Nothing is ready yet: poll again once the descriptor is readable.
    NotReady,
}

/// What one poll step reports, given what the retrieval returned and the codec.
pub open spec fn poll_outcome<T>(
    retrieved: Result<Record, Error>,
    decoded: Result<T, Error>,
) -> Result<Async<T>, Error> {
    match retrieved {
        Err(Error::WouldBlock) => Ok(Async::NotReady),
        Err(e) => Err(e),
        Ok(_) => match decoded {
            Ok(v) => Ok(Async::Ready(Some(v))),
            Err(e) => Err(e),
        },
    }
}

/// The record that a retrieval returned, if any.
pub open spec fn retrieved_view(retrieved: Result<Packet, Error>) -> Result<Record, Error> {
    match retrieved {
        Ok(p) => Ok(p@),
        Err(e) => Err(e),
    }
}

/// One poll step. Nothing ready is "not ready" and no error; another retrieval
/// error ends the stream with that error; a packet is decoded once, and its
/// output or the codec's error is what the step reports.
pub fn poll_step<C: PacketCodec>(retrieved: Result<Packet, Error>, codec: &mut C) -> (r: Result<
    Async<C::Type>,
    Error,
>)
    ensures
        retrieved is Ok ==> r == poll_outcome(
            retrieved_view(retrieved),
            old(codec).decoded(retrieved->Ok_0@),
        ),
        retrieved is Err ==> r == poll_outcome::<C::Type>(
            retrieved_view(retrieved),
            Err(Error::WouldBlock),
        ) && *final(codec) == *old(codec),
{
    match retrieved {
        Err(Error::WouldBlock) => Ok(Async::NotReady),
        Err(e) => Err(e),
        Ok(p) => match codec.decode(p) {
            Ok(v) => Ok(Async::Ready(Some(v))),
            Err(e) => Err(e),
        },
    }
}

/// A stream of decoded packets over a capture, driven by readiness of the
/// capture's descriptor.
pub struct PacketStream<C> {
    cap: Offline,
    fd: i32,
    codec: C,
}

impl<C: PacketCodec> PacketStream<C> {
    pub closed spec fn wf(&self) -> bool {
        self.cap.wf() && self.fd >= 0
    }

    pub closed spec fn capture(&self) -> Offline {
        self.cap
    }

    pub closed spec fn codec(&self) -> C {
        self.codec
    }

    pub closed spec fn descriptor(&self) -> i32 {
        self.fd
    }

    /// A stream over `cap`, whose readiness is that of descriptor `fd`. Fails
    /// with `InvalidDescriptor` where `fd` is negative.
    pub fn new(cap: Offline, fd: i32, codec: C) -> (r: Result<PacketStream<C>, Error>)
        requires
            cap.wf(),
        ensures
            fd < 0 <==> r is Err,
            fd < 0 ==> r->Err_0 == Error::InvalidDescriptor,
            r is Ok ==> r->Ok_0.wf() && r->Ok_0.capture() == cap && r->Ok_0.codec() == codec
                && r->Ok_0.descriptor() == fd,
    {
        match check_descriptor(fd) {
            Err(e) => Err(e),
            Ok(fd) => Ok(PacketStream { cap, fd, codec }),
        }
    }

    /// The descriptor whose readiness drives this stream.
    pub fn fd(&self) -> (r: i32)
        ensures
            r == self.descriptor(),
    {
        self.fd
    }

    /// Retrieves without blocking and takes one poll step on what came back.
    pub fn poll(&mut self) -> (r: Result<Async<C::Type>, Error>)
        requires
            old(self).wf(),
        ensures
            final(self).wf(),
            final(self).descriptor() == old(self).descriptor(),
            final(self).capture().header_spec() == old(self).capture().header_spec(),
            old(self).capture().remaining().len() == 0 ==> r == Err::<Async<C::Type>, Error>(
                Error::NoMorePackets,
            ) && final(self).capture().remaining() == old(self).capture().remaining(),
            old(self).capture().remaining().len() > 0 ==> match crate::format::parse_one(
                old(self).capture().remaining(),
            ) {
                None => r is Err && r->Err_0 is IoError,
                Some((rec, n)) => r == poll_outcome(Ok(rec), old(self).codec().decoded(rec))
                    && final(self).capture().remaining() == old(self).capture().remaining().subrange(
                    n,
                    old(self).capture().remaining().len() as int,
                ),
            },
    {
        let retrieved = self.cap.next_noblock();
        poll_step(retrieved, &mut self.codec)
    }
}

} // verus!
