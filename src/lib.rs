//! Packet capture data: packets and their headers, the savefile format with a
//! writer and an offline reader, dead captures that seed savefiles, and the
//! decision step of a readiness-driven packet stream.

use vstd::prelude::*;

pub mod bytes;
pub mod capture;
pub mod error;
pub mod format;
pub mod packet;
pub mod stream;

verus! {

} // verus!
