use vstd::prelude::*;

use crate::network::packet::PacketReader;
use crate::network::ReadError;

verus! {

/// The application layer, which is not decoded.
#[derive(Debug, Clone, Copy, PartialEq, Eq, Structural)]
pub enum ApplicationHeader {
    Default,
}

impl ApplicationHeader {
    /// Always the placeholder; reads nothing.
    pub fn new<'a>(packet_reader: &mut PacketReader<'a>) -> (res: Result<ApplicationHeader, ReadError>)
        ensures
            *final(packet_reader) == *old(packet_reader),
            res == Ok::<ApplicationHeader, ReadError>(ApplicationHeader::Default),
    {
        Ok(ApplicationHeader::Default)
    }
}

} // verus!
