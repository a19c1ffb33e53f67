//! Options of neighbour discovery messages.
use crate::native::{MBuf, MBufPool};
use crate::packets::buffer::BufferError;
use vstd::prelude::*;

pub mod link_layer_addr;

verus! {

/// The type code of a source link-layer address option.
pub const SOURCE_LINK_LAYER_ADDR: u8 = 1;

/// The type code of a target link-layer address option.
pub const TARGET_LINK_LAYER_ADDR: u8 = 2;

/// An option that can be appended to the message in a buffer.
pub trait NdpOption: Sized {
    /// Appends the option, with its default fields, to the bytes of the
    /// buffer. What the buffer held stays where it was; on failure nothing
    /// changes.
    fn do_push(pool: &mut MBufPool, mbuf: MBuf) -> (r: Result<Self, BufferError>)
        ensures
            r is Err ==> final(pool)@ == old(pool)@,
            r is Ok ==> old(pool)@.data(mbuf).is_prefix_of(final(pool)@.data(mbuf)),
    ;
}

} // verus!
