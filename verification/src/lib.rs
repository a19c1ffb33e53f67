//! Zero-copy packet layers over pooled, reference-counted buffers.
//!
//! A buffer lives in an [`native::MBufPool`] and is named by a handle.  Packet
//! layers and batch stages hold handles and offsets, never bytes of their own:
//! every read and write goes to the pool, bounds-checked.
pub mod native;
pub mod packet_batch;
pub mod packets;
