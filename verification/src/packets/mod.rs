//! Packet layers: what a header is, and the errors of reading and writing one.
use crate::native::{MBuf, MBufPool};
use crate::packets::buffer::BufferError;
use crate::packets::raw::RawPacket;
use crate::packets::text::{push_hex, spec_hex};
use vstd::prelude::*;

pub mod buffer;
pub mod mac;
pub mod ndp;
pub mod raw;
pub mod text;

verus! {

/// Why a layer could not be read from the bytes of a buffer.
#[derive(Debug, PartialEq, Eq)]
pub struct ParseError {
    reason: String,
}

impl View for ParseError {
    type V = Seq<char>;

    closed spec fn view(&self) -> Seq<char> {
        self.reason@
    }
}

impl ParseError {
    /// An error with its reason in words.
    pub fn new(reason: &str) -> (e: ParseError)
        ensures
            e@ == reason@,
    {
        ParseError { reason: String::from_str(reason) }
    }

    /// The reason, in words.
    pub fn reason(&self) -> (reason: &str)
        ensures
            reason@ == self@,
    {
        self.reason.as_str()
    }
}

/// Why an operation on a packet layer failed.
#[derive(Debug, PartialEq, Eq)]
pub enum PacketError {
    /// The buffer refused a read, a write or a growth.
    Buffer(BufferError),
    /// The bytes do not hold a valid layer.
    Parse(ParseError),
}

/// A type with a wire image of a fixed number of bytes.
pub trait Fixed: Sized {
    /// The number of bytes of the wire image.
    spec fn spec_size() -> usize;

    /// The wire image of a value.
    spec fn spec_encode(&self) -> Seq<u8>;

    /// The value that a wire image stands for.
    spec fn spec_decode(bytes: Seq<u8>) -> Self;

    /// A wire image has the fixed size, and reading it gives the value back.
    proof fn lemma_wire_image(&self)
        ensures
            self.spec_encode().len() == Self::spec_size(),
            Self::spec_decode(self.spec_encode()) == *self,
    ;

    /// The number of bytes of the wire image.
    fn size() -> (n: usize)
        ensures
            n == Self::spec_size(),
    ;

    /// The wire image of the value.
    fn encode(&self) -> (bytes: Vec<u8>)
        ensures
            bytes@ == self.spec_encode(),
    ;

    /// The value that the bytes stand for.
    fn decode(bytes: &[u8]) -> (item: Self)
        requires
            bytes@.len() == Self::spec_size(),
        ensures
            item == Self::spec_decode(bytes@),
    ;
}

/// A type that can be laid over the bytes of a buffer as a header.
pub trait Header: Fixed {

}

/// A header that tells from its own fields where what follows it begins.
pub trait EndOffset: Header {
    /// The number of bytes from the first byte of the header to the first
    /// byte after it.
    spec fn spec_offset(&self) -> usize;

    /// The number of bytes from the first byte of the header to the first
    /// byte after it.
    fn offset(&self) -> (n: usize)
        ensures
            n == self.spec_offset(),
    ;
}

/// A layer of a packet: a header laid over the bytes of a buffer, and the
/// layer that encloses it. The chain of envelopes ends in the raw packet,
/// which is its own envelope.
pub trait Packet: Sized {
    /// The type of the layer's header.
    type Header: Header;

    /// The type of the enclosing layer.
    type Envelope;

    /// The enclosing layer.
    spec fn spec_envelope(&self) -> Self::Envelope;

    /// The buffer that the whole chain lies in.
    spec fn spec_mbuf(&self) -> MBuf;

    /// The offset of the layer's header in the buffer.
    spec fn spec_offset(&self) -> usize;

    /// The number of bytes of the layer's header.
    spec fn spec_header_len(&self) -> usize;

    /// The enclosing layer.
    fn envelope(&self) -> (r: &Self::Envelope)
        ensures
            *r == self.spec_envelope(),
    ;

    /// The enclosing layer, to change it in place.
    fn envelope_mut(&mut self) -> (r: &mut Self::Envelope)
        ensures
            *r == old(self).spec_envelope(),
            final(self).spec_envelope() == *final(r),
    ;

    /// The buffer that the chain lies in.
    fn mbuf(&self) -> (r: MBuf)
        ensures
            r == self.spec_mbuf(),
    ;

    /// The offset of the layer's header in the buffer.
    fn offset(&self) -> (r: usize)
        ensures
            r == self.spec_offset(),
    ;

    /// The number of bytes of the layer's header.
    fn header_len(&self) -> (r: usize)
        ensures
            r == self.spec_header_len(),
    ;

    /// Reads the layer from the bytes that follow the header of `envelope`.
    fn do_parse(envelope: Self::Envelope, pool: &MBufPool) -> (r: Result<Self, PacketError>)
        ensures
            r matches Ok(packet) ==> packet.spec_envelope() == envelope,
    ;

    /// Makes room for the layer's header after the header of `envelope` and
    /// writes the header with its default fields.
    fn do_push(envelope: Self::Envelope, pool: &mut MBufPool) -> (r: Result<Self, PacketError>)
        ensures
            r matches Ok(packet) ==> packet.spec_envelope() == envelope,
            r is Err ==> final(pool)@ == old(pool)@,
    ;

    /// Takes the layer's header out of the buffer and gives the envelope back.
    fn remove(self, pool: &mut MBufPool) -> (r: Result<Self::Envelope, PacketError>)
        ensures
            r matches Ok(envelope) ==> envelope == self.spec_envelope(),
            r is Err ==> final(pool)@ == old(pool)@,
    ;

    /// Carries a change of the layer's size up through the enclosing layers.
    /// The layer stays where it is.
    fn cascade(&mut self, pool: &mut MBufPool)
        ensures
            final(self).spec_mbuf() == old(self).spec_mbuf(),
            final(self).spec_offset() == old(self).spec_offset(),
    ;

    /// Gives the envelope back and leaves the bytes as they are.
    fn deparse(self) -> (r: Self::Envelope)
        ensures
            r == self.spec_envelope(),
    ;

    /// Gives back the raw packet that the chain ends in.
    fn reset(self) -> (r: RawPacket)
        ensures
            r@.mbuf == self.spec_mbuf(),
    ;
}

/// The unit header, of no bytes.
impl Fixed for () {
    open spec fn spec_size() -> usize {
        0
    }

    open spec fn spec_encode(&self) -> Seq<u8> {
        Seq::empty()
    }

    open spec fn spec_decode(bytes: Seq<u8>) -> Self {
        ()
    }

    proof fn lemma_wire_image(&self) {
    }

    fn size() -> (n: usize) {
        0
    }

    fn encode(&self) -> (bytes: Vec<u8>) {
        Vec::new()
    }

    fn decode(bytes: &[u8]) -> (item: Self) {
        ()
    }
}

impl Header for () {

}

/// A hardware address of six bytes.
#[derive(Clone, Copy, Debug, PartialEq, Eq)]
pub struct MacAddr {
    pub octets: [u8; 6],
}

impl MacAddr {
    /// The address that six bytes stand for.
    pub open spec fn spec_from(bytes: Seq<u8>) -> MacAddr {
        MacAddr { octets: [bytes[0], bytes[1], bytes[2], bytes[3], bytes[4], bytes[5]] }
    }

    /// An address is its six bytes.
    pub proof fn lemma_octets(self)
        ensures
            self.octets@.len() == 6,
            MacAddr::spec_from(self.octets@) == self,
    {
        assert(MacAddr::spec_from(self.octets@).octets@ =~= self.octets@);
        assert(MacAddr::spec_from(self.octets@).octets == self.octets);
    }

    /// The address of the six bytes, in order.
    pub fn new(a: u8, b: u8, c: u8, d: u8, e: u8, f: u8) -> (addr: MacAddr)
        ensures
            addr.octets@ == seq![a, b, c, d, e, f],
    {
        MacAddr { octets: [a, b, c, d, e, f] }
    }

    /// The address of six zero bytes.
    pub fn unspecified() -> (addr: MacAddr)
        ensures
            addr.octets@ == seq![0u8, 0u8, 0u8, 0u8, 0u8, 0u8],
    {
        MacAddr { octets: [0, 0, 0, 0, 0, 0] }
    }

    /// The address as text: its bytes in hexadecimal, a colon between them.
    pub open spec fn spec_display(self) -> Seq<char> {
        spec_hex(self.octets[0]) + ":"@ + spec_hex(self.octets[1]) + ":"@ + spec_hex(
            self.octets[2],
        ) + ":"@ + spec_hex(self.octets[3]) + ":"@ + spec_hex(self.octets[4]) + ":"@ + spec_hex(
            self.octets[5],
        )
    }

    /// Appends the address as text.
    pub fn push_to(&self, text: &mut String)
        ensures
            final(text)@ == old(text)@ + self.spec_display(),
    {
        push_hex(text, self.octets[0]);
        text.append(":");
        push_hex(text, self.octets[1]);
        text.append(":");
        push_hex(text, self.octets[2]);
        text.append(":");
        push_hex(text, self.octets[3]);
        text.append(":");
        push_hex(text, self.octets[4]);
        text.append(":");
        push_hex(text, self.octets[5]);
        assert(final(text)@ =~= old(text)@ + self.spec_display());
    }

    /// The address as text.
    pub fn to_string(&self) -> (text: String)
        ensures
            text@ == self.spec_display(),
    {
        let mut text = String::new();
        self.push_to(&mut text);
        assert(Seq::<char>::empty() + self.spec_display() =~= self.spec_display());
        text
    }

}

} // verus!
