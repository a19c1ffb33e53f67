//! The link-layer header of fourteen bytes.
use crate::packets::{EndOffset, Fixed, Header, MacAddr};
use vstd::prelude::*;

verus! {

/// Destination, source and the type of what follows, in wire order; the type
/// is sent high byte first.
#[derive(Clone, Copy, Debug)]
pub struct MacHeader {
    pub dst: MacAddr,
    pub src: MacAddr,
    pub etype: u16,
}

impl Fixed for MacHeader {
    open spec fn spec_size() -> usize {
        14
    }

    open spec fn spec_encode(&self) -> Seq<u8> {
        self.dst.octets@ + self.src.octets@ + seq![
            (self.etype / 256) as u8,
            (self.etype % 256) as u8,
        ]
    }

    open spec fn spec_decode(bytes: Seq<u8>) -> Self {
        MacHeader {
            dst: MacAddr::spec_from(bytes.subrange(0, 6)),
            src: MacAddr::spec_from(bytes.subrange(6, 12)),
            etype: (bytes[12] * 256 + bytes[13]) as u16,
        }
    }

    proof fn lemma_wire_image(&self) {
        self.dst.lemma_octets();
        self.src.lemma_octets();
        assert(self.spec_encode().subrange(0, 6) =~= self.dst.octets@);
        assert(self.spec_encode().subrange(6, 12) =~= self.src.octets@);
    }

    fn size() -> (n: usize) {
        14
    }

    fn encode(&self) -> (bytes: Vec<u8>) {
        let mut bytes: Vec<u8> = Vec::new();
        let mut i: usize = 0;
        while i < 6
            invariant
                i <= 6,
                bytes@ == self.dst.octets@.subrange(0, i as int),
            decreases 6 - i,
        {
            bytes.push(self.dst.octets[i]);
            assert(self.dst.octets@.subrange(0, i as int).push(self.dst.octets@[i as int])
                =~= self.dst.octets@.subrange(0, i + 1));
            i = i + 1;
        }
        assert(self.dst.octets@.subrange(0, 6) =~= self.dst.octets@);
        let mut j: usize = 0;
        while j < 6
            invariant
                j <= 6,
                bytes@ == self.dst.octets@ + self.src.octets@.subrange(0, j as int),
            decreases 6 - j,
        {
            bytes.push(self.src.octets[j]);
            assert(self.src.octets@.subrange(0, j as int).push(self.src.octets@[j as int])
                =~= self.src.octets@.subrange(0, j + 1));
            j = j + 1;
        }
        assert(self.src.octets@.subrange(0, 6) =~= self.src.octets@);
        bytes.push((self.etype / 256) as u8);
        bytes.push((self.etype % 256) as u8);
        bytes
    }

    fn decode(bytes: &[u8]) -> (item: Self) {
        let dst = MacAddr::new(bytes[0], bytes[1], bytes[2], bytes[3], bytes[4], bytes[5]);
        let src = MacAddr::new(bytes[6], bytes[7], bytes[8], bytes[9], bytes[10], bytes[11]);
        proof {
            dst.lemma_octets();
            src.lemma_octets();
            assert(dst.octets@ =~= bytes@.subrange(0, 6));
            assert(src.octets@ =~= bytes@.subrange(6, 12));
        }
        let hi: u16 = bytes[12] as u16;
        let lo: u16 = bytes[13] as u16;
        MacHeader { dst, src, etype: hi * 256 + lo }
    }
}

impl Header for MacHeader {

}

impl EndOffset for MacHeader {
    open spec fn spec_offset(&self) -> usize {
        14
    }

    fn offset(&self) -> (n: usize) {
        14
    }
}

} // verus!
