//! The source or target link-layer address option.
//!
//! ```text
//!  0                   1                   2                   3
//!  0 1 2 3 4 5 6 7 8 9 0 1 2 3 4 5 6 7 8 9 0 1 2 3 4 5 6 7 8 9 0 1
//! +-+-+-+-+-+-+-+-+-+-+-+-+-+-+-+-+-+-+-+-+-+-+-+-+-+-+-+-+-+-+-+-+
//! |     Type      |    Length     |    Link-Layer Address ...
//! +-+-+-+-+-+-+-+-+-+-+-+-+-+-+-+-+-+-+-+-+-+-+-+-+-+-+-+-+-+-+-+-+
//! ```
//!
//! The type is 1 for a source and 2 for a target address. The length counts
//! the whole option in units of eight bytes; for a six-byte hardware address
//! it is 1.
use crate::native::{MBuf, MBufPool, PoolState};
use crate::packets::buffer::{
    alloc_at, lemma_with_data_again, overwritten, read_item, spec_read_item, write_item,
    BufferError,
};
use crate::packets::ndp::{NdpOption, SOURCE_LINK_LAYER_ADDR, TARGET_LINK_LAYER_ADDR};
use crate::packets::text::{push_decimal, spec_decimal};
use crate::packets::{EndOffset, Fixed, Header, MacAddr, PacketError, ParseError};
use vstd::prelude::*;
use vstd::slice::slice_subrange;

verus! {

/// The fields of the option, in wire order.
#[derive(Clone, Copy, Debug)]
pub struct LinkLayerAddressFields {
    pub option_type: u8,
    pub length: u8,
    pub addr: MacAddr,
}

impl LinkLayerAddressFields {
    /// The fields that a new option starts with: a source address option of
    /// one unit, its address unspecified.
    pub open spec fn spec_default() -> LinkLayerAddressFields {
        LinkLayerAddressFields {
            option_type: 1,
            length: 1,
            addr: MacAddr::spec_from(seq![0u8, 0u8, 0u8, 0u8, 0u8, 0u8]),
        }
    }
}

impl Default for LinkLayerAddressFields {
    /// A source address option of one unit, its address unspecified.
    fn default() -> (fields: LinkLayerAddressFields)
        ensures
            fields == LinkLayerAddressFields::spec_default(),
    {
        let addr = MacAddr::unspecified();
        proof {
            addr.lemma_octets();
        }
        LinkLayerAddressFields { option_type: 1, length: 1, addr }
    }
}

impl Fixed for LinkLayerAddressFields {
    open spec fn spec_size() -> usize {
        8
    }

    open spec fn spec_encode(&self) -> Seq<u8> {
        seq![self.option_type, self.length] + self.addr.octets@
    }

    open spec fn spec_decode(bytes: Seq<u8>) -> Self {
        LinkLayerAddressFields {
            option_type: bytes[0],
            length: bytes[1],
            addr: MacAddr::spec_from(bytes.subrange(2, 8)),
        }
    }

    proof fn lemma_wire_image(&self) {
        self.addr.lemma_octets();
        assert(self.spec_encode().subrange(2, 8) =~= self.addr.octets@);
    }

    fn size() -> (n: usize) {
        8
    }

    fn encode(&self) -> (bytes: Vec<u8>) {
        let mut bytes: Vec<u8> = Vec::new();
        bytes.push(self.option_type);
        bytes.push(self.length);
        let mut i: usize = 0;
        while i < 6
            invariant
                i <= 6,
                bytes@ == seq![self.option_type, self.length] + self.addr.octets@.subrange(
                    0,
                    i as int,
                ),
            decreases 6 - i,
        {
            bytes.push(self.addr.octets[i]);
            assert(self.addr.octets@.subrange(0, i as int).push(self.addr.octets@[i as int])
                =~= self.addr.octets@.subrange(0, i + 1));
            i = i + 1;
        }
        assert(self.addr.octets@.subrange(0, 6) =~= self.addr.octets@);
        bytes
    }

    fn decode(bytes: &[u8]) -> (item: Self) {
        let addr = MacAddr::new(bytes[2], bytes[3], bytes[4], bytes[5], bytes[6], bytes[7]);
        proof {
            addr.lemma_octets();
            assert(addr.octets@ =~= bytes@.subrange(2, 8));
        }
        LinkLayerAddressFields { option_type: bytes[0], length: bytes[1], addr }
    }
}

impl Header for LinkLayerAddressFields {

}

/// An option tells its own size: what follows it begins as many units of
/// eight bytes after its first byte as its length field says.
impl EndOffset for LinkLayerAddressFields {
    open spec fn spec_offset(&self) -> usize {
        (self.length * 8) as usize
    }

    fn offset(&self) -> (n: usize) {
        self.length as usize * 8
    }
}

/// A link-layer address option as contracts see it: the buffer that holds it
/// and the offset of its first byte.
pub struct LinkLayerAddressView {
    pub mbuf: MBuf,
    pub offset: usize,
}

impl LinkLayerAddressView {
    /// The eight bytes of the option lie in the buffer.
    pub open spec fn is_attached(self, pool: PoolState) -> bool {
        self.offset + 8 <= pool.data(self.mbuf).len()
    }

    /// The fields that the bytes of the option stand for.
    pub open spec fn fields(self, pool: PoolState) -> LinkLayerAddressFields {
        LinkLayerAddressFields::spec_decode(
            pool.data(self.mbuf).subrange(self.offset as int, self.offset + 8),
        )
    }

    /// The pool with the fields of the option replaced and every other byte
    /// as it was.
    pub open spec fn with_fields(self, pool: PoolState, fields: LinkLayerAddressFields)
        -> PoolState {
        pool.with_data(
            self.mbuf,
            overwritten(pool.data(self.mbuf), self.offset as int, fields.spec_encode()),
        )
    }
}

/// Link-layer address option: a view of eight bytes of a buffer.
pub struct LinkLayerAddress {
    mbuf: MBuf,
    offset: usize,
}

impl View for LinkLayerAddress {
    type V = LinkLayerAddressView;

    closed spec fn view(&self) -> LinkLayerAddressView {
        LinkLayerAddressView { mbuf: self.mbuf, offset: self.offset }
    }
}

/// The reason given where the length field of an option is not 1.
pub open spec fn invalid_length_reason() -> Seq<char> {
    "invalid link-layer address option length"@
}

/// The bytes at `offset` in the buffer hold an option that `parse` accepts:
/// all eight lie in the buffer, and the length field is 1.
pub open spec fn parses(pool: PoolState, mbuf: MBuf, offset: usize) -> bool {
    spec_read_item::<LinkLayerAddressFields>(pool, mbuf, offset) matches Ok(fields)
        && fields.length == LinkLayerAddressFields::spec_size() / 8
}

/// The value is one of the two type codes of this option.
pub open spec fn is_type_code(option_type: u8) -> bool {
    option_type == SOURCE_LINK_LAYER_ADDR || option_type == TARGET_LINK_LAYER_ADDR
}

/// What `do_push` answers, with the option as contracts see it, and what it
/// leaves of the pool.
pub open spec fn spec_do_push(pool: PoolState, mbuf: MBuf) -> (
    Result<LinkLayerAddressView, BufferError>,
    PoolState,
) {
    if 8 > pool.room(mbuf) {
        (Err(BufferError::NotResized), pool)
    } else {
        (
            Ok(LinkLayerAddressView { mbuf, offset: pool.data(mbuf).len() as usize }),
            pool.with_data(
                mbuf,
                pool.data(mbuf) + LinkLayerAddressFields::spec_default().spec_encode(),
            ),
        )
    }
}

/// The option as text.
pub open spec fn spec_display(fields: LinkLayerAddressFields) -> Seq<char> {
    "type: "@ + spec_decimal(fields.option_type as nat) + ", length: "@ + spec_decimal(
        fields.length as nat,
    ) + ", addr: "@ + fields.addr.spec_display()
}

/// What `set_option_type` leaves of the pool: one of the two type codes is
/// written, any other value is ignored.
pub open spec fn spec_set_option_type(
    option: LinkLayerAddressView,
    pool: PoolState,
    option_type: u8,
) -> PoolState {
    if is_type_code(option_type) {
        let fields = option.fields(pool);
        option.with_fields(
            pool,
            LinkLayerAddressFields { option_type, length: fields.length, addr: fields.addr },
        )
    } else {
        pool
    }
}

/// What `set_addr` leaves of the pool.
pub open spec fn spec_set_addr(option: LinkLayerAddressView, pool: PoolState, addr: MacAddr)
    -> PoolState {
    let fields = option.fields(pool);
    option.with_fields(
        pool,
        LinkLayerAddressFields { option_type: fields.option_type, length: fields.length, addr },
    )
}

/// Writing the fields of an option that lies in its buffer leaves the option
/// there, with those fields, and every byte outside it as it was.
pub proof fn lemma_with_fields(
    option: LinkLayerAddressView,
    pool: PoolState,
    fields: LinkLayerAddressFields,
)
    requires
        option.is_attached(pool),
    ensures
        option.is_attached(option.with_fields(pool, fields)),
        option.fields(option.with_fields(pool, fields)) == fields,
        option.with_fields(pool, fields).data(option.mbuf).len() == pool.data(option.mbuf).len(),
        forall|i: int|
            0 <= i < pool.data(option.mbuf).len() && !(option.offset <= i < option.offset + 8)
                ==> option.with_fields(pool, fields).data(option.mbuf)[i] == pool.data(
                option.mbuf,
            )[i],
{
    fields.lemma_wire_image();
    let data = pool.data(option.mbuf);
    let written = overwritten(data, option.offset as int, fields.spec_encode());
    lemma_with_data_again(pool, option.mbuf, written, written);
    assert(written.subrange(option.offset as int, option.offset + 8) =~= fields.spec_encode());
}

/// An option that was pushed, and whose type and address were then set, is
/// parsed back from where it was pushed: its length is 1, its address is the
/// one written, and its type is the one written where that is one of the two
/// type codes, and the default, 1, where it is not.
pub proof fn lemma_push_then_parse(pool: PoolState, mbuf: MBuf, option_type: u8, addr: MacAddr)
    ensures
        spec_do_push(pool, mbuf) matches (Ok(option), pushed) ==> {
            let typed = spec_set_option_type(option, pushed, option_type);
            let written = spec_set_addr(option, typed, addr);
            &&& parses(pushed, mbuf, option.offset)
            &&& option.fields(pushed) == LinkLayerAddressFields::spec_default()
            &&& parses(written, mbuf, option.offset)
            &&& option.fields(written) == (LinkLayerAddressFields {
                option_type: if is_type_code(option_type) {
                    option_type
                } else {
                    1
                },
                length: 1,
                addr,
            })
        },
{
    if 8 <= pool.room(mbuf) {
        let option = LinkLayerAddressView { mbuf, offset: pool.data(mbuf).len() as usize };
        let defaults = LinkLayerAddressFields::spec_default();
        defaults.lemma_wire_image();
        let pushed = spec_do_push(pool, mbuf).1;
        lemma_with_data_again(
            pool,
            mbuf,
            pool.data(mbuf) + defaults.spec_encode(),
            pool.data(mbuf) + defaults.spec_encode(),
        );
        assert(pushed.data(mbuf).subrange(option.offset as int, option.offset + 8)
            =~= defaults.spec_encode());
        assert(option.is_attached(pushed));
        let typed = spec_set_option_type(option, pushed, option_type);
        if is_type_code(option_type) {
            lemma_with_fields(
                option,
                pushed,
                LinkLayerAddressFields { option_type, length: 1, addr: defaults.addr },
            );
        }
        let kept = option.fields(typed);
        lemma_with_fields(
            option,
            typed,
            LinkLayerAddressFields { option_type: kept.option_type, length: 1, addr },
        );
    }
}

/// Whatever the other fields and wherever the option lies, bytes whose length
/// field is not 1 are not parsed.
pub proof fn lemma_bad_length_not_parsed(pool: PoolState, option: LinkLayerAddressView)
    requires
        option.is_attached(pool),
        option.fields(pool).length != 1,
    ensures
        !parses(pool, option.mbuf, option.offset),
{
}

impl NdpOption for LinkLayerAddress {
    /// Appends an option with the default fields to the bytes of the buffer.
    fn do_push(pool: &mut MBufPool, mbuf: MBuf) -> (r: Result<Self, BufferError>)
        ensures
            (
                match r {
                    Ok(option) => Ok::<LinkLayerAddressView, BufferError>(option@),
                    Err(e) => Err::<LinkLayerAddressView, BufferError>(e),
                },
                final(pool)@,
            ) == spec_do_push(old(pool)@, mbuf),
    {
        let offset: usize = pool.data_len(mbuf);
        let ghost before = pool@.data(mbuf);
        match alloc_at(pool, mbuf, offset, LinkLayerAddressFields::size()) {
            Ok(()) => {},
            Err(e) => {
                return Err(e);
            },
        }
        let ghost grown = pool@.data(mbuf);
        let fields = LinkLayerAddressFields::default();
        proof {
            fields.lemma_wire_image();
            lemma_with_data_again(old(pool)@, mbuf, grown, grown);
            lemma_with_data_again(
                old(pool)@,
                mbuf,
                grown,
                overwritten(grown, offset as int, fields.spec_encode()),
            );
            assert(overwritten(grown, offset as int, fields.spec_encode()) =~= before
                + fields.spec_encode());
            assert(before.is_prefix_of(before + fields.spec_encode()));
        }
        match write_item(pool, mbuf, offset, &fields) {
            Ok(()) => {},
            Err(e) => {
                return Err(e);
            },
        }
        Ok(LinkLayerAddress { mbuf, offset })
    }
}

impl LinkLayerAddress {
    /// Parses the link-layer address option from the bytes of a buffer at
    /// `offset`. The eight bytes must lie in the buffer, and the length field
    /// must be 1.
    pub fn parse(pool: &MBufPool, mbuf: MBuf, offset: usize) -> (r: Result<
        LinkLayerAddress,
        PacketError,
    >)
        ensures
            r is Ok <==> parses(pool@, mbuf, offset),
            match r {
                Ok(option) => {
                    &&& spec_read_item::<LinkLayerAddressFields>(pool@, mbuf, offset) matches Ok(
                        fields,
                    ) && fields.length == 1
                    &&& option@ == (LinkLayerAddressView { mbuf, offset })
                    &&& option@.is_attached(pool@)
                },
                Err(PacketError::Buffer(e)) => spec_read_item::<LinkLayerAddressFields>(
                    pool@,
                    mbuf,
                    offset,
                ) == Err::<LinkLayerAddressFields, BufferError>(e),
                Err(PacketError::Parse(e)) => {
                    &&& spec_read_item::<LinkLayerAddressFields>(pool@, mbuf, offset) matches Ok(
                        fields,
                    ) && fields.length != 1
                    &&& e@ == invalid_length_reason()
                },
            },
    {
        let fields = match read_item::<LinkLayerAddressFields>(pool, mbuf, offset) {
            Ok(fields) => fields,
            Err(e) => {
                return Err(PacketError::Buffer(e));
            },
        };
        if fields.length != LinkLayerAddressFields::size() as u8 / 8 {
            Err(PacketError::Parse(ParseError::new("invalid link-layer address option length")))
        } else {
            Ok(LinkLayerAddress { mbuf, offset })
        }
    }

    /// Returns the buffer offset of this option.
    pub fn offset(&self) -> (offset: usize)
        ensures
            offset == self@.offset,
    {
        self.offset
    }

    /// Returns the buffer that holds this option.
    pub fn mbuf(&self) -> (mbuf: MBuf)
        ensures
            mbuf == self@.mbuf,
    {
        self.mbuf
    }

    /// Whether the eight bytes of the option lie in the buffer.
    pub fn is_attached(&self, pool: &MBufPool) -> (b: bool)
        ensures
            b == self@.is_attached(pool@),
    {
        let data_len: usize = pool.data_len(self.mbuf);
        data_len >= 8 && self.offset <= data_len - 8
    }

    /// Reads the fields of the option.
    pub fn fields(&self, pool: &MBufPool) -> (fields: LinkLayerAddressFields)
        requires
            self@.is_attached(pool@),
        ensures
            fields == self@.fields(pool@),
    {
        let bytes = slice_subrange(pool.data(self.mbuf), self.offset, self.offset + 8);
        LinkLayerAddressFields::decode(bytes)
    }

    /// Writes the fields of the option.
    fn set_fields(&self, pool: &mut MBufPool, fields: &LinkLayerAddressFields)
        requires
            self@.is_attached(old(pool)@),
        ensures
            final(pool)@ == self@.with_fields(old(pool)@, *fields),
    {
        proof {
            fields.lemma_wire_image();
        }
        let _ = write_item(pool, self.mbuf, self.offset, fields);
    }

    /// The type code of the option.
    pub fn option_type(&self, pool: &MBufPool) -> (option_type: u8)
        requires
            self@.is_attached(pool@),
        ensures
            option_type == self@.fields(pool@).option_type,
    {
        self.fields(pool).option_type
    }

    /// The length of the option, in units of eight bytes.
    pub fn length(&self, pool: &MBufPool) -> (length: u8)
        requires
            self@.is_attached(pool@),
        ensures
            length == self@.fields(pool@).length,
    {
        self.fields(pool).length
    }

    /// The hardware address that the option carries.
    pub fn addr(&self, pool: &MBufPool) -> (addr: MacAddr)
        requires
            self@.is_attached(pool@),
        ensures
            addr == self@.fields(pool@).addr,
    {
        self.fields(pool).addr
    }

    /// The option as text: its type, its length and its address.
    pub fn to_string(&self, pool: &MBufPool) -> (text: String)
        requires
            self@.is_attached(pool@),
        ensures
            text@ == spec_display(self@.fields(pool@)),
    {
        let mut text = String::from_str("type: ");
        push_decimal(&mut text, self.option_type(pool));
        text.append(", length: ");
        push_decimal(&mut text, self.length(pool));
        text.append(", addr: ");
        self.addr(pool).push_to(&mut text);
        assert(text@ =~= spec_display(self@.fields(pool@)));
        text
    }

    /// Writes the hardware address; the other fields stay as they are.
    pub fn set_addr(&mut self, pool: &mut MBufPool, addr: MacAddr)
        requires
            old(self)@.is_attached(old(pool)@),
        ensures
            final(self)@ == old(self)@,
            final(pool)@ == spec_set_addr(old(self)@, old(pool)@, addr),
            old(self)@.is_attached(final(pool)@),
            old(self)@.fields(final(pool)@) == (LinkLayerAddressFields {
                option_type: old(self)@.fields(old(pool)@).option_type,
                length: old(self)@.fields(old(pool)@).length,
                addr,
            }),
    {
        let mut fields = self.fields(pool);
        fields.addr = addr;
        proof {
            lemma_with_fields(self@, pool@, fields);
        }
        self.set_fields(pool, &fields);
    }

    /// Sets the type of the option to one of the two type codes; any other
    /// value is ignored and the option stays as it is.
    pub fn set_option_type(&mut self, pool: &mut MBufPool, option_type: u8)
        requires
            old(self)@.is_attached(old(pool)@),
        ensures
            final(self)@ == old(self)@,
            final(pool)@ == spec_set_option_type(old(self)@, old(pool)@, option_type),
            old(self)@.is_attached(final(pool)@),
            old(self)@.fields(final(pool)@) == (LinkLayerAddressFields {
                option_type: if is_type_code(option_type) {
                    option_type
                } else {
                    old(self)@.fields(old(pool)@).option_type
                },
                length: old(self)@.fields(old(pool)@).length,
                addr: old(self)@.fields(old(pool)@).addr,
            }),
            !is_type_code(option_type) ==> final(pool)@ == old(pool)@,
    {
        if option_type == SOURCE_LINK_LAYER_ADDR || option_type == TARGET_LINK_LAYER_ADDR {
            let mut fields = self.fields(pool);
            fields.option_type = option_type;
            proof {
                lemma_with_fields(self@, pool@, fields);
            }
            self.set_fields(pool, &fields);
        }
    }
}

} // verus!
