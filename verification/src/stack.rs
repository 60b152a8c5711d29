//! The Wireless M-Bus protocol stack: physical, data-link, extended-link
//! and application sub-layers, composed into read and write entry points.

use vstd::prelude::*;

pub mod apl;
pub mod dll;
pub mod ell;
pub mod ffa;
pub mod ffb;
pub mod phl;

verus! {

/// Signal strength indication.
pub type Rssi = i16;

/// Default capacity of the application-layer payload of a packet.
pub const DEFAULT_APL_MAX: usize = 240;

/// The framing mode of a Wireless M-Bus transmission.
#[derive(Debug, Clone, Copy, PartialEq, Eq, Structural)]
pub enum Mode {
    /// Mode C, frame format A.
    ModeCFFA,
    /// Mode C, frame format B.
    ModeCFFB,
    /// Mode T meter-to-other: frame format A, three-of-six encoded.
    ModeTMTO,
}

#[derive(Debug, PartialEq, Eq, Structural)]
pub enum ReadError {
    /// Not enough bytes yet; feed more.
    Incomplete,
    /// The payload does not fit the packet's capacity.
    Capacity,
    Phl(phl::Error),
    Dll(dll::Error),
    Ell(ell::Error),
}

#[derive(Debug, PartialEq, Eq, Structural)]
pub enum WriteError {
    /// A caller-supplied buffer cannot hold the frame. A growable writer
    /// never reports this.
    Capacity,
}

/// How a physical-layer error surfaces to the stack's caller.
pub open spec fn spec_read_error_from_phl(e: phl::Error) -> ReadError {
    match e {
        phl::Error::Incomplete => ReadError::Incomplete,
        _ => ReadError::Phl(e),
    }
}

impl From<phl::Error> for ReadError {
    fn from(value: phl::Error) -> (r: ReadError) {
        match value {
            phl::Error::Incomplete => ReadError::Incomplete,
            e => ReadError::Phl(e),
        }
    }
}

impl vstd::std_specs::convert::FromSpecImpl<phl::Error> for ReadError {
    open spec fn obeys_from_spec() -> bool {
        true
    }

    open spec fn from_spec(e: phl::Error) -> ReadError {
        spec_read_error_from_phl(e)
    }
}

/// How a data-link-layer error surfaces to the stack's caller.
pub open spec fn spec_read_error_from_dll(e: dll::Error) -> ReadError {
    match e {
        dll::Error::Incomplete => ReadError::Incomplete,
        _ => ReadError::Dll(e),
    }
}

impl From<dll::Error> for ReadError {
    fn from(value: dll::Error) -> (r: ReadError) {
        match value {
            dll::Error::Incomplete => ReadError::Incomplete,
            e => ReadError::Dll(e),
        }
    }
}

impl vstd::std_specs::convert::FromSpecImpl<dll::Error> for ReadError {
    open spec fn obeys_from_spec() -> bool {
        true
    }

    open spec fn from_spec(e: dll::Error) -> ReadError {
        spec_read_error_from_dll(e)
    }
}

/// How an extended-link-layer error surfaces to the stack's caller.
pub open spec fn spec_read_error_from_ell(e: ell::Error) -> ReadError {
    match e {
        ell::Error::Incomplete => ReadError::Incomplete,
        _ => ReadError::Ell(e),
    }
}

impl From<ell::Error> for ReadError {
    fn from(value: ell::Error) -> (r: ReadError) {
        match value {
            ell::Error::Incomplete => ReadError::Incomplete,
            e => ReadError::Ell(e),
        }
    }
}

impl vstd::std_specs::convert::FromSpecImpl<ell::Error> for ReadError {
    open spec fn obeys_from_spec() -> bool {
        true
    }

    open spec fn from_spec(e: ell::Error) -> ReadError {
        spec_read_error_from_ell(e)
    }
}

/// A Wireless M-Bus packet. `APL_MAX` caps the application-layer payload.
#[derive(Debug)]
pub struct Packet<const APL_MAX: usize> {
    pub frame_len: Option<usize>,
    pub rssi: Option<Rssi>,
    pub mode: Mode,
    pub phl: Option<phl::PhlFields>,
    pub dll: Option<dll::DllFields>,
    pub ell: Option<ell::EllFields>,
    pub apl: Vec<u8>,
}

/// The mathematical content of a packet.
#[verifier::ext_equal]
pub struct PacketView {
    pub frame_len: Option<usize>,
    pub rssi: Option<Rssi>,
    pub mode: Mode,
    pub phl: bool,
    pub dll: Option<dll::DllFields>,
    pub ell: Option<ell::EllFields>,
    pub apl: Seq<u8>,
}

impl<const APL_MAX: usize> View for Packet<APL_MAX> {
    type V = PacketView;

    open spec fn view(&self) -> PacketView {
        PacketView {
            frame_len: self.frame_len,
            rssi: self.rssi,
            mode: self.mode,
            phl: self.phl is Some,
            dll: self.dll,
            ell: self.ell,
            apl: self.apl@,
        }
    }
}

impl<const APL_MAX: usize> Packet<APL_MAX> {
    /// The payload respects the packet's capacity.
    pub open spec fn wf(self) -> bool {
        self.apl@.len() <= APL_MAX
    }

    /// Create a new empty packet.
    pub fn new(mode: Mode) -> (r: Packet<APL_MAX>)
        ensures
            r@ == (PacketView {
                frame_len: None,
                rssi: None,
                mode,
                phl: false,
                dll: None,
                ell: None,
                apl: Seq::<u8>::empty(),
            }),
            r.wf(),
    {
        let r = Packet {
            frame_len: None,
            rssi: None,
            mode,
            phl: None,
            dll: None,
            ell: None,
            apl: Vec::new(),
        };
        proof {
            assert(r.apl@ =~= Seq::<u8>::empty());
        }
        r
    }

    /// Create a new packet that carries the given payload.
    pub fn with_apl(mode: Mode, apl: [u8; APL_MAX]) -> (r: Packet<APL_MAX>)
        ensures
            r@ == (PacketView {
                frame_len: None,
                rssi: None,
                mode,
                phl: false,
                dll: None,
                ell: None,
                apl: apl@,
            }),
            r.wf(),
    {
        let mut p = Self::new(mode);
        p.apl = vstd::slice::slice_to_vec(apl.as_slice());
        p
    }
}

/// The Wireless M-Bus protocol stack. Layer composition is a closed set
/// here: the data-link layer always runs, the extended link layer is
/// switched by `use_ell`.
pub struct Stack {
    pub use_ell: bool,
}

impl Stack {
    /// Create a new Wireless M-Bus stack.
    pub fn new() -> (r: Stack)
        ensures
            r.use_ell,
    {
        Stack { use_ell: true }
    }

    /// Create a new Wireless M-Bus stack without the extended link layer.
    pub fn without_ell() -> (r: Stack)
        ensures
            !r.use_ell,
    {
        Stack { use_ell: false }
    }
}

impl Default for Stack {
    fn default() -> (r: Stack)
        ensures
            r.use_ell,
    {
        Stack::new()
    }
}

/// What reading a raw buffer through the whole stack yields: the packet
/// with its frame length, data-link fields, optional extended-link fields
/// and payload, or the first layer error.
pub open spec fn spec_stack_read(b: Seq<u8>, mode: Mode, use_ell: bool, apl_max: int) -> Result<
    PacketView,
    ReadError,
> {
    match phl::spec_phl_payload(b, mode) {
        Err(e) => Err(e),
        Ok(payload) => match dll::spec_dll_read(payload) {
            Err(e) => Err(e),
            Ok(fields) => {
                let rest = payload.skip(10);
                match (if use_ell {
                    ell::spec_ell_read(rest)
                } else {
                    Ok((None, 0))
                }) {
                    Err(e) => Err(e),
                    Ok((ell_fields, consumed)) => {
                        let apl = rest.skip(consumed);
                        if apl.len() > apl_max {
                            Err(ReadError::Capacity)
                        } else {
                            Ok(
                                PacketView {
                                    frame_len: Some(b.len() as usize),
                                    rssi: None,
                                    mode,
                                    phl: false,
                                    dll: Some(fields),
                                    ell: ell_fields,
                                    apl,
                                },
                            )
                        }
                    },
                }
            },
        },
    }
}

/// Round trip: a packet written as a frame format B frame and read back
/// through the stack keeps its mode, data-link fields and payload, while
/// the frame length is recorded and no signal data is invented.
///
/// The inputs left out are those on which no faithful round trip exists:
/// the payload must hold at least one byte (the CI field the standard
/// requires of every frame), the address must re-encode to the default
/// layout (encoding is deliberately lossy for the Diehl layout), the
/// first payload byte must not announce an extended-link header when that
/// layer is enabled, and the frame must not begin like a Mode C syncword,
/// which the reader would strip.
#[verifier::rlimit(100)]
pub proof fn lemma_stack_write_read_round_trip(p: PacketView, use_ell: bool, apl_max: int)
    requires
        p.dll is Some,
        p.dll.unwrap().address.wf(),
        !crate::address::spec_is_diehl_layout(
            crate::address::spec_address_bytes(p.dll.unwrap().address),
        ),
        1 <= p.apl.len() <= 240,
        p.apl.len() <= apl_max,
        use_ell ==> ell::spec_header_length(p.apl[0]) is None,
        !(phl::spec_frame_bytes(p)[0] == 0x54 && phl::spec_frame_bytes(p)[1] == 0x3D),
    ensures
        ({
            let frame = phl::spec_frame_bytes(p);
            let r = spec_stack_read(frame, Mode::ModeCFFB, use_ell, apl_max);
            &&& r matches Ok(q)
            &&& r.unwrap().mode == Mode::ModeCFFB
            &&& r.unwrap().dll == p.dll
            &&& r.unwrap().ell is None
            &&& r.unwrap().apl == p.apl
            &&& r.unwrap().frame_len == Some(frame.len() as usize)
            &&& r.unwrap().rssi is None
        }),
{
    let body = dll::spec_dll_bytes(p);
    let a = p.apl.len() as int;
    let content_len = 1 + body.len() as int;
    assert(body.len() == 9 + a);
    let frame = phl::spec_frame_bytes(p);
    let content = seq![frame[0]] + body;
    phl::lemma_encoded_blocks_crc_valid(p);

    if content_len <= 126 {
        let l = (content_len + 1) as u8;
        assert(frame =~= (seq![l] + body) + phl::spec_crc_be(seq![l] + body));
        assert(frame[0] == l);
        assert(content =~= seq![l] + body);
        let fl = ffb::spec_frame_length(frame);
        assert(fl == 1 + l == frame.len());
        assert(13 <= fl <= 128);
        assert(frame.subrange(0, fl) =~= frame);
        assert(ffb::spec_block_ok(frame, fl, 0));
        assert(ffb::spec_data(frame, fl) =~= content);
        assert(ffb::spec_trim(frame) == Ok::<Seq<u8>, phl::Error>(content));
    } else {
        let l = (content_len + 3) as u8;
        let full = seq![l] + body;
        assert(frame =~= full.take(126) + phl::spec_crc_be(full.take(126)) + full.skip(126)
            + phl::spec_crc_be(full.skip(126)));
        assert(frame[0] == l);
        assert(content =~= full);
        let fl = ffb::spec_frame_length(frame);
        assert(fl == 1 + l == content_len + 4 == frame.len());
        assert(131 <= fl <= 254);
        assert(frame.subrange(0, 128) =~= frame.subrange(0, 128));
        assert(ffb::spec_block_ok(frame, fl, 0));
        assert(ffb::spec_block_ok(frame, fl, 1));
        assert(ffb::spec_data(frame, fl) =~= content);
        assert(ffb::spec_trim(frame) == Ok::<Seq<u8>, phl::Error>(content));
    }

    assert(frame.skip(0) =~= frame);
    assert(phl::spec_phl_payload(frame, Mode::ModeCFFB) == Ok::<Seq<u8>, ReadError>(content));

    let fields = p.dll.unwrap();
    let addr = fields.address;
    assert(content.subrange(2, 10) =~= crate::address::spec_address_bytes(addr));
    crate::address::lemma_address_round_trip(addr);
    assert(content[1] == fields.control);
    assert(dll::spec_dll_read(content) == Ok::<dll::DllFields, ReadError>(fields));

    let rest = content.skip(10);
    assert(rest =~= p.apl);
    if use_ell {
        assert(rest.len() >= 1 && ell::spec_header_length(rest[0]) is None);
        assert(ell::spec_ell_read(rest) == Ok::<(Option<ell::EllFields>, int), ReadError>(
            (None, 0),
        ));
    }
    assert(rest.skip(0) =~= p.apl);
}

impl Stack {
    /// Read a packet from a byte buffer.
    pub fn read<const N: usize>(&self, buffer: &[u8], mode: Mode) -> (r: Result<
        Packet<N>,
        ReadError,
    >)
        requires
            buffer@.len() * 8 <= usize::MAX,
        ensures
            match r {
                Ok(p) => spec_stack_read(buffer@, mode, self.use_ell, N as int) == Ok::<
                    PacketView,
                    ReadError,
                >(p@) && p.wf(),
                Err(e) => spec_stack_read(buffer@, mode, self.use_ell, N as int) == Err::<
                    PacketView,
                    ReadError,
                >(e),
            },
    {
        let mut packet: Packet<N> = Packet::new(mode);
        packet.frame_len = Some(buffer.len());
        let payload = match phl::Phl::read(buffer, mode) {
            Ok(d) => d,
            Err(e) => {
                return Err(e);
            },
        };
        let used = match dll::Dll::read(&mut packet, payload.as_slice()) {
            Ok(n) => n,
            Err(e) => {
                return Err(e);
            },
        };
        proof {
            assert(payload@.subrange(used as int, payload@.len() as int) =~= payload@.skip(10));
        }
        let mut offset = used;
        if self.use_ell {
            let consumed = match ell::Ell::read(
                &mut packet,
                &payload.as_slice()[used..payload.len()],
            ) {
                Ok(n) => n,
                Err(e) => {
                    return Err(e);
                },
            };
            offset = used + consumed;
        }
        proof {
            assert(payload@.subrange(offset as int, payload@.len() as int) =~= payload@.skip(
                10,
            ).skip(offset - 10));
        }
        match apl::Apl::read(&mut packet, &payload.as_slice()[offset..payload.len()]) {
            Ok(()) => {},
            Err(e) => {
                return Err(e);
            },
        };
        proof {
            let s = spec_stack_read(buffer@, mode, self.use_ell, N as int);
            assert(s matches Ok(pv) && packet@ =~= pv);
        }
        Ok(packet)
    }

    /// Write a packet as a frame format B frame. The packet must carry
    /// data-link fields and no extended-link fields: the extended link
    /// layer has no transmit path.
    pub fn write<const N: usize>(&self, writer: &mut Vec<u8>, packet: &Packet<N>) -> (r: Result<
        (),
        WriteError,
    >)
        requires
            packet@.dll is Some,
            packet@.dll.unwrap().address.wf(),
            packet@.ell is None,
            packet@.apl.len() <= 240,
        ensures
            r is Ok,
            final(writer)@ == old(writer)@ + phl::spec_frame_bytes(packet@),
    {
        phl::Phl::write(writer, packet)
    }
}

} // verus!
