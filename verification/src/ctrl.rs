//! Receive controller: the decision core of frame assembly.
//!
//! A radio driver streams bytes in while the frame's length is still
//! unknown. The `Frame` type accumulates those bytes and `Frame::advance`
//! takes every decision of the receive loop: derive the frame length from
//! the prefix, commit it, restart on a malformed prefix, and report
//! completion. The surrounding loop only performs radio calls and feeds
//! bytes and signal data back in, so everything the loop decides is
//! verified here.

use vstd::prelude::*;

use crate::stack::phl::{spec_metadata, FrameMetadata};
use crate::stack::{phl, spec_stack_read, Mode, Packet, PacketView, ReadError, Rssi, Stack};

verus! {

/// A frame being assembled, with its capture metadata.
pub struct Frame {
    /// When the radio detected the frame start, in driver-defined ticks.
    pub timestamp: Option<u64>,
    pub rssi: Option<Rssi>,
    buffer: Vec<u8>,
    mode: Option<Mode>,
    len: Option<usize>,
}

/// The mathematical content of a frame.
#[verifier::ext_equal]
pub struct FrameView {
    pub timestamp: Option<u64>,
    pub rssi: Option<Rssi>,
    pub bytes: Seq<u8>,
    pub mode: Option<Mode>,
    pub len: Option<usize>,
}

impl View for Frame {
    type V = FrameView;

    closed spec fn view(&self) -> FrameView {
        FrameView {
            timestamp: self.timestamp,
            rssi: self.rssi,
            bytes: self.buffer@,
            mode: self.mode,
            len: self.len,
        }
    }
}

/// What the receive loop should do next.
pub enum FrameStep {
    /// Read more bytes from the radio.
    NeedMore,
    /// The frame length is now known: commit it to the radio, capture the
    /// signal strength, then keep reading.
    Accept(usize),
    /// The frame is fully received: hand it on and start over.
    Complete,
    /// The prefix cannot open a frame: restart the receiver.
    Restart,
}

/// Frame metadata always fits: the offset is at most the syncword and the
/// length is bounded by the largest frame format A frame.
pub proof fn lemma_metadata_bounds(b: Seq<u8>)
    ensures
        spec_metadata(b) matches Ok(m) ==> m.frame_offset <= 2 && 13 <= m.frame_length <= 290,
{
    if spec_metadata(b) matches Ok(m) {
        if b.len() >= 3 && b[0] == 0x54 && b[1] == 0xCD && 1 + b[2] >= 11 {
            crate::stack::ffa::lemma_frame_length_bounded(1 + b[2]);
        }
        if b.len() >= 3 && b[0] != 0x54 && b[1] == 0x44 && phl::spec_modet_candidate(b[0], b[1])
            && b.len() >= 18 {
            let l = phl::spec_first_block(b)[0];
            if 1 + l >= 11 {
                crate::stack::ffa::lemma_frame_length_bounded(1 + l);
            }
        }
        if b.len() >= 3 && b[0] != 0x54 && b[1] != 0x44 {
            let l = crate::modet::threeoutofsix::decoded_byte_at(b, 0);
            if 1 + l >= 11 {
                crate::stack::ffa::lemma_frame_length_bounded(1 + l);
            }
        }
    }
}

impl Frame {
    /// Start assembling a frame detected at the given timestamp.
    pub fn new(timestamp: Option<u64>) -> (r: Frame)
        ensures
            r@ == (FrameView {
                timestamp,
                rssi: None,
                bytes: Seq::<u8>::empty(),
                mode: None,
                len: None,
            }),
    {
        let r = Frame { timestamp, rssi: None, buffer: Vec::new(), mode: None, len: None };
        proof {
            assert(r@ =~= FrameView {
                timestamp,
                rssi: None,
                bytes: Seq::<u8>::empty(),
                mode: None,
                len: None,
            });
        }
        r
    }

    /// How many bytes have been received so far.
    pub fn received(&self) -> (r: usize)
        ensures
            r == self@.bytes.len(),
    {
        self.buffer.len()
    }

    /// Append bytes the radio handed over.
    pub fn extend(&mut self, bytes: &[u8])
        requires
            old(self)@.bytes.len() + bytes@.len() <= usize::MAX,
        ensures
            final(self)@ == (FrameView { bytes: old(self)@.bytes + bytes@, ..old(self)@ }),
    {
        self.buffer.extend_from_slice(bytes);
        proof {
            assert(self@ =~= FrameView { bytes: old(self)@.bytes + bytes@, ..old(self)@ });
        }
    }

    /// Record the signal strength of the capture.
    pub fn set_rssi(&mut self, rssi: Rssi)
        ensures
            final(self)@ == (FrameView { rssi: Some(rssi), ..old(self)@ }),
    {
        self.rssi = Some(rssi);
        proof {
            assert(self@ =~= FrameView { rssi: Some(rssi), ..old(self)@ });
        }
    }

    /// The derived total frame length.
    pub fn len(&self) -> (r: usize)
        requires
            self@.len is Some,
        ensures
            r == self@.len.unwrap(),
    {
        self.len.unwrap()
    }

    /// The received frame bytes, up to the derived length.
    pub fn bytes(&self) -> (r: &[u8])
        requires
            self@.len is Some,
            self@.len.unwrap() <= self@.bytes.len(),
        ensures
            r@ == self@.bytes.take(self@.len.unwrap() as int),
    {
        let l = self.len.unwrap();
        proof {
            assert(self.buffer@.subrange(0, l as int) =~= self@.bytes.take(l as int));
        }
        &self.buffer.as_slice()[0..l]
    }

    /// The derived mode.
    pub fn mode(&self) -> (r: Mode)
        requires
            self@.mode is Some,
        ensures
            r == self@.mode.unwrap(),
    {
        self.mode.unwrap()
    }

    /// One decision step of the receive state machine, taken after each
    /// successful radio read. While the length is unknown it is derived
    /// from the prefix: a readable prefix commits the length, a short one
    /// asks for more bytes, a malformed one restarts the receiver. Once
    /// the length is known the frame completes when enough bytes are in.
    pub fn advance(&mut self) -> (r: FrameStep)
        ensures
            ({
                let pre = old(self)@;
                if pre.len is None {
                    match spec_metadata(pre.bytes) {
                        Ok(meta) => {
                            &&& r == FrameStep::Accept(
                                (meta.frame_offset + meta.frame_length) as usize,
                            )
                            &&& final(self)@ == (FrameView {
                                mode: Some(meta.mode),
                                len: Some((meta.frame_offset + meta.frame_length) as usize),
                                ..pre
                            })
                        },
                        Err(phl::Error::Incomplete) => r == FrameStep::NeedMore && final(self)@
                            == pre,
                        Err(_) => r == FrameStep::Restart && final(self)@ == pre,
                    }
                } else {
                    &&& final(self)@ == pre
                    &&& r == (if pre.bytes.len() >= pre.len.unwrap() {
                        FrameStep::Complete
                    } else {
                        FrameStep::NeedMore
                    })
                }
            }),
    {
        if self.len.is_none() {
            match FrameMetadata::read(self.buffer.as_slice()) {
                Ok(meta) => {
                    proof {
                        lemma_metadata_bounds(self.buffer@);
                    }
                    let total = meta.frame_offset + meta.frame_length;
                    self.mode = Some(meta.mode);
                    self.len = Some(total);
                    proof {
                        assert(self@ =~= FrameView {
                            mode: Some(meta.mode),
                            len: Some(total),
                            ..old(self)@
                        });
                    }
                    FrameStep::Accept(total)
                },
                Err(phl::Error::Incomplete) => FrameStep::NeedMore,
                Err(_) => FrameStep::Restart,
            }
        } else {
            if self.buffer.len() >= self.len.unwrap() {
                FrameStep::Complete
            } else {
                FrameStep::NeedMore
            }
        }
    }
}

/// Wireless M-Bus transceiver controller: owns the radio driver and the
/// listening flag. The radio calls themselves suspend and live with the
/// driver; every decision between them is taken by `Frame::advance`.
pub struct Controller<Transceiver> {
    pub transceiver: Transceiver,
    pub listening: bool,
}

impl<Transceiver> Controller<Transceiver> {
    /// Create a new controller.
    pub fn new(transceiver: Transceiver) -> (r: Controller<Transceiver>)
        ensures
            r.transceiver == transceiver,
            !r.listening,
    {
        Controller { transceiver, listening: false }
    }

    /// Release the transceiver.
    pub fn release(self) -> (r: Transceiver)
        ensures
            r == self.transceiver,
    {
        self.transceiver
    }
}

impl Stack {
    /// Read a packet from a fully received frame, carrying its signal
    /// strength over.
    pub fn read_from_frame<const N: usize>(&self, frame: &Frame) -> (r: Result<
        Packet<N>,
        ReadError,
    >)
        requires
            frame@.len is Some,
            frame@.mode is Some,
            frame@.len.unwrap() <= frame@.bytes.len(),
            frame@.bytes.len() * 8 <= usize::MAX,
        ensures
            ({
                let bytes = frame@.bytes.take(frame@.len.unwrap() as int);
                let s = spec_stack_read(bytes, frame@.mode.unwrap(), self.use_ell, N as int);
                match r {
                    Ok(p) => s matches Ok(pv) && p@ == (PacketView { rssi: frame@.rssi, ..pv })
                        && p.wf(),
                    Err(e) => s == Err::<PacketView, ReadError>(e),
                }
            }),
    {
        let bytes = frame.bytes();
        proof {
            assert(bytes@.len() * 8 <= frame@.bytes.len() * 8);
        }
        let mut packet: Packet<N> = match self.read(bytes, frame.mode()) {
            Ok(p) => p,
            Err(e) => {
                return Err(e);
            },
        };
        packet.rssi = frame.rssi;
        proof {
            let bytes_g = frame@.bytes.take(frame@.len.unwrap() as int);
            let s = spec_stack_read(bytes_g, frame@.mode.unwrap(), self.use_ell, N as int);
            assert(s matches Ok(pv) && packet@ =~= PacketView { rssi: frame@.rssi, ..pv });
        }
        Ok(packet)
    }
}

} // verus!
