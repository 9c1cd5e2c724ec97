//! Packing and unpacking of the 29-bit bus identifier.
//!
//! Layout, most significant bit first:
//! `[PPP][RRRR][ppp][CCCCCCCC][TTTT][S][E][FFFFF]`
//! priority, receiver, port, command, transmitter, start-of-message,
//! end-of-message and fragment number.

use vstd::prelude::*;

verus! {

/// Transmitter number of this node, placed in every identifier it sends.
pub const TRANSMITTER_ID: u8 = 1;

/// Largest value an extended (29-bit) identifier can hold.
pub const EXTENDED_ID_MAX: u32 = 0x1FFF_FFFF;

/// The header fields carried by one bus identifier.
#[derive(Clone, Copy, Debug, PartialEq, Eq, Structural)]
pub struct IdentifierContents {
    /// Priority of the message (3 bits).
    pub prio: u8,
    /// Receiver node (4 bits).
    pub rec: u8,
    /// Receiver port (3 bits).
    pub port: u8,
    /// Command code (8 bits).
    pub cmd: u8,
    /// Transmitter node (4 bits).
    pub trans: u8,
    /// Set on the first frame of a message.
    pub start_bit: bool,
    /// Set on the last frame of a message.
    pub end_bit: bool,
    /// Fragment number within the message (5 bits).
    pub frg_count: u8,
}

/// A raw identifier as read off the bus: compact (11-bit) or extended (29-bit).
#[derive(Clone, Copy, Debug, PartialEq, Eq, Structural)]
pub enum CanIdentifier {
    Standard(u16),
    Extended(u32),
}

/// Every field fits its width in the identifier.
pub open spec fn header_fits(h: IdentifierContents) -> bool {
    &&& h.prio < 8
    &&& h.rec < 16
    &&& h.port < 8
    &&& h.trans < 16
    &&& h.frg_count < 32
}

pub open spec fn bit_of(b: bool) -> u32 {
    if b { 1 } else { 0 }
}

/// The extended identifier that carries `h`.
pub open spec fn encode_spec(h: IdentifierContents) -> u32 {
    (h.prio as u32) << 26u32 | (h.rec as u32) << 22u32 | (h.port as u32) << 19u32
        | (h.cmd as u32) << 11u32 | (h.trans as u32) << 7u32 | bit_of(h.start_bit) << 6u32
        | bit_of(h.end_bit) << 5u32 | (h.frg_count as u32)
}

/// The fields read out of an extended identifier.
pub open spec fn decode_extended_spec(raw: u32) -> IdentifierContents {
    IdentifierContents {
        prio: ((raw >> 26u32) & 7) as u8,
        rec: ((raw >> 22u32) & 15) as u8,
        port: ((raw >> 19u32) & 7) as u8,
        cmd: ((raw >> 11u32) & 255) as u8,
        trans: ((raw >> 7u32) & 15) as u8,
        start_bit: (raw >> 6u32) & 1 == 1,
        end_bit: (raw >> 5u32) & 1 == 1,
        frg_count: (raw & 31) as u8,
    }
}

/// The fields read out of a compact identifier. The compact format keeps the
/// field order and bit positions of the extended one at reduced width, so on
/// 11 bits only the transmitter, the two markers and the fragment number can
/// be non-zero; each marker is read from its own bit.
pub open spec fn decode_standard_spec(raw: u16) -> IdentifierContents {
    let r = raw as u32;
    IdentifierContents {
        prio: ((r >> 26u32) & 7) as u8,
        rec: ((r >> 22u32) & 15) as u8,
        port: ((r >> 19u32) & 7) as u8,
        cmd: ((r >> 11u32) & 255) as u8,
        trans: ((r >> 7u32) & 15) as u8,
        start_bit: (r >> 6u32) & 1 == 1,
        end_bit: (r >> 5u32) & 1 == 1,
        frg_count: (r & 31) as u8,
    }
}

pub open spec fn split_spec(id: CanIdentifier) -> IdentifierContents {
    match id {
        CanIdentifier::Standard(raw) => decode_standard_spec(raw),
        CanIdentifier::Extended(raw) => decode_extended_spec(raw),
    }
}

proof fn lemma_pack_unpack(p: u32, r: u32, po: u32, c: u32, t: u32, s: u32, e: u32, f: u32)
    by (bit_vector)
    requires
        p < 8,
        r < 16,
        po < 8,
        c < 256,
        t < 16,
        s < 2,
        e < 2,
        f < 32,
    ensures
        ({
            let raw = p << 26u32 | r << 22u32 | po << 19u32 | c << 11u32 | t << 7u32 | s << 6u32
                | e << 5u32 | f;
            &&& raw <= 0x1FFF_FFFF
            &&& (raw >> 26u32) & 7 == p
            &&& (raw >> 22u32) & 15 == r
            &&& (raw >> 19u32) & 7 == po
            &&& (raw >> 11u32) & 255 == c
            &&& (raw >> 7u32) & 15 == t
            &&& (raw >> 6u32) & 1 == s
            &&& (raw >> 5u32) & 1 == e
            &&& raw & 31 == f
        }),
{
}

/// An identifier built from fitting fields fits in 29 bits.
pub proof fn lemma_encode_fits(h: IdentifierContents)
    requires
        header_fits(h),
    ensures
        encode_spec(h) <= EXTENDED_ID_MAX,
{
    lemma_pack_unpack(
        h.prio as u32,
        h.rec as u32,
        h.port as u32,
        h.cmd as u32,
        h.trans as u32,
        bit_of(h.start_bit),
        bit_of(h.end_bit),
        h.frg_count as u32,
    );
}

/// Decoding an encoded header gives back every field, both markers and the
/// fragment number.
pub proof fn lemma_identifier_round_trip(h: IdentifierContents)
    requires
        header_fits(h),
    ensures
        decode_extended_spec(encode_spec(h)) == h,
{
    lemma_pack_unpack(
        h.prio as u32,
        h.rec as u32,
        h.port as u32,
        h.cmd as u32,
        h.trans as u32,
        bit_of(h.start_bit),
        bit_of(h.end_bit),
        h.frg_count as u32,
    );
}

/// Packs a header into an extended identifier.
pub fn encode_identifier(h: &IdentifierContents) -> (r: u32)
    requires
        header_fits(*h),
    ensures
        r == encode_spec(*h),
        r <= EXTENDED_ID_MAX,
{
    proof {
        lemma_encode_fits(*h);
    }
    let s: u32 = if h.start_bit { 1 } else { 0 };
    let e: u32 = if h.end_bit { 1 } else { 0 };
    (h.prio as u32) << 26u32 | (h.rec as u32) << 22u32 | (h.port as u32) << 19u32
        | (h.cmd as u32) << 11u32 | (h.trans as u32) << 7u32 | s << 6u32 | e << 5u32
        | (h.frg_count as u32)
}

/// Reads the header fields out of an extended identifier. Never fails.
pub fn decode_extended(raw: u32) -> (r: IdentifierContents)
    ensures
        r == decode_extended_spec(raw),
        header_fits(r),
{
    assert(((raw >> 26u32) & 7) < 8 && ((raw >> 22u32) & 15) < 16 && ((raw >> 19u32) & 7) < 8
        && ((raw >> 11u32) & 255) < 256 && ((raw >> 7u32) & 15) < 16 && (raw & 31) < 32)
        by (bit_vector);
    IdentifierContents {
        prio: ((raw >> 26u32) & 7) as u8,
        rec: ((raw >> 22u32) & 15) as u8,
        port: ((raw >> 19u32) & 7) as u8,
        cmd: ((raw >> 11u32) & 255) as u8,
        trans: ((raw >> 7u32) & 15) as u8,
        start_bit: (raw >> 6u32) & 1 == 1,
        end_bit: (raw >> 5u32) & 1 == 1,
        frg_count: (raw & 31) as u8,
    }
}

/// Reads the header fields out of a compact identifier. Never fails.
pub fn decode_standard(raw: u16) -> (r: IdentifierContents)
    ensures
        r == decode_standard_spec(raw),
        header_fits(r),
{
    let w = raw as u32;
    assert(((w >> 26u32) & 7) < 8 && ((w >> 22u32) & 15) < 16 && ((w >> 19u32) & 7) < 8
        && ((w >> 11u32) & 255) < 256 && ((w >> 7u32) & 15) < 16 && (w & 31) < 32)
        by (bit_vector);
    IdentifierContents {
        prio: ((w >> 26u32) & 7) as u8,
        rec: ((w >> 22u32) & 15) as u8,
        port: ((w >> 19u32) & 7) as u8,
        cmd: ((w >> 11u32) & 255) as u8,
        trans: ((w >> 7u32) & 15) as u8,
        start_bit: (w >> 6u32) & 1 == 1,
        end_bit: (w >> 5u32) & 1 == 1,
        frg_count: (w & 31) as u8,
    }
}

/// Reads the header fields out of either identifier format.
pub fn split_identifier(id: CanIdentifier) -> (r: IdentifierContents)
    ensures
        r == split_spec(id),
        header_fits(r),
{
    match id {
        CanIdentifier::Standard(raw) => decode_standard(raw),
        CanIdentifier::Extended(raw) => decode_extended(raw),
    }
}

#[verifier::external_type_specification]
#[verifier::external_body]
pub struct ExFrame(bxcan::Frame);

/// The identifier a bus frame carries.
pub uninterp spec fn frame_id_of(f: bxcan::Frame) -> CanIdentifier;

/// The payload a bus frame carries; none for a remote frame.
pub uninterp spec fn frame_data_of(f: bxcan::Frame) -> Option<Seq<u8>>;

/// Relies on `bxcan::Frame::id` with `StandardId::as_raw` and
/// `ExtendedId::as_raw`: the frame's identifier, which bxcan reads out of
/// its 32-bit identifier register shifted right by 21 (standard, so at most
/// 11 bits) or by 3 (extended, so at most 29 bits).
#[verifier::external_body]
fn frame_identifier(frame: &bxcan::Frame) -> (r: CanIdentifier)
    ensures
        r == frame_id_of(*frame),
        match r {
            CanIdentifier::Standard(raw) => raw <= 0x7FF,
            CanIdentifier::Extended(raw) => raw <= EXTENDED_ID_MAX,
        },
{
    match frame.id() {
        bxcan::Id::Standard(id) => CanIdentifier::Standard(id.as_raw()),
        bxcan::Id::Extended(id) => CanIdentifier::Extended(id.as_raw()),
    }
}

/// Relies on `bxcan::Frame::data`: the payload of a data frame (at most 8
/// bytes), none for a remote frame.
#[verifier::external_body]
fn frame_data(frame: &bxcan::Frame) -> (r: Option<Vec<u8>>)
    ensures
        r is None <==> frame_data_of(*frame) is None,
        r matches Some(v) ==> frame_data_of(*frame) == Some(v@) && v@.len() <= 8,
{
    match frame.data() {
        Some(d) => Some(d.to_vec()),
        None => None,
    }
}

/// Relies on `bxcan::ExtendedId::new`, which accepts every value up to
/// 0x1FFF_FFFF, and `bxcan::Frame::new_data`: a data frame with that
/// extended identifier and the eight payload bytes.
#[verifier::external_body]
fn extended_data_frame(raw: u32, data: [u8; 8]) -> (r: bxcan::Frame)
    requires
        raw <= EXTENDED_ID_MAX,
    ensures
        frame_id_of(r) == CanIdentifier::Extended(raw),
        frame_data_of(r) == Some(data@),
{
    bxcan::Frame::new_data(bxcan::ExtendedId::new(raw).unwrap(), data)
}

impl IdentifierContents {
    /// Extracts the header fields of a received frame, whichever identifier
    /// format it uses.
    pub fn frame_splitter(frame: &bxcan::Frame) -> (r: IdentifierContents)
        ensures
            r == split_spec(frame_id_of(*frame)),
            header_fits(r),
    {
        split_identifier(frame_identifier(frame))
    }
}

/// The payload of a received data frame, padded with zeros to eight bytes;
/// none for a remote frame.
pub fn frame_payload(frame: &bxcan::Frame) -> (r: Option<[u8; 8]>)
    ensures
        frame_data_of(*frame) is None ==> r is None,
        frame_data_of(*frame) matches Some(v) ==> (r matches Some(p) && p@ == v + Seq::new(
            (8 - v.len()) as nat,
            |k: int| 0u8,
        )),
{
    match frame_data(frame) {
        None => None,
        Some(v) => {
            let mut p = [0u8; 8];
            let mut i: usize = 0;
            while i < v.len()
                invariant
                    v@.len() <= 8,
                    i <= v@.len(),
                    forall|k: int| 0 <= k < i ==> #[trigger] p@[k] == v@[k],
                    forall|k: int| i <= k < 8 ==> #[trigger] p@[k] == 0u8,
                decreases v@.len() - i,
            {
                p[i] = v[i];
                i = i + 1;
            }
            assert(p@ =~= v@ + Seq::new((8 - v@.len()) as nat, |k: int| 0u8));
            Some(p)
        },
    }
}

/// The header of a frame this node sends.
pub open spec fn own_header(
    prio: u8,
    rec: u8,
    port: u8,
    cmd: u8,
    start_bit: bool,
    end_bit: bool,
    frg_count: u8,
) -> IdentifierContents {
    IdentifierContents { prio, rec, port, cmd, trans: TRANSMITTER_ID, start_bit, end_bit, frg_count }
}

/// Builds the data frame that this node sends for one fragment of a message.
pub fn build_id(
    prio: u8,
    rec: u8,
    port: u8,
    cmd: u8,
    start_bit: bool,
    end_bit: bool,
    frg_count: u8,
    data: &[u8; 8],
) -> (r: bxcan::Frame)
    requires
        prio < 8,
        rec < 16,
        port < 8,
        frg_count < 32,
    ensures
        frame_id_of(r) == CanIdentifier::Extended(
            encode_spec(own_header(prio, rec, port, cmd, start_bit, end_bit, frg_count)),
        ),
        frame_data_of(r) == Some(data@),
{
    let h = IdentifierContents {
        prio,
        rec,
        port,
        cmd,
        trans: TRANSMITTER_ID,
        start_bit,
        end_bit,
        frg_count,
    };
    let raw = encode_identifier(&h);
    extended_data_frame(raw, *data)
}

} // verus!
