//! Logical messages: up to 32 eight-byte payloads sharing one header,
//! reassembled from received frames and split again into frames to send.

use vstd::prelude::*;
use crate::ident::{build_id, encode_spec, frame_data_of, frame_id_of, own_header, CanIdentifier, IdentifierContents};

verus! {

/// Most frames one logical message can hold.
pub const MAX_FRAMES: usize = 32;

/// Negative acknowledgement: the message filled the buffer without an end marker.
pub const NAK_MESSAGE_TOO_LONG: [u8; 8] = [0x15, 0x4D, 0x73, 0x67, 0x32, 0x4C, 0x6E, 0x67];

/// Negative acknowledgement: the last frame of a full message still carried data
/// in its final two bytes.
pub const NAK_DATA_TOO_LONG: [u8; 8] = [0x15, 0x44, 0x61, 0x74, 0x32, 0x4C, 0x6E, 0x67];

/// A logical message: the payloads of its frames, in order.
pub type Message = heapless::Vec<[u8; 8], 32>;

#[verifier::external_type_specification]
#[verifier::external_body]
#[verifier::reject_recursive_types(T)]
pub struct ExHeaplessVec<T, const N: usize>(heapless::Vec<T, N>);

/// The payloads a message holds, in order.
pub uninterp spec fn frames_of(m: heapless::Vec<[u8; 8], 32>) -> Seq<[u8; 8]>;

/// Relies on `heapless::Vec::new`: an empty vector.
#[verifier::external_body]
pub(crate) fn new_message() -> (r: Message)
    ensures
        frames_of(r) == Seq::<[u8; 8]>::empty(),
{
    heapless::Vec::new()
}

/// Relies on `heapless::Vec::as_slice`: the stored items in order, never more
/// than the capacity.
#[verifier::external_body]
pub(crate) fn message_frames(m: &Message) -> (r: &[[u8; 8]])
    ensures
        r@ == frames_of(*m),
        r@.len() <= MAX_FRAMES,
{
    m.as_slice()
}

/// Relies on `heapless::Vec::from_slice`: fails, and builds nothing, when the
/// slice exceeds the capacity; else a vector holding the slice's items.
#[verifier::external_body]
pub(crate) fn message_from_slice(s: &[[u8; 8]]) -> (r: Result<Message, ()>)
    ensures
        r is Ok <==> s@.len() <= MAX_FRAMES,
        r matches Ok(m) ==> frames_of(m) == s@,
{
    heapless::Vec::from_slice(s)
}

/// Relies on `heapless::Vec::push`: appends when below capacity, else hands
/// the item back and leaves the vector as it was.
#[verifier::external_body]
pub(crate) fn message_push(m: &mut Message, f: [u8; 8]) -> (r: Result<(), [u8; 8]>)
    ensures
        frames_of(*old(m)).len() < MAX_FRAMES ==> r is Ok && frames_of(*final(m)) == frames_of(
            *old(m),
        ).push(f),
        frames_of(*old(m)).len() >= MAX_FRAMES ==> r is Err && frames_of(*final(m)) == frames_of(
            *old(m),
        ),
{
    m.push(f)
}

/// Relies on `heapless::Vec::clear`: removes every item.
#[verifier::external_body]
fn message_clear(m: &mut Message)
    ensures
        frames_of(*final(m)) == Seq::<[u8; 8]>::empty(),
{
    m.clear()
}

/// A message without frames.
pub fn empty_message() -> (r: Message)
    ensures
        frames_of(r) == Seq::<[u8; 8]>::empty(),
{
    new_message()
}

/// The message holding these payloads, in order; `None` when there are more
/// than 32.
pub fn message_of(payloads: &[[u8; 8]]) -> (r: Option<Message>)
    ensures
        r is Some <==> payloads@.len() <= MAX_FRAMES,
        r matches Some(m) ==> frames_of(m) == payloads@,
{
    match message_from_slice(payloads) {
        Ok(m) => Some(m),
        Err(_) => None,
    }
}

/// Appends a payload to a message; `false`, with the message unchanged,
/// when it already holds 32.
pub fn push_frame(m: &mut Message, payload: [u8; 8]) -> (r: bool)
    ensures
        r == (frames_of(*old(m)).len() < MAX_FRAMES),
        r ==> frames_of(*final(m)) == frames_of(*old(m)).push(payload),
        !r ==> frames_of(*final(m)) == frames_of(*old(m)),
{
    message_push(m, payload).is_ok()
}

/// The payloads of a message, in order.
pub fn payloads_of(m: &Message) -> (r: &[[u8; 8]])
    ensures
        r@ == frames_of(*m),
        r@.len() <= MAX_FRAMES,
{
    message_frames(m)
}

/// Payload sent when a message to transmit holds no frame.
pub const EMPTY_PAYLOAD: [u8; 8] = [0, 0, 0, 0, 0, 0, 0, 0];

/// One frame of an outgoing message: its markers, fragment number and payload.
#[derive(Clone, Copy, Debug)]
pub struct Fragment {
    pub start_bit: bool,
    pub end_bit: bool,
    pub frg_count: u8,
    pub data: [u8; 8],
}

/// Frames needed for a message of `n` payloads: an empty message still goes
/// out as one frame.
pub open spec fn fragment_total(n: nat) -> nat {
    if n == 0 {
        1
    } else {
        n
    }
}

/// The `i`-th frame of an outgoing message: the start marker on the first,
/// the end marker on the last, fragment numbers counting from 0.
pub open spec fn fragment_spec(msg: Seq<[u8; 8]>, i: int) -> Fragment {
    Fragment {
        start_bit: i == 0,
        end_bit: i == fragment_total(msg.len()) - 1,
        frg_count: i as u8,
        data: if msg.len() == 0 {
            EMPTY_PAYLOAD
        } else {
            msg[i]
        },
    }
}

/// Splits a message into the frames that carry it, in sending order.
pub fn fragment_message(msg: &Message) -> (r: Vec<Fragment>)
    ensures
        r@.len() == fragment_total(frames_of(*msg).len()),
        forall|i: int| 0 <= i < r@.len() ==> #[trigger] r@[i] == fragment_spec(frames_of(*msg), i),
{
    let frames = message_frames(msg);
    let n = frames.len();
    let mut out: Vec<Fragment> = Vec::new();
    if n == 0 {
        out.push(Fragment { start_bit: true, end_bit: true, frg_count: 0, data: EMPTY_PAYLOAD });
        return out;
    }
    let mut i: usize = 0;
    while i < n
        invariant
            n == frames@.len(),
            frames@ == frames_of(*msg),
            1 <= n <= MAX_FRAMES,
            i <= n,
            out@.len() == i,
            forall|j: int| 0 <= j < i ==> #[trigger] out@[j] == fragment_spec(frames@, j),
        decreases n - i,
    {
        out.push(
            Fragment {
                start_bit: i == 0,
                end_bit: i == n - 1,
                frg_count: i as u8,
                data: frames[i],
            },
        );
        i = i + 1;
    }
    out
}

/// The bus frames that carry a message from this node under the given header,
/// one per fragment of `fragment_message`.
pub fn can_send_frames(prio: u8, rec: u8, port: u8, cmd: u8, msg: &Message) -> (r: Vec<bxcan::Frame>)
    requires
        prio < 8,
        rec < 16,
        port < 8,
    ensures
        r@.len() == fragment_total(frames_of(*msg).len()),
        forall|i: int|
            0 <= i < r@.len() ==> {
                let f = fragment_spec(frames_of(*msg), i);
                &&& frame_id_of(#[trigger] r@[i]) == CanIdentifier::Extended(
                    encode_spec(own_header(prio, rec, port, cmd, f.start_bit, f.end_bit, f.frg_count)),
                )
                &&& frame_data_of(r@[i]) == Some(f.data@)
            },
{
    let _ = message_frames(msg);
    let parts = fragment_message(msg);
    let mut out: Vec<bxcan::Frame> = Vec::new();
    let mut i: usize = 0;
    while i < parts.len()
        invariant
            parts@.len() == fragment_total(frames_of(*msg).len()),
            frames_of(*msg).len() <= MAX_FRAMES,
            prio < 8,
            rec < 16,
            port < 8,
            forall|j: int| 0 <= j < parts@.len() ==> #[trigger] parts@[j] == fragment_spec(frames_of(*msg), j),
            i <= parts@.len(),
            out@.len() == i,
            forall|j: int|
                0 <= j < i ==> {
                    let f = fragment_spec(frames_of(*msg), j);
                    &&& frame_id_of(#[trigger] out@[j]) == CanIdentifier::Extended(
                        encode_spec(own_header(prio, rec, port, cmd, f.start_bit, f.end_bit, f.frg_count)),
                    )
                    &&& frame_data_of(out@[j]) == Some(f.data@)
                },
        decreases parts@.len() - i,
    {
        let f = parts[i];
        assert(f == fragment_spec(frames_of(*msg), i as int));
        out.push(build_id(prio, rec, port, cmd, f.start_bit, f.end_bit, f.frg_count, &f.data));
        i = i + 1;
    }
    out
}

/// A frame is for this node when it names receiver 0 (everyone) or 1.
pub open spec fn addressed_spec(h: IdentifierContents) -> bool {
    h.rec == 0 || h.rec == 1
}

/// What the receiver holds: the buffered payloads, and whether it is
/// dropping the rest of a message that overflowed.
pub type RxState = (Seq<[u8; 8]>, bool);

/// The receiver after one received frame. Frames for other nodes leave it
/// alone. While a message that overflowed is being dropped, its frames are
/// skipped until its end marker or a new start marker. Otherwise a start
/// marker empties the buffer first and the payload is appended (dropped if
/// the buffer is full); a full buffer without an end marker is an overflow,
/// which empties the buffer and drops the rest of the message.
pub open spec fn rx_step(st: RxState, h: IdentifierContents, data: [u8; 8]) -> RxState {
    if !addressed_spec(h) {
        st
    } else if st.1 && !h.start_bit {
        (Seq::<[u8; 8]>::empty(), !h.end_bit)
    } else {
        let b2 = rx_append(st.0, h, data);
        if !h.end_bit && b2.len() == MAX_FRAMES {
            (Seq::<[u8; 8]>::empty(), true)
        } else {
            (b2, false)
        }
    }
}

/// The buffer once an accepted frame is appended.
pub open spec fn rx_append(buf: Seq<[u8; 8]>, h: IdentifierContents, data: [u8; 8]) -> Seq<[u8; 8]> {
    let b = if h.start_bit {
        Seq::<[u8; 8]>::empty()
    } else {
        buf
    };
    if b.len() < MAX_FRAMES {
        b.push(data)
    } else {
        b
    }
}

/// The receiver after a sequence of received frames.
pub open spec fn rx_fold(st: RxState, frames: Seq<(IdentifierContents, [u8; 8])>) -> RxState
    decreases frames.len(),
{
    if frames.len() == 0 {
        st
    } else {
        let last = frames.last();
        rx_step(rx_fold(st, frames.drop_last()), last.0, last.1)
    }
}

/// What one received frame means for the node.
#[derive(Clone, Copy, Debug, PartialEq, Eq, Structural)]
pub enum Reception {
    /// The frame is for another node; nothing changed.
    Ignored,
    /// The frame was buffered and the message continues.
    Pending,
    /// The buffer is full and the frame did not end the message: a protocol
    /// error, answered with `NAK_MESSAGE_TOO_LONG`. The message is dropped.
    Overflow,
    /// The frame belongs to a message that overflowed and is skipped.
    Discarded,
    /// The frame ended the message, which is ready for dispatch. `overlong`
    /// is set when the message fills the buffer and its last frame still
    /// carries data in its final two bytes (answered with `NAK_DATA_TOO_LONG`).
    Complete { overlong: bool },
}

pub open spec fn reception_spec(st: RxState, h: IdentifierContents, data: [u8; 8]) -> Reception {
    let b2 = rx_append(st.0, h, data);
    if !addressed_spec(h) {
        Reception::Ignored
    } else if st.1 && !h.start_bit {
        Reception::Discarded
    } else if h.end_bit {
        Reception::Complete { overlong: b2.len() == MAX_FRAMES && (data[6] != 0 || data[7] != 0) }
    } else if b2.len() == MAX_FRAMES {
        Reception::Overflow
    } else {
        Reception::Pending
    }
}

/// Accumulates the frames of one incoming logical message.
pub struct Reassembler {
    input: Message,
    dropping: bool,
}

impl Reassembler {
    /// The buffered payloads and whether an overflowed message is being dropped.
    pub closed spec fn state(&self) -> RxState {
        (frames_of(self.input), self.dropping)
    }

    pub fn new() -> (r: Reassembler)
        ensures
            r.state() == (Seq::<[u8; 8]>::empty(), false),
    {
        Reassembler { input: new_message(), dropping: false }
    }

    /// The message accumulated so far.
    pub fn message(&self) -> (r: &Message)
        ensures
            frames_of(*r) == self.state().0,
    {
        &self.input
    }

    /// Takes one received frame, given by its header and payload.
    pub fn receive(&mut self, h: &IdentifierContents, data: [u8; 8]) -> (r: Reception)
        ensures
            final(self).state() == rx_step(old(self).state(), *h, data),
            r == reception_spec(old(self).state(), *h, data),
    {
        if !(h.rec == 0 || h.rec == 1) {
            return Reception::Ignored;
        }
        if self.dropping && !h.start_bit {
            message_clear(&mut self.input);
            self.dropping = !h.end_bit;
            return Reception::Discarded;
        }
        if h.start_bit {
            message_clear(&mut self.input);
        }
        let _ = message_push(&mut self.input, data);
        let full = message_frames(&self.input).len() == MAX_FRAMES;
        self.dropping = false;
        if h.end_bit {
            Reception::Complete { overlong: full && (data[6] != 0 || data[7] != 0) }
        } else if full {
            message_clear(&mut self.input);
            self.dropping = true;
            Reception::Overflow
        } else {
            Reception::Pending
        }
    }
}

/// The frames of a message received so far: every frame addressed to this
/// node, a start marker on the first and on no other, no end marker before
/// the last, at most 32 frames, and the 32nd ends the message.
pub open spec fn is_message_prefix(msg: Seq<(IdentifierContents, [u8; 8])>) -> bool {
    &&& 1 <= msg.len() <= MAX_FRAMES
    &&& forall|i: int| 0 <= i < msg.len() ==> addressed_spec(#[trigger] msg[i].0)
    &&& msg[0].0.start_bit
    &&& forall|i: int| 1 <= i < msg.len() ==> !(#[trigger] msg[i].0).start_bit
    &&& forall|i: int| 0 <= i < msg.len() - 1 ==> !(#[trigger] msg[i].0).end_bit
    &&& msg.len() == MAX_FRAMES ==> msg.last().0.end_bit
}

/// A whole logical message as it arrives: a prefix whose last frame carries
/// the end marker.
pub open spec fn is_logical_message(msg: Seq<(IdentifierContents, [u8; 8])>) -> bool {
    is_message_prefix(msg) && msg.last().0.end_bit
}

pub open spec fn payloads(msg: Seq<(IdentifierContents, [u8; 8])>) -> Seq<[u8; 8]> {
    msg.map_values(|f: (IdentifierContents, [u8; 8])| f.1)
}

pub open spec fn addressed_frame(f: (IdentifierContents, [u8; 8])) -> bool {
    addressed_spec(f.0)
}

proof fn lemma_fold_ignores_others(st: RxState, frames: Seq<(IdentifierContents, [u8; 8])>)
    ensures
        rx_fold(st, frames) == rx_fold(st, frames.filter(|f| addressed_frame(f))),
    decreases frames.len(),
{
    reveal(Seq::filter);
    if frames.len() > 0 {
        let pred = |f| addressed_frame(f);
        lemma_fold_ignores_others(st, frames.drop_last());
        let sub = frames.drop_last().filter(pred);
        if pred(frames.last()) {
            assert(sub.push(frames.last()).drop_last() == sub);
        }
    }
}

proof fn lemma_fold_message(st: RxState, msg: Seq<(IdentifierContents, [u8; 8])>)
    requires
        is_message_prefix(msg),
    ensures
        rx_fold(st, msg) == (payloads(msg), false),
    decreases msg.len(),
{
    if msg.len() == 1 {
        assert(msg.drop_last().len() == 0);
        assert(payloads(msg) =~= seq![msg[0].1]);
    } else {
        let pre = msg.drop_last();
        assert(is_message_prefix(pre)) by {
            assert forall|i: int| 0 <= i < pre.len() implies addressed_spec(#[trigger] pre[i].0) by {
                assert(pre[i] == msg[i]);
            }
            assert forall|i: int| 1 <= i < pre.len() implies !(#[trigger] pre[i].0).start_bit by {
                assert(pre[i] == msg[i]);
            }
            assert forall|i: int| 0 <= i < pre.len() - 1 implies !(#[trigger] pre[i].0).end_bit by {
                assert(pre[i] == msg[i]);
            }
        }
        lemma_fold_message(st, pre);
        assert(!msg[msg.len() - 1].0.start_bit);
        assert(addressed_spec(msg[msg.len() - 1].0));
        assert(payloads(msg) =~= payloads(pre).push(msg.last().1));
    }
}

/// Frames for other nodes are skipped, whatever their place among the frames
/// of a message for this node: whatever the receiver held before, it then
/// holds exactly the payloads of that message, in order, and drops nothing.
pub proof fn lemma_reassembly(
    st: RxState,
    frames: Seq<(IdentifierContents, [u8; 8])>,
    msg: Seq<(IdentifierContents, [u8; 8])>,
)
    requires
        frames.filter(|f| addressed_frame(f)) == msg,
        is_logical_message(msg),
    ensures
        rx_fold(st, frames) == (payloads(msg), false),
{
    lemma_fold_ignores_others(st, frames);
    lemma_fold_message(st, msg);
}

} // verus!
