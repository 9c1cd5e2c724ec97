//! The persisted task record: a fixed 256-byte slot.
//!
//! Bytes 0..3 pack `[PPPRRRRp][ppCCCCCC][CCSSSSSS]` (priority, receiver,
//! port, command and the six status bits), bytes 3..7 the big-endian
//! execution time, byte 7 the number of frames of the message, and from byte
//! 8 on the payload of the message's frames after the first.

use vstd::prelude::*;
use crate::message::{frames_of, message_frames, message_push, new_message, Message, MAX_FRAMES};

verus! {

/// Bytes in one record slot.
pub const TASK_SIZE: usize = 256;

/// Offset of the status byte within a record.
pub const STATUS_INDEX: usize = 2;

/// Status bits of a freshly compiled record (Scheduled).
pub const STATUS_SCHEDULED: u8 = 0x0F;

/// Status byte written to retire a record (Executed).
pub const STATUS_EXECUTED: u8 = 0b0000_0101;

/// Lifecycle state of a record, read from its status byte.
#[derive(Clone, Copy, Debug, PartialEq, Eq, Structural)]
pub enum TaskStatus {
    Empty,
    Scheduled,
    Executed,
    /// The status byte matches no known pattern: the store is corrupt.
    Invalid(u8),
}

/// The first three record bytes as one 24-bit word.
pub open spec fn packed_head(prio: u8, rec: u8, port: u8, cmd: u8) -> u32 {
    ((prio & 7) as u32) << 21u32 | ((rec & 15) as u32) << 17u32 | ((port & 7) as u32) << 14u32
        | (cmd as u32) << 6u32 | (STATUS_SCHEDULED as u32)
}

/// Byte `k` of the record compiled from message `m`.
pub open spec fn compile_byte(m: Seq<[u8; 8]>, k: int) -> u8 {
    let head = packed_head(m[0]@[0], m[0]@[1], m[0]@[2], m[0]@[3]);
    if k == 0 {
        (head >> 16u32) as u8
    } else if k == 1 {
        (head >> 8u32) as u8
    } else if k == 2 {
        head as u8
    } else if 3 <= k < 7 {
        m[0]@[k + 1]
    } else if k == 7 {
        m.len() as u8
    } else if 8 <= k < 8 * m.len() {
        m[k / 8]@[k % 8]
    } else {
        0
    }
}

pub open spec fn compile_spec(m: Seq<[u8; 8]>) -> Seq<u8> {
    Seq::new(TASK_SIZE as nat, |k: int| compile_byte(m, k))
}

/// Byte `k` of the reply layout of record `t` stored at `address`: header
/// fields in bytes 0..4, the execution time in 4..8, the address in 8..10 and
/// the payload from byte 10 on.
pub open spec fn reply_byte(t: Seq<u8>, address: u32, k: int) -> u8 {
    let end = 8 * t[7] + 2;
    if k == 0 {
        t[0] >> 5u8
    } else if k == 1 {
        (t[0] >> 1u8) & 15
    } else if k == 2 {
        (t[0] & 1) << 2u8 | t[1] >> 6u8
    } else if k == 3 {
        t[1] << 2u8 | t[2] >> 6u8
    } else if 4 <= k < 8 {
        t[k - 1]
    } else if k == 8 {
        (address >> 8u32) as u8
    } else if k == 9 {
        address as u8
    } else if 10 <= k < end {
        t[k - 2]
    } else {
        t[k]
    }
}

pub open spec fn reply_spec(t: Seq<u8>, address: u32) -> Seq<u8> {
    Seq::new(TASK_SIZE as nat, |k: int| reply_byte(t, address, k))
}

/// The message whose frame `i` holds bytes `8 * i .. 8 * i + 8` of `t`.
pub open spec fn chunks_of(t: Seq<u8>, n: nat) -> Seq<Seq<u8>> {
    Seq::new(n, |i: int| t.subrange(8 * i, 8 * i + 8))
}

/// Turns a received schedule request into the record to persist. The first
/// frame holds priority, receiver, port and command in its first four bytes
/// and the execution time in the last four; the other frames are copied as
/// they are. The record starts out Scheduled.
pub fn compile_task(data: &Message) -> (r: [u8; 256])
    requires
        frames_of(*data).len() >= 1,
    ensures
        r@ == compile_spec(frames_of(*data)),
{
    let frames = message_frames(data);
    let n = frames.len();
    let first = frames[0];
    let mut task = [0u8; 256];
    let head: u32 = ((first[0] & 7) as u32) << 21u32 | ((first[1] & 15) as u32) << 17u32
        | ((first[2] & 7) as u32) << 14u32 | (first[3] as u32) << 6u32
        | (STATUS_SCHEDULED as u32);
    task[0] = (head >> 16u32) as u8;
    task[1] = (head >> 8u32) as u8;
    task[2] = head as u8;
    task[3] = first[4];
    task[4] = first[5];
    task[5] = first[6];
    task[6] = first[7];
    task[7] = n as u8;
    let mut f: usize = 1;
    while f < n
        invariant
            frames@ == frames_of(*data),
            n == frames@.len(),
            1 <= f <= n,
            n <= MAX_FRAMES,
            forall|k: int| 0 <= k < 8 * f ==> #[trigger] task@[k] == compile_byte(frames@, k),
            forall|k: int| 8 * f <= k < TASK_SIZE ==> #[trigger] task@[k] == 0,
        decreases n - f,
    {
        let frame = frames[f];
        let mut j: usize = 0;
        while j < 8
            invariant
                frames@ == frames_of(*data),
                n == frames@.len(),
                1 <= f < n,
                n <= MAX_FRAMES,
                frame == frames@[f as int],
                j <= 8,
                forall|k: int| 0 <= k < 8 * f + j ==> #[trigger] task@[k] == compile_byte(frames@, k),
                forall|k: int| 8 * f + j <= k < TASK_SIZE ==> #[trigger] task@[k] == 0,
            decreases 8 - j,
        {
            task[8 * f + j] = frame[j];
            proof {
                let k = 8 * f + j;
                assert(k / 8 == f as int && k % 8 == j as int);
            }
            j = j + 1;
        }
        f = f + 1;
    }
    proof {
        assert forall|k: int| 8 * n <= k < TASK_SIZE implies #[trigger] task@[k] == compile_byte(frames@, k) by {}
    }
    assert(task@ =~= compile_spec(frames@));
    task
}

/// Turns a stored record back into the message that reports it: frame 0
/// carries priority, receiver, port and command in its first four bytes and
/// the execution time in the last four; frame 1 starts with the record's
/// address (big-endian, two bytes) followed by the payload, so one frame more
/// than the record holds. The buffer is rewritten into that layout.
pub fn decompile_task(task: &mut [u8; 256], address: u32) -> (r: Message)
    requires
        old(task)@[7] < MAX_FRAMES,
    ensures
        final(task)@ == reply_spec(old(task)@, address),
        frames_of(r).len() == old(task)@[7] + 1,
        forall|i: int|
            0 <= i < frames_of(r).len() ==> (#[trigger] frames_of(r)[i])@ == final(task)@.subrange(
                8 * i,
                8 * i + 8,
            ),
{
    let t = *task;
    let dlc = t[7] as usize;
    let end = 8 * dlc + 2;
    task[0] = t[0] >> 5u8;
    task[1] = (t[0] >> 1u8) & 15;
    task[2] = (t[0] & 1) << 2u8 | t[1] >> 6u8;
    task[3] = t[1] << 2u8 | t[2] >> 6u8;
    task[4] = t[3];
    task[5] = t[4];
    task[6] = t[5];
    task[7] = t[6];
    task[8] = (address >> 8u32) as u8;
    task[9] = address as u8;
    let mut k: usize = 10;
    while k < end
        invariant
            t@ == old(task)@,
            dlc == t@[7],
            end == 8 * dlc + 2,
            dlc < MAX_FRAMES,
            10 <= k,
            k <= end || end < 10,
            forall|x: int| 0 <= x < k ==> #[trigger] task@[x] == reply_byte(t@, address, x),
            forall|x: int| k <= x < TASK_SIZE ==> #[trigger] task@[x] == t@[x],
        decreases end - k,
    {
        task[k] = t[k - 2];
        k = k + 1;
    }
    assert(task@ =~= reply_spec(t@, address));
    let mut out = new_message();
    let mut i: usize = 0;
    while i <= dlc
        invariant
            task@ == reply_spec(t@, address),
            dlc < MAX_FRAMES,
            i <= dlc + 1,
            frames_of(out).len() == i,
            forall|j: int|
                0 <= j < i ==> (#[trigger] frames_of(out)[j])@ == task@.subrange(8 * j, 8 * j + 8),
        decreases dlc + 1 - i,
    {
        let b = 8 * i;
        let frame: [u8; 8] = [
            task[b],
            task[b + 1],
            task[b + 2],
            task[b + 3],
            task[b + 4],
            task[b + 5],
            task[b + 6],
            task[b + 7],
        ];
        assert(frame@ =~= task@.subrange(8 * i, 8 * i + 8));
        let _ = message_push(&mut out, frame);
        i = i + 1;
    }
    out
}

proof fn lemma_head_bytes(p: u8, r: u8, po: u8, c: u8)
    by (bit_vector)
    ensures
        ({
            let head = ((p & 7) as u32) << 21u32 | ((r & 15) as u32) << 17u32 | ((po & 7) as u32)
                << 14u32 | (c as u32) << 6u32 | 0x0Fu32;
            let b0 = (head >> 16u32) as u8;
            let b1 = (head >> 8u32) as u8;
            let b2 = head as u8;
            &&& b0 >> 5u8 == p & 7
            &&& (b0 >> 1u8) & 15 == r & 15
            &&& (b0 & 1) << 2u8 | b1 >> 6u8 == po & 7
            &&& b1 << 2u8 | b2 >> 6u8 == c
        }),
{
}

/// Compiling a message into a record and decompiling that record at any
/// address gives back the header fields (at their widths), the execution
/// time and every payload byte, in order, after the two address bytes.
pub proof fn lemma_compile_decompile(m: Seq<[u8; 8]>, address: u32)
    requires
        1 <= m.len() < MAX_FRAMES,
    ensures
        compile_spec(m)[7] == m.len(),
        ({
            let r = reply_spec(compile_spec(m), address);
            &&& r[0] == m[0]@[0] & 7
            &&& r[1] == m[0]@[1] & 15
            &&& r[2] == m[0]@[2] & 7
            &&& r[3] == m[0]@[3]
            &&& forall|j: int| 4 <= j < 8 ==> #[trigger] r[j] == m[0]@[j]
            &&& r[8] == (address >> 8u32) as u8
            &&& r[9] == address as u8
            &&& forall|k: int|
                0 <= k < 8 * (m.len() - 1) ==> #[trigger] r[10 + k] == m[1 + k / 8]@[k % 8]
        }),
{
    let t = compile_spec(m);
    lemma_head_bytes(m[0]@[0], m[0]@[1], m[0]@[2], m[0]@[3]);
    let r = reply_spec(t, address);
    assert forall|k: int| 0 <= k < 8 * (m.len() - 1) implies #[trigger] r[10 + k] == m[1 + k
        / 8]@[k % 8] by {
        assert(r[10 + k] == t[8 + k]);
        assert((8 + k) / 8 == 1 + k / 8 && (8 + k) % 8 == k % 8);
    }
}

/// Byte-for-byte equality of two records, used to check a write by reading
/// it back.
pub fn compare_tasks(task1: &[u8; 256], task2: &[u8; 256]) -> (r: bool)
    ensures
        r == (task1@ == task2@),
{
    let mut same = true;
    let mut x: usize = 0;
    while x < TASK_SIZE
        invariant
            x <= TASK_SIZE,
            same == (forall|k: int| 0 <= k < x ==> task1@[k] == task2@[k]),
        decreases TASK_SIZE - x,
    {
        if task1[x] != task2[x] {
            same = false;
        }
        x = x + 1;
    }
    proof {
        if same {
            assert(task1@ =~= task2@);
        }
    }
    same
}

/// A status byte marks a record waiting to run exactly when it is Scheduled.
pub open spec fn is_execute_ready_spec(byte: u8) -> bool {
    status_spec(byte) is Scheduled
}

/// Whether the record with this status byte is waiting to run.
pub fn is_execute_ready(byte: u8) -> (r: bool)
    ensures
        r == is_execute_ready_spec(byte),
{
    byte != 0xFF && byte & 0x0F == 0x0F
}

/// The status that a status byte encodes: all ones is Empty, a low nibble of
/// ones is Scheduled (the high nibble is free), low six bits `000101` is
/// Executed (the top two bits keep command bits); anything else is Invalid.
pub open spec fn status_spec(byte: u8) -> TaskStatus {
    if byte == 0xFF {
        TaskStatus::Empty
    } else if byte & 0x0F == 0x0F {
        TaskStatus::Scheduled
    } else if byte & 0x3F == 0x05 {
        TaskStatus::Executed
    } else {
        TaskStatus::Invalid(byte)
    }
}

/// Classifies a status byte. An unknown pattern is an error carrying the byte.
pub fn determine_task_status(byte: u8) -> (r: Result<TaskStatus, TaskStatus>)
    ensures
        status_spec(byte) is Invalid ==> r == Err::<TaskStatus, TaskStatus>(status_spec(byte)),
        !(status_spec(byte) is Invalid) ==> r == Ok::<TaskStatus, TaskStatus>(status_spec(byte)),
{
    if byte == 0xFF {
        Ok(TaskStatus::Empty)
    } else if byte & 0x0F == 0x0F {
        Ok(TaskStatus::Scheduled)
    } else if byte & 0x3F == 0x05 {
        Ok(TaskStatus::Executed)
    } else {
        Err(TaskStatus::Invalid(byte))
    }
}

} // verus!
