//! Decisions of the command dispatcher and the execution engine. Each
//! function takes what was read from the bus, the clock or the store and
//! says what to send, write or schedule next; performing it is the caller's
//! part.

use vstd::prelude::*;
use crate::alarm::{AlarmAction, AlarmState, NO_ALARM};
use crate::cache::{first_five_spec, FFArray, FirstFive};
use crate::message::{frames_of, message_frames, message_from_slice, new_message, Message, MAX_FRAMES};
use crate::record::{compare_tasks, compile_spec, compile_task, determine_task_status, is_execute_ready, is_execute_ready_spec, status_spec, STATUS_EXECUTED, STATUS_INDEX, TASK_SIZE};
use crate::store::{executed_prefix, first_stop_from, next_address_spec, Error, FP_task_id_manager, FP_START_ID, MAX_NR_OF_TASKS};

verus! {

/// Reply code: acknowledged.
pub const ACK: u8 = 0x06;

/// Reply code: not acknowledged.
pub const NAK: u8 = 0x15;

/// Reply code: the last record of a list has been sent.
pub const LIST_DONE: u8 = 0x17;

/// Plain acknowledgement frame.
pub const ACK_FRAME: [u8; 8] = [0x06, 0, 0, 0, 0, 0, 0, 0];

/// Frame that closes a list of records.
pub const LIST_DONE_FRAME: [u8; 8] = [0x17, 0, 0, 0, 0, 0, 0, 0];

/// NAK "WrngDat": a request named no known list.
pub const NAK_WRONG_DATA: [u8; 8] = [0x15, 0x57, 0x72, 0x6E, 0x67, 0x44, 0x61, 0x74];

/// NAK "WrngTim": the execution time is not in the future.
pub const NAK_BAD_TIME: [u8; 8] = [0x15, 0x57, 0x72, 0x6E, 0x67, 0x54, 0x69, 0x6D];

/// NAK "BadWrit": the record read back differs from the one written.
pub const NAK_BAD_WRITE: [u8; 8] = [0x15, 0x42, 0x61, 0x64, 0x57, 0x72, 0x69, 0x74];

/// NAK "FP Full": no slot is free or reclaimable.
pub const NAK_FP_FULL: [u8; 8] = [0x15, 0x46, 0x50, 0x20, 0x46, 0x75, 0x6C, 0x6C];

/// NAK "Corrupt": the store scan met a status byte of no known pattern.
pub const NAK_CORRUPT: [u8; 8] = [0x15, 0x43, 0x6F, 0x72, 0x72, 0x75, 0x70, 0x74];

/// Port of the flight planner.
pub const PORT_FLIGHT_PLANNER: u8 = 3;

/// Port of the clock service.
pub const PORT_CLOCK: u8 = 5;

/// Service behind a port of this node.
#[derive(Clone, Copy, Debug, PartialEq, Eq, Structural)]
pub enum Service {
    FlightPlanner,
    Clock,
    Unhandled,
}

/// The service a completed message is handed to, by its port.
pub fn port_service(port: u8) -> (r: Service)
    ensures
        port == PORT_FLIGHT_PLANNER ==> r == Service::FlightPlanner,
        port == PORT_CLOCK ==> r == Service::Clock,
        port != PORT_FLIGHT_PLANNER && port != PORT_CLOCK ==> r == Service::Unhandled,
{
    if port == PORT_FLIGHT_PLANNER {
        Service::FlightPlanner
    } else if port == PORT_CLOCK {
        Service::Clock
    } else {
        Service::Unhandled
    }
}

/// What a flight planner message asks for.
#[derive(Clone, Copy, Debug, PartialEq, Eq, Structural)]
pub enum Command {
    /// An acknowledgement byte for the execution engine's mailbox.
    Reply(u8),
    /// Send every record of the cache.
    RequestFirstFive,
    /// Send every record waiting in the store.
    RequestSchedule,
    /// A request for an unknown list: answer `NAK_WRONG_DATA`.
    RejectRequest,
    /// Schedule the message as a new task.
    Schedule,
    /// Replace a stored task.
    Alter,
    /// Retire the task at this address.
    Delete(u32),
    /// No handler: ignored without reply.
    Unknown(u8),
    /// The message holds no frame: answer `NAK_WRONG_DATA`.
    Malformed,
}

pub open spec fn command_spec(cmd: u8, first: [u8; 8]) -> Command {
    if cmd == 0 {
        Command::Reply(first@[0])
    } else if cmd == 1 {
        if first@[0] == 0x35 {
            Command::RequestFirstFive
        } else if first@[0] == 0x46 {
            Command::RequestSchedule
        } else {
            Command::RejectRequest
        }
    } else if cmd == 2 {
        Command::Schedule
    } else if cmd == 3 {
        Command::Alter
    } else if cmd == 4 {
        Command::Delete(((first@[0] as u32) * 256 + first@[1] as u32) as u32)
    } else {
        Command::Unknown(cmd)
    }
}

/// Routes a reassembled message by its command code.
pub fn route_command(cmd: u8, data: &Message) -> (r: Command)
    ensures
        frames_of(*data).len() == 0 ==> r == Command::Malformed,
        frames_of(*data).len() >= 1 ==> r == command_spec(cmd, frames_of(*data)[0]),
{
    let frames = message_frames(data);
    if frames.len() == 0 {
        return Command::Malformed;
    }
    let first = frames[0];
    if cmd == 0 {
        Command::Reply(first[0])
    } else if cmd == 1 {
        if first[0] == 0x35 {
            Command::RequestFirstFive
        } else if first[0] == 0x46 {
            Command::RequestSchedule
        } else {
            Command::RejectRequest
        }
    } else if cmd == 2 {
        Command::Schedule
    } else if cmd == 3 {
        Command::Alter
    } else if cmd == 4 {
        Command::Delete((first[0] as u32) * 256 + first[1] as u32)
    } else {
        Command::Unknown(cmd)
    }
}

/// A big-endian 32-bit signed integer.
pub open spec fn be_i32(b0: u8, b1: u8, b2: u8, b3: u8) -> i32 {
    ((b0 as int) * 0x100_0000 + (b1 as int) * 0x1_0000 + (b2 as int) * 0x100 + b3 as int) as i32
}

/// Reads a big-endian 32-bit signed integer.
pub fn read_be_i32(b0: u8, b1: u8, b2: u8, b3: u8) -> (r: i32)
    ensures
        r == be_i32(b0, b1, b2, b3),
{
    let u: u32 = (b0 as u32) << 24u32 | (b1 as u32) << 16u32 | (b2 as u32) << 8u32 | b3 as u32;
    assert(u == (b0 as u32) * 0x100_0000 + (b1 as u32) * 0x1_0000 + (b2 as u32) * 0x100
        + b3 as u32) by (bit_vector)
        requires
            u == (b0 as u32) << 24u32 | (b1 as u32) << 16u32 | (b2 as u32) << 8u32 | b3 as u32,
    ;
    u as i32
}

/// Execution time carried by a schedule request: the last four bytes of its
/// first frame.
pub open spec fn request_time(m: Seq<[u8; 8]>) -> i32 {
    be_i32(m[0]@[4], m[0]@[5], m[0]@[6], m[0]@[7])
}

/// A record that a schedule request is about to write.
#[derive(Debug)]
pub struct PlannedWrite {
    /// Slot to write.
    pub address: u32,
    /// The compiled record.
    pub task: [u8; 256],
    /// Executed slots whose sector must be compacted (`make_space_all`)
    /// before the slot is free, if any.
    pub compaction: Option<Vec<u32>>,
    /// The cache entry of the new task.
    pub entry: FFArray,
}

/// Outcome of the checks of a schedule request.
#[derive(Debug)]
pub enum SchedulePlan {
    /// Refused before anything was allocated or written; send this reply.
    Reject([u8; 8]),
    /// Write the record (after the compaction, if any).
    Write(PlannedWrite),
}

/// The reply to a refused allocation.
pub open spec fn allocation_nak(e: Error) -> [u8; 8] {
    match e {
        Error::FPFull => NAK_FP_FULL,
        Error::InvalidStatus(_) => NAK_CORRUPT,
    }
}

/// Checks and plans a schedule request at time `now`, given the status byte
/// of every slot. A request without a frame is refused with
/// `NAK_WRONG_DATA`. The execution time must be strictly in the future; only
/// then is a slot allocated (the next free address is updated) and the
/// record compiled.
#[allow(non_snake_case)]
pub fn FP_schedule_task(
    data: &Message,
    now: i32,
    statuses: &[u8],
    next_address_id: &mut Result<u32, Error>,
) -> (r: SchedulePlan)
    requires
        statuses@.len() <= MAX_NR_OF_TASKS,
    ensures
        frames_of(*data).len() == 0 ==> r == SchedulePlan::Reject(NAK_WRONG_DATA)
            && *final(next_address_id) == *old(next_address_id),
        frames_of(*data).len() >= 1 && request_time(frames_of(*data)) <= now ==> r
            == SchedulePlan::Reject(NAK_BAD_TIME) && *final(next_address_id) == *old(
            next_address_id),
        frames_of(*data).len() >= 1 && request_time(frames_of(*data)) > now ==> *final(
            next_address_id) == next_address_spec(statuses@),
        frames_of(*data).len() >= 1 && request_time(frames_of(*data)) > now ==> match next_address_spec(
            statuses@,
        ) {
            Err(e) => r == SchedulePlan::Reject(allocation_nak(e)),
            Ok(a) => r matches SchedulePlan::Write(w) && w.address == a && w.task@ == compile_spec(
                frames_of(*data),
            ) && w.entry == (FFArray {
                id: a,
                execution_time: request_time(frames_of(*data)),
                priority: frames_of(*data)[0]@[0] & 7,
                dlc: frames_of(*data).len() as u8,
            }) && (w.compaction is Some <==> first_stop_from(statuses@, 0) >= statuses@.len()) && (
            w.compaction matches Some(ex) ==> ex@ == executed_prefix(
                statuses@,
                statuses@.len() as int,
            )),
        },
{
    let frames = message_frames(data);
    if frames.len() == 0 {
        return SchedulePlan::Reject(NAK_WRONG_DATA);
    }
    let first = frames[0];
    let execution_time = read_be_i32(first[4], first[5], first[6], first[7]);
    if execution_time <= now {
        return SchedulePlan::Reject(NAK_BAD_TIME);
    }
    let compaction = FP_task_id_manager(statuses, next_address_id);
    match *next_address_id {
        Err(Error::FPFull) => SchedulePlan::Reject(NAK_FP_FULL),
        Err(Error::InvalidStatus(_)) => SchedulePlan::Reject(NAK_CORRUPT),
        Ok(address) => {
            let task = compile_task(data);
            let entry = FFArray {
                id: address,
                execution_time,
                priority: first[0] & 7,
                dlc: frames.len() as u8,
            };
            SchedulePlan::Write(PlannedWrite { address, task, compaction, entry })
        },
    }
}

/// Acknowledgement of a stored task, carrying its address.
pub open spec fn stored_reply(address: u32) -> [u8; 8] {
    [0x06, 0, 0, 0, 0, 0, (address >> 8u32) as u8, address as u8]
}

/// Finishes a schedule request once the record has been written and read
/// back: the reply, acknowledging with the address when the read-back
/// matches. Only then, and unless the request came from an alteration (whose
/// caller rebuilds the cache from the store), the new task enters the cache.
#[allow(non_snake_case)]
pub fn FP_schedule_finish(
    write: &PlannedWrite,
    read_back: &[u8; 256],
    first_five: &mut FirstFive,
    is_alter_trigger: bool,
) -> (r: [u8; 8])
    requires
        old(first_five).wf(),
    ensures
        write.task@ == read_back@ ==> r == stored_reply(write.address),
        write.task@ != read_back@ ==> r == NAK_BAD_WRITE,
        final(first_five).wf(),
        !is_alter_trigger && write.task@ == read_back@ ==> final(first_five).view()
            == first_five_spec(old(first_five).view().push(write.entry)),
        is_alter_trigger || write.task@ != read_back@ ==> final(first_five).view() == old(
            first_five,
        ).view(),
{
    let same = compare_tasks(&write.task, read_back);
    if !is_alter_trigger && same {
        let e = write.entry;
        first_five.add(e.id, e.execution_time, e.priority, e.dlc);
    }
    if same {
        [0x06, 0, 0, 0, 0, 0, (write.address >> 8u32) as u8, write.address as u8]
    } else {
        NAK_BAD_WRITE
    }
}

/// The frames of an alteration request after the first, with the two
/// address bytes of frame 1 taken out and the rest moved two bytes forward.
pub open spec fn altered_frame(d: Seq<[u8; 8]>, i: int) -> Seq<u8> {
    d[i]@.subrange(2, 8) + if i + 1 < d.len() {
        d[i + 1]@.subrange(0, 2)
    } else {
        seq![0u8, 0u8]
    }
}

/// Splits an alteration request into the address of the task it replaces
/// (the first two bytes of frame 1) and the schedule request for the new
/// content: frame 0 as it is, the rest without those two bytes. A request of
/// fewer than two frames is refused with the reply `NAK_WRONG_DATA`.
#[allow(non_snake_case)]
pub fn FP_alter_task(data: &Message) -> (r: Result<(u32, Message), [u8; 8]>)
    ensures
        frames_of(*data).len() < 2 ==> r == Err::<(u32, Message), [u8; 8]>(NAK_WRONG_DATA),
        frames_of(*data).len() >= 2 ==> (r matches Ok(p) && altered_request(
            frames_of(*data),
            p.0,
            frames_of(p.1),
        )),
{
    let d = message_frames(data);
    if d.len() < 2 {
        return Err(NAK_WRONG_DATA);
    }
    Ok(alter_request(data))
}

/// `address` and `new` are what an alteration request `d` asks for.
pub open spec fn altered_request(d: Seq<[u8; 8]>, address: u32, new: Seq<[u8; 8]>) -> bool {
    &&& address == (d[1]@[0] as int) * 256 + d[1]@[1] as int
    &&& new.len() == d.len()
    &&& new[0] == d[0]
    &&& forall|i: int| 1 <= i < new.len() ==> (#[trigger] new[i])@ == altered_frame(d, i)
}

fn alter_request(data: &Message) -> (r: (u32, Message))
    requires
        frames_of(*data).len() >= 2,
    ensures
        altered_request(frames_of(*data), r.0, frames_of(r.1)),
{
    let d = message_frames(data);
    let n = d.len();
    let address: u32 = (d[1][0] as u32) * 256 + d[1][1] as u32;
    let mut out: Vec<[u8; 8]> = Vec::new();
    out.push(d[0]);
    let mut i: usize = 1;
    while i < n
        invariant
            d@ == frames_of(*data),
            n == d@.len(),
            2 <= n <= MAX_FRAMES,
            1 <= i <= n,
            out@.len() == i,
            out@[0] == d@[0],
            forall|j: int| 1 <= j < i ==> (#[trigger] out@[j])@ == altered_frame(d@, j),
        decreases n - i,
    {
        let cur = d[i];
        let (n0, n1) = if i + 1 < n {
            (d[i + 1][0], d[i + 1][1])
        } else {
            (0u8, 0u8)
        };
        let f: [u8; 8] = [cur[2], cur[3], cur[4], cur[5], cur[6], cur[7], n0, n1];
        assert(f@ =~= altered_frame(d@, i as int));
        out.push(f);
        i = i + 1;
    }
    match message_from_slice(out.as_slice()) {
        Ok(m) => (address, m),
        Err(_) => (address, new_message()),
    }
}

/// The store write that retires a task, and what follows it.
#[derive(Clone, Copy, Debug)]
pub struct Deletion {
    /// Address of the status byte to overwrite.
    pub status_address: u32,
    /// The Executed status byte to write there.
    pub status: u8,
    /// The reply to send once the write is done and the cache has been
    /// rebuilt from the store: `ACK_FRAME` for a delete request, none inside
    /// an alteration (whose reply comes from the reschedule).
    pub reply: Option<[u8; 8]>,
}

/// Plans the deletion of the task at `address`: its status byte is marked
/// Executed, without sending the task, and the cache is then always rebuilt
/// from the store, since the deleted task may be cached. `None` when the
/// status byte's address does not fit in 32 bits.
#[allow(non_snake_case)]
pub fn FP_delete_task(address: u32, respond: bool) -> (r: Option<Deletion>)
    ensures
        address as int + STATUS_INDEX as int > u32::MAX ==> r is None,
        address as int + STATUS_INDEX as int <= u32::MAX ==> r == Some(
            Deletion {
                status_address: (address + STATUS_INDEX) as u32,
                status: STATUS_EXECUTED,
                reply: if respond {
                    Some(ACK_FRAME)
                } else {
                    None
                },
            },
        ),
        status_spec(STATUS_EXECUTED) is Executed,
{
    assert(0x05u8 != 0xFF && 0x05u8 & 0x0F != 0x0F && 0x05u8 & 0x3F == 0x05) by (bit_vector);
    if address > u32::MAX - STATUS_INDEX as u32 {
        None
    } else {
        let reply = if respond {
            Some(ACK_FRAME)
        } else {
            None
        };
        Some(Deletion { status_address: address + STATUS_INDEX as u32, status: STATUS_EXECUTED, reply })
    }
}

/// What the execution engine does on one pass.
#[derive(Clone, Copy, Debug, PartialEq, Eq, Structural)]
pub enum ExecDecision {
    /// The cache is empty: nothing is read, sent or written, and the alarm
    /// is switched off (the clock is told `alarm`).
    Idle { alarm: AlarmAction },
    /// The first task is not due yet (an early alarm): nothing is read, sent
    /// or written, and the alarm stays as programmed.
    NotDue,
    /// The first cached task is due: read its record, send it
    /// (`execution_message`), wait for `ACK`, mark it Executed, rebuild the
    /// cache and make the next pass at once.
    Run(FFArray),
}

/// One pass of the execution engine at time `now`, run when the alarm fires
/// and again after each executed task has been acknowledged, marked and the
/// cache rebuilt. On that second call a task of the rebuilt cache that is
/// already due gives `Run` again, so due tasks run one after another without
/// waiting for the alarm; otherwise the rebuild has armed the alarm for the
/// new first task and the pass ends.
#[allow(non_snake_case)]
pub fn FP_execute_task(first_five: &FirstFive, alarm: &mut AlarmState, now: i32) -> (r: ExecDecision)
    ensures
        first_five.view().len() == 0 ==> r == (ExecDecision::Idle {
            alarm: if old(alarm).current() == NO_ALARM {
                AlarmAction::Keep
            } else {
                AlarmAction::Disable
            },
        }) && final(alarm).current() == NO_ALARM,
        first_five.view().len() > 0 && now < first_five.view()[0].execution_time ==> r
            == ExecDecision::NotDue && final(alarm).current() == old(alarm).current(),
        first_five.view().len() > 0 && now >= first_five.view()[0].execution_time ==> r
            == ExecDecision::Run(first_five.view()[0]) && final(alarm).current() == old(
            alarm,
        ).current(),
{
    let c = first_five.content();
    if c.len() == 0 {
        let action = alarm.FP_set_alarm(NO_ALARM);
        ExecDecision::Idle { alarm: action }
    } else if now >= c[0].execution_time {
        ExecDecision::Run(c[0])
    } else {
        ExecDecision::NotDue
    }
}

/// The message that executes a stored task, with the header it goes out under.
#[derive(Debug)]
pub struct Execution {
    pub prio: u8,
    pub rec: u8,
    pub port: u8,
    pub cmd: u8,
    /// The payload frames of the record: every frame of the schedule
    /// request but its first.
    pub frames: Message,
    /// Status byte that marks the record Executed once acknowledged.
    pub executed_status: u8,
}

/// Status byte of an executed record: the Executed pattern, keeping the two
/// command bits that share the byte.
pub open spec fn executed_status_spec(status: u8) -> u8 {
    status & 0b1100_0101
}

/// Unpacks a stored record into the message that executes it.
pub fn execution_message(task: &[u8; 256]) -> (r: Execution)
    requires
        task@[7] <= MAX_FRAMES,
    ensures
        r.prio == task@[0] >> 5u8,
        r.rec == (task@[0] >> 1u8) & 15,
        r.port == (task@[0] & 1) << 2u8 | task@[1] >> 6u8,
        r.cmd == task@[1] << 2u8 | task@[2] >> 6u8,
        r.prio < 8 && r.rec < 16 && r.port < 8,
        r.executed_status == executed_status_spec(task@[2]),
        status_spec(task@[2]) is Scheduled ==> status_spec(r.executed_status) is Executed,
        frames_of(r.frames).len() == if task@[7] == 0 {
            0
        } else {
            task@[7] - 1
        },
        forall|i: int|
            0 <= i < frames_of(r.frames).len() ==> (#[trigger] frames_of(r.frames)[i])@
                == task@.subrange(8 * (i + 1), 8 * (i + 1) + 8),
{
    let t0 = task[0];
    let t1 = task[1];
    let t2 = task[2];
    let dlc = task[7] as usize;
    assert(t0 >> 5u8 < 8 && (t0 >> 1u8) & 15 < 16 && (t0 & 1) << 2u8 | t1 >> 6u8 < 8)
        by (bit_vector);
    assert((t2 & 0x0F == 0x0F && t2 != 0xFF) ==> ({
        let e = t2 & 0b1100_0101;
        e != 0xFF && e & 0x0F != 0x0F && e & 0x3F == 0x05
    })) by (bit_vector);
    let mut out: Vec<[u8; 8]> = Vec::new();
    let mut i: usize = 1;
    while i < dlc
        invariant
            dlc <= MAX_FRAMES,
            dlc == task@[7],
            1 <= i,
            i <= dlc || (dlc == 0 && i == 1),
            out@.len() == i - 1,
            forall|j: int|
                0 <= j < out@.len() ==> (#[trigger] out@[j])@ == task@.subrange(
                    8 * (j + 1),
                    8 * (j + 1) + 8,
                ),
        decreases dlc - i,
    {
        let b = 8 * i;
        let f: [u8; 8] = [
            task[b],
            task[b + 1],
            task[b + 2],
            task[b + 3],
            task[b + 4],
            task[b + 5],
            task[b + 6],
            task[b + 7],
        ];
        assert(f@ =~= task@.subrange(8 * i as int, 8 * i as int + 8));
        out.push(f);
        i = i + 1;
    }
    let frames = match message_from_slice(out.as_slice()) {
        Ok(m) => m,
        Err(_) => new_message(),
    };
    Execution {
        prio: t0 >> 5u8,
        rec: (t0 >> 1u8) & 15,
        port: (t0 & 1) << 2u8 | t1 >> 6u8,
        cmd: t1 << 2u8 | t2 >> 6u8,
        frames,
        executed_status: t2 & 0b1100_0101,
    }
}

/// Addresses of the Scheduled slots among the first `n`, in address order,
/// given the status byte of every slot.
pub open spec fn ready_prefix(s: Seq<u8>, n: int) -> Seq<u32>
    decreases n,
{
    if n <= 0 {
        Seq::<u32>::empty()
    } else if is_execute_ready_spec(s[n - 1]) {
        ready_prefix(s, n - 1).push((FP_START_ID + (n - 1) * TASK_SIZE) as u32)
    } else {
        ready_prefix(s, n - 1)
    }
}

/// Index of the first slot, from `i` on, whose status byte is Invalid (the
/// slot count if none).
pub open spec fn first_invalid_from(s: Seq<u8>, i: int) -> int
    decreases s.len() - i,
{
    if i < 0 || i >= s.len() {
        s.len() as int
    } else if status_spec(s[i]) is Invalid {
        i
    } else {
        first_invalid_from(s, i + 1)
    }
}

/// The addresses of every Scheduled task, in address order. A corrupt
/// status byte aborts the scan with the first such byte.
pub fn ready_addresses(statuses: &[u8]) -> (r: Result<Vec<u32>, Error>)
    requires
        statuses@.len() <= MAX_NR_OF_TASKS,
    ensures
        first_invalid_from(statuses@, 0) < statuses@.len() ==> r == Err::<Vec<u32>, Error>(
            Error::InvalidStatus(statuses@[first_invalid_from(statuses@, 0)]),
        ),
        first_invalid_from(statuses@, 0) >= statuses@.len() ==> (r matches Ok(v) && v@
            == ready_prefix(statuses@, statuses@.len() as int)),
{
    let mut out: Vec<u32> = Vec::new();
    let mut i: usize = 0;
    while i < statuses.len()
        invariant
            i <= statuses@.len(),
            statuses@.len() <= MAX_NR_OF_TASKS,
            out@ == ready_prefix(statuses@, i as int),
            first_invalid_from(statuses@, 0) == first_invalid_from(statuses@, i as int),
        decreases statuses@.len() - i,
    {
        let b = statuses[i];
        match determine_task_status(b) {
            Err(_) => {
                return Err(Error::InvalidStatus(b));
            },
            Ok(_) => {},
        }
        if is_execute_ready(b) {
            out.push(FP_START_ID + (i as u32) * (TASK_SIZE as u32));
        }
        i = i + 1;
    }
    Ok(out)
}

/// The cache entry of the record at `address` whose first eight bytes are
/// `header`: priority from the top three bits, the big-endian execution time
/// and the frame count.
pub fn entry_from_header(address: u32, header: &[u8; 8]) -> (r: FFArray)
    ensures
        r == (FFArray {
            id: address,
            execution_time: be_i32(header@[3], header@[4], header@[5], header@[6]),
            priority: header@[0] >> 5u8,
            dlc: header@[7],
        }),
{
    FFArray {
        id: address,
        execution_time: read_be_i32(header[3], header[4], header[5], header[6]),
        priority: header[0] >> 5u8,
        dlc: header[7],
    }
}

/// The frame that answers a time request: the time, sign-extended to 64
/// bits, big-endian.
pub fn time_reply(t: i32) -> (r: [u8; 8])
    ensures
        r@ == seq![
            ((t as u64) >> 56u64) as u8,
            ((t as u64) >> 48u64) as u8,
            ((t as u64) >> 40u64) as u8,
            ((t as u64) >> 32u64) as u8,
            ((t as u64) >> 24u64) as u8,
            ((t as u64) >> 16u64) as u8,
            ((t as u64) >> 8u64) as u8,
            (t as u64) as u8,
        ],
{
    let v = t as u64;
    let r = [
        (v >> 56u64) as u8,
        (v >> 48u64) as u8,
        (v >> 40u64) as u8,
        (v >> 32u64) as u8,
        (v >> 24u64) as u8,
        (v >> 16u64) as u8,
        (v >> 8u64) as u8,
        v as u8,
    ];
    assert(r@ =~= seq![
        (v >> 56u64) as u8,
        (v >> 48u64) as u8,
        (v >> 40u64) as u8,
        (v >> 32u64) as u8,
        (v >> 24u64) as u8,
        (v >> 16u64) as u8,
        (v >> 8u64) as u8,
        v as u8,
    ]);
    r
}

} // verus!
