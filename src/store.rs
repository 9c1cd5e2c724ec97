//! The persistent task store: a flat array of 256-byte slots on a medium
//! that is erased a 4096-byte sector at a time. This module decides where a
//! new record goes and what a sector holds after compaction; reading,
//! erasing and writing the medium is the caller's part.

use vstd::prelude::*;
use crate::record::{status_spec, determine_task_status, TaskStatus, STATUS_INDEX, TASK_SIZE};

verus! {

/// Number of slots in the store (three sectors).
pub const MAX_NR_OF_TASKS: usize = 48;

/// Address of the first slot.
pub const FP_START_ID: u32 = 0;

/// Smallest erasable unit of the medium, in bytes.
pub const SECTOR_SIZE: usize = 4096;

/// Deployment constants of the store.
#[derive(Clone, Copy, Debug, PartialEq, Eq, Structural)]
pub enum FpConfig {
    TaskSize,
    TaskNum,
    StartAddress,
}

impl FpConfig {
    pub fn value(self) -> (r: u32)
        ensures
            self is TaskSize ==> r == TASK_SIZE,
            self is TaskNum ==> r == MAX_NR_OF_TASKS,
            self is StartAddress ==> r == FP_START_ID,
    {
        match self {
            FpConfig::TaskSize => TASK_SIZE as u32,
            FpConfig::TaskNum => MAX_NR_OF_TASKS as u32,
            FpConfig::StartAddress => FP_START_ID,
        }
    }
}

/// Why no slot can be handed out.
#[derive(Clone, Copy, Debug, PartialEq, Eq, Structural)]
pub enum Error {
    /// Every slot holds a Scheduled record.
    FPFull,
    /// A status byte matched no known pattern: the store is corrupt.
    InvalidStatus(u8),
}

/// Where a new record can go.
#[derive(Debug)]
pub enum Allocation {
    /// This slot is Empty and can be written now.
    Free(u32),
    /// No slot is Empty. The sector holding the first Executed slot must be
    /// compacted (`make_space_all` with `executed`), after which `address`,
    /// the first Executed slot, is Empty.
    Reclaim { address: u32, executed: Vec<u32> },
}

/// Address of slot `i`.
pub open spec fn slot_address(i: int) -> int {
    FP_START_ID + i * TASK_SIZE
}

/// A status at which the scan stops: an Empty slot or a corrupt byte.
pub open spec fn stops_scan(b: u8) -> bool {
    status_spec(b) is Empty || status_spec(b) is Invalid
}

/// Index of the first slot, from `i` on, at which the scan stops (the slot
/// count if none).
pub open spec fn first_stop_from(s: Seq<u8>, i: int) -> int
    decreases s.len() - i,
{
    if i < 0 || i >= s.len() {
        s.len() as int
    } else if stops_scan(s[i]) {
        i
    } else {
        first_stop_from(s, i + 1)
    }
}

/// Addresses of the Executed slots among the first `n`, in address order.
pub open spec fn executed_prefix(s: Seq<u8>, n: int) -> Seq<u32>
    decreases n,
{
    if n <= 0 {
        Seq::<u32>::empty()
    } else if status_spec(s[n - 1]) is Executed {
        executed_prefix(s, n - 1).push(slot_address(n - 1) as u32)
    } else {
        executed_prefix(s, n - 1)
    }
}

/// The outcome of a store scan over the status bytes `s` of every slot, in
/// address order.
pub open spec fn allocation_ok(s: Seq<u8>, r: Result<Allocation, Error>) -> bool {
    let k = first_stop_from(s, 0);
    if k < s.len() && status_spec(s[k]) is Empty {
        r matches Ok(Allocation::Free(a)) && a == slot_address(k)
    } else if k < s.len() {
        r == Err::<Allocation, Error>(Error::InvalidStatus(s[k]))
    } else if executed_prefix(s, s.len() as int).len() > 0 {
        r matches Ok(Allocation::Reclaim { address, executed }) && executed@ == executed_prefix(
            s,
            s.len() as int,
        ) && address == executed@[0]
    } else {
        r == Err::<Allocation, Error>(Error::FPFull)
    }
}

proof fn lemma_first_stop_skip(s: Seq<u8>, i: int)
    requires
        0 <= i < s.len(),
        !stops_scan(s[i]),
    ensures
        first_stop_from(s, i) == first_stop_from(s, i + 1),
{
}

/// Scans the status bytes of every slot, in address order, for a place to
/// put a new record: the first Empty slot; failing that, the first Executed
/// slot, to be freed by compacting its sector. Stops at a corrupt status byte
/// before reaching an Empty slot.
pub fn find_empty_task(statuses: &[u8]) -> (r: Result<Allocation, Error>)
    requires
        statuses@.len() <= MAX_NR_OF_TASKS,
    ensures
        allocation_ok(statuses@, r),
{
    let n = statuses.len();
    let mut executed: Vec<u32> = Vec::new();
    let mut i: usize = 0;
    while i < n
        invariant
            n == statuses@.len(),
            n <= MAX_NR_OF_TASKS,
            i <= n,
            first_stop_from(statuses@, 0) == first_stop_from(statuses@, i as int),
            executed@ == executed_prefix(statuses@, i as int),
        decreases n - i,
    {
        let status = determine_task_status(statuses[i]);
        match status {
            Err(TaskStatus::Invalid(b)) => {
                return Err(Error::InvalidStatus(b));
            },
            Ok(TaskStatus::Empty) => {
                return Ok(Allocation::Free(FP_START_ID + (i as u32) * (TASK_SIZE as u32)));
            },
            Ok(TaskStatus::Executed) => {
                proof {
                    lemma_first_stop_skip(statuses@, i as int);
                }
                executed.push(FP_START_ID + (i as u32) * (TASK_SIZE as u32));
            },
            _ => {
                proof {
                    lemma_first_stop_skip(statuses@, i as int);
                }
            },
        }
        i = i + 1;
    }
    if executed.len() > 0 {
        let address = executed[0];
        Ok(Allocation::Reclaim { address, executed })
    } else {
        Err(Error::FPFull)
    }
}

/// First byte of the sector that holds `address`.
pub open spec fn sector_start(address: u32) -> int {
    (address as int / SECTOR_SIZE as int) * SECTOR_SIZE as int
}

/// The slot starting at `base` is one of the listed Executed slots.
pub open spec fn slot_listed(executed: Seq<u32>, base: int) -> bool {
    exists|j: int| 0 <= j < executed.len() && executed[j] as int == base
}

/// Byte `k` of the sector holding the first listed slot, after compaction:
/// erased (0xFF) inside a listed slot, as before everywhere else.
pub open spec fn compact_byte(sector: Seq<u8>, executed: Seq<u32>, k: int) -> u8 {
    let base = sector_start(executed[0]) + (k / TASK_SIZE as int) * TASK_SIZE as int;
    if slot_listed(executed, base) {
        0xFF
    } else {
        sector[k]
    }
}

pub open spec fn compact_spec(sector: Seq<u8>, executed: Seq<u32>) -> Seq<u8> {
    Seq::new(SECTOR_SIZE as nat, |k: int| compact_byte(sector, executed, k))
}

/// Compacts the sector that holds the first listed Executed slot, given the
/// sector's current bytes: the new content, to be written back after the
/// sector is erased. Every listed slot in the sector comes back erased, hence
/// Empty; every other byte keeps its value and its place.
pub fn make_space_all(sector: &[u8], executed_spaces: &[u32]) -> (r: Vec<u8>)
    requires
        sector@.len() == SECTOR_SIZE,
        executed_spaces@.len() >= 1,
    ensures
        r@ == compact_spec(sector@, executed_spaces@),
{
    let start: u64 = (executed_spaces[0] as u64 / SECTOR_SIZE as u64) * SECTOR_SIZE as u64;
    let slots: usize = SECTOR_SIZE / TASK_SIZE;
    let mut out: Vec<u8> = Vec::new();
    let mut slot: usize = 0;
    while slot < slots
        invariant
            slots == SECTOR_SIZE / TASK_SIZE,
            slot <= slots,
            sector@.len() == SECTOR_SIZE,
            executed_spaces@.len() >= 1,
            start == sector_start(executed_spaces@[0]),
            start <= u32::MAX,
            out@.len() == slot * TASK_SIZE,
            forall|k: int| 0 <= k < out@.len() ==> #[trigger] out@[k] == compact_byte(
                sector@,
                executed_spaces@,
                k,
            ),
        decreases slots - slot,
    {
        let base: u64 = start + (slot * TASK_SIZE) as u64;
        let mut listed = false;
        let mut j: usize = 0;
        while j < executed_spaces.len()
            invariant
                j <= executed_spaces@.len(),
                listed == (exists|x: int| 0 <= x < j && executed_spaces@[x] as int == base),
            decreases executed_spaces@.len() - j,
        {
            if executed_spaces[j] as u64 == base {
                listed = true;
            }
            j = j + 1;
        }
        assert(listed == slot_listed(executed_spaces@, base as int));
        let mut b: usize = 0;
        while b < TASK_SIZE
            invariant
                slot < slots,
                slots == SECTOR_SIZE / TASK_SIZE,
                b <= TASK_SIZE,
                sector@.len() == SECTOR_SIZE,
                executed_spaces@.len() >= 1,
                start == sector_start(executed_spaces@[0]),
                base == start + slot * TASK_SIZE,
                listed == slot_listed(executed_spaces@, base as int),
                out@.len() == slot * TASK_SIZE + b,
                forall|k: int| 0 <= k < out@.len() ==> #[trigger] out@[k] == compact_byte(
                    sector@,
                    executed_spaces@,
                    k,
                ),
            decreases TASK_SIZE - b,
        {
            let k = slot * TASK_SIZE + b;
            proof {
                assert(k as int / TASK_SIZE as int == slot as int) by (nonlinear_arith)
                    requires
                        k == slot * TASK_SIZE + b,
                        b < TASK_SIZE,
                        TASK_SIZE == 256,
                ;
            }
            if listed {
                out.push(0xFF);
            } else {
                out.push(sector[k]);
            }
            b = b + 1;
        }
        slot = slot + 1;
    }
    assert(out@ =~= compact_spec(sector@, executed_spaces@));
    out
}

/// Compaction keeps, byte for byte and in place, every slot of the sector
/// whose status is not Executed (every Scheduled record among them), as long
/// as the list names only Executed slots; and the first listed slot comes
/// back all erased, so Empty.
pub proof fn lemma_compaction(sector: Seq<u8>, executed: Seq<u32>)
    requires
        sector.len() == SECTOR_SIZE,
        executed.len() >= 1,
        executed[0] as int % TASK_SIZE as int == 0,
        forall|j: int|
            0 <= j < executed.len() && sector_start(executed[0]) <= executed[j] < sector_start(
                executed[0],
            ) + SECTOR_SIZE ==> status_spec(
                #[trigger] sector[executed[j] - sector_start(executed[0]) + STATUS_INDEX],
            ) is Executed,
    ensures
        forall|i: int|
            0 <= i < SECTOR_SIZE / TASK_SIZE && !(status_spec(
                #[trigger] sector[i * TASK_SIZE + STATUS_INDEX],
            ) is Executed) ==> compact_spec(sector, executed).subrange(
                i * TASK_SIZE,
                i * TASK_SIZE + TASK_SIZE,
            ) == sector.subrange(i * TASK_SIZE, i * TASK_SIZE + TASK_SIZE),
        forall|k: int|
            executed[0] - sector_start(executed[0]) <= k < executed[0] - sector_start(executed[0])
                + TASK_SIZE ==> #[trigger] compact_spec(sector, executed)[k] == 0xFF,
        status_spec(
            compact_spec(sector, executed)[executed[0] - sector_start(executed[0]) + STATUS_INDEX],
        ) is Empty,
{
    let start = sector_start(executed[0]);
    let out = compact_spec(sector, executed);
    assert(0 <= start <= executed[0] < start + SECTOR_SIZE) by (nonlinear_arith)
        requires
            start == (executed[0] as int / 4096) * 4096,
            SECTOR_SIZE == 4096,
    ;
    let off0 = executed[0] - start;
    assert(off0 % 256 == 0) by (nonlinear_arith)
        requires
            off0 == executed[0] - start,
            start == (executed[0] as int / 4096) * 4096,
            executed[0] as int % 256 == 0,
    ;
    assert forall|i: int|
        0 <= i < SECTOR_SIZE / TASK_SIZE && !(status_spec(
            #[trigger] sector[i * TASK_SIZE + STATUS_INDEX],
        ) is Executed) implies out.subrange(i * TASK_SIZE, i * TASK_SIZE + TASK_SIZE)
        == sector.subrange(i * TASK_SIZE, i * TASK_SIZE + TASK_SIZE) by {
        let base = start + i * TASK_SIZE;
        if slot_listed(executed, base) {
            let j = choose|j: int| 0 <= j < executed.len() && executed[j] as int == base;
            assert(sector[executed[j] - start + STATUS_INDEX] == sector[i * TASK_SIZE
                + STATUS_INDEX]);
        }
        assert forall|b: int| 0 <= b < TASK_SIZE implies #[trigger] out[i * TASK_SIZE + b]
            == sector[i * TASK_SIZE + b] by {
            assert((i * TASK_SIZE + b) / TASK_SIZE as int == i) by (nonlinear_arith)
                requires
                    0 <= b < 256,
                    TASK_SIZE == 256,
            ;
        }
        assert(out.subrange(i * TASK_SIZE, i * TASK_SIZE + TASK_SIZE) =~= sector.subrange(
            i * TASK_SIZE,
            i * TASK_SIZE + TASK_SIZE,
        ));
    }
    assert forall|k: int| off0 <= k < off0 + TASK_SIZE implies #[trigger] out[k] == 0xFF by {
        assert((k / 256) * 256 == off0) by (nonlinear_arith)
            requires
                off0 <= k < off0 + 256,
                off0 % 256 == 0,
        ;
        assert(slot_listed(executed, start + (k / TASK_SIZE as int) * TASK_SIZE as int));
    }
    assert(out[off0 + STATUS_INDEX] == 0xFF);
}

/// The next address to write a record to, as a store scan finds it.
pub open spec fn next_address_spec(s: Seq<u8>) -> Result<u32, Error> {
    let k = first_stop_from(s, 0);
    let executed = executed_prefix(s, s.len() as int);
    if k < s.len() && status_spec(s[k]) is Empty {
        Ok(slot_address(k) as u32)
    } else if k < s.len() {
        Err(Error::InvalidStatus(s[k]))
    } else if executed.len() > 0 {
        Ok(executed[0])
    } else {
        Err(Error::FPFull)
    }
}

/// Refreshes the next free address from the status bytes of every slot.
/// When the address is only free once its sector has been compacted, returns
/// the list of Executed slots to hand to `make_space_all` first.
#[allow(non_snake_case)]
pub fn FP_task_id_manager(statuses: &[u8], next_address_id: &mut Result<u32, Error>) -> (r: Option<
    Vec<u32>,
>)
    requires
        statuses@.len() <= MAX_NR_OF_TASKS,
    ensures
        *final(next_address_id) == next_address_spec(statuses@),
        match r {
            Some(executed) => first_stop_from(statuses@, 0) >= statuses@.len() && executed@
                == executed_prefix(statuses@, statuses@.len() as int) && executed@.len() > 0,
            None => first_stop_from(statuses@, 0) < statuses@.len() || executed_prefix(
                statuses@,
                statuses@.len() as int,
            ).len() == 0,
        },
{
    match find_empty_task(statuses) {
        Ok(Allocation::Free(address)) => {
            *next_address_id = Ok(address);
            None
        },
        Ok(Allocation::Reclaim { address, executed }) => {
            *next_address_id = Ok(address);
            Some(executed)
        },
        Err(e) => {
            *next_address_id = Err(e);
            None
        },
    }
}

} // verus!
