use flight_planner::alarm::{transform_time, AlarmAction, AlarmState};
use flight_planner::cache::{FFArray, FirstFive};
use flight_planner::message::Message;
use flight_planner::planner::{
    entry_from_header, execution_message, port_service, read_be_i32, ready_addresses, route_command,
    time_reply, Command, ExecDecision, FP_alter_task, FP_delete_task, FP_execute_task, FP_schedule_finish, FP_schedule_task,
    PlannedWrite, SchedulePlan, Service, NAK_WRONG_DATA, NAK_BAD_TIME, NAK_BAD_WRITE, NAK_CORRUPT, NAK_FP_FULL,
};
use flight_planner::record::compile_task;
use flight_planner::store::Error;

fn request(time: i32) -> [[u8; 8]; 2] {
    let t = time.to_be_bytes();
    [[1, 2, 3, 0x42, t[0], t[1], t[2], t[3]], [10, 11, 12, 13, 14, 15, 16, 17]]
}

#[test]
fn commands_route_by_code() {
    let m = Message::from_slice(&[[0x35, 0, 0, 0, 0, 0, 0, 0]]).unwrap();
    assert_eq!(route_command(0, &m), Command::Reply(0x35));
    assert_eq!(route_command(1, &m), Command::RequestFirstFive);
    let m = Message::from_slice(&[[0x46, 0, 0, 0, 0, 0, 0, 0]]).unwrap();
    assert_eq!(route_command(1, &m), Command::RequestSchedule);
    let m = Message::from_slice(&[[0x01, 0x02, 0, 0, 0, 0, 0, 0]]).unwrap();
    assert_eq!(route_command(1, &m), Command::RejectRequest);
    assert_eq!(route_command(2, &m), Command::Schedule);
    assert_eq!(route_command(3, &m), Command::Alter);
    assert_eq!(route_command(4, &m), Command::Delete(0x0102));
    assert_eq!(route_command(9, &m), Command::Unknown(9));
}

#[test]
fn malformed_requests_are_refused() {
    let empty = Message::new();
    assert_eq!(route_command(1, &empty), Command::Malformed);
    let mut next = Ok(7);
    let plan = FP_schedule_task(&empty, 0, &[0xFF], &mut next);
    assert!(matches!(plan, SchedulePlan::Reject(r) if r == NAK_WRONG_DATA));
    assert_eq!(next, Ok(7));
    let one = Message::from_slice(&[[0u8; 8]]).unwrap();
    assert!(matches!(FP_alter_task(&one), Err(r) if r == NAK_WRONG_DATA));
}

#[test]
fn ports_route_to_services() {
    assert_eq!(port_service(3), Service::FlightPlanner);
    assert_eq!(port_service(5), Service::Clock);
    assert_eq!(port_service(0), Service::Unhandled);
}

#[test]
fn past_time_is_rejected_without_allocation() {
    let m = Message::from_slice(&request(100)).unwrap();
    let mut next = Ok(0x500);
    for now in [100, 101, 5000] {
        let plan = FP_schedule_task(&m, now, &[0xFF, 0xFF, 0xFF], &mut next);
        assert!(matches!(plan, SchedulePlan::Reject(r) if r == NAK_BAD_TIME));
        assert_eq!(next, Ok(0x500));
    }
}

#[test]
fn future_time_plans_a_write_to_the_free_slot() {
    let m = Message::from_slice(&request(100)).unwrap();
    let mut next = Err(Error::FPFull);
    match FP_schedule_task(&m, 99, &[0x0F, 0xFF, 0xFF], &mut next) {
        SchedulePlan::Write(w) => {
            assert_eq!(w.address, 256);
            assert_eq!(w.task, compile_task(&m));
            assert!(w.compaction.is_none());
            assert_eq!(w.entry, FFArray { id: 256, execution_time: 100, priority: 1, dlc: 2 });
        }
        other => panic!("unexpected {:?}", other),
    }
    assert_eq!(next, Ok(256));
}

#[test]
fn full_or_corrupt_store_rejects() {
    let m = Message::from_slice(&request(100)).unwrap();
    let mut next = Ok(0);
    let plan = FP_schedule_task(&m, 0, &[0x0F, 0x0F, 0x0F], &mut next);
    assert!(matches!(plan, SchedulePlan::Reject(r) if r == NAK_FP_FULL));
    assert_eq!(next, Err(Error::FPFull));
    let plan = FP_schedule_task(&m, 0, &[0x0F, 0x00, 0x0F], &mut next);
    assert!(matches!(plan, SchedulePlan::Reject(r) if r == NAK_CORRUPT));
}

#[test]
fn reclaim_plans_compaction_first() {
    let m = Message::from_slice(&request(100)).unwrap();
    let mut next = Err(Error::FPFull);
    match FP_schedule_task(&m, 0, &[0x0F, 0x05, 0x0F], &mut next) {
        SchedulePlan::Write(w) => {
            assert_eq!(w.address, 256);
            assert_eq!(w.compaction, Some(vec![256]));
        }
        other => panic!("unexpected {:?}", other),
    }
}

#[test]
fn schedule_finish_acks_with_address_and_caches() {
    let m = Message::from_slice(&request(100)).unwrap();
    let mut next = Err(Error::FPFull);
    let plan = FP_schedule_task(&m, 0, &[0x0F, 0x0F, 0xFF], &mut next);
    let w = match plan {
        SchedulePlan::Write(w) => w,
        other => panic!("unexpected {:?}", other),
    };
    let mut ff = FirstFive::new();
    let good = w.task;
    assert_eq!(FP_schedule_finish(&w, &good, &mut ff, false), [0x06, 0, 0, 0, 0, 0, 0x02, 0x00]);
    assert_eq!(ff.content(), &[w.entry][..]);
    let mut bad = w.task;
    bad[100] ^= 1;
    let mut ff2 = FirstFive::new();
    assert_eq!(FP_schedule_finish(&w, &bad, &mut ff2, true), NAK_BAD_WRITE);
    assert!(ff2.content().is_empty());
    // a failed write never enters the cache
    assert_eq!(FP_schedule_finish(&w, &bad, &mut ff2, false), NAK_BAD_WRITE);
    assert!(ff2.content().is_empty());
    // an alteration leaves the cache to the rebuild
    assert_eq!(FP_schedule_finish(&w, &good, &mut ff2, true), [0x06, 0, 0, 0, 0, 0, 0x02, 0x00]);
    assert!(ff2.content().is_empty());
}

#[test]
fn alter_takes_out_address_bytes() {
    let m = Message::from_slice(&[
        [1, 2, 3, 3, 0, 0, 1, 0],
        [0x02, 0x00, 10, 11, 12, 13, 14, 15],
        [16, 17, 18, 19, 20, 21, 22, 23],
    ])
    .unwrap();
    let (address, new) = FP_alter_task(&m).unwrap();
    assert_eq!(address, 0x200);
    let f = new.as_slice();
    assert_eq!(f.len(), 3);
    assert_eq!(f[0], [1, 2, 3, 3, 0, 0, 1, 0]);
    assert_eq!(f[1], [10, 11, 12, 13, 14, 15, 16, 17]);
    assert_eq!(f[2], [18, 19, 20, 21, 22, 23, 0, 0]);
}

#[test]
fn execution_unpacks_header_and_payload() {
    let m = Message::from_slice(&[
        [5, 9, 6, 0xA7, 0, 0, 0, 50],
        [10, 11, 12, 13, 14, 15, 16, 17],
        [20, 21, 22, 23, 24, 25, 26, 27],
    ])
    .unwrap();
    let t = compile_task(&m);
    let x = execution_message(&t);
    assert_eq!((x.prio, x.rec, x.port, x.cmd), (5, 9, 6, 0xA7));
    assert_eq!(x.frames.as_slice(), &[[10u8, 11, 12, 13, 14, 15, 16, 17], [20, 21, 22, 23, 24, 25, 26, 27]][..]);
    assert_eq!(x.executed_status, 0xC5);
}

#[test]
fn execution_pass_by_time() {
    let mut ff = FirstFive::new();
    let mut alarm = AlarmState::new(100);
    assert_eq!(FP_execute_task(&ff, &mut alarm, 10), ExecDecision::Idle { alarm: AlarmAction::Disable });
    assert_eq!(alarm.current_alarm_time(), -1);
    assert_eq!(FP_execute_task(&ff, &mut alarm, 10), ExecDecision::Idle { alarm: AlarmAction::Keep });
    ff.add(0, 100, 1, 1);
    let mut alarm = AlarmState::new(100);
    assert_eq!(FP_execute_task(&ff, &mut alarm, 99), ExecDecision::NotDue);
    assert_eq!(alarm.current_alarm_time(), 100);
    assert_eq!(
        FP_execute_task(&ff, &mut alarm, 100),
        ExecDecision::Run(FFArray { id: 0, execution_time: 100, priority: 1, dlc: 1 })
    );
    assert_eq!(alarm.current_alarm_time(), 100);
}

#[test]
fn execution_cascades_to_a_task_already_due() {
    // after the first task ran, the rebuilt cache's head is already due
    let mut ff = FirstFive::new();
    ff.rebuild(&[FFArray { id: 256, execution_time: 40, priority: 0, dlc: 1 }, FFArray { id: 512, execution_time: 90, priority: 0, dlc: 1 }]);
    let mut alarm = AlarmState::new(40);
    assert_eq!(FP_execute_task(&ff, &mut alarm, 60), ExecDecision::Run(FFArray { id: 256, execution_time: 40, priority: 0, dlc: 1 }));
    ff.rebuild(&[FFArray { id: 512, execution_time: 90, priority: 0, dlc: 1 }]);
    assert_eq!(FP_execute_task(&ff, &mut alarm, 60), ExecDecision::NotDue);
}

#[test]
fn ready_addresses_in_order() {
    assert_eq!(ready_addresses(&[0x0F, 0x05, 0xFF, 0xCF]), Ok(vec![0, 768]));
    assert_eq!(ready_addresses(&[0x1F, 0x2F, 0xC5]), Ok(vec![0, 256]));
    assert_eq!(ready_addresses(&[]), Ok(vec![]));
}

#[test]
fn ready_scan_aborts_on_corrupt_status() {
    assert_eq!(ready_addresses(&[0x0F, 0x00, 0x0F]), Err(Error::InvalidStatus(0x00)));
    assert_eq!(ready_addresses(&[0xFF, 0x0F, 0x0D, 0x07]), Err(Error::InvalidStatus(0x0D)));
}

#[test]
fn entry_from_record_header() {
    let h = [0xA0, 0, 0x0F, 0xFF, 0xFF, 0xFF, 0xFE, 4];
    assert_eq!(entry_from_header(512, &h), FFArray { id: 512, execution_time: -2, priority: 5, dlc: 4 });
    assert_eq!(read_be_i32(0x00, 0x01, 0x02, 0x03), 0x0001_0203);
    assert_eq!(read_be_i32(0x80, 0, 0, 0), i32::MIN);
}

#[test]
fn time_reply_sign_extends() {
    assert_eq!(time_reply(0x0102_0304), [0, 0, 0, 0, 1, 2, 3, 4]);
    assert_eq!(time_reply(-1), [0xFF; 8]);
}

#[test]
fn alarm_digits_of_unix_times() {
    assert_eq!(transform_time(0), (0, 1, 0, 0, 0, 0, 0, 0));
    assert_eq!(transform_time(1_547_559_927), (1, 5, 1, 3, 4, 5, 2, 7));
    assert_eq!(transform_time(-1), (3, 1, 2, 3, 5, 9, 5, 9));
}

fn plan_write(m: &Message, now: i32, statuses: &[u8], next: &mut Result<u32, Error>) -> PlannedWrite {
    match FP_schedule_task(m, now, statuses, next) {
        SchedulePlan::Write(w) => w,
        other => panic!("unexpected {:?}", other),
    }
}

#[test]
fn two_tasks_scheduled_into_three_empty_slots() {
    let mut ff = FirstFive::new();
    let mut alarm = AlarmState::new(-1);
    let mut next = Err(Error::FPFull);
    let mut store = [0xFFu8; 3];

    let a = Message::from_slice(&request(100)).unwrap();
    let wa = plan_write(&a, 0, &store, &mut next);
    assert_eq!(wa.address, 0);
    FP_schedule_finish(&wa, &wa.task, &mut ff, false);
    store[0] = wa.task[2];
    assert_eq!(ff.content().iter().map(|e| e.id).collect::<Vec<_>>(), vec![0]);
    assert_eq!(alarm.FP_set_alarm(ff.alarm_time()), AlarmAction::Arm(100));

    let b = Message::from_slice(&request(50)).unwrap();
    let wb = plan_write(&b, 0, &store, &mut next);
    assert_eq!(wb.address, 256);
    FP_schedule_finish(&wb, &wb.task, &mut ff, false);
    assert_eq!(ff.content().iter().map(|e| e.id).collect::<Vec<_>>(), vec![256, 0]);
    assert_eq!(alarm.FP_set_alarm(ff.alarm_time()), AlarmAction::Arm(50));
}

#[test]
fn full_store_of_three_refuses_without_change() {
    let m = Message::from_slice(&request(100)).unwrap();
    let mut next = Ok(512);
    let plan = FP_schedule_task(&m, 0, &[0x0F, 0xCF, 0x4F], &mut next);
    assert!(matches!(plan, SchedulePlan::Reject(r) if r == NAK_FP_FULL));
    assert_eq!(next, Err(Error::FPFull));
}

#[test]
fn record_without_frames_executes_as_empty_message() {
    let mut t = [0u8; 256];
    t[0] = 0xA0;
    t[2] = 0x0F;
    let x = execution_message(&t);
    assert_eq!(x.prio, 5);
    assert!(x.frames.as_slice().is_empty());
    assert_eq!(x.executed_status, 0x05);
}

#[test]
fn delete_marks_status_byte_executed() {
    let d = FP_delete_task(0x300, true).unwrap();
    assert_eq!(d.status_address, 0x302);
    assert_eq!(d.status, 0x05);
    assert_eq!(d.reply, Some([0x06, 0, 0, 0, 0, 0, 0, 0]));
    assert_eq!(FP_delete_task(0x300, false).unwrap().reply, None);
    assert!(FP_delete_task(u32::MAX, true).is_none());
}
