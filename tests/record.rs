use flight_planner::message::Message;
use flight_planner::record::{
    compare_tasks, compile_task, decompile_task, determine_task_status, is_execute_ready, TaskStatus,
};

fn request() -> [[u8; 8]; 3] {
    [
        [3, 2, 3, 0x42, 0, 0, 0, 100],
        [10, 11, 12, 13, 14, 15, 16, 17],
        [20, 21, 22, 23, 24, 25, 26, 27],
    ]
}

#[test]
fn compile_packs_header_time_length_and_payload() {
    let m = Message::from_slice(&request()).unwrap();
    let t = compile_task(&m);
    assert_eq!(&t[..8], &[0x64, 0xD0, 0x8F, 0, 0, 0, 100, 3]);
    assert_eq!(&t[8..16], &request()[1]);
    assert_eq!(&t[16..24], &request()[2]);
    assert!(t[24..].iter().all(|b| *b == 0));
}

#[test]
fn compiled_record_is_scheduled() {
    let m = Message::from_slice(&request()).unwrap();
    let t = compile_task(&m);
    assert_eq!(determine_task_status(t[2]).unwrap(), TaskStatus::Scheduled);
    assert!(is_execute_ready(t[2]));
}

#[test]
fn decompile_restores_header_time_and_payload_after_address() {
    let m = Message::from_slice(&request()).unwrap();
    let mut t = compile_task(&m);
    let reply = decompile_task(&mut t, 0x0300);
    let f = reply.as_slice();
    assert_eq!(f.len(), 4);
    assert_eq!(f[0], [3, 2, 3, 0x42, 0, 0, 0, 100]);
    assert_eq!(f[1], [0x03, 0x00, 10, 11, 12, 13, 14, 15]);
    assert_eq!(f[2], [16, 17, 20, 21, 22, 23, 24, 25]);
    assert_eq!(f[3], [26, 27, 0, 0, 0, 0, 0, 0]);
}

#[test]
fn compile_decompile_round_trip_single_frame() {
    let m = Message::from_slice(&[[7, 15, 7, 0xFF, 0x12, 0x34, 0x56, 0x78]]).unwrap();
    let mut t = compile_task(&m);
    let reply = decompile_task(&mut t, 0x2F00);
    let f = reply.as_slice();
    assert_eq!(f.len(), 2);
    assert_eq!(f[0], [7, 15, 7, 0xFF, 0x12, 0x34, 0x56, 0x78]);
    assert_eq!(&f[1][..2], &[0x2F, 0x00]);
}

#[test]
fn compare_tasks_detects_one_byte() {
    let a = [0u8; 256];
    let mut b = [0u8; 256];
    assert!(compare_tasks(&a, &b));
    b[255] = 1;
    assert!(!compare_tasks(&a, &b));
}

#[test]
fn status_byte_classes() {
    assert_eq!(determine_task_status(0xFF), Ok(TaskStatus::Empty));
    assert_eq!(determine_task_status(0x0F), Ok(TaskStatus::Scheduled));
    assert_eq!(determine_task_status(0xCF), Ok(TaskStatus::Scheduled));
    assert_eq!(determine_task_status(0x05), Ok(TaskStatus::Executed));
    assert_eq!(determine_task_status(0xC5), Ok(TaskStatus::Executed));
    assert_eq!(determine_task_status(0x30), Err(TaskStatus::Invalid(0x30)));
    assert_eq!(determine_task_status(0x00), Err(TaskStatus::Invalid(0x00)));
    for b in [0x07u8, 0x0D, 0x15] {
        assert_eq!(determine_task_status(b), Err(TaskStatus::Invalid(b)));
    }
    assert_eq!(determine_task_status(0x1F), Ok(TaskStatus::Scheduled));
    assert_eq!(determine_task_status(0x45), Ok(TaskStatus::Executed));
}

#[test]
fn execute_ready_only_for_waiting_records() {
    assert!(is_execute_ready(0x0F));
    assert!(is_execute_ready(0xCF));
    assert!(!is_execute_ready(0x05));
    assert!(!is_execute_ready(0xFF));
    assert!(is_execute_ready(0x1F));
    assert!(is_execute_ready(0x2F));
    assert!(is_execute_ready(0x3F));
    assert!(!is_execute_ready(0x00));
    assert!(!is_execute_ready(0x07));
}
