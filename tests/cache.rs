use flight_planner::alarm::{AlarmAction, AlarmState};
use flight_planner::cache::{sort_full_list, sort_to_ff, FFArray, FirstFive};

fn e(id: u32, t: i32, p: u8) -> FFArray {
    FFArray { id, execution_time: t, priority: p, dlc: 1 }
}

#[test]
fn sort_by_time_then_priority_descending() {
    let list = [e(1, 30, 0), e(2, 10, 1), e(3, 30, 5), e(4, 20, 2), e(5, 10, 4)];
    let sorted = sort_full_list(&list);
    let ids: Vec<u32> = sorted.iter().map(|x| x.id).collect();
    assert_eq!(ids, vec![5, 2, 4, 3, 1]);
}

#[test]
fn sort_keeps_order_of_equal_entries() {
    let list = [e(1, 10, 2), e(2, 10, 2), e(3, 5, 0), e(4, 10, 2)];
    let ids: Vec<u32> = sort_full_list(&list).iter().map(|x| x.id).collect();
    assert_eq!(ids, vec![3, 1, 2, 4]);
    assert!(sort_full_list(&[]).is_empty());
}

#[test]
fn first_five_truncates() {
    let list: Vec<FFArray> = (0..8).map(|i| e(i, 100 - i as i32, 0)).collect();
    let ff = sort_to_ff(&list);
    let ids: Vec<u32> = ff.iter().map(|x| x.id).collect();
    assert_eq!(ids, vec![7, 6, 5, 4, 3]);
}

#[test]
fn cache_never_exceeds_five_and_stays_sorted() {
    let mut ff = FirstFive::new();
    for (i, t) in [50, 10, 70, 30, 20, 60, 5, 40].iter().enumerate() {
        ff.add(i as u32, *t, (i % 3) as u8, 1);
        let c = ff.content();
        assert!(c.len() <= 5);
        for w in c.windows(2) {
            assert!(w[0].execution_time <= w[1].execution_time);
        }
    }
    let times: Vec<i32> = ff.content().iter().map(|x| x.execution_time).collect();
    assert_eq!(times, vec![5, 10, 20, 30, 40]);
}

#[test]
fn later_task_into_full_cache_changes_nothing() {
    let mut ff = FirstFive::new();
    for i in 0..5 {
        ff.add(i, 10 * (i as i32 + 1), 1, 1);
    }
    let before: Vec<FFArray> = ff.content().to_vec();
    ff.add(99, 1000, 7, 3);
    assert_eq!(ff.content(), &before[..]);
}

#[test]
fn schedule_scenario_rearms_alarm() {
    let mut ff = FirstFive::new();
    let mut alarm = AlarmState::new(-1);
    ff.add(0, 100, 1, 1);
    assert_eq!(ff.content(), &[FFArray { id: 0, execution_time: 100, priority: 1, dlc: 1 }][..]);
    assert_eq!(alarm.FP_set_alarm(ff.alarm_time()), AlarmAction::Arm(100));
    ff.add(256, 50, 1, 1);
    let ids: Vec<u32> = ff.content().iter().map(|x| x.id).collect();
    assert_eq!(ids, vec![256, 0]);
    assert_eq!(alarm.FP_set_alarm(ff.alarm_time()), AlarmAction::Arm(50));
    assert_eq!(alarm.current_alarm_time(), 50);
}

#[test]
fn rebuild_replaces_content() {
    let mut ff = FirstFive::new();
    ff.add(1, 10, 0, 1);
    ff.rebuild(&[e(7, 300, 0), e(8, 200, 0)]);
    let ids: Vec<u32> = ff.content().iter().map(|x| x.id).collect();
    assert_eq!(ids, vec![8, 7]);
    ff.rebuild(&[]);
    assert_eq!(ff.alarm_time(), -1);
}

#[test]
fn update_takes_sorted_vector() {
    let mut ff = FirstFive::new();
    ff.update(sort_to_ff(&[e(2, 9, 0), e(1, 3, 0)]));
    assert_eq!(ff.alarm_time(), 3);
}

#[test]
fn alarm_reprograms_only_on_change() {
    let mut a = AlarmState::new(50);
    assert_eq!(a.FP_set_alarm(50), AlarmAction::Keep);
    assert_eq!(a.FP_set_alarm(80), AlarmAction::Arm(80));
    assert_eq!(a.FP_set_alarm(80), AlarmAction::Keep);
    assert_eq!(a.FP_set_alarm(-1), AlarmAction::Disable);
    assert_eq!(a.current_alarm_time(), -1);
    assert_eq!(a.FP_set_alarm(-1), AlarmAction::Keep);
}
