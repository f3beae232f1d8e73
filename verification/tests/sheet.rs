use dice_roller::clock::RollTime;
use dice_roller::dice::DicesState;
use dice_roller::history::{RecordManager, RecordWindow};

#[test]
fn sheet_of_two_d6_plus_one() {
    let state = DicesState::<5>::new([0, 2, 0, 0, 0], 1);
    let time = RollTime::new(9, 5, 30, 0).unwrap();
    let record = state.record_of(vec![vec![], vec![3, 5], vec![], vec![], vec![]], time).unwrap();
    let sheet = RecordWindow::show(&record);
    assert_eq!(sheet.title, "[09:05:30]  => 9");
    assert_eq!(sheet.rows.len(), 1);
    assert_eq!(sheet.rows[0].label, "D6");
    assert_eq!(sheet.rows[0].outcomes, vec![3, 5]);
    assert_eq!(sheet.constant, Some(1));
    assert_eq!(sheet.total, 9);
}

#[test]
fn sheet_has_a_row_for_each_kind_rolled() {
    let state = DicesState::<5>::new([1, 0, 2, 0, 1], 0);
    let time = RollTime::new(23, 59, 59, 0).unwrap();
    let outcomes = vec![vec![4], vec![], vec![12, 1], vec![], vec![77]];
    let record = state.record_of(outcomes, time).unwrap();
    let sheet = RecordWindow::show(&record);
    assert_eq!(sheet.title, "[23:59:59]  => 94");
    let labels: Vec<&str> = sheet.rows.iter().map(|row| row.label.as_str()).collect();
    assert_eq!(labels, vec!["D4", "D12", "D100"]);
    assert_eq!(sheet.rows[0].outcomes, vec![4]);
    assert_eq!(sheet.rows[1].outcomes, vec![12, 1]);
    assert_eq!(sheet.rows[2].outcomes, vec![77]);
    assert_eq!(sheet.constant, None);
    assert_eq!(sheet.total, 94);
}

#[test]
fn sheet_total_is_the_sum_of_what_it_shows() {
    let mut rd = rand::thread_rng();
    let state = DicesState::<5>::new([3, 3, 3, 3, 3], 11);
    for _ in 0..10 {
        let sheet = RecordWindow::show(&state.roll(&mut rd));
        let shown: i32 = sheet.rows.iter().flat_map(|row| row.outcomes.iter()).sum();
        assert_eq!(sheet.total, shown + sheet.constant.unwrap_or(0));
        assert_eq!(sheet.rows.len(), 5);
    }
}

#[test]
fn sheet_shows_a_negative_total() {
    let state = DicesState::<5>::new([1, 0, 0, 0, 0], -30);
    let time = RollTime::new(0, 0, 0, 0).unwrap();
    let record = state.record_of(vec![vec![1], vec![], vec![], vec![], vec![]], time).unwrap();
    let sheet = RecordWindow::show(&record);
    assert_eq!(sheet.title, "[00:00:00]  => -29");
    assert_eq!(sheet.constant, Some(-30));
    assert_eq!(sheet.total, -29);
}

#[test]
fn table_rows_follow_the_history() {
    let mut manager = RecordManager::<5>::new();
    let d6 = DicesState::<5>::new([0, 2, 0, 0, 0], 1);
    let d20 = DicesState::<5>::new([0, 0, 0, 1, 0], 0);
    let early = RollTime::new(8, 0, 1, 0).unwrap();
    let late = RollTime::new(8, 0, 2, 0).unwrap();
    manager.add_record(d6.record_of(vec![vec![], vec![3, 5], vec![], vec![], vec![]], early).unwrap());
    manager.add_record(d20.record_of(vec![vec![], vec![], vec![], vec![17], vec![]], late).unwrap());
    manager.toggle_detail(0, true);
    let rows = manager.show_record_table();
    assert_eq!(rows.len(), 2);
    assert_eq!(rows[0].time, "08:00:01");
    assert_eq!(rows[0].description, "2D6 + 1");
    assert_eq!(rows[0].total, 9);
    let sheet = rows[0].detail.as_ref().unwrap();
    assert_eq!(sheet.title, "[08:00:01]  => 9");
    assert_eq!(sheet.rows.len(), 1);
    assert_eq!(sheet.rows[0].label, "D6");
    assert_eq!(sheet.rows[0].outcomes, vec![3, 5]);
    assert_eq!(sheet.constant, Some(1));
    assert_eq!(sheet.total, 9);
    assert!(!rows[0].newest);
    assert_eq!(rows[1].time, "08:00:02");
    assert_eq!(rows[1].description, "1D20");
    assert_eq!(rows[1].total, 17);
    assert!(rows[1].detail.is_none());
    assert!(rows[1].newest);
}

#[test]
fn table_of_one_line_marks_it_newest() {
    let mut manager = RecordManager::<5>::new();
    let d4 = DicesState::<5>::new([1, 0, 0, 0, 0], 0);
    let time = RollTime::new(1, 1, 1, 0).unwrap();
    manager.add_record(d4.record_of(vec![vec![2], vec![], vec![], vec![], vec![]], time).unwrap());
    let rows = manager.show_record_table();
    assert_eq!(rows.len(), 1);
    assert!(rows[0].newest);
}

#[test]
fn table_of_an_empty_history_has_no_rows() {
    assert!(RecordManager::<5>::new().show_record_table().is_empty());
}

#[test]
fn detached_windows_show_until_dismissed() {
    let mut manager = RecordManager::<5>::new();
    let d4 = DicesState::<5>::new([1, 0, 0, 0, 0], 0);
    for (second, outcome) in [(1, 4), (2, 3), (3, 2)] {
        let time = RollTime::new(0, 0, second, 0).unwrap();
        let outcomes = vec![vec![outcome], vec![], vec![], vec![], vec![]];
        manager.add_record(d4.record_of(outcomes, time).unwrap());
    }
    assert!(manager.show_remain_windows().is_empty());
    manager.toggle_detail(0, true);
    manager.toggle_detail(2, true);
    manager.clear_all();
    manager.dismiss(0);
    let sheets = manager.show_remain_windows();
    assert_eq!(sheets.len(), 2);
    assert!(sheets[0].is_none());
    let sheet = sheets[1].as_ref().unwrap();
    assert_eq!(sheet.title, "[00:00:03]  => 2");
    assert_eq!(sheet.rows[0].outcomes, vec![2]);
    assert_eq!(sheet.constant, None);
}
