use asitop::history::{History, RollingAverage, SumUpdate, RESUM_EVERY};

#[test]
fn history_keeps_the_latest() {
    let mut history: History<f32> = History::new(3);
    assert!(history.values().is_empty());
    for value in [1.0, 2.0, 3.0, 4.0, 5.0] {
        history.push(value);
    }
    assert_eq!(history.values(), vec![3.0, 4.0, 5.0]);
}

#[test]
fn history_before_it_is_full() {
    let mut history = History::new(3);
    history.push(7u32);
    history.push(8);
    assert_eq!(history.values(), vec![7, 8]);
}

#[test]
fn history_of_length_zero_forgets_nothing() {
    let mut history: History<u32> = History::default();
    for value in 0..5 {
        history.push(value);
    }
    assert_eq!(history.values(), vec![0, 1, 2, 3, 4]);
}

#[test]
fn window_reports_what_leaves() {
    let mut window: RollingAverage<f32> = RollingAverage::new(2);
    assert!(matches!(
        window.push(1.0),
        SumUpdate::Shift { removed: None, added } if added == 1.0
    ));
    assert!(matches!(
        window.push(2.0),
        SumUpdate::Shift { removed: None, added } if added == 2.0
    ));
    assert!(matches!(
        window.push(4.0),
        SumUpdate::Shift { removed: Some(gone), added } if gone == 1.0 && added == 4.0
    ));
    assert_eq!(window.len(), 2);
    assert_eq!(window.values(), vec![2.0, 4.0]);
}

#[test]
fn window_of_length_zero_keeps_nothing() {
    let mut window: RollingAverage<u32> = RollingAverage::default();
    for value in 0..2000 {
        assert!(matches!(window.push(value), SumUpdate::Unchanged));
    }
    assert_eq!(window.len(), 0);
    assert!(window.values().is_empty());
}

#[test]
fn sum_is_refreshed_periodically() {
    let mut window: RollingAverage<u32> = RollingAverage::new(4);
    for n in 1..=2500u32 {
        let update = window.push(n);
        assert_eq!(matches!(update, SumUpdate::Resum), n % RESUM_EVERY == 0);
    }
}

#[test]
fn followed_updates_keep_the_sum() {
    let mut window: RollingAverage<u32> = RollingAverage::new(5);
    let mut sum: u32 = 0;
    for n in 0..2100u32 {
        match window.push(n * 7 % 31) {
            SumUpdate::Unchanged => {}
            SumUpdate::Shift { removed, added } => {
                sum = sum - removed.unwrap_or(0) + added;
            }
            SumUpdate::Resum => sum = window.values().iter().sum(),
        }
        assert_eq!(sum, window.values().iter().sum::<u32>());
        assert_eq!(window.len(), std::cmp::min(5, n as usize + 1));
    }
}
