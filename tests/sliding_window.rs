use motor_monitor::reactive::SlidingWindowWithTimeFunctionObserver;
use motor_monitor::records::SensorMessage;

fn message(i: i64, timestamp: u64) -> SensorMessage {
    SensorMessage { reading: i, sensor_id: 0, timestamp }
}

fn readings(window: &[SensorMessage]) -> Vec<i64> {
    window.iter().map(|m| m.reading).collect()
}

#[test]
fn it_shall_make_a_window_local() {
    let expected = vec![vec![0, 1, 2]];
    let mut actual: Vec<Vec<i64>> = vec![];
    let mut window = SlidingWindowWithTimeFunctionObserver::new(1000);
    for i in 0..3 {
        window.next(message(i, 1000));
    }
    if let Some(w) = window.complete() {
        actual.push(readings(&w));
    }
    assert_eq!(expected, actual);
}

#[test]
fn it_shall_not_block_on_error_local() {
    let mut window = SlidingWindowWithTimeFunctionObserver::new(1000);
    window.next(message(0, 1000));
    window.next(message(1, 1000));
    window.next(message(2, 1000));
    window.error();
    assert!(window.is_closed());
    assert!(window.tick(1500).is_none());
    assert!(window.complete().is_none());
}

#[test]
fn it_shall_make_a_window_shared() {
    let expected = vec![
        vec![0],
        vec![0, 1],
        vec![0, 1],
        vec![1, 2],
        vec![1, 2],
        vec![2, 3],
        vec![2, 3],
        vec![2, 3],
    ];
    let mut actual: Vec<Vec<i64>> = vec![];
    let mut window = SlidingWindowWithTimeFunctionObserver::new(210);
    // items arrive every 100 ms, hops come every 52 or 53 ms
    let arrivals = [(0u64, 0i64), (100, 1), (200, 2), (300, 3)];
    let hops = [52u64, 105, 157, 211, 262, 315, 367];
    let mut next_arrival = 0;
    for hop in hops {
        while next_arrival < arrivals.len() && arrivals[next_arrival].0 <= hop {
            let (t, i) = arrivals[next_arrival];
            window.next(message(i, t));
            next_arrival += 1;
        }
        if let Some(w) = window.tick(hop) {
            actual.push(readings(&w));
        }
    }
    if let Some(w) = window.complete() {
        actual.push(readings(&w));
    }
    assert_eq!(expected, actual);
    assert!(window.is_closed());
}

#[test]
fn it_shall_not_emit_window_on_error() {
    let expected = vec![vec![0, 1, 2]];
    let mut actual: Vec<Vec<i64>> = vec![];
    let mut window = SlidingWindowWithTimeFunctionObserver::new(210);
    window.next(message(0, 0));
    window.next(message(1, 0));
    window.next(message(2, 0));
    if let Some(w) = window.tick(52) {
        actual.push(readings(&w));
    }
    window.next(message(3, 100));
    window.next(message(4, 100));
    window.error();
    if let Some(w) = window.tick(105) {
        actual.push(readings(&w));
    }
    assert_eq!(expected, actual);
    assert!(window.is_closed());
}

#[test]
fn window_tick_on_empty_buffer_emits_nothing() {
    let mut window = SlidingWindowWithTimeFunctionObserver::new(100);
    assert!(window.tick(10).is_none());
    window.next(message(7, 0));
    // the only message has left the window: an empty snapshot is emitted
    assert_eq!(window.tick(500).map(|w| w.len()), Some(0));
    assert!(window.tick(600).is_none());
}
