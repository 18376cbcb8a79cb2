use lib::ring::HistoryRing;

#[test]
fn recent_reads_newest_first() {
    let mut h = HistoryRing::new(4, 0i32);
    assert_eq!(h.recent(0), 0);
    for v in 1..=6 {
        h.push(v);
    }
    assert_eq!(h.written(), 6);
    assert_eq!(h.recent(0), 6);
    assert_eq!(h.recent(1), 5);
    assert_eq!(h.recent(3), 3);
}

#[test]
fn recent_before_filling_gives_the_fill_value() {
    let mut h = HistoryRing::new(5, -1i32);
    h.push(10);
    h.push(20);
    assert_eq!(h.recent(0), 20);
    assert_eq!(h.recent(1), 10);
    assert_eq!(h.recent(2), -1);
    assert_eq!(h.recent(4), -1);
}

#[test]
fn absolute_positions_in_window() {
    let mut h = HistoryRing::new(256, 0u32);
    for v in 0..1000u32 {
        h.push(v * 3);
    }
    assert_eq!(h.at(999), Some(2997));
    assert_eq!(h.at(744), Some(744 * 3));
    assert_eq!(h.at(1000), None);
    // An older position reads what its cell holds now.
    assert_eq!(h.at(743), Some(999 * 3));
}

#[test]
fn reset_shrinks_without_reallocating() {
    let mut h = HistoryRing::new(192, 0.5f32);
    for i in 0..300 {
        h.push(i as f32);
    }
    h.reset(48, 0.0);
    assert_eq!(h.used_len(), 48);
    assert_eq!(h.written(), 0);
    assert_eq!(h.recent(47), 0.0);
    for i in 0..100 {
        h.push(i as f32);
    }
    for k in 0..48 {
        assert_eq!(h.recent(k), (99 - k) as f32);
    }
}
