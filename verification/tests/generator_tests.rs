use rust_eze_racing::generator::{generate, name_at, pick_name, record_from, scale, POOL_SIZE};

#[test]
fn scale_folds_into_the_range() {
    assert_eq!(scale(0, 50, 300), 50);
    assert_eq!(scale(250, 50, 300), 300);
    assert_eq!(scale(251, 50, 300), 50);
    assert_eq!(scale(-1, 50, 300), 51);
    assert_eq!(scale(-7, 1, 10), 8);
    assert_eq!(scale(9, 1, 10), 10);
    assert_eq!(scale(10, 1, 10), 1);
    assert_eq!(scale(4, 1, 5), 5);
    assert_eq!(scale(5, 1, 5), 1);
    assert_eq!(scale(123, 7, 7), 7);
}

#[test]
fn scale_takes_the_lowest_number() {
    // 2147483648 = 251 * 8555711 + 187
    assert_eq!(scale(i32::MIN, 50, 300), 237);
    assert_eq!(scale(i32::MAX, 50, 300), 236);
    assert_eq!(scale(i32::MIN, 1, 10), 9);
    assert_eq!(scale(i32::MIN, 1, 5), 4);
    assert_eq!(scale(i32::MIN, i32::MIN, i32::MAX), 0);
}

#[test]
fn names_come_from_the_pool() {
    assert_eq!(POOL_SIZE, 8);
    assert_eq!(name_at(0), "Max");
    assert_eq!(name_at(7), "Oscar");
    assert_eq!(pick_name(0), "Max");
    assert_eq!(pick_name(8), "Max");
    assert_eq!(pick_name(-9), "Lewis");
    assert_eq!(pick_name(i32::MIN), "Max");
    assert_eq!(pick_name(i32::MAX), "Oscar");
}

#[test]
fn record_is_made_from_raw_numbers() {
    let record = record_from(99, 2, -1, 19, i32::MIN);
    assert_eq!(record.id, Some(99));
    assert_eq!(record.driver_name, "Charles");
    assert_eq!(record.top_speed, 51);
    assert_eq!(record.acceleration, 10);
    assert_eq!(record.handling, 4);
    assert_eq!(record.last_updated, None);
    assert!(record.is_in_range());
    assert_eq!(record.duplicate(), record);
}

#[test]
fn generated_records_are_in_range() {
    let pool: Vec<&str> = (0..POOL_SIZE).map(name_at).collect();
    let mut ids = std::collections::HashSet::new();
    for _ in 0..2000 {
        let record = generate();
        assert!((50..=300).contains(&record.top_speed));
        assert!((1..=10).contains(&record.acceleration));
        assert!((1..=5).contains(&record.handling));
        assert!(record.is_in_range());
        assert!(pool.contains(&record.driver_name.as_str()));
        assert_eq!(record.last_updated, None);
        let id = record.id.unwrap();
        assert_eq!((id >> 76) & 0xf, 4);
        assert_eq!((id >> 62) & 0x3, 2);
        ids.insert(id);
    }
    assert_eq!(ids.len(), 2000);
}

#[test]
fn generated_records_differ() {
    let speeds: std::collections::HashSet<i32> = (0..500).map(|_| generate().top_speed).collect();
    assert!(speeds.len() > 1);
}
