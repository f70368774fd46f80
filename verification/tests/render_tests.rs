use rust_eze_racing::backend::DriverSpeed;
use rust_eze_racing::render::{append_decimal, append_footer, decimal_text, listing_text};
use rust_eze_racing::span::Span;

fn line(name: &str, speed: i32) -> DriverSpeed {
    DriverSpeed { driver_name: name.to_string(), top_speed: speed }
}

#[test]
fn decimal_of_small_numbers() {
    assert_eq!(decimal_text(0), "0");
    assert_eq!(decimal_text(7), "7");
    assert_eq!(decimal_text(10), "10");
    assert_eq!(decimal_text(280), "280");
    assert_eq!(decimal_text(-5), "-5");
    assert_eq!(decimal_text(-120), "-120");
}

#[test]
fn decimal_of_the_ends_of_the_range() {
    assert_eq!(decimal_text(i32::MAX), "2147483647");
    assert_eq!(decimal_text(i32::MIN), "-2147483648");
}

#[test]
fn decimal_agrees_with_the_standard_library() {
    for n in [1, 9, 11, 99, 100, 101, 1_000_000, -1, -99, -100, 123_456_789, -987_654_321] {
        assert_eq!(decimal_text(n), n.to_string());
    }
}

#[test]
fn decimal_is_appended() {
    let mut text = String::from("speed=");
    append_decimal(&mut text, 300);
    assert_eq!(text, "speed=300");
}

#[test]
fn listing_has_one_line_per_row() {
    assert_eq!(listing_text(&vec![]), "");
    assert_eq!(listing_text(&vec![line("Max", 280)]), "Max: 280");
    assert_eq!(
        listing_text(&vec![line("Max", 280), line("Lewis", 90), line("", 50)]),
        "Max: 280\nLewis: 90\n: 50"
    );
}

#[test]
fn footer_reports_the_query_time() {
    let text = append_footer("280".to_string(), Span { secs: 0, nanos: 1_500_000 });
    assert_eq!(text, "280\n---\nQuery Time: 1.5ms");
    let text = append_footer(String::new(), Span { secs: 2, nanos: 0 });
    assert_eq!(text, "\n---\nQuery Time: 2s");
    let text = append_footer("x".to_string(), Span { secs: 0, nanos: 42 });
    assert_eq!(text, "x\n---\nQuery Time: 42ns");
}
