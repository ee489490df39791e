use flowforge::billing::{compute_line_total, compute_worked_seconds, hours_quantity};
use flowforge::commands::{greet, idle_seconds_or_zero};
use flowforge::model::InvoiceLineItem;

#[test]
fn worked_seconds_are_end_less_start_less_pause() {
    assert_eq!(compute_worked_seconds(32_400, 41_400, 900), 8_100);
    assert_eq!(compute_worked_seconds(10, 10, 0), 0);
    assert_eq!(compute_worked_seconds(10, 20, 25), -15);
    assert_eq!(compute_worked_seconds(0, u64::MAX, 0), u64::MAX as i128);
    assert_eq!(compute_worked_seconds(u64::MAX, 0, u64::MAX), -2 * (u64::MAX as i128));
}

#[test]
fn hours_are_counted_in_thousandths_and_rounded_down() {
    assert_eq!(hours_quantity(8_100), 2_250);
    assert_eq!(hours_quantity(3_600), 1_000);
    assert_eq!(hours_quantity(0), 0);
    assert_eq!(hours_quantity(4_800), 1_333);
    assert_eq!(hours_quantity(3), 0);
    assert_eq!(hours_quantity(4), 1);
    assert_eq!(hours_quantity(u64::MAX), 5_124_095_576_030_431_004);
}

#[test]
fn line_total_is_quantity_times_unit_price() {
    let item = InvoiceLineItem {
        id: "l1".to_string(),
        invoice_id: "i1".to_string(),
        description: "work".to_string(),
        quantity: 2_250,
        unit_price: 8_000,
    };
    assert_eq!(compute_line_total(&item), 18_000_000);
    let large = InvoiceLineItem { quantity: u64::MAX, unit_price: u64::MAX, ..item };
    assert_eq!(compute_line_total(&large), (u64::MAX as u128) * (u64::MAX as u128));
}

#[test]
fn greeting_names_the_caller() {
    assert_eq!(greet("World"), "Hello, World! You've been greeted from Rust!");
    assert_eq!(greet(""), "Hello, ! You've been greeted from Rust!");
}

#[test]
fn idle_time_is_zero_where_the_system_gives_none() {
    assert_eq!(idle_seconds_or_zero(Some(42)), 42);
    assert_eq!(idle_seconds_or_zero(Some(0)), 0);
    assert_eq!(idle_seconds_or_zero(None), 0);
}
