use meh::deal::{Attribute, Deal, Item, Launch, PurchaseQuantity, Story, Theme};
use meh::schedule::{self, AlertKind, Monitor};
use meh::text::{append_decimal, join_strings, parse_i64};
use meh::timestamp::Timestamp;
use meh::watch::{self, append_price, WatchAction, Watcher};
use meh::{construct_url, format_duration, mod_main};

const SECOND: i128 = 1_000_000_000;

fn item(price_cents: i64) -> Item {
    Item {
        attributes: vec![Attribute { key: "color".to_string(), value: "red".to_string() }],
        condition: "New".to_string(),
        id: format!("item-{}", price_cents),
        price_cents,
        photo: "https://example.com/photo.jpg".to_string(),
    }
}

fn deal(id: &str, title: &str, prices: &[i64], end_date: Option<Timestamp>) -> Deal {
    Deal {
        features: "- it exists".to_string(),
        id: id.to_string(),
        items: prices.iter().map(|p| item(*p)).collect(),
        launches: vec![Launch { sold_out_at: None }],
        photos: vec![],
        purchase_quantity: PurchaseQuantity { maximum_limit: 3, minimum_limit: 1 },
        title: title.to_string(),
        specifications: "none".to_string(),
        story: Story { title: "A story".to_string(), body: "Once".to_string() },
        theme: Theme {
            accent_color: "#000".to_string(),
            background_color: "#fff".to_string(),
            background_image: "".to_string(),
            foreground: "dark".to_string(),
        },
        url: format!("https://meh.com/deals/{}", id),
        end_date,
    }
}

#[test]
fn construct_url_appends_the_key() {
    assert_eq!(construct_url("abc123"), "https://api.meh.com/1/current.json?apikey=abc123");
    assert_eq!(construct_url(""), "https://api.meh.com/1/current.json?apikey=");
}

#[test]
fn format_duration_zero_is_empty() {
    assert_eq!(format_duration(0), "");
}

#[test]
fn format_duration_seconds_up_to_a_minute() {
    assert_eq!(format_duration(1), "1s");
    assert_eq!(format_duration(59), "59s");
    assert_eq!(format_duration(60), "60s");
}

#[test]
fn format_duration_more_than_a_minute_shows_one_minute() {
    assert_eq!(format_duration(61), "1m");
    assert_eq!(format_duration(600), "1m");
    assert_eq!(format_duration(3600), "1m");
}

#[test]
fn format_duration_hours() {
    assert_eq!(format_duration(3601), "1h 1s");
    assert_eq!(format_duration(3660), "1h 60s");
    assert_eq!(format_duration(3661), "1h 1m");
    assert_eq!(format_duration(3725), "1h 1m");
    assert_eq!(format_duration(7200), "1h 1m");
    assert_eq!(format_duration(7201), "2h 1s");
    assert_eq!(format_duration(90000), "24h 1m");
}

#[test]
fn format_duration_has_no_surrounding_spaces() {
    for secs in [0u64, 1, 60, 61, 3600, 3601, 3661, 7200, 123456, u64::MAX] {
        let text = format_duration(secs);
        assert_eq!(text.trim(), text);
        assert_eq!(text.is_empty(), secs == 0);
    }
}

#[test]
fn decimal_and_price_text() {
    let mut s = String::from("n=");
    append_decimal(&mut s, 0);
    assert_eq!(s, "n=0");
    let mut s = String::new();
    append_decimal(&mut s, u64::MAX);
    assert_eq!(s, u64::MAX.to_string());
    for (cents, text) in [
        (0i64, "0.00"),
        (7, "0.07"),
        (500, "5.00"),
        (1205, "12.05"),
        (99999, "999.99"),
        (-500, "-5.00"),
        (-7, "-0.07"),
        (i64::MIN, "-92233720368547758.08"),
    ] {
        let mut s = String::new();
        append_price(&mut s, cents);
        assert_eq!(s, text);
    }
}

#[test]
fn join_strings_puts_separator_between_neighbours() {
    assert_eq!(join_strings(&vec![], ", "), "");
    assert_eq!(join_strings(&vec!["a".to_string()], ", "), "a");
    assert_eq!(join_strings(&vec!["a".to_string(), "b".to_string(), "c".to_string()], ", "), "a, b, c");
}

#[test]
fn format_deal_readme_example() {
    let d = deal("bag-of-crap", "Bag of Crap", &[500], None);
    let (line1, line2) = watch::format_deal(&d);
    assert_eq!(line1, "Bag of Crap (5.00)");
    assert_eq!(line2, "https://meh.com/deals/bag-of-crap");
}

#[test]
fn format_deal_lists_each_price_once() {
    let d = deal("x", "Two Things", &[500, 1000, 500, 1000, 250], None);
    let (line1, _) = watch::format_deal(&d);
    assert_eq!(line1, "Two Things (5.00, 10.00, 2.50)");
    let d = deal("z", "Refund", &[-500, 500, -500], None);
    assert_eq!(watch::format_deal(&d).0, "Refund (-5.00, 5.00)");
    let d = deal("y", "Nothing", &[], None);
    assert_eq!(watch::format_deal(&d).0, "Nothing ()");
}

#[test]
fn listing_keeps_every_price() {
    let d = deal("x", "Two Things", &[500, 1000, 500], None);
    let (line1, line2) = schedule::format_deal(&d);
    assert_eq!(line1, "Two Things (5.00, 10.00, 5.00)");
    assert_eq!(line2, "https://meh.com/deals/x");
}

#[test]
fn watcher_requests_at_once_then_every_interval() {
    let start = 1_700_000_000 * SECOND;
    let mut w = Watcher::new(start, 60);
    assert_eq!(w.next_request_nanos(), start - 60 * SECOND);
    match w.poll(start, "t") {
        WatchAction::Fetch { message } => assert_eq!(message, "Requesting info from Meh.com"),
        _ => panic!("a request is due at once"),
    }
    let d = deal("d1", "Widget", &[1999], None);
    let shown = w.on_deal(&d, start);
    assert_eq!(
        shown,
        Some(("Widget (19.99)".to_string(), "https://meh.com/deals/d1".to_string()))
    );
    assert_eq!(w.next_request_nanos(), start + 60 * SECOND);
    match w.poll(start + 30 * SECOND, "3:00 pm") {
        WatchAction::Wait { message, pause_nanos } => {
            assert_eq!(message, "checking again in 30 s at 3:00 pm");
            assert_eq!(pause_nanos, 30 * SECOND);
        }
        _ => panic!("the next request is not due yet"),
    }
    match w.poll(start + 60 * SECOND - SECOND / 2, "t") {
        WatchAction::Wait { message, pause_nanos } => {
            assert_eq!(message, "checking again in 0 s at t");
            assert_eq!(pause_nanos, SECOND / 2);
        }
        _ => panic!("the next request is not due yet"),
    }
    assert!(matches!(w.poll(start + 60 * SECOND, "t"), WatchAction::Fetch { .. }));
}

#[test]
fn watcher_shows_a_deal_once() {
    let start = 1_000 * SECOND;
    let mut w = Watcher::new(start, 3600);
    let d = deal("d1", "Widget", &[100], None);
    assert!(w.on_deal(&d, start).is_some());
    assert!(w.on_deal(&d, start + 3600 * SECOND).is_none());
    let e = deal("d2", "Gadget", &[200], None);
    assert_eq!(w.on_deal(&e, start + 7200 * SECOND).unwrap().0, "Gadget (2.00)");
    match w.poll(start + 7200 * SECOND, "t") {
        WatchAction::Wait { message, pause_nanos } => {
            assert_eq!(message, "checking again in 60 minutes at t");
            assert_eq!(pause_nanos, 60 * SECOND);
        }
        _ => panic!("the next request is an hour away"),
    }
}

#[test]
fn watcher_long_interval_countdown() {
    let start = 0;
    let mut w = Watcher::new(start, 0);
    assert!(matches!(w.poll(start, "t"), WatchAction::Fetch { .. }));
    w.on_deal(&deal("a", "A", &[1], None), start);
    assert!(matches!(w.poll(start, "t"), WatchAction::Fetch { .. }));
    let mut w = Watcher::new(start, 7201);
    w.on_deal(&deal("a", "A", &[1], None), start);
    match w.poll(start, "t") {
        WatchAction::Wait { message, pause_nanos } => {
            assert_eq!(message, "checking again in 2 hours at t");
            assert_eq!(pause_nanos, 3600 * SECOND);
        }
        _ => panic!("not due"),
    }
}

#[test]
fn watch_readme_example() {
    let start = 1_700_000_000 * SECOND;
    let mut w = Watcher::new(start, 12 * 3600);
    let d = deal("bag-of-crap", "Bag of Crap", &[500], None);
    let (line1, line2) = w.on_deal(&d, start).unwrap();
    assert_eq!(line1, "Bag of Crap (5.00)");
    assert_eq!(line2, "https://meh.com/deals/bag-of-crap");
    match w.poll(start, "10:00 pm") {
        WatchAction::Wait { message, pause_nanos } => {
            assert_eq!(message, "checking again in 12 hours at 10:00 pm");
            assert_eq!(pause_nanos, 3600 * SECOND);
        }
        _ => panic!("not due"),
    }
    match w.poll(start + 11 * 3600 * SECOND + 30 * SECOND, "10:00 pm") {
        WatchAction::Wait { message, pause_nanos } => {
            assert_eq!(message, "checking again in 59 minutes at 10:00 pm");
            assert_eq!(pause_nanos, 60 * SECOND);
        }
        _ => panic!("not due"),
    }
}

#[test]
fn mod_main_fails_with_rebuild_hint() {
    let err = mod_main().unwrap_err();
    assert_eq!(err.message(), "Please re-run with the flag --features bin");
}

#[test]
fn sleep_step_hours_minutes_seconds() {
    let hour = 3600 * SECOND;
    let minute = 60 * SECOND;
    let s = schedule::sleep_step(2 * hour + 1, "10:00 PM").unwrap();
    assert_eq!(s.message, "checking again in 2 hours at 10:00 PM");
    assert_eq!(s.pause_nanos, hour);
    let s = schedule::sleep_step(hour, "1:05 AM").unwrap();
    assert_eq!(s.message, "checking again in 60 minutes at 1:05 AM");
    assert_eq!(s.pause_nanos, minute);
    let s = schedule::sleep_step(3 * minute, "t").unwrap();
    assert_eq!(s.message, "checking again in 3 minutes at t");
    assert_eq!(s.pause_nanos, minute);
    let s = schedule::sleep_step(5 * minute, "t").unwrap();
    assert_eq!(s.pause_nanos, minute);
    let s = schedule::sleep_step(30 * SECOND, "t").unwrap();
    assert_eq!(s.message, "checking again in 30 s at t");
    assert_eq!(s.pause_nanos, 30 * SECOND);
    let s = schedule::sleep_step(SECOND / 2, "t").unwrap();
    assert_eq!(s.message, "checking again in 0 s at t");
    assert_eq!(s.pause_nanos, SECOND / 2);
    assert!(schedule::sleep_step(0, "t").is_none());
    assert!(schedule::sleep_step(-5, "t").is_none());
}

#[test]
fn until_midnight_eastern() {
    let hour = 3600 * SECOND;
    let day = 24 * hour;
    assert_eq!(schedule::nanos_until_midnight_eastern(0), 5 * hour);
    assert_eq!(schedule::nanos_until_midnight_eastern(5 * hour), day);
    assert_eq!(schedule::nanos_until_midnight_eastern(5 * hour + 1), day - 1);
    assert_eq!(schedule::nanos_until_midnight_eastern(-1), 5 * hour + 1);
    assert_eq!(schedule::nanos_until_midnight_eastern(-19 * hour), day);
    // 2024-01-15T12:00:00Z is 07:00 at UTC-5: seventeen hours to midnight.
    assert_eq!(schedule::nanos_until_midnight_eastern(1_705_320_000 * SECOND), 17 * hour);
}

#[test]
fn parse_i64_cases() {
    assert_eq!(parse_i64("42"), Some(42));
    assert_eq!(parse_i64("+7"), Some(7));
    assert_eq!(parse_i64("-5"), Some(-5));
    assert_eq!(parse_i64("007"), Some(7));
    assert_eq!(parse_i64(""), None);
    assert_eq!(parse_i64("+"), None);
    assert_eq!(parse_i64("-"), None);
    assert_eq!(parse_i64("12a"), None);
    assert_eq!(parse_i64(" 1"), None);
    assert_eq!(parse_i64("1.5"), None);
    assert_eq!(parse_i64("9223372036854775807"), Some(i64::MAX));
    assert_eq!(parse_i64("9223372036854775808"), None);
    assert_eq!(parse_i64("-9223372036854775808"), Some(i64::MIN));
    assert_eq!(parse_i64("-9223372036854775809"), None);
    assert_eq!(parse_i64("99999999999999999999999999999999999999999"), None);
    assert_eq!(parse_i64("99999999999999999999999999999999999999999x"), None);
    for n in [0i64, 1, 9, 10, 12345, i64::MAX, -1, i64::MIN] {
        assert_eq!(parse_i64(&n.to_string()), Some(n));
    }
}

#[test]
fn parse_interval_milliseconds() {
    assert_eq!(schedule::parse_interval("1500"), Some(1_500_000_000));
    assert_eq!(schedule::parse_interval("-2"), Some(-2_000_000));
    assert_eq!(schedule::parse_interval("soon"), None);
}

#[test]
fn alert_kinds_and_texts() {
    assert_eq!(AlertKind::from_name("json"), AlertKind::Json);
    assert_eq!(AlertKind::from_name("title-price"), AlertKind::TitlePrice);
    assert_eq!(AlertKind::from_name("title"), AlertKind::Title);
    assert_eq!(AlertKind::from_name("csv"), AlertKind::Title);
    assert_eq!(AlertKind::from_name("JSON"), AlertKind::Title);
    let d = deal("x", "Thing", &[300, 300], None);
    assert_eq!(schedule::alert_text(AlertKind::Json, &d), None);
    assert_eq!(schedule::alert_text(AlertKind::TitlePrice, &d), Some("Thing (3.00, 3.00)".to_string()));
    assert_eq!(schedule::alert_text(AlertKind::Title, &d), Some("Thing".to_string()));
}

#[test]
fn monitor_waits() {
    let now = 1_705_320_000 * SECOND;
    let minute = 60 * SECOND;
    let mut m = Monitor::new();
    let plan = m.after_fetch(None, now, None);
    assert!(plan.shown.is_none());
    assert_eq!(plan.wait_nanos, minute);

    let d = deal("d1", "Widget", &[100, 100], None);
    let plan = m.after_fetch(Some(&d), now, Some(5 * SECOND));
    assert_eq!(plan.shown.unwrap().0, "Widget (1.00, 1.00)");
    assert_eq!(plan.wait_nanos, 5 * SECOND);
    assert_eq!(m.last_id, "d1");

    let plan = m.after_fetch(Some(&d), now, Some(5 * SECOND));
    assert!(plan.shown.is_none());
    assert_eq!(plan.wait_nanos, minute);

    let end = Timestamp { unix_seconds: 1_705_320_000 + 3600, nanosecond: 5, offset_seconds: -18000 };
    let e = deal("d2", "Gadget", &[200], Some(end));
    let plan = m.after_fetch(Some(&e), now, None);
    assert_eq!(plan.wait_nanos, 3600 * SECOND + 5);

    let f = deal("d3", "Doohickey", &[300], None);
    let plan = m.after_fetch(Some(&f), now, None);
    assert_eq!(plan.wait_nanos, 17 * 3600 * SECOND);
    assert_eq!(plan.shown.unwrap().1, "https://meh.com/deals/d3");
}

#[test]
fn countdown_readme_example() {
    let remaining = (12 * 3600 + 30) as i128 * SECOND;
    let s = schedule::sleep_step(remaining, "10:00 pm").unwrap();
    assert_eq!(s.message, "checking again in 12 hours at 10:00 pm");
}
