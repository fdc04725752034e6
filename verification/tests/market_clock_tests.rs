use ai_assistance::clock::{millis_of, nanos_of, now_ms, now_ns, now_ts};
use ai_assistance::dates::{format_ymd, shifted_date_text, Ymd};
use ai_assistance::market::{coingecko_price_url, pick_disk, yahoo_chart_url};

#[test]
fn quote_addresses() {
    assert_eq!(yahoo_chart_url("AAPL"), "https://query1.finance.yahoo.com/v8/finance/chart/AAPL?range=1d&interval=1d");
    assert_eq!(
        coingecko_price_url(&vec!["bitcoin".to_string(), "ethereum".to_string()]),
        "https://api.coingecko.com/api/v3/simple/price?ids=bitcoin,ethereum&vs_currencies=usd&include_24hr_change=true&include_market_cap=true&include_24hr_vol=true"
    );
}

#[test]
fn main_disk_choice() {
    let m = |v: &[&str]| v.iter().map(|s| s.to_string()).collect::<Vec<String>>();
    assert_eq!(pick_disk(&m(&["/boot", "/", "/home"])), Some(1));
    assert_eq!(pick_disk(&m(&["D:\\", "C:\\"])), Some(1));
    assert_eq!(pick_disk(&m(&["/data", "/mnt"])), Some(0));
    assert_eq!(pick_disk(&Vec::new()), None);
}

#[test]
fn clock_reads_after_the_epoch() {
    let s = now_ts().unwrap();
    assert!(s > 1_600_000_000);
    let ns = now_ns().unwrap();
    assert!(ns / 1_000_000_000 >= s as u128);
    assert!(now_ms() / 1000 >= s as u64);
}

#[test]
fn dates_format_and_shift() {
    assert_eq!(format_ymd(&Ymd { year: 7, month: 3, day: 9 }), "0007-03-09");
    assert_eq!(shifted_date_text(&Ymd { year: 2024, month: 2, day: 28 }, 1), Some("2024-02-29".to_string()));
    assert_eq!(shifted_date_text(&Ymd { year: 2024, month: 2, day: 30 }, 1), None);
}

#[test]
fn readings_convert_to_milliseconds_and_nanoseconds() {
    assert_eq!(millis_of(1, 500_000_000), 1500);
    assert_eq!(millis_of(0, 999_999), 0);
    assert_eq!(millis_of(1_700_000_000, 123_456_789), 1_700_000_000_123);
    assert_eq!(millis_of(u64::MAX, 999_999_999), (u64::MAX as u128 * 1000 + 999) as u64);
    assert_eq!(nanos_of(2, 5), 2_000_000_005);
    assert_eq!(nanos_of(u64::MAX, 999_999_999), u64::MAX as u128 * 1_000_000_000 + 999_999_999);
}
