use h1_transport::config::{DateService, ServiceConfig, DATE_INTERVAL};

#[test]
fn scheme_follows_the_transport() {
    let plain = ServiceConfig::new(5000, 3000, 1000, false, None, 1024);
    let secure = ServiceConfig::new(5000, 3000, 1000, true, None, 1024);
    assert_eq!(plain.scheme(false), "http");
    assert_eq!(plain.scheme(true), "ws");
    assert_eq!(secure.scheme(false), "https");
    assert_eq!(secure.scheme(true), "wss");
}

#[test]
fn date_is_cached_for_a_second() {
    assert_eq!(DATE_INTERVAL, 1000);
    let mut date = DateService::new(10_000, "Sun, 06 Nov 1994 08:49:37 GMT".to_string());
    assert_eq!(date.date(), "Sun, 06 Nov 1994 08:49:37 GMT");
    assert!(!date.is_stale(10_000));
    assert!(!date.is_stale(10_999));
    assert!(date.is_stale(11_000));
    assert!(!date.update(10_500, "Sun, 06 Nov 1994 08:49:38 GMT".to_string()));
    assert_eq!(date.date(), "Sun, 06 Nov 1994 08:49:37 GMT");
    assert!(date.update(11_000, "Sun, 06 Nov 1994 08:49:38 GMT".to_string()));
    assert_eq!(date.date(), "Sun, 06 Nov 1994 08:49:38 GMT");
    assert!(!date.is_stale(11_999));
    assert!(date.is_stale(12_000));
}

#[test]
fn date_made_in_the_future_is_fresh() {
    let date = DateService::new(10_000, String::new());
    assert!(!date.is_stale(0));
    assert!(!date.is_stale(9_999));
    assert!(date.is_stale(u64::MAX));
}
