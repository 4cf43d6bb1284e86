use pdf_inspector_api::config::Config;

fn s(v: &str) -> Option<String> {
    Some(v.to_string())
}

#[test]
fn config_defaults() {
    let c = Config::from_settings(None, None, None, None, 8);
    assert_eq!(c.port, 3000);
    assert_eq!(c.max_body_bytes, 100 * 1024 * 1024);
    assert_eq!(c.max_concurrent, 8);
    assert_eq!(c.queue_timeout_secs, 60);
}

#[test]
fn config_from_values() {
    let c = Config::from_settings(s("8080"), s("5"), s("3"), s("10"), 8);
    assert_eq!(c.port, 8080);
    assert_eq!(c.max_body_bytes, 5 * 1024 * 1024);
    assert_eq!(c.max_concurrent, 3);
    assert_eq!(c.queue_timeout_secs, 10);
}

#[test]
fn config_bad_values_fall_back() {
    let c = Config::from_settings(s("70000"), s("lots"), s("-2"), s(" 5"), 2);
    assert_eq!(c.port, 3000);
    assert_eq!(c.max_body_bytes, 100 * 1024 * 1024);
    assert_eq!(c.max_concurrent, 2);
    assert_eq!(c.queue_timeout_secs, 60);
}

#[test]
fn config_zero_concurrency_means_cpus() {
    let c = Config::from_settings(None, None, s("0"), None, 6);
    assert_eq!(c.max_concurrent, 6);
}

#[test]
fn config_body_limit_saturates() {
    let c = Config::from_settings(None, s(&usize::MAX.to_string()), None, None, 1);
    assert_eq!(c.max_body_bytes, usize::MAX);
}

#[test]
fn config_plus_sign_and_limits() {
    let c = Config::from_settings(s("+65535"), s("0"), s("+4"), s("18446744073709551615"), 1);
    assert_eq!(c.port, 65535);
    assert_eq!(c.max_body_bytes, 0);
    assert_eq!(c.max_concurrent, 4);
    assert_eq!(c.queue_timeout_secs, u64::MAX);
}
