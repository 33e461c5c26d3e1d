use popfs::window::{
    is_web_url, open_window, window_label, window_request, WindowRequest, WINDOW_HEIGHT,
    WINDOW_WIDTH,
};

#[test]
fn web_addresses_are_accepted() {
    assert!(is_web_url("http://example.com"));
    assert!(is_web_url("https://example.com"));
    assert!(is_web_url("http://"));
    assert!(is_web_url("https://"));
    assert!(is_web_url("https://例え.jp/パス"));
}

#[test]
fn other_addresses_are_refused() {
    for url in [
        "",
        "h",
        "http:/",
        "http:/example.com",
        "https:/",
        "https:/example.com",
        "ftp://example.com",
        "ftp://http://example.com",
        "file:///etc/passwd",
        "javascript:alert(1)",
        " http://example.com",
        "example.com",
        "httpx://example.com",
    ] {
        assert!(!is_web_url(url), "{}", url);
        assert!(window_request(url, 0).is_none(), "{}", url);
        assert!(open_window(url).is_none(), "{}", url);
    }
}

#[test]
fn prefix_is_compared_letter_for_letter() {
    for url in ["HTTP://example.com", "Http://example.com", "HTTPS://example.com", "hTTps://x"] {
        assert!(!is_web_url(url), "{}", url);
        assert!(window_request(url, 0).is_none(), "{}", url);
    }
}

#[test]
fn label_is_prefix_and_decimal_time() {
    assert_eq!(window_label(0), "fv-0");
    assert_eq!(window_label(7), "fv-7");
    assert_eq!(window_label(10), "fv-10");
    assert_eq!(window_label(1_700_000_000_000), "fv-1700000000000");
    assert_eq!(window_label(1_234_567_890_123), "fv-1234567890123");
    assert_eq!(window_label(i64::MAX), "fv-9223372036854775807");
}

#[test]
fn label_of_a_time_before_1970_keeps_the_sign() {
    assert_eq!(window_label(-1), "fv--1");
    assert_eq!(window_label(-1_000), "fv--1000");
    assert_eq!(window_label(i64::MIN), "fv--9223372036854775808");
}

#[test]
fn label_is_what_formatting_gives() {
    for millis in [0, 1, 9, 10, 11, 99, 100, 101, 1_000_000, -9, -10, -99, -100, i64::MAX, i64::MIN]
    {
        assert_eq!(window_label(millis), format!("fv-{}", millis));
    }
}

#[test]
fn different_times_give_different_labels() {
    let times: [i64; 9] = [0, 1, -1, 10, 100, 101, 110, 1_700_000_000_000, 1_700_000_000_001];
    for a in times {
        for b in times {
            assert_eq!(window_label(a) == window_label(b), a == b);
        }
    }
}

#[test]
fn successive_requests_differ_in_label() {
    let first = window_request("https://example.com", 1_700_000_000_000).unwrap();
    let second = window_request("https://example.com", 1_700_000_000_001).unwrap();
    assert_ne!(first.label, second.label);
    assert_eq!(first.url, second.url);
}

#[test]
fn request_has_the_fixed_settings() {
    let request = window_request("https://example.com/a?b=c", 42).unwrap();
    let expected = WindowRequest {
        label: "fv-42".to_string(),
        url: "https://example.com/a?b=c".to_string(),
        title: "PopFS".to_string(),
        width: 480,
        height: 720,
        resizable: true,
        always_on_top: true,
    };
    assert_eq!(request, expected);
    assert_eq!(WINDOW_WIDTH, 480);
    assert_eq!(WINDOW_HEIGHT, 720);
}

#[test]
fn clone_copies_every_field() {
    let request = window_request("http://example.com", 5).unwrap();
    assert_eq!(request.clone(), request);
}

#[test]
fn window_asked_for_now_is_labelled_with_the_clock() {
    let request = open_window("http://example.com/").unwrap();
    assert_eq!(request.url, "http://example.com/");
    assert_eq!(request.title, "PopFS");
    assert_eq!(request.width, 480);
    assert_eq!(request.height, 720);
    assert!(request.resizable);
    assert!(request.always_on_top);
    let digits = request.label.strip_prefix("fv-").unwrap();
    let millis: i64 = digits.parse().unwrap();
    assert_eq!(request.label, window_label(millis));
    // Later than the first of January 2020.
    assert!(millis > 1_577_836_800_000);
}

#[test]
fn prefix_test_agrees_with_std() {
    let heads = ["", "h", "ht", "htt", "http", "http:", "http:/", "http://", "https", "https:/",
        "https://", "Http://", "ftp://", "httpss://", "http//", "é", "http://é"];
    let tails = ["", "a", "example.com", "/", "://"];
    for head in heads {
        for tail in tails {
            let url = format!("{}{}", head, tail);
            let expected = url.starts_with("http://") || url.starts_with("https://");
            assert_eq!(is_web_url(&url), expected, "{:?}", url);
            assert_eq!(window_request(&url, 1).is_some(), expected, "{:?}", url);
        }
    }
}
