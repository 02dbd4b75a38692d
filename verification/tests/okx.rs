use okx_pa_agent::okx::{
    api_error, auth_headers, base_url, candle_limit_param, order_rejection, query_string, request_path,
    sign, signed_headers, OKXCredentials,
};

fn creds() -> OKXCredentials {
    OKXCredentials::new(" key ", "secret", " pass\n")
}

#[test]
fn credentials_are_trimmed_and_need_all_parts() {
    let c = creds();
    assert_eq!(c.api_key, "key");
    assert_eq!(c.passphrase, "pass");
    assert!(c.is_valid());
    assert!(!OKXCredentials::new("k", "  ", "p").is_valid());
    assert!(!OKXCredentials::new("", "s", "p").is_valid());
}

#[test]
fn base_url_drops_trailing_slashes() {
    assert_eq!(base_url("https://www.okx.com//"), "https://www.okx.com");
    assert_eq!(base_url("https://www.okx.com"), "https://www.okx.com");
    assert_eq!(base_url("///"), "");
}

#[test]
fn query_strings_skip_empty_values_and_encode() {
    let params = vec![
        ("instId".to_string(), "BTC-USDT".to_string()),
        ("after".to_string(), String::new()),
        ("note".to_string(), "a b&c".to_string()),
    ];
    assert_eq!(query_string(&params), "?instId=BTC-USDT&note=a%20b%26c");
    assert_eq!(query_string(&vec![("x".to_string(), String::new())]), "");
    assert_eq!(request_path("/api/v5/market/ticker", Some(&params[..1].to_vec())), "/api/v5/market/ticker?instId=BTC-USDT");
    assert_eq!(request_path("/api/v5/account/balance", None), "/api/v5/account/balance");
}

#[test]
fn candle_limit_is_capped_at_three_hundred() {
    assert_eq!(candle_limit_param(120), "120");
    assert_eq!(candle_limit_param(300), "300");
    assert_eq!(candle_limit_param(5000), "300");
}

#[test]
fn signature_matches_the_documented_scheme() {
    let c = creds();
    let s = sign(Some(&c), "2020-12-08T09:08:57.715Z", "get", "/api/v5/account/balance?ccy=BTC", "").unwrap();
    assert_eq!(s, "wpDvCwYCprcMQsQkxWJiWy+YADoQE4ep+OEKKLimMoY=");
    assert_eq!(sign(None, "t", "GET", "/", "").unwrap_err(), "OKX credentials are not configured");
}

#[test]
fn headers_carry_key_signature_time_and_demo_flag() {
    let c = creds();
    let h = auth_headers(Some(&c), "2020-12-08T09:08:57.715Z", "GET", "/api/v5/account/balance?ccy=BTC", "", true).unwrap();
    assert_eq!(h.len(), 6);
    assert_eq!(h[0], ("OK-ACCESS-KEY".to_string(), "key".to_string()));
    assert_eq!(h[1].1, "wpDvCwYCprcMQsQkxWJiWy+YADoQE4ep+OEKKLimMoY=");
    assert_eq!(h[2].1, "2020-12-08T09:08:57.715Z");
    assert_eq!(h[3].1, "pass");
    assert_eq!(h[5], ("x-simulated-trading".to_string(), "1".to_string()));
    let live = auth_headers(Some(&c), "t", "GET", "/", "", false).unwrap();
    assert_eq!(live.len(), 5);
    assert!(auth_headers(None, "t", "GET", "/", "", false).is_err());
}

#[test]
fn headers_at_an_instant_use_the_iso_time() {
    let c = creds();
    let h = signed_headers(Some(&c), 1_607_418_537_715, "GET", "/api/v5/account/balance?ccy=BTC", "", false).unwrap();
    assert_eq!(h[2].1, "2020-12-08T09:08:57.715Z");
    assert_eq!(h[1].1, "wpDvCwYCprcMQsQkxWJiWy+YADoQE4ep+OEKKLimMoY=");
}

#[test]
fn envelope_codes_other_than_zero_are_errors() {
    assert_eq!(api_error(Some("0"), Some("")), None);
    assert_eq!(api_error(Some("50011"), Some("Too Many Requests")).unwrap(), "OKX API error [50011]: Too Many Requests");
    assert_eq!(api_error(None, None).unwrap(), "OKX API error []: Unknown OKX error");
}

#[test]
fn order_acknowledgements_default_to_success() {
    assert_eq!(order_rejection("order", None, None, "OKX rejected order"), None);
    assert_eq!(
        order_rejection("order", Some("51008"), None, "OKX rejected order").unwrap(),
        "OKX order failed [51008]: OKX rejected order"
    );
    assert_eq!(
        order_rejection("cancel algo", Some("1"), Some("busy"), "Cancel algo rejected").unwrap(),
        "OKX cancel algo failed [1]: busy"
    );
}
