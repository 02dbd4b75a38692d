use okx_pa_agent::cache::{compute_fingerprint, BarBits, DecisionCache, FingerprintInput, HtfBits};

fn input() -> FingerprintInput {
    FingerprintInput {
        strategy_id: "2pa_trend".to_string(),
        symbol: "BTC-USDT-SWAP".to_string(),
        timeframe: "15m".to_string(),
        latest_bar: Some(BarBits {
            ts_open: 1_700_000_000_000,
            open: 100.0f64.to_bits(),
            high: 101.0f64.to_bits(),
            low: 99.0f64.to_bits(),
            close: 100.5f64.to_bits(),
            volume: 10.0f64.to_bits(),
        }),
        ema20: Some(100.2f64.to_bits()),
        atr14: None,
        sma14: None,
        sma170: Some(98.0f64.to_bits()),
        htf: Some(Some(HtfBits { ts_open: 1_699_999_200_000, close: 100.7f64.to_bits() })),
    }
}

#[test]
fn fingerprints_hash_the_market_state() {
    assert_eq!(
        compute_fingerprint(&input()),
        "d4ea9d709a0108a3461d8918d6ce8879b96242c0c122d0767ce0c28d6edbd103"
    );
    let mut bare = input();
    bare.latest_bar = None;
    bare.ema20 = None;
    bare.sma170 = None;
    bare.htf = None;
    assert_eq!(compute_fingerprint(&bare), "c216fa42648fb75e1310bbed2f262b91dce73868683ef252a1d4de83d7e33295");
    // A confirming frame without bars still marks the material.
    bare.htf = Some(None);
    assert_eq!(compute_fingerprint(&bare), "681633da578f61d1a0805c7db6a2b58e73d278520f9a8858e1082c5ed2a77937");
}

#[test]
fn the_cache_reads_back_what_was_written() {
    let mut cache: DecisionCache<u32> = DecisionCache::new();
    assert!(cache.is_empty());
    assert!(!cache.needs_save());
    cache.insert("fp1".to_string(), 7);
    cache.insert("fp2".to_string(), 8);
    cache.insert("fp1".to_string(), 9);
    assert_eq!(cache.get("fp1"), Some(&9));
    assert_eq!(cache.get("fp2"), Some(&8));
    assert_eq!(cache.get("fp3"), None);
    assert_eq!(cache.len(), 2);
    assert!(cache.needs_save());
    cache.mark_saved();
    assert!(!cache.needs_save());
    assert_eq!(cache.entries().len(), 2);
}

#[test]
fn loaded_caches_keep_the_last_entry_per_fingerprint() {
    let cache = DecisionCache::from_entries(vec![
        ("a".to_string(), 1),
        ("b".to_string(), 2),
        ("a".to_string(), 3),
    ]);
    assert_eq!(cache.len(), 2);
    assert_eq!(cache.get("a"), Some(&3));
    assert!(!cache.needs_save());
}
