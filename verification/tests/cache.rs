use tj::cache::{hash_mono, Cache, CacheEntry};

fn entry(bpm: f32, offset_ms: i64, name: &str, cue: Option<usize>) -> CacheEntry {
    CacheEntry { bpm_bits: bpm.to_bits(), offset_ms, name: name.to_string(), cue_sample: cue }
}

#[test]
fn get_after_set() {
    let mut c = Cache::empty("/tmp/cache.json".to_string());
    assert!(c.get("abc").is_none());
    c.set("abc".to_string(), entry(128.0, 40, "a.flac", None));
    c.set("def".to_string(), entry(90.0, 0, "b.flac", Some(44100)));
    let e = c.get("abc").unwrap();
    assert_eq!(f32::from_bits(e.bpm_bits), 128.0);
    assert_eq!(e.offset_ms, 40);
    c.set("abc".to_string(), entry(128.0, 50, "a.flac", Some(7)));
    let e = c.get("abc").unwrap();
    assert_eq!(e.offset_ms, 50);
    assert_eq!(e.cue_sample, Some(7));
    assert_eq!(c.get("def").unwrap().cue_sample, Some(44100));
    assert_eq!(c.entries_snapshot().len(), 2);
}

#[test]
fn later_entry_wins_when_loaded() {
    let c = Cache::from_parts(
        "p".to_string(),
        Some("/music".to_string()),
        120,
        true,
        vec![("h".to_string(), entry(100.0, 1, "x", None)), ("h".to_string(), entry(100.0, 2, "x", None))],
    );
    assert_eq!(c.get("h").unwrap().offset_ms, 2);
    assert_eq!(c.get_latency(), 120);
    assert!(c.get_vinyl_mode());
    assert_eq!(c.last_browser_path(), Some(&"/music".to_string()));
}

#[test]
fn settings_round_trip() {
    let mut c = Cache::empty("p".to_string());
    c.set_latency(70);
    c.set_vinyl_mode(true);
    c.set_last_browser_path("/music/house");
    assert_eq!(c.get_latency(), 70);
    assert!(c.get_vinyl_mode());
    assert_eq!(c.last_browser_path(), Some(&"/music/house".to_string()));
}

#[test]
fn hash_is_blake3_hex() {
    assert_eq!(hash_mono(&[]), "af1349b9f5f9a1a6a0404dea36dcc9499bcb25c9adc112b7cc9a93cae41f3262");
    let samples: Vec<f32> = vec![0.0, 0.5, -0.5];
    let bytes: Vec<u8> = samples.iter().flat_map(|s| s.to_ne_bytes()).collect();
    let h = hash_mono(&bytes);
    assert_eq!(h.len(), 64);
    assert!(h.chars().all(|c| c.is_ascii_hexdigit() && !c.is_ascii_uppercase()));
    assert_ne!(h, hash_mono(&[]));
}
