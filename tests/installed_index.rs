use birdnest::installed::{
    cache_load_plan, decode_packages_cache, encode_packages_cache, load_packages_cache,
    parse_status_file, CacheStep,
};
use birdnest::records::{PackageInfo, PackageSource};

fn pkg(name: &str, version: &str) -> PackageInfo {
    PackageInfo {
        name: name.to_string(),
        description: String::new(),
        version: version.to_string(),
        size: String::new(),
        source: PackageSource::Default,
    }
}

#[test]
fn cache_round_trip_keeps_pairs_in_order() {
    let ps = vec![pkg("bash", "5.2-1"), pkg("zstd", "1.5"), pkg("café", "")];
    let bytes = encode_packages_cache(&ps);
    assert_eq!(&bytes[0..8], &3u64.to_le_bytes());
    let back = decode_packages_cache(&bytes).expect("intact cache");
    let pairs: Vec<(String, String)> = back.iter().map(|p| (p.name.clone(), p.version.clone())).collect();
    assert_eq!(
        pairs,
        vec![
            ("bash".to_string(), "5.2-1".to_string()),
            ("zstd".to_string(), "1.5".to_string()),
            ("café".to_string(), "".to_string())
        ]
    );
}

#[test]
fn cache_round_trip_empty_index() {
    let bytes = encode_packages_cache(&Vec::new());
    assert_eq!(bytes, vec![0u8; 8]);
    assert_eq!(decode_packages_cache(&bytes).expect("empty cache").len(), 0);
}

#[test]
fn cache_layout_is_nul_terminated() {
    let bytes = encode_packages_cache(&vec![pkg("a", "1")]);
    assert_eq!(bytes, vec![1, 0, 0, 0, 0, 0, 0, 0, b'a', 0, b'1', 0]);
}

#[test]
fn truncated_cache_is_rejected() {
    let bytes = encode_packages_cache(&vec![pkg("abc", "1.0"), pkg("def", "2.0")]);
    for cut in 0..bytes.len() {
        assert!(decode_packages_cache(&bytes[..cut].to_vec()).is_none(), "cut at {}", cut);
    }
    assert!(decode_packages_cache(&bytes).is_some());
}

#[test]
fn count_larger_than_content_is_rejected() {
    let mut bytes = encode_packages_cache(&vec![pkg("abc", "1.0")]);
    bytes[0] = 2;
    assert!(decode_packages_cache(&bytes).is_none());
}

#[test]
fn invalid_utf8_field_is_replaced() {
    let bytes = vec![1, 0, 0, 0, 0, 0, 0, 0, 0xff, b'x', 0, b'1', 0];
    let r = decode_packages_cache(&bytes).unwrap();
    assert_eq!(r[0].name, "\u{fffd}x");
}

#[test]
fn stale_cache_is_dropped() {
    assert_eq!(cache_load_plan(Some(10), Some(20)), CacheStep::DropStale);
    assert_eq!(cache_load_plan(Some(20), Some(20)), CacheStep::Read);
    assert_eq!(cache_load_plan(Some(30), Some(20)), CacheStep::Read);
    assert_eq!(cache_load_plan(None, Some(20)), CacheStep::Miss);
    assert_eq!(cache_load_plan(Some(20), None), CacheStep::Miss);
    let data = encode_packages_cache(&vec![pkg("a", "1")]);
    assert!(load_packages_cache(CacheStep::DropStale, Some(data.clone())).is_none());
    assert!(load_packages_cache(CacheStep::Miss, Some(data.clone())).is_none());
    assert!(load_packages_cache(CacheStep::Read, None).is_none());
    assert_eq!(load_packages_cache(CacheStep::Read, Some(data)).unwrap()[0].name, "a");
}

#[test]
fn status_file_keeps_installed_paragraphs() {
    let status = "Package: bash\nStatus: install ok installed\nVersion: 5.2-1\n\nPackage: gone\nStatus: deinstall ok not-installed\nVersion: 1\n\nPackage: cfg\nVersion: 0.1\nStatus: deinstall ok config-files\n\nPackage: old\nStatus: install ok config-files\nVersion: 3\n\nPackage: last\nVersion: 9\nStatus: install ok installed";
    let r = parse_status_file(status);
    let pairs: Vec<(&str, &str)> = r.iter().map(|p| (p.name.as_str(), p.version.as_str())).collect();
    assert_eq!(pairs, vec![("bash", "5.2-1"), ("cfg", "0.1"), ("old", "3"), ("last", "9")]);
    assert_eq!(r[0].source, PackageSource::Default);
    assert_eq!(r[0].description, "");
}

#[test]
fn status_then_cache_round_trip() {
    let r = parse_status_file("Package: a\nStatus: install ok installed\nVersion: 1\n");
    let back = decode_packages_cache(&encode_packages_cache(&r)).unwrap();
    assert_eq!(back.len(), 1);
    assert_eq!(back[0].name, "a");
    assert_eq!(back[0].version, "1");
}
