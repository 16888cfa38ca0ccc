use depctl::utils::{compare_version, get_hash, parse_u32};

#[test]
fn compare_version_orders_components() {
    assert_eq!(compare_version("1.4.5", "1.4.5"), 0);
    assert_eq!(compare_version("1.4.5", "1.4.6"), -1);
    assert_eq!(compare_version("1.10.0", "1.9.9"), 1);
    assert_eq!(compare_version("1.0", "1"), 0);
    assert_eq!(compare_version("1.0.1", "1"), 1);
    assert_eq!(compare_version("2", "1.99"), 1);
}

#[test]
fn compare_version_treats_bad_components_as_zero() {
    assert_eq!(compare_version("1.x", "1.0"), 0);
    assert_eq!(compare_version("", "0.0.0"), 0);
    assert_eq!(compare_version("1.-1", "1.0"), 0);
    assert_eq!(compare_version("1.+2", "1.2"), 0);
    assert_eq!(compare_version("1.4294967296", "1.0"), 0);
    assert_eq!(compare_version("1.4294967295", "1.0"), 1);
}

#[test]
fn compare_version_is_antisymmetric_and_transitive() {
    let vs = ["0.0.0", "1", "1.0.1", "1.2", "1.10", "2.0.0", "x"];
    for a in vs {
        assert_eq!(compare_version(a, a), 0);
        for b in vs {
            assert_eq!(compare_version(a, b), -compare_version(b, a));
            for c in vs {
                if compare_version(a, b) <= 0 && compare_version(b, c) <= 0 {
                    assert!(compare_version(a, c) <= 0);
                }
            }
        }
    }
}

#[test]
fn parse_u32_matches_std() {
    for t in ["", "+", "0", "+7", "-7", "12a", "4294967295", "4294967296", "007", " 1", "++1"] {
        assert_eq!(parse_u32(t), t.parse::<u32>().ok(), "{:?}", t);
    }
}

#[test]
fn get_hash_is_sha1_hex() {
    assert_eq!(get_hash("hello world"), "2aae6c35c94fcfb415dbe95f408b9ce91ee846ed");
    assert_eq!(get_hash(""), "da39a3ee5e6b4b0d3255bfef95601890afd80709");
    assert_eq!(get_hash("abc").len(), 40);
}
