use rfp::clock::{now_ms, time_stamp};
use rfp::fingerprint::{normalize_fingerprint, sha256_hex, to_hex};

#[test]
fn digests_of_known_texts() {
    assert_eq!(
        sha256_hex(b""),
        "e3b0c44298fc1c149afbf4c8996fb92427ae41e4649b934ca495991b7852b855"
    );
    assert_eq!(
        sha256_hex(b"abc"),
        "ba7816bf8f01cfea414140de5dae2223b00361a396177a9cb410ff61f20015ad"
    );
}

#[test]
fn separators_and_case_do_not_matter() {
    assert_eq!(normalize_fingerprint("AB:cd 0F-z\n9"), "abcd0f9");
    assert_eq!(normalize_fingerprint(""), "");
    assert_eq!(normalize_fingerprint("Ａé٣g"), "");
}

#[test]
fn normalizing_twice_changes_nothing() {
    let once = normalize_fingerprint("60:3D:90:4E");
    assert_eq!(once, "603d904e");
    assert_eq!(normalize_fingerprint(&once), once);
}

#[test]
fn computed_fingerprints_are_normal() {
    let fp = sha256_hex(b"certificate");
    assert_eq!(fp.len(), 64);
    assert_eq!(normalize_fingerprint(&fp), fp);
    assert_eq!(normalize_fingerprint(&fp.to_uppercase()), fp);
}

#[test]
fn time_stamps() {
    assert_eq!(time_stamp(None), 0);
    assert_eq!(time_stamp(Some(1_756_771_200_000)), 1_756_771_200_000);
    assert_eq!(time_stamp(Some(i64::MAX as u128 + 1)), i64::MIN);
}

#[test]
fn the_clock_runs() {
    assert!(now_ms() > 1_600_000_000_000);
}

#[test]
fn bytes_in_hexadecimal() {
    assert_eq!(to_hex(&[]), "");
    assert_eq!(to_hex(&[0, 9, 10, 0xff, 0x5c]), "00090aff5c");
}
