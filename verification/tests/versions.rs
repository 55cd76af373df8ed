use helix_bridge::versions::{master_version, release_version, Versions};

#[test]
fn release_banner_yields_its_last_word() {
    let out = b"helix 25.07.1\n";
    assert_eq!(release_version(Some(out)), b"25.07.1".to_vec());
}

#[test]
fn master_banner_loses_its_parentheses() {
    let out = b"helix 25.07 (7910fc54)\n";
    assert_eq!(master_version(Some(out)), b"7910fc54".to_vec());
}

#[test]
fn failed_probe_reports_unknown() {
    assert_eq!(release_version(None), b"unknown".to_vec());
    assert_eq!(master_version(None), b"unknown".to_vec());
}

#[test]
fn banner_without_spaces_is_taken_whole() {
    assert_eq!(release_version(Some(b"25.07.1")), b"25.07.1".to_vec());
}

#[test]
fn banner_ending_in_space_yields_nothing() {
    assert_eq!(release_version(Some(b"helix ")), b"".to_vec());
}

#[test]
fn versions_record_holds_both_variants() {
    let v = Versions { release: "25.07.1".to_string(), master: "7910fc54".to_string() };
    assert_eq!(v.release, "25.07.1");
    assert_eq!(v.master, "7910fc54");
}
