use agentbed::host::{host_info_from, landlock_info_of, os_release_field, trimmed_or_unknown};

const OS_RELEASE: &str = "NAME=NixOS\nID=nixos\r\nVERSION_ID=\"24.11\"\nID_LIKE=\n";

#[test]
fn host_facts_are_populated_or_explicitly_unknown() {
    let info = host_info_from(None, None, "6.6.1".to_owned(), "x86_64".to_owned());
    for field in [&info.hostname, &info.os_id, &info.kernel_release, &info.architecture] {
        assert!(!field.is_empty(), "a field must be a value or the string 'unknown'");
    }
    assert_eq!(info.hostname, "unknown");
    assert_eq!(info.os_id, "unknown");
    assert_eq!(info.os_version_id, "unknown");

    let info = host_info_from(Some("  lab\n".to_owned()), Some(OS_RELEASE.to_owned()), "6.6.1".to_owned(), "aarch64".to_owned());
    assert_eq!(info.hostname, "lab");
    assert_eq!(info.os_id, "nixos");
    assert_eq!(info.os_version_id, "24.11");
    assert_eq!(info.kernel_release, "6.6.1");
    assert_eq!(info.architecture, "aarch64");
}

#[test]
fn landlock_probe_is_consistent() {
    for abi in [None, Some(-1), Some(0), Some(1), Some(5)] {
        let info = landlock_info_of(abi);
        assert_eq!(info.supported, info.abi_version.is_some());
        if let Some(version) = info.abi_version {
            assert!(version > 0);
        }
    }
    assert_eq!(landlock_info_of(Some(3)).abi_version, Some(3));
    assert!(!landlock_info_of(Some(0)).supported);
}

#[test]
fn a_blank_hostname_is_unknown() {
    assert_eq!(trimmed_or_unknown(Some(" \n\t".to_owned())), "unknown");
    assert_eq!(trimmed_or_unknown(None), "unknown");
}

#[test]
fn os_release_takes_the_first_matching_key() {
    let text = " ID = \"debian\" \nID=nixos\nKEY\nVERSION_ID=\n".to_owned();
    assert_eq!(os_release_field(Some(text.clone()), "ID"), "debian");
    assert_eq!(os_release_field(Some(text.clone()), "VERSION_ID"), "");
    assert_eq!(os_release_field(Some(text.clone()), "MISSING"), "unknown");
    assert_eq!(os_release_field(Some("A=\"\"x\"\"".to_owned()), "A"), "x");
    assert_eq!(os_release_field(None, "ID"), "unknown");
    assert_eq!(os_release_field(Some(OS_RELEASE.to_owned()), "ID_LIKE"), "");
}
