use agentbed::nix::protected::{check_protected_changes, normalize_path, ProtectedRejectReason};
use agentbed::protocol::ConfigFileChange;

fn change(path: &str, content: &str) -> ConfigFileChange {
    ConfigFileChange { path: path.to_owned(), content: content.to_owned() }
}

#[test]
fn duplicate_identical_paths_are_allowed() {
    let changes = vec![change("/etc/nixos/demo.nix", "same"), change("/etc/nixos/demo.nix", "same")];
    check_protected_changes(&changes).expect("identical duplicate");
}

#[test]
fn protected_rejects_duplicate_conflicting_changes() {
    let changes = vec![change("/etc/nixos/demo.nix", "a"), change("/etc/nixos/demo.nix", "b")];
    assert_eq!(check_protected_changes(&changes), Err(ProtectedRejectReason::ConflictingChange));
}

#[test]
fn duplicates_are_compared_after_normalization() {
    let changes = vec![change("/etc/nixos/demo.nix", "a"), change("/etc/nixos/./x/../demo.nix", "b")];
    assert_eq!(check_protected_changes(&changes), Err(ProtectedRejectReason::ConflictingChange));
}

#[test]
fn protected_path_matrix_rejects_class_f_before_staging() {
    let cases = [
        ("/etc/nixos/watchdogd/config.nix", "{}", ProtectedRejectReason::Watchdog),
        ("/var/lib/agentbed/wal/records/1.json", "{}", ProtectedRejectReason::BrokerWal),
        ("/var/lib/agentbed/rollback/precommit.json", "{}", ProtectedRejectReason::RollbackPath),
        ("/var/lib/agentbed/oob/state.json", "{}", ProtectedRejectReason::OobStore),
        ("/etc/nixos/agentbed/self.nix", "{}", ProtectedRejectReason::SelfProtection),
        (
            "/etc/nixos/configuration.nix",
            "{ boot.kernelPackages = pkgs.linuxPackages_latest; }",
            ProtectedRejectReason::Kernel,
        ),
        ("/etc/nixos/configuration.nix", "{ boot.loader.systemd-boot.enable = true; }", ProtectedRejectReason::Bootloader),
        ("/etc/nixos/configuration.nix", "{ networking.firewall.enable = true; }", ProtectedRejectReason::Firewall),
        ("/etc/nixos/../nixos/watchdogd/unit.nix", "{}", ProtectedRejectReason::Watchdog),
    ];
    for (path, content, expected) in cases {
        let err = check_protected_changes(&vec![change(path, content)]).expect_err(path);
        assert_eq!(err, expected, "path={path}");
    }
}

#[test]
fn protected_rejects_indirect_watchdog_package_content() {
    let c = change(
        "/etc/nixos/services/custom.nix",
        "{ services.agentbed-watchdogd.package = pkgs.agentbed-watchdogd; }",
    );
    assert_eq!(check_protected_changes(&vec![c]), Err(ProtectedRejectReason::Watchdog));
}

#[test]
fn protected_rejects_watchdog_unit_and_state_paths() {
    let cases = [
        ("/etc/systemd/system/agentbed-watchdogd.service", "{}", ProtectedRejectReason::Watchdog),
        ("/var/lib/agentbed/watchdog/state.json", "{}", ProtectedRejectReason::Watchdog),
    ];
    for (path, content, expected) in cases {
        let err = check_protected_changes(&vec![change(path, content)]).expect_err(path);
        assert_eq!(err, expected);
    }
}

#[test]
fn protected_rejects_nested_boot_kernel_attribute_set() {
    let c = change("/etc/nixos/hardware.nix", "{ boot = { kernelPackages = pkgs.linuxPackages_latest; }; }");
    assert_eq!(check_protected_changes(&vec![c]), Err(ProtectedRejectReason::Kernel));
}

#[test]
fn protected_rejects_nested_boot_loader_attribute_set() {
    let c = change("/etc/nixos/boot.nix", "{ boot = { loader.systemd-boot.enable = true; }; }");
    assert_eq!(check_protected_changes(&vec![c]), Err(ProtectedRejectReason::Bootloader));
}

#[test]
fn protected_rejects_deeply_nested_boot_loader_form() {
    let c = change("/etc/nixos/boot.nix", "{ boot = { loader = { systemd-boot.enable = true; }; }; }");
    assert_eq!(check_protected_changes(&vec![c]), Err(ProtectedRejectReason::Bootloader));
}

#[test]
fn protected_legacy_wal_alias_still_rejected_as_class_f() {
    let c = change("/var/lib/agentbed/wal/records/1.json", "{}");
    assert_eq!(check_protected_changes(&vec![c]), Err(ProtectedRejectReason::BrokerWal));
}

#[test]
fn storage_layout_and_case_are_caught() {
    let c = change("/etc/nixos/disks.nix", "{ fileSystems.\"/\".device = \"/dev/sda1\"; }");
    assert_eq!(check_protected_changes(&vec![c]), Err(ProtectedRejectReason::StorageLayout));
    let c = change("/ETC/NIXOS/AGENTBED/x.nix", "{}");
    assert_eq!(check_protected_changes(&vec![c]), Err(ProtectedRejectReason::SelfProtection));
}

#[test]
fn benign_changes_pass() {
    let changes = vec![
        change("/etc/nixos/services/demo.nix", "{ services.demo.enable = true; }"),
        change("/etc/nixos/services/other.nix", "{ services.nginx.enable = true; }"),
    ];
    assert_eq!(check_protected_changes(&changes), Ok(()));
}

#[test]
fn paths_are_normalized_lexically() {
    assert_eq!(normalize_path("/etc/nixos/../nixos/./a.nix"), "/etc/nixos/a.nix");
    assert_eq!(normalize_path("/a//b/"), "/a/b");
    assert_eq!(normalize_path("a/../../b"), "b");
    assert_eq!(normalize_path("/.."), "/");
}

#[test]
fn protected_broker_state_wal_path_rejected_as_class_f() {
    let c = change("/var/lib/agentbed/broker/state/wal/records/1.json", "{}");
    assert_eq!(check_protected_changes(&vec![c]), Err(ProtectedRejectReason::BrokerWal));
}

#[test]
fn protected_broker_state_root_rejected_as_class_f() {
    let c = change("/var/lib/agentbed/broker/state/checkpoint.json", "{}");
    assert_eq!(check_protected_changes(&vec![c]), Err(ProtectedRejectReason::BrokerWal));
}

#[test]
fn protected_broker_state_alias_traversal_rejected_as_class_f() {
    let c = change("/var/lib/agentbed/../agentbed/broker/state/wal/records/1.json", "{}");
    assert_eq!(check_protected_changes(&vec![c]), Err(ProtectedRejectReason::BrokerWal));
}

#[test]
fn protected_broker_state_content_reference_rejected_as_class_f() {
    let c = change(
        "/etc/nixos/configuration.nix",
        "{ environment.etc.\"/var/lib/agentbed/broker/state/wal\".source = ./wal; }",
    );
    assert_eq!(check_protected_changes(&vec![c]), Err(ProtectedRejectReason::BrokerWal));
}

#[test]
fn protected_broker_state_descendant_path_rejected_as_class_f() {
    let c = change("/var/lib/agentbed/broker/state/events/0001.json", "{}");
    assert_eq!(check_protected_changes(&vec![c]), Err(ProtectedRejectReason::BrokerWal));
}

fn rejects(content: &str, reason: ProtectedRejectReason) {
    let c = change("/etc/nixos/x.nix", content);
    assert_eq!(check_protected_changes(&vec![c]), Err(reason), "{content}");
}

fn allows(content: &str) {
    let c = change("/etc/nixos/safe.nix", content);
    assert_eq!(check_protected_changes(&vec![c]), Ok(()), "{content}");
}

#[test]
fn protected_rejects_quoted_boot_kernel_packages() {
    rejects("{ boot.\"kernelPackages\" = pkgs.linuxPackages_latest; }", ProtectedRejectReason::Kernel);
}

#[test]
fn protected_rejects_quoted_boot_loader_grub() {
    rejects("{ boot.\"loader\".grub.enable = true; }", ProtectedRejectReason::Bootloader);
}

#[test]
fn protected_rejects_quoted_networking_firewall() {
    rejects("{ networking.\"firewall\".enable = true; }", ProtectedRejectReason::Firewall);
}

#[test]
fn protected_rejects_dynamic_kernel_attribute_expression() {
    rejects("{ boot.${pkg} = pkgs.linuxPackages_latest; }", ProtectedRejectReason::DynamicExpression);
}

#[test]
fn protected_allows_kernel_string_decoy_in_comment() {
    allows("# boot.kernelPackages = pkgs.linuxPackages_latest;\n{ services.nginx.enable = true; }");
}

#[test]
fn protected_allows_kernel_string_decoy_as_value() {
    allows("{ description = \"boot.kernelPackages decoy\"; }");
}

#[test]
fn protected_rejects_fully_quoted_boot_kernel_attrpath() {
    rejects("{ \"boot\".\"kernelPackages\" = pkgs.linuxPackages_latest; }", ProtectedRejectReason::Kernel);
}

#[test]
fn protected_rejects_fully_quoted_boot_loader_grub_attrpath() {
    rejects("{ \"boot\".\"loader\".grub.enable = true; }", ProtectedRejectReason::Bootloader);
}

#[test]
fn protected_rejects_fully_quoted_networking_firewall_attrpath() {
    rejects("{ \"networking\".\"firewall\".enable = true; }", ProtectedRejectReason::Firewall);
}

#[test]
fn protected_rejects_mixed_quoted_unquoted_kernel_attrpath() {
    rejects("{ \"boot\".kernelPackages = pkgs.linuxPackages_latest; }", ProtectedRejectReason::Kernel);
}

#[test]
fn protected_rejects_dynamic_fully_quoted_attrpath() {
    rejects("{ \"boot\".${pkg} = pkgs.linuxPackages_latest; }", ProtectedRejectReason::DynamicExpression);
}

#[test]
fn protected_allows_fully_quoted_kernel_decoy_in_comment() {
    allows("# \"boot\".\"kernelPackages\" = pkgs.linuxPackages_latest;\n{ services.nginx.enable = true; }");
}

#[test]
fn protected_allows_fully_quoted_kernel_decoy_as_value() {
    allows("{ description = \"boot.kernelPackages decoy\"; }");
}

#[test]
fn comments_and_strings_are_read_as_nix_reads_them() {
    allows("/* boot.loader.grub.enable = true; */ { services.nginx.enable = true; }");
    allows("{ text = ''\n  networking.firewall.enable = false;\n''; }");
    allows("{ x = \"a\\\"boot.loader\\\"\"; }");
    rejects("{ a = 1; } # trailing\n{ networking.firewall.enable = true; }", ProtectedRejectReason::Firewall);
    rejects("{ \"net\\working\".firewall = {}; }", ProtectedRejectReason::Firewall);
}
