use rupu_cli::build_info::{
    installed_owner_for, is_dev_build, is_dev_build_for, is_packaged, is_packaged_for, owner_for_path, package_manager_hint_from,
    upgrade_command, version_line, version_line_for, InstallOwner, INSTALL_METHOD, RELEASE_CHANNEL, RELEASE_VERSION,
    UNKNOWN_PACKAGE_MANAGER_HINT,
};

#[test]
fn package_manager_owned_paths_are_recognized() {
    assert_eq!(owner_for_path("/opt/homebrew/bin/rupu"), Some(InstallOwner::Brew));
    assert_eq!(owner_for_path("/home/linuxbrew/.linuxbrew/bin/rupu"), Some(InstallOwner::Brew));
    assert_eq!(owner_for_path("/usr/local/Cellar/rupu/0.74.0/bin/rupu"), Some(InstallOwner::Brew));
    assert_eq!(owner_for_path("/nix/store/abc123-rupu-0.74.0/bin/rupu"), Some(InstallOwner::Nix));
    assert_eq!(owner_for_path("/usr/bin/rupu"), Some(InstallOwner::Distro));
}

#[test]
fn hand_placed_binaries_stay_self_updatable() {
    assert_eq!(owner_for_path("/usr/local/bin/rupu"), None);
    assert_eq!(owner_for_path("/home/matt/.cargo/bin/rupu"), None);
    assert_eq!(owner_for_path("/home/matt/bin/rupu"), None);
    assert_eq!(owner_for_path("./target/release/rupu"), None);
}

#[test]
fn upgrade_command_never_tells_you_to_sudo_brew() {
    assert_eq!(upgrade_command(InstallOwner::Brew, "apt").as_deref(), Some("brew upgrade rupu"));
    assert_eq!(upgrade_command(InstallOwner::Distro, "apt").as_deref(), Some("sudo apt upgrade rupu"));
    assert_eq!(upgrade_command(InstallOwner::Distro, "dnf").as_deref(), Some("sudo dnf upgrade rupu"));
    assert_eq!(upgrade_command(InstallOwner::Nix, "apt"), None);
    assert_eq!(upgrade_command(InstallOwner::Distro, UNKNOWN_PACKAGE_MANAGER_HINT), None);
}

#[test]
fn dev_build_when_env_absent() {
    assert!(is_dev_build());
    assert_eq!(RELEASE_CHANNEL, None);
    assert_eq!(RELEASE_VERSION, "0.74.0");
    assert!(version_line().ends_with("(dev)"));
}

#[test]
fn only_the_pkg_marker_counts_as_packaged() {
    assert!(is_packaged_for(Some("pkg")));
    assert!(!is_packaged_for(None));
    assert!(!is_packaged_for(Some("")));
    assert!(!is_packaged_for(Some("tarball")));
}

#[test]
fn package_manager_hint_follows_the_distro_family() {
    assert_eq!(package_manager_hint_from("ID=debian\nNAME=\"Debian GNU/Linux\""), "apt");
    assert_eq!(package_manager_hint_from("ID=ubuntu\nID_LIKE=debian"), "apt");
    assert_eq!(package_manager_hint_from("ID=fedora"), "dnf");
    assert_eq!(package_manager_hint_from("ID=rocky\nID_LIKE=\"rhel centos fedora\""), "dnf");
}

#[test]
fn package_manager_hint_degrades_rather_than_guessing_wrong() {
    assert_eq!(package_manager_hint_from(""), "your system package manager");
    assert_eq!(package_manager_hint_from("ID=plan9"), "your system package manager");
}

#[test]
fn no_install_method_under_cargo_test() {
    assert_eq!(INSTALL_METHOD, None);
    assert!(!is_packaged());
}

#[test]
fn release_builds_name_their_channel() {
    assert!(!is_dev_build_for(Some("stable")));
    assert!(is_dev_build_for(None));
    assert_eq!(version_line_for("1.2.3", Some("stable")), "1.2.3 (stable)");
    assert_eq!(version_line_for("1.2.3", None), "1.2.3 (dev)");
}

#[test]
fn os_release_is_read_case_insensitively() {
    assert_eq!(package_manager_hint_from("ID=Ubuntu"), "apt");
    assert_eq!(package_manager_hint_from("ID=AlmaLinux"), "dnf");
    assert_eq!(package_manager_hint_from("ID=opensuse\nID_LIKE=\"opensuse suse\""), UNKNOWN_PACKAGE_MANAGER_HINT);
}

#[test]
fn installed_owner_prefers_package_marker_over_path() {
    assert_eq!(installed_owner_for(true, Some("/opt/homebrew/bin/rupu")), Some(InstallOwner::Distro));
    assert_eq!(installed_owner_for(true, None), Some(InstallOwner::Distro));
    assert_eq!(installed_owner_for(false, Some("/opt/homebrew/bin/rupu")), Some(InstallOwner::Brew));
    assert_eq!(installed_owner_for(false, Some("/usr/local/bin/rupu")), None);
    assert_eq!(installed_owner_for(false, None), None);
}
