//! Build identity and install ownership: who owns this binary and which
//! upgrade command, if any, is the right one to print.

use vstd::prelude::*;
use vstd::string::*;
use crate::text::{chars_of, contains_chars, contains_seq, has_prefix, lower_chars, lower_seq, starts_with_chars, str_eq};

verus! {

/// The channel of this library build: `None`, as for a dev build. A binary
/// takes "beta" | "stable" from the stamp the release tooling exports at
/// compile time and passes it to the `_for` functions below.
pub const RELEASE_CHANNEL: Option<&'static str> = None;

/// The full release version; a dev build carries the crate version.
pub const RELEASE_VERSION: &'static str = "0.74.0";

/// The install method of this library build: `None`. A binary built by the
/// packaging tooling takes `"pkg"` from its compile-time stamp instead.
pub const INSTALL_METHOD: Option<&'static str> = None;

/// The fallback package-manager hint for a distro this binary does not
/// recognize. It is prose, not a command name.
pub const UNKNOWN_PACKAGE_MANAGER_HINT: &'static str = "your system package manager";

/// Whether a binary stamped with `method` is owned by a system package manager.
pub fn is_packaged_for(method: Option<&str>) -> (r: bool)
    ensures
        r == (method matches Some(m) && m@ == "pkg"@),
{
    match method {
        Some(m) => str_eq(m, "pkg"),
        None => false,
    }
}

/// Whether this binary is owned by a system package manager.
pub fn is_packaged() -> (r: bool)
    ensures
        r == (INSTALL_METHOD matches Some(m) && m@ == "pkg"@),
{
    is_packaged_for(INSTALL_METHOD)
}

/// The package-manager family named by `/etc/os-release` contents, lower-cased.
pub open spec fn spec_package_manager_hint(os_release: Seq<char>) -> Seq<char> {
    let s = lower_seq(os_release);
    if contains_seq(s, "debian"@) || contains_seq(s, "ubuntu"@) {
        "apt"@
    } else if contains_seq(s, "fedora"@) || contains_seq(s, "rhel"@) || contains_seq(s, "centos"@)
        || contains_seq(s, "rocky"@) || contains_seq(s, "almalinux"@) {
        "dnf"@
    } else {
        UNKNOWN_PACKAGE_MANAGER_HINT@
    }
}

/// The upgrade tool to name, derived from `/etc/os-release` contents: `apt`
/// for the Debian family, `dnf` for the RHEL family, and otherwise a
/// true-but-vague phrase rather than a wrong command.
pub fn package_manager_hint_from(os_release: &str) -> (r: &'static str)
    ensures
        r@ == spec_package_manager_hint(os_release@),
{
    let raw = chars_of(os_release);
    let s = lower_chars(raw.as_slice());
    let s = s.as_slice();
    let debian = chars_of("debian");
    let ubuntu = chars_of("ubuntu");
    if contains_chars(s, debian.as_slice()) || contains_chars(s, ubuntu.as_slice()) {
        return "apt";
    }
    let fedora = chars_of("fedora");
    let rhel = chars_of("rhel");
    let centos = chars_of("centos");
    let rocky = chars_of("rocky");
    let alma = chars_of("almalinux");
    if contains_chars(s, fedora.as_slice()) || contains_chars(s, rhel.as_slice())
        || contains_chars(s, centos.as_slice()) || contains_chars(s, rocky.as_slice())
        || contains_chars(s, alma.as_slice()) {
        "dnf"
    } else {
        UNKNOWN_PACKAGE_MANAGER_HINT
    }
}

/// Who owns this binary, when it was not placed by hand.
#[derive(Debug, Clone, Copy, PartialEq, Eq, Structural)]
pub enum InstallOwner {
    /// Homebrew, on macOS or Linux. Never takes `sudo`.
    Brew,
    /// The Nix store — immutable by construction.
    Nix,
    /// A distro package manager: apt / dnf / pacman (.deb, .rpm, AUR).
    Distro,
}

/// Which package manager owns a binary living at `path`.
pub open spec fn spec_owner_for_path(path: Seq<char>) -> Option<InstallOwner> {
    if has_prefix(path, "/nix/store/"@) {
        Some(InstallOwner::Nix)
    } else if has_prefix(path, "/opt/homebrew/"@) || has_prefix(path, "/home/linuxbrew/"@)
        || contains_seq(path, "/Cellar/"@) {
        Some(InstallOwner::Brew)
    } else if has_prefix(path, "/usr/bin/"@) {
        Some(InstallOwner::Distro)
    } else {
        None
    }
}

/// Which package manager owns a binary living at `path`, if any.
/// `/usr/local/bin` is deliberately absent: hand-placed binaries there keep
/// self-updating; Intel Homebrew is recognised by its `Cellar` keg path.
pub fn owner_for_path(path: &str) -> (r: Option<InstallOwner>)
    ensures
        r == spec_owner_for_path(path@),
{
    let p = chars_of(path);
    let p = p.as_slice();
    let nix = chars_of("/nix/store/");
    if starts_with_chars(p, nix.as_slice()) {
        return Some(InstallOwner::Nix);
    }
    let brew_arm = chars_of("/opt/homebrew/");
    let brew_linux = chars_of("/home/linuxbrew/");
    let cellar = chars_of("/Cellar/");
    if starts_with_chars(p, brew_arm.as_slice()) || starts_with_chars(p, brew_linux.as_slice())
        || contains_chars(p, cellar.as_slice()) {
        return Some(InstallOwner::Brew);
    }
    let usr_bin = chars_of("/usr/bin/");
    if starts_with_chars(p, usr_bin.as_slice()) {
        return Some(InstallOwner::Distro);
    }
    None
}

/// Who owns a binary: a packaged build belongs to the distro; otherwise its
/// (canonical) path decides, and nothing does where the path is unknown.
pub open spec fn spec_installed_owner(packaged: bool, exe_path: Option<Seq<char>>) -> Option<InstallOwner> {
    if packaged {
        Some(InstallOwner::Distro)
    } else {
        match exe_path {
            Some(p) => spec_owner_for_path(p),
            None => None,
        }
    }
}

/// Who owns a binary built with the package marker `packaged` and running
/// from `exe_path`, where that could be found.
pub fn installed_owner_for(packaged: bool, exe_path: Option<&str>) -> (r: Option<InstallOwner>)
    ensures
        r == spec_installed_owner(
            packaged,
            match exe_path {
                Some(p) => Some(p@),
                None => None,
            },
        ),
{
    if packaged {
        return Some(InstallOwner::Distro);
    }
    match exe_path {
        Some(p) => owner_for_path(p),
        None => None,
    }
}

/// The exact upgrade command for `owner`, when a single command is right.
pub open spec fn spec_upgrade_command(owner: InstallOwner, distro_pm: Seq<char>) -> Option<Seq<char>> {
    match owner {
        InstallOwner::Brew => Some("brew upgrade rupu"@),
        InstallOwner::Nix => None,
        InstallOwner::Distro => if distro_pm != UNKNOWN_PACKAGE_MANAGER_HINT@ {
            Some("sudo "@ + distro_pm + " upgrade rupu"@)
        } else {
            None
        },
    }
}

/// The exact upgrade command to name for `owner`, or `None` when no single
/// command is correct. `brew` never gets `sudo`; Nix has no single command.
pub fn upgrade_command(owner: InstallOwner, distro_pm: &str) -> (r: Option<String>)
    ensures
        r matches Some(s) ==> spec_upgrade_command(owner, distro_pm@) == Some(s@),
        r is None ==> spec_upgrade_command(owner, distro_pm@) is None,
{
    match owner {
        InstallOwner::Brew => Some(String::from_str("brew upgrade rupu")),
        InstallOwner::Nix => None,
        InstallOwner::Distro => {
            if str_eq(distro_pm, UNKNOWN_PACKAGE_MANAGER_HINT) {
                None
            } else {
                let mut s = String::from_str("sudo ");
                s.append(distro_pm);
                s.append(" upgrade rupu");
                Some(s)
            }
        },
    }
}

/// True when the build carries no release channel.
pub fn is_dev_build_for(channel: Option<&str>) -> (r: bool)
    ensures
        r == channel is None,
{
    channel.is_none()
}

/// True when this binary was not built by the release tooling.
pub fn is_dev_build() -> (r: bool)
    ensures
        r == RELEASE_CHANNEL is None,
{
    is_dev_build_for(RELEASE_CHANNEL)
}

/// `"<version> (<channel>)"`, with `dev` standing in for a missing channel.
pub open spec fn spec_version_line(version: Seq<char>, channel: Option<Seq<char>>) -> Seq<char> {
    version + " ("@ + match channel {
        Some(c) => c,
        None => "dev"@,
    } + ")"@
}

/// Human `--version` line for `version` on `channel`, e.g. "0.35.4 (beta)".
pub fn version_line_for(version: &str, channel: Option<&str>) -> (r: String)
    ensures
        r@ == spec_version_line(version@, match channel { Some(c) => Some(c@), None => None }),
{
    let mut s = String::from_str(version);
    s.append(" (");
    match channel {
        Some(c) => s.append(c),
        None => s.append("dev"),
    }
    s.append(")");
    s
}

/// Human `--version` suffix, e.g. "0.35.4 (beta)" / "0.35.4 (dev)".
pub fn version_line() -> (r: String)
    ensures
        r@ == spec_version_line(RELEASE_VERSION@, match RELEASE_CHANNEL { Some(c) => Some(c@), None => None }),
{
    version_line_for(RELEASE_VERSION, RELEASE_CHANNEL)
}

} // verus!

verus! {

/// A binary placed by hand under `/usr/local/bin/` (the documented manual
/// install location) is never treated as package-owned, unless it lives in
/// a Homebrew `Cellar` keg.
pub proof fn law_usr_local_bin_stays_self_updatable(path: Seq<char>)
    requires
        has_prefix(path, "/usr/local/bin/"@),
        !contains_seq(path, "/Cellar/"@),
    ensures
        spec_owner_for_path(path) is None,
{
    reveal_strlit("/usr/local/bin/");
    reveal_strlit("/nix/store/");
    reveal_strlit("/opt/homebrew/");
    reveal_strlit("/home/linuxbrew/");
    reveal_strlit("/usr/bin/");
    assert(path.subrange(0, 15)[1] == 'u');
    assert(path.subrange(0, 15)[5] == 'l');
    if has_prefix(path, "/nix/store/"@) {
        assert(path.subrange(0, 11)[1] == 'n');
    }
    if has_prefix(path, "/opt/homebrew/"@) {
        assert(path.subrange(0, 14)[1] == 'o');
    }
    if has_prefix(path, "/home/linuxbrew/"@) {
        assert(path.subrange(0, 16)[1] == 'h');
    }
    if has_prefix(path, "/usr/bin/"@) {
        assert(path.subrange(0, 9)[4] == '/');
        assert(path.subrange(0, 9)[5] == 'b');
        assert(path.subrange(0, 15)[5] == 'l');
    }
}

/// Homebrew's upgrade command is the same whatever the distro family, and
/// it is never prefixed with `sudo`.
pub proof fn law_brew_is_never_sudo(pm1: Seq<char>, pm2: Seq<char>)
    ensures
        spec_upgrade_command(InstallOwner::Brew, pm1) == spec_upgrade_command(InstallOwner::Brew, pm2),
        spec_upgrade_command(InstallOwner::Brew, pm1) matches Some(c) && !has_prefix(c, "sudo"@),
{
    reveal_strlit("brew upgrade rupu");
    reveal_strlit("sudo");
    if has_prefix("brew upgrade rupu"@, "sudo"@) {
        assert("brew upgrade rupu"@.subrange(0, 4)[0] == 'b');
    }
}

/// The vague fallback hint is never turned into a command line, and a
/// recognised distro family always is.
pub proof fn law_distro_command_iff_known_hint(os_release: Seq<char>)
    ensures
        spec_upgrade_command(InstallOwner::Distro, spec_package_manager_hint(os_release)) is Some
            <==> spec_package_manager_hint(os_release) != UNKNOWN_PACKAGE_MANAGER_HINT@,
{
}

} // verus!
