//! The privileged install step of `rupu update`: what it checks the staged
//! binary against and where it keeps the replaced one.

use vstd::prelude::*;
use vstd::string::*;

verus! {

/// The arguments of the privileged apply step: where the staged binary is,
/// which binary it replaces, and the checksum it must still have.
#[derive(Debug, Clone)]
pub struct ApplyUpdateArgs {
    /// Path to the staged, already-downloaded binary.
    pub from: String,
    /// Path to the live binary to replace.
    pub to: String,
    /// Expected sha256 of the staged binary (checked again, not trusted).
    pub sha256: String,
}

/// What the apply step computes before it touches the disk: the checksum
/// line the staged bytes must match, and the backup name of the replaced
/// binary (`target_file_name` is the file name of `args.to`, where it has a
/// readable one).
pub fn apply_plan(args: &ApplyUpdateArgs, target_file_name: Option<&str>) -> (r: (String, String))
    ensures
        r.0@ == args.sha256@ + "  staged"@,
        r.1@ == "rupu-"@ + match target_file_name {
            Some(n) => n@,
            None => "prev"@,
        },
{
    (staged_checksum_line(args.sha256.as_str()), backup_file_name(target_file_name))
}

/// The checksum line the staged binary is verified against:
/// `<sha256>  staged`, in `sha256sum` layout.
pub fn staged_checksum_line(sha256: &str) -> (r: String)
    ensures
        r@ == sha256@ + "  staged"@,
{
    let mut s = String::from_str(sha256);
    s.append("  staged");
    s
}

/// The name the replaced binary is backed up under: `rupu-<file name>`,
/// `rupu-prev` where the target has no readable file name.
pub fn backup_file_name(target_file_name: Option<&str>) -> (r: String)
    ensures
        r@ == "rupu-"@ + match target_file_name {
            Some(n) => n@,
            None => "prev"@,
        },
{
    let mut s = String::from_str("rupu-");
    match target_file_name {
        Some(n) => s.append(n),
        None => s.append("prev"),
    }
    s
}

} // verus!
