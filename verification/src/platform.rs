//! Platform identification: normalizing user-supplied OS/architecture tokens
//! and matching asset names against a platform through case-insensitive
//! substring markers.

use vstd::prelude::*;

use crate::errors::Error;
use crate::text::{
    contains_ci, eq_ci, lemma_seq_lower_idempotent, lemma_seq_lower_of_upper, seq_contains,
    seq_lower, seq_upper,
};

verus! {

/// The operating systems a release asset can target.
#[derive(Debug, Clone, Copy, PartialEq, Eq, Structural)]
pub enum Os {
    Windows,
    Macos,
    Linux,
}

/// The processor architectures a release asset can target.
#[derive(Debug, Clone, Copy, PartialEq, Eq, Structural)]
pub enum Arch {
    X86_64,
    Aarch64,
}

/// The target platform an asset is resolved for.
#[derive(Debug, Clone, Copy, PartialEq, Eq, Structural)]
pub struct PlatformSpec {
    pub os: Os,
    pub arch: Arch,
}

/// A valid OS token: one of the three OS names, compared case-insensitively.
pub open spec fn os_token_spec(s: Seq<char>) -> Option<Os> {
    if seq_lower(s) == "windows"@ {
        Some(Os::Windows)
    } else if seq_lower(s) == "macos"@ {
        Some(Os::Macos)
    } else if seq_lower(s) == "linux"@ {
        Some(Os::Linux)
    } else {
        None
    }
}

/// A valid architecture token with its aliases, compared case-insensitively.
pub open spec fn arch_token_spec(s: Seq<char>) -> Option<Arch> {
    if seq_lower(s) == "x86_64"@ || seq_lower(s) == "amd64"@ || seq_lower(s) == "x64"@ {
        Some(Arch::X86_64)
    } else if seq_lower(s) == "aarch64"@ || seq_lower(s) == "arm64"@ {
        Some(Arch::Aarch64)
    } else {
        None
    }
}

/// Normalize a user-supplied OS token to its canonical form, rejecting
/// anything outside `windows`, `macos`, `linux` (case-insensitive).
pub fn normalize_os(input: &str) -> (r: Result<Os, Error>)
    ensures
        r matches Ok(os) ==> os_token_spec(input@) == Some(os),
        r is Err ==> r == Err::<Os, Error>(Error::UnsupportedPlatform) && os_token_spec(input@)
            is None,
{
    proof {
        lemma_token_lower();
    }
    if eq_ci(input, "windows") {
        Ok(Os::Windows)
    } else if eq_ci(input, "macos") {
        Ok(Os::Macos)
    } else if eq_ci(input, "linux") {
        Ok(Os::Linux)
    } else {
        Err(Error::UnsupportedPlatform)
    }
}

/// Normalize a user-supplied architecture token to its canonical form:
/// `x86_64`, `amd64` and `x64` mean x86_64; `aarch64` and `arm64` mean
/// aarch64 (case-insensitive). Anything else is rejected.
pub fn normalize_arch(input: &str) -> (r: Result<Arch, Error>)
    ensures
        r matches Ok(a) ==> arch_token_spec(input@) == Some(a),
        r is Err ==> r == Err::<Arch, Error>(Error::UnsupportedPlatform) && arch_token_spec(
            input@,
        ) is None,
{
    proof {
        lemma_token_lower();
    }
    if eq_ci(input, "x86_64") || eq_ci(input, "amd64") || eq_ci(input, "x64") {
        Ok(Arch::X86_64)
    } else if eq_ci(input, "aarch64") || eq_ci(input, "arm64") {
        Ok(Arch::Aarch64)
    } else {
        Err(Error::UnsupportedPlatform)
    }
}

/// The accepted tokens are already lower-case, so lower-casing them is the
/// identity; this lets the case-insensitive equality test stand for the
/// token itself.
proof fn lemma_token_lower()
    ensures
        seq_lower("windows"@) == "windows"@,
        seq_lower("macos"@) == "macos"@,
        seq_lower("linux"@) == "linux"@,
        seq_lower("x86_64"@) == "x86_64"@,
        seq_lower("amd64"@) == "amd64"@,
        seq_lower("x64"@) == "x64"@,
        seq_lower("aarch64"@) == "aarch64"@,
        seq_lower("arm64"@) == "arm64"@,
{
    reveal_strlit("windows");
    reveal_strlit("macos");
    reveal_strlit("linux");
    reveal_strlit("x86_64");
    reveal_strlit("amd64");
    reveal_strlit("x64");
    reveal_strlit("aarch64");
    reveal_strlit("arm64");
    assert(seq_lower("windows"@) =~= "windows"@);
    assert(seq_lower("macos"@) =~= "macos"@);
    assert(seq_lower("linux"@) =~= "linux"@);
    assert(seq_lower("x86_64"@) =~= "x86_64"@);
    assert(seq_lower("amd64"@) =~= "amd64"@);
    assert(seq_lower("x64"@) =~= "x64"@);
    assert(seq_lower("aarch64"@) =~= "aarch64"@);
    assert(seq_lower("arm64"@) =~= "arm64"@);
}

/// The asset name carries one of the OS's substring markers
/// (case-insensitively).
pub open spec fn os_matches(os: Os, name: Seq<char>) -> bool {
    let l = seq_lower(name);
    match os {
        Os::Windows => seq_contains(l, "windows"@) || seq_contains(l, "win64"@) || seq_contains(
            l,
            "pc-windows"@,
        ),
        Os::Macos => seq_contains(l, "apple-darwin"@) || seq_contains(l, "macos"@) || seq_contains(
            l,
            "darwin"@,
        ),
        Os::Linux => seq_contains(l, "linux"@) || seq_contains(l, "unknown-linux"@),
    }
}

/// The asset name carries one of the architecture's substring markers
/// (case-insensitively).
pub open spec fn arch_matches(arch: Arch, name: Seq<char>) -> bool {
    let l = seq_lower(name);
    match arch {
        Arch::X86_64 => seq_contains(l, "x86_64"@) || seq_contains(l, "amd64"@) || seq_contains(
            l,
            "x64"@,
        ),
        Arch::Aarch64 => seq_contains(l, "aarch64"@) || seq_contains(l, "arm64"@),
    }
}

/// An asset matches the platform only if both its OS and architecture
/// predicates hold of the name.
pub open spec fn platform_matches(p: PlatformSpec, name: Seq<char>) -> bool {
    os_matches(p.os, name) && arch_matches(p.arch, name)
}

/// Decide the platform predicate on an asset name.
pub fn asset_matches_platform(p: &PlatformSpec, name: &str) -> (r: bool)
    ensures
        r == platform_matches(*p, name@),
{
    proof {
        lemma_marker_lower(name@);
    }
    let os_ok: bool = match p.os {
        Os::Windows => contains_ci(name, "windows") || contains_ci(name, "win64") || contains_ci(
            name,
            "pc-windows",
        ),
        Os::Macos => contains_ci(name, "apple-darwin") || contains_ci(name, "macos")
            || contains_ci(name, "darwin"),
        Os::Linux => contains_ci(name, "linux") || contains_ci(name, "unknown-linux"),
    };
    let arch_ok: bool = match p.arch {
        Arch::X86_64 => contains_ci(name, "x86_64") || contains_ci(name, "amd64") || contains_ci(
            name,
            "x64",
        ),
        Arch::Aarch64 => contains_ci(name, "aarch64") || contains_ci(name, "arm64"),
    };
    os_ok && arch_ok
}

/// Every marker literal is already lower-case, so lower-casing it is the
/// identity; this lets the case-insensitive containment test stand for the
/// marker itself.
proof fn lemma_marker_lower(name: Seq<char>)
    ensures
        seq_lower("windows"@) == "windows"@,
        seq_lower("win64"@) == "win64"@,
        seq_lower("pc-windows"@) == "pc-windows"@,
        seq_lower("apple-darwin"@) == "apple-darwin"@,
        seq_lower("macos"@) == "macos"@,
        seq_lower("darwin"@) == "darwin"@,
        seq_lower("linux"@) == "linux"@,
        seq_lower("unknown-linux"@) == "unknown-linux"@,
        seq_lower("x86_64"@) == "x86_64"@,
        seq_lower("amd64"@) == "amd64"@,
        seq_lower("aarch64"@) == "aarch64"@,
        seq_lower("arm64"@) == "arm64"@,
        seq_lower("x64"@) == "x64"@,
{
    reveal_strlit("windows");
    reveal_strlit("win64");
    reveal_strlit("pc-windows");
    reveal_strlit("apple-darwin");
    reveal_strlit("macos");
    reveal_strlit("darwin");
    reveal_strlit("linux");
    reveal_strlit("unknown-linux");
    reveal_strlit("x86_64");
    reveal_strlit("amd64");
    reveal_strlit("aarch64");
    reveal_strlit("arm64");
    reveal_strlit("x64");
    assert(seq_lower("windows"@) =~= "windows"@);
    assert(seq_lower("win64"@) =~= "win64"@);
    assert(seq_lower("pc-windows"@) =~= "pc-windows"@);
    assert(seq_lower("apple-darwin"@) =~= "apple-darwin"@);
    assert(seq_lower("macos"@) =~= "macos"@);
    assert(seq_lower("darwin"@) =~= "darwin"@);
    assert(seq_lower("linux"@) =~= "linux"@);
    assert(seq_lower("unknown-linux"@) =~= "unknown-linux"@);
    assert(seq_lower("x86_64"@) =~= "x86_64"@);
    assert(seq_lower("amd64"@) =~= "amd64"@);
    assert(seq_lower("aarch64"@) =~= "aarch64"@);
    assert(seq_lower("arm64"@) =~= "arm64"@);
    assert(seq_lower("x64"@) =~= "x64"@);
}

/// The platform predicate looks at the name only through its ASCII
/// lower-casing: it is insensitive to the case of the asset name, and
/// lower-casing the name first does not change the verdict.
pub proof fn lemma_platform_match_case_insensitive(p: PlatformSpec, name: Seq<char>)
    ensures
        platform_matches(p, seq_lower(name)) == platform_matches(p, name),
        platform_matches(p, seq_upper(name)) == platform_matches(p, name),
{
    lemma_seq_lower_idempotent(name);
    lemma_seq_lower_of_upper(name);
}

} // verus!
