//! Which release asset fits the machine, and how the downloaded binary is
//! named there.
use vstd::prelude::*;

use crate::config::{source_build_hint, BINARY_NAME, SOURCE_BUILD_HINT};

verus! {

/// The operating system of the machine Zed runs on.
#[derive(Clone, Copy, Debug, PartialEq, Eq, Structural)]
pub enum Os {
    Mac,
    Linux,
    Windows,
}

/// The processor architecture of the machine Zed runs on.
#[derive(Clone, Copy, Debug, PartialEq, Eq, Structural)]
pub enum Architecture {
    Aarch64,
    X86,
    X8664,
}

/// The suffix of the release asset published for a platform, if one is.
pub open spec fn asset_suffix(platform: Os, arch: Architecture) -> Option<Seq<char>> {
    match (platform, arch) {
        (Os::Mac, Architecture::Aarch64) => Some("-macos-arm64"@),
        (Os::Linux, Architecture::X8664) => Some("-linux-amd64"@),
        (Os::Linux, Architecture::Aarch64) => Some("-linux-arm64"@),
        (Os::Windows, Architecture::X8664) => Some("-windows-amd64.exe"@),
        _ => None,
    }
}

/// The name of the operating system in messages.
pub open spec fn os_name(platform: Os) -> Seq<char> {
    match platform {
        Os::Mac => "macOS"@,
        Os::Linux => "Linux"@,
        Os::Windows => "Windows"@,
    }
}

/// The name of the architecture in messages.
pub open spec fn arch_name(arch: Architecture) -> Seq<char> {
    match arch {
        Architecture::Aarch64 => "aarch64"@,
        Architecture::X8664 => "x86_64"@,
        Architecture::X86 => "x86"@,
    }
}

/// The message for a platform with no published binary.
pub open spec fn unsupported_platform_message(platform: Os, arch: Architecture) -> Seq<char> {
    BINARY_NAME@ + " publishes no prebuilt binary for "@ + os_name(platform) + " "@ + arch_name(
        arch,
    ) + ". Build one from source: "@ + SOURCE_BUILD_HINT@
}

/// The suffix that the downloaded binary's file name carries on a platform.
pub open spec fn binary_suffix(platform: Os) -> Seq<char> {
    if platform == Os::Windows {
        ".exe"@
    } else {
        ""@
    }
}

/// Asset names match the surrealql-language-server release CI uploads:
///   surrealql-language-server-macos-arm64
///   surrealql-language-server-linux-amd64
///   surrealql-language-server-linux-arm64
///   surrealql-language-server-windows-amd64.exe
///
/// No x86_64 macOS build is published. Rosetta 2 translates x86_64 to arm64,
/// not the reverse, so the arm64 asset cannot run on an Intel Mac: those fall
/// through to the unsupported-platform error rather than a broken download.
pub fn release_asset_name(platform: Os, arch: Architecture) -> (r: Result<String, String>)
    ensures
        match asset_suffix(platform, arch) {
            Some(suffix) => r matches Ok(name) && name@ == BINARY_NAME@ + suffix,
            None => r matches Err(e) && e@ == unsupported_platform_message(platform, arch),
        },
{
    let suffix = match (platform, arch) {
        (Os::Mac, Architecture::Aarch64) => "-macos-arm64",
        (Os::Linux, Architecture::X8664) => "-linux-amd64",
        (Os::Linux, Architecture::Aarch64) => "-linux-arm64",
        (Os::Windows, Architecture::X8664) => "-windows-amd64.exe",
        _ => {
            return Err(unsupported_platform(platform, arch));
        },
    };
    Ok(String::from_str(BINARY_NAME).concat(suffix))
}

fn os_display_name(platform: Os) -> (r: &'static str)
    ensures
        r@ == os_name(platform),
{
    match platform {
        Os::Mac => "macOS",
        Os::Linux => "Linux",
        Os::Windows => "Windows",
    }
}

fn arch_display_name(arch: Architecture) -> (r: &'static str)
    ensures
        r@ == arch_name(arch),
{
    match arch {
        Architecture::Aarch64 => "aarch64",
        Architecture::X8664 => "x86_64",
        Architecture::X86 => "x86",
    }
}

/// The download paths attach an install hint pointing at the releases page.
/// That is a dead end here: reaching this arm means no release asset exists for
/// this target in the first place, so the only route open is a source build.
pub fn unsupported_platform(platform: Os, arch: Architecture) -> (r: String)
    ensures
        r@ == unsupported_platform_message(platform, arch),
{
    String::from_str(BINARY_NAME).concat(" publishes no prebuilt binary for ").concat(
        os_display_name(platform),
    ).concat(" ").concat(arch_display_name(arch)).concat(". Build one from source: ").concat(
        source_build_hint(),
    )
}

/// The suffix of the downloaded binary's file name: `.exe` on Windows,
/// nothing elsewhere.
pub fn cached_binary_suffix(platform: Os) -> (r: &'static str)
    ensures
        r@ == binary_suffix(platform),
{
    match platform {
        Os::Windows => ".exe",
        _ => "",
    }
}

} // verus!
