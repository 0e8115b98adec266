use surrealql_zed::config::{pinned_lsp_version, source_build_hint};
use surrealql_zed::lsp::binary::install_hint;
use surrealql_zed::lsp::platform::{
    cached_binary_suffix, release_asset_name, unsupported_platform, Architecture, Os,
};
use surrealql_zed::text::{is_white_space_char, trim};

#[test]
fn trim_removes_surrounding_white_space() {
    assert_eq!(trim("  v1.2.3\n"), "v1.2.3");
    assert_eq!(trim("\t\u{3000}tag \u{2003}"), "tag");
    assert_eq!(trim("a b"), "a b");
    assert_eq!(trim(""), "");
    assert_eq!(trim(" \n\r\t "), "");
}

#[test]
fn trim_agrees_with_std() {
    for text in ["  x ", "\u{85}y\u{a0}", "\u{2028}z\u{2029}", "\u{202f}\u{205f}w\u{1680}", "é "] {
        assert_eq!(trim(text), text.trim());
    }
}

#[test]
fn white_space_chars_agree_with_std() {
    for code in 0u32..0x3100 {
        if let Some(c) = char::from_u32(code) {
            assert_eq!(is_white_space_char(c), c.is_whitespace(), "{code:#x}");
        }
    }
}

#[test]
fn pinned_version_is_trimmed() {
    assert_eq!(pinned_lsp_version(), "v0.1.0");
}

#[test]
fn asset_names_for_supported_platforms() {
    assert_eq!(
        release_asset_name(Os::Mac, Architecture::Aarch64),
        Ok("surrealql-language-server-macos-arm64".to_string())
    );
    assert_eq!(
        release_asset_name(Os::Linux, Architecture::X8664),
        Ok("surrealql-language-server-linux-amd64".to_string())
    );
    assert_eq!(
        release_asset_name(Os::Linux, Architecture::Aarch64),
        Ok("surrealql-language-server-linux-arm64".to_string())
    );
    assert_eq!(
        release_asset_name(Os::Windows, Architecture::X8664),
        Ok("surrealql-language-server-windows-amd64.exe".to_string())
    );
}

#[test]
fn intel_mac_is_unsupported() {
    assert_eq!(
        release_asset_name(Os::Mac, Architecture::X8664),
        Err(format!(
            "surrealql-language-server publishes no prebuilt binary for macOS x86_64. \
            Build one from source: {}",
            source_build_hint()
        ))
    );
}

#[test]
fn other_platforms_are_unsupported() {
    for (os, arch) in [
        (Os::Linux, Architecture::X86),
        (Os::Windows, Architecture::X86),
        (Os::Windows, Architecture::Aarch64),
        (Os::Mac, Architecture::X86),
    ] {
        assert_eq!(release_asset_name(os, arch), Err(unsupported_platform(os, arch)));
    }
    assert_eq!(
        unsupported_platform(Os::Windows, Architecture::Aarch64),
        format!(
            "surrealql-language-server publishes no prebuilt binary for Windows aarch64. \
            Build one from source: {}",
            source_build_hint()
        )
    );
    assert!(unsupported_platform(Os::Linux, Architecture::X86).contains("for Linux x86."));
}

#[test]
fn binary_suffix_is_exe_only_on_windows() {
    assert_eq!(cached_binary_suffix(Os::Windows), ".exe");
    assert_eq!(cached_binary_suffix(Os::Linux), "");
    assert_eq!(cached_binary_suffix(Os::Mac), "");
}

#[test]
fn install_hint_adds_route_forward() {
    assert_eq!(
        install_hint("boom".to_string()),
        format!(
            "boom. Download a binary from \
            https://github.com/surrealdb/surrealql-language-server/releases and set \
            `lsp.surrealql-lsp.binary.path` to it, or build from source: {}",
            source_build_hint()
        )
    );
    assert_eq!(
        source_build_hint(),
        "cargo install --git https://github.com/surrealdb/surrealql-language-server"
    );
}
