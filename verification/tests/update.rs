use germal_app::i18n::{EN, JA, ZH_CN};
use germal_app::model::UpdateSourcePref;
use germal_app::update::{
    asset_pattern_for, can_install, format_mb, hint_version, install_kind_for, launch_check_enabled,
    minisign_public_key, resolve_source, status_line, windows_package_from_marker, InstallKind,
    ResolvedSource, UpdateStatus, WindowsPackage, INSTALL_SOURCE_FILE, MIRROR_MANIFEST_URL,
    RELEASES_URL, REPO_NAME, REPO_OWNER,
};

const SAMPLE_PUB: &str = "untrusted comment: minisign public key 4A1B2C3D4E5F6071\nRWRxZ3Rlc3RrZXlmb3JnZXJtYWxzYW1wbGVvbmx5MDEyMzQ1Njc4OQ==\n";

#[test]
fn asset_pattern_matches_release_naming() {
    let portable = WindowsPackage::Portable;
    assert_eq!(asset_pattern_for("macos", "aarch64", portable), Some("macos-arm64.dmg"));
    assert_eq!(asset_pattern_for("macos", "x86_64", portable), Some("macos-x64.dmg"));
    assert_eq!(asset_pattern_for("linux", "x86_64", portable), Some("linux-x64.tar.gz"));
    assert_eq!(asset_pattern_for("linux", "aarch64", portable), Some("linux-arm64.tar.gz"));
    assert_eq!(asset_pattern_for("freebsd", "x86_64", portable), None);
    assert_eq!(asset_pattern_for("macos", "aarch64", WindowsPackage::Msi), Some("macos-arm64.dmg"));
}

#[test]
fn windows_picks_the_asset_matching_how_it_was_installed() {
    assert_eq!(asset_pattern_for("windows", "x86_64", WindowsPackage::Portable), Some("windows-x64.exe"));
    assert_eq!(asset_pattern_for("windows", "x86_64", WindowsPackage::Msi), Some("windows-x64.msi"));
    assert_eq!(asset_pattern_for("windows", "aarch64", WindowsPackage::Portable), Some("windows-arm64.exe"));
    assert_eq!(asset_pattern_for("windows", "aarch64", WindowsPackage::Msi), Some("windows-arm64.msi"));
}

#[test]
fn install_source_marker_decides_the_windows_package() {
    assert_eq!(INSTALL_SOURCE_FILE, "install-source.txt");
    assert_eq!(windows_package_from_marker(None), WindowsPackage::Portable);
    for content in ["msi", "msi\n", "msi\r\n", "  MSI  "] {
        assert_eq!(windows_package_from_marker(Some(content)), WindowsPackage::Msi, "{content:?}");
    }
    for content in ["", "exe", "portable", "msix"] {
        assert_eq!(windows_package_from_marker(Some(content)), WindowsPackage::Portable, "{content:?}");
    }
}

#[test]
fn auto_source_follows_ui_language_and_explicit_choice_wins() {
    assert_eq!(resolve_source(UpdateSourcePref::Auto, ZH_CN), ResolvedSource::ChinaMirror);
    assert_eq!(resolve_source(UpdateSourcePref::Auto, EN), ResolvedSource::Global);
    assert_eq!(resolve_source(UpdateSourcePref::Auto, JA), ResolvedSource::Global);
    assert_eq!(resolve_source(UpdateSourcePref::Global, ZH_CN), ResolvedSource::Global);
    assert_eq!(resolve_source(UpdateSourcePref::ChinaMirror, EN), ResolvedSource::ChinaMirror);
}

#[test]
fn mirror_manifest_url_is_pinned_to_the_oss_domain() {
    assert_eq!(
        MIRROR_MANIFEST_URL,
        "https://github.com/nermalcat69/germal/releases/latest/download/latest.json"
    );
    assert_eq!(REPO_OWNER, "nermalcat69");
    assert_eq!(REPO_NAME, "Germal");
    assert!(RELEASES_URL.ends_with("/releases"));
}

#[test]
fn public_key_is_embedded() {
    let key = minisign_public_key(SAMPLE_PUB);
    assert!(key.starts_with("RW"), "a minisign public key starts with RW: {key:?}");
    assert!(!key.contains(' '));
}

#[test]
fn key_line_skips_blank_and_comment_lines() {
    assert_eq!(minisign_public_key("\r\n  \nuntrusted comment: x\r\n  RWabc  \r\nRWdef\n"), "RWabc");
    assert_eq!(minisign_public_key("untrusted comment: only\n"), "");
    assert_eq!(minisign_public_key(""), "");
    assert_eq!(minisign_public_key("RWlast"), "RWlast");
}

#[test]
fn hint_only_for_available_and_staged() {
    let v = "1.2.3".to_string();
    assert_eq!(hint_version(&UpdateStatus::Available(v.clone())), Some((&v, false)));
    assert_eq!(hint_version(&UpdateStatus::Staged(v.clone())), Some((&v, true)));
    for s in [
        UpdateStatus::Idle,
        UpdateStatus::Checking,
        UpdateStatus::UpToDate,
        UpdateStatus::Downloading { downloaded: 1, total: None },
        UpdateStatus::Installing,
        UpdateStatus::Errored("x".into()),
    ] {
        assert_eq!(hint_version(&s), None, "{s:?}");
    }
}

#[test]
fn status_line_keys_and_arguments() {
    let l = status_line(&UpdateStatus::Idle, "0.1.0");
    assert_eq!(l.key, "update.idle");
    assert_eq!(l.args, vec![("current", "0.1.0".to_string())]);
    let l = status_line(&UpdateStatus::Downloading { downloaded: 1_572_864, total: Some(3_145_728) }, "0.1.0");
    assert_eq!(l.key, "update.downloading");
    assert_eq!(l.args, vec![("downloaded", "1.5 MB".to_string()), ("total", "3.0 MB".to_string())]);
    let l = status_line(&UpdateStatus::Downloading { downloaded: 1_048_576, total: None }, "0.1.0");
    assert_eq!(l.key, "update.downloaded");
    assert_eq!(l.args, vec![("downloaded", "1.0 MB".to_string())]);
    let l = status_line(&UpdateStatus::Staged("2.0.0".into()), "0.1.0");
    assert_eq!(l.key, "update.staged");
    assert_eq!(l.args, vec![("version", "2.0.0".to_string())]);
    let l = status_line(&UpdateStatus::Errored("http error: offline".into()), "0.1.0");
    assert_eq!(l.key, "update.failed");
    assert_eq!(l.args, vec![("error", "http error: offline".to_string())]);
    assert_eq!(status_line(&UpdateStatus::Checking, "0.1.0").key, "update.checking");
    assert_eq!(status_line(&UpdateStatus::Installing, "0.1.0").key, "update.installing");
    assert_eq!(status_line(&UpdateStatus::UpToDate, "0.1.0").key, "update.up_to_date");
    assert_eq!(status_line(&UpdateStatus::Available("2.0.0".into()), "0.1.0").key, "update.available");
}

#[test]
fn launch_check_requires_setting_and_real_install() {
    assert!(launch_check_enabled(true, InstallKind::Installed, false));
    assert!(!launch_check_enabled(true, InstallKind::DevBuild, false));
    assert!(!launch_check_enabled(true, InstallKind::Translocated, false));
    assert!(launch_check_enabled(true, InstallKind::DevBuild, true));
    assert!(!launch_check_enabled(false, InstallKind::Installed, false));
    assert!(!launch_check_enabled(false, InstallKind::DevBuild, true));
}

#[test]
fn install_needs_a_real_installation_and_an_offer() {
    assert!(can_install(InstallKind::Installed, &UpdateStatus::Available("1.0.0".into())));
    assert!(!can_install(InstallKind::DevBuild, &UpdateStatus::Available("1.0.0".into())));
    assert!(!can_install(InstallKind::Installed, &UpdateStatus::Staged("1.0.0".into())));
}

#[test]
fn format_mb_examples() {
    assert_eq!(format_mb(0), "0.0 MB");
    assert_eq!(format_mb(1_048_576), "1.0 MB");
    assert_eq!(format_mb(1_572_864), "1.5 MB");
    assert_eq!(format_mb(3_145_728), "3.0 MB");
    assert_eq!(format_mb(10 * 1024 * 1024), "10.0 MB");
}

/// The integer computation agrees with formatting the double, ties included.
#[test]
fn format_mb_agrees_with_float_formatting() {
    let mut samples: Vec<u64> = vec![
        0, 1, 52_428, 52_429, 104_857, 104_858, 157_286, 262_144, 786_432, 1_310_720,
        1_048_575, 9_999_999_999, u64::MAX, u64::MAX - 1, (1u64 << 53) - 1, 1u64 << 53,
        (1u64 << 53) + 1, (1u64 << 54) + 2, (1u64 << 54) + 6, 1u64 << 63, (1u64 << 63) + 1024,
    ];
    let mut x: u64 = 0x9E37_79B9_7F4A_7C15;
    for _ in 0..2000 {
        x ^= x << 13;
        x ^= x >> 7;
        x ^= x << 17;
        samples.push(x >> (x % 64));
    }
    for k in 0..200u64 {
        samples.push(k * 52_428 + k / 3);
        samples.push((2 * k + 1) * 262_144);
    }
    for b in samples {
        assert_eq!(format_mb(b), format!("{:.1} MB", b as f64 / 1_048_576.0), "{b}");
    }
}

#[test]
fn install_kind_follows_build_and_bundle() {
    assert_eq!(install_kind_for(true, false, true, false, false), InstallKind::DevBuild);
    assert_eq!(install_kind_for(true, true, true, false, true), InstallKind::DevBuild);
    assert_eq!(install_kind_for(false, false, false, false, false), InstallKind::Installed);
    assert_eq!(install_kind_for(false, true, false, false, false), InstallKind::DevBuild);
    assert_eq!(install_kind_for(false, true, true, true, true), InstallKind::Translocated);
    assert_eq!(install_kind_for(false, true, true, false, false), InstallKind::DevBuild);
    assert_eq!(install_kind_for(false, true, true, false, true), InstallKind::Installed);
}
