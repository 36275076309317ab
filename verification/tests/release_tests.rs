use doris_cli::release::{normalize_version, parse_release_body};

const SAMPLE_BODY: &str = r#"
- Binary(x64):
 - [apache-doris-4.1.1-bin-x64.tar.gz](https://download.velodb.io/apache-doris-4.1.1-bin-x64.tar.gz)
- Binary(x64-noavx2):
 - [apache-doris-4.1.1-bin-x64-noavx2.tar.gz](https://download.velodb.io/apache-doris-4.1.1-bin-x64-noavx2.tar.gz)
- Binary(arm64):
 - [apache-doris-4.1.1-bin-arm64.tar.gz](https://download.velodb.io/apache-doris-4.1.1-bin-arm64.tar.gz)
"#;

#[test]
fn parses_binary_urls() {
    let p = parse_release_body(SAMPLE_BODY);
    assert_eq!(p.binaries.len(), 3);
    assert!(p.binaries.get("x64").unwrap().contains("4.1.1-bin-x64"));
}

#[test]
fn normalizes_tag() {
    assert_eq!(normalize_version("4.0.4-release"), "4.0.4");
    assert_eq!(normalize_version("v4.1.1"), "4.1.1");
}

use doris_cli::release::{
    arch_from_line, cache_action, download_path, cached_package_path_in, download_complete, ensure_local_package,
    extract_markdown_url, find_release, package_incomplete_message, package_size_check,
    packages_dir_in, parse_size_sidecar, parse_version_parts, pick_latest, pick_stable,
    releases_from_listing, releases_url, resolve_binary_url, size_sidecar_path,
    versions_table_rows, BinaryArch, CacheAction, DorisRelease, GhRelease,
};
use doris_cli::strmap::StrMap;

fn release(tag: &str, version: &str, archs: &[&str]) -> DorisRelease {
    let mut binaries = StrMap::new();
    for a in archs {
        binaries.insert(a.to_string(), format!("https://x/apache-doris-{version}-bin-{a}.tar.gz"));
    }
    DorisRelease {
        tag: tag.to_string(),
        version: version.to_string(),
        published_at: "2025-03-01T10:00:00Z".to_string(),
        binaries,
    }
}

fn chars(s: &str) -> Vec<char> {
    s.chars().collect()
}

#[test]
fn arch_names_and_slugs() {
    assert_eq!(BinaryArch::parse(" AMD64 "), Some(BinaryArch::X64));
    assert_eq!(BinaryArch::parse("x86_64"), Some(BinaryArch::X64));
    assert_eq!(BinaryArch::parse("noavx2"), Some(BinaryArch::X64NoAvx2));
    assert_eq!(BinaryArch::parse("aarch64"), Some(BinaryArch::Arm64));
    assert_eq!(BinaryArch::parse("riscv"), None);
    for a in [BinaryArch::X64, BinaryArch::X64NoAvx2, BinaryArch::Arm64] {
        assert_eq!(BinaryArch::parse(a.slug()), Some(a));
        assert_eq!(BinaryArch::parse(&format!("  {}  ", a.slug().to_ascii_uppercase())), Some(a));
    }
    assert_eq!(BinaryArch::detect_local("aarch64"), BinaryArch::Arm64);
    assert_eq!(BinaryArch::detect_local("arm64"), BinaryArch::Arm64);
    assert_eq!(BinaryArch::detect_local("x86_64"), BinaryArch::X64);
    assert_eq!(BinaryArch::detect_local("riscv64"), BinaryArch::X64);
}

#[test]
fn markdown_links_and_line_archs() {
    assert_eq!(
        extract_markdown_url(&chars(" - [pkg](https://h/a-bin-x64.tar.gz) tail")).as_deref(),
        Some("https://h/a-bin-x64.tar.gz")
    );
    assert_eq!(extract_markdown_url(&chars("no link here")), None);
    assert_eq!(extract_markdown_url(&chars("[x](http://unterminated")), None);
    assert_eq!(arch_from_line(&chars("binary(arm64)"), &chars("u")).as_deref(), Some("arm64"));
    assert_eq!(arch_from_line(&chars("-"), &chars("a-bin-x64-noavx2.tar.gz")).as_deref(), Some("x64-noavx2"));
    assert_eq!(arch_from_line(&chars("-"), &chars("a-bin-x64.tar.gz")).as_deref(), Some("x64"));
    assert_eq!(arch_from_line(&chars("-"), &chars("a.tar.gz")), None);
}

#[test]
fn version_parts_and_tags() {
    assert_eq!(parse_version_parts("4.0.12"), Some((4, 0, 12)));
    assert_eq!(parse_version_parts("4.0"), None);
    assert_eq!(parse_version_parts("4.x.1"), None);
    assert_eq!(normalize_version("4.0.4-rc01"), "4.0.4-rc01");
    assert_eq!(normalize_version("2.1.9"), "2.1.9");
    for tag in ["v4.0.4-release", "vv4.1.1", "4.0.4-rc01", "x-", "v"] {
        let n = normalize_version(tag);
        assert_eq!(normalize_version(&n), n);
        assert!(tag.trim_start_matches('v').starts_with(n.as_str()));
        assert!(!n.starts_with('v'));
    }
}

#[test]
fn picks_latest_stable_and_by_version() {
    let rs = vec![
        release("4.1.1", "4.1.1", &["x64"]),
        release("4.0.9", "4.0.9", &["x64"]),
        release("4.0.10-release", "4.0.10", &["x64", "arm64"]),
        release("v3.1.0", "3.1.0", &[]),
    ];
    assert_eq!(pick_latest(&rs).unwrap().version, "4.1.1");
    assert!(pick_latest(&[]).is_none());
    assert_eq!(pick_stable(&rs).unwrap().version, "4.0.10");
    assert!(pick_stable(&rs[..1]).is_none());
    assert_eq!(find_release(&rs, "v4.0.9").unwrap().tag, "4.0.9");
    assert_eq!(find_release(&rs, "3.1.0").unwrap().tag, "v3.1.0");
    assert_eq!(find_release(&rs, "4.0.10-release").unwrap().version, "4.0.10");
    assert!(find_release(&rs, "9.9.9").is_none());
}

#[test]
fn binary_url_or_what_is_available() {
    let r = release("4.0.10", "4.0.10", &["x64", "arm64"]);
    assert_eq!(resolve_binary_url(&r, BinaryArch::Arm64).unwrap(), "https://x/apache-doris-4.0.10-bin-arm64.tar.gz");
    assert_eq!(
        resolve_binary_url(&r, BinaryArch::X64NoAvx2).unwrap_err(),
        "no x64-noavx2 binary for Doris 4.0.10; available: arm64, x64"
    );
}

#[test]
fn package_cache_paths() {
    assert_eq!(packages_dir_in("/home/u"), "/home/u/.doris-cli/packages");
    assert_eq!(
        cached_package_path_in(Some("/home/u"), "4.1.1", BinaryArch::X64),
        "/home/u/.doris-cli/packages/apache-doris-4.1.1-bin-x64.tar.gz"
    );
    assert_eq!(
        cached_package_path_in(None, "4.1.1", BinaryArch::Arm64),
        "/tmp/apache-doris-4.1.1-bin-arm64.tar.gz"
    );
    assert_eq!(
        download_path(Some("/data/pkgs"), "4.1.1", BinaryArch::X64NoAvx2),
        "/data/pkgs/apache-doris-4.1.1-bin-x64-noavx2.tar.gz"
    );
    assert!(download_path(None, "4.1.1", BinaryArch::X64).ends_with("apache-doris-4.1.1-bin-x64.tar.gz"));
    assert_eq!(size_sidecar_path("/p/a.tar.gz"), "/p/a.tar.gz.size");
    assert_eq!(parse_size_sidecar(" 1024\n"), Some(1024));
    assert_eq!(parse_size_sidecar("big"), None);
}

#[test]
fn package_checks_and_messages() {
    assert_eq!(package_size_check("/p", 0, None).unwrap_err(), "package file is empty: /p");
    assert_eq!(
        package_size_check("/p", 10, Some(12)).unwrap_err(),
        "package size mismatch: got 10 bytes, expected 12 bytes"
    );
    assert!(package_size_check("/p", 12, Some(12)).is_ok());
    assert!(package_size_check("/p", 12, None).is_ok());
    assert_eq!(
        package_incomplete_message("/p", "bad", Some("4.1.1"), Some(BinaryArch::Arm64)),
        "安装包不完整或已损坏: /p\n  原因: bad\n  请删除后重新下载:\n    dcli deploy download --release 4.1.1 --arch arm64"
    );
    assert_eq!(
        ensure_local_package("/p", Err("gzip failed".to_string())).unwrap_err(),
        "安装包不完整或已损坏: /p\n  原因: gzip failed\n  请删除后重新下载:\n    dcli deploy download --release <version> --arch x64"
    );
    assert!(ensure_local_package("/p", Ok(())).is_ok());
}

#[test]
fn cache_decisions() {
    assert_eq!(cache_action(false, false, Some(5), None), CacheAction::Fresh);
    assert_eq!(cache_action(true, false, Some(5), Some(5)), CacheAction::ReplaceCorrupt);
    assert_eq!(cache_action(true, true, Some(5), Some(5)), CacheAction::Reuse);
    assert_eq!(cache_action(true, true, None, Some(5)), CacheAction::Reuse);
    assert_eq!(cache_action(true, true, Some(5), None), CacheAction::Reuse);
    assert_eq!(cache_action(true, true, Some(7), Some(5)), CacheAction::ReplaceMismatch { local: 5, remote: 7 });
}

#[test]
fn download_completeness() {
    assert_eq!(download_complete(10, None), Ok(None));
    assert_eq!(download_complete(10, Some(10)), Ok(Some(10)));
    assert_eq!(download_complete(9, Some(10)).unwrap_err(), "download incomplete: got 9 bytes, expected 10");
}

#[test]
fn release_listing_and_table() {
    assert_eq!(releases_url(30), "https://api.github.com/repos/apache/doris/releases?per_page=30");
    assert_eq!(releases_url(500), "https://api.github.com/repos/apache/doris/releases?per_page=100");
    let gh = |tag: &str, pre: bool, draft: bool, body: Option<&str>| GhRelease {
        tag_name: tag.to_string(),
        published_at: "2025-04-02T08:00:00Z".to_string(),
        prerelease: pre,
        draft,
        body: body.map(|b| b.to_string()),
    };
    let listing = vec![
        gh("4.1.1-release", false, false, Some(SAMPLE_BODY)),
        gh("4.2.0-rc01", true, false, None),
        gh("4.0.5", false, true, None),
        gh("4.0.4", false, false, None),
    ];
    let rs = releases_from_listing(&listing);
    assert_eq!(rs.len(), 2);
    assert_eq!(rs[0].tag, "4.1.1-release");
    assert_eq!(rs[0].version, "4.1.1");
    assert_eq!(rs[0].binaries.len(), 3);
    assert_eq!(rs[1].version, "4.0.4");
    assert_eq!(rs[1].binaries.len(), 0);
    let rows = versions_table_rows(&rs, 5);
    assert_eq!(rows.len(), 2);
    assert_eq!(rows[0], vec!["4.1.1", "4.1.1-release", "2025-04-02", "arm64, x64, x64-noavx2", "latest"]);
    assert_eq!(rows[1], vec!["4.0.4", "4.0.4", "2025-04-02", "", "stable"]);
    assert_eq!(versions_table_rows(&rs, 1).len(), 1);
}
