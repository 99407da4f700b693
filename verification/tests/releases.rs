use vvm_lib::error::VyperVmError;
use vvm_lib::platform::Platform;
use vvm_lib::releases::{
    download_url_text, escape_plus, resolve_artifact, url_or_error, VyperAsset, VyperReleases,
    DOWNLOAD_PREFIX, GITHUB_RELEASES,
};
use vvm_lib::version::Version;
use vvm_lib::{all_releases, all_versions, artifact_url, Releases};

fn release(tag: &str, assets: &[&str]) -> VyperReleases {
    VyperReleases {
        tag_name: tag.to_string(),
        assets: assets
            .iter()
            .map(|name| VyperAsset {
                name: name.to_string(),
                browser_download_url: format!("https://example.invalid/{}", name),
            })
            .collect(),
    }
}

fn listing() -> Vec<VyperReleases> {
    vec![
        release(
            "v0.3.3",
            &[
                "vyper.0.3.3+commit.48e326f0.darwin",
                "vyper.0.3.3+commit.48e326f0.linux",
                "vyper.0.3.3+commit.48e326f0.windows.exe",
            ],
        ),
        release(
            "v0.3.10",
            &[
                "vyper.0.3.10+commit.91361694.darwin",
                "vyper.0.3.10+commit.91361694.linux",
            ],
        ),
        release("v0.2.16", &["vyper.0.2.16+commit.59e1bdd.linux"]),
        release("v0.1.0-beta.17", &[]),
    ]
}

fn texts(versions: &[Version]) -> Vec<String> {
    versions.iter().map(|v| v.to_string()).collect()
}

#[test]
fn test_artifact_url() {
    let version = Version::new(0, 3, 3);
    let version_str = version.to_string();
    let artifact = &format!("vyper.{}%2Bcommit.48e326f0.darwin", version_str);
    assert_eq!(
        artifact_url(Platform::Linux, &version, artifact).unwrap(),
        url::Url::parse(&format!(
            "https://github.com/vyperlang/vyper/releases/download/v{}/{}",
            version_str, artifact
        ))
        .unwrap()
        .to_string(),
    )
}

#[test]
fn artifact_of_macos_has_its_plus_sign_escaped_in_the_url() {
    let latest = Version::parse("0.3.3").unwrap();
    let artifacts = all_releases(Platform::MacOs, &listing()).unwrap();
    let artifact = artifacts.get_artifact(&latest).unwrap();
    assert_eq!(artifact, "vyper.0.3.3+commit.48e326f0.darwin");
    assert_eq!(
        artifact_url(Platform::MacOs, &latest, artifact).unwrap(),
        "https://github.com/vyperlang/vyper/releases/download/v0.3.3/vyper.0.3.3%2Bcommit.48e326f0.darwin"
    );
}

#[test]
fn download_url_text_is_prefix_version_and_artifact() {
    assert_eq!(
        DOWNLOAD_PREFIX,
        "https://github.com/vyperlang/vyper/releases/download/v"
    );
    assert_eq!(
        download_url_text(&Version::new(0, 3, 10), "vyper.linux"),
        "https://github.com/vyperlang/vyper/releases/download/v0.3.10/vyper.linux"
    );
    assert_eq!(
        download_url_text(&Version::parse("1.0.0-rc.1").unwrap(), "a+b+c"),
        "https://github.com/vyperlang/vyper/releases/download/v1.0.0-rc.1/a%2Bb%2Bc"
    );
}

#[test]
fn escape_plus_changes_plus_signs_only() {
    assert_eq!(escape_plus(""), "");
    assert_eq!(escape_plus("+"), "%2B");
    assert_eq!(escape_plus("a+b"), "a%2Bb");
    assert_eq!(escape_plus("++a"), "%2B%2Ba");
    assert_eq!(escape_plus("a%2Bb c"), "a%2Bb c");
}

#[test]
fn artifact_url_is_what_the_url_parser_writes_out() {
    let version = Version::new(1, 0, 0);
    assert_eq!(
        artifact_url(Platform::Linux, &version, "a b").unwrap(),
        "https://github.com/vyperlang/vyper/releases/download/v1.0.0/a%20b"
    );
    assert_eq!(
        artifact_url(Platform::Linux, &version, "x/../y").unwrap(),
        "https://github.com/vyperlang/vyper/releases/download/v1.0.0/y"
    );
}

#[test]
fn url_or_error_hands_on_the_url_or_the_error() {
    assert_eq!(
        url_or_error(Ok("https://example.invalid/".to_string())).unwrap(),
        "https://example.invalid/"
    );
    let error = url::Url::parse("no url").unwrap_err();
    assert!(matches!(
        url_or_error(Err(error)),
        Err(VyperVmError::UrlError(e)) if e == error
    ));
}

#[test]
fn all_releases_keeps_the_assets_of_the_platform() {
    let linux = all_releases(Platform::Linux, &listing()).unwrap();
    assert_eq!(linux.builds.len(), 3);
    assert_eq!(linux.releases.len(), 3);
    assert_eq!(
        linux.get_artifact(&Version::new(0, 3, 10)).unwrap(),
        "vyper.0.3.10+commit.91361694.linux"
    );
    assert_eq!(
        linux.get_artifact(&Version::new(0, 2, 16)).unwrap(),
        "vyper.0.2.16+commit.59e1bdd.linux"
    );
    assert!(linux.get_artifact(&Version::new(0, 1, 0)).is_none());

    let windows = all_releases(Platform::Windows, &listing()).unwrap();
    assert_eq!(windows.builds.len(), 1);
    assert_eq!(
        windows.get_artifact(&Version::new(0, 3, 3)).unwrap(),
        "vyper.0.3.3+commit.48e326f0.windows.exe"
    );
    assert!(windows.get_artifact(&Version::new(0, 3, 10)).is_none());

    let none = all_releases(Platform::Unsupported, &listing()).unwrap();
    assert!(none.builds.is_empty());
    assert!(none.releases.is_empty());
}

#[test]
fn all_releases_keeps_the_last_of_several_assets_of_one_version() {
    let several = vec![
        release("v1.0.0", &["first.linux", "other.darwin", "second.linux"]),
        release("v1.0.0", &["third.linux.tar"]),
    ];
    let catalog = all_releases(Platform::Linux, &several).unwrap();
    assert_eq!(catalog.builds.len(), 3);
    assert_eq!(catalog.releases.len(), 1);
    assert_eq!(
        catalog.get_artifact(&Version::new(1, 0, 0)).unwrap(),
        "third.linux.tar"
    );
    for build in &catalog.builds {
        assert_eq!(build.version.to_string(), "1.0.0");
        assert!(build.sha256.is_empty());
    }
}

#[test]
fn all_releases_reads_a_tag_only_where_an_asset_matches() {
    let odd = vec![
        release("nightly", &["vyper.nightly.darwin"]),
        release("v0.3.3", &["vyper.0.3.3.linux"]),
    ];
    assert!(all_releases(Platform::Linux, &odd).is_ok());
    assert!(matches!(
        all_releases(Platform::MacOs, &odd),
        Err(VyperVmError::SemverError(_))
    ));
    assert!(matches!(
        all_versions(Platform::MacOs, &odd),
        Err(VyperVmError::SemverError(_))
    ));
}

#[test]
fn all_releases_takes_every_leading_v_off_a_tag() {
    let odd = vec![release("vv0.3.3", &["vyper.linux"])];
    let catalog = all_releases(Platform::Linux, &odd).unwrap();
    assert!(catalog.get_artifact(&Version::new(0, 3, 3)).is_some());
}

#[test]
fn all_versions_are_sorted_and_distinct() {
    let versions = all_versions(Platform::Linux, &listing()).unwrap();
    assert_eq!(texts(&versions), ["0.2.16", "0.3.3", "0.3.10"]);
    let several = vec![
        release("v1.0.0", &["a.linux", "b.linux"]),
        release("v0.9.0", &["c.linux"]),
    ];
    assert_eq!(
        texts(&all_versions(Platform::Linux, &several).unwrap()),
        ["0.9.0", "1.0.0"]
    );
    assert!(all_versions(Platform::Linux, &Vec::new()).unwrap().is_empty());
}

#[test]
fn into_versions_is_sorted() {
    let catalog = all_releases(Platform::MacOs, &listing()).unwrap();
    assert_eq!(texts(&catalog.into_versions()), ["0.3.3", "0.3.10"]);
    assert!(Releases::new().into_versions().is_empty());
}

#[test]
fn insert_replaces_the_name_of_a_version() {
    let mut catalog = Releases::new();
    catalog.insert(Version::new(1, 0, 0), "one".to_string());
    catalog.insert(Version::new(2, 0, 0), "two".to_string());
    catalog.insert(Version::new(1, 0, 0), "uno".to_string());
    assert_eq!(catalog.releases.len(), 2);
    assert_eq!(catalog.get_artifact(&Version::new(1, 0, 0)).unwrap(), "uno");
    assert_eq!(catalog.get_artifact(&Version::new(2, 0, 0)).unwrap(), "two");
    assert!(catalog.builds.is_empty());
}

#[test]
fn get_checksum_is_that_of_the_first_build_of_the_version() {
    let mut catalog = all_releases(Platform::Linux, &listing()).unwrap();
    assert_eq!(
        catalog.get_checksum(&Version::new(0, 3, 3)),
        Some(Vec::new())
    );
    assert_eq!(catalog.get_checksum(&Version::new(9, 9, 9)), None);
    catalog.builds[1].sha256 = vec![1, 2, 3];
    assert_eq!(
        catalog.get_checksum(&Version::new(0, 3, 10)),
        Some(vec![1, 2, 3])
    );
}

#[test]
fn resolve_artifact_names_the_artifact_or_fails_with_unknown_version() {
    assert_eq!(
        resolve_artifact(Platform::Linux, &Version::new(0, 3, 3), &listing()).unwrap(),
        "vyper.0.3.3+commit.48e326f0.linux"
    );
    assert!(matches!(
        resolve_artifact(Platform::Linux, &Version::new(0, 3, 4), &listing()),
        Err(VyperVmError::UnknownVersion)
    ));
    assert!(matches!(
        resolve_artifact(Platform::Windows, &Version::new(0, 3, 10), &listing()),
        Err(VyperVmError::UnknownVersion)
    ));
}

#[test]
fn the_list_of_releases_comes_from_github() {
    assert_eq!(
        GITHUB_RELEASES,
        "https://api.github.com/repos/vyperlang/vyper/releases?per_page=100"
    );
}

#[test]
fn a_catalog_with_two_names_for_one_version_is_not_well_formed() {
    let mut catalog = all_releases(Platform::Linux, &listing()).unwrap();
    assert!(catalog.is_well_formed());
    assert!(Releases::new().is_well_formed());
    catalog.releases.push(vvm_lib::releases::Artifact {
        version: Version::new(0, 3, 3),
        name: "other".to_string(),
    });
    assert!(!catalog.is_well_formed());
}
