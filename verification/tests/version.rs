//! What build of the tool this is.

use exifmeta::version::{get_version, title, BuildInfo, VersionInfo, APP_NAME};

fn build() -> BuildInfo {
    BuildInfo {
        git_commit: "230027c9dc06".to_string(),
        git_branch: "v2".to_string(),
        git_dirty: String::new(),
        build_date: "1770000000".to_string(),
        version_prerelease: String::new(),
        version_metadata: String::new(),
    }
}

fn version_info(
    version: &str,
    prerelease: &str,
    metadata: &str,
    branch: &str,
    revision: &str,
) -> VersionInfo {
    VersionInfo {
        revision: revision.to_string(),
        branch: branch.to_string(),
        build_date: String::new(),
        app_name: APP_NAME.to_string(),
        version: version.to_string(),
        version_prerelease: prerelease.to_string(),
        version_metadata: metadata.to_string(),
    }
}

#[test]
fn formats_version_number() {
    assert_eq!(
        version_info("1.2.3", "", "", "", "").version_number(),
        "1.2.3"
    );
    assert_eq!(
        version_info("1.2.3", "dev", "", "", "").version_number(),
        "1.2.3-dev"
    );
    assert_eq!(
        version_info("1.2.3", "", "abc123", "", "").version_number(),
        "1.2.3+abc123"
    );
    assert_eq!(
        version_info("1.2.3", "dev", "abc123", "", "").version_number(),
        "1.2.3-dev+abc123"
    );
    assert_eq!(
        version_info("unknown", "unknown", "", "", "").version_number(),
        "Version unknown"
    );
}

#[test]
fn formats_full_version_number_without_revision() {
    assert_eq!(
        version_info("1.2.3", "", "", "", "").full_version_number(false),
        "exifmeta [Version 1.2.3]"
    );
}

#[test]
fn formats_full_version_number_with_revision() {
    assert_eq!(
        version_info("1.2.3", "", "", "", "abc123").full_version_number(true),
        "exifmeta [Version 1.2.3 (abc123)]"
    );
    assert_eq!(
        version_info("1.2.3", "", "", "feature", "abc123").full_version_number(true),
        "exifmeta [Version 1.2.3 (feature/abc123)]"
    );
    assert_eq!(
        version_info("1.2.3", "", "", "master", "abc123").full_version_number(true),
        "exifmeta [Version 1.2.3 (abc123)]"
    );
    assert_eq!(
        version_info("1.2.3", "", "", "HEAD", "abc123").full_version_number(true),
        "exifmeta [Version 1.2.3 (abc123)]"
    );
}

#[test]
fn formats_development_version_with_branch_and_short_revision() {
    assert_eq!(
        version_info("0.1.0", "", "", "v2", "230027c9dc06").full_version_number(true),
        "exifmeta [Version 0.1.0 (v2/230027c9dc06)]"
    );
}

#[test]
fn formats_dirty_version() {
    assert_eq!(
        version_info("0.1.0", "dirty", "", "v2", "230027c9dc06").full_version_number(true),
        "exifmeta [Version 0.1.0-dirty (v2/230027c9dc06)]"
    );
    assert_eq!(
        version_info("0.1.0", "dirty", "", "master", "230027c9dc06").full_version_number(true),
        "exifmeta [Version 0.1.0-dirty (230027c9dc06)]"
    );
}

#[test]
fn detects_when_revision_should_be_included() {
    assert!(!version_info("0.1.0", "", "", "master", "230027c9dc06").should_include_revision());
    assert!(
        version_info("0.1.0", "dirty", "", "master", "230027c9dc06").should_include_revision()
    );
    assert!(version_info("0.1.0", "", "", "v2", "230027c9dc06").should_include_revision());
    assert!(version_info("0.1.0", "", "", "HEAD", "230027c9dc06").should_include_revision());
}

#[test]
fn formats_full_unknown_version() {
    assert_eq!(
        version_info("unknown", "unknown", "", "", "").full_version_number(true),
        "exifmeta [Version unknown]"
    );
}

#[test]
fn gets_package_version_and_app_identity() {
    let version = get_version(&build());

    assert_eq!(version.app_name, APP_NAME);
    assert_eq!(version.version, "0.1.0");
}

#[test]
fn records_what_the_build_knows() {
    let version = get_version(&build());
    assert_eq!(version.revision, "230027c9dc06");
    assert_eq!(version.branch, "v2");
    assert_eq!(version.build_date, "1770000000");
    assert_eq!(version.version_prerelease, "");
}

#[test]
fn changed_trees_are_dirty_unless_labelled() {
    let mut changed = build();
    changed.git_dirty = "true".to_string();
    assert_eq!(get_version(&changed).version_prerelease, "dirty");
    changed.version_prerelease = "rc1".to_string();
    assert_eq!(get_version(&changed).version_prerelease, "rc1");
}

#[test]
fn titles_are_two_lines() {
    assert_eq!(
        title(&get_version(&build())),
        "exifmeta [Version 0.1.0 (v2/230027c9dc06)]\n(c) MerrittCorp. All rights reserved.\n"
    );
    let mut release = build();
    release.git_branch = "master".to_string();
    assert_eq!(
        title(&get_version(&release)),
        "exifmeta [Version 0.1.0]\n(c) MerrittCorp. All rights reserved.\n"
    );
}
