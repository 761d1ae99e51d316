//! What build of the tool this is, and how it introduces itself.

use crate::text::same;
use vstd::prelude::*;

verus! {

pub const APP_NAME: &'static str = "exifmeta";

pub const BINARY_FILENAME: &'static str = "exifmeta";

pub const PACKAGE_VERSION: &'static str = "0.1.0";

const UNKNOWN: &'static str = "unknown";

/// What the build recorded about itself; empty where it recorded nothing.
#[derive(Debug, Clone, PartialEq, Eq)]
pub struct BuildInfo {
    pub git_commit: String,
    pub git_branch: String,
    pub git_dirty: String,
    pub build_date: String,
    pub version_prerelease: String,
    pub version_metadata: String,
}

#[derive(Debug, Clone, PartialEq, Eq)]
pub struct VersionInfo {
    pub revision: String,
    pub branch: String,
    pub build_date: String,
    pub app_name: String,
    pub version: String,
    pub version_prerelease: String,
    pub version_metadata: String,
}

/// The prerelease label: the one that the build was given, or else `dirty` for
/// a build from a working tree with changes.
pub open spec fn prerelease_label(configured: Seq<char>, git_dirty: Seq<char>) -> Seq<char> {
    if configured.len() == 0 && git_dirty == "true"@ {
        "dirty"@
    } else {
        configured
    }
}

/// The version of a build.
pub fn get_version(build: &BuildInfo) -> (r: VersionInfo)
    ensures
        r.revision@ == build.git_commit@,
        r.branch@ == build.git_branch@,
        r.build_date@ == build.build_date@,
        r.app_name@ == APP_NAME@,
        r.version@ == PACKAGE_VERSION@,
        r.version_prerelease@ == prerelease_label(build.version_prerelease@, build.git_dirty@),
        r.version_metadata@ == build.version_metadata@,
{
    let version_prerelease = if build.version_prerelease.as_str().is_empty() && same(
        build.git_dirty.as_str(),
        "true",
    ) {
        "dirty".to_owned()
    } else {
        build.version_prerelease.clone()
    };
    VersionInfo {
        revision: build.git_commit.clone(),
        branch: build.git_branch.clone(),
        build_date: build.build_date.clone(),
        app_name: APP_NAME.to_owned(),
        version: PACKAGE_VERSION.to_owned(),
        version_prerelease,
        version_metadata: build.version_metadata.clone(),
    }
}

impl VersionInfo {
    /// Whether nothing is known of the version.
    pub open spec fn is_unknown(&self) -> bool {
        self.version@ == "unknown"@ && self.version_prerelease@ == "unknown"@
    }

    pub open spec fn number(&self) -> Seq<char> {
        if self.is_unknown() {
            "Version unknown"@
        } else {
            self.version@ + (if self.version_prerelease@.len() > 0 {
                "-"@ + self.version_prerelease@
            } else {
                Seq::empty()
            }) + (if self.version_metadata@.len() > 0 {
                "+"@ + self.version_metadata@
            } else {
                Seq::empty()
            })
        }
    }

    /// The revision as it is shown: behind its branch, unless that is the main
    /// one or none is checked out.
    pub open spec fn revision_label(&self) -> Seq<char> {
        if self.branch@.len() > 0 && self.branch@ != "master"@ && self.branch@ != "HEAD"@ {
            self.branch@ + "/"@ + self.revision@
        } else {
            self.revision@
        }
    }

    pub open spec fn full_number(&self, include_revision: bool) -> Seq<char> {
        if self.is_unknown() {
            self.app_name@ + " [Version unknown]"@
        } else if include_revision && self.revision@.len() > 0 {
            self.app_name@ + " [Version "@ + self.number() + " ("@ + self.revision_label() + ")"@
                + "]"@
        } else {
            self.app_name@ + " [Version "@ + self.number() + "]"@
        }
    }

    pub open spec fn includes_revision(&self) -> bool {
        self.branch@ != "master"@ || self.version_prerelease@.len() > 0
            || self.version_metadata@.len() > 0
    }

    fn unknown(&self) -> (r: bool)
        ensures
            r == self.is_unknown(),
    {
        same(self.version.as_str(), UNKNOWN) && same(self.version_prerelease.as_str(), UNKNOWN)
    }

    /// The bare version.
    pub fn version_number(&self) -> (r: String)
        ensures
            r@ == self.number(),
    {
        if self.unknown() {
            return "Version unknown".to_owned();
        }
        let mut version = self.version.clone();
        if !self.version_prerelease.as_str().is_empty() {
            version.push_str("-");
            version.push_str(self.version_prerelease.as_str());
        }
        if !self.version_metadata.as_str().is_empty() {
            version.push_str("+");
            version.push_str(self.version_metadata.as_str());
        }
        proof {
            assert(version@ =~= self.number());
        }
        version
    }

    /// The version with its labels.
    pub fn full_version_number(&self, include_revision: bool) -> (r: String)
        ensures
            r@ == self.full_number(include_revision),
    {
        let mut version = self.app_name.clone();
        if self.unknown() {
            version.push_str(" [Version unknown]");
            return version;
        }
        version.push_str(" [Version ");
        version.push_str(self.version_number().as_str());
        if include_revision && !self.revision.as_str().is_empty() {
            version.push_str(" (");
            if !self.branch.as_str().is_empty() && !same(self.branch.as_str(), "master") && !same(
                self.branch.as_str(),
                "HEAD",
            ) {
                version.push_str(self.branch.as_str());
                version.push_str("/");
            }
            version.push_str(self.revision.as_str());
            version.push_str(")");
        }
        version.push_str("]");
        proof {
            assert(version@ =~= self.full_number(include_revision));
        }
        version
    }

    /// Whether the revision is shown.
    pub fn should_include_revision(&self) -> (r: bool)
        ensures
            r == self.includes_revision(),
    {
        !(same(self.branch.as_str(), "master") && self.version_prerelease.as_str().is_empty()
            && self.version_metadata.as_str().is_empty())
    }
}

/// The two lines that a command prints first.
pub open spec fn title_text(version: VersionInfo) -> Seq<char> {
    version.full_number(version.includes_revision())
        + "\n(c) MerrittCorp. All rights reserved.\n"@
}

/// What the program opens with.
pub fn title(version: &VersionInfo) -> (r: String)
    ensures
        r@ == title_text(*version),
{
    let mut text = version.full_version_number(version.should_include_revision());
    text.push_str("\n(c) MerrittCorp. All rights reserved.\n");
    text
}

/// A build from a clean tree on the main branch without labels shows its bare
/// version, whatever its revision.
pub proof fn law_release_title_hides_revision(version: VersionInfo)
    requires
        version.branch@ == "master"@,
        version.version_prerelease@.len() == 0,
        version.version_metadata@.len() == 0,
    ensures
        version.full_number(version.includes_revision()) == version.app_name@ + " [Version "@
            + version.version@ + "]"@,
{
    reveal_strlit("unknown");
    assert(version.number() =~= version.version@);
}

} // verus!
