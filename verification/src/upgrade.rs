//! Self-upgrade sub-pipeline: the component registry model, the deterministic
//! name-mapping rules, the build-stage step relation, validation verdicts and
//! the evaluation verdict.

use vstd::prelude::*;
use crate::text::{str_eq, str_starts_with, str_concat};

verus! {

/// One component entry of the registry document, as plain values.
#[derive(Debug, Clone)]
pub struct RepoEntry {
    pub github: String,
    pub local_path: String,
    pub installed_version: String,
    pub binary_path: String,
    pub repo_type: String,
}

/// The registry document: component names with their entries, in document
/// order. It is re-read for every self-upgrade stage call; nothing here is
/// cached.
#[derive(Debug)]
pub struct ReposJson {
    pub version: String,
    pub repos: Vec<(String, RepoEntry)>,
}

/// Whether some entry of `repos` is named `component`.
pub open spec fn spec_has_repo(repos: Seq<(String, RepoEntry)>, component: Seq<char>) -> bool {
    exists|i: int| 0 <= i < repos.len() && repos[i].0@ == component
}

impl ReposJson {
    /// Resolve a component name in the registry: the first entry with that
    /// name, or `None` — reported as a not-found build failure — when the
    /// component is absent.
    pub fn find_repo(&self, component: &str) -> (r: Option<&RepoEntry>)
        ensures
            (r is Some) == spec_has_repo(self.repos@, component@),
            r matches Some(e) ==> exists|i: int|
                0 <= i < self.repos@.len() && self.repos@[i].0@ == component@ && *e
                    == self.repos@[i].1,
    {
        let mut i: usize = 0;
        while i < self.repos.len()
            invariant
                0 <= i <= self.repos@.len(),
                forall|j: int| 0 <= j < i ==> self.repos@[j].0@ != component@,
            decreases self.repos@.len() - i,
        {
            if str_eq(self.repos[i].0.as_str(), component) {
                return Some(&self.repos[i].1);
            }
            i += 1;
        }
        None
    }
}

/// Outcome of validating an extracted release archive.
///
/// `all_passed` holds exactly when the binary is present, the binary is
/// executable, and the behavior file (`soul.md`) is present. The skills
/// directory and the smoke test are informative only and never affect
/// `all_passed`.
#[derive(Debug)]
pub struct ValidationResult {
    pub binary_exists: bool,
    pub binary_executable: bool,
    pub soul_md_exists: bool,
    pub skills_dir_exists: bool,
    pub health_check_passed: bool,
    pub all_passed: bool,
}

impl ValidationResult {
    /// The required checks: binary present, binary executable, behavior file present.
    pub open spec fn required_checks(self) -> bool {
        self.binary_exists && self.binary_executable && self.soul_md_exists
    }

    /// Assemble a validation verdict from the individual filesystem checks and
    /// the smoke test. A binary that spawned counts as a smoke pass whatever
    /// its exit status; a binary that could not spawn at all is a smoke fail.
    pub fn from_checks(
        binary_exists: bool,
        binary_executable: bool,
        soul_md_exists: bool,
        skills_dir_exists: bool,
        smoke_spawned: bool,
    ) -> (r: ValidationResult)
        ensures
            r.binary_exists == binary_exists,
            r.binary_executable == binary_executable,
            r.soul_md_exists == soul_md_exists,
            r.skills_dir_exists == skills_dir_exists,
            r.health_check_passed == smoke_spawned,
            r.all_passed == (binary_exists && binary_executable && soul_md_exists),
            r.all_passed == r.required_checks(),
    {
        ValidationResult {
            binary_exists,
            binary_executable,
            soul_md_exists,
            skills_dir_exists,
            health_check_passed: smoke_spawned,
            all_passed: binary_exists && binary_executable && soul_md_exists,
        }
    }
}

/// The deterministic name-mapping rule for runtime binaries: a component
/// carrying the kernel-agent role prefix is rewritten to the runtime binary
/// prefix; any other name is its own binary name.
pub open spec fn spec_runtime_binary_name(component: Seq<char>) -> Seq<char> {
    if "evo-kernel-agent-"@.is_prefix_of(component) {
        "evo-agent-"@ + component.skip("evo-kernel-agent-"@.len() as int)
    } else {
        component
    }
}

/// Rewrite a role-prefixed component identifier to its runtime binary name.
pub fn runtime_binary_name(component: &str) -> (r: String)
    ensures
        r@ == spec_runtime_binary_name(component@),
{
    proof {
        reveal_strlit("evo-kernel-agent-");
        reveal_strlit("evo-agent-");
    }
    if str_starts_with(component, "evo-kernel-agent-") {
        let n = component.unicode_len();
        let rest = component.substring_char(17, n);
        proof {
            assert(rest@ =~= component@.skip(17));
        }
        str_concat("evo-agent-", rest)
    } else {
        component.to_owned()
    }
}

/// The binary name the build stage looks for: the runtime binary name for a
/// kernel-agent repository, the component name itself otherwise.
pub open spec fn spec_binary_name_for(component: Seq<char>, repo_type: Seq<char>) -> Seq<char> {
    if repo_type == "kernel-agent"@ {
        spec_runtime_binary_name(component)
    } else {
        component
    }
}

/// Determine the built binary's name from the component and its repository
/// kind.
pub fn binary_name_for(component: &str, repo_type: &str) -> (r: String)
    ensures
        r@ == spec_binary_name_for(component@, repo_type@),
{
    if str_eq(repo_type, "kernel-agent") {
        runtime_binary_name(component)
    } else {
        component.to_owned()
    }
}

/// The platform target triple for an operating system and architecture pair.
pub open spec fn spec_detect_target(os: Seq<char>, arch: Seq<char>) -> Seq<char> {
    if os == "linux"@ && arch == "x86_64"@ {
        "x86_64-unknown-linux-gnu"@
    } else if os == "linux"@ && arch == "aarch64"@ {
        "aarch64-unknown-linux-gnu"@
    } else if os == "macos"@ && arch == "x86_64"@ {
        "x86_64-apple-darwin"@
    } else if os == "macos"@ && arch == "aarch64"@ {
        "aarch64-apple-darwin"@
    } else if os == "windows"@ && arch == "x86_64"@ {
        "x86_64-pc-windows-msvc"@
    } else {
        "unknown-unknown-unknown"@
    }
}

/// Map an operating system and architecture to the release target triple.
pub fn detect_target(os: &str, arch: &str) -> (r: String)
    ensures
        r@ == spec_detect_target(os@, arch@),
{
    if str_eq(os, "linux") && str_eq(arch, "x86_64") {
        "x86_64-unknown-linux-gnu".to_owned()
    } else if str_eq(os, "linux") && str_eq(arch, "aarch64") {
        "aarch64-unknown-linux-gnu".to_owned()
    } else if str_eq(os, "macos") && str_eq(arch, "x86_64") {
        "x86_64-apple-darwin".to_owned()
    } else if str_eq(os, "macos") && str_eq(arch, "aarch64") {
        "aarch64-apple-darwin".to_owned()
    } else if str_eq(os, "windows") && str_eq(arch, "x86_64") {
        "x86_64-pc-windows-msvc".to_owned()
    } else {
        "unknown-unknown-unknown".to_owned()
    }
}

/// Expand a leading `~/` to the home directory, when one is known.
pub fn expand_home(raw: &str, home: Option<&str>) -> (r: String)
    ensures
        ({
            let expands = "~/"@.is_prefix_of(raw@) && home is Some;
            if expands {
                r@ == home->Some_0@ + raw@.skip(1)
            } else {
                r@ == raw@
            }
        }),
{
    proof {
        reveal_strlit("~/");
    }
    if str_starts_with(raw, "~/") {
        if let Some(h) = home {
            let n = raw.unicode_len();
            let rest = raw.substring_char(1, n);
            proof {
                assert(rest@ =~= raw@.skip(1));
            }
            return str_concat(h, rest);
        }
    }
    raw.to_owned()
}

/// Where a release archive is obtained from during validation.
pub enum ArchiveSource {
    /// A remote url: download into the isolated temporary directory first.
    RemoteUrl,
    /// A local filesystem path: use it as given.
    LocalPath,
}

/// Classify an archive reference: anything beginning with `http` is remote.
pub fn archive_source(path_or_url: &str) -> (r: ArchiveSource)
    ensures
        (r is RemoteUrl) == "http"@.is_prefix_of(path_or_url@),
{
    proof {
        reveal_strlit("http");
    }
    if str_starts_with(path_or_url, "http") {
        ArchiveSource::RemoteUrl
    } else {
        ArchiveSource::LocalPath
    }
}

/// The release archive's file name:
/// `<binary_name>-<version>-<target>.tar.gz`.
pub fn archive_file_name(binary_name: &str, version: &str, target: &str) -> (r: String)
    ensures
        r@ == binary_name@ + "-"@ + version@ + "-"@ + target@ + ".tar.gz"@,
{
    let mut r = binary_name.to_owned();
    r.append("-");
    r.append(version);
    r.append("-");
    r.append(target);
    r.append(".tar.gz");
    r
}

/// The release page url for a version tag:
/// `https://github.com/<repo>/releases/tag/<version>`.
pub fn release_tag_url(github_repo: &str, version: &str) -> (r: String)
    ensures
        r@ == "https://github.com/"@ + github_repo@ + "/releases/tag/"@ + version@,
{
    let mut r = "https://github.com/".to_owned();
    r.append(github_repo);
    r.append("/releases/tag/");
    r.append(version);
    r
}

/// What a successful build stage reports.
#[derive(Debug)]
pub struct BuildResult {
    pub component: String,
    pub new_version: String,
    pub archive_path: String,
    pub binary_name: String,
    pub release_url: String,
}

impl BuildResult {
    /// Assemble the build report from the component, its repository entry
    /// fields, and the path the archive was written to.
    pub fn assemble(
        component: String,
        new_version: String,
        repo_type: &str,
        github_repo: &str,
        archive_path: String,
    ) -> (r: BuildResult)
        ensures
            r.component@ == component@,
            r.new_version@ == new_version@,
            r.archive_path@ == archive_path@,
            r.binary_name@ == spec_binary_name_for(component@, repo_type@),
            r.release_url@ == "https://github.com/"@ + github_repo@ + "/releases/tag/"@
                + new_version@,
    {
        let binary_name = binary_name_for(component.as_str(), repo_type);
        let release_url = release_tag_url(github_repo, new_version.as_str());
        BuildResult { component, new_version, archive_path, binary_name, release_url }
    }
}

/// The steps of the build-and-release stage, in order. `Done` and `Failed`
/// are terminal.
#[derive(PartialEq, Eq, Structural, Clone, Copy, Debug)]
pub enum BuildState {
    /// Resolve the component in the registry and check its repo path exists.
    ResolveRepo,
    /// Pull the latest source.
    Pull,
    /// Run the release-mode build.
    Compile,
    /// Check the built binary exists.
    LocateBinary,
    /// Create the component-named staging directory.
    CreateStaging,
    /// Copy the binary into staging.
    CopyBinary,
    /// Copy the behavior file into staging, when the repo has one.
    CopySoul,
    /// Copy the auxiliary skills directory; failures are non-fatal.
    CopySkills,
    /// Archive the staging directory.
    Archive,
    /// Remove the staging directory; failures are non-fatal.
    CleanupStaging,
    /// Create the remote release under the version tag.
    PublishCreate,
    /// Fallback after a create failure (tag collision): overwrite the asset
    /// on the existing release; failures are non-fatal.
    PublishUpload,
    Done,
    Failed,
}

/// The build stage's step relation. Every ordinary step advances on success
/// and fails the stage on failure; the marked steps are non-fatal; a publish
/// failure falls back to uploading onto the existing release instead of
/// failing — publishing is idempotent.
pub open spec fn spec_build_next(s: BuildState, ok: bool) -> BuildState {
    match s {
        BuildState::ResolveRepo => if ok {
            BuildState::Pull
        } else {
            BuildState::Failed
        },
        BuildState::Pull => if ok {
            BuildState::Compile
        } else {
            BuildState::Failed
        },
        BuildState::Compile => if ok {
            BuildState::LocateBinary
        } else {
            BuildState::Failed
        },
        BuildState::LocateBinary => if ok {
            BuildState::CreateStaging
        } else {
            BuildState::Failed
        },
        BuildState::CreateStaging => if ok {
            BuildState::CopyBinary
        } else {
            BuildState::Failed
        },
        BuildState::CopyBinary => if ok {
            BuildState::CopySoul
        } else {
            BuildState::Failed
        },
        BuildState::CopySoul => if ok {
            BuildState::CopySkills
        } else {
            BuildState::Failed
        },
        BuildState::CopySkills => BuildState::Archive,
        BuildState::Archive => if ok {
            BuildState::CleanupStaging
        } else {
            BuildState::Failed
        },
        BuildState::CleanupStaging => BuildState::PublishCreate,
        BuildState::PublishCreate => if ok {
            BuildState::Done
        } else {
            BuildState::PublishUpload
        },
        BuildState::PublishUpload => BuildState::Done,
        BuildState::Done => BuildState::Done,
        BuildState::Failed => BuildState::Failed,
    }
}

/// Steps left until the machine reaches a terminal state.
pub open spec fn build_rank(s: BuildState) -> nat {
    match s {
        BuildState::ResolveRepo => 12,
        BuildState::Pull => 11,
        BuildState::Compile => 10,
        BuildState::LocateBinary => 9,
        BuildState::CreateStaging => 8,
        BuildState::CopyBinary => 7,
        BuildState::CopySoul => 6,
        BuildState::CopySkills => 5,
        BuildState::Archive => 4,
        BuildState::CleanupStaging => 3,
        BuildState::PublishCreate => 2,
        BuildState::PublishUpload => 1,
        BuildState::Done => 0,
        BuildState::Failed => 0,
    }
}

/// Advance the build stage by one step outcome. The step relation is total
/// and strictly decreasing, so a driver performing one external action per
/// state always terminates; a create-release failure never fails the stage,
/// it falls back to the upload step.
pub fn build_step(s: BuildState, ok: bool) -> (r: BuildState)
    ensures
        r == spec_build_next(s, ok),
        s != BuildState::Done && s != BuildState::Failed ==> build_rank(r) < build_rank(s),
        s == BuildState::PublishCreate ==> r != BuildState::Failed,
        s == BuildState::PublishUpload ==> r == BuildState::Done,
{
    match s {
        BuildState::ResolveRepo => if ok {
            BuildState::Pull
        } else {
            BuildState::Failed
        },
        BuildState::Pull => if ok {
            BuildState::Compile
        } else {
            BuildState::Failed
        },
        BuildState::Compile => if ok {
            BuildState::LocateBinary
        } else {
            BuildState::Failed
        },
        BuildState::LocateBinary => if ok {
            BuildState::CreateStaging
        } else {
            BuildState::Failed
        },
        BuildState::CreateStaging => if ok {
            BuildState::CopyBinary
        } else {
            BuildState::Failed
        },
        BuildState::CopyBinary => if ok {
            BuildState::CopySoul
        } else {
            BuildState::Failed
        },
        BuildState::CopySoul => if ok {
            BuildState::CopySkills
        } else {
            BuildState::Failed
        },
        BuildState::CopySkills => BuildState::Archive,
        BuildState::Archive => if ok {
            BuildState::CleanupStaging
        } else {
            BuildState::Failed
        },
        BuildState::CleanupStaging => BuildState::PublishCreate,
        BuildState::PublishCreate => if ok {
            BuildState::Done
        } else {
            BuildState::PublishUpload
        },
        BuildState::PublishUpload => BuildState::Done,
        BuildState::Done => BuildState::Done,
        BuildState::Failed => BuildState::Failed,
    }
}

/// The evaluate stage's verdict on a validated upgrade.
#[derive(Debug)]
pub struct UpgradeEvaluation {
    pub component: String,
    pub current_version: String,
    pub new_version: String,
    pub current_binary_size: Option<u64>,
    pub recommendation: String,
    pub score_milli: u32,
}

/// Evaluate a validated self-upgrade against the registry: the installed
/// version (or `"unknown"` when the component is not registered) is reported
/// for comparison, and the verdict always recommends activation with a fixed
/// high score — the substantive gating lives in the validate stage and the
/// shared lifecycle threshold.
pub fn evaluate_upgrade(
    component: String,
    new_version: String,
    installed_version: Option<String>,
    current_binary_size: Option<u64>,
) -> (r: UpgradeEvaluation)
    ensures
        r.component@ == component@,
        r.new_version@ == new_version@,
        match installed_version {
            Some(v) => r.current_version@ == v@,
            None => r.current_version@ == "unknown"@,
        },
        r.current_binary_size == current_binary_size,
        r.recommendation@ == "activate"@,
        r.score_milli == 900,
{
    let current_version = match installed_version {
        Some(v) => v,
        None => "unknown".to_owned(),
    };
    UpgradeEvaluation {
        component,
        current_version,
        new_version,
        current_binary_size,
        recommendation: "activate".to_owned(),
        score_milli: 900,
    }
}

} // verus!
