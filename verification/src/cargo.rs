//! Cargo integration: the metadata of a workspace and the resolution of the
//! build target to debug, with the path of its artifact.

use vstd::prelude::*;
use crate::text::{join, lemma_join_push, push_part, str_eq, string_views};
use crate::types::{CargoTarget, CargoTargetKind};

verus! {

/// Raw `cargo metadata` output (simplified).
#[derive(Debug, Clone)]
pub struct CargoMetadata {
    pub packages: Vec<Package>,
    pub workspace_root: String,
}

/// A package of the workspace.
#[derive(Debug, Clone)]
pub struct Package {
    pub name: String,
    pub targets: Vec<Target>,
    pub manifest_path: String,
}

/// A build target of a package.
#[derive(Debug, Clone)]
pub struct Target {
    pub name: String,
    pub kind: Vec<String>,
}

/// Errors of the Cargo integration.
#[derive(Debug, Clone, PartialEq)]
pub enum CargoError {
    MetadataFailure(String),
    BuildFailure(String),
    TargetNotFound(String),
    InvalidManifest(String),
    CargoNotFound,
}

/// The message an error displays.
pub open spec fn cargo_error_text(e: CargoError) -> Seq<char> {
    match e {
        CargoError::MetadataFailure(m) => "Failed to run cargo metadata: "@ + m@,
        CargoError::BuildFailure(m) => "Cargo build failed: "@ + m@,
        CargoError::TargetNotFound(m) => "Target not found: "@ + m@,
        CargoError::InvalidManifest(m) => "Invalid Cargo.toml manifest: "@ + m@,
        CargoError::CargoNotFound => "Cargo executable not found in PATH"@,
    }
}

impl CargoError {
    /// The human-readable message of this error.
    pub fn message(&self) -> (r: String)
        ensures
            r@ == cargo_error_text(*self),
    {
        let mut out = String::new();
        match self {
            CargoError::MetadataFailure(m) => {
                out.append("Failed to run cargo metadata: ");
                out.append(m.as_str());
            },
            CargoError::BuildFailure(m) => {
                out.append("Cargo build failed: ");
                out.append(m.as_str());
            },
            CargoError::TargetNotFound(m) => {
                out.append("Target not found: ");
                out.append(m.as_str());
            },
            CargoError::InvalidManifest(m) => {
                out.append("Invalid Cargo.toml manifest: ");
                out.append(m.as_str());
            },
            CargoError::CargoNotFound => {
                out.append("Cargo executable not found in PATH");
            },
        }
        assert(out@ =~= cargo_error_text(*self));
        out
    }
}

/// Position of the first package named `n`, or the number of packages.
pub open spec fn package_index(ps: Seq<Package>, n: Seq<char>) -> int
    decreases ps.len(),
{
    if ps.len() == 0 {
        0
    } else if ps[0].name@ == n {
        0
    } else {
        1 + package_index(ps.drop_first(), n)
    }
}

/// Position of the first target named `n`, or the number of targets.
pub open spec fn target_index(ts: Seq<Target>, n: Seq<char>) -> int
    decreases ts.len(),
{
    if ts.len() == 0 {
        0
    } else if ts[0].name@ == n {
        0
    } else {
        1 + target_index(ts.drop_first(), n)
    }
}

/// Whether a target's kinds include `k`.
pub open spec fn has_kind(kinds: Seq<String>, k: Seq<char>) -> bool {
    exists|i: int| 0 <= i < kinds.len() && #[trigger] kinds[i]@ == k
}

/// Position of the first binary target, or the number of targets.
pub open spec fn bin_index(ts: Seq<Target>) -> int
    decreases ts.len(),
{
    if ts.len() == 0 {
        0
    } else if has_kind(ts[0].kind@, "bin"@) {
        0
    } else {
        1 + bin_index(ts.drop_first())
    }
}

/// The package `find_package` picks: by name, or the first one.
pub open spec fn package_choice(m: CargoMetadata, name: Option<Seq<char>>) -> Result<int, CargoError> {
    match name {
        Some(n) => if package_index(m.packages@, n) < m.packages@.len() {
            Ok(package_index(m.packages@, n))
        } else {
            Err(CargoError::TargetNotFound(arbitrary()))
        },
        None => if m.packages@.len() > 0 {
            Ok(0)
        } else {
            Err(CargoError::InvalidManifest(arbitrary()))
        },
    }
}

/// The target `find_target` picks: by name, else the first binary, else
/// the first target.
pub open spec fn target_choice(p: Package, name: Option<Seq<char>>) -> Option<int> {
    match name {
        Some(n) => if target_index(p.targets@, n) < p.targets@.len() {
            Some(target_index(p.targets@, n))
        } else {
            None
        },
        None => if bin_index(p.targets@) < p.targets@.len() {
            Some(bin_index(p.targets@))
        } else if p.targets@.len() > 0 {
            Some(0)
        } else {
            None
        },
    }
}

/// `e` is `TargetNotFound` with `text`.
pub open spec fn not_found(e: CargoError, text: Seq<char>) -> bool {
    e matches CargoError::TargetNotFound(m) && m@ == text
}

proof fn lemma_package_index(ps: Seq<Package>, n: Seq<char>)
    ensures
        0 <= package_index(ps, n) <= ps.len(),
        package_index(ps, n) < ps.len() ==> ps[package_index(ps, n)].name@ == n,
        forall|j: int| 0 <= j < package_index(ps, n) ==> #[trigger] ps[j].name@ != n,
    decreases ps.len(),
{
    if ps.len() > 0 && ps[0].name@ != n {
        lemma_package_index(ps.drop_first(), n);
        assert forall|j: int| 0 <= j < package_index(ps, n) implies #[trigger] ps[j].name@ != n by {
            if j > 0 {
                assert(ps.drop_first()[j - 1] == ps[j]);
            }
        }
    }
}

proof fn lemma_target_index(ts: Seq<Target>, n: Seq<char>)
    ensures
        0 <= target_index(ts, n) <= ts.len(),
        target_index(ts, n) < ts.len() ==> ts[target_index(ts, n)].name@ == n,
        forall|j: int| 0 <= j < target_index(ts, n) ==> #[trigger] ts[j].name@ != n,
    decreases ts.len(),
{
    if ts.len() > 0 && ts[0].name@ != n {
        lemma_target_index(ts.drop_first(), n);
        assert forall|j: int| 0 <= j < target_index(ts, n) implies #[trigger] ts[j].name@ != n by {
            if j > 0 {
                assert(ts.drop_first()[j - 1] == ts[j]);
            }
        }
    }
}

proof fn lemma_bin_index(ts: Seq<Target>)
    ensures
        0 <= bin_index(ts) <= ts.len(),
        bin_index(ts) < ts.len() ==> has_kind(ts[bin_index(ts)].kind@, "bin"@),
        forall|j: int| 0 <= j < bin_index(ts) ==> !has_kind(#[trigger] ts[j].kind@, "bin"@),
    decreases ts.len(),
{
    if ts.len() > 0 && !has_kind(ts[0].kind@, "bin"@) {
        lemma_bin_index(ts.drop_first());
        assert forall|j: int| 0 <= j < bin_index(ts) implies !has_kind(#[trigger] ts[j].kind@, "bin"@) by {
            if j > 0 {
                assert(ts.drop_first()[j - 1] == ts[j]);
            }
        }
    }
}

/// Whether `kinds` holds `k`.
fn contains_kind(kinds: &Vec<String>, k: &str) -> (r: bool)
    ensures
        r == has_kind(kinds@, k@),
{
    let mut i: usize = 0;
    while i < kinds.len()
        invariant
            i <= kinds@.len(),
            forall|j: int| 0 <= j < i ==> #[trigger] kinds@[j]@ != k@,
        decreases kinds@.len() - i,
    {
        if str_eq(kinds[i].as_str(), k) {
            return true;
        }
        i = i + 1;
    }
    false
}

/// The package named `name`, or the first package when no name is given.
pub fn find_package<'a>(metadata: &'a CargoMetadata, name: Option<&str>) -> (r: Result<&'a Package, CargoError>)
    ensures
        match name {
            Some(n) => {
                let i = package_index(metadata.packages@, n@);
                if i < metadata.packages@.len() {
                    r == Ok::<&Package, CargoError>(&metadata.packages@[i])
                } else {
                    r matches Err(e) && not_found(e, "package '"@ + n@ + "' not found"@)
                }
            },
            None => if metadata.packages@.len() > 0 {
                r == Ok::<&Package, CargoError>(&metadata.packages@[0])
            } else {
                r matches Err(CargoError::InvalidManifest(m)) && m@ == "no packages in workspace"@
            },
        },
{
    match name {
        Some(n) => {
            proof {
                lemma_package_index(metadata.packages@, n@);
            }
            let mut i: usize = 0;
            while i < metadata.packages.len()
                invariant
                    i <= metadata.packages@.len(),
                    name == Some(n),
                    forall|j: int| 0 <= j < i ==> #[trigger] metadata.packages@[j].name@ != n@,
                decreases metadata.packages@.len() - i,
            {
                if str_eq(metadata.packages[i].name.as_str(), n) {
                    proof {
                        lemma_package_index(metadata.packages@, n@);
                        let k = package_index(metadata.packages@, n@);
                        assert(metadata.packages@[i as int].name@ == n@);
                        if k < i {
                            assert(metadata.packages@[k].name@ != n@);
                        }
                        if k > i {
                            assert(metadata.packages@[i as int].name@ != n@);
                        }
                    }
                    return Ok(&metadata.packages[i]);
                }
                i = i + 1;
            }
            proof {
                lemma_package_index(metadata.packages@, n@);
            }
            let mut m = "package '".to_owned();
            m.append(n);
            m.append("' not found");
            Err(CargoError::TargetNotFound(m))
        },
        None => {
            if metadata.packages.len() > 0 {
                Ok(&metadata.packages[0])
            } else {
                Err(CargoError::InvalidManifest("no packages in workspace".to_owned()))
            }
        },
    }
}

/// The target named `name`; without a name, the first binary target, or
/// else the first target.
pub fn find_target<'a>(pkg: &'a Package, name: Option<&str>) -> (r: Result<&'a Target, CargoError>)
    ensures
        match target_choice(*pkg, match name {
            Some(n) => Some(n@),
            None => None,
        }) {
            Some(i) => r == Ok::<&Target, CargoError>(&pkg.targets@[i]),
            None => r matches Err(e) && not_found(
                e,
                match name {
                    Some(n) => "target '"@ + n@ + "' not found"@,
                    None => "no targets in package"@,
                },
            ),
        },
{
    match name {
        Some(n) => {
            proof {
                lemma_target_index(pkg.targets@, n@);
            }
            let mut i: usize = 0;
            while i < pkg.targets.len()
                invariant
                    i <= pkg.targets@.len(),
                    name == Some(n),
                    forall|j: int| 0 <= j < i ==> #[trigger] pkg.targets@[j].name@ != n@,
                decreases pkg.targets@.len() - i,
            {
                if str_eq(pkg.targets[i].name.as_str(), n) {
                    proof {
                        lemma_target_index(pkg.targets@, n@);
                        let k = target_index(pkg.targets@, n@);
                        assert(pkg.targets@[i as int].name@ == n@);
                        if k < i {
                            assert(pkg.targets@[k].name@ != n@);
                        }
                        if k > i {
                            assert(pkg.targets@[i as int].name@ != n@);
                        }
                    }
                    return Ok(&pkg.targets[i]);
                }
                i = i + 1;
            }
            proof {
                lemma_target_index(pkg.targets@, n@);
            }
            let mut m = "target '".to_owned();
            m.append(n);
            m.append("' not found");
            Err(CargoError::TargetNotFound(m))
        },
        None => {
            proof {
                lemma_bin_index(pkg.targets@);
            }
            let mut i: usize = 0;
            while i < pkg.targets.len()
                invariant
                    i <= pkg.targets@.len(),
                    name is None,
                    forall|j: int| 0 <= j < i ==> !has_kind(#[trigger] pkg.targets@[j].kind@, "bin"@),
                decreases pkg.targets@.len() - i,
            {
                if contains_kind(&pkg.targets[i].kind, "bin") {
                    proof {
                        lemma_bin_index(pkg.targets@);
                        let k = bin_index(pkg.targets@);
                        assert(has_kind(pkg.targets@[i as int].kind@, "bin"@));
                        if k < i {
                            assert(!has_kind(pkg.targets@[k].kind@, "bin"@));
                        }
                        if k > i {
                            assert(!has_kind(pkg.targets@[i as int].kind@, "bin"@));
                        }
                    }
                    return Ok(&pkg.targets[i]);
                }
                i = i + 1;
            }
            proof {
                lemma_bin_index(pkg.targets@);
            }
            if pkg.targets.len() > 0 {
                Ok(&pkg.targets[0])
            } else {
                Err(CargoError::TargetNotFound("no targets in package".to_owned()))
            }
        },
    }
}

/// `base` with `part` pushed as a path component, as `Path::join` does on
/// Unix: an absolute part replaces the path, an empty path takes the part
/// as it is, and otherwise a `/` separates them unless `base` ends in one.
pub open spec fn path_join(base: Seq<char>, part: Seq<char>) -> Seq<char> {
    if part.len() > 0 && part[0] == '/' {
        part
    } else if base.len() == 0 {
        part
    } else if base.last() == '/' {
        base + part
    } else {
        base + "/"@ + part
    }
}

/// The directory a profile builds into: `debug` for `dev`, else the
/// profile's own name.
pub open spec fn profile_dir(profile: Seq<char>) -> Seq<char> {
    if profile == "dev"@ {
        "debug"@
    } else {
        profile
    }
}

/// Where Cargo puts the executable of `target_name` built with `profile`.
pub open spec fn artifact_path(workspace_root: Seq<char>, profile: Seq<char>, target_name: Seq<char>) -> Seq<char> {
    path_join(
        path_join(path_join(workspace_root, "target"@), profile_dir(profile)),
        target_name + ".exe"@,
    )
}

pub(crate) fn join_path(base: &str, part: &str) -> (r: String)
    ensures
        r@ == path_join(base@, part@),
{
    proof {
        reveal_strlit("/");
    }
    if part.unicode_len() > 0 && part.get_char(0) == '/' {
        return part.to_owned();
    }
    let n = base.unicode_len();
    if n == 0 {
        return part.to_owned();
    }
    let mut out = base.to_owned();
    if base.get_char(n - 1) != '/' {
        out.append("/");
    }
    out.append(part);
    out
}

/// The path of the executable Cargo builds for `target_name` with
/// `profile` in the workspace at `workspace_root`.
pub fn build_artifact_path(workspace_root: &str, profile: &str, target_name: &str) -> (r: String)
    ensures
        r@ == artifact_path(workspace_root@, profile@, target_name@),
{
    let dir = if str_eq(profile, "dev") {
        "debug"
    } else {
        profile
    };
    let a = join_path(workspace_root, "target");
    let b = join_path(a.as_str(), dir);
    let mut file = target_name.to_owned();
    file.append(".exe");
    join_path(b.as_str(), file.as_str())
}

/// The kind a target's kinds make it: the first of bin, lib, test, bench,
/// example it has, and bin when it has none of them.
pub open spec fn kind_of(kinds: Seq<String>) -> CargoTargetKind {
    if has_kind(kinds, "bin"@) {
        CargoTargetKind::Bin
    } else if has_kind(kinds, "lib"@) {
        CargoTargetKind::Lib
    } else if has_kind(kinds, "test"@) {
        CargoTargetKind::Test
    } else if has_kind(kinds, "bench"@) {
        CargoTargetKind::Bench
    } else if has_kind(kinds, "example"@) {
        CargoTargetKind::Example
    } else {
        CargoTargetKind::Bin
    }
}

/// Computes `kind_of`.
pub fn parse_target_kind(kinds: &Vec<String>) -> (r: CargoTargetKind)
    ensures
        r == kind_of(kinds@),
{
    if contains_kind(kinds, "bin") {
        CargoTargetKind::Bin
    } else if contains_kind(kinds, "lib") {
        CargoTargetKind::Lib
    } else if contains_kind(kinds, "test") {
        CargoTargetKind::Test
    } else if contains_kind(kinds, "bench") {
        CargoTargetKind::Bench
    } else if contains_kind(kinds, "example") {
        CargoTargetKind::Example
    } else {
        CargoTargetKind::Bin
    }
}

fn copy_strings(v: &[String]) -> (r: Vec<String>)
    ensures
        r@ == v@,
{
    let mut out: Vec<String> = Vec::new();
    let mut i: usize = 0;
    while i < v.len()
        invariant
            i <= v@.len(),
            out@ == v@.subrange(0, i as int),
        decreases v@.len() - i,
    {
        out.push(v[i].clone());
        i = i + 1;
        assert(out@ =~= v@.subrange(0, i as int));
    }
    assert(v@.subrange(0, v@.len() as int) =~= v@);
    out
}

/// Resolve the build target to debug from the workspace metadata and the
/// user's choices: the package and target picked by `find_package` and
/// `find_target`, the kind of the target, and the path of its artifact.
pub fn resolve_target(
    metadata: &CargoMetadata,
    package_name: Option<&str>,
    target_name: Option<&str>,
    profile: &str,
    features: &[String],
) -> (r: Result<CargoTarget, CargoError>)
    ensures
        ({
            let pn = match package_name {
                Some(n) => Some(n@),
                None => None,
            };
            let tn = match target_name {
                Some(n) => Some(n@),
                None => None,
            };
            match package_choice(*metadata, pn) {
                Err(_) => r matches Err(e) && match pn {
                    Some(n) => not_found(e, "package '"@ + n + "' not found"@),
                    None => e matches CargoError::InvalidManifest(m) && m@ == "no packages in workspace"@,
                },
                Ok(i) => {
                    let p = metadata.packages@[i];
                    match target_choice(p, tn) {
                        None => r matches Err(e) && not_found(
                            e,
                            match tn {
                                Some(n) => "target '"@ + n + "' not found"@,
                                None => "no targets in package"@,
                            },
                        ),
                        Some(j) => {
                            let t = p.targets@[j];
                            r matches Ok(c) && c.package_name@ == p.name@ && c.target_name@ == t.name@
                                && c.target_kind == kind_of(t.kind@) && c.profile@ == profile@
                                && c.features@ == features@ && c.artifact_path@ == artifact_path(
                                metadata.workspace_root@,
                                profile@,
                                t.name@,
                            )
                        },
                    }
                },
            }
        }),
{
    proof {
        match package_name {
            Some(n) => lemma_package_index(metadata.packages@, n@),
            None => {},
        }
    }
    let pkg = match find_package(metadata, package_name) {
        Ok(p) => p,
        Err(e) => {
            return Err(e);
        },
    };
    let tgt = match find_target(pkg, target_name) {
        Ok(t) => t,
        Err(e) => {
            return Err(e);
        },
    };
    let artifact_path = build_artifact_path(metadata.workspace_root.as_str(), profile, tgt.name.as_str());
    Ok(
        CargoTarget {
            package_name: pkg.name.clone(),
            target_name: tgt.name.clone(),
            target_kind: parse_target_kind(&tgt.kind),
            profile: profile.to_owned(),
            features: copy_strings(features),
            artifact_path,
        },
    )
}

/// The arguments of the `cargo` call that builds a target: `build` with
/// the manifest and the package, the binary when the target is one, the
/// profile unless it is `dev`, and the features comma-separated when there
/// are any.
pub open spec fn build_args(t: CargoTarget, manifest_path: Seq<char>) -> Seq<Seq<char>> {
    seq!["build"@, "--manifest-path"@, manifest_path, "--package"@, t.package_name@] + (if t.target_kind
        == CargoTargetKind::Bin {
        seq!["--bin"@, t.target_name@]
    } else {
        Seq::empty()
    }) + (if t.profile@ != "dev"@ {
        seq!["--profile"@, t.profile@]
    } else {
        Seq::empty()
    }) + (if t.features@.len() > 0 {
        seq!["--features"@, join(string_views(t.features@), ","@)]
    } else {
        Seq::empty()
    })
}

/// The arguments for `cargo` that build `target` (see `build_args`).
pub fn cargo_build_args(target: &CargoTarget, manifest_path: &str) -> (r: Vec<String>)
    ensures
        string_views(r@) == build_args(*target, manifest_path@),
{
    let mut args: Vec<String> = Vec::new();
    args.push("build".to_owned());
    args.push("--manifest-path".to_owned());
    args.push(manifest_path.to_owned());
    args.push("--package".to_owned());
    args.push(target.package_name.clone());
    if target.target_kind == CargoTargetKind::Bin {
        args.push("--bin".to_owned());
        args.push(target.target_name.clone());
    }
    if !str_eq(target.profile.as_str(), "dev") {
        args.push("--profile".to_owned());
        args.push(target.profile.clone());
    }
    if target.features.len() > 0 {
        let mut joined = String::new();
        let mut i: usize = 0;
        while i < target.features.len()
            invariant
                i <= target.features@.len(),
                joined@ == join(string_views(target.features@.subrange(0, i as int)), ","@),
            decreases target.features@.len() - i,
        {
            proof {
                assert(string_views(target.features@.subrange(0, i + 1)) =~= string_views(
                    target.features@.subrange(0, i as int),
                ).push(target.features@[i as int]@));
                lemma_join_push(string_views(target.features@.subrange(0, i as int)), ","@, target.features@[i as int]@);
            }
            push_part(&mut joined, i, ",", target.features[i].as_str());
            i = i + 1;
        }
        assert(target.features@.subrange(0, i as int) =~= target.features@);
        args.push("--features".to_owned());
        args.push(joined);
    }
    proof {
        reveal_strlit("build");
        reveal_strlit("--manifest-path");
        reveal_strlit("--package");
        reveal_strlit("--bin");
        reveal_strlit("--profile");
        reveal_strlit("--features");
        reveal_strlit("dev");
        reveal_strlit(",");
    }
    assert(string_views(args@) =~= build_args(*target, manifest_path@));
    args
}

/// Whether the artifact must be rebuilt, given its modification time (none
/// when it is missing) and that of the newest source file (none when there
/// are no sources): a missing artifact is stale, no sources mean fresh,
/// otherwise it is stale when a source is newer.
pub fn artifact_is_stale(artifact_modified: Option<u128>, newest_source: Option<u128>) -> (r: bool)
    ensures
        r == match (artifact_modified, newest_source) {
            (None, _) => true,
            (Some(_), None) => false,
            (Some(a), Some(n)) => n > a,
        },
{
    match (artifact_modified, newest_source) {
        (None, _) => true,
        (Some(_), None) => false,
        (Some(a), Some(n)) => n > a,
    }
}

} // verus!
