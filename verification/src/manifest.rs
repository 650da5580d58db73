//! Extension manifests and the rules an external package must follow.
use vstd::prelude::*;
use vstd::string::*;

use crate::extension_id::{
    builtin_extension_ids, is_builtin_extension_id, is_valid_extension_id, valid_extension_id,
};
use crate::host_diagnostic::opt_view;
use crate::package_error::{manifest_error, manifest_error_with, ExtensionPackageError, PackageErrorView};
use crate::path::{
    all_normal, std_join, std_path_components, std_path_is_absolute, std_path_joined, ComponentView,
    PathComponent, PathModel, PathView,
};
use crate::ordered_key::{key_less, str_less};
use crate::text::{str_equal, decimal};
use crate::versions::{
    compare_versions, requirement_matches, requirement_parse_error, semver_order,
    semver_requirement_matches, semver_requirement_parse_error, semver_version_parse_error,
    version_parse_error, HOST_API_VERSION,
};

verus! {

/// The `format` every manifest declares.
pub const MANIFEST_FORMAT: &'static str = "nanika-extension";
/// The only manifest version this host reads.
pub const MANIFEST_VERSION: u32 = 1;

/// Presentation behavior for a command contributed to Root Search.
#[derive(Debug, Clone, Copy, PartialEq, Eq, Structural)]
pub enum CommandMode {
    NoView,
    View,
}

/// One statically discoverable command contributed by an extension.
#[derive(Debug, Clone)]
pub struct CommandContribution {
    pub id: String,
    pub title: String,
    pub description: String,
    pub mode: CommandMode,
    pub subtitle: Option<String>,
    pub keywords: Vec<String>,
}

/// Target-specific native entrypoint declared by an extension package.
#[derive(Debug, Clone)]
pub struct ExtensionTarget {
    pub entrypoint: String,
}

/// The protocol an extension process speaks.
#[derive(Debug, Clone, Copy, PartialEq, Eq, Structural)]
pub enum ExtensionProtocol {
    /// The host's own framed protocol.
    Nanika { protocol_version: u32 },
    /// The Agent Client Protocol.
    Acp { protocol_version: u32 },
}

/// What the manifest's `contributions` value is, as far as validation reads it.
#[derive(Debug, Clone, Copy, PartialEq, Eq, Structural)]
pub enum ManifestContributions {
    /// `null` or absent.
    Null,
    /// `{}`.
    EmptyObject,
    /// Anything else.
    Other,
}

/// Typed root manifest for one external extension version.
#[derive(Debug, Clone)]
pub struct ExtensionManifest {
    pub format: String,
    pub manifest_version: u32,
    pub id: String,
    pub version: String,
    pub host_api: String,
    /// Target triples with their entrypoints, in target order without repetition.
    pub targets: Vec<(String, ExtensionTarget)>,
    pub capabilities: Vec<String>,
    pub permissions: Vec<String>,
    pub dependencies: Vec<String>,
    pub activation_events: Vec<String>,
    pub contributions: ManifestContributions,
}

/// Validated external extension ready for host-supervised process creation.
#[derive(Debug, Clone)]
pub struct ActiveExtension {
    pub extension_id: String,
    pub program: PathModel,
    pub protocol: ExtensionProtocol,
    pub permissions: Vec<String>,
}

/// The texts of a list of strings.
pub open spec fn texts(v: Seq<String>) -> Seq<Seq<char>> {
    v.map_values(|s: String| s@)
}

/// The target names and entrypoint texts of a manifest.
pub open spec fn target_texts(v: Seq<(String, ExtensionTarget)>) -> Seq<(Seq<char>, Seq<char>)> {
    v.map_values(|t: (String, ExtensionTarget)| (t.0@, t.1.entrypoint@))
}

/// The targets that packages may provide entrypoints for.
pub open spec fn known_target(t: Seq<char>) -> bool {
    t == "x86_64-pc-windows-msvc"@ || t == "aarch64-apple-darwin"@ || t == "x86_64-apple-darwin"@
}

/// `p` is a non-empty relative path of plain names.
pub open spec fn safe_relative_path(p: PathView) -> bool {
    p.components.len() > 0 && !p.absolute && all_normal(p.components)
}

/// The path that the text `s` spells on this platform.
pub open spec fn parsed_path(s: Seq<char>) -> PathView {
    PathView { components: std_path_components(s), absolute: std_path_is_absolute(s) }
}

/// Why the entrypoint `entrypoint` is not acceptable for `target`, if it is not:
/// it must be a safe relative path strictly below `bin` joined with `target`.
pub open spec fn entrypoint_error(target: Seq<char>, entrypoint: Seq<char>) -> Option<
    PackageErrorView,
> {
    let p = parsed_path(entrypoint);
    let expected = parsed_path(std_path_joined("bin"@, target));
    if !safe_relative_path(p) {
        Some(PackageErrorView::Manifest("package path is not a safe relative path"@))
    } else if !expected.components.is_prefix_of(p.components) || p.components.len()
        == expected.components.len() {
        Some(PackageErrorView::Manifest("entrypoint must be under bin/<target>"@))
    } else {
        None
    }
}

/// The first failure among the targets, in order.
pub open spec fn first_target_error(ts: Seq<(Seq<char>, Seq<char>)>) -> Option<PackageErrorView>
    decreases ts.len(),
{
    if ts.len() == 0 {
        None
    } else if !known_target(ts[0].0) {
        Some(PackageErrorView::Manifest("unsupported extension target: "@ + ts[0].0))
    } else {
        match entrypoint_error(ts[0].0, ts[0].1) {
            Some(e) => Some(e),
            None => first_target_error(ts.drop_first()),
        }
    }
}

/// The permissions that extensions may request.
pub open spec fn allowed_permission(p: Seq<char>) -> bool {
    p == "process.launch"@ || p == "clipboard.write"@
}

/// The first failure among the permissions from position `i` on.
pub open spec fn permission_error_from(ps: Seq<Seq<char>>, i: int) -> Option<PackageErrorView>
    decreases ps.len() - i,
{
    if i < 0 || i >= ps.len() {
        None
    } else if !allowed_permission(ps[i]) {
        Some(PackageErrorView::Manifest("unsupported extension permission: "@ + ps[i]))
    } else if ps.take(i).contains(ps[i]) {
        Some(PackageErrorView::Manifest("duplicate extension permission: "@ + ps[i]))
    } else {
        permission_error_from(ps, i + 1)
    }
}

/// The first failure among the dependencies of `id` from position `i` on.
pub open spec fn dependency_error_from(ds: Seq<Seq<char>>, id: Seq<char>, i: int) -> Option<
    PackageErrorView,
>
    decreases ds.len() - i,
{
    if i < 0 || i >= ds.len() {
        None
    } else if !valid_extension_id(ds[i]) {
        Some(PackageErrorView::Manifest("invalid extension dependency: "@ + ds[i]))
    } else if ds[i] == id {
        Some(PackageErrorView::Manifest("an extension cannot depend on itself"@))
    } else if ds.take(i).contains(ds[i]) {
        Some(PackageErrorView::Manifest("duplicate extension dependency: "@ + ds[i]))
    } else {
        dependency_error_from(ds, id, i + 1)
    }
}

/// Why `m` is not an acceptable manifest, if it is not; the rules are checked in this order.
pub open spec fn manifest_validation(m: ExtensionManifest) -> Option<PackageErrorView> {
    if m.format@ != MANIFEST_FORMAT@ || m.manifest_version != MANIFEST_VERSION {
        Some(PackageErrorView::Manifest("unsupported manifest format"@))
    } else if !valid_extension_id(m.id@) {
        Some(PackageErrorView::Manifest("invalid extension id"@))
    } else if builtin_extension_ids().contains(m.id@) {
        Some(PackageErrorView::Manifest("external packages cannot use a built-in extension id"@))
    } else if semver_version_parse_error(m.version@) is Some {
        Some(PackageErrorView::Manifest(semver_version_parse_error(m.version@)->0))
    } else if semver_requirement_parse_error(m.host_api@) is Some {
        Some(PackageErrorView::Manifest(semver_requirement_parse_error(m.host_api@)->0))
    } else if semver_version_parse_error(HOST_API_VERSION@) is Some {
        Some(PackageErrorView::Manifest(semver_version_parse_error(HOST_API_VERSION@)->0))
    } else if !semver_requirement_matches(m.host_api@, HOST_API_VERSION@) {
        Some(
            PackageErrorView::Manifest(
                "host API requirement "@ + m.host_api@ + " does not match "@ + HOST_API_VERSION@,
            ),
        )
    } else if m.targets@.len() == 0 {
        Some(PackageErrorView::Manifest("manifest has no target entrypoints"@))
    } else if first_target_error(target_texts(m.targets@)) is Some {
        first_target_error(target_texts(m.targets@))
    } else if m.capabilities@.len() > 0 {
        Some(
            PackageErrorView::Manifest(
                "extension capabilities are reserved for a future manifest version"@,
            ),
        )
    } else if permission_error_from(texts(m.permissions@), 0) is Some {
        permission_error_from(texts(m.permissions@), 0)
    } else if dependency_error_from(texts(m.dependencies@), m.id@, 0) is Some {
        dependency_error_from(texts(m.dependencies@), m.id@, 0)
    } else if m.dependencies@.len() > 0 {
        Some(
            PackageErrorView::Manifest(
                "extension dependencies require a future dependency resolver"@,
            ),
        )
    } else if m.activation_events@.len() > 0 {
        Some(
            PackageErrorView::Manifest(
                "extension activation events are reserved for a future manifest version"@,
            ),
        )
    } else if m.contributions == ManifestContributions::Other {
        Some(
            PackageErrorView::Manifest(
                "extension manifest contributions are reserved for a future manifest version"@,
            ),
        )
    } else {
        None
    }
}

/// Accepts only a non-empty relative path of plain names.
pub fn validate_relative_path(path: &PathModel) -> (result: Result<(), ExtensionPackageError>)
    ensures
        match result {
            Ok(()) => safe_relative_path(path@),
            Err(e) => !safe_relative_path(path@) && e@ == PackageErrorView::Manifest(
                "package path is not a safe relative path"@,
            ),
        },
{
    if path.is_empty() || path.absolute || !path.is_all_normal() {
        return Err(manifest_error("package path is not a safe relative path"));
    }
    Ok(())
}

/// Accepts `path` only strictly below `root`.
pub fn validate_managed_path(root: &PathModel, path: &PathModel) -> (result: Result<
    (),
    ExtensionPackageError,
>)
    ensures
        match result {
            Ok(()) => !crate::path::same_path(path@, root@) && crate::path::path_starts_with(
                path@,
                root@,
            ),
            Err(e) => (crate::path::same_path(path@, root@) || !crate::path::path_starts_with(
                path@,
                root@,
            )) && e@ == PackageErrorView::Manifest("extension path escaped its managed root"@),
        },
{
    if path.same_as(root) || !path.starts_with(root) {
        return Err(manifest_error("extension path escaped its managed root"));
    }
    Ok(())
}

/// Accepts an entrypoint only as a safe relative path strictly below `bin/<target>`.
pub fn validate_target_entrypoint(target: &str, target_entrypoint: &ExtensionTarget) -> (result:
    Result<(), ExtensionPackageError>)
    ensures
        match result {
            Ok(()) => entrypoint_error(target@, target_entrypoint.entrypoint@) is None,
            Err(e) => entrypoint_error(target@, target_entrypoint.entrypoint@) == Some(e@),
        },
{
    let path = PathModel::parse(target_entrypoint.entrypoint.as_str());
    validate_relative_path(&path)?;
    let joined = std_join("bin", target);
    let expected = PathModel::parse(joined.as_str());
    match path.strip_prefix(&expected) {
        None => Err(manifest_error("entrypoint must be under bin/<target>")),
        Some(relative) => {
            if relative.is_empty() {
                Err(manifest_error("entrypoint must be under bin/<target>"))
            } else {
                Ok(())
            }
        },
    }
}

fn is_known_target(target: &str) -> (known: bool)
    ensures
        known == known_target(target@),
{
    let windows = str_equal(target, "x86_64-pc-windows-msvc");
    let apple_arm = str_equal(target, "aarch64-apple-darwin");
    let apple_intel = str_equal(target, "x86_64-apple-darwin");
    windows || apple_arm || apple_intel
}

fn contains_text(v: &Vec<String>, end: usize, s: &str) -> (found: bool)
    requires
        end <= v@.len(),
    ensures
        found == texts(v@).take(end as int).contains(s@),
{
    for i in 0..end
        invariant
            end <= v@.len(),
            forall|j: int| 0 <= j < i ==> v@[j]@ != s@,
    {
        if str_equal(v[i].as_str(), s) {
            proof {
                assert(texts(v@).take(end as int)[i as int] == s@);
            }
            return true;
        }
    }
    proof {
        if texts(v@).take(end as int).contains(s@) {
            let k = choose|k: int| 0 <= k < end && texts(v@).take(end as int)[k] == s@;
            assert(v@[k]@ == s@);
        }
    }
    false
}

/// The targets are in the order of their names, each name once.
pub open spec fn targets_sorted(ts: Seq<(Seq<char>, Seq<char>)>) -> bool {
    forall|i: int, j: int| 0 <= i < j < ts.len() ==> key_less(#[trigger] ts[i].0, #[trigger] ts[j].0)
}

/// Whether the targets are in the order of their names, each name once.
pub fn targets_in_order(targets: &Vec<(String, ExtensionTarget)>) -> (r: bool)
    ensures
        r == targets_sorted(target_texts(targets@)),
{
    let ghost ts = target_texts(targets@);
    let n = targets.len();
    if n == 0 {
        return true;
    }
    let mut i: usize = 0;
    while i + 1 < n
        invariant
            n == targets@.len(),
            ts == target_texts(targets@),
            0 <= i < n,
            forall|a: int, b: int| 0 <= a < b <= i ==> key_less(#[trigger] ts[a].0, #[trigger] ts[b].0),
        decreases n - i,
    {
        if !str_less(targets[i].0.as_str(), targets[i + 1].0.as_str()) {
            proof {
                assert(ts[i as int].0 == targets@[i as int].0@);
                assert(ts[i + 1].0 == targets@[i + 1].0@);
            }
            return false;
        }
        proof {
            assert(ts[i as int].0 == targets@[i as int].0@);
            assert(ts[i + 1].0 == targets@[i + 1].0@);
            assert forall|a: int, b: int| 0 <= a < b <= i + 1 implies key_less(
                #[trigger] ts[a].0,
                #[trigger] ts[b].0,
            ) by {
                if b == i + 1 && a < i {
                    crate::ordered_key::lemma_key_less_transitive(ts[a].0, ts[i as int].0, ts[b].0);
                }
            }
        }
        i = i + 1;
    }
    true
}

/// Accepts a manifest only when it follows every rule of `manifest_validation`.
/// Its targets come as a manifest holds them: in order, without repetition.
#[verifier::loop_isolation(false)]
pub fn validate_manifest(manifest: &ExtensionManifest) -> (result: Result<(), ExtensionPackageError>)
    requires
        targets_sorted(target_texts(manifest.targets@)),
    ensures
        match result {
            Ok(()) => manifest_validation(*manifest) is None,
            Err(e) => manifest_validation(*manifest) == Some(e@),
        },
{
    if !str_equal(manifest.format.as_str(), MANIFEST_FORMAT) || manifest.manifest_version
        != MANIFEST_VERSION {
        return Err(manifest_error("unsupported manifest format"));
    }
    if !is_valid_extension_id(manifest.id.as_str()) {
        return Err(manifest_error("invalid extension id"));
    }
    if is_builtin_extension_id(manifest.id.as_str()) {
        return Err(manifest_error("external packages cannot use a built-in extension id"));
    }
    if let Some(message) = version_parse_error(manifest.version.as_str()) {
        return Err(ExtensionPackageError::Manifest(message));
    }
    if let Some(message) = requirement_parse_error(manifest.host_api.as_str()) {
        return Err(ExtensionPackageError::Manifest(message));
    }
    if let Some(message) = version_parse_error(HOST_API_VERSION) {
        return Err(ExtensionPackageError::Manifest(message));
    }
    if !requirement_matches(manifest.host_api.as_str(), HOST_API_VERSION) {
        let message = String::from_str("host API requirement ").concat(manifest.host_api.as_str()).concat(
            " does not match ",
        ).concat(HOST_API_VERSION);
        return Err(ExtensionPackageError::Manifest(message));
    }
    let n = manifest.targets.len();
    if n == 0 {
        return Err(manifest_error("manifest has no target entrypoints"));
    }
    let ghost ts = target_texts(manifest.targets@);
    proof {
        assert(ts.skip(0) =~= ts);
    }
    for i in 0..n
        invariant
            n == manifest.targets@.len(),
            ts == target_texts(manifest.targets@),
            first_target_error(ts) == first_target_error(ts.skip(i as int)),
    {
        proof {
            assert(ts.skip(i as int).drop_first() =~= ts.skip(i + 1));
            assert(ts.skip(i as int)[0] == ts[i as int]);
        }
        let target = manifest.targets[i].0.as_str();
        proof {
            assert(ts[i as int] == (target@, manifest.targets@[i as int].1.entrypoint@));
        }
        if !is_known_target(target) {
            return Err(manifest_error_with("unsupported extension target: ", target));
        }
        validate_target_entrypoint(target, &manifest.targets[i].1)?;
    }
    proof {
        assert(ts.skip(n as int).len() == 0);
    }
    if manifest.capabilities.len() > 0 {
        return Err(manifest_error("extension capabilities are reserved for a future manifest version"));
    }
    let ghost ps = texts(manifest.permissions@);
    let np = manifest.permissions.len();
    for i in 0..np
        invariant
            np == manifest.permissions@.len(),
            ps == texts(manifest.permissions@),
            permission_error_from(ps, 0) == permission_error_from(ps, i as int),
    {
        let permission = manifest.permissions[i].as_str();
        proof {
            assert(ps[i as int] == permission@);
            assert(texts(manifest.permissions@).take(i as int) =~= ps.take(i as int));
        }
        let allowed = str_equal(permission, "process.launch") || str_equal(permission, "clipboard.write");
        if !allowed {
            return Err(manifest_error_with("unsupported extension permission: ", permission));
        }
        if contains_text(&manifest.permissions, i, permission) {
            return Err(manifest_error_with("duplicate extension permission: ", permission));
        }
    }
    let ghost ds = texts(manifest.dependencies@);
    let nd = manifest.dependencies.len();
    for i in 0..nd
        invariant
            nd == manifest.dependencies@.len(),
            ds == texts(manifest.dependencies@),
            dependency_error_from(ds, manifest.id@, 0) == dependency_error_from(
                ds,
                manifest.id@,
                i as int,
            ),
    {
        let dependency = manifest.dependencies[i].as_str();
        proof {
            assert(ds[i as int] == dependency@);
            assert(texts(manifest.dependencies@).take(i as int) =~= ds.take(i as int));
        }
        if !is_valid_extension_id(dependency) {
            return Err(manifest_error_with("invalid extension dependency: ", dependency));
        }
        if str_equal(dependency, manifest.id.as_str()) {
            return Err(manifest_error("an extension cannot depend on itself"));
        }
        if contains_text(&manifest.dependencies, i, dependency) {
            return Err(manifest_error_with("duplicate extension dependency: ", dependency));
        }
    }
    if nd > 0 {
        return Err(manifest_error("extension dependencies require a future dependency resolver"));
    }
    if manifest.activation_events.len() > 0 {
        return Err(manifest_error("extension activation events are reserved for a future manifest version"));
    }
    match manifest.contributions {
        ManifestContributions::Other => Err(manifest_error(
            "extension manifest contributions are reserved for a future manifest version",
        )),
        _ => Ok(()),
    }
}

} // verus!
