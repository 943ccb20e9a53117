//! The manifest type: a closed tagged union over the three recognized
//! manifest forms, each carrying one absolute path; classification of a
//! single path by file name; and the total order (variant tag, then path)
//! used for deduplication and deterministic sorting. The order has no
//! semantic meaning beyond reproducibility.
use vstd::prelude::*;

use crate::abs_path::{
    lemma_path_cmp_eq, lemma_path_cmp_from_flip, lemma_path_cmp_from_refl, lemma_path_cmp_trans,
    path_cmp, path_cmp_exec, AbsPath,
};
use crate::bytestr::{
    package_manifest_name, package_manifest_name_exec, structured_project_name,
    structured_project_name_exec,
};
use crate::error::ProjectError;

verus! {

/// The three recognized manifest forms.
#[derive(Clone, Copy, Debug, PartialEq, Eq, Structural)]
pub enum ManifestKind {
    /// A standalone structured project description file.
    StructuredProject,
    /// A package manifest file.
    PackageManifest,
    /// A single source file that is itself a manifest-bearing script.
    StandaloneScript,
}

/// The mathematical value of a manifest: its kind and the components of the
/// absolute path it carries.
#[verifier::ext_equal]
pub struct ManifestView {
    pub kind: ManifestKind,
    pub path: Seq<Seq<u8>>,
}

/// A manifest that anchors a source tree, in one of three forms, each
/// carrying the absolute path of the file.
#[derive(Clone, Debug, PartialEq, Eq)]
pub enum ProjectManifest {
    /// A structured project description (`rust-project.json`).
    ProjectJson(AbsPath),
    /// A package manifest (`Cargo.toml`).
    CargoToml(AbsPath),
    /// A standalone script with embedded manifest metadata.
    RustScript(AbsPath),
}

impl View for ProjectManifest {
    type V = ManifestView;

    open spec fn view(&self) -> ManifestView {
        match self {
            ProjectManifest::ProjectJson(p) => ManifestView {
                kind: ManifestKind::StructuredProject,
                path: p@,
            },
            ProjectManifest::CargoToml(p) => ManifestView {
                kind: ManifestKind::PackageManifest,
                path: p@,
            },
            ProjectManifest::RustScript(p) => ManifestView {
                kind: ManifestKind::StandaloneScript,
                path: p@,
            },
        }
    }
}

/// The rank of a variant tag in the total order.
pub open spec fn kind_rank(k: ManifestKind) -> int {
    match k {
        ManifestKind::StructuredProject => 0,
        ManifestKind::PackageManifest => 1,
        ManifestKind::StandaloneScript => 2,
    }
}

/// Three-way comparison of manifests: by variant tag first, then by the path
/// order.
pub open spec fn manifest_cmp(a: ManifestView, b: ManifestView) -> int {
    if kind_rank(a.kind) < kind_rank(b.kind) {
        -1
    } else if kind_rank(a.kind) > kind_rank(b.kind) {
        1
    } else {
        path_cmp(a.path, b.path)
    }
}

/// The manifest comparison is antisymmetric: swapping the arguments flips
/// the sign.
pub proof fn lemma_manifest_cmp_flip(a: ManifestView, b: ManifestView)
    ensures
        manifest_cmp(a, b) == -manifest_cmp(b, a),
{
    lemma_path_cmp_from_flip(a.path, b.path, 0);
}

/// A manifest compares equal to itself.
pub proof fn lemma_manifest_cmp_refl(a: ManifestView)
    ensures
        manifest_cmp(a, a) == 0,
{
    lemma_path_cmp_from_refl(a.path, 0);
}

/// A zero comparison means the manifests are equal.
pub proof fn lemma_manifest_cmp_eq(a: ManifestView, b: ManifestView)
    requires
        manifest_cmp(a, b) == 0,
    ensures
        a == b,
{
    lemma_path_cmp_eq(a.path, b.path);
    assert(a =~= b);
}

/// The manifest order is transitive; a tie forces ties on both sides.
pub proof fn lemma_manifest_cmp_trans(a: ManifestView, b: ManifestView, c: ManifestView)
    requires
        manifest_cmp(a, b) <= 0,
        manifest_cmp(b, c) <= 0,
    ensures
        manifest_cmp(a, c) <= 0,
        manifest_cmp(a, c) == 0 ==> manifest_cmp(a, b) == 0 && manifest_cmp(b, c) == 0,
{
    if kind_rank(a.kind) == kind_rank(b.kind) && kind_rank(b.kind) == kind_rank(c.kind) {
        lemma_path_cmp_trans(a.path, b.path, c.path);
    }
}

impl ProjectManifest {
    /// The rank of this manifest's variant tag.
    pub fn rank(&self) -> (r: u8)
        ensures
            r as int == kind_rank(self@.kind),
    {
        match self {
            ProjectManifest::ProjectJson(_) => 0,
            ProjectManifest::CargoToml(_) => 1,
            ProjectManifest::RustScript(_) => 2,
        }
    }

    /// The absolute path this manifest carries.
    pub fn manifest_path(&self) -> (r: &AbsPath)
        ensures
            r@ == self@.path,
    {
        match self {
            ProjectManifest::ProjectJson(p) => p,
            ProjectManifest::CargoToml(p) => p,
            ProjectManifest::RustScript(p) => p,
        }
    }

    /// A deep copy with an equal view.
    pub fn duplicate(&self) -> (r: ProjectManifest)
        ensures
            r@ == self@,
    {
        match self {
            ProjectManifest::ProjectJson(p) => ProjectManifest::ProjectJson(p.duplicate()),
            ProjectManifest::CargoToml(p) => ProjectManifest::CargoToml(p.duplicate()),
            ProjectManifest::RustScript(p) => ProjectManifest::RustScript(p.duplicate()),
        }
    }

    /// Classifies one concrete path by its file name: the structured-project
    /// name yields a structured-project manifest, the package-manifest name a
    /// package manifest, and any other path is rejected with
    /// `InvalidManifest` carrying the path. This classification never
    /// performs filesystem reads and never yields a standalone script: that
    /// variant is only ever produced by discovery, which detects scripts by
    /// content, not by name alone.
    pub fn from_manifest_file(path: AbsPath) -> (r: Result<ProjectManifest, ProjectError>)
        ensures
            path.spec_ends_with(structured_project_name()) ==> (r matches Ok(m) && m@
                == (ManifestView { kind: ManifestKind::StructuredProject, path: path@ })),
            !path.spec_ends_with(structured_project_name()) && path.spec_ends_with(
                package_manifest_name(),
            ) ==> (r matches Ok(m) && m@ == (ManifestView {
                kind: ManifestKind::PackageManifest,
                path: path@,
            })),
            !path.spec_ends_with(structured_project_name()) && !path.spec_ends_with(
                package_manifest_name(),
            ) ==> (r matches Err(e) && e matches ProjectError::InvalidManifest(p) && p@ == path@),
    {
        let structured = structured_project_name_exec();
        if path.ends_with_name(&structured) {
            return Ok(ProjectManifest::ProjectJson(path));
        }
        let package = package_manifest_name_exec();
        if path.ends_with_name(&package) {
            return Ok(ProjectManifest::CargoToml(path));
        }
        Err(ProjectError::InvalidManifest(path))
    }
}

/// Executable three-way comparison of two manifests, agreeing with
/// `manifest_cmp`.
pub fn manifest_cmp_exec(a: &ProjectManifest, b: &ProjectManifest) -> (r: i8)
    ensures
        r < 0 <==> manifest_cmp(a@, b@) < 0,
        r == 0 <==> manifest_cmp(a@, b@) == 0,
        r > 0 <==> manifest_cmp(a@, b@) > 0,
{
    let ra = a.rank();
    let rb = b.rank();
    if ra < rb {
        -1
    } else if ra > rb {
        1
    } else {
        path_cmp_exec(a.manifest_path(), b.manifest_path())
    }
}

} // verus!
