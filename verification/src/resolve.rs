//! The single-location resolver. Given one absolute starting path, discovery
//! proceeds with a fixed precedence: first an upward walk through the
//! starting path and every ancestor looking for the structured-project file,
//! which on a hit wins completely; otherwise two independent searches — the
//! same upward walk for the package-manifest name, falling back to a scan of
//! the immediate children for subdirectories holding a package manifest, and
//! a scan of the immediate children for standalone scripts — whose results
//! are concatenated, package manifests first. A read failure in one branch
//! degrades to an empty branch; only when the package branch's listing
//! failed and nothing at all was found does the failure surface.
//!
//! The resolver itself performs no filesystem reads: it consumes a
//! `DiscoverInput`, the record of what one pass over the tree observed (the
//! per-ancestor existence checks and the two independent child listings),
//! and is a pure, verified function of that observation.
use vstd::prelude::*;

use crate::abs_path::AbsPath;
use crate::bytestr::{
    package_manifest_name, package_manifest_name_exec, structured_project_name,
    structured_project_name_exec,
};
use crate::error::ProjectError;
use crate::manifest::{ManifestKind, ManifestView, ProjectManifest};
use crate::script::{script_accepted, script_accepted_exec, ScriptCandidate, ScriptCandidateView};

verus! {

/// What discovery observed about one directory entry while looking for
/// package manifests one level below the starting path: the entry's resolved
/// absolute path, and whether a package-manifest file exists directly inside
/// it.
pub struct PackageCandidate {
    pub path: AbsPath,
    pub has_manifest: bool,
}

/// The mathematical value of a package-search candidate.
#[verifier::ext_equal]
pub struct PackageCandidateView {
    pub path: Seq<Seq<u8>>,
    pub has_manifest: bool,
}

impl View for PackageCandidate {
    type V = PackageCandidateView;

    open spec fn view(&self) -> PackageCandidateView {
        PackageCandidateView { path: self.path@, has_manifest: self.has_manifest }
    }
}

/// The record of one pass over the tree around a starting path: existence of
/// the two recognized manifest names at the starting path and every ancestor
/// (index 0 is the starting path itself, the last index the filesystem
/// root), and the two independent listings of the starting path's immediate
/// children, each either the observed entries or the text of the read error.
pub struct DiscoverInput {
    pub start: AbsPath,
    pub structured_above: Vec<bool>,
    pub package_above: Vec<bool>,
    pub package_children: Result<Vec<PackageCandidate>, String>,
    pub script_children: Result<Vec<ScriptCandidate>, String>,
}

/// The mathematical value of an observation record.
#[verifier::ext_equal]
pub struct DiscoverInputView {
    pub start: Seq<Seq<u8>>,
    pub structured_above: Seq<bool>,
    pub package_above: Seq<bool>,
    pub package_children: Result<Seq<PackageCandidateView>, Seq<char>>,
    pub script_children: Result<Seq<ScriptCandidateView>, Seq<char>>,
}

/// The views of a sequence of package-search candidates.
pub open spec fn package_candidate_views(s: Seq<PackageCandidate>) -> Seq<PackageCandidateView> {
    s.map_values(|e: PackageCandidate| e@)
}

/// The views of a sequence of script-search candidates.
pub open spec fn script_candidate_views(s: Seq<ScriptCandidate>) -> Seq<ScriptCandidateView> {
    s.map_values(|e: ScriptCandidate| e@)
}

/// The views of a sequence of paths.
pub open spec fn path_views(s: Seq<AbsPath>) -> Seq<Seq<Seq<u8>>> {
    s.map_values(|p: AbsPath| p@)
}

/// The views of a sequence of manifests.
pub open spec fn manifest_views(s: Seq<ProjectManifest>) -> Seq<ManifestView> {
    s.map_values(|m: ProjectManifest| m@)
}

impl View for DiscoverInput {
    type V = DiscoverInputView;

    open spec fn view(&self) -> DiscoverInputView {
        DiscoverInputView {
            start: self.start@,
            structured_above: self.structured_above@,
            package_above: self.package_above@,
            package_children: match self.package_children {
                Ok(v) => Ok(package_candidate_views(v@)),
                Err(m) => Err(m@),
            },
            script_children: match self.script_children {
                Ok(v) => Ok(script_candidate_views(v@)),
                Err(m) => Err(m@),
            },
        }
    }
}

impl DiscoverInputView {
    /// The existence observations cover the starting path and each of its
    /// ancestors up to the root, one flag per level.
    pub open spec fn wf(self) -> bool {
        &&& self.structured_above.len() == self.start.len() + 1
        &&& self.package_above.len() == self.start.len() + 1
    }
}

/// The index of the first set flag at or after `i`, if any.
pub open spec fn first_true(flags: Seq<bool>, i: int) -> Option<int>
    decreases flags.len() - i when i >= 0
{
    if i < 0 {
        None
    } else if i >= flags.len() {
        None
    } else if flags[i] {
        Some(i)
    } else {
        first_true(flags, i + 1)
    }
}

/// The upward walk: when the starting path itself names the target file it
/// is the result; otherwise the first level (starting path, then each
/// ancestor) whose existence flag is set yields that ancestor joined with
/// the target name; with no set flag the walk finds nothing.
pub open spec fn upward_find(
    start: Seq<Seq<u8>>,
    name: Seq<u8>,
    flags: Seq<bool>,
) -> Option<Seq<Seq<u8>>> {
    if start.len() > 0 && start.last() == name {
        Some(start)
    } else {
        match first_true(flags, 0) {
            Some(i) => Some(start.take(start.len() - i).push(name)),
            None => None,
        }
    }
}

/// The paths found by the one-level package scan: for each observed child
/// that directly holds a package manifest, the child's path joined with the
/// package-manifest name, in directory-iteration order.
pub open spec fn package_child_paths(entries: Seq<PackageCandidateView>) -> Seq<Seq<Seq<u8>>>
    decreases entries.len(),
{
    if entries.len() == 0 {
        Seq::empty()
    } else {
        let rest = package_child_paths(entries.drop_last());
        if entries.last().has_manifest {
            rest.push(entries.last().path.push(package_manifest_name()))
        } else {
            rest
        }
    }
}

/// The paths found by the one-level script scan: each observed child the
/// detector accepts, in directory-iteration order.
pub open spec fn script_child_paths(entries: Seq<ScriptCandidateView>) -> Seq<Seq<Seq<u8>>>
    decreases entries.len(),
{
    if entries.len() == 0 {
        Seq::empty()
    } else {
        let rest = script_child_paths(entries.drop_last());
        if script_accepted(entries.last()) {
            rest.push(entries.last().path)
        } else {
            rest
        }
    }
}

/// Paths wrapped as manifests of one kind.
pub open spec fn as_kind(paths: Seq<Seq<Seq<u8>>>, kind: ManifestKind) -> Seq<ManifestView> {
    paths.map_values(|p: Seq<Seq<u8>>| ManifestView { kind, path: p })
}

/// What resolution returns for one observation record: the structured
/// project found upward, if any, alone; otherwise the package branch
/// (upward hit, else child matches) concatenated with the script branch,
/// where a failed branch degrades to nothing, and only both branches failing
/// surfaces the package branch's read error.
pub open spec fn discover_spec(iv: DiscoverInputView) -> Result<Seq<ManifestView>, Seq<char>> {
    match upward_find(iv.start, structured_project_name(), iv.structured_above) {
        Some(p) => Ok(seq![ManifestView { kind: ManifestKind::StructuredProject, path: p }]),
        None => {
            let cargo = match upward_find(iv.start, package_manifest_name(), iv.package_above) {
                Some(p) => Ok(seq![p]),
                None => match iv.package_children {
                    Ok(es) => Ok(package_child_paths(es)),
                    Err(m) => Err(m),
                },
            };
            let scripts = match iv.script_children {
                Ok(es) => Ok(script_child_paths(es)),
                Err(m) => Err(m),
            };
            match (cargo, scripts) {
                (Ok(c), Ok(s)) => Ok(
                    as_kind(c, ManifestKind::PackageManifest) + as_kind(
                        s,
                        ManifestKind::StandaloneScript,
                    ),
                ),
                (Ok(c), Err(_)) => Ok(as_kind(c, ManifestKind::PackageManifest)),
                (Err(_), Ok(s)) => Ok(as_kind(s, ManifestKind::StandaloneScript)),
                (Err(m), Err(_)) => Err(m),
            }
        },
    }
}

/// The executable upward walk over the recorded existence flags.
fn find_upward_exec(start: &AbsPath, name: &Vec<u8>, flags: &Vec<bool>) -> (r: Option<AbsPath>)
    requires
        flags@.len() == start@.len() + 1,
    ensures
        r matches Some(p) ==> upward_find(start@, name@, flags@) == Some(p@),
        r is None ==> upward_find(start@, name@, flags@) is None,
{
    if start.ends_with_name(name) {
        return Some(start.duplicate());
    }
    let mut i: usize = 0;
    while i < flags.len()
        invariant
            0 <= i <= flags@.len(),
            flags@.len() == start@.len() + 1,
            start@.len() == start.components@.len(),
            !(start@.len() > 0 && start@.last() == name@),
            first_true(flags@, 0) == first_true(flags@, i as int),
        decreases flags@.len() - i,
    {
        if flags[i] {
            let keep = start.components.len() - i;
            let anc = start.prefix(keep);
            let cand = anc.join(name);
            return Some(cand);
        }
        i += 1;
    }
    None
}

/// The executable one-level package scan over the observed children.
fn package_children_exec(entries: &Vec<PackageCandidate>, name: &Vec<u8>) -> (r: Vec<AbsPath>)
    requires
        name@ == package_manifest_name(),
    ensures
        path_views(r@) == package_child_paths(package_candidate_views(entries@)),
{
    let mut r: Vec<AbsPath> = Vec::new();
    let mut i: usize = 0;
    while i < entries.len()
        invariant
            0 <= i <= entries@.len(),
            name@ == package_manifest_name(),
            path_views(r@) =~= package_child_paths(
                package_candidate_views(entries@).take(i as int),
            ),
        decreases entries@.len() - i,
    {
        proof {
            let xs = package_candidate_views(entries@);
            assert(xs.take(i + 1).drop_last() =~= xs.take(i as int));
            assert(xs.take(i + 1).last() == xs[i as int]);
        }
        if entries[i].has_manifest {
            r.push(entries[i].path.join(name));
        }
        proof {
            let xs = package_candidate_views(entries@);
            assert(path_views(r@) =~= package_child_paths(xs.take(i + 1)));
        }
        i += 1;
    }
    proof {
        let xs = package_candidate_views(entries@);
        assert(xs.take(xs.len() as int) =~= xs);
    }
    r
}

/// The executable one-level script scan over the observed children.
fn script_children_exec(entries: &Vec<ScriptCandidate>) -> (r: Vec<AbsPath>)
    ensures
        path_views(r@) == script_child_paths(script_candidate_views(entries@)),
{
    let mut r: Vec<AbsPath> = Vec::new();
    let mut i: usize = 0;
    while i < entries.len()
        invariant
            0 <= i <= entries@.len(),
            path_views(r@) =~= script_child_paths(script_candidate_views(entries@).take(i as int)),
        decreases entries@.len() - i,
    {
        proof {
            let xs = script_candidate_views(entries@);
            assert(xs.take(i + 1).drop_last() =~= xs.take(i as int));
            assert(xs.take(i + 1).last() == xs[i as int]);
        }
        if script_accepted_exec(&entries[i]) {
            r.push(entries[i].path.duplicate());
        }
        proof {
            let xs = script_candidate_views(entries@);
            assert(path_views(r@) =~= script_child_paths(xs.take(i + 1)));
        }
        i += 1;
    }
    proof {
        let xs = script_candidate_views(entries@);
        assert(xs.take(xs.len() as int) =~= xs);
    }
    r
}

/// Wraps found paths as package manifests, in order.
fn wrap_package(paths: &Vec<AbsPath>) -> (r: Vec<ProjectManifest>)
    ensures
        manifest_views(r@) == as_kind(path_views(paths@), ManifestKind::PackageManifest),
{
    let mut r: Vec<ProjectManifest> = Vec::new();
    let mut i: usize = 0;
    while i < paths.len()
        invariant
            0 <= i <= paths@.len(),
            r@.len() == i as int,
            manifest_views(r@) =~= as_kind(
                path_views(paths@).take(i as int),
                ManifestKind::PackageManifest,
            ),
        decreases paths@.len() - i,
    {
        let ghost r0 = r@;
        r.push(ProjectManifest::CargoToml(paths[i].duplicate()));
        proof {
            let pv = path_views(paths@);
            let lhs = manifest_views(r@);
            let rhs = as_kind(pv.take(i + 1), ManifestKind::PackageManifest);
            assert(r@ == r0.push(r@[i as int]));
            assert forall|j: int| 0 <= j < i + 1 implies lhs[j] == rhs[j] by {
                assert(rhs[j] == (ManifestView {
                    kind: ManifestKind::PackageManifest,
                    path: pv[j],
                }));
                if j < i {
                    assert(lhs[j] == manifest_views(r0)[j]);
                } else {
                    assert(lhs[j] == r@[i as int]@);
                    assert(r@[i as int]@.path == paths@[i as int]@);
                }
            }
            assert(lhs =~= rhs);
        }
        i += 1;
    }
    proof {
        assert(path_views(paths@).take(paths@.len() as int) =~= path_views(paths@));
        assert(manifest_views(r@) =~= as_kind(path_views(paths@), ManifestKind::PackageManifest));
    }
    r
}

/// Wraps found paths as standalone-script manifests, in order.
fn wrap_script(paths: &Vec<AbsPath>) -> (r: Vec<ProjectManifest>)
    ensures
        manifest_views(r@) == as_kind(path_views(paths@), ManifestKind::StandaloneScript),
{
    let mut r: Vec<ProjectManifest> = Vec::new();
    let mut i: usize = 0;
    while i < paths.len()
        invariant
            0 <= i <= paths@.len(),
            r@.len() == i as int,
            manifest_views(r@) =~= as_kind(
                path_views(paths@).take(i as int),
                ManifestKind::StandaloneScript,
            ),
        decreases paths@.len() - i,
    {
        let ghost r0 = r@;
        r.push(ProjectManifest::RustScript(paths[i].duplicate()));
        proof {
            let pv = path_views(paths@);
            let lhs = manifest_views(r@);
            let rhs = as_kind(pv.take(i + 1), ManifestKind::StandaloneScript);
            assert(r@ == r0.push(r@[i as int]));
            assert forall|j: int| 0 <= j < i + 1 implies lhs[j] == rhs[j] by {
                assert(rhs[j] == (ManifestView {
                    kind: ManifestKind::StandaloneScript,
                    path: pv[j],
                }));
                if j < i {
                    assert(lhs[j] == manifest_views(r0)[j]);
                } else {
                    assert(lhs[j] == r@[i as int]@);
                    assert(r@[i as int]@.path == paths@[i as int]@);
                }
            }
            assert(lhs =~= rhs);
        }
        i += 1;
    }
    proof {
        assert(path_views(paths@).take(paths@.len() as int) =~= path_views(paths@));
        assert(manifest_views(r@) =~= as_kind(path_views(paths@), ManifestKind::StandaloneScript));
    }
    r
}

impl ProjectManifest {
    /// Resolves one starting path from the record of what discovery observed
    /// around it, with the precedence policy of `discover_spec`: a
    /// structured project found upward wins completely; otherwise package
    /// manifests (upward, else one level down) come first and standalone
    /// scripts second; a branch whose listing failed degrades to nothing,
    /// and only when the package branch failed and nothing was found at all
    /// does its read error surface.
    pub fn discover(input: &DiscoverInput) -> (r: Result<Vec<ProjectManifest>, ProjectError>)
        requires
            input@.wf(),
        ensures
            discover_spec(input@) matches Ok(s) ==> (r matches Ok(v) && manifest_views(v@) == s),
            discover_spec(input@) matches Err(m) ==> (r matches Err(e) && e matches
                ProjectError::IoError(t) && t@ == m),
    {
        let structured = structured_project_name_exec();
        if let Some(p) = find_upward_exec(&input.start, &structured, &input.structured_above) {
            let mut out: Vec<ProjectManifest> = Vec::new();
            out.push(ProjectManifest::ProjectJson(p));
            proof {
                let s = discover_spec(input@);
                assert(manifest_views(out@) =~= s->Ok_0);
            }
            return Ok(out);
        }
        let package = package_manifest_name_exec();
        let cargo_paths: Result<Vec<AbsPath>, &String> = match find_upward_exec(
            &input.start,
            &package,
            &input.package_above,
        ) {
            Some(p) => {
                let mut v: Vec<AbsPath> = Vec::new();
                let ghost pv = p@;
                v.push(p);
                proof {
                    assert(path_views(v@) =~= seq![pv]);
                }
                Ok(v)
            },
            None => match &input.package_children {
                Ok(entries) => Ok(package_children_exec(entries, &package)),
                Err(m) => Err(m),
            },
        };
        let script_paths: Result<Vec<AbsPath>, &String> = match &input.script_children {
            Ok(entries) => Ok(script_children_exec(entries)),
            Err(m) => Err(m),
        };
        match (cargo_paths, script_paths) {
            (Ok(c), Ok(s)) => {
                let mut out = wrap_package(&c);
                let mut scripts = wrap_script(&s);
                let ghost out0 = out@;
                let ghost scr0 = scripts@;
                out.append(&mut scripts);
                proof {
                    assert(manifest_views(out@) =~= manifest_views(out0) + manifest_views(scr0));
                }
                Ok(out)
            },
            (Ok(c), Err(_)) => Ok(wrap_package(&c)),
            (Err(_), Ok(s)) => Ok(wrap_script(&s)),
            (Err(m), Err(_)) => Err(ProjectError::IoError(m.clone())),
        }
    }

    /// Resolves one starting path and requires exactly one manifest: zero
    /// discoverable manifests fail with `NoProjectFound`, two or more with
    /// `AmbiguousProject`, and exactly one is returned unwrapped. No search
    /// logic beyond `discover` is performed.
    pub fn discover_single(input: &DiscoverInput) -> (r: Result<ProjectManifest, ProjectError>)
        requires
            input@.wf(),
        ensures
            discover_spec(input@) matches Ok(s) ==> ((s.len() == 1 ==> (r matches Ok(m) && m@
                == s[0])) && (s.len() == 0 ==> (r matches Err(e) && e is NoProjectFound)) && (
            s.len() > 1 ==> (r matches Err(e) && e is AmbiguousProject))),
            discover_spec(input@) matches Err(m) ==> (r matches Err(e) && e matches
                ProjectError::IoError(t) && t@ == m),
    {
        let mut candidates = match ProjectManifest::discover(input) {
            Ok(v) => v,
            Err(e) => {
                return Err(e);
            },
        };
        let res = match candidates.pop() {
            None => {
                return Err(ProjectError::NoProjectFound);
            },
            Some(it) => it,
        };
        if candidates.len() > 0 {
            return Err(ProjectError::AmbiguousProject);
        }
        Ok(res)
    }
}

/// The first set flag is a set flag, no earlier flag is set, and a hit
/// exists exactly when some flag is set.
pub proof fn lemma_first_true_characterizes(flags: Seq<bool>, i: int)
    requires
        0 <= i,
    ensures
        (first_true(flags, i) is Some) <==> (exists|j: int| i <= j < flags.len() && flags[j]),
        first_true(flags, i) matches Some(k) ==> i <= k < flags.len() && flags[k] && (forall|
            j: int,
        | i <= j < k ==> !flags[j]),
    decreases flags.len() - i,
{
    if i < flags.len() && !flags[i] {
        lemma_first_true_characterizes(flags, i + 1);
    }
}

/// Precedence law: when the structured-project file exists at the starting
/// path or at any ancestor (its existence flag is set, or the starting path
/// itself names it) — whatever else the tree holds, package manifests and
/// scripts included — resolution returns exactly the structured-project
/// manifest found by the upward walk, and nothing else.
pub proof fn lemma_structured_project_precedence(iv: DiscoverInputView)
    requires
        iv.wf(),
        (iv.start.len() > 0 && iv.start.last() == structured_project_name()) || exists|i: int|
            0 <= i < iv.structured_above.len() && iv.structured_above[i],
    ensures
        upward_find(iv.start, structured_project_name(), iv.structured_above) is Some,
        discover_spec(iv) matches Ok(s) && s.len() == 1 && s[0] == (ManifestView {
            kind: ManifestKind::StructuredProject,
            path: upward_find(iv.start, structured_project_name(), iv.structured_above)->Some_0,
        }),
{
    lemma_first_true_characterizes(iv.structured_above, 0);
}

/// Idempotence: resolution is a pure function of the observed tree state —
/// it holds no cache and no mutable state — so two resolver runs over an
/// unchanged tree return equal, in particular set-equal, results.
pub proof fn lemma_resolution_idempotent(a: DiscoverInputView, b: DiscoverInputView)
    requires
        a == b,
    ensures
        discover_spec(a) == discover_spec(b),
        discover_spec(a) matches Ok(s1) ==> (discover_spec(b) matches Ok(s2) && (forall|
            m: ManifestView,
        | s1.contains(m) <==> s2.contains(m))),
{
}

} // verus!
