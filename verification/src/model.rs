//! The project model: one document describing a workspace as a set of
//! compilation units (crates), their dependency edges, the sysroot, and
//! pre-built runnable invocations.
//!
//! Paths are held as plain strings; the separator is `/`.

use vstd::prelude::*;

verus! {

/// Language-edition tag of a crate. Informational only: the loader never
/// interprets it.
#[derive(Clone, Copy, Debug, PartialEq, Eq, Structural)]
pub enum Edition {
    Edition2015,
    Edition2018,
    Edition2021,
}

impl Default for Edition {
    /// The edition assumed when a document does not name one.
    fn default() -> (r: Edition)
        ensures
            r == Edition::Edition2021,
    {
        Edition::Edition2021
    }
}

/// What kind of build target a crate's build metadata describes.
#[derive(Clone, Copy, Debug, PartialEq, Eq, Structural)]
pub enum TargetKind {
    Bin,
    Lib,
    Example,
    Test,
    Bench,
    BuildScript,
    Other,
}

impl Default for TargetKind {
    /// The kind assumed when a document does not name one.
    fn default() -> (r: TargetKind)
        ensures
            r == TargetKind::Bin,
    {
        TargetKind::Bin
    }
}

/// Build-system-specific metadata attached to a crate: its label, the path
/// of the build description file, and the target kind.
#[derive(Clone, Debug, PartialEq, Eq)]
pub struct Build {
    pub label: String,
    pub build_file: String,
    pub target_kind: TargetKind,
}

/// An explicit file-set override for a crate: any file under an include
/// directory belongs to the crate unless it is also under an exclude
/// directory. The loader itself does not interpret this field; it is carried
/// for consumers of the model.
#[derive(Clone, Debug, PartialEq, Eq)]
pub struct Source {
    pub include_dirs: Vec<String>,
    pub exclude_dirs: Vec<String>,
}

/// A directed dependency edge: the index of the target crate in the owning
/// document's `crates` sequence, and the name under which the dependent
/// crate refers to it.
#[derive(Clone, Debug, PartialEq, Eq)]
pub struct Dep {
    pub crate_index: usize,
    pub name: String,
}

/// Sysroot paths: the toolchain root, and an optional separate path to just
/// the standard library sources when they are packaged apart.
#[derive(Clone, Debug, PartialEq, Eq)]
pub struct Sysroot {
    pub sysroot: String,
    pub sysroot_src: Option<String>,
}

/// A pre-built invocation descriptor, passed through the loader unmodified.
#[derive(Clone, Debug, PartialEq, Eq)]
pub struct Runnable {
    pub program: String,
    pub args: Vec<String>,
    pub cwd: String,
    pub kind: RunnableKind,
}

/// The kind of a runnable: a plain check, a lint-only check, a run, or a
/// single-test run.
#[derive(Clone, Copy, Debug, PartialEq, Eq, Structural)]
pub enum RunnableKind {
    Check,
    Flycheck,
    Run,
    TestOne,
}

/// One logical compilation unit.
#[derive(Clone, Debug, PartialEq, Eq)]
pub struct Crate {
    /// Cosmetic name. A crate without one cannot be resolved to a loadable
    /// unit and is silently dropped from loading.
    pub display_name: Option<String>,
    /// Absolute path of the unit's entry source file. The unit's source root
    /// is this path's parent directory.
    pub root_module: String,
    pub edition: Edition,
    /// Dependency edges; every `crate_index` is expected to lie within the
    /// owning document's `crates` sequence, but the model does not reject a
    /// dangling index at construction time (see `first_invalid_dep`).
    pub deps: Vec<Dep>,
    /// Whether the unit is local (edited, re-scanned) rather than vendored.
    pub is_workspace_member: bool,
    pub source: Option<Source>,
    /// Activated conditional-compilation flags; order-insensitive.
    pub cfg: Vec<String>,
    pub target: Option<String>,
    pub build: Option<Build>,
    /// Environment scoped to this unit, as (name, value) pairs.
    pub env: Vec<(String, String)>,
    pub is_proc_macro: bool,
    /// Required when `is_proc_macro` is true; the model does not enforce it.
    pub proc_macro_dylib_path: Option<String>,
}

impl Default for Build {
    /// A build entry with empty label and path, of the default kind.
    fn default() -> (r: Build)
        ensures
            r.label@ == Seq::<char>::empty(),
            r.build_file@ == Seq::<char>::empty(),
            r.target_kind == TargetKind::Bin,
    {
        Build { label: String::new(), build_file: String::new(), target_kind: TargetKind::Bin }
    }
}

impl Default for Source {
    /// An override with no include and no exclude directories.
    fn default() -> (r: Source)
        ensures
            r.include_dirs@ == Seq::<String>::empty(),
            r.exclude_dirs@ == Seq::<String>::empty(),
    {
        Source { include_dirs: Vec::new(), exclude_dirs: Vec::new() }
    }
}

impl Default for Crate {
    /// An empty, anonymous, non-member crate of the default edition, with no
    /// edges, flags, environment or overrides.
    fn default() -> (r: Crate)
        ensures
            r.display_name is None,
            r.root_module@ == Seq::<char>::empty(),
            r.edition == Edition::Edition2021,
            r.deps@ == Seq::<Dep>::empty(),
            !r.is_workspace_member,
            r.source is None,
            r.cfg@ == Seq::<String>::empty(),
            r.target is None,
            r.build is None,
            r.env@ == Seq::<(String, String)>::empty(),
            !r.is_proc_macro,
            r.proc_macro_dylib_path is None,
    {
        Crate {
            display_name: None,
            root_module: String::new(),
            edition: Edition::Edition2021,
            deps: Vec::new(),
            is_workspace_member: false,
            source: None,
            cfg: Vec::new(),
            target: None,
            build: None,
            env: Vec::new(),
            is_proc_macro: false,
            proc_macro_dylib_path: None,
        }
    }
}

/// The root document: the sysroot, every crate (including all transitive
/// dependencies and the sysroot's own crates — a producer contract), the
/// runnables, and an opaque generator tag.
#[derive(Clone, Debug, PartialEq, Eq)]
pub struct Project {
    pub sysroot: Sysroot,
    pub crates: Vec<Crate>,
    pub runnables: Vec<Runnable>,
    pub generated: String,
}

/// Whether every dependency edge of every crate points inside the crate
/// sequence.
pub open spec fn all_deps_in_range(cs: Seq<Crate>) -> bool {
    forall|i: int, j: int|
        0 <= i < cs.len() && 0 <= j < cs[i].deps@.len() ==> (#[trigger] cs[i].deps@[j]).crate_index
            < cs.len()
}

/// Find the first dangling dependency edge, walking crates in order and
/// each crate's edges in order: the (crate index, edge index) of the first
/// edge whose target index is out of range, or nothing when every edge is
/// in range. The model itself never rejects a dangling edge; a consumer
/// that walks `deps` detects it with this pass.
pub fn first_invalid_dep(crates: &Vec<Crate>) -> (r: Option<(usize, usize)>)
    ensures
        (r is None) == all_deps_in_range(crates@),
        r matches Some((i, j)) ==> {
            &&& i < crates@.len()
            &&& j < crates@[i as int].deps@.len()
            &&& crates@[i as int].deps@[j as int].crate_index >= crates@.len()
            &&& forall|p: int, q: int|
                0 <= p < crates@.len() && 0 <= q < crates@[p].deps@.len() && (p < i || (p == i && q
                    < j)) ==> (#[trigger] crates@[p].deps@[q]).crate_index < crates@.len()
        },
{
    let n = crates.len();
    let mut i: usize = 0;
    while i < n
        invariant
            n == crates@.len(),
            i <= n,
            forall|p: int, q: int|
                0 <= p < i && 0 <= q < crates@[p].deps@.len() ==> (#[trigger] crates@[p].deps@[q]).crate_index
                    < n,
        decreases n - i,
    {
        let m = crates[i].deps.len();
        let mut j: usize = 0;
        while j < m
            invariant
                n == crates@.len(),
                i < n,
                m == crates@[i as int].deps@.len(),
                j <= m,
                forall|p: int, q: int|
                    0 <= p < i && 0 <= q < crates@[p].deps@.len() ==> (#[trigger] crates@[p].deps@[q]).crate_index
                        < n,
                forall|q: int|
                    0 <= q < j ==> (#[trigger] crates@[i as int].deps@[q]).crate_index < n,
            decreases m - j,
        {
            if crates[i].deps[j].crate_index >= n {
                return Some((i, j));
            }
            j = j + 1;
        }
        i = i + 1;
    }
    None
}

} // verus!
