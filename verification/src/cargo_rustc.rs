//! The steps of a build: which directories to make and which calls of the
//! compiler to run, in what order.

use crate::errors::{CargoError, ProcessError};
use crate::manifest::{CrateType, Target, TargetKind, TargetView, target_views};
use crate::package::{graph_of, has_dependency_cycle, taken_in, Package, PackageSet, PackageView};
use crate::package_id::{PackageId, PackageIdView};
use crate::paths::{join, spec_join};
use crate::process::{process, ProcessBuilder, ProcessView};
use crate::text::{joined, join_words, string_views, to_str, utf8_lossy};
use vstd::prelude::*;

verus! {

/// A step of a build as plain values.
pub enum BuildStepView {
    MakeDir { path: Seq<char> },
    Announce { package: PackageIdView },
    Compile { command: ProcessView, primary: bool },
}

/// One thing to do in the course of a build.
#[derive(Debug, PartialEq, Eq)]
pub enum BuildStep {
    /// Make the directory `path` and those above it, for the user to read,
    /// write and search.
    MakeDir { path: String },
    /// Tell the user that `package` is compiled next.
    Announce { package: PackageId },
    /// Run the compiler. For the primary package its output goes to the
    /// user as it comes; for a dependency it is kept, and shown only if the
    /// compiler fails.
    Compile { command: ProcessBuilder, primary: bool },
}

impl View for BuildStep {
    type V = BuildStepView;

    open spec fn view(&self) -> BuildStepView {
        match self {
            BuildStep::MakeDir { path } => BuildStepView::MakeDir { path: path@ },
            BuildStep::Announce { package } => BuildStepView::Announce { package: package@ },
            BuildStep::Compile { command, primary } => BuildStepView::Compile {
                command: command@,
                primary: *primary,
            },
        }
    }
}

/// The steps of a list, each as plain values.
pub open spec fn step_views(steps: Seq<BuildStep>) -> Seq<BuildStepView> {
    steps.map_values(|s: BuildStep| s@)
}

/// The steps of a build, and the error that it ends in once they are done,
/// where it is known beforehand to end in one.
#[derive(Debug, PartialEq, Eq)]
pub struct BuildPlan {
    pub steps: Vec<BuildStep>,
    pub failure: Option<CargoError>,
}

/// The arguments for the source file and the output of one call of the
/// compiler.
pub open spec fn base_args(target: TargetView, crate_type: Seq<char>, dest: Seq<char>) -> Seq<
    Seq<char>,
> {
    seq![target.path, "--crate-type"@, crate_type, "--out-dir"@, dest]
}

/// The arguments that tell the compiler where the dependencies lie.
pub open spec fn deps_args(deps: Seq<char>) -> Seq<Seq<char>> {
    seq!["-L"@, deps]
}

/// The call of the compiler that builds `target` into `crate_type`: run in
/// `root`, on the source file of the target, with the output sent to `dest`
/// and the dependencies sought in `deps`, and with the variable that makes
/// the compiler log hidden from it.
pub open spec fn rustc_command(
    root: Seq<char>,
    target: TargetView,
    crate_type: CrateType,
    dest: Seq<char>,
    deps: Seq<char>,
) -> ProcessView {
    ProcessView {
        program: "rustc"@,
        args: base_args(target, crate_type.word(), dest) + deps_args(deps),
        cwd: root,
        unset: seq!["RUST_LOG"@],
    }
}

/// The calls of the compiler for one target: one for each kind of output,
/// in their order.
pub open spec fn target_steps(
    root: Seq<char>,
    target: TargetView,
    dest: Seq<char>,
    deps: Seq<char>,
    primary: bool,
) -> Seq<BuildStepView> {
    target.crate_types.map_values(
        |crate_type: CrateType|
            BuildStepView::Compile {
                command: rustc_command(root, target, crate_type, dest, deps),
                primary,
            },
    )
}

/// Whether a target is built: every target of the primary package, and of
/// the others the libraries.
pub open spec fn is_built(target: TargetView, primary: bool) -> bool {
    primary || target.kind == TargetKind::LibTarget
}

/// The calls of the compiler for the targets `targets` of a package, in
/// their order.
pub open spec fn targets_steps(
    root: Seq<char>,
    targets: Seq<TargetView>,
    dest: Seq<char>,
    deps: Seq<char>,
    primary: bool,
) -> Seq<BuildStepView>
    decreases targets.len(),
{
    if targets.len() == 0 {
        Seq::empty()
    } else {
        targets_steps(root, targets.drop_last(), dest, deps, primary) + (if is_built(
            targets.last(),
            primary,
        ) {
            target_steps(root, targets.last(), dest, deps, primary)
        } else {
            Seq::empty()
        })
    }
}

/// The calls of the compiler for a package.
pub open spec fn package_steps(
    pkg: PackageView,
    dest: Seq<char>,
    deps: Seq<char>,
    primary: bool,
) -> Seq<BuildStepView> {
    targets_steps(pkg.root(), pkg.manifest.targets, dest, deps, primary)
}

/// The steps that build the dependencies `packages` in their order, each
/// announced and then compiled into `deps_dir`.
pub open spec fn dependency_steps(packages: Seq<PackageView>, deps_dir: Seq<char>) -> Seq<
    BuildStepView,
>
    decreases packages.len(),
{
    if packages.len() == 0 {
        Seq::empty()
    } else {
        dependency_steps(packages.drop_last(), deps_dir) + seq![
            BuildStepView::Announce { package: packages.last().manifest.summary.package_id },
        ] + package_steps(packages.last(), deps_dir, deps_dir, false)
    }
}

/// The directory that the dependencies of `pkg` are compiled into.
pub open spec fn deps_dir_of(pkg: PackageView) -> Seq<char> {
    spec_join(pkg.absolute_target_dir(), "deps"@)
}

/// The steps that make the two directories that a build of `pkg` writes
/// to.
pub open spec fn directory_steps(pkg: PackageView) -> Seq<BuildStepView> {
    seq![
        BuildStepView::MakeDir { path: pkg.absolute_target_dir() },
        BuildStepView::MakeDir { path: deps_dir_of(pkg) },
    ]
}

/// The steps that build `pkg` after its dependencies `sorted`, which stand
/// in the order in which they must be built.
pub open spec fn build_steps(pkg: PackageView, sorted: Seq<PackageView>) -> Seq<BuildStepView> {
    directory_steps(pkg) + dependency_steps(sorted, deps_dir_of(pkg)) + seq![
        BuildStepView::Announce { package: pkg.manifest.summary.package_id },
    ] + package_steps(pkg, pkg.absolute_target_dir(), deps_dir_of(pkg), true)
}

/// Whether `steps` and `failed` are the plan of building `pkg` with the
/// dependencies `deps`: the directories are made; then, where the
/// dependencies can be put in order, they are built in that order and the
/// package after them; where they cannot, the build fails.
pub open spec fn is_plan(
    pkg: PackageView,
    deps: Seq<PackageView>,
    steps: Seq<BuildStepView>,
    failed: bool,
) -> bool {
    match graph_of(deps).order() {
        Some(order) => !failed && steps == build_steps(pkg, taken_in(deps, order)),
        None => failed && steps == directory_steps(pkg),
    }
}

/// The call of the compiler that builds the target at place `t` of
/// `targets` into the kind of output at place `c` of its kinds.
pub open spec fn call_of(
    root: Seq<char>,
    targets: Seq<TargetView>,
    t: int,
    c: int,
    dest: Seq<char>,
    deps: Seq<char>,
    primary: bool,
) -> BuildStepView {
    BuildStepView::Compile {
        command: rustc_command(root, targets[t], targets[t].crate_types[c], dest, deps),
        primary,
    }
}

/// Whether `step` calls the compiler on one of `targets` that is built,
/// for one of its kinds of output, with the output sent to `dest` and the
/// dependencies sought in `deps`.
pub open spec fn is_call_for(
    step: BuildStepView,
    root: Seq<char>,
    targets: Seq<TargetView>,
    dest: Seq<char>,
    deps: Seq<char>,
    primary: bool,
) -> bool {
    exists|t: int, c: int|
        0 <= t < targets.len() && 0 <= c < targets[t].crate_types.len() && is_built(
            targets[t],
            primary,
        ) && step == #[trigger] call_of(root, targets, t, c, dest, deps, primary)
}

/// Every step among the calls of the compiler for some targets calls it on
/// one of them that is built: for a package that is not the primary one, on
/// a library.
pub proof fn only_built_targets_are_compiled(
    root: Seq<char>,
    targets: Seq<TargetView>,
    dest: Seq<char>,
    deps: Seq<char>,
    primary: bool,
    k: int,
)
    requires
        0 <= k < targets_steps(root, targets, dest, deps, primary).len(),
    ensures
        is_call_for(
            targets_steps(root, targets, dest, deps, primary)[k],
            root,
            targets,
            dest,
            deps,
            primary,
        ),
    decreases targets.len(),
{
    let fewer = targets.drop_last();
    let before = targets_steps(root, fewer, dest, deps, primary);
    let step = targets_steps(root, targets, dest, deps, primary)[k];
    if k < before.len() {
        only_built_targets_are_compiled(root, fewer, dest, deps, primary, k);
        let (t, c) = choose|t: int, c: int|
            0 <= t < fewer.len() && 0 <= c < fewer[t].crate_types.len() && is_built(
                fewer[t],
                primary,
            ) && step == #[trigger] call_of(root, fewer, t, c, dest, deps, primary);
        assert(fewer[t] == targets[t]);
        assert(step == call_of(root, targets, t, c, dest, deps, primary));
    } else {
        let t = targets.len() - 1;
        let c = k - before.len();
        assert(step == call_of(root, targets, t, c, dest, deps, primary));
    }
}

/// A call of the compiler names the source file of its target first, sends
/// the output to `dest` and seeks the dependencies in `deps`; and where the
/// package is not the primary one, the target is a library.
pub proof fn call_names_source_and_directories(
    step: BuildStepView,
    root: Seq<char>,
    targets: Seq<TargetView>,
    dest: Seq<char>,
    deps: Seq<char>,
    primary: bool,
)
    requires
        is_call_for(step, root, targets, dest, deps, primary),
    ensures
        step matches BuildStepView::Compile { command, primary: p } && {
            &&& p == primary
            &&& command.program == "rustc"@
            &&& command.cwd == root
            &&& command.args.len() == 7
            &&& exists|t: int|
                0 <= t < targets.len() && command.args[0] == (#[trigger] targets[t]).path && (
                !primary ==> targets[t].kind == TargetKind::LibTarget)
            &&& command.args[3] == "--out-dir"@
            &&& command.args[4] == dest
            &&& command.args[5] == "-L"@
            &&& command.args[6] == deps
        },
{
    let (t, c) = choose|t: int, c: int|
        0 <= t < targets.len() && 0 <= c < targets[t].crate_types.len() && is_built(
            targets[t],
            primary,
        ) && step == #[trigger] call_of(root, targets, t, c, dest, deps, primary);
    let command = rustc_command(root, targets[t], targets[t].crate_types[c], dest, deps);
    assert(command.args[0] == targets[t].path);
}

/// Whether `step` belongs to the build of the package `pkg` as a
/// dependency: it announces the package, or compiles one of its libraries
/// into `deps_dir`.
pub open spec fn is_dependency_step(step: BuildStepView, pkg: PackageView, deps_dir: Seq<char>) -> bool {
    step == (BuildStepView::Announce { package: pkg.manifest.summary.package_id })
        || is_call_for(step, pkg.root(), pkg.manifest.targets, deps_dir, deps_dir, false)
}

/// Every step that builds the dependencies belongs to the build of one of
/// them.
pub proof fn dependency_steps_build_dependencies(
    packages: Seq<PackageView>,
    deps_dir: Seq<char>,
    k: int,
)
    requires
        0 <= k < dependency_steps(packages, deps_dir).len(),
    ensures
        exists|i: int|
            0 <= i < packages.len() && is_dependency_step(
                dependency_steps(packages, deps_dir)[k],
                #[trigger] packages[i],
                deps_dir,
            ),
    decreases packages.len(),
{
    let fewer = packages.drop_last();
    let before = dependency_steps(fewer, deps_dir);
    let step = dependency_steps(packages, deps_dir)[k];
    let last = packages.last();
    if k < before.len() {
        dependency_steps_build_dependencies(fewer, deps_dir, k);
        let i = choose|i: int|
            0 <= i < fewer.len() && is_dependency_step(step, #[trigger] fewer[i], deps_dir);
        assert(fewer[i] == packages[i]);
    } else if k == before.len() {
        assert(is_dependency_step(step, packages[packages.len() - 1], deps_dir));
    } else {
        only_built_targets_are_compiled(
            last.root(),
            last.manifest.targets,
            deps_dir,
            deps_dir,
            false,
            k - before.len() - 1,
        );
        assert(is_dependency_step(step, packages[packages.len() - 1], deps_dir));
    }
}

/// Every step of a build makes one of the two directories, belongs to the
/// build of a dependency, announces the package, or compiles one of its
/// targets into its own directory.
pub proof fn build_steps_are_known(pkg: PackageView, sorted: Seq<PackageView>, k: int)
    requires
        0 <= k < build_steps(pkg, sorted).len(),
    ensures
        ({
            let step = build_steps(pkg, sorted)[k];
            ||| step == (BuildStepView::MakeDir { path: pkg.absolute_target_dir() })
            ||| step == (BuildStepView::MakeDir { path: deps_dir_of(pkg) })
            ||| exists|i: int|
                0 <= i < sorted.len() && is_dependency_step(
                    step,
                    #[trigger] sorted[i],
                    deps_dir_of(pkg),
                )
            ||| step == (BuildStepView::Announce { package: pkg.manifest.summary.package_id })
            ||| is_call_for(
                step,
                pkg.root(),
                pkg.manifest.targets,
                pkg.absolute_target_dir(),
                deps_dir_of(pkg),
                true,
            )
        }),
{
    let made = directory_steps(pkg);
    let built = dependency_steps(sorted, deps_dir_of(pkg));
    if k < 2 {
    } else if k < 2 + built.len() {
        dependency_steps_build_dependencies(sorted, deps_dir_of(pkg), k - 2);
    } else if k == 2 + built.len() {
    } else {
        only_built_targets_are_compiled(
            pkg.root(),
            pkg.manifest.targets,
            pkg.absolute_target_dir(),
            deps_dir_of(pkg),
            true,
            k - 3 - built.len(),
        );
    }
}

/// A build has one plan: planning it again gives the same steps, with the
/// same command lines, and the same end.
pub proof fn plan_is_unique(
    pkg: PackageView,
    deps: Seq<PackageView>,
    steps: Seq<BuildStepView>,
    failed: bool,
    steps_again: Seq<BuildStepView>,
    failed_again: bool,
)
    requires
        is_plan(pkg, deps, steps, failed),
        is_plan(pkg, deps, steps_again, failed_again),
    ensures
        steps == steps_again,
        failed == failed_again,
{
}

/// Puts the arguments for the source file and the output after those of
/// `into`.
pub fn build_base_args(into: &mut Vec<String>, target: &Target, crate_type: &str, dest: &str)
    ensures
        string_views(final(into)@) == string_views(old(into)@) + base_args(
            target@,
            crate_type@,
            dest@,
        ),
{
    let ghost start = string_views(into@);
    into.push(String::from_str(target.get_path()));
    assert(string_views(into@) =~= start.push(target@.path));
    into.push(String::from_str("--crate-type"));
    assert(string_views(into@) =~= start.push(target@.path).push("--crate-type"@));
    into.push(String::from_str(crate_type));
    assert(string_views(into@) =~= start.push(target@.path).push("--crate-type"@).push(
        crate_type@,
    ));
    into.push(String::from_str("--out-dir"));
    assert(string_views(into@) =~= start.push(target@.path).push("--crate-type"@).push(
        crate_type@,
    ).push("--out-dir"@));
    into.push(String::from_str(dest));
    assert(string_views(into@) =~= start + base_args(target@, crate_type@, dest@));
}

/// Puts the arguments that tell where the dependencies lie after those of
/// `dst`.
pub fn build_deps_args(dst: &mut Vec<String>, deps: &str)
    ensures
        string_views(final(dst)@) == string_views(old(dst)@) + deps_args(deps@),
{
    let ghost start = string_views(dst@);
    dst.push(String::from_str("-L"));
    assert(string_views(dst@) =~= start.push("-L"@));
    dst.push(String::from_str(deps));
    assert(string_views(dst@) =~= start + deps_args(deps@));
}

/// The call of the compiler that builds `target` into `crate_type`.
pub fn prepare_rustc(
    root: &str,
    target: &Target,
    crate_type: CrateType,
    dest: &str,
    deps: &str,
) -> (r: ProcessBuilder)
    ensures
        r@ == rustc_command(root@, target@, crate_type, dest@, deps@),
        r@.args.len() == 7,
        r@.args[0] == target@.path,
        r@.args[3] == "--out-dir"@ && r@.args[4] == dest@,
        r@.args[5] == "-L"@ && r@.args[6] == deps@,
{
    let mut args: Vec<String> = Vec::new();
    assert(string_views(args@) =~= Seq::empty());
    build_base_args(&mut args, target, crate_type.as_str(), dest);
    build_deps_args(&mut args, deps);
    let r = process("rustc").cwd(root).args(args.as_slice()).env_remove("RUST_LOG");
    proof {
        assert(r@.args =~= base_args(target@, crate_type.word(), dest@) + deps_args(deps@));
        assert(r@.unset =~= seq!["RUST_LOG"@]);
    }
    r
}

/// The calls of the compiler for one target.
pub fn rustc(root: &str, target: &Target, dest: &str, deps: &str, primary: bool) -> (r: Vec<
    BuildStep,
>)
    ensures
        step_views(r@) == target_steps(root@, target@, dest@, deps@, primary),
{
    let crate_types = target.rustc_crate_types();
    let mut steps: Vec<BuildStep> = Vec::new();
    let mut i: usize = 0;
    while i < crate_types.len()
        invariant
            i <= crate_types.len(),
            crate_types@ == target@.crate_types,
            steps.len() == i,
            forall|k: int|
                0 <= k < i ==> (#[trigger] steps@[k])@ == (BuildStepView::Compile {
                    command: rustc_command(root@, target@, crate_types@[k], dest@, deps@),
                    primary,
                }),
        decreases crate_types.len() - i,
    {
        let command = prepare_rustc(root, target, crate_types[i], dest, deps);
        steps.push(BuildStep::Compile { command, primary });
        i += 1;
    }
    assert(step_views(steps@) =~= target_steps(root@, target@, dest@, deps@, primary));
    steps
}

/// Moves the steps of `more` to the end of `steps`.
fn append_steps(steps: &mut Vec<BuildStep>, more: Vec<BuildStep>)
    ensures
        step_views(final(steps)@) == step_views(old(steps)@) + step_views(more@),
{
    let ghost start = step_views(steps@);
    let ghost added = step_views(more@);
    let mut more = more;
    steps.append(&mut more);
    assert(step_views(steps@) =~= start + added);
}

/// The calls of the compiler for a package, which are sent to `dest` and
/// seek dependencies in `deps_dir`. Of a package that is not the primary one
/// only the libraries are built.
pub fn compile_pkg(pkg: &Package, dest: &str, deps_dir: &str, primary: bool) -> (r: Vec<
    BuildStep,
>)
    ensures
        step_views(r@) == package_steps(pkg@, dest@, deps_dir@, primary),
{
    let root = pkg.get_root();
    let targets = pkg.get_targets();
    let ghost all = target_views(targets@);
    let mut steps: Vec<BuildStep> = Vec::new();
    let mut i: usize = 0;
    assert(all.take(0) =~= Seq::empty());
    assert(step_views(steps@) =~= Seq::empty());
    while i < targets.len()
        invariant
            i <= targets.len(),
            all == target_views(targets@),
            all == pkg@.manifest.targets,
            root@ == pkg@.root(),
            step_views(steps@) == targets_steps(
                root@,
                all.take(i as int),
                dest@,
                deps_dir@,
                primary,
            ),
        decreases targets.len() - i,
    {
        let target = &targets[i];
        proof {
            assert(all.take(i + 1).drop_last() =~= all.take(i as int));
            assert(all.take(i + 1).last() == target@);
        }
        if primary || target.is_lib() {
            let more = rustc(root.as_str(), target, dest, deps_dir, primary);
            append_steps(&mut steps, more);
        } else {
            assert(step_views(steps@) + Seq::empty() =~= step_views(steps@));
        }
        i += 1;
    }
    assert(all.take(targets.len() as int) =~= all);
    steps
}

/// The step that makes a directory of the build.
pub fn mk_target(target: &str) -> (r: BuildStep)
    ensures
        r@ == (BuildStepView::MakeDir { path: target@ }),
{
    BuildStep::MakeDir { path: String::from_str(target) }
}

/// The packages in the order in which they must be built, or the error
/// that they depend on one another in a circle.
pub fn topsort(deps: &PackageSet) -> (r: Result<PackageSet, CargoError>)
    ensures
        match r {
            Ok(sorted) => graph_of(deps@).order() matches Some(order) && sorted@ == taken_in(
                deps@,
                order,
            ),
            Err(CargoError::CircularDependency) => graph_of(deps@).order() is None,
            Err(_) => false,
        },
        r is Err <==> has_dependency_cycle(deps@),
{
    match deps.sort() {
        Some(sorted) => Ok(sorted),
        None => Err(CargoError::CircularDependency),
    }
}

/// The steps that build the dependencies `sorted` in their order.
fn compile_dependencies(sorted: &PackageSet, deps_dir: &str) -> (r: Vec<BuildStep>)
    ensures
        step_views(r@) == dependency_steps(sorted@, deps_dir@),
{
    let packages = sorted.get_packages();
    let ghost all = sorted@;
    let mut steps: Vec<BuildStep> = Vec::new();
    let mut i: usize = 0;
    assert(all.take(0) =~= Seq::empty());
    assert(step_views(steps@) =~= Seq::empty());
    while i < packages.len()
        invariant
            i <= packages.len(),
            all == crate::package::package_views(packages@),
            step_views(steps@) == dependency_steps(all.take(i as int), deps_dir@),
        decreases packages.len() - i,
    {
        let dep = &packages[i];
        let ghost before = step_views(steps@);
        proof {
            assert(all.take(i + 1).drop_last() =~= all.take(i as int));
            assert(all.take(i + 1).last() == dep@);
        }
        steps.push(BuildStep::Announce { package: dep.get_package_id().clone() });
        assert(step_views(steps@) =~= before + seq![
            BuildStepView::Announce { package: dep@.manifest.summary.package_id },
        ]);
        let more = compile_pkg(dep, deps_dir, deps_dir, false);
        append_steps(&mut steps, more);
        i += 1;
    }
    assert(all.take(packages.len() as int) =~= all);
    steps
}

/// Plans the build of `pkg` with its dependencies `deps`.
///
/// The plan makes the directory that the outputs of `pkg` go to and, in it,
/// the directory `deps`. Then each dependency is announced and its
/// libraries compiled into `deps`, in the order in which they must be
/// built; last `pkg` itself is announced and all its targets compiled. Every
/// call of the compiler seeks dependencies in `deps`.
///
/// Where the dependencies depend on one another in a circle, the plan
/// makes the directories and then fails.
pub fn compile_packages(pkg: &Package, deps: &PackageSet) -> (r: BuildPlan)
    ensures
        is_plan(pkg@, deps@, step_views(r.steps@), r.failure is Some),
        r.failure is Some ==> r.failure == Some(CargoError::CircularDependency),
        r.failure is Some <==> has_dependency_cycle(deps@),
{
    let target_dir = pkg.get_absolute_target_dir();
    let deps_target_dir = join(target_dir.as_str(), "deps");
    let mut steps: Vec<BuildStep> = Vec::new();
    steps.push(mk_target(target_dir.as_str()));
    steps.push(mk_target(deps_target_dir.as_str()));
    assert(step_views(steps@) =~= directory_steps(pkg@));
    match topsort(deps) {
        Err(e) => BuildPlan { steps, failure: Some(e) },
        Ok(sorted) => {
            let more = compile_dependencies(&sorted, deps_target_dir.as_str());
            append_steps(&mut steps, more);
            let ghost before = step_views(steps@);
            steps.push(BuildStep::Announce { package: pkg.get_package_id().clone() });
            assert(step_views(steps@) =~= before + seq![
                BuildStepView::Announce { package: pkg@.manifest.summary.package_id },
            ]);
            let last = compile_pkg(pkg, target_dir.as_str(), deps_target_dir.as_str(), true);
            append_steps(&mut steps, last);
            BuildPlan { steps, failure: None }
        },
    }
}

/// The error to report when the compiler, called on `args` in `cwd`, did
/// not end well: a failure of the compiler that holds the command line and
/// what the compiler wrote, or an internal error where `err` is no matter of
/// the process.
pub open spec fn compiler_error_is(
    args: Seq<Seq<char>>,
    cwd: Seq<char>,
    err: ProcessError,
    e: CargoError,
) -> bool {
    match err {
        ProcessError::Failed { exit, stderr } => e matches CargoError::CompilerFailure {
            argv,
            cwd: dir,
            stderr: written,
        } && argv@ == joined(seq!["rustc"@] + args, seq![' ']) && dir@ == cwd && written@ == (
        match stderr {
            Some(bytes) => utf8_lossy(bytes@),
            None => Seq::empty(),
        }),
        ProcessError::Other { message } => e matches CargoError::Internal { message: told }
            && told@ == "the compiler failed, but not as a process fails"@,
    }
}

/// The error to report when the compiler, called on `args` in `cwd`, did
/// not end well.
pub fn rustc_to_cargo_err(args: &[String], cwd: &str, err: &ProcessError) -> (r: CargoError)
    ensures
        compiler_error_is(string_views(args@), cwd@, *err, r),
{
    match err {
        ProcessError::Failed { exit, stderr } => {
            let written = match stderr {
                Some(bytes) => to_str(bytes.as_slice()),
                None => String::new(),
            };
            let mut words: Vec<String> = Vec::new();
            words.push(String::from_str("rustc"));
            let ghost one = string_views(words@);
            assert(one =~= seq!["rustc"@]);
            let mut rest = crate::manifest::clone_strings(args);
            let ghost added = string_views(rest@);
            words.append(&mut rest);
            proof {
                assert(string_views(words@) =~= one + added);
                reveal_strlit(" ");
                assert(" "@ =~= seq![' ']);
            }
            CargoError::CompilerFailure {
                argv: join_words(words.as_slice(), " "),
                cwd: String::from_str(cwd),
                stderr: written,
            }
        },
        ProcessError::Other { message } => CargoError::Internal {
            message: String::from_str("the compiler failed, but not as a process fails"),
        },
    }
}

} // verus!
