//! From a list of dependencies to the set of packages that a build needs.

use crate::dependency::{dependency_names, dependency_views, Dependency, DependencyView};
use crate::errors::CargoError;
use crate::package_id::{PackageId, PackageIdView};
use crate::registry::{borrowed_views, names_of, Registry};
use crate::summary::{Summary, SummaryView};
use crate::text::{str_eq, str_views};
use vstd::prelude::*;

verus! {

/// Whether one of the dependencies `roots` asks for `name`.
pub open spec fn asks_for(roots: Seq<DependencyView>, name: Seq<char>) -> bool {
    exists|i: int| 0 <= i < roots.len() && (#[trigger] roots[i]).name == name
}

/// Whether the registry offers exactly one package called `from`, and that
/// package depends on `to`.
pub open spec fn leads_to<R: Registry>(registry: &R, from: Seq<char>, to: Seq<char>) -> bool {
    registry.candidates(from).len() == 1 && registry.candidates(from)[0].depends_on(to)
}

/// Whether `chain` starts at a name that `roots` asks for and goes on from
/// each package to one of its dependencies.
pub open spec fn is_chain<R: Registry>(
    registry: &R,
    roots: Seq<DependencyView>,
    chain: Seq<Seq<char>>,
) -> bool {
    &&& chain.len() > 0
    &&& asks_for(roots, chain[0])
    &&& forall|k: int|
        0 <= k < chain.len() - 1 ==> leads_to(registry, #[trigger] chain[k], chain[k + 1])
}

/// Whether `name` is needed: `roots` asks for it, or a needed package that
/// the registry offers alone under its name depends on it.
pub open spec fn needed<R: Registry>(
    registry: &R,
    roots: Seq<DependencyView>,
    name: Seq<char>,
) -> bool {
    exists|chain: Seq<Seq<char>>| #[trigger] is_chain(registry, roots, chain) && chain.last() == name
}

/// Whether one of the identities `ids` is called `name`.
pub open spec fn has_name(ids: Seq<PackageIdView>, name: Seq<char>) -> bool {
    exists|i: int| 0 <= i < ids.len() && (#[trigger] ids[i]).name == name
}

/// The identities of a list, each as plain values.
pub open spec fn id_views(ids: Seq<PackageId>) -> Seq<PackageIdView> {
    ids.map_values(|id: PackageId| id@)
}

/// Whether `ids` resolves `roots` against the registry: it names each
/// needed package once and no other, and each identity is that of the one
/// package that the registry offers under its name.
pub open spec fn is_resolution<R: Registry>(
    registry: &R,
    roots: Seq<DependencyView>,
    ids: Seq<PackageIdView>,
) -> bool {
    &&& forall|i: int, j: int| 0 <= i < j < ids.len() ==> ids[i].name != ids[j].name
    &&& forall|i: int|
        0 <= i < ids.len() ==> {
            &&& registry.candidates((#[trigger] ids[i]).name).len() == 1
            &&& registry.candidates(ids[i].name)[0].package_id == ids[i]
        }
    &&& forall|name: Seq<char>| has_name(ids, name) <==> needed(registry, roots, name)
}

/// Whether every needed name can be resolved: the registry offers exactly
/// one package under it.
pub open spec fn resolvable<R: Registry>(registry: &R, roots: Seq<DependencyView>) -> bool {
    forall|name: Seq<char>| #[trigger]
        needed(registry, roots, name) ==> registry.candidates(name).len() == 1
}

/// Why a walk through the needed names ends without a resolution.
pub enum Unmet {
    /// The registry offers nothing under this name.
    Nothing { name: Seq<char> },
    /// The registry offers `count` summaries under this name.
    Many { name: Seq<char>, count: nat },
}

/// The test "is not the name of a chosen summary".
pub open spec fn not_among(chosen: Seq<SummaryView>) -> spec_fn(Seq<char>) -> bool {
    |name: Seq<char>| !names_of(chosen).contains(name)
}

/// Whether a walk can go on from `chosen`: no two of the summaries share a
/// name, and the registry knows each name. Every walk from nothing chosen
/// keeps to this.
pub open spec fn can_walk<R: Registry>(registry: &R, chosen: Seq<SummaryView>) -> bool {
    &&& registry.names().finite()
    &&& names_of(chosen).no_duplicates()
    &&& forall|k: int|
        0 <= k < chosen.len() ==> registry.names().contains(#[trigger] names_of(chosen)[k])
}

/// The walk through the needed names, from the names `waiting` and the
/// summaries `chosen` on.
///
/// The name that waits last is looked at first. Where it is chosen already,
/// the walk goes on without it. Else the registry must offer exactly one
/// summary under it: that summary is chosen, and those of its dependencies
/// that are not chosen wait, in their order, behind the names that waited
/// before. The walk ends with what is chosen when nothing waits, or at the
/// first name under which the registry offers nothing or too much.
pub open spec fn walk<R: Registry>(
    registry: &R,
    waiting: Seq<Seq<char>>,
    chosen: Seq<SummaryView>,
) -> Result<Seq<SummaryView>, Unmet>
    decreases registry.names().len() - chosen.len(), waiting.len(),
    when can_walk(registry, chosen)
    via walk_ends::<R>
{
    if waiting.len() == 0 {
        Ok(chosen)
    } else if names_of(chosen).contains(waiting.last()) {
        walk(registry, waiting.drop_last(), chosen)
    } else {
        let name = waiting.last();
        let found = registry.candidates(name);
        if found.len() == 0 {
            Err(Unmet::Nothing { name })
        } else if found.len() > 1 {
            Err(Unmet::Many { name, count: found.len() })
        } else {
            let more = chosen.push(found[0]);
            walk(
                registry,
                waiting.drop_last() + dependency_names(found[0].dependencies).filter(
                    not_among(more),
                ),
                more,
            )
        }
    }
}

/// The walk ends: each step chooses one more of the finitely many names of
/// the registry, or leaves one name less waiting.
#[via_fn]
proof fn walk_ends<R: Registry>(registry: &R, waiting: Seq<Seq<char>>, chosen: Seq<SummaryView>) {
    if waiting.len() > 0 && !names_of(chosen).contains(waiting.last()) && registry.candidates(
        waiting.last(),
    ).len() == 1 {
        walk_can_go_on(registry, chosen, waiting.last());
    }
}

/// Where a walk can go on from `chosen`, it can go on after the one summary
/// that the registry offers under a name not chosen yet is chosen too; and
/// the chosen are then no more than the names of the registry.
pub proof fn walk_can_go_on<R: Registry>(registry: &R, chosen: Seq<SummaryView>, name: Seq<char>)
    requires
        can_walk(registry, chosen),
        !names_of(chosen).contains(name),
        registry.candidates(name).len() == 1,
    ensures
        can_walk(registry, chosen.push(registry.candidates(name)[0])),
        chosen.len() + 1 <= registry.names().len(),
{
    let pkg = registry.candidates(name)[0];
    let more = chosen.push(pkg);
    registry.offers();
    assert(pkg.package_id.name == name);
    assert(names_of(more) =~= names_of(chosen).push(name));
    assert forall|k: int| 0 <= k < more.len() implies registry.names().contains(
        #[trigger] names_of(more)[k],
    ) by {
        if k < chosen.len() {
            assert(names_of(more)[k] == names_of(chosen)[k]);
        }
    }
    distinct_names_are_few(names_of(more), registry.names());
}

/// A chain that is extended by a dependency of its last package is a chain.
proof fn chain_grows<R: Registry>(
    registry: &R,
    roots: Seq<DependencyView>,
    chain: Seq<Seq<char>>,
    next: Seq<char>,
)
    requires
        is_chain(registry, roots, chain),
        leads_to(registry, chain.last(), next),
    ensures
        is_chain(registry, roots, chain.push(next)),
        needed(registry, roots, next),
{
    let longer = chain.push(next);
    assert(longer[0] == chain[0]);
    assert forall|k: int| 0 <= k < longer.len() - 1 implies leads_to(
        registry,
        #[trigger] longer[k],
        longer[k + 1],
    ) by {
        if k < chain.len() - 1 {
            assert(longer[k] == chain[k]);
            assert(longer[k + 1] == chain[k + 1]);
        }
    }
    assert(longer.last() == next);
}

/// What a needed package depends on is needed, where the registry offers
/// that package alone under its name.
pub proof fn needed_goes_on<R: Registry>(
    registry: &R,
    roots: Seq<DependencyView>,
    from: Seq<char>,
    to: Seq<char>,
)
    requires
        needed(registry, roots, from),
        leads_to(registry, from, to),
    ensures
        needed(registry, roots, to),
{
    let chain = choose|chain: Seq<Seq<char>>| #[trigger]
        is_chain(registry, roots, chain) && chain.last() == from;
    chain_grows(registry, roots, chain, to);
}

/// What `roots` asks for is needed.
pub proof fn roots_are_needed<R: Registry>(
    registry: &R,
    roots: Seq<DependencyView>,
    name: Seq<char>,
)
    requires
        asks_for(roots, name),
    ensures
        needed(registry, roots, name),
{
    let chain = seq![name];
    assert(is_chain(registry, roots, chain));
    assert(chain.last() == name);
}

/// Every name of a chain belongs to a set of names that holds what `roots`
/// asks for and what its members lead to.
proof fn chain_stays_inside<R: Registry>(
    registry: &R,
    roots: Seq<DependencyView>,
    inside: spec_fn(Seq<char>) -> bool,
    chain: Seq<Seq<char>>,
    k: int,
)
    requires
        is_chain(registry, roots, chain),
        0 <= k < chain.len(),
        forall|name: Seq<char>| asks_for(roots, name) ==> #[trigger] inside(name),
        forall|from: Seq<char>, to: Seq<char>|
            inside(from) && #[trigger] leads_to(registry, from, to) ==> inside(to),
    ensures
        inside(chain[k]),
    decreases k,
{
    if k > 0 {
        chain_stays_inside(registry, roots, inside, chain, k - 1);
        assert(leads_to(registry, chain[k - 1], chain[k - 1 + 1]));
    }
}

/// The names of a list in which no name occurs twice, all of them taken
/// from a finite set, are no more than the set holds.
proof fn distinct_names_are_few(names: Seq<Seq<char>>, among: Set<Seq<char>>)
    requires
        names.no_duplicates(),
        among.finite(),
        forall|i: int| 0 <= i < names.len() ==> among.contains(#[trigger] names[i]),
    ensures
        names.len() <= among.len(),
{
    names.unique_seq_to_set();
    assert(names.to_set().subset_of(among)) by {
        assert forall|n: Seq<char>| names.to_set().contains(n) implies among.contains(n) by {
            let i = choose|i: int| 0 <= i < names.len() && names[i] == n;
            assert(among.contains(names[i]));
        }
    }
    vstd::set_lib::lemma_len_subset(names.to_set(), among);
}

/// The identities of a list of summaries, in its order.
pub open spec fn ids_of(chosen: Seq<SummaryView>) -> Seq<PackageIdView> {
    chosen.map_values(|s: SummaryView| s.package_id)
}

/// Whether every summary of `chosen` is needed and is what the registry
/// offers alone under its name, no two of them under one name.
spec fn well_chosen<R: Registry>(
    registry: &R,
    roots: Seq<DependencyView>,
    chosen: Seq<SummaryView>,
) -> bool {
    &&& names_of(chosen).no_duplicates()
    &&& forall|k: int|
        0 <= k < chosen.len() ==> {
            &&& needed(registry, roots, (#[trigger] chosen[k]).package_id.name)
            &&& registry.candidates(chosen[k].package_id.name).len() == 1
            &&& registry.candidates(chosen[k].package_id.name)[0] == chosen[k]
        }
}

/// Whether every name of `waiting` is needed.
spec fn all_needed<R: Registry>(
    registry: &R,
    roots: Seq<DependencyView>,
    waiting: Seq<Seq<char>>,
) -> bool {
    forall|k: int| 0 <= k < waiting.len() ==> needed(registry, roots, #[trigger] waiting[k])
}

/// Whether `name` is chosen or waits to be looked up.
spec fn met(chosen: Seq<SummaryView>, waiting: Seq<Seq<char>>, name: Seq<char>) -> bool {
    names_of(chosen).contains(name) || waiting.contains(name)
}

/// Whether the first `upto` dependencies of `s` are met.
spec fn edges_met(
    s: SummaryView,
    upto: int,
    chosen: Seq<SummaryView>,
    waiting: Seq<Seq<char>>,
) -> bool {
    forall|j: int| 0 <= j < upto ==> met(chosen, waiting, (#[trigger] s.dependencies[j]).name)
}

/// Whether what `roots` asks for and what the chosen summaries depend on is
/// met.
spec fn all_met(
    roots: Seq<DependencyView>,
    chosen: Seq<SummaryView>,
    waiting: Seq<Seq<char>>,
) -> bool {
    &&& forall|k: int| 0 <= k < roots.len() ==> met(chosen, waiting, (#[trigger] roots[k]).name)
    &&& forall|k: int|
        0 <= k < chosen.len() ==> edges_met(
            #[trigger] chosen[k],
            chosen[k].dependencies.len() as int,
            chosen,
            waiting,
        )
}

/// What was met stays met when more is chosen and more waits.
proof fn met_grows(
    chosen: Seq<SummaryView>,
    waiting: Seq<Seq<char>>,
    more_chosen: Seq<SummaryView>,
    more_waiting: Seq<Seq<char>>,
    name: Seq<char>,
)
    requires
        met(chosen, waiting, name),
        chosen.is_prefix_of(more_chosen),
        waiting.is_prefix_of(more_waiting),
    ensures
        met(more_chosen, more_waiting, name),
{
    if names_of(chosen).contains(name) {
        let k = choose|k: int| 0 <= k < names_of(chosen).len() && names_of(chosen)[k] == name;
        assert(names_of(more_chosen)[k] == name);
    } else {
        let k = choose|k: int| 0 <= k < waiting.len() && waiting[k] == name;
        assert(more_waiting[k] == name);
    }
}

/// A name that was met before the last waiting name was taken off is that
/// name, or is still met.
proof fn met_after_pop(chosen: Seq<SummaryView>, waiting: Seq<Seq<char>>, name: Seq<char>)
    requires
        waiting.len() > 0,
        met(chosen, waiting, name),
    ensures
        name == waiting.last() || met(chosen, waiting.drop_last(), name),
{
    if !names_of(chosen).contains(name) {
        let k = choose|k: int| 0 <= k < waiting.len() && waiting[k] == name;
        if k < waiting.len() - 1 {
            assert(waiting.drop_last()[k] == name);
        }
    }
}

/// Taking a waiting name off that is chosen already leaves everything met.
proof fn skip_keeps_met(
    roots: Seq<DependencyView>,
    chosen: Seq<SummaryView>,
    waiting: Seq<Seq<char>>,
)
    requires
        waiting.len() > 0,
        all_met(roots, chosen, waiting),
        names_of(chosen).contains(waiting.last()),
    ensures
        all_met(roots, chosen, waiting.drop_last()),
{
    let fewer = waiting.drop_last();
    assert forall|k: int| 0 <= k < roots.len() implies met(
        chosen,
        fewer,
        (#[trigger] roots[k]).name,
    ) by {
        met_after_pop(chosen, waiting, roots[k].name);
    }
    assert forall|k: int| 0 <= k < chosen.len() implies edges_met(
        #[trigger] chosen[k],
        chosen[k].dependencies.len() as int,
        chosen,
        fewer,
    ) by {
        let s = chosen[k];
        assert(edges_met(s, s.dependencies.len() as int, chosen, waiting));
        assert forall|j: int| 0 <= j < s.dependencies.len() implies met(
            chosen,
            fewer,
            (#[trigger] s.dependencies[j]).name,
        ) by {
            met_after_pop(chosen, waiting, s.dependencies[j].name);
        }
    }
}

/// Choosing the package that the last waiting name stands for, and letting
/// its dependencies wait where they are not chosen, leaves everything met.
proof fn choice_keeps_met(
    roots: Seq<DependencyView>,
    chosen: Seq<SummaryView>,
    waiting: Seq<Seq<char>>,
    pkg: SummaryView,
    more_waiting: Seq<Seq<char>>,
)
    requires
        waiting.len() > 0,
        all_met(roots, chosen, waiting),
        pkg.package_id.name == waiting.last(),
        waiting.drop_last().is_prefix_of(more_waiting),
        edges_met(pkg, pkg.dependencies.len() as int, chosen.push(pkg), more_waiting),
    ensures
        all_met(roots, chosen.push(pkg), more_waiting),
{
    let more_chosen = chosen.push(pkg);
    assert(names_of(more_chosen)[chosen.len() as int] == pkg.package_id.name);
    assert forall|n: Seq<char>| met(chosen, waiting, n) implies met(more_chosen, more_waiting, n) by {
        met_after_pop(chosen, waiting, n);
        if n != waiting.last() {
            met_grows(chosen, waiting.drop_last(), more_chosen, more_waiting, n);
        }
    }
    assert forall|k: int| 0 <= k < roots.len() implies met(
        more_chosen,
        more_waiting,
        (#[trigger] roots[k]).name,
    ) by {
        assert(met(chosen, waiting, roots[k].name));
    }
    assert forall|k: int| 0 <= k < more_chosen.len() implies edges_met(
        #[trigger] more_chosen[k],
        more_chosen[k].dependencies.len() as int,
        more_chosen,
        more_waiting,
    ) by {
        if k < chosen.len() {
            let s = chosen[k];
            assert(more_chosen[k] == s);
            assert(edges_met(s, s.dependencies.len() as int, chosen, waiting));
            assert forall|j: int| 0 <= j < s.dependencies.len() implies met(
                more_chosen,
                more_waiting,
                (#[trigger] s.dependencies[j]).name,
            ) by {
                assert(met(chosen, waiting, s.dependencies[j].name));
            }
        }
    }
}

/// A needed package that the registry offers alone under a name not yet
/// chosen can be chosen, and the chosen are then still no more than the
/// names of the registry.
proof fn choice_is_sound<R: Registry>(
    registry: &R,
    roots: Seq<DependencyView>,
    chosen: Seq<SummaryView>,
    pkg: SummaryView,
)
    requires
        well_chosen(registry, roots, chosen),
        needed(registry, roots, pkg.package_id.name),
        registry.candidates(pkg.package_id.name).len() == 1,
        registry.candidates(pkg.package_id.name)[0] == pkg,
        !names_of(chosen).contains(pkg.package_id.name),
    ensures
        well_chosen(registry, roots, chosen.push(pkg)),
        chosen.len() + 1 <= registry.names().len(),
{
    let more = chosen.push(pkg);
    assert(names_of(more) =~= names_of(chosen).push(pkg.package_id.name));
    assert forall|k: int| 0 <= k < more.len() implies {
        &&& needed(registry, roots, (#[trigger] more[k]).package_id.name)
        &&& registry.candidates(more[k].package_id.name).len() == 1
        &&& registry.candidates(more[k].package_id.name)[0] == more[k]
    } by {
        if k < chosen.len() {
            assert(more[k] == chosen[k]);
        }
    }
    registry.offers();
    assert forall|k: int| 0 <= k < names_of(more).len() implies registry.names().contains(
        #[trigger] names_of(more)[k],
    ) by {
        assert(registry.candidates(more[k].package_id.name).len() > 0);
    }
    distinct_names_are_few(names_of(more), registry.names());
}

/// Once nothing waits, the chosen packages are the resolution.
proof fn nothing_waits<R: Registry>(
    registry: &R,
    roots: Seq<DependencyView>,
    chosen: Seq<SummaryView>,
)
    requires
        well_chosen(registry, roots, chosen),
        all_met(roots, chosen, Seq::empty()),
    ensures
        is_resolution(registry, roots, ids_of(chosen)),
{
    let ids = ids_of(chosen);
    let none = Seq::<Seq<char>>::empty();
    assert forall|n: Seq<char>| has_name(ids, n) <==> names_of(chosen).contains(n) by {
        if has_name(ids, n) {
            let m = choose|m: int| 0 <= m < ids.len() && (#[trigger] ids[m]).name == n;
            assert(names_of(chosen)[m] == n);
        }
        if names_of(chosen).contains(n) {
            let m = choose|m: int| 0 <= m < names_of(chosen).len() && names_of(chosen)[m] == n;
            assert(ids[m].name == n);
        }
    }
    assert forall|a: int, b: int| 0 <= a < b < ids.len() implies ids[a].name != ids[b].name by {
        assert(names_of(chosen)[a] != names_of(chosen)[b]);
    }
    assert forall|a: int| 0 <= a < ids.len() implies {
        &&& registry.candidates((#[trigger] ids[a]).name).len() == 1
        &&& registry.candidates(ids[a].name)[0].package_id == ids[a]
    } by {
        assert(ids[a] == chosen[a].package_id);
    }
    let inside = |n: Seq<char>| names_of(chosen).contains(n);
    assert forall|n: Seq<char>| asks_for(roots, n) implies #[trigger] inside(n) by {
        let m = choose|m: int| 0 <= m < roots.len() && (#[trigger] roots[m]).name == n;
        assert(met(chosen, none, roots[m].name));
    }
    assert forall|from: Seq<char>, to: Seq<char>|
        inside(from) && #[trigger] leads_to(registry, from, to) implies inside(to) by {
        let m = choose|m: int| 0 <= m < names_of(chosen).len() && names_of(chosen)[m] == from;
        let s = chosen[m];
        assert(registry.candidates(from)[0] == s);
        let d = choose|d: int|
            0 <= d < s.dependencies.len() && (#[trigger] s.dependencies[d]).name == to;
        assert(edges_met(s, s.dependencies.len() as int, chosen, none));
        assert(met(chosen, none, s.dependencies[d].name));
    }
    assert forall|n: Seq<char>| needed(registry, roots, n) implies has_name(ids, n) by {
        let chain = choose|chain: Seq<Seq<char>>| #[trigger]
            is_chain(registry, roots, chain) && chain.last() == n;
        chain_stays_inside(registry, roots, inside, chain, chain.len() - 1);
    }
    assert forall|n: Seq<char>| has_name(ids, n) implies needed(registry, roots, n) by {
        let m = choose|m: int| 0 <= m < names_of(chosen).len() && names_of(chosen)[m] == n;
        assert(needed(registry, roots, chosen[m].package_id.name));
    }
}

/// A resolution holds every name that the roots ask for and every name
/// that one of its packages depends on, and it exists only where every
/// needed name can be resolved.
pub proof fn resolution_is_closed<R: Registry>(
    registry: &R,
    roots: Seq<DependencyView>,
    ids: Seq<PackageIdView>,
)
    requires
        is_resolution(registry, roots, ids),
    ensures
        resolvable(registry, roots),
        forall|i: int| 0 <= i < roots.len() ==> has_name(ids, (#[trigger] roots[i]).name),
        forall|i: int, j: int|
            0 <= i < ids.len() && 0 <= j < registry.candidates(ids[i].name)[0].dependencies.len()
                ==> has_name(
                ids,
                (#[trigger] registry.candidates(ids[i].name)[0].dependencies[j]).name,
            ),
{
    assert forall|name: Seq<char>| #[trigger]
        needed(registry, roots, name) implies registry.candidates(name).len() == 1 by {
        assert(has_name(ids, name));
        let i = choose|i: int| 0 <= i < ids.len() && (#[trigger] ids[i]).name == name;
    }
    assert forall|i: int| 0 <= i < roots.len() implies has_name(ids, (#[trigger] roots[i]).name) by {
        roots_are_needed(registry, roots, roots[i].name);
    }
    assert forall|i: int, j: int|
        0 <= i < ids.len() && 0 <= j < registry.candidates(
            ids[i].name,
        )[0].dependencies.len() implies has_name(
        ids,
        (#[trigger] registry.candidates(ids[i].name)[0].dependencies[j]).name,
    ) by {
        let from = ids[i].name;
        let to = registry.candidates(from)[0].dependencies[j].name;
        assert(has_name(ids, from));
        assert(registry.candidates(from)[0].depends_on(to));
        needed_goes_on(registry, roots, from, to);
    }
}

/// Two lists of dependencies that need the same names have the same
/// resolutions: whatever resolves the one holds the identities of whatever
/// resolves the other, whichever way the names were met.
pub proof fn same_needs_same_resolution<R: Registry>(
    registry: &R,
    roots: Seq<DependencyView>,
    ids: Seq<PackageIdView>,
    other_roots: Seq<DependencyView>,
    other_ids: Seq<PackageIdView>,
)
    requires
        is_resolution(registry, roots, ids),
        is_resolution(registry, other_roots, other_ids),
        forall|name: Seq<char>|
            needed(registry, roots, name) <==> needed(registry, other_roots, name),
    ensures
        ids.to_set() == other_ids.to_set(),
{
    assert forall|id: PackageIdView| ids.contains(id) <==> other_ids.contains(id) by {
        if ids.contains(id) {
            let i = choose|i: int| 0 <= i < ids.len() && ids[i] == id;
            assert(has_name(ids, ids[i].name));
            assert(has_name(other_ids, id.name));
            let j = choose|j: int|
                0 <= j < other_ids.len() && (#[trigger] other_ids[j]).name == id.name;
            assert(other_ids[j] == id);
        }
        if other_ids.contains(id) {
            let i = choose|i: int| 0 <= i < other_ids.len() && other_ids[i] == id;
            assert(has_name(other_ids, other_ids[i].name));
            assert(has_name(ids, id.name));
            let j = choose|j: int| 0 <= j < ids.len() && (#[trigger] ids[j]).name == id.name;
            assert(ids[j] == id);
        }
    }
    assert(ids.to_set() =~= other_ids.to_set());
}

/// Resolving a list of dependencies twice against one registry gives the
/// same identities.
pub proof fn resolution_is_unique<R: Registry>(
    registry: &R,
    roots: Seq<DependencyView>,
    first: Seq<PackageIdView>,
    second: Seq<PackageIdView>,
)
    requires
        is_resolution(registry, roots, first),
        is_resolution(registry, roots, second),
    ensures
        first.to_set() == second.to_set(),
{
    same_needs_same_resolution(registry, roots, first, roots, second);
}

/// Asking for exactly the packages of a resolution needs the names that the
/// resolution was made for, and no others: it can be resolved again, and
/// what resolves it holds the same identities.
pub proof fn resolution_resolves_to_itself<R: Registry>(
    registry: &R,
    roots: Seq<DependencyView>,
    ids: Seq<PackageIdView>,
    again: Seq<DependencyView>,
)
    requires
        is_resolution(registry, roots, ids),
        forall|name: Seq<char>| asks_for(again, name) <==> has_name(ids, name),
    ensures
        forall|name: Seq<char>| needed(registry, roots, name) <==> needed(registry, again, name),
        resolvable(registry, again),
        forall|ids_again: Seq<PackageIdView>| #[trigger]
            is_resolution(registry, again, ids_again) ==> ids_again.to_set() == ids.to_set(),
{
    let inside = |n: Seq<char>| needed(registry, roots, n);
    assert forall|from: Seq<char>, to: Seq<char>|
        inside(from) && #[trigger] leads_to(registry, from, to) implies inside(to) by {
        needed_goes_on(registry, roots, from, to);
    }
    assert forall|n: Seq<char>| asks_for(again, n) implies #[trigger] inside(n) by {
        assert(has_name(ids, n));
    }
    assert forall|name: Seq<char>| needed(registry, roots, name) <==> needed(
        registry,
        again,
        name,
    ) by {
        if needed(registry, again, name) {
            let chain = choose|chain: Seq<Seq<char>>| #[trigger]
                is_chain(registry, again, chain) && chain.last() == name;
            chain_stays_inside(registry, again, inside, chain, chain.len() - 1);
        }
        if needed(registry, roots, name) {
            assert(has_name(ids, name));
            roots_are_needed(registry, again, name);
        }
    }
    resolution_is_closed(registry, roots, ids);
    assert forall|name: Seq<char>| #[trigger]
        needed(registry, again, name) implies registry.candidates(name).len() == 1 by {
        assert(needed(registry, roots, name));
    }
    assert forall|ids_again: Seq<PackageIdView>| #[trigger]
        is_resolution(registry, again, ids_again) implies ids_again.to_set() == ids.to_set() by {
        same_needs_same_resolution(registry, again, ids_again, roots, ids);
    }
}

/// Whether one of the chosen summaries is called `name`.
fn find_chosen(chosen: &Vec<&Summary>, name: &str) -> (r: bool)
    ensures
        r == names_of(borrowed_views(chosen@)).contains(name@),
{
    let mut k: usize = 0;
    while k < chosen.len()
        invariant
            k <= chosen.len(),
            forall|j: int| 0 <= j < k ==> (#[trigger] chosen@[j])@.package_id.name != name@,
        decreases chosen.len() - k,
    {
        if str_eq(chosen[k].get_name(), name) {
            assert(names_of(borrowed_views(chosen@))[k as int] == name@);
            return true;
        }
        k += 1;
    }
    assert forall|j: int| 0 <= j < chosen.len() implies names_of(borrowed_views(chosen@))[j]
        != name@ by {
        assert(chosen@[j]@.package_id.name != name@);
    }
    false
}

/// The names that `deps` asks for, in its order.
fn root_names<'a>(deps: &'a [Dependency]) -> (r: Vec<&'a str>)
    ensures
        str_views(r@) == dependency_names(dependency_views(deps@)),
{
    let mut names: Vec<&'a str> = Vec::new();
    let mut i: usize = 0;
    while i < deps.len()
        invariant
            i <= deps.len(),
            names.len() == i,
            forall|k: int| 0 <= k < i ==> (#[trigger] names@[k])@ == deps@[k]@.name,
        decreases deps.len() - i,
    {
        names.push(deps[i].get_name());
        i += 1;
    }
    assert(str_views(names@) =~= dependency_names(dependency_views(deps@)));
    names
}

/// Lets those dependencies of the summary chosen last wait that are not
/// chosen yet.
fn enqueue<'a, R: Registry>(
    waiting: &mut Vec<&'a str>,
    chosen: &Vec<&'a Summary>,
    registry: &R,
    Ghost(roots): Ghost<Seq<DependencyView>>,
)
    requires
        chosen.len() > 0,
        all_needed(registry, roots, str_views(old(waiting)@)),
        needed(registry, roots, chosen@.last()@.package_id.name),
        registry.candidates(chosen@.last()@.package_id.name).len() == 1,
        registry.candidates(chosen@.last()@.package_id.name)[0] == chosen@.last()@,
    ensures
        all_needed(registry, roots, str_views(final(waiting)@)),
        str_views(old(waiting)@).is_prefix_of(str_views(final(waiting)@)),
        str_views(final(waiting)@) == str_views(old(waiting)@) + dependency_names(
            chosen@.last()@.dependencies,
        ).filter(not_among(borrowed_views(chosen@))),
        edges_met(
            chosen@.last()@,
            chosen@.last()@.dependencies.len() as int,
            borrowed_views(chosen@),
            str_views(final(waiting)@),
        ),
{
    let pkg: &'a Summary = chosen[chosen.len() - 1];
    let wanted = pkg.get_dependencies();
    let ghost picked = borrowed_views(chosen@);
    let ghost all = dependency_names(pkg@.dependencies);
    let mut j: usize = 0;
    proof {
        assert(all.take(0) =~= Seq::empty());
        assert(all.take(0).filter(not_among(picked)) =~= Seq::empty()) by {
            all.take(0).lemma_filter_len(not_among(picked));
        }
        assert(str_views(waiting@) + Seq::<Seq<char>>::empty() =~= str_views(waiting@));
    }
    while j < wanted.len()
        invariant
            j <= wanted.len(),
            dependency_views(wanted@) == pkg@.dependencies,
            picked == borrowed_views(chosen@),
            all == dependency_names(pkg@.dependencies),
            str_views(waiting@) == str_views(old(waiting)@) + all.take(j as int).filter(
                not_among(picked),
            ),
            needed(registry, roots, pkg@.package_id.name),
            registry.candidates(pkg@.package_id.name).len() == 1,
            registry.candidates(pkg@.package_id.name)[0] == pkg@,
            all_needed(registry, roots, str_views(waiting@)),
            str_views(old(waiting)@).is_prefix_of(str_views(waiting@)),
            edges_met(pkg@, j as int, picked, str_views(waiting@)),
        decreases wanted.len() - j,
    {
        let ghost before = str_views(waiting@);
        let dep_name = wanted[j].get_name();
        proof {
            assert(dependency_views(wanted@)[j as int] == wanted@[j as int]@);
            assert(pkg@.dependencies[j as int].name == dep_name@);
        }
        if !find_chosen(chosen, dep_name) {
            waiting.push(dep_name);
            proof {
                assert(str_views(waiting@) =~= before.push(dep_name@));
                assert(pkg@.depends_on(dep_name@));
                needed_goes_on(registry, roots, pkg@.package_id.name, dep_name@);
                assert(str_views(waiting@).last() == dep_name@);
                assert(str_views(waiting@).contains(dep_name@));
            }
        }
        proof {
            let after = str_views(waiting@);
            assert(all.take(j + 1) =~= all.take(j as int).push(dep_name@));
            all.take(j as int).lemma_filter_push(dep_name@, not_among(picked));
            assert(after =~= str_views(old(waiting)@) + all.take(j + 1).filter(
                not_among(picked),
            ));
            assert forall|m: int| 0 <= m < j + 1 implies met(
                picked,
                after,
                (#[trigger] pkg@.dependencies[m]).name,
            ) by {
                if m < j {
                    assert(met(picked, before, pkg@.dependencies[m].name));
                    met_grows(picked, before, picked, after, pkg@.dependencies[m].name);
                }
            }
        }
        j += 1;
    }
    assert(all.take(wanted.len() as int) =~= all);
}

/// The identities of the chosen summaries, in their order.
fn identities(chosen: &Vec<&Summary>) -> (r: Vec<PackageId>)
    ensures
        id_views(r@) == ids_of(borrowed_views(chosen@)),
{
    let mut ids: Vec<PackageId> = Vec::new();
    let mut k: usize = 0;
    while k < chosen.len()
        invariant
            k <= chosen.len(),
            ids.len() == k,
            forall|m: int| 0 <= m < k ==> (#[trigger] ids@[m])@ == chosen@[m]@.package_id,
        decreases chosen.len() - k,
    {
        ids.push(chosen[k].get_package_id().clone());
        k += 1;
    }
    assert(id_views(ids@) =~= ids_of(borrowed_views(chosen@)));
    ids
}

/// Chooses the packages that `deps` needs, directly or through other
/// packages, out of what the registry offers.
///
/// Packages are told apart by their names. A name is looked up when it is
/// first met, the last of `deps` first. The registry must offer exactly one
/// summary under it: that summary is chosen for every dependency of this
/// name, and its own dependencies are looked up in turn. The identities come
/// in the order in which they were chosen.
///
/// The call fails at the first name under which the registry offers
/// nothing, or more than one summary.
pub fn resolve<'a, R: Registry>(deps: &'a [Dependency], registry: &'a R) -> (r: Result<
    Vec<PackageId>,
    CargoError,
>)
    ensures
        r is Ok <==> resolvable(registry, dependency_views(deps@)),
        match r {
            Ok(ids) => {
                &&& is_resolution(registry, dependency_views(deps@), id_views(ids@))
                &&& forall|i: int|
                    0 <= i < deps.len() ==> has_name(
                        id_views(ids@),
                        (#[trigger] dependency_views(deps@)[i]).name,
                    )
                &&& forall|i: int, j: int|
                    0 <= i < ids.len() && 0 <= j < registry.candidates(
                        id_views(ids@)[i].name,
                    )[0].dependencies.len() ==> has_name(
                        id_views(ids@),
                        (#[trigger] registry.candidates(
                            id_views(ids@)[i].name,
                        )[0].dependencies[j]).name,
                    )
            },
            Err(CargoError::UnresolvedDependency { name }) => {
                &&& needed(registry, dependency_views(deps@), name@)
                &&& registry.candidates(name@).len() == 0
            },
            Err(CargoError::AmbiguousDependency { name, count }) => {
                &&& needed(registry, dependency_views(deps@), name@)
                &&& registry.candidates(name@).len() == count
                &&& count > 1
            },
            Err(_) => false,
        },
        match r {
            Ok(ids) => walk(
                registry,
                dependency_names(dependency_views(deps@)),
                Seq::empty(),
            ) matches Ok(chosen) && id_views(ids@) == ids_of(chosen),
            Err(CargoError::UnresolvedDependency { name }) => walk(
                registry,
                dependency_names(dependency_views(deps@)),
                Seq::empty(),
            ) == Err::<Seq<SummaryView>, Unmet>(Unmet::Nothing { name: name@ }),
            Err(CargoError::AmbiguousDependency { name, count }) => walk(
                registry,
                dependency_names(dependency_views(deps@)),
                Seq::empty(),
            ) == Err::<Seq<SummaryView>, Unmet>(Unmet::Many { name: name@, count: count as nat }),
            Err(_) => false,
        },
{
    let ghost roots = dependency_views(deps@);
    let mut waiting: Vec<&'a str> = root_names(deps);
    let mut chosen: Vec<&'a Summary> = Vec::new();
    proof {
        registry.offers();
        assert forall|k: int| 0 <= k < str_views(waiting@).len() implies needed(
            registry,
            roots,
            #[trigger] str_views(waiting@)[k],
        ) by {
            assert(roots[k].name == str_views(waiting@)[k]);
            roots_are_needed(registry, roots, roots[k].name);
        }
        assert forall|k: int| 0 <= k < roots.len() implies met(
            borrowed_views(chosen@),
            str_views(waiting@),
            (#[trigger] roots[k]).name,
        ) by {
            assert(str_views(waiting@)[k] == roots[k].name);
        }
        assert(names_of(borrowed_views(chosen@)) =~= Seq::empty());
        assert(borrowed_views(chosen@) =~= Seq::empty());
    }
    let ghost whole = walk(registry, dependency_names(roots), Seq::empty());
    while waiting.len() > 0
        invariant
            roots == dependency_views(deps@),
            can_walk(registry, borrowed_views(chosen@)),
            whole == walk(registry, dependency_names(roots), Seq::empty()),
            walk(registry, str_views(waiting@), borrowed_views(chosen@)) == whole,
            chosen.len() <= registry.names().len(),
            well_chosen(registry, roots, borrowed_views(chosen@)),
            all_needed(registry, roots, str_views(waiting@)),
            all_met(roots, borrowed_views(chosen@), str_views(waiting@)),
        decreases registry.names().len() - chosen.len(), waiting.len(),
    {
        let ghost waiting_before = str_views(waiting@);
        let ghost chosen_before = borrowed_views(chosen@);
        let name = waiting.pop().unwrap();
        proof {
            assert(name@ == waiting_before.last());
            assert(str_views(waiting@) =~= waiting_before.drop_last());
            assert(needed(registry, roots, name@));
        }
        assert(walk(registry, waiting_before, chosen_before) == whole);
        if find_chosen(&chosen, name) {
            proof {
                skip_keeps_met(roots, chosen_before, waiting_before);
                assert(walk(registry, waiting_before.drop_last(), chosen_before) == whole);
            }
            continue ;
        }
        let found = registry.query(name);
        assert(found@.len() == registry.candidates(name@).len()) by {
            assert(borrowed_views(found@).len() == found@.len());
        }
        if found.len() == 0 {
            assert(whole == Err::<Seq<SummaryView>, Unmet>(Unmet::Nothing { name: name@ }));
            return Err(CargoError::UnresolvedDependency { name: String::from_str(name) });
        }
        if found.len() > 1 {
            assert(whole == Err::<Seq<SummaryView>, Unmet>(
                Unmet::Many { name: name@, count: found.len() as nat },
            ));
            return Err(
                CargoError::AmbiguousDependency {
                    name: String::from_str(name),
                    count: found.len(),
                },
            );
        }
        let pkg: &'a Summary = found[0];
        chosen.push(pkg);
        proof {
            registry.offers();
            assert(borrowed_views(found@)[0] == found@[0]@);
            assert(pkg@.package_id.name == name@);
            assert(borrowed_views(chosen@) =~= chosen_before.push(pkg@));
            choice_is_sound(registry, roots, chosen_before, pkg@);
            walk_can_go_on(registry, chosen_before, name@);
        }
        enqueue(&mut waiting, &chosen, registry, Ghost(roots));
        proof {
            choice_keeps_met(roots, chosen_before, waiting_before, pkg@, str_views(waiting@));
            assert(walk(registry, str_views(waiting@), borrowed_views(chosen@)) == whole);
        }
    }
    let ids = identities(&chosen);
    proof {
        assert(str_views(waiting@) =~= Seq::empty());
        nothing_waits(registry, roots, borrowed_views(chosen@));
        resolution_is_closed(registry, roots, id_views(ids@));
    }
    Ok(ids)
}

} // verus!
