//! Where summaries come from.

use crate::summary::{summary_views, Summary, SummaryView};
use crate::text::str_eq;
use vstd::prelude::*;

verus! {

broadcast use vstd::seq_lib::group_seq_properties;

/// The summaries behind a list of borrowed ones, each as plain values.
pub open spec fn borrowed_views(found: Seq<&Summary>) -> Seq<SummaryView> {
    found.map_values(|s: &Summary| s@)
}

/// The test "is called `name`".
pub open spec fn called(name: Seq<char>) -> spec_fn(SummaryView) -> bool {
    |s: SummaryView| s.package_id.name == name
}

/// The names of the packages in a list of summaries.
pub open spec fn names_of(all: Seq<SummaryView>) -> Seq<Seq<char>> {
    all.map_values(|s: SummaryView| s.package_id.name)
}

/// Anything that can say which summaries exist under a name.
pub trait Registry {
    /// The summaries on offer under `name`. The answer is the same at every
    /// call.
    spec fn candidates(&self, name: Seq<char>) -> Seq<SummaryView>;

    /// A finite set of names that holds every name under which anything is
    /// on offer.
    spec fn names(&self) -> Set<Seq<char>>;

    /// A registry offers something under finitely many names, all of them
    /// in `names`, and what it offers under a name is called by that name.
    proof fn offers(&self)
        ensures
            self.names().finite(),
            forall|name: Seq<char>| #[trigger]
                self.candidates(name).len() > 0 ==> self.names().contains(name),
            forall|name: Seq<char>, i: int|
                0 <= i < self.candidates(name).len() ==> (#[trigger] self.candidates(
                    name,
                )[i]).package_id.name == name,
    ;

    /// The summaries on offer under `name`; none where there is no such
    /// package.
    fn query<'a>(&'a self, name: &str) -> (r: Vec<&'a Summary>)
        ensures
            borrowed_views(r@) == self.candidates(name@),
    ;
}

/// The summaries of `all` that are called `name`, in the order of `all`.
pub open spec fn candidates_among(all: Seq<SummaryView>, name: Seq<char>) -> Seq<SummaryView> {
    all.filter(called(name))
}

/// What a list of summaries offers under a name is called by that name, and
/// the name is among the names of the list.
pub proof fn candidates_among_are_called(all: Seq<SummaryView>, name: Seq<char>)
    ensures
        forall|i: int|
            0 <= i < candidates_among(all, name).len() ==> (#[trigger] candidates_among(
                all,
                name,
            )[i]).package_id.name == name,
        candidates_among(all, name).len() > 0 ==> names_of(all).to_set().contains(name),
{
    let found = candidates_among(all, name);
    assert forall|i: int| 0 <= i < found.len() implies (#[trigger] found[i]).package_id.name
        == name by {
        all.lemma_filter_pred(called(name), i);
    }
    if found.len() > 0 {
        assert(found.contains(found[0]));
        all.lemma_filter_contains_rev(called(name), found[0]);
        let k = choose|k: int| 0 <= k < all.len() && all[k] == found[0];
        assert(names_of(all)[k] == name);
        assert(names_of(all).contains(name));
    }
}

/// The summaries of `all` that are called `name`, in the order of `all`.
pub fn query_among<'a>(all: &'a [Summary], name: &str) -> (r: Vec<&'a Summary>)
    ensures
        borrowed_views(r@) == candidates_among(summary_views(all@), name@),
{
    let mut found: Vec<&'a Summary> = Vec::new();
    let mut i: usize = 0;
    assert(summary_views(all@).take(0) =~= Seq::empty());
    while i < all.len()
        invariant
            i <= all.len(),
            borrowed_views(found@) == candidates_among(
                summary_views(all@).take(i as int),
                name@,
            ),
        decreases all.len() - i,
    {
        let ghost before = summary_views(all@).take(i as int);
        let ghost old_found = found@;
        if str_eq(all[i].get_name(), name) {
            found.push(&all[i]);
            assert(borrowed_views(found@) =~= borrowed_views(old_found).push(all@[i as int]@));
        }
        proof {
            assert(summary_views(all@).take(i + 1) =~= before.push(all@[i as int]@));
            before.lemma_filter_push(all@[i as int]@, called(name@));
        }
        i += 1;
    }
    assert(summary_views(all@).take(all.len() as int) =~= summary_views(all@));
    found
}

/// A list of summaries held in memory is a registry: it offers under a name
/// those of its summaries that are called so, in its own order.
impl Registry for Vec<Summary> {
    open spec fn candidates(&self, name: Seq<char>) -> Seq<SummaryView> {
        candidates_among(summary_views(self@), name)
    }

    open spec fn names(&self) -> Set<Seq<char>> {
        names_of(summary_views(self@)).to_set()
    }

    proof fn offers(&self) {
        let all = summary_views(self@);
        assert forall|name: Seq<char>| #[trigger]
            self.candidates(name).len() > 0 implies self.names().contains(name) by {
            candidates_among_are_called(all, name);
        }
        assert forall|name: Seq<char>, i: int|
            0 <= i < self.candidates(name).len() implies (#[trigger] self.candidates(
            name,
        )[i]).package_id.name == name by {
            candidates_among_are_called(all, name);
        }
    }

    fn query<'a>(&'a self, name: &str) -> (r: Vec<&'a Summary>) {
        query_among(self.as_slice(), name)
    }
}

} // verus!
