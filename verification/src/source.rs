//! Where a set of packages comes from.

use crate::location::{Url, UrlView};
use vstd::prelude::*;

verus! {

/// The kinds of sources.
#[derive(Clone, Copy, Debug, PartialEq, Eq, Structural)]
pub enum SourceKind {
    /// A directory on this machine.
    PathKind,
    /// A repository under version control.
    GitKind,
    /// The central registry.
    RegistryKind,
}

/// The place of a source: its URL and, for a repository, the branch, tag or
/// revision to take, where one is named.
pub struct LocationView {
    pub url: UrlView,
    pub reference: Option<Seq<char>>,
}

/// A source as plain values.
pub struct SourceIdView {
    pub kind: SourceKind,
    pub location: LocationView,
}

/// The kind and the place of a source. Only a repository names a reference.
#[derive(Debug)]
pub struct SourceId {
    kind: SourceKind,
    url: Url,
    reference: Option<String>,
}

impl View for SourceId {
    type V = SourceIdView;

    closed spec fn view(&self) -> SourceIdView {
        SourceIdView {
            kind: self.kind,
            location: LocationView {
                url: self.url@,
                reference: match self.reference {
                    Some(r) => Some(r@),
                    None => None,
                },
            },
        }
    }
}

impl SourceId {
    #[verifier::type_invariant]
    spec fn sound(&self) -> bool {
        self.reference is Some ==> self.kind == SourceKind::GitKind
    }

    /// The source of the given kind at `url`, with no reference named.
    pub fn new(kind: SourceKind, url: Url) -> (r: SourceId)
        ensures
            r@ == (SourceIdView { kind, location: LocationView { url: url@, reference: None } }),
    {
        SourceId { kind, url, reference: None }
    }

    /// The repository at `url`, taken at `reference`.
    pub fn for_git(url: Url, reference: &str) -> (r: SourceId)
        ensures
            r@ == (SourceIdView {
                kind: SourceKind::GitKind,
                location: LocationView { url: url@, reference: Some(reference@) },
            }),
    {
        SourceId { kind: SourceKind::GitKind, url, reference: Some(String::from_str(reference)) }
    }

    pub fn get_kind(&self) -> (r: SourceKind)
        ensures
            r == self@.kind,
    {
        self.kind
    }

    pub fn is_git(&self) -> (r: bool)
        ensures
            r == (self@.kind == SourceKind::GitKind),
    {
        self.kind == SourceKind::GitKind
    }

    pub fn get_url(&self) -> (r: &Url)
        ensures
            r@ == self@.location.url,
    {
        &self.url
    }

    /// The reference to take, which only a repository names.
    pub fn get_reference(&self) -> (r: Option<&str>)
        ensures
            match r {
                Some(name) => self@.location.reference == Some(name@) && self@.kind
                    == SourceKind::GitKind,
                None => self@.location.reference is None,
            },
    {
        proof {
            use_type_invariant(self);
        }
        match &self.reference {
            Some(name) => Some(name.as_str()),
            None => None,
        }
    }
}

impl PartialEq for SourceId {
    fn eq(&self, other: &SourceId) -> (r: bool) {
        let same_reference = match (&self.reference, &other.reference) {
            (Some(a), Some(b)) => *a == *b,
            (None, None) => true,
            _ => false,
        };
        self.kind == other.kind && self.url == other.url && same_reference
    }
}

impl vstd::std_specs::cmp::PartialEqSpecImpl for SourceId {
    open spec fn obeys_eq_spec() -> bool {
        true
    }

    /// Two sources are equal when they are of one kind and at one place.
    open spec fn eq_spec(&self, other: &SourceId) -> bool {
        self@ == other@
    }
}

impl Eq for SourceId {

}

impl Clone for SourceId {
    fn clone(&self) -> (r: SourceId)
        ensures
            r@ == self@,
    {
        proof {
            use_type_invariant(self);
        }
        SourceId {
            kind: self.kind,
            url: self.url.clone(),
            reference: match &self.reference {
                Some(name) => Some(name.clone()),
                None => None,
            },
        }
    }
}

/// The sources of a list, each as plain values.
pub open spec fn source_views(sources: Seq<SourceId>) -> Seq<SourceIdView> {
    sources.map_values(|s: SourceId| s@)
}

/// A copy of a list of sources.
pub fn clone_sources(sources: &[SourceId]) -> (r: Vec<SourceId>)
    ensures
        source_views(r@) == source_views(sources@),
{
    let mut out: Vec<SourceId> = Vec::new();
    let mut i: usize = 0;
    while i < sources.len()
        invariant
            i <= sources.len(),
            out.len() == i,
            forall|k: int| 0 <= k < i ==> (#[trigger] out@[k])@ == sources@[k]@,
        decreases sources.len() - i,
    {
        out.push(sources[i].clone());
        i += 1;
    }
    assert(source_views(out@) =~= source_views(sources@));
    out
}

} // verus!
