//! Package records: the raw row a registry store hands out, and the corpus
//! record the pipeline works with (author set plus optional description).

use vstd::prelude::*;

use crate::text::str_eq;

verus! {

/// Spec-level image of a package record: its author set and its description.
pub ghost struct KrateView {
    pub authors: Set<Seq<char>>,
    pub description: Option<Seq<char>>,
}

/// One crate as the registry store hands it out, before it is condensed into
/// a corpus record.
pub struct RawKrate {
    pub name: String,
    pub login: Option<String>,
    pub homepage: Option<String>,
    pub repository: Option<String>,
    pub documentation: Option<String>,
    pub description: Option<String>,
    pub downloads: i64,
}

/// A package record held by the corpus: who publishes it and how it
/// describes itself. The record doubles as its own author-set capability.
pub struct Krate {
    pub authors: Vec<String>,
    pub description: Option<String>,
}

/// The set of author names that a list of authors denotes.
pub open spec fn authors_set(authors: Seq<String>) -> Set<Seq<char>> {
    Set::new(|a: Seq<char>| exists|i: int| 0 <= i < authors.len() && authors[i]@ == a)
}

/// The view of an optional descriptive string.
pub open spec fn desc_view(d: Option<String>) -> Option<Seq<char>> {
    match d {
        Some(s) => Some(s@),
        None => None,
    }
}

impl View for Krate {
    type V = KrateView;

    open spec fn view(&self) -> KrateView {
        KrateView { authors: authors_set(self.authors@), description: desc_view(self.description) }
    }
}

/// The record a raw row condenses to: the publisher login, if any, is the
/// only author; the description is kept as it is.
pub open spec fn raw_view(row: RawKrate) -> KrateView {
    KrateView {
        authors: match row.login {
            Some(l) => Set::empty().insert(l@),
            None => Set::empty(),
        },
        description: desc_view(row.description),
    }
}

/// Two records share an author when some name belongs to both author sets.
pub open spec fn spec_shared_authors(a: KrateView, b: KrateView) -> bool {
    exists|x: Seq<char>| a.authors.contains(x) && b.authors.contains(x)
}

impl Krate {
    /// Condenses a raw registry row into a corpus record.
    pub fn from(row: RawKrate) -> (k: Krate)
        ensures
            k@ == raw_view(row),
    {
        let ghost rv = raw_view(row);
        let RawKrate { login, description, .. } = row;
        match login {
            Some(l) => {
                let ghost lv = l@;
                let mut v: Vec<String> = Vec::new();
                v.push(l);
                let k = Krate { authors: v, description };
                proof {
                    assert(k.authors@.len() == 1 && k.authors@[0]@ == lv);
                    assert forall|x: Seq<char>| #[trigger] k@.authors.contains(x) implies x
                        == lv by {
                        let i = choose|i: int|
                            0 <= i < k.authors@.len() && k.authors@[i]@ == x;
                        assert(i == 0);
                    }
                    assert(k@.authors.contains(lv));
                    assert(k@.authors =~= rv.authors);
                }
                k
            },
            None => {
                let k = Krate { authors: Vec::new(), description };
                proof {
                    assert forall|x: Seq<char>| !(#[trigger] k@.authors.contains(x)) by {
                        assert(k.authors@.len() == 0);
                    }
                    assert(k@.authors =~= rv.authors);
                }
                k
            },
        }
    }

    /// The author-set capability: does `author` own this record?
    pub fn contains(&self, author: &str) -> (r: bool)
        ensures
            r == self@.authors.contains(author@),
    {
        let mut i: usize = 0;
        while i < self.authors.len()
            invariant
                i <= self.authors.len(),
                forall|j: int| 0 <= j < i ==> self.authors@[j]@ != author@,
            decreases self.authors.len() - i,
        {
            if str_eq(self.authors[i].as_str(), author) {
                return true;
            }
            i = i + 1;
        }
        false
    }

    /// The record itself serves as its author-set capability.
    pub fn authors(&self) -> (a: &Krate)
        ensures
            a == self,
    {
        self
    }

    /// The package description, if it has one.
    pub fn description(&self) -> (d: Option<&String>)
        ensures
            match d {
                Some(s) => self@.description == Some(s@),
                None => self@.description is None,
            },
    {
        self.description.as_ref()
    }

    /// Does any author of this record also appear in `other`'s author set?
    pub fn shared_authors(&self, other: &Krate) -> (r: bool)
        ensures
            r == spec_shared_authors(self@, other@),
    {
        let mut i: usize = 0;
        while i < self.authors.len()
            invariant
                i <= self.authors.len(),
                forall|j: int| 0 <= j < i ==> !other@.authors.contains(#[trigger] self.authors@[j]@),
            decreases self.authors.len() - i,
        {
            if other.contains(self.authors[i].as_str()) {
                proof {
                    assert(self@.authors.contains(self.authors@[i as int]@));
                }
                return true;
            }
            i = i + 1;
        }
        proof {
            assert(!spec_shared_authors(self@, other@)) by {
                assert forall|x: Seq<char>|
                    self@.authors.contains(x) implies !other@.authors.contains(x) by {
                    let w = choose|j: int| 0 <= j < self.authors@.len() && self.authors@[j]@ == x;
                    assert(self.authors@[w]@ == x);
                }
            }
        }
        false
    }
}

} // verus!
