//! Provider-neutral enrichment of option snapshots with evidenced specifications.

use vstd::prelude::*;
use vstd::string::*;
use crate::port::PortError;
use crate::text::{insert_sorted, same_text, strictly_sorted, texts};

verus! {

/// Enriches option snapshots with the contract specifications a resolver evidences.
pub struct OptionSnapshotEnrichment<ContractSpecifications> {
    contract_specifications: ContractSpecifications,
}

impl<ContractSpecifications> OptionSnapshotEnrichment<ContractSpecifications> {
    /// The collaborator the use case was built with.
    pub closed spec fn parts(&self) -> ContractSpecifications {
        self.contract_specifications
    }

    pub fn new(contract_specifications: ContractSpecifications) -> (r: Self)
        ensures
            r.parts() == contract_specifications,
    {
        OptionSnapshotEnrichment { contract_specifications }
    }

    /// The resolver of contract specifications.
    pub fn contract_specifications(&self) -> (r: &ContractSpecifications)
        ensures
            *r == self.parts(),
    {
        &self.contract_specifications
    }
}

/// The one currency that every contract evidences: none where a contract evidences none, or
/// where the contracts evidence different currencies, or where there are no contracts.
pub open spec fn spec_single_evidenced_currency(currencies: Seq<Option<Seq<char>>>) -> Option<Seq<char>> {
    if currencies.len() > 0 && currencies[0] is Some && forall|i: int|
        0 <= i < currencies.len() ==> #[trigger] currencies[i] == currencies[0] {
        currencies[0]
    } else {
        None
    }
}

/// The currencies evidenced by each contract, as plain values.
pub open spec fn evidence_values(currencies: Seq<Option<&str>>) -> Seq<Option<Seq<char>>> {
    currencies.map_values(|c: Option<&str>| match c {
        Some(s) => Some(s@),
        None => None,
    })
}

pub fn single_evidenced_currency(specifications: &[Option<&str>]) -> (r: Option<String>)
    ensures
        match r {
            Some(c) => spec_single_evidenced_currency(evidence_values(specifications@)) == Some(c@),
            None => spec_single_evidenced_currency(evidence_values(specifications@)) is None,
        },
{
    let ghost v = evidence_values(specifications@);
    let n = specifications.len();
    if n == 0 {
        return None;
    }
    let first: &str = match specifications[0] {
        Some(c) => c,
        None => return None,
    };
    for i in 0..n
        invariant
            n == specifications@.len(),
            v == evidence_values(specifications@),
            n > 0,
            v[0] == Some(first@),
            forall|k: int| 0 <= k < i ==> #[trigger] v[k] == v[0],
    {
        match specifications[i] {
            None => {
                proof {
                    assert(v[i as int] is None);
                }
                return None;
            },
            Some(c) => {
                if !same_text(c, first) {
                    proof {
                        assert(v[i as int] == Some(c@));
                    }
                    return None;
                }
                proof {
                    assert(v[i as int] == Some(c@));
                }
            },
        }
    }
    Some(first.to_owned())
}

/// The resolver answered for other contracts than those asked about.
pub fn incompatible_identity_set() -> (r: PortError)
    ensures
        r matches PortError::Unavailable(m) && m@
            == "contract specification resolver returned an incompatible identity set"@,
{
    PortError::Unavailable(String::from_str("contract specification resolver returned an incompatible identity set"))
}

/// The identities of contracts, each as its root and its OCC symbol.
pub open spec fn identity_values(v: Seq<(String, String)>) -> Seq<(Seq<char>, Seq<char>)> {
    v.map_values(|i: (String, String)| (i.0@, i.1@))
}

fn lists_identity(v: &[(String, String)], root: &str, symbol: &str) -> (r: bool)
    ensures
        r == identity_values(v@).contains((root@, symbol@)),
{
    let mut k: usize = 0;
    while k < v.len()
        invariant
            k <= v@.len(),
            forall|j: int| 0 <= j < k ==> identity_values(v@)[j] != (root@, symbol@),
        decreases v.len() - k,
    {
        if same_text(v[k].0.as_str(), root) && same_text(v[k].1.as_str(), symbol) {
            proof {
                assert(identity_values(v@)[k as int] == (root@, symbol@));
            }
            return true;
        }
        k = k + 1;
    }
    proof {
        if identity_values(v@).contains((root@, symbol@)) {
            let j = choose|j: int| 0 <= j < identity_values(v@).len() && identity_values(v@)[j] == (root@, symbol@);
            assert(identity_values(v@)[j] != (root@, symbol@));
        }
    }
    false
}

fn includes_all(v: &[(String, String)], w: &[(String, String)]) -> (r: bool)
    ensures
        r == identity_values(v@).to_set().subset_of(identity_values(w@).to_set()),
{
    let mut k: usize = 0;
    while k < v.len()
        invariant
            k <= v@.len(),
            forall|j: int| 0 <= j < k ==> identity_values(w@).contains(#[trigger] identity_values(v@)[j]),
        decreases v.len() - k,
    {
        if !lists_identity(w, v[k].0.as_str(), v[k].1.as_str()) {
            proof {
                assert(identity_values(v@).to_set().contains(identity_values(v@)[k as int]));
            }
            return false;
        }
        k = k + 1;
    }
    proof {
        assert forall|x: (Seq<char>, Seq<char>)| identity_values(v@).to_set().contains(x) implies identity_values(
            w@,
        ).to_set().contains(x) by {
            let j = choose|j: int| 0 <= j < identity_values(v@).len() && identity_values(v@)[j] == x;
            assert(identity_values(w@).contains(identity_values(v@)[j]));
        }
    }
    true
}

/// The resolver answered for exactly the contracts asked about, as sets of root
/// and symbol.
pub fn same_identity_set(requested: &[(String, String)], resolved: &[(String, String)]) -> (r: bool)
    ensures
        r == (identity_values(requested@).to_set() == identity_values(resolved@).to_set()),
{
    let forward = includes_all(requested, resolved);
    let backward = includes_all(resolved, requested);
    proof {
        if forward && backward {
            assert(identity_values(requested@).to_set() =~= identity_values(resolved@).to_set());
        }
    }
    forward && backward
}

/// The currencies evidenced by the contracts of each chain, chain after chain.
pub open spec fn chain_evidence(chains: Seq<(String, Vec<Option<String>>)>) -> Seq<Option<Seq<char>>>
    decreases chains.len(),
{
    if chains.len() == 0 {
        Seq::empty()
    } else {
        chain_evidence(chains.drop_last()) + option_texts(chains.last().1@)
    }
}

/// The texts of a list of optional strings.
pub open spec fn option_texts(v: Seq<Option<String>>) -> Seq<Option<Seq<char>>> {
    v.map_values(|c: Option<String>| match c {
        Some(s) => Some(s@),
        None => None,
    })
}

/// Whether a chain of the root has a contract without a specification.
pub open spec fn has_unresolved(chains: Seq<(String, Vec<Option<String>>)>, root: Seq<char>) -> bool {
    exists|i: int, j: int|
        0 <= i < chains.len() && 0 <= j < chains[i].1@.len() && #[trigger] chains[i].0@ == root && #[trigger] chains[i].1@[j]
            is None
}

/// What enriching a snapshot decides once each contract's specification is resolved.
#[derive(Debug, Clone, PartialEq, Eq)]
pub struct EnrichmentOutcome {
    /// The roots with a contract left without a specification, in order, each once.
    pub unresolved_roots: Vec<String>,
    /// The currency to record for the underlying: the one every contract evidences, where
    /// every contract has a specification.
    pub underlying_currency: Option<String>,
}

/// Decides the enrichment of a snapshot from the currency of each contract's specification
/// (`None` for a contract without one), chain by chain with the chain's root.
pub fn enrichment_outcome(chains: &Vec<(String, Vec<Option<String>>)>) -> (r: EnrichmentOutcome)
    ensures
        strictly_sorted(texts(r.unresolved_roots@)),
        forall|root: Seq<char>| #[trigger] texts(r.unresolved_roots@).contains(root) <==> has_unresolved(chains@, root),
        r.unresolved_roots@.len() == 0 ==> opt_view(r.underlying_currency) == spec_single_evidenced_currency(
            chain_evidence(chains@),
        ),
        r.unresolved_roots@.len() > 0 ==> r.underlying_currency is None,
{
    let mut roots: Vec<String> = Vec::new();
    let mut evidence: Vec<Option<&str>> = Vec::new();
    proof {
        assert(texts(roots@).to_set() =~= Set::<Seq<char>>::empty());
        assert(evidence_values(evidence@) =~= chain_evidence(chains@.take(0)));
    }
    for i in 0..chains.len()
        invariant
            strictly_sorted(texts(roots@)),
            evidence_values(evidence@) == chain_evidence(chains@.take(i as int)),
            forall|root: Seq<char>| #[trigger] texts(roots@).to_set().contains(root) <==> has_unresolved(
                chains@.take(i as int),
                root,
            ),
    {
        let chain = &chains[i];
        let ghost taken = chains@.take(i as int);
        let ghost roots_before = texts(roots@).to_set();
        let ghost evidence_before = evidence@;
        for j in 0..chain.1.len()
            invariant
                chain == &chains@[i as int],
                i < chains@.len(),
                strictly_sorted(texts(roots@)),
                evidence_values(evidence@) == evidence_values(evidence_before) + option_texts(chain.1@.take(j as int)),
                forall|root: Seq<char>| #[trigger] texts(roots@).to_set().contains(root) <==> (roots_before.contains(root)
                    || (root == chain.0@ && exists|k: int| 0 <= k < j && #[trigger] chain.1@[k] is None)),
        {
            let ghost previous = evidence@;
            match &chain.1[j] {
                Some(c) => {
                    evidence.push(Some(c.as_str()));
                },
                None => {
                    insert_sorted(&mut roots, chain.0.as_str());
                    evidence.push(None);
                },
            }
            proof {
                assert(evidence_values(evidence@) =~= evidence_values(previous).push(option_texts(chain.1@)[j as int]));
                assert(option_texts(chain.1@.take(j + 1)) =~= option_texts(chain.1@.take(j as int)).push(
                    option_texts(chain.1@)[j as int],
                ));
                assert(evidence_values(evidence_before) + option_texts(chain.1@.take(j + 1)) =~= (evidence_values(
                    evidence_before,
                ) + option_texts(chain.1@.take(j as int))).push(option_texts(chain.1@)[j as int]));
            }
        }
        proof {
            assert(chain.1@.take(chain.1@.len() as int) =~= chain.1@);
            assert(chains@.take(i + 1).drop_last() =~= taken);
            assert(chains@.take(i + 1).last() == chains@[i as int]);
            assert(evidence_values(evidence@) =~= chain_evidence(chains@.take(i + 1)));
            assert forall|root: Seq<char>| #[trigger] texts(roots@).to_set().contains(root) <==> has_unresolved(
                chains@.take(i + 1),
                root,
            ) by {
                let next = chains@.take(i + 1);
                if has_unresolved(next, root) {
                    let (a, b) = choose|a: int, b: int|
                        0 <= a < next.len() && 0 <= b < next[a].1@.len() && #[trigger] next[a].0@ == root
                            && #[trigger] next[a].1@[b] is None;
                    if a < i {
                        assert(taken[a] == next[a]);
                        assert(has_unresolved(taken, root));
                    } else {
                        assert(next[a] == chains@[i as int]);
                    }
                }
                if roots_before.contains(root) {
                    let (a, b) = choose|a: int, b: int|
                        0 <= a < taken.len() && 0 <= b < taken[a].1@.len() && #[trigger] taken[a].0@ == root
                            && #[trigger] taken[a].1@[b] is None;
                    assert(next[a] == taken[a]);
                }
                if root == chain.0@ && exists|k: int| 0 <= k < chain.1@.len() && #[trigger] chain.1@[k] is None {
                    let k = choose|k: int| 0 <= k < chain.1@.len() && #[trigger] chain.1@[k] is None;
                    assert(next[i as int] == chains@[i as int]);
                    assert(next[i as int].1@[k] is None);
                }
            }
        }
    }
    proof {
        assert(chains@.take(chains@.len() as int) =~= chains@);
        assert forall|root: Seq<char>| #[trigger] texts(roots@).contains(root) <==> has_unresolved(chains@, root) by {
            assert(texts(roots@).to_set().contains(root) == texts(roots@).contains(root));
        }
    }
    let currency = if roots.len() == 0 {
        single_evidenced_currency(evidence.as_slice())
    } else {
        None
    };
    EnrichmentOutcome { unresolved_roots: roots, underlying_currency: currency }
}

pub open spec fn opt_view(o: Option<String>) -> Option<Seq<char>> {
    match o {
        Some(s) => Some(s@),
        None => None,
    }
}

} // verus!
