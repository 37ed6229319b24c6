//! The emitted result record: a generated variant domain, the suffix of its
//! own parse, and the strategy that produced it.

#![allow(unused_imports)]
use vstd::prelude::*;
use crate::kind::{MutationKind, spec_kind_name};

verus! {

/// The mathematical value of a candidate record.
pub struct CandV {
    pub fqdn: Seq<char>,
    pub tld: Seq<char>,
    pub kind: MutationKind,
}

/// One emitted record: the generated variant domain (lowercase), the public
/// suffix of the candidate's own parse (a mutation may change it), and the
/// strategy that produced the candidate.
pub struct Candidate {
    pub fqdn: String,
    pub tld: String,
    pub kind: MutationKind,
}

impl View for Candidate {
    type V = CandV;

    open spec fn view(&self) -> CandV {
        CandV { fqdn: self.fqdn@, tld: self.tld@, kind: self.kind }
    }
}

impl Candidate {
    /// A copy of this record.
    pub fn duplicate(&self) -> (c: Candidate)
        ensures
            c@ == self@,
    {
        Candidate { fqdn: self.fqdn.clone(), tld: self.tld.clone(), kind: self.kind }
    }

    /// The strategy name of this record as its stable string.
    pub fn kind_name(&self) -> (r: String)
        ensures
            r@ == spec_kind_name(self@.kind),
    {
        self.kind.name()
    }
}

/// The values of a sequence of records.
pub open spec fn views_of(s: Seq<Candidate>) -> Seq<CandV> {
    s.map_values(|c: Candidate| c@)
}

/// Relies on `String`'s `FromIterator` implementation: collecting characters
/// yields exactly those characters, in order.
#[verifier::external_body]
pub(crate) fn chars_to_string(v: &Vec<char>) -> (r: String)
    ensures
        r@ == v@,
{
    v.iter().collect()
}

/// Builds one record from a candidate name, its own suffix and its strategy.
pub(crate) fn make_candidate(fqdn: &Vec<char>, tld: &Vec<char>, kind: MutationKind) -> (c:
    Candidate)
    ensures
        c@ == (CandV { fqdn: fqdn@, tld: tld@, kind }),
{
    Candidate { fqdn: chars_to_string(fqdn), tld: chars_to_string(tld), kind }
}

} // verus!
