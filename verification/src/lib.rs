//! Generation of look-alike variants of a domain name (typosquatting,
//! bitsquatting, homoglyphs and related mutation strategies) for defensive
//! domain monitoring: a domain parser, a fixed set of mutation strategies,
//! a pluggable candidate filter, and an aggregator that screens, tags and
//! deduplicates the generated names.

#![allow(unused_imports)]
pub mod candidate;
pub mod domain;
pub mod engine;
pub mod kind;
pub mod mutate;
pub mod tables;

pub use candidate::{CandV, Candidate, views_of};
pub use domain::{DomainView, ParseError, ParsedDomain, parse, spec_parse};
pub use engine::{
    Filter, Permissive, filter_candidates, generate, generate_permutations, generate_with_filter,
    spec_generate, spec_permutations, spec_results,
};
pub use kind::MutationKind;
