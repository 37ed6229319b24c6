//! The closed set of mutation strategy identifiers, with a stable,
//! human-readable string projection for the boundary.

#![allow(unused_imports)]
use vstd::prelude::*;
use vstd::string::StringExecFns;

verus! {

/// Which strategy produced a candidate. The set is closed per release and
/// each value is a pure classification label.
#[derive(PartialEq, Eq, Structural, Clone, Copy, Debug)]
pub enum MutationKind {
    Addition,
    BitSquatting,
    Homoglyph,
    Hyphenation,
    Insertion,
    Omission,
    Repetition,
    Replacement,
    Subdomain,
    Transposition,
    VowelSwap,
    TldVariation,
    Combosquatting,
}

/// The stable spelling of each strategy identifier.
pub open spec fn spec_kind_name(k: MutationKind) -> Seq<char> {
    match k {
        MutationKind::Addition => "Addition"@,
        MutationKind::BitSquatting => "BitSquatting"@,
        MutationKind::Homoglyph => "Homoglyph"@,
        MutationKind::Hyphenation => "Hyphenation"@,
        MutationKind::Insertion => "Insertion"@,
        MutationKind::Omission => "Omission"@,
        MutationKind::Repetition => "Repetition"@,
        MutationKind::Replacement => "Replacement"@,
        MutationKind::Subdomain => "Subdomain"@,
        MutationKind::Transposition => "Transposition"@,
        MutationKind::VowelSwap => "VowelSwap"@,
        MutationKind::TldVariation => "TldVariation"@,
        MutationKind::Combosquatting => "Combosquatting"@,
    }
}

impl MutationKind {
    /// The strategy identifier rendered as its stable string; downstream
    /// consumers may match on this spelling.
    pub fn name(&self) -> (r: String)
        ensures
            r@ == spec_kind_name(*self),
    {
        match self {
            MutationKind::Addition => String::from_str("Addition"),
            MutationKind::BitSquatting => String::from_str("BitSquatting"),
            MutationKind::Homoglyph => String::from_str("Homoglyph"),
            MutationKind::Hyphenation => String::from_str("Hyphenation"),
            MutationKind::Insertion => String::from_str("Insertion"),
            MutationKind::Omission => String::from_str("Omission"),
            MutationKind::Repetition => String::from_str("Repetition"),
            MutationKind::Replacement => String::from_str("Replacement"),
            MutationKind::Subdomain => String::from_str("Subdomain"),
            MutationKind::Transposition => String::from_str("Transposition"),
            MutationKind::VowelSwap => String::from_str("VowelSwap"),
            MutationKind::TldVariation => String::from_str("TldVariation"),
            MutationKind::Combosquatting => String::from_str("Combosquatting"),
        }
    }
}

} // verus!
