//! The filter and the aggregator: runs every strategy over the parsed
//! domain in the engine's fixed order, screens each candidate (it must
//! re-parse as a domain and must not be the original name), applies the
//! acceptance policy, removes duplicate names, and assembles the records.
//!
//! Duplicate handling is deliberate first-seen-wins under the fixed strategy
//! order of `spec_results`, so the surviving kind of a collided name is
//! deterministic.

#![allow(unused_imports)]
use vstd::prelude::*;
use crate::candidate::{CandV, Candidate, views_of, make_candidate};
use crate::domain::{
    spec_parse, parse_chars, chars_eq, copy_chars, str_to_chars, DomainView, ParseError,
};
use crate::kind::MutationKind;
use crate::mutate::{
    spec_addition, addition, spec_bit_squatting, bit_squatting, spec_homoglyph, homoglyph,
    spec_hyphenation, hyphenation, spec_omission, omission, spec_repetition, repetition,
    spec_transposition, transposition, spec_vowel_swap, vowel_swap, spec_insertion, insertion,
    spec_replacement, replacement, spec_subdomain, subdomain, spec_tld_variation, tld_variation,
    spec_combosquatting, combosquatting,
};

verus! {

/// A pluggable acceptance policy over candidate records, composed after
/// generation and before aggregation; strategy code never sees it.
pub trait Filter: Sized {
    /// What the policy accepts.
    spec fn spec_accept(&self, c: CandV) -> bool;

    /// Decides one record; the decision is exactly `spec_accept`.
    fn accept(&self, c: &Candidate) -> (r: bool)
        ensures
            r == self.spec_accept(c@),
    ;
}

/// The default policy: accepts every candidate that passed screening.
pub struct Permissive;

impl Filter for Permissive {
    open spec fn spec_accept(&self, c: CandV) -> bool {
        true
    }

    fn accept(&self, c: &Candidate) -> (r: bool) {
        true
    }
}

/// A candidate name is kept when it re-parses as a domain and is not the
/// original normalized name itself.
pub open spec fn spec_screen(c: Seq<char>, orig: Seq<char>) -> bool {
    spec_parse(c) is Ok && c != orig
}

/// The suffix of a candidate's own parse.
pub open spec fn spec_cand_tld(c: Seq<char>) -> Seq<char> {
    (spec_parse(c)->Ok_0).tld
}

/// Whether a name already has a record in `out`.
pub open spec fn spec_has_fqdn(out: Seq<CandV>, fqdn: Seq<char>) -> bool {
    exists|i: int| 0 <= i < out.len() && out[i].fqdn == fqdn
}

/// The names of a sequence of records.
pub open spec fn fqdns_of(s: Seq<CandV>) -> Seq<Seq<char>> {
    s.map_values(|c: CandV| c.fqdn)
}

/// One candidate folded into the output: dropped when it fails screening or
/// the policy, or duplicates an earlier name; kept otherwise, tagged with
/// the strategy that produced it and the suffix of its own parse.
pub open spec fn spec_insert<F: Filter>(
    out: Seq<CandV>,
    c: Seq<char>,
    k: MutationKind,
    orig: Seq<char>,
    f: F,
) -> Seq<CandV> {
    let cv = CandV { fqdn: c, tld: spec_cand_tld(c), kind: k };
    if spec_screen(c, orig) && f.spec_accept(cv) && !spec_has_fqdn(out, c) {
        out.push(cv)
    } else {
        out
    }
}

/// One strategy's batch folded into the output, in order.
pub open spec fn spec_insert_batch<F: Filter>(
    out: Seq<CandV>,
    batch: Seq<Seq<char>>,
    k: MutationKind,
    orig: Seq<char>,
    f: F,
) -> Seq<CandV>
    decreases batch.len(),
{
    if batch.len() == 0 {
        out
    } else {
        spec_insert_batch(spec_insert(out, batch[0], k, orig, f), batch.skip(1), k, orig, f)
    }
}

/// The engine's result for a parsed domain: every strategy's output in the
/// fixed strategy order, screened, filtered and deduplicated first-seen-wins.
pub open spec fn spec_results<F: Filter>(d: DomainView, f: F) -> Seq<CandV> {
    let s0 = spec_insert_batch(
        Seq::empty(),
        spec_addition(d.root, d.tld),
        MutationKind::Addition,
        d.fqdn,
        f,
    );
    let s1 = spec_insert_batch(
        s0,
        spec_bit_squatting(d.root, d.tld),
        MutationKind::BitSquatting,
        d.fqdn,
        f,
    );
    let s2 = spec_insert_batch(s1, spec_homoglyph(d.root, d.tld), MutationKind::Homoglyph, d.fqdn, f);
    let s3 = spec_insert_batch(
        s2,
        spec_hyphenation(d.root, d.tld),
        MutationKind::Hyphenation,
        d.fqdn,
        f,
    );
    let s4 = spec_insert_batch(s3, spec_omission(d.root, d.tld), MutationKind::Omission, d.fqdn, f);
    let s5 = spec_insert_batch(
        s4,
        spec_repetition(d.root, d.tld),
        MutationKind::Repetition,
        d.fqdn,
        f,
    );
    let s6 = spec_insert_batch(
        s5,
        spec_transposition(d.root, d.tld),
        MutationKind::Transposition,
        d.fqdn,
        f,
    );
    let s7 = spec_insert_batch(s6, spec_vowel_swap(d.root, d.tld), MutationKind::VowelSwap, d.fqdn, f);
    let s8 = spec_insert_batch(s7, spec_insertion(d.root, d.tld), MutationKind::Insertion, d.fqdn, f);
    let s9 = spec_insert_batch(
        s8,
        spec_replacement(d.root, d.tld),
        MutationKind::Replacement,
        d.fqdn,
        f,
    );
    let s10 = spec_insert_batch(s9, spec_subdomain(d.root, d.tld), MutationKind::Subdomain, d.fqdn, f);
    let s11 = spec_insert_batch(
        s10,
        spec_tld_variation(d.root),
        MutationKind::TldVariation,
        d.fqdn,
        f,
    );
    spec_insert_batch(s11, spec_combosquatting(d.root, d.tld), MutationKind::Combosquatting, d.fqdn, f)
}

/// What generating from an input string means: the parse's error, or the
/// engine's result on the parsed domain.
pub open spec fn spec_generate<F: Filter>(s: Seq<char>, f: F) -> Result<Seq<CandV>, ParseError> {
    match spec_parse(s) {
        Result::Ok(d) => Result::Ok(spec_results(d, f)),
        Result::Err(e) => Result::Err(e),
    }
}

/// The permissive boundary: an unparseable input yields an empty collection
/// rather than an error.
pub open spec fn spec_permutations<F: Filter>(s: Seq<char>, f: F) -> Seq<CandV> {
    match spec_generate(s, f) {
        Result::Ok(cs) => cs,
        Result::Err(_) => Seq::empty(),
    }
}

/// Soundness of an output collection with respect to the original name:
/// no two records share a name, every name re-parses, no record carries the
/// original name, and each record's suffix is the one of its own parse.
pub open spec fn spec_sound(out: Seq<CandV>, orig: Seq<char>) -> bool {
    &&& forall|i: int, j: int|
        #![trigger out[i], out[j]]
        0 <= i < j < out.len() ==> out[i].fqdn != out[j].fqdn
    &&& forall|i: int| 0 <= i < out.len() ==> spec_parse(#[trigger] out[i].fqdn) is Ok
    &&& forall|i: int| 0 <= i < out.len() ==> (#[trigger] out[i]).fqdn != orig
    &&& forall|i: int| 0 <= i < out.len() ==> (#[trigger] out[i]).tld == spec_cand_tld(out[i].fqdn)
}

proof fn lemma_insert_sound<F: Filter>(
    out: Seq<CandV>,
    c: Seq<char>,
    k: MutationKind,
    orig: Seq<char>,
    f: F,
)
    requires
        spec_sound(out, orig),
    ensures
        spec_sound(spec_insert(out, c, k, orig, f), orig),
{
    let r = spec_insert(out, c, k, orig, f);
    if r != out {
        assert forall|i: int, j: int| #![trigger r[i], r[j]] 0 <= i < j < r.len() implies r[i].fqdn
            != r[j].fqdn by {
            if j < out.len() {
            } else {
                assert(r[j].fqdn == c);
                assert(!spec_has_fqdn(out, c));
                assert(out[i].fqdn != c);
            }
        }
    }
}

proof fn lemma_insert_batch_sound<F: Filter>(
    out: Seq<CandV>,
    batch: Seq<Seq<char>>,
    k: MutationKind,
    orig: Seq<char>,
    f: F,
)
    requires
        spec_sound(out, orig),
    ensures
        spec_sound(spec_insert_batch(out, batch, k, orig, f), orig),
    decreases batch.len(),
{
    if batch.len() > 0 {
        lemma_insert_sound(out, batch[0], k, orig, f);
        lemma_insert_batch_sound(spec_insert(out, batch[0], k, orig, f), batch.skip(1), k, orig, f);
    }
}

/// Soundness of the engine's whole result: within one run no two records
/// share a name, every emitted name re-parses under the domain parser, and
/// the original normalized name never appears in the output.
pub proof fn lemma_results_sound<F: Filter>(d: DomainView, f: F)
    ensures
        spec_sound(spec_results(d, f), d.fqdn),
{
    let e: Seq<CandV> = Seq::empty();
    assert(spec_sound(e, d.fqdn));
    lemma_insert_batch_sound(e, spec_addition(d.root, d.tld), MutationKind::Addition, d.fqdn, f);
    let s0 = spec_insert_batch(e, spec_addition(d.root, d.tld), MutationKind::Addition, d.fqdn, f);
    lemma_insert_batch_sound(
        s0,
        spec_bit_squatting(d.root, d.tld),
        MutationKind::BitSquatting,
        d.fqdn,
        f,
    );
    let s1 = spec_insert_batch(
        s0,
        spec_bit_squatting(d.root, d.tld),
        MutationKind::BitSquatting,
        d.fqdn,
        f,
    );
    lemma_insert_batch_sound(s1, spec_homoglyph(d.root, d.tld), MutationKind::Homoglyph, d.fqdn, f);
    let s2 = spec_insert_batch(s1, spec_homoglyph(d.root, d.tld), MutationKind::Homoglyph, d.fqdn, f);
    lemma_insert_batch_sound(
        s2,
        spec_hyphenation(d.root, d.tld),
        MutationKind::Hyphenation,
        d.fqdn,
        f,
    );
    let s3 = spec_insert_batch(
        s2,
        spec_hyphenation(d.root, d.tld),
        MutationKind::Hyphenation,
        d.fqdn,
        f,
    );
    lemma_insert_batch_sound(s3, spec_omission(d.root, d.tld), MutationKind::Omission, d.fqdn, f);
    let s4 = spec_insert_batch(s3, spec_omission(d.root, d.tld), MutationKind::Omission, d.fqdn, f);
    lemma_insert_batch_sound(s4, spec_repetition(d.root, d.tld), MutationKind::Repetition, d.fqdn, f);
    let s5 = spec_insert_batch(
        s4,
        spec_repetition(d.root, d.tld),
        MutationKind::Repetition,
        d.fqdn,
        f,
    );
    lemma_insert_batch_sound(
        s5,
        spec_transposition(d.root, d.tld),
        MutationKind::Transposition,
        d.fqdn,
        f,
    );
    let s6 = spec_insert_batch(
        s5,
        spec_transposition(d.root, d.tld),
        MutationKind::Transposition,
        d.fqdn,
        f,
    );
    lemma_insert_batch_sound(s6, spec_vowel_swap(d.root, d.tld), MutationKind::VowelSwap, d.fqdn, f);
    let s7 = spec_insert_batch(s6, spec_vowel_swap(d.root, d.tld), MutationKind::VowelSwap, d.fqdn, f);
    lemma_insert_batch_sound(s7, spec_insertion(d.root, d.tld), MutationKind::Insertion, d.fqdn, f);
    let s8 = spec_insert_batch(s7, spec_insertion(d.root, d.tld), MutationKind::Insertion, d.fqdn, f);
    lemma_insert_batch_sound(
        s8,
        spec_replacement(d.root, d.tld),
        MutationKind::Replacement,
        d.fqdn,
        f,
    );
    let s9 = spec_insert_batch(
        s8,
        spec_replacement(d.root, d.tld),
        MutationKind::Replacement,
        d.fqdn,
        f,
    );
    lemma_insert_batch_sound(s9, spec_subdomain(d.root, d.tld), MutationKind::Subdomain, d.fqdn, f);
    let s10 = spec_insert_batch(s9, spec_subdomain(d.root, d.tld), MutationKind::Subdomain, d.fqdn, f);
    lemma_insert_batch_sound(s10, spec_tld_variation(d.root), MutationKind::TldVariation, d.fqdn, f);
    let s11 = spec_insert_batch(
        s10,
        spec_tld_variation(d.root),
        MutationKind::TldVariation,
        d.fqdn,
        f,
    );
    lemma_insert_batch_sound(
        s11,
        spec_combosquatting(d.root, d.tld),
        MutationKind::Combosquatting,
        d.fqdn,
        f,
    );
}

/// Determinism: the engine's result is a function of the input string and
/// the (fixed) policy and tables alone, so two runs on the same input yield
/// identical collections.
pub proof fn lemma_generation_deterministic<F: Filter>(
    s: Seq<char>,
    f: F,
    r1: Result<Seq<CandV>, ParseError>,
    r2: Result<Seq<CandV>, ParseError>,
)
    requires
        r1 == spec_generate(s, f),
        r2 == spec_generate(s, f),
    ensures
        r1 == r2,
{
}

/// A collection screened by a policy, record by record.
pub open spec fn spec_filtered<F: Filter>(s: Seq<CandV>, f: F) -> Seq<CandV> {
    s.filter(|c: CandV| f.spec_accept(c))
}

proof fn lemma_filter_all_accepted<F: Filter>(t: Seq<CandV>, f: F)
    requires
        forall|i: int| 0 <= i < t.len() ==> f.spec_accept(#[trigger] t[i]),
    ensures
        spec_filtered(t, f) == t,
    decreases t.len(),
{
    reveal(Seq::filter);
    if t.len() == 0 {
        assert(spec_filtered(t, f) =~= t);
    } else {
        lemma_filter_all_accepted(t.drop_last(), f);
        assert(f.spec_accept(t.last()));
        assert(spec_filtered(t, f) =~= t.drop_last().push(t.last()));
        assert(t.drop_last().push(t.last()) =~= t);
    }
}

/// Idempotent filtering: applying an acceptance policy twice produces the
/// same collection as applying it once.
pub proof fn lemma_filter_idempotent<F: Filter>(s: Seq<CandV>, f: F)
    ensures
        spec_filtered(spec_filtered(s, f), f) == spec_filtered(s, f),
{
    broadcast use vstd::seq_lib::group_filter_ensures;

    let p = |c: CandV| f.spec_accept(c);
    lemma_filter_all_accepted(s.filter(p), f);
}

/// Screens an already-generated collection with a policy; policies compose
/// after generation without touching strategy code.
#[verifier::loop_isolation(false)]
pub fn filter_candidates<F: Filter>(v: &Vec<Candidate>, f: &F) -> (r: Vec<Candidate>)
    ensures
        views_of(r@) == spec_filtered(views_of(v@), *f),
{
    proof {
        reveal(Seq::filter);
    }
    let mut out: Vec<Candidate> = Vec::new();
    let mut i: usize = 0;
    while i < v.len()
        invariant
            i <= v@.len(),
            views_of(out@) == spec_filtered(views_of(v@.subrange(0, i as int)), *f),
        decreases v@.len() - i,
    {
        let ghost prefix = views_of(v@.subrange(0, i as int));
        let ghost next = views_of(v@.subrange(0, i as int + 1));
        proof {
            assert(next.drop_last() =~= prefix);
            assert(next.last() == v@[i as int]@);
        }
        if f.accept(&v[i]) {
            out.push(v[i].duplicate());
            proof {
                assert(views_of(out@) =~= spec_filtered(prefix, *f).push(v@[i as int]@));
            }
        }
        proof {
            assert(views_of(out@) =~= spec_filtered(next, *f));
        }
        i += 1;
    }
    proof {
        assert(v@.subrange(0, v@.len() as int) =~= v@);
    }
    out
}

/// Whether `c`'s characters already stand in `seen`.
#[verifier::loop_isolation(false)]
fn contains_name(seen: &Vec<Vec<char>>, c: &Vec<char>) -> (r: bool)
    ensures
        r == exists|i: int| 0 <= i < seen.deep_view().len() && seen.deep_view()[i] == c@,
{
    let mut i: usize = 0;
    while i < seen.len()
        invariant
            i <= seen@.len(),
            forall|j: int| 0 <= j < i ==> seen.deep_view()[j] != c@,
        decreases seen@.len() - i,
    {
        proof {
            assert(seen.deep_view()[i as int] == seen@[i as int].deep_view());
            assert(seen@[i as int].deep_view() =~= seen@[i as int]@);
        }
        if chars_eq(&seen[i], c) {
            return true;
        }
        i += 1;
    }
    false
}

/// Folds one strategy's batch into the output collection and its mirror of
/// already-seen names.
#[verifier::loop_isolation(false)]
fn insert_batch<F: Filter>(
    out: &mut Vec<Candidate>,
    seen: &mut Vec<Vec<char>>,
    batch: &Vec<Vec<char>>,
    k: MutationKind,
    orig: &Vec<char>,
    f: &F,
)
    requires
        old(seen).deep_view() == fqdns_of(views_of(old(out)@)),
    ensures
        views_of(final(out)@) == spec_insert_batch(
            views_of(old(out)@),
            batch.deep_view(),
            k,
            orig@,
            *f,
        ),
        final(seen).deep_view() == fqdns_of(views_of(final(out)@)),
{
    let ghost target = spec_insert_batch(views_of(old(out)@), batch.deep_view(), k, orig@, *f);
    proof {
        assert(batch.deep_view().skip(0) =~= batch.deep_view());
    }
    let mut bi: usize = 0;
    while bi < batch.len()
        invariant
            bi <= batch@.len(),
            seen.deep_view() == fqdns_of(views_of(out@)),
            spec_insert_batch(views_of(out@), batch.deep_view().skip(bi as int), k, orig@, *f)
                == target,
        decreases batch@.len() - bi,
    {
        let c = &batch[bi];
        proof {
            assert(batch.deep_view()[bi as int] == batch@[bi as int].deep_view());
            assert(batch@[bi as int].deep_view() =~= batch@[bi as int]@);
        }
        let ghost cseq = batch@[bi as int]@;
        let ghost pre = views_of(out@);
        match parse_chars(c) {
            Result::Err(_) => {
                proof {
                    assert(spec_insert(pre, cseq, k, orig@, *f) == pre);
                }
            },
            Result::Ok(pd) => {
                if chars_eq(c, orig) {
                    proof {
                        assert(spec_insert(pre, cseq, k, orig@, *f) == pre);
                    }
                } else if contains_name(seen, c) {
                    proof {
                        assert forall|j: int| 0 <= j < pre.len() implies fqdns_of(pre)[j]
                            == pre[j].fqdn by {}
                        assert(spec_has_fqdn(pre, cseq));
                        assert(spec_insert(pre, cseq, k, orig@, *f) == pre);
                    }
                } else {
                    proof {
                        assert forall|j: int| 0 <= j < pre.len() implies (#[trigger] pre[j]).fqdn
                            != cseq by {
                            assert(fqdns_of(pre)[j] == pre[j].fqdn);
                            assert(seen.deep_view()[j] == fqdns_of(pre)[j]);
                        }
                        assert(!spec_has_fqdn(pre, cseq));
                    }
                    let cand = make_candidate(c, pd.tld_chars(), k);
                    if f.accept(&cand) {
                        let ghost seen_pre = seen.deep_view();
                        out.push(cand);
                        seen.push(copy_chars(c));
                        proof {
                            assert(views_of(out@) =~= pre.push(
                                CandV { fqdn: cseq, tld: spec_cand_tld(cseq), kind: k },
                            ));
                            assert(seen.deep_view() =~~= seen_pre.push(cseq));
                            assert forall|j2: int|
                                0 <= j2 < views_of(out@).len() implies fqdns_of(views_of(out@))[j2]
                                == (#[trigger] views_of(out@)[j2]).fqdn by {}
                            assert forall|j2: int|
                                0 <= j2 < pre.len() implies fqdns_of(pre)[j2]
                                == (#[trigger] pre[j2]).fqdn by {}
                            assert(seen.deep_view() =~~= fqdns_of(views_of(out@)));
                        }
                    } else {
                        proof {
                            assert(spec_insert(pre, cseq, k, orig@, *f) == pre);
                        }
                    }
                }
            },
        }
        proof {
            assert(views_of(out@) == spec_insert(pre, cseq, k, orig@, *f));
            assert(batch.deep_view().skip(bi as int)[0] == cseq);
            assert(batch.deep_view().skip(bi as int).skip(1) =~= batch.deep_view().skip(
                bi as int + 1,
            ));
        }
        bi += 1;
    }
    proof {
        assert(batch.deep_view().skip(batch@.len() as int).len() == 0);
    }
}

/// Generates the look-alike variants of `input` under a caller-chosen
/// acceptance policy, or reports why the input is not a well-formed domain.
/// The result is exactly `spec_generate` of the input, and is sound: unique
/// names, each re-parsing, the original name excluded.
pub fn generate_with_filter<F: Filter>(input: &str, f: &F) -> (r: Result<Vec<Candidate>, ParseError>)
    ensures
        match r {
            Result::Ok(cs) => spec_generate(input@, *f) == Result::<Seq<CandV>, ParseError>::Ok(
                views_of(cs@),
            ) && spec_sound(views_of(cs@), spec_parse(input@)->Ok_0.fqdn),
            Result::Err(e) => spec_generate(input@, *f) == Result::<Seq<CandV>, ParseError>::Err(e),
        },
{
    let cs = str_to_chars(input);
    let d = match parse_chars(&cs) {
        Result::Err(e) => {
            return Result::Err(e);
        },
        Result::Ok(d) => d,
    };
    let mut out: Vec<Candidate> = Vec::new();
    let mut seen: Vec<Vec<char>> = Vec::new();
    proof {
        assert(views_of(out@) =~= Seq::<CandV>::empty());
        assert(seen.deep_view() =~= fqdns_of(views_of(out@)));
    }
    let root = d.root_chars();
    let tld = d.tld_chars();
    let orig = d.fqdn_chars();
    let batch = addition(root, tld);
    insert_batch(&mut out, &mut seen, &batch, MutationKind::Addition, orig, f);
    let batch = bit_squatting(root, tld);
    insert_batch(&mut out, &mut seen, &batch, MutationKind::BitSquatting, orig, f);
    let batch = homoglyph(root, tld);
    insert_batch(&mut out, &mut seen, &batch, MutationKind::Homoglyph, orig, f);
    let batch = hyphenation(root, tld);
    insert_batch(&mut out, &mut seen, &batch, MutationKind::Hyphenation, orig, f);
    let batch = omission(root, tld);
    insert_batch(&mut out, &mut seen, &batch, MutationKind::Omission, orig, f);
    let batch = repetition(root, tld);
    insert_batch(&mut out, &mut seen, &batch, MutationKind::Repetition, orig, f);
    let batch = transposition(root, tld);
    insert_batch(&mut out, &mut seen, &batch, MutationKind::Transposition, orig, f);
    let batch = vowel_swap(root, tld);
    insert_batch(&mut out, &mut seen, &batch, MutationKind::VowelSwap, orig, f);
    let batch = insertion(root, tld);
    insert_batch(&mut out, &mut seen, &batch, MutationKind::Insertion, orig, f);
    let batch = replacement(root, tld);
    insert_batch(&mut out, &mut seen, &batch, MutationKind::Replacement, orig, f);
    let batch = subdomain(root, tld);
    insert_batch(&mut out, &mut seen, &batch, MutationKind::Subdomain, orig, f);
    let batch = tld_variation(root);
    insert_batch(&mut out, &mut seen, &batch, MutationKind::TldVariation, orig, f);
    let batch = combosquatting(root, tld);
    insert_batch(&mut out, &mut seen, &batch, MutationKind::Combosquatting, orig, f);
    proof {
        assert(views_of(out@) == spec_results(d@, *f));
        lemma_results_sound(d@, *f);
    }
    Result::Ok(out)
}

/// Generates the look-alike variants of `input` under the default permissive
/// policy, or reports why the input is not a well-formed domain.
pub fn generate(input: &str) -> (r: Result<Vec<Candidate>, ParseError>)
    ensures
        match r {
            Result::Ok(cs) => spec_generate(input@, Permissive) == Result::<
                Seq<CandV>,
                ParseError,
            >::Ok(views_of(cs@)) && spec_sound(views_of(cs@), spec_parse(input@)->Ok_0.fqdn),
            Result::Err(e) => spec_generate(input@, Permissive) == Result::<
                Seq<CandV>,
                ParseError,
            >::Err(e),
        },
{
    generate_with_filter(input, &Permissive)
}

/// The permissive boundary of the engine: the variants of `input` under the
/// default policy, and the empty collection — not an error — when the input
/// does not parse.
pub fn generate_permutations(input: &str) -> (r: Vec<Candidate>)
    ensures
        views_of(r@) == spec_permutations(input@, Permissive),
        spec_parse(input@) is Ok ==> spec_sound(views_of(r@), spec_parse(input@)->Ok_0.fqdn),
{
    match generate(input) {
        Result::Ok(v) => v,
        Result::Err(_) => Vec::new(),
    }
}

} // verus!
