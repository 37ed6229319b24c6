//! The mutation strategy set: each strategy is a pure function of the parsed
//! domain's registrable root and suffix, producing the candidate names of one
//! transformation family, in a fixed order. A strategy whose precondition has
//! no instance on a short root (a transposition needs two characters) yields
//! an empty sequence rather than an error. The names returned here are raw:
//! the aggregator re-validates each one, tags it with the strategy identifier
//! and removes duplicates.

#![allow(unused_imports)]
use vstd::prelude::*;
use crate::domain::{copy_chars, subvec};
use crate::tables::{
    spec_alphabet, alphabet, spec_vowels, vowels, spec_neighbors, neighbors, spec_glyphs,
    glyphs, spec_bit_flips, bit_flips, spec_suffixes, suffixes, spec_keywords, keywords,
};

verus! {

/// A candidate name assembled from a root and a suffix.
pub open spec fn spec_fqdn_of(root: Seq<char>, tld: Seq<char>) -> Seq<char> {
    root + seq!['.'] + tld
}

/// Assembles a candidate name from a root and a suffix.
pub fn fqdn_of(root: &Vec<char>, tld: &Vec<char>) -> (r: Vec<char>)
    ensures
        r@ == spec_fqdn_of(root@, tld@),
{
    let mut r = copy_chars(root);
    r.push('.');
    append_chars(&mut r, tld);
    proof {
        assert(r@ =~= spec_fqdn_of(root@, tld@));
    }
    r
}

/// Appends the characters of `src` to `dst`.
#[verifier::loop_isolation(false)]
pub fn append_chars(dst: &mut Vec<char>, src: &Vec<char>)
    ensures
        final(dst)@ == old(dst)@ + src@,
{
    let mut j: usize = 0;
    while j < src.len()
        invariant
            j <= src@.len(),
            dst@ == old(dst)@ + src@.subrange(0, j as int),
        decreases src@.len() - j,
    {
        dst.push(src[j]);
        proof {
            assert(dst@ =~= old(dst)@ + src@.subrange(0, j as int + 1));
        }
        j += 1;
    }
    proof {
        assert(dst@ =~= old(dst)@ + src@);
    }
}

/// `v` with the character at `i` removed.
fn char_removed(v: &Vec<char>, i: usize) -> (r: Vec<char>)
    requires
        i < v@.len(),
    ensures
        r@ == v@.remove(i as int),
{
    let n = v.len();
    let mut r = subvec(v, 0, i);
    let rest = subvec(v, i + 1, n);
    append_chars(&mut r, &rest);
    proof {
        assert(r@ =~= v@.remove(i as int));
    }
    r
}

/// `v` with `c` inserted at position `i`.
fn char_inserted(v: &Vec<char>, i: usize, c: char) -> (r: Vec<char>)
    requires
        i <= v@.len(),
    ensures
        r@ == v@.insert(i as int, c),
{
    let mut r = subvec(v, 0, i);
    r.push(c);
    let rest = subvec(v, i, v.len());
    append_chars(&mut r, &rest);
    proof {
        assert(r@ =~= v@.insert(i as int, c));
    }
    r
}

/// `v` with the character at `i` replaced by `c`.
fn char_updated(v: &Vec<char>, i: usize, c: char) -> (r: Vec<char>)
    requires
        i < v@.len(),
    ensures
        r@ == v@.update(i as int, c),
{
    let n = v.len();
    let mut r = subvec(v, 0, i);
    r.push(c);
    let rest = subvec(v, i + 1, n);
    append_chars(&mut r, &rest);
    proof {
        assert(r@ =~= v@.update(i as int, c));
    }
    r
}

/// `v` with the characters at `i` and `i + 1` exchanged.
fn char_swapped(v: &Vec<char>, i: usize) -> (r: Vec<char>)
    requires
        i + 1 < v@.len(),
    ensures
        r@ == v@.update(i as int, v@[i as int + 1]).update(i as int + 1, v@[i as int]),
{
    let n = v.len();
    let a = v[i];
    let b = v[i + 1];
    let r0 = char_updated(v, i, b);
    let r = char_updated(&r0, i + 1, a);
    proof {
        assert(r@ =~= v@.update(i as int, v@[i as int + 1]).update(i as int + 1, v@[i as int]));
    }
    r
}

/// Moves copies of the names of `row` to the end of `out`.
#[verifier::loop_isolation(false)]
fn extend_cands(out: &mut Vec<Vec<char>>, row: &Vec<Vec<char>>)
    ensures
        final(out).deep_view() == old(out).deep_view() + row.deep_view(),
{
    let mut j: usize = 0;
    while j < row.len()
        invariant
            j <= row@.len(),
            out.deep_view() == old(out).deep_view() + row.deep_view().subrange(0, j as int),
        decreases row@.len() - j,
    {
        let ghost pre = out.deep_view();
        out.push(copy_chars(&row[j]));
        proof {
            assert(out.deep_view() =~~= pre.push(row@[j as int].deep_view()));
            assert(row.deep_view()[j as int] == row@[j as int].deep_view());
            assert(out.deep_view() =~~= old(out).deep_view() + row.deep_view().subrange(
                0,
                j as int + 1,
            ));
        }
        j += 1;
    }
    proof {
        assert(out.deep_view() =~~= old(out).deep_view() + row.deep_view());
    }
}

/// The first `n` candidates of the addition strategy.
pub open spec fn addition_upto(root: Seq<char>, tld: Seq<char>, n: int) -> Seq<Seq<char>>
    decreases n,
{
    if n <= 0 {
        Seq::empty()
    } else {
        addition_upto(root, tld, n - 1).push(spec_fqdn_of(root.push(spec_alphabet()[n - 1]), tld))
    }
}

/// Every name with one alphabet character appended to the root.
pub open spec fn spec_addition(root: Seq<char>, tld: Seq<char>) -> Seq<Seq<char>> {
    addition_upto(root, tld, spec_alphabet().len() as int)
}

/// Every name with one alphabet character appended to the root.
#[verifier::loop_isolation(false)]
pub fn addition(root: &Vec<char>, tld: &Vec<char>) -> (r: Vec<Vec<char>>)
    ensures
        r.deep_view() == spec_addition(root@, tld@),
{
    let alpha = alphabet();
    let mut out: Vec<Vec<char>> = Vec::new();
    let mut i: usize = 0;
    while i < alpha.len()
        invariant
            i <= alpha@.len(),
            alpha@ == spec_alphabet(),
            out.deep_view() == addition_upto(root@, tld@, i as int),
        decreases alpha@.len() - i,
    {
        let mut widened = copy_chars(root);
        widened.push(alpha[i]);
        let cand = fqdn_of(&widened, tld);
        out.push(cand);
        proof {
            assert(out.deep_view() =~~= addition_upto(root@, tld@, i as int + 1));
        }
        i += 1;
    }
    out
}

/// The first `n` candidates of the omission strategy.
pub open spec fn omission_upto(root: Seq<char>, tld: Seq<char>, n: int) -> Seq<Seq<char>>
    decreases n,
{
    if n <= 0 {
        Seq::empty()
    } else {
        omission_upto(root, tld, n - 1).push(spec_fqdn_of(root.remove(n - 1), tld))
    }
}

/// Every name with one character of the root removed.
pub open spec fn spec_omission(root: Seq<char>, tld: Seq<char>) -> Seq<Seq<char>> {
    omission_upto(root, tld, root.len() as int)
}

/// Every name with one character of the root removed.
#[verifier::loop_isolation(false)]
pub fn omission(root: &Vec<char>, tld: &Vec<char>) -> (r: Vec<Vec<char>>)
    ensures
        r.deep_view() == spec_omission(root@, tld@),
{
    let mut out: Vec<Vec<char>> = Vec::new();
    let mut i: usize = 0;
    let end: usize = root.len();
    while i < end
        invariant
            i <= end,
            out.deep_view() == omission_upto(root@, tld@, i as int),
        decreases end - i,
    {
        let cand = fqdn_of(&char_removed(root, i), tld);
        out.push(cand);
        proof {
            assert(out.deep_view() =~~= omission_upto(root@, tld@, i as int + 1));
        }
        i += 1;
    }
    proof {
        assert(out.deep_view() =~~= spec_omission(root@, tld@));
    }
    out
}

/// The first `n` candidates of the repetition strategy.
pub open spec fn repetition_upto(root: Seq<char>, tld: Seq<char>, n: int) -> Seq<Seq<char>>
    decreases n,
{
    if n <= 0 {
        Seq::empty()
    } else {
        repetition_upto(root, tld, n - 1).push(spec_fqdn_of(root.insert(n - 1, root[n - 1]), tld))
    }
}

/// Every name with one character of the root doubled in place.
pub open spec fn spec_repetition(root: Seq<char>, tld: Seq<char>) -> Seq<Seq<char>> {
    repetition_upto(root, tld, root.len() as int)
}

/// Every name with one character of the root doubled in place.
#[verifier::loop_isolation(false)]
pub fn repetition(root: &Vec<char>, tld: &Vec<char>) -> (r: Vec<Vec<char>>)
    ensures
        r.deep_view() == spec_repetition(root@, tld@),
{
    let mut out: Vec<Vec<char>> = Vec::new();
    let mut i: usize = 0;
    let end: usize = root.len();
    while i < end
        invariant
            i <= end,
            out.deep_view() == repetition_upto(root@, tld@, i as int),
        decreases end - i,
    {
        let cand = fqdn_of(&char_inserted(root, i, root[i]), tld);
        out.push(cand);
        proof {
            assert(out.deep_view() =~~= repetition_upto(root@, tld@, i as int + 1));
        }
        i += 1;
    }
    proof {
        assert(out.deep_view() =~~= spec_repetition(root@, tld@));
    }
    out
}

/// The first `n` candidates of the transposition strategy.
pub open spec fn transposition_upto(root: Seq<char>, tld: Seq<char>, n: int) -> Seq<Seq<char>>
    decreases n,
{
    if n <= 0 {
        Seq::empty()
    } else {
        transposition_upto(root, tld, n - 1).push(spec_fqdn_of(root.update(n - 1, root[n]).update(n, root[n - 1]), tld))
    }
}

/// Every name with two adjacent characters of the root exchanged.
pub open spec fn spec_transposition(root: Seq<char>, tld: Seq<char>) -> Seq<Seq<char>> {
    transposition_upto(root, tld, root.len() as int - 1)
}

/// Every name with two adjacent characters of the root exchanged.
#[verifier::loop_isolation(false)]
pub fn transposition(root: &Vec<char>, tld: &Vec<char>) -> (r: Vec<Vec<char>>)
    ensures
        r.deep_view() == spec_transposition(root@, tld@),
{
    let mut out: Vec<Vec<char>> = Vec::new();
    let mut i: usize = 0;
    let end: usize = if root.len() == 0 { 0 } else { root.len() - 1 };
    while i < end
        invariant
            i <= end,
            out.deep_view() == transposition_upto(root@, tld@, i as int),
        decreases end - i,
    {
        let cand = fqdn_of(&char_swapped(root, i), tld);
        out.push(cand);
        proof {
            assert(out.deep_view() =~~= transposition_upto(root@, tld@, i as int + 1));
        }
        i += 1;
    }
    proof {
        assert(out.deep_view() =~~= spec_transposition(root@, tld@));
    }
    out
}

/// The first `n` candidates of the hyphenation strategy.
pub open spec fn hyphenation_upto(root: Seq<char>, tld: Seq<char>, n: int) -> Seq<Seq<char>>
    decreases n,
{
    if n <= 0 {
        Seq::empty()
    } else {
        hyphenation_upto(root, tld, n - 1).push(spec_fqdn_of(root.insert(n, '-'), tld))
    }
}

/// Every name with a hyphen inserted at an internal position of the root.
pub open spec fn spec_hyphenation(root: Seq<char>, tld: Seq<char>) -> Seq<Seq<char>> {
    hyphenation_upto(root, tld, root.len() as int - 1)
}

/// Every name with a hyphen inserted at an internal position of the root.
#[verifier::loop_isolation(false)]
pub fn hyphenation(root: &Vec<char>, tld: &Vec<char>) -> (r: Vec<Vec<char>>)
    ensures
        r.deep_view() == spec_hyphenation(root@, tld@),
{
    let mut out: Vec<Vec<char>> = Vec::new();
    let mut i: usize = 0;
    let end: usize = if root.len() == 0 { 0 } else { root.len() - 1 };
    while i < end
        invariant
            i <= end,
            out.deep_view() == hyphenation_upto(root@, tld@, i as int),
        decreases end - i,
    {
        let cand = fqdn_of(&char_inserted(root, i + 1, '-'), tld);
        out.push(cand);
        proof {
            assert(out.deep_view() =~~= hyphenation_upto(root@, tld@, i as int + 1));
        }
        i += 1;
    }
    proof {
        assert(out.deep_view() =~~= spec_hyphenation(root@, tld@));
    }
    out
}

/// The first `n` candidates of the subdomain strategy.
pub open spec fn subdomain_upto(root: Seq<char>, tld: Seq<char>, n: int) -> Seq<Seq<char>>
    decreases n,
{
    if n <= 0 {
        Seq::empty()
    } else {
        subdomain_upto(root, tld, n - 1).push(spec_fqdn_of(root.insert(n, '.'), tld))
    }
}

/// Every name with a separator inserted at an internal position of the root, splitting off a spurious subdomain.
pub open spec fn spec_subdomain(root: Seq<char>, tld: Seq<char>) -> Seq<Seq<char>> {
    subdomain_upto(root, tld, root.len() as int - 1)
}

/// Every name with a separator inserted at an internal position of the root, splitting off a spurious subdomain.
#[verifier::loop_isolation(false)]
pub fn subdomain(root: &Vec<char>, tld: &Vec<char>) -> (r: Vec<Vec<char>>)
    ensures
        r.deep_view() == spec_subdomain(root@, tld@),
{
    let mut out: Vec<Vec<char>> = Vec::new();
    let mut i: usize = 0;
    let end: usize = if root.len() == 0 { 0 } else { root.len() - 1 };
    while i < end
        invariant
            i <= end,
            out.deep_view() == subdomain_upto(root@, tld@, i as int),
        decreases end - i,
    {
        let cand = fqdn_of(&char_inserted(root, i + 1, '.'), tld);
        out.push(cand);
        proof {
            assert(out.deep_view() =~~= subdomain_upto(root@, tld@, i as int + 1));
        }
        i += 1;
    }
    proof {
        assert(out.deep_view() =~~= spec_subdomain(root@, tld@));
    }
    out
}

/// The first `m` candidates of one position of the replacement strategy.
pub open spec fn replacement_row_upto(root: Seq<char>, tld: Seq<char>, i: int, m: int) -> Seq<
    Seq<char>,
>
    decreases m,
{
    if m <= 0 {
        Seq::empty()
    } else {
        replacement_row_upto(root, tld, i, m - 1).push(
            spec_fqdn_of(root.update(i, spec_neighbors(root[i])[m - 1]), tld),
        )
    }
}

/// One position of the root, replaced by each keyboard-adjacent character.
pub open spec fn spec_replacement_row(root: Seq<char>, tld: Seq<char>, i: int) -> Seq<Seq<char>> {
    replacement_row_upto(root, tld, i, spec_neighbors(root[i]).len() as int)
}

/// The candidates of the first `n` positions of the replacement strategy.
pub open spec fn replacement_upto(root: Seq<char>, tld: Seq<char>, n: int) -> Seq<Seq<char>>
    decreases n,
{
    if n <= 0 {
        Seq::empty()
    } else {
        replacement_upto(root, tld, n - 1) + spec_replacement_row(root, tld, n - 1)
    }
}

/// Every name with one character of the root replaced by a keyboard-adjacent character.
pub open spec fn spec_replacement(root: Seq<char>, tld: Seq<char>) -> Seq<Seq<char>> {
    replacement_upto(root, tld, root.len() as int)
}

/// One position of the root, replaced by each keyboard-adjacent character.
#[verifier::loop_isolation(false)]
fn replacement_row(root: &Vec<char>, tld: &Vec<char>, i: usize) -> (r: Vec<Vec<char>>)
    requires
        i < root@.len(),
    ensures
        r.deep_view() == spec_replacement_row(root@, tld@, i as int),
{
    let table = neighbors(root[i]);
    let mut out: Vec<Vec<char>> = Vec::new();
    let mut j: usize = 0;
    while j < table.len()
        invariant
            j <= table@.len(),
            out.deep_view() == replacement_row_upto(root@, tld@, i as int, j as int),
        decreases table@.len() - j,
    {
        let cand = fqdn_of(&char_updated(root, i, table[j]), tld);
        out.push(cand);
        proof {
            assert(out.deep_view() =~~= replacement_row_upto(root@, tld@, i as int, j as int + 1));
        }
        j += 1;
    }
    out
}

/// Every name with one character of the root replaced by a keyboard-adjacent character.
#[verifier::loop_isolation(false)]
pub fn replacement(root: &Vec<char>, tld: &Vec<char>) -> (r: Vec<Vec<char>>)
    ensures
        r.deep_view() == spec_replacement(root@, tld@),
{
    let mut out: Vec<Vec<char>> = Vec::new();
    let mut i: usize = 0;
    while i < root.len()
        invariant
            i <= root@.len(),
            out.deep_view() == replacement_upto(root@, tld@, i as int),
        decreases root@.len() - i,
    {
        let row = replacement_row(root, tld, i);
        extend_cands(&mut out, &row);
        proof {
            assert(out.deep_view() =~~= replacement_upto(root@, tld@, i as int + 1));
        }
        i += 1;
    }
    out
}

/// The first `m` candidates of one position of the homoglyph strategy.
pub open spec fn homoglyph_row_upto(root: Seq<char>, tld: Seq<char>, i: int, m: int) -> Seq<
    Seq<char>,
>
    decreases m,
{
    if m <= 0 {
        Seq::empty()
    } else {
        homoglyph_row_upto(root, tld, i, m - 1).push(
            spec_fqdn_of(root.update(i, spec_glyphs(root[i])[m - 1]), tld),
        )
    }
}

/// One position of the root, replaced by each confusable character.
pub open spec fn spec_homoglyph_row(root: Seq<char>, tld: Seq<char>, i: int) -> Seq<Seq<char>> {
    homoglyph_row_upto(root, tld, i, spec_glyphs(root[i]).len() as int)
}

/// The candidates of the first `n` positions of the homoglyph strategy.
pub open spec fn homoglyph_upto(root: Seq<char>, tld: Seq<char>, n: int) -> Seq<Seq<char>>
    decreases n,
{
    if n <= 0 {
        Seq::empty()
    } else {
        homoglyph_upto(root, tld, n - 1) + spec_homoglyph_row(root, tld, n - 1)
    }
}

/// Every name with one character of the root replaced by a visually confusable character.
pub open spec fn spec_homoglyph(root: Seq<char>, tld: Seq<char>) -> Seq<Seq<char>> {
    homoglyph_upto(root, tld, root.len() as int)
}

/// One position of the root, replaced by each confusable character.
#[verifier::loop_isolation(false)]
fn homoglyph_row(root: &Vec<char>, tld: &Vec<char>, i: usize) -> (r: Vec<Vec<char>>)
    requires
        i < root@.len(),
    ensures
        r.deep_view() == spec_homoglyph_row(root@, tld@, i as int),
{
    let table = glyphs(root[i]);
    let mut out: Vec<Vec<char>> = Vec::new();
    let mut j: usize = 0;
    while j < table.len()
        invariant
            j <= table@.len(),
            out.deep_view() == homoglyph_row_upto(root@, tld@, i as int, j as int),
        decreases table@.len() - j,
    {
        let cand = fqdn_of(&char_updated(root, i, table[j]), tld);
        out.push(cand);
        proof {
            assert(out.deep_view() =~~= homoglyph_row_upto(root@, tld@, i as int, j as int + 1));
        }
        j += 1;
    }
    out
}

/// Every name with one character of the root replaced by a visually confusable character.
#[verifier::loop_isolation(false)]
pub fn homoglyph(root: &Vec<char>, tld: &Vec<char>) -> (r: Vec<Vec<char>>)
    ensures
        r.deep_view() == spec_homoglyph(root@, tld@),
{
    let mut out: Vec<Vec<char>> = Vec::new();
    let mut i: usize = 0;
    while i < root.len()
        invariant
            i <= root@.len(),
            out.deep_view() == homoglyph_upto(root@, tld@, i as int),
        decreases root@.len() - i,
    {
        let row = homoglyph_row(root, tld, i);
        extend_cands(&mut out, &row);
        proof {
            assert(out.deep_view() =~~= homoglyph_upto(root@, tld@, i as int + 1));
        }
        i += 1;
    }
    out
}

/// The first `m` candidates of one position of the bit_squatting strategy.
pub open spec fn bit_squatting_row_upto(root: Seq<char>, tld: Seq<char>, i: int, m: int) -> Seq<
    Seq<char>,
>
    decreases m,
{
    if m <= 0 {
        Seq::empty()
    } else {
        bit_squatting_row_upto(root, tld, i, m - 1).push(
            spec_fqdn_of(root.update(i, spec_bit_flips(root[i])[m - 1]), tld),
        )
    }
}

/// One position of the root, replaced by each valid one-bit-flip neighbour.
pub open spec fn spec_bit_squatting_row(root: Seq<char>, tld: Seq<char>, i: int) -> Seq<Seq<char>> {
    bit_squatting_row_upto(root, tld, i, spec_bit_flips(root[i]).len() as int)
}

/// The candidates of the first `n` positions of the bit_squatting strategy.
pub open spec fn bit_squatting_upto(root: Seq<char>, tld: Seq<char>, n: int) -> Seq<Seq<char>>
    decreases n,
{
    if n <= 0 {
        Seq::empty()
    } else {
        bit_squatting_upto(root, tld, n - 1) + spec_bit_squatting_row(root, tld, n - 1)
    }
}

/// Every name with one character of the root replaced by a valid character one bit-flip away.
pub open spec fn spec_bit_squatting(root: Seq<char>, tld: Seq<char>) -> Seq<Seq<char>> {
    bit_squatting_upto(root, tld, root.len() as int)
}

/// One position of the root, replaced by each valid one-bit-flip neighbour.
#[verifier::loop_isolation(false)]
fn bit_squatting_row(root: &Vec<char>, tld: &Vec<char>, i: usize) -> (r: Vec<Vec<char>>)
    requires
        i < root@.len(),
    ensures
        r.deep_view() == spec_bit_squatting_row(root@, tld@, i as int),
{
    let table = bit_flips(root[i]);
    let mut out: Vec<Vec<char>> = Vec::new();
    let mut j: usize = 0;
    while j < table.len()
        invariant
            j <= table@.len(),
            out.deep_view() == bit_squatting_row_upto(root@, tld@, i as int, j as int),
        decreases table@.len() - j,
    {
        let cand = fqdn_of(&char_updated(root, i, table[j]), tld);
        out.push(cand);
        proof {
            assert(out.deep_view() =~~= bit_squatting_row_upto(root@, tld@, i as int, j as int + 1));
        }
        j += 1;
    }
    out
}

/// Every name with one character of the root replaced by a valid character one bit-flip away.
#[verifier::loop_isolation(false)]
pub fn bit_squatting(root: &Vec<char>, tld: &Vec<char>) -> (r: Vec<Vec<char>>)
    ensures
        r.deep_view() == spec_bit_squatting(root@, tld@),
{
    let mut out: Vec<Vec<char>> = Vec::new();
    let mut i: usize = 0;
    while i < root.len()
        invariant
            i <= root@.len(),
            out.deep_view() == bit_squatting_upto(root@, tld@, i as int),
        decreases root@.len() - i,
    {
        let row = bit_squatting_row(root, tld, i);
        extend_cands(&mut out, &row);
        proof {
            assert(out.deep_view() =~~= bit_squatting_upto(root@, tld@, i as int + 1));
        }
        i += 1;
    }
    out
}

/// Whether `c` is a vowel.
pub open spec fn spec_is_vowel(c: char) -> bool {
    c == 'a' || c == 'e' || c == 'i' || c == 'o' || c == 'u'
}

/// Whether `c` is a vowel.
pub fn is_vowel(c: char) -> (r: bool)
    ensures
        r == spec_is_vowel(c),
{
    c == 'a' || c == 'e' || c == 'i' || c == 'o' || c == 'u'
}

/// The first `m` candidates of one vowel position: the other vowels put in
/// its place.
pub open spec fn vowel_row_upto(root: Seq<char>, tld: Seq<char>, i: int, m: int) -> Seq<
    Seq<char>,
>
    decreases m,
{
    if m <= 0 {
        Seq::empty()
    } else {
        let prev = vowel_row_upto(root, tld, i, m - 1);
        let v = spec_vowels()[m - 1];
        if v == root[i] {
            prev
        } else {
            prev.push(spec_fqdn_of(root.update(i, v), tld))
        }
    }
}

/// One position of the root: each other vowel put in a vowel's place.
pub open spec fn spec_vowel_row(root: Seq<char>, tld: Seq<char>, i: int) -> Seq<Seq<char>> {
    if spec_is_vowel(root[i]) {
        vowel_row_upto(root, tld, i, spec_vowels().len() as int)
    } else {
        Seq::empty()
    }
}

/// The candidates of the first `n` positions of the vowel-swap strategy.
pub open spec fn vowel_swap_upto(root: Seq<char>, tld: Seq<char>, n: int) -> Seq<Seq<char>>
    decreases n,
{
    if n <= 0 {
        Seq::empty()
    } else {
        vowel_swap_upto(root, tld, n - 1) + spec_vowel_row(root, tld, n - 1)
    }
}

/// Every name with one vowel of the root replaced by another vowel.
pub open spec fn spec_vowel_swap(root: Seq<char>, tld: Seq<char>) -> Seq<Seq<char>> {
    vowel_swap_upto(root, tld, root.len() as int)
}

/// One position of the root: each other vowel put in a vowel's place.
#[verifier::loop_isolation(false)]
fn vowel_row(root: &Vec<char>, tld: &Vec<char>, i: usize) -> (r: Vec<Vec<char>>)
    requires
        i < root@.len(),
    ensures
        r.deep_view() == spec_vowel_row(root@, tld@, i as int),
{
    let mut out: Vec<Vec<char>> = Vec::new();
    if !is_vowel(root[i]) {
        proof {
            assert(out.deep_view() =~~= spec_vowel_row(root@, tld@, i as int));
        }
        return out;
    }
    let table = vowels();
    let mut j: usize = 0;
    while j < table.len()
        invariant
            j <= table@.len(),
            table@ == spec_vowels(),
            out.deep_view() == vowel_row_upto(root@, tld@, i as int, j as int),
        decreases table@.len() - j,
    {
        if table[j] != root[i] {
            let cand = fqdn_of(&char_updated(root, i, table[j]), tld);
            out.push(cand);
        }
        proof {
            assert(out.deep_view() =~~= vowel_row_upto(root@, tld@, i as int, j as int + 1));
        }
        j += 1;
    }
    out
}

/// Every name with one vowel of the root replaced by another vowel.
#[verifier::loop_isolation(false)]
pub fn vowel_swap(root: &Vec<char>, tld: &Vec<char>) -> (r: Vec<Vec<char>>)
    ensures
        r.deep_view() == spec_vowel_swap(root@, tld@),
{
    let mut out: Vec<Vec<char>> = Vec::new();
    let mut i: usize = 0;
    while i < root.len()
        invariant
            i <= root@.len(),
            out.deep_view() == vowel_swap_upto(root@, tld@, i as int),
        decreases root@.len() - i,
    {
        let row = vowel_row(root, tld, i);
        extend_cands(&mut out, &row);
        proof {
            assert(out.deep_view() =~~= vowel_swap_upto(root@, tld@, i as int + 1));
        }
        i += 1;
    }
    out
}

/// The first `n` candidates of the suffix-variation strategy.
pub open spec fn tld_variation_upto(root: Seq<char>, n: int) -> Seq<Seq<char>>
    decreases n,
{
    if n <= 0 {
        Seq::empty()
    } else {
        tld_variation_upto(root, n - 1).push(spec_fqdn_of(root, spec_suffixes()[n - 1]))
    }
}

/// The root re-paired with each suffix of the candidate suffix table.
pub open spec fn spec_tld_variation(root: Seq<char>) -> Seq<Seq<char>> {
    tld_variation_upto(root, spec_suffixes().len() as int)
}

/// The root re-paired with each suffix of the candidate suffix table.
#[verifier::loop_isolation(false)]
pub fn tld_variation(root: &Vec<char>) -> (r: Vec<Vec<char>>)
    ensures
        r.deep_view() == spec_tld_variation(root@),
{
    let table = suffixes();
    let mut out: Vec<Vec<char>> = Vec::new();
    let mut i: usize = 0;
    while i < table.len()
        invariant
            i <= table@.len(),
            table.deep_view() == spec_suffixes(),
            out.deep_view() == tld_variation_upto(root@, i as int),
        decreases table@.len() - i,
    {
        proof {
            assert(table.deep_view()[i as int] == table@[i as int].deep_view());
            assert(table@[i as int].deep_view() =~= table@[i as int]@);
        }
        let cand = fqdn_of(root, &table[i]);
        out.push(cand);
        proof {
            assert(out.deep_view() =~~= tld_variation_upto(root@, i as int + 1));
        }
        i += 1;
    }
    out
}

/// The first `n` keywords' candidates of the combosquatting strategy.
pub open spec fn combo_upto(root: Seq<char>, tld: Seq<char>, n: int) -> Seq<Seq<char>>
    decreases n,
{
    if n <= 0 {
        Seq::empty()
    } else {
        combo_upto(root, tld, n - 1).push(
            spec_fqdn_of(root + spec_keywords()[n - 1], tld),
        ).push(spec_fqdn_of(root + seq!['-'] + spec_keywords()[n - 1], tld))
    }
}

/// The root concatenated with each keyword, without and with a separator.
pub open spec fn spec_combosquatting(root: Seq<char>, tld: Seq<char>) -> Seq<Seq<char>> {
    combo_upto(root, tld, spec_keywords().len() as int)
}

/// The root concatenated with each keyword, without and with a separator.
#[verifier::loop_isolation(false)]
pub fn combosquatting(root: &Vec<char>, tld: &Vec<char>) -> (r: Vec<Vec<char>>)
    ensures
        r.deep_view() == spec_combosquatting(root@, tld@),
{
    let table = keywords();
    let mut out: Vec<Vec<char>> = Vec::new();
    let mut i: usize = 0;
    while i < table.len()
        invariant
            i <= table@.len(),
            table.deep_view() == spec_keywords(),
            out.deep_view() == combo_upto(root@, tld@, i as int),
        decreases table@.len() - i,
    {
        proof {
            assert(table.deep_view()[i as int] == table@[i as int].deep_view());
            assert(table@[i as int].deep_view() =~= table@[i as int]@);
        }
        let mut joined = copy_chars(root);
        append_chars(&mut joined, &table[i]);
        proof {
            assert(joined@ == root@ + spec_keywords()[i as int]);
        }
        let cand = fqdn_of(&joined, tld);
        out.push(cand);
        let mut hyphened = copy_chars(root);
        hyphened.push('-');
        append_chars(&mut hyphened, &table[i]);
        proof {
            assert(hyphened@ =~= root@ + seq!['-'] + spec_keywords()[i as int]);
        }
        let cand2 = fqdn_of(&hyphened, tld);
        out.push(cand2);
        proof {
            assert(out.deep_view() =~~= combo_upto(root@, tld@, i as int + 1));
        }
        i += 1;
    }
    out
}


/// The first `m` candidates of one position of the insertion strategy.
pub open spec fn insertion_row_upto(root: Seq<char>, tld: Seq<char>, i: int, m: int) -> Seq<
    Seq<char>,
>
    decreases m,
{
    if m <= 0 {
        Seq::empty()
    } else {
        insertion_row_upto(root, tld, i, m - 1).push(
            spec_fqdn_of(root.insert(i, spec_alphabet()[m - 1]), tld),
        )
    }
}

/// One position of the root, with each alphabet character inserted there.
pub open spec fn spec_insertion_row(root: Seq<char>, tld: Seq<char>, i: int) -> Seq<Seq<char>> {
    insertion_row_upto(root, tld, i, spec_alphabet().len() as int)
}

/// The candidates of the first `n` insertion points.
pub open spec fn insertion_upto(root: Seq<char>, tld: Seq<char>, n: int) -> Seq<Seq<char>>
    decreases n,
{
    if n <= 0 {
        Seq::empty()
    } else {
        insertion_upto(root, tld, n - 1) + spec_insertion_row(root, tld, n - 1)
    }
}

/// Every name with one alphabet character inserted at one position of the
/// root, counting both end positions.
pub open spec fn spec_insertion(root: Seq<char>, tld: Seq<char>) -> Seq<Seq<char>> {
    insertion_upto(root, tld, root.len() as int + 1)
}

/// One position of the root, with each alphabet character inserted there.
#[verifier::loop_isolation(false)]
fn insertion_row(root: &Vec<char>, tld: &Vec<char>, i: usize) -> (r: Vec<Vec<char>>)
    requires
        i <= root@.len(),
    ensures
        r.deep_view() == spec_insertion_row(root@, tld@, i as int),
{
    let alpha = alphabet();
    let mut out: Vec<Vec<char>> = Vec::new();
    let mut j: usize = 0;
    while j < alpha.len()
        invariant
            j <= alpha@.len(),
            alpha@ == spec_alphabet(),
            out.deep_view() == insertion_row_upto(root@, tld@, i as int, j as int),
        decreases alpha@.len() - j,
    {
        let cand = fqdn_of(&char_inserted(root, i, alpha[j]), tld);
        out.push(cand);
        proof {
            assert(out.deep_view() =~~= insertion_row_upto(root@, tld@, i as int, j as int + 1));
        }
        j += 1;
    }
    out
}

/// Every name with one alphabet character inserted at one position of the
/// root, counting both end positions.
#[verifier::loop_isolation(false)]
pub fn insertion(root: &Vec<char>, tld: &Vec<char>) -> (r: Vec<Vec<char>>)
    ensures
        r.deep_view() == spec_insertion(root@, tld@),
{
    let mut out: Vec<Vec<char>> = Vec::new();
    let mut i: usize = 0;
    while i < root.len()
        invariant
            i <= root@.len(),
            out.deep_view() == insertion_upto(root@, tld@, i as int),
        decreases root@.len() - i,
    {
        let row = insertion_row(root, tld, i);
        extend_cands(&mut out, &row);
        proof {
            assert(out.deep_view() =~~= insertion_upto(root@, tld@, i as int + 1));
        }
        i += 1;
    }
    let last_row = insertion_row(root, tld, root.len());
    extend_cands(&mut out, &last_row);
    proof {
        assert(out.deep_view() =~~= spec_insertion(root@, tld@));
    }
    out
}

} // verus!
