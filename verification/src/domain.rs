//! The domain parser: validation of an input string and its decomposition
//! into subdomain prefix, registrable root and public suffix.
//!
//! Parsing lowercases the input, checks the overall length (at most 253
//! characters), the character set (letters, digits, hyphen and the label
//! separator), the labels (non-empty, at most 63 characters), and matches the
//! longest recognized public suffix at the end of the name; the label just
//! before the suffix is the registrable root, everything before that the
//! subdomain prefix.

#![allow(unused_imports)]
use vstd::prelude::*;
use vstd::string::StrSliceExecFns;
use crate::tables::{spec_to_lower, to_lower, spec_suffixes, suffixes};

verus! {

/// Why an input was rejected: it cannot be decomposed into root and suffix,
/// or it exceeds a length limit.
#[derive(PartialEq, Eq, Structural, Clone, Copy, Debug)]
pub enum ParseError {
    InvalidDomain,
    InputTooLarge,
}

/// A letter, digit or hyphen: the characters a label may hold.
pub open spec fn spec_is_domain_char(c: char) -> bool {
    (97 <= c as u32 <= 122) || (48 <= c as u32 <= 57) || c == '-'
}

/// A character the whole name may hold: a label character or the separator.
pub open spec fn spec_is_fqdn_char(c: char) -> bool {
    spec_is_domain_char(c) || c == '.'
}

pub fn is_domain_char(c: char) -> (r: bool)
    ensures
        r == spec_is_domain_char(c),
{
    let u = c as u32;
    (97 <= u && u <= 122) || (48 <= u && u <= 57) || c == '-'
}

pub fn is_fqdn_char(c: char) -> (r: bool)
    ensures
        r == spec_is_fqdn_char(c),
{
    is_domain_char(c) || c == '.'
}

/// The input, case-folded character by character.
pub open spec fn lower_seq(s: Seq<char>) -> Seq<char> {
    s.map_values(|c: char| spec_to_lower(c))
}

/// The labels of `s`: the stretches between separator characters, scanning
/// from position `i` with the current label starting at `start`.
pub open spec fn split_rec(s: Seq<char>, i: int, start: int) -> Seq<Seq<char>>
    decreases s.len() - i,
{
    if i < 0 || i >= s.len() {
        seq![s.subrange(start, s.len() as int)]
    } else if s[i] == '.' {
        seq![s.subrange(start, i)] + split_rec(s, i + 1, i + 1)
    } else {
        split_rec(s, i + 1, start)
    }
}

/// The labels of `s`, split on the separator.
pub open spec fn spec_labels(s: Seq<char>) -> Seq<Seq<char>> {
    split_rec(s, 0, 0)
}

/// `suffix` stands at the end of `s`.
pub open spec fn spec_ends_with(s: Seq<char>, suffix: Seq<char>) -> bool {
    suffix.len() <= s.len() && s.subrange(s.len() - suffix.len(), s.len() as int)
        == suffix
}

/// Suffix entry `e` matches `low`: `low` ends in a separator followed by `e`,
/// so the match sits on a label boundary and something precedes it.
pub open spec fn suffix_matches(low: Seq<char>, e: Seq<char>) -> bool {
    spec_ends_with(low, seq!['.'] + e)
}

/// The longest matching entry of the suffix table at or after index `i`,
/// given the best match `best` found so far; on equal lengths the earlier
/// entry wins.
pub open spec fn best_suffix_rec(low: Seq<char>, i: int, best: Option<Seq<char>>) -> Option<
    Seq<char>,
>
    decreases spec_suffixes().len() - i,
{
    if i < 0 || i >= spec_suffixes().len() {
        best
    } else {
        let e = spec_suffixes()[i];
        let better = suffix_matches(low, e) && match best {
            Option::Some(b) => e.len() > b.len(),
            Option::None => true,
        };
        best_suffix_rec(low, i + 1, if better {
            Option::Some(e)
        } else {
            best
        })
    }
}

/// The longest recognized public suffix of `low`, if any.
pub open spec fn spec_best_suffix(low: Seq<char>) -> Option<Seq<char>> {
    best_suffix_rec(low, 0, Option::None)
}

/// The index of the last separator strictly before position `i`, or -1.
pub open spec fn last_dot_rec(s: Seq<char>, i: int) -> int
    decreases i,
{
    if i <= 0 {
        -1
    } else if s[i - 1] == '.' {
        i - 1
    } else {
        last_dot_rec(s, i - 1)
    }
}

/// The index of the last separator of `s`, or -1 when there is none.
pub open spec fn spec_last_dot(s: Seq<char>) -> int {
    last_dot_rec(s, s.len() as int)
}

/// The decomposition of a well-formed name: the normalized full name, the
/// subdomain prefix (possibly empty), the registrable root and the public
/// suffix.
pub struct DomainView {
    pub fqdn: Seq<char>,
    pub subdomain: Seq<char>,
    pub root: Seq<char>,
    pub tld: Seq<char>,
}

/// What parsing an input means: normalization, the length and character
/// checks, the label checks, and the longest-suffix decomposition, in that
/// order.
pub open spec fn spec_parse(s: Seq<char>) -> Result<DomainView, ParseError> {
    let low = lower_seq(s);
    if s.len() == 0 {
        Result::Err(ParseError::InvalidDomain)
    } else if s.len() > 253 {
        Result::Err(ParseError::InputTooLarge)
    } else if !(forall|i: int| 0 <= i < low.len() ==> spec_is_fqdn_char(#[trigger] low[i])) {
        Result::Err(ParseError::InvalidDomain)
    } else if exists|i: int|
        0 <= i < spec_labels(low).len() && #[trigger] spec_labels(low)[i].len() == 0 {
        Result::Err(ParseError::InvalidDomain)
    } else if exists|i: int|
        0 <= i < spec_labels(low).len() && #[trigger] spec_labels(low)[i].len() > 63 {
        Result::Err(ParseError::InputTooLarge)
    } else {
        match spec_best_suffix(low) {
            Option::None => Result::Err(ParseError::InvalidDomain),
            Option::Some(e) => {
                let head = low.subrange(0, low.len() - e.len() - 1);
                let ld = spec_last_dot(head);
                Result::Ok(
                    DomainView {
                        fqdn: low,
                        subdomain: if ld < 0 {
                            Seq::empty()
                        } else {
                            head.subrange(0, ld)
                        },
                        root: head.subrange(ld + 1, head.len() as int),
                        tld: e,
                    },
                )
            },
        }
    }
}

/// A parsed domain: an immutable value holding the normalized full name and
/// its decomposition.
#[derive(Debug)]
pub struct ParsedDomain {
    pub fqdn: Vec<char>,
    pub subdomain: Vec<char>,
    pub root: Vec<char>,
    pub tld: Vec<char>,
}

impl View for ParsedDomain {
    type V = DomainView;

    open spec fn view(&self) -> DomainView {
        DomainView {
            fqdn: self.fqdn@,
            subdomain: self.subdomain@,
            root: self.root@,
            tld: self.tld@,
        }
    }
}

impl ParsedDomain {
    /// A well-formed parsed domain is exactly what parsing its own full name
    /// yields again.
    pub open spec fn wf(self) -> bool {
        spec_parse(self@.fqdn) == Result::<DomainView, ParseError>::Ok(self@)
    }

    /// The normalized full name.
    pub fn fqdn_chars(&self) -> (r: &Vec<char>)
        ensures
            r@ == self@.fqdn,
    {
        &self.fqdn
    }

    /// The subdomain prefix, possibly empty.
    pub fn subdomain_chars(&self) -> (r: &Vec<char>)
        ensures
            r@ == self@.subdomain,
    {
        &self.subdomain
    }

    /// The registrable root.
    pub fn root_chars(&self) -> (r: &Vec<char>)
        ensures
            r@ == self@.root,
    {
        &self.root
    }

    /// The public suffix.
    pub fn tld_chars(&self) -> (r: &Vec<char>)
        ensures
            r@ == self@.tld,
    {
        &self.tld
    }
}

/// The characters of a string slice, in order.
pub fn str_to_chars(s: &str) -> (r: Vec<char>)
    ensures
        r@ == s@,
{
    let n = s.unicode_len();
    let mut v: Vec<char> = Vec::new();
    let mut i: usize = 0;
    while i < n
        invariant
            n == s@.len(),
            i <= n,
            v@ == s@.subrange(0, i as int),
        decreases n - i,
    {
        let c = s.get_char(i);
        v.push(c);
        proof {
            assert(v@ =~= s@.subrange(0, i as int + 1));
        }
        i += 1;
    }
    proof {
        assert(v@ =~= s@);
    }
    v
}

/// A copy of a character vector.
pub fn copy_chars(v: &Vec<char>) -> (r: Vec<char>)
    ensures
        r@ == v@,
{
    let mut out: Vec<char> = Vec::new();
    let mut i: usize = 0;
    while i < v.len()
        invariant
            i <= v@.len(),
            out@ == v@.subrange(0, i as int),
        decreases v@.len() - i,
    {
        out.push(v[i]);
        proof {
            assert(out@ =~= v@.subrange(0, i as int + 1));
        }
        i += 1;
    }
    proof {
        assert(out@ =~= v@);
    }
    out
}

/// Whether two character vectors hold the same characters.
pub fn chars_eq(a: &Vec<char>, b: &Vec<char>) -> (r: bool)
    ensures
        r == (a@ == b@),
{
    if a.len() != b.len() {
        return false;
    }
    let mut i: usize = 0;
    while i < a.len()
        invariant
            a@.len() == b@.len(),
            i <= a@.len(),
            forall|j: int| 0 <= j < i ==> a@[j] == b@[j],
        decreases a@.len() - i,
    {
        if a[i] != b[i] {
            return false;
        }
        i += 1;
    }
    proof {
        assert(a@ =~= b@);
    }
    true
}

/// The slice of `v` between `from` and `to`, as a fresh vector.
pub fn subvec(v: &Vec<char>, from: usize, to: usize) -> (r: Vec<char>)
    requires
        from <= to <= v@.len(),
    ensures
        r@ == v@.subrange(from as int, to as int),
{
    let mut out: Vec<char> = Vec::new();
    let mut i: usize = from;
    while i < to
        invariant
            from <= i <= to <= v@.len(),
            out@ == v@.subrange(from as int, i as int),
        decreases to - i,
    {
        out.push(v[i]);
        proof {
            assert(out@ =~= v@.subrange(from as int, i as int + 1));
        }
        i += 1;
    }
    out
}

/// The input, case-folded.
fn lower_vec(s: &Vec<char>) -> (r: Vec<char>)
    ensures
        r@ == lower_seq(s@),
{
    let mut v: Vec<char> = Vec::new();
    let mut i: usize = 0;
    while i < s.len()
        invariant
            i <= s@.len(),
            v@.len() == i,
            forall|j: int| 0 <= j < i ==> v@[j] == spec_to_lower(s@[j]),
        decreases s@.len() - i,
    {
        v.push(to_lower(s[i]));
        i += 1;
    }
    proof {
        assert(v@ =~= lower_seq(s@));
    }
    v
}

/// The labels of `s`, split on the separator.
fn split_labels(s: &Vec<char>) -> (r: Vec<Vec<char>>)
    ensures
        r.deep_view() == spec_labels(s@),
{
    let mut labels: Vec<Vec<char>> = Vec::new();
    let mut cur: Vec<char> = Vec::new();
    let mut start: usize = 0;
    let mut i: usize = 0;
    while i < s.len()
        invariant
            start <= i <= s@.len(),
            cur@ == s@.subrange(start as int, i as int),
            labels.deep_view() + split_rec(s@, i as int, start as int) == spec_labels(s@),
        decreases s@.len() - i,
    {
        if s[i] == '.' {
            let ghost pre = labels.deep_view();
            labels.push(cur);
            cur = Vec::new();
            proof {
                assert(labels.deep_view() =~~= pre.push(s@.subrange(start as int, i as int)));
                assert(split_rec(s@, i as int, start as int) == seq![
                    s@.subrange(start as int, i as int),
                ] + split_rec(s@, i as int + 1, i as int + 1));
                assert(labels.deep_view() + split_rec(s@, i as int + 1, i as int + 1)
                    =~~= spec_labels(s@));
            }
            start = i + 1;
        } else {
            cur.push(s[i]);
            proof {
                assert(cur@ =~= s@.subrange(start as int, i as int + 1));
            }
        }
        i += 1;
    }
    let ghost pre = labels.deep_view();
    labels.push(cur);
    proof {
        assert(labels.deep_view() =~~= pre.push(s@.subrange(start as int, s@.len() as int)));
        assert(labels.deep_view() =~~= spec_labels(s@));
    }
    labels
}

/// Whether some label is empty.
fn has_empty_label(labels: &Vec<Vec<char>>) -> (r: bool)
    ensures
        r == exists|i: int|
            0 <= i < labels.deep_view().len() && #[trigger] labels.deep_view()[i].len() == 0,
{
    let mut i: usize = 0;
    while i < labels.len()
        invariant
            i <= labels@.len(),
            forall|j: int| 0 <= j < i ==> #[trigger] labels.deep_view()[j].len() != 0,
        decreases labels@.len() - i,
    {
        if labels[i].len() == 0 {
            proof {
                assert(labels.deep_view()[i as int].len() == 0);
            }
            return true;
        }
        i += 1;
    }
    false
}

/// Whether some label is longer than 63 characters.
fn has_long_label(labels: &Vec<Vec<char>>) -> (r: bool)
    ensures
        r == exists|i: int|
            0 <= i < labels.deep_view().len() && #[trigger] labels.deep_view()[i].len() > 63,
{
    let mut i: usize = 0;
    while i < labels.len()
        invariant
            i <= labels@.len(),
            forall|j: int| 0 <= j < i ==> #[trigger] labels.deep_view()[j].len() <= 63,
        decreases labels@.len() - i,
    {
        if labels[i].len() > 63 {
            proof {
                assert(labels.deep_view()[i as int].len() > 63);
            }
            return true;
        }
        i += 1;
    }
    false
}

/// Whether suffix entry `e` matches at the end of `low`, on a label boundary.
#[verifier::loop_isolation(false)]
fn suffix_matches_exec(low: &Vec<char>, e: &Vec<char>) -> (r: bool)
    ensures
        r == suffix_matches(low@, e@),
{
    let m = e.len();
    if low.len() <= m {
        return false;
    }
    let base = low.len() - m - 1;
    let ghost pat = seq!['.'] + e@;
    let ghost tail = low@.subrange(low@.len() - pat.len(), low@.len() as int);
    if low[base] != '.' {
        proof {
            assert(tail[0] == low@[base as int]);
            assert(pat[0] == '.');
        }
        return false;
    }
    let mut j: usize = 0;
    while j < m
        invariant
            m == e@.len(),
            base == low@.len() - m - 1,
            j <= m,
            low@[base as int] == '.',
            forall|k: int| 0 <= k < j ==> low@[base + 1 + k] == e@[k],
        decreases m - j,
    {
        if low[base + 1 + j] != e[j] {
            proof {
                assert(pat.len() == 1 + e@.len());
                assert(tail.len() == pat.len());
                assert(tail[j as int + 1] == low@[base + 1 + j as int]);
                assert(pat[j as int + 1] == e@[j as int]);
            }
            return false;
        }
        j += 1;
    }
    proof {
        assert(tail =~= pat);
    }
    true
}

/// The longest recognized public suffix of `low`, if any.
fn best_suffix(low: &Vec<char>) -> (r: Option<Vec<char>>)
    ensures
        match r {
            Option::None => spec_best_suffix(low@) is None,
            Option::Some(e) => spec_best_suffix(low@) == Option::Some(e@) && suffix_matches(
                low@,
                e@,
            ),
        },
{
    let table = suffixes();
    let mut best: Option<Vec<char>> = Option::None;
    let mut i: usize = 0;
    while i < table.len()
        invariant
            i <= table@.len(),
            table.deep_view() == spec_suffixes(),
            best_suffix_rec(
                low@,
                i as int,
                match best {
                    Option::Some(b) => Option::Some(b@),
                    Option::None => Option::None,
                },
            ) == spec_best_suffix(low@),
            match best {
                Option::Some(b) => suffix_matches(low@, b@),
                Option::None => true,
            },
        decreases table@.len() - i,
    {
        proof {
            assert(table.deep_view()[i as int] == table@[i as int].deep_view());
            assert(table@[i as int].deep_view() =~= table@[i as int]@);
        }
        let matched = suffix_matches_exec(low, &table[i]);
        let better = matched && match &best {
            Option::Some(b) => table[i].len() > b.len(),
            Option::None => true,
        };
        if better {
            best = Option::Some(copy_chars(&table[i]));
        }
        i += 1;
    }
    best
}

/// The index of the last separator of `s`, if there is one.
fn last_dot(s: &Vec<char>) -> (r: Option<usize>)
    ensures
        match r {
            Option::None => spec_last_dot(s@) == -1,
            Option::Some(j) => spec_last_dot(s@) == j as int && j < s@.len(),
        },
{
    let mut i: usize = s.len();
    while i > 0
        invariant
            i <= s@.len(),
            last_dot_rec(s@, i as int) == spec_last_dot(s@),
        decreases i,
    {
        if s[i - 1] == '.' {
            return Option::Some(i - 1);
        }
        i -= 1;
    }
    Option::None
}

/// Folding a character twice folds it once.
proof fn lemma_lower_idempotent(s: Seq<char>)
    ensures
        lower_seq(lower_seq(s)) == s.map_values(|c: char| spec_to_lower(c)),
{
    assert forall|c: char| spec_to_lower(spec_to_lower(c)) == spec_to_lower(c) by {}
    assert(lower_seq(lower_seq(s)) =~= lower_seq(s));
}

/// Parsing the normalized full name of a successful parse yields the same
/// decomposition again.
pub proof fn lemma_parse_normalized(s: Seq<char>)
    requires
        spec_parse(s) is Ok,
    ensures
        spec_parse(spec_parse(s)->Ok_0.fqdn) == spec_parse(s),
{
    let low = lower_seq(s);
    lemma_lower_idempotent(s);
    assert(lower_seq(low) =~= low);
    assert(low.len() == s.len());
}

/// Parses a character vector; the result is exactly `spec_parse` of it.
#[verifier::loop_isolation(false)]
pub fn parse_chars(s: &Vec<char>) -> (r: Result<ParsedDomain, ParseError>)
    ensures
        match r {
            Result::Ok(d) => spec_parse(s@) == Result::<DomainView, ParseError>::Ok(d@)
                && d.wf(),
            Result::Err(e) => spec_parse(s@) == Result::<DomainView, ParseError>::Err(e),
        },
{
    let n = s.len();
    if n == 0 {
        return Result::Err(ParseError::InvalidDomain);
    }
    if n > 253 {
        return Result::Err(ParseError::InputTooLarge);
    }
    let low = lower_vec(s);
    let mut i: usize = 0;
    while i < low.len()
        invariant
            low@ == lower_seq(s@),
            i <= low@.len(),
            forall|j: int| 0 <= j < i ==> spec_is_fqdn_char(#[trigger] low@[j]),
        decreases low@.len() - i,
    {
        if !is_fqdn_char(low[i]) {
            proof {
                assert(!spec_is_fqdn_char(lower_seq(s@)[i as int]));
            }
            return Result::Err(ParseError::InvalidDomain);
        }
        i += 1;
    }
    let labels = split_labels(&low);
    if has_empty_label(&labels) {
        return Result::Err(ParseError::InvalidDomain);
    }
    if has_long_label(&labels) {
        return Result::Err(ParseError::InputTooLarge);
    }
    match best_suffix(&low) {
        Option::None => Result::Err(ParseError::InvalidDomain),
        Option::Some(e) => {
            let head_len = low.len() - e.len() - 1;
            let head = subvec(&low, 0, head_len);
            let (sub, root) = match last_dot(&head) {
                Option::None => (Vec::new(), copy_chars(&head)),
                Option::Some(j) => (subvec(&head, 0, j), subvec(&head, j + 1, head.len())),
            };
            let d = ParsedDomain { fqdn: low, subdomain: sub, root, tld: e };
            proof {
                let dv = spec_parse(s@)->Ok_0;
                assert(d@.subdomain =~= dv.subdomain);
                assert(d@.root =~= dv.root);
                assert(d@ == dv);
                lemma_parse_normalized(s@);
            }
            Result::Ok(d)
        },
    }
}

/// Parses an input string into its decomposition, or reports why it is not a
/// well-formed domain. The result is exactly `spec_parse` of the input.
pub fn parse(input: &str) -> (r: Result<ParsedDomain, ParseError>)
    ensures
        match r {
            Result::Ok(d) => spec_parse(input@) == Result::<DomainView, ParseError>::Ok(d@)
                && d.wf(),
            Result::Err(e) => spec_parse(input@) == Result::<DomainView, ParseError>::Err(e),
        },
{
    let cs = str_to_chars(input);
    parse_chars(&cs)
}

} // verus!
