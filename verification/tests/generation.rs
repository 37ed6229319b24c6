use domaintwistex::{
    generate, generate_permutations, parse, Candidate, MutationKind, ParseError,
};

fn find<'a>(out: &'a [Candidate], fqdn: &str) -> Option<&'a Candidate> {
    out.iter().find(|c| c.fqdn == fqdn)
}

#[test]
fn repetition_omission_and_suffix_variants_of_example() {
    let out = generate_permutations("example.com");
    let rep = find(&out, "eexample.com").expect("doubled-letter variant missing");
    assert_eq!(rep.kind, MutationKind::Repetition);
    assert_eq!(rep.tld, "com");
    let omi = find(&out, "xample.com").expect("dropped-letter variant missing");
    assert_eq!(omi.kind, MutationKind::Omission);
    let tld = find(&out, "example.net").expect("suffix variant missing");
    assert_eq!(tld.kind, MutationKind::TldVariation);
    assert_eq!(tld.tld, "net");
}

#[test]
fn original_name_is_never_emitted() {
    let out = generate_permutations("example.com");
    assert!(find(&out, "example.com").is_none());
    let out = generate_permutations("Example.COM");
    assert!(find(&out, "example.com").is_none());
}

#[test]
fn empty_input_yields_empty_collection() {
    let out = generate_permutations("");
    assert!(out.is_empty());
}

#[test]
fn unparseable_input_yields_empty_collection() {
    assert!(generate_permutations("not a domain").is_empty());
    assert!(generate_permutations("example").is_empty());
}

#[test]
fn strict_boundary_reports_errors() {
    assert!(matches!(generate(""), Err(ParseError::InvalidDomain)));
    let mut s = String::new();
    for _ in 0..250 {
        s.push('a');
    }
    s.push_str(".com");
    assert!(matches!(generate(&s), Err(ParseError::InputTooLarge)));
    assert!(generate("example.com").is_ok());
}

#[test]
fn minimal_root_degenerates_quietly() {
    let out = generate_permutations("a.co");
    assert!(!out.is_empty());
    assert!(out.iter().all(|c| c.kind != MutationKind::Transposition));
    assert!(out.iter().all(|c| c.kind != MutationKind::Omission));
    // Both the addition and the repetition strategy produce "aa.co"; under
    // the fixed first-seen-wins order, the addition record survives.
    let rep = find(&out, "aa.co").expect("doubled-letter variant missing");
    assert_eq!(rep.kind, MutationKind::Addition);
}

#[test]
fn generation_is_deterministic() {
    let a = generate_permutations("example.com");
    let b = generate_permutations("example.com");
    assert_eq!(a.len(), b.len());
    for (x, y) in a.iter().zip(b.iter()) {
        assert_eq!(x.fqdn, y.fqdn);
        assert_eq!(x.tld, y.tld);
        assert_eq!(x.kind, y.kind);
    }
}

#[test]
fn no_two_records_share_a_name() {
    let out = generate_permutations("example.com");
    for (i, a) in out.iter().enumerate() {
        for b in out.iter().skip(i + 1) {
            assert_ne!(a.fqdn, b.fqdn);
        }
    }
}

#[test]
fn every_emitted_name_reparses() {
    let out = generate_permutations("example.com");
    assert!(!out.is_empty());
    for c in &out {
        let d = parse(&c.fqdn).expect("emitted name must re-parse");
        let tld: String = d.tld_chars().iter().collect();
        assert_eq!(tld, c.tld);
    }
}

#[test]
fn one_variant_of_each_strategy_appears() {
    let out = generate_permutations("example.com");
    assert_eq!(find(&out, "examplea.com").unwrap().kind, MutationKind::Addition);
    assert_eq!(find(&out, "dxample.com").unwrap().kind, MutationKind::BitSquatting);
    assert_eq!(find(&out, "examp1e.com").unwrap().kind, MutationKind::Homoglyph);
    assert_eq!(find(&out, "e-xample.com").unwrap().kind, MutationKind::Hyphenation);
    assert_eq!(find(&out, "exomple.com").unwrap().kind, MutationKind::VowelSwap);
    assert_eq!(find(&out, "eaxample.com").unwrap().kind, MutationKind::Insertion);
    assert_eq!(find(&out, "esample.com").unwrap().kind, MutationKind::Replacement);
    assert_eq!(find(&out, "e.xample.com").unwrap().kind, MutationKind::Subdomain);
    assert_eq!(find(&out, "examplelogin.com").unwrap().kind, MutationKind::Combosquatting);
    assert_eq!(find(&out, "example-login.com").unwrap().kind, MutationKind::Combosquatting);
}

#[test]
fn suffix_variant_carries_its_own_suffix() {
    let out = generate_permutations("example.com");
    let c = find(&out, "example.co.uk").expect("two-label suffix variant missing");
    assert_eq!(c.kind, MutationKind::TldVariation);
    assert_eq!(c.tld, "co.uk");
}

#[test]
fn subdomains_are_not_carried_into_candidates() {
    let out = generate_permutations("www.example.com");
    assert!(find(&out, "eexample.com").is_some());
    assert!(find(&out, "www.example.com").is_none());
}

#[test]
fn kind_names_are_stable() {
    assert_eq!(MutationKind::Addition.name(), "Addition");
    assert_eq!(MutationKind::BitSquatting.name(), "BitSquatting");
    assert_eq!(MutationKind::Homoglyph.name(), "Homoglyph");
    assert_eq!(MutationKind::Hyphenation.name(), "Hyphenation");
    assert_eq!(MutationKind::Insertion.name(), "Insertion");
    assert_eq!(MutationKind::Omission.name(), "Omission");
    assert_eq!(MutationKind::Repetition.name(), "Repetition");
    assert_eq!(MutationKind::Replacement.name(), "Replacement");
    assert_eq!(MutationKind::Subdomain.name(), "Subdomain");
    assert_eq!(MutationKind::Transposition.name(), "Transposition");
    assert_eq!(MutationKind::VowelSwap.name(), "VowelSwap");
    assert_eq!(MutationKind::TldVariation.name(), "TldVariation");
    assert_eq!(MutationKind::Combosquatting.name(), "Combosquatting");
}

#[test]
fn record_kind_name_matches_its_kind() {
    let out = generate_permutations("example.com");
    let rep = find(&out, "eexample.com").unwrap();
    assert_eq!(rep.kind_name(), "Repetition");
}
