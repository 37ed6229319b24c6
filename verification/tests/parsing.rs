use domaintwistex::domain::{parse, ParseError};

fn chars(v: &Vec<char>) -> String {
    v.iter().collect()
}

#[test]
fn parse_simple_domain() {
    let d = parse("example.com").unwrap();
    assert_eq!(chars(d.fqdn_chars()), "example.com");
    assert_eq!(chars(d.root_chars()), "example");
    assert_eq!(chars(d.tld_chars()), "com");
    assert_eq!(chars(d.subdomain_chars()), "");
}

#[test]
fn parse_normalizes_case() {
    let d = parse("Example.COM").unwrap();
    assert_eq!(chars(d.fqdn_chars()), "example.com");
    assert_eq!(chars(d.root_chars()), "example");
}

#[test]
fn parse_longest_suffix_wins() {
    let d = parse("www.example.co.uk").unwrap();
    assert_eq!(chars(d.root_chars()), "example");
    assert_eq!(chars(d.tld_chars()), "co.uk");
    assert_eq!(chars(d.subdomain_chars()), "www");
}

#[test]
fn parse_deep_subdomain() {
    let d = parse("a.b.c.example.net").unwrap();
    assert_eq!(chars(d.root_chars()), "example");
    assert_eq!(chars(d.tld_chars()), "net");
    assert_eq!(chars(d.subdomain_chars()), "a.b.c");
}

#[test]
fn parse_rejects_empty() {
    assert_eq!(parse("").unwrap_err(), ParseError::InvalidDomain);
}

#[test]
fn parse_rejects_overlong_input() {
    let mut s = String::new();
    for _ in 0..250 {
        s.push('a');
    }
    s.push_str(".com");
    assert_eq!(s.len(), 254);
    assert_eq!(parse(&s).unwrap_err(), ParseError::InputTooLarge);
}

#[test]
fn parse_rejects_overlong_label() {
    let mut s = String::new();
    for _ in 0..64 {
        s.push('a');
    }
    s.push_str(".com");
    assert_eq!(parse(&s).unwrap_err(), ParseError::InputTooLarge);
}

#[test]
fn parse_accepts_longest_legal_label() {
    let mut s = String::new();
    for _ in 0..63 {
        s.push('a');
    }
    s.push_str(".com");
    let d = parse(&s).unwrap();
    assert_eq!(d.root_chars().len(), 63);
}

#[test]
fn parse_rejects_unknown_suffix() {
    assert_eq!(parse("example.nosuchsuffix").unwrap_err(), ParseError::InvalidDomain);
    assert_eq!(parse("example").unwrap_err(), ParseError::InvalidDomain);
}

#[test]
fn parse_rejects_illegal_characters() {
    assert_eq!(parse("exa mple.com").unwrap_err(), ParseError::InvalidDomain);
    assert_eq!(parse("exam_ple.com").unwrap_err(), ParseError::InvalidDomain);
}

#[test]
fn parse_rejects_empty_labels() {
    assert_eq!(parse(".com").unwrap_err(), ParseError::InvalidDomain);
    assert_eq!(parse("example..com").unwrap_err(), ParseError::InvalidDomain);
    assert_eq!(parse("example.com.").unwrap_err(), ParseError::InvalidDomain);
}
