use domaintwistex::{filter_candidates, generate_permutations, Candidate, Permissive};

fn same(a: &[Candidate], b: &[Candidate]) -> bool {
    a.len() == b.len()
        && a.iter().zip(b.iter()).all(|(x, y)| {
            x.fqdn == y.fqdn && x.tld == y.tld && x.kind == y.kind
        })
}

#[test]
fn permissive_filter_keeps_everything() {
    let out = generate_permutations("example.com");
    let once = filter_candidates(&out, &Permissive);
    assert!(same(&out, &once));
}

#[test]
fn filtering_twice_equals_filtering_once() {
    let out = generate_permutations("example.com");
    let once = filter_candidates(&out, &Permissive);
    let twice = filter_candidates(&once, &Permissive);
    assert!(same(&once, &twice));
}
