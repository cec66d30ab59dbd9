use sidecar::members::{MemberConfig, MemberConfigError};

fn directory(names: &[(&str, &str)], xline_port: u16, sidecar_port: u16) -> MemberConfig {
    let members = names
        .iter()
        .map(|(n, h)| (n.to_string(), h.to_string()))
        .collect();
    MemberConfig::new(members, xline_port, sidecar_port).unwrap()
}

fn of_size(n: usize) -> MemberConfig {
    let members = (0..n)
        .map(|i| (format!("node{i}"), format!("host{i}")))
        .collect();
    MemberConfig::new(members, 2379, 2380).unwrap()
}

#[test]
fn majority_count_of_one_to_five() {
    let got: Vec<usize> = (1..=5).map(|n| of_size(n).majority_cnt()).collect();
    assert_eq!(got, vec![1, 2, 2, 3, 3]);
}

#[test]
fn majority_count_of_larger_clusters() {
    assert_eq!(of_size(6).majority_cnt(), 4);
    assert_eq!(of_size(7).majority_cnt(), 4);
}

#[test]
fn xline_addresses_append_port() {
    let dir = directory(&[("a", "h1"), ("b", "h2"), ("c", "h3")], 2379, 2380);
    let got = dir.xline_members();
    let want = vec![
        ("a".to_string(), "h1:2379".to_string()),
        ("b".to_string(), "h2:2379".to_string()),
        ("c".to_string(), "h3:2379".to_string()),
    ];
    assert_eq!(got, want);
}

#[test]
fn sidecar_addresses_use_sidecar_port() {
    let dir = directory(&[("a", "h1"), ("b", "10.0.0.2")], 2379, 9);
    let got = dir.sidecar_members();
    let want = vec![
        ("a".to_string(), "h1:9".to_string()),
        ("b".to_string(), "10.0.0.2:9".to_string()),
    ];
    assert_eq!(got, want);
}

#[test]
fn addresses_with_extreme_ports() {
    let dir = directory(&[("a", "h")], 0, 65535);
    assert_eq!(dir.xline_members()[0].1, "h:0");
    assert_eq!(dir.sidecar_members()[0].1, "h:65535");
}

#[test]
fn host_lookup() {
    let dir = directory(&[("a", "h1"), ("b", "h2")], 1, 2);
    assert_eq!(dir.get_host("b"), Some(&"h2".to_string()));
    assert_eq!(dir.get_host("a"), Some(&"h1".to_string()));
    assert_eq!(dir.get_host("c"), None);
    assert_eq!(dir.get_host(""), None);
}

#[test]
fn empty_directory_is_refused() {
    let r = MemberConfig::new(Vec::new(), 2379, 2380);
    assert_eq!(r.unwrap_err(), MemberConfigError::Empty);
}

#[test]
fn empty_host_is_refused() {
    let members = vec![
        ("a".to_string(), "h1".to_string()),
        ("b".to_string(), String::new()),
    ];
    let r = MemberConfig::new(members, 2379, 2380);
    assert_eq!(r.unwrap_err(), MemberConfigError::EmptyHost);
}

#[test]
fn duplicate_name_is_refused() {
    let members = vec![
        ("a".to_string(), "h1".to_string()),
        ("b".to_string(), "h2".to_string()),
        ("a".to_string(), "h3".to_string()),
    ];
    let r = MemberConfig::new(members, 2379, 2380);
    assert_eq!(r.unwrap_err(), MemberConfigError::DuplicateName);
}
