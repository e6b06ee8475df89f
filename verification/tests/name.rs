use acmecrab::name::{bytes_eq, labels_eq, measure, within_limits, LowerName, Name};

fn labels(name: &Name) -> Vec<String> {
    name.labels().iter().map(|l| String::from_utf8(l.clone()).unwrap()).collect()
}

#[test]
fn parse_relative_name() {
    let name = Name::from_str("www.example.com").unwrap();
    assert_eq!(labels(&name), vec!["www", "example", "com"]);
    assert!(!name.is_fqdn());
    assert!(!name.is_root());
}

#[test]
fn parse_fully_qualified_name() {
    let name = Name::from_str("www.example.com.").unwrap();
    assert_eq!(labels(&name), vec!["www", "example", "com"]);
    assert!(name.is_fqdn());
}

#[test]
fn parse_root() {
    let name = Name::from_str(".").unwrap();
    assert!(name.labels().is_empty());
    assert!(name.is_fqdn());
    assert!(name.is_root());
    assert!(Name::root().is_root());
    assert_eq!(Name::root().to_text(), ".");
}

#[test]
fn parse_escaped_dot_stays_in_its_label() {
    let name = Name::from_str("first\\.last.example.com").unwrap();
    assert_eq!(labels(&name), vec!["first.last", "example", "com"]);
}

#[test]
fn parse_refuses_whitespace() {
    assert!(Name::from_str("a b.example.com").is_err());
}

#[test]
fn parse_refuses_a_label_that_is_too_long() {
    let long = "a".repeat(64);
    assert!(Name::from_str(&format!("{long}.example.com")).is_err());
    let fits = "a".repeat(63);
    assert!(Name::from_str(&format!("{fits}.example.com")).is_ok());
}

#[test]
fn text_of_a_name_ends_in_a_dot_when_fully_qualified() {
    assert_eq!(Name::from_str("www.example.com.").unwrap().to_text(), "www.example.com.");
    assert_eq!(Name::from_str("www.example.com").unwrap().to_text(), "www.example.com");
    assert_eq!(
        Name::from_str("first\\.last.example.com").unwrap().to_text(),
        "first\\.last.example.com"
    );
}

#[test]
fn append_domain_joins_labels_and_qualifies() {
    let sub = Name::from_str("test").unwrap();
    let domain = Name::from_str("example.com").unwrap();
    let full = sub.append_domain(&domain).unwrap();
    assert_eq!(labels(&full), vec!["test", "example", "com"]);
    assert!(full.is_fqdn());
    assert_eq!(full.to_text(), "test.example.com.");
}

#[test]
fn append_domain_to_nothing_gives_the_domain() {
    let empty = Name::from_str("").unwrap();
    let domain = Name::from_str("example.com.").unwrap();
    let full = empty.append_domain(&domain).unwrap();
    assert_eq!(labels(&full), vec!["example", "com"]);
    assert!(full.is_fqdn());
}

#[test]
fn append_domain_fails_over_255() {
    let label = "a".repeat(63);
    // Three labels of 63 and their separators: 192.
    let sub = Name::from_str(&format!("{label}.{label}.{label}")).unwrap();
    // 192 + 62 + 1 = 255 fits.
    let fits = Name::from_str(&"b".repeat(62)).unwrap();
    assert!(sub.append_domain(&fits).is_ok());
    // 192 + 63 + 1 = 256 does not.
    let too_long = Name::from_str(&"b".repeat(63)).unwrap();
    assert!(sub.append_domain(&too_long).is_err());
}

#[test]
fn lowercase_folds_ascii_letters_only() {
    let name = Name::from_labels(vec![b"WwW-1".to_vec(), b"EXAMPLE".to_vec()], true).unwrap();
    let low = name.to_lowercase();
    assert_eq!(labels(&low), vec!["www-1", "example"]);
    assert!(low.is_fqdn());
    assert_eq!(labels(&name), vec!["WwW-1", "EXAMPLE"]);
}

#[test]
fn names_compare_without_case_and_without_qualification() {
    let a = Name::from_labels(vec![b"WWW".to_vec(), b"example".to_vec()], true).unwrap();
    let b = Name::from_labels(vec![b"www".to_vec(), b"Example".to_vec()], false).unwrap();
    let c = Name::from_labels(vec![b"www".to_vec(), b"example".to_vec(), b"com".to_vec()], true)
        .unwrap();
    assert!(a.same_as(&b));
    assert!(!a.eq_case(&b));
    assert!(a.eq_case(&a.duplicate()));
    assert!(!a.same_as(&c));
    assert!(!c.same_as(&a));
}

#[test]
fn lower_names_are_the_same_key_whatever_the_case() {
    let a = LowerName::new(&Name::from_labels(vec![b"TEST".to_vec()], true).unwrap());
    let b = LowerName::new(&Name::from_labels(vec![b"test".to_vec()], false).unwrap());
    let c = LowerName::new(&Name::from_labels(vec![b"tests".to_vec()], true).unwrap());
    assert!(a.same_as(&b));
    assert!(!a.same_as(&c));
    assert!(a.is_fqdn());
    assert!(!b.is_fqdn());
    assert_eq!(a.to_text(), "test.");
    assert_eq!(a.labels(), &vec![b"test".to_vec()]);
    assert!(a.to_name().eq_case(a.as_name()));
    assert!(a.duplicate().same_as(&a));
}

#[test]
fn from_labels_checks_the_limits() {
    assert!(Name::from_labels(Vec::new(), false).is_some());
    assert!(Name::from_labels(vec![Vec::new()], false).is_none());
    assert!(Name::from_labels(vec![vec![b'a'; 63]], false).is_some());
    assert!(Name::from_labels(vec![vec![b'a'; 64]], false).is_none());
    // Four labels of 63 and their separators are 256.
    assert!(Name::from_labels(vec![vec![b'a'; 63]; 4], false).is_none());
    let mut most = vec![vec![b'a'; 63]; 3];
    most.push(vec![b'a'; 62]);
    assert!(Name::from_labels(most, false).is_some());
}

#[test]
fn set_fqdn_changes_nothing_else() {
    let mut name = Name::from_str("www.example.com").unwrap();
    name.set_fqdn(true);
    assert!(name.is_fqdn());
    assert_eq!(labels(&name), vec!["www", "example", "com"]);
    name.set_fqdn(false);
    assert!(!name.is_fqdn());
}

#[test]
fn measure_counts_labels_and_separators() {
    assert_eq!(measure(&Vec::new()), Some(1));
    assert_eq!(measure(&vec![b"www".to_vec(), b"example".to_vec(), b"com".to_vec()]), Some(16));
    assert_eq!(measure(&vec![vec![b'a'; 254]]), Some(255));
    assert_eq!(measure(&vec![vec![b'a'; 255]]), None);
    assert!(within_limits(&vec![b"www".to_vec()]));
    assert!(!within_limits(&vec![vec![b'a'; 254]]));
}

#[test]
fn byte_strings_compare_by_content() {
    assert!(bytes_eq(&b"abc".to_vec(), &b"abc".to_vec()));
    assert!(!bytes_eq(&b"abc".to_vec(), &b"abd".to_vec()));
    assert!(!bytes_eq(&b"abc".to_vec(), &b"ab".to_vec()));
    assert!(labels_eq(&vec![b"a".to_vec()], &vec![b"a".to_vec()]));
    assert!(!labels_eq(&vec![b"a".to_vec()], &vec![b"a".to_vec(), b"b".to_vec()]));
    assert!(!labels_eq(&vec![b"ab".to_vec(), b"c".to_vec()], &vec![b"a".to_vec(), b"bc".to_vec()]));
}
