//! Query construction for the search-engine sources.

use sublist3r_rs::baidu::Baidu;
use sublist3r_rs::bing::Bing;
use sublist3r_rs::domains::DomainSet;
use sublist3r_rs::google::Google;
use sublist3r_rs::yahoo::Yahoo;

fn set_of(members: &[&str]) -> DomainSet {
    let mut s = DomainSet::new();
    for m in members {
        s.insert((*m).to_owned());
    }
    s
}

#[test]
fn google_query_no_findings() {
    let google = Google::new("example.com");
    let query = google.next_query(&set_of(&[])).unwrap();
    assert_eq!(query, "site:example.com -www.example.com");
}

#[test]
fn google_query_one_finding() {
    let google = Google::new("example.com");
    let query = google.next_query(&set_of(&["app.example.com"])).unwrap();
    assert_eq!(query, "site:example.com -www.example.com -app.example.com");
}

#[test]
fn google_test_generate_query_multiple() {
    let domain = "example.com";
    let subdomains = set_of(&["first.example.com", "second.example.com"]);
    let google = Google::new(domain);
    let query = google.next_query(&subdomains).unwrap();

    let (expected1, expected2) = (
        "site:example.com -www.example.com -first.example.com -second.example.com",
        "site:example.com -www.example.com -second.example.com -first.example.com",
    );

    assert!(query == expected1 || query == expected2);
}

#[test]
fn yahoo_test_generate_query_multiple() {
    let domain = "example.com";
    let subdomains = set_of(&["first.example.com", "second.example.com"]);
    let yahoo = Yahoo::new(domain);
    let query = yahoo.next_query(&subdomains).unwrap();

    let (expected1, expected2) = (
        "site:example.com -domain:www.example.com -domain:first.example.com -domain:second.example.com",
        "site:example.com -domain:www.example.com -domain:second.example.com -domain:first.example.com",
    );

    assert!(query == expected1 || query == expected2);
}

#[test]
fn yahoo_query_no_findings() {
    let yahoo = Yahoo::new("example.com");
    let query = yahoo.next_query(&set_of(&[])).unwrap();
    assert_eq!(query, "site:example.com -domain:www.example.com");
}

#[test]
fn yahoo_query_truncates_exclusions_to_fifteen() {
    let members: Vec<String> = (0..20).map(|i| format!("h{i}.example.com")).collect();
    let refs: Vec<&str> = members.iter().map(|s| s.as_str()).collect();
    let yahoo = Yahoo::new("example.com");
    let query = yahoo.next_query(&set_of(&refs)).unwrap();
    assert_eq!(query.matches(" -domain:").count(), 16);
    assert!(query.contains("-domain:h14.example.com"));
    assert!(!query.contains("-domain:h15.example.com"));
}

#[test]
fn bing_query_uses_domain_operator() {
    let bing = Bing::new("example.com");
    let query = bing.next_query(&set_of(&["app.example.com"])).unwrap();
    assert_eq!(query, "domain:example.com -www.example.com -app.example.com");
}

#[test]
fn baidu_query_uses_site_operator() {
    let baidu = Baidu::new("example.com");
    let query = baidu.next_query(&set_of(&["app.example.com"])).unwrap();
    assert_eq!(query, "site:example.com -site:www.example.com -site:app.example.com");
}

#[test]
fn domain_set_insert_is_idempotent() {
    let mut s = DomainSet::new();
    s.insert("a.example.com".to_owned());
    s.insert("a.example.com".to_owned());
    assert_eq!(s.len(), 1);
    s.insert("b.example.com".to_owned());
    assert_eq!(s.len(), 2);
    assert!(s.contains_str("a.example.com"));
    assert!(s.contains_str("b.example.com"));
    assert!(!s.contains_str("c.example.com"));
}

#[test]
fn domain_set_merge_is_union() {
    let mut s = set_of(&["a.example.com", "b.example.com"]);
    let t = set_of(&["b.example.com", "c.example.com"]);
    s.merge(&t);
    assert_eq!(s.len(), 3);
    assert!(s.contains_str("c.example.com"));
}
