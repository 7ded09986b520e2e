//! Extraction: HTML scraping, CSV lines, and the JSON-backed sources.

use sublist3r_rs::alienvault::AlienVault;
use sublist3r_rs::baidu::Baidu;
use sublist3r_rs::bing::Bing;
use sublist3r_rs::crtsh::CrtSh;
use sublist3r_rs::dnsdumpster::{scrape_token, DNSDumpster};
use sublist3r_rs::domains::DomainSet;
use sublist3r_rs::google::Google;
use sublist3r_rs::hackertarget::HackerTarget;
use sublist3r_rs::rapiddns::RapidDNS;
use sublist3r_rs::virustotal::VirusTotal;
use sublist3r_rs::yahoo::Yahoo;

fn members(s: DomainSet) -> Vec<String> {
    let mut v = s.into_vec();
    v.sort();
    v
}

#[test]
fn bing_extract_multi_cite() {
    let bing = Bing::new("example.com");
    let body = "
        <cite>https://first.example.com</cite>
        <cite>https://second.example.com</cite>
        <cite>https://fourth.third.example.com</cite>
        ";
    let found = members(bing.extract(body));
    assert_eq!(
        found,
        vec!["first.example.com", "fourth.third.example.com", "second.example.com"]
    );
}

#[test]
fn bing_extract_with_extra_text() {
    let bing = Bing::new("example.com");
    let body = "<cite><cite>https://app.example.com - App</cite> - Bing</cite>";
    assert_eq!(members(bing.extract(body)), vec!["app.example.com"]);
}

#[test]
fn bing_extract_takes_the_shortest_capture() {
    let bing = Bing::new("example.com");
    let body = "<cite>https://a.example.com.example.com</cite>";
    assert_eq!(members(bing.extract(body)), vec!["a.example.com"]);
}

#[test]
fn bing_extract_no_matches() {
    let bing = Bing::new("example.com");
    assert_eq!(bing.extract("no matches found").len(), 0);
}

#[test]
fn google_extract_basic() {
    let google = Google::new("example.com");
    let body = "<span>app.example.com &#8250; Text</span>";
    assert_eq!(members(google.extract(body)), vec!["app.example.com"]);
}

#[test]
fn google_extract_with_attributes_and_hyphens() {
    let google = Google::new("example.com");
    let body = r#"<span class="cite">with-hypen.example.com &#8250; Text</span>"#;
    assert_eq!(members(google.extract(body)), vec!["with-hypen.example.com"]);
}

#[test]
fn google_extract_multi_matches() {
    let google = Google::new("example.com");
    let body = "
        <span>first.example.com &#8250; Text</span>
        <span>second.example.com &#8250; Text</span>
        <span>fourth.third.example.com &#8250; Text</span>
        ";
    assert_eq!(
        members(google.extract(body)),
        vec!["first.example.com", "fourth.third.example.com", "second.example.com"]
    );
}

#[test]
fn yahoo_extract_with_hyphens() {
    let yahoo = Yahoo::new("example.com");
    let body = "<span>with-hypen.example.com</span>";
    assert_eq!(members(yahoo.extract(body)), vec!["with-hypen.example.com"]);
}

#[test]
fn yahoo_extract_multi_level() {
    let yahoo = Yahoo::new("example.com");
    let body = "<span>level1.level2.example.com</span>";
    assert_eq!(members(yahoo.extract(body)), vec!["level1.level2.example.com"]);
}

#[test]
fn yahoo_extract_rejects_trailing_text() {
    let yahoo = Yahoo::new("example.com");
    let body = "<span>app.example.com and more</span>";
    assert_eq!(yahoo.extract(body).len(), 0);
}

#[test]
fn yahoo_extract_label_grammar() {
    let yahoo = Yahoo::new("example.com");
    assert_eq!(yahoo.extract("<span>-bad.example.com</span>").len(), 0);
    assert_eq!(yahoo.extract("<span>bad-.example.com</span>").len(), 0);
    assert_eq!(yahoo.extract("<span>a..example.com</span>").len(), 0);
    assert_eq!(members(yahoo.extract("<span>a--b.example.com</span>")), vec!["a--b.example.com"]);
}

#[test]
fn baidu_extract_gray_span() {
    let baidu = Baidu::new("example.com");
    let body = r#"<span class="c-color-gray" aria-hidden="true">app.example.com/</span>"#;
    assert_eq!(members(baidu.extract(body)), vec!["app.example.com"]);
}

#[test]
fn dnsdumpster_extract_table_cells() {
    let dd = DNSDumpster::new("example.com");
    let body = "<td>one.example.com</td><td>two.example.com</td>";
    assert_eq!(members(dd.extract(body)), vec!["one.example.com", "two.example.com"]);
}

#[test]
fn rapiddns_extract_table_cells() {
    let rd = RapidDNS::new("example.com");
    let body = "<td>one.example.com</td>";
    assert_eq!(members(rd.extract(body)), vec!["one.example.com"]);
}

#[test]
fn empty_body_yields_empty_set_for_every_extractor() {
    assert_eq!(Bing::new("ex.com").extract("").len(), 0);
    assert_eq!(Google::new("ex.com").extract("").len(), 0);
    assert_eq!(Yahoo::new("ex.com").extract("").len(), 0);
    assert_eq!(Baidu::new("ex.com").extract("").len(), 0);
    assert_eq!(DNSDumpster::new("ex.com").extract("").len(), 0);
    assert_eq!(RapidDNS::new("ex.com").extract("").len(), 0);
    assert_eq!(HackerTarget::new("ex.com").extract("").len(), 0);
    assert_eq!(AlienVault::new("ex.com").extract("").len(), 0);
    assert_eq!(VirusTotal::new("ex.com").extract("").len(), 0);
}

#[test]
fn concat_of_bodies_extracts_union_for_scrapers() {
    let bing = Bing::new("example.com");
    let b1 = "<cite>https://first.example.com</cite>";
    let b2 = "<cite>https://second.example.com</cite>";
    let joined = format!("{b1}{b2}");
    let mut union = bing.extract(b1);
    union.merge(&bing.extract(b2));
    assert_eq!(members(bing.extract(&joined)), members(union));
}

#[test]
fn hackertarget_extract_first_field() {
    let ht = HackerTarget::new("ex.com");
    let body = "a.ex.com,1.2.3.4\nb.ex.com,5.6.7.8\nmalformed line";
    assert_eq!(members(ht.extract(body)), vec!["a.ex.com", "b.ex.com"]);
}

#[test]
fn crtsh_extract_splits_newline_joined_name_values() {
    let crtsh = CrtSh::new("ex.com");
    let body = r#"[{"name_value":"a.ex.com\nb.ex.com"},{"name_value":"a.ex.com"}]"#;
    assert_eq!(members(crtsh.extract(body)), vec!["a.ex.com", "b.ex.com"]);
}

#[test]
fn crtsh_extract_malformed_json_yields_empty() {
    let crtsh = CrtSh::new("ex.com");
    assert_eq!(crtsh.extract("{not json").len(), 0);
    assert_eq!(crtsh.extract(r#"[{"other":"x"}]"#).len(), 0);
}

#[test]
fn alienvault_extract_filters_off_domain() {
    let av = AlienVault::new("ex.com");
    let body = r#"{"passive_dns":[{"hostname":"foo.ex.com"},{"hostname":"unrelated.other.com"}],"count":2}"#;
    assert_eq!(members(av.extract(body)), vec!["foo.ex.com"]);
}

#[test]
fn virustotal_extract_records_cursor() {
    let mut vt = VirusTotal::new("ex.com");
    let body = r#"{"data":[{"id":"a.ex.com"},{"id":"b.ex.com"}],"meta":{"cursor":"abc"}}"#;
    assert_eq!(members(vt.extract(body)), vec!["a.ex.com", "b.ex.com"]);
    let q = vt.next_query(&DomainSet::new()).unwrap();
    assert_eq!(
        q,
        "https://www.virustotal.com/ui/domains/ex.com/relationships/subdomains?cursor=abc"
    );
}

#[test]
fn virustotal_extract_without_cursor_ends_stream() {
    let mut vt = VirusTotal::new("ex.com");
    let body = r#"{"data":[{"id":"a.ex.com"}],"meta":{}}"#;
    assert_eq!(members(vt.extract(body)), vec!["a.ex.com"]);
    assert!(vt.next_query(&DomainSet::new()).is_none());
}

#[test]
fn virustotal_malformed_json_keeps_state() {
    let mut vt = VirusTotal::new("ex.com");
    assert_eq!(vt.extract("{oops").len(), 0);
    let q = vt.next_query(&DomainSet::new()).unwrap();
    assert_eq!(q, "https://www.virustotal.com/ui/domains/ex.com/relationships/subdomains");
}

#[test]
fn dnsdumpster_scrape_token_from_preflight() {
    let body = r#"<div hx-headers='{"Authorization": "abc_DEF-123.xyz"}' id="x"></div>"#;
    assert_eq!(scrape_token(body).unwrap(), "abc_DEF-123.xyz");
}

#[test]
fn dnsdumpster_scrape_token_absent() {
    assert!(scrape_token("<html>nothing here</html>").is_none());
    assert!(scrape_token(r#"hx-headers='{"Authorization": ""}'"#).is_none());
}
