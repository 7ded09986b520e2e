//! Request shaping, header defaults, and the anti-abuse header.

use sublist3r_rs::bing::Bing;
use sublist3r_rs::cli::header;
use sublist3r_rs::dnsdumpster::DNSDumpster;
use sublist3r_rs::google::Google;
use sublist3r_rs::request::{defaults_headers, HttpMethod};
use sublist3r_rs::text::{dec_string_i64, dec_string_u64};
use sublist3r_rs::virustotal::{anti_abuse_header, VirusTotal};
use sublist3r_rs::yahoo::Yahoo;

fn pairs(v: &[(String, String)]) -> Vec<(&str, &str)> {
    v.iter().map(|(a, b)| (a.as_str(), b.as_str())).collect()
}

#[test]
fn google_request_shape() {
    let google = Google::new("example.com");
    let r = google.build_request("site:example.com -www.example.com", 2);
    assert!(matches!(r.method, HttpMethod::Get));
    assert_eq!(r.url, "https://www.google.com/search");
    assert_eq!(
        pairs(&r.params),
        vec![
            ("q", "site:example.com -www.example.com"),
            ("hl", "en-US"),
            ("num", "20"),
            ("start", "40"),
            ("filter", "0"),
        ]
    );
    assert_eq!(pairs(&r.headers), vec![("User-Agent", "Lynx/2.8.6rel.5 libwww-FM/2.14")]);
    assert!(r.form.is_empty());
}

#[test]
fn bing_request_shape() {
    let bing = Bing::new("example.com");
    let r = bing.build_request("domain:example.com", 3);
    assert_eq!(r.url, "https://www.bing.com/search");
    assert_eq!(
        pairs(&r.params),
        vec![("q", "domain:example.com"), ("count", "10"), ("offset", "30")]
    );
    assert_eq!(r.headers[2], ("X-MSEdge-ClientID".to_owned(), "sublist3r-rs-bing".to_owned()));
}

#[test]
fn baidu_request_shape() {
    let baidu = sublist3r_rs::baidu::Baidu::new("example.com");
    let r = baidu.build_request("site:example.com", 4);
    assert_eq!(r.url, "https://www.baidu.com/s");
    assert_eq!(
        pairs(&r.params),
        vec![("wq", "site:example.com"), ("pn", "40"), ("oq", "site:example.com"), ("ie", "utf-8")]
    );
}

#[test]
fn yahoo_request_uses_one_based_index() {
    let yahoo = Yahoo::new("example.com");
    let r = yahoo.build_request("site:example.com", 2);
    assert_eq!(pairs(&r.params), vec![("p", "site:example.com"), ("b", "15")]);
}

#[test]
fn dnsdumpster_post_carries_token_and_form() {
    let dd = DNSDumpster::new("example.com");
    let r = dd.build_request("example.com", 0, "tok123");
    assert!(matches!(r.method, HttpMethod::Post));
    assert_eq!(r.url, "https://api.dnsdumpster.com/htmld/");
    assert_eq!(pairs(&r.form), vec![("target", "example.com")]);
    assert_eq!(r.headers[1], ("Authorization".to_owned(), "tok123".to_owned()));
    assert_eq!(r.headers[3], ("HX-Request".to_owned(), "true".to_owned()));
}

#[test]
fn virustotal_request_carries_anti_abuse_header() {
    let vt = VirusTotal::new("ex.com");
    let r = vt.build_request(
        "https://www.virustotal.com/ui/domains/ex.com/relationships/subdomains",
        0,
        "HDR",
    );
    assert_eq!(pairs(&r.params), vec![("limit", "10")]);
    assert_eq!(
        r.headers.last().unwrap(),
        &("X-VT-Anti-Abuse-Header".to_owned(), "HDR".to_owned())
    );
}

#[test]
fn defaults_headers_negotiate_html_and_gzip() {
    let h = defaults_headers();
    assert_eq!(
        pairs(&h),
        vec![
            (
                "Accept",
                "text/html,application/xhtml+xml,application/xml;q=0.9,image/webp,*/*;q=0.8"
            ),
            ("Accept-Language", "en-US,en;q=0.8"),
            ("Accept-Encoding", "gzip"),
        ]
    );
}

#[test]
fn anti_abuse_header_encodes_the_payload() {
    assert_eq!(
        anti_abuse_header(-1, 1_700_000_000),
        "LTEtWkc5dWRDQmlaU0JsZG1scy0xNzAwMDAwMDAw"
    );
    assert_eq!(
        anti_abuse_header(12_345_678_901, 1_700_000_001),
        "MTIzNDU2Nzg5MDEtWkc5dWRDQmlaU0JsZG1scy0xNzAwMDAwMDAx"
    );
}

#[test]
fn decimal_rendering() {
    assert_eq!(dec_string_u64(0), "0");
    assert_eq!(dec_string_u64(907), "907");
    assert_eq!(dec_string_u64(u64::MAX), "18446744073709551615");
    assert_eq!(dec_string_i64(-1), "-1");
    assert_eq!(dec_string_i64(42), "42");
}

#[test]
fn header_holds_banner_and_warnings() {
    let h = header();
    assert!(h.contains("@nt54hamnghi"));
    assert!(h.contains("WARNING:"));
    assert!(h.contains("[!] This tool is for educational purposes only."));
}
