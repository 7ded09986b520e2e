//! The Bing source: dorked web search, paginated ten results at a time,
//! scraped from the `<cite>` elements of the result page.

use vstd::prelude::*;

use crate::domains::{exclusions, take_up_to, DomainSet};
use crate::enumerate::Settings;
use crate::extract::{extract_set, lemma_extract_empty, scan_blocks, BlockPattern, CapKind, PatternSpec};
use crate::request::HttpRequest;
use crate::text::{dec_of, dec_string_usize};

verus! {

/// Results shown per page, and the stride of the `offset` parameter.
pub const BING_PER_PAGE: usize = 10;

/// Subdomains are discovered through Bing's public search endpoint.
pub struct Bing {
    pub domain: String,
}

/// The dork sent to Bing: restrict to the domain, exclude the `www.` label
/// and every hostname already found.
pub open spec fn bing_query(d: Seq<char>, subs: Seq<Seq<char>>) -> Seq<char> {
    "domain:"@ + d + " -www."@ + d + exclusions(subs, " -"@)
}

/// The block pattern Bing result pages are scanned with: a `<cite>` holding
/// the result URL.
pub open spec fn bing_pattern() -> PatternSpec {
    PatternSpec {
        open_tag: "<cite>https://"@,
        skip_gt: false,
        cap: CapKind::AnyChars,
        ws: false,
        lit: ""@,
        filler: true,
        close_tag: "</cite>"@,
    }
}

impl Bing {
    pub fn new(domain: &str) -> (s: Self)
        ensures
            s.domain@ == domain@,
    {
        Bing { domain: domain.to_owned() }
    }

    /// The immutable descriptor of this source.
    pub fn settings(&self) -> (st: Settings)
        ensures
            st.name@ == "Bing"@,
            st.base_url@ == "https://www.bing.com/search"@,
            st.user_agent@ == "Mozilla/5.0 (Windows NT 6.3; WOW64; Trident/7.0; Touch; rv:11.0) like Gecko"@,
            st.max_rounds == 10,
    {
        Settings {
            name: "Bing".to_owned(),
            base_url: "https://www.bing.com/search".to_owned(),
            user_agent: "Mozilla/5.0 (Windows NT 6.3; WOW64; Trident/7.0; Touch; rv:11.0) like Gecko".to_owned(),
            max_rounds: 10,
        }
    }

    /// The next query. Bing never ends the stream on its own.
    pub fn next_query(&self, subs: &DomainSet) -> (q: Option<String>)
        ensures
            match q {
                Some(s) => s@ == bing_query(self.domain@, subs.seq_view()),
                None => false,
            },
    {
        let mut s = String::from_str("domain:");
        s.append(self.domain.as_str());
        s.append(" -www.");
        s.append(self.domain.as_str());
        let count = subs.len();
        subs.append_exclusions(&mut s, " -", count);
        proof {
            assert(take_up_to(subs.seq_view(), count as int) == subs.seq_view());
            assert(s@ =~= bing_query(self.domain@, subs.seq_view()));
        }
        Some(s)
    }

    /// One GET against the search endpoint: the query, ten results per page,
    /// `offset` at `page * 10`, with Bing's client id and cache headers.
    pub fn build_request(&self, query: &str, page: usize) -> (r: HttpRequest)
        requires
            page <= 100_000_000,
        ensures
            r.method is Get,
            r.url@ == "https://www.bing.com/search"@,
            r.params_view() == seq![
                ("q"@, query@),
                ("count"@, dec_of(10)),
                ("offset"@, dec_of((page * 10) as nat)),
            ],
            r.headers_view() == seq![
                ("User-Agent"@, "Mozilla/5.0 (Windows NT 6.3; WOW64; Trident/7.0; Touch; rv:11.0) like Gecko"@),
                ("Accept"@, "text/html"@),
                ("X-MSEdge-ClientID"@, "sublist3r-rs-bing"@),
                ("Pragma"@, "no-cache"@),
            ],
            r.form_view() == Seq::<(Seq<char>, Seq<char>)>::empty(),
    {
        let mut r = HttpRequest::get("https://www.bing.com/search".to_owned());
        r.param("q", query.to_owned());
        r.param("count", dec_string_usize(BING_PER_PAGE));
        r.param("offset", dec_string_usize(page * BING_PER_PAGE));
        r.header(
            "User-Agent",
            "Mozilla/5.0 (Windows NT 6.3; WOW64; Trident/7.0; Touch; rv:11.0) like Gecko".to_owned(),
        );
        r.header("Accept", "text/html".to_owned());
        r.header("X-MSEdge-ClientID", "sublist3r-rs-bing".to_owned());
        r.header("Pragma", "no-cache".to_owned());
        proof {
            assert(r.params_view() =~= seq![
                ("q"@, query@),
                ("count"@, dec_of(10)),
                ("offset"@, dec_of((page * 10) as nat)),
            ]);
            assert(r.headers_view() =~= seq![
                ("User-Agent"@, "Mozilla/5.0 (Windows NT 6.3; WOW64; Trident/7.0; Touch; rv:11.0) like Gecko"@),
                ("Accept"@, "text/html"@),
                ("X-MSEdge-ClientID"@, "sublist3r-rs-bing"@),
                ("Pragma"@, "no-cache"@),
            ]);
        }
        r
    }

    /// What one result page yields: every capture of the pattern.
    pub fn extract(&self, body: &str) -> (out: DomainSet)
        ensures
            out.wf(),
            out@ == extract_set(body@, self.domain@, bing_pattern()),
            body@.len() == 0 ==> out@ == Set::<Seq<char>>::empty(),
    {
        proof {
            reveal_strlit("<cite>https://");
            reveal_strlit("</cite>");
        }
        let p = BlockPattern {
            open_tag: "<cite>https://".to_owned(),
            skip_gt: false,
            cap: CapKind::AnyChars,
            ws: false,
            lit: "".to_owned(),
            filler: true,
            close_tag: "</cite>".to_owned(),
        };
        proof {
            if body@.len() == 0 {
                assert(body@ =~= Seq::<char>::empty());
                lemma_extract_empty(self.domain@, p@);
            }
        }
        scan_blocks(body, self.domain.as_str(), &p)
    }

    /// Pause between rounds, in milliseconds.
    pub fn delay_millis(&self) -> (r: u64)
        ensures
            r == 500,
    {
        500
    }
}

} // verus!
