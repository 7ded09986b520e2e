//! The Yahoo source: dorked web search, seven results per page, scraped from
//! bare `<span>` elements whose whole text is a hostname.

use vstd::prelude::*;

use crate::domains::{exclusions, take_up_to, DomainSet};
use crate::enumerate::{default_user_agent, Settings};
use crate::extract::{extract_set, lemma_extract_empty, scan_blocks, BlockPattern, CapKind, PatternSpec};
use crate::request::HttpRequest;
use crate::text::{dec_of, dec_string_usize};

verus! {

/// Results Yahoo returns per page; the `b` parameter is 1-based with this
/// stride.
pub const YAHOO_PER_PAGE: usize = 7;

/// At most this many exclusion terms are appended to a query, to keep the
/// query from growing without bound.
pub const YAHOO_MAX_EXCLUSIONS: usize = 15;

/// Subdomains are discovered through Yahoo's public search endpoint.
pub struct Yahoo {
    pub domain: String,
}

/// The dork sent to Yahoo: restrict to the domain, exclude the `www.` label
/// and the first fifteen hostnames already found.
pub open spec fn yahoo_query(d: Seq<char>, subs: Seq<Seq<char>>) -> Seq<char> {
    "site:"@ + d + " -domain:www."@ + d + exclusions(take_up_to(subs, 15), " -domain:"@)
}

/// The block pattern Yahoo result pages are scanned with: a `<span>` whose
/// whole text is a DNS label sequence under the domain.
pub open spec fn yahoo_pattern() -> PatternSpec {
    PatternSpec {
        open_tag: "<span>"@,
        skip_gt: false,
        cap: CapKind::LabelSeq,
        ws: false,
        lit: ""@,
        filler: false,
        close_tag: "</span>"@,
    }
}

impl Yahoo {
    pub fn new(domain: &str) -> (s: Self)
        ensures
            s.domain@ == domain@,
    {
        Yahoo { domain: domain.to_owned() }
    }

    /// The immutable descriptor of this source.
    pub fn settings(&self) -> (st: Settings)
        ensures
            st.name@ == "Yahoo"@,
            st.base_url@ == "https://search.yahoo.com/search"@,
            st.user_agent@ == "Mozilla/5.0 (Windows NT 10.0; Win64; x64) AppleWebKit/537.36 (KHTML, like Gecko) Chrome/133.0.0.0 Safari/537.36"@,
            st.max_rounds == 50,
    {
        Settings {
            name: "Yahoo".to_owned(),
            base_url: "https://search.yahoo.com/search".to_owned(),
            user_agent: default_user_agent(),
            max_rounds: 50,
        }
    }

    /// The next query. Yahoo never ends the stream on its own; the exclusion
    /// list is truncated to the first fifteen findings.
    pub fn next_query(&self, subs: &DomainSet) -> (q: Option<String>)
        ensures
            match q {
                Some(s) => s@ == yahoo_query(self.domain@, subs.seq_view()),
                None => false,
            },
    {
        let mut s = String::from_str("site:");
        s.append(self.domain.as_str());
        s.append(" -domain:www.");
        s.append(self.domain.as_str());
        subs.append_exclusions(&mut s, " -domain:", YAHOO_MAX_EXCLUSIONS);
        proof {
            assert(s@ =~= yahoo_query(self.domain@, subs.seq_view()));
        }
        Some(s)
    }

    /// One GET against the search endpoint: the query under `p`, and the
    /// 1-based result index `b` at `page * 7 + 1`.
    pub fn build_request(&self, query: &str, page: usize) -> (r: HttpRequest)
        requires
            page <= 100_000_000,
        ensures
            r.method is Get,
            r.url@ == "https://search.yahoo.com/search"@,
            r.params_view() == seq![
                ("p"@, query@),
                ("b"@, dec_of((page * 7 + 1) as nat)),
            ],
            r.headers_view() == seq![
                ("User-Agent"@, "Mozilla/5.0 (Windows NT 10.0; Win64; x64) AppleWebKit/537.36 (KHTML, like Gecko) Chrome/133.0.0.0 Safari/537.36"@),
            ],
            r.form_view() == Seq::<(Seq<char>, Seq<char>)>::empty(),
    {
        let mut r = HttpRequest::get("https://search.yahoo.com/search".to_owned());
        r.param("p", query.to_owned());
        r.param("b", dec_string_usize(page * YAHOO_PER_PAGE + 1));
        r.header("User-Agent", default_user_agent());
        proof {
            assert(r.params_view() =~= seq![
                ("p"@, query@),
                ("b"@, dec_of((page * 7 + 1) as nat)),
            ]);
            assert(r.headers_view() =~= seq![
                ("User-Agent"@, "Mozilla/5.0 (Windows NT 10.0; Win64; x64) AppleWebKit/537.36 (KHTML, like Gecko) Chrome/133.0.0.0 Safari/537.36"@),
            ]);
        }
        r
    }

    /// What one result page yields: every capture of the pattern.
    pub fn extract(&self, body: &str) -> (out: DomainSet)
        ensures
            out.wf(),
            out@ == extract_set(body@, self.domain@, yahoo_pattern()),
            body@.len() == 0 ==> out@ == Set::<Seq<char>>::empty(),
    {
        proof {
            reveal_strlit("<span>");
            reveal_strlit("</span>");
        }
        let p = BlockPattern {
            open_tag: "<span>".to_owned(),
            skip_gt: false,
            cap: CapKind::LabelSeq,
            ws: false,
            lit: "".to_owned(),
            filler: false,
            close_tag: "</span>".to_owned(),
        };
        proof {
            if body@.len() == 0 {
                assert(body@ =~= Seq::<char>::empty());
                lemma_extract_empty(self.domain@, p@);
            }
        }
        scan_blocks(body, self.domain.as_str(), &p)
    }

    /// Pause between rounds, in milliseconds.
    pub fn delay_millis(&self) -> (r: u64)
        ensures
            r == 500,
    {
        500
    }
}

} // verus!
