//! The Baidu source: dorked web search, ten results per page, scraped from
//! the grey URL spans of the result page.

use vstd::prelude::*;

use crate::domains::{exclusions, take_up_to, DomainSet};
use crate::enumerate::{default_user_agent, Settings};
use crate::extract::{extract_set, lemma_extract_empty, scan_blocks, BlockPattern, CapKind, PatternSpec};
use crate::request::HttpRequest;
use crate::text::{dec_of, dec_string_usize};

verus! {

/// Results shown per page, and the stride of the `pn` parameter.
pub const BAIDU_PER_PAGE: usize = 10;

/// Subdomains are discovered through Baidu's public search endpoint.
pub struct Baidu {
    pub domain: String,
}

/// The dork sent to Baidu: restrict to the domain, exclude the `www.` label
/// and every hostname already found.
pub open spec fn baidu_query(d: Seq<char>, subs: Seq<Seq<char>>) -> Seq<char> {
    "site:"@ + d + " -site:www."@ + d + exclusions(subs, " -site:"@)
}

/// The block pattern Baidu result pages are scanned with: a grey span whose
/// text is the hostname followed by a slash.
pub open spec fn baidu_pattern() -> PatternSpec {
    PatternSpec {
        open_tag: "<span class=\"c-color-gray\" aria-hidden=\"true\">"@,
        skip_gt: false,
        cap: CapKind::AnyChars,
        ws: false,
        lit: "/"@,
        filler: false,
        close_tag: "</span>"@,
    }
}

impl Baidu {
    pub fn new(domain: &str) -> (s: Self)
        ensures
            s.domain@ == domain@,
    {
        Baidu { domain: domain.to_owned() }
    }

    /// The immutable descriptor of this source.
    pub fn settings(&self) -> (st: Settings)
        ensures
            st.name@ == "Baidu"@,
            st.base_url@ == "https://www.baidu.com/s"@,
            st.user_agent@ == "Mozilla/5.0 (Windows NT 10.0; Win64; x64) AppleWebKit/537.36 (KHTML, like Gecko) Chrome/133.0.0.0 Safari/537.36"@,
            st.max_rounds == 20,
    {
        Settings {
            name: "Baidu".to_owned(),
            base_url: "https://www.baidu.com/s".to_owned(),
            user_agent: default_user_agent(),
            max_rounds: 20,
        }
    }

    /// The next query. Baidu never ends the stream on its own.
    pub fn next_query(&self, subs: &DomainSet) -> (q: Option<String>)
        ensures
            match q {
                Some(s) => s@ == baidu_query(self.domain@, subs.seq_view()),
                None => false,
            },
    {
        let mut s = String::from_str("site:");
        s.append(self.domain.as_str());
        s.append(" -site:www.");
        s.append(self.domain.as_str());
        let count = subs.len();
        subs.append_exclusions(&mut s, " -site:", count);
        proof {
            assert(take_up_to(subs.seq_view(), count as int) == subs.seq_view());
            assert(s@ =~= baidu_query(self.domain@, subs.seq_view()));
        }
        Some(s)
    }

    /// One GET against the search endpoint: the query under `wq` and `oq`,
    /// `pn` at `page * 10`, UTF-8 encoding.
    pub fn build_request(&self, query: &str, page: usize) -> (r: HttpRequest)
        requires
            page <= 100_000_000,
        ensures
            r.method is Get,
            r.url@ == "https://www.baidu.com/s"@,
            r.params_view() == seq![
                ("wq"@, query@),
                ("pn"@, dec_of((page * 10) as nat)),
                ("oq"@, query@),
                ("ie"@, "utf-8"@),
            ],
            r.headers_view() == seq![
                ("User-Agent"@, "Mozilla/5.0 (Windows NT 10.0; Win64; x64) AppleWebKit/537.36 (KHTML, like Gecko) Chrome/133.0.0.0 Safari/537.36"@),
            ],
            r.form_view() == Seq::<(Seq<char>, Seq<char>)>::empty(),
    {
        let mut r = HttpRequest::get("https://www.baidu.com/s".to_owned());
        r.param("wq", query.to_owned());
        r.param("pn", dec_string_usize(page * BAIDU_PER_PAGE));
        r.param("oq", query.to_owned());
        r.param("ie", "utf-8".to_owned());
        r.header("User-Agent", default_user_agent());
        proof {
            assert(r.params_view() =~= seq![
                ("wq"@, query@),
                ("pn"@, dec_of((page * 10) as nat)),
                ("oq"@, query@),
                ("ie"@, "utf-8"@),
            ]);
            assert(r.headers_view() =~= seq![
                ("User-Agent"@, "Mozilla/5.0 (Windows NT 10.0; Win64; x64) AppleWebKit/537.36 (KHTML, like Gecko) Chrome/133.0.0.0 Safari/537.36"@),
            ]);
        }
        r
    }

    /// What one result page yields: every capture of the pattern.
    pub fn extract(&self, body: &str) -> (out: DomainSet)
        ensures
            out.wf(),
            out@ == extract_set(body@, self.domain@, baidu_pattern()),
            body@.len() == 0 ==> out@ == Set::<Seq<char>>::empty(),
    {
        proof {
            reveal_strlit("<span class=\"c-color-gray\" aria-hidden=\"true\">");
            reveal_strlit("</span>");
        }
        let p = BlockPattern {
            open_tag: "<span class=\"c-color-gray\" aria-hidden=\"true\">".to_owned(),
            skip_gt: false,
            cap: CapKind::AnyChars,
            ws: false,
            lit: "/".to_owned(),
            filler: false,
            close_tag: "</span>".to_owned(),
        };
        proof {
            if body@.len() == 0 {
                assert(body@ =~= Seq::<char>::empty());
                lemma_extract_empty(self.domain@, p@);
            }
        }
        scan_blocks(body, self.domain.as_str(), &p)
    }

    /// Pause between rounds, in milliseconds.
    pub fn delay_millis(&self) -> (r: u64)
        ensures
            r == 500,
    {
        500
    }
}

} // verus!
