//! The Google source: dorked web search, paginated twenty results at a time,
//! scraped from the text-browser rendering of the result page.

use vstd::prelude::*;

use crate::domains::{exclusions, take_up_to, DomainSet};
use crate::enumerate::Settings;
use crate::extract::{extract_set, lemma_extract_empty, scan_blocks, BlockPattern, CapKind, PatternSpec};
use crate::request::HttpRequest;
use crate::text::{dec_of, dec_string_usize};

verus! {

/// Results shown per page, and the stride of the `start` parameter.
pub const GOOGLE_PER_PAGE: usize = 20;

/// Subdomains are discovered through Google's public search endpoint.
pub struct Google {
    pub domain: String,
}

/// The dork sent to Google: restrict to the domain, exclude the `www.` label
/// and every hostname already found.
pub open spec fn google_query(d: Seq<char>, subs: Seq<Seq<char>>) -> Seq<char> {
    "site:"@ + d + " -www."@ + d + exclusions(subs, " -"@)
}

/// The block pattern Google result pages are scanned with: a `<span>` whose
/// text is the hostname followed by one space and a `&#8250;` separator.
pub open spec fn google_pattern() -> PatternSpec {
    PatternSpec {
        open_tag: "<span"@,
        skip_gt: true,
        cap: CapKind::ClassChars,
        ws: true,
        lit: "&#8250;"@,
        filler: true,
        close_tag: "</span>"@,
    }
}

impl Google {
    pub fn new(domain: &str) -> (s: Self)
        ensures
            s.domain@ == domain@,
    {
        Google { domain: domain.to_owned() }
    }

    /// The immutable descriptor of this source.
    pub fn settings(&self) -> (st: Settings)
        ensures
            st.name@ == "Google"@,
            st.base_url@ == "https://www.google.com/search"@,
            st.user_agent@ == "Lynx/2.8.6rel.5 libwww-FM/2.14"@,
            st.max_rounds == 20,
    {
        Settings {
            name: "Google".to_owned(),
            base_url: "https://www.google.com/search".to_owned(),
            // a text-browser user agent is exempt from the JavaScript
            // requirement on the public search endpoint
            user_agent: "Lynx/2.8.6rel.5 libwww-FM/2.14".to_owned(),
            max_rounds: 20,
        }
    }

    /// The next query. Google never ends the stream on its own: there is
    /// always one more query, refined by the exclusion list.
    pub fn next_query(&self, subs: &DomainSet) -> (q: Option<String>)
        ensures
            match q {
                Some(s) => s@ == google_query(self.domain@, subs.seq_view()),
                None => false,
            },
    {
        let mut s = String::from_str("site:");
        s.append(self.domain.as_str());
        s.append(" -www.");
        s.append(self.domain.as_str());
        let count = subs.len();
        subs.append_exclusions(&mut s, " -", count);
        proof {
            assert(take_up_to(subs.seq_view(), count as int) == subs.seq_view());
            assert(s@ =~= google_query(self.domain@, subs.seq_view()));
        }
        Some(s)
    }

    /// One GET against the search endpoint: the query, English results,
    /// twenty per page, `start` at `page * 20`, duplicates unfiltered.
    pub fn build_request(&self, query: &str, page: usize) -> (r: HttpRequest)
        requires
            page <= 100_000_000,
        ensures
            r.method is Get,
            r.url@ == "https://www.google.com/search"@,
            r.params_view() == seq![
                ("q"@, query@),
                ("hl"@, "en-US"@),
                ("num"@, dec_of(20)),
                ("start"@, dec_of((page * 20) as nat)),
                ("filter"@, "0"@),
            ],
            r.headers_view() == seq![("User-Agent"@, "Lynx/2.8.6rel.5 libwww-FM/2.14"@)],
            r.form_view() == Seq::<(Seq<char>, Seq<char>)>::empty(),
    {
        let mut r = HttpRequest::get("https://www.google.com/search".to_owned());
        r.param("q", query.to_owned());
        r.param("hl", "en-US".to_owned());
        r.param("num", dec_string_usize(GOOGLE_PER_PAGE));
        r.param("start", dec_string_usize(page * GOOGLE_PER_PAGE));
        r.param("filter", "0".to_owned());
        r.header("User-Agent", "Lynx/2.8.6rel.5 libwww-FM/2.14".to_owned());
        proof {
            assert(r.params_view() =~= seq![
                ("q"@, query@),
                ("hl"@, "en-US"@),
                ("num"@, dec_of(20)),
                ("start"@, dec_of((page * 20) as nat)),
                ("filter"@, "0"@),
            ]);
            assert(r.headers_view() =~= seq![
                ("User-Agent"@, "Lynx/2.8.6rel.5 libwww-FM/2.14"@),
            ]);
        }
        r
    }

    /// What one result page yields: every capture of the pattern.
    pub fn extract(&self, body: &str) -> (out: DomainSet)
        ensures
            out.wf(),
            out@ == extract_set(body@, self.domain@, google_pattern()),
            body@.len() == 0 ==> out@ == Set::<Seq<char>>::empty(),
    {
        proof {
            reveal_strlit("<span");
            reveal_strlit("</span>");
        }
        let p = BlockPattern {
            open_tag: "<span".to_owned(),
            skip_gt: true,
            cap: CapKind::ClassChars,
            ws: true,
            lit: "&#8250;".to_owned(),
            filler: true,
            close_tag: "</span>".to_owned(),
        };
        proof {
            if body@.len() == 0 {
                assert(body@ =~= Seq::<char>::empty());
                lemma_extract_empty(self.domain@, p@);
            }
        }
        scan_blocks(body, self.domain.as_str(), &p)
    }

    /// Pause between rounds, in milliseconds.
    pub fn delay_millis(&self) -> (r: u64)
        ensures
            r == 500,
    {
        500
    }
}

} // verus!
