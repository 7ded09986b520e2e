//! The RapidDNS source: a table of observed hostnames, fetched page by page
//! and scraped from the `<td>` cells.

use vstd::prelude::*;

use crate::domains::DomainSet;
use crate::enumerate::Settings;
use crate::extract::{extract_set, lemma_extract_empty, scan_blocks, BlockPattern, CapKind, PatternSpec};
use crate::request::HttpRequest;
use crate::text::{dec_of, dec_string_usize};

verus! {

/// Subdomains are read from RapidDNS's subdomain listing.
pub struct RapidDNS {
    pub domain: String,
}

/// The block pattern RapidDNS pages are scanned with: a table cell holding a
/// hostname.
pub open spec fn rapiddns_pattern() -> PatternSpec {
    PatternSpec {
        open_tag: "<td>"@,
        skip_gt: false,
        cap: CapKind::AnyChars,
        ws: false,
        lit: ""@,
        filler: false,
        close_tag: "</td>"@,
    }
}

impl RapidDNS {
    pub fn new(domain: &str) -> (s: Self)
        ensures
            s.domain@ == domain@,
    {
        RapidDNS { domain: domain.to_owned() }
    }

    /// The immutable descriptor of this source.
    pub fn settings(&self) -> (st: Settings)
        ensures
            st.name@ == "RapidDNS"@,
            st.base_url@ == "https://rapiddns.io/subdomain"@,
            st.user_agent@ == ""@,
            st.max_rounds == 10,
    {
        Settings {
            name: "RapidDNS".to_owned(),
            base_url: "https://rapiddns.io/subdomain".to_owned(),
            user_agent: "".to_owned(),
            max_rounds: 10,
        }
    }

    /// The next query: the listing URL for the domain. The query does not
    /// depend on what was found so far.
    pub fn next_query(&self, _subs: &DomainSet) -> (q: Option<String>)
        ensures
            match q {
                Some(s) => s@ == "https://rapiddns.io/subdomain/"@ + self.domain@,
                None => false,
            },
    {
        let mut s = String::from_str("https://rapiddns.io/subdomain/");
        s.append(self.domain.as_str());
        Some(s)
    }

    /// One GET against the listing URL handed over as the query, with the
    /// page index and the full listing switched on.
    pub fn build_request(&self, query: &str, page: usize) -> (r: HttpRequest)
        requires
            page <= 100_000_000,
        ensures
            r.method is Get,
            r.url@ == query@,
            r.params_view() == seq![
                ("page"@, dec_of(page as nat)),
                ("full"@, dec_of(1)),
            ],
            r.headers_view() == seq![("Accept"@, "text/html"@)],
            r.form_view() == Seq::<(Seq<char>, Seq<char>)>::empty(),
    {
        let mut r = HttpRequest::get(query.to_owned());
        r.param("page", dec_string_usize(page));
        r.param("full", dec_string_usize(1));
        r.header("Accept", "text/html".to_owned());
        proof {
            assert(r.params_view() =~= seq![
                ("page"@, dec_of(page as nat)),
                ("full"@, dec_of(1)),
            ]);
            assert(r.headers_view() =~= seq![("Accept"@, "text/html"@)]);
        }
        r
    }

    /// What one listing page yields: every capture of the pattern.
    pub fn extract(&self, body: &str) -> (out: DomainSet)
        ensures
            out.wf(),
            out@ == extract_set(body@, self.domain@, rapiddns_pattern()),
            body@.len() == 0 ==> out@ == Set::<Seq<char>>::empty(),
    {
        proof {
            reveal_strlit("<td>");
            reveal_strlit("</td>");
        }
        let p = BlockPattern {
            open_tag: "<td>".to_owned(),
            skip_gt: false,
            cap: CapKind::AnyChars,
            ws: false,
            lit: "".to_owned(),
            filler: false,
            close_tag: "</td>".to_owned(),
        };
        proof {
            if body@.len() == 0 {
                assert(body@ =~= Seq::<char>::empty());
                lemma_extract_empty(self.domain@, p@);
            }
        }
        scan_blocks(body, self.domain.as_str(), &p)
    }

    /// No pause between rounds.
    pub fn delay_millis(&self) -> (r: u64)
        ensures
            r == 0,
    {
        0
    }
}

} // verus!
