//! The VirusTotal source: cursor-paginated fetches of the subdomain
//! relationships of the domain. The extractor remembers the page's `meta`
//! object, and the next query embeds its cursor; a page without a cursor
//! ends the stream.

use vstd::prelude::*;

use crate::domains::DomainSet;
use crate::enumerate::{default_user_agent, Settings};
use crate::json::{parse_virustotal, virustotal_page_of};
use crate::request::HttpRequest;
use crate::text::{dec_of, dec_of_int, dec_string_i64, dec_string_u64, dec_string_usize};

verus! {

/// Results requested per page.
pub const VIRUSTOTAL_PER_PAGE: usize = 10;

/// The `meta` object of the most recent page: its continuation cursor, if
/// the server issued one.
pub struct VtMeta {
    pub cursor: Option<String>,
}

/// Subdomains are read from VirusTotal's UI endpoint.
pub struct VirusTotal {
    pub domain: String,
    pub meta: Option<VtMeta>,
}

/// The view of the remembered meta object.
pub open spec fn vt_meta_view(meta: Option<VtMeta>) -> Option<Option<Seq<char>>> {
    match meta {
        Some(m) => Some(m.cursor.deep_view()),
        None => None,
    }
}

/// The relationships URL for domain `d`.
pub open spec fn vt_base_query(d: Seq<char>) -> Seq<char> {
    "https://www.virustotal.com/ui/domains/"@ + d + "/relationships/subdomains"@
}

/// The next query: the bare endpoint before the first page was seen; the
/// endpoint with the cursor after a page that issued one; nothing after a
/// page without a cursor.
pub open spec fn vt_next_query_spec(d: Seq<char>, meta: Option<VtMeta>) -> Option<Seq<char>> {
    match vt_meta_view(meta) {
        None => Some(vt_base_query(d)),
        Some(cursor) => match cursor {
            Some(c) => Some(vt_base_query(d) + "?cursor="@ + c),
            None => None,
        },
    }
}

/// What one page body yields: the ids of a well-shaped document, nothing
/// otherwise.
pub open spec fn vt_extract_spec(s: Seq<char>) -> Set<Seq<char>> {
    match virustotal_page_of(s) {
        Some(page) => page.0.to_set(),
        None => Set::<Seq<char>>::empty(),
    }
}

/// Collect parsed ids into a set. This is the whole of the logic applied to
/// the `data` part of a parsed page.
#[verifier::loop_isolation(false)]
pub fn collect_ids(ids: &Vec<String>) -> (out: DomainSet)
    ensures
        out.wf(),
        out@ == ids.deep_view().to_set(),
{
    let mut out = DomainSet::new();
    let n = ids.len();
    let mut i: usize = 0;
    proof {
        assert(out@ =~= ids.deep_view().take(0).to_set());
    }
    while i < n
        invariant
            i <= n,
            out.wf(),
            out@ == ids.deep_view().take(i as int).to_set(),
        decreases n - i,
    {
        let ghost pre = ids.deep_view().take(i as int);
        proof {
            assert(ids.deep_view().take(i + 1) =~= pre.push(ids.deep_view()[i as int]));
            pre.lemma_push_to_set_commute(ids.deep_view()[i as int]);
            assert(ids.deep_view()[i as int] == ids@[i as int]@);
        }
        out.insert(ids[i].clone());
        proof {
            assert(out@ =~= ids.deep_view().take(i + 1).to_set());
        }
        i += 1;
    }
    proof {
        assert(ids.deep_view().take(n as int) =~= ids.deep_view());
    }
    out
}

/// What the anti-abuse header encodes: the drawn entropy value, a fixed
/// middle, and the Unix timestamp, dash-separated.
pub open spec fn anti_abuse_payload(rv: int, t: nat) -> Seq<char> {
    dec_of_int(rv) + "-ZG9udCBiZSBldmls-"@ + dec_of(t)
}

/// What base64's standard engine encodes a string to.
pub uninterp spec fn base64_std_of(s: Seq<char>) -> Seq<char>;

/// Relies on base64's STANDARD engine: encodes the UTF-8 bytes of `s` with
/// the standard alphabet and padding. The result depends on `s` alone.
#[verifier::external_body]
fn base64_encode(s: &str) -> (r: String)
    ensures
        r@ == base64_std_of(s@),
{
    base64::Engine::encode(&base64::prelude::BASE64_STANDARD, s.as_bytes())
}

/// The anti-abuse header value, computed from the drawn entropy value `rv`
/// and the current Unix time `t`. The caller draws `rv`: `-1`, or the
/// rounded value of `1e10 * (1 + u mod 5e4)` for a uniform `u` in `[0, 1)`.
pub fn anti_abuse_header(rv: i64, t: u64) -> (r: String)
    requires
        rv > i64::MIN,
    ensures
        r@ == base64_std_of(anti_abuse_payload(rv as int, t as nat)),
{
    let mut s = dec_string_i64(rv);
    s.append("-ZG9udCBiZSBldmls-");
    s.append(dec_string_u64(t).as_str());
    proof {
        assert(s@ =~= anti_abuse_payload(rv as int, t as nat));
    }
    base64_encode(s.as_str())
}

impl VirusTotal {
    pub fn new(domain: &str) -> (s: Self)
        ensures
            s.domain@ == domain@,
            s.meta is None,
    {
        VirusTotal { domain: domain.to_owned(), meta: None }
    }

    /// The immutable descriptor of this source.
    pub fn settings(&self) -> (st: Settings)
        ensures
            st.name@ == "VirusTotal"@,
            st.base_url@ == "https://www.virustotal.com/ui/domains"@,
            st.user_agent@ == "Mozilla/5.0 (Windows NT 10.0; Win64; x64) AppleWebKit/537.36 (KHTML, like Gecko) Chrome/133.0.0.0 Safari/537.36"@,
            st.max_rounds == 15,
    {
        Settings {
            name: "VirusTotal".to_owned(),
            base_url: "https://www.virustotal.com/ui/domains".to_owned(),
            user_agent: default_user_agent(),
            max_rounds: 15,
        }
    }

    /// The next query, driven by the remembered cursor; nothing once a page
    /// came without one.
    pub fn next_query(&self, _subs: &DomainSet) -> (q: Option<String>)
        ensures
            q.deep_view() == vt_next_query_spec(self.domain@, self.meta),
    {
        let cursor = match &self.meta {
            None => None,
            Some(m) => match &m.cursor {
                Some(c) => Some(c.clone()),
                None => {
                    return None;
                },
            },
        };
        let mut s = String::from_str("https://www.virustotal.com/ui/domains/");
        s.append(self.domain.as_str());
        s.append("/relationships/subdomains");
        match cursor {
            Some(c) => {
                s.append("?cursor=");
                s.append(c.as_str());
                Some(s)
            },
            None => Some(s),
        }
    }

    /// One GET against the URL handed over as the query, with the page
    /// size, the UI headers, and the caller-computed anti-abuse header.
    pub fn build_request(&self, query: &str, _page: usize, anti_abuse: &str) -> (r: HttpRequest)
        ensures
            r.method is Get,
            r.url@ == query@,
            r.params_view() == seq![("limit"@, dec_of(10))],
            r.headers_view() == seq![
                ("User-Agent"@, "Mozilla/5.0 (Windows NT 10.0; Win64; x64) AppleWebKit/537.36 (KHTML, like Gecko) Chrome/133.0.0.0 Safari/537.36"@),
                ("accept"@, "application/json"@),
                ("accept-ianguage"@, "en-US,en;q=0.9,es;q=0.8"@),
                ("accept-language"@, "en-US,en;q=0.8"@),
                ("x-app-version"@, "v1x356x0"@),
                ("x-tool"@, "vt-ui-main"@),
                ("X-VT-Anti-Abuse-Header"@, anti_abuse@),
            ],
            r.form_view() == Seq::<(Seq<char>, Seq<char>)>::empty(),
    {
        let mut r = HttpRequest::get(query.to_owned());
        r.param("limit", dec_string_usize(VIRUSTOTAL_PER_PAGE));
        r.header("User-Agent", default_user_agent());
        r.header("accept", "application/json".to_owned());
        r.header("accept-ianguage", "en-US,en;q=0.9,es;q=0.8".to_owned());
        r.header("accept-language", "en-US,en;q=0.8".to_owned());
        r.header("x-app-version", "v1x356x0".to_owned());
        r.header("x-tool", "vt-ui-main".to_owned());
        r.header("X-VT-Anti-Abuse-Header", anti_abuse.to_owned());
        proof {
            assert(r.params_view() =~= seq![("limit"@, dec_of(10))]);
            assert(r.headers_view() =~= seq![
                ("User-Agent"@, "Mozilla/5.0 (Windows NT 10.0; Win64; x64) AppleWebKit/537.36 (KHTML, like Gecko) Chrome/133.0.0.0 Safari/537.36"@),
                ("accept"@, "application/json"@),
                ("accept-ianguage"@, "en-US,en;q=0.9,es;q=0.8"@),
                ("accept-language"@, "en-US,en;q=0.8"@),
                ("x-app-version"@, "v1x356x0"@),
                ("x-tool"@, "vt-ui-main"@),
                ("X-VT-Anti-Abuse-Header"@, anti_abuse@),
            ]);
        }
        r
    }

    /// What one page body yields: the ids of a well-shaped document, which
    /// also replaces the remembered meta object; a malformed document
    /// yields nothing and leaves the meta object alone.
    pub fn extract(&mut self, body: &str) -> (out: DomainSet)
        ensures
            out.wf(),
            out@ == vt_extract_spec(body@),
            body@.len() == 0 ==> out@ == Set::<Seq<char>>::empty(),
            final(self).domain == old(self).domain,
            vt_meta_view(final(self).meta) == match virustotal_page_of(body@) {
                Some(page) => Some(page.1),
                None => vt_meta_view(old(self).meta),
            },
    {
        match parse_virustotal(body) {
            Some(page) => {
                let (ids, cursor) = page;
                self.meta = Some(VtMeta { cursor });
                collect_ids(&ids)
            },
            None => DomainSet::new(),
        }
    }

    /// Pause a full second between rounds.
    pub fn delay_millis(&self) -> (r: u64)
        ensures
            r == 1000,
    {
        1000
    }
}

} // verus!
