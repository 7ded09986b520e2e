//! The DNSDumpster source: a preflight GET against the human-facing page
//! yields an authorization token, scraped out of the HTML; the token then
//! authorizes one POST against the API, whose HTML table holds the
//! hostnames. A failed scrape yields an empty token, which the remote
//! rejects; that rejection is the intended signal.

use vstd::prelude::*;

use crate::domains::DomainSet;
use crate::enumerate::{default_user_agent, Settings};
use crate::extract::{extract_set, lemma_extract_empty, scan_blocks, BlockPattern, CapKind, PatternSpec};
use crate::request::HttpRequest;
use crate::text::{
    find_from, is_alnum_char, is_space_char, is_space_char_exec, occurs_at, occurs_at_exec,
};

verus! {

/// Subdomains are read from DNSDumpster's rendered results table.
pub struct DNSDumpster {
    pub domain: String,
}

/// The literal that precedes the authorization token in the preflight HTML.
pub open spec fn token_pre() -> Seq<char> {
    "hx-headers='{\"Authorization\":"@
}

/// The characters a token is made of.
pub open spec fn is_token_char(c: char) -> bool {
    is_alnum_char(c) || c == '_' || c == '.' || c == '-'
}

/// Check whether `c` may stand in a token.
pub fn is_token_char_exec(c: char) -> (r: bool)
    ensures
        r == is_token_char(c),
{
    crate::text::is_alnum_char_exec(c) || c == '_' || c == '.' || c == '-'
}

/// Starting at `s`, whitespace runs to `w`, a double quote stands at `w`,
/// token characters fill `(w, e)` nonempty, and `"}'` closes at `e`.
pub open spec fn token_span(b: Seq<char>, s: int, w: int, e: int) -> bool {
    &&& s <= w < b.len()
    &&& forall|k: int| s <= k < w ==> is_space_char(#[trigger] b[k])
    &&& b[w] == '"'
    &&& w + 1 < e <= b.len()
    &&& forall|k: int| w + 1 <= k < e ==> is_token_char(#[trigger] b[k])
    &&& occurs_at(b, "\"}'"@, e)
}

/// The token marker matches at `i` and the token text is `t`.
pub open spec fn token_at(b: Seq<char>, i: int, t: Seq<char>) -> bool {
    &&& occurs_at(b, token_pre(), i)
    &&& exists|w: int, e: int|
        #![trigger token_span(b, i + token_pre().len(), w, e)]
        token_span(b, i + token_pre().len(), w, e) && t == b.subrange(w + 1, e)
}

/// Scrape the authorization token out of the preflight HTML: the first
/// occurrence of the marker that is followed by a well-formed quoted token.
#[verifier::loop_isolation(false)]
pub fn scrape_token(body: &str) -> (r: Option<String>)
    ensures
        match r {
            Some(t) => exists|i: int|
                #![trigger token_at(body@, i, t@)]
                token_at(body@, i, t@) && forall|i2: int, t2: Seq<char>|
                    i2 < i ==> !token_at(body@, i2, t2),
            None => forall|i: int, t: Seq<char>| !token_at(body@, i, t),
        },
{
    proof {
        reveal_strlit("hx-headers='{\"Authorization\":");
        reveal_strlit("\"}'");
    }
    let b_len = body.unicode_len();
    let pre = "hx-headers='{\"Authorization\":";
    let pre_len = pre.unicode_len();
    let mut start: usize = 0;
    loop
        invariant
            start <= b_len + 1,
            forall|i2: int, t2: Seq<char>| i2 < start ==> !token_at(body@, i2, t2),
        decreases b_len + 1 - start,
    {
        let i = match find_from(body, pre, start) {
            Some(m) => m,
            None => {
                proof {
                    assert forall|i2: int, t2: Seq<char>| !token_at(body@, i2, t2) by {
                        if i2 >= start {
                            assert(!occurs_at(body@, token_pre(), i2));
                        }
                    }
                }
                return None;
            },
        };
        proof {
            assert forall|i2: int, t2: Seq<char>| i2 < i implies !token_at(body@, i2, t2) by {
                if i2 >= start {
                    assert(!occurs_at(body@, token_pre(), i2));
                }
            }
        }
        let cap_s = i + pre_len;
        let mut w = cap_s;
        loop
            invariant
                cap_s <= w <= b_len,
                forall|k: int| cap_s <= k < w ==> is_space_char(#[trigger] body@[k]),
            decreases b_len - w,
        {
            if w == b_len {
                break;
            }
            if !is_space_char_exec(body.get_char(w)) {
                break;
            }
            w += 1;
        }
        let mut found: Option<String> = None;
        if w < b_len && body.get_char(w) == '"' {
            let mut e = w + 1;
            loop
                invariant
                    w + 1 <= e <= b_len,
                    forall|k: int| w + 1 <= k < e ==> is_token_char(#[trigger] body@[k]),
                decreases b_len - e,
            {
                if e == b_len {
                    break;
                }
                if !is_token_char_exec(body.get_char(e)) {
                    break;
                }
                e += 1;
            }
            if e > w + 1 && occurs_at_exec(body, "\"}'", e) {
                let t = body.substring_char(w + 1, e).to_owned();
                proof {
                    assert(token_span(body@, cap_s as int, w as int, e as int));
                    assert(token_at(body@, i as int, t@));
                }
                found = Some(t);
            } else {
                proof {
                    assert(e == b_len || !is_token_char(body@[e as int]));
                    assert forall|t2: Seq<char>| !token_at(body@, i as int, t2) by {
                        if token_at(body@, i as int, t2) {
                            let (w2, e2) = choose|w2: int, e2: int|
                                #![trigger token_span(body@, cap_s as int, w2, e2)]
                                token_span(body@, cap_s as int, w2, e2) && t2 == body@.subrange(
                                    w2 + 1,
                                    e2,
                                );
                            assert(w2 == w) by {
                                if w2 < w {
                                    assert(body@[w2] == '"');
                                    assert(is_space_char(body@[w2]));
                                } else if w2 > w {
                                    assert(is_space_char(body@[w as int]));
                                }
                            }
                            assert(e2 <= e) by {
                                if e2 > e {
                                    assert(is_token_char(body@[e as int]));
                                }
                            }
                            if e2 < e {
                                assert(body@.subrange(e2, e2 + 3)[0] == body@[e2]);
                                assert(is_token_char(body@[e2]));
                                assert(false);
                            }
                            assert(e2 == e as int);
                            assert(e > w + 1);
                            assert(occurs_at(body@, "\"}'"@, e as int));
                            assert(false);
                        }
                    }
                }
            }
        } else {
            proof {
                assert forall|t2: Seq<char>| !token_at(body@, i as int, t2) by {
                    if token_at(body@, i as int, t2) {
                        let (w2, e2) = choose|w2: int, e2: int|
                            #![trigger token_span(body@, cap_s as int, w2, e2)]
                            token_span(body@, cap_s as int, w2, e2) && t2 == body@.subrange(
                                w2 + 1,
                                e2,
                            );
                        if w2 < w {
                            assert(body@[w2] == '"');
                            assert(is_space_char(body@[w2]));
                            assert(false);
                        } else if w2 > w {
                            assert(w < b_len);
                            assert(is_space_char(body@[w as int]));
                            assert(false);
                        } else {
                            assert(w < b_len);
                            assert(body@[w as int] == '"');
                            assert(false);
                        }
                    }
                }
            }
        }
        match found {
            Some(t) => {
                return Some(t);
            },
            None => {
                start = i + 1;
            },
        }
    }
}

/// The block pattern result tables are scanned with: a table cell holding a
/// hostname.
pub open spec fn dnsdumpster_pattern() -> PatternSpec {
    PatternSpec {
        open_tag: "<td>"@,
        skip_gt: false,
        cap: CapKind::AnyChars,
        ws: false,
        lit: ""@,
        filler: false,
        close_tag: "</td>"@,
    }
}

impl DNSDumpster {
    pub fn new(domain: &str) -> (s: Self)
        ensures
            s.domain@ == domain@,
    {
        DNSDumpster { domain: domain.to_owned() }
    }

    /// The immutable descriptor of this source. One round only.
    pub fn settings(&self) -> (st: Settings)
        ensures
            st.name@ == "DNSDumpster"@,
            st.base_url@ == "https://dnsdumpster.com"@,
            st.user_agent@ == "Mozilla/5.0 (Windows NT 10.0; Win64; x64) AppleWebKit/537.36 (KHTML, like Gecko) Chrome/133.0.0.0 Safari/537.36"@,
            st.max_rounds == 1,
    {
        Settings {
            name: "DNSDumpster".to_owned(),
            base_url: "https://dnsdumpster.com".to_owned(),
            user_agent: default_user_agent(),
            max_rounds: 1,
        }
    }

    /// The next query: the bare domain. The query does not depend on what
    /// was found so far.
    pub fn next_query(&self, _subs: &DomainSet) -> (q: Option<String>)
        ensures
            match q {
                Some(s) => s@ == self.domain@,
                None => false,
            },
    {
        Some(self.domain.clone())
    }

    /// The preflight GET against the human-facing page, whose body holds the
    /// authorization token.
    pub fn preflight_request(&self) -> (r: HttpRequest)
        ensures
            r.method is Get,
            r.url@ == "https://dnsdumpster.com"@,
            r.params_view() == Seq::<(Seq<char>, Seq<char>)>::empty(),
            r.headers_view() == seq![("Referer"@, "https://dnsdumpster.com"@)],
            r.form_view() == Seq::<(Seq<char>, Seq<char>)>::empty(),
    {
        let mut r = HttpRequest::get("https://dnsdumpster.com".to_owned());
        r.header("Referer", "https://dnsdumpster.com".to_owned());
        proof {
            assert(r.headers_view() =~= seq![("Referer"@, "https://dnsdumpster.com"@)]);
        }
        r
    }

    /// The main POST against the API: the domain as the form target, the
    /// scraped token as the authorization header. An empty token is sent as
    /// is; the remote answers 401, which drives the retry path.
    pub fn build_request(&self, _query: &str, _page: usize, token: &str) -> (r: HttpRequest)
        ensures
            r.method is Post,
            r.url@ == "https://api.dnsdumpster.com/htmld/"@,
            r.params_view() == Seq::<(Seq<char>, Seq<char>)>::empty(),
            r.headers_view() == seq![
                ("Accept"@, "text/html"@),
                ("Authorization"@, token@),
                ("HX-Current-URL"@, "https://dnsdumpster.com"@),
                ("HX-Request"@, "true"@),
                ("HX-Target"@, "results"@),
                ("Origin"@, "https://dnsdumpster.com"@),
                ("Referer"@, "https://dnsdumpster.com"@),
                ("User-Agent"@, "Mozilla/5.0 (Windows NT 10.0; Win64; x64) AppleWebKit/537.36 (KHTML, like Gecko) Chrome/133.0.0.0 Safari/537.36"@),
            ],
            r.form_view() == seq![("target"@, self.domain@)],
    {
        let mut r = HttpRequest::post("https://api.dnsdumpster.com/htmld/".to_owned());
        r.form_field("target", self.domain.clone());
        r.header("Accept", "text/html".to_owned());
        r.header("Authorization", token.to_owned());
        r.header("HX-Current-URL", "https://dnsdumpster.com".to_owned());
        r.header("HX-Request", "true".to_owned());
        r.header("HX-Target", "results".to_owned());
        r.header("Origin", "https://dnsdumpster.com".to_owned());
        r.header("Referer", "https://dnsdumpster.com".to_owned());
        r.header("User-Agent", default_user_agent());
        proof {
            assert(r.headers_view() =~= seq![
                ("Accept"@, "text/html"@),
                ("Authorization"@, token@),
                ("HX-Current-URL"@, "https://dnsdumpster.com"@),
                ("HX-Request"@, "true"@),
                ("HX-Target"@, "results"@),
                ("Origin"@, "https://dnsdumpster.com"@),
                ("Referer"@, "https://dnsdumpster.com"@),
                ("User-Agent"@, "Mozilla/5.0 (Windows NT 10.0; Win64; x64) AppleWebKit/537.36 (KHTML, like Gecko) Chrome/133.0.0.0 Safari/537.36"@),
            ]);
            assert(r.form_view() =~= seq![("target"@, self.domain@)]);
        }
        r
    }

    /// What one result table yields: every capture of the pattern.
    pub fn extract(&self, body: &str) -> (out: DomainSet)
        ensures
            out.wf(),
            out@ == extract_set(body@, self.domain@, dnsdumpster_pattern()),
            body@.len() == 0 ==> out@ == Set::<Seq<char>>::empty(),
    {
        proof {
            reveal_strlit("<td>");
            reveal_strlit("</td>");
        }
        let p = BlockPattern {
            open_tag: "<td>".to_owned(),
            skip_gt: false,
            cap: CapKind::AnyChars,
            ws: false,
            lit: "".to_owned(),
            filler: false,
            close_tag: "</td>".to_owned(),
        };
        proof {
            if body@.len() == 0 {
                assert(body@ =~= Seq::<char>::empty());
                lemma_extract_empty(self.domain@, p@);
            }
        }
        scan_blocks(body, self.domain.as_str(), &p)
    }

    /// No pause: this source runs once.
    pub fn delay_millis(&self) -> (r: u64)
        ensures
            r == 0,
    {
        0
    }
}

} // verus!
