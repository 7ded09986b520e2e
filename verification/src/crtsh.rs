//! The crt.sh source: a single fetch of the certificate-transparency
//! records for the domain. Each record's `name_value` may hold several
//! hostnames joined by newlines; they are split apart and flattened.

use vstd::prelude::*;

use crate::domains::DomainSet;
use crate::enumerate::{default_user_agent, Settings};
use crate::json::{crtsh_name_values_of, parse_crtsh};
use crate::request::HttpRequest;
use crate::text::{find_char_from, is_line, lemma_line_end_unique};

verus! {

/// Subdomains are read from crt.sh's JSON endpoint.
pub struct CrtSh {
    pub domain: String,
}

/// `h` is one newline-delimited segment of `nv`.
pub open spec fn segment_of(nv: Seq<char>, h: Seq<char>) -> bool {
    exists|i: int, j: int| #[trigger] is_line(nv, i, j) && h == nv.subrange(i, j)
}

/// Every newline-delimited segment of every name value, flattened to a set.
pub open spec fn crtsh_segments(nvs: Seq<Seq<char>>) -> Set<Seq<char>> {
    Set::new(|h: Seq<char>| exists|t: int| 0 <= t < nvs.len() && segment_of(#[trigger] nvs[t], h))
}

/// What a crt.sh body yields: the flattened segments of a well-shaped
/// document; a malformed document yields nothing.
pub open spec fn crtsh_extract_spec(s: Seq<char>) -> Set<Seq<char>> {
    match crtsh_name_values_of(s) {
        Some(nvs) => crtsh_segments(nvs),
        None => Set::<Seq<char>>::empty(),
    }
}

/// Add every newline-delimited segment of `nv` to `out`.
#[verifier::loop_isolation(false)]
fn insert_segments(out: &mut DomainSet, nv: &str)
    requires
        old(out).wf(),
    ensures
        final(out).wf(),
        final(out)@ == old(out)@.union(Set::new(|h: Seq<char>| segment_of(nv@, h))),
{
    let b_len = nv.unicode_len();
    let mut start: usize = 0;
    proof {
        assert(out@ =~= old(out)@.union(
            Set::new(
                |h: Seq<char>|
                    exists|i: int, j: int| #[trigger] is_line(nv@, i, j) && i < start && h
                        == nv@.subrange(i, j),
            ),
        ));
    }
    loop
        invariant
            start <= b_len,
            start == 0 || nv@[start - 1] == '\n',
            out.wf(),
            out@ == old(out)@.union(
                Set::new(
                    |h: Seq<char>|
                        exists|i: int, j: int| #[trigger] is_line(nv@, i, j) && i < start && h
                            == nv@.subrange(i, j),
                ),
            ),
        decreases b_len - start,
    {
        let line_end = match find_char_from(nv, '\n', start) {
            Some(m) => m,
            None => b_len,
        };
        proof {
            assert(is_line(nv@, start as int, line_end as int));
        }
        let ghost pre = out@;
        let h = nv.substring_char(start, line_end).to_owned();
        out.insert(h);
        proof {
            assert forall|x: Seq<char>|
                #[trigger] out@.contains(x) == (old(out)@.contains(x) || exists|i: int, j: int|
                    #[trigger] is_line(nv@, i, j) && i < line_end + 1 && x == nv@.subrange(
                        i,
                        j,
                    )) by {
                if out@.contains(x) {
                    if x == nv@.subrange(start as int, line_end as int) {
                        assert(is_line(nv@, start as int, line_end as int) && (start as int)
                            < line_end + 1 && x == nv@.subrange(start as int, line_end as int));
                    }
                }
                if exists|i: int, j: int|
                    #[trigger] is_line(nv@, i, j) && i < line_end + 1 && x == nv@.subrange(i, j) {
                    let (i, j) = choose|i: int, j: int|
                        #[trigger] is_line(nv@, i, j) && i < line_end + 1 && x == nv@.subrange(
                            i,
                            j,
                        );
                    if i < start {
                        assert(pre.contains(x));
                    } else if i == start {
                        lemma_line_end_unique(nv@, i, j, line_end as int);
                        assert(out@.contains(x));
                    } else {
                        assert(nv@[i - 1] == '\n');
                        assert(false);
                    }
                }
            }
            assert(out@ =~= old(out)@.union(
                Set::new(
                    |h2: Seq<char>|
                        exists|i: int, j: int| #[trigger] is_line(nv@, i, j) && i < line_end + 1
                            && h2 == nv@.subrange(i, j),
                ),
            ));
        }
        if line_end == b_len {
            proof {
                assert forall|x: Seq<char>|
                    #[trigger] out@.contains(x) == (old(out)@.contains(x) || segment_of(nv@, x)) by {
                    if segment_of(nv@, x) {
                        let (i, j) = choose|i: int, j: int|
                            #[trigger] is_line(nv@, i, j) && x == nv@.subrange(i, j);
                        if i > line_end {
                            assert(nv@[i - 1] == '\n');
                            assert(false);
                        }
                    }
                }
                assert(out@ =~= old(out)@.union(Set::new(|h2: Seq<char>| segment_of(nv@, h2))));
            }
            return ;
        }
        start = line_end + 1;
    }
}

/// Split every name value on newlines and flatten the parts to a set. This
/// is the whole of the logic applied to a parsed crt.sh document.
#[verifier::loop_isolation(false)]
pub fn split_name_values(nvs: &Vec<String>) -> (out: DomainSet)
    ensures
        out.wf(),
        out@ == crtsh_segments(nvs.deep_view()),
{
    let mut out = DomainSet::new();
    let n = nvs.len();
    let mut t: usize = 0;
    proof {
        assert(out@ =~= crtsh_segments(nvs.deep_view().take(0)));
    }
    while t < n
        invariant
            t <= n,
            out.wf(),
            out@ == crtsh_segments(nvs.deep_view().take(t as int)),
        decreases n - t,
    {
        let ghost pre = nvs.deep_view().take(t as int);
        let ghost cur = nvs.deep_view().take(t + 1);
        insert_segments(&mut out, nvs[t].as_str());
        proof {
            assert(nvs.deep_view()[t as int] == nvs@[t as int]@);
            assert forall|x: Seq<char>|
                #[trigger] out@.contains(x) == crtsh_segments(cur).contains(x) by {
                if out@.contains(x) {
                    if crtsh_segments(pre).contains(x) {
                        let t2 = choose|t2: int|
                            0 <= t2 < pre.len() && segment_of(#[trigger] pre[t2], x);
                        assert(cur[t2] == pre[t2]);
                        assert(segment_of(cur[t2], x));
                    } else {
                        assert(segment_of(cur[t as int], x));
                    }
                }
                if crtsh_segments(cur).contains(x) {
                    let t2 = choose|t2: int| 0 <= t2 < cur.len() && segment_of(#[trigger] cur[t2], x);
                    if t2 < t as int {
                        assert(pre[t2] == cur[t2]);
                        assert(segment_of(pre[t2], x));
                        assert(crtsh_segments(pre).contains(x));
                    } else {
                        assert(segment_of(nvs@[t as int]@, x));
                    }
                }
            }
            assert(out@ =~= crtsh_segments(cur));
        }
        t += 1;
    }
    proof {
        assert(nvs.deep_view().take(n as int) =~= nvs.deep_view());
    }
    out
}

impl CrtSh {
    pub fn new(domain: &str) -> (s: Self)
        ensures
            s.domain@ == domain@,
    {
        CrtSh { domain: domain.to_owned() }
    }

    /// The immutable descriptor of this source. One round only.
    pub fn settings(&self) -> (st: Settings)
        ensures
            st.name@ == "CrtSh"@,
            st.base_url@ == "https://crt.sh/json"@,
            st.user_agent@ == "Mozilla/5.0 (Windows NT 10.0; Win64; x64) AppleWebKit/537.36 (KHTML, like Gecko) Chrome/133.0.0.0 Safari/537.36"@,
            st.max_rounds == 1,
    {
        Settings {
            name: "CrtSh".to_owned(),
            base_url: "https://crt.sh/json".to_owned(),
            user_agent: default_user_agent(),
            max_rounds: 1,
        }
    }

    /// The next query: the bare domain. The query does not depend on what
    /// was found so far.
    pub fn next_query(&self, _subs: &DomainSet) -> (q: Option<String>)
        ensures
            match q {
                Some(s) => s@ == self.domain@,
                None => false,
            },
    {
        Some(self.domain.clone())
    }

    /// One GET against the JSON endpoint, the domain under `q`.
    pub fn build_request(&self, _query: &str, _page: usize) -> (r: HttpRequest)
        ensures
            r.method is Get,
            r.url@ == "https://crt.sh/json"@,
            r.params_view() == seq![("q"@, self.domain@)],
            r.headers_view() == seq![
                ("User-Agent"@, "Mozilla/5.0 (Windows NT 10.0; Win64; x64) AppleWebKit/537.36 (KHTML, like Gecko) Chrome/133.0.0.0 Safari/537.36"@),
            ],
            r.form_view() == Seq::<(Seq<char>, Seq<char>)>::empty(),
    {
        let mut r = HttpRequest::get("https://crt.sh/json".to_owned());
        r.param("q", self.domain.clone());
        r.header("User-Agent", default_user_agent());
        proof {
            assert(r.params_view() =~= seq![("q"@, self.domain@)]);
            assert(r.headers_view() =~= seq![
                ("User-Agent"@, "Mozilla/5.0 (Windows NT 10.0; Win64; x64) AppleWebKit/537.36 (KHTML, like Gecko) Chrome/133.0.0.0 Safari/537.36"@),
            ]);
        }
        r
    }

    /// What a crt.sh body yields: the flattened name-value segments of a
    /// well-shaped document, nothing otherwise.
    pub fn extract(&self, body: &str) -> (out: DomainSet)
        ensures
            out.wf(),
            out@ == crtsh_extract_spec(body@),
            body@.len() == 0 ==> out@ == Set::<Seq<char>>::empty(),
    {
        match parse_crtsh(body) {
            Some(nvs) => split_name_values(&nvs),
            None => DomainSet::new(),
        }
    }

    /// No pause: this source runs once.
    pub fn delay_millis(&self) -> (r: u64)
        ensures
            r == 0,
    {
        0
    }
}

} // verus!
