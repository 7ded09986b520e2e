//! The HackerTarget source: a single fetch of a CSV-like listing, one
//! `hostname,address` pair per line.

use vstd::prelude::*;

use crate::domains::DomainSet;
use crate::enumerate::Settings;
use crate::request::HttpRequest;
use crate::text::{find_char_from, is_first_char_at, is_line};

verus! {

/// Subdomains are read from HackerTarget's host-search API.
pub struct HackerTarget {
    pub domain: String,
}

/// Line `[i, j)` of `b` has a comma, and `h` is the text before the first
/// one: the hostname field.
pub open spec fn line_host_field(b: Seq<char>, i: int, j: int, h: Seq<char>) -> bool {
    &&& is_line(b, i, j)
    &&& exists|k: int|
        #![trigger b[k]]
        i <= k < j && b[k] == ',' && (forall|k2: int| i <= k2 < k ==> b[k2] != ',') && h
            == b.subrange(i, k)
}

/// What the listing yields: the first comma-separated field of every line
/// that has a comma.
pub open spec fn hackertarget_set(b: Seq<char>) -> Set<Seq<char>> {
    Set::new(|h: Seq<char>| exists|i: int, j: int| line_host_field(b, i, j, h))
}

/// For one line, the hostname field is unique.
proof fn lemma_host_field_unique(b: Seq<char>, i: int, j1: int, j2: int, h1: Seq<char>, h2: Seq<char>)
    requires
        line_host_field(b, i, j1, h1),
        line_host_field(b, i, j2, h2),
    ensures
        h1 == h2,
{
    crate::text::lemma_line_end_unique(b, i, j1, j2);
    let k1 = choose|k: int|
        #![trigger b[k]]
        i <= k < j1 && b[k] == ',' && (forall|k2: int| i <= k2 < k ==> b[k2] != ',') && h1
            == b.subrange(i, k);
    let k2 = choose|k: int|
        #![trigger b[k]]
        i <= k < j2 && b[k] == ',' && (forall|k2: int| i <= k2 < k ==> b[k2] != ',') && h2
            == b.subrange(i, k);
    assert(k1 == k2);
}

/// An empty listing yields the empty set.
pub proof fn lemma_hackertarget_empty()
    ensures
        hackertarget_set(Seq::<char>::empty()) == Set::<Seq<char>>::empty(),
{
    let b = Seq::<char>::empty();
    assert forall|h: Seq<char>| !hackertarget_set(b).contains(h) by {
        if exists|i: int, j: int| line_host_field(b, i, j, h) {
            let (i, j) = choose|i: int, j: int| line_host_field(b, i, j, h);
            let k = choose|k: int|
                #![trigger b[k]]
                i <= k < j && b[k] == ',' && (forall|k2: int| i <= k2 < k ==> b[k2] != ',') && h
                    == b.subrange(i, k);
            assert(false);
        }
    }
    assert(hackertarget_set(b) =~= Set::<Seq<char>>::empty());
}

impl HackerTarget {
    pub fn new(domain: &str) -> (s: Self)
        ensures
            s.domain@ == domain@,
    {
        HackerTarget { domain: domain.to_owned() }
    }

    /// The immutable descriptor of this source. One round only.
    pub fn settings(&self) -> (st: Settings)
        ensures
            st.name@ == "HackerTarget"@,
            st.base_url@ == "https://api.hackertarget.com/hostsearch/"@,
            st.user_agent@ == ""@,
            st.max_rounds == 1,
    {
        Settings {
            name: "HackerTarget".to_owned(),
            base_url: "https://api.hackertarget.com/hostsearch/".to_owned(),
            user_agent: "".to_owned(),
            max_rounds: 1,
        }
    }

    /// The next query: the bare domain. The query does not depend on what
    /// was found so far.
    pub fn next_query(&self, _subs: &DomainSet) -> (q: Option<String>)
        ensures
            match q {
                Some(s) => s@ == self.domain@,
                None => false,
            },
    {
        Some(self.domain.clone())
    }

    /// One GET against the host-search API, the domain under `q`.
    pub fn build_request(&self, query: &str, _page: usize) -> (r: HttpRequest)
        ensures
            r.method is Get,
            r.url@ == "https://api.hackertarget.com/hostsearch/"@,
            r.params_view() == seq![("q"@, query@)],
            r.headers_view() == Seq::<(Seq<char>, Seq<char>)>::empty(),
            r.form_view() == Seq::<(Seq<char>, Seq<char>)>::empty(),
    {
        let mut r = HttpRequest::get("https://api.hackertarget.com/hostsearch/".to_owned());
        r.param("q", query.to_owned());
        proof {
            assert(r.params_view() =~= seq![("q"@, query@)]);
        }
        r
    }

    /// What the listing yields: the hostname field of every line that has
    /// one.
    #[verifier::loop_isolation(false)]
    pub fn extract(&self, body: &str) -> (out: DomainSet)
        ensures
            out.wf(),
            out@ == hackertarget_set(body@),
            body@.len() == 0 ==> out@ == Set::<Seq<char>>::empty(),
    {
        let b_len = body.unicode_len();
        let mut out = DomainSet::new();
        let mut start: usize = 0;
        proof {
            assert(out@ =~= Set::new(
                |h: Seq<char>|
                    exists|i: int, j: int| line_host_field(body@, i, j, h) && i < start,
            ));
        }
        loop
            invariant
                start <= b_len,
                start == 0 || body@[start - 1] == '\n',
                out.wf(),
                out@ == Set::new(
                    |h: Seq<char>|
                        exists|i: int, j: int| line_host_field(body@, i, j, h) && i < start,
                ),
            decreases b_len - start,
        {
            let line_end = match find_char_from(body, '\n', start) {
                Some(m) => m,
                None => b_len,
            };
            proof {
                assert(is_line(body@, start as int, line_end as int));
            }
            let ghost pre = out@;
            match find_char_from(body, ',', start) {
                Some(c) if c < line_end => {
                    let h = body.substring_char(start, c).to_owned();
                    proof {
                        assert(line_host_field(body@, start as int, line_end as int, h@));
                    }
                    out.insert(h);
                    proof {
                        assert forall|x: Seq<char>|
                            #[trigger] out@.contains(x) == (exists|i: int, j: int|
                                line_host_field(body@, i, j, x) && i < line_end + 1) by {
                            if out@.contains(x) {
                                if x == h@ {
                                    assert(line_host_field(
                                        body@,
                                        start as int,
                                        line_end as int,
                                        x,
                                    ));
                                }
                            }
                            if exists|i: int, j: int|
                                line_host_field(body@, i, j, x) && i < line_end + 1 {
                                let (i, j) = choose|i: int, j: int|
                                    line_host_field(body@, i, j, x) && i < line_end + 1;
                                if i < start {
                                    assert(pre.contains(x));
                                } else if i == start {
                                    lemma_host_field_unique(
                                        body@,
                                        i,
                                        j,
                                        line_end as int,
                                        x,
                                        h@,
                                    );
                                } else {
                                    assert(body@[i - 1] == '\n');
                                    assert(false);
                                }
                            }
                        }
                        assert(out@ =~= Set::new(
                            |h2: Seq<char>|
                                exists|i: int, j: int|
                                    line_host_field(body@, i, j, h2) && i < line_end + 1,
                        ));
                    }
                },
                _ => {
                    proof {
                        assert forall|x: Seq<char>|
                            #[trigger] out@.contains(x) == (exists|i: int, j: int|
                                line_host_field(body@, i, j, x) && i < line_end + 1) by {
                            if exists|i: int, j: int|
                                line_host_field(body@, i, j, x) && i < line_end + 1 {
                                let (i, j) = choose|i: int, j: int|
                                    line_host_field(body@, i, j, x) && i < line_end + 1;
                                if i < start {
                                    assert(pre.contains(x));
                                } else if i == start {
                                    crate::text::lemma_line_end_unique(
                                        body@,
                                        i,
                                        j,
                                        line_end as int,
                                    );
                                    let k = choose|k: int|
                                        #![trigger body@[k]]
                                        i <= k < j && body@[k] == ',' && (forall|k2: int|
                                            i <= k2 < k ==> body@[k2] != ',') && x
                                            == body@.subrange(i, k);
                                    assert(false);
                                } else {
                                    assert(body@[i - 1] == '\n');
                                    assert(false);
                                }
                            }
                        }
                        assert(out@ =~= Set::new(
                            |h2: Seq<char>|
                                exists|i: int, j: int|
                                    line_host_field(body@, i, j, h2) && i < line_end + 1,
                        ));
                    }
                },
            }
            if line_end == b_len {
                proof {
                    assert forall|x: Seq<char>|
                        #[trigger] out@.contains(x) == hackertarget_set(body@).contains(x) by {
                        if hackertarget_set(body@).contains(x) {
                            let (i, j) = choose|i: int, j: int| line_host_field(body@, i, j, x);
                            assert(i <= b_len);
                            if i > line_end {
                                assert(body@[i - 1] == '\n');
                                assert(false);
                            }
                        }
                    }
                    assert(out@ =~= hackertarget_set(body@));
                }
                proof {
                    if body@.len() == 0 {
                        assert(body@ =~= Seq::<char>::empty());
                        lemma_hackertarget_empty();
                    }
                }
                return out;
            }
            start = line_end + 1;
        }
    }

    /// No pause: this source runs once.
    pub fn delay_millis(&self) -> (r: u64)
        ensures
            r == 0,
    {
        0
    }
}

} // verus!
