//! The AlienVault source: a single fetch of the passive-DNS records for the
//! domain. The records may name unrelated hosts, so the extractor keeps only
//! hostnames ending with the domain.

use vstd::prelude::*;

use crate::domains::DomainSet;
use crate::enumerate::Settings;
use crate::json::{alienvault_hosts_of, parse_alienvault};
use crate::request::HttpRequest;
use crate::text::{ends_with, ends_with_exec};

verus! {

/// Subdomains are read from AlienVault's passive-DNS endpoint.
pub struct AlienVault {
    pub domain: String,
}

/// The hostnames ending with `d`, as a set.
pub open spec fn hosts_on_domain(hosts: Seq<Seq<char>>, d: Seq<char>) -> Set<Seq<char>> {
    hosts.to_set().filter(|h: Seq<char>| ends_with(h, d))
}

/// What a passive-DNS body yields: the hostnames of a well-shaped document
/// that end with the domain; a malformed document yields nothing.
pub open spec fn alienvault_extract_spec(s: Seq<char>, d: Seq<char>) -> Set<Seq<char>> {
    match alienvault_hosts_of(s) {
        Some(hosts) => hosts_on_domain(hosts, d),
        None => Set::<Seq<char>>::empty(),
    }
}

/// Keep the hostnames that end with `d`. This is the whole of the logic
/// applied to a parsed passive-DNS document.
#[verifier::loop_isolation(false)]
pub fn filter_hosts_on_domain(hosts: &Vec<String>, d: &str) -> (out: DomainSet)
    ensures
        out.wf(),
        out@ == hosts_on_domain(hosts.deep_view(), d@),
{
    let mut out = DomainSet::new();
    let n = hosts.len();
    let mut i: usize = 0;
    proof {
        assert(out@ =~= hosts_on_domain(hosts.deep_view().take(0), d@));
    }
    while i < n
        invariant
            i <= n,
            out.wf(),
            out@ == hosts_on_domain(hosts.deep_view().take(i as int), d@),
        decreases n - i,
    {
        let ghost pre = hosts.deep_view().take(i as int);
        let ghost cur = hosts.deep_view().take(i + 1);
        proof {
            assert(cur =~= pre.push(hosts.deep_view()[i as int]));
            pre.lemma_push_to_set_commute(hosts.deep_view()[i as int]);
            assert(hosts.deep_view()[i as int] == hosts@[i as int]@);
        }
        if ends_with_exec(hosts[i].as_str(), d) {
            out.insert(hosts[i].clone());
        }
        proof {
            assert(out@ =~= hosts_on_domain(cur, d@));
        }
        i += 1;
    }
    proof {
        assert(hosts.deep_view().take(n as int) =~= hosts.deep_view());
    }
    out
}

impl AlienVault {
    pub fn new(domain: &str) -> (s: Self)
        ensures
            s.domain@ == domain@,
    {
        AlienVault { domain: domain.to_owned() }
    }

    /// The immutable descriptor of this source. One round only.
    pub fn settings(&self) -> (st: Settings)
        ensures
            st.name@ == "AlienVault"@,
            st.base_url@ == "https://otx.alienvault.com/api/v1/indicators/domain"@,
            st.user_agent@ == ""@,
            st.max_rounds == 1,
    {
        Settings {
            name: "AlienVault".to_owned(),
            base_url: "https://otx.alienvault.com/api/v1/indicators/domain".to_owned(),
            user_agent: "".to_owned(),
            max_rounds: 1,
        }
    }

    /// The next query: the full passive-DNS URL for the domain. The query
    /// does not depend on what was found so far.
    pub fn next_query(&self, _subs: &DomainSet) -> (q: Option<String>)
        ensures
            match q {
                Some(s) => s@ == "https://otx.alienvault.com/api/v1/indicators/domain/"@
                    + self.domain@ + "/passive_dns"@,
                None => false,
            },
    {
        let mut s = String::from_str("https://otx.alienvault.com/api/v1/indicators/domain/");
        s.append(self.domain.as_str());
        s.append("/passive_dns");
        Some(s)
    }

    /// One bare GET against the URL handed over as the query.
    pub fn build_request(&self, query: &str, _page: usize) -> (r: HttpRequest)
        ensures
            r.method is Get,
            r.url@ == query@,
            r.params_view() == Seq::<(Seq<char>, Seq<char>)>::empty(),
            r.headers_view() == Seq::<(Seq<char>, Seq<char>)>::empty(),
            r.form_view() == Seq::<(Seq<char>, Seq<char>)>::empty(),
    {
        HttpRequest::get(query.to_owned())
    }

    /// What a passive-DNS body yields: the on-domain hostnames of a
    /// well-shaped document, nothing otherwise.
    pub fn extract(&self, body: &str) -> (out: DomainSet)
        ensures
            out.wf(),
            out@ == alienvault_extract_spec(body@, self.domain@),
            body@.len() == 0 ==> out@ == Set::<Seq<char>>::empty(),
    {
        match parse_alienvault(body) {
            Some(hosts) => filter_hosts_on_domain(&hosts, self.domain.as_str()),
            None => DomainSet::new(),
        }
    }

    /// No pause: this source runs once.
    pub fn delay_millis(&self) -> (r: u64)
        ensures
            r == 0,
    {
        0
    }
}

} // verus!
