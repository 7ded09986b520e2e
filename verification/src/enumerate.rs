//! The per-source descriptor, the closed source registry, and the
//! enumeration state machine that drives one source through a bounded
//! sequence of rounds.

use vstd::prelude::*;

use crate::alienvault::{alienvault_extract_spec, AlienVault};
use crate::baidu::{baidu_pattern, baidu_query, Baidu};
use crate::bing::{bing_pattern, bing_query, Bing};
use crate::crtsh::{crtsh_extract_spec, CrtSh};
use crate::dnsdumpster::{dnsdumpster_pattern, DNSDumpster};
use crate::domains::DomainSet;
use crate::extract::{dot_dom, extract_set, lemma_match_ends_with_domain, match_at};
use crate::google::{google_pattern, google_query, Google};
use crate::hackertarget::{hackertarget_set, HackerTarget};
use crate::text::ends_with;
use crate::virustotal::{vt_extract_spec, vt_meta_view, vt_next_query_spec, VirusTotal};
use crate::yahoo::{yahoo_pattern, yahoo_query, Yahoo};

verus! {

/// Immutable descriptor of a source: display name, endpoint, user agent and
/// the hard cap on rounds.
pub struct Settings {
    pub name: String,
    pub base_url: String,
    pub user_agent: String,
    pub max_rounds: usize,
}

/// The user agent presented by sources that do not need a special one.
pub fn default_user_agent() -> (r: String)
    ensures
        r@ == "Mozilla/5.0 (Windows NT 10.0; Win64; x64) AppleWebKit/537.36 (KHTML, like Gecko) Chrome/133.0.0.0 Safari/537.36"@,
{
    "Mozilla/5.0 (Windows NT 10.0; Win64; x64) AppleWebKit/537.36 (KHTML, like Gecko) Chrome/133.0.0.0 Safari/537.36".to_owned()
}

/// The lowercase tags the sources are selected by: a closed enumeration.
#[derive(Clone, Copy, PartialEq, Eq, Structural, Debug)]
pub enum EngineTag {
    AlienVault,
    Baidu,
    Bing,
    CrtSh,
    DNSDumpster,
    Google,
    HackerTarget,
    VirusTotal,
    Yahoo,
}

/// One source behind the uniform four-operation contract: settings, query
/// construction, request shaping and extraction, with the adapter's own
/// state inside the variant payload.
pub enum Engine {
    AlienVault(AlienVault),
    Baidu(Baidu),
    Bing(Bing),
    CrtSh(CrtSh),
    DNSDumpster(DNSDumpster),
    Google(Google),
    HackerTarget(HackerTarget),
    VirusTotal(VirusTotal),
    Yahoo(Yahoo),
}

impl Engine {
    /// The tag of this source.
    pub open spec fn spec_tag(&self) -> EngineTag {
        match self {
            Engine::AlienVault(_) => EngineTag::AlienVault,
            Engine::Baidu(_) => EngineTag::Baidu,
            Engine::Bing(_) => EngineTag::Bing,
            Engine::CrtSh(_) => EngineTag::CrtSh,
            Engine::DNSDumpster(_) => EngineTag::DNSDumpster,
            Engine::Google(_) => EngineTag::Google,
            Engine::HackerTarget(_) => EngineTag::HackerTarget,
            Engine::VirusTotal(_) => EngineTag::VirusTotal,
            Engine::Yahoo(_) => EngineTag::Yahoo,
        }
    }

    /// The domain this source enumerates.
    pub open spec fn domain_view(&self) -> Seq<char> {
        match self {
            Engine::AlienVault(a) => a.domain@,
            Engine::Baidu(b) => b.domain@,
            Engine::Bing(b) => b.domain@,
            Engine::CrtSh(c) => c.domain@,
            Engine::DNSDumpster(d) => d.domain@,
            Engine::Google(g) => g.domain@,
            Engine::HackerTarget(h) => h.domain@,
            Engine::VirusTotal(v) => v.domain@,
            Engine::Yahoo(y) => y.domain@,
        }
    }

    /// The display name of this source.
    pub open spec fn spec_name(&self) -> Seq<char> {
        match self {
            Engine::AlienVault(_) => "AlienVault"@,
            Engine::Baidu(_) => "Baidu"@,
            Engine::Bing(_) => "Bing"@,
            Engine::CrtSh(_) => "CrtSh"@,
            Engine::DNSDumpster(_) => "DNSDumpster"@,
            Engine::Google(_) => "Google"@,
            Engine::HackerTarget(_) => "HackerTarget"@,
            Engine::VirusTotal(_) => "VirusTotal"@,
            Engine::Yahoo(_) => "Yahoo"@,
        }
    }

    /// The hard cap on rounds for this source.
    pub open spec fn spec_max_rounds(&self) -> usize {
        match self {
            Engine::AlienVault(_) => 1,
            Engine::Baidu(_) => 20,
            Engine::Bing(_) => 10,
            Engine::CrtSh(_) => 1,
            Engine::DNSDumpster(_) => 1,
            Engine::Google(_) => 20,
            Engine::HackerTarget(_) => 1,
            Engine::VirusTotal(_) => 15,
            Engine::Yahoo(_) => 50,
        }
    }

    /// The endpoint this source queries.
    pub open spec fn spec_base_url(&self) -> Seq<char> {
        match self {
            Engine::AlienVault(_) => "https://otx.alienvault.com/api/v1/indicators/domain"@,
            Engine::Baidu(_) => "https://www.baidu.com/s"@,
            Engine::Bing(_) => "https://www.bing.com/search"@,
            Engine::CrtSh(_) => "https://crt.sh/json"@,
            Engine::DNSDumpster(_) => "https://dnsdumpster.com"@,
            Engine::Google(_) => "https://www.google.com/search"@,
            Engine::HackerTarget(_) => "https://api.hackertarget.com/hostsearch/"@,
            Engine::VirusTotal(_) => "https://www.virustotal.com/ui/domains"@,
            Engine::Yahoo(_) => "https://search.yahoo.com/search"@,
        }
    }

    /// The user agent this source presents; empty where none is set.
    pub open spec fn spec_user_agent(&self) -> Seq<char> {
        match self {
            Engine::AlienVault(_) => ""@,
            Engine::Bing(_) => "Mozilla/5.0 (Windows NT 6.3; WOW64; Trident/7.0; Touch; rv:11.0) like Gecko"@,
            Engine::Google(_) => "Lynx/2.8.6rel.5 libwww-FM/2.14"@,
            Engine::HackerTarget(_) => ""@,
            _ => "Mozilla/5.0 (Windows NT 10.0; Win64; x64) AppleWebKit/537.36 (KHTML, like Gecko) Chrome/133.0.0.0 Safari/537.36"@,
        }
    }

    /// The pause between rounds, in milliseconds.
    pub open spec fn spec_delay_millis(&self) -> u64 {
        match self {
            Engine::AlienVault(_) => 0,
            Engine::Baidu(_) => 500,
            Engine::Bing(_) => 500,
            Engine::CrtSh(_) => 0,
            Engine::DNSDumpster(_) => 0,
            Engine::Google(_) => 500,
            Engine::HackerTarget(_) => 0,
            Engine::VirusTotal(_) => 1000,
            Engine::Yahoo(_) => 500,
        }
    }

    /// The sources that scrape hostnames out of HTML with an anchored
    /// pattern. Their extractions always end with `"." + domain`.
    pub open spec fn is_html_scraper(&self) -> bool {
        match self {
            Engine::Baidu(_) => true,
            Engine::Bing(_) => true,
            Engine::DNSDumpster(_) => true,
            Engine::Google(_) => true,
            Engine::Yahoo(_) => true,
            _ => false,
        }
    }

    /// The query this source sends next, given the hostnames found so far;
    /// nothing once the source's stream has ended.
    pub open spec fn spec_next_query(&self, subs: Seq<Seq<char>>) -> Option<Seq<char>> {
        match self {
            Engine::AlienVault(a) => Some(
                "https://otx.alienvault.com/api/v1/indicators/domain/"@ + a.domain@
                    + "/passive_dns"@,
            ),
            Engine::Baidu(b) => Some(baidu_query(b.domain@, subs)),
            Engine::Bing(b) => Some(bing_query(b.domain@, subs)),
            Engine::CrtSh(c) => Some(c.domain@),
            Engine::DNSDumpster(d) => Some(d.domain@),
            Engine::Google(g) => Some(google_query(g.domain@, subs)),
            Engine::HackerTarget(h) => Some(h.domain@),
            Engine::VirusTotal(v) => vt_next_query_spec(v.domain@, v.meta),
            Engine::Yahoo(y) => Some(yahoo_query(y.domain@, subs)),
        }
    }

    /// What this source extracts from one response body.
    pub open spec fn spec_extract(&self, body: Seq<char>) -> Set<Seq<char>> {
        match self {
            Engine::AlienVault(a) => alienvault_extract_spec(body, a.domain@),
            Engine::Baidu(b) => extract_set(body, b.domain@, baidu_pattern()),
            Engine::Bing(b) => extract_set(body, b.domain@, bing_pattern()),
            Engine::CrtSh(_) => crtsh_extract_spec(body),
            Engine::DNSDumpster(d) => extract_set(body, d.domain@, dnsdumpster_pattern()),
            Engine::Google(g) => extract_set(body, g.domain@, google_pattern()),
            Engine::HackerTarget(_) => hackertarget_set(body),
            Engine::VirusTotal(_) => vt_extract_spec(body),
            Engine::Yahoo(y) => extract_set(body, y.domain@, yahoo_pattern()),
        }
    }

    /// How extraction changes the adapter state: only the cursor-paginated
    /// source remembers anything; every other source is untouched.
    pub open spec fn extract_transition(pre: Engine, post: Engine, body: Seq<char>) -> bool {
        match pre {
            Engine::VirusTotal(v) => match post {
                Engine::VirusTotal(v2) => {
                    &&& v2.domain == v.domain
                    &&& vt_meta_view(v2.meta) == match crate::json::virustotal_page_of(body) {
                        Some(page) => Some(page.1),
                        None => vt_meta_view(v.meta),
                    }
                },
                _ => false,
            },
            _ => post == pre,
        }
    }

    /// Build the adapter for `tag` and `domain`.
    pub fn from_tag(tag: EngineTag, domain: &str) -> (e: Engine)
        ensures
            e.spec_tag() == tag,
            e.domain_view() == domain@,
            e.spec_tag() == EngineTag::VirusTotal ==> (e matches Engine::VirusTotal(v) && v.meta
                is None),
    {
        match tag {
            EngineTag::AlienVault => Engine::AlienVault(AlienVault::new(domain)),
            EngineTag::Baidu => Engine::Baidu(Baidu::new(domain)),
            EngineTag::Bing => Engine::Bing(Bing::new(domain)),
            EngineTag::CrtSh => Engine::CrtSh(CrtSh::new(domain)),
            EngineTag::DNSDumpster => Engine::DNSDumpster(DNSDumpster::new(domain)),
            EngineTag::Google => Engine::Google(Google::new(domain)),
            EngineTag::HackerTarget => Engine::HackerTarget(HackerTarget::new(domain)),
            EngineTag::VirusTotal => Engine::VirusTotal(VirusTotal::new(domain)),
            EngineTag::Yahoo => Engine::Yahoo(Yahoo::new(domain)),
        }
    }

    /// Every source, each built for `domain`.
    pub fn all(domain: &str) -> (v: Vec<Engine>)
        ensures
            v@.len() == 9,
            forall|k: int| 0 <= k < 9 ==> (#[trigger] v@[k]).domain_view() == domain@,
            v@.map_values(|e: Engine| e.spec_tag()) == seq![
                EngineTag::AlienVault,
                EngineTag::Baidu,
                EngineTag::Bing,
                EngineTag::CrtSh,
                EngineTag::DNSDumpster,
                EngineTag::Google,
                EngineTag::HackerTarget,
                EngineTag::VirusTotal,
                EngineTag::Yahoo,
            ],
    {
        let mut v: Vec<Engine> = Vec::new();
        v.push(Engine::from_tag(EngineTag::AlienVault, domain));
        v.push(Engine::from_tag(EngineTag::Baidu, domain));
        v.push(Engine::from_tag(EngineTag::Bing, domain));
        v.push(Engine::from_tag(EngineTag::CrtSh, domain));
        v.push(Engine::from_tag(EngineTag::DNSDumpster, domain));
        v.push(Engine::from_tag(EngineTag::Google, domain));
        v.push(Engine::from_tag(EngineTag::HackerTarget, domain));
        v.push(Engine::from_tag(EngineTag::VirusTotal, domain));
        v.push(Engine::from_tag(EngineTag::Yahoo, domain));
        proof {
            assert(v@.map_values(|e: Engine| e.spec_tag()) =~= seq![
                EngineTag::AlienVault,
                EngineTag::Baidu,
                EngineTag::Bing,
                EngineTag::CrtSh,
                EngineTag::DNSDumpster,
                EngineTag::Google,
                EngineTag::HackerTarget,
                EngineTag::VirusTotal,
                EngineTag::Yahoo,
            ]);
        }
        v
    }

    /// The immutable descriptor of this source.
    pub fn settings(&self) -> (st: Settings)
        ensures
            st.name@ == self.spec_name(),
            st.base_url@ == self.spec_base_url(),
            st.user_agent@ == self.spec_user_agent(),
            st.max_rounds == self.spec_max_rounds(),
            st.max_rounds >= 1,
    {
        match self {
            Engine::AlienVault(a) => a.settings(),
            Engine::Baidu(b) => b.settings(),
            Engine::Bing(b) => b.settings(),
            Engine::CrtSh(c) => c.settings(),
            Engine::DNSDumpster(d) => d.settings(),
            Engine::Google(g) => g.settings(),
            Engine::HackerTarget(h) => h.settings(),
            Engine::VirusTotal(v) => v.settings(),
            Engine::Yahoo(y) => y.settings(),
        }
    }

    /// The query this source sends next, given the hostnames found so far.
    pub fn next_query(&self, subs: &DomainSet) -> (q: Option<String>)
        ensures
            q.deep_view() == self.spec_next_query(subs.seq_view()),
    {
        match self {
            Engine::AlienVault(a) => a.next_query(subs),
            Engine::Baidu(b) => b.next_query(subs),
            Engine::Bing(b) => b.next_query(subs),
            Engine::CrtSh(c) => c.next_query(subs),
            Engine::DNSDumpster(d) => d.next_query(subs),
            Engine::Google(g) => g.next_query(subs),
            Engine::HackerTarget(h) => h.next_query(subs),
            Engine::VirusTotal(v) => v.next_query(subs),
            Engine::Yahoo(y) => y.next_query(subs),
        }
    }

    /// What this source extracts from one response body; the
    /// cursor-paginated source also remembers the page's meta object.
    pub fn extract(&mut self, body: &str) -> (out: DomainSet)
        ensures
            out.wf(),
            out@ == old(self).spec_extract(body@),
            body@.len() == 0 ==> out@ == Set::<Seq<char>>::empty(),
            Engine::extract_transition(*old(self), *final(self), body@),
    {
        match self {
            Engine::AlienVault(a) => a.extract(body),
            Engine::Baidu(b) => b.extract(body),
            Engine::Bing(b) => b.extract(body),
            Engine::CrtSh(c) => c.extract(body),
            Engine::DNSDumpster(d) => d.extract(body),
            Engine::Google(g) => g.extract(body),
            Engine::HackerTarget(h) => h.extract(body),
            Engine::VirusTotal(v) => v.extract(body),
            Engine::Yahoo(y) => y.extract(body),
        }
    }

    /// The pause between rounds, in milliseconds.
    pub fn delay_millis(&self) -> (r: u64)
        ensures
            r == self.spec_delay_millis(),
    {
        match self {
            Engine::AlienVault(a) => a.delay_millis(),
            Engine::Baidu(b) => b.delay_millis(),
            Engine::Bing(b) => b.delay_millis(),
            Engine::CrtSh(c) => c.delay_millis(),
            Engine::DNSDumpster(d) => d.delay_millis(),
            Engine::Google(g) => g.delay_millis(),
            Engine::HackerTarget(h) => h.delay_millis(),
            Engine::VirusTotal(v) => v.delay_millis(),
            Engine::Yahoo(y) => y.delay_millis(),
        }
    }
}

/// What an HTML-scraping source extracts always ends with `"." + domain`:
/// the pattern anchors the domain literal.
pub proof fn lemma_scraper_extract_on_domain(e: Engine, body: Seq<char>, h: Seq<char>)
    requires
        e.is_html_scraper(),
        e.spec_extract(body).contains(h),
    ensures
        ends_with(h, dot_dom(e.domain_view())),
{
    match e {
        Engine::Baidu(b) => {
            let i = choose|i: int| match_at(body, b.domain@, baidu_pattern(), i, h);
            lemma_match_ends_with_domain(body, b.domain@, baidu_pattern(), i, h);
        },
        Engine::Bing(b) => {
            let i = choose|i: int| match_at(body, b.domain@, bing_pattern(), i, h);
            lemma_match_ends_with_domain(body, b.domain@, bing_pattern(), i, h);
        },
        Engine::DNSDumpster(d) => {
            let i = choose|i: int| match_at(body, d.domain@, dnsdumpster_pattern(), i, h);
            lemma_match_ends_with_domain(body, d.domain@, dnsdumpster_pattern(), i, h);
        },
        Engine::Google(g) => {
            let i = choose|i: int| match_at(body, g.domain@, google_pattern(), i, h);
            lemma_match_ends_with_domain(body, g.domain@, google_pattern(), i, h);
        },
        Engine::Yahoo(y) => {
            let i = choose|i: int| match_at(body, y.domain@, yahoo_pattern(), i, h);
            lemma_match_ends_with_domain(body, y.domain@, yahoo_pattern(), i, h);
        },
        _ => {
        },
    }
}

/// The values the backoff delay can hold: doubling from one second, capped
/// by the termination pre-check at `MAX_BACKOFF`.
pub open spec fn is_backoff_value(b: int) -> bool {
    b == 1 || b == 2 || b == 4 || b == 8 || b == 16
}

/// `n` is a power of two.
pub open spec fn is_pow2(n: nat) -> bool
    decreases n,
{
    if n == 0 {
        false
    } else if n == 1 {
        true
    } else {
        n % 2 == 0 && is_pow2(n / 2)
    }
}

/// The number of doublings from one to the smallest power of two at or
/// above `n`.
pub open spec fn log2_ceil(n: nat) -> nat
    decreases n,
{
    if n <= 1 {
        0
    } else {
        1 + log2_ceil(((n + 1) / 2) as nat)
    }
}

/// What one round of the loop observed: a failed request, a failed body
/// read, or a response body.
pub enum RoundOutcome {
    /// The request failed on the wire or came back with a bad status.
    NetworkError,
    /// The response arrived but its body could not be read.
    BodyError,
    /// The response body, as text.
    Body(String),
}

/// The enumeration state machine: one adapter, one accumulator, and the
/// retry/backoff/progress counters. Each round either terminates the run,
/// or takes exactly one of the failure and success transitions.
pub struct Enumerator {
    pub engine: Engine,
    /// Completed iterations, successful or not; bounded by the source's
    /// round cap.
    pub rounds: usize,
    /// The pagination index; advances only when a successful round brought
    /// nothing new.
    pub page: usize,
    /// Failure pressure: up on failure or stagnation, down by two on
    /// progress, never below zero.
    pub retries: u8,
    /// Seconds to sleep after a failed request; doubles on each failure.
    pub backoff_secs: u8,
    /// The size of the accumulator at the last observation.
    pub found: usize,
    /// The accumulator.
    pub subdomains: DomainSet,
}

impl Enumerator {
    /// What every reachable state satisfies.
    pub open spec fn inv(&self) -> bool {
        &&& self.subdomains.wf()
        &&& self.found == self.subdomains@.len()
        &&& is_backoff_value(self.backoff_secs as int)
        &&& self.retries <= crate::MAX_RETRIES
        &&& self.rounds <= self.engine.spec_max_rounds()
        &&& self.page <= self.rounds
        &&& (self.engine.is_html_scraper() ==> forall|h: Seq<char>|
            self.subdomains@.contains(h) ==> ends_with(h, dot_dom(self.engine.domain_view())))
    }

    /// The termination pre-check: the round cap, the retry cap, or the
    /// backoff cap has been reached.
    pub open spec fn spec_should_stop(&self) -> bool {
        ||| self.rounds >= self.engine.spec_max_rounds()
        ||| self.retries >= crate::MAX_RETRIES
        ||| self.backoff_secs >= crate::MAX_BACKOFF
    }

    /// A fresh run: no rounds, no retries, one second of backoff, an empty
    /// accumulator.
    pub fn new(engine: Engine) -> (e: Self)
        ensures
            e.engine == engine,
            e.rounds == 0,
            e.page == 0,
            e.retries == 0,
            e.backoff_secs == 1,
            e.found == 0,
            e.subdomains.seq_view() == Seq::<Seq<char>>::empty(),
            e.subdomains@ == Set::<Seq<char>>::empty(),
            e.inv(),
    {
        let subdomains = DomainSet::new();
        proof {
            subdomains.lemma_cardinality();
        }
        Enumerator {
            engine,
            rounds: 0,
            page: 0,
            retries: 0,
            backoff_secs: 1,
            found: 0,
            subdomains,
        }
    }

    /// Check the termination pre-check.
    pub fn should_stop(&self) -> (r: bool)
        ensures
            r == self.spec_should_stop(),
    {
        let st = self.engine.settings();
        self.rounds >= st.max_rounds || self.retries >= crate::MAX_RETRIES || self.backoff_secs
            >= crate::MAX_BACKOFF
    }

    /// The query the next round would send, refined by what was found so
    /// far; nothing once the source's stream has ended.
    pub fn next_query(&self) -> (q: Option<String>)
        ensures
            q.deep_view() == self.engine.spec_next_query(self.subdomains.seq_view()),
    {
        self.engine.next_query(&self.subdomains)
    }

    /// A failed request: one more retry, double the backoff. Returns how
    /// many seconds the caller sleeps before the next round. The round and
    /// page counters do not advance, so a run of pure failures terminates
    /// through the retry and backoff caps, never the round cap. The backoff
    /// is never reset: one early failure lifts the backoff floor for the
    /// rest of the run.
    pub fn on_request_failure(&mut self) -> (sleep_secs: u64)
        requires
            old(self).inv(),
            !old(self).spec_should_stop(),
        ensures
            final(self).inv(),
            sleep_secs == old(self).backoff_secs as u64,
            final(self).retries == old(self).retries + 1,
            final(self).backoff_secs == old(self).backoff_secs * 2,
            final(self).rounds == old(self).rounds,
            final(self).page == old(self).page,
            final(self).found == old(self).found,
            final(self).subdomains == old(self).subdomains,
            final(self).engine == old(self).engine,
    {
        let secs = self.backoff_secs as u64;
        self.retries = self.retries + 1;
        self.backoff_secs = self.backoff_secs * 2;
        secs
    }

    /// A body that could not be read: one more retry, nothing else. The
    /// caller does not sleep.
    pub fn on_body_failure(&mut self)
        requires
            old(self).inv(),
            !old(self).spec_should_stop(),
        ensures
            final(self).inv(),
            final(self).retries == old(self).retries + 1,
            final(self).backoff_secs == old(self).backoff_secs,
            final(self).rounds == old(self).rounds,
            final(self).page == old(self).page,
            final(self).found == old(self).found,
            final(self).subdomains == old(self).subdomains,
            final(self).engine == old(self).engine,
    {
        self.retries = self.retries + 1;
    }

    /// A successful round: extract the body, union the result into the
    /// accumulator, and decide. Progress pays two retries back and holds
    /// the page, so the refined query is retried; stagnation advances the
    /// page and costs a retry. The round counter advances either way.
    pub fn absorb(&mut self, body: &str)
        requires
            old(self).inv(),
            !old(self).spec_should_stop(),
        ensures
            final(self).inv(),
            Engine::extract_transition(old(self).engine, final(self).engine, body@),
            final(self).subdomains@ == old(self).subdomains@.union(
                old(self).engine.spec_extract(body@),
            ),
            final(self).subdomains@.len() >= old(self).subdomains@.len(),
            final(self).rounds == old(self).rounds + 1,
            final(self).backoff_secs == old(self).backoff_secs,
            final(self).subdomains@.len() > old(self).subdomains@.len() ==> {
                &&& final(self).retries == (if old(self).retries >= 2 {
                    (old(self).retries - 2) as u8
                } else {
                    0u8
                })
                &&& final(self).page == old(self).page
                &&& final(self).found == final(self).subdomains@.len()
            },
            final(self).subdomains@.len() == old(self).subdomains@.len() ==> {
                &&& final(self).retries == old(self).retries + 1
                &&& final(self).page == old(self).page + 1
                &&& final(self).found == old(self).found
            },
    {
        let ghost pre_engine = self.engine;
        let ghost pre_set = self.subdomains@;
        let extracted = self.engine.extract(body);
        proof {
            self.subdomains.lemma_cardinality();
        }
        self.subdomains.merge(&extracted);
        proof {
            self.subdomains.lemma_cardinality();
            if self.engine.is_html_scraper() {
                assert(self.engine == pre_engine);
                assert forall|h: Seq<char>| self.subdomains@.contains(h) implies ends_with(
                    h,
                    dot_dom(self.engine.domain_view()),
                ) by {
                    if !pre_set.contains(h) {
                        lemma_scraper_extract_on_domain(pre_engine, body@, h);
                    }
                }
            }
        }
        let len = self.subdomains.len();
        if len != self.found {
            self.found = len;
            self.retries = if self.retries >= 2 {
                self.retries - 2
            } else {
                0
            };
        } else {
            self.page = self.page + 1;
            self.retries = self.retries + 1;
        }
        self.rounds = self.rounds + 1;
    }

    /// The pause between rounds, in milliseconds.
    pub fn delay_millis(&self) -> (r: u64)
        ensures
            r == self.engine.spec_delay_millis(),
    {
        self.engine.delay_millis()
    }

    /// Hand the accumulator out.
    pub fn into_subdomains(self) -> (r: DomainSet)
        ensures
            r == self.subdomains,
    {
        self.subdomains
    }
}

/// The backoff delay is a power of two between one and the smallest power
/// of two at or above `MAX_BACKOFF`, in every reachable state.
pub proof fn lemma_backoff_power_of_two(e: &Enumerator)
    requires
        e.inv(),
    ensures
        is_pow2(e.backoff_secs as nat),
        1 <= e.backoff_secs as int <= 16,
        is_pow2(16),
        crate::MAX_BACKOFF as int <= 16,
{
    reveal_with_fuel(is_pow2, 6);
}

impl Enumerator {
    /// The run is over: the termination pre-check fires, or the source has
    /// no next query.
    pub open spec fn spec_halted(&self) -> bool {
        ||| self.spec_should_stop()
        ||| self.engine.spec_next_query(self.subdomains.seq_view()) is None
    }
}

/// The success transition, relationally: the body is extracted, the result
/// is unioned into the accumulator, and the progress decision adjusts the
/// counters.
pub open spec fn spec_absorb(pre: Enumerator, body: Seq<char>, post: Enumerator) -> bool {
    &&& Engine::extract_transition(pre.engine, post.engine, body)
    &&& post.subdomains.wf()
    &&& post.subdomains@ == pre.subdomains@.union(pre.engine.spec_extract(body))
    &&& post.rounds == pre.rounds + 1
    &&& post.backoff_secs == pre.backoff_secs
    &&& if post.subdomains@.len() > pre.subdomains@.len() {
        &&& post.retries == (if pre.retries >= 2 {
            (pre.retries - 2) as u8
        } else {
            0u8
        })
        &&& post.page == pre.page
        &&& post.found == post.subdomains@.len()
    } else {
        &&& post.retries == pre.retries + 1
        &&& post.page == pre.page + 1
        &&& post.found == pre.found
    }
}

/// One transition of the loop on one observed outcome. It only fires while
/// the run is not over.
pub open spec fn spec_step(pre: Enumerator, o: RoundOutcome, post: Enumerator) -> bool {
    &&& !pre.spec_halted()
    &&& match o {
        RoundOutcome::NetworkError => {
            &&& post.retries == pre.retries + 1
            &&& post.backoff_secs == pre.backoff_secs * 2
            &&& post.rounds == pre.rounds
            &&& post.page == pre.page
            &&& post.found == pre.found
            &&& post.subdomains == pre.subdomains
            &&& post.engine == pre.engine
        },
        RoundOutcome::BodyError => {
            &&& post.retries == pre.retries + 1
            &&& post.backoff_secs == pre.backoff_secs
            &&& post.rounds == pre.rounds
            &&& post.page == pre.page
            &&& post.found == pre.found
            &&& post.subdomains == pre.subdomains
            &&& post.engine == pre.engine
        },
        RoundOutcome::Body(b) => spec_absorb(pre, b@, post),
    }
}

/// The whole loop, relationally: from `pre`, the first `n` outcomes of
/// `outs` are consumed one step at a time until the run is over or the
/// outcomes run out, reaching `post`.
pub open spec fn spec_run(pre: Enumerator, outs: Seq<RoundOutcome>, post: Enumerator, n: int) -> bool
    decreases outs.len(),
{
    if pre.spec_halted() || outs.len() == 0 {
        post == pre && n == 0
    } else {
        exists|mid: Enumerator|
            #[trigger] spec_step(pre, outs[0], mid) && spec_run(mid, outs.drop_first(), post, n - 1)
    }
}

/// A fully consumed run extends by one more step.
proof fn lemma_run_snoc(
    pre: Enumerator,
    outs: Seq<RoundOutcome>,
    mid: Enumerator,
    o: RoundOutcome,
    post: Enumerator,
)
    requires
        spec_run(pre, outs, mid, outs.len() as int),
        spec_step(mid, o, post),
    ensures
        spec_run(pre, outs.push(o), post, outs.len() as int + 1),
    decreases outs.len(),
{
    if pre.spec_halted() {
        assert(outs.len() == 0 && mid == pre);
        assert(!mid.spec_halted());
        assert(false);
    } else if outs.len() == 0 {
        assert(mid == pre);
        assert(outs.push(o)[0] == o);
        assert(outs.push(o).drop_first() =~= Seq::<RoundOutcome>::empty());
        assert(spec_run(post, outs.push(o).drop_first(), post, 0));
        assert(spec_step(pre, outs.push(o)[0], post) && spec_run(
            post,
            outs.push(o).drop_first(),
            post,
            0,
        ));
        assert(spec_run(pre, outs.push(o), post, 1));
    } else {
        let mid1 = choose|mid1: Enumerator|
            #[trigger] spec_step(pre, outs[0], mid1) && spec_run(
                mid1,
                outs.drop_first(),
                mid,
                outs.len() - 1,
            );
        lemma_run_snoc(mid1, outs.drop_first(), mid, o, post);
        assert(outs.push(o)[0] == outs[0]);
        assert(outs.push(o).drop_first() =~= outs.drop_first().push(o));
        assert(spec_step(pre, outs.push(o)[0], mid1) && spec_run(
            mid1,
            outs.push(o).drop_first(),
            post,
            outs.len() as int,
        ));
        assert(spec_run(pre, outs.push(o), post, outs.len() as int + 1));
    }
}

/// A run that ended over stays put under further outcomes.
proof fn lemma_run_extend_halted(
    pre: Enumerator,
    outs: Seq<RoundOutcome>,
    post: Enumerator,
    n: int,
    rest: Seq<RoundOutcome>,
)
    requires
        spec_run(pre, outs, post, n),
        post.spec_halted(),
    ensures
        spec_run(pre, outs + rest, post, n),
    decreases outs.len(),
{
    if pre.spec_halted() {
        assert(post == pre && n == 0);
        assert(spec_run(pre, outs + rest, post, n));
    } else if outs.len() == 0 {
        assert(post == pre);
        assert(false);
    } else {
        let mid1 = choose|mid1: Enumerator|
            #[trigger] spec_step(pre, outs[0], mid1) && spec_run(
                mid1,
                outs.drop_first(),
                post,
                n - 1,
            );
        lemma_run_extend_halted(mid1, outs.drop_first(), post, n - 1, rest);
        assert((outs + rest)[0] == outs[0]);
        assert((outs + rest).drop_first() =~= outs.drop_first() + rest);
        assert(spec_step(pre, (outs + rest)[0], mid1) && spec_run(
            mid1,
            (outs + rest).drop_first(),
            post,
            n - 1,
        ));
        assert(spec_run(pre, outs + rest, post, n));
    }
}

/// The retry counter never decreases across a transition, except by a
/// saturating subtraction of two on a round that made progress; being
/// unsigned, it never goes below zero.
pub proof fn lemma_retries_monotone(pre: Enumerator, o: RoundOutcome, post: Enumerator)
    requires
        spec_step(pre, o, post),
    ensures
        post.retries < pre.retries ==> {
            &&& o is Body
            &&& post.subdomains@.len() > pre.subdomains@.len()
            &&& post.retries == (if pre.retries >= 2 {
                (pre.retries - 2) as u8
            } else {
                0u8
            })
        },
{
}

/// Across any transition the accumulator only grows: insertion is an
/// idempotent union, and the cardinality never decreases.
pub proof fn lemma_accumulator_monotone(pre: Enumerator, o: RoundOutcome, post: Enumerator)
    requires
        pre.inv(),
        spec_step(pre, o, post),
    ensures
        pre.subdomains@.subset_of(post.subdomains@),
        post.subdomains@.len() >= pre.subdomains@.len(),
{
    match o {
        RoundOutcome::Body(b) => {
            pre.subdomains.lemma_cardinality();
            post.subdomains.lemma_cardinality();
            vstd::set_lib::lemma_len_subset(pre.subdomains@, post.subdomains@);
        },
        _ => {
        },
    }
}

/// Every state reachable by a transition from a well-formed state is well
/// formed: the counters stay within their caps, the backoff stays a power
/// of two, and an HTML-scraping source's accumulator stays under the
/// domain.
pub proof fn lemma_step_preserves_inv(pre: Enumerator, o: RoundOutcome, post: Enumerator)
    requires
        pre.inv(),
        spec_step(pre, o, post),
    ensures
        post.inv(),
{
    match o {
        RoundOutcome::Body(b) => {
            pre.subdomains.lemma_cardinality();
            post.subdomains.lemma_cardinality();
            vstd::set_lib::lemma_len_subset(pre.subdomains@, post.subdomains@);
            if post.engine.is_html_scraper() {
                assert(post.engine == pre.engine);
                assert forall|h: Seq<char>| post.subdomains@.contains(h) implies ends_with(
                    h,
                    dot_dom(post.engine.domain_view()),
                ) by {
                    if !pre.subdomains@.contains(h) {
                        lemma_scraper_extract_on_domain(pre.engine, b@, h);
                    }
                }
            }
        },
        _ => {
        },
    }
}

/// The backoff value after `n` doublings.
spec fn backoff_of(n: int) -> int {
    if n == 0 {
        1
    } else if n == 1 {
        2
    } else if n == 2 {
        4
    } else if n == 3 {
        8
    } else {
        16
    }
}

impl Enumerator {
    /// Run the whole loop against a sequence of round outcomes, one per
    /// request the loop would have made, and return the accumulator and how
    /// many outcomes were consumed. The run ends on the termination
    /// pre-check, on a source that has no next query, or when the outcomes
    /// run out.
    #[verifier::loop_isolation(false)]
    pub fn enumerate(self, outcomes: Vec<RoundOutcome>) -> (r: (DomainSet, usize))
        requires
            self.inv(),
            self.rounds == 0,
            self.page == 0,
            self.retries == 0,
            self.backoff_secs == 1,
            self.subdomains.seq_view() == Seq::<Seq<char>>::empty(),
        ensures
            r.0.wf(),
            r.1 <= outcomes@.len(),
            // a source whose next query is nothing terminates at once,
            // consuming no outcome: no request is made
            self.engine.spec_next_query(Seq::<Seq<char>>::empty()) is None ==> r.1 == 0 && r.0@
                == self.subdomains@,
            // without body-read failures, the loop consumes at most
            // max_rounds + MAX_RETRIES + log2(MAX_BACKOFF) outcomes
            (forall|t: int| 0 <= t < outcomes@.len() ==> !((#[trigger] outcomes@[t]) is BodyError))
                ==> r.1 as int <= self.engine.spec_max_rounds() + crate::MAX_RETRIES as int
                + log2_ceil(crate::MAX_BACKOFF as nat),
            // every hostname an HTML-scraping source accumulates ends with
            // "." + domain
            self.engine.is_html_scraper() ==> forall|h: Seq<char>|
                r.0@.contains(h) ==> ends_with(h, dot_dom(self.engine.domain_view())),
            // the result is exactly a run of the step relation over the
            // outcomes, ending where the loop halts or the outcomes run out
            exists|fin: Enumerator|
                #[trigger] spec_run(self, outcomes@, fin, r.1 as int) && fin.subdomains == r.0
                    && fin.inv(),
    {
        let mut en = self;
        let mut idx: usize = 0;
        let mut done = false;
        let ghost mut net_count: int = 0;
        let ghost mut body_count: int = 0;
        proof {
            reveal_with_fuel(log2_ceil, 6);
            assert(log2_ceil(crate::MAX_BACKOFF as nat) == 4);
        }
        while !done
            invariant
                en.inv(),
                idx <= outcomes@.len(),
                en.engine.is_html_scraper() == self.engine.is_html_scraper(),
                en.engine.domain_view() == self.engine.domain_view(),
                en.engine.spec_max_rounds() == self.engine.spec_max_rounds(),
                0 <= net_count <= 4,
                en.backoff_secs as int == backoff_of(net_count),
                body_count >= 0,
                (forall|t: int|
                    0 <= t < outcomes@.len() ==> !((#[trigger] outcomes@[t]) is BodyError))
                    ==> body_count == 0,
                idx as int == en.rounds + net_count + body_count,
                self.engine.spec_next_query(Seq::<Seq<char>>::empty()) is None ==> idx == 0
                    && en == self,
                spec_run(self, outcomes@.take(idx as int), en, idx as int),
                done ==> spec_run(self, outcomes@, en, idx as int),
            decreases outcomes@.len() - idx + (if done {
                0int
            } else {
                1int
            }),
        {
            if en.should_stop() {
                proof {
                    lemma_run_extend_halted(
                        self,
                        outcomes@.take(idx as int),
                        en,
                        idx as int,
                        outcomes@.skip(idx as int),
                    );
                    assert(outcomes@.take(idx as int) + outcomes@.skip(idx as int) =~= outcomes@);
                }
                done = true;
                continue ;
            }
            let q = en.next_query();
            if q.is_none() {
                proof {
                    assert(en.spec_halted());
                    lemma_run_extend_halted(
                        self,
                        outcomes@.take(idx as int),
                        en,
                        idx as int,
                        outcomes@.skip(idx as int),
                    );
                    assert(outcomes@.take(idx as int) + outcomes@.skip(idx as int) =~= outcomes@);
                }
                done = true;
                continue ;
            }
            if idx == outcomes.len() {
                proof {
                    assert(outcomes@.take(idx as int) =~= outcomes@);
                }
                done = true;
                continue ;
            }
            let ghost pre_en = en;
            proof {
                assert(en.engine.spec_next_query(en.subdomains.seq_view()) is Some);
                assert(!pre_en.spec_halted());
                // a source with no first query never reaches this point
                if self.engine.spec_next_query(Seq::<Seq<char>>::empty()) is None {
                    assert(en == self);
                    assert(en.subdomains.seq_view() == Seq::<Seq<char>>::empty());
                    assert(q.deep_view() is None);
                    assert(false);
                }
            }
            match &outcomes[idx] {
                RoundOutcome::NetworkError => {
                    let _sleep = en.on_request_failure();
                    proof {
                        net_count = net_count + 1;
                        assert(spec_step(pre_en, outcomes@[idx as int], en));
                    }
                },
                RoundOutcome::BodyError => {
                    en.on_body_failure();
                    proof {
                        body_count = body_count + 1;
                        assert(outcomes@[idx as int] is BodyError);
                        assert(spec_step(pre_en, outcomes@[idx as int], en));
                    }
                },
                RoundOutcome::Body(b) => {
                    en.absorb(b.as_str());
                    proof {
                        assert(spec_absorb(pre_en, b@, en));
                        assert(spec_step(pre_en, outcomes@[idx as int], en));
                    }
                },
            }
            proof {
                assert(outcomes@.take(idx as int).len() == idx as int);
                lemma_run_snoc(
                    self,
                    outcomes@.take(idx as int),
                    pre_en,
                    outcomes@[idx as int],
                    en,
                );
                assert(outcomes@.take(idx + 1) =~= outcomes@.take(idx as int).push(
                    outcomes@[idx as int],
                ));
            }
            idx += 1;
        }
        proof {
            assert(en.rounds <= en.engine.spec_max_rounds());
        }
        (en.into_subdomains(), idx)
    }
}

} // verus!
