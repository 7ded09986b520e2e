//! Response extraction. Every HTML-scraping source shares one shape of
//! pattern: an opening tag, a lazily captured hostname that must end in
//! `"." + domain`, an optional fixed part right after the capture, and a
//! closing tag, either immediately or after arbitrary filler. The capture is
//! the shortest one that satisfies the whole pattern, mirroring a lazy
//! (non-greedy) match.

use vstd::prelude::*;

use crate::domains::DomainSet;
use crate::text::{
    ends_with, find_char_from, find_from, is_alnum_char, is_alnum_char_exec, is_first_char_at,
    is_space_char, is_space_char_exec, occurs_at, occurs_at_exec,
};

verus! {

/// What the captured text may be made of, before the `"." + domain` suffix.
#[derive(Clone, Copy)]
pub enum CapKind {
    /// Any characters at all.
    AnyChars,
    /// Letters, digits, hyphens and dots.
    ClassChars,
    /// A full DNS label sequence: dot-separated labels of letters, digits
    /// and interior hyphens, each label starting and ending alphanumeric.
    LabelSeq,
}

/// The ghost description of a block pattern.
pub struct PatternSpec {
    /// Literal that opens a block.
    pub open_tag: Seq<char>,
    /// After the opening literal, skip to the first `>` (an opening tag with
    /// attributes) before the capture starts.
    pub skip_gt: bool,
    /// What the capture may be made of.
    pub cap: CapKind,
    /// One whitespace character must follow the capture.
    pub ws: bool,
    /// Literal that must follow the capture (after the whitespace, if any).
    pub lit: Seq<char>,
    /// Arbitrary filler is allowed before the closing literal.
    pub filler: bool,
    /// Literal that closes a block.
    pub close_tag: Seq<char>,
}

/// An executable block pattern.
pub struct BlockPattern {
    pub open_tag: String,
    pub skip_gt: bool,
    pub cap: CapKind,
    pub ws: bool,
    pub lit: String,
    pub filler: bool,
    pub close_tag: String,
}

impl View for BlockPattern {
    type V = PatternSpec;

    open spec fn view(&self) -> PatternSpec {
        PatternSpec {
            open_tag: self.open_tag@,
            skip_gt: self.skip_gt,
            cap: self.cap,
            ws: self.ws,
            lit: self.lit@,
            filler: self.filler,
            close_tag: self.close_tag@,
        }
    }
}

/// A usable pattern has nonempty opening and closing literals.
pub open spec fn wf_pattern(p: PatternSpec) -> bool {
    &&& p.open_tag.len() > 0
    &&& p.close_tag.len() > 0
}

/// `"." + d`: the suffix every extracted hostname must carry.
pub open spec fn dot_dom(d: Seq<char>) -> Seq<char> {
    seq!['.'] + d
}

/// Letters, digits, hyphens and dots.
pub open spec fn is_class_char(c: char) -> bool {
    is_alnum_char(c) || c == '-' || c == '.'
}

/// A dot-separated sequence of DNS labels: every character a letter, digit,
/// hyphen or dot; first and last characters alphanumeric; every dot interior
/// with alphanumeric neighbours.
pub open spec fn is_label_seq(w: Seq<char>) -> bool {
    &&& w.len() > 0
    &&& is_alnum_char(w[0])
    &&& is_alnum_char(w[w.len() - 1])
    &&& forall|k: int| 0 <= k < w.len() ==> is_class_char(#[trigger] w[k])
    &&& forall|k: int|
        0 <= k < w.len() && #[trigger] w[k] == '.' ==> 0 < k < w.len() - 1 && is_alnum_char(
            w[k - 1],
        ) && is_alnum_char(w[k + 1])
}

/// The capture body `w` (the part before `"." + domain`) is acceptable.
pub open spec fn cap_ok(kind: CapKind, w: Seq<char>) -> bool {
    match kind {
        CapKind::AnyChars => true,
        CapKind::ClassChars => forall|k: int| 0 <= k < w.len() ==> is_class_char(#[trigger] w[k]),
        CapKind::LabelSeq => is_label_seq(w),
    }
}

/// Everything the pattern requires after a capture ending at `j` holds in
/// `b`: the optional whitespace, the fixed literal, and the closing tag,
/// immediately or somewhere later when filler is allowed.
pub open spec fn follows_ok(b: Seq<char>, p: PatternSpec, j: int) -> bool {
    let k = j + (if p.ws {
        1int
    } else {
        0int
    });
    let l = k + p.lit.len();
    &&& (p.ws ==> j < b.len() && is_space_char(b[j]))
    &&& occurs_at(b, p.lit, k)
    &&& if p.filler {
        exists|m: int| l <= m && occurs_at(b, p.close_tag, m)
    } else {
        occurs_at(b, p.close_tag, l)
    }
}

/// `j` is a possible end for a capture that starts at `s`.
pub open spec fn good_end(b: Seq<char>, d: Seq<char>, p: PatternSpec, s: int, j: int) -> bool {
    &&& 0 <= s
    &&& s + dot_dom(d).len() <= j <= b.len()
    &&& occurs_at(b, dot_dom(d), j - dot_dom(d).len())
    &&& cap_ok(p.cap, b.subrange(s, j - dot_dom(d).len()))
    &&& follows_ok(b, p, j)
}

/// `j` is the earliest possible capture end: the lazy match.
pub open spec fn first_good_end(b: Seq<char>, d: Seq<char>, p: PatternSpec, s: int, j: int) -> bool {
    &&& good_end(b, d, p, s, j)
    &&& forall|j2: int| s <= j2 < j ==> !good_end(b, d, p, s, j2)
}

/// The opener matches at `i` and the capture starts at `s`.
pub open spec fn cap_start_at(b: Seq<char>, p: PatternSpec, i: int, s: int) -> bool {
    &&& occurs_at(b, p.open_tag, i)
    &&& if p.skip_gt {
        is_first_char_at(b, '>', i + p.open_tag.len(), s - 1)
    } else {
        s == i + p.open_tag.len()
    }
}

/// The pattern matches at opener index `i` and captures `c`.
pub open spec fn match_at(b: Seq<char>, d: Seq<char>, p: PatternSpec, i: int, c: Seq<char>) -> bool {
    exists|s: int, j: int|
        #![trigger first_good_end(b, d, p, s, j)]
        cap_start_at(b, p, i, s) && first_good_end(b, d, p, s, j) && c == b.subrange(s, j)
}

/// Everything the pattern extracts from `b`: the set of captures over all
/// opener positions.
pub open spec fn extract_set(b: Seq<char>, d: Seq<char>, p: PatternSpec) -> Set<Seq<char>> {
    Set::new(|c: Seq<char>| exists|i: int| match_at(b, d, p, i, c))
}

/// At one opener position the pattern matches at most one capture.
pub proof fn lemma_match_at_unique(
    b: Seq<char>,
    d: Seq<char>,
    p: PatternSpec,
    i: int,
    c1: Seq<char>,
    c2: Seq<char>,
)
    requires
        match_at(b, d, p, i, c1),
        match_at(b, d, p, i, c2),
    ensures
        c1 == c2,
{
    let (s1, j1) = choose|s: int, j: int|
        #![trigger first_good_end(b, d, p, s, j)]
        cap_start_at(b, p, i, s) && first_good_end(b, d, p, s, j) && c1 == b.subrange(s, j);
    let (s2, j2) = choose|s: int, j: int|
        #![trigger first_good_end(b, d, p, s, j)]
        cap_start_at(b, p, i, s) && first_good_end(b, d, p, s, j) && c2 == b.subrange(s, j);
    assert(s1 == s2);
    assert(j1 == j2);
}

/// Every capture ends with `"." + domain`.
pub proof fn lemma_match_ends_with_domain(
    b: Seq<char>,
    d: Seq<char>,
    p: PatternSpec,
    i: int,
    c: Seq<char>,
)
    requires
        match_at(b, d, p, i, c),
    ensures
        ends_with(c, dot_dom(d)),
{
    let (s, j) = choose|s: int, j: int|
        #![trigger first_good_end(b, d, p, s, j)]
        cap_start_at(b, p, i, s) && first_good_end(b, d, p, s, j) && c == b.subrange(s, j);
    let dd = dot_dom(d);
    assert(c.len() == j - s >= dd.len());
    assert(c.subrange(c.len() - dd.len(), c.len() as int) =~= b.subrange(j - dd.len(), j));
    assert(b.subrange(j - dd.len(), j) =~= b.subrange(j - dd.len(), j - dd.len() + dd.len()));
}

/// An empty body yields the empty set, for every pattern.
pub proof fn lemma_extract_empty(d: Seq<char>, p: PatternSpec)
    requires
        wf_pattern(p),
    ensures
        extract_set(Seq::<char>::empty(), d, p) == Set::<Seq<char>>::empty(),
{
    let b = Seq::<char>::empty();
    assert forall|c: Seq<char>| !extract_set(b, d, p).contains(c) by {
        if exists|i: int| match_at(b, d, p, i, c) {
            let i = choose|i: int| match_at(b, d, p, i, c);
            let (s, j) = choose|s: int, j: int|
                #![trigger first_good_end(b, d, p, s, j)]
                cap_start_at(b, p, i, s) && first_good_end(b, d, p, s, j) && c == b.subrange(s, j);
            assert(occurs_at(b, p.open_tag, i));
            assert(false);
        }
    }
    assert(extract_set(b, d, p) =~= Set::<Seq<char>>::empty());
}

/// A literal occurring wholly inside the first part of a concatenation
/// occurs in the first part alone, and the other way round.
proof fn lemma_occurs_left(b1: Seq<char>, b2: Seq<char>, q: Seq<char>, x: int)
    requires
        x + q.len() <= b1.len(),
    ensures
        occurs_at(b1, q, x) == occurs_at(b1 + b2, q, x),
{
    if 0 <= x {
        assert((b1 + b2).subrange(x, x + q.len() as int) =~= b1.subrange(x, x + q.len() as int));
    }
}

/// A literal occurring in the second part of a concatenation occurs at the
/// shifted position of the whole, and the other way round.
proof fn lemma_occurs_right(b1: Seq<char>, b2: Seq<char>, q: Seq<char>, x: int)
    requires
        0 <= x,
    ensures
        occurs_at(b2, q, x) == occurs_at(b1 + b2, q, x + b1.len()),
{
    if x + q.len() <= b2.len() {
        assert((b1 + b2).subrange(x + b1.len(), x + b1.len() + q.len() as int) =~= b2.subrange(
            x,
            x + q.len() as int,
        ));
    }
}

/// A good capture end of the first part is a good capture end of the whole.
proof fn lemma_good_end_left_ext(b1: Seq<char>, b2: Seq<char>, d: Seq<char>, p: PatternSpec, s: int, j: int)
    requires
        good_end(b1, d, p, s, j),
    ensures
        good_end(b1 + b2, d, p, s, j),
{
    let cc = b1 + b2;
    let dd = dot_dom(d);
    lemma_occurs_left(b1, b2, dd, j - dd.len());
    assert(cc.subrange(s, j - dd.len()) =~= b1.subrange(s, j - dd.len()));
    let k = j + (if p.ws {
        1int
    } else {
        0int
    });
    let l = k + p.lit.len();
    lemma_occurs_left(b1, b2, p.lit, k);
    if p.filler {
        let m = choose|m: int| l <= m && occurs_at(b1, p.close_tag, m);
        lemma_occurs_left(b1, b2, p.close_tag, m);
        assert(l <= m && occurs_at(cc, p.close_tag, m));
    } else {
        lemma_occurs_left(b1, b2, p.close_tag, l);
    }
}

/// A good capture end of the second part is exactly a good capture end of
/// the whole at the shifted position.
proof fn lemma_good_end_shift(b1: Seq<char>, b2: Seq<char>, d: Seq<char>, p: PatternSpec, s: int, j: int)
    requires
        0 <= s,
        s + dot_dom(d).len() <= j,
    ensures
        good_end(b2, d, p, s, j) == good_end(b1 + b2, d, p, s + b1.len(), j + b1.len()),
{
    let cc = b1 + b2;
    let dd = dot_dom(d);
    let n = b1.len() as int;
    lemma_occurs_right(b1, b2, dd, j - dd.len());
    let k = j + (if p.ws {
        1int
    } else {
        0int
    });
    let l = k + p.lit.len();
    lemma_occurs_right(b1, b2, p.lit, k);
    if j <= b2.len() {
        assert(cc.subrange(s + n, j - dd.len() + n) =~= b2.subrange(s, j - dd.len()));
    }
    if p.filler {
        if good_end(b2, d, p, s, j) {
            let m = choose|m: int| l <= m && occurs_at(b2, p.close_tag, m);
            lemma_occurs_right(b1, b2, p.close_tag, m);
            assert(l + n <= m + n && occurs_at(cc, p.close_tag, m + n));
        }
        if good_end(cc, d, p, s + n, j + n) {
            let m2 = choose|m2: int| l + n <= m2 && occurs_at(cc, p.close_tag, m2);
            lemma_occurs_right(b1, b2, p.close_tag, m2 - n);
            assert(l <= m2 - n && occurs_at(b2, p.close_tag, m2 - n));
        }
    } else {
        lemma_occurs_right(b1, b2, p.close_tag, l);
    }
}

/// Obtain the earliest good capture end from any good capture end.
proof fn lemma_first_good_end_exists(b: Seq<char>, d: Seq<char>, p: PatternSpec, s: int, j0: int)
    requires
        good_end(b, d, p, s, j0),
    ensures
        exists|jm: int| #[trigger] first_good_end(b, d, p, s, jm),
    decreases j0 - s,
{
    if forall|j2: int| s <= j2 < j0 ==> !good_end(b, d, p, s, j2) {
        assert(first_good_end(b, d, p, s, j0));
    } else {
        let j2 = choose|j2: int| s <= j2 < j0 && good_end(b, d, p, s, j2);
        lemma_first_good_end_exists(b, d, p, s, j2);
    }
}

/// Extracting from the concatenation of two bodies yields the union of
/// extracting from each, provided no match spans the boundary: every match
/// of the whole that opens inside the first body must already be a match of
/// the first body alone.
pub proof fn lemma_extract_concat(b1: Seq<char>, b2: Seq<char>, d: Seq<char>, p: PatternSpec)
    requires
        wf_pattern(p),
        forall|i: int, s: int, j: int|
            #![trigger cap_start_at(b1 + b2, p, i, s), first_good_end(b1 + b2, d, p, s, j)]
            i < b1.len() && cap_start_at(b1 + b2, p, i, s) && first_good_end(b1 + b2, d, p, s, j)
                ==> good_end(b1, d, p, s, j),
    ensures
        extract_set(b1 + b2, d, p) == extract_set(b1, d, p).union(extract_set(b2, d, p)),
{
    let cc = b1 + b2;
    let n = b1.len() as int;
    let dd = dot_dom(d);
    assert forall|c: Seq<char>| extract_set(cc, d, p).contains(c) implies extract_set(
        b1,
        d,
        p,
    ).contains(c) || extract_set(b2, d, p).contains(c) by {
        let i = choose|i: int| match_at(cc, d, p, i, c);
        let (s, j) = choose|s: int, j: int|
            #![trigger first_good_end(cc, d, p, s, j)]
            cap_start_at(cc, p, i, s) && first_good_end(cc, d, p, s, j) && c == cc.subrange(s, j);
        if i < n {
            assert(good_end(b1, d, p, s, j));
            assert forall|j2: int| s <= j2 < j implies !good_end(b1, d, p, s, j2) by {
                if good_end(b1, d, p, s, j2) {
                    lemma_good_end_left_ext(b1, b2, d, p, s, j2);
                }
            }
            assert(first_good_end(b1, d, p, s, j));
            assert(s + dd.len() <= j <= n);
            assert(cap_start_at(b1, p, i, s)) by {
                if p.skip_gt {
                    assert(i + p.open_tag.len() <= s - 1 < n);
                    lemma_occurs_left(b1, b2, p.open_tag, i);
                    assert(b1[s - 1] == cc[s - 1]);
                    assert forall|x: int| i + p.open_tag.len() <= x < s - 1 implies b1[x]
                        != '>' by {
                        assert(cc[x] == b1[x]);
                    }
                } else {
                    assert(s == i + p.open_tag.len());
                    lemma_occurs_left(b1, b2, p.open_tag, i);
                }
            }
            assert(c =~= b1.subrange(s, j));
            assert(match_at(b1, d, p, i, c));
        } else {
            let i2 = i - n;
            let s2 = s - n;
            let j2 = j - n;
            assert(occurs_at(cc, p.open_tag, i));
            assert(i + p.open_tag.len() <= s);
            assert(s2 >= 0 && i2 >= 0);
            lemma_good_end_shift(b1, b2, d, p, s2, j2);
            assert(good_end(b2, d, p, s2, j2));
            assert forall|j3: int| s2 <= j3 < j2 implies !good_end(b2, d, p, s2, j3) by {
                if good_end(b2, d, p, s2, j3) {
                    lemma_good_end_shift(b1, b2, d, p, s2, j3);
                    assert(good_end(cc, d, p, s, j3 + n));
                    assert(false);
                }
            }
            assert(first_good_end(b2, d, p, s2, j2));
            assert(cap_start_at(b2, p, i2, s2)) by {
                lemma_occurs_right(b1, b2, p.open_tag, i2);
                if p.skip_gt {
                    assert(b2[s2 - 1] == cc[s - 1]);
                    assert forall|x: int| i2 + p.open_tag.len() <= x < s2 - 1 implies b2[x]
                        != '>' by {
                        assert(cc[x + n] == b2[x]);
                    }
                }
            }
            assert(c =~= b2.subrange(s2, j2));
            assert(match_at(b2, d, p, i2, c));
        }
    }
    assert forall|c: Seq<char>| extract_set(b1, d, p).contains(c) implies extract_set(
        cc,
        d,
        p,
    ).contains(c) by {
        let i = choose|i: int| match_at(b1, d, p, i, c);
        let (s, j) = choose|s: int, j: int|
            #![trigger first_good_end(b1, d, p, s, j)]
            cap_start_at(b1, p, i, s) && first_good_end(b1, d, p, s, j) && c == b1.subrange(s, j);
        lemma_good_end_left_ext(b1, b2, d, p, s, j);
        assert(occurs_at(b1, p.open_tag, i));
        assert(i + p.open_tag.len() <= n && i < n);
        assert(cap_start_at(cc, p, i, s)) by {
            lemma_occurs_left(b1, b2, p.open_tag, i);
            if p.skip_gt {
                assert(s - 1 < b1.len());
                assert(cc[s - 1] == b1[s - 1]);
                assert forall|x: int| i + p.open_tag.len() <= x < s - 1 implies cc[x] != '>' by {
                    assert(cc[x] == b1[x]);
                }
            }
        }
        assert forall|j2: int| s <= j2 < j implies !good_end(cc, d, p, s, j2) by {
            if good_end(cc, d, p, s, j2) {
                lemma_first_good_end_exists(cc, d, p, s, j2);
                let jm = choose|jm: int| first_good_end(cc, d, p, s, jm);
                assert(jm <= j2) by {
                    if jm > j2 {
                        assert(!good_end(cc, d, p, s, j2));
                    }
                }
                assert(good_end(b1, d, p, s, jm));
                assert(s <= jm < j);
                assert(false);
            }
        }
        assert(first_good_end(cc, d, p, s, j));
        assert(c =~= cc.subrange(s, j));
        assert(match_at(cc, d, p, i, c));
    }
    assert forall|c: Seq<char>| extract_set(b2, d, p).contains(c) implies extract_set(
        cc,
        d,
        p,
    ).contains(c) by {
        let i2 = choose|i2: int| match_at(b2, d, p, i2, c);
        let (s2, j2) = choose|s2: int, j2: int|
            #![trigger first_good_end(b2, d, p, s2, j2)]
            cap_start_at(b2, p, i2, s2) && first_good_end(b2, d, p, s2, j2) && c == b2.subrange(
                s2,
                j2,
            );
        assert(occurs_at(b2, p.open_tag, i2));
        lemma_good_end_shift(b1, b2, d, p, s2, j2);
        assert(good_end(cc, d, p, s2 + n, j2 + n));
        assert forall|j3: int| s2 + n <= j3 < j2 + n implies !(#[trigger] good_end(
            cc,
            d,
            p,
            s2 + n,
            j3,
        )) by {
            if good_end(cc, d, p, s2 + n, j3) {
                lemma_good_end_shift(b1, b2, d, p, s2, j3 - n);
                assert(good_end(b2, d, p, s2, j3 - n));
                assert(false);
            }
        }
        assert(first_good_end(cc, d, p, s2 + n, j2 + n));
        assert(cap_start_at(cc, p, i2 + n, s2 + n)) by {
            lemma_occurs_right(b1, b2, p.open_tag, i2);
            if p.skip_gt {
                assert(cc[s2 + n - 1] == b2[s2 - 1]);
                assert forall|x: int|
                    i2 + n + p.open_tag.len() <= x < s2 + n - 1 implies cc[x] != '>' by {
                    assert(cc[x] == b2[x - n]);
                }
            }
        }
        assert(c =~= cc.subrange(s2 + n, j2 + n));
        assert(match_at(cc, d, p, i2 + n, c));
    }
    assert(extract_set(cc, d, p) =~= extract_set(b1, d, p).union(extract_set(b2, d, p)));
}

/// Check whether `c` may stand in a capture body.
pub fn is_class_char_exec(c: char) -> (r: bool)
    ensures
        r == is_class_char(c),
{
    is_alnum_char_exec(c) || c == '-' || c == '.'
}

/// Check the capture body `b[s..e]` against `kind`.
#[verifier::loop_isolation(false)]
fn cap_ok_exec(b: &str, s: usize, e: usize, kind: CapKind) -> (r: bool)
    requires
        s <= e <= b@.len(),
    ensures
        r == cap_ok(kind, b@.subrange(s as int, e as int)),
{
    let ghost w = b@.subrange(s as int, e as int);
    match kind {
        CapKind::AnyChars => true,
        CapKind::ClassChars => {
            let mut k = s;
            while k < e
                invariant
                    s <= k <= e <= b@.len(),
                    w == b@.subrange(s as int, e as int),
                    forall|k2: int| s <= k2 < k ==> is_class_char(#[trigger] b@[k2]),
                decreases e - k,
            {
                if !is_class_char_exec(b.get_char(k)) {
                    proof {
                        assert(w[k - s] == b@[k as int]);
                    }
                    return false;
                }
                k += 1;
            }
            proof {
                assert forall|k2: int| 0 <= k2 < w.len() implies is_class_char(#[trigger] w[k2]) by {
                    assert(w[k2] == b@[s + k2]);
                }
            }
            true
        },
        CapKind::LabelSeq => {
            if s == e {
                return false;
            }
            if !is_alnum_char_exec(b.get_char(s)) {
                proof {
                    assert(w[0] == b@[s as int]);
                }
                return false;
            }
            if !is_alnum_char_exec(b.get_char(e - 1)) {
                proof {
                    assert(w[w.len() - 1] == b@[e - 1]);
                }
                return false;
            }
            let mut k = s;
            while k < e
                invariant
                    s <= k <= e <= b@.len(),
                    s < e,
                    w == b@.subrange(s as int, e as int),
                    is_alnum_char(b@[s as int]),
                    is_alnum_char(b@[e - 1]),
                    forall|k2: int| s <= k2 < k ==> is_class_char(#[trigger] b@[k2]),
                    forall|k2: int|
                        s <= k2 < k && #[trigger] b@[k2] == '.' ==> s < k2 < e - 1 && is_alnum_char(
                            b@[k2 - 1],
                        ) && is_alnum_char(b@[k2 + 1]),
                decreases e - k,
            {
                let c = b.get_char(k);
                if !is_class_char_exec(c) {
                    proof {
                        assert(w[k - s] == b@[k as int]);
                    }
                    return false;
                }
                if c == '.' {
                    if k == s || k == e - 1 {
                        proof {
                            assert(w[k - s] == b@[k as int]);
                        }
                        return false;
                    }
                    if !is_alnum_char_exec(b.get_char(k - 1)) || !is_alnum_char_exec(
                        b.get_char(k + 1),
                    ) {
                        proof {
                            assert(w[k - s] == b@[k as int]);
                            assert(w[k - s - 1] == b@[k - 1]);
                            assert(w[k - s + 1] == b@[k + 1]);
                        }
                        return false;
                    }
                }
                k += 1;
            }
            proof {
                assert(w[0] == b@[s as int]);
                assert(w[w.len() - 1] == b@[e - 1]);
                assert forall|k2: int| 0 <= k2 < w.len() implies is_class_char(#[trigger] w[k2]) by {
                    assert(w[k2] == b@[s + k2]);
                }
                assert forall|k2: int|
                    0 <= k2 < w.len() && #[trigger] w[k2] == '.' implies 0 < k2 < w.len() - 1
                    && is_alnum_char(w[k2 - 1]) && is_alnum_char(w[k2 + 1]) by {
                    assert(w[k2] == b@[s + k2]);
                    assert(s < s + k2 < e - 1);
                    assert(w[k2 - 1] == b@[s + k2 - 1]);
                    assert(w[k2 + 1] == b@[s + k2 + 1]);
                }
            }
            true
        },
    }
}

/// Check everything the pattern requires after a capture ending at `j`.
fn follows_ok_exec(b: &str, p: &BlockPattern, j: usize) -> (r: bool)
    requires
        wf_pattern(p@),
        j <= b@.len(),
    ensures
        r == follows_ok(b@, p@, j as int),
{
    let b_len = b.unicode_len();
    let mut k = j;
    if p.ws {
        if j == b_len {
            return false;
        }
        if !is_space_char_exec(b.get_char(j)) {
            return false;
        }
        k = j + 1;
    }
    if !occurs_at_exec(b, p.lit.as_str(), k) {
        return false;
    }
    let l = k + p.lit.unicode_len();
    if p.filler {
        match find_from(b, p.close_tag.as_str(), l) {
            Some(_) => true,
            None => false,
        }
    } else {
        occurs_at_exec(b, p.close_tag.as_str(), l)
    }
}

/// Try to match the pattern at opener index `i`; return the capture.
/// `dd` must hold `"." + d`.
#[verifier::loop_isolation(false)]
fn match_at_exec(b: &str, d: &str, dd: &str, p: &BlockPattern, i: usize) -> (r: Option<String>)
    requires
        wf_pattern(p@),
        dd@ == dot_dom(d@),
    ensures
        match r {
            Some(c) => match_at(b@, d@, p@, i as int, c@),
            None => forall|c: Seq<char>| !match_at(b@, d@, p@, i as int, c),
        },
{
    let b_len = b.unicode_len();
    if !occurs_at_exec(b, p.open_tag.as_str(), i) {
        return None;
    }
    let open_len = p.open_tag.unicode_len();
    let s: usize = if p.skip_gt {
        match find_char_from(b, '>', i + open_len) {
            Some(m) => m + 1,
            None => {
                proof {
                    assert forall|c: Seq<char>| !match_at(b@, d@, p@, i as int, c) by {
                        assert forall|s2: int| !cap_start_at(b@, p@, i as int, s2) by {}
                    }
                }
                return None;
            },
        }
    } else {
        i + open_len
    };
    proof {
        assert(cap_start_at(b@, p@, i as int, s as int));
        assert forall|s2: int| cap_start_at(b@, p@, i as int, s2) implies s2 == s as int by {}
    }
    let dd_len = dd.unicode_len();
    if dd_len > b_len || s > b_len - dd_len {
        proof {
            assert forall|c: Seq<char>| !match_at(b@, d@, p@, i as int, c) by {
                assert forall|j2: int| !good_end(b@, d@, p@, s as int, j2) by {}
            }
        }
        return None;
    }
    let last_q = b_len - dd_len;
    let mut q = s;
    while q <= last_q
        invariant
            s <= q <= last_q + 1,
            b_len == b@.len(),
            dd_len == dd@.len(),
            dd@ == dot_dom(d@),
            last_q == b_len - dd_len,
            wf_pattern(p@),
            forall|j2: int| j2 < q + dd_len ==> !good_end(b@, d@, p@, s as int, j2),
        decreases last_q + 1 - q,
    {
        if occurs_at_exec(b, dd, q) {
            let j = q + dd_len;
            if cap_ok_exec(b, s, q, p.cap) && follows_ok_exec(b, p, j) {
                proof {
                    assert(good_end(b@, d@, p@, s as int, j as int));
                    assert(first_good_end(b@, d@, p@, s as int, j as int));
                }
                let cs = b.substring_char(s, j);
                let c = cs.to_owned();
                proof {
                    assert(match_at(b@, d@, p@, i as int, c@));
                }
                return Some(c);
            }
        }
        proof {
            assert(!good_end(b@, d@, p@, s as int, q + dd_len));
        }
        q += 1;
    }
    proof {
        assert forall|c: Seq<char>| !match_at(b@, d@, p@, i as int, c) by {
            assert forall|j2: int| !good_end(b@, d@, p@, s as int, j2) by {}
        }
    }
    None
}

/// Extract every capture of the pattern from `b`, as a set.
#[verifier::loop_isolation(false)]
pub fn scan_blocks(b: &str, d: &str, p: &BlockPattern) -> (out: DomainSet)
    requires
        wf_pattern(p@),
    ensures
        out.wf(),
        out@ == extract_set(b@, d@, p@),
{
    proof {
        reveal_strlit(".");
    }
    let mut dds = String::from_str(".");
    dds.append(d);
    proof {
        assert(dds@ =~= dot_dom(d@));
    }
    let mut out = DomainSet::new();
    let b_len = b.unicode_len();
    let mut i: usize = 0;
    proof {
        assert(out@ =~= Set::new(
            |c: Seq<char>| exists|i2: int| 0 <= i2 < 0 && match_at(b@, d@, p@, i2, c),
        ));
    }
    while i < b_len
        invariant
            i <= b_len,
            b_len == b@.len(),
            dds@ == dot_dom(d@),
            wf_pattern(p@),
            out.wf(),
            out@ == Set::new(
                |c: Seq<char>| exists|i2: int| 0 <= i2 < i && match_at(b@, d@, p@, i2, c),
            ),
        decreases b_len - i,
    {
        let ghost pre = out@;
        match match_at_exec(b, d, dds.as_str(), p, i) {
            Some(c) => {
                let ghost cv = c@;
                out.insert(c);
                proof {
                    assert forall|x: Seq<char>|
                        #[trigger] out@.contains(x) == (exists|i2: int|
                            0 <= i2 < i + 1 && match_at(b@, d@, p@, i2, x)) by {
                        if out@.contains(x) {
                            if x == cv {
                                assert(match_at(b@, d@, p@, i as int, x));
                            }
                        }
                        if exists|i2: int| 0 <= i2 < i + 1 && match_at(b@, d@, p@, i2, x) {
                            let i2 = choose|i2: int|
                                0 <= i2 < i + 1 && match_at(b@, d@, p@, i2, x);
                            if i2 == i as int {
                                lemma_match_at_unique(b@, d@, p@, i2, x, cv);
                                assert(out@.contains(x));
                            } else {
                                assert(pre.contains(x));
                            }
                        }
                    }
                    assert(out@ =~= Set::new(
                        |c2: Seq<char>| exists|i2: int| 0 <= i2 < i + 1 && match_at(b@, d@, p@, i2, c2),
                    ));
                }
            },
            None => {
                proof {
                    assert forall|x: Seq<char>|
                        #[trigger] out@.contains(x) == (exists|i2: int|
                            0 <= i2 < i + 1 && match_at(b@, d@, p@, i2, x)) by {
                        if exists|i2: int| 0 <= i2 < i + 1 && match_at(b@, d@, p@, i2, x) {
                            let i2 = choose|i2: int|
                                0 <= i2 < i + 1 && match_at(b@, d@, p@, i2, x);
                            assert(i2 < i as int);
                        }
                    }
                    assert(out@ =~= Set::new(
                        |c2: Seq<char>| exists|i2: int| 0 <= i2 < i + 1 && match_at(b@, d@, p@, i2, c2),
                    ));
                }
            },
        }
        i += 1;
    }
    proof {
        assert forall|x: Seq<char>|
            #[trigger] out@.contains(x) == extract_set(b@, d@, p@).contains(x) by {
            if extract_set(b@, d@, p@).contains(x) {
                let i2 = choose|i2: int| match_at(b@, d@, p@, i2, x);
                let (s2, j2) = choose|s2: int, j2: int|
                    #![trigger first_good_end(b@, d@, p@, s2, j2)]
                    cap_start_at(b@, p@, i2, s2) && first_good_end(b@, d@, p@, s2, j2) && x
                        == b@.subrange(s2, j2);
                assert(occurs_at(b@, p@.open_tag, i2));
                assert(0 <= i2 < b_len);
            }
        }
        assert(out@ =~= extract_set(b@, d@, p@));
    }
    out
}

} // verus!
