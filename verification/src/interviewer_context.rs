//! The irreversible compiler from private fossils to abstract interviewer
//! tactics, and the oni-mode prompt built from them.
//!
//! Concrete fields (amounts, ids, free text) are consumed inside
//! `compile_interviewer_tactics` and never appear in what it returns: only a
//! normalized tactic list and a sorted leak blacklist leave.
use vstd::prelude::*;
use crate::render_guard::{hit, leak_outcome, seal_oni_payload, term_views, RenderGuardError};
use crate::tactics::{
    clamped_spec, disc_spec, instruction_text, intensity_spec, tactic_of, InterviewerTactic,
};
use crate::text::{str_eq, trim, trim_spec};

verus! {

/// The band of the cognitive resource R(t) at decision time:
/// `Depleted` up to 0.34, `Moderate` up to 0.67, `Ample` above.
#[derive(Debug, Clone, Copy, PartialEq, Eq, Structural)]
pub enum ResourceBand {
    Depleted,
    Moderate,
    Ample,
}

/// What the compiler reads of a fossil bundle, as plain values.
#[derive(Debug)]
pub struct FossilSnapshot {
    /// Band of R(t) at decision time, if it was known.
    pub resource_band: Option<ResourceBand>,
    /// Distortion category keys only; free text is never read.
    pub distortion_categories: Vec<String>,
    /// Recent purchase totals, used only against thresholds.
    pub purchase_amounts: Vec<i64>,
    pub late_night_purchase_count: u32,
    pub impulse_purchase_count: u32,
    /// Opaque ids, merchants and dates, kept only for the leak blacklist.
    pub blacklist_seed_terms: Vec<String>,
}

/// A sealed tactic set, constructible only by compiling or thawing.
#[derive(Debug, PartialEq, Eq)]
pub struct AbstractTacticSet {
    tactics: Vec<InterviewerTactic>,
    blacklist: Vec<String>,
}

impl Clone for AbstractTacticSet {
    /// The same tactics and the same blacklist.
    fn clone(&self) -> (c: Self)
        ensures
            c.tactic_seq() == self.tactic_seq(),
            c.blacklist_seq() == self.blacklist_seq(),
    {
        proof {
            use_type_invariant(self);
        }
        let tactics = self.tactics.clone();
        let blacklist = self.blacklist.clone();
        proof {
            assert(tactics@ =~= self.tactics@);
            assert(blacklist@ =~= self.blacklist@);
        }
        AbstractTacticSet { tactics, blacklist }
    }
}

impl AbstractTacticSet {
    /// Every blacklist term is stored already trimmed.
    #[verifier::type_invariant]
    spec fn terms_trimmed(&self) -> bool {
        forall|i: int| 0 <= i < self.blacklist@.len() ==> trim_spec(#[trigger] self.blacklist@[i]@) == self.blacklist@[i]@
    }
}

// ---------------------------------------------------------------------------
// Tactic normalization: clamp, then one tactic per kind at its highest
// intensity, in sort-key order.
// ---------------------------------------------------------------------------

/// The highest clamped intensity among the first `n` tactics of ordinal `d`.
pub open spec fn max_intensity(ts: Seq<InterviewerTactic>, d: u8, n: int) -> Option<u8>
    decreases n,
{
    if n <= 0 {
        None
    } else {
        let prev = max_intensity(ts, d, n - 1);
        let t = clamped_spec(ts[n - 1]);
        if disc_spec(t) != d {
            prev
        } else {
            match prev {
                None => Some(intensity_spec(t)),
                Some(m) => if intensity_spec(t) > m {
                    Some(intensity_spec(t))
                } else {
                    Some(m)
                },
            }
        }
    }
}

pub open spec fn push_kind(out: Seq<InterviewerTactic>, ts: Seq<InterviewerTactic>, d: u8) -> Seq<
    InterviewerTactic,
> {
    match max_intensity(ts, d, ts.len() as int) {
        None => out,
        Some(m) => out.push(tactic_of(d, m)),
    }
}

/// Clamped, collapsed to one tactic per kind at its highest intensity, in
/// sort-key order.
pub open spec fn normalized_tactics(ts: Seq<InterviewerTactic>) -> Seq<InterviewerTactic> {
    push_kind(push_kind(push_kind(push_kind(Seq::empty(), ts, 0), ts, 1), ts, 2), ts, 3)
}

proof fn lemma_max_intensity_range(ts: Seq<InterviewerTactic>, d: u8, n: int)
    ensures
        max_intensity(ts, d, n) matches Some(m) ==> 1 <= m <= 5,
    decreases n,
{
    if n > 0 {
        lemma_max_intensity_range(ts, d, n - 1);
    }
}

proof fn lemma_push_kind_shape(out: Seq<InterviewerTactic>, ts: Seq<InterviewerTactic>, d: u8)
    requires
        d < 4,
        forall|i: int| 0 <= i < out.len() ==> disc_spec(#[trigger] out[i]) < d,
        forall|i: int| 0 <= i < out.len() ==> 1 <= intensity_spec(#[trigger] out[i]) <= 5,
        forall|i: int, j: int| 0 <= i < j < out.len() ==> disc_spec(out[i]) < disc_spec(out[j]),
    ensures
        forall|i: int| 0 <= i < push_kind(out, ts, d).len() ==> disc_spec(#[trigger] push_kind(out, ts, d)[i]) <= d,
        forall|i: int| 0 <= i < push_kind(out, ts, d).len() ==> 1 <= intensity_spec(#[trigger] push_kind(out, ts, d)[i]) <= 5,
        forall|i: int, j: int| 0 <= i < j < push_kind(out, ts, d).len() ==> disc_spec(push_kind(out, ts, d)[i]) < disc_spec(push_kind(out, ts, d)[j]),
{
    lemma_max_intensity_range(ts, d, ts.len() as int);
}

/// Normalized tactics hold at most one tactic of each kind, in strictly
/// increasing sort-key order, each with an intensity in `[1, 5]`.
pub proof fn law_normalized_tactics_sorted(ts: Seq<InterviewerTactic>)
    ensures
        normalized_tactics(ts).len() <= 4,
        forall|i: int, j: int|
            0 <= i < j < normalized_tactics(ts).len() ==> disc_spec(normalized_tactics(ts)[i])
                < disc_spec(normalized_tactics(ts)[j]),
        forall|i: int|
            0 <= i < normalized_tactics(ts).len() ==> 1 <= intensity_spec(
                #[trigger] normalized_tactics(ts)[i],
            ) <= 5,
{
    let e = Seq::<InterviewerTactic>::empty();
    lemma_push_kind_shape(e, ts, 0);
    let p0 = push_kind(e, ts, 0);
    lemma_push_kind_shape(p0, ts, 1);
    let p1 = push_kind(p0, ts, 1);
    lemma_push_kind_shape(p1, ts, 2);
    let p2 = push_kind(p1, ts, 2);
    lemma_push_kind_shape(p2, ts, 3);
}

fn normalize_tactics(tactics: Vec<InterviewerTactic>) -> (out: Vec<InterviewerTactic>)
    ensures
        out@ == normalized_tactics(tactics@),
{
    let mut best: [Option<u8>; 4] = [None, None, None, None];
    let mut i: usize = 0;
    while i < tactics.len()
        invariant
            i <= tactics@.len(),
            forall|d: int| 0 <= d < 4 ==> #[trigger] best@[d] == max_intensity(tactics@, d as u8, i as int),
        decreases tactics@.len() - i,
    {
        let t = tactics[i].clamped();
        let (d, v) = t.sort_key();
        let slot = d as usize;
        let next = match best[slot] {
            None => Some(v),
            Some(m) => if v > m {
                Some(v)
            } else {
                Some(m)
            },
        };
        best[slot] = next;
        proof {
            assert forall|e: int| 0 <= e < 4 implies #[trigger] best@[e] == max_intensity(
                tactics@,
                e as u8,
                i as int + 1,
            ) by {
                if e != d as int {
                    assert(disc_spec(clamped_spec(tactics@[i as int])) != e as u8);
                }
            }
        }
        i = i + 1;
    }
    let mut out: Vec<InterviewerTactic> = Vec::new();
    let ghost mut target: Seq<InterviewerTactic> = Seq::empty();
    let mut d: usize = 0;
    while d < 4
        invariant
            d <= 4,
            forall|e: int| 0 <= e < 4 ==> #[trigger] best@[e] == max_intensity(
                tactics@,
                e as u8,
                tactics@.len() as int,
            ),
            out@ == target,
            d == 0 ==> target == Seq::<InterviewerTactic>::empty(),
            d == 1 ==> target == push_kind(Seq::empty(), tactics@, 0),
            d == 2 ==> target == push_kind(push_kind(Seq::empty(), tactics@, 0), tactics@, 1),
            d == 3 ==> target == push_kind(
                push_kind(push_kind(Seq::empty(), tactics@, 0), tactics@, 1),
                tactics@,
                2,
            ),
            d == 4 ==> target == normalized_tactics(tactics@),
        decreases 4 - d,
    {
        match best[d] {
            Some(m) => {
                let t = match d {
                    0 => InterviewerTactic::ForceNuancedTradeoff { intensity: m },
                    1 => InterviewerTactic::ProbeOvergeneralization { intensity: m },
                    2 => InterviewerTactic::StressTestQuantitative { intensity: m },
                    _ => InterviewerTactic::TechnicalEdgeCaseProbe { intensity: m },
                };
                out.push(t);
            },
            None => {},
        }
        proof {
            target = push_kind(target, tactics@, d as u8);
        }
        d = d + 1;
    }
    out
}

// ---------------------------------------------------------------------------
// Blacklist normalization: trimmed terms of two or more characters, sorted
// by character code and deduplicated.
// ---------------------------------------------------------------------------

/// Lexicographic order by character code.
pub open spec fn lex_lt(a: Seq<char>, b: Seq<char>) -> bool
    decreases a.len(),
{
    if a.len() == 0 {
        b.len() > 0
    } else if b.len() == 0 {
        false
    } else if a[0] < b[0] {
        true
    } else if a[0] > b[0] {
        false
    } else {
        lex_lt(a.drop_first(), b.drop_first())
    }
}

proof fn lemma_lex_irreflexive(a: Seq<char>)
    ensures
        !lex_lt(a, a),
    decreases a.len(),
{
    if a.len() > 0 {
        lemma_lex_irreflexive(a.drop_first());
    }
}

proof fn lemma_lex_transitive(a: Seq<char>, b: Seq<char>, c: Seq<char>)
    requires
        lex_lt(a, b),
        lex_lt(b, c),
    ensures
        lex_lt(a, c),
    decreases a.len(),
{
    if a.len() > 0 && b.len() > 0 && c.len() > 0 {
        if a[0] == b[0] && b[0] == c[0] {
            lemma_lex_transitive(a.drop_first(), b.drop_first(), c.drop_first());
        } else if a[0] < b[0] || b[0] < c[0] {
            assert(a[0] < c[0]);
        }
    }
}

proof fn lemma_lex_total(a: Seq<char>, b: Seq<char>)
    requires
        a != b,
    ensures
        lex_lt(a, b) || lex_lt(b, a),
    decreases a.len(),
{
    if a.len() > 0 && b.len() > 0 && a[0] == b[0] {
        if a.drop_first() == b.drop_first() {
            assert(a =~= seq![a[0]] + a.drop_first());
            assert(b =~= seq![b[0]] + b.drop_first());
        }
        lemma_lex_total(a.drop_first(), b.drop_first());
    } else if a.len() > 0 && b.len() > 0 {
        assert(a[0] < b[0] || b[0] < a[0]);
    } else if a.len() == 0 && b.len() == 0 {
        assert(a =~= b);
    }
}

/// Lexicographic comparison by character code.
fn lex_less(a: &str, b: &str) -> (r: bool)
    ensures
        r == lex_lt(a@, b@),
{
    let n = a.unicode_len();
    let m = b.unicode_len();
    let mut i: usize = 0;
    proof {
        assert(a@.subrange(0, n as int) =~= a@);
        assert(b@.subrange(0, m as int) =~= b@);
    }
    while i < n && i < m
        invariant
            n == a@.len(),
            m == b@.len(),
            i <= n,
            i <= m,
            forall|j: int| 0 <= j < i ==> a@[j] == b@[j],
            lex_lt(a@, b@) == lex_lt(a@.subrange(i as int, n as int), b@.subrange(i as int, m as int)),
        decreases n - i,
    {
        let x = a.get_char(i);
        let y = b.get_char(i);
        proof {
            let sa = a@.subrange(i as int, n as int);
            let sb = b@.subrange(i as int, m as int);
            assert(sa[0] == x && sb[0] == y);
            assert(sa.drop_first() =~= a@.subrange(i as int + 1, n as int));
            assert(sb.drop_first() =~= b@.subrange(i as int + 1, m as int));
        }
        if x < y {
            return true;
        }
        if x > y {
            return false;
        }
        i = i + 1;
    }
    proof {
        let sa = a@.subrange(i as int, n as int);
        let sb = b@.subrange(i as int, m as int);
        assert(i == n ==> sa.len() == 0);
        assert(i == m ==> sb.len() == 0);
    }
    i == n && i < m
}

/// Strictly increasing in character-code order.
pub open spec fn strictly_sorted(s: Seq<Seq<char>>) -> bool {
    forall|i: int, j: int| 0 <= i < j < s.len() ==> lex_lt(s[i], s[j])
}

/// A seed term survives: trimmed, it has two or more characters.
pub open spec fn term_kept(s: Seq<char>) -> bool {
    trim_spec(s).len() >= 2
}

/// The views of a list of strings.
pub open spec fn views(v: Seq<String>) -> Seq<Seq<char>> {
    v.map_values(|s: String| s@)
}

/// The normalized blacklist of `seeds`: strictly sorted, holding exactly
/// the trimmed forms of the surviving seeds, each already trimmed.
pub open spec fn blacklist_of(seeds: Seq<Seq<char>>, out: Seq<Seq<char>>) -> bool {
    &&& strictly_sorted(out)
    &&& forall|i: int| 0 <= i < out.len() ==> trim_spec(#[trigger] out[i]) == out[i]
    &&& forall|x: Seq<char>|
        out.contains(x) <==> exists|k: int|
            0 <= k < seeds.len() && term_kept(seeds[k]) && trim_spec(seeds[k]) == x
}

fn normalize_blacklist(seeds: Vec<String>) -> (out: Vec<String>)
    ensures
        blacklist_of(views(seeds@), views(out@)),
{
    let mut out: Vec<String> = Vec::new();
    let mut i: usize = 0;
    while i < seeds.len()
        invariant
            i <= seeds@.len(),
            strictly_sorted(views(out@)),
            forall|q: int| 0 <= q < out@.len() ==> trim_spec(#[trigger] views(out@)[q]) == views(out@)[q],
            forall|x: Seq<char>|
                views(out@).contains(x) <==> exists|k: int|
                    0 <= k < i && term_kept(seeds@[k]@) && trim_spec(seeds@[k]@) == x,
        decreases seeds@.len() - i,
    {
        let t = trim(seeds[i].as_str());
        if t.unicode_len() >= 2 {
            let mut p: usize = 0;
            while p < out.len() && lex_less(out[p].as_str(), t)
                invariant
                    p <= out@.len(),
                    forall|q: int| 0 <= q < p ==> lex_lt(#[trigger] views(out@)[q], t@),
                decreases out@.len() - p,
            {
                p = p + 1;
            }
            let dup = p < out.len() && str_eq(out[p].as_str(), t);
            if !dup {
                let ghost old_views = views(out@);
                proof {
                    if p < out@.len() {
                        lemma_lex_total(old_views[p as int], t@);
                    }
                }
                out.insert(p, String::from_str(t));
                proof {
                    let nv = views(out@);
                    assert(nv =~= old_views.insert(p as int, t@));
                    assert forall|a: int, b: int| 0 <= a < b < nv.len() implies lex_lt(
                        nv[a],
                        nv[b],
                    ) by {
                        if b == p as int {
                            assert(lex_lt(old_views[a], t@));
                        } else if a == p as int {
                            assert(lex_lt(t@, old_views[p as int]));
                            if b - 1 > p as int {
                                lemma_lex_transitive(t@, old_views[p as int], old_views[b - 1]);
                            }
                        } else if a < p as int && b > p as int {
                            assert(lex_lt(old_views[a], old_views[b - 1]));
                        } else if a > p as int {
                            assert(lex_lt(old_views[a - 1], old_views[b - 1]));
                        }
                    }
                    assert forall|q: int| 0 <= q < nv.len() implies trim_spec(#[trigger] nv[q]) == nv[q] by {
                        if q < p as int {
                            assert(nv[q] == old_views[q]);
                        } else if q > p as int {
                            assert(nv[q] == old_views[q - 1]);
                        }
                    }
                    assert forall|x: Seq<char>|
                        nv.contains(x) <==> (old_views.contains(x) || x == t@) by {
                        if nv.contains(x) {
                            let w = choose|w: int| 0 <= w < nv.len() && nv[w] == x;
                            if w < p as int {
                                assert(old_views[w] == x);
                            } else if w > p as int {
                                assert(old_views[w - 1] == x);
                            }
                        }
                        if old_views.contains(x) {
                            let w = choose|w: int| 0 <= w < old_views.len() && old_views[w] == x;
                            if w < p as int {
                                assert(nv[w] == x);
                            } else {
                                assert(nv[w + 1] == x);
                            }
                        }
                        if x == t@ {
                            assert(nv[p as int] == x);
                        }
                    }
                }
            } else {
                proof {
                    assert(views(out@)[p as int] == t@);
                }
            }
        }
        proof {
            assert forall|x: Seq<char>|
                views(out@).contains(x) <==> exists|k: int|
                    0 <= k < i + 1 && term_kept(seeds@[k]@) && trim_spec(seeds@[k]@) == x by {
                if exists|k: int|
                    0 <= k < i + 1 && term_kept(seeds@[k]@) && trim_spec(seeds@[k]@) == x {
                    let k = choose|k: int|
                        0 <= k < i + 1 && term_kept(seeds@[k]@) && trim_spec(seeds@[k]@) == x;
                    if k < i {
                    }
                }
            }
        }
        i = i + 1;
    }
    proof {
        let vs = views(seeds@);
        assert forall|x: Seq<char>|
            views(out@).contains(x) <==> exists|k: int|
                0 <= k < vs.len() && term_kept(vs[k]) && trim_spec(vs[k]) == x by {
            if views(out@).contains(x) {
                let k = choose|k: int|
                    0 <= k < seeds@.len() && term_kept(seeds@[k]@) && trim_spec(seeds@[k]@) == x;
                assert(vs[k] == seeds@[k]@);
            }
            if exists|k: int| 0 <= k < vs.len() && term_kept(vs[k]) && trim_spec(vs[k]) == x {
                let k = choose|k: int| 0 <= k < vs.len() && term_kept(vs[k]) && trim_spec(vs[k]) == x;
                assert(vs[k] == seeds@[k]@);
            }
        }
    }
    out
}


// ---------------------------------------------------------------------------
// The compiler.
// ---------------------------------------------------------------------------

/// How many categories trim to `key` among the first `n`.
pub open spec fn category_count(cats: Seq<String>, key: Seq<char>, n: int) -> nat
    decreases n,
{
    if n <= 0 {
        0
    } else {
        category_count(cats, key, n - 1) + if trim_spec(cats[n - 1]@) == key {
            1nat
        } else {
            0nat
        }
    }
}

/// One occurrence gives 2, each further one adds 1, up to 5; none gives 1.
pub open spec fn count_intensity(n: nat) -> u8 {
    if n == 0 {
        1
    } else if n >= 4 {
        5
    } else {
        (n + 1) as u8
    }
}

/// The tactic a trimmed category key maps to, if any.
pub open spec fn category_tactic(cats: Seq<String>, key: Seq<char>) -> Option<InterviewerTactic> {
    if key == "overgeneralization"@ || key == "all_or_nothing"@ || key == "labeling"@ {
        Some(
            InterviewerTactic::ProbeOvergeneralization {
                intensity: count_intensity(category_count(cats, key, cats.len() as int)),
            },
        )
    } else if key == "magnification_minimization"@ || key == "mental_filter"@ {
        Some(InterviewerTactic::ForceNuancedTradeoff { intensity: 3 })
    } else if key == "should_statements"@ || key == "emotional_reasoning"@ {
        Some(InterviewerTactic::ForceNuancedTradeoff { intensity: 2 })
    } else if key == "jumping_to_conclusions"@ || key == "personalization"@
        || key == "disqualifying_the_positive"@ {
        Some(InterviewerTactic::ProbeOvergeneralization { intensity: 2 })
    } else {
        None
    }
}

/// The tactics the first `n` categories map to, in order.
pub open spec fn category_tactics(cats: Seq<String>, n: int) -> Seq<InterviewerTactic>
    decreases n,
{
    if n <= 0 {
        Seq::empty()
    } else {
        match category_tactic(cats, trim_spec(cats[n - 1]@)) {
            Some(t) => category_tactics(cats, n - 1).push(t),
            None => category_tactics(cats, n - 1),
        }
    }
}

/// The tactics the resource band maps to.
pub open spec fn band_tactics(band: Option<ResourceBand>) -> Seq<InterviewerTactic> {
    match band {
        None => Seq::empty(),
        Some(ResourceBand::Depleted) => seq![
            InterviewerTactic::StressTestQuantitative { intensity: 5 },
            InterviewerTactic::TechnicalEdgeCaseProbe { intensity: 4 },
        ],
        Some(ResourceBand::Moderate) => seq![InterviewerTactic::StressTestQuantitative { intensity: 3 }],
        Some(ResourceBand::Ample) => seq![InterviewerTactic::TechnicalEdgeCaseProbe { intensity: 2 }],
    }
}

/// At least three purchases, one of them of 10,000 or more.
pub open spec fn large_spend(amounts: Seq<i64>) -> bool {
    &&& (amounts.len() as u32) >= 3
    &&& exists|k: int| 0 <= k < amounts.len() && amounts[k] >= 10_000
}

/// `2 + min(late, 3) + min(impulse, 2)`, at most 5.
pub open spec fn habit_intensity(late: u32, impulse: u32) -> u8 {
    let l: int = if late < 3 {
        late as int
    } else {
        3
    };
    let i: int = if impulse < 2 {
        impulse as int
    } else {
        2
    };
    if 2 + l + i > 5 {
        5
    } else {
        (2 + l + i) as u8
    }
}

/// Every tactic the snapshot maps to, before normalization.
pub open spec fn raw_tactics(snap: FossilSnapshot) -> Seq<InterviewerTactic> {
    let a = category_tactics(snap.distortion_categories@, snap.distortion_categories@.len() as int)
        + band_tactics(snap.resource_band);
    let b = if large_spend(snap.purchase_amounts@) {
        a.push(InterviewerTactic::StressTestQuantitative { intensity: 4 })
    } else {
        a
    };
    let c = if snap.late_night_purchase_count > 0 || snap.impulse_purchase_count > 0 {
        b.push(
            InterviewerTactic::ForceNuancedTradeoff {
                intensity: habit_intensity(snap.late_night_purchase_count, snap.impulse_purchase_count),
            },
        )
    } else {
        b
    };
    if c.len() == 0 {
        seq![
            InterviewerTactic::TechnicalEdgeCaseProbe { intensity: 2 },
            InterviewerTactic::ForceNuancedTradeoff { intensity: 2 },
        ]
    } else {
        c
    }
}

/// Count the categories that trim to `key`, mapped to an intensity.
fn intensity_from_category_count(cats: &Vec<String>, key: &str) -> (r: u8)
    ensures
        r == count_intensity(category_count(cats@, key@, cats@.len() as int)),
{
    let mut n: usize = 0;
    let mut i: usize = 0;
    while i < cats.len()
        invariant
            i <= cats@.len(),
            n == category_count(cats@, key@, i as int),
            n <= i,
        decreases cats@.len() - i,
    {
        if str_eq(trim(cats[i].as_str()), key) {
            n = n + 1;
        }
        i = i + 1;
    }
    if n == 0 {
        1
    } else if n >= 4 {
        5
    } else {
        (n + 1) as u8
    }
}

/// The tactic for one trimmed category key.
fn tactic_for_category(cats: &Vec<String>, key: &str) -> (r: Option<InterviewerTactic>)
    ensures
        r == category_tactic(cats@, key@),
{
    if str_eq(key, "overgeneralization") || str_eq(key, "all_or_nothing") || str_eq(
        key,
        "labeling",
    ) {
        Some(
            InterviewerTactic::ProbeOvergeneralization {
                intensity: intensity_from_category_count(cats, key),
            },
        )
    } else if str_eq(key, "magnification_minimization") || str_eq(key, "mental_filter") {
        Some(InterviewerTactic::ForceNuancedTradeoff { intensity: 3 })
    } else if str_eq(key, "should_statements") || str_eq(key, "emotional_reasoning") {
        Some(InterviewerTactic::ForceNuancedTradeoff { intensity: 2 })
    } else if str_eq(key, "jumping_to_conclusions") || str_eq(key, "personalization") || str_eq(
        key,
        "disqualifying_the_positive",
    ) {
        Some(InterviewerTactic::ProbeOvergeneralization { intensity: 2 })
    } else {
        None
    }
}

/// Irreversible map from fossils to an abstract tactic set: the amounts,
/// counts and category keys decide which tactics are pushed, and only the
/// normalized tactics and the normalized seed terms leave.
pub fn compile_interviewer_tactics(snapshot: FossilSnapshot) -> (set: AbstractTacticSet)
    ensures
        set.tactic_seq() == normalized_tactics(raw_tactics(snapshot)),
        blacklist_of(views(snapshot.blacklist_seed_terms@), set.blacklist_seq()),
{
    let ghost snap = snapshot;
    let FossilSnapshot {
        resource_band,
        distortion_categories,
        purchase_amounts,
        late_night_purchase_count,
        impulse_purchase_count,
        blacklist_seed_terms,
    } = snapshot;
    let mut tactics: Vec<InterviewerTactic> = Vec::new();
    let mut i: usize = 0;
    while i < distortion_categories.len()
        invariant
            i <= distortion_categories@.len(),
            tactics@ == category_tactics(distortion_categories@, i as int),
        decreases distortion_categories@.len() - i,
    {
        let key = trim(distortion_categories[i].as_str());
        match tactic_for_category(&distortion_categories, key) {
            Some(t) => tactics.push(t),
            None => {},
        }
        i = i + 1;
    }
    let ghost cat_part = tactics@;
    match resource_band {
        Some(ResourceBand::Depleted) => {
            tactics.push(InterviewerTactic::StressTestQuantitative { intensity: 5 });
            tactics.push(InterviewerTactic::TechnicalEdgeCaseProbe { intensity: 4 });
        },
        Some(ResourceBand::Moderate) => {
            tactics.push(InterviewerTactic::StressTestQuantitative { intensity: 3 });
        },
        Some(ResourceBand::Ample) => {
            tactics.push(InterviewerTactic::TechnicalEdgeCaseProbe { intensity: 2 });
        },
        None => {},
    }
    assert(tactics@ =~= cat_part + band_tactics(resource_band));
    #[verifier::truncate]
    let n_amt: u32 = purchase_amounts.len() as u32;
    if n_amt >= 3 {
        let mut found = false;
        let mut k: usize = 0;
        while k < purchase_amounts.len()
            invariant
                k <= purchase_amounts@.len(),
                found <==> exists|j: int| 0 <= j < k && purchase_amounts@[j] >= 10_000,
            decreases purchase_amounts@.len() - k,
        {
            if purchase_amounts[k] >= 10_000 {
                found = true;
            }
            k = k + 1;
        }
        if found {
            tactics.push(InterviewerTactic::StressTestQuantitative { intensity: 4 });
        }
    }
    if late_night_purchase_count > 0 || impulse_purchase_count > 0 {
        let l: u8 = if late_night_purchase_count < 3 {
            late_night_purchase_count as u8
        } else {
            3
        };
        let m: u8 = if impulse_purchase_count < 2 {
            impulse_purchase_count as u8
        } else {
            2
        };
        let sum: u8 = 2 + l + m;
        let intens: u8 = if sum > 5 {
            5
        } else {
            sum
        };
        tactics.push(InterviewerTactic::ForceNuancedTradeoff { intensity: intens });
    }
    if tactics.len() == 0 {
        tactics.push(InterviewerTactic::TechnicalEdgeCaseProbe { intensity: 2 });
        tactics.push(InterviewerTactic::ForceNuancedTradeoff { intensity: 2 });
    }
    assert(tactics@ =~= raw_tactics(snap));
    let tactics = normalize_tactics(tactics);
    let blacklist = normalize_blacklist(blacklist_seed_terms);
    assert forall|i: int| 0 <= i < blacklist@.len() implies trim_spec(#[trigger] blacklist@[i]@) == blacklist@[i]@ by {
        assert(views(blacklist@)[i] == blacklist@[i]@);
    }
    AbstractTacticSet { tactics, blacklist }
}

// ---------------------------------------------------------------------------
// The sealed set and the oni prompt.
// ---------------------------------------------------------------------------

/// The closing line of every oni system prompt.
pub open spec fn i22_line() -> Seq<char> {
    "【I-22】候補の個人財務・CBT原文・Twin数値・固有の私的事象をプロンプトに再現・引用・推測してはならない。抽象的な思考品質のみを評価せよ。"@
}

/// Each tactic's instruction followed by a line break, in order.
pub open spec fn tactic_lines(ts: Seq<InterviewerTactic>, n: int) -> Seq<char>
    decreases n,
{
    if n <= 0 {
        Seq::empty()
    } else {
        tactic_lines(ts, n - 1) + instruction_text(clamped_spec(ts[n - 1])) + "\n"@
    }
}

/// The system instructions of a tactic list: one line per tactic, then the
/// closing line.
pub open spec fn system_instructions(ts: Seq<InterviewerTactic>) -> Seq<char> {
    tactic_lines(ts, ts.len() as int) + i22_line()
}

/// The oni prompt for a tactic list and a public brief: the instructions,
/// and the trimmed brief under its heading when it is not blank.
pub open spec fn rendered_prompt(ts: Seq<InterviewerTactic>, brief: Seq<char>) -> Seq<char> {
    if trim_spec(brief).len() == 0 {
        system_instructions(ts)
    } else {
        system_instructions(ts) + "\n【公開ブリーフ】\n"@ + trim_spec(brief)
    }
}

impl AbstractTacticSet {
    /// The tactics, in sort-key order.
    pub closed spec fn tactic_seq(&self) -> Seq<InterviewerTactic> {
        self.tactics@
    }

    /// The leak blacklist, as character sequences.
    pub closed spec fn blacklist_seq(&self) -> Seq<Seq<char>> {
        views(self.blacklist@)
    }

    /// The leak blacklist, as strings.
    pub closed spec fn blacklist_strings(&self) -> Seq<String> {
        self.blacklist@
    }

    pub proof fn lemma_blacklist_views(&self)
        ensures
            self.blacklist_seq() == views(self.blacklist_strings()),
    {
    }

    pub fn blacklist_terms(&self) -> (r: &[String])
        ensures
            views(r@) == self.blacklist_seq(),
            r@ == self.blacklist_strings(),
    {
        self.blacklist.as_slice()
    }

    pub fn tactics(&self) -> (r: &[InterviewerTactic])
        ensures
            r@ == self.tactic_seq(),
    {
        self.tactics.as_slice()
    }

    /// Rehydrate a frozen directive set, normalizing both lists again.
    pub fn from_frozen(tactics: Vec<InterviewerTactic>, blacklist: Vec<String>) -> (set: Self)
        ensures
            set.tactic_seq() == normalized_tactics(tactics@),
            blacklist_of(views(blacklist@), set.blacklist_seq()),
    {
        let tactics = normalize_tactics(tactics);
        let blacklist = normalize_blacklist(blacklist);
        assert forall|i: int| 0 <= i < blacklist@.len() implies trim_spec(#[trigger] blacklist@[i]@) == blacklist@[i]@ by {
            assert(views(blacklist@)[i] == blacklist@[i]@);
        }
        AbstractTacticSet { tactics, blacklist }
    }

    /// The oni system prompt: the tactics' instructions joined by line
    /// breaks, closed by the I-22 line. No fossil reaches it.
    pub fn to_system_instructions(&self) -> (s: String)
        ensures
            s@ == system_instructions(self.tactic_seq()),
    {
        let mut out = String::from_str("");
        let mut i: usize = 0;
        proof {
            reveal_strlit("");
        }
        while i < self.tactics.len()
            invariant
                i <= self.tactics@.len(),
                out@ == tactic_lines(self.tactics@, i as int),
            decreases self.tactics@.len() - i,
        {
            let line = self.tactics[i].to_instruction();
            out.append(line.as_str());
            out.append("\n");
            i = i + 1;
        }
        out.append(
            "【I-22】候補の個人財務・CBT原文・Twin数値・固有の私的事象をプロンプトに再現・引用・推測してはならない。抽象的な思考品質のみを評価せよ。",
        );
        out
    }
}

/// Typestate marker for the oni interview stream: nothing here takes a
/// vault handle.
#[derive(Debug, Default, Clone, Copy)]
pub struct OniModePrompt;

impl OniModePrompt {
    /// The prompt built solely from the abstract tactics and the optional
    /// public job brief.
    pub fn render(tactics: &AbstractTacticSet, public_brief: &str) -> (s: String)
        ensures
            s@ == rendered_prompt(tactics.tactic_seq(), public_brief@),
    {
        let brief = trim(public_brief);
        let mut out = tactics.to_system_instructions();
        if brief.unicode_len() != 0 {
            out.append("\n【公開ブリーフ】\n");
            out.append(brief);
        }
        out
    }

    /// Render, then gate against the compile-time blacklist, fail-closed:
    /// the rendered text passes exactly when no blacklist term is a hit in
    /// it, and otherwise the first hit term, in blacklist order, is named.
    pub fn render_sealed(tactics: &AbstractTacticSet, public_brief: &str) -> (r: Result<
        String,
        RenderGuardError,
    >)
        ensures
            leak_outcome(rendered_prompt(tactics.tactic_seq(), public_brief@), tactics.blacklist_seq(), r),
            forall|k: int| 0 <= k < tactics.blacklist_seq().len() ==> trim_spec(#[trigger] tactics.blacklist_seq()[k])
                == tactics.blacklist_seq()[k],
    {
        proof {
            use_type_invariant(tactics);
        }
        let text = Self::render(tactics, public_brief);
        let terms = tactics.blacklist_terms();
        let r = seal_oni_payload(text.as_str(), terms);
        proof {
            assert(term_views(terms@) =~= views(terms@));
        }
        r
    }
}

} // verus!
