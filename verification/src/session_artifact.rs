//! The frozen interview session artifact: the compiled directives, the
//! per-turn seeds, the quantized resource reading and the vacuum-safe
//! evidence bodies, bound together by a content fingerprint; and the
//! helpers that build its evidence (amount bands, the JST late-night test,
//! the purchase summary line).
use vstd::prelude::*;
use crate::digest::{le32, le64, push_bytes, push_le32, push_le64, sha256, sha256_spec};
use crate::interviewer_context::{compile_interviewer_tactics, AbstractTacticSet, FossilSnapshot};
use crate::mentor_zpd::COLISEUM_GENERATION_SEED;
use crate::tactics::{disc_spec, intensity_spec, InterviewerTactic};
use crate::text::{str_eq, trim, trim_spec, truncate_chars, truncated};

verus! {

pub const INTERVIEW_SESSION_ARTIFACT_SCHEMA: &'static str = "interview_session_artifact.v1";

/// Per-turn seed slots.
pub const PER_TURN_SEED_SLOTS: usize = 32;

/// Maximum characters kept in an evidence summary.
pub const SUMMARY_MAX: usize = 280;

/// Seed of turn `i`: `base · 1_000_003 + i`, wrapping in 32 bits.
pub open spec fn turn_seed(base: u32, i: int) -> u32 {
    (((base * 1_000_003) % 0x1_0000_0000 + i % 0x1_0000_0000) % 0x1_0000_0000) as u32
}

/// Allocate per-turn seeds from the coliseum base seed.
pub fn allocate_per_turn_seeds(base: u32, n: usize) -> (v: Vec<u32>)
    ensures
        v@.len() == n,
        forall|i: int| 0 <= i < n ==> #[trigger] v@[i] == turn_seed(base, i),
{
    let scaled: u64 = (base as u64 * 1_000_003u64) % 0x1_0000_0000u64;
    let mut v: Vec<u32> = Vec::new();
    let mut i: usize = 0;
    while i < n
        invariant
            i <= n,
            v@.len() == i,
            scaled == (base * 1_000_003) % 0x1_0000_0000,
            forall|j: int| 0 <= j < i ==> #[trigger] v@[j] == turn_seed(base, j),
        decreases n - i,
    {
        let low: u64 = (i as u64) % 0x1_0000_0000u64;
        v.push(((scaled + low) % 0x1_0000_0000u64) as u32);
        i = i + 1;
    }
    v
}

pub open spec fn band_spec(yen: i64) -> &'static str {
    if yen <= 0 {
        "none"
    } else if yen <= 999 {
        "micro"
    } else if yen <= 4_999 {
        "low"
    } else if yen <= 19_999 {
        "mid"
    } else if yen <= 99_999 {
        "high"
    } else {
        "extreme"
    }
}

/// Band a yen total without retaining the amount.
pub fn amount_band(yen: i64) -> (b: &'static str)
    ensures
        b == band_spec(yen),
{
    if yen <= 0 {
        "none"
    } else if yen <= 999 {
        "micro"
    } else if yen <= 4_999 {
        "low"
    } else if yen <= 19_999 {
        "mid"
    } else if yen <= 99_999 {
        "high"
    } else {
        "extreme"
    }
}

/// The JST hour of a unix time (saturating at the i64 bounds).
pub open spec fn jst_hour(t: i64) -> int {
    let shifted = if t + 32_400 > i64::MAX {
        i64::MAX as int
    } else {
        t + 32_400
    };
    (shifted % 86_400) / 3_600
}

/// Whether a unix time falls between 23:00 and 05:00 JST.
pub fn is_late_night_jst(occurred_at_unix: i64) -> (b: bool)
    ensures
        b == (jst_hour(occurred_at_unix) >= 23 || jst_hour(occurred_at_unix) < 5),
{
    let jst: i64 = if occurred_at_unix > i64::MAX - 32_400 {
        i64::MAX
    } else {
        occurred_at_unix + 32_400
    };
    let tod: i64 = if jst >= 0 {
        jst % 86_400
    } else {
        let m = (-(jst + 1)) % 86_400;
        86_399 - m
    };
    proof {
        if jst < 0 {
            let m = (-(jst + 1)) % 86_400;
            assert(tod == jst % 86_400) by (nonlinear_arith)
                requires
                    jst < 0,
                    m == (-(jst + 1)) % 86_400,
                    tod == 86_399 - m,
            ;
        }
    }
    let hour = tod / 3_600;
    hour >= 23 || hour < 5
}

pub open spec fn summary_text(merchant: Seq<char>, yen: i64, late_night: bool) -> Seq<char> {
    truncated(
        "merchant="@ + trim_spec(merchant) + " band="@ + band_spec(yen)@ + " when="@ + (if late_night {
            "late_night"@
        } else {
            "day"@
        }),
        SUMMARY_MAX as nat,
    )
}

/// `merchant=<trimmed merchant> band=<band> when=<late_night|day>`, cut to
/// the summary length.
pub fn purchase_text_summary(merchant_norm: &str, yen: i64, late_night: bool) -> (s: String)
    ensures
        s@ == summary_text(merchant_norm@, yen, late_night),
{
    let band = amount_band(yen);
    let night = if late_night {
        "late_night"
    } else {
        "day"
    };
    let mut line = String::from_str("merchant=");
    line.append(trim(merchant_norm));
    line.append(" band=");
    line.append(band);
    line.append(" when=");
    line.append(night);
    truncate_chars(line.as_str(), SUMMARY_MAX)
}

// ---------------------------------------------------------------------------
// The frozen artifact.
// ---------------------------------------------------------------------------

/// A distortion's evidence body. The confidence is carried by its IEEE-754
/// bit pattern, already clamped into `[0, 1]` by the caller.
#[derive(Debug, Clone, PartialEq, Eq)]
pub struct DistortionEvidenceSnap {
    pub source_id: String,
    pub category: String,
    pub text_summary: String,
    pub confidence_score_bits: u64,
}

#[derive(Debug, Clone, PartialEq, Eq)]
pub struct PurchaseEvidenceSnap {
    pub source_id: String,
    pub text_summary: String,
    pub amount_band: String,
    pub late_night: bool,
}

#[derive(Debug, Clone, PartialEq, Eq)]
pub struct EvidenceSnapshot {
    pub distortions: Vec<DistortionEvidenceSnap>,
    pub purchases: Vec<PurchaseEvidenceSnap>,
    pub frozen_at_unix: i64,
}

#[derive(Debug, Clone, PartialEq, Eq)]
pub struct InterviewSessionArtifact {
    pub schema: String,
    pub session_id: String,
    pub frozen_directives: AbstractTacticSet,
    pub model_hash: String,
    pub per_turn_seeds: Vec<u32>,
    pub r_t_snapshot: u8,
    pub evidence: EvidenceSnapshot,
    pub fingerprint: String,
}

/// A nibble as a lowercase hexadecimal digit, `0`-`9` then `a`-`f`.
pub open spec fn hex_digit(n: int) -> char {
    if n < 10 {
        (48 + n) as char
    } else {
        (87 + n) as char
    }
}

/// Lowercase hexadecimal of a byte string: two digits per byte, high
/// nibble first.
pub open spec fn hex_spec(bytes: Seq<u8>) -> Seq<char>
    decreases bytes.len(),
{
    if bytes.len() == 0 {
        Seq::empty()
    } else {
        hex_spec(bytes.drop_last()) + seq![hex_digit(bytes.last() as int / 16), hex_digit(bytes.last() as int % 16)]
    }
}

/// Calls `hex::encode`. The contract claims what its source does: each byte
/// becomes two lowercase hexadecimal digits, high nibble first, in order.
#[verifier::external_body]
fn hex_encode(bytes: &[u8]) -> (s: String)
    ensures
        s@ == hex_spec(bytes@),
        s@.len() == 2 * bytes@.len(),
{
    hex::encode(bytes)
}

/// UTF-8 bytes of a text followed by a NUL separator.
pub open spec fn zstr(s: Seq<char>) -> Seq<u8> {
    vstd::utf8::encode_utf8(s) + seq![0u8]
}

pub open spec fn seeds_le(seeds: Seq<u32>) -> Seq<u8>
    decreases seeds.len(),
{
    if seeds.len() == 0 {
        Seq::empty()
    } else {
        seeds_le(seeds.drop_last()) + le32(seeds.last())
    }
}

pub open spec fn tactic_key_bytes(ts: Seq<InterviewerTactic>) -> Seq<u8>
    decreases ts.len(),
{
    if ts.len() == 0 {
        Seq::empty()
    } else {
        tactic_key_bytes(ts.drop_last()) + seq![disc_spec(ts.last()), intensity_spec(ts.last())]
    }
}

pub open spec fn terms_bytes(terms: Seq<Seq<char>>) -> Seq<u8>
    decreases terms.len(),
{
    if terms.len() == 0 {
        Seq::empty()
    } else {
        terms_bytes(terms.drop_last()) + zstr(terms.last())
    }
}

pub open spec fn distortion_bytes(d: DistortionEvidenceSnap) -> Seq<u8> {
    zstr(d.source_id@) + zstr(d.category@) + zstr(d.text_summary@) + le64(d.confidence_score_bits)
}

pub open spec fn distortions_bytes(ds: Seq<DistortionEvidenceSnap>) -> Seq<u8>
    decreases ds.len(),
{
    if ds.len() == 0 {
        Seq::empty()
    } else {
        distortions_bytes(ds.drop_last()) + distortion_bytes(ds.last())
    }
}

pub open spec fn purchase_bytes(p: PurchaseEvidenceSnap) -> Seq<u8> {
    zstr(p.source_id@) + zstr(p.text_summary@) + zstr(p.amount_band@) + seq![
        if p.late_night {
            1u8
        } else {
            0u8
        },
    ]
}

pub open spec fn purchases_bytes(ps: Seq<PurchaseEvidenceSnap>) -> Seq<u8>
    decreases ps.len(),
{
    if ps.len() == 0 {
        Seq::empty()
    } else {
        purchases_bytes(ps.drop_last()) + purchase_bytes(ps.last())
    }
}

/// What the fingerprint hashes: schema, session id, model hash and the
/// resource reading, each NUL-separated; the seeds; the directives' sort
/// keys and blacklist; then the evidence bodies.
pub open spec fn fingerprint_preimage(a: InterviewSessionArtifact) -> Seq<u8> {
    zstr(INTERVIEW_SESSION_ARTIFACT_SCHEMA@) + zstr(a.session_id@) + zstr(a.model_hash@) + seq![
        a.r_t_snapshot,
        0u8,
    ] + seeds_le(a.per_turn_seeds@) + seq![0u8] + tactic_key_bytes(a.frozen_directives.tactic_seq())
        + terms_bytes(a.frozen_directives.blacklist_seq()) + le64(a.evidence.frozen_at_unix as u64)
        + distortions_bytes(a.evidence.distortions@) + purchases_bytes(a.evidence.purchases@)
}

/// The artifact's fingerprint: hex of SHA-256 over the preimage.
pub open spec fn fingerprint_spec(a: InterviewSessionArtifact) -> Seq<char> {
    hex_spec(sha256_spec(fingerprint_preimage(a)))
}

fn push_zstr(out: &mut Vec<u8>, s: &str)
    ensures
        final(out)@ == old(out)@ + zstr(s@),
{
    push_bytes(out, s.as_bytes());
    out.push(0u8);
    assert(final(out)@ =~= old(out)@ + zstr(s@));
}

fn push_distortion(out: &mut Vec<u8>, d: &DistortionEvidenceSnap)
    ensures
        final(out)@ == old(out)@ + distortion_bytes(*d),
{
    push_zstr(out, d.source_id.as_str());
    push_zstr(out, d.category.as_str());
    push_zstr(out, d.text_summary.as_str());
    push_le64(out, d.confidence_score_bits);
    assert(final(out)@ =~= old(out)@ + distortion_bytes(*d));
}

fn push_purchase(out: &mut Vec<u8>, p: &PurchaseEvidenceSnap)
    ensures
        final(out)@ == old(out)@ + purchase_bytes(*p),
{
    push_zstr(out, p.source_id.as_str());
    push_zstr(out, p.text_summary.as_str());
    push_zstr(out, p.amount_band.as_str());
    let flag: u8 = if p.late_night {
        1
    } else {
        0
    };
    out.push(flag);
    assert(final(out)@ =~= old(out)@ + purchase_bytes(*p));
}

fn fingerprint_bytes(a: &InterviewSessionArtifact) -> (v: Vec<u8>)
    ensures
        v@ == fingerprint_preimage(*a),
{
    let mut v: Vec<u8> = Vec::new();
    push_zstr(&mut v, INTERVIEW_SESSION_ARTIFACT_SCHEMA);
    push_zstr(&mut v, a.session_id.as_str());
    push_zstr(&mut v, a.model_hash.as_str());
    v.push(a.r_t_snapshot);
    v.push(0u8);
    let ghost head = v@;
    let mut i: usize = 0;
    while i < a.per_turn_seeds.len()
        invariant
            i <= a.per_turn_seeds@.len(),
            v@ == head + seeds_le(a.per_turn_seeds@.subrange(0, i as int)),
        decreases a.per_turn_seeds@.len() - i,
    {
        push_le32(&mut v, a.per_turn_seeds[i]);
        proof {
            let pre = a.per_turn_seeds@.subrange(0, i as int + 1);
            assert(pre.drop_last() =~= a.per_turn_seeds@.subrange(0, i as int));
        }
        i = i + 1;
        assert(v@ =~= head + seeds_le(a.per_turn_seeds@.subrange(0, i as int)));
    }
    assert(a.per_turn_seeds@.subrange(0, a.per_turn_seeds@.len() as int) =~= a.per_turn_seeds@);
    v.push(0u8);
    let ghost head2 = v@;
    let tactics = a.frozen_directives.tactics();
    let mut k: usize = 0;
    while k < tactics.len()
        invariant
            k <= tactics@.len(),
            tactics@ == a.frozen_directives.tactic_seq(),
            v@ == head2 + tactic_key_bytes(tactics@.subrange(0, k as int)),
        decreases tactics@.len() - k,
    {
        let (d, n) = tactics[k].sort_key();
        v.push(d);
        v.push(n);
        proof {
            let pre = tactics@.subrange(0, k as int + 1);
            assert(pre.drop_last() =~= tactics@.subrange(0, k as int));
        }
        k = k + 1;
        assert(v@ =~= head2 + tactic_key_bytes(tactics@.subrange(0, k as int)));
    }
    assert(tactics@.subrange(0, tactics@.len() as int) =~= tactics@);
    let ghost head3 = v@;
    let terms = a.frozen_directives.blacklist_terms();
    let mut t: usize = 0;
    while t < terms.len()
        invariant
            t <= terms@.len(),
            crate::interviewer_context::views(terms@) == a.frozen_directives.blacklist_seq(),
            v@ == head3 + terms_bytes(crate::interviewer_context::views(terms@).subrange(0, t as int)),
        decreases terms@.len() - t,
    {
        push_zstr(&mut v, terms[t].as_str());
        proof {
            let vs = crate::interviewer_context::views(terms@);
            let pre = vs.subrange(0, t as int + 1);
            assert(pre.drop_last() =~= vs.subrange(0, t as int));
            assert(pre.last() == terms@[t as int]@);
        }
        t = t + 1;
        assert(v@ =~= head3 + terms_bytes(crate::interviewer_context::views(terms@).subrange(0, t as int)));
    }
    proof {
        let vs = crate::interviewer_context::views(terms@);
        assert(vs.subrange(0, vs.len() as int) =~= vs);
    }
    push_le64(&mut v, a.evidence.frozen_at_unix as u64);
    let ghost head4 = v@;
    let mut j: usize = 0;
    while j < a.evidence.distortions.len()
        invariant
            j <= a.evidence.distortions@.len(),
            v@ == head4 + distortions_bytes(a.evidence.distortions@.subrange(0, j as int)),
        decreases a.evidence.distortions@.len() - j,
    {
        push_distortion(&mut v, &a.evidence.distortions[j]);
        proof {
            let pre = a.evidence.distortions@.subrange(0, j as int + 1);
            assert(pre.drop_last() =~= a.evidence.distortions@.subrange(0, j as int));
        }
        j = j + 1;
        assert(v@ =~= head4 + distortions_bytes(a.evidence.distortions@.subrange(0, j as int)));
    }
    assert(a.evidence.distortions@.subrange(0, a.evidence.distortions@.len() as int) =~= a.evidence.distortions@);
    let ghost head5 = v@;
    let mut q: usize = 0;
    while q < a.evidence.purchases.len()
        invariant
            q <= a.evidence.purchases@.len(),
            v@ == head5 + purchases_bytes(a.evidence.purchases@.subrange(0, q as int)),
        decreases a.evidence.purchases@.len() - q,
    {
        push_purchase(&mut v, &a.evidence.purchases[q]);
        proof {
            let pre = a.evidence.purchases@.subrange(0, q as int + 1);
            assert(pre.drop_last() =~= a.evidence.purchases@.subrange(0, q as int));
        }
        q = q + 1;
        assert(v@ =~= head5 + purchases_bytes(a.evidence.purchases@.subrange(0, q as int)));
    }
    assert(a.evidence.purchases@.subrange(0, a.evidence.purchases@.len() as int) =~= a.evidence.purchases@);
    assert(v@ =~= fingerprint_preimage(*a));
    v
}

impl InterviewSessionArtifact {
    /// Hex of SHA-256 over the artifact's framed contents.
    pub fn generate_fingerprint(&self) -> (s: String)
        ensures
            s@ == fingerprint_spec(*self),
    {
        let bytes = fingerprint_bytes(self);
        let digest = sha256(bytes.as_slice());
        hex_encode(&digest)
    }

    /// The stored fingerprint is the one the contents give.
    pub fn verify_fingerprint(&self) -> (b: bool)
        ensures
            b == (self.fingerprint@ == fingerprint_spec(*self)),
    {
        let expected = self.generate_fingerprint();
        str_eq(self.fingerprint.as_str(), expected.as_str())
    }

    /// The seed of a turn: its slot, or the last slot past the end, or the
    /// base seed plus the index when there are no slots.
    pub fn seed_for_turn(&self, turn_index: usize) -> (s: u32)
        ensures
            self.per_turn_seeds@.len() == 0 ==> s == ((COLISEUM_GENERATION_SEED as int + (turn_index as int
                % 0x1_0000_0000)) % 0x1_0000_0000) as u32,
            self.per_turn_seeds@.len() > 0 ==> s == self.per_turn_seeds@[if turn_index
                < self.per_turn_seeds@.len() {
                turn_index as int
            } else {
                self.per_turn_seeds@.len() - 1
            }],
    {
        if self.per_turn_seeds.len() == 0 {
            let low: u64 = (turn_index as u64) % 0x1_0000_0000u64;
            return ((COLISEUM_GENERATION_SEED as u64 + low) % 0x1_0000_0000u64) as u32;
        }
        let last = self.per_turn_seeds.len() - 1;
        let idx = if turn_index < last {
            turn_index
        } else {
            last
        };
        self.per_turn_seeds[idx]
    }

    /// Normalize the frozen directives again.
    pub fn rehydrate_directives(&mut self)
        ensures
            final(self).frozen_directives.tactic_seq() == crate::interviewer_context::normalized_tactics(
                old(self).frozen_directives.tactic_seq(),
            ),
            crate::interviewer_context::blacklist_of(
                old(self).frozen_directives.blacklist_seq(),
                final(self).frozen_directives.blacklist_seq(),
            ),
            *final(self) == (InterviewSessionArtifact {
                frozen_directives: final(self).frozen_directives,
                ..*old(self)
            }),
    {
        let src_tactics = self.frozen_directives.tactics();
        let mut tactics: Vec<InterviewerTactic> = Vec::new();
        let mut i: usize = 0;
        while i < src_tactics.len()
            invariant
                i <= src_tactics@.len(),
                tactics@ == src_tactics@.subrange(0, i as int),
            decreases src_tactics@.len() - i,
        {
            tactics.push(src_tactics[i]);
            i = i + 1;
            assert(tactics@ =~= src_tactics@.subrange(0, i as int));
        }
        assert(src_tactics@.subrange(0, src_tactics@.len() as int) =~= src_tactics@);
        let src_terms = self.frozen_directives.blacklist_terms();
        let mut terms: Vec<String> = Vec::new();
        let mut j: usize = 0;
        while j < src_terms.len()
            invariant
                j <= src_terms@.len(),
                terms@.len() == j,
                forall|k: int| 0 <= k < j ==> (#[trigger] terms@[k])@ == src_terms@[k]@,
            decreases src_terms@.len() - j,
        {
            terms.push(String::from_str(src_terms[j].as_str()));
            j = j + 1;
        }
        proof {
            self.frozen_directives.lemma_blacklist_views();
            assert(crate::interviewer_context::views(terms@) =~= crate::interviewer_context::views(src_terms@));
        }
        self.frozen_directives = AbstractTacticSet::from_frozen(tactics, terms);
    }
}

/// A distortion body as normalization leaves it.
pub open spec fn distortion_normalized(a: DistortionEvidenceSnap, b: DistortionEvidenceSnap) -> bool {
    &&& b.source_id@ == trim_spec(a.source_id@)
    &&& b.category@ == trim_spec(a.category@)
    &&& b.text_summary@ == truncated(trim_spec(a.text_summary@), SUMMARY_MAX as nat)
    &&& b.confidence_score_bits == a.confidence_score_bits
}

/// A distortion body survives: category and summary non-empty.
pub open spec fn distortion_kept(a: DistortionEvidenceSnap) -> bool {
    trim_spec(a.category@).len() > 0 && truncated(trim_spec(a.text_summary@), SUMMARY_MAX as nat).len() > 0
}

/// `after` is `before` normalized body by body, in order, keeping exactly
/// the bodies that survive.
pub open spec fn distortions_normalized(before: Seq<DistortionEvidenceSnap>, after: Seq<DistortionEvidenceSnap>) -> bool
    decreases before.len(),
{
    if before.len() == 0 {
        after.len() == 0
    } else if distortion_kept(before.last()) {
        after.len() > 0 && distortion_normalized(before.last(), after.last()) && distortions_normalized(
            before.drop_last(),
            after.drop_last(),
        )
    } else {
        distortions_normalized(before.drop_last(), after)
    }
}

/// The amount band as normalization leaves it: trimmed, `unknown` when blank.
pub open spec fn band_normalized(s: Seq<char>) -> Seq<char> {
    if trim_spec(s).len() == 0 {
        "unknown"@
    } else {
        trim_spec(s)
    }
}

/// A purchase body as normalization leaves it.
pub open spec fn purchase_normalized(a: PurchaseEvidenceSnap, b: PurchaseEvidenceSnap) -> bool {
    &&& b.source_id@ == trim_spec(a.source_id@)
    &&& b.text_summary@ == truncated(trim_spec(a.text_summary@), SUMMARY_MAX as nat)
    &&& b.amount_band@ == band_normalized(a.amount_band@)
    &&& b.late_night == a.late_night
}

/// A purchase body survives: source id and summary non-empty.
pub open spec fn purchase_kept(a: PurchaseEvidenceSnap) -> bool {
    trim_spec(a.source_id@).len() > 0 && truncated(trim_spec(a.text_summary@), SUMMARY_MAX as nat).len() > 0
}

pub open spec fn purchases_normalized(before: Seq<PurchaseEvidenceSnap>, after: Seq<PurchaseEvidenceSnap>) -> bool
    decreases before.len(),
{
    if before.len() == 0 {
        after.len() == 0
    } else if purchase_kept(before.last()) {
        after.len() > 0 && purchase_normalized(before.last(), after.last()) && purchases_normalized(
            before.drop_last(),
            after.drop_last(),
        )
    } else {
        purchases_normalized(before.drop_last(), after)
    }
}

/// Normalize the evidence bodies; the freeze time is kept.
pub fn normalize_evidence(e: EvidenceSnapshot) -> (r: EvidenceSnapshot)
    ensures
        distortions_normalized(e.distortions@, r.distortions@),
        purchases_normalized(e.purchases@, r.purchases@),
        r.frozen_at_unix == e.frozen_at_unix,
{
    let mut ds: Vec<DistortionEvidenceSnap> = Vec::new();
    let mut i: usize = 0;
    while i < e.distortions.len()
        invariant
            i <= e.distortions@.len(),
            distortions_normalized(e.distortions@.subrange(0, i as int), ds@),
        decreases e.distortions@.len() - i,
    {
        let d = &e.distortions[i];
        let n = DistortionEvidenceSnap {
            source_id: String::from_str(trim(d.source_id.as_str())),
            category: String::from_str(trim(d.category.as_str())),
            text_summary: truncate_chars(trim(d.text_summary.as_str()), SUMMARY_MAX),
            confidence_score_bits: d.confidence_score_bits,
        };
        let ghost before = ds@;
        if n.category.as_str().unicode_len() > 0 && n.text_summary.as_str().unicode_len() > 0 {
            ds.push(n);
            assert(ds@.drop_last() =~= before);
        }
        proof {
            let pre = e.distortions@.subrange(0, i as int + 1);
            assert(pre.drop_last() =~= e.distortions@.subrange(0, i as int));
            assert(pre.last() == e.distortions@[i as int]);
        }
        i = i + 1;
    }
    assert(e.distortions@.subrange(0, e.distortions@.len() as int) =~= e.distortions@);
    let mut ps: Vec<PurchaseEvidenceSnap> = Vec::new();
    let mut j: usize = 0;
    while j < e.purchases.len()
        invariant
            j <= e.purchases@.len(),
            purchases_normalized(e.purchases@.subrange(0, j as int), ps@),
        decreases e.purchases@.len() - j,
    {
        let p = &e.purchases[j];
        let band = trim(p.amount_band.as_str());
        let n = PurchaseEvidenceSnap {
            source_id: String::from_str(trim(p.source_id.as_str())),
            text_summary: truncate_chars(trim(p.text_summary.as_str()), SUMMARY_MAX),
            amount_band: if band.unicode_len() == 0 {
                String::from_str("unknown")
            } else {
                String::from_str(band)
            },
            late_night: p.late_night,
        };
        let ghost before = ps@;
        if n.source_id.as_str().unicode_len() > 0 && n.text_summary.as_str().unicode_len() > 0 {
            ps.push(n);
            assert(ps@.drop_last() =~= before);
        }
        proof {
            let pre = e.purchases@.subrange(0, j as int + 1);
            assert(pre.drop_last() =~= e.purchases@.subrange(0, j as int));
            assert(pre.last() == e.purchases@[j as int]);
        }
        j = j + 1;
    }
    assert(e.purchases@.subrange(0, e.purchases@.len() as int) =~= e.purchases@);
    EvidenceSnapshot { distortions: ds, purchases: ps, frozen_at_unix: e.frozen_at_unix }
}

/// The model label kept on an artifact: the trimmed label, cut to 128
/// characters when it is longer than 128 bytes, or the hex digest of the
/// default model name when blank.
pub open spec fn hash_label_spec(s: Seq<char>) -> Seq<char> {
    let t = trim_spec(s);
    if t.len() == 0 {
        hex_spec(sha256_spec(vstd::utf8::encode_utf8("pocket-brain.gguf"@)))
    } else if (vstd::utf8::encode_utf8(t).len() as usize) > 128 {
        if t.len() > 128 {
            t.subrange(0, 128)
        } else {
            t
        }
    } else {
        t
    }
}

pub fn truncate_hash_label(s: &str) -> (r: String)
    ensures
        r@ == hash_label_spec(s@),
{
    let t = trim(s);
    if t.unicode_len() == 0 {
        let d = sha256("pocket-brain.gguf".as_bytes());
        return hex_encode(&d);
    }
    if t.len() > 128 {
        if t.unicode_len() > 128 {
            return String::from_str(t.substring_char(0, 128));
        }
        return String::from_str(t);
    }
    String::from_str(t)
}

impl InterviewSessionArtifact {
    /// Freeze a session: compile the fossil into directives, allocate the
    /// per-turn seeds, normalize the evidence bodies, and fingerprint it
    /// all. `r_t_snapshot` is the quantized resource reading.
    #[verifier::rlimit(40)]
    pub fn freeze(
        session_id: &str,
        model_hash: &str,
        r_t_snapshot: u8,
        fossil: FossilSnapshot,
        evidence: EvidenceSnapshot,
    ) -> (a: Self)
        ensures
            a.schema@ == INTERVIEW_SESSION_ARTIFACT_SCHEMA@,
            a.session_id@ == session_id@,
            a.model_hash@ == hash_label_spec(model_hash@),
            a.r_t_snapshot == r_t_snapshot,
            a.per_turn_seeds@.len() == PER_TURN_SEED_SLOTS,
            forall|i: int| 0 <= i < PER_TURN_SEED_SLOTS ==> #[trigger] a.per_turn_seeds@[i] == turn_seed(
                COLISEUM_GENERATION_SEED,
                i,
            ),
            distortions_normalized(evidence.distortions@, a.evidence.distortions@),
            purchases_normalized(evidence.purchases@, a.evidence.purchases@),
            a.evidence.frozen_at_unix == evidence.frozen_at_unix,
            a.frozen_directives.tactic_seq() == crate::interviewer_context::normalized_tactics(
                crate::interviewer_context::normalized_tactics(crate::interviewer_context::raw_tactics(fossil)),
            ),
            a.fingerprint@ == fingerprint_spec(a),
    {
        let directives = compile_interviewer_tactics(fossil);
        let mut art = InterviewSessionArtifact {
            schema: String::from_str(INTERVIEW_SESSION_ARTIFACT_SCHEMA),
            session_id: String::from_str(session_id),
            frozen_directives: directives,
            model_hash: truncate_hash_label(model_hash),
            per_turn_seeds: allocate_per_turn_seeds(COLISEUM_GENERATION_SEED, PER_TURN_SEED_SLOTS),
            r_t_snapshot,
            evidence: normalize_evidence(evidence),
            fingerprint: String::new(),
        };
        art.rehydrate_directives();
        art.fingerprint = art.generate_fingerprint();
        art
    }
}

} // verus!
