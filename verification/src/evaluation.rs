//! Layer-2 metacognitive debrief: normalization and validation against the
//! transcript and the abstract vault mirror, plus transcript turn ids.
use vstd::prelude::*;
use crate::text::{
    append_decimal, chars_of, contains, contains_spec, decimal_chars, str_eq, trim, trim_spec,
    truncate_chars, truncated,
};

verus! {

pub const INTERVIEW_EVALUATION_SCHEMA: &'static str = "interview_evaluation.v1";
pub const METACOGNITIVE_DEBRIEF_SCHEMA: &'static str = "metacognitive_debrief.v1";

/// Maximum characters kept in a quoted snippet or note.
pub const SNIPPET_MAX: usize = 280;

pub const UNKNOWN: &'static str = "unknown";

#[derive(Debug, Clone, PartialEq, Eq)]
pub enum EvaluationError {
    SchemaMismatch,
    EmptyProvenance,
    UnknownTurnId { turn_id: String },
    ScoreOutOfRange,
    VaultFieldLeak,
    MirrorMismatch,
    NotOptedIn,
}

/// One transcript turn, borrowed.
#[derive(Debug, Clone, PartialEq, Eq)]
pub struct TranscriptTurnRef<'a> {
    pub turn_id: &'a str,
    pub role: &'a str,
    pub text: &'a str,
}

#[derive(Debug, Clone, PartialEq)]
pub struct TurnProvenance {
    pub turn_id: String,
    pub quote_snippet: String,
}

/// What the debrief may mirror from the vault: category keys, a spend band
/// and a late-night flag; nothing concrete.
#[derive(Debug, Clone, PartialEq, Eq)]
pub struct VaultMirrorAbstract {
    pub distortion_category_keys: Vec<String>,
    pub spend_pattern_band: String,
    pub late_night_tendency: bool,
}

#[derive(Debug, Clone, PartialEq)]
pub struct MetacognitiveInsightV1 {
    pub parallel_label: String,
    pub interview_turn_id: String,
    pub mirror_kind: String,
    pub distortion_category: Option<String>,
    pub note: String,
}

#[derive(Debug, Clone, PartialEq)]
pub struct MetacognitiveDebriefV1 {
    pub schema: String,
    pub opted_in: bool,
    pub insights: Vec<MetacognitiveInsightV1>,
}

/// An insight as the normalizer leaves it: trimmed, with long texts cut and
/// an empty category dropped.
pub open spec fn insight_normalized(a: MetacognitiveInsightV1, b: MetacognitiveInsightV1) -> bool {
    &&& b.parallel_label@ == truncated(trim_spec(a.parallel_label@), SNIPPET_MAX as nat)
    &&& b.interview_turn_id@ == trim_spec(a.interview_turn_id@)
    &&& b.mirror_kind@ == trim_spec(a.mirror_kind@)
    &&& b.note@ == truncated(trim_spec(a.note@), SNIPPET_MAX as nat)
    &&& match a.distortion_category {
        None => b.distortion_category is None,
        Some(c) => if trim_spec(c@).len() == 0 {
            b.distortion_category is None
        } else {
            b.distortion_category matches Some(d) && d@ == trim_spec(c@)
        },
    }
}

fn copy_string(s: &String) -> (r: String)
    ensures
        r@ == s@,
{
    String::from_str(s.as_str())
}

fn normalize_insight(i: &MetacognitiveInsightV1) -> (r: MetacognitiveInsightV1)
    ensures
        insight_normalized(*i, r),
{
    let category = match &i.distortion_category {
        None => None,
        Some(c) => {
            let t = trim(c.as_str());
            if t.unicode_len() == 0 {
                None
            } else {
                Some(String::from_str(t))
            }
        },
    };
    MetacognitiveInsightV1 {
        parallel_label: truncate_chars(trim(i.parallel_label.as_str()), SNIPPET_MAX),
        interview_turn_id: String::from_str(trim(i.interview_turn_id.as_str())),
        mirror_kind: String::from_str(trim(i.mirror_kind.as_str())),
        distortion_category: category,
        note: truncate_chars(trim(i.note.as_str()), SNIPPET_MAX),
    }
}

/// Whether an insight survives normalization.
pub open spec fn kept_after(a: MetacognitiveInsightV1) -> bool {
    &&& trim_spec(a.interview_turn_id@).len() > 0
    &&& truncated(trim_spec(a.note@), SNIPPET_MAX as nat).len() > 0
    &&& trim_spec(a.mirror_kind@).len() > 0
}

/// `after` is `before` normalized insight by insight, in order, keeping
/// exactly the insights that survive; `src` maps each kept insight to its
/// origin.
pub open spec fn normalized_from(
    before: Seq<MetacognitiveInsightV1>,
    after: Seq<MetacognitiveInsightV1>,
    src: Seq<int>,
) -> bool {
    &&& src.len() == after.len()
    &&& forall|k: int|
        0 <= k < after.len() ==> 0 <= #[trigger] src[k] < before.len() && insight_normalized(
            before[src[k]],
            after[k],
        )
    &&& forall|k1: int, k2: int| 0 <= k1 < k2 < src.len() ==> src[k1] < src[k2]
    &&& forall|j: int|
        0 <= j < before.len() ==> (kept_after(#[trigger] before[j]) <==> exists|k: int|
            0 <= k < src.len() && src[k] == j)
}

impl MetacognitiveDebriefV1 {
    /// Stamp the schema, normalize every insight, and drop the insights left
    /// without a turn id, a note or a mirror kind, keeping the order.
    pub fn normalize(&mut self)
        ensures
            final(self).schema@ == METACOGNITIVE_DEBRIEF_SCHEMA@,
            final(self).opted_in == old(self).opted_in,
            exists|src: Seq<int>| normalized_from(old(self).insights@, final(self).insights@, src),
    {
        self.schema = String::from_str(METACOGNITIVE_DEBRIEF_SCHEMA);
        let mut kept: Vec<MetacognitiveInsightV1> = Vec::new();
        let ghost mut src: Seq<int> = Seq::empty();
        let n = self.insights.len();
        let mut i: usize = 0;
        while i < n
            invariant
                n == self.insights@.len(),
                i <= n,
                src.len() == kept@.len(),
                forall|k: int|
                    0 <= k < kept@.len() ==> 0 <= #[trigger] src[k] < i && insight_normalized(
                        self.insights@[src[k]],
                        kept@[k],
                    ),
                forall|k1: int, k2: int| 0 <= k1 < k2 < src.len() ==> src[k1] < src[k2],
                forall|j: int|
                    0 <= j < i ==> (kept_after(#[trigger] self.insights@[j]) <==> exists|k: int|
                        0 <= k < src.len() && src[k] == j),
            decreases n - i,
        {
            let r = normalize_insight(&self.insights[i]);
            let keep = r.interview_turn_id.as_str().unicode_len() > 0 && r.note.as_str().unicode_len()
                > 0 && r.mirror_kind.as_str().unicode_len() > 0;
            assert(keep == kept_after(self.insights@[i as int]));
            let ghost before_src = src;
            if keep {
                kept.push(r);
                proof {
                    src = src.push(i as int);
                }
            }
            assert forall|j: int|
                0 <= j < i + 1 implies (kept_after(#[trigger] self.insights@[j]) <==> exists|k: int|
                0 <= k < src.len() && src[k] == j) by {
                if j < i {
                    if kept_after(self.insights@[j]) {
                        let k = choose|k: int| 0 <= k < before_src.len() && before_src[k] == j;
                        assert(0 <= k < src.len() && src[k] == j);
                    }
                } else {
                    if keep {
                        assert(src[src.len() - 1] == j);
                    }
                }
            }
            i = i + 1;
        }
        self.insights = kept;
        assert(normalized_from(old(self).insights@, self.insights@, src));
    }
}

/// An evaluation error with its text taken by view.
pub enum ErrorView {
    SchemaMismatch,
    EmptyProvenance,
    UnknownTurnId { turn_id: Seq<char> },
    ScoreOutOfRange,
    VaultFieldLeak,
    MirrorMismatch,
    NotOptedIn,
}

pub open spec fn error_view(e: EvaluationError) -> ErrorView {
    match e {
        EvaluationError::SchemaMismatch => ErrorView::SchemaMismatch,
        EvaluationError::EmptyProvenance => ErrorView::EmptyProvenance,
        EvaluationError::UnknownTurnId { turn_id } => ErrorView::UnknownTurnId { turn_id: turn_id@ },
        EvaluationError::ScoreOutOfRange => ErrorView::ScoreOutOfRange,
        EvaluationError::VaultFieldLeak => ErrorView::VaultFieldLeak,
        EvaluationError::MirrorMismatch => ErrorView::MirrorMismatch,
        EvaluationError::NotOptedIn => ErrorView::NotOptedIn,
    }
}

/// The wire text of an evaluation error.
pub open spec fn error_view_text(v: ErrorView) -> Seq<char> {
    match v {
        ErrorView::SchemaMismatch => "evaluation_schema_mismatch"@,
        ErrorView::EmptyProvenance => "evaluation_empty_provenance"@,
        ErrorView::UnknownTurnId { turn_id } => "evaluation_unknown_turn_id:"@ + turn_id,
        ErrorView::ScoreOutOfRange => "evaluation_score_out_of_range"@,
        ErrorView::VaultFieldLeak => "evaluation_vault_field_leak"@,
        ErrorView::MirrorMismatch => "debrief_mirror_mismatch"@,
        ErrorView::NotOptedIn => "debrief_not_opted_in"@,
    }
}

impl EvaluationError {
    /// The error's wire text.
    pub fn message(&self) -> (s: String)
        ensures
            s@ == error_view_text(error_view(*self)),
    {
        match self {
            EvaluationError::SchemaMismatch => String::from_str("evaluation_schema_mismatch"),
            EvaluationError::EmptyProvenance => String::from_str("evaluation_empty_provenance"),
            EvaluationError::UnknownTurnId { turn_id } => {
                let mut s = String::from_str("evaluation_unknown_turn_id:");
                s.append(turn_id.as_str());
                s
            },
            EvaluationError::ScoreOutOfRange => String::from_str("evaluation_score_out_of_range"),
            EvaluationError::VaultFieldLeak => String::from_str("evaluation_vault_field_leak"),
            EvaluationError::MirrorMismatch => String::from_str("debrief_mirror_mismatch"),
            EvaluationError::NotOptedIn => String::from_str("debrief_not_opted_in"),
        }
    }
}

/// The turn ids of a transcript, in order.
pub open spec fn turn_ids(turns: Seq<TranscriptTurnRef>) -> Seq<Seq<char>> {
    turns.map_values(|t: TranscriptTurnRef| t.turn_id@)
}

/// `id` is one of the transcript's turn ids.
pub open spec fn turn_known(ids: Seq<Seq<char>>, id: Seq<char>) -> bool {
    exists|k: int| 0 <= k < ids.len() && ids[k] == id
}

/// `c` is one of the mirror's category keys.
pub open spec fn category_known(mirror: VaultMirrorAbstract, c: Seq<char>) -> bool {
    exists|k: int|
        0 <= k < mirror.distortion_category_keys@.len() && mirror.distortion_category_keys@[k]@
            == c
}

/// Whether one insight is supported by the transcript and the mirror.
pub open spec fn insight_ok(
    i: MetacognitiveInsightV1,
    mirror: VaultMirrorAbstract,
    ids: Seq<Seq<char>>,
) -> Option<ErrorView> {
    if !turn_known(ids, i.interview_turn_id@) {
        Some(ErrorView::UnknownTurnId { turn_id: i.interview_turn_id@ })
    } else if i.mirror_kind@ == "distortion_isomorphism"@ {
        match i.distortion_category {
            Some(c) => if category_known(mirror, c@) {
                None
            } else {
                Some(ErrorView::MirrorMismatch)
            },
            None => Some(ErrorView::MirrorMismatch),
        }
    } else if i.mirror_kind@ == "spend_pattern"@ {
        if mirror.spend_pattern_band@.len() == 0 || mirror.spend_pattern_band@ == UNKNOWN@ {
            Some(ErrorView::MirrorMismatch)
        } else {
            None
        }
    } else if i.mirror_kind@ == "late_night_tendency"@ {
        if mirror.late_night_tendency {
            None
        } else {
            Some(ErrorView::MirrorMismatch)
        }
    } else if i.mirror_kind@ == "resource_parallel"@ {
        None
    } else {
        Some(ErrorView::MirrorMismatch)
    }
}

fn turn_is_known(turns: &[TranscriptTurnRef<'_>], id: &str) -> (b: bool)
    ensures
        b == turn_known(turn_ids(turns@), id@),
{
    let mut k: usize = 0;
    while k < turns.len()
        invariant
            k <= turns@.len(),
            forall|j: int| 0 <= j < k ==> turns@[j].turn_id@ != id@,
        decreases turns@.len() - k,
    {
        if str_eq(turns[k].turn_id, id) {
            assert(turn_ids(turns@)[k as int] == id@);
            return true;
        }
        k = k + 1;
    }
    assert forall|j: int| 0 <= j < turns@.len() implies turn_ids(turns@)[j] != id@ by {
        assert(turn_ids(turns@)[j] == turns@[j].turn_id@);
    }
    false
}

fn category_is_known(mirror: &VaultMirrorAbstract, c: &str) -> (b: bool)
    ensures
        b == category_known(*mirror, c@),
{
    let mut k: usize = 0;
    while k < mirror.distortion_category_keys.len()
        invariant
            k <= mirror.distortion_category_keys@.len(),
            forall|j: int| 0 <= j < k ==> mirror.distortion_category_keys@[j]@ != c@,
        decreases mirror.distortion_category_keys@.len() - k,
    {
        if str_eq(mirror.distortion_category_keys[k].as_str(), c) {
            return true;
        }
        k = k + 1;
    }
    false
}

fn check_insight(
    i: &MetacognitiveInsightV1,
    mirror: &VaultMirrorAbstract,
    turns: &[TranscriptTurnRef<'_>],
) -> (r: Option<EvaluationError>)
    ensures
        match r {
            None => insight_ok(*i, *mirror, turn_ids(turns@)) is None,
            Some(e) => insight_ok(*i, *mirror, turn_ids(turns@)) == Some(error_view(e)),
        },
{
    if !turn_is_known(turns, i.interview_turn_id.as_str()) {
        return Some(
            EvaluationError::UnknownTurnId { turn_id: copy_string(&i.interview_turn_id) },
        );
    }
    let kind = i.mirror_kind.as_str();
    if str_eq(kind, "distortion_isomorphism") {
        match &i.distortion_category {
            Some(c) => if category_is_known(mirror, c.as_str()) {
                None
            } else {
                Some(EvaluationError::MirrorMismatch)
            },
            None => Some(EvaluationError::MirrorMismatch),
        }
    } else if str_eq(kind, "spend_pattern") {
        if mirror.spend_pattern_band.as_str().unicode_len() == 0 || str_eq(
            mirror.spend_pattern_band.as_str(),
            UNKNOWN,
        ) {
            Some(EvaluationError::MirrorMismatch)
        } else {
            None
        }
    } else if str_eq(kind, "late_night_tendency") {
        if mirror.late_night_tendency {
            None
        } else {
            Some(EvaluationError::MirrorMismatch)
        }
    } else if str_eq(kind, "resource_parallel") {
        None
    } else {
        Some(EvaluationError::MirrorMismatch)
    }
}

/// Validate a debrief: the schema, the opt-in, then every insight in order
/// against the transcript and the mirror; the first failure is reported.
pub fn validate_metacognitive_debrief(
    debrief: &MetacognitiveDebriefV1,
    mirror: &VaultMirrorAbstract,
    transcript: &[TranscriptTurnRef<'_>],
) -> (r: Result<(), EvaluationError>)
    ensures
        debrief.schema@ != METACOGNITIVE_DEBRIEF_SCHEMA@ ==> r == Err::<(), EvaluationError>(
            EvaluationError::SchemaMismatch,
        ),
        debrief.schema@ == METACOGNITIVE_DEBRIEF_SCHEMA@ && !debrief.opted_in ==> r == Err::<
            (),
            EvaluationError,
        >(EvaluationError::NotOptedIn),
        debrief.schema@ == METACOGNITIVE_DEBRIEF_SCHEMA@ && debrief.opted_in ==> {
            &&& r is Ok <==> forall|k: int|
                0 <= k < debrief.insights@.len() ==> insight_ok(
                    #[trigger] debrief.insights@[k],
                    *mirror,
                    turn_ids(transcript@),
                ) is None
            &&& r is Err ==> exists|k: int|
                0 <= k < debrief.insights@.len() && insight_ok(
                    debrief.insights@[k],
                    *mirror,
                    turn_ids(transcript@),
                ) == Some(error_view(r->Err_0)) && forall|j: int|
                    0 <= j < k ==> insight_ok(
                        #[trigger] debrief.insights@[j],
                        *mirror,
                        turn_ids(transcript@),
                    ) is None
        },
{
    if !str_eq(debrief.schema.as_str(), METACOGNITIVE_DEBRIEF_SCHEMA) {
        return Err(EvaluationError::SchemaMismatch);
    }
    if !debrief.opted_in {
        return Err(EvaluationError::NotOptedIn);
    }
    let mut k: usize = 0;
    while k < debrief.insights.len()
        invariant
            k <= debrief.insights@.len(),
            debrief.schema@ == METACOGNITIVE_DEBRIEF_SCHEMA@,
            debrief.opted_in,
            forall|j: int|
                0 <= j < k ==> insight_ok(#[trigger] debrief.insights@[j], *mirror, turn_ids(transcript@))
                    is None,
        decreases debrief.insights@.len() - k,
    {
        match check_insight(&debrief.insights[k], mirror, transcript) {
            Some(e) => {
                assert(insight_ok(debrief.insights@[k as int], *mirror, turn_ids(transcript@)) == Some(
                    error_view(e),
                ));
                return Err(e);
            },
            None => {},
        }
        k = k + 1;
    }
    Ok(())
}

/// `t-<i>` for turn `i`.
pub open spec fn turn_id_text(i: nat) -> Seq<char> {
    "t-"@ + decimal_chars(i)
}

/// Number the turns `t-0`, `t-1`, … and copy their role and text.
pub fn assign_turn_ids(roles_and_texts: &[(&str, &str)]) -> (v: Vec<(String, String, String)>)
    ensures
        v@.len() == roles_and_texts@.len(),
        forall|i: int|
            0 <= i < v@.len() ==> (#[trigger] v@[i]).0@ == turn_id_text(i as nat) && v@[i].1@
                == roles_and_texts@[i].0@ && v@[i].2@ == roles_and_texts@[i].1@,
{
    let mut v: Vec<(String, String, String)> = Vec::new();
    let mut i: usize = 0;
    while i < roles_and_texts.len()
        invariant
            i <= roles_and_texts@.len(),
            v@.len() == i,
            forall|j: int|
                0 <= j < i ==> (#[trigger] v@[j]).0@ == turn_id_text(j as nat) && v@[j].1@
                    == roles_and_texts@[j].0@ && v@[j].2@ == roles_and_texts@[j].1@,
        decreases roles_and_texts@.len() - i,
    {
        let (role, text) = roles_and_texts[i];
        let mut id = String::from_str("t-");
        append_decimal(&mut id, i as u64);
        v.push((id, String::from_str(role), String::from_str(text)));
        i = i + 1;
    }
    v
}

// ---------------------------------------------------------------------------
// Layer 1: the transcript-only scorecard, as the validator reads it.
// ---------------------------------------------------------------------------

/// One scorecard axis as the validator reads it: whether its score is a
/// finite number in `[0, 1]`, and its provenance.
#[derive(Debug, Clone, PartialEq)]
pub struct AxisCheck {
    pub score_in_unit_interval: bool,
    pub provenance: Vec<TurnProvenance>,
}

/// A Layer-1 scorecard as the validator reads it: the schema, the four
/// axes in order, and the summary.
#[derive(Debug, Clone, PartialEq)]
pub struct EvaluationCheck {
    pub schema: String,
    pub axes: Vec<AxisCheck>,
    pub summary: String,
}

/// ASCII letters folded to lower case; every other character kept.
pub open spec fn ascii_lower(s: Seq<char>) -> Seq<char> {
    s.map_values(|c: char| if 'A' <= c && c <= 'Z' { ((c as u32) + 32) as char } else { c })
}

/// The vault field names a Layer-1 text may never carry.
pub open spec fn vault_tokens() -> Seq<Seq<char>> {
    seq![
        "purchase_id"@,
        "distortion_id"@,
        "r_at_decision"@,
        "vault."@,
        "active_distortions"@,
        "total_amount"@,
    ]
}

/// The text carries a vault field name, ASCII case folded.
pub open spec fn vaultish(s: Seq<char>) -> bool {
    exists|k: int| 0 <= k < vault_tokens().len() && contains_spec(ascii_lower(s), #[trigger] vault_tokens()[k])
}

fn ascii_lowercase_chars(s: &str) -> (v: Vec<char>)
    ensures
        v@ == ascii_lower(s@),
{
    let src = chars_of(s);
    let mut v: Vec<char> = Vec::new();
    let mut i: usize = 0;
    while i < src.len()
        invariant
            i <= src@.len(),
            src@ == s@,
            v@ == ascii_lower(s@).subrange(0, i as int),
        decreases src@.len() - i,
    {
        let c = src[i];
        let d = if 'A' <= c && c <= 'Z' {
            proof {
                assert((c as u32) + 32 <= 0x7a);
            }
            ((c as u32) + 32) as u8 as char
        } else {
            c
        };
        proof {
            assert(d == ascii_lower(s@)[i as int]);
        }
        v.push(d);
        i = i + 1;
        assert(v@ =~= ascii_lower(s@).subrange(0, i as int));
    }
    assert(ascii_lower(s@).subrange(0, src@.len() as int) =~= ascii_lower(s@));
    v
}

/// Hard-reject of vault-shaped field names leaking into Layer-1 text.
pub fn reject_vaultish_text(s: &str) -> (r: Result<(), EvaluationError>)
    ensures
        r is Ok <==> !vaultish(s@),
        r is Err ==> r == Err::<(), EvaluationError>(EvaluationError::VaultFieldLeak),
{
    let lower = ascii_lowercase_chars(s);
    let tokens: [&str; 6] = [
        "purchase_id",
        "distortion_id",
        "r_at_decision",
        "vault.",
        "active_distortions",
        "total_amount",
    ];
    let mut k: usize = 0;
    while k < 6
        invariant
            k <= 6,
            lower@ == ascii_lower(s@),
            forall|j: int| 0 <= j < 6 ==> (#[trigger] tokens@[j])@ == vault_tokens()[j],
            forall|j: int| 0 <= j < k ==> !contains_spec(ascii_lower(s@), #[trigger] vault_tokens()[j]),
        decreases 6 - k,
    {
        let needle = chars_of(tokens[k]);
        if contains(&lower, &needle) {
            assert(contains_spec(ascii_lower(s@), vault_tokens()[k as int]));
            return Err(EvaluationError::VaultFieldLeak);
        }
        k = k + 1;
    }
    Ok(())
}

/// What is wrong with one provenance entry, if anything: an unknown or
/// blank turn id, a blank quote, or a vault field name in either.
pub open spec fn provenance_fault(p: TurnProvenance, ids: Seq<Seq<char>>) -> Option<ErrorView> {
    if trim_spec(p.turn_id@).len() == 0 || !turn_known(ids, p.turn_id@) {
        Some(ErrorView::UnknownTurnId { turn_id: p.turn_id@ })
    } else if trim_spec(p.quote_snippet@).len() == 0 {
        Some(ErrorView::EmptyProvenance)
    } else if vaultish(p.quote_snippet@) || vaultish(p.turn_id@) {
        Some(ErrorView::VaultFieldLeak)
    } else {
        None
    }
}

/// The first fault among the first `n` provenance entries.
pub open spec fn first_provenance_fault(ps: Seq<TurnProvenance>, ids: Seq<Seq<char>>, n: int) -> Option<ErrorView>
    decreases n,
{
    if n <= 0 {
        None
    } else {
        match first_provenance_fault(ps, ids, n - 1) {
            Some(e) => Some(e),
            None => provenance_fault(ps[n - 1], ids),
        }
    }
}

proof fn lemma_provenance_fault_sticky(ps: Seq<TurnProvenance>, ids: Seq<Seq<char>>, m: int, n: int)
    requires
        0 <= m <= n,
        first_provenance_fault(ps, ids, m) is Some,
    ensures
        first_provenance_fault(ps, ids, n) == first_provenance_fault(ps, ids, m),
    decreases n - m,
{
    if n > m {
        lemma_provenance_fault_sticky(ps, ids, m, n - 1);
    }
}

/// What is wrong with one axis, if anything.
pub open spec fn axis_fault(a: AxisCheck, ids: Seq<Seq<char>>) -> Option<ErrorView> {
    if !a.score_in_unit_interval {
        Some(ErrorView::ScoreOutOfRange)
    } else if a.provenance@.len() == 0 {
        Some(ErrorView::EmptyProvenance)
    } else {
        first_provenance_fault(a.provenance@, ids, a.provenance@.len() as int)
    }
}

/// The first fault among the first `n` axes.
pub open spec fn first_axis_fault(axes: Seq<AxisCheck>, ids: Seq<Seq<char>>, n: int) -> Option<ErrorView>
    decreases n,
{
    if n <= 0 {
        None
    } else {
        match first_axis_fault(axes, ids, n - 1) {
            Some(e) => Some(e),
            None => axis_fault(axes[n - 1], ids),
        }
    }
}

proof fn lemma_axis_fault_sticky(axes: Seq<AxisCheck>, ids: Seq<Seq<char>>, m: int, n: int)
    requires
        0 <= m <= n,
        first_axis_fault(axes, ids, m) is Some,
    ensures
        first_axis_fault(axes, ids, n) == first_axis_fault(axes, ids, m),
    decreases n - m,
{
    if n > m {
        lemma_axis_fault_sticky(axes, ids, m, n - 1);
    }
}

/// The verdict on a scorecard: the schema, then each axis in order, then
/// the summary.
pub open spec fn evaluation_fault(e: EvaluationCheck, ids: Seq<Seq<char>>) -> Option<ErrorView> {
    if e.schema@ != INTERVIEW_EVALUATION_SCHEMA@ {
        Some(ErrorView::SchemaMismatch)
    } else {
        match first_axis_fault(e.axes@, ids, e.axes@.len() as int) {
            Some(f) => Some(f),
            None => if vaultish(e.summary@) {
                Some(ErrorView::VaultFieldLeak)
            } else {
                None
            },
        }
    }
}

fn check_provenance(p: &TurnProvenance, transcript: &[TranscriptTurnRef<'_>]) -> (r: Option<EvaluationError>)
    ensures
        match r {
            None => provenance_fault(*p, turn_ids(transcript@)) is None,
            Some(e) => provenance_fault(*p, turn_ids(transcript@)) == Some(error_view(e)),
        },
{
    if trim(p.turn_id.as_str()).unicode_len() == 0 || !turn_is_known(transcript, p.turn_id.as_str()) {
        return Some(EvaluationError::UnknownTurnId { turn_id: copy_string(&p.turn_id) });
    }
    if trim(p.quote_snippet.as_str()).unicode_len() == 0 {
        return Some(EvaluationError::EmptyProvenance);
    }
    match reject_vaultish_text(p.quote_snippet.as_str()) {
        Ok(()) => {},
        Err(e) => return Some(e),
    }
    match reject_vaultish_text(p.turn_id.as_str()) {
        Ok(()) => {},
        Err(e) => return Some(e),
    }
    None
}

fn check_axis(a: &AxisCheck, transcript: &[TranscriptTurnRef<'_>]) -> (r: Option<EvaluationError>)
    ensures
        match r {
            None => axis_fault(*a, turn_ids(transcript@)) is None,
            Some(e) => axis_fault(*a, turn_ids(transcript@)) == Some(error_view(e)),
        },
{
    if !a.score_in_unit_interval {
        return Some(EvaluationError::ScoreOutOfRange);
    }
    if a.provenance.len() == 0 {
        return Some(EvaluationError::EmptyProvenance);
    }
    let mut k: usize = 0;
    while k < a.provenance.len()
        invariant
            k <= a.provenance@.len(),
            a.score_in_unit_interval,
            a.provenance@.len() > 0,
            first_provenance_fault(a.provenance@, turn_ids(transcript@), k as int) is None,
        decreases a.provenance@.len() - k,
    {
        match check_provenance(&a.provenance[k], transcript) {
            Some(e) => {
                proof {
                    lemma_provenance_fault_sticky(
                        a.provenance@,
                        turn_ids(transcript@),
                        k as int + 1,
                        a.provenance@.len() as int,
                    );
                }
                return Some(e);
            },
            None => {},
        }
        k = k + 1;
    }
    None
}

/// Validate a Layer-1 scorecard against the transcript's turn ids: the
/// schema, every axis in order, then the summary; the first fault is
/// reported.
pub fn validate_interview_evaluation(eval: &EvaluationCheck, transcript: &[TranscriptTurnRef<'_>]) -> (r: Result<
    (),
    EvaluationError,
>)
    ensures
        match evaluation_fault(*eval, turn_ids(transcript@)) {
            None => r is Ok,
            Some(v) => r matches Err(e) && error_view(e) == v,
        },
{
    if !str_eq(eval.schema.as_str(), INTERVIEW_EVALUATION_SCHEMA) {
        return Err(EvaluationError::SchemaMismatch);
    }
    let mut k: usize = 0;
    while k < eval.axes.len()
        invariant
            k <= eval.axes@.len(),
            eval.schema@ == INTERVIEW_EVALUATION_SCHEMA@,
            first_axis_fault(eval.axes@, turn_ids(transcript@), k as int) is None,
        decreases eval.axes@.len() - k,
    {
        match check_axis(&eval.axes[k], transcript) {
            Some(e) => {
                proof {
                    lemma_axis_fault_sticky(eval.axes@, turn_ids(transcript@), k as int + 1, eval.axes@.len() as int);
                }
                return Err(e);
            },
            None => {},
        }
        k = k + 1;
    }
    reject_vaultish_text(eval.summary.as_str())
}

/// A provenance entry as normalization leaves it: trimmed id, trimmed and
/// cut quote.
pub open spec fn provenance_normalized(a: TurnProvenance, b: TurnProvenance) -> bool {
    &&& b.turn_id@ == trim_spec(a.turn_id@)
    &&& b.quote_snippet@ == truncated(trim_spec(a.quote_snippet@), SNIPPET_MAX as nat)
}

/// Whether a provenance entry survives normalization.
pub open spec fn provenance_kept(a: TurnProvenance) -> bool {
    &&& trim_spec(a.turn_id@).len() > 0
    &&& truncated(trim_spec(a.quote_snippet@), SNIPPET_MAX as nat).len() > 0
}

/// `after` is `before` normalized entry by entry, in order, keeping exactly
/// the entries that survive; `src` maps each kept entry to its origin.
pub open spec fn provenance_normalized_from(
    before: Seq<TurnProvenance>,
    after: Seq<TurnProvenance>,
    src: Seq<int>,
) -> bool {
    &&& src.len() == after.len()
    &&& forall|k: int|
        0 <= k < after.len() ==> 0 <= #[trigger] src[k] < before.len() && provenance_normalized(
            before[src[k]],
            after[k],
        )
    &&& forall|k1: int, k2: int| 0 <= k1 < k2 < src.len() ==> src[k1] < src[k2]
    &&& forall|j: int|
        0 <= j < before.len() ==> (provenance_kept(#[trigger] before[j]) <==> exists|k: int|
            0 <= k < src.len() && src[k] == j)
}

/// Normalize provenance in order, keeping the entries whose id and quote
/// are non-empty afterwards.
pub fn normalize_provenance(ps: &Vec<TurnProvenance>) -> (out: Vec<TurnProvenance>)
    ensures
        exists|src: Seq<int>| provenance_normalized_from(ps@, out@, src),
{
    let mut out: Vec<TurnProvenance> = Vec::new();
    let ghost mut src: Seq<int> = Seq::empty();
    let mut i: usize = 0;
    while i < ps.len()
        invariant
            i <= ps@.len(),
            src.len() == out@.len(),
            forall|k: int|
                0 <= k < out@.len() ==> 0 <= #[trigger] src[k] < i && provenance_normalized(ps@[src[k]], out@[k]),
            forall|k1: int, k2: int| 0 <= k1 < k2 < src.len() ==> src[k1] < src[k2],
            forall|j: int|
                0 <= j < i ==> (provenance_kept(#[trigger] ps@[j]) <==> exists|k: int|
                    0 <= k < src.len() && src[k] == j),
        decreases ps@.len() - i,
    {
        let id = String::from_str(trim(ps[i].turn_id.as_str()));
        let quote = truncate_chars(trim(ps[i].quote_snippet.as_str()), SNIPPET_MAX);
        let keep = id.as_str().unicode_len() > 0 && quote.as_str().unicode_len() > 0;
        assert(keep == provenance_kept(ps@[i as int]));
        let ghost before_src = src;
        if keep {
            out.push(TurnProvenance { turn_id: id, quote_snippet: quote });
            proof {
                src = src.push(i as int);
            }
        }
        assert forall|j: int|
            0 <= j < i + 1 implies (provenance_kept(#[trigger] ps@[j]) <==> exists|k: int|
            0 <= k < src.len() && src[k] == j) by {
            if j < i {
                if provenance_kept(ps@[j]) {
                    let k = choose|k: int| 0 <= k < before_src.len() && before_src[k] == j;
                    assert(0 <= k < src.len() && src[k] == j);
                }
            } else {
                if keep {
                    assert(src[src.len() - 1] == j);
                }
            }
        }
        i = i + 1;
    }
    assert(provenance_normalized_from(ps@, out@, src));
    out
}

/// The summary as normalization leaves it: trimmed and cut, or `unknown`
/// when nothing is left.
pub open spec fn summary_normalized(s: Seq<char>) -> Seq<char> {
    if truncated(trim_spec(s), SNIPPET_MAX as nat).len() == 0 {
        UNKNOWN@
    } else {
        truncated(trim_spec(s), SNIPPET_MAX as nat)
    }
}

pub fn normalize_summary(s: &str) -> (r: String)
    ensures
        r@ == summary_normalized(s@),
{
    let t = truncate_chars(trim(s), SNIPPET_MAX);
    if t.as_str().unicode_len() == 0 {
        String::from_str(UNKNOWN)
    } else {
        t
    }
}

} // verus!
