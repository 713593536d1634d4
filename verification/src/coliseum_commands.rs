//! The coliseum's IPC-facing steps: numbering a transcript and sealing a
//! Layer-2 debrief. Neither takes a vault handle.
use vstd::prelude::*;
use crate::evaluation::{
    assign_turn_ids, error_view_text, insight_ok, normalized_from, turn_ids, turn_id_text,
    validate_metacognitive_debrief, MetacognitiveDebriefV1, TranscriptTurnRef, VaultMirrorAbstract,
    METACOGNITIVE_DEBRIEF_SCHEMA,
};

verus! {

/// Owned transcript row for IPC.
#[derive(Debug, Clone, PartialEq, Eq)]
pub struct TranscriptTurnDto {
    pub turn_id: String,
    pub role: String,
    pub text: String,
}

/// The turn ids of an owned transcript, in order.
pub open spec fn dto_turn_ids(turns: Seq<TranscriptTurnDto>) -> Seq<Seq<char>> {
    turns.map_values(|t: TranscriptTurnDto| t.turn_id@)
}

/// Number the turns `t-0`, `t-1`, … keeping each role and text.
pub fn assign_interview_turn_ids(roles_and_texts: Vec<(String, String)>) -> (r: Result<
    Vec<TranscriptTurnDto>,
    String,
>)
    ensures
        r matches Ok(v) && v@.len() == roles_and_texts@.len() && forall|i: int|
            0 <= i < v@.len() ==> (#[trigger] v@[i]).turn_id@ == turn_id_text(i as nat) && v@[i].role@
                == roles_and_texts@[i].0@ && v@[i].text@ == roles_and_texts@[i].1@,
{
    let mut borrowed: Vec<(&str, &str)> = Vec::new();
    let mut i: usize = 0;
    while i < roles_and_texts.len()
        invariant
            i <= roles_and_texts@.len(),
            borrowed@.len() == i,
            forall|j: int|
                0 <= j < i ==> (#[trigger] borrowed@[j]).0@ == roles_and_texts@[j].0@
                    && borrowed@[j].1@ == roles_and_texts@[j].1@,
        decreases roles_and_texts@.len() - i,
    {
        borrowed.push((roles_and_texts[i].0.as_str(), roles_and_texts[i].1.as_str()));
        i = i + 1;
    }
    let numbered = assign_turn_ids(borrowed.as_slice());
    let mut out: Vec<TranscriptTurnDto> = Vec::new();
    let mut k: usize = 0;
    while k < numbered.len()
        invariant
            k <= numbered@.len(),
            numbered@.len() == roles_and_texts@.len(),
            out@.len() == k,
            forall|i: int|
                0 <= i < numbered@.len() ==> (#[trigger] numbered@[i]).0@ == turn_id_text(i as nat)
                    && numbered@[i].1@ == roles_and_texts@[i].0@ && numbered@[i].2@
                    == roles_and_texts@[i].1@,
            forall|j: int|
                0 <= j < k ==> (#[trigger] out@[j]).turn_id@ == turn_id_text(j as nat)
                    && out@[j].role@ == roles_and_texts@[j].0@ && out@[j].text@
                    == roles_and_texts@[j].1@,
        decreases numbered@.len() - k,
    {
        let turn_id = String::from_str(numbered[k].0.as_str());
        let role = String::from_str(numbered[k].1.as_str());
        let text = String::from_str(numbered[k].2.as_str());
        out.push(TranscriptTurnDto { turn_id, role, text });
        k = k + 1;
    }
    Ok(out)
}

/// `after` is `before` as `normalize` leaves it.
pub open spec fn debrief_normalized(before: MetacognitiveDebriefV1, after: MetacognitiveDebriefV1) -> bool {
    &&& after.schema@ == METACOGNITIVE_DEBRIEF_SCHEMA@
    &&& after.opted_in == before.opted_in
    &&& exists|src: Seq<int>| normalized_from(before.insights@, after.insights@, src)
}

/// What sealing the normalized debrief `d` against `mirror` and the turn
/// ids `ids` gives: `d` itself when it is opted in and every insight holds,
/// else the text of the first failure.
pub open spec fn seal_outcome(
    d: MetacognitiveDebriefV1,
    mirror: VaultMirrorAbstract,
    ids: Seq<Seq<char>>,
    r: Result<MetacognitiveDebriefV1, String>,
) -> bool {
    if !d.opted_in {
        r matches Err(m) && m@ == "debrief_not_opted_in"@
    } else if forall|k: int| 0 <= k < d.insights@.len() ==> insight_ok(#[trigger] d.insights@[k], mirror, ids) is None {
        r == Ok::<MetacognitiveDebriefV1, String>(d)
    } else {
        r matches Err(m) && exists|k: int|
            0 <= k < d.insights@.len() && (forall|j: int|
                0 <= j < k ==> insight_ok(#[trigger] d.insights@[j], mirror, ids) is None) && (insight_ok(
                #[trigger] d.insights@[k],
                mirror,
                ids,
            ) matches Some(v) && m@ == error_view_text(v))
    }
}

/// Normalize a Layer-2 debrief and seal it against the abstract mirror and
/// the transcript.
pub fn seal_metacognitive_debrief(
    debrief: MetacognitiveDebriefV1,
    mirror: VaultMirrorAbstract,
    transcript: Vec<TranscriptTurnDto>,
) -> (r: Result<MetacognitiveDebriefV1, String>)
    ensures
        exists|d: MetacognitiveDebriefV1|
            debrief_normalized(debrief, d) && seal_outcome(d, mirror, dto_turn_ids(transcript@), r),
{
    let mut debrief = debrief;
    let ghost before = debrief;
    debrief.normalize();
    let mut refs: Vec<TranscriptTurnRef<'_>> = Vec::new();
    let mut i: usize = 0;
    while i < transcript.len()
        invariant
            i <= transcript@.len(),
            refs@.len() == i,
            forall|j: int|
                0 <= j < i ==> (#[trigger] refs@[j]).turn_id@ == transcript@[j].turn_id@,
        decreases transcript@.len() - i,
    {
        refs.push(
            TranscriptTurnRef {
                turn_id: transcript[i].turn_id.as_str(),
                role: transcript[i].role.as_str(),
                text: transcript[i].text.as_str(),
            },
        );
        i = i + 1;
    }
    proof {
        assert(turn_ids(refs@) =~= dto_turn_ids(transcript@));
    }
    let r = match validate_metacognitive_debrief(&debrief, &mirror, refs.as_slice()) {
        Ok(()) => Ok(debrief),
        Err(e) => Err(e.message()),
    };
    proof {
        assert(debrief_normalized(before, debrief));
    }
    r
}

} // verus!
