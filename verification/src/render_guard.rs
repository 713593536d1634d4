//! Coliseum leak gate: rejects payloads that re-introduce private fossils
//! into the interview stream. A deterministic case-folded substring scan.
use vstd::prelude::*;
use crate::text::{
    contains, contains_spec, lower_seq, lowercase_chars, trim, trim_spec,
};

verus! {

#[derive(Debug, Clone, PartialEq, Eq)]
pub enum RenderGuardError {
    /// `term` is a blacklist hit found in the payload.
    LeakageDetected { term: String },
}

/// Term `t` (as given) is a hit in `payload`: trimmed, it is not empty,
/// folds to something non-empty, and occurs literally in the folded
/// payload.
pub open spec fn hit(payload: Seq<char>, t: Seq<char>) -> bool {
    let tt = trim_spec(t);
    &&& tt.len() >= 1
    &&& lower_seq(tt).len() > 0
    &&& contains_spec(lower_seq(payload), lower_seq(tt))
}

/// The views of a list of strings.
pub open spec fn term_views(v: Seq<String>) -> Seq<Seq<char>> {
    v.map_values(|s: String| s@)
}

/// `terms[k]` is the first term, in list order, that is a hit in `text`.
pub open spec fn first_hit(text: Seq<char>, terms: Seq<Seq<char>>, k: int) -> bool {
    &&& 0 <= k < terms.len()
    &&& hit(text, terms[k])
    &&& forall|j: int| 0 <= j < k ==> !hit(text, #[trigger] terms[j])
}

/// Outcome of screening `text` for `terms`: `Ok` with the same text exactly
/// when no term is a hit; otherwise a refusal naming the first hit term,
/// trimmed.
pub open spec fn leak_outcome(text: Seq<char>, terms: Seq<Seq<char>>, r: Result<String, RenderGuardError>) -> bool {
    &&& r is Ok <==> forall|k: int| 0 <= k < terms.len() ==> !hit(text, #[trigger] terms[k])
    &&& r matches Ok(s) ==> s@ == text
    &&& r matches Err(RenderGuardError::LeakageDetected { term }) ==> exists|k: int|
        #[trigger] first_hit(text, terms, k) && term@ == trim_spec(terms[k])
}

/// Scan `payload_text` for every blacklisted term after case folding; the
/// first hit is reported with its trimmed text. Terms that are empty once
/// trimmed are ignored; matching is literal after trim.
pub fn verify_no_leakage(payload_text: &str, blacklisted_terms: &[&str]) -> (r: Result<
    (),
    RenderGuardError,
>)
    ensures
        r is Ok <==> forall|k: int|
            0 <= k < blacklisted_terms@.len() ==> !hit(payload_text@, #[trigger] blacklisted_terms@[k]@),
        r matches Err(RenderGuardError::LeakageDetected { term }) ==> (exists|k: int|
            0 <= k < blacklisted_terms@.len() && hit(payload_text@, blacklisted_terms@[k]@)
                && term@ == trim_spec(blacklisted_terms@[k]@) && forall|j: int|
                0 <= j < k ==> !hit(payload_text@, #[trigger] blacklisted_terms@[j]@)),
{
    let hay = lowercase_chars(payload_text);
    let n = blacklisted_terms.len();
    let mut i: usize = 0;
    while i < n
        invariant
            n == blacklisted_terms@.len(),
            i <= n,
            hay@ == lower_seq(payload_text@),
            forall|j: int| 0 <= j < i ==> !hit(payload_text@, #[trigger] blacklisted_terms@[j]@),
        decreases n - i,
    {
        let t = trim(blacklisted_terms[i]);
        if t.unicode_len() >= 1 {
            let needle = lowercase_chars(t);
            if needle.len() > 0 && contains(&hay, &needle) {
                assert(hit(payload_text@, blacklisted_terms@[i as int]@));
                return Err(RenderGuardError::LeakageDetected { term: String::from_str(t) });
            }
        }
        i = i + 1;
    }
    Ok(())
}

/// Oni-mode render: the instructions pass only if no blacklisted term leaks
/// into them.
pub fn seal_oni_payload(instructions: &str, blacklisted_terms: &[String]) -> (r: Result<
    String,
    RenderGuardError,
>)
    ensures
        leak_outcome(instructions@, term_views(blacklisted_terms@), r),
{
    let mut refs: Vec<&str> = Vec::new();
    let mut i: usize = 0;
    while i < blacklisted_terms.len()
        invariant
            i <= blacklisted_terms@.len(),
            refs@.len() == i,
            forall|j: int| 0 <= j < i ==> (#[trigger] refs@[j])@ == blacklisted_terms@[j]@,
        decreases blacklisted_terms@.len() - i,
    {
        refs.push(blacklisted_terms[i].as_str());
        i = i + 1;
    }
    let ghost terms = term_views(blacklisted_terms@);
    let v = verify_no_leakage(instructions, refs.as_slice());
    proof {
        assert forall|j: int| 0 <= j < terms.len() implies #[trigger] terms[j] == refs@[j]@ by {}
        if v is Ok {
            assert forall|k: int| 0 <= k < terms.len() implies !hit(instructions@, #[trigger] terms[k]) by {
                assert(terms[k] == refs@[k]@);
            }
        } else {
            let k = choose|k: int| 0 <= k < refs@.len() && hit(instructions@, refs@[k]@) && (v matches Err(
                RenderGuardError::LeakageDetected { term },
            ) ==> term@ == trim_spec(refs@[k]@)) && forall|j: int|
                0 <= j < k ==> !hit(instructions@, #[trigger] refs@[j]@);
            assert(terms[k] == refs@[k]@);
            assert forall|j: int| 0 <= j < k implies !hit(instructions@, #[trigger] terms[j]) by {
                assert(terms[j] == refs@[j]@);
            }
            assert(first_hit(instructions@, terms, k));
        }
    }
    match v {
        Ok(()) => Ok(String::from_str(instructions)),
        Err(e) => Err(e),
    }
}

} // verus!
