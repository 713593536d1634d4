//! Oni-mode entry points: the sealed pressure prompt, compiled from abstract
//! fossils or replayed from a frozen session artifact. Neither takes a vault
//! handle.
use vstd::prelude::*;
use crate::interviewer_context::{
    blacklist_of, compile_interviewer_tactics, normalized_tactics, raw_tactics, rendered_prompt,
    term_kept, views, AbstractTacticSet, FossilSnapshot, OniModePrompt,
};
use crate::render_guard::{hit, leak_outcome, RenderGuardError};
use crate::session_artifact::InterviewSessionArtifact;
use crate::text::trim_spec;

verus! {

/// No kept seed term, trimmed, is a hit in `text`.
pub open spec fn clean_of_seeds(text: Seq<char>, seeds: Seq<Seq<char>>) -> bool {
    forall|k: int| 0 <= k < seeds.len() && term_kept(#[trigger] seeds[k]) ==> !hit(text, trim_spec(seeds[k]))
}

/// Oni mode: the fossils' tactics rendered with the public brief, gated
/// fail-closed against the fossils' blacklist (their kept seed terms,
/// trimmed, in sorted order): passed exactly when no seed leaks into the
/// text, and otherwise refused with the first leaking term of that list.
pub fn build_oni_pressure_prompt(snapshot: FossilSnapshot, public_brief: &str) -> (r: Result<
    String,
    RenderGuardError,
>)
    ensures
        ({
            let text = rendered_prompt(normalized_tactics(raw_tactics(snapshot)), public_brief@);
            let seeds = views(snapshot.blacklist_seed_terms@);
            &&& r is Ok <==> clean_of_seeds(text, seeds)
            &&& exists|bl: Seq<Seq<char>>| #[trigger] blacklist_of(seeds, bl) && leak_outcome(text, bl, r)
        }),
{
    let ghost seeds = views(snapshot.blacklist_seed_terms@);
    let tactics = compile_interviewer_tactics(snapshot);
    let r = OniModePrompt::render_sealed(&tactics, public_brief);
    proof {
        let text = rendered_prompt(tactics.tactic_seq(), public_brief@);
        let bl = tactics.blacklist_seq();
        assert(blacklist_of(seeds, bl));
        if clean_of_seeds(text, seeds) {
            assert forall|k: int| 0 <= k < bl.len() implies !hit(text, #[trigger] bl[k]) by {
                assert(bl.contains(bl[k]));
                let j = choose|j: int| 0 <= j < seeds.len() && term_kept(seeds[j]) && trim_spec(seeds[j]) == bl[k];
                assert(term_kept(seeds[j]));
            }
        }
        if r is Ok {
            assert forall|k: int| 0 <= k < seeds.len() && term_kept(#[trigger] seeds[k]) implies !hit(
                text,
                trim_spec(seeds[k]),
            ) by {
                assert(bl.contains(trim_spec(seeds[k])));
                let i = choose|i: int| 0 <= i < bl.len() && bl[i] == trim_spec(seeds[k]);
                assert(!hit(text, bl[i]));
            }
        }
    }
    r
}

/// Replay the pressure prompt from a frozen artifact's directives, with no
/// live vault, gated fail-closed against the artifact's blacklist.
pub fn build_oni_pressure_prompt_from_artifact(artifact: &InterviewSessionArtifact, public_brief: &str) -> (r:
    Result<String, RenderGuardError>)
    ensures
        leak_outcome(
            rendered_prompt(artifact.frozen_directives.tactic_seq(), public_brief@),
            artifact.frozen_directives.blacklist_seq(),
            r,
        ),
{
    OniModePrompt::render_sealed(&artifact.frozen_directives, public_brief)
}

} // verus!
