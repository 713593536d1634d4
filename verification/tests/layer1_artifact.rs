use blackbox_sim::evaluation::{
    normalize_provenance, normalize_summary, reject_vaultish_text, validate_interview_evaluation,
    AxisCheck, EvaluationCheck, EvaluationError, TranscriptTurnRef, TurnProvenance,
    INTERVIEW_EVALUATION_SCHEMA,
};
use blackbox_sim::coliseum::{build_oni_pressure_prompt, build_oni_pressure_prompt_from_artifact};
use blackbox_sim::interviewer_context::{
    compile_interviewer_tactics, FossilSnapshot, OniModePrompt, ResourceBand,
};
use blackbox_sim::render_guard::RenderGuardError;
use blackbox_sim::session_artifact::{
    amount_band, purchase_text_summary, truncate_hash_label, DistortionEvidenceSnap,
    EvidenceSnapshot, InterviewSessionArtifact, PurchaseEvidenceSnap, PER_TURN_SEED_SLOTS,
};

fn axis(turn: &str, quote: &str) -> AxisCheck {
    AxisCheck {
        score_in_unit_interval: true,
        provenance: vec![TurnProvenance { turn_id: turn.into(), quote_snippet: quote.into() }],
    }
}

fn sample_eval() -> EvaluationCheck {
    EvaluationCheck {
        schema: INTERVIEW_EVALUATION_SCHEMA.into(),
        axes: vec![
            axis("t-1", "まず論点を3つに分けます"),
            axis("t-2", "仮説としては需要側です"),
            axis("t-3", "オーダーは10^7程度"),
            axis("t-4", "前提を置き直します"),
        ],
        summary: "構造化と定量が安定".into(),
    }
}

fn four_turns() -> [TranscriptTurnRef<'static>; 4] {
    [
        TranscriptTurnRef { turn_id: "t-1", role: "candidate", text: "まず論点を3つに分けます" },
        TranscriptTurnRef { turn_id: "t-2", role: "candidate", text: "仮説としては需要側です" },
        TranscriptTurnRef { turn_id: "t-3", role: "candidate", text: "オーダーは10^7程度" },
        TranscriptTurnRef { turn_id: "t-4", role: "candidate", text: "前提を置き直します" },
    ]
}

#[test]
fn layer1_accepts_transcript_provenance() {
    assert!(validate_interview_evaluation(&sample_eval(), &four_turns()).is_ok());
}

#[test]
fn layer1_rejects_unknown_turn() {
    let turns = [TranscriptTurnRef { turn_id: "t-9", role: "candidate", text: "x" }];
    assert!(matches!(
        validate_interview_evaluation(&sample_eval(), &turns),
        Err(EvaluationError::UnknownTurnId { .. })
    ));
}

#[test]
fn layer1_rejects_vaultish_leak() {
    let mut eval = sample_eval();
    eval.summary = "see purchase_id=pur-1".into();
    let turns = [
        TranscriptTurnRef { turn_id: "t-1", role: "c", text: "a" },
        TranscriptTurnRef { turn_id: "t-2", role: "c", text: "a" },
        TranscriptTurnRef { turn_id: "t-3", role: "c", text: "a" },
        TranscriptTurnRef { turn_id: "t-4", role: "c", text: "a" },
    ];
    assert_eq!(validate_interview_evaluation(&eval, &turns), Err(EvaluationError::VaultFieldLeak));
}

#[test]
fn layer1_reports_the_first_fault_in_axis_order() {
    let mut eval = sample_eval();
    eval.axes[1].score_in_unit_interval = false;
    eval.axes[2].provenance.clear();
    assert_eq!(validate_interview_evaluation(&eval, &four_turns()), Err(EvaluationError::ScoreOutOfRange));
    let mut eval = sample_eval();
    eval.axes[2].provenance.clear();
    assert_eq!(validate_interview_evaluation(&eval, &four_turns()), Err(EvaluationError::EmptyProvenance));
    let mut eval = sample_eval();
    eval.schema = "interview_evaluation.v0".into();
    assert_eq!(validate_interview_evaluation(&eval, &four_turns()), Err(EvaluationError::SchemaMismatch));
}

#[test]
fn vault_field_names_are_caught_in_any_ascii_case() {
    assert_eq!(reject_vaultish_text("Vault.Rows"), Err(EvaluationError::VaultFieldLeak));
    assert_eq!(reject_vaultish_text("TOTAL_AMOUNT: 3"), Err(EvaluationError::VaultFieldLeak));
    assert_eq!(reject_vaultish_text("a total amount"), Ok(()));
    assert_eq!(EvaluationError::VaultFieldLeak.message(), "evaluation_vault_field_leak");
    assert_eq!(
        EvaluationError::UnknownTurnId { turn_id: "t-9".into() }.message(),
        "evaluation_unknown_turn_id:t-9"
    );
}

#[test]
fn provenance_and_summary_normalize_by_trimming_and_cutting() {
    let ps = vec![
        TurnProvenance { turn_id: " t-1 ".into(), quote_snippet: "  q  ".into() },
        TurnProvenance { turn_id: "  ".into(), quote_snippet: "dropped".into() },
        TurnProvenance { turn_id: "t-2".into(), quote_snippet: "x".repeat(300) },
    ];
    let out = normalize_provenance(&ps);
    assert_eq!(out.len(), 2);
    assert_eq!(out[0], TurnProvenance { turn_id: "t-1".into(), quote_snippet: "q".into() });
    assert_eq!(out[1].quote_snippet.chars().count(), 281);
    assert!(out[1].quote_snippet.ends_with('…'));
    assert_eq!(normalize_summary("   "), "unknown");
    assert_eq!(normalize_summary(" ok "), "ok");
}

fn sample_fossil() -> FossilSnapshot {
    FossilSnapshot {
        resource_band: Some(ResourceBand::Moderate),
        distortion_categories: vec!["overgeneralization".into()],
        purchase_amounts: vec![12_000],
        late_night_purchase_count: 1,
        impulse_purchase_count: 0,
        blacklist_seed_terms: vec!["秘密商事".into()],
    }
}

fn sample_evidence() -> EvidenceSnapshot {
    EvidenceSnapshot {
        distortions: vec![DistortionEvidenceSnap {
            source_id: "dist-1".into(),
            category: "overgeneralization".into(),
            text_summary: "いつも失敗する".into(),
            confidence_score_bits: 0.8f64.to_bits(),
        }],
        purchases: vec![PurchaseEvidenceSnap {
            source_id: "pur-1".into(),
            text_summary: purchase_text_summary("コンビニ", 1200, true),
            amount_band: amount_band(1200).into(),
            late_night: true,
        }],
        frozen_at_unix: 1_700_000_000,
    }
}

#[test]
fn fingerprint_is_stable_and_verifies() {
    let a = InterviewSessionArtifact::freeze("iv-1", "pocket-brain.gguf", 55, sample_fossil(), sample_evidence());
    assert_eq!(a.fingerprint.len(), 64);
    assert!(a.verify_fingerprint());
    let again = a.generate_fingerprint();
    assert_eq!(a.fingerprint, again);
}

#[test]
fn fingerprint_changes_when_evidence_body_changes() {
    let mut e = sample_evidence();
    let a1 = InterviewSessionArtifact::freeze("iv-1", "m", 55, sample_fossil(), e.clone());
    e.distortions[0].text_summary = "別の要約".into();
    let a2 = InterviewSessionArtifact::freeze("iv-1", "m", 55, sample_fossil(), e);
    assert_ne!(a1.fingerprint, a2.fingerprint);
}

#[test]
fn vacuum_safe_evidence_retains_text_not_only_ids() {
    let a = InterviewSessionArtifact::freeze("iv-1", "m", 70, sample_fossil(), sample_evidence());
    assert!(a.evidence.distortions[0].text_summary.contains("失敗"));
    assert!(a.evidence.purchases[0].text_summary.contains("merchant="));
}

#[test]
fn a_tampered_artifact_fails_verification() {
    let mut a = InterviewSessionArtifact::freeze("iv-1", "m", 70, sample_fossil(), sample_evidence());
    a.r_t_snapshot = 71;
    assert!(!a.verify_fingerprint());
}

#[test]
fn seeds_and_labels_follow_their_rules() {
    let a = InterviewSessionArtifact::freeze("iv-1", "  ", 70, sample_fossil(), sample_evidence());
    assert_eq!(a.per_turn_seeds.len(), PER_TURN_SEED_SLOTS);
    assert_eq!(a.seed_for_turn(0), 14_000_042);
    assert_eq!(a.seed_for_turn(1_000), a.per_turn_seeds[PER_TURN_SEED_SLOTS - 1]);
    assert_eq!(a.model_hash.len(), 64);
    assert_eq!(truncate_hash_label(" m "), "m");
    assert_eq!(truncate_hash_label(&"x".repeat(200)).len(), 128);
    let mut empty = a.clone();
    empty.per_turn_seeds.clear();
    assert_eq!(empty.seed_for_turn(3), 17);
}

#[test]
fn evidence_normalization_drops_blank_bodies_and_bands_unknown() {
    let e = EvidenceSnapshot {
        distortions: vec![DistortionEvidenceSnap {
            source_id: "d".into(),
            category: "  ".into(),
            text_summary: "t".into(),
            confidence_score_bits: 0,
        }],
        purchases: vec![PurchaseEvidenceSnap {
            source_id: " p ".into(),
            text_summary: " s ".into(),
            amount_band: "   ".into(),
            late_night: false,
        }],
        frozen_at_unix: 5,
    };
    let a = InterviewSessionArtifact::freeze("iv-2", "m", 10, sample_fossil(), e);
    assert!(a.evidence.distortions.is_empty());
    assert_eq!(a.evidence.purchases[0].source_id, "p");
    assert_eq!(a.evidence.purchases[0].amount_band, "unknown");
    assert_eq!(a.evidence.frozen_at_unix, 5);
}

#[test]
fn the_pressure_prompt_is_the_sealed_rendering_of_the_fossils() {
    let prompt = build_oni_pressure_prompt(sample_fossil(), "  ケース面接  ").unwrap();
    let tactics = compile_interviewer_tactics(sample_fossil());
    assert_eq!(prompt, OniModePrompt::render(&tactics, "  ケース面接  "));
    assert!(prompt.ends_with("\n【公開ブリーフ】\nケース面接"));
}

#[test]
fn a_brief_that_names_a_fossil_term_is_refused() {
    let err = build_oni_pressure_prompt(sample_fossil(), "秘密商事について").unwrap_err();
    assert_eq!(err, RenderGuardError::LeakageDetected { term: "秘密商事".into() });
}

#[test]
fn the_artifact_replays_the_same_prompt_as_the_live_fossils() {
    let a = InterviewSessionArtifact::freeze("iv-1", "m", 70, sample_fossil(), sample_evidence());
    let replayed = build_oni_pressure_prompt_from_artifact(&a, "ブリーフ").unwrap();
    let live = build_oni_pressure_prompt(sample_fossil(), "ブリーフ").unwrap();
    assert_eq!(replayed, live);
    assert!(build_oni_pressure_prompt_from_artifact(&a, "秘密商事").is_err());
}

#[test]
fn a_blank_model_label_falls_back_to_the_lowercase_hex_digest_of_the_default_model() {
    assert_eq!(
        truncate_hash_label("   "),
        "f3556a172b7cac3338cf1848ebb4ef0db517d753e6e39b25a182813df32d15d5"
    );
}
