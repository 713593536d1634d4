use blackbox_sim::evaluation::{
    validate_metacognitive_debrief, MetacognitiveDebriefV1, MetacognitiveInsightV1,
    TranscriptTurnRef, VaultMirrorAbstract, METACOGNITIVE_DEBRIEF_SCHEMA,
};
use blackbox_sim::interviewer_context::{
    compile_interviewer_tactics, AbstractTacticSet, FossilSnapshot, OniModePrompt, ResourceBand,
};
use blackbox_sim::mentor_zpd::{
    evaluate_oni_mode_eligibility, resolve_oni_activation, COLISEUM_GENERATION_SEED,
    COLISEUM_GENERATION_TEMP_MILLI, ONI_R_T_THRESHOLD,
};
use blackbox_sim::render_guard::{seal_oni_payload, verify_no_leakage, RenderGuardError};
use blackbox_sim::session_artifact::allocate_per_turn_seeds;
use blackbox_sim::tactics::InterviewerTactic;

fn snap_overgen() -> FossilSnapshot {
    FossilSnapshot {
        resource_band: Some(ResourceBand::Depleted),
        distortion_categories: vec!["overgeneralization".into()],
        purchase_amounts: vec![500, 12_000],
        late_night_purchase_count: 2,
        impulse_purchase_count: 1,
        blacklist_seed_terms: vec!["山田商事".into(), "4200".into()],
    }
}

#[test]
fn blocks_at_or_below_threshold() {
    assert!(evaluate_oni_mode_eligibility(0).is_err());
    assert!(evaluate_oni_mode_eligibility(ONI_R_T_THRESHOLD).is_err());
    assert!(evaluate_oni_mode_eligibility(ONI_R_T_THRESHOLD + 1).is_ok());
}

#[test]
fn downgrade_when_requested_but_depleted() {
    assert_eq!(resolve_oni_activation(false, 10), Ok(false));
    assert!(resolve_oni_activation(true, 10).is_err());
    assert_eq!(resolve_oni_activation(true, 55), Ok(true));
}

#[test]
fn coliseum_temp_is_hallucination_floor_not_difficulty() {
    assert!(COLISEUM_GENERATION_TEMP_MILLI <= 100);
    assert_eq!(COLISEUM_GENERATION_SEED, 14);
}

#[test]
fn clean_payload_passes() {
    assert!(verify_no_leakage("抽象的なトレードオフを述べよ", &["山田商事", "4200"]).is_ok());
}

#[test]
fn amount_leak_is_rejected() {
    let err = verify_no_leakage("昨日は4200円使った", &["4200"]).unwrap_err();
    assert!(matches!(err, RenderGuardError::LeakageDetected { .. }));
}

#[test]
fn case_fold_detects_ascii_names() {
    assert!(verify_no_leakage("Acme Corp plan", &["acme corp"]).is_err());
}

#[test]
fn leak_report_names_the_first_trimmed_hit() {
    let err = verify_no_leakage("pay ACME now, ref 4200", &[" x", "  4200 ", "acme"]).unwrap_err();
    assert_eq!(err, RenderGuardError::LeakageDetected { term: "4200".into() });
}

#[test]
fn sealing_hands_back_the_instructions_unchanged() {
    let terms: Vec<String> = vec!["secret".into()];
    assert_eq!(seal_oni_payload("open text", &terms), Ok("open text".to_string()));
    assert!(seal_oni_payload("a SECRET here", &terms).is_err());
}

#[test]
fn per_turn_seeds_are_deterministic() {
    let s1 = allocate_per_turn_seeds(14, 4);
    let s2 = allocate_per_turn_seeds(14, 4);
    assert_eq!(s1, s2);
    assert_ne!(s1[0], s1[1]);
}

#[test]
fn per_turn_seeds_follow_the_formula_and_wrap() {
    assert_eq!(allocate_per_turn_seeds(14, 3), vec![14_000_042, 14_000_043, 14_000_044]);
    let big = allocate_per_turn_seeds(u32::MAX, 1);
    assert_eq!(big[0], (u32::MAX as u64 * 1_000_003 % (1u64 << 32)) as u32);
}

#[test]
fn instructions_omit_private_markers() {
    let t = InterviewerTactic::StressTestQuantitative { intensity: 3 };
    let s = t.to_instruction();
    assert!(s.contains("定量"));
    assert!(!s.contains("円"));
    assert!(!s.contains("VaultHandle"));
}

#[test]
fn instruction_carries_the_clamped_intensity() {
    let s = InterviewerTactic::ProbeOvergeneralization { intensity: 9 }.to_instruction();
    assert!(s.starts_with("【戦術: 過度一般化の検証 / intensity=5】"));
    let z = InterviewerTactic::TechnicalEdgeCaseProbe { intensity: 0 }.to_instruction();
    assert!(z.contains("intensity=1】"));
}

#[test]
fn sort_key_is_total_order_friendly() {
    let a = InterviewerTactic::ProbeOvergeneralization { intensity: 2 };
    let b = InterviewerTactic::ProbeOvergeneralization { intensity: 5 };
    assert!(a.sort_key() < b.sort_key());
}

#[test]
fn layer2_opt_in_and_mirror() {
    let debrief = MetacognitiveDebriefV1 {
        schema: METACOGNITIVE_DEBRIEF_SCHEMA.into(),
        opted_in: true,
        insights: vec![MetacognitiveInsightV1 {
            parallel_label: "圧迫下の視野狭窄".into(),
            interview_turn_id: "t-1".into(),
            mirror_kind: "distortion_isomorphism".into(),
            distortion_category: Some("mental_filter".into()),
            note: "先月のパターンと同型".into(),
        }],
    };
    let mirror = VaultMirrorAbstract {
        distortion_category_keys: vec!["mental_filter".into()],
        spend_pattern_band: "baseline".into(),
        late_night_tendency: false,
    };
    let turns = [TranscriptTurnRef {
        turn_id: "t-1",
        role: "candidate",
        text: "答えに詰まった",
    }];
    assert!(validate_metacognitive_debrief(&debrief, &mirror, &turns).is_ok());
}

#[test]
fn compile_is_deterministic_and_sorted() {
    let a = compile_interviewer_tactics(snap_overgen());
    let b = compile_interviewer_tactics(FossilSnapshot {
        resource_band: Some(ResourceBand::Depleted),
        distortion_categories: vec!["overgeneralization".into()],
        purchase_amounts: vec![500, 12_000],
        late_night_purchase_count: 2,
        impulse_purchase_count: 1,
        blacklist_seed_terms: vec!["山田商事".into(), "4200".into()],
    });
    assert_eq!(a, b);
    let text_a = a.to_system_instructions();
    let text_b = b.to_system_instructions();
    assert_eq!(text_a, text_b);
    assert!(text_a.contains("戦術"));
    let bl = a.blacklist_terms().to_vec();
    let mut sorted = bl.clone();
    sorted.sort();
    assert_eq!(bl, sorted);
}

#[test]
fn instructions_do_not_echo_amounts_or_names() {
    let set = compile_interviewer_tactics(snap_overgen());
    let text = OniModePrompt::render(&set, "Backend SWE");
    assert!(text.contains("戦術"));
    assert!(!text.contains("12000"));
    assert!(!text.contains("山田"));
    assert!(!text.contains("4200"));
}

#[test]
fn overgeneralization_maps_to_probe() {
    let set = compile_interviewer_tactics(snap_overgen());
    assert!(set.to_system_instructions().contains("過度一般化"));
}

#[test]
fn compiled_tactics_for_the_sample_fossil() {
    let set = compile_interviewer_tactics(snap_overgen());
    assert_eq!(
        set.tactics(),
        &[
            InterviewerTactic::ForceNuancedTradeoff { intensity: 5 },
            InterviewerTactic::ProbeOvergeneralization { intensity: 2 },
            InterviewerTactic::StressTestQuantitative { intensity: 5 },
            InterviewerTactic::TechnicalEdgeCaseProbe { intensity: 4 },
        ]
    );
    assert_eq!(set.blacklist_terms(), &["4200".to_string(), "山田商事".to_string()]);
}

#[test]
fn repeated_categories_raise_the_probe_and_spend_needs_three_purchases() {
    let set = compile_interviewer_tactics(FossilSnapshot {
        resource_band: None,
        distortion_categories: vec![
            " labeling ".into(),
            "labeling".into(),
            "labeling".into(),
            "unknown_key".into(),
        ],
        purchase_amounts: vec![1, 2, 10_000],
        late_night_purchase_count: 0,
        impulse_purchase_count: 0,
        blacklist_seed_terms: vec![" b2 ".into(), "a".into(), "b2".into(), "a1".into()],
    });
    assert_eq!(
        set.tactics(),
        &[
            InterviewerTactic::ProbeOvergeneralization { intensity: 4 },
            InterviewerTactic::StressTestQuantitative { intensity: 4 },
        ]
    );
    assert_eq!(set.blacklist_terms(), &["a1".to_string(), "b2".to_string()]);
    let two = compile_interviewer_tactics(FossilSnapshot {
        resource_band: None,
        distortion_categories: vec![],
        purchase_amounts: vec![50_000, 50_000],
        late_night_purchase_count: 0,
        impulse_purchase_count: 0,
        blacklist_seed_terms: vec![],
    });
    assert_eq!(
        two.tactics(),
        &[
            InterviewerTactic::ForceNuancedTradeoff { intensity: 2 },
            InterviewerTactic::TechnicalEdgeCaseProbe { intensity: 2 },
        ]
    );
}

#[test]
fn thawing_a_frozen_set_gives_it_back() {
    let set = compile_interviewer_tactics(snap_overgen());
    let thawed =
        AbstractTacticSet::from_frozen(set.tactics().to_vec(), set.blacklist_terms().to_vec());
    assert_eq!(thawed, set);
}

#[test]
fn the_prompt_appends_only_a_non_blank_brief() {
    let set = compile_interviewer_tactics(snap_overgen());
    let bare = OniModePrompt::render(&set, "   ");
    assert_eq!(bare, set.to_system_instructions());
    assert!(bare.ends_with("抽象的な思考品質のみを評価せよ。"));
    let with = OniModePrompt::render(&set, "  Backend SWE ");
    assert_eq!(with, format!("{}\n【公開ブリーフ】\nBackend SWE", bare));
    assert_eq!(OniModePrompt::render_sealed(&set, "Backend SWE"), Ok(with));
    assert!(OniModePrompt::render_sealed(&set, "visit 山田商事").is_err());
}

#[test]
fn a_one_character_term_is_screened_and_only_blank_terms_are_ignored() {
    assert_eq!(
        verify_no_leakage("x", &["x"]),
        Err(RenderGuardError::LeakageDetected { term: "x".into() })
    );
    assert_eq!(
        verify_no_leakage("Xylophone", &["  ", " x "]),
        Err(RenderGuardError::LeakageDetected { term: "x".into() })
    );
    assert_eq!(verify_no_leakage("abc", &["", "   "]), Ok(()));
}
