use escape_core::combat_contract::{CombatManifest, CombatRngNamespace, CombatSimulationVersion, CURRENT_SIMULATION_VERSION};
use escape_core::combat_execution::{CombatExecutionError, CombatExecutionRequest, CombatPresentationSpeed, CombatRunMode};
use escape_core::combat_hex::HexCoord;
use escape_core::combat_opportunity::{
    CombatDetectionLevel, CombatDetectionThresholds, CombatInterventionBudget, CombatObserver,
    CombatOpportunityCatalog, CombatOpportunityContext, CombatOpportunityDefinition, CombatOpportunityInstance,
    CombatResponseDefinition,
};
use escape_core::combat_resolution::{
    CombatAttackDefinition, CombatDefenseProfile, CombatResolutionRequest,
};
use escape_core::combat_runtime::{
    decode_frame_deltas, derive_segment_seed, encode_frame_deltas, selection_history_fingerprint, CombatRuntime,
    CombatRuntimeAdvance, CombatRuntimeError, CombatRuntimeOpportunityConfig, CombatRuntimeSelectionHistoryEntry,
};
use escape_core::combat_simulation::{
    CombatRolePreset, CombatRoleWeights, CombatSide, CombatSimulationConfig, CombatSimulationError,
    CombatSimulationInput, CombatSimulationParticipant,
};
use escape_core::combat_state::{
    CombatEffectCatalog, CombatEffectCategory, CombatEffectDefinition, CombatState, CombatantState, EffectLifetime,
    EffectPhase, EffectStacking, EffectVisibility, Posture, WeaponControl,
};
use escape_core::resolve_combat;

fn combatant(id: &str) -> CombatantState {
    CombatantState {
        id: id.into(),
        current_health: 100,
        maximum_health: 100,
        current_breath: 1,
        maximum_breath: 1,
        balance: 100,
        maximum_balance: 100,
        fear: 0,
        anger: 0,
        posture: Posture::Neutral,
        weapon_control: WeaponControl::Stable,
        relationship_refs: vec![],
        environment_refs: vec![],
        team_refs: vec![],
        persistent_status_ids: vec![],
        combat_effect_ids: vec![],
    }
}

fn participant(id: &str, side: CombatSide, position: HexCoord) -> CombatSimulationParticipant {
    CombatSimulationParticipant {
        id: id.into(),
        side,
        position,
        facing: HexCoord { q: 1, r: 0 },
        speed_per_tick: 1,
        move_speed_hundredths: None,
        collision_radius: 1,
        attack_range: 2,
        support_range: 2,
        role_id: "r".into(),
        target_policy_id: None,
        active: true,
        occupies: vec![],
    }
}

fn make_request(ticks: u32) -> CombatResolutionRequest {
    CombatResolutionRequest {
        execution: CombatExecutionRequest {
            input: CombatSimulationInput {
                manifest: CombatManifest {
                    simulation_version: CombatSimulationVersion::new(CURRENT_SIMULATION_VERSION).unwrap(),
                    actual_seed: 7,
                    world_state_fingerprint: "w".into(),
                    applied_effects: vec![],
                    suppressed_effects: vec![],
                    combatant_ids: vec!["a".into(), "e".into()],
                    placement_ids: vec![],
                    environment_ids: vec![],
                    team_ids: vec![],
                    rule_ids: vec![],
                    public_info_ids: vec![],
                },
                state: CombatState {
                    battle_id: "b".into(),
                    combatants: vec![combatant("a"), combatant("e")],
                    persistent_statuses: vec![],
                    active_effects: vec![],
                    environment_refs: vec![],
                    team_refs: vec![],
                    team_formations: vec![],
                    relationships: vec![],
                    environment_states: vec![],
                    manifest_fingerprint: "fp".into(),
                },
                seed: 7,
                config: CombatSimulationConfig { tick_millis: 100, max_ticks: ticks },
                participants: vec![
                    participant("a", CombatSide::Ally, HexCoord { q: 0, r: 0 }),
                    participant("e", CombatSide::Enemy, HexCoord { q: 1, r: 0 }),
                ],
                roles: vec![CombatRolePreset {
                    id: "r".into(),
                    weights: CombatRoleWeights {
                        preferred_distance: 1,
                        aggression: 1,
                        formation_maintenance: 0,
                        pursuit_range: 1,
                        protect_priority: 0,
                        target_priority: 0,
                        risk_tolerance: 0,
                        ability_priority: 0,
                    },
                }],
                policies: vec![],
            },
            mode: CombatRunMode::Actual,
            presentation: CombatPresentationSpeed::OneX,
            ticks,
        },
        attacks: vec![],
        defenses: vec![
            CombatDefenseProfile { combatant_id: "a".into(), defense_hundredths: 0, balance_resistance_hundredths: 0 },
            CombatDefenseProfile { combatant_id: "e".into(), defense_hundredths: 0, balance_resistance_hundredths: 0 },
        ],
        catalog: CombatEffectCatalog { effects: vec![] },
    }
}

fn opportunity_config() -> CombatRuntimeOpportunityConfig {
    CombatRuntimeOpportunityConfig {
        catalog: CombatOpportunityCatalog {
            opportunities: vec![CombatOpportunityDefinition {
                id: "danger".into(),
                trigger_tags: vec!["danger_tag".into()],
                required_condition_ids: vec![],
                thresholds: CombatDetectionThresholds { detected: 0, interpreted: 1, insightful: 2 },
                expiry_tick: None,
                dedupe: true,
                scripted: false,
                defeat_risk: true,
                battlefield_impact: false,
                unique_response: false,
                tactical_priority: 1,
                free_alert_id: None,
            }],
            responses: vec![CombatResponseDefinition {
                id: "intervene".into(),
                opportunity_id: "danger".into(),
                minimum_detection: CombatDetectionLevel::Detected,
                required_capability_ids: vec![],
                required_condition_ids: vec![],
                executor_selector: "observer".into(),
                target_selector: "self".into(),
                cost_tags: vec![],
                resolution_kind: "effect".into(),
                success_effect_ids: vec!["noop_effect".into()],
                failure_effect_ids: vec!["noop_effect".into()],
                unique: false,
                tactical_priority: 1,
            }],
            effect_catalog: CombatEffectCatalog {
                effects: vec![CombatEffectDefinition {
                    id: "noop_effect".into(),
                    source: "test".into(),
                    category: CombatEffectCategory::State,
                    target_selector: "target".into(),
                    parameters: Default::default(),
                    conditions: vec![],
                    phase: EffectPhase::CombatStart,
                    lifetime: EffectLifetime::Persistent,
                    stacking: EffectStacking::Unique,
                    stacking_group: "noop".into(),
                    stacking_cap: None,
                    priority: 0,
                    visibility: EffectVisibility::Public,
                    tags: vec![],
                }],
            },
        },
        instances: vec![CombatOpportunityInstance { id: "danger_instance".into(), definition_id: "danger".into() }],
        context: CombatOpportunityContext {
            current_tick: 0,
            active_tag_ids: vec!["danger_tag".into()],
            active_condition_ids: vec![],
            presented_instance_ids: vec![],
            observers: vec![CombatObserver {
                id: "observer".into(),
                detection_score: 10,
                capability_ids: vec![],
                can_observe: true,
                can_act: true,
            }],
            budget: CombatInterventionBudget { maximum: 1, consumed: 0 },
            manifest_fingerprint: "manifest".into(),
        },
    }
}

#[test]
fn runtime_interleaves_one_tick_and_matches_batch_result() {
    let request = make_request(2);
    let expected = resolve_combat(request.clone()).unwrap();
    let mut runtime = CombatRuntime::new(request).unwrap();
    let frame = runtime.advance_tick().unwrap().unwrap();
    assert_eq!(frame.execution.tick, 1);
    assert_eq!(frame.execution.tick, frame.resolution.tick);
    let second = runtime.advance_tick().unwrap().unwrap();
    assert_eq!(second.execution.tick, 2);
    assert!(runtime.advance_tick().unwrap().is_none());
    let actual = runtime.finish().unwrap();
    assert_eq!(actual, expected);
}

#[test]
fn lethal_tick_syncs_inactive_roster_before_next_tick() {
    let mut request = make_request(2);
    request.attacks.push(CombatAttackDefinition {
        id: "lethal".into(),
        actor_id: "a".into(),
        power_hundredths: 24_000,
        ability_multiplier_hundredths: 100,
        accuracy_percent: 100,
        attack_range: 2,
        penetration_hundredths: 0,
        collision_balance_hundredths: 0,
        balance_power_hundredths: 0,
        attack_speed_hundredths: None,
        effects: vec![],
    });
    let mut runtime = CombatRuntime::new(request).unwrap();
    let first = runtime.advance_tick().unwrap().unwrap();
    assert!(first.resolution.outcomes.iter().any(|outcome| outcome.hit));
    assert_eq!(
        first.resolution.combatants.iter().find(|combatant| combatant.id == "e").unwrap().current_health_hundredths,
        0
    );

    let second = runtime.advance_tick().unwrap().unwrap();
    assert!(!second.execution.moves.iter().any(|intent| intent.actor_id == "e"));
    assert_eq!(
        second.execution.moves.iter().find(|intent| intent.actor_id == "a").and_then(|intent| intent.target_id.clone()),
        None
    );
    assert!(second.resolution.outcomes.is_empty());
}

#[test]
fn opportunity_candidate_pauses_at_exact_tick_and_dedupes_after_resume() {
    let request = make_request(2);
    let mut runtime = CombatRuntime::with_opportunities(request, opportunity_config()).unwrap();
    let paused = match runtime.advance_with_opportunities().unwrap() {
        CombatRuntimeAdvance::Paused(pause) => pause,
        other => panic!("expected pause, got {other:?}"),
    };
    assert_eq!(paused.tick, 1);
    assert_eq!(paused.evaluation.budget.consumed, 1);
    assert_eq!(paused.evaluation.candidate.as_ref().unwrap().instance_id, "danger_instance");
    assert_eq!(paused.evaluation_fingerprint, paused.evaluation.fingerprint().unwrap());
    assert_eq!(runtime.advance_with_opportunities().unwrap(), CombatRuntimeAdvance::Paused(paused.clone()));

    runtime.resume_no_intervention().unwrap();
    match runtime.advance_with_opportunities().unwrap() {
        CombatRuntimeAdvance::Frame(frame) => assert_eq!(frame.execution.tick, 2),
        other => panic!("expected resumed frame, got {other:?}"),
    }
    assert_eq!(runtime.advance_with_opportunities().unwrap(), CombatRuntimeAdvance::Complete);
    assert!(matches!(runtime.resume_no_intervention(), Err(CombatRuntimeError::InvalidInput)));
}

#[test]
fn response_selection_records_history_and_derives_deterministic_segment_seed() {
    let request = make_request(2);
    let mut first = CombatRuntime::with_opportunities(request.clone(), opportunity_config()).unwrap();
    let mut second = CombatRuntime::with_opportunities(request, opportunity_config()).unwrap();
    assert!(matches!(first.advance_with_opportunities().unwrap(), CombatRuntimeAdvance::Paused(_)));
    assert!(matches!(second.advance_with_opportunities().unwrap(), CombatRuntimeAdvance::Paused(_)));

    let first_seed = first.resume_with_response("intervene").unwrap();
    let second_seed = second.resume_with_response("intervene").unwrap();
    assert_eq!(first_seed, second_seed);
    assert_eq!(first.segment_index, 1);
    assert_eq!(first.selection_history, second.selection_history);
    assert_eq!(
        selection_history_fingerprint(&first.selection_history),
        selection_history_fingerprint(&second.selection_history)
    );
    assert_eq!(first.next_segment_seed, Some(first_seed));
    assert!(first.paused.is_none());
    assert_eq!(first.selection_history[0].segment_index, 0);
    assert_eq!(first.selection_history[0].tick, 1);
    assert_eq!(first.selection_history[0].instance_id, "danger_instance");
    assert_eq!(first.selection_history[0].opportunity_id, "danger");
    assert_eq!(first.selection_history[0].response_id, "intervene");
}

#[test]
fn response_selection_distinguishes_no_intervention_and_rejects_invalid_input() {
    let mut no_intervention = CombatRuntime::with_opportunities(make_request(2), opportunity_config()).unwrap();
    let mut actionable = CombatRuntime::with_opportunities(make_request(2), opportunity_config()).unwrap();
    assert!(matches!(no_intervention.advance_with_opportunities().unwrap(), CombatRuntimeAdvance::Paused(_)));
    assert!(matches!(actionable.advance_with_opportunities().unwrap(), CombatRuntimeAdvance::Paused(_)));
    no_intervention.resume_no_intervention().unwrap();
    let no_intervention_seed = no_intervention.next_segment_seed.unwrap();
    let actionable_seed = actionable.resume_with_response("intervene").unwrap();
    assert_ne!(no_intervention_seed, actionable_seed);
    assert_eq!(no_intervention.selection_history[0].response_id, "no_intervention");

    let mut invalid = CombatRuntime::with_opportunities(make_request(2), opportunity_config()).unwrap();
    assert!(matches!(invalid.resume_with_response("intervene"), Err(CombatRuntimeError::InvalidInput)));
    assert!(matches!(invalid.advance_with_opportunities().unwrap(), CombatRuntimeAdvance::Paused(_)));
    assert!(matches!(invalid.resume_with_response("unknown"), Err(CombatRuntimeError::InvalidInput)));
    assert_eq!(invalid.segment_index, 0);
    assert!(invalid.selection_history.is_empty());
    invalid.resume_with_response("intervene").unwrap();
    assert!(matches!(invalid.resume_with_response("intervene"), Err(CombatRuntimeError::InvalidInput)));
}

#[test]
fn segment_seed_is_canonical_and_namespace_isolated() {
    let version = CombatSimulationVersion::new(CURRENT_SIMULATION_VERSION).unwrap();
    let first = CombatRuntimeSelectionHistoryEntry {
        segment_index: 0,
        tick: 1,
        instance_id: "instance_a".into(),
        opportunity_id: "danger".into(),
        response_id: "no_intervention".into(),
    };
    let second = CombatRuntimeSelectionHistoryEntry {
        segment_index: 1,
        tick: 4,
        instance_id: "instance_b".into(),
        opportunity_id: "rescue".into(),
        response_id: "assist".into(),
    };
    let history = vec![first.clone(), second.clone()];
    let mut reversed = vec![second, first];
    let actual = derive_segment_seed(7, CombatRngNamespace::ActualCombat, &version, "manifest", 1, &history).unwrap();
    assert_eq!(actual, derive_segment_seed(7, CombatRngNamespace::ActualCombat, &version, "manifest", 1, &reversed).unwrap());
    reversed[0].response_id = "different".into();
    assert_ne!(actual, derive_segment_seed(7, CombatRngNamespace::ActualCombat, &version, "manifest", 1, &reversed).unwrap());
    assert_ne!(actual, derive_segment_seed(7, CombatRngNamespace::ForecastEnsemble, &version, "manifest", 1, &history).unwrap());
}

#[test]
fn segment_seed_rejects_invalid_history() {
    let version = CombatSimulationVersion::new(CURRENT_SIMULATION_VERSION).unwrap();
    let entry = CombatRuntimeSelectionHistoryEntry {
        segment_index: 1,
        tick: 1,
        instance_id: "instance".into(),
        opportunity_id: "danger".into(),
        response_id: "assist".into(),
    };
    assert!(matches!(
        derive_segment_seed(7, CombatRngNamespace::ActualCombat, &version, "manifest", 1, &vec![entry.clone(), entry.clone()]),
        Err(CombatRuntimeError::InvalidInput)
    ));
    let mut future = entry.clone();
    future.segment_index = 2;
    assert!(matches!(
        derive_segment_seed(7, CombatRngNamespace::ActualCombat, &version, "manifest", 1, &vec![future]),
        Err(CombatRuntimeError::InvalidInput)
    ));
    assert!(matches!(
        derive_segment_seed(7, CombatRngNamespace::ActualCombat, &version, "", 1, &vec![]),
        Err(CombatRuntimeError::InvalidInput)
    ));
}

#[test]
fn runtime_rejects_zero_and_over_max_ticks() {
    let mut request = make_request(1);
    request.execution.ticks = 0;
    assert!(matches!(CombatRuntime::new(request), Err(CombatRuntimeError::Execution(CombatExecutionError::ZeroTicks))));

    let mut request = make_request(1);
    request.execution.ticks = 2;
    request.execution.input.config.max_ticks = 1;
    assert!(matches!(
        CombatRuntime::new(request),
        Err(CombatRuntimeError::Simulation(CombatSimulationError::MaxTicksExceeded))
    ));
}

#[test]
fn checkpoint_roundtrip_paused_restore_resume_matches() {
    let request = make_request(2);
    let mut original = CombatRuntime::with_opportunities(request.clone(), opportunity_config()).unwrap();
    let _ = original.advance_with_opportunities().unwrap();
    let checkpoint = original.checkpoint().unwrap();
    let decoded = checkpoint.clone();
    let mut restored = CombatRuntime::restore(decoded).unwrap();
    if original.paused.is_some() {
        original.resume_no_intervention().unwrap();
        restored.resume_no_intervention().unwrap();
    }
    while original.advance_tick().unwrap().is_some() {}
    while restored.advance_tick().unwrap().is_some() {}
    assert_eq!(original.finish().unwrap().fingerprint, restored.finish().unwrap().fingerprint);
}

#[test]
fn checkpoint_restore_rejects_frame_length_mismatch() {
    let mut runtime = CombatRuntime::new(make_request(2)).unwrap();
    runtime.advance_tick().unwrap();
    let mut checkpoint = runtime.checkpoint().unwrap();
    checkpoint.resolution_frames.clear();
    assert!(matches!(CombatRuntime::restore(checkpoint), Err(CombatRuntimeError::InvalidInput)));
}

#[test]
fn checkpoint_restore_rejects_forged_next_segment_seed() {
    let runtime = CombatRuntime::new(make_request(1)).unwrap();
    let mut checkpoint = runtime.checkpoint().unwrap();
    checkpoint.segment_index = 1;
    checkpoint.selection_history.push(CombatRuntimeSelectionHistoryEntry {
        segment_index: 0,
        tick: 1,
        instance_id: "i".into(),
        opportunity_id: "o".into(),
        response_id: "r".into(),
    });
    checkpoint.next_segment_seed = Some(0);
    assert!(matches!(CombatRuntime::restore(checkpoint), Err(CombatRuntimeError::InvalidInput)));
}

#[test]
fn response_checkpoint_roundtrip_preserves_finish() {
    let request = make_request(2);
    let mut original = CombatRuntime::with_opportunities(request.clone(), opportunity_config()).unwrap();
    let _ = original.advance_with_opportunities().unwrap();
    original.resume_with_response("intervene").unwrap();
    let checkpoint = original.checkpoint().unwrap();
    let mut restored = CombatRuntime::restore(checkpoint.clone()).unwrap();
    while original.advance_tick().unwrap().is_some() {}
    while restored.advance_tick().unwrap().is_some() {}
    assert_eq!(original.finish().unwrap().fingerprint, restored.finish().unwrap().fingerprint);
}

#[test]
fn checkpoint_restore_rejects_schema_and_provenance_mismatch() {
    let mut runtime = CombatRuntime::new(make_request(1)).unwrap();
    runtime.advance_tick().unwrap();
    let checkpoint = runtime.checkpoint().unwrap();
    let mut wrong_schema = checkpoint.clone();
    wrong_schema.schema_version += 1;
    assert!(matches!(CombatRuntime::restore(wrong_schema), Err(CombatRuntimeError::InvalidInput)));
    let mut wrong_manifest = checkpoint;
    wrong_manifest.manifest_fingerprint = "different_manifest".into();
    assert!(matches!(CombatRuntime::restore(wrong_manifest), Err(CombatRuntimeError::InvalidInput)));
}

#[test]
fn frame_deltas_round_trip_execution_and_resolution_frames_exactly() {
    let mut runtime = CombatRuntime::new(make_request(2)).unwrap();
    runtime.advance_tick().unwrap();
    runtime.advance_tick().unwrap();
    let checkpoint = runtime.checkpoint().unwrap();
    let deltas = encode_frame_deltas(&checkpoint.execution_frames, &checkpoint.resolution_frames).unwrap();
    let (execution, resolution) = decode_frame_deltas(&deltas).unwrap();
    assert_eq!(execution, checkpoint.execution_frames);
    assert_eq!(resolution, checkpoint.resolution_frames);
}

#[test]
fn frame_deltas_reject_malformed_first_delta_tick_gap_and_duplicate_id() {
    let mut runtime = CombatRuntime::new(make_request(2)).unwrap();
    runtime.advance_tick().unwrap();
    runtime.advance_tick().unwrap();
    let checkpoint = runtime.checkpoint().unwrap();
    let deltas = encode_frame_deltas(&checkpoint.execution_frames, &checkpoint.resolution_frames).unwrap();

    let mut first_missing = deltas.clone();
    first_missing[0].moves = None;
    assert!(matches!(decode_frame_deltas(&first_missing), Err(CombatRuntimeError::InvalidInput)));

    let mut tick_gap = deltas.clone();
    tick_gap[1].tick = 3;
    assert!(matches!(decode_frame_deltas(&tick_gap), Err(CombatRuntimeError::InvalidInput)));

    let mut duplicate = deltas;
    let update = duplicate[0].combatant_updates[0].clone();
    duplicate[0].combatant_updates.push(update);
    assert!(matches!(decode_frame_deltas(&duplicate), Err(CombatRuntimeError::InvalidInput)));
}

#[test]
fn compact_checkpoint_restores_by_replaying_its_deltas() {
    let mut runtime = CombatRuntime::new(make_request(2)).unwrap();
    runtime.advance_tick().unwrap();
    runtime.advance_tick().unwrap();
    let expected = runtime.checkpoint().unwrap();
    let compact = runtime.checkpoint_compact().unwrap();
    assert!(compact.execution_frames.is_empty());
    let restored = CombatRuntime::restore(compact).unwrap();
    assert_eq!(restored.execution_frames, expected.execution_frames);
    assert_eq!(restored.resolution_frames, expected.resolution_frames);
}

#[test]
fn save_envelope_carries_a_checkpoint_that_restores() {
    let mut runtime = CombatRuntime::new(make_request(1)).unwrap();
    runtime.advance_tick().unwrap();
    let checkpoint = runtime.checkpoint().unwrap();
    let envelope = escape_core::save::SaveEnvelope {
        schema_version: escape_core::save::SAVE_SCHEMA_VERSION,
        state: escape_core::new_game(7),
        combat_checkpoint: Some(checkpoint),
    };
    assert_eq!(escape_core::save::load_state(&envelope).unwrap(), escape_core::new_game(7));
    let restored = CombatRuntime::restore(envelope.combat_checkpoint.clone().unwrap()).unwrap();
    assert_eq!(restored.execution_frames, runtime.execution_frames);
    assert_eq!(restored.resolution_frames, runtime.resolution_frames);
}
