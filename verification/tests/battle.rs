use escape_core::combat_conclusion::{CombatConclusionError, CombatConclusionOutcome, CombatConclusionRequest, CombatTerminationPolicy};
use escape_core::combat_contract::{CombatManifest, CombatSimulationVersion, CURRENT_SIMULATION_VERSION};
use escape_core::combat_execution::{CombatExecutionRequest, CombatPresentationSpeed, CombatRunMode};
use escape_core::combat_hex::HexCoord;
use escape_core::combat_resolution::{damage, CombatAttackDefinition, CombatDefenseProfile, CombatResolutionRequest};
use escape_core::combat_simulation::{
    CombatRolePreset, CombatRoleWeights, CombatSide, CombatSimulationConfig, CombatSimulationInput,
    CombatSimulationParticipant,
};
use escape_core::combat_spectator::{spectate, CombatSpectatorCue, CombatSpectatorError, CombatSpectatorRequest};
use escape_core::combat_state::{CombatEffectCatalog, CombatState, CombatantState, Posture, WeaponControl};
use escape_core::conclude_combat;
use escape_core::resolve_combat;

fn combatant(id: &str) -> CombatantState {
    CombatantState {
        id: id.into(),
        current_health: 100,
        maximum_health: 100,
        current_breath: 1,
        maximum_breath: 1,
        balance: 100,
        maximum_balance: 100,
        fear: 0,
        anger: 0,
        posture: Posture::Neutral,
        weapon_control: WeaponControl::Stable,
        relationship_refs: vec![],
        environment_refs: vec![],
        team_refs: vec![],
        persistent_status_ids: vec![],
        combat_effect_ids: vec![],
    }
}

fn participant(id: &str, side: CombatSide, position: HexCoord) -> CombatSimulationParticipant {
    CombatSimulationParticipant {
        id: id.into(),
        side,
        position,
        facing: HexCoord { q: 1, r: 0 },
        speed_per_tick: 1,
        move_speed_hundredths: None,
        collision_radius: 1,
        attack_range: 2,
        support_range: 2,
        role_id: "r".into(),
        target_policy_id: None,
        active: true,
        occupies: vec![],
    }
}

fn make_request(ticks: u32) -> CombatResolutionRequest {
    CombatResolutionRequest {
        execution: CombatExecutionRequest {
            input: CombatSimulationInput {
                manifest: CombatManifest {
                    simulation_version: CombatSimulationVersion::new(CURRENT_SIMULATION_VERSION).unwrap(),
                    actual_seed: 7,
                    world_state_fingerprint: "w".into(),
                    applied_effects: vec![],
                    suppressed_effects: vec![],
                    combatant_ids: vec!["a".into(), "e".into()],
                    placement_ids: vec![],
                    environment_ids: vec![],
                    team_ids: vec![],
                    rule_ids: vec![],
                    public_info_ids: vec![],
                },
                state: CombatState {
                    battle_id: "b".into(),
                    combatants: vec![combatant("a"), combatant("e")],
                    persistent_statuses: vec![],
                    active_effects: vec![],
                    environment_refs: vec![],
                    team_refs: vec![],
                    team_formations: vec![],
                    relationships: vec![],
                    environment_states: vec![],
                    manifest_fingerprint: "fp".into(),
                },
                seed: 7,
                config: CombatSimulationConfig { tick_millis: 100, max_ticks: ticks },
                participants: vec![
                    participant("a", CombatSide::Ally, HexCoord { q: 0, r: 0 }),
                    participant("e", CombatSide::Enemy, HexCoord { q: 1, r: 0 }),
                ],
                roles: vec![CombatRolePreset {
                    id: "r".into(),
                    weights: CombatRoleWeights {
                        preferred_distance: 1,
                        aggression: 1,
                        formation_maintenance: 0,
                        pursuit_range: 1,
                        protect_priority: 0,
                        target_priority: 0,
                        risk_tolerance: 0,
                        ability_priority: 0,
                    },
                }],
                policies: vec![],
            },
            mode: CombatRunMode::Actual,
            presentation: CombatPresentationSpeed::OneX,
            ticks,
        },
        attacks: vec![],
        defenses: vec![
            CombatDefenseProfile { combatant_id: "a".into(), defense_hundredths: 0, balance_resistance_hundredths: 0 },
            CombatDefenseProfile { combatant_id: "e".into(), defense_hundredths: 0, balance_resistance_hundredths: 0 },
        ],
        catalog: CombatEffectCatalog { effects: vec![] },
    }
}


fn slash() -> CombatAttackDefinition {
    CombatAttackDefinition {
        id: "slash".into(),
        actor_id: "a".into(),
        power_hundredths: 1200,
        ability_multiplier_hundredths: 100,
        accuracy_percent: 100,
        attack_range: 2,
        penetration_hundredths: 0,
        collision_balance_hundredths: 0,
        balance_power_hundredths: 0,
        attack_speed_hundredths: None,
        effects: vec![],
    }
}

fn fight(ticks: u32) -> CombatResolutionRequest {
    let mut r = make_request(ticks);
    r.attacks = vec![slash()];
    r.defenses[1].defense_hundredths = 1000;
    r
}

#[test]
fn damage_formula_on_known_values() {
    let d = CombatDefenseProfile { combatant_id: "e".into(), defense_hundredths: 1000, balance_resistance_hundredths: 0 };
    assert_eq!(damage(&slash(), &d), Ok(334));
    let d0 = CombatDefenseProfile { combatant_id: "e".into(), defense_hundredths: 0, balance_resistance_hundredths: 0 };
    assert_eq!(damage(&slash(), &d0), Ok(500));
}

#[test]
fn spectator_sees_attacks_and_hits() {
    let res = resolve_combat(fight(3)).unwrap();
    let req = CombatSpectatorRequest {
        participants: make_request(3).execution.input.participants,
        catalog: CombatEffectCatalog { effects: vec![] },
        resolution: res,
    };
    let view = spectate(&req).unwrap();
    assert_eq!(view.tick_millis, 100);
    assert_eq!(view.frames.len(), req.resolution.execution.frames.len());
    assert_eq!(view.resolution_fingerprint, req.resolution.fingerprint);
    assert_eq!(view.fingerprint.len(), 16);
    let first = &view.frames[0];
    let a = first.pieces.iter().find(|p| p.id == "a").unwrap();
    let e = first.pieces.iter().find(|p| p.id == "e").unwrap();
    assert!(a.cues.contains(&CombatSpectatorCue::Attack));
    assert!(e.cues.contains(&CombatSpectatorCue::Hit));
    assert_eq!(e.side, CombatSide::Enemy);
    for entry in &view.full_log {
        assert!(entry.template_id.starts_with("combat.log."));
        assert_ne!(entry.template_id, "combat.log.attack_roll");
    }
    let mut last = (0u32, 0u32);
    for entry in &view.full_log {
        assert!((entry.tick, entry.sequence) >= last || entry.tick > last.0);
        last = (entry.tick, entry.sequence);
    }
    assert!(view.core_log.len() <= view.full_log.len());
    assert!(view.full_log.iter().any(|e| e.template_id == "combat.log.damage_applied" && e.value_hundredths == Some(334)));
}

#[test]
fn spectator_needs_provenance_and_known_pieces() {
    let mut res = resolve_combat(fight(2)).unwrap();
    let participants = make_request(2).execution.input.participants;
    let req = CombatSpectatorRequest {
        participants: vec![participants[0].clone()],
        catalog: CombatEffectCatalog { effects: vec![] },
        resolution: res.clone(),
    };
    assert_eq!(spectate(&req).unwrap_err(), CombatSpectatorError::UnknownParticipant("e".into()));
    res.execution.provenance = None;
    let req = CombatSpectatorRequest { participants, catalog: CombatEffectCatalog { effects: vec![] }, resolution: res };
    assert_eq!(spectate(&req).unwrap_err(), CombatSpectatorError::MissingProvenance);
}

#[test]
fn conclusion_reports_a_battle_in_progress() {
    let res = resolve_combat(fight(2)).unwrap();
    let req = CombatConclusionRequest {
        resolution: res,
        participants: make_request(2).execution.input.participants,
        policy: CombatTerminationPolicy { max_ticks: 10, conclude_on_max_ticks: true },
    };
    let report = conclude_combat(req).unwrap();
    assert_eq!(report.outcome, CombatConclusionOutcome::InProgress);
    assert_eq!(report.decisive_tick, None);
    assert_eq!(report.active_allies, 1);
    assert_eq!(report.active_enemies, 1);
    assert_eq!(report.fingerprint.len(), 16);
    let a = report.combatants.iter().find(|c| c.id == "a").unwrap();
    assert!(a.damage_dealt_hundredths > 0);
    assert_eq!(report.top_damage_dealt_id.as_deref(), Some("a"));
    assert_eq!(report.top_damage_taken_id.as_deref(), Some("e"));
}

#[test]
fn conclusion_rejects_a_zero_policy_and_missing_provenance() {
    let res = resolve_combat(fight(2)).unwrap();
    let participants = make_request(2).execution.input.participants;
    let req = CombatConclusionRequest {
        resolution: res.clone(),
        participants: participants.clone(),
        policy: CombatTerminationPolicy { max_ticks: 0, conclude_on_max_ticks: true },
    };
    assert_eq!(conclude_combat(req).unwrap_err(), CombatConclusionError::InvalidPolicy);
    let mut res2 = res;
    res2.execution.provenance = None;
    let req = CombatConclusionRequest {
        resolution: res2,
        participants,
        policy: CombatTerminationPolicy { max_ticks: 5, conclude_on_max_ticks: true },
    };
    assert_eq!(conclude_combat(req).unwrap_err(), CombatConclusionError::MissingProvenance);
}
