use escape_core::combat_intervention::{
    CombatClaimPolicy, CombatEffectBranch, CombatInterventionError, CombatInterventionPayload, CombatOutcomeAction,
    CombatSpecialEffect, CombatStrategyModifier, FormulaParameter, StrategyDuration, StrategyOperation, StrategyScope,
};

fn modifier(scope: StrategyScope, operations: Vec<StrategyOperation>) -> CombatStrategyModifier {
    CombatStrategyModifier { scope, duration: StrategyDuration::NextSegment, operations }
}

fn branch(effect_ids: Vec<&str>, outcome_actions: Vec<CombatOutcomeAction>) -> CombatEffectBranch {
    CombatEffectBranch { effect_ids: effect_ids.into_iter().map(String::from).collect(), outcome_actions }
}

fn special(chance: Option<i64>) -> CombatSpecialEffect {
    CombatSpecialEffect {
        formula_id: "combat.formula.v1.fixed_chance".into(),
        formula_parameters: vec![FormulaParameter { name: "chance_percent".into(), integer: chance }],
        executor_selector_id: "combat.selector.executor.v1.observer".into(),
        target_selector_id: "combat.selector.target.v1.selected_target".into(),
        success: branch(vec!["stun"], vec![CombatOutcomeAction::SetFlag { flag_id: "stunned".into() }]),
        failure: branch(vec![], vec![]),
    }
}

#[test]
fn payload_needs_a_modifier_or_an_effect() {
    let p = CombatInterventionPayload { strategy_modifier: None, special_effect: None };
    assert_eq!(p.validate(), Err(CombatInterventionError::EmptyPayload));
}

#[test]
fn valid_modifier_and_effect_pass() {
    let p = CombatInterventionPayload {
        strategy_modifier: Some(modifier(
            StrategyScope::AllAllies {},
            vec![
                StrategyOperation::SetRoleWeight { field: "aggression".into(), value: 3 },
                StrategyOperation::SetTargetingRule { rule_id: "combat.strategy.targeting.v1.attackers_of".into() },
                StrategyOperation::ClearOverride { field: "target_policy".into() },
            ],
        )),
        special_effect: Some(special(Some(40))),
    };
    assert_eq!(p.validate(), Ok(()));
}

#[test]
fn modifier_errors_come_in_check_order() {
    let m = modifier(StrategyScope::Role { role_id: "  ".into() }, vec![]);
    assert_eq!(m.validate(), Err(CombatInterventionError::EmptyField("role_id")));
    let m = modifier(StrategyScope::AllAllies {}, vec![]);
    assert_eq!(m.validate(), Err(CombatInterventionError::EmptyOperations));
    let m = modifier(StrategyScope::Combatants { combatant_selector_ids: vec![] }, vec![]);
    assert_eq!(m.validate(), Err(CombatInterventionError::EmptyField("combatant_selector_ids")));
    let m = modifier(
        StrategyScope::Combatants {
            combatant_selector_ids: vec![
                "combat.selector.target.v1.executor_self".into(),
                "combat.selector.target.v1.executor_self".into(),
            ],
        },
        vec![StrategyOperation::SetTargetPolicy { policy_id: "p".into() }],
    );
    assert_eq!(
        m.validate(),
        Err(CombatInterventionError::DuplicateId("combat.selector.target.v1.executor_self".into()))
    );
    let m = modifier(
        StrategyScope::Combatants { combatant_selector_ids: vec!["self".into()] },
        vec![StrategyOperation::SetTargetPolicy { policy_id: "p".into() }],
    );
    assert_eq!(m.validate(), Err(CombatInterventionError::LegacyAlias("self".into())));
    let m = modifier(
        StrategyScope::AllAllies {},
        vec![StrategyOperation::SetRoleWeight { field: "courage".into(), value: 1 }],
    );
    assert_eq!(m.validate(), Err(CombatInterventionError::InvalidField("courage".into())));
    let m = modifier(
        StrategyScope::AllAllies {},
        vec![StrategyOperation::SetTargetingRule { rule_id: "combat.strategy.targeting.v2.unknown".into() }],
    );
    assert_eq!(
        m.validate(),
        Err(CombatInterventionError::UnknownCanonicalId("combat.strategy.targeting.v2.unknown".into()))
    );
}

#[test]
fn special_effect_chance_must_be_a_percentage() {
    assert_eq!(special(Some(0)).validate(), Ok(()));
    assert_eq!(special(Some(100)).validate(), Ok(()));
    assert_eq!(special(Some(101)).validate(), Err(CombatInterventionError::InvalidField("chance_percent".into())));
    assert_eq!(special(Some(-1)).validate(), Err(CombatInterventionError::InvalidField("chance_percent".into())));
    assert_eq!(special(None).validate(), Err(CombatInterventionError::InvalidField("chance_percent".into())));
    let mut e = special(Some(10));
    e.formula_parameters.push(FormulaParameter { name: "extra".into(), integer: Some(1) });
    assert_eq!(e.validate(), Err(CombatInterventionError::InvalidField("chance_percent".into())));
    let mut e = special(Some(10));
    e.formula_id = "target".into();
    assert_eq!(e.validate(), Err(CombatInterventionError::LegacyAlias("target".into())));
}

#[test]
fn branch_and_action_checks() {
    let b = branch(vec!["a", "a"], vec![]);
    assert_eq!(b.validate(), Err(CombatInterventionError::DuplicateId("a".into())));
    let b = branch(vec![" "], vec![]);
    assert_eq!(b.validate(), Err(CombatInterventionError::EmptyField("effect_id")));
    let a = CombatOutcomeAction::CreateLootEntitlement {
        item_id: "sword".into(),
        source_selector_id: "combat.selector.target.v1.selected_target".into(),
        claim_policy: CombatClaimPolicy::AlwaysClaimable,
    };
    assert_eq!(a.validate(), Ok(()));
    let a = CombatOutcomeAction::GrantItem { item_id: "".into() };
    assert_eq!(a.validate(), Err(CombatInterventionError::EmptyField("item_id")));
    let mut e = special(Some(5));
    e.failure = branch(vec![], vec![CombatOutcomeAction::SetFlag { flag_id: "".into() }]);
    assert_eq!(e.validate(), Err(CombatInterventionError::EmptyField("flag_id")));
}
