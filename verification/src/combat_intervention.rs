//! Player interventions in a running battle: a strategy modifier for the
//! allies, a special effect with a fixed success chance, or both. Every id
//! they name must be a canonical id of the selector and rule registries.
use vstd::prelude::*;
use crate::order::{first_error_in, first_some};
use crate::text::{blank, is_blank, str_eq};

verus! {

#[derive(Clone, Debug, PartialEq, Eq)]
pub enum CombatInterventionError {
    EmptyPayload,
    EmptyOperations,
    EmptyField(&'static str),
    InvalidField(String),
    DuplicateId(String),
    UnknownCanonicalId(String),
    LegacyAlias(String),
}

/// What an intervention error says, with its text taken by value.
pub enum InterventionFault {
    EmptyPayload,
    EmptyOperations,
    EmptyField(Seq<char>),
    InvalidField(Seq<char>),
    DuplicateId(Seq<char>),
    UnknownCanonicalId(Seq<char>),
    LegacyAlias(Seq<char>),
}

pub open spec fn fault_of(e: CombatInterventionError) -> InterventionFault {
    match e {
        CombatInterventionError::EmptyPayload => InterventionFault::EmptyPayload,
        CombatInterventionError::EmptyOperations => InterventionFault::EmptyOperations,
        CombatInterventionError::EmptyField(f) => InterventionFault::EmptyField(f@),
        CombatInterventionError::InvalidField(f) => InterventionFault::InvalidField(f@),
        CombatInterventionError::DuplicateId(f) => InterventionFault::DuplicateId(f@),
        CombatInterventionError::UnknownCanonicalId(f) => InterventionFault::UnknownCanonicalId(f@),
        CombatInterventionError::LegacyAlias(f) => InterventionFault::LegacyAlias(f@),
    }
}

/// A validation result read through `fault_of`.
pub open spec fn outcome_of(r: Result<(), CombatInterventionError>) -> Option<InterventionFault> {
    match r {
        Ok(_) => None,
        Err(e) => Some(fault_of(e)),
    }
}

pub open spec fn or_else(a: Option<InterventionFault>, b: Option<InterventionFault>) -> Option<InterventionFault> {
    if a is Some {
        a
    } else {
        b
    }
}

#[derive(Clone, Debug, PartialEq, Eq)]
pub enum StrategyScope {
    AllAllies {},
    Role { role_id: String },
    Combatants { combatant_selector_ids: Vec<String> },
}

#[derive(Clone, Debug, PartialEq, Eq)]
pub enum StrategyDuration {
    UntilReplaced,
    NextSegment,
}

#[derive(Clone, Debug, PartialEq, Eq)]
pub enum StrategyOperation {
    SetRoleWeight { field: String, value: i32 },
    SetTargetingRule { rule_id: String },
    SetTargetPolicy { policy_id: String },
    ClearOverride { field: String },
}

#[derive(Clone, Debug, PartialEq, Eq)]
pub struct CombatStrategyModifier {
    pub scope: StrategyScope,
    pub duration: StrategyDuration,
    pub operations: Vec<StrategyOperation>,
}

#[derive(Clone, Debug, PartialEq, Eq)]
pub struct CombatEffectBranch {
    pub effect_ids: Vec<String>,
    pub outcome_actions: Vec<CombatOutcomeAction>,
}

#[derive(Clone, Debug, PartialEq, Eq)]
pub enum CombatClaimPolicy {
    DefaultTerminalPolicy,
    AlwaysClaimable,
    NeverClaimable,
}

#[derive(Clone, Debug, PartialEq, Eq)]
pub enum CombatOutcomeAction {
    SetFlag { flag_id: String },
    CreateLootEntitlement { item_id: String, source_selector_id: String, claim_policy: CombatClaimPolicy },
    GrantItem { item_id: String },
}

/// One named parameter of a special effect's formula: its name, and its
/// value when that value is an integer that fits in `i64`.
#[derive(Clone, Debug, PartialEq, Eq)]
pub struct FormulaParameter {
    pub name: String,
    pub integer: Option<i64>,
}

#[derive(Clone, Debug, PartialEq, Eq)]
pub struct CombatSpecialEffect {
    pub formula_id: String,
    /// The formula's parameters, each name once.
    pub formula_parameters: Vec<FormulaParameter>,
    pub executor_selector_id: String,
    pub target_selector_id: String,
    pub success: CombatEffectBranch,
    pub failure: CombatEffectBranch,
}

#[derive(Clone, Debug, PartialEq, Eq)]
pub struct CombatInterventionPayload {
    pub strategy_modifier: Option<CombatStrategyModifier>,
    pub special_effect: Option<CombatSpecialEffect>,
}

// ---------------------------------------------------------------- registries

/// Short selector names of an older format, refused by name.
pub open spec fn is_legacy_alias(id: Seq<char>) -> bool {
    id == "self"@ || id == "target"@ || id == "observer"@ || id == "opponent"@ || id == "any"@
}

pub open spec fn is_executor_id(id: Seq<char>) -> bool {
    id == "combat.selector.executor.v1.observer"@ || id == "combat.selector.executor.v1.any_capable"@
}

pub open spec fn is_target_id(id: Seq<char>) -> bool {
    id == "combat.selector.target.v1.executor_self"@ || id == "combat.selector.target.v1.selected_target"@
        || id == "combat.selector.target.v1.nearest_active_enemy"@
        || id == "combat.selector.target.v1.lowest_health_active_ally"@
        || id == "combat.selector.target.v1.surrounded_active_ally"@
        || id == "combat.selector.target.v1.all_active_allies"@
}

pub open spec fn is_rule_id(id: Seq<char>) -> bool {
    id == "combat.strategy.targeting.v1.attackers_of"@ || id == "combat.strategy.targeting.v1.rearmost_active_enemy"@
        || id == "combat.strategy.targeting.v1.focus_resolved_target"@
}

pub open spec fn is_formula_id(id: Seq<char>) -> bool {
    id == "combat.formula.v1.fixed_chance"@
}

pub open spec fn is_weight_field(f: Seq<char>) -> bool {
    f == "preferred_distance"@ || f == "aggression"@ || f == "formation_maintenance"@ || f == "pursuit_range"@
        || f == "protect_priority"@ || f == "target_priority"@ || f == "risk_tolerance"@
        || f == "ability_priority"@
}

pub open spec fn is_override_field(f: Seq<char>) -> bool {
    f == "role_weight"@ || f == "targeting_rule"@ || f == "target_policy"@
}

/// The registries an id can be checked against.
#[derive(Clone, Copy, Debug, PartialEq, Eq, Structural)]
pub enum Registry {
    Executor,
    Target,
    Rule,
    Formula,
}

pub open spec fn registered(reg: Registry, id: Seq<char>) -> bool {
    match reg {
        Registry::Executor => is_executor_id(id),
        Registry::Target => is_target_id(id),
        Registry::Rule => is_rule_id(id),
        Registry::Formula => is_formula_id(id),
    }
}

/// A legacy alias is refused as such; any other id must be registered.
pub open spec fn registry_fault(reg: Registry, id: Seq<char>) -> Option<InterventionFault> {
    if is_legacy_alias(id) {
        Some(InterventionFault::LegacyAlias(id))
    } else if registered(reg, id) {
        None
    } else {
        Some(InterventionFault::UnknownCanonicalId(id))
    }
}

pub open spec fn nonempty_fault(v: Seq<char>, field: Seq<char>) -> Option<InterventionFault> {
    if blank(v) {
        Some(InterventionFault::EmptyField(field))
    } else {
        None
    }
}

fn legacy_alias(id: &str) -> (r: bool)
    ensures
        r == is_legacy_alias(id@),
{
    str_eq(id, "self") || str_eq(id, "target") || str_eq(id, "observer") || str_eq(id, "opponent") || str_eq(id, "any")
}

fn is_registered(reg: Registry, id: &str) -> (r: bool)
    ensures
        r == registered(reg, id@),
{
    match reg {
        Registry::Executor => str_eq(id, "combat.selector.executor.v1.observer") || str_eq(
            id,
            "combat.selector.executor.v1.any_capable",
        ),
        Registry::Target => str_eq(id, "combat.selector.target.v1.executor_self") || str_eq(
            id,
            "combat.selector.target.v1.selected_target",
        ) || str_eq(id, "combat.selector.target.v1.nearest_active_enemy") || str_eq(
            id,
            "combat.selector.target.v1.lowest_health_active_ally",
        ) || str_eq(id, "combat.selector.target.v1.surrounded_active_ally") || str_eq(
            id,
            "combat.selector.target.v1.all_active_allies",
        ),
        Registry::Rule => str_eq(id, "combat.strategy.targeting.v1.attackers_of") || str_eq(
            id,
            "combat.strategy.targeting.v1.rearmost_active_enemy",
        ) || str_eq(id, "combat.strategy.targeting.v1.focus_resolved_target"),
        Registry::Formula => str_eq(id, "combat.formula.v1.fixed_chance"),
    }
}

fn weight_field(f: &str) -> (r: bool)
    ensures
        r == is_weight_field(f@),
{
    str_eq(f, "preferred_distance") || str_eq(f, "aggression") || str_eq(f, "formation_maintenance") || str_eq(
        f,
        "pursuit_range",
    ) || str_eq(f, "protect_priority") || str_eq(f, "target_priority") || str_eq(f, "risk_tolerance") || str_eq(
        f,
        "ability_priority",
    )
}

fn override_field(f: &str) -> (r: bool)
    ensures
        r == is_override_field(f@),
{
    str_eq(f, "role_weight") || str_eq(f, "targeting_rule") || str_eq(f, "target_policy")
}

/// Checks `id` against a registry, refusing legacy aliases by name.
pub fn registry(reg: Registry, id: &str) -> (r: Result<(), CombatInterventionError>)
    ensures
        outcome_of(r) == registry_fault(reg, id@),
{
    if legacy_alias(id) {
        Err(CombatInterventionError::LegacyAlias(id.to_string()))
    } else if is_registered(reg, id) {
        Ok(())
    } else {
        Err(CombatInterventionError::UnknownCanonicalId(id.to_string()))
    }
}

/// `Ok` unless `v` is blank, in which case the error names `field`.
pub fn nonempty(v: &str, field: &'static str) -> (r: Result<(), CombatInterventionError>)
    ensures
        outcome_of(r) == nonempty_fault(v@, field@),
{
    if is_blank(v) {
        Err(CombatInterventionError::EmptyField(field))
    } else {
        Ok(())
    }
}

/// Whether an earlier entry of `ids` has the text of entry `i`.
pub open spec fn seen_before(ids: Seq<String>, i: int) -> bool {
    exists|j: int| 0 <= j < i && #[trigger] ids[j]@ == ids[i]@
}

pub open spec fn duplicate_at(ids: Seq<String>) -> spec_fn(int) -> Option<InterventionFault> {
    |i: int|
        if seen_before(ids, i) {
            Some(InterventionFault::DuplicateId(ids[i]@))
        } else {
            None
        }
}

/// The first entry whose text occurred before it, if any.
pub open spec fn unique_fault(ids: Seq<String>) -> Option<InterventionFault> {
    crate::order::first_err(ids.len(), duplicate_at(ids))
}

/// `Ok` when no id repeats; else the error names the first repetition.
pub fn unique(ids: &Vec<String>) -> (r: Result<(), CombatInterventionError>)
    ensures
        outcome_of(r) == unique_fault(ids@),
{
    let n = ids.len();
    let ghost f = duplicate_at(ids@);
    let mut i: usize = 0;
    while i < n
        invariant
            n == ids@.len(),
            i <= n,
            f == duplicate_at(ids@),
            crate::order::first_err(i as nat, f) is None,
        decreases n - i,
    {
        let mut j: usize = 0;
        let mut found = false;
        while j < i
            invariant
                n == ids@.len(),
                i < n,
                j <= i,
                found ==> seen_before(ids@, i as int),
                !found ==> forall|k: int| 0 <= k < j ==> #[trigger] ids@[k]@ != ids@[i as int]@,
            decreases i - j,
        {
            if str_eq(ids[j].as_str(), ids[i].as_str()) {
                found = true;
            }
            j += 1;
        }
        proof {
            crate::order::lemma_first_err_step(i as nat, f);
        }
        if found {
            proof {
                crate::order::lemma_first_err_prefix((i + 1) as nat, n as nat, f);
            }
            return Err(CombatInterventionError::DuplicateId(ids[i].clone()));
        }
        i += 1;
    }
    Ok(())
}

// ---------------------------------------------------------------- modifier

pub open spec fn target_ids_fault_fn() -> spec_fn(String) -> Option<InterventionFault> {
    |id: String| registry_fault(Registry::Target, id@)
}

pub open spec fn scope_fault(scope: StrategyScope) -> Option<InterventionFault> {
    match scope {
        StrategyScope::AllAllies {  } => None,
        StrategyScope::Role { role_id } => nonempty_fault(role_id@, "role_id"@),
        StrategyScope::Combatants { combatant_selector_ids: ids } => if ids@.len() == 0 {
            Some(InterventionFault::EmptyField("combatant_selector_ids"@))
        } else {
            or_else(unique_fault(ids@), first_some(ids@, target_ids_fault_fn()))
        },
    }
}

pub open spec fn operation_fault(op: StrategyOperation) -> Option<InterventionFault> {
    match op {
        StrategyOperation::SetRoleWeight { field, .. } => if is_weight_field(field@) {
            None
        } else {
            Some(InterventionFault::InvalidField(field@))
        },
        StrategyOperation::SetTargetingRule { rule_id } => registry_fault(Registry::Rule, rule_id@),
        StrategyOperation::SetTargetPolicy { policy_id } => nonempty_fault(policy_id@, "policy_id"@),
        StrategyOperation::ClearOverride { field } => if is_override_field(field@) {
            None
        } else {
            Some(InterventionFault::InvalidField(field@))
        },
    }
}

pub open spec fn operation_fault_fn() -> spec_fn(StrategyOperation) -> Option<InterventionFault> {
    |op: StrategyOperation| operation_fault(op)
}

/// The scope first, then that there are operations, then each operation in order.
pub open spec fn modifier_fault(m: CombatStrategyModifier) -> Option<InterventionFault> {
    or_else(
        scope_fault(m.scope),
        if m.operations@.len() == 0 {
            Some(InterventionFault::EmptyOperations)
        } else {
            first_some(m.operations@, operation_fault_fn())
        },
    )
}

fn operation_check(op: &StrategyOperation) -> (r: Result<(), CombatInterventionError>)
    ensures
        outcome_of(r) == operation_fault(*op),
{
    match op {
        StrategyOperation::SetRoleWeight { field, .. } => {
            if weight_field(field.as_str()) {
                Ok(())
            } else {
                Err(CombatInterventionError::InvalidField(field.clone()))
            }
        },
        StrategyOperation::SetTargetingRule { rule_id } => registry(Registry::Rule, rule_id.as_str()),
        StrategyOperation::SetTargetPolicy { policy_id } => nonempty(policy_id.as_str(), "policy_id"),
        StrategyOperation::ClearOverride { field } => {
            if override_field(field.as_str()) {
                Ok(())
            } else {
                Err(CombatInterventionError::InvalidField(field.clone()))
            }
        },
    }
}

/// Runs `check` over `v` in order and stops at the first error.
fn first_failure<T, F: Fn(&T) -> Result<(), CombatInterventionError>>(
    v: &Vec<T>,
    check: F,
    Ghost(f): Ghost<spec_fn(T) -> Option<InterventionFault>>,
) -> (r: Result<(), CombatInterventionError>)
    requires
        forall|x: &T| #[trigger] check.requires((x,)),
        forall|x: &T, e: Result<(), CombatInterventionError>| #[trigger] check.ensures((x,), e) ==> outcome_of(e) == f(*x),
    ensures
        outcome_of(r) == first_some(v@, f),
{
    let n = v.len();
    let mut i: usize = 0;
    while i < n
        invariant
            n == v@.len(),
            i <= n,
            first_some(v@.take(i as int), f) is None,
            forall|x: &T| #[trigger] check.requires((x,)),
            forall|x: &T, e: Result<(), CombatInterventionError>| #[trigger] check.ensures((x,), e) ==> outcome_of(e) == f(*x),
        decreases n - i,
    {
        let e = check(&v[i]);
        proof {
            crate::order::lemma_first_some_step(v@, i as int, f);
        }
        if e.is_err() {
            proof {
                crate::order::lemma_first_some_prefix(v@, i + 1, f);
            }
            return e;
        }
        i += 1;
    }
    proof {
        crate::order::lemma_first_some_all(v@, f);
    }
    Ok(())
}

impl CombatStrategyModifier {
    pub fn validate(&self) -> (r: Result<(), CombatInterventionError>)
        ensures
            outcome_of(r) == modifier_fault(*self),
    {
        match &self.scope {
            StrategyScope::AllAllies {  } => {},
            StrategyScope::Role { role_id } => {
                nonempty(role_id.as_str(), "role_id")?;
            },
            StrategyScope::Combatants { combatant_selector_ids } => {
                if combatant_selector_ids.len() == 0 {
                    return Err(CombatInterventionError::EmptyField("combatant_selector_ids"));
                }
                unique(combatant_selector_ids)?;
                let check = |id: &String| -> (r: Result<(), CombatInterventionError>)
                    ensures
                        outcome_of(r) == registry_fault(Registry::Target, id@),
                    { registry(Registry::Target, id.as_str()) };
                first_failure(combatant_selector_ids, check, Ghost(target_ids_fault_fn()))?;
            },
        }
        if self.operations.len() == 0 {
            return Err(CombatInterventionError::EmptyOperations);
        }
        let check = |op: &StrategyOperation| -> (r: Result<(), CombatInterventionError>)
            ensures
                outcome_of(r) == operation_fault(*op),
            { operation_check(op) };
        first_failure(&self.operations, check, Ghost(operation_fault_fn()))
    }
}

// ---------------------------------------------------------------- special effect

pub open spec fn action_fault(a: CombatOutcomeAction) -> Option<InterventionFault> {
    match a {
        CombatOutcomeAction::SetFlag { flag_id } => nonempty_fault(flag_id@, "flag_id"@),
        CombatOutcomeAction::CreateLootEntitlement { item_id, source_selector_id, .. } => or_else(
            nonempty_fault(item_id@, "item_id"@),
            registry_fault(Registry::Target, source_selector_id@),
        ),
        CombatOutcomeAction::GrantItem { item_id } => nonempty_fault(item_id@, "item_id"@),
    }
}

pub open spec fn action_fault_fn() -> spec_fn(CombatOutcomeAction) -> Option<InterventionFault> {
    |a: CombatOutcomeAction| action_fault(a)
}

pub open spec fn effect_id_fault_fn() -> spec_fn(String) -> Option<InterventionFault> {
    |id: String| nonempty_fault(id@, "effect_id"@)
}

/// Repeated effect ids first, then blank ones, then each outcome action.
pub open spec fn branch_fault(b: CombatEffectBranch) -> Option<InterventionFault> {
    or_else(
        unique_fault(b.effect_ids@),
        or_else(first_some(b.effect_ids@, effect_id_fault_fn()), first_some(b.outcome_actions@, action_fault_fn())),
    )
}

/// The chance parameter is the formula's only parameter and an integer
/// from 0 to 100.
pub open spec fn chance_ok(params: Seq<FormulaParameter>) -> bool {
    &&& params.len() == 1
    &&& params[0].name@ == "chance_percent"@
    &&& params[0].integer matches Some(n) && 0 <= n <= 100
}

pub open spec fn special_effect_fault(e: CombatSpecialEffect) -> Option<InterventionFault> {
    or_else(
        registry_fault(Registry::Formula, e.formula_id@),
        if !chance_ok(e.formula_parameters@) {
            Some(InterventionFault::InvalidField("chance_percent"@))
        } else {
            or_else(
                registry_fault(Registry::Executor, e.executor_selector_id@),
                or_else(
                    registry_fault(Registry::Target, e.target_selector_id@),
                    or_else(branch_fault(e.success), branch_fault(e.failure)),
                ),
            )
        },
    )
}

pub open spec fn payload_fault(p: CombatInterventionPayload) -> Option<InterventionFault> {
    if p.strategy_modifier is None && p.special_effect is None {
        Some(InterventionFault::EmptyPayload)
    } else {
        or_else(
            match p.strategy_modifier {
                Some(m) => modifier_fault(m),
                None => None,
            },
            match p.special_effect {
                Some(e) => special_effect_fault(e),
                None => None,
            },
        )
    }
}

impl CombatOutcomeAction {
    pub fn validate(&self) -> (r: Result<(), CombatInterventionError>)
        ensures
            outcome_of(r) == action_fault(*self),
    {
        match self {
            CombatOutcomeAction::SetFlag { flag_id } => nonempty(flag_id.as_str(), "flag_id"),
            CombatOutcomeAction::CreateLootEntitlement { item_id, source_selector_id, .. } => {
                nonempty(item_id.as_str(), "item_id")?;
                registry(Registry::Target, source_selector_id.as_str())
            },
            CombatOutcomeAction::GrantItem { item_id } => nonempty(item_id.as_str(), "item_id"),
        }
    }
}

impl CombatEffectBranch {
    pub fn validate(&self) -> (r: Result<(), CombatInterventionError>)
        ensures
            outcome_of(r) == branch_fault(*self),
    {
        unique(&self.effect_ids)?;
        let check_id = |id: &String| -> (r: Result<(), CombatInterventionError>)
            ensures
                outcome_of(r) == nonempty_fault(id@, "effect_id"@),
            { nonempty(id.as_str(), "effect_id") };
        first_failure(&self.effect_ids, check_id, Ghost(effect_id_fault_fn()))?;
        let check_action = |a: &CombatOutcomeAction| -> (r: Result<(), CombatInterventionError>)
            ensures
                outcome_of(r) == action_fault(*a),
            { a.validate() };
        first_failure(&self.outcome_actions, check_action, Ghost(action_fault_fn()))
    }
}

fn chance_check(params: &Vec<FormulaParameter>) -> (r: bool)
    ensures
        r == chance_ok(params@),
{
    if params.len() != 1 || !str_eq(params[0].name.as_str(), "chance_percent") {
        return false;
    }
    match params[0].integer {
        Some(n) => 0 <= n && n <= 100,
        None => false,
    }
}

impl CombatSpecialEffect {
    pub fn validate(&self) -> (r: Result<(), CombatInterventionError>)
        ensures
            outcome_of(r) == special_effect_fault(*self),
    {
        registry(Registry::Formula, self.formula_id.as_str())?;
        if !chance_check(&self.formula_parameters) {
            return Err(CombatInterventionError::InvalidField("chance_percent".to_string()));
        }
        registry(Registry::Executor, self.executor_selector_id.as_str())?;
        registry(Registry::Target, self.target_selector_id.as_str())?;
        self.success.validate()?;
        self.failure.validate()
    }
}

impl CombatInterventionPayload {
    pub fn validate(&self) -> (r: Result<(), CombatInterventionError>)
        ensures
            outcome_of(r) == payload_fault(*self),
    {
        if self.strategy_modifier.is_none() && self.special_effect.is_none() {
            return Err(CombatInterventionError::EmptyPayload);
        }
        if let Some(m) = &self.strategy_modifier {
            m.validate()?;
        }
        if let Some(e) = &self.special_effect {
            e.validate()?;
        }
        Ok(())
    }
}

} // verus!
