//! Attack resolution on top of the movement frames: collisions, rolls,
//! damage, balance and the effects that hits apply.
use vstd::prelude::*;
use vstd::utf8::encode_utf8;
use crate::combat_contract::{extend_bytes, namespace_name, CombatRngNamespace};
use crate::combat_execution::{
    combat_log_importance_index, combat_log_importance_json, combat_log_importance_json_to,
    combat_log_importance_rank, execute, execution_made, run_input, CombatExecutionError, CombatExecutionRequest,
    CombatExecutionResult, CombatLogImportance,
};
use crate::combat_simulation::{
    footprint_distance, footprint_spec, simulation_valid, min_pair_distance, hex_coord_json, CombatSide, CombatSimulationError, CombatSimulationParticipant,
    CombatTickFrame, ACTION_THRESHOLD_HUNDREDTHS,
};
use crate::combat_state::{
    catalog_check, clone_parameters, effect_instance_json, effect_instance_json_fn, effect_instance_json_to,
    CombatEffectCatalog, CombatEffectDefinition, CombatEffectInstance, CombatStateError, EffectLifetime,
    EffectStacking,
};
use crate::json::{
    dec_digits, enc, json_array, json_view, json_view_fields, jstr, opt_str_json, push_field, push_item,
    str_json, strs_json, strs_to_json, to_bytes, write_u64, Json, JsonValue,
};
use crate::order::{compare_str, sort_by_order, sort_seq, str_ord};
use crate::text::{blank, fingerprint_bytes, fingerprint_of, fnv1a_64, fnv64, is_blank, str_eq};

verus! {

#[derive(Debug, PartialEq, Eq)]
pub struct CombatAttackEffect {
    pub effect_id: String,
    pub chance_percent: u8,
}

impl Clone for CombatAttackEffect {
    fn clone(&self) -> (r: Self)
        ensures
            r == *self,
    {
        CombatAttackEffect { effect_id: self.effect_id.clone(), chance_percent: self.chance_percent }
    }
}

#[derive(Debug, PartialEq, Eq)]
pub struct CombatAttackDefinition {
    pub id: String,
    pub actor_id: String,
    pub power_hundredths: i64,
    pub ability_multiplier_hundredths: i64,
    pub accuracy_percent: u8,
    pub attack_range: i32,
    pub penetration_hundredths: i64,
    pub collision_balance_hundredths: i64,
    pub balance_power_hundredths: i64,
    /// How fast the attack's gauge fills; `None` fires every tick.
    pub attack_speed_hundredths: Option<i64>,
    pub effects: Vec<CombatAttackEffect>,
}

impl Clone for CombatAttackDefinition {
    fn clone(&self) -> (r: Self)
        ensures
            r.id == self.id,
            r.actor_id == self.actor_id,
            r.power_hundredths == self.power_hundredths,
            r.ability_multiplier_hundredths == self.ability_multiplier_hundredths,
            r.accuracy_percent == self.accuracy_percent,
            r.attack_range == self.attack_range,
            r.penetration_hundredths == self.penetration_hundredths,
            r.collision_balance_hundredths == self.collision_balance_hundredths,
            r.balance_power_hundredths == self.balance_power_hundredths,
            r.attack_speed_hundredths == self.attack_speed_hundredths,
            r.effects@ == self.effects@,
    {
        let effects = self.effects.clone();
        assert(effects@ =~= self.effects@);
        CombatAttackDefinition {
            id: self.id.clone(),
            actor_id: self.actor_id.clone(),
            power_hundredths: self.power_hundredths,
            ability_multiplier_hundredths: self.ability_multiplier_hundredths,
            accuracy_percent: self.accuracy_percent,
            attack_range: self.attack_range,
            penetration_hundredths: self.penetration_hundredths,
            collision_balance_hundredths: self.collision_balance_hundredths,
            balance_power_hundredths: self.balance_power_hundredths,
            attack_speed_hundredths: self.attack_speed_hundredths,
            effects,
        }
    }
}

#[derive(Debug, PartialEq, Eq)]
pub struct CombatDefenseProfile {
    pub combatant_id: String,
    pub defense_hundredths: i64,
    pub balance_resistance_hundredths: i64,
}

impl Clone for CombatDefenseProfile {
    fn clone(&self) -> (r: Self)
        ensures
            r == *self,
    {
        CombatDefenseProfile {
            combatant_id: self.combatant_id.clone(),
            defense_hundredths: self.defense_hundredths,
            balance_resistance_hundredths: self.balance_resistance_hundredths,
        }
    }
}

#[derive(Clone, Debug, PartialEq, Eq)]
pub struct CombatResolutionRequest {
    pub execution: CombatExecutionRequest,
    pub attacks: Vec<CombatAttackDefinition>,
    pub defenses: Vec<CombatDefenseProfile>,
    pub catalog: CombatEffectCatalog,
}

#[derive(Debug, PartialEq, Eq)]
pub struct CombatResolutionCombatant {
    pub id: String,
    pub current_health_hundredths: i64,
    pub maximum_health_hundredths: i64,
    pub balance_hundredths: i64,
    pub maximum_balance_hundredths: i64,
}

impl Clone for CombatResolutionCombatant {
    fn clone(&self) -> (r: Self)
        ensures
            r == *self,
    {
        CombatResolutionCombatant {
            id: self.id.clone(),
            current_health_hundredths: self.current_health_hundredths,
            maximum_health_hundredths: self.maximum_health_hundredths,
            balance_hundredths: self.balance_hundredths,
            maximum_balance_hundredths: self.maximum_balance_hundredths,
        }
    }
}

#[derive(Clone, Debug, PartialEq, Eq)]
pub struct CombatResolutionState {
    pub combatants: Vec<CombatResolutionCombatant>,
    pub active_effects: Vec<CombatEffectInstance>,
    pub applied_effect_ids: Vec<String>,
    pub suppressed_effect_ids: Vec<String>,
}

#[derive(Debug, PartialEq, Eq)]
pub struct CombatAttackOutcome {
    pub attack_id: String,
    pub actor_id: String,
    pub target_id: String,
    pub collision: bool,
    pub in_range: bool,
    pub roll_percent: u8,
    pub hit: bool,
    pub damage_hundredths: i64,
    pub balance_delta_hundredths: i64,
    pub applied_effect_ids: Vec<String>,
    pub suppressed_effect_ids: Vec<String>,
}

impl Clone for CombatAttackOutcome {
    fn clone(&self) -> (r: Self)
        ensures
            r.attack_id == self.attack_id,
            r.actor_id == self.actor_id,
            r.target_id == self.target_id,
            r.collision == self.collision,
            r.in_range == self.in_range,
            r.roll_percent == self.roll_percent,
            r.hit == self.hit,
            r.damage_hundredths == self.damage_hundredths,
            r.balance_delta_hundredths == self.balance_delta_hundredths,
            r.applied_effect_ids@ == self.applied_effect_ids@,
            r.suppressed_effect_ids@ == self.suppressed_effect_ids@,
    {
        let a = self.applied_effect_ids.clone();
        let s = self.suppressed_effect_ids.clone();
        assert(a@ =~= self.applied_effect_ids@);
        assert(s@ =~= self.suppressed_effect_ids@);
        CombatAttackOutcome {
            attack_id: self.attack_id.clone(),
            actor_id: self.actor_id.clone(),
            target_id: self.target_id.clone(),
            collision: self.collision,
            in_range: self.in_range,
            roll_percent: self.roll_percent,
            hit: self.hit,
            damage_hundredths: self.damage_hundredths,
            balance_delta_hundredths: self.balance_delta_hundredths,
            applied_effect_ids: a,
            suppressed_effect_ids: s,
        }
    }
}

/// One tick of resolution: its outcomes and every combatant's state after
/// them, in ascending id order.
#[derive(Clone, Debug, PartialEq, Eq)]
pub struct CombatResolutionFrame {
    pub tick: u32,
    pub outcomes: Vec<CombatAttackOutcome>,
    pub combatants: Vec<CombatResolutionCombatant>,
    pub fingerprint: String,
}

#[derive(Clone, Copy, Debug, PartialEq, Eq, Structural)]
pub enum CombatResolutionLogTag {
    Collision,
    AttackRoll,
    DamageApplied,
    EffectApplied,
    EffectSuppressed,
}

#[derive(Debug, PartialEq, Eq)]
pub struct CombatResolutionLogEvent {
    pub tick: u32,
    pub sequence: u32,
    pub tag: CombatResolutionLogTag,
    pub importance: CombatLogImportance,
    pub attack_id: String,
    pub actor_id: String,
    pub target_id: String,
    pub value_hundredths: i64,
    pub effect_id: Option<String>,
}

impl Clone for CombatResolutionLogEvent {
    fn clone(&self) -> (r: Self)
        ensures
            r == *self,
    {
        CombatResolutionLogEvent {
            tick: self.tick,
            sequence: self.sequence,
            tag: self.tag,
            importance: self.importance,
            attack_id: self.attack_id.clone(),
            actor_id: self.actor_id.clone(),
            target_id: self.target_id.clone(),
            value_hundredths: self.value_hundredths,
            effect_id: self.effect_id.clone(),
        }
    }
}

#[derive(Clone, Debug, PartialEq, Eq)]
pub struct CombatResolutionResult {
    pub execution: CombatExecutionResult,
    pub frames: Vec<CombatResolutionFrame>,
    pub state: CombatResolutionState,
    pub full_log: Vec<CombatResolutionLogEvent>,
    pub core_log: Vec<CombatResolutionLogEvent>,
    pub fingerprint: String,
}

#[derive(Clone, Debug, PartialEq, Eq)]
pub enum CombatResolutionError {
    Execution(CombatExecutionError),
    State(CombatStateError),
    Simulation(CombatSimulationError),
    InvalidInput,
    UnknownEffect(String),
    Overflow,
}

pub open spec fn combat_resolution_log_tag_name(x: CombatResolutionLogTag) -> Seq<char> {
    match x {
        CombatResolutionLogTag::Collision => "collision"@,
        CombatResolutionLogTag::AttackRoll => "attack_roll"@,
        CombatResolutionLogTag::DamageApplied => "damage_applied"@,
        CombatResolutionLogTag::EffectApplied => "effect_applied"@,
        CombatResolutionLogTag::EffectSuppressed => "effect_suppressed"@,
    }
}

pub open spec fn combat_resolution_log_tag_json(x: CombatResolutionLogTag) -> Json {
    jstr(combat_resolution_log_tag_name(x))
}

pub fn combat_resolution_log_tag_str(x: CombatResolutionLogTag) -> (s: &'static str)
    ensures
        s@ == combat_resolution_log_tag_name(x),
{
    match x {
        CombatResolutionLogTag::Collision => "collision",
        CombatResolutionLogTag::AttackRoll => "attack_roll",
        CombatResolutionLogTag::DamageApplied => "damage_applied",
        CombatResolutionLogTag::EffectApplied => "effect_applied",
        CombatResolutionLogTag::EffectSuppressed => "effect_suppressed",
    }
}

pub fn combat_resolution_log_tag_json_to(x: CombatResolutionLogTag) -> (j: JsonValue)
    ensures
        json_view(j) == combat_resolution_log_tag_json(x),
{
    str_json(combat_resolution_log_tag_str(x))
}

pub open spec fn combat_resolution_log_tag_index(x: CombatResolutionLogTag) -> int {
    match x {
        CombatResolutionLogTag::Collision => 0,
        CombatResolutionLogTag::AttackRoll => 1,
        CombatResolutionLogTag::DamageApplied => 2,
        CombatResolutionLogTag::EffectApplied => 3,
        CombatResolutionLogTag::EffectSuppressed => 4,
    }
}

pub fn combat_resolution_log_tag_rank(x: CombatResolutionLogTag) -> (r: u8)
    ensures
        r as int == combat_resolution_log_tag_index(x),
{
    match x {
        CombatResolutionLogTag::Collision => 0,
        CombatResolutionLogTag::AttackRoll => 1,
        CombatResolutionLogTag::DamageApplied => 2,
        CombatResolutionLogTag::EffectApplied => 3,
        CombatResolutionLogTag::EffectSuppressed => 4,
    }
}
pub open spec fn outcome_json(x: CombatAttackOutcome) -> Json {
    let f = Seq::<(Seq<u8>, Json)>::empty();
    let f = f.push((encode_utf8("attack_id"@), jstr(x.attack_id@)));
    let f = f.push((encode_utf8("actor_id"@), jstr(x.actor_id@)));
    let f = f.push((encode_utf8("target_id"@), jstr(x.target_id@)));
    let f = f.push((encode_utf8("collision"@), Json::Bool(x.collision)));
    let f = f.push((encode_utf8("in_range"@), Json::Bool(x.in_range)));
    let f = f.push((encode_utf8("roll_percent"@), Json::Num(x.roll_percent as int)));
    let f = f.push((encode_utf8("hit"@), Json::Bool(x.hit)));
    let f = f.push((encode_utf8("damage_hundredths"@), Json::Num(x.damage_hundredths as int)));
    let f = f.push((encode_utf8("balance_delta_hundredths"@), Json::Num(x.balance_delta_hundredths as int)));
    let f = f.push((encode_utf8("applied_effect_ids"@), strs_json(x.applied_effect_ids@)));
    let f = f.push((encode_utf8("suppressed_effect_ids"@), strs_json(x.suppressed_effect_ids@)));
    Json::Obj(f)
}

pub open spec fn outcome_json_fn() -> spec_fn(CombatAttackOutcome) -> Json {
    |x: CombatAttackOutcome| outcome_json(x)
}

pub fn outcome_json_to(x: &CombatAttackOutcome) -> (j: JsonValue)
    ensures
        json_view(j) == outcome_json(*x),
{
    let mut f: Vec<(String, JsonValue)> = Vec::new();
    push_field(&mut f, "attack_id", str_json(x.attack_id.as_str()));
    push_field(&mut f, "actor_id", str_json(x.actor_id.as_str()));
    push_field(&mut f, "target_id", str_json(x.target_id.as_str()));
    push_field(&mut f, "collision", JsonValue::Bool(x.collision));
    push_field(&mut f, "in_range", JsonValue::Bool(x.in_range));
    push_field(&mut f, "roll_percent", JsonValue::UInt(x.roll_percent as u64));
    push_field(&mut f, "hit", JsonValue::Bool(x.hit));
    push_field(&mut f, "damage_hundredths", JsonValue::Int(x.damage_hundredths as i64));
    push_field(&mut f, "balance_delta_hundredths", JsonValue::Int(x.balance_delta_hundredths as i64));
    push_field(&mut f, "applied_effect_ids", strs_to_json(&x.applied_effect_ids));
    push_field(&mut f, "suppressed_effect_ids", strs_to_json(&x.suppressed_effect_ids));
    JsonValue::Obj(f)
}
pub open spec fn resolution_combatant_json(x: CombatResolutionCombatant) -> Json {
    let f = Seq::<(Seq<u8>, Json)>::empty();
    let f = f.push((encode_utf8("id"@), jstr(x.id@)));
    let f = f.push((encode_utf8("current_health_hundredths"@), Json::Num(x.current_health_hundredths as int)));
    let f = f.push((encode_utf8("maximum_health_hundredths"@), Json::Num(x.maximum_health_hundredths as int)));
    let f = f.push((encode_utf8("balance_hundredths"@), Json::Num(x.balance_hundredths as int)));
    let f = f.push((encode_utf8("maximum_balance_hundredths"@), Json::Num(x.maximum_balance_hundredths as int)));
    Json::Obj(f)
}

pub open spec fn resolution_combatant_json_fn() -> spec_fn(CombatResolutionCombatant) -> Json {
    |x: CombatResolutionCombatant| resolution_combatant_json(x)
}

pub fn resolution_combatant_json_to(x: &CombatResolutionCombatant) -> (j: JsonValue)
    ensures
        json_view(j) == resolution_combatant_json(*x),
{
    let mut f: Vec<(String, JsonValue)> = Vec::new();
    push_field(&mut f, "id", str_json(x.id.as_str()));
    push_field(&mut f, "current_health_hundredths", JsonValue::Int(x.current_health_hundredths as i64));
    push_field(&mut f, "maximum_health_hundredths", JsonValue::Int(x.maximum_health_hundredths as i64));
    push_field(&mut f, "balance_hundredths", JsonValue::Int(x.balance_hundredths as i64));
    push_field(&mut f, "maximum_balance_hundredths", JsonValue::Int(x.maximum_balance_hundredths as i64));
    JsonValue::Obj(f)
}
pub open spec fn resolution_frame_json(x: CombatResolutionFrame) -> Json {
    let f = Seq::<(Seq<u8>, Json)>::empty();
    let f = f.push((encode_utf8("tick"@), Json::Num(x.tick as int)));
    let f = f.push((encode_utf8("outcomes"@), Json::Arr(x.outcomes@.map_values(outcome_json_fn()))));
    let f = f.push((encode_utf8("combatants"@), Json::Arr(x.combatants@.map_values(resolution_combatant_json_fn()))));
    let f = f.push((encode_utf8("fingerprint"@), jstr(x.fingerprint@)));
    Json::Obj(f)
}

pub open spec fn resolution_frame_json_fn() -> spec_fn(CombatResolutionFrame) -> Json {
    |x: CombatResolutionFrame| resolution_frame_json(x)
}

pub fn resolution_frame_json_to(x: &CombatResolutionFrame) -> (j: JsonValue)
    ensures
        json_view(j) == resolution_frame_json(*x),
{
    let mut f: Vec<(String, JsonValue)> = Vec::new();
    push_field(&mut f, "tick", JsonValue::UInt(x.tick as u64));
    let conv = |e: &CombatAttackOutcome| -> (r: JsonValue)
        ensures
            json_view(r) == outcome_json(*e),
        { outcome_json_to(e) };
    let j_outcomes = json_array(&x.outcomes, conv, Ghost(outcome_json_fn()));
    push_field(&mut f, "outcomes", j_outcomes);
    let conv = |e: &CombatResolutionCombatant| -> (r: JsonValue)
        ensures
            json_view(r) == resolution_combatant_json(*e),
        { resolution_combatant_json_to(e) };
    let j_combatants = json_array(&x.combatants, conv, Ghost(resolution_combatant_json_fn()));
    push_field(&mut f, "combatants", j_combatants);
    push_field(&mut f, "fingerprint", str_json(x.fingerprint.as_str()));
    JsonValue::Obj(f)
}
pub open spec fn resolution_state_json(x: CombatResolutionState) -> Json {
    let f = Seq::<(Seq<u8>, Json)>::empty();
    let f = f.push((encode_utf8("combatants"@), Json::Arr(x.combatants@.map_values(resolution_combatant_json_fn()))));
    let f = f.push((encode_utf8("active_effects"@), Json::Arr(x.active_effects@.map_values(effect_instance_json_fn()))));
    let f = f.push((encode_utf8("applied_effect_ids"@), strs_json(x.applied_effect_ids@)));
    let f = f.push((encode_utf8("suppressed_effect_ids"@), strs_json(x.suppressed_effect_ids@)));
    Json::Obj(f)
}

pub open spec fn resolution_state_json_fn() -> spec_fn(CombatResolutionState) -> Json {
    |x: CombatResolutionState| resolution_state_json(x)
}

pub fn resolution_state_json_to(x: &CombatResolutionState) -> (j: JsonValue)
    ensures
        json_view(j) == resolution_state_json(*x),
{
    let mut f: Vec<(String, JsonValue)> = Vec::new();
    let conv = |e: &CombatResolutionCombatant| -> (r: JsonValue)
        ensures
            json_view(r) == resolution_combatant_json(*e),
        { resolution_combatant_json_to(e) };
    let j_combatants = json_array(&x.combatants, conv, Ghost(resolution_combatant_json_fn()));
    push_field(&mut f, "combatants", j_combatants);
    let conv = |e: &CombatEffectInstance| -> (r: JsonValue)
        ensures
            json_view(r) == effect_instance_json(*e),
        { effect_instance_json_to(e) };
    let j_active_effects = json_array(&x.active_effects, conv, Ghost(effect_instance_json_fn()));
    push_field(&mut f, "active_effects", j_active_effects);
    push_field(&mut f, "applied_effect_ids", strs_to_json(&x.applied_effect_ids));
    push_field(&mut f, "suppressed_effect_ids", strs_to_json(&x.suppressed_effect_ids));
    JsonValue::Obj(f)
}
pub open spec fn resolution_event_json(x: CombatResolutionLogEvent) -> Json {
    let f = Seq::<(Seq<u8>, Json)>::empty();
    let f = f.push((encode_utf8("tick"@), Json::Num(x.tick as int)));
    let f = f.push((encode_utf8("sequence"@), Json::Num(x.sequence as int)));
    let f = f.push((encode_utf8("tag"@), combat_resolution_log_tag_json(x.tag)));
    let f = f.push((encode_utf8("importance"@), combat_log_importance_json(x.importance)));
    let f = f.push((encode_utf8("attack_id"@), jstr(x.attack_id@)));
    let f = f.push((encode_utf8("actor_id"@), jstr(x.actor_id@)));
    let f = f.push((encode_utf8("target_id"@), jstr(x.target_id@)));
    let f = f.push((encode_utf8("value_hundredths"@), Json::Num(x.value_hundredths as int)));
    let f = f.push((encode_utf8("effect_id"@), match x.effect_id { Some(v) => jstr(v@), None => Json::Null }));
    Json::Obj(f)
}

pub open spec fn resolution_event_json_fn() -> spec_fn(CombatResolutionLogEvent) -> Json {
    |x: CombatResolutionLogEvent| resolution_event_json(x)
}

pub fn resolution_event_json_to(x: &CombatResolutionLogEvent) -> (j: JsonValue)
    ensures
        json_view(j) == resolution_event_json(*x),
{
    let mut f: Vec<(String, JsonValue)> = Vec::new();
    push_field(&mut f, "tick", JsonValue::UInt(x.tick as u64));
    push_field(&mut f, "sequence", JsonValue::UInt(x.sequence as u64));
    push_field(&mut f, "tag", combat_resolution_log_tag_json_to(x.tag));
    push_field(&mut f, "importance", combat_log_importance_json_to(x.importance));
    push_field(&mut f, "attack_id", str_json(x.attack_id.as_str()));
    push_field(&mut f, "actor_id", str_json(x.actor_id.as_str()));
    push_field(&mut f, "target_id", str_json(x.target_id.as_str()));
    push_field(&mut f, "value_hundredths", JsonValue::Int(x.value_hundredths as i64));
    push_field(&mut f, "effect_id", opt_str_json(&x.effect_id));
    JsonValue::Obj(f)
}

// ---------------------------------------------------------------------------
// Damage, rolls and effect stacking
// ---------------------------------------------------------------------------

/// The damage formula on non-negative inputs, `None` where a step
/// overflows `i64`: `pre = power * 5 * multiplier / 1200`, reduced by
/// `pre * e / (e + 2000)` for the effective defense `e = max(defense -
/// penetration, 0)`, floored at zero.
pub open spec fn damage_spec(power: int, multiplier: int, defense: int, penetration: int) -> Option<int> {
    let p5 = power * 5;
    let pm = p5 * multiplier;
    if p5 > i64::MAX || pm > i64::MAX {
        None
    } else {
        let pre = pm / 1200;
        let eff = if defense - penetration > 0 { defense - penetration } else { 0 };
        if pre * eff > i64::MAX || eff + 2000 > i64::MAX {
            None
        } else {
            let red = (pre * eff) / (eff + 2000);
            Some(if pre - red > 0 { pre - red } else { 0 })
        }
    }
}

/// Penetration at or above the defense leaves no effective defense: the
/// damage is the unreduced `power * 5 * multiplier / 1200`.
pub proof fn lemma_damage_full_penetration(power: int, multiplier: int, defense: int, penetration: int)
    requires
        power >= 0,
        multiplier >= 0,
        defense >= 0,
        penetration >= defense,
        power * 5 <= i64::MAX,
        power * 5 * multiplier <= i64::MAX,
    ensures
        damage_spec(power, multiplier, defense, penetration) == Some(power * 5 * multiplier / 1200),
{
    assert(power * 5 * multiplier >= 0) by (nonlinear_arith)
        requires power >= 0, multiplier >= 0;
}

/// Damage is non-decreasing in penetration: more penetration never lowers
/// the damage, and never turns a computable hit into an overflow.
pub proof fn lemma_damage_penetration_monotone(power: int, multiplier: int, defense: int, pen1: int, pen2: int)
    requires
        power >= 0,
        multiplier >= 0,
        defense >= 0,
        0 <= pen1 <= pen2,
        damage_spec(power, multiplier, defense, pen1) is Some,
    ensures
        damage_spec(power, multiplier, defense, pen2) is Some,
        damage_spec(power, multiplier, defense, pen1)->Some_0 <= damage_spec(power, multiplier, defense, pen2)->Some_0,
{
    let pm = power * 5 * multiplier;
    assert(pm >= 0) by (nonlinear_arith)
        requires power >= 0, multiplier >= 0, pm == power * 5 * multiplier;
    let pre = pm / 1200;
    let e1 = if defense - pen1 > 0 { defense - pen1 } else { 0 };
    let e2 = if defense - pen2 > 0 { defense - pen2 } else { 0 };
    assert(0 <= e2 <= e1);
    assert(pre >= 0);
    assert(pre * e2 <= pre * e1) by (nonlinear_arith)
        requires pre >= 0, 0 <= e2 <= e1;
    assert(pre * e2 >= 0) by (nonlinear_arith)
        requires pre >= 0, e2 >= 0;
    lemma_reduction_monotone(pre, e2, e1);
}

/// Damage is non-increasing in defense, and never above the unreduced
/// `power * 5 * multiplier / 1200` nor below zero.
pub proof fn lemma_damage_defense_monotone(power: int, multiplier: int, def1: int, def2: int, penetration: int)
    requires
        power >= 0,
        multiplier >= 0,
        0 <= def1 <= def2,
        penetration >= 0,
        damage_spec(power, multiplier, def2, penetration) is Some,
    ensures
        damage_spec(power, multiplier, def1, penetration) is Some,
        damage_spec(power, multiplier, def2, penetration)->Some_0 <= damage_spec(power, multiplier, def1, penetration)->Some_0,
        0 <= damage_spec(power, multiplier, def2, penetration)->Some_0 <= power * 5 * multiplier / 1200,
{
    let pm = power * 5 * multiplier;
    assert(pm >= 0) by (nonlinear_arith)
        requires power >= 0, multiplier >= 0, pm == power * 5 * multiplier;
    let pre = pm / 1200;
    let e1 = if def1 - penetration > 0 { def1 - penetration } else { 0 };
    let e2 = if def2 - penetration > 0 { def2 - penetration } else { 0 };
    assert(0 <= e1 <= e2);
    assert(pre >= 0);
    assert(pre * e1 <= pre * e2) by (nonlinear_arith)
        requires pre >= 0, 0 <= e1 <= e2;
    assert(pre * e1 >= 0) by (nonlinear_arith)
        requires pre >= 0, e1 >= 0;
    assert(pre * e2 >= 0) by (nonlinear_arith)
        requires pre >= 0, e2 >= 0;
    lemma_reduction_monotone(pre, e1, e2);
    assert((pre * e2) / (e2 + 2000) >= 0) by (nonlinear_arith)
        requires pre * e2 >= 0, e2 >= 0;
}

/// For a non-negative base, the reduction `pre * e / (e + 2000)` grows with
/// the effective defense `e`.
proof fn lemma_reduction_monotone(pre: int, e1: int, e2: int)
    requires
        pre >= 0,
        0 <= e1 <= e2,
    ensures
        (pre * e1) / (e1 + 2000) <= (pre * e2) / (e2 + 2000),
        (pre * e2) / (e2 + 2000) <= pre,
{
    let q1 = (pre * e1) / (e1 + 2000);
    let q2 = (pre * e2) / (e2 + 2000);
    assert(q1 * (e1 + 2000) <= pre * e1) by (nonlinear_arith)
        requires q1 == (pre * e1) / (e1 + 2000), e1 >= 0;
    assert(q1 <= pre) by (nonlinear_arith)
        requires q1 * (e1 + 2000) <= pre * e1, e1 >= 0, pre >= 0;
    assert(q1 >= 0) by (nonlinear_arith)
        requires q1 == (pre * e1) / (e1 + 2000), e1 >= 0, pre >= 0;
    assert(q1 * (e2 + 2000) <= pre * e2) by (nonlinear_arith)
        requires q1 * (e1 + 2000) <= pre * e1, q1 <= pre, q1 >= 0, e1 <= e2;
    assert(q1 <= q2) by (nonlinear_arith)
        requires q1 * (e2 + 2000) <= pre * e2, q2 == (pre * e2) / (e2 + 2000), e2 >= 0;
    assert(q2 * (e2 + 2000) <= pre * e2) by (nonlinear_arith)
        requires q2 == (pre * e2) / (e2 + 2000), e2 >= 0;
    assert(q2 <= pre) by (nonlinear_arith)
        requires q2 * (e2 + 2000) <= pre * e2, e2 >= 0, pre >= 0;
}

/// The damage an attack deals through a defense profile, or `Overflow`.
pub fn damage(a: &CombatAttackDefinition, d: &CombatDefenseProfile) -> (r: Result<i64, CombatResolutionError>)
    requires
        a.power_hundredths >= 0,
        a.ability_multiplier_hundredths >= 0,
        a.penetration_hundredths >= 0,
        d.defense_hundredths >= 0,
    ensures
        match damage_spec(a.power_hundredths as int, a.ability_multiplier_hundredths as int, d.defense_hundredths as int, a.penetration_hundredths as int) {
            Some(v) => r == Ok::<i64, CombatResolutionError>(v as i64),
            None => r == Err::<i64, CombatResolutionError>(CombatResolutionError::Overflow),
        },
        a.penetration_hundredths >= d.defense_hundredths && a.power_hundredths * 5 <= i64::MAX && a.power_hundredths * 5
            * a.ability_multiplier_hundredths <= i64::MAX ==> r == Ok::<i64, CombatResolutionError>(
            (a.power_hundredths * 5 * a.ability_multiplier_hundredths / 1200) as i64,
        ),
{
    let p5 = match a.power_hundredths.checked_mul(5) {
        Some(v) => v,
        None => {
            return Err(CombatResolutionError::Overflow);
        },
    };
    let pm = match p5.checked_mul(a.ability_multiplier_hundredths) {
        Some(v) => v,
        None => {
            proof {
                assert(p5 * a.ability_multiplier_hundredths >= 0) by (nonlinear_arith)
                    requires p5 >= 0, a.ability_multiplier_hundredths >= 0;
            }
            return Err(CombatResolutionError::Overflow);
        },
    };
    proof {
        assert(pm >= 0) by (nonlinear_arith)
            requires pm == p5 * a.ability_multiplier_hundredths, p5 >= 0, a.ability_multiplier_hundredths >= 0;
    }
    let pre = pm / 1200;
    let diff = d.defense_hundredths - a.penetration_hundredths;
    let eff: i64 = if diff > 0 { diff } else { 0 };
    let prod = match pre.checked_mul(eff) {
        Some(v) => v,
        None => {
            proof {
                assert(pre * eff >= 0) by (nonlinear_arith)
                    requires pre >= 0, eff >= 0;
            }
            return Err(CombatResolutionError::Overflow);
        },
    };
    let denom = match eff.checked_add(2000) {
        Some(v) => v,
        None => {
            return Err(CombatResolutionError::Overflow);
        },
    };
    proof {
        assert(prod >= 0) by (nonlinear_arith)
            requires prod == pre * eff, pre >= 0, eff >= 0;
    }
    let red = prod / denom;
    let out = if pre - red > 0 { pre - red } else { 0 };
    Ok(out)
}

/// The bytes `format!("{}:{}:{}:{}:{}:{}:{}", ...)` writes for a roll.
pub open spec fn roll_bytes(
    seed: u64,
    namespace: CombatRngNamespace,
    tick: u32,
    attack: Seq<char>,
    actor: Seq<char>,
    target: Seq<char>,
    stream: u64,
) -> Seq<u8> {
    dec_digits(seed as nat) + seq![0x3au8] + encode_utf8(namespace_name(namespace)) + seq![0x3au8] + dec_digits(
        tick as nat,
    ) + seq![0x3au8] + encode_utf8(attack) + seq![0x3au8] + encode_utf8(actor) + seq![0x3au8] + encode_utf8(target)
        + seq![0x3au8] + dec_digits(stream as nat)
}

/// A roll in `0..100`: the FNV-1a hash of the roll's text, modulo 100.
pub open spec fn roll_spec(
    seed: u64,
    namespace: CombatRngNamespace,
    tick: u32,
    attack: Seq<char>,
    actor: Seq<char>,
    target: Seq<char>,
    stream: u64,
) -> u8 {
    (fnv64(roll_bytes(seed, namespace, tick, attack, actor, target, stream)) % 100) as u8
}

pub fn roll(
    seed: u64,
    namespace: CombatRngNamespace,
    tick: u32,
    attack: &str,
    actor: &str,
    target: &str,
    stream: u64,
) -> (r: u8)
    ensures
        r == roll_spec(seed, namespace, tick, attack@, actor@, target@, stream),
        r < 100,
{
    let mut bytes: Vec<u8> = Vec::new();
    write_u64(seed, &mut bytes);
    bytes.push(0x3a);
    extend_bytes(&mut bytes, namespace.as_str().as_bytes());
    bytes.push(0x3a);
    write_u64(tick as u64, &mut bytes);
    bytes.push(0x3a);
    extend_bytes(&mut bytes, attack.as_bytes());
    bytes.push(0x3a);
    extend_bytes(&mut bytes, actor.as_bytes());
    bytes.push(0x3a);
    extend_bytes(&mut bytes, target.as_bytes());
    bytes.push(0x3a);
    write_u64(stream, &mut bytes);
    proof {
        assert(bytes@ =~= roll_bytes(seed, namespace, tick, attack@, actor@, target@, stream));
    }
    (fnv1a_64(bytes.as_slice()) % 100) as u8
}

/// `a + b`, wrapping at `u64`.
pub open spec fn wrap_add(a: u64, b: u64) -> u64 {
    if a + b > u64::MAX {
        (a + b - 0x1_0000_0000_0000_0000) as u64
    } else {
        (a + b) as u64
    }
}

/// `start` plus every byte, wrapping at `u64`.
pub open spec fn byte_sum(start: u64, bytes: Seq<u8>) -> u64
    decreases bytes.len(),
{
    if bytes.len() == 0 {
        start
    } else {
        wrap_add(byte_sum(start, bytes.drop_last()), bytes.last() as u64)
    }
}

/// The roll stream of an attack effect: `1 + fire_index` plus the bytes of
/// the effect id.
pub fn effect_stream(fire_index: u32, effect_id: &str) -> (r: u64)
    ensures
        r == byte_sum((1 + fire_index) as u64, encode_utf8(effect_id@)),
{
    let bytes = effect_id.as_bytes();
    let mut acc: u64 = 1 + fire_index as u64;
    let n = bytes.len();
    let mut i: usize = 0;
    while i < n
        invariant
            n == bytes@.len(),
            bytes@ == encode_utf8(effect_id@),
            i <= n,
            acc == byte_sum((1 + fire_index) as u64, bytes@.take(i as int)),
        decreases n - i,
    {
        assert(bytes@.take(i + 1).drop_last() =~= bytes@.take(i as int));
        acc = acc.wrapping_add(bytes[i] as u64);
        i += 1;
    }
    assert(bytes@.take(n as int) =~= bytes@);
    acc
}

/// `e` is in the stacking slot of `target` and `group`.
pub open spec fn in_slot(e: CombatEffectInstance, target: Seq<char>, group: Seq<char>) -> bool {
    e.target_selector@ == target && e.stacking_group@ == group
}

/// `active` without the entries in the slot.
pub open spec fn without_slot(active: Seq<CombatEffectInstance>, target: Seq<char>, group: Seq<char>) -> Seq<CombatEffectInstance>
    decreases active.len(),
{
    if active.len() == 0 {
        active
    } else if in_slot(active.last(), target, group) {
        without_slot(active.drop_last(), target, group)
    } else {
        without_slot(active.drop_last(), target, group).push(active.last())
    }
}

/// How many entries of `active` are in the slot.
pub open spec fn slot_count(active: Seq<CombatEffectInstance>, target: Seq<char>, group: Seq<char>) -> nat
    decreases active.len(),
{
    if active.len() == 0 {
        0
    } else {
        slot_count(active.drop_last(), target, group) + if in_slot(active.last(), target, group) {
            1nat
        } else {
            0nat
        }
    }
}

/// The first entry of `active` in the slot.
pub open spec fn first_in_slot(active: Seq<CombatEffectInstance>, target: Seq<char>, group: Seq<char>) -> Option<CombatEffectInstance>
    decreases active.len(),
{
    if active.len() == 0 {
        None
    } else if in_slot(active[0], target, group) {
        Some(active[0])
    } else {
        first_in_slot(active.drop_first(), target, group)
    }
}

/// The priority the catalog gives a definition id, or `i32::MIN`.
pub open spec fn catalog_priority(catalog: Seq<CombatEffectDefinition>, id: Seq<char>) -> int
    decreases catalog.len(),
{
    if catalog.len() == 0 {
        i32::MIN as int
    } else if catalog[0].id@ == id {
        catalog[0].priority as int
    } else {
        catalog_priority(catalog.drop_first(), id)
    }
}

/// Whether a `Strongest` definition displaces the slot's current holder.
pub open spec fn strongest_wins(active: Seq<CombatEffectInstance>, def: CombatEffectDefinition, target: Seq<char>, catalog: Seq<CombatEffectDefinition>) -> bool {
    match first_in_slot(active, target, def.stacking_group@) {
        None => true,
        Some(cur) => {
            let p = catalog_priority(catalog, cur.definition_id@);
            def.priority > p || (def.priority == p && str_ord(def.id@, cur.definition_id@) < 0)
        },
    }
}

/// Whether the stacking rule lets `def` onto `target`.
pub open spec fn stacking_allows(active: Seq<CombatEffectInstance>, def: CombatEffectDefinition, target: Seq<char>, catalog: Seq<CombatEffectDefinition>) -> bool {
    let n = slot_count(active, target, def.stacking_group@);
    match def.stacking {
        EffectStacking::Unique => n == 0,
        EffectStacking::Replace | EffectStacking::DurationRefresh => true,
        EffectStacking::Strongest => strongest_wins(active, def, target, catalog),
        EffectStacking::AdditiveWithCap => def.stacking_cap matches Some(cap) && n < cap,
        EffectStacking::StackCount => def.stacking_cap matches Some(cap) ==> n < cap,
        EffectStacking::Independent => true,
    }
}

/// Whether applying `def` first clears its slot.
pub open spec fn stacking_clears(active: Seq<CombatEffectInstance>, def: CombatEffectDefinition, target: Seq<char>, catalog: Seq<CombatEffectDefinition>) -> bool {
    match def.stacking {
        EffectStacking::Replace | EffectStacking::DurationRefresh => true,
        EffectStacking::Strongest => strongest_wins(active, def, target, catalog),
        _ => false,
    }
}

/// `e` is the instance `def` puts on `target`.
pub open spec fn instance_of(e: CombatEffectInstance, def: CombatEffectDefinition, target: Seq<char>) -> bool {
    &&& e.definition_id == def.id
    &&& e.source == def.source
    &&& e.combat_only == !(def.lifetime == EffectLifetime::Persistent)
    &&& e.target_selector@ == target
    &&& e.parameters@ == def.parameters@
    &&& e.phase == def.phase
    &&& e.lifetime == def.lifetime
    &&& e.stacking_group == def.stacking_group
}

fn slot_stats(active: &Vec<CombatEffectInstance>, target: &str, group: &str) -> (r: (usize, Option<usize>))
    ensures
        r.0 == slot_count(active@, target@, group@),
        match first_in_slot(active@, target@, group@) {
            None => r.1 is None,
            Some(e) => r.1 matches Some(i) && i < active@.len() && active@[i as int] == e,
        },
{
    let n = active.len();
    let mut count: usize = 0;
    let mut first: Option<usize> = None;
    let mut i: usize = 0;
    while i < n
        invariant
            n == active@.len(),
            i <= n,
            count == slot_count(active@.take(i as int), target@, group@),
            count <= i,
            first is None ==> forall|j: int| 0 <= j < i ==> !in_slot(#[trigger] active@[j], target@, group@),
            first matches Some(f) ==> f < i && in_slot(active@[f as int], target@, group@) && forall|j: int| 0 <= j < f ==> !in_slot(#[trigger] active@[j], target@, group@),
        decreases n - i,
    {
        assert(active@.take(i + 1).drop_last() =~= active@.take(i as int));
        if str_eq(active[i].target_selector.as_str(), target) && str_eq(active[i].stacking_group.as_str(), group) {
            count += 1;
            if first.is_none() {
                first = Some(i);
            }
        }
        i += 1;
    }
    assert(active@.take(n as int) =~= active@);
    proof {
        lemma_first_in_slot(active@, target@, group@, first);
    }
    (count, first)
}

proof fn lemma_first_in_slot(s: Seq<CombatEffectInstance>, target: Seq<char>, group: Seq<char>, first: Option<usize>)
    requires
        first is None ==> forall|j: int| 0 <= j < s.len() ==> !in_slot(#[trigger] s[j], target, group),
        first matches Some(f) ==> f < s.len() && in_slot(s[f as int], target, group) && forall|j: int| 0 <= j < f ==> !in_slot(#[trigger] s[j], target, group),
    ensures
        match first_in_slot(s, target, group) {
            None => first is None,
            Some(e) => first matches Some(i) && i < s.len() && s[i as int] == e,
        },
    decreases s.len(),
{
    if s.len() > 0 {
        if in_slot(s[0], target, group) {
            if first is None {
                assert(!in_slot(s[0], target, group));
            }
        } else {
            let rest = s.drop_first();
            let next: Option<usize> = match first {
                None => None,
                Some(f) => Some((f - 1) as usize),
            };
            if let Some(f) = first {
                assert(f != 0);
                assert forall|j: int| 0 <= j < f - 1 implies !in_slot(#[trigger] rest[j], target, group) by {
                    assert(rest[j] == s[j + 1]);
                }
                assert(rest[f - 1] == s[f as int]);
            } else {
                assert forall|j: int| 0 <= j < rest.len() implies !in_slot(#[trigger] rest[j], target, group) by {
                    assert(rest[j] == s[j + 1]);
                }
            }
            lemma_first_in_slot(rest, target, group, next);
        }
    }
}

fn catalog_priority_of(catalog: &Vec<CombatEffectDefinition>, id: &str) -> (r: i32)
    ensures
        r as int == catalog_priority(catalog@, id@),
{
    let n = catalog.len();
    let mut i: usize = 0;
    assert(catalog@.skip(0) =~= catalog@);
    while i < n
        invariant
            n == catalog@.len(),
            i <= n,
            catalog_priority(catalog@, id@) == catalog_priority(catalog@.skip(i as int), id@),
        decreases n - i,
    {
        if str_eq(catalog[i].id.as_str(), id) {
            return catalog[i].priority;
        }
        assert(catalog@.skip(i as int).drop_first() =~= catalog@.skip(i + 1));
        i += 1;
    }
    i32::MIN
}

fn remove_slot(active: &mut Vec<CombatEffectInstance>, target: &str, group: &str)
    ensures
        final(active)@ == without_slot(old(active)@, target@, group@),
{
    let ghost orig = active@;
    let mut kept: Vec<CombatEffectInstance> = Vec::new();
    let mut rest: Vec<CombatEffectInstance> = Vec::new();
    std::mem::swap(&mut rest, active);
    // walk the old entries from the back so each keeps its place
    let mut stack: Vec<CombatEffectInstance> = Vec::new();
    let n = rest.len();
    let mut i: usize = 0;
    while i < n
        invariant
            n == orig.len(),
            rest@ == orig.skip(i as int),
            i <= n,
            kept@ == without_slot(orig.take(i as int), target@, group@),
        decreases n - i,
    {
        assert(orig.take(i + 1).drop_last() =~= orig.take(i as int));
        let e = rest.remove(0);
        assert(orig.skip(i as int).drop_first() =~= orig.skip(i + 1));
        if !(str_eq(e.target_selector.as_str(), target) && str_eq(e.stacking_group.as_str(), group)) {
            kept.push(e);
        }
        i += 1;
    }
    assert(orig.take(n as int) =~= orig);
    *active = kept;
}

/// How many effects a slot holds after an effect is offered to it, by the
/// effect's stacking rule, from `n` before to `m` after: a unique effect
/// enters an empty slot only; replacing and refreshing effects leave
/// themselves alone in the slot; the strongest effect, when it wins, too;
/// capped effects add one while the slot is below the cap (additive ones
/// need a cap); independent ones always add one.
pub open spec fn slot_counted(n: int, m: int, def: CombatEffectDefinition, applied: bool) -> bool {
    match def.stacking {
        EffectStacking::Unique => m == (if n == 0 {
            1
        } else {
            n
        }),
        EffectStacking::Replace | EffectStacking::DurationRefresh => m == 1,
        EffectStacking::Strongest => m == (if applied {
            1
        } else {
            n
        }),
        EffectStacking::AdditiveWithCap => m == (match def.stacking_cap {
            Some(c) => if n < c {
                n + 1
            } else {
                n
            },
            None => n,
        }),
        EffectStacking::StackCount => m == (match def.stacking_cap {
            Some(c) => if n < c {
                n + 1
            } else {
                n
            },
            None => n + 1,
        }),
        EffectStacking::Independent => m == n + 1,
    }
}

/// A slot holds nothing once it is cleared.
proof fn lemma_without_slot_count(active: Seq<CombatEffectInstance>, target: Seq<char>, group: Seq<char>)
    ensures
        slot_count(without_slot(active, target, group), target, group) == 0,
    decreases active.len(),
{
    if active.len() > 0 {
        lemma_without_slot_count(active.drop_last(), target, group);
        if !in_slot(active.last(), target, group) {
            let w = without_slot(active.drop_last(), target, group).push(active.last());
            assert(w.drop_last() =~= without_slot(active.drop_last(), target, group));
        }
    }
}

/// The slot count after an application that keeps `kept` and may add one
/// instance of `def` on `target`.
proof fn lemma_slot_after_apply(
    old_active: Seq<CombatEffectInstance>,
    fin: Seq<CombatEffectInstance>,
    def: CombatEffectDefinition,
    target: Seq<char>,
    catalog: Seq<CombatEffectDefinition>,
    applied: bool,
)
    requires
        applied == stacking_allows(old_active, def, target, catalog),
        ({
            let kept = if stacking_clears(old_active, def, target, catalog) {
                without_slot(old_active, target, def.stacking_group@)
            } else {
                old_active
            };
            &&& fin.len() == kept.len() + if applied { 1int } else { 0int }
            &&& forall|i: int| 0 <= i < kept.len() ==> #[trigger] fin[i] == kept[i]
            &&& applied ==> instance_of(fin.last(), def, target)
        }),
    ensures
        slot_counted(
            slot_count(old_active, target, def.stacking_group@) as int,
            slot_count(fin, target, def.stacking_group@) as int,
            def,
            applied,
        ),
{
    let g = def.stacking_group@;
    let clears = stacking_clears(old_active, def, target, catalog);
    let kept = if clears {
        without_slot(old_active, target, g)
    } else {
        old_active
    };
    if clears {
        lemma_without_slot_count(old_active, target, g);
    }
    if applied {
        assert(fin.drop_last() =~= kept);
        assert(in_slot(fin.last(), target, g));
    } else {
        assert(fin =~= kept);
    }
}

/// Puts `def` on `target` when its stacking rule allows, clearing the slot
/// first for `Replace`, `DurationRefresh` and a winning `Strongest`; says
/// whether it was applied.
pub fn apply_effect(
    active: &mut Vec<CombatEffectInstance>,
    def: &CombatEffectDefinition,
    target: &str,
    catalog: &Vec<CombatEffectDefinition>,
) -> (applied: bool)
    ensures
        applied == stacking_allows(old(active)@, *def, target@, catalog@),
        ({
            let kept = if stacking_clears(old(active)@, *def, target@, catalog@) {
                without_slot(old(active)@, target@, def.stacking_group@)
            } else {
                old(active)@
            };
            &&& final(active)@.len() == kept.len() + if applied { 1int } else { 0int }
            &&& forall|i: int| 0 <= i < kept.len() ==> #[trigger] final(active)@[i] == kept[i]
            &&& applied ==> instance_of(final(active)@.last(), *def, target@)
        }),
        slot_counted(
            slot_count(old(active)@, target@, def.stacking_group@) as int,
            slot_count(final(active)@, target@, def.stacking_group@) as int,
            *def,
            applied,
        ),
{
    let (count, first) = slot_stats(active, target, def.stacking_group.as_str());
    let allowed = match def.stacking {
        EffectStacking::Unique => count == 0,
        EffectStacking::Replace | EffectStacking::DurationRefresh => {
            remove_slot(active, target, def.stacking_group.as_str());
            true
        },
        EffectStacking::Strongest => {
            let wins = match first {
                None => true,
                Some(i) => {
                    let cur = &active[i];
                    let p = catalog_priority_of(catalog, cur.definition_id.as_str());
                    def.priority > p || (def.priority == p && compare_str(def.id.as_str(), cur.definition_id.as_str()) < 0)
                },
            };
            if wins {
                remove_slot(active, target, def.stacking_group.as_str());
            }
            wins
        },
        EffectStacking::AdditiveWithCap => match def.stacking_cap {
            Some(cap) => (count as u64) < (cap as u64),
            None => false,
        },
        EffectStacking::StackCount => match def.stacking_cap {
            Some(cap) => (count as u64) < (cap as u64),
            None => true,
        },
        EffectStacking::Independent => true,
    };
    if !allowed {
        proof {
            lemma_slot_after_apply(old(active)@, active@, *def, target@, catalog@, false);
        }
        return false;
    }
    let ghost before_push = active@;
    active.push(CombatEffectInstance {
        definition_id: def.id.clone(),
        source: def.source.clone(),
        combat_only: !(match def.lifetime {
            EffectLifetime::Persistent => true,
            _ => false,
        }),
        target_selector: target.to_string(),
        parameters: clone_parameters(&def.parameters),
        phase: def.phase,
        lifetime: def.lifetime,
        stacking_group: def.stacking_group.clone(),
    });
    proof {
        assert forall|i: int| 0 <= i < before_push.len() implies #[trigger] active@[i] == before_push[i] by {}
        lemma_slot_after_apply(old(active)@, active@, *def, target@, catalog@, true);
    }
    true
}


// ---------------------------------------------------------------------------
// Input checks
// ---------------------------------------------------------------------------

pub open spec fn has_participant(ps: Seq<CombatSimulationParticipant>, id: Seq<char>) -> bool {
    exists|k: int| 0 <= k < ps.len() && #[trigger] ps[k].id@ == id
}

pub open spec fn has_combatant(cs: Seq<CombatResolutionCombatant>, id: Seq<char>) -> bool {
    exists|k: int| 0 <= k < cs.len() && #[trigger] cs[k].id@ == id
}

pub open spec fn has_definition(defs: Seq<CombatEffectDefinition>, id: Seq<char>) -> bool {
    exists|k: int| 0 <= k < defs.len() && #[trigger] defs[k].id@ == id
}

pub open spec fn has_defense(ds: Seq<CombatDefenseProfile>, id: Seq<char>) -> bool {
    exists|k: int| 0 <= k < ds.len() && #[trigger] ds[k].combatant_id@ == id
}

/// An attack's own fields are usable and its actor is known.
pub open spec fn attack_ok(a: CombatAttackDefinition, ps: Seq<CombatSimulationParticipant>, cs: Seq<CombatResolutionCombatant>, defs: Seq<CombatEffectDefinition>) -> bool {
    &&& !blank(a.id@)
    &&& has_participant(ps, a.actor_id@)
    &&& has_combatant(cs, a.actor_id@)
    &&& a.power_hundredths >= 0
    &&& a.ability_multiplier_hundredths >= 0
    &&& a.accuracy_percent <= 100
    &&& a.attack_range >= 0
    &&& a.penetration_hundredths >= 0
    &&& a.collision_balance_hundredths >= 0
    &&& a.balance_power_hundredths >= 0
    &&& (a.attack_speed_hundredths matches Some(v) ==> v > 0)
    &&& forall|e: int| 0 <= e < a.effects@.len() ==> #[trigger] a.effects@[e].chance_percent <= 100 && has_definition(defs, a.effects@[e].effect_id@)
}

/// What the resolver accepts besides the run itself: usable attacks with
/// distinct ids, one usable defense per known combatant and none for an
/// unknown one, and a defense for every participant that has a state.
pub open spec fn inputs_valid(r: CombatResolutionRequest, cs: Seq<CombatResolutionCombatant>) -> bool {
    let ps = r.execution.input.participants@;
    let atk = r.attacks@;
    let ds = r.defenses@;
    &&& forall|i: int| 0 <= i < atk.len() ==> #[trigger] attack_ok(atk[i], ps, cs, r.catalog.effects@)
    &&& forall|i: int, j: int| 0 <= i < j < atk.len() ==> #[trigger] atk[i].id@ != #[trigger] atk[j].id@
    &&& forall|i: int| 0 <= i < ds.len() ==> has_combatant(cs, #[trigger] ds[i].combatant_id@) && ds[i].defense_hundredths >= 0
        && ds[i].balance_resistance_hundredths >= 0
    &&& forall|i: int, j: int| 0 <= i < j < ds.len() ==> #[trigger] ds[i].combatant_id@ != #[trigger] ds[j].combatant_id@
    &&& forall|k: int| 0 <= k < ps.len() && has_combatant(cs, #[trigger] ps[k].id@) ==> has_defense(ds, ps[k].id@)
}

fn find_combatant(cs: &Vec<CombatResolutionCombatant>, id: &str) -> (r: Option<usize>)
    ensures
        r matches Some(i) ==> i < cs@.len() && cs@[i as int].id@ == id@,
        r is None ==> !has_combatant(cs@, id@),
        r is Some <==> has_combatant(cs@, id@),
        match r {
            Some(i) => first_key_index(cs@, combatant_key(), id@) == Some(i as int),
            None => first_key_index(cs@, combatant_key(), id@) is None,
        },
{
    let n = cs.len();
    let mut i: usize = 0;
    while i < n
        invariant
            n == cs@.len(),
            i <= n,
            forall|k: int| 0 <= k < i ==> #[trigger] cs@[k].id@ != id@,
        decreases n - i,
    {
        if str_eq(cs[i].id.as_str(), id) {
            proof {
                lemma_first_key_index(cs@, combatant_key(), id@, i as int);
            }
            return Some(i);
        }
        i += 1;
    }
    proof {
        lemma_first_key_index(cs@, combatant_key(), id@, n as int);
    }
    None
}

fn find_defense(ds: &Vec<CombatDefenseProfile>, id: &str) -> (r: Option<usize>)
    ensures
        r matches Some(i) ==> i < ds@.len() && ds@[i as int].combatant_id@ == id@,
        r is None ==> !has_defense(ds@, id@),
        r is Some <==> has_defense(ds@, id@),
{
    let n = ds.len();
    let mut i: usize = 0;
    while i < n
        invariant
            n == ds@.len(),
            i <= n,
            forall|k: int| 0 <= k < i ==> #[trigger] ds@[k].combatant_id@ != id@,
        decreases n - i,
    {
        if str_eq(ds[i].combatant_id.as_str(), id) {
            return Some(i);
        }
        i += 1;
    }
    None
}

fn find_definition(defs: &Vec<CombatEffectDefinition>, id: &str) -> (r: Option<usize>)
    ensures
        r matches Some(i) ==> i < defs@.len() && defs@[i as int].id@ == id@,
        r is None ==> !has_definition(defs@, id@),
        r is Some <==> has_definition(defs@, id@),
{
    let n = defs.len();
    let mut i: usize = 0;
    while i < n
        invariant
            n == defs@.len(),
            i <= n,
            forall|k: int| 0 <= k < i ==> #[trigger] defs@[k].id@ != id@,
        decreases n - i,
    {
        if str_eq(defs[i].id.as_str(), id) {
            return Some(i);
        }
        i += 1;
    }
    None
}

/// Where the first entry whose key is `id` stands.
pub open spec fn first_key_index<T>(s: Seq<T>, key: spec_fn(T) -> Seq<char>, id: Seq<char>) -> Option<int>
    decreases s.len(),
{
    if s.len() == 0 {
        None
    } else if key(s[0]) == id {
        Some(0)
    } else {
        match first_key_index(s.drop_first(), key, id) {
            Some(i) => Some(i + 1),
            None => None,
        }
    }
}

proof fn lemma_first_key_index<T>(s: Seq<T>, key: spec_fn(T) -> Seq<char>, id: Seq<char>, i: int)
    requires
        0 <= i <= s.len(),
        forall|k: int| 0 <= k < i ==> key(#[trigger] s[k]) != id,
        i < s.len() ==> key(s[i]) == id,
    ensures
        first_key_index(s, key, id) == if i < s.len() { Some(i) } else { None::<int> },
    decreases i,
{
    if i > 0 {
        assert forall|k: int| 0 <= k < i - 1 implies key(#[trigger] s.drop_first()[k]) != id by {
            assert(s.drop_first()[k] == s[k + 1]);
        }
        lemma_first_key_index(s.drop_first(), key, id, i - 1);
    }
}

pub open spec fn participant_key() -> spec_fn(CombatSimulationParticipant) -> Seq<char> {
    |p: CombatSimulationParticipant| p.id@
}

pub open spec fn combatant_key() -> spec_fn(CombatResolutionCombatant) -> Seq<char> {
    |c: CombatResolutionCombatant| c.id@
}

pub open spec fn mover_key() -> spec_fn(crate::combat_simulation::CombatMoveIntent) -> Seq<char> {
    |m: crate::combat_simulation::CombatMoveIntent| m.actor_id@
}

pub open spec fn position_key() -> spec_fn((String, crate::combat_hex::HexCoord)) -> Seq<char> {
    |e: (String, crate::combat_hex::HexCoord)| e.0@
}

fn find_participant_by_id(ps: &Vec<CombatSimulationParticipant>, id: &str) -> (r: Option<usize>)
    ensures
        r matches Some(i) ==> i < ps@.len() && ps@[i as int].id@ == id@,
        r is None ==> !has_participant(ps@, id@),
        r is Some <==> has_participant(ps@, id@),
        match r {
            Some(i) => first_key_index(ps@, participant_key(), id@) == Some(i as int),
            None => first_key_index(ps@, participant_key(), id@) is None,
        },
{
    let n = ps.len();
    let mut i: usize = 0;
    while i < n
        invariant
            n == ps@.len(),
            i <= n,
            forall|k: int| 0 <= k < i ==> #[trigger] ps@[k].id@ != id@,
        decreases n - i,
    {
        if str_eq(ps[i].id.as_str(), id) {
            proof {
                lemma_first_key_index(ps@, participant_key(), id@, i as int);
            }
            return Some(i);
        }
        i += 1;
    }
    proof {
        lemma_first_key_index(ps@, participant_key(), id@, n as int);
    }
    None
}

fn check_attack(a: &CombatAttackDefinition, r: &CombatResolutionRequest, cs: &Vec<CombatResolutionCombatant>) -> (res: Result<(), CombatResolutionError>)
    ensures
        res is Ok <==> attack_ok(*a, r.execution.input.participants@, cs@, r.catalog.effects@),
{
    let speed_bad = match a.attack_speed_hundredths {
        Some(v) => v <= 0,
        None => false,
    };
    if is_blank(a.id.as_str()) || find_participant_by_id(&r.execution.input.participants, a.actor_id.as_str()).is_none()
        || find_combatant(cs, a.actor_id.as_str()).is_none() || a.power_hundredths < 0
        || a.ability_multiplier_hundredths < 0 || a.accuracy_percent > 100 || a.attack_range < 0
        || a.penetration_hundredths < 0 || a.collision_balance_hundredths < 0 || a.balance_power_hundredths < 0
        || speed_bad {
        return Err(CombatResolutionError::InvalidInput);
    }
    let n = a.effects.len();
    let mut e: usize = 0;
    while e < n
        invariant
            n == a.effects@.len(),
            e <= n,
            forall|k: int| 0 <= k < e ==> #[trigger] a.effects@[k].chance_percent <= 100 && has_definition(r.catalog.effects@, a.effects@[k].effect_id@),
        decreases n - e,
    {
        let eff = &a.effects[e];
        if eff.chance_percent > 100 || find_definition(&r.catalog.effects, eff.effect_id.as_str()).is_none() {
            return Err(CombatResolutionError::UnknownEffect(eff.effect_id.clone()));
        }
        e += 1;
    }
    Ok(())
}

/// Checks attacks, defenses and coverage against the known combatants.
#[verifier::spinoff_prover]
pub fn validate_inputs(r: &CombatResolutionRequest, cs: &Vec<CombatResolutionCombatant>) -> (res: Result<(), CombatResolutionError>)
    ensures
        res is Ok <==> inputs_valid(*r, cs@),
{
    let atk = &r.attacks;
    let n = atk.len();
    let mut i: usize = 0;
    while i < n
        invariant
            n == atk@.len(),
            atk == &r.attacks,
            i <= n,
            forall|k: int| 0 <= k < i ==> #[trigger] attack_ok(atk@[k], r.execution.input.participants@, cs@, r.catalog.effects@),
            forall|k: int, l: int| 0 <= k < l < i ==> #[trigger] atk@[k].id@ != #[trigger] atk@[l].id@,
        decreases n - i,
    {
        let mut j: usize = 0;
        while j < i
            invariant
                n == atk@.len(),
                atk == &r.attacks,
                i < n,
                j <= i,
                forall|k: int| 0 <= k < j ==> #[trigger] atk@[k].id@ != atk@[i as int].id@,
            decreases i - j,
        {
            if str_eq(atk[j].id.as_str(), atk[i].id.as_str()) {
                assert(atk@ == r.attacks@);
                assert(!inputs_valid(*r, cs@)) by {
                    assert(atk@[j as int].id@ == atk@[i as int].id@);
                }
                return Err(CombatResolutionError::InvalidInput);
            }
            j += 1;
        }
        match check_attack(&atk[i], r, cs) {
            Ok(()) => {},
            Err(e) => {
                assert(!inputs_valid(*r, cs@)) by {
                    assert(!attack_ok(atk@[i as int], r.execution.input.participants@, cs@, r.catalog.effects@));
                }
                return Err(e);
            },
        }
        i += 1;
    }
    let ds = &r.defenses;
    let m = ds.len();
    let mut i: usize = 0;
    while i < m
        invariant
            m == ds@.len(),
            ds == &r.defenses,
            i <= m,
            forall|k: int| 0 <= k < r.attacks@.len() ==> #[trigger] attack_ok(r.attacks@[k], r.execution.input.participants@, cs@, r.catalog.effects@),
            forall|k: int, l: int| 0 <= k < l < r.attacks@.len() ==> #[trigger] r.attacks@[k].id@ != #[trigger] r.attacks@[l].id@,
            forall|k: int| 0 <= k < i ==> has_combatant(cs@, #[trigger] ds@[k].combatant_id@) && ds@[k].defense_hundredths >= 0
                && ds@[k].balance_resistance_hundredths >= 0,
            forall|k: int, l: int| 0 <= k < l < i ==> #[trigger] ds@[k].combatant_id@ != #[trigger] ds@[l].combatant_id@,
        decreases m - i,
    {
        let d = &ds[i];
        if find_combatant(cs, d.combatant_id.as_str()).is_none() || d.defense_hundredths < 0 || d.balance_resistance_hundredths < 0 {
            assert(!inputs_valid(*r, cs@)) by {
                assert(ds@[i as int] == *d);
            }
            return Err(CombatResolutionError::InvalidInput);
        }
        let mut j: usize = 0;
        while j < i
            invariant
                m == ds@.len(),
                ds == &r.defenses,
                i < m,
                j <= i,
                has_combatant(cs@, ds@[i as int].combatant_id@) && ds@[i as int].defense_hundredths >= 0
                    && ds@[i as int].balance_resistance_hundredths >= 0,
                forall|k: int| 0 <= k < j ==> #[trigger] ds@[k].combatant_id@ != ds@[i as int].combatant_id@,
            decreases i - j,
        {
            if str_eq(ds[j].combatant_id.as_str(), ds[i].combatant_id.as_str()) {
                assert(ds@ == r.defenses@);
                assert(!inputs_valid(*r, cs@)) by {
                    assert(ds@[j as int].combatant_id@ == ds@[i as int].combatant_id@);
                }
                return Err(CombatResolutionError::InvalidInput);
            }
            j += 1;
        }
        assert forall|k: int| 0 <= k < i + 1 implies has_combatant(cs@, #[trigger] ds@[k].combatant_id@) && ds@[k].defense_hundredths
            >= 0 && ds@[k].balance_resistance_hundredths >= 0 by {
            if k == i {
                assert(has_combatant(cs@, ds@[i as int].combatant_id@));
            }
        }
        i += 1;
    }
    let ps = &r.execution.input.participants;
    let np = ps.len();
    let mut k: usize = 0;
    while k < np
        invariant
            np == ps@.len(),
            ps == &r.execution.input.participants,
            k <= np,
            forall|k: int| 0 <= k < r.attacks@.len() ==> #[trigger] attack_ok(r.attacks@[k], r.execution.input.participants@, cs@, r.catalog.effects@),
            forall|k: int, l: int| 0 <= k < l < r.attacks@.len() ==> #[trigger] r.attacks@[k].id@ != #[trigger] r.attacks@[l].id@,
            forall|x: int| 0 <= x < r.defenses@.len() ==> has_combatant(cs@, #[trigger] r.defenses@[x].combatant_id@) && r.defenses@[x].defense_hundredths >= 0
                && r.defenses@[x].balance_resistance_hundredths >= 0,
            forall|x: int, y: int| 0 <= x < y < r.defenses@.len() ==> #[trigger] r.defenses@[x].combatant_id@ != #[trigger] r.defenses@[y].combatant_id@,
            forall|x: int| 0 <= x < k && has_combatant(cs@, #[trigger] ps@[x].id@) ==> has_defense(r.defenses@, ps@[x].id@),
        decreases np - k,
    {
        if find_combatant(cs, ps[k].id.as_str()).is_some() && find_defense(&r.defenses, ps[k].id.as_str()).is_none() {
            assert(!inputs_valid(*r, cs@)) by {
                assert(has_combatant(cs@, ps@[k as int].id@));
            }
            return Err(CombatResolutionError::InvalidInput);
        }
        k += 1;
    }
    Ok(())
}


// ---------------------------------------------------------------------------
// The stepper
// ---------------------------------------------------------------------------

/// The resolver's order for the starting effects: definition, target,
/// source, then stacking group.
pub open spec fn resolver_effect_order() -> spec_fn(CombatEffectInstance, CombatEffectInstance) -> int {
    |a: CombatEffectInstance, b: CombatEffectInstance|
        crate::order::then_ord(
            str_ord(a.definition_id@, b.definition_id@),
            crate::order::then_ord(
                str_ord(a.target_selector@, b.target_selector@),
                crate::order::then_ord(str_ord(a.source@, b.source@), str_ord(a.stacking_group@, b.stacking_group@)),
            ),
        )
}

fn compare_resolver_effects(a: &CombatEffectInstance, b: &CombatEffectInstance) -> (r: i8)
    ensures
        r as int == resolver_effect_order()(*a, *b),
{
    let c = compare_str(a.definition_id.as_str(), b.definition_id.as_str());
    if c != 0 {
        return c;
    }
    let c = compare_str(a.target_selector.as_str(), b.target_selector.as_str());
    if c != 0 {
        return c;
    }
    let c = compare_str(a.source.as_str(), b.source.as_str());
    if c != 0 {
        return c;
    }
    compare_str(a.stacking_group.as_str(), b.stacking_group.as_str())
}

pub open spec fn combatant_id_order() -> spec_fn(CombatResolutionCombatant, CombatResolutionCombatant) -> int {
    |a: CombatResolutionCombatant, b: CombatResolutionCombatant| str_ord(a.id@, b.id@)
}

pub open spec fn attack_id_order() -> spec_fn(CombatAttackDefinition, CombatAttackDefinition) -> int {
    |a: CombatAttackDefinition, b: CombatAttackDefinition| str_ord(a.id@, b.id@)
}

/// A combatant's state as the resolver keeps it, in hundredths.
pub open spec fn roster_entry(c: crate::combat_state::CombatantState) -> CombatResolutionCombatant {
    CombatResolutionCombatant {
        id: c.id,
        current_health_hundredths: (c.current_health * 100) as i64,
        maximum_health_hundredths: (c.maximum_health * 100) as i64,
        balance_hundredths: (c.balance * 100) as i64,
        maximum_balance_hundredths: (c.maximum_balance * 100) as i64,
    }
}

pub open spec fn roster_of(cs: Seq<crate::combat_state::CombatantState>) -> Seq<CombatResolutionCombatant> {
    cs.map_values(|c: crate::combat_state::CombatantState| roster_entry(c))
}

fn build_roster(cs: &Vec<crate::combat_state::CombatantState>) -> (r: Vec<CombatResolutionCombatant>)
    ensures
        r@ == roster_of(cs@),
{
    let mut out: Vec<CombatResolutionCombatant> = Vec::new();
    let n = cs.len();
    let mut i: usize = 0;
    while i < n
        invariant
            n == cs@.len(),
            i <= n,
            out@ == roster_of(cs@.take(i as int)),
        decreases n - i,
    {
        let c = &cs[i];
        out.push(CombatResolutionCombatant {
            id: c.id.clone(),
            current_health_hundredths: c.current_health as i64 * 100,
            maximum_health_hundredths: c.maximum_health as i64 * 100,
            balance_hundredths: c.balance as i64 * 100,
            maximum_balance_hundredths: c.maximum_balance as i64 * 100,
        });
        assert(out@ =~= roster_of(cs@.take(i + 1)));
        i += 1;
    }
    assert(cs@.take(n as int) =~= cs@);
    out
}

/// The resolver between ticks: combatants (ascending id), attacks
/// (ascending id) with their gauges, active effects, and what it logged.
#[derive(Debug)]
pub struct CombatResolutionStepper {
    pub effective_seed: u64,
    pub namespace: CombatRngNamespace,
    pub participants: Vec<CombatSimulationParticipant>,
    pub combatants: Vec<CombatResolutionCombatant>,
    pub defenses: Vec<CombatDefenseProfile>,
    pub attacks: Vec<CombatAttackDefinition>,
    pub catalog: Vec<CombatEffectDefinition>,
    pub active_effects: Vec<CombatEffectInstance>,
    pub attack_gauges: Vec<i64>,
    pub applied: Vec<String>,
    pub suppressed: Vec<String>,
    pub full_log: Vec<CombatResolutionLogEvent>,
}

/// `a` is a copy of the request's attack `b`: every value the resolver
/// reads is the same.
pub open spec fn attack_copy(a: CombatAttackDefinition, b: CombatAttackDefinition) -> bool {
    &&& a.id@ == b.id@
    &&& a.actor_id@ == b.actor_id@
    &&& a.power_hundredths == b.power_hundredths
    &&& a.ability_multiplier_hundredths == b.ability_multiplier_hundredths
    &&& a.accuracy_percent == b.accuracy_percent
    &&& a.attack_range == b.attack_range
    &&& a.penetration_hundredths == b.penetration_hundredths
    &&& a.collision_balance_hundredths == b.collision_balance_hundredths
    &&& a.balance_power_hundredths == b.balance_power_hundredths
    &&& a.attack_speed_hundredths == b.attack_speed_hundredths
    &&& a.effects@ == b.effects@
}

/// `a` copies one of the request's attacks.
pub open spec fn copied_from(a: CombatAttackDefinition, attacks: Seq<CombatAttackDefinition>) -> bool {
    exists|j: int| 0 <= j < attacks.len() && attack_copy(a, #[trigger] attacks[j])
}

/// Some attack of `attacks` copies `b`.
pub open spec fn copy_listed(attacks: Seq<CombatAttackDefinition>, b: CombatAttackDefinition) -> bool {
    exists|k: int| 0 <= k < attacks.len() && attack_copy(#[trigger] attacks[k], b)
}

/// A resolver as set up for `request`: the request's attacks in id order
/// with empty gauges, its defences, and its combatants in id order.
pub open spec fn stepper_set_up(s: CombatResolutionStepper, request: CombatResolutionRequest) -> bool {
    &&& crate::order::sorted_by(s.attacks@, attack_id_order())
    &&& forall|k: int| 0 <= k < s.attacks@.len() ==> #[trigger] copied_from(s.attacks@[k], request.attacks@)
    &&& forall|j: int| 0 <= j < request.attacks@.len() ==> #[trigger] copy_listed(s.attacks@, request.attacks@[j])
    &&& s.attack_gauges@.len() == s.attacks@.len()
    &&& forall|k: int| 0 <= k < s.attack_gauges@.len() ==> #[trigger] s.attack_gauges@[k] == 0
    &&& s.defenses@ == request.defenses@
    &&& s.combatants@ == sort_seq(roster_of(request.execution.input.state.combatants@), combatant_id_order())
}

/// The attack and defense values the resolver's arithmetic relies on.
pub open spec fn stepper_wf(s: CombatResolutionStepper) -> bool {
    &&& s.attack_gauges@.len() == s.attacks@.len()
    &&& forall|i: int| 0 <= i < s.attacks@.len() ==> {
        let a = #[trigger] s.attacks@[i];
        &&& a.power_hundredths >= 0
        &&& a.ability_multiplier_hundredths >= 0
        &&& a.penetration_hundredths >= 0
        &&& a.accuracy_percent <= 100
        &&& a.collision_balance_hundredths >= 0
        &&& a.balance_power_hundredths >= 0
    }
    &&& forall|i: int| 0 <= i < s.defenses@.len() ==> #[trigger] s.defenses@[i].defense_hundredths >= 0
}

/// A combatant after a tick, against before: same identity and limits,
/// health never higher and not pushed below zero, balance unchanged or
/// within its limits.
pub open spec fn combatant_progress(before: CombatResolutionCombatant, after: CombatResolutionCombatant) -> bool {
    &&& after.id == before.id
    &&& after.maximum_health_hundredths == before.maximum_health_hundredths
    &&& after.maximum_balance_hundredths == before.maximum_balance_hundredths
    &&& after.current_health_hundredths <= before.current_health_hundredths
    &&& (before.current_health_hundredths >= 0 ==> after.current_health_hundredths >= 0)
    &&& (after.balance_hundredths == before.balance_hundredths || (before.maximum_balance_hundredths >= 0 ==> 0
        <= after.balance_hundredths <= before.maximum_balance_hundredths))
}

pub open spec fn roster_progress(before: Seq<CombatResolutionCombatant>, after: Seq<CombatResolutionCombatant>) -> bool {
    &&& after.len() == before.len()
    &&& forall|i: int| 0 <= i < before.len() ==> #[trigger] combatant_progress(before[i], after[i])
}

/// An outcome's own consistency: a hit needs collision and range, a miss
/// deals nothing, and the roll is a percentage.
pub open spec fn outcome_consistent(o: CombatAttackOutcome) -> bool {
    &&& (o.hit ==> o.collision && o.in_range)
    &&& (!o.hit ==> o.damage_hundredths == 0)
    &&& o.damage_hundredths >= 0
    &&& o.roll_percent < 100
}

/// A resolution frame's fingerprint: that of the JSON pair of tick and
/// outcomes.
pub open spec fn resolution_frame_fingerprint(tick: u32, outcomes: Seq<CombatAttackOutcome>) -> Seq<char> {
    fingerprint_of(enc(Json::Arr(seq![Json::Num(tick as int), Json::Arr(outcomes.map_values(outcome_json_fn()))])))
}

fn zero_gauges(n: usize) -> (v: Vec<i64>)
    ensures
        v@.len() == n,
        forall|k: int| 0 <= k < n ==> #[trigger] v@[k] == 0,
{
    let mut v: Vec<i64> = Vec::new();
    let mut i: usize = 0;
    while i < n
        invariant
            i <= n,
            v@.len() == i,
            forall|k: int| 0 <= k < i ==> #[trigger] v@[k] == 0,
        decreases n - i,
    {
        v.push(0);
        i += 1;
    }
    v
}

fn clamp_balance(v: i64, max: i64) -> (r: i64)
    ensures
        max >= 0 ==> 0 <= r <= max,
        0 <= v <= max ==> r == v,
{
    if v < 0 {
        0
    } else if v > max {
        max
    } else {
        v
    }
}

fn log_event(
    tick: u32,
    sequence: u32,
    tag: CombatResolutionLogTag,
    importance: CombatLogImportance,
    a: &CombatAttackDefinition,
    target: &str,
    value: i64,
    effect_id: Option<String>,
) -> (e: CombatResolutionLogEvent)
    ensures
        e.tick == tick && e.sequence == sequence && e.tag == tag && e.importance == importance,
        e.attack_id == a.id && e.actor_id == a.actor_id && e.target_id@ == target@,
        e.value_hundredths == value && e.effect_id == effect_id,
{
    CombatResolutionLogEvent {
        tick,
        sequence,
        tag,
        importance,
        attack_id: a.id.clone(),
        actor_id: a.actor_id.clone(),
        target_id: target.to_string(),
        value_hundredths: value,
        effect_id,
    }
}

fn position_in(positions: &Vec<(String, crate::combat_hex::HexCoord)>, id: &str) -> (r: Option<crate::combat_hex::HexCoord>)
    ensures
        r matches Some(c) ==> exists|k: int| 0 <= k < positions@.len() && positions@[k].0@ == id@ && positions@[k].1 == c,
        match first_key_index(positions@, position_key(), id@) {
            Some(k) => r == Some(positions@[k].1),
            None => r is None,
        },
{
    let n = positions.len();
    let mut i: usize = 0;
    while i < n
        invariant
            n == positions@.len(),
            i <= n,
            forall|k: int| 0 <= k < i ==> #[trigger] positions@[k].0@ != id@,
        decreases n - i,
    {
        if str_eq(positions[i].0.as_str(), id) {
            proof {
                lemma_first_key_index(positions@, position_key(), id@, i as int);
            }
            return Some(positions[i].1);
        }
        i += 1;
    }
    proof {
        lemma_first_key_index(positions@, position_key(), id@, n as int);
    }
    None
}

impl CombatResolutionStepper {
    /// Sets the resolver up for a run drawn with `effective_seed` in
    /// `namespace`: checks the effect catalog, keeps every combatant in
    /// hundredths, checks attacks and defenses, and orders attacks by id and
    /// the starting effects by definition, target, source and group.
    pub fn new(request: &CombatResolutionRequest, effective_seed: u64, namespace: CombatRngNamespace) -> (r: Result<Self, CombatResolutionError>)
        ensures
            catalog_check(request.catalog) matches Err(e) ==> r == Err::<Self, CombatResolutionError>(CombatResolutionError::State(e)),
            r is Ok <==> catalog_check(request.catalog) is Ok && inputs_valid(*request, roster_of(request.execution.input.state.combatants@)),
            r matches Ok(s) ==> stepper_wf(s) && s.effective_seed == effective_seed && s.namespace == namespace,
            r matches Ok(s) ==> s.combatants@ == sort_seq(roster_of(request.execution.input.state.combatants@), combatant_id_order()),
            r matches Ok(s) ==> s.attacks@.len() == request.attacks@.len() && s.full_log@.len() == 0 && s.applied@.len() == 0
                && s.suppressed@.len() == 0,
            r matches Ok(s) ==> stepper_set_up(s, *request),
    {
        match request.catalog.validate() {
            Ok(()) => {},
            Err(e) => {
                return Err(CombatResolutionError::State(e));
            },
        }
        let roster = build_roster(&request.execution.input.state.combatants);
        validate_inputs(request, &roster)?;
        let by_id = |a: &CombatResolutionCombatant, b: &CombatResolutionCombatant| -> (r: i8)
            ensures
                r as int == str_ord(a.id@, b.id@),
            { compare_str(a.id.as_str(), b.id.as_str()) };
        let combatants = sort_by_order(roster, by_id, Ghost(combatant_id_order()));
        let mut attack_copies: Vec<CombatAttackDefinition> = Vec::new();
        let na = request.attacks.len();
        let mut i: usize = 0;
        while i < na
            invariant
                na == request.attacks@.len(),
                i <= na,
                attack_copies@.len() == i,
                inputs_valid(*request, roster_of(request.execution.input.state.combatants@)),
                forall|k: int| 0 <= k < i ==> {
                    let a = #[trigger] attack_copies@[k];
                    &&& a.power_hundredths >= 0
                    &&& a.ability_multiplier_hundredths >= 0
                    &&& a.penetration_hundredths >= 0
                    &&& a.accuracy_percent <= 100
                    &&& a.collision_balance_hundredths >= 0
                    &&& a.balance_power_hundredths >= 0
                    &&& a.id@ == request.attacks@[k].id@
                    &&& attack_copy(a, request.attacks@[k])
                },
            decreases na - i,
        {
            let c = request.attacks[i].clone();
            proof {
                assert(attack_ok(request.attacks@[i as int], request.execution.input.participants@, roster_of(request.execution.input.state.combatants@), request.catalog.effects@));
            }
            attack_copies.push(c);
            i += 1;
        }
        let by_attack = |a: &CombatAttackDefinition, b: &CombatAttackDefinition| -> (r: i8)
            ensures
                r as int == str_ord(a.id@, b.id@),
            { compare_str(a.id.as_str(), b.id.as_str()) };
        let ghost copies = attack_copies@;
        let attacks = sort_by_order(attack_copies, by_attack, Ghost(attack_id_order()));
        proof {
            crate::order::lemma_sort_seq_elems(copies, attack_id_order());
            assert forall|k: int| 0 <= k < attacks@.len() implies {
                let a = #[trigger] attacks@[k];
                &&& a.power_hundredths >= 0
                &&& a.ability_multiplier_hundredths >= 0
                &&& a.penetration_hundredths >= 0
                &&& a.accuracy_percent <= 100
                &&& a.collision_balance_hundredths >= 0
                &&& a.balance_power_hundredths >= 0
            } by {
                assert(copies.contains(attacks@[k]));
                let m = choose|m: int| 0 <= m < copies.len() && copies[m] == attacks@[k];
                assert(copies[m].power_hundredths >= 0);
            }
            assert forall|k: int| 0 <= k < attacks@.len() implies #[trigger] copied_from(attacks@[k], request.attacks@) by {
                assert(copies.contains(attacks@[k]));
                let m = choose|m: int| 0 <= m < copies.len() && copies[m] == attacks@[k];
                assert(attack_copy(copies[m], request.attacks@[m]));
            }
            crate::order::lemma_sort_seq_permutation_elems(copies, attack_id_order());
            crate::order::lemma_keyed_order_total(attack_id_order(), |a: CombatAttackDefinition| a.id@);
            crate::order::lemma_sort_seq(copies, attack_id_order());
            assert forall|j: int| 0 <= j < request.attacks@.len() implies #[trigger] copy_listed(attacks@, request.attacks@[j]) by {
                assert(attacks@.contains(copies[j]));
                let m = choose|m: int| 0 <= m < attacks@.len() && attacks@[m] == copies[j];
                assert(attack_copy(attacks@[m], request.attacks@[j]));
            }
        }
        let mut defenses: Vec<CombatDefenseProfile> = Vec::new();
        let nd = request.defenses.len();
        let mut i: usize = 0;
        while i < nd
            invariant
                nd == request.defenses@.len(),
                i <= nd,
                defenses@.len() == i,
                inputs_valid(*request, roster_of(request.execution.input.state.combatants@)),
                forall|k: int| 0 <= k < i ==> #[trigger] defenses@[k] == request.defenses@[k],
            decreases nd - i,
        {
            defenses.push(request.defenses[i].clone());
            i += 1;
        }
        assert(defenses@ =~= request.defenses@);
        proof {
            assert forall|k: int| 0 <= k < defenses@.len() implies #[trigger] defenses@[k].defense_hundredths >= 0 by {
                assert(defenses@[k] == request.defenses@[k]);
                let ds = request.defenses@;
                assert(has_combatant(roster_of(request.execution.input.state.combatants@), ds[k].combatant_id@));
            }
        }
        let mut active = request.execution.input.state.active_effects.clone();
        let by_effect = |a: &CombatEffectInstance, b: &CombatEffectInstance| -> (r: i8)
            ensures
                r as int == resolver_effect_order()(*a, *b),
            { compare_resolver_effects(a, b) };
        let active_effects = sort_by_order(active, by_effect, Ghost(resolver_effect_order()));
        let attack_gauges = zero_gauges(attacks.len());
        let participants = request.execution.input.participants.clone();
        let catalog = request.catalog.effects.clone();
        Ok(CombatResolutionStepper {
            effective_seed,
            namespace,
            participants,
            combatants,
            defenses,
            attacks,
            catalog,
            active_effects,
            attack_gauges,
            applied: Vec::new(),
            suppressed: Vec::new(),
            full_log: Vec::new(),
        })
    }
}


pub open spec fn attack_effect_order() -> spec_fn(CombatAttackEffect, CombatAttackEffect) -> int {
    |a: CombatAttackEffect, b: CombatAttackEffect|
        crate::order::then_ord(str_ord(a.effect_id@, b.effect_id@), crate::order::int_ord(a.chance_percent as int, b.chance_percent as int))
}

fn compare_attack_effects(a: &CombatAttackEffect, b: &CombatAttackEffect) -> (r: i8)
    ensures
        r as int == attack_effect_order()(*a, *b),
{
    let c = compare_str(a.effect_id.as_str(), b.effect_id.as_str());
    if c != 0 {
        c
    } else if a.chance_percent < b.chance_percent {
        -1
    } else if a.chance_percent > b.chance_percent {
        1
    } else {
        0
    }
}

fn next_sequence(sequence: &mut u32) -> (r: Result<u32, CombatResolutionError>)
    ensures
        r matches Ok(v) ==> v == *old(sequence) && *final(sequence) == *old(sequence) + 1,
{
    let v = *sequence;
    if v == u32::MAX {
        return Err(CombatResolutionError::Overflow);
    }
    *sequence = v + 1;
    Ok(v)
}

/// What one fire may change about the stepper: only combatants, effects,
/// the applied and suppressed lists and the log (which only grows).
pub open spec fn stepper_frame(a: CombatResolutionStepper, b: CombatResolutionStepper) -> bool {
    &&& b.effective_seed == a.effective_seed
    &&& b.namespace == a.namespace
    &&& b.participants == a.participants
    &&& b.defenses == a.defenses
    &&& b.attacks == a.attacks
    &&& b.catalog == a.catalog
    &&& b.attack_gauges == a.attack_gauges
    &&& a.full_log@.len() <= b.full_log@.len()
    &&& forall|i: int| 0 <= i < a.full_log@.len() ==> #[trigger] b.full_log@[i] == a.full_log@[i]
}

/// One fire's outcome follows the rules: the roll drawn for this fire of
/// this attack at this actor and target, a hit exactly when it collides,
/// is in range and the roll is under the accuracy (or the accuracy is
/// total), and the damage the target's defence lets through on a hit, none
/// on a miss.
pub open spec fn outcome_fired(
    st: CombatResolutionStepper,
    o: CombatAttackOutcome,
    attack: CombatAttackDefinition,
    tick: u32,
    fire_index: int,
) -> bool {
    &&& o.roll_percent == roll_spec(st.effective_seed, st.namespace, tick, attack.id@, o.actor_id@, o.target_id@, fire_index as u64)
    &&& o.hit == (o.collision && o.in_range && (attack.accuracy_percent == 100 || (attack.accuracy_percent > 0 && o.roll_percent
        < attack.accuracy_percent)))
    &&& (!o.hit ==> o.damage_hundredths == 0)
    &&& (o.hit ==> exists|di: int|
        0 <= di < st.defenses@.len() && #[trigger] st.defenses@[di].combatant_id@ == o.target_id@ && damage_spec(
            attack.power_hundredths as int,
            attack.ability_multiplier_hundredths as int,
            st.defenses@[di].defense_hundredths as int,
            attack.penetration_hundredths as int,
        ) == Some(o.damage_hundredths as int))
}

/// The outcomes from `from` on are the fires `0, 1, ...` of `attack`.
pub open spec fn fires_fired(
    outs: Seq<CombatAttackOutcome>,
    from: int,
    attack: CombatAttackDefinition,
    st: CombatResolutionStepper,
    tick: u32,
) -> bool {
    forall|k: int| from <= k < outs.len() ==> #[trigger] outcome_fired(st, outs[k], attack, tick, k - from)
}

/// What one fire records: the roll drawn for it, a hit exactly when the
/// attack collides, is in range and the roll is under its accuracy (or the
/// accuracy is total), the damage the target's defence lets through on a
/// hit (none on a miss), and the target's health lowered by it, not below
/// zero.
pub open spec fn fire_recorded(
    before: CombatResolutionStepper,
    after: CombatResolutionStepper,
    o: CombatAttackOutcome,
    attack: CombatAttackDefinition,
    actor_id: Seq<char>,
    target_id: Seq<char>,
    ti: Option<usize>,
    tick: u32,
    fire_index: u32,
    collision: bool,
    in_range: bool,
) -> bool {
    &&& o.actor_id@ == actor_id
    &&& o.target_id@ == target_id
    &&& o.collision == collision
    &&& o.in_range == in_range
    &&& outcome_fired(before, o, attack, tick, fire_index as int)
    &&& (o.hit ==> ti is Some)
    &&& (o.hit ==> health_after_hit(before, after, ti->Some_0 as int, o.damage_hundredths))
}

/// Combatant `t`'s health after a hit of `dealt`: lowered by it, not below
/// zero.
pub open spec fn health_after_hit(before: CombatResolutionStepper, after: CombatResolutionStepper, t: int, dealt: i64) -> bool {
    after.combatants@[t].current_health_hundredths == (if before.combatants@[t].current_health_hundredths < dealt {
        0
    } else {
        before.combatants@[t].current_health_hundredths - dealt
    })
}

impl CombatResolutionStepper {
    /// One fire of `attack` from `actor` at `target_id`: roll, collision
    /// and range decide the hit; a hit deals damage and may apply the
    /// attack's effects; balance moves either way.
    #[verifier::rlimit(60)]
    fn fire_once(
        &mut self,
        attack: &CombatAttackDefinition,
        actor_id: &str,
        target_id: &str,
        ti: Option<usize>,
        tick: u32,
        fire_index: u32,
        collision: bool,
        in_range: bool,
        outcomes: &mut Vec<CombatAttackOutcome>,
        sequence: &mut u32,
        Ghost(start): Ghost<Seq<CombatResolutionCombatant>>,
    ) -> (r: Result<(), CombatResolutionError>)
        requires
            stepper_wf(*old(self)),
            attack.power_hundredths >= 0,
            attack.ability_multiplier_hundredths >= 0,
            attack.penetration_hundredths >= 0,
            attack.accuracy_percent <= 100,
            roster_progress(start, old(self).combatants@),
            ti matches Some(t) ==> t < start.len() && start[t as int].current_health_hundredths > 0
                && old(self).combatants@[t as int].id@ == target_id@,
            forall|k: int| 0 <= k < old(outcomes)@.len() ==> #[trigger] outcome_consistent(old(outcomes)@[k]),
        ensures
            r is Ok ==> stepper_wf(*final(self)) && stepper_frame(*old(self), *final(self)),
            r is Ok ==> roster_progress(start, final(self).combatants@),
            r is Ok ==> final(outcomes)@.len() == old(outcomes)@.len() + 1
                && forall|k: int| 0 <= k < old(outcomes)@.len() ==> #[trigger] final(outcomes)@[k] == old(outcomes)@[k],
            r is Ok ==> final(outcomes)@.last().attack_id@ == attack.id@ && final(outcomes)@.last().actor_id@ == actor_id@
                && final(outcomes)@.last().target_id@ == target_id@ && final(outcomes)@.last().collision == collision
                && final(outcomes)@.last().in_range == in_range,
            r is Ok ==> forall|k: int| 0 <= k < final(outcomes)@.len() ==> #[trigger] outcome_consistent(final(outcomes)@[k]),
            r is Ok ==> fire_recorded(
                *old(self),
                *final(self),
                final(outcomes)@.last(),
                *attack,
                actor_id@,
                target_id@,
                ti,
                tick,
                fire_index,
                collision,
                in_range,
            ),
    {
        let roll_value = roll(self.effective_seed, self.namespace, tick, attack.id.as_str(), actor_id, target_id, fire_index as u64);
        let s0 = next_sequence(sequence)?;
        self.full_log.push(log_event(tick, s0, CombatResolutionLogTag::Collision, CombatLogImportance::Routine, attack, target_id, if collision { 1 } else { 0 }, None));
        let s1 = next_sequence(sequence)?;
        self.full_log.push(log_event(tick, s1, CombatResolutionLogTag::AttackRoll, CombatLogImportance::Important, attack, target_id, roll_value as i64, None));
        let hit = collision && in_range && (attack.accuracy_percent == 100 || (attack.accuracy_percent > 0 && roll_value < attack.accuracy_percent));
        let mut balance_delta: i64 = 0;
        if collision {
            balance_delta = match balance_delta.checked_sub(attack.collision_balance_hundredths) {
                Some(v) => v,
                None => {
                    return Err(CombatResolutionError::Overflow);
                },
            };
        }
        let mut dealt: i64 = 0;
        if hit {
            let di = match find_defense(&self.defenses, target_id) {
                Some(di) => di,
                None => {
                    return Err(CombatResolutionError::InvalidInput);
                },
            };
            let defense = &self.defenses[di];
            dealt = damage(attack, defense)?;
            proof {
                assert(self.defenses@[di as int].combatant_id@ == target_id@);
            }
            let pushback: i64 = match attack.balance_power_hundredths.checked_sub(defense.balance_resistance_hundredths) {
                Some(v) => v,
                None => 0,
            };
            balance_delta = match balance_delta.checked_sub(pushback) {
                Some(v) => v,
                None => {
                    return Err(CombatResolutionError::Overflow);
                },
            };
            let t = match ti {
                Some(t) => t,
                None => {
                    return Err(CombatResolutionError::InvalidInput);
                },
            };
            let mut c = self.combatants[t].clone();
            let h = c.current_health_hundredths;
            c.current_health_hundredths = if h - 0 < dealt { 0 } else { h - dealt };
            assert(c.current_health_hundredths == (if old(self).combatants@[t as int].current_health_hundredths < dealt { 0 } else {
                old(self).combatants@[t as int].current_health_hundredths - dealt }));
            let ghost prev = self.combatants@;
            self.combatants.set(t, c);
            proof {
                assert(combatant_progress(start[t as int], prev[t as int]));
                assert forall|i: int| 0 <= i < start.len() implies #[trigger] combatant_progress(start[i], self.combatants@[i]) by {
                    if i != t {
                        assert(self.combatants@[i] == prev[i]);
                    }
                }
            }
        }
        let t = match ti {
            Some(t) => t,
            None => {
                return Err(CombatResolutionError::InvalidInput);
            },
        };
        let mut c = self.combatants[t].clone();
        let moved = match c.balance_hundredths.checked_add(balance_delta) {
            Some(v) => v,
            None => {
                return Err(CombatResolutionError::Overflow);
            },
        };
        c.balance_hundredths = clamp_balance(moved, c.maximum_balance_hundredths);
        let ghost prev = self.combatants@;
        self.combatants.set(t, c);
        proof {
            assert(combatant_progress(start[t as int], prev[t as int]));
            assert forall|i: int| 0 <= i < start.len() implies #[trigger] combatant_progress(start[i], self.combatants@[i]) by {
                if i != t {
                    assert(self.combatants@[i] == prev[i]);
                }
            }
        }
        let mut applied_ids: Vec<String> = Vec::new();
        let mut suppressed_ids: Vec<String> = Vec::new();
        let ghost cs_mid = self.combatants@;
        if hit {
            let s2 = next_sequence(sequence)?;
            self.full_log.push(log_event(tick, s2, CombatResolutionLogTag::DamageApplied, CombatLogImportance::Decisive, attack, target_id, dealt, None));
            let copies = attack.effects.clone();
            let by_effect = |a: &CombatAttackEffect, b: &CombatAttackEffect| -> (r: i8)
                ensures
                    r as int == attack_effect_order()(*a, *b),
                { compare_attack_effects(a, b) };
            let effects = sort_by_order(copies, by_effect, Ghost(attack_effect_order()));
            let ne = effects.len();
            let mut k: usize = 0;
            while k < ne
                invariant
                    ne == effects@.len(),
                    k <= ne,
                    stepper_wf(*self),
                    stepper_frame(*old(self), *self),
                    roster_progress(start, self.combatants@),
                    self.combatants@ == cs_mid,
                decreases ne - k,
            {
                let effect = &effects[k];
                let stream = effect_stream(fire_index, effect.effect_id.as_str());
                let effect_roll = roll(self.effective_seed, self.namespace, tick, attack.id.as_str(), actor_id, target_id, stream);
                let ghost before = *self;
                if effect.chance_percent == 0 || (effect.chance_percent < 100 && effect_roll >= effect.chance_percent) {
                    suppressed_ids.push(effect.effect_id.clone());
                    self.suppressed.push(effect.effect_id.clone());
                    let s = next_sequence(sequence)?;
                    self.full_log.push(log_event(tick, s, CombatResolutionLogTag::EffectSuppressed, CombatLogImportance::Important, attack, target_id, effect_roll as i64, Some(effect.effect_id.clone())));
                } else {
                    let di = match find_definition(&self.catalog, effect.effect_id.as_str()) {
                        Some(di) => di,
                        None => {
                            return Err(CombatResolutionError::UnknownEffect(effect.effect_id.clone()));
                        },
                    };
                    let done = apply_effect(&mut self.active_effects, &self.catalog[di], target_id, &self.catalog);
                    let tag = if done {
                        applied_ids.push(effect.effect_id.clone());
                        self.applied.push(effect.effect_id.clone());
                        CombatResolutionLogTag::EffectApplied
                    } else {
                        suppressed_ids.push(effect.effect_id.clone());
                        self.suppressed.push(effect.effect_id.clone());
                        CombatResolutionLogTag::EffectSuppressed
                    };
                    let s = next_sequence(sequence)?;
                    self.full_log.push(log_event(tick, s, tag, CombatLogImportance::Important, attack, target_id, effect_roll as i64, Some(effect.effect_id.clone())));
                }
                k += 1;
            }
        }
        outcomes.push(CombatAttackOutcome {
            attack_id: attack.id.clone(),
            actor_id: actor_id.to_string(),
            target_id: target_id.to_string(),
            collision,
            in_range,
            roll_percent: roll_value,
            hit,
            damage_hundredths: dealt,
            balance_delta_hundredths: balance_delta,
            applied_effect_ids: applied_ids,
            suppressed_effect_ids: suppressed_ids,
        });
        Ok(())
    }
}


proof fn lemma_progress_trans(a: Seq<CombatResolutionCombatant>, b: Seq<CombatResolutionCombatant>, c: Seq<CombatResolutionCombatant>)
    requires
        roster_progress(a, b),
        roster_progress(b, c),
    ensures
        roster_progress(a, c),
{
    assert forall|i: int| 0 <= i < a.len() implies #[trigger] combatant_progress(a[i], c[i]) by {
        assert(combatant_progress(a[i], b[i]));
        assert(combatant_progress(b[i], c[i]));
    }
}

proof fn lemma_progress_refl(a: Seq<CombatResolutionCombatant>)
    ensures
        roster_progress(a, a),
{
    assert forall|i: int| 0 <= i < a.len() implies #[trigger] combatant_progress(a[i], a[i]) by {}
}

/// What a tick may change about the stepper: combatants, effects, gauges,
/// the applied and suppressed lists and the log (which only grows).
pub open spec fn stepper_tick(a: CombatResolutionStepper, b: CombatResolutionStepper) -> bool {
    &&& b.effective_seed == a.effective_seed
    &&& b.namespace == a.namespace
    &&& b.participants == a.participants
    &&& b.defenses == a.defenses
    &&& b.attacks == a.attacks
    &&& b.catalog == a.catalog
    &&& a.full_log@.len() <= b.full_log@.len()
    &&& forall|i: int| 0 <= i < a.full_log@.len() ==> #[trigger] b.full_log@[i] == a.full_log@[i]
}

fn copy_combatants(v: &Vec<CombatResolutionCombatant>) -> (r: Vec<CombatResolutionCombatant>)
    ensures
        r@ == v@,
{
    let mut out: Vec<CombatResolutionCombatant> = Vec::new();
    let n = v.len();
    let mut i: usize = 0;
    while i < n
        invariant
            n == v@.len(),
            i <= n,
            out@ == v@.take(i as int),
        decreases n - i,
    {
        out.push(v[i].clone());
        assert(out@ =~= v@.take(i + 1));
        i += 1;
    }
    assert(v@.take(n as int) =~= v@);
    out
}

fn first_move_of(moves: &Vec<crate::combat_simulation::CombatMoveIntent>, actor: &str) -> (r: Option<usize>)
    ensures
        r matches Some(i) ==> i < moves@.len() && moves@[i as int].actor_id@ == actor@,
        match r {
            Some(i) => first_key_index(moves@, mover_key(), actor@) == Some(i as int),
            None => first_key_index(moves@, mover_key(), actor@) is None,
        },
{
    let n = moves.len();
    let mut i: usize = 0;
    while i < n
        invariant
            n == moves@.len(),
            i <= n,
            forall|k: int| 0 <= k < i ==> #[trigger] moves@[k].actor_id@ != actor@,
        decreases n - i,
    {
        if str_eq(moves[i].actor_id.as_str(), actor) {
            proof {
                lemma_first_key_index(moves@, mover_key(), actor@, i as int);
            }
            return Some(i);
        }
        i += 1;
    }
    proof {
        lemma_first_key_index(moves@, mover_key(), actor@, n as int);
    }
    None
}

/// Whom attack `ai` engages this tick: its actor's first intent must name
/// a target; actor and target must be known participants, on opposite
/// sides, both active, and neither down at the start of the tick. Gives
/// the actor's and target's participant positions and the target id.
pub open spec fn engagement(
    st: CombatResolutionStepper,
    ai: int,
    frame: crate::combat_simulation::CombatTickFrame,
    snapshot: Seq<i64>,
) -> Option<(int, int, Seq<char>)> {
    let attack = st.attacks@[ai];
    match first_key_index(frame.moves@, mover_key(), attack.actor_id@) {
        None => None,
        Some(mi) => match frame.moves@[mi].target_id {
            None => None,
            Some(t) => match first_key_index(st.participants@, participant_key(), attack.actor_id@) {
                None => None,
                Some(pa) => match first_key_index(st.participants@, participant_key(), t@) {
                    None => None,
                    Some(pt) => {
                        let a = st.participants@[pa];
                        let b = st.participants@[pt];
                        if a.side == b.side || !a.active || !b.active {
                            None
                        } else if first_key_index(st.combatants@, combatant_key(), attack.actor_id@) matches Some(c)
                            && snapshot[c] <= 0 {
                            None
                        } else if first_key_index(st.combatants@, combatant_key(), t@) matches Some(c) && snapshot[c]
                            <= 0 {
                            None
                        } else {
                            Some((pa, pt, t@))
                        }
                    },
                },
            },
        },
    }
}

/// The tile the frame lists first for `id`.
pub open spec fn frame_position(frame: crate::combat_simulation::CombatTickFrame, id: Seq<char>) -> Option<
    crate::combat_hex::HexCoord,
> {
    match first_key_index(frame.positions@, position_key(), id) {
        Some(k) => Some(frame.positions@[k].1),
        None => None,
    }
}

/// Outcomes `from..` of `outs` are fires of `attack` by `actor` at
/// `target`, with collision and range decided at footprint distance `d`.
pub open spec fn fires_recorded(
    outs: Seq<CombatAttackOutcome>,
    from: int,
    attack: CombatAttackDefinition,
    actor: CombatSimulationParticipant,
    target: CombatSimulationParticipant,
    d: int,
) -> bool {
    forall|k: int|
        from <= k < outs.len() ==> (#[trigger] outs[k]).attack_id@ == attack.id@ && outs[k].actor_id@ == actor.id@
            && outs[k].target_id@ == target.id@ && outs[k].collision == (d <= actor.collision_radius as int
            + target.collision_radius as int) && outs[k].in_range == (d <= attack.attack_range as int)
}

/// Attack `a`'s gauge after this tick's fill (before firing).
pub open spec fn filled_gauge(st: CombatResolutionStepper, a: int) -> int {
    st.attack_gauges@[a] + match st.attacks@[a].attack_speed_hundredths {
        Some(v) => v as int,
        None => ACTION_THRESHOLD_HUNDREDTHS as int,
    }
}

/// Attack `a`'s gauge after this tick: what is left of the fill once its
/// fires are spent.
pub open spec fn next_gauge(st: CombatResolutionStepper, a: int) -> int {
    let filled = filled_gauge(st, a);
    if filled >= ACTION_THRESHOLD_HUNDREDTHS as int {
        filled % ACTION_THRESHOLD_HUNDREDTHS as int
    } else {
        filled
    }
}

/// How often attack `a` fires this tick: once per full threshold its gauge
/// holds after the fill.
pub open spec fn attack_fires(st: CombatResolutionStepper, a: int) -> int {
    let filled = filled_gauge(st, a);
    if filled >= ACTION_THRESHOLD_HUNDREDTHS as int {
        filled / ACTION_THRESHOLD_HUNDREDTHS as int
    } else {
        0
    }
}

/// A filled gauge is spent in whole thresholds: each fire takes one full
/// threshold and what is left, always below a threshold, carries over.
pub proof fn lemma_gauge_spent_in_thresholds(st: CombatResolutionStepper, a: int)
    requires
        0 <= a < st.attacks@.len(),
        a < st.attack_gauges@.len(),
        filled_gauge(st, a) >= 0,
    ensures
        attack_fires(st, a) * ACTION_THRESHOLD_HUNDREDTHS + next_gauge(st, a) == filled_gauge(st, a),
        0 <= next_gauge(st, a) < ACTION_THRESHOLD_HUNDREDTHS,
        attack_fires(st, a) >= 0,
{
    let f = filled_gauge(st, a);
    if f >= ACTION_THRESHOLD_HUNDREDTHS as int {
        assert(f == (f / 10_000) * 10_000 + f % 10_000);
    }
}

/// Some attack's gauge cannot be filled without overflow.
pub open spec fn gauge_overflows(st: CombatResolutionStepper) -> bool {
    exists|a: int| 0 <= a < st.attacks@.len() && !(i64::MIN <= #[trigger] filled_gauge(st, a) <= i64::MAX)
}

/// Every combatant's health as the tick starts.
pub open spec fn health_snapshot(st: CombatResolutionStepper) -> Seq<i64> {
    st.combatants@.map_values(|c: CombatResolutionCombatant| c.current_health_hundredths)
}

/// Attack `a` does nothing this tick: its gauge does not fill, or it does
/// not engage.
pub open spec fn attack_idle(st: CombatResolutionStepper, frame: CombatTickFrame, a: int) -> bool {
    attack_fires(st, a) == 0 || engagement(st, a, frame, health_snapshot(st)) is None
}

/// The outcomes `from..to` are attack `a`'s this tick: none when it does
/// not engage, else one per fire, each following the rules of a fire.
pub open spec fn attack_block(
    st: CombatResolutionStepper,
    frame: CombatTickFrame,
    outs: Seq<CombatAttackOutcome>,
    a: int,
    from: int,
    to: int,
) -> bool {
    &&& 0 <= from <= to <= outs.len()
    &&& match engagement(st, a, frame, health_snapshot(st)) {
        None => to == from,
        Some(_) => {
            &&& to == from + attack_fires(st, a)
            &&& forall|k: int| from <= k < to ==> #[trigger] outcome_fired(st, outs[k], st.attacks@[a], frame.tick, k - from)
                && outs[k].attack_id@ == st.attacks@[a].id@
        },
    }
}

/// The outcomes of a tick, attack by attack in attack order (`starts[a]` is
/// where attack `a`'s begin).
pub open spec fn attack_blocks(
    st: CombatResolutionStepper,
    frame: CombatTickFrame,
    outs: Seq<CombatAttackOutcome>,
    starts: Seq<int>,
) -> bool {
    &&& starts.len() == st.attacks@.len() + 1
    &&& starts[0] == 0
    &&& starts[st.attacks@.len() as int] == outs.len()
    &&& forall|a: int| 0 <= a < st.attacks@.len() ==> #[trigger] attack_block(st, frame, outs, a, starts[a], starts[a + 1])
}

/// The tick's outcomes are exactly the fires of the attacks that engage.
pub open spec fn outcomes_by_attack(st: CombatResolutionStepper, frame: CombatTickFrame, outs: Seq<CombatAttackOutcome>) -> bool {
    exists|starts: Seq<int>| #[trigger] attack_blocks(st, frame, outs, starts)
}

proof fn lemma_block_prefix(
    st: CombatResolutionStepper,
    frame: CombatTickFrame,
    p: Seq<CombatAttackOutcome>,
    q: Seq<CombatAttackOutcome>,
    a: int,
    from: int,
    to: int,
)
    requires
        attack_block(st, frame, p, a, from, to),
        p.len() <= q.len(),
        forall|k: int| 0 <= k < p.len() ==> #[trigger] q[k] == p[k],
    ensures
        attack_block(st, frame, q, a, from, to),
{
    if engagement(st, a, frame, health_snapshot(st)) is Some {
        assert forall|k: int| from <= k < to implies #[trigger] outcome_fired(st, q[k], st.attacks@[a], frame.tick, k - from)
            && q[k].attack_id@ == st.attacks@[a].id@ by {
            assert(q[k] == p[k]);
            assert(outcome_fired(st, p[k], st.attacks@[a], frame.tick, k - from));
        }
    }
}

proof fn lemma_first_key_progress(a: Seq<CombatResolutionCombatant>, b: Seq<CombatResolutionCombatant>, id: Seq<char>)
    requires
        roster_progress(a, b),
    ensures
        first_key_index(a, combatant_key(), id) == first_key_index(b, combatant_key(), id),
    decreases a.len(),
{
    if a.len() > 0 {
        assert(combatant_progress(a[0], b[0]));
        assert forall|i: int| 0 <= i < a.drop_first().len() implies #[trigger] combatant_progress(a.drop_first()[i], b.drop_first()[i]) by {
            assert(combatant_progress(a[i + 1], b[i + 1]));
        }
        lemma_first_key_progress(a.drop_first(), b.drop_first(), id);
    }
}

proof fn lemma_engagement_stable(
    x: CombatResolutionStepper,
    y: CombatResolutionStepper,
    a: int,
    frame: CombatTickFrame,
    snap: Seq<i64>,
)
    requires
        x.attacks == y.attacks,
        x.participants == y.participants,
        roster_progress(x.combatants@, y.combatants@),
    ensures
        engagement(x, a, frame, snap) == engagement(y, a, frame, snap),
{
    lemma_first_key_progress(x.combatants@, y.combatants@, x.attacks@[a].actor_id@);
    match first_key_index(frame.moves@, mover_key(), x.attacks@[a].actor_id@) {
        Some(mi) => match frame.moves@[mi].target_id {
            Some(t) => {
                lemma_first_key_progress(x.combatants@, y.combatants@, t@);
            },
            None => {},
        },
        None => {},
    }
}

impl CombatResolutionStepper {
    /// Every fire this tick of attack `ai`, when its actor's intent names a
    /// target on the other side, both are active in the request and neither
    /// started the tick down.
    fn resolve_attack(
        &mut self,
        ai: usize,
        fires: u64,
        frame: &CombatTickFrame,
        snapshot: &Vec<i64>,
        outcomes: &mut Vec<CombatAttackOutcome>,
        sequence: &mut u32,
        Ghost(start): Ghost<Seq<CombatResolutionCombatant>>,
    ) -> (r: Result<(), CombatResolutionError>)
        requires
            stepper_wf(*old(self)),
            ai < old(self).attacks@.len(),
            snapshot@.len() == start.len(),
            forall|k: int| 0 <= k < start.len() ==> #[trigger] snapshot@[k] == start[k].current_health_hundredths,
            roster_progress(start, old(self).combatants@),
            forall|k: int| 0 <= k < old(outcomes)@.len() ==> #[trigger] outcome_consistent(old(outcomes)@[k]),
        ensures
            r is Ok ==> stepper_wf(*final(self)) && stepper_frame(*old(self), *final(self)),
            r is Ok ==> roster_progress(start, final(self).combatants@),
            r is Ok ==> forall|k: int| 0 <= k < final(outcomes)@.len() ==> #[trigger] outcome_consistent(final(outcomes)@[k]),
            r is Ok ==> old(outcomes)@.len() <= final(outcomes)@.len() && forall|k: int| 0 <= k < old(outcomes)@.len() ==> #[trigger] final(outcomes)@[k] == old(outcomes)@[k],
            engagement(*old(self), ai as int, *frame, snapshot@) is None ==> r is Ok && *final(self) == *old(self)
                && final(outcomes)@ == old(outcomes)@ && *final(sequence) == *old(sequence),
            engagement(*old(self), ai as int, *frame, snapshot@) matches Some((pa, pt, t)) ==> {
                let attack = old(self).attacks@[ai as int];
                let actor = old(self).participants@[pa];
                let target = old(self).participants@[pt];
                match (frame_position(*frame, attack.actor_id@), frame_position(*frame, t)) {
                    (Some(aat), Some(tat)) => match footprint_spec(aat, actor.occupies@) {
                        Err(e) => r == Err::<(), CombatResolutionError>(
                            CombatResolutionError::Simulation(CombatSimulationError::HexMath(e)),
                        ),
                        Ok(at) => match footprint_spec(tat, target.occupies@) {
                            Err(e) => r == Err::<(), CombatResolutionError>(
                                CombatResolutionError::Simulation(CombatSimulationError::HexMath(e)),
                            ),
                            Ok(tt) => (fires > 0xffff_ffff ==> r == Err::<(), CombatResolutionError>(
                                CombatResolutionError::Overflow,
                            )) && (r is Ok ==> fires_fired(final(outcomes)@, old(outcomes)@.len() as int, attack, *old(self), frame.tick))
                                && (r is Ok ==> final(outcomes)@.len() == old(outcomes)@.len() + fires && exists|d: int|
                                min_pair_distance(at, tt, d) && fires_recorded(
                                    final(outcomes)@,
                                    old(outcomes)@.len() as int,
                                    attack,
                                    actor,
                                    target,
                                    d,
                                )),
                        },
                    },
                    _ => r == Err::<(), CombatResolutionError>(CombatResolutionError::InvalidInput),
                }
            },
    {
        let attack = self.attacks[ai].clone();
        assert(attack.power_hundredths >= 0 && attack.accuracy_percent <= 100) by {
            assert(stepper_wf(*self));
            let a = self.attacks@[ai as int];
            assert(a.power_hundredths >= 0);
        }
        let mi = match first_move_of(&frame.moves, attack.actor_id.as_str()) {
            Some(mi) => mi,
            None => {
                return Ok(());
            },
        };
        let target_id = match &frame.moves[mi].target_id {
            Some(t) => t.clone(),
            None => {
                return Ok(());
            },
        };
        let pa = match find_participant_by_id(&self.participants, attack.actor_id.as_str()) {
            Some(p) => p,
            None => {
                return Ok(());
            },
        };
        let pt = match find_participant_by_id(&self.participants, target_id.as_str()) {
            Some(p) => p,
            None => {
                return Ok(());
            },
        };
        let actor = self.participants[pa].clone();
        let target = self.participants[pt].clone();
        if actor.side == target.side || !actor.active || !target.active {
            return Ok(());
        }
        match find_combatant(&self.combatants, attack.actor_id.as_str()) {
            Some(c) => {
                if snapshot[c] <= 0 {
                    return Ok(());
                }
            },
            None => {},
        }
        let ti = find_combatant(&self.combatants, target_id.as_str());
        match ti {
            Some(t) => {
                if snapshot[t] <= 0 {
                    return Ok(());
                }
            },
            None => {},
        }
        let actor_at = match position_in(&frame.positions, actor.id.as_str()) {
            Some(c) => c,
            None => {
                return Err(CombatResolutionError::InvalidInput);
            },
        };
        let target_at = match position_in(&frame.positions, target_id.as_str()) {
            Some(c) => c,
            None => {
                return Err(CombatResolutionError::InvalidInput);
            },
        };
        let distance = match footprint_distance(actor_at, &actor.occupies, target_at, &target.occupies) {
            Ok(d) => d,
            Err(e) => {
                return Err(CombatResolutionError::Simulation(CombatSimulationError::HexMath(e)));
            },
        };
        let reach = actor.collision_radius as i64 + target.collision_radius as i64;
        let collision = distance <= reach;
        let in_range = distance <= attack.attack_range as i64;
        if fires > 0xffff_ffff {
            return Err(CombatResolutionError::Overflow);
        }
        let ghost gactor = old(self).participants@[pa as int];
        let ghost gtarget = old(self).participants@[pt as int];
        let ghost gattack = old(self).attacks@[ai as int];
        assert(gattack.id@ == attack.id@ && gattack.attack_range == attack.attack_range);
        assert(engagement(*old(self), ai as int, *frame, snapshot@) == Some((pa as int, pt as int, target_id@)));
        let mut f: u64 = 0;
        while f < fires
            invariant
                engagement(*old(self), ai as int, *frame, snapshot@) == Some((pa as int, pt as int, target_id@)),
                gactor == old(self).participants@[pa as int],
                gtarget == old(self).participants@[pt as int],
                gattack == old(self).attacks@[ai as int],
                frame_position(*frame, gattack.actor_id@) == Some(actor_at),
                frame_position(*frame, target_id@) == Some(target_at),
                footprint_spec(actor_at, gactor.occupies@) is Ok,
                footprint_spec(target_at, gtarget.occupies@) is Ok,
                min_pair_distance(
                    footprint_spec(actor_at, gactor.occupies@)->Ok_0,
                    footprint_spec(target_at, gtarget.occupies@)->Ok_0,
                    distance as int,
                ),
                fires <= 0xffff_ffff,
                outcomes@.len() == old(outcomes)@.len() + f,
                collision == (distance <= gactor.collision_radius as int + gtarget.collision_radius as int),
                in_range == (distance <= gattack.attack_range as int),
                actor.id@ == gactor.id@,
                target_id@ == gtarget.id@,
                attack.id@ == gattack.id@,
                fires_recorded(outcomes@, old(outcomes)@.len() as int, gattack, gactor, gtarget, distance as int),
                fires_fired(outcomes@, old(outcomes)@.len() as int, gattack, *old(self), frame.tick),
                attack.accuracy_percent == gattack.accuracy_percent,
                attack.power_hundredths == gattack.power_hundredths,
                attack.ability_multiplier_hundredths == gattack.ability_multiplier_hundredths,
                attack.penetration_hundredths == gattack.penetration_hundredths,
                f <= fires,
                stepper_wf(*self),
                stepper_frame(*old(self), *self),
                roster_progress(start, self.combatants@),
                attack.power_hundredths >= 0,
                attack.ability_multiplier_hundredths >= 0,
                attack.penetration_hundredths >= 0,
                attack.accuracy_percent <= 100,
                ti matches Some(t) ==> t < start.len() && start[t as int].current_health_hundredths > 0
                    && self.combatants@[t as int].id@ == target_id@,
                forall|k: int| 0 <= k < outcomes@.len() ==> #[trigger] outcome_consistent(outcomes@[k]),
                old(outcomes)@.len() <= outcomes@.len(),
                forall|k: int| 0 <= k < old(outcomes)@.len() ==> #[trigger] outcomes@[k] == old(outcomes)@[k],
            decreases fires - f,
        {
            let ghost prev_out = outcomes@;
            let ghost prev_self = *self;
            self.fire_once(&attack, actor.id.as_str(), target_id.as_str(), ti, frame.tick, f as u32, collision, in_range, outcomes, sequence, Ghost(start))?;
            proof {
                assert forall|k: int| 0 <= k < old(outcomes)@.len() implies #[trigger] outcomes@[k] == old(outcomes)@[k] by {
                    assert(outcomes@[k] == prev_out[k]);
                }
                assert(self.combatants@.len() == start.len());
                if let Some(t) = ti {
                    assert(combatant_progress(start[t as int], prev_self.combatants@[t as int]));
                    assert(combatant_progress(start[t as int], self.combatants@[t as int]));
                }
                assert forall|i: int| 0 <= i < old(self).full_log@.len() implies #[trigger] self.full_log@[i] == old(self).full_log@[i] by {
                    assert(self.full_log@[i] == prev_self.full_log@[i]);
                }
                assert forall|k: int| old(outcomes)@.len() <= k < outcomes@.len() implies (#[trigger] outcomes@[k]).attack_id@
                    == gattack.id@ && outcomes@[k].actor_id@ == gactor.id@ && outcomes@[k].target_id@ == gtarget.id@
                    && outcomes@[k].collision == (distance <= gactor.collision_radius as int
                    + gtarget.collision_radius as int) && outcomes@[k].in_range == (distance <= gattack.attack_range as int) by {
                    if k < prev_out.len() {
                        assert(outcomes@[k] == prev_out[k]);
                    }
                }
                assert forall|k: int| old(outcomes)@.len() <= k < outcomes@.len() implies #[trigger] outcome_fired(
                    *old(self),
                    outcomes@[k],
                    gattack,
                    frame.tick,
                    k - old(outcomes)@.len(),
                ) by {
                    if k < prev_out.len() {
                        assert(outcomes@[k] == prev_out[k]);
                        assert(outcome_fired(*old(self), prev_out[k], gattack, frame.tick, k - old(outcomes)@.len()));
                    } else {
                        assert(outcome_fired(prev_self, outcomes@[k], attack, frame.tick, f as int));
                    }
                }
            }
            f += 1;
        }
        Ok(())
    }

    /// Resolves one movement frame: fills every attack's gauge, fires each
    /// as often as its gauge allows (attack id order), and reports the
    /// outcomes and every combatant's state after them.
    #[verifier::rlimit(100)]
    #[verifier::spinoff_prover]
    pub fn step(&mut self, frame: &CombatTickFrame) -> (r: Result<CombatResolutionFrame, CombatResolutionError>)
        requires
            stepper_wf(*old(self)),
        ensures
            r is Ok ==> stepper_wf(*final(self)) && stepper_tick(*old(self), *final(self)),
            r is Ok ==> roster_progress(old(self).combatants@, final(self).combatants@),
            r matches Ok(f) ==> f.tick == frame.tick && f.combatants@ == final(self).combatants@
                && f.fingerprint@ == resolution_frame_fingerprint(f.tick, f.outcomes@),
            r matches Ok(f) ==> forall|k: int| 0 <= k < f.outcomes@.len() ==> #[trigger] outcome_consistent(f.outcomes@[k]),
            gauge_overflows(*old(self)) ==> r == Err::<CombatResolutionFrame, CombatResolutionError>(CombatResolutionError::Overflow),
            r matches Ok(f) ==> outcomes_by_attack(*old(self), *frame, f.outcomes@),
            !gauge_overflows(*old(self)) && (forall|a: int| 0 <= a < old(self).attacks@.len() ==> #[trigger] attack_idle(*old(self), *frame, a))
                ==> r is Ok,
            r is Ok ==> final(self).attack_gauges@.len() == old(self).attack_gauges@.len() && forall|a: int|
                0 <= a < old(self).attack_gauges@.len() ==> #[trigger] final(self).attack_gauges@[a] == next_gauge(*old(self), a),
    {
        let ghost start = self.combatants@;
        let ghost entry = *self;
        proof {
            lemma_progress_refl(start);
        }
        let nc = self.combatants.len();
        let mut snapshot: Vec<i64> = Vec::new();
        let mut k: usize = 0;
        while k < nc
            invariant
                nc == self.combatants@.len(),
                self.combatants@ == start,
                k <= nc,
                snapshot@.len() == k,
                forall|j: int| 0 <= j < k ==> #[trigger] snapshot@[j] == start[j].current_health_hundredths,
            decreases nc - k,
        {
            snapshot.push(self.combatants[k].current_health_hundredths);
            k += 1;
        }
        assert(snapshot@ =~= health_snapshot(entry));
        let na = self.attacks.len();
        let mut fires: Vec<u64> = Vec::new();
        let mut gauges: Vec<i64> = Vec::new();
        let mut a: usize = 0;
        while a < na
            invariant
                na == self.attacks@.len(),
                stepper_wf(*self),
                *self == entry,
                a <= na,
                fires@.len() == a,
                gauges@.len() == a,
                forall|x: int| 0 <= x < a ==> #[trigger] fires@[x] == attack_fires(entry, x),
                forall|x: int| 0 <= x < a ==> i64::MIN <= #[trigger] filled_gauge(entry, x) <= i64::MAX,
                forall|x: int| 0 <= x < a ==> #[trigger] gauges@[x] == next_gauge(entry, x),
            decreases na - a,
        {
            let speed: i64 = match self.attacks[a].attack_speed_hundredths {
                Some(v) => v,
                None => ACTION_THRESHOLD_HUNDREDTHS,
            };
            let filled = match self.attack_gauges[a].checked_add(speed) {
                Some(v) => v,
                None => {
                    proof {
                        assert(!(i64::MIN <= filled_gauge(entry, a as int) <= i64::MAX));
                    }
                    return Err(CombatResolutionError::Overflow);
                },
            };
            assert(filled == filled_gauge(entry, a as int));
            if filled >= ACTION_THRESHOLD_HUNDREDTHS {
                fires.push((filled / ACTION_THRESHOLD_HUNDREDTHS) as u64);
                gauges.push(filled % ACTION_THRESHOLD_HUNDREDTHS);
            } else {
                fires.push(0);
                gauges.push(filled);
            }
            a += 1;
        }
        proof {
            if gauge_overflows(entry) {
                let x = choose|x: int| 0 <= x < entry.attacks@.len() && !(i64::MIN <= #[trigger] filled_gauge(entry, x) <= i64::MAX);
                assert(i64::MIN <= filled_gauge(entry, x) <= i64::MAX);
            }
        }
        self.attack_gauges = gauges;
        let ghost after_gauges = *self;
        let ghost mut starts: Seq<int> = seq![0int];
        let ghost idle = forall|x: int| 0 <= x < na ==> #[trigger] attack_idle(entry, *frame, x);
        let mut outcomes: Vec<CombatAttackOutcome> = Vec::new();
        let mut sequence: u32 = 0;
        let mut a: usize = 0;
        while a < na
            invariant
                na == self.attacks@.len(),
                fires@.len() == na,
                snapshot@.len() == start.len(),
                forall|j: int| 0 <= j < start.len() ==> #[trigger] snapshot@[j] == start[j].current_health_hundredths,
                a <= na,
                stepper_wf(*self),
                stepper_tick(entry, *self),
                roster_progress(start, self.combatants@),
                forall|j: int| 0 <= j < outcomes@.len() ==> #[trigger] outcome_consistent(outcomes@[j]),
                start == entry.combatants@,
                stepper_wf(entry),
                !gauge_overflows(entry),
                entry == *old(self),
                self.attack_gauges == after_gauges.attack_gauges,
                after_gauges.attack_gauges@.len() == na,
                forall|x: int| 0 <= x < na ==> #[trigger] after_gauges.attack_gauges@[x] == next_gauge(entry, x),
                snapshot@ == health_snapshot(entry),
                forall|x: int| 0 <= x < na ==> #[trigger] fires@[x] == attack_fires(entry, x),
                starts.len() == a + 1,
                starts[0] == 0,
                starts[a as int] == outcomes@.len(),
                forall|b: int| 0 <= b < a ==> #[trigger] attack_block(entry, *frame, outcomes@, b, starts[b], starts[b + 1]),
                idle ==> forall|x: int| 0 <= x < na ==> #[trigger] attack_idle(entry, *frame, x),
                idle == (forall|x: int| 0 <= x < entry.attacks@.len() ==> #[trigger] attack_idle(entry, *frame, x)),
            decreases na - a,
        {
            let ghost prev_out = outcomes@;
            let ghost prev_self = *self;
            proof {
                lemma_engagement_stable(entry, prev_self, a as int, *frame, snapshot@);
            }
            if fires[a] > 0 {
                proof {
                    if idle {
                        assert(attack_idle(entry, *frame, a as int));
                        assert(attack_fires(entry, a as int) == fires@[a as int]);
                        assert(engagement(entry, a as int, *frame, health_snapshot(entry)) is None);
                        assert(engagement(prev_self, a as int, *frame, snapshot@) is None);
                    }
                }
                self.resolve_attack(a, fires[a], frame, &snapshot, &mut outcomes, &mut sequence, Ghost(start))?;
                proof {
                    assert forall|i: int| 0 <= i < entry.full_log@.len() implies #[trigger] self.full_log@[i] == entry.full_log@[i] by {
                        assert(self.full_log@[i] == prev_self.full_log@[i]);
                    }
                }
            }
            proof {
                let ghost from = prev_out.len() as int;
                if fires@[a as int] > 0 {
                    match engagement(prev_self, a as int, *frame, snapshot@) {
                        Some((pa, pt, t)) => {
                            let atk = prev_self.attacks@[a as int];
                            let actor = prev_self.participants@[pa];
                            let target = prev_self.participants@[pt];
                            let at = footprint_spec(frame_position(*frame, atk.actor_id@)->Some_0, actor.occupies@)->Ok_0;
                            let tt = footprint_spec(frame_position(*frame, t)->Some_0, target.occupies@)->Ok_0;
                            let d = choose|d: int| min_pair_distance(at, tt, d) && fires_recorded(outcomes@, from, atk, actor, target, d);
                            assert forall|k: int| from <= k < outcomes@.len() implies #[trigger] outcome_fired(entry, outcomes@[k], entry.attacks@[a as int], frame.tick, k - from)
                                && outcomes@[k].attack_id@ == entry.attacks@[a as int].id@ by {
                                assert(outcome_fired(prev_self, outcomes@[k], atk, frame.tick, k - from));
                                assert(fires_recorded(outcomes@, from, atk, actor, target, d));
                            }
                        },
                        None => {},
                    }
                }
                assert(attack_block(entry, *frame, outcomes@, a as int, from, outcomes@.len() as int));
                assert forall|b: int| 0 <= b < a implies #[trigger] attack_block(entry, *frame, outcomes@, b, starts[b], starts[b + 1]) by {
                    lemma_block_prefix(entry, *frame, prev_out, outcomes@, b, starts[b], starts[b + 1]);
                }
                starts = starts.push(outcomes@.len() as int);
                assert forall|b: int| 0 <= b < a + 1 implies #[trigger] attack_block(entry, *frame, outcomes@, b, starts[b], starts[b + 1]) by {
                    if b < a {
                        assert(attack_block(entry, *frame, outcomes@, b, starts[b], starts[b + 1]));
                    }
                }
            }
            a += 1;
        }
        proof {
            assert(attack_blocks(entry, *frame, outcomes@, starts));
        }
        let mut items: Vec<JsonValue> = Vec::new();
        push_item(&mut items, JsonValue::UInt(frame.tick as u64));
        let conv = |o: &CombatAttackOutcome| -> (j: JsonValue)
            ensures
                json_view(j) == outcome_json(*o),
            { outcome_json_to(o) };
        push_item(&mut items, json_array(&outcomes, conv, Ghost(outcome_json_fn())));
        proof {
            assert(crate::json::json_view_seq(items@) =~= seq![Json::Num(frame.tick as int), Json::Arr(outcomes@.map_values(outcome_json_fn()))]);
        }
        let fingerprint = fingerprint_bytes(to_bytes(&JsonValue::Arr(items)).as_slice());
        let combatants = copy_combatants(&self.combatants);
        Ok(CombatResolutionFrame { tick: frame.tick, outcomes, combatants, fingerprint })
    }

    /// The resolver's log so far.
    pub fn full_log(&self) -> (r: &Vec<CombatResolutionLogEvent>)
        ensures
            r@ == self.full_log@,
    {
        &self.full_log
    }

    /// The state the resolver ends in.
    pub fn finish(self) -> (r: CombatResolutionState)
        ensures
            r.combatants@ == self.combatants@,
            r.active_effects@ == self.active_effects@,
            r.applied_effect_ids@ == self.applied@,
            r.suppressed_effect_ids@ == self.suppressed@,
    {
        CombatResolutionState {
            combatants: self.combatants,
            active_effects: self.active_effects,
            applied_effect_ids: self.applied,
            suppressed_effect_ids: self.suppressed,
        }
    }
}


/// The request's active participants on `side`, first of each id.
pub open spec fn side_members(ps: Seq<CombatSimulationParticipant>, side: CombatSide) -> Seq<CombatSimulationParticipant>
    decreases ps.len(),
{
    if ps.len() == 0 {
        ps
    } else if ps.last().active && ps.last().side == side {
        side_members(ps.drop_last(), side).push(ps.last())
    } else {
        side_members(ps.drop_last(), side)
    }
}

fn members_of(ps: &Vec<CombatSimulationParticipant>, side: CombatSide) -> (r: Vec<CombatSimulationParticipant>)
    ensures
        r@.len() == side_members(ps@, side).len(),
        forall|k: int| 0 <= k < r@.len() ==> #[trigger] r@[k].id == side_members(ps@, side)[k].id,
{
    let mut out: Vec<CombatSimulationParticipant> = Vec::new();
    let n = ps.len();
    let mut i: usize = 0;
    while i < n
        invariant
            n == ps@.len(),
            i <= n,
            out@.len() == side_members(ps@.take(i as int), side).len(),
            forall|k: int| 0 <= k < out@.len() ==> #[trigger] out@[k].id == side_members(ps@.take(i as int), side)[k].id,
        decreases n - i,
    {
        assert(ps@.take(i + 1).drop_last() =~= ps@.take(i as int));
        if ps[i].active && ps[i].side == side {
            out.push(ps[i].clone());
        }
        i += 1;
    }
    assert(ps@.take(n as int) =~= ps@);
    out
}

/// The events that matter: those at least `Important`.
pub open spec fn core_resolution_events(log: Seq<CombatResolutionLogEvent>) -> Seq<CombatResolutionLogEvent>
    decreases log.len(),
{
    if log.len() == 0 {
        log
    } else if combat_log_importance_index(log.last().importance) >= 1 {
        core_resolution_events(log.drop_last()).push(log.last())
    } else {
        core_resolution_events(log.drop_last())
    }
}

pub fn core_resolution_log(log: &Vec<CombatResolutionLogEvent>) -> (r: Vec<CombatResolutionLogEvent>)
    ensures
        r@ == core_resolution_events(log@),
{
    let mut out: Vec<CombatResolutionLogEvent> = Vec::new();
    let n = log.len();
    let mut i: usize = 0;
    while i < n
        invariant
            n == log@.len(),
            i <= n,
            out@ == core_resolution_events(log@.take(i as int)),
        decreases n - i,
    {
        assert(log@.take(i + 1).drop_last() =~= log@.take(i as int));
        if combat_log_importance_rank(log[i].importance) >= 1 {
            out.push(log[i].clone());
        }
        i += 1;
    }
    assert(log@.take(n as int) =~= log@);
    out
}

/// A resolution's fingerprint tuple: the run's fingerprint, the frames,
/// the final state and the log.
pub open spec fn resolution_tuple_json(
    execution_fingerprint: Seq<char>,
    frames: Seq<CombatResolutionFrame>,
    state: CombatResolutionState,
    log: Seq<CombatResolutionLogEvent>,
) -> Json {
    Json::Arr(
        seq![
            jstr(execution_fingerprint),
            Json::Arr(frames.map_values(resolution_frame_json_fn())),
            resolution_state_json(state),
            Json::Arr(log.map_values(resolution_event_json_fn())),
        ],
    )
}

pub fn resolution_fingerprint(
    execution_fingerprint: &str,
    frames: &Vec<CombatResolutionFrame>,
    state: &CombatResolutionState,
    log: &Vec<CombatResolutionLogEvent>,
) -> (r: String)
    ensures
        r@ == fingerprint_of(enc(resolution_tuple_json(execution_fingerprint@, frames@, *state, log@))),
{
    let mut items: Vec<JsonValue> = Vec::new();
    push_item(&mut items, str_json(execution_fingerprint));
    let conv_f = |f: &CombatResolutionFrame| -> (j: JsonValue)
        ensures
            json_view(j) == resolution_frame_json(*f),
        { resolution_frame_json_to(f) };
    push_item(&mut items, json_array(frames, conv_f, Ghost(resolution_frame_json_fn())));
    push_item(&mut items, resolution_state_json_to(state));
    let conv_e = |e: &CombatResolutionLogEvent| -> (j: JsonValue)
        ensures
            json_view(j) == resolution_event_json(*e),
        { resolution_event_json_to(e) };
    push_item(&mut items, json_array(log, conv_e, Ghost(resolution_event_json_fn())));
    proof {
        assert(crate::json::json_view_seq(items@) =~= seq![
            jstr(execution_fingerprint@),
            Json::Arr(frames@.map_values(resolution_frame_json_fn())),
            resolution_state_json(*state),
            Json::Arr(log@.map_values(resolution_event_json_fn())),
        ]);
    }
    fingerprint_bytes(to_bytes(&JsonValue::Arr(items)).as_slice())
}

proof fn lemma_same_ids_defeated(a: Seq<CombatSimulationParticipant>, b: Seq<CombatSimulationParticipant>)
    requires
        a.len() == b.len(),
        forall|k: int| 0 <= k < a.len() ==> #[trigger] a[k].id == b[k].id,
    ensures
        forall|roster: Seq<CombatResolutionCombatant>|
            #[trigger] crate::combat_conclusion::side_defeated(a, roster, i64::MAX)
                == crate::combat_conclusion::side_defeated(b, roster, i64::MAX),
{
    assert forall|roster: Seq<CombatResolutionCombatant>|
        #[trigger] crate::combat_conclusion::side_defeated(a, roster, i64::MAX)
            == crate::combat_conclusion::side_defeated(b, roster, i64::MAX) by {
        assert forall|k: int| 0 <= k < a.len() implies a[k].id@ == b[k].id@ by {
            assert(a[k].id == b[k].id);
        }
    }
}

/// Whether resolution stops after a frame leaving `roster`: both sides
/// started with active members and one of them is wiped out (a member the
/// roster does not list counts as standing).
pub open spec fn early_stop(ps: Seq<CombatSimulationParticipant>, roster: Seq<CombatResolutionCombatant>) -> bool {
    &&& side_members(ps, CombatSide::Ally).len() > 0
    &&& side_members(ps, CombatSide::Enemy).len() > 0
    &&& (crate::combat_conclusion::side_defeated(side_members(ps, CombatSide::Ally), roster, i64::MAX)
        || crate::combat_conclusion::side_defeated(side_members(ps, CombatSide::Enemy), roster, i64::MAX))
}

/// One resolver tick: the resolver kept its attacks, defences and seed,
/// the frame's outcomes are the fires of the attacks that engaged on the
/// movement frame, it reports the combatants as they end, and every gauge
/// keeps what its fires left.
pub open spec fn tick_resolved(
    a: CombatResolutionStepper,
    b: CombatResolutionStepper,
    ef: CombatTickFrame,
    rf: CombatResolutionFrame,
) -> bool {
    &&& stepper_tick(a, b)
    &&& outcomes_by_attack(a, ef, rf.outcomes@)
    &&& rf.tick == ef.tick
    &&& rf.combatants@ == b.combatants@
    &&& b.attack_gauges@.len() == a.attack_gauges@.len()
    &&& forall|k: int| 0 <= k < a.attack_gauges@.len() ==> #[trigger] b.attack_gauges@[k] == next_gauge(a, k)
}

/// The resolver states `sts` run `frames` from the set-up for `request`
/// over the movement frames of `execution`.
pub open spec fn resolver_chain(
    request: CombatResolutionRequest,
    execution: CombatExecutionResult,
    frames: Seq<CombatResolutionFrame>,
    sts: Seq<CombatResolutionStepper>,
) -> bool {
    &&& sts.len() == frames.len() + 1
    &&& stepper_set_up(sts[0], request)
    &&& sts[0].effective_seed == execution.effective_seed
    &&& sts[0].namespace == execution.namespace
    &&& forall|j: int| 0 <= j < frames.len() ==> #[trigger] tick_resolved(sts[j], sts[j + 1], execution.frames@[j], frames[j])
}

/// Each resolution frame is one resolver tick over the movement frame of
/// the same index, starting from the resolver set up for the request.
pub open spec fn resolved_tick_by_tick(request: CombatResolutionRequest, res: CombatResolutionResult) -> bool {
    exists|sts: Seq<CombatResolutionStepper>| #[trigger] resolver_chain(request, res.execution, res.frames@, sts)
}

/// Runs the movement simulation, then resolves attacks frame by frame,
/// stopping after the first frame in which a side that started with
/// members is wiped out.
#[verifier::rlimit(100)]
#[verifier::spinoff_prover]
pub fn resolve(request: CombatResolutionRequest) -> (r: Result<CombatResolutionResult, CombatResolutionError>)
    ensures
        request.execution.ticks == 0 ==> r == Err::<CombatResolutionResult, CombatResolutionError>(
            CombatResolutionError::Execution(CombatExecutionError::ZeroTicks),
        ),
        request.execution.ticks > 0 && !simulation_valid(run_input(request.execution.input, request.execution.mode)) ==> r is Err,
        request.execution.ticks > request.execution.input.config.max_ticks ==> r is Err,
        !(catalog_check(request.catalog) is Ok && inputs_valid(request, roster_of(request.execution.input.state.combatants@))) ==> r is Err,
        r matches Ok(res) ==> execution_made(request.execution, res.execution),
        r matches Ok(res) ==> resolved_tick_by_tick(request, res),
        r matches Ok(res) ==> forall|j: int| 0 <= j < res.frames@.len() ==> roster_progress(
            sort_seq(roster_of(request.execution.input.state.combatants@), combatant_id_order()),
            #[trigger] res.frames@[j].combatants@,
        ),
        r matches Ok(res) ==> res.frames@.len() <= res.execution.frames@.len() && res.execution.frames@.len() == request.execution.ticks,
        r matches Ok(res) ==> forall|i: int| 0 <= i < res.frames@.len() ==> {
            &&& (#[trigger] res.frames@[i]).tick == res.execution.frames@[i].tick
            &&& res.frames@[i].fingerprint@ == resolution_frame_fingerprint(res.frames@[i].tick, res.frames@[i].outcomes@)
            &&& forall|k: int| 0 <= k < res.frames@[i].outcomes@.len() ==> #[trigger] outcome_consistent(res.frames@[i].outcomes@[k])
        },
        r matches Ok(res) ==> roster_progress(
            sort_seq(roster_of(request.execution.input.state.combatants@), combatant_id_order()),
            res.state.combatants@,
        ),
        r matches Ok(res) ==> res.core_log@ == core_resolution_events(res.full_log@),
        r matches Ok(res) ==> res.fingerprint@ == fingerprint_of(enc(resolution_tuple_json(res.execution.fingerprint@, res.frames@, res.state, res.full_log@))),
        r matches Ok(res) ==> forall|j: int|
            0 <= j < res.frames@.len() - 1 ==> !early_stop(request.execution.input.participants@, #[trigger] res.frames@[j].combatants@),
        r matches Ok(res) ==> (res.frames@.len() < res.execution.frames@.len() ==> res.frames@.len() > 0 && early_stop(
            request.execution.input.participants@,
            res.frames@.last().combatants@,
        )),
        r matches Ok(res) ==> (res.frames@.len() > 0 ==> res.state.combatants@ == res.frames@.last().combatants@),
{
    let mut stepper_setup = CombatResolutionStepper::new(&request, 0, CombatRngNamespace::ActualCombat);
    let allies = members_of(&request.execution.input.participants, CombatSide::Ally);
    let enemies = members_of(&request.execution.input.participants, CombatSide::Enemy);
    let ghost initial = sort_seq(roster_of(request.execution.input.state.combatants@), combatant_id_order());
    let ghost ticks = request.execution.ticks;
    let CombatResolutionRequest { execution: exec_request, attacks: _, defenses: _, catalog: _ } = request;
    let execution = match execute(exec_request) {
        Ok(e) => e,
        Err(e) => {
            return Err(CombatResolutionError::Execution(e));
        },
    };
    let mut stepper = match stepper_setup {
        Ok(s) => s,
        Err(e) => {
            return Err(e);
        },
    };
    stepper.effective_seed = execution.effective_seed;
    stepper.namespace = execution.namespace;
    proof {
        lemma_progress_refl(stepper.combatants@);
    }
    let decidable = allies.len() > 0 && enemies.len() > 0;
    let ghost ps = request.execution.input.participants@;
    proof {
        lemma_same_ids_defeated(allies@, side_members(ps, CombatSide::Ally));
        lemma_same_ids_defeated(enemies@, side_members(ps, CombatSide::Enemy));
    }
    let mut frames: Vec<CombatResolutionFrame> = Vec::new();
    let nf = execution.frames.len();
    let mut i: usize = 0;
    let mut stop = false;
    let ghost mut sts: Seq<CombatResolutionStepper> = seq![stepper];
    while i < nf && !stop
        invariant
            sts.len() == i + 1,
            sts[i as int] == stepper,
            stepper_set_up(sts[0], request),
            sts[0].effective_seed == execution.effective_seed,
            sts[0].namespace == execution.namespace,
            forall|j: int| 0 <= j < i ==> #[trigger] tick_resolved(sts[j], sts[j + 1], execution.frames@[j], frames@[j]),
            forall|j: int| 0 <= j < i ==> roster_progress(initial, #[trigger] frames@[j].combatants@),
            ps == request.execution.input.participants@,
            decidable == (side_members(ps, CombatSide::Ally).len() > 0 && side_members(ps, CombatSide::Enemy).len() > 0),
            forall|roster: Seq<CombatResolutionCombatant>|
                #[trigger] crate::combat_conclusion::side_defeated(allies@, roster, i64::MAX)
                    == crate::combat_conclusion::side_defeated(side_members(ps, CombatSide::Ally), roster, i64::MAX),
            forall|roster: Seq<CombatResolutionCombatant>|
                #[trigger] crate::combat_conclusion::side_defeated(enemies@, roster, i64::MAX)
                    == crate::combat_conclusion::side_defeated(side_members(ps, CombatSide::Enemy), roster, i64::MAX),
            i > 0 ==> frames@[i - 1].combatants@ == stepper.combatants@,
            forall|j: int| 0 <= j < i - 1 ==> !early_stop(ps, #[trigger] frames@[j].combatants@),
            stop ==> i > 0 && early_stop(ps, frames@[i - 1].combatants@),
            !stop && i > 0 ==> !early_stop(ps, frames@[i - 1].combatants@),
            nf == execution.frames@.len(),
            ticks != 0,
            ticks == request.execution.ticks,
            i <= nf,
            frames@.len() == i,
            stepper_wf(stepper),
            stepper.combatants@.len() == initial.len(),
            roster_progress(initial, stepper.combatants@),
            forall|j: int| 0 <= j < frames@.len() ==> {
                &&& (#[trigger] frames@[j]).tick == execution.frames@[j].tick
                &&& frames@[j].fingerprint@ == resolution_frame_fingerprint(frames@[j].tick, frames@[j].outcomes@)
                &&& forall|k: int| 0 <= k < frames@[j].outcomes@.len() ==> #[trigger] outcome_consistent(frames@[j].outcomes@[k])
            },
        decreases nf - i,
    {
        let ghost before = stepper.combatants@;
        let ghost prev = frames@;
        let ghost prev_st = stepper;
        let frame = stepper.step(&execution.frames[i])?;
        proof {
            lemma_progress_trans(initial, before, stepper.combatants@);
            assert(tick_resolved(prev_st, stepper, execution.frames@[i as int], frame));
        }
        frames.push(frame);
        proof {
            assert forall|j: int| 0 <= j < i + 1 implies roster_progress(initial, #[trigger] frames@[j].combatants@) by {
                if j < i {
                    assert(frames@[j] == prev[j]);
                }
            }
            let old_sts = sts;
            sts = sts.push(stepper);
            assert forall|j: int| 0 <= j < i + 1 implies #[trigger] tick_resolved(sts[j], sts[j + 1], execution.frames@[j], frames@[j]) by {
                if j < i {
                    assert(frames@[j] == prev[j]);
                    assert(sts[j] == old_sts[j] && sts[j + 1] == old_sts[j + 1]);
                }
            }
        }
        i += 1;
        assert forall|j: int| 0 <= j < i - 1 implies !early_stop(ps, #[trigger] frames@[j].combatants@) by {
            assert(frames@[j] == prev[j]);
        }
        if decidable {
            let allies_down = crate::combat_conclusion::side_all_defeated(&allies, &stepper.combatants, i64::MAX);
            let enemies_down = crate::combat_conclusion::side_all_defeated(&enemies, &stepper.combatants, i64::MAX);
            if allies_down || enemies_down {
                stop = true;
            }
        }
    }
    let full_log = stepper.full_log.clone();
    let core_log = core_resolution_log(&full_log);
    let state = stepper.finish();
    let fingerprint = resolution_fingerprint(execution.fingerprint.as_str(), &frames, &state, &full_log);
    proof {
        assert(resolver_chain(request, execution, frames@, sts));
    }
    Ok(CombatResolutionResult { execution, frames, state, full_log, core_log, fingerprint })
}

} // verus!
