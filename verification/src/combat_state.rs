//! The state of one battle, the catalogue of combat effects, and the
//! projection from pre-combat input to the battle's initial state.
use vstd::prelude::*;
use vstd::utf8::encode_utf8;
use crate::combat_contract::{
    ids_present, manifest_check, manifest_canonical_json, manifest_fingerprint, CombatContractError,
    CombatEffectRef, CombatManifest, SuppressedCombatEffect,
};
use crate::order::{
    compare_i64, compare_str, first_err, first_error_at, first_error_in, first_some, int_ord,
    seq_lex_ord, sort_by_order, sort_seq, sorted_indices, str_ord, str_order, then_ord,
};
use crate::json::{
    enc, json_array, json_array_sorted, json_view, json_view_fields, jstr, push_field,
    sort_json_keys, sort_keys, sorted_strs_to_json, str_elem_json_fn, str_json, strs_json, strs_to_json, to_bytes, Json, JsonValue,
};
use crate::text::{fingerprint_bytes, fingerprint_of};
use crate::text::{blank, is_blank, str_eq};

verus! {

#[derive(Clone, Copy, Debug, PartialEq, Eq, Structural)]
pub enum Posture {
    Neutral,
    Attack,
    Defense,
    Evasion,
    Grappling,
    Down,
    Rising,
    Staggered,
}

#[derive(Clone, Copy, Debug, PartialEq, Eq, Structural)]
pub enum WeaponControl {
    Stable,
    Unstable,
    Held,
    Pinned,
    Dropped,
    Broken,
}

#[derive(Debug, PartialEq, Eq)]
pub struct CombatantState {
    pub id: String,
    pub current_health: i32,
    pub maximum_health: i32,
    pub current_breath: i32,
    pub maximum_breath: i32,
    pub balance: i32,
    pub maximum_balance: i32,
    pub fear: i32,
    pub anger: i32,
    pub posture: Posture,
    pub weapon_control: WeaponControl,
    pub relationship_refs: Vec<String>,
    pub environment_refs: Vec<String>,
    pub team_refs: Vec<String>,
    pub persistent_status_ids: Vec<String>,
    pub combat_effect_ids: Vec<String>,
}

#[derive(Debug, PartialEq, Eq)]
pub struct PersistentCombatStatus {
    pub id: String,
    pub source: String,
}

impl Clone for PersistentCombatStatus {
    fn clone(&self) -> (r: Self)
        ensures
            r == *self,
    {
        PersistentCombatStatus { id: self.id.clone(), source: self.source.clone() }
    }
}

#[derive(Clone, Copy, Debug, PartialEq, Eq, Structural)]
pub enum EffectPhase {
    BeforePlacement,
    DuringPlacement,
    AfterPlacementConfirmed,
    CombatStart,
    DuringCombat,
    CombatSettlement,
}

#[derive(Clone, Copy, Debug, PartialEq, Eq, Structural)]
pub enum EffectLifetime {
    Instant,
    Seconds(u32),
    UntilConditionClears,
    Uses(u32),
    UntilCombatSettlement,
    SourceLinked,
    Persistent,
}

#[derive(Clone, Copy, Debug, PartialEq, Eq, Structural)]
pub enum EffectStacking {
    Unique,
    Strongest,
    AdditiveWithCap,
    StackCount,
    DurationRefresh,
    Independent,
    Replace,
}

#[derive(Clone, Copy, Debug, PartialEq, Eq, Structural)]
pub enum EffectVisibility {
    Public,
    Hidden,
    Conditional,
}

#[derive(Clone, Copy, Debug, PartialEq, Eq, Structural)]
pub enum CombatEffectCategory {
    State,
    Ai,
    Space,
    Information,
    ConditionalRule,
}

/// An effect active in a battle. `parameters` is a map from name to value,
/// kept as a list of pairs.
#[derive(Clone, Debug, PartialEq, Eq)]
pub struct CombatEffectInstance {
    pub definition_id: String,
    pub source: String,
    pub combat_only: bool,
    pub target_selector: String,
    pub parameters: Vec<(String, i64)>,
    pub phase: EffectPhase,
    pub lifetime: EffectLifetime,
    pub stacking_group: String,
}

#[derive(Debug, PartialEq, Eq)]
pub struct TeamFormationState {
    pub team_id: String,
    pub formation_id: String,
    pub cohesion: i32,
}

impl Clone for TeamFormationState {
    fn clone(&self) -> (r: Self)
        ensures
            r == *self,
    {
        TeamFormationState {
            team_id: self.team_id.clone(),
            formation_id: self.formation_id.clone(),
            cohesion: self.cohesion,
        }
    }
}

#[derive(Debug, PartialEq, Eq)]
pub struct RelationshipState {
    pub id: String,
    pub value: i32,
}

impl Clone for RelationshipState {
    fn clone(&self) -> (r: Self)
        ensures
            r == *self,
    {
        RelationshipState { id: self.id.clone(), value: self.value }
    }
}

#[derive(Debug, PartialEq, Eq)]
pub struct EnvironmentState {
    pub id: String,
    pub distance: i32,
    pub pressure: i32,
    pub visibility: i32,
}

impl Clone for EnvironmentState {
    fn clone(&self) -> (r: Self)
        ensures
            r == *self,
    {
        EnvironmentState {
            id: self.id.clone(),
            distance: self.distance,
            pressure: self.pressure,
            visibility: self.visibility,
        }
    }
}

#[derive(Clone, Debug, PartialEq, Eq)]
pub struct CombatState {
    pub battle_id: String,
    pub combatants: Vec<CombatantState>,
    pub persistent_statuses: Vec<PersistentCombatStatus>,
    pub active_effects: Vec<CombatEffectInstance>,
    pub environment_refs: Vec<String>,
    pub team_refs: Vec<String>,
    pub team_formations: Vec<TeamFormationState>,
    pub relationships: Vec<RelationshipState>,
    pub environment_states: Vec<EnvironmentState>,
    pub manifest_fingerprint: String,
}

#[derive(Clone, Debug, PartialEq, Eq)]
pub struct CombatConclusion {
    pub persistent_statuses: Vec<PersistentCombatStatus>,
    pub retained_effects: Vec<CombatEffectInstance>,
    pub removed_combat_effect_ids: Vec<String>,
}

#[derive(Clone, Debug, PartialEq, Eq)]
pub enum CombatStateError {
    EmptyId,
    DuplicateId(String),
    InvalidHealth(String),
    InvalidLifetime(String),
    InvalidStacking(String),
    InvalidValue(String),
    UnknownEffect(String),
    Serialization(String),
    Contract(CombatContractError),
}

/// `Ok` unless `id` is blank.
pub fn ensure_id(id: &str) -> (r: Result<(), CombatStateError>)
    ensures
        r is Ok <==> !blank(id@),
        r is Err ==> r == Err::<(), CombatStateError>(CombatStateError::EmptyId),
{
    if is_blank(id) {
        Err(CombatStateError::EmptyId)
    } else {
        Ok(())
    }
}

/// `Ok` unless some id in `ids` is blank.
pub fn ensure_all_ids(ids: &Vec<String>) -> (r: Result<(), CombatStateError>)
    ensures
        r is Ok <==> ids_present(ids@),
        r is Err ==> r == Err::<(), CombatStateError>(CombatStateError::EmptyId),
{
    let n = ids.len();
    let mut i: usize = 0;
    while i < n
        invariant
            n == ids@.len(),
            i <= n,
            forall|k: int| 0 <= k < i ==> !blank(#[trigger] ids@[k]@),
        decreases n - i,
    {
        ensure_id(ids[i].as_str())?;
        i += 1;
    }
    Ok(())
}

pub open spec fn invalid_range(current: i32, maximum: i32) -> bool {
    maximum < 0 || current < 0 || current > maximum
}

fn is_invalid_range(current: i32, maximum: i32) -> (b: bool)
    ensures
        b == invalid_range(current, maximum),
{
    maximum < 0 || current < 0 || current > maximum
}

/// Whether an earlier combatant than the one at `i` has the same id.
pub open spec fn repeats_earlier_id(cs: Seq<CombatantState>, i: int) -> bool {
    exists|k: int| 0 <= k < i && #[trigger] cs[k].id@ == cs[i].id@
}

/// The error the combatant at `i` gives, in the order the checks run.
pub open spec fn combatant_error(cs: Seq<CombatantState>, i: int) -> Option<CombatStateError> {
    let c = cs[i];
    if blank(c.id@) {
        Some(CombatStateError::EmptyId)
    } else if repeats_earlier_id(cs, i) {
        Some(CombatStateError::DuplicateId(c.id))
    } else if invalid_range(c.current_health, c.maximum_health) || invalid_range(
        c.current_breath,
        c.maximum_breath,
    ) || invalid_range(c.balance, c.maximum_balance) || c.fear < 0 || c.anger < 0 {
        Some(CombatStateError::InvalidHealth(c.id))
    } else if !(ids_present(c.relationship_refs@) && ids_present(c.environment_refs@)
        && ids_present(c.team_refs@) && ids_present(c.persistent_status_ids@) && ids_present(
        c.combat_effect_ids@,
    )) {
        Some(CombatStateError::EmptyId)
    } else {
        None
    }
}

pub open spec fn combatants_check(cs: Seq<CombatantState>) -> spec_fn(int) -> Option<
    CombatStateError,
> {
    |i: int| combatant_error(cs, i)
}

pub open spec fn formation_error(f: TeamFormationState) -> Option<CombatStateError> {
    if blank(f.team_id@) || blank(f.formation_id@) {
        Some(CombatStateError::EmptyId)
    } else if f.cohesion < 0 {
        Some(CombatStateError::InvalidValue(f.team_id))
    } else {
        None
    }
}

pub open spec fn relationship_error(r: RelationshipState) -> Option<CombatStateError> {
    if blank(r.id@) {
        Some(CombatStateError::EmptyId)
    } else {
        None
    }
}

pub open spec fn environment_error(e: EnvironmentState) -> Option<CombatStateError> {
    if blank(e.id@) {
        Some(CombatStateError::EmptyId)
    } else if e.distance < 0 || e.pressure < 0 || e.visibility < 0 {
        Some(CombatStateError::InvalidValue(e.id))
    } else {
        None
    }
}

pub open spec fn status_error(s: PersistentCombatStatus) -> Option<CombatStateError> {
    if blank(s.id@) || blank(s.source@) {
        Some(CombatStateError::EmptyId)
    } else {
        None
    }
}

pub open spec fn effect_instance_error(e: CombatEffectInstance) -> Option<CombatStateError> {
    if blank(e.definition_id@) || blank(e.source@) || blank(e.target_selector@) || blank(
        e.stacking_group@,
    ) {
        Some(CombatStateError::EmptyId)
    } else {
        None
    }
}

pub open spec fn formations_check() -> spec_fn(TeamFormationState) -> Option<CombatStateError> {
    |f: TeamFormationState| formation_error(f)
}

pub open spec fn relationships_check() -> spec_fn(RelationshipState) -> Option<CombatStateError> {
    |r: RelationshipState| relationship_error(r)
}

pub open spec fn environments_check() -> spec_fn(EnvironmentState) -> Option<CombatStateError> {
    |e: EnvironmentState| environment_error(e)
}

pub open spec fn statuses_check() -> spec_fn(PersistentCombatStatus) -> Option<CombatStateError> {
    |s: PersistentCombatStatus| status_error(s)
}

pub open spec fn effect_instances_check() -> spec_fn(CombatEffectInstance) -> Option<
    CombatStateError,
> {
    |e: CombatEffectInstance| effect_instance_error(e)
}

/// What `CombatState::validate` answers: the first rule broken, checking the
/// battle id, the manifest fingerprint, the combatants, formations,
/// relationships, environments, statuses and effects, in that order.
pub open spec fn state_check(s: CombatState) -> Result<(), CombatStateError> {
    if blank(s.battle_id@) || blank(s.manifest_fingerprint@) {
        Err(CombatStateError::EmptyId)
    } else if let Some(e) = first_err(s.combatants@.len(), combatants_check(s.combatants@)) {
        Err(e)
    } else if let Some(e) = first_some(s.team_formations@, formations_check()) {
        Err(e)
    } else if let Some(e) = first_some(s.relationships@, relationships_check()) {
        Err(e)
    } else if let Some(e) = first_some(s.environment_states@, environments_check()) {
        Err(e)
    } else if let Some(e) = first_some(s.persistent_statuses@, statuses_check()) {
        Err(e)
    } else if let Some(e) = first_some(s.active_effects@, effect_instances_check()) {
        Err(e)
    } else {
        Ok(())
    }
}

fn combatant_error_at(cs: &Vec<CombatantState>, i: usize) -> (r: Option<CombatStateError>)
    requires
        i < cs@.len(),
    ensures
        r == combatant_error(cs@, i as int),
{
    let c = &cs[i];
    if is_blank(c.id.as_str()) {
        return Some(CombatStateError::EmptyId);
    }
    let mut k: usize = 0;
    while k < i
        invariant
            i < cs@.len(),
            k <= i,
            *c == cs@[i as int],
            !blank(c.id@),
            forall|j: int| 0 <= j < k ==> #[trigger] cs@[j].id@ != cs@[i as int].id@,
        decreases i - k,
    {
        if cs[k].id == c.id {
            return Some(CombatStateError::DuplicateId(c.id.clone()));
        }
        k += 1;
    }
    if is_invalid_range(c.current_health, c.maximum_health) || is_invalid_range(
        c.current_breath,
        c.maximum_breath,
    ) || is_invalid_range(c.balance, c.maximum_balance) || c.fear < 0 || c.anger < 0 {
        return Some(CombatStateError::InvalidHealth(c.id.clone()));
    }
    if ensure_all_ids(&c.relationship_refs).is_err() || ensure_all_ids(&c.environment_refs).is_err()
        || ensure_all_ids(&c.team_refs).is_err() || ensure_all_ids(&c.persistent_status_ids).is_err()
        || ensure_all_ids(&c.combat_effect_ids).is_err() {
        return Some(CombatStateError::EmptyId);
    }
    None
}

fn formation_error_of(f: &TeamFormationState) -> (r: Option<CombatStateError>)
    ensures
        r == formation_error(*f),
{
    if is_blank(f.team_id.as_str()) || is_blank(f.formation_id.as_str()) {
        Some(CombatStateError::EmptyId)
    } else if f.cohesion < 0 {
        Some(CombatStateError::InvalidValue(f.team_id.clone()))
    } else {
        None
    }
}

fn relationship_error_of(r: &RelationshipState) -> (e: Option<CombatStateError>)
    ensures
        e == relationship_error(*r),
{
    if is_blank(r.id.as_str()) {
        Some(CombatStateError::EmptyId)
    } else {
        None
    }
}

fn environment_error_of(e: &EnvironmentState) -> (r: Option<CombatStateError>)
    ensures
        r == environment_error(*e),
{
    if is_blank(e.id.as_str()) {
        Some(CombatStateError::EmptyId)
    } else if e.distance < 0 || e.pressure < 0 || e.visibility < 0 {
        Some(CombatStateError::InvalidValue(e.id.clone()))
    } else {
        None
    }
}

fn status_error_of(s: &PersistentCombatStatus) -> (r: Option<CombatStateError>)
    ensures
        r == status_error(*s),
{
    if is_blank(s.id.as_str()) || is_blank(s.source.as_str()) {
        Some(CombatStateError::EmptyId)
    } else {
        None
    }
}

fn effect_instance_error_of(e: &CombatEffectInstance) -> (r: Option<CombatStateError>)
    ensures
        r == effect_instance_error(*e),
{
    if is_blank(e.definition_id.as_str()) || is_blank(e.source.as_str()) || is_blank(
        e.target_selector.as_str(),
    ) || is_blank(e.stacking_group.as_str()) {
        Some(CombatStateError::EmptyId)
    } else {
        None
    }
}

/// The effects that outlive the battle, in order.
pub open spec fn retained_effects(s: Seq<CombatEffectInstance>) -> Seq<CombatEffectInstance>
    decreases s.len(),
{
    if s.len() == 0 {
        s
    } else if s.last().combat_only {
        retained_effects(s.drop_last())
    } else {
        retained_effects(s.drop_last()).push(s.last())
    }
}

/// The definition ids of the effects that end with the battle, in order.
pub open spec fn removed_effect_ids(s: Seq<CombatEffectInstance>) -> Seq<String>
    decreases s.len(),
{
    if s.len() == 0 {
        Seq::empty()
    } else if s.last().combat_only {
        removed_effect_ids(s.drop_last()).push(s.last().definition_id)
    } else {
        removed_effect_ids(s.drop_last())
    }
}

impl CombatState {
    /// Checks every id and value of the state; the first broken rule is reported.
    pub fn validate(&self) -> (r: Result<(), CombatStateError>)
        ensures
            r == state_check(*self),
    {
        if is_blank(self.battle_id.as_str()) || is_blank(self.manifest_fingerprint.as_str()) {
            return Err(CombatStateError::EmptyId);
        }
        let cs = &self.combatants;
        let check_c = |i: usize| -> (r: Option<CombatStateError>)
            requires
                i < cs@.len(),
            ensures
                r == combatant_error(cs@, i as int),
            { combatant_error_at(cs, i) };
        if let Some(e) = first_error_at(cs.len(), check_c, Ghost(combatants_check(cs@))) {
            return Err(e);
        }
        let check_f = |f: &TeamFormationState| -> (r: Option<CombatStateError>)
            ensures
                r == formation_error(*f),
            { formation_error_of(f) };
        if let Some(e) = first_error_in(&self.team_formations, check_f, Ghost(formations_check())) {
            return Err(e);
        }
        let check_r = |x: &RelationshipState| -> (r: Option<CombatStateError>)
            ensures
                r == relationship_error(*x),
            { relationship_error_of(x) };
        if let Some(e) = first_error_in(&self.relationships, check_r, Ghost(relationships_check())) {
            return Err(e);
        }
        let check_e = |x: &EnvironmentState| -> (r: Option<CombatStateError>)
            ensures
                r == environment_error(*x),
            { environment_error_of(x) };
        if let Some(e) = first_error_in(
            &self.environment_states,
            check_e,
            Ghost(environments_check()),
        ) {
            return Err(e);
        }
        let check_s = |x: &PersistentCombatStatus| -> (r: Option<CombatStateError>)
            ensures
                r == status_error(*x),
            { status_error_of(x) };
        if let Some(e) = first_error_in(&self.persistent_statuses, check_s, Ghost(statuses_check())) {
            return Err(e);
        }
        let check_a = |x: &CombatEffectInstance| -> (r: Option<CombatStateError>)
            ensures
                r == effect_instance_error(*x),
            { effect_instance_error_of(x) };
        if let Some(e) = first_error_in(
            &self.active_effects,
            check_a,
            Ghost(effect_instances_check()),
        ) {
            return Err(e);
        }
        Ok(())
    }

    /// Settles the battle: persistent statuses are kept, effects that last
    /// beyond combat are retained, and the ids of combat-only effects are
    /// listed as removed.
    pub fn conclude(&self) -> (r: Result<CombatConclusion, CombatStateError>)
        ensures
            state_check(*self) is Err ==> r == Err::<CombatConclusion, CombatStateError>(
                state_check(*self)->Err_0,
            ),
            state_check(*self) is Ok ==> r is Ok,
            r matches Ok(c) ==> {
                &&& c.persistent_statuses@ == self.persistent_statuses@
                &&& c.retained_effects@.len() == retained_effects(self.active_effects@).len()
                &&& forall|i: int|
                    0 <= i < c.retained_effects@.len() ==> (#[trigger] c.retained_effects@[i]).definition_id
                        == retained_effects(self.active_effects@)[i].definition_id
                        && !c.retained_effects@[i].combat_only
                &&& forall|i: int|
                    0 <= i < c.retained_effects@.len() ==> same_effect(
                        #[trigger] c.retained_effects@[i],
                        retained_effects(self.active_effects@)[i],
                    )
                &&& c.removed_combat_effect_ids@ == removed_effect_ids(self.active_effects@)
            },
    {
        self.validate()?;
        let mut retained: Vec<CombatEffectInstance> = Vec::new();
        let mut removed: Vec<String> = Vec::new();
        let n = self.active_effects.len();
        let mut i: usize = 0;
        while i < n
            invariant
                n == self.active_effects@.len(),
                i <= n,
                retained@.len() == retained_effects(self.active_effects@.take(i as int)).len(),
                forall|k: int|
                    0 <= k < retained@.len() ==> (#[trigger] retained@[k]).definition_id
                        == retained_effects(self.active_effects@.take(i as int))[k].definition_id
                        && !retained@[k].combat_only,
                forall|k: int|
                    0 <= k < retained@.len() ==> same_effect(#[trigger] retained@[k], retained_effects(self.active_effects@.take(i as int))[k]),
                removed@ == removed_effect_ids(self.active_effects@.take(i as int)),
            decreases n - i,
        {
            let e = &self.active_effects[i];
            proof {
                assert(self.active_effects@.take(i + 1).drop_last() =~= self.active_effects@.take(
                    i as int,
                ));
            }
            if e.combat_only {
                removed.push(e.definition_id.clone());
            } else {
                let copy = CombatEffectInstance {
                    definition_id: e.definition_id.clone(),
                    source: e.source.clone(),
                    combat_only: e.combat_only,
                    target_selector: e.target_selector.clone(),
                    parameters: clone_parameters(&e.parameters),
                    phase: e.phase,
                    lifetime: e.lifetime,
                    stacking_group: e.stacking_group.clone(),
                };
                retained.push(copy);
            }
            i += 1;
        }
        proof {
            assert(self.active_effects@.take(n as int) =~= self.active_effects@);
        }
        let statuses = self.persistent_statuses.clone();
        assert(statuses@ =~= self.persistent_statuses@);
        Ok(
            CombatConclusion {
                persistent_statuses: statuses,
                retained_effects: retained,
                removed_combat_effect_ids: removed,
            },
        )
    }
}

/// Two effect instances with the same values.
pub open spec fn same_effect(a: CombatEffectInstance, b: CombatEffectInstance) -> bool {
    &&& a.definition_id == b.definition_id
    &&& a.source == b.source
    &&& a.combat_only == b.combat_only
    &&& a.target_selector == b.target_selector
    &&& a.parameters@ == b.parameters@
    &&& a.phase == b.phase
    &&& a.lifetime == b.lifetime
    &&& a.stacking_group == b.stacking_group
}

/// A copy of an effect's parameter list.
pub fn clone_parameters(v: &Vec<(String, i64)>) -> (r: Vec<(String, i64)>)
    ensures
        r@ == v@,
{
    let mut out: Vec<(String, i64)> = Vec::new();
    let n = v.len();
    let mut i: usize = 0;
    while i < n
        invariant
            n == v@.len(),
            i <= n,
            out@ == v@.take(i as int),
        decreases n - i,
    {
        let (k, x) = &v[i];
        out.push((k.clone(), *x));
        assert(out@ =~= v@.take(i + 1));
        i += 1;
    }
    assert(v@.take(n as int) =~= v@);
    out
}

pub open spec fn effect_lifetime_json(x: EffectLifetime) -> Json {
    match x {
        EffectLifetime::Instant => jstr("Instant"@),
        EffectLifetime::Seconds(n) => Json::Obj(seq![(encode_utf8("Seconds"@), Json::Num(n as int))]),
        EffectLifetime::UntilConditionClears => jstr("UntilConditionClears"@),
        EffectLifetime::Uses(n) => Json::Obj(seq![(encode_utf8("Uses"@), Json::Num(n as int))]),
        EffectLifetime::UntilCombatSettlement => jstr("UntilCombatSettlement"@),
        EffectLifetime::SourceLinked => jstr("SourceLinked"@),
        EffectLifetime::Persistent => jstr("Persistent"@),
    }
}

pub fn effect_lifetime_json_to(x: EffectLifetime) -> (j: JsonValue)
    ensures
        json_view(j) == effect_lifetime_json(x),
{
    match x {
        EffectLifetime::Instant => str_json("Instant"),
        EffectLifetime::Seconds(n) => {
            let mut f: Vec<(String, JsonValue)> = Vec::new();
            push_field(&mut f, "Seconds", JsonValue::UInt(n as u64));
            proof {
                assert(json_view_fields(f@) =~= seq![(encode_utf8("Seconds"@), Json::Num(n as int))]);
            }
            JsonValue::Obj(f)
        },
        EffectLifetime::UntilConditionClears => str_json("UntilConditionClears"),
        EffectLifetime::Uses(n) => {
            let mut f: Vec<(String, JsonValue)> = Vec::new();
            push_field(&mut f, "Uses", JsonValue::UInt(n as u64));
            proof {
                assert(json_view_fields(f@) =~= seq![(encode_utf8("Uses"@), Json::Num(n as int))]);
            }
            JsonValue::Obj(f)
        },
        EffectLifetime::UntilCombatSettlement => str_json("UntilCombatSettlement"),
        EffectLifetime::SourceLinked => str_json("SourceLinked"),
        EffectLifetime::Persistent => str_json("Persistent"),
    }
}

/// The variant's place in declaration order, then its count.
pub open spec fn lifetime_ord(a: EffectLifetime, b: EffectLifetime) -> int {
    then_ord(int_ord(lifetime_rank(a).0, lifetime_rank(b).0), int_ord(lifetime_rank(a).1, lifetime_rank(b).1))
}

pub open spec fn lifetime_rank(x: EffectLifetime) -> (int, int) {
    match x {
        EffectLifetime::Instant => (0, 0),
        EffectLifetime::Seconds(n) => (1, n as int),
        EffectLifetime::UntilConditionClears => (2, 0),
        EffectLifetime::Uses(n) => (3, n as int),
        EffectLifetime::UntilCombatSettlement => (4, 0),
        EffectLifetime::SourceLinked => (5, 0),
        EffectLifetime::Persistent => (6, 0),
    }
}

fn lifetime_rank_of(x: EffectLifetime) -> (r: (u8, u32))
    ensures
        r.0 as int == lifetime_rank(x).0,
        r.1 as int == lifetime_rank(x).1,
{
    match x {
        EffectLifetime::Instant => (0, 0),
        EffectLifetime::Seconds(n) => (1, n),
        EffectLifetime::UntilConditionClears => (2, 0),
        EffectLifetime::Uses(n) => (3, n),
        EffectLifetime::UntilCombatSettlement => (4, 0),
        EffectLifetime::SourceLinked => (5, 0),
        EffectLifetime::Persistent => (6, 0),
    }
}

pub fn compare_lifetimes(a: EffectLifetime, b: EffectLifetime) -> (r: i8)
    ensures
        r as int == lifetime_ord(a, b),
{
    let (ra, na) = lifetime_rank_of(a);
    let (rb, nb) = lifetime_rank_of(b);
    let c = compare_i64(ra as i64, rb as i64);
    if c != 0 {
        c
    } else {
        compare_i64(na as i64, nb as i64)
    }
}

/// Parameter entries by name, then value.
pub open spec fn param_order_of(a: (String, i64), b: (String, i64)) -> int {
    then_ord(str_ord(a.0@, b.0@), int_ord(a.1 as int, b.1 as int))
}

pub open spec fn param_order() -> spec_fn((String, i64), (String, i64)) -> int {
    |a: (String, i64), b: (String, i64)| param_order_of(a, b)
}

pub open spec fn param_field_fn() -> spec_fn((String, i64)) -> (Seq<u8>, Json) {
    |kv: (String, i64)| (encode_utf8(kv.0@), Json::Num(kv.1 as int))
}

/// A parameter map as JSON: an object with its names in ascending order.
pub open spec fn params_json(p: Seq<(String, i64)>) -> Json {
    Json::Obj(sort_seq(p, param_order()).map_values(param_field_fn()))
}

/// Parameter maps compared entry by entry, in name order.
pub open spec fn params_ord(a: Seq<(String, i64)>, b: Seq<(String, i64)>) -> int {
    seq_lex_ord(sort_seq(a, param_order()), sort_seq(b, param_order()), param_order())
}

fn compare_param(a: &(String, i64), b: &(String, i64)) -> (r: i8)
    ensures
        r as int == param_order_of(*a, *b),
{
    let c = compare_str(a.0.as_str(), b.0.as_str());
    if c != 0 {
        c
    } else {
        compare_i64(a.1, b.1)
    }
}

/// The parameter entries sorted by name, then value.
pub fn sorted_parameters(p: &Vec<(String, i64)>) -> (r: Vec<(String, i64)>)
    ensures
        r@ == sort_seq(p@, param_order()),
{
    let by_order = |a: &(String, i64), b: &(String, i64)| -> (r: i8)
        ensures
            r as int == param_order_of(*a, *b),
        { compare_param(a, b) };
    sort_by_order(clone_parameters(p), by_order, Ghost(param_order()))
}

pub fn params_to_json(p: &Vec<(String, i64)>) -> (j: JsonValue)
    ensures
        json_view(j) == params_json(p@),
{
    let sorted = sorted_parameters(p);
    let mut f: Vec<(String, JsonValue)> = Vec::new();
    let n = sorted.len();
    let mut i: usize = 0;
    while i < n
        invariant
            n == sorted@.len(),
            i <= n,
            json_view_fields(f@) == sorted@.take(i as int).map_values(param_field_fn()),
        decreases n - i,
    {
        let (k, v) = &sorted[i];
        let ghost before = f@;
        push_field(&mut f, k.as_str(), JsonValue::Int(*v));
        assert(sorted@.take(i + 1).map_values(param_field_fn()) =~= sorted@.take(i as int).map_values(
            param_field_fn(),
        ).push(param_field_fn()(sorted@[i as int])));
        i += 1;
    }
    assert(sorted@.take(n as int) =~= sorted@);
    JsonValue::Obj(f)
}

fn compare_sorted_params(a: &Vec<(String, i64)>, b: &Vec<(String, i64)>) -> (r: i8)
    ensures
        r as int == seq_lex_ord(a@, b@, param_order()),
{
    let n = a.len();
    let m = b.len();
    let mut i: usize = 0;
    assert(a@.skip(0) =~= a@);
    assert(b@.skip(0) =~= b@);
    while i < n && i < m
        invariant
            n == a@.len(),
            m == b@.len(),
            i <= n,
            i <= m,
            seq_lex_ord(a@, b@, param_order()) == seq_lex_ord(a@.skip(i as int), b@.skip(i as int), param_order()),
        decreases n - i,
    {
        let c = compare_param(&a[i], &b[i]);
        assert(a@.skip(i as int)[0] == a@[i as int]);
        assert(b@.skip(i as int)[0] == b@[i as int]);
        if c != 0 {
            return c;
        }
        assert(a@.skip(i as int).drop_first() =~= a@.skip(i + 1));
        assert(b@.skip(i as int).drop_first() =~= b@.skip(i + 1));
        i += 1;
    }
    if i == n {
        if i == m {
            0
        } else {
            -1
        }
    } else {
        1
    }
}

pub fn compare_params(a: &Vec<(String, i64)>, b: &Vec<(String, i64)>) -> (r: i8)
    ensures
        r as int == params_ord(a@, b@),
{
    let sa = sorted_parameters(a);
    let sb = sorted_parameters(b);
    compare_sorted_params(&sa, &sb)
}

pub open spec fn combatant_order_of(a: CombatantState, b: CombatantState) -> int {
    str_ord(a.id@, b.id@)
}

pub open spec fn combatant_order() -> spec_fn(CombatantState, CombatantState) -> int {
    |a: CombatantState, b: CombatantState| combatant_order_of(a, b)
}

fn compare_combatants(a: &CombatantState, b: &CombatantState) -> (r: i8)
    ensures
        r as int == combatant_order_of(*a, *b),
{
    compare_str(a.id.as_str(), b.id.as_str())
}

pub open spec fn status_order_of(a: PersistentCombatStatus, b: PersistentCombatStatus) -> int {
    str_ord(a.id@, b.id@)
}

pub open spec fn status_order() -> spec_fn(PersistentCombatStatus, PersistentCombatStatus) -> int {
    |a: PersistentCombatStatus, b: PersistentCombatStatus| status_order_of(a, b)
}

fn compare_statuses(a: &PersistentCombatStatus, b: &PersistentCombatStatus) -> (r: i8)
    ensures
        r as int == status_order_of(*a, *b),
{
    compare_str(a.id.as_str(), b.id.as_str())
}

pub open spec fn bool_ord(a: bool, b: bool) -> int {
    if a == b {
        0
    } else if !a {
        -1
    } else {
        1
    }
}

/// Effects by definition, source, target, phase, lifetime, stacking group,
/// parameters, then whether they end with the battle.
pub open spec fn effect_instance_order_of(a: CombatEffectInstance, b: CombatEffectInstance) -> int {
    then_ord(
        str_ord(a.definition_id@, b.definition_id@),
        then_ord(
            str_ord(a.source@, b.source@),
            then_ord(
                str_ord(a.target_selector@, b.target_selector@),
                then_ord(
                    int_ord(effect_phase_index(a.phase), effect_phase_index(b.phase)),
                    then_ord(
                        lifetime_ord(a.lifetime, b.lifetime),
                        then_ord(
                            str_ord(a.stacking_group@, b.stacking_group@),
                            then_ord(
                                params_ord(a.parameters@, b.parameters@),
                                bool_ord(a.combat_only, b.combat_only),
                            ),
                        ),
                    ),
                ),
            ),
        ),
    )
}

pub open spec fn effect_instance_order() -> spec_fn(CombatEffectInstance, CombatEffectInstance) -> int {
    |a: CombatEffectInstance, b: CombatEffectInstance| effect_instance_order_of(a, b)
}

fn compare_effect_instances(a: &CombatEffectInstance, b: &CombatEffectInstance) -> (r: i8)
    ensures
        r as int == effect_instance_order_of(*a, *b),
{
    let c = compare_str(a.definition_id.as_str(), b.definition_id.as_str());
    if c != 0 {
        return c;
    }
    let c = compare_str(a.source.as_str(), b.source.as_str());
    if c != 0 {
        return c;
    }
    let c = compare_str(a.target_selector.as_str(), b.target_selector.as_str());
    if c != 0 {
        return c;
    }
    let c = compare_i64(effect_phase_rank(a.phase) as i64, effect_phase_rank(b.phase) as i64);
    if c != 0 {
        return c;
    }
    let c = compare_lifetimes(a.lifetime, b.lifetime);
    if c != 0 {
        return c;
    }
    let c = compare_str(a.stacking_group.as_str(), b.stacking_group.as_str());
    if c != 0 {
        return c;
    }
    let c = compare_params(&a.parameters, &b.parameters);
    if c != 0 {
        return c;
    }
    if a.combat_only == b.combat_only {
        0
    } else if !a.combat_only {
        -1
    } else {
        1
    }
}

pub open spec fn formation_order_of(a: TeamFormationState, b: TeamFormationState) -> int {
    then_ord(
        str_ord(a.team_id@, b.team_id@),
        then_ord(str_ord(a.formation_id@, b.formation_id@), int_ord(a.cohesion as int, b.cohesion as int)),
    )
}

pub open spec fn formation_order() -> spec_fn(TeamFormationState, TeamFormationState) -> int {
    |a: TeamFormationState, b: TeamFormationState| formation_order_of(a, b)
}

fn compare_formations(a: &TeamFormationState, b: &TeamFormationState) -> (r: i8)
    ensures
        r as int == formation_order_of(*a, *b),
{
    let c = compare_str(a.team_id.as_str(), b.team_id.as_str());
    if c != 0 {
        return c;
    }
    let c = compare_str(a.formation_id.as_str(), b.formation_id.as_str());
    if c != 0 {
        return c;
    }
    compare_i64(a.cohesion as i64, b.cohesion as i64)
}

pub open spec fn relationship_order_of(a: RelationshipState, b: RelationshipState) -> int {
    then_ord(str_ord(a.id@, b.id@), int_ord(a.value as int, b.value as int))
}

pub open spec fn relationship_order() -> spec_fn(RelationshipState, RelationshipState) -> int {
    |a: RelationshipState, b: RelationshipState| relationship_order_of(a, b)
}

fn compare_relationships(a: &RelationshipState, b: &RelationshipState) -> (r: i8)
    ensures
        r as int == relationship_order_of(*a, *b),
{
    let c = compare_str(a.id.as_str(), b.id.as_str());
    if c != 0 {
        return c;
    }
    compare_i64(a.value as i64, b.value as i64)
}

pub open spec fn environment_order_of(a: EnvironmentState, b: EnvironmentState) -> int {
    then_ord(
        str_ord(a.id@, b.id@),
        then_ord(
            int_ord(a.distance as int, b.distance as int),
            then_ord(int_ord(a.pressure as int, b.pressure as int), int_ord(a.visibility as int, b.visibility as int)),
        ),
    )
}

pub open spec fn environment_order() -> spec_fn(EnvironmentState, EnvironmentState) -> int {
    |a: EnvironmentState, b: EnvironmentState| environment_order_of(a, b)
}

fn compare_environments(a: &EnvironmentState, b: &EnvironmentState) -> (r: i8)
    ensures
        r as int == environment_order_of(*a, *b),
{
    let c = compare_str(a.id.as_str(), b.id.as_str());
    if c != 0 {
        return c;
    }
    let c = compare_i64(a.distance as i64, b.distance as i64);
    if c != 0 {
        return c;
    }
    let c = compare_i64(a.pressure as i64, b.pressure as i64);
    if c != 0 {
        return c;
    }
    compare_i64(a.visibility as i64, b.visibility as i64)
}

pub open spec fn posture_name(x: Posture) -> Seq<char> {
    match x {
        Posture::Neutral => "neutral"@,
        Posture::Attack => "attack"@,
        Posture::Defense => "defense"@,
        Posture::Evasion => "evasion"@,
        Posture::Grappling => "grappling"@,
        Posture::Down => "down"@,
        Posture::Rising => "rising"@,
        Posture::Staggered => "staggered"@,
    }
}

pub open spec fn posture_json(x: Posture) -> Json {
    jstr(posture_name(x))
}

pub fn posture_str(x: Posture) -> (s: &'static str)
    ensures
        s@ == posture_name(x),
{
    match x {
        Posture::Neutral => "neutral",
        Posture::Attack => "attack",
        Posture::Defense => "defense",
        Posture::Evasion => "evasion",
        Posture::Grappling => "grappling",
        Posture::Down => "down",
        Posture::Rising => "rising",
        Posture::Staggered => "staggered",
    }
}

pub fn posture_json_to(x: Posture) -> (j: JsonValue)
    ensures
        json_view(j) == posture_json(x),
{
    str_json(posture_str(x))
}

pub open spec fn posture_index(x: Posture) -> int {
    match x {
        Posture::Neutral => 0,
        Posture::Attack => 1,
        Posture::Defense => 2,
        Posture::Evasion => 3,
        Posture::Grappling => 4,
        Posture::Down => 5,
        Posture::Rising => 6,
        Posture::Staggered => 7,
    }
}

pub fn posture_rank(x: Posture) -> (r: u8)
    ensures
        r as int == posture_index(x),
{
    match x {
        Posture::Neutral => 0,
        Posture::Attack => 1,
        Posture::Defense => 2,
        Posture::Evasion => 3,
        Posture::Grappling => 4,
        Posture::Down => 5,
        Posture::Rising => 6,
        Posture::Staggered => 7,
    }
}

pub open spec fn weapon_control_name(x: WeaponControl) -> Seq<char> {
    match x {
        WeaponControl::Stable => "stable"@,
        WeaponControl::Unstable => "unstable"@,
        WeaponControl::Held => "held"@,
        WeaponControl::Pinned => "pinned"@,
        WeaponControl::Dropped => "dropped"@,
        WeaponControl::Broken => "broken"@,
    }
}

pub open spec fn weapon_control_json(x: WeaponControl) -> Json {
    jstr(weapon_control_name(x))
}

pub fn weapon_control_str(x: WeaponControl) -> (s: &'static str)
    ensures
        s@ == weapon_control_name(x),
{
    match x {
        WeaponControl::Stable => "stable",
        WeaponControl::Unstable => "unstable",
        WeaponControl::Held => "held",
        WeaponControl::Pinned => "pinned",
        WeaponControl::Dropped => "dropped",
        WeaponControl::Broken => "broken",
    }
}

pub fn weapon_control_json_to(x: WeaponControl) -> (j: JsonValue)
    ensures
        json_view(j) == weapon_control_json(x),
{
    str_json(weapon_control_str(x))
}

pub open spec fn weapon_control_index(x: WeaponControl) -> int {
    match x {
        WeaponControl::Stable => 0,
        WeaponControl::Unstable => 1,
        WeaponControl::Held => 2,
        WeaponControl::Pinned => 3,
        WeaponControl::Dropped => 4,
        WeaponControl::Broken => 5,
    }
}

pub fn weapon_control_rank(x: WeaponControl) -> (r: u8)
    ensures
        r as int == weapon_control_index(x),
{
    match x {
        WeaponControl::Stable => 0,
        WeaponControl::Unstable => 1,
        WeaponControl::Held => 2,
        WeaponControl::Pinned => 3,
        WeaponControl::Dropped => 4,
        WeaponControl::Broken => 5,
    }
}

pub open spec fn effect_phase_name(x: EffectPhase) -> Seq<char> {
    match x {
        EffectPhase::BeforePlacement => "before_placement"@,
        EffectPhase::DuringPlacement => "during_placement"@,
        EffectPhase::AfterPlacementConfirmed => "after_placement_confirmed"@,
        EffectPhase::CombatStart => "combat_start"@,
        EffectPhase::DuringCombat => "during_combat"@,
        EffectPhase::CombatSettlement => "combat_settlement"@,
    }
}

pub open spec fn effect_phase_json(x: EffectPhase) -> Json {
    jstr(effect_phase_name(x))
}

pub fn effect_phase_str(x: EffectPhase) -> (s: &'static str)
    ensures
        s@ == effect_phase_name(x),
{
    match x {
        EffectPhase::BeforePlacement => "before_placement",
        EffectPhase::DuringPlacement => "during_placement",
        EffectPhase::AfterPlacementConfirmed => "after_placement_confirmed",
        EffectPhase::CombatStart => "combat_start",
        EffectPhase::DuringCombat => "during_combat",
        EffectPhase::CombatSettlement => "combat_settlement",
    }
}

pub fn effect_phase_json_to(x: EffectPhase) -> (j: JsonValue)
    ensures
        json_view(j) == effect_phase_json(x),
{
    str_json(effect_phase_str(x))
}

pub open spec fn effect_phase_index(x: EffectPhase) -> int {
    match x {
        EffectPhase::BeforePlacement => 0,
        EffectPhase::DuringPlacement => 1,
        EffectPhase::AfterPlacementConfirmed => 2,
        EffectPhase::CombatStart => 3,
        EffectPhase::DuringCombat => 4,
        EffectPhase::CombatSettlement => 5,
    }
}

pub fn effect_phase_rank(x: EffectPhase) -> (r: u8)
    ensures
        r as int == effect_phase_index(x),
{
    match x {
        EffectPhase::BeforePlacement => 0,
        EffectPhase::DuringPlacement => 1,
        EffectPhase::AfterPlacementConfirmed => 2,
        EffectPhase::CombatStart => 3,
        EffectPhase::DuringCombat => 4,
        EffectPhase::CombatSettlement => 5,
    }
}

pub open spec fn effect_stacking_name(x: EffectStacking) -> Seq<char> {
    match x {
        EffectStacking::Unique => "unique"@,
        EffectStacking::Strongest => "strongest"@,
        EffectStacking::AdditiveWithCap => "additive_with_cap"@,
        EffectStacking::StackCount => "stack_count"@,
        EffectStacking::DurationRefresh => "duration_refresh"@,
        EffectStacking::Independent => "independent"@,
        EffectStacking::Replace => "replace"@,
    }
}

pub open spec fn effect_stacking_json(x: EffectStacking) -> Json {
    jstr(effect_stacking_name(x))
}

pub fn effect_stacking_str(x: EffectStacking) -> (s: &'static str)
    ensures
        s@ == effect_stacking_name(x),
{
    match x {
        EffectStacking::Unique => "unique",
        EffectStacking::Strongest => "strongest",
        EffectStacking::AdditiveWithCap => "additive_with_cap",
        EffectStacking::StackCount => "stack_count",
        EffectStacking::DurationRefresh => "duration_refresh",
        EffectStacking::Independent => "independent",
        EffectStacking::Replace => "replace",
    }
}

pub fn effect_stacking_json_to(x: EffectStacking) -> (j: JsonValue)
    ensures
        json_view(j) == effect_stacking_json(x),
{
    str_json(effect_stacking_str(x))
}

pub open spec fn effect_stacking_index(x: EffectStacking) -> int {
    match x {
        EffectStacking::Unique => 0,
        EffectStacking::Strongest => 1,
        EffectStacking::AdditiveWithCap => 2,
        EffectStacking::StackCount => 3,
        EffectStacking::DurationRefresh => 4,
        EffectStacking::Independent => 5,
        EffectStacking::Replace => 6,
    }
}

pub fn effect_stacking_rank(x: EffectStacking) -> (r: u8)
    ensures
        r as int == effect_stacking_index(x),
{
    match x {
        EffectStacking::Unique => 0,
        EffectStacking::Strongest => 1,
        EffectStacking::AdditiveWithCap => 2,
        EffectStacking::StackCount => 3,
        EffectStacking::DurationRefresh => 4,
        EffectStacking::Independent => 5,
        EffectStacking::Replace => 6,
    }
}

pub open spec fn effect_visibility_name(x: EffectVisibility) -> Seq<char> {
    match x {
        EffectVisibility::Public => "public"@,
        EffectVisibility::Hidden => "hidden"@,
        EffectVisibility::Conditional => "conditional"@,
    }
}

pub open spec fn effect_visibility_json(x: EffectVisibility) -> Json {
    jstr(effect_visibility_name(x))
}

pub fn effect_visibility_str(x: EffectVisibility) -> (s: &'static str)
    ensures
        s@ == effect_visibility_name(x),
{
    match x {
        EffectVisibility::Public => "public",
        EffectVisibility::Hidden => "hidden",
        EffectVisibility::Conditional => "conditional",
    }
}

pub fn effect_visibility_json_to(x: EffectVisibility) -> (j: JsonValue)
    ensures
        json_view(j) == effect_visibility_json(x),
{
    str_json(effect_visibility_str(x))
}

pub open spec fn effect_visibility_index(x: EffectVisibility) -> int {
    match x {
        EffectVisibility::Public => 0,
        EffectVisibility::Hidden => 1,
        EffectVisibility::Conditional => 2,
    }
}

pub fn effect_visibility_rank(x: EffectVisibility) -> (r: u8)
    ensures
        r as int == effect_visibility_index(x),
{
    match x {
        EffectVisibility::Public => 0,
        EffectVisibility::Hidden => 1,
        EffectVisibility::Conditional => 2,
    }
}

pub open spec fn combat_effect_category_name(x: CombatEffectCategory) -> Seq<char> {
    match x {
        CombatEffectCategory::State => "state"@,
        CombatEffectCategory::Ai => "ai"@,
        CombatEffectCategory::Space => "space"@,
        CombatEffectCategory::Information => "information"@,
        CombatEffectCategory::ConditionalRule => "conditional_rule"@,
    }
}

pub open spec fn combat_effect_category_json(x: CombatEffectCategory) -> Json {
    jstr(combat_effect_category_name(x))
}

pub fn combat_effect_category_str(x: CombatEffectCategory) -> (s: &'static str)
    ensures
        s@ == combat_effect_category_name(x),
{
    match x {
        CombatEffectCategory::State => "state",
        CombatEffectCategory::Ai => "ai",
        CombatEffectCategory::Space => "space",
        CombatEffectCategory::Information => "information",
        CombatEffectCategory::ConditionalRule => "conditional_rule",
    }
}

pub fn combat_effect_category_json_to(x: CombatEffectCategory) -> (j: JsonValue)
    ensures
        json_view(j) == combat_effect_category_json(x),
{
    str_json(combat_effect_category_str(x))
}

pub open spec fn combat_effect_category_index(x: CombatEffectCategory) -> int {
    match x {
        CombatEffectCategory::State => 0,
        CombatEffectCategory::Ai => 1,
        CombatEffectCategory::Space => 2,
        CombatEffectCategory::Information => 3,
        CombatEffectCategory::ConditionalRule => 4,
    }
}

pub fn combat_effect_category_rank(x: CombatEffectCategory) -> (r: u8)
    ensures
        r as int == combat_effect_category_index(x),
{
    match x {
        CombatEffectCategory::State => 0,
        CombatEffectCategory::Ai => 1,
        CombatEffectCategory::Space => 2,
        CombatEffectCategory::Information => 3,
        CombatEffectCategory::ConditionalRule => 4,
    }
}

pub open spec fn combatant_canonical_json(x: CombatantState) -> Json {
    let f = Seq::<(Seq<u8>, Json)>::empty();
    let f = f.push((encode_utf8("id"@), jstr(x.id@)));
    let f = f.push((encode_utf8("current_health"@), Json::Num(x.current_health as int)));
    let f = f.push((encode_utf8("maximum_health"@), Json::Num(x.maximum_health as int)));
    let f = f.push((encode_utf8("current_breath"@), Json::Num(x.current_breath as int)));
    let f = f.push((encode_utf8("maximum_breath"@), Json::Num(x.maximum_breath as int)));
    let f = f.push((encode_utf8("balance"@), Json::Num(x.balance as int)));
    let f = f.push((encode_utf8("maximum_balance"@), Json::Num(x.maximum_balance as int)));
    let f = f.push((encode_utf8("fear"@), Json::Num(x.fear as int)));
    let f = f.push((encode_utf8("anger"@), Json::Num(x.anger as int)));
    let f = f.push((encode_utf8("posture"@), posture_json(x.posture)));
    let f = f.push((encode_utf8("weapon_control"@), weapon_control_json(x.weapon_control)));
    let f = f.push((encode_utf8("relationship_refs"@), Json::Arr(sort_seq(x.relationship_refs@, str_order()).map_values(str_elem_json_fn()))));
    let f = f.push((encode_utf8("environment_refs"@), Json::Arr(sort_seq(x.environment_refs@, str_order()).map_values(str_elem_json_fn()))));
    let f = f.push((encode_utf8("team_refs"@), Json::Arr(sort_seq(x.team_refs@, str_order()).map_values(str_elem_json_fn()))));
    let f = f.push((encode_utf8("persistent_status_ids"@), Json::Arr(sort_seq(x.persistent_status_ids@, str_order()).map_values(str_elem_json_fn()))));
    let f = f.push((encode_utf8("combat_effect_ids"@), Json::Arr(sort_seq(x.combat_effect_ids@, str_order()).map_values(str_elem_json_fn()))));
    Json::Obj(f)
}

pub open spec fn combatant_canonical_json_fn() -> spec_fn(CombatantState) -> Json {
    |x: CombatantState| combatant_canonical_json(x)
}

pub fn combatant_canonical_json_to(x: &CombatantState) -> (j: JsonValue)
    ensures
        json_view(j) == combatant_canonical_json(*x),
{
    let mut f: Vec<(String, JsonValue)> = Vec::new();
    push_field(&mut f, "id", str_json(x.id.as_str()));
    push_field(&mut f, "current_health", JsonValue::Int(x.current_health as i64));
    push_field(&mut f, "maximum_health", JsonValue::Int(x.maximum_health as i64));
    push_field(&mut f, "current_breath", JsonValue::Int(x.current_breath as i64));
    push_field(&mut f, "maximum_breath", JsonValue::Int(x.maximum_breath as i64));
    push_field(&mut f, "balance", JsonValue::Int(x.balance as i64));
    push_field(&mut f, "maximum_balance", JsonValue::Int(x.maximum_balance as i64));
    push_field(&mut f, "fear", JsonValue::Int(x.fear as i64));
    push_field(&mut f, "anger", JsonValue::Int(x.anger as i64));
    push_field(&mut f, "posture", posture_json_to(x.posture));
    push_field(&mut f, "weapon_control", weapon_control_json_to(x.weapon_control));
    push_field(&mut f, "relationship_refs", sorted_strs_to_json(&x.relationship_refs));
    push_field(&mut f, "environment_refs", sorted_strs_to_json(&x.environment_refs));
    push_field(&mut f, "team_refs", sorted_strs_to_json(&x.team_refs));
    push_field(&mut f, "persistent_status_ids", sorted_strs_to_json(&x.persistent_status_ids));
    push_field(&mut f, "combat_effect_ids", sorted_strs_to_json(&x.combat_effect_ids));
    JsonValue::Obj(f)
}

pub open spec fn status_json(x: PersistentCombatStatus) -> Json {
    let f = Seq::<(Seq<u8>, Json)>::empty();
    let f = f.push((encode_utf8("id"@), jstr(x.id@)));
    let f = f.push((encode_utf8("source"@), jstr(x.source@)));
    Json::Obj(f)
}

pub open spec fn status_json_fn() -> spec_fn(PersistentCombatStatus) -> Json {
    |x: PersistentCombatStatus| status_json(x)
}

pub fn status_json_to(x: &PersistentCombatStatus) -> (j: JsonValue)
    ensures
        json_view(j) == status_json(*x),
{
    let mut f: Vec<(String, JsonValue)> = Vec::new();
    push_field(&mut f, "id", str_json(x.id.as_str()));
    push_field(&mut f, "source", str_json(x.source.as_str()));
    JsonValue::Obj(f)
}

pub open spec fn effect_instance_json(x: CombatEffectInstance) -> Json {
    let f = Seq::<(Seq<u8>, Json)>::empty();
    let f = f.push((encode_utf8("definition_id"@), jstr(x.definition_id@)));
    let f = f.push((encode_utf8("source"@), jstr(x.source@)));
    let f = f.push((encode_utf8("combat_only"@), Json::Bool(x.combat_only)));
    let f = f.push((encode_utf8("target_selector"@), jstr(x.target_selector@)));
    let f = f.push((encode_utf8("parameters"@), params_json(x.parameters@)));
    let f = f.push((encode_utf8("phase"@), effect_phase_json(x.phase)));
    let f = f.push((encode_utf8("lifetime"@), effect_lifetime_json(x.lifetime)));
    let f = f.push((encode_utf8("stacking_group"@), jstr(x.stacking_group@)));
    Json::Obj(f)
}

pub open spec fn effect_instance_json_fn() -> spec_fn(CombatEffectInstance) -> Json {
    |x: CombatEffectInstance| effect_instance_json(x)
}

pub fn effect_instance_json_to(x: &CombatEffectInstance) -> (j: JsonValue)
    ensures
        json_view(j) == effect_instance_json(*x),
{
    let mut f: Vec<(String, JsonValue)> = Vec::new();
    push_field(&mut f, "definition_id", str_json(x.definition_id.as_str()));
    push_field(&mut f, "source", str_json(x.source.as_str()));
    push_field(&mut f, "combat_only", JsonValue::Bool(x.combat_only));
    push_field(&mut f, "target_selector", str_json(x.target_selector.as_str()));
    push_field(&mut f, "parameters", params_to_json(&x.parameters));
    push_field(&mut f, "phase", effect_phase_json_to(x.phase));
    push_field(&mut f, "lifetime", effect_lifetime_json_to(x.lifetime));
    push_field(&mut f, "stacking_group", str_json(x.stacking_group.as_str()));
    JsonValue::Obj(f)
}

pub open spec fn formation_json(x: TeamFormationState) -> Json {
    let f = Seq::<(Seq<u8>, Json)>::empty();
    let f = f.push((encode_utf8("team_id"@), jstr(x.team_id@)));
    let f = f.push((encode_utf8("formation_id"@), jstr(x.formation_id@)));
    let f = f.push((encode_utf8("cohesion"@), Json::Num(x.cohesion as int)));
    Json::Obj(f)
}

pub open spec fn formation_json_fn() -> spec_fn(TeamFormationState) -> Json {
    |x: TeamFormationState| formation_json(x)
}

pub fn formation_json_to(x: &TeamFormationState) -> (j: JsonValue)
    ensures
        json_view(j) == formation_json(*x),
{
    let mut f: Vec<(String, JsonValue)> = Vec::new();
    push_field(&mut f, "team_id", str_json(x.team_id.as_str()));
    push_field(&mut f, "formation_id", str_json(x.formation_id.as_str()));
    push_field(&mut f, "cohesion", JsonValue::Int(x.cohesion as i64));
    JsonValue::Obj(f)
}

pub open spec fn relationship_json(x: RelationshipState) -> Json {
    let f = Seq::<(Seq<u8>, Json)>::empty();
    let f = f.push((encode_utf8("id"@), jstr(x.id@)));
    let f = f.push((encode_utf8("value"@), Json::Num(x.value as int)));
    Json::Obj(f)
}

pub open spec fn relationship_json_fn() -> spec_fn(RelationshipState) -> Json {
    |x: RelationshipState| relationship_json(x)
}

pub fn relationship_json_to(x: &RelationshipState) -> (j: JsonValue)
    ensures
        json_view(j) == relationship_json(*x),
{
    let mut f: Vec<(String, JsonValue)> = Vec::new();
    push_field(&mut f, "id", str_json(x.id.as_str()));
    push_field(&mut f, "value", JsonValue::Int(x.value as i64));
    JsonValue::Obj(f)
}

pub open spec fn environment_json(x: EnvironmentState) -> Json {
    let f = Seq::<(Seq<u8>, Json)>::empty();
    let f = f.push((encode_utf8("id"@), jstr(x.id@)));
    let f = f.push((encode_utf8("distance"@), Json::Num(x.distance as int)));
    let f = f.push((encode_utf8("pressure"@), Json::Num(x.pressure as int)));
    let f = f.push((encode_utf8("visibility"@), Json::Num(x.visibility as int)));
    Json::Obj(f)
}

pub open spec fn environment_json_fn() -> spec_fn(EnvironmentState) -> Json {
    |x: EnvironmentState| environment_json(x)
}

pub fn environment_json_to(x: &EnvironmentState) -> (j: JsonValue)
    ensures
        json_view(j) == environment_json(*x),
{
    let mut f: Vec<(String, JsonValue)> = Vec::new();
    push_field(&mut f, "id", str_json(x.id.as_str()));
    push_field(&mut f, "distance", JsonValue::Int(x.distance as i64));
    push_field(&mut f, "pressure", JsonValue::Int(x.pressure as i64));
    push_field(&mut f, "visibility", JsonValue::Int(x.visibility as i64));
    JsonValue::Obj(f)
}

pub open spec fn state_canonical_json(x: CombatState) -> Json {
    let f = Seq::<(Seq<u8>, Json)>::empty();
    let f = f.push((encode_utf8("battle_id"@), jstr(x.battle_id@)));
    let f = f.push((encode_utf8("combatants"@), Json::Arr(sort_seq(x.combatants@, combatant_order()).map_values(combatant_canonical_json_fn()))));
    let f = f.push((encode_utf8("persistent_statuses"@), Json::Arr(sort_seq(x.persistent_statuses@, status_order()).map_values(status_json_fn()))));
    let f = f.push((encode_utf8("active_effects"@), Json::Arr(sort_seq(x.active_effects@, effect_instance_order()).map_values(effect_instance_json_fn()))));
    let f = f.push((encode_utf8("environment_refs"@), Json::Arr(sort_seq(x.environment_refs@, str_order()).map_values(str_elem_json_fn()))));
    let f = f.push((encode_utf8("team_refs"@), Json::Arr(sort_seq(x.team_refs@, str_order()).map_values(str_elem_json_fn()))));
    let f = f.push((encode_utf8("team_formations"@), Json::Arr(sort_seq(x.team_formations@, formation_order()).map_values(formation_json_fn()))));
    let f = f.push((encode_utf8("relationships"@), Json::Arr(sort_seq(x.relationships@, relationship_order()).map_values(relationship_json_fn()))));
    let f = f.push((encode_utf8("environment_states"@), Json::Arr(sort_seq(x.environment_states@, environment_order()).map_values(environment_json_fn()))));
    let f = f.push((encode_utf8("manifest_fingerprint"@), jstr(x.manifest_fingerprint@)));
    Json::Obj(f)
}

pub open spec fn state_canonical_json_fn() -> spec_fn(CombatState) -> Json {
    |x: CombatState| state_canonical_json(x)
}

pub fn state_canonical_json_to(x: &CombatState) -> (j: JsonValue)
    ensures
        json_view(j) == state_canonical_json(*x),
{
    let mut f: Vec<(String, JsonValue)> = Vec::new();
    push_field(&mut f, "battle_id", str_json(x.battle_id.as_str()));
    let by_order = |a: &CombatantState, b: &CombatantState| -> (r: i8)
        ensures
            r as int == combatant_order_of(*a, *b),
        { compare_combatants(a, b) };
    let conv = |e: &CombatantState| -> (r: JsonValue)
        ensures
            json_view(r) == combatant_canonical_json(*e),
        { combatant_canonical_json_to(e) };
    let j_combatants = json_array_sorted(&x.combatants, by_order, Ghost(combatant_order()), conv, Ghost(combatant_canonical_json_fn()));
    push_field(&mut f, "combatants", j_combatants);
    let by_order = |a: &PersistentCombatStatus, b: &PersistentCombatStatus| -> (r: i8)
        ensures
            r as int == status_order_of(*a, *b),
        { compare_statuses(a, b) };
    let conv = |e: &PersistentCombatStatus| -> (r: JsonValue)
        ensures
            json_view(r) == status_json(*e),
        { status_json_to(e) };
    let j_persistent_statuses = json_array_sorted(&x.persistent_statuses, by_order, Ghost(status_order()), conv, Ghost(status_json_fn()));
    push_field(&mut f, "persistent_statuses", j_persistent_statuses);
    let by_order = |a: &CombatEffectInstance, b: &CombatEffectInstance| -> (r: i8)
        ensures
            r as int == effect_instance_order_of(*a, *b),
        { compare_effect_instances(a, b) };
    let conv = |e: &CombatEffectInstance| -> (r: JsonValue)
        ensures
            json_view(r) == effect_instance_json(*e),
        { effect_instance_json_to(e) };
    let j_active_effects = json_array_sorted(&x.active_effects, by_order, Ghost(effect_instance_order()), conv, Ghost(effect_instance_json_fn()));
    push_field(&mut f, "active_effects", j_active_effects);
    push_field(&mut f, "environment_refs", sorted_strs_to_json(&x.environment_refs));
    push_field(&mut f, "team_refs", sorted_strs_to_json(&x.team_refs));
    let by_order = |a: &TeamFormationState, b: &TeamFormationState| -> (r: i8)
        ensures
            r as int == formation_order_of(*a, *b),
        { compare_formations(a, b) };
    let conv = |e: &TeamFormationState| -> (r: JsonValue)
        ensures
            json_view(r) == formation_json(*e),
        { formation_json_to(e) };
    let j_team_formations = json_array_sorted(&x.team_formations, by_order, Ghost(formation_order()), conv, Ghost(formation_json_fn()));
    push_field(&mut f, "team_formations", j_team_formations);
    let by_order = |a: &RelationshipState, b: &RelationshipState| -> (r: i8)
        ensures
            r as int == relationship_order_of(*a, *b),
        { compare_relationships(a, b) };
    let conv = |e: &RelationshipState| -> (r: JsonValue)
        ensures
            json_view(r) == relationship_json(*e),
        { relationship_json_to(e) };
    let j_relationships = json_array_sorted(&x.relationships, by_order, Ghost(relationship_order()), conv, Ghost(relationship_json_fn()));
    push_field(&mut f, "relationships", j_relationships);
    let by_order = |a: &EnvironmentState, b: &EnvironmentState| -> (r: i8)
        ensures
            r as int == environment_order_of(*a, *b),
        { compare_environments(a, b) };
    let conv = |e: &EnvironmentState| -> (r: JsonValue)
        ensures
            json_view(r) == environment_json(*e),
        { environment_json_to(e) };
    let j_environment_states = json_array_sorted(&x.environment_states, by_order, Ghost(environment_order()), conv, Ghost(environment_json_fn()));
    push_field(&mut f, "environment_states", j_environment_states);
    push_field(&mut f, "manifest_fingerprint", str_json(x.manifest_fingerprint.as_str()));
    JsonValue::Obj(f)
}


/// The state's fingerprint: sixteen hex digits of FNV-1a over its canonical JSON.
pub open spec fn state_fingerprint(s: CombatState) -> Seq<char> {
    fingerprint_of(enc(state_canonical_json(s)))
}

impl CombatState {
    /// The canonical JSON text of a valid state.
    pub fn canonical_json(&self) -> (r: Result<String, CombatStateError>)
        ensures
            state_check(*self) is Err ==> r == Err::<String, CombatStateError>(state_check(*self)->Err_0),
            r matches Ok(t) ==> encode_utf8(t@) == enc(state_canonical_json(*self)),
            state_check(*self) is Ok && vstd::utf8::valid_utf8(enc(state_canonical_json(*self))) ==> r is Ok,
    {
        let bytes = self.canonical_json_bytes()?;
        match crate::json::text_from_utf8(bytes) {
            Some(t) => Ok(t),
            None => Err(CombatStateError::Serialization("invalid UTF-8".to_string())),
        }
    }
}

impl CombatState {
    /// The canonical JSON text of a valid state: every list sorted, maps by key.
    pub fn canonical_json_bytes(&self) -> (r: Result<Vec<u8>, CombatStateError>)
        ensures
            state_check(*self) is Err ==> r == Err::<Vec<u8>, CombatStateError>(state_check(*self)->Err_0),
            state_check(*self) is Ok ==> r is Ok && r->Ok_0@ == enc(state_canonical_json(*self)),
    {
        self.validate()?;
        let j = state_canonical_json_to(self);
        Ok(to_bytes(&j))
    }

    pub fn fingerprint(&self) -> (r: Result<String, CombatStateError>)
        ensures
            state_check(*self) is Err ==> r == Err::<String, CombatStateError>(state_check(*self)->Err_0),
            state_check(*self) is Ok ==> r is Ok && r->Ok_0@ == state_fingerprint(*self),
    {
        let bytes = self.canonical_json_bytes()?;
        Ok(fingerprint_bytes(bytes.as_slice()))
    }
}

#[derive(Clone, Debug, PartialEq, Eq)]
pub struct CombatEffectDefinition {
    pub id: String,
    pub source: String,
    pub category: CombatEffectCategory,
    pub target_selector: String,
    pub parameters: Vec<(String, i64)>,
    pub conditions: Vec<String>,
    pub phase: EffectPhase,
    pub lifetime: EffectLifetime,
    pub stacking: EffectStacking,
    pub stacking_group: String,
    pub stacking_cap: Option<u32>,
    pub priority: i32,
    pub visibility: EffectVisibility,
    pub tags: Vec<String>,
}

#[derive(Clone, Debug, PartialEq, Eq)]
pub struct CombatEffectCatalog {
    pub effects: Vec<CombatEffectDefinition>,
}

pub open spec fn repeats_earlier_effect_id(es: Seq<CombatEffectDefinition>, i: int) -> bool {
    exists|k: int| 0 <= k < i && #[trigger] es[k].id@ == es[i].id@
}

pub open spec fn zero_count_lifetime(l: EffectLifetime) -> bool {
    l == EffectLifetime::Seconds(0) || l == EffectLifetime::Uses(0)
}

/// The error the definition at `i` gives, in the order the checks run.
pub open spec fn definition_error(es: Seq<CombatEffectDefinition>, i: int) -> Option<CombatStateError> {
    let e = es[i];
    if blank(e.id@) || blank(e.source@) || blank(e.target_selector@) {
        Some(CombatStateError::EmptyId)
    } else if repeats_earlier_effect_id(es, i) {
        Some(CombatStateError::DuplicateId(e.id))
    } else if !ids_present(e.conditions@) || !ids_present(e.tags@) {
        Some(CombatStateError::EmptyId)
    } else if zero_count_lifetime(e.lifetime) {
        Some(CombatStateError::InvalidLifetime(e.id))
    } else if blank(e.stacking_group@) {
        Some(CombatStateError::EmptyId)
    } else if e.stacking == EffectStacking::AdditiveWithCap && (e.stacking_cap is None
        || e.stacking_cap == Some(0u32)) {
        Some(CombatStateError::InvalidStacking(e.id))
    } else {
        None
    }
}

pub open spec fn definitions_check(es: Seq<CombatEffectDefinition>) -> spec_fn(int) -> Option<
    CombatStateError,
> {
    |i: int| definition_error(es, i)
}

/// What `CombatEffectCatalog::validate` answers.
pub open spec fn catalog_check(c: CombatEffectCatalog) -> Result<(), CombatStateError> {
    match first_err(c.effects@.len(), definitions_check(c.effects@)) {
        Some(e) => Err(e),
        None => Ok(()),
    }
}

fn definition_error_at(es: &Vec<CombatEffectDefinition>, i: usize) -> (r: Option<CombatStateError>)
    requires
        i < es@.len(),
    ensures
        r == definition_error(es@, i as int),
{
    let e = &es[i];
    if is_blank(e.id.as_str()) || is_blank(e.source.as_str()) || is_blank(e.target_selector.as_str()) {
        return Some(CombatStateError::EmptyId);
    }
    let mut k: usize = 0;
    while k < i
        invariant
            i < es@.len(),
            k <= i,
            *e == es@[i as int],
            !(blank(e.id@) || blank(e.source@) || blank(e.target_selector@)),
            forall|j: int| 0 <= j < k ==> #[trigger] es@[j].id@ != es@[i as int].id@,
        decreases i - k,
    {
        if es[k].id == e.id {
            return Some(CombatStateError::DuplicateId(e.id.clone()));
        }
        k += 1;
    }
    if ensure_all_ids(&e.conditions).is_err() || ensure_all_ids(&e.tags).is_err() {
        return Some(CombatStateError::EmptyId);
    }
    match e.lifetime {
        EffectLifetime::Seconds(count) | EffectLifetime::Uses(count) => {
            if count == 0 {
                return Some(CombatStateError::InvalidLifetime(e.id.clone()));
            }
        },
        _ => {},
    }
    if is_blank(e.stacking_group.as_str()) {
        return Some(CombatStateError::EmptyId);
    }
    let cap = match e.stacking_cap {
        Some(c) => c,
        None => 0,
    };
    if e.stacking == EffectStacking::AdditiveWithCap && cap == 0 {
        return Some(CombatStateError::InvalidStacking(e.id.clone()));
    }
    None
}

/// Definitions by phase, then priority, then id.
pub open spec fn definition_order_of(a: CombatEffectDefinition, b: CombatEffectDefinition) -> int {
    then_ord(
        int_ord(effect_phase_index(a.phase), effect_phase_index(b.phase)),
        then_ord(int_ord(a.priority as int, b.priority as int), str_ord(a.id@, b.id@)),
    )
}

pub open spec fn definition_order() -> spec_fn(CombatEffectDefinition, CombatEffectDefinition) -> int {
    |a: CombatEffectDefinition, b: CombatEffectDefinition| definition_order_of(a, b)
}

fn compare_definitions(a: &CombatEffectDefinition, b: &CombatEffectDefinition) -> (r: i8)
    ensures
        r as int == definition_order_of(*a, *b),
{
    let c = compare_i64(effect_phase_rank(a.phase) as i64, effect_phase_rank(b.phase) as i64);
    if c != 0 {
        return c;
    }
    let c = compare_i64(a.priority as i64, b.priority as i64);
    if c != 0 {
        return c;
    }
    compare_str(a.id.as_str(), b.id.as_str())
}

/// `a` is `b` with its conditions and tags sorted.
pub open spec fn normalized_definition(a: CombatEffectDefinition, b: CombatEffectDefinition) -> bool {
    &&& a.id == b.id
    &&& a.source == b.source
    &&& a.category == b.category
    &&& a.target_selector == b.target_selector
    &&& a.parameters@ == b.parameters@
    &&& a.conditions@ == sort_seq(b.conditions@, str_order())
    &&& a.phase == b.phase
    &&& a.lifetime == b.lifetime
    &&& a.stacking == b.stacking
    &&& a.stacking_group == b.stacking_group
    &&& a.stacking_cap == b.stacking_cap
    &&& a.priority == b.priority
    &&& a.visibility == b.visibility
    &&& a.tags@ == sort_seq(b.tags@, str_order())
}

fn sorted_copy(v: &Vec<String>) -> (r: Vec<String>)
    ensures
        r@ == sort_seq(v@, str_order()),
{
    let c = v.clone();
    assert(c@ =~= v@);
    let by_order = |a: &String, b: &String| -> (r: i8)
        ensures
            r as int == str_order()(*a, *b),
        { compare_str(a.as_str(), b.as_str()) };
    sort_by_order(c, by_order, Ghost(str_order()))
}

fn normalize_definition(e: &CombatEffectDefinition) -> (r: CombatEffectDefinition)
    ensures
        normalized_definition(r, *e),
{
    CombatEffectDefinition {
        id: e.id.clone(),
        source: e.source.clone(),
        category: e.category,
        target_selector: e.target_selector.clone(),
        parameters: clone_parameters(&e.parameters),
        conditions: sorted_copy(&e.conditions),
        phase: e.phase,
        lifetime: e.lifetime,
        stacking: e.stacking,
        stacking_group: e.stacking_group.clone(),
        stacking_cap: e.stacking_cap,
        priority: e.priority,
        visibility: e.visibility,
        tags: sorted_copy(&e.tags),
    }
}

/// The catalogue in canonical order, each definition normalized.
pub open spec fn canonical_definitions(c: CombatEffectCatalog) -> Seq<CombatEffectDefinition> {
    sort_seq(c.effects@, definition_order())
}

impl CombatEffectCatalog {
    /// Checks every definition; the first broken rule is reported.
    pub fn validate(&self) -> (r: Result<(), CombatStateError>)
        ensures
            r == catalog_check(*self),
    {
        let es = &self.effects;
        let check = |i: usize| -> (r: Option<CombatStateError>)
            requires
                i < es@.len(),
            ensures
                r == definition_error(es@, i as int),
            { definition_error_at(es, i) };
        match first_error_at(es.len(), check, Ghost(definitions_check(es@))) {
            Some(e) => Err(e),
            None => Ok(()),
        }
    }

    /// The valid catalogue in canonical order (phase, priority, id), each
    /// definition with its conditions and tags sorted.
    pub fn canonical(&self) -> (r: Result<Vec<CombatEffectDefinition>, CombatStateError>)
        ensures
            catalog_check(*self) is Err ==> r == Err::<Vec<CombatEffectDefinition>, CombatStateError>(
                catalog_check(*self)->Err_0,
            ),
            catalog_check(*self) is Ok ==> r is Ok,
            r matches Ok(v) ==> {
                &&& v@.len() == self.effects@.len()
                &&& forall|k: int|
                    0 <= k < v@.len() ==> normalized_definition(
                        #[trigger] v@[k],
                        canonical_definitions(*self)[k],
                    )
            },
    {
        self.validate()?;
        let by_order = |a: &CombatEffectDefinition, b: &CombatEffectDefinition| -> (r: i8)
            ensures
                r as int == definition_order_of(*a, *b),
            { compare_definitions(a, b) };
        let idx = sorted_indices(&self.effects, by_order, Ghost(definition_order()));
        let ghost sorted = idx@.map_values(|i: usize| self.effects@[i as int]);
        let mut out: Vec<CombatEffectDefinition> = Vec::new();
        let n = idx.len();
        let mut k: usize = 0;
        while k < n
            invariant
                n == idx@.len(),
                n == self.effects@.len(),
                k <= n,
                sorted == idx@.map_values(|i: usize| self.effects@[i as int]),
                forall|m: int| 0 <= m < idx@.len() ==> #[trigger] idx@[m] < self.effects@.len(),
                out@.len() == k,
                forall|m: int| 0 <= m < k ==> normalized_definition(#[trigger] out@[m], sorted[m]),
            decreases n - k,
        {
            assert(idx@[k as int] < self.effects@.len());
            let d = normalize_definition(&self.effects[idx[k]]);
            assert(sorted[k as int] == self.effects@[idx@[k as int] as int]);
            out.push(d);
            k += 1;
        }
        Ok(out)
    }
}
pub open spec fn effect_definition_json(x: CombatEffectDefinition) -> Json {
    let f = Seq::<(Seq<u8>, Json)>::empty();
    let f = f.push((encode_utf8("id"@), jstr(x.id@)));
    let f = f.push((encode_utf8("source"@), jstr(x.source@)));
    let f = f.push((encode_utf8("category"@), combat_effect_category_json(x.category)));
    let f = f.push((encode_utf8("target_selector"@), jstr(x.target_selector@)));
    let f = f.push((encode_utf8("parameters"@), params_json(x.parameters@)));
    let f = f.push((encode_utf8("conditions"@), strs_json(x.conditions@)));
    let f = f.push((encode_utf8("phase"@), effect_phase_json(x.phase)));
    let f = f.push((encode_utf8("lifetime"@), effect_lifetime_json(x.lifetime)));
    let f = f.push((encode_utf8("stacking"@), effect_stacking_json(x.stacking)));
    let f = f.push((encode_utf8("stacking_group"@), jstr(x.stacking_group@)));
    let f = f.push((encode_utf8("stacking_cap"@), match x.stacking_cap { Some(v) => Json::Num(v as int), None => Json::Null }));
    let f = f.push((encode_utf8("priority"@), Json::Num(x.priority as int)));
    let f = f.push((encode_utf8("visibility"@), effect_visibility_json(x.visibility)));
    let f = f.push((encode_utf8("tags"@), strs_json(x.tags@)));
    Json::Obj(f)
}

pub open spec fn effect_definition_json_fn() -> spec_fn(CombatEffectDefinition) -> Json {
    |x: CombatEffectDefinition| effect_definition_json(x)
}

pub fn effect_definition_json_to(x: &CombatEffectDefinition) -> (j: JsonValue)
    ensures
        json_view(j) == effect_definition_json(*x),
{
    let mut f: Vec<(String, JsonValue)> = Vec::new();
    push_field(&mut f, "id", str_json(x.id.as_str()));
    push_field(&mut f, "source", str_json(x.source.as_str()));
    push_field(&mut f, "category", combat_effect_category_json_to(x.category));
    push_field(&mut f, "target_selector", str_json(x.target_selector.as_str()));
    push_field(&mut f, "parameters", params_to_json(&x.parameters));
    push_field(&mut f, "conditions", strs_to_json(&x.conditions));
    push_field(&mut f, "phase", effect_phase_json_to(x.phase));
    push_field(&mut f, "lifetime", effect_lifetime_json_to(x.lifetime));
    push_field(&mut f, "stacking", effect_stacking_json_to(x.stacking));
    push_field(&mut f, "stacking_group", str_json(x.stacking_group.as_str()));
    push_field(&mut f, "stacking_cap", match x.stacking_cap { Some(v) => JsonValue::UInt(v as u64), None => JsonValue::Null });
    push_field(&mut f, "priority", JsonValue::Int(x.priority as i64));
    push_field(&mut f, "visibility", effect_visibility_json_to(x.visibility));
    push_field(&mut f, "tags", strs_to_json(&x.tags));
    JsonValue::Obj(f)
}


#[derive(Clone, Debug, PartialEq, Eq)]
pub struct CombatPreCombatInput {
    pub manifest: CombatManifest,
    pub battle_id: String,
    pub combatants: Vec<CombatantState>,
    pub persistent_statuses: Vec<PersistentCombatStatus>,
    pub candidate_effect_ids: Vec<String>,
    pub active_condition_ids: Vec<String>,
    pub environment_refs: Vec<String>,
    pub team_refs: Vec<String>,
    pub team_formations: Vec<TeamFormationState>,
    pub relationships: Vec<RelationshipState>,
    pub environment_states: Vec<EnvironmentState>,
}

#[derive(Debug, PartialEq, Eq)]
pub struct CombatEffectDecision {
    pub id: String,
    pub reason: String,
}

impl Clone for CombatEffectDecision {
    fn clone(&self) -> (r: Self)
        ensures
            r == *self,
    {
        CombatEffectDecision { id: self.id.clone(), reason: self.reason.clone() }
    }
}

#[derive(Clone, Debug, PartialEq, Eq)]
pub struct CombatInitialStateProjection {
    pub state: CombatState,
    pub applied_effects: Vec<CombatEffectDecision>,
    pub suppressed_effects: Vec<CombatEffectDecision>,
    pub manifest: CombatManifest,
    pub final_state_fingerprint: String,
}

/// Whether some string in `s` holds the characters `x`.
pub open spec fn holds_str(s: Seq<String>, x: Seq<char>) -> bool {
    exists|i: int| 0 <= i < s.len() && #[trigger] s[i]@ == x
}

/// Whether `x` is among the strings of `s`.
pub fn contains_str(s: &Vec<String>, x: &str) -> (r: bool)
    ensures
        r == holds_str(s@, x@),
{
    let n = s.len();
    let mut i: usize = 0;
    while i < n
        invariant
            n == s@.len(),
            i <= n,
            forall|k: int| 0 <= k < i ==> #[trigger] s@[k]@ != x@,
        decreases n - i,
    {
        if str_eq(s[i].as_str(), x) {
            return true;
        }
        i += 1;
    }
    false
}

/// Whether a definition is a candidate whose conditions all hold.
pub open spec fn eligible(d: CombatEffectDefinition, input: CombatPreCombatInput) -> bool {
    holds_str(input.candidate_effect_ids@, d.id@) && forall|i: int|
        0 <= i < d.conditions@.len() ==> holds_str(
            input.active_condition_ids@,
            #[trigger] d.conditions@[i]@,
        )
}

/// Stacking rules under which one effect per group wins.
pub open spec fn exclusive(d: CombatEffectDefinition) -> bool {
    d.stacking == EffectStacking::Unique || d.stacking == EffectStacking::Replace
}

/// The first definition before `k` that wins stacking group `g`.
pub open spec fn group_winner(
    defs: Seq<CombatEffectDefinition>,
    k: int,
    g: Seq<char>,
    input: CombatPreCombatInput,
) -> Option<int>
    decreases k,
{
    if k <= 0 {
        None
    } else {
        match group_winner(defs, k - 1, g, input) {
            Some(j) => Some(j),
            None => if eligible(defs[k - 1], input) && exclusive(defs[k - 1])
                && defs[k - 1].stacking_group@ == g {
                Some(k - 1)
            } else {
                None
            },
        }
    }
}

/// Why the definition at `k` (in canonical order) is applied or suppressed.
pub open spec fn decision_reason(
    defs: Seq<CombatEffectDefinition>,
    k: int,
    input: CombatPreCombatInput,
) -> Seq<char> {
    let d = defs[k];
    if !holds_str(input.candidate_effect_ids@, d.id@) {
        "not_candidate"@
    } else if !eligible(d, input) {
        "condition_not_met"@
    } else if exclusive(d) && group_winner(defs, k, d.stacking_group@, input) is Some {
        "stacking_conflict:"@ + defs[group_winner(defs, k, d.stacking_group@, input)->0].id@
    } else {
        "applied"@
    }
}

/// The applied decisions among the first `n` definitions, as (id, reason).
pub open spec fn applied_decisions(
    defs: Seq<CombatEffectDefinition>,
    n: int,
    input: CombatPreCombatInput,
) -> Seq<(Seq<char>, Seq<char>)>
    decreases n,
{
    if n <= 0 {
        Seq::empty()
    } else if decision_reason(defs, n - 1, input) == "applied"@ {
        applied_decisions(defs, n - 1, input).push((defs[n - 1].id@, "applied"@))
    } else {
        applied_decisions(defs, n - 1, input)
    }
}

/// The suppressed decisions among the first `n` definitions, as (id, reason).
pub open spec fn suppressed_decisions(
    defs: Seq<CombatEffectDefinition>,
    n: int,
    input: CombatPreCombatInput,
) -> Seq<(Seq<char>, Seq<char>)>
    decreases n,
{
    if n <= 0 {
        Seq::empty()
    } else if decision_reason(defs, n - 1, input) == "applied"@ {
        suppressed_decisions(defs, n - 1, input)
    } else {
        suppressed_decisions(defs, n - 1, input).push(
            (defs[n - 1].id@, decision_reason(defs, n - 1, input)),
        )
    }
}

pub open spec fn decision_pairs(s: Seq<CombatEffectDecision>) -> Seq<(Seq<char>, Seq<char>)> {
    s.map_values(|d: CombatEffectDecision| (d.id@, d.reason@))
}

/// The first candidate id, in input order, that names no catalogue effect.
pub open spec fn unknown_candidate(input: CombatPreCombatInput, catalog: CombatEffectCatalog) -> Option<
    String,
> {
    first_some(
        input.candidate_effect_ids@,
        |c: String|
            if exists|i: int| 0 <= i < catalog.effects@.len() && #[trigger] catalog.effects@[i].id@ == c@ {
                None
            } else {
                Some(c)
            },
    )
}

pub open spec fn unknown_candidate_check(catalog: CombatEffectCatalog) -> spec_fn(String) -> Option<String> {
    |c: String|
        if exists|i: int| 0 <= i < catalog.effects@.len() && #[trigger] catalog.effects@[i].id@ == c@ {
            None
        } else {
            Some(c)
        }
}

/// The checks of the projected state that depend on the input alone.
pub open spec fn input_state_check(input: CombatPreCombatInput) -> Result<(), CombatStateError> {
    if let Some(e) = first_err(input.combatants@.len(), combatants_check(input.combatants@)) {
        Err(e)
    } else if let Some(e) = first_some(input.team_formations@, formations_check()) {
        Err(e)
    } else if let Some(e) = first_some(input.relationships@, relationships_check()) {
        Err(e)
    } else if let Some(e) = first_some(input.environment_states@, environments_check()) {
        Err(e)
    } else if let Some(e) = first_some(input.persistent_statuses@, statuses_check()) {
        Err(e)
    } else {
        Ok(())
    }
}

/// What `project` refuses, in the order it checks.
pub open spec fn projection_check(input: CombatPreCombatInput, catalog: CombatEffectCatalog) -> Result<
    (),
    CombatStateError,
> {
    if manifest_check(input.manifest) is Err {
        Err(CombatStateError::Contract(manifest_check(input.manifest)->Err_0))
    } else if catalog_check(catalog) is Err {
        Err(catalog_check(catalog)->Err_0)
    } else if blank(input.battle_id@) {
        Err(CombatStateError::EmptyId)
    } else if first_some(input.candidate_effect_ids@, unknown_candidate_check(catalog)) is Some {
        Err(CombatStateError::UnknownEffect(first_some(input.candidate_effect_ids@, unknown_candidate_check(catalog))->0))
    } else {
        input_state_check(input)
    }
}

fn all_conditions_hold(d: &CombatEffectDefinition, input: &CombatPreCombatInput) -> (r: bool)
    ensures
        r == forall|i: int|
            0 <= i < d.conditions@.len() ==> holds_str(
                input.active_condition_ids@,
                #[trigger] d.conditions@[i]@,
            ),
{
    let n = d.conditions.len();
    let mut i: usize = 0;
    while i < n
        invariant
            n == d.conditions@.len(),
            i <= n,
            forall|k: int|
                0 <= k < i ==> holds_str(input.active_condition_ids@, #[trigger] d.conditions@[k]@),
        decreases n - i,
    {
        if !contains_str(&input.active_condition_ids, d.conditions[i].as_str()) {
            return false;
        }
        i += 1;
    }
    true
}

proof fn lemma_normalized_eligible(a: CombatEffectDefinition, b: CombatEffectDefinition, input: CombatPreCombatInput)
    requires
        normalized_definition(a, b),
    ensures
        eligible(a, input) == eligible(b, input),
        exclusive(a) == exclusive(b),
{
    let ca = a.conditions@;
    let cb = b.conditions@;
    crate::order::lemma_sort_seq_elems(cb, str_order());
    crate::order::lemma_sort_seq_permutation_elems(cb, str_order());
    if forall|i: int| 0 <= i < cb.len() ==> holds_str(input.active_condition_ids@, #[trigger] cb[i]@) {
        assert forall|i: int| 0 <= i < ca.len() implies holds_str(input.active_condition_ids@, #[trigger] ca[i]@) by {
            assert(cb.contains(ca[i]));
            let j = choose|j: int| 0 <= j < cb.len() && cb[j] == ca[i];
            assert(holds_str(input.active_condition_ids@, cb[j]@));
        }
    }
    if forall|i: int| 0 <= i < ca.len() ==> holds_str(input.active_condition_ids@, #[trigger] ca[i]@) {
        assert forall|i: int| 0 <= i < cb.len() implies holds_str(input.active_condition_ids@, #[trigger] cb[i]@) by {
            assert(ca.contains(cb[i]));
            let j = choose|j: int| 0 <= j < ca.len() && ca[j] == cb[i];
            assert(holds_str(input.active_condition_ids@, ca[j]@));
        }
    }
}

fn find_group(selected: &Vec<(String, String)>, g: &str) -> (r: Option<usize>)
    ensures
        r matches Some(m) ==> m < selected@.len() && selected@[m as int].0@ == g@,
        r is None ==> forall|m: int| 0 <= m < selected@.len() ==> #[trigger] selected@[m].0@ != g@,
{
    let n = selected.len();
    let mut i: usize = 0;
    while i < n
        invariant
            n == selected@.len(),
            i <= n,
            forall|m: int| 0 <= m < i ==> #[trigger] selected@[m].0@ != g@,
        decreases n - i,
    {
        if str_eq(selected[i].0.as_str(), g) {
            return Some(i);
        }
        i += 1;
    }
    None
}

fn has_effect_id(catalog: &CombatEffectCatalog, c: &String) -> (r: Option<String>)
    ensures
        r == unknown_candidate_check(*catalog)(*c),
{
    let n = catalog.effects.len();
    let mut i: usize = 0;
    while i < n
        invariant
            n == catalog.effects@.len(),
            i <= n,
            forall|k: int| 0 <= k < i ==> #[trigger] catalog.effects@[k].id@ != c@,
        decreases n - i,
    {
        if catalog.effects[i].id == *c {
            return None;
        }
        i += 1;
    }
    Some(c.clone())
}

fn decision(id: &String, reason: &str) -> (d: CombatEffectDecision)
    ensures
        d.id == *id,
        d.reason@ == reason@,
{
    CombatEffectDecision { id: id.clone(), reason: reason.to_owned() }
}

fn validate_input_parts(input: &CombatPreCombatInput) -> (r: Result<(), CombatStateError>)
    ensures
        r == input_state_check(*input),
{
    let cs = &input.combatants;
    let check_c = |i: usize| -> (r: Option<CombatStateError>)
        requires
            i < cs@.len(),
        ensures
            r == combatant_error(cs@, i as int),
        { combatant_error_at(cs, i) };
    if let Some(e) = first_error_at(cs.len(), check_c, Ghost(combatants_check(cs@))) {
        return Err(e);
    }
    let check_f = |f: &TeamFormationState| -> (r: Option<CombatStateError>)
        ensures
            r == formation_error(*f),
        { formation_error_of(f) };
    if let Some(e) = first_error_in(&input.team_formations, check_f, Ghost(formations_check())) {
        return Err(e);
    }
    let check_r = |x: &RelationshipState| -> (r: Option<CombatStateError>)
        ensures
            r == relationship_error(*x),
        { relationship_error_of(x) };
    if let Some(e) = first_error_in(&input.relationships, check_r, Ghost(relationships_check())) {
        return Err(e);
    }
    let check_e = |x: &EnvironmentState| -> (r: Option<CombatStateError>)
        ensures
            r == environment_error(*x),
        { environment_error_of(x) };
    if let Some(e) = first_error_in(&input.environment_states, check_e, Ghost(environments_check())) {
        return Err(e);
    }
    let check_s = |x: &PersistentCombatStatus| -> (r: Option<CombatStateError>)
        ensures
            r == status_error(*x),
        { status_error_of(x) };
    if let Some(e) = first_error_in(&input.persistent_statuses, check_s, Ghost(statuses_check())) {
        return Err(e);
    }
    Ok(())
}

/// The state, decisions, manifest and fingerprint produced by `project`.
pub open spec fn projection_facts(
    p: CombatInitialStateProjection,
    input: CombatPreCombatInput,
    catalog: CombatEffectCatalog,
) -> bool {
    let defs = canonical_definitions(catalog);
    let n = catalog.effects@.len() as int;
    &&& p.state.battle_id == input.battle_id
    &&& p.state.manifest_fingerprint@ == manifest_fingerprint(input.manifest)
    &&& decision_pairs(p.applied_effects@) == applied_decisions(defs, n, input)
    &&& decision_pairs(p.suppressed_effects@) == suppressed_decisions(defs, n, input)
    &&& p.state.active_effects@.len() == p.applied_effects@.len()
    &&& forall|k: int|
        0 <= k < p.applied_effects@.len() ==> (#[trigger] p.state.active_effects@[k]).definition_id
            == p.applied_effects@[k].id
    &&& p.manifest.applied_effects@.map_values(|e: CombatEffectRef| (e.id@, e.reason@))
        == decision_pairs(p.applied_effects@)
    &&& p.manifest.suppressed_effects@.map_values(|e: SuppressedCombatEffect| (e.id@, e.reason@))
        == decision_pairs(p.suppressed_effects@)
    &&& p.final_state_fingerprint@ == state_fingerprint(p.state)
    &&& p.state.combatants@.len() == input.combatants@.len()
    &&& forall|i: int| 0 <= i < input.combatants@.len() ==> same_combatant(#[trigger] p.state.combatants@[i], input.combatants@[i])
    &&& p.state.persistent_statuses@ == input.persistent_statuses@
    &&& p.state.team_formations@ == input.team_formations@
    &&& p.state.relationships@ == input.relationships@
    &&& p.state.environment_states@ == input.environment_states@
    &&& p.state.environment_refs@ == input.environment_refs@
    &&& p.state.team_refs@ == input.team_refs@
}

impl CombatInitialStateProjection {
    /// Builds a battle's initial state: every catalogue effect, in canonical
    /// order, is applied or suppressed (not a candidate, a condition not met,
    /// or a stacking conflict with the group's first winner); the manifest
    /// records the decisions and the roster.
    #[verifier::rlimit(50)]
    pub fn project(input: &CombatPreCombatInput, catalog: &CombatEffectCatalog) -> (r: Result<
        Self,
        CombatStateError,
    >)
        ensures
            projection_check(*input, *catalog) is Err ==> r == Err::<Self, CombatStateError>(
                projection_check(*input, *catalog)->Err_0,
            ),
            projection_check(*input, *catalog) is Ok ==> r is Ok,
            r matches Ok(p) ==> projection_facts(p, *input, *catalog),
    {
        match input.manifest.validate() {
            Ok(()) => {},
            Err(e) => {
                return Err(CombatStateError::Contract(e));
            },
        }
        catalog.validate()?;
        ensure_id(input.battle_id.as_str())?;
        let cat = catalog;
        let check_c = |c: &String| -> (r: Option<String>)
            ensures
                r == unknown_candidate_check(*cat)(*c),
            { has_effect_id(cat, c) };
        if let Some(c) = first_error_in(
            &input.candidate_effect_ids,
            check_c,
            Ghost(unknown_candidate_check(*catalog)),
        ) {
            return Err(CombatStateError::UnknownEffect(c));
        }
        validate_input_parts(input)?;
        let defs = catalog.canonical()?;
        let ghost cdefs = canonical_definitions(*catalog);
        let ghost inp = *input;
        let mut applied: Vec<CombatEffectDecision> = Vec::new();
        let mut suppressed: Vec<CombatEffectDecision> = Vec::new();
        let mut active: Vec<CombatEffectInstance> = Vec::new();
        let mut selected: Vec<(String, String)> = Vec::new();
        let n = defs.len();
        proof {
            crate::order::lemma_sort_seq_elems(catalog.effects@, definition_order());
        }
        let mut k: usize = 0;
        while k < n
            invariant
                n == defs@.len(),
                n == cdefs.len(),
                n == catalog.effects@.len(),
                cdefs == canonical_definitions(*catalog),
                inp == *input,
                catalog_check(*catalog) is Ok,
                forall|m: int| 0 <= m < n ==> normalized_definition(#[trigger] defs@[m], cdefs[m]),
                forall|m: int| 0 <= m < n ==> catalog.effects@.contains(#[trigger] cdefs[m]),
                k <= n,
                decision_pairs(applied@) == applied_decisions(cdefs, k as int, inp),
                decision_pairs(suppressed@) == suppressed_decisions(cdefs, k as int, inp),
                active@.len() == applied@.len(),
                forall|m: int|
                    0 <= m < applied@.len() ==> (#[trigger] active@[m]).definition_id == applied@[m].id,
                forall|m: int| 0 <= m < active@.len() ==> effect_instance_error(#[trigger] active@[m]) is None,
                forall|g: Seq<char>|
                    (exists|m: int| 0 <= m < selected@.len() && #[trigger] selected@[m].0@ == g)
                        <==> (#[trigger] group_winner(cdefs, k as int, g, inp)) is Some,
                forall|m: int|
                    0 <= m < selected@.len() ==> (group_winner(cdefs, k as int, (#[trigger] selected@[m]).0@, inp)
                        matches Some(j) && 0 <= j < k && cdefs[j].id@ == selected@[m].1@),
            decreases n - k,
        {
            let e = &defs[k];
            let ghost d = cdefs[k as int];
            proof {
                reveal_strlit("not_candidate");
                reveal_strlit("condition_not_met");
                reveal_strlit("applied");
                reveal_strlit("stacking_conflict:");
                lemma_normalized_eligible(defs@[k as int], d, inp);
                let i = choose|i: int| 0 <= i < n && catalog.effects@[i] == d;
                crate::order::lemma_first_err_none(n as nat, definitions_check(catalog.effects@), i);
                assert(definition_error(catalog.effects@, i) is None);
            }
            let ghost a_before = applied@;
            let ghost s_before = suppressed@;
            if !contains_str(&input.candidate_effect_ids, e.id.as_str()) {
                suppressed.push(decision(&e.id, "not_candidate"));
                proof {
                    assert(decision_reason(cdefs, k as int, inp) == "not_candidate"@);
                    assert(decision_pairs(suppressed@) =~= decision_pairs(s_before).push((d.id@, "not_candidate"@)));
                    assert(applied_decisions(cdefs, k + 1, inp) == applied_decisions(cdefs, k as int, inp));
                    assert(suppressed_decisions(cdefs, k + 1, inp) == suppressed_decisions(cdefs, k as int, inp).push((d.id@, "not_candidate"@)));
                    assert forall|g: Seq<char>| #[trigger] group_winner(cdefs, k + 1, g, inp) == group_winner(cdefs, k as int, g, inp) by {}
                }
            } else if !all_conditions_hold(e, input) {
                suppressed.push(decision(&e.id, "condition_not_met"));
                proof {
                    assert(decision_reason(cdefs, k as int, inp) == "condition_not_met"@);
                    assert(decision_pairs(suppressed@) =~= decision_pairs(s_before).push((d.id@, "condition_not_met"@)));
                    assert(applied_decisions(cdefs, k + 1, inp) == applied_decisions(cdefs, k as int, inp));
                    assert(suppressed_decisions(cdefs, k + 1, inp) == suppressed_decisions(cdefs, k as int, inp).push((d.id@, "condition_not_met"@)));
                    assert forall|g: Seq<char>| #[trigger] group_winner(cdefs, k + 1, g, inp) == group_winner(cdefs, k as int, g, inp) by {}
                }
            } else {
                let excl = e.stacking == EffectStacking::Unique || e.stacking == EffectStacking::Replace;
                let mut conflict = false;
                if excl {
                    match find_group(&selected, e.stacking_group.as_str()) {
                        Some(w) => {
                            let mut reason = "stacking_conflict:".to_owned();
                            reason.append(selected[w].1.as_str());
                            suppressed.push(CombatEffectDecision { id: e.id.clone(), reason });
                            conflict = true;
                            proof {
                                let j = group_winner(cdefs, k as int, d.stacking_group@, inp)->0;
                                assert(group_winner(cdefs, k as int, selected@[w as int].0@, inp) is Some);
                                assert(cdefs[j].id@ == selected@[w as int].1@);
                                assert(decision_reason(cdefs, k as int, inp) == "stacking_conflict:"@ + selected@[w as int].1@);
                                assert(decision_reason(cdefs, k as int, inp).len() > 7);
                                assert(decision_reason(cdefs, k as int, inp) != "applied"@);
                                assert(decision_pairs(suppressed@) =~= decision_pairs(s_before).push((d.id@, decision_reason(cdefs, k as int, inp))));
                                assert(applied_decisions(cdefs, k + 1, inp) == applied_decisions(cdefs, k as int, inp));
                                assert(suppressed_decisions(cdefs, k + 1, inp) == suppressed_decisions(cdefs, k as int, inp).push((d.id@, decision_reason(cdefs, k as int, inp))));
                                assert forall|g: Seq<char>| #[trigger] group_winner(cdefs, k + 1, g, inp) == group_winner(cdefs, k as int, g, inp) by {
                                    if g == d.stacking_group@ {
                                        assert(group_winner(cdefs, k as int, selected@[w as int].0@, inp) is Some);
                                    }
                                }
                            }
                        },
                        None => {
                            let ghost sel_before = selected@;
                            selected.push((e.stacking_group.clone(), e.id.clone()));
                            proof {
                                assert(group_winner(cdefs, k as int, d.stacking_group@, inp) is None) by {
                                    if group_winner(cdefs, k as int, d.stacking_group@, inp) is Some {
                                        let m = choose|m: int| 0 <= m < sel_before.len() && #[trigger] sel_before[m].0@ == d.stacking_group@;
                                    }
                                }
                                assert forall|g: Seq<char>|
                                    (exists|m: int| 0 <= m < selected@.len() && #[trigger] selected@[m].0@ == g)
                                        <==> (#[trigger] group_winner(cdefs, k + 1, g, inp)) is Some by {
                                    if g == d.stacking_group@ {
                                        assert(selected@[sel_before.len() as int].0@ == g);
                                    } else {
                                        if exists|m: int| 0 <= m < selected@.len() && #[trigger] selected@[m].0@ == g {
                                            let m = choose|m: int| 0 <= m < selected@.len() && #[trigger] selected@[m].0@ == g;
                                            assert(sel_before[m].0@ == g);
                                        }
                                        if group_winner(cdefs, k as int, g, inp) is Some {
                                            let m = choose|m: int| 0 <= m < sel_before.len() && #[trigger] sel_before[m].0@ == g;
                                            assert(selected@[m].0@ == g);
                                        }
                                    }
                                }
                                assert forall|m: int| 0 <= m < selected@.len() implies (group_winner(cdefs, k + 1, (#[trigger] selected@[m]).0@, inp)
                                    matches Some(j) && 0 <= j < k + 1 && cdefs[j].id@ == selected@[m].1@) by {
                                    if m < sel_before.len() {
                                        assert(selected@[m] == sel_before[m]);
                                        assert(group_winner(cdefs, k as int, sel_before[m].0@, inp) is Some);
                                    }
                                }
                            }
                        },
                    }
                } else {
                    proof {
                        assert forall|g: Seq<char>| #[trigger] group_winner(cdefs, k + 1, g, inp) == group_winner(cdefs, k as int, g, inp) by {}
                    }
                }
                if !conflict {
                    applied.push(decision(&e.id, "applied"));
                    active.push(CombatEffectInstance {
                        definition_id: e.id.clone(),
                        source: e.source.clone(),
                        combat_only: match e.lifetime {
                            EffectLifetime::Persistent => false,
                            _ => true,
                        },
                        target_selector: e.target_selector.clone(),
                        parameters: clone_parameters(&e.parameters),
                        phase: e.phase,
                        lifetime: e.lifetime,
                        stacking_group: e.stacking_group.clone(),
                    });
                    proof {
                        assert(decision_reason(cdefs, k as int, inp) == "applied"@);
                        assert(decision_pairs(applied@) =~= decision_pairs(a_before).push((d.id@, "applied"@)));
                        assert(suppressed_decisions(cdefs, k + 1, inp) == suppressed_decisions(cdefs, k as int, inp));
                    }
                }
            }
            k += 1;
        }
        let fingerprint = match input.manifest.fingerprint() {
            Ok(f) => f,
            Err(e) => {
                return Err(CombatStateError::Contract(e));
            },
        };
        let combatants = clone_combatants(&input.combatants);
        let statuses = input.persistent_statuses.clone();
        let formations = input.team_formations.clone();
        let relationships = input.relationships.clone();
        let environments = input.environment_states.clone();
        let env_refs = input.environment_refs.clone();
        let team_refs = input.team_refs.clone();
        proof {
            assert(statuses@ =~= input.persistent_statuses@);
            assert(formations@ =~= input.team_formations@);
            assert(relationships@ =~= input.relationships@);
            assert(environments@ =~= input.environment_states@);
            assert(env_refs@ =~= input.environment_refs@);
            assert(team_refs@ =~= input.team_refs@);
        }
        let state = CombatState {
            battle_id: input.battle_id.clone(),
            combatants,
            persistent_statuses: statuses,
            active_effects: active,
            environment_refs: env_refs,
            team_refs,
            team_formations: formations,
            relationships,
            environment_states: environments,
            manifest_fingerprint: fingerprint,
        };
        proof {
            lemma_same_combatants_check(state.combatants@, input.combatants@);
            assert(first_some(state.active_effects@, effect_instances_check()) is None) by {
                lemma_no_effect_instance_error(state.active_effects@);
            }
            crate::text::lemma_fingerprint_not_blank(enc(manifest_canonical_json(input.manifest)));
        }
        let mut manifest = input.manifest.clone();
        manifest.applied_effects = applied_refs(&applied);
        manifest.suppressed_effects = suppressed_refs(&suppressed);
        manifest.combatant_ids = combatant_ids(&state.combatants);
        manifest.environment_ids = state.environment_refs.clone();
        manifest.team_ids = state.team_refs.clone();
        let final_state_fingerprint = state.fingerprint()?;
        Ok(CombatInitialStateProjection {
            state,
            applied_effects: applied,
            suppressed_effects: suppressed,
            manifest,
            final_state_fingerprint,
        })
    }
}

/// `a` holds the same values as `b`.
pub open spec fn same_combatant(a: CombatantState, b: CombatantState) -> bool {
    &&& a.id == b.id
    &&& a.current_health == b.current_health
    &&& a.maximum_health == b.maximum_health
    &&& a.current_breath == b.current_breath
    &&& a.maximum_breath == b.maximum_breath
    &&& a.balance == b.balance
    &&& a.maximum_balance == b.maximum_balance
    &&& a.fear == b.fear
    &&& a.anger == b.anger
    &&& a.posture == b.posture
    &&& a.weapon_control == b.weapon_control
    &&& a.relationship_refs@ == b.relationship_refs@
    &&& a.environment_refs@ == b.environment_refs@
    &&& a.team_refs@ == b.team_refs@
    &&& a.persistent_status_ids@ == b.persistent_status_ids@
    &&& a.combat_effect_ids@ == b.combat_effect_ids@
}

fn clone_strings(v: &Vec<String>) -> (r: Vec<String>)
    ensures
        r@ == v@,
{
    let r = v.clone();
    assert(r@ =~= v@);
    r
}

impl Clone for CombatantState {
    fn clone(&self) -> (r: Self)
        ensures
            same_combatant(r, *self),
    {
        CombatantState {
            id: self.id.clone(),
            current_health: self.current_health,
            maximum_health: self.maximum_health,
            current_breath: self.current_breath,
            maximum_breath: self.maximum_breath,
            balance: self.balance,
            maximum_balance: self.maximum_balance,
            fear: self.fear,
            anger: self.anger,
            posture: self.posture,
            weapon_control: self.weapon_control,
            relationship_refs: clone_strings(&self.relationship_refs),
            environment_refs: clone_strings(&self.environment_refs),
            team_refs: clone_strings(&self.team_refs),
            persistent_status_ids: clone_strings(&self.persistent_status_ids),
            combat_effect_ids: clone_strings(&self.combat_effect_ids),
        }
    }
}

pub fn clone_combatants(v: &Vec<CombatantState>) -> (r: Vec<CombatantState>)
    ensures
        r@.len() == v@.len(),
        forall|i: int| 0 <= i < v@.len() ==> same_combatant(#[trigger] r@[i], v@[i]),
{
    let mut out: Vec<CombatantState> = Vec::new();
    let n = v.len();
    let mut i: usize = 0;
    while i < n
        invariant
            n == v@.len(),
            i <= n,
            out@.len() == i,
            forall|k: int| 0 <= k < i ==> same_combatant(#[trigger] out@[k], v@[k]),
        decreases n - i,
    {
        out.push(v[i].clone());
        i += 1;
    }
    out
}

proof fn lemma_same_combatants_check(a: Seq<CombatantState>, b: Seq<CombatantState>)
    requires
        a.len() == b.len(),
        forall|i: int| 0 <= i < a.len() ==> same_combatant(#[trigger] a[i], b[i]),
    ensures
        first_err(a.len(), combatants_check(a)) == first_err(b.len(), combatants_check(b)),
{
    assert forall|i: int| 0 <= i < a.len() implies #[trigger] combatants_check(a)(i) == combatants_check(b)(i) by {
        assert(same_combatant(a[i], b[i]));
        assert(repeats_earlier_id(a, i) == repeats_earlier_id(b, i)) by {
            if repeats_earlier_id(a, i) {
                let k = choose|k: int| 0 <= k < i && #[trigger] a[k].id@ == a[i].id@;
                assert(same_combatant(a[k], b[k]));
            }
            if repeats_earlier_id(b, i) {
                let k = choose|k: int| 0 <= k < i && #[trigger] b[k].id@ == b[i].id@;
                assert(same_combatant(a[k], b[k]));
            }
        }
    }
    crate::order::lemma_first_err_congruent(a.len(), combatants_check(a), combatants_check(b));
}

proof fn lemma_no_effect_instance_error(s: Seq<CombatEffectInstance>)
    requires
        forall|m: int| 0 <= m < s.len() ==> effect_instance_error(#[trigger] s[m]) is None,
    ensures
        first_some(s, effect_instances_check()) is None,
{
    assert forall|m: int| 0 <= m < s.len() implies (#[trigger] effect_instances_check()(s[m])) is None by {
        assert(effect_instance_error(s[m]) is None);
    }
    crate::order::lemma_first_some_all_none(s, effect_instances_check());
}

fn applied_refs(v: &Vec<CombatEffectDecision>) -> (r: Vec<CombatEffectRef>)
    ensures
        r@.map_values(|e: CombatEffectRef| (e.id@, e.reason@)) == decision_pairs(v@),
{
    let mut out: Vec<CombatEffectRef> = Vec::new();
    let n = v.len();
    let mut i: usize = 0;
    while i < n
        invariant
            n == v@.len(),
            i <= n,
            out@.map_values(|e: CombatEffectRef| (e.id@, e.reason@)) == decision_pairs(v@.take(i as int)),
        decreases n - i,
    {
        let ghost before = out@;
        out.push(CombatEffectRef { id: v[i].id.clone(), reason: v[i].reason.clone() });
        assert(out@.map_values(|e: CombatEffectRef| (e.id@, e.reason@)) =~= before.map_values(
            |e: CombatEffectRef| (e.id@, e.reason@),
        ).push((v@[i as int].id@, v@[i as int].reason@)));
        assert(decision_pairs(v@.take(i + 1)) =~= decision_pairs(v@.take(i as int)).push(
            (v@[i as int].id@, v@[i as int].reason@),
        ));
        i += 1;
    }
    assert(v@.take(n as int) =~= v@);
    out
}

fn suppressed_refs(v: &Vec<CombatEffectDecision>) -> (r: Vec<SuppressedCombatEffect>)
    ensures
        r@.map_values(|e: SuppressedCombatEffect| (e.id@, e.reason@)) == decision_pairs(v@),
{
    let mut out: Vec<SuppressedCombatEffect> = Vec::new();
    let n = v.len();
    let mut i: usize = 0;
    while i < n
        invariant
            n == v@.len(),
            i <= n,
            out@.map_values(|e: SuppressedCombatEffect| (e.id@, e.reason@)) == decision_pairs(
                v@.take(i as int),
            ),
        decreases n - i,
    {
        let ghost before = out@;
        out.push(SuppressedCombatEffect { id: v[i].id.clone(), reason: v[i].reason.clone() });
        assert(out@.map_values(|e: SuppressedCombatEffect| (e.id@, e.reason@)) =~= before.map_values(
            |e: SuppressedCombatEffect| (e.id@, e.reason@),
        ).push((v@[i as int].id@, v@[i as int].reason@)));
        assert(decision_pairs(v@.take(i + 1)) =~= decision_pairs(v@.take(i as int)).push(
            (v@[i as int].id@, v@[i as int].reason@),
        ));
        i += 1;
    }
    assert(v@.take(n as int) =~= v@);
    out
}

/// The ids of the combatants, in order.
pub fn combatant_ids(v: &Vec<CombatantState>) -> (r: Vec<String>)
    ensures
        r@.len() == v@.len(),
        forall|i: int| 0 <= i < v@.len() ==> #[trigger] r@[i] == v@[i].id,
{
    let mut out: Vec<String> = Vec::new();
    let n = v.len();
    let mut i: usize = 0;
    while i < n
        invariant
            n == v@.len(),
            i <= n,
            out@.len() == i,
            forall|k: int| 0 <= k < i ==> #[trigger] out@[k] == v@[k].id,
        decreases n - i,
    {
        out.push(v[i].id.clone());
        i += 1;
    }
    out
}

pub open spec fn decision_json(x: CombatEffectDecision) -> Json {
    let f = Seq::<(Seq<u8>, Json)>::empty();
    let f = f.push((encode_utf8("id"@), jstr(x.id@)));
    let f = f.push((encode_utf8("reason"@), jstr(x.reason@)));
    Json::Obj(f)
}

pub open spec fn decision_json_fn() -> spec_fn(CombatEffectDecision) -> Json {
    |x: CombatEffectDecision| decision_json(x)
}

pub fn decision_json_to(x: &CombatEffectDecision) -> (j: JsonValue)
    ensures
        json_view(j) == decision_json(*x),
{
    let mut f: Vec<(String, JsonValue)> = Vec::new();
    push_field(&mut f, "id", str_json(x.id.as_str()));
    push_field(&mut f, "reason", str_json(x.reason.as_str()));
    JsonValue::Obj(f)
}

pub open spec fn decision_order_of(a: CombatEffectDecision, b: CombatEffectDecision) -> int {
    then_ord(str_ord(a.id@, b.id@), str_ord(a.reason@, b.reason@))
}

pub open spec fn decision_order() -> spec_fn(CombatEffectDecision, CombatEffectDecision) -> int {
    |a: CombatEffectDecision, b: CombatEffectDecision| decision_order_of(a, b)
}

fn compare_decisions(a: &CombatEffectDecision, b: &CombatEffectDecision) -> (r: i8)
    ensures
        r as int == decision_order_of(*a, *b),
{
    let c = compare_str(a.id.as_str(), b.id.as_str());
    if c != 0 {
        c
    } else {
        compare_str(a.reason.as_str(), b.reason.as_str())
    }
}

/// The projection's canonical JSON: state and manifest in canonical form,
/// decisions sorted, and every object's keys in ascending order.
pub open spec fn projection_canonical_json(p: CombatInitialStateProjection) -> Json {
    sort_keys(
        Json::Obj(
            seq![
                (encode_utf8("state"@), state_canonical_json(p.state)),
                (
                    encode_utf8("applied_effects"@),
                    Json::Arr(sort_seq(p.applied_effects@, decision_order()).map_values(decision_json_fn())),
                ),
                (
                    encode_utf8("suppressed_effects"@),
                    Json::Arr(sort_seq(p.suppressed_effects@, decision_order()).map_values(decision_json_fn())),
                ),
                (encode_utf8("manifest"@), manifest_canonical_json(p.manifest)),
                (encode_utf8("final_state_fingerprint"@), jstr(p.final_state_fingerprint@)),
            ],
        ),
    )
}

/// What the projection's canonical form refuses: an invalid state, then an
/// invalid manifest.
pub open spec fn projection_json_check(p: CombatInitialStateProjection) -> Result<(), CombatStateError> {
    if state_check(p.state) is Err {
        Err(state_check(p.state)->Err_0)
    } else if manifest_check(p.manifest) is Err {
        Err(CombatStateError::Contract(manifest_check(p.manifest)->Err_0))
    } else {
        Ok(())
    }
}

pub open spec fn projection_fingerprint(p: CombatInitialStateProjection) -> Seq<char> {
    fingerprint_of(enc(projection_canonical_json(p)))
}

fn sorted_decisions_json(v: &Vec<CombatEffectDecision>) -> (j: JsonValue)
    ensures
        json_view(j) == Json::Arr(sort_seq(v@, decision_order()).map_values(decision_json_fn())),
{
    let by_order = |a: &CombatEffectDecision, b: &CombatEffectDecision| -> (r: i8)
        ensures
            r as int == decision_order_of(*a, *b),
        { compare_decisions(a, b) };
    let conv = |e: &CombatEffectDecision| -> (r: JsonValue)
        ensures
            json_view(r) == decision_json(*e),
        { decision_json_to(e) };
    json_array_sorted(v, by_order, Ghost(decision_order()), conv, Ghost(decision_json_fn()))
}

impl CombatInitialStateProjection {
    /// The projection's canonical JSON text.
    pub fn canonical_json(&self) -> (r: Result<String, CombatStateError>)
        ensures
            projection_json_check(*self) is Err ==> r == Err::<String, CombatStateError>(
                projection_json_check(*self)->Err_0,
            ),
            r matches Ok(t) ==> encode_utf8(t@) == enc(projection_canonical_json(*self)),
            projection_json_check(*self) is Ok && vstd::utf8::valid_utf8(enc(projection_canonical_json(*self))) ==> r is Ok,
    {
        let bytes = self.canonical_json_bytes()?;
        match crate::json::text_from_utf8(bytes) {
            Some(t) => Ok(t),
            None => Err(CombatStateError::Serialization("invalid UTF-8".to_string())),
        }
    }
}

impl CombatInitialStateProjection {
    #[verifier::rlimit(60)]
    #[verifier::spinoff_prover]
    pub fn canonical_json_bytes(&self) -> (r: Result<Vec<u8>, CombatStateError>)
        ensures
            projection_json_check(*self) is Err ==> r == Err::<Vec<u8>, CombatStateError>(
                projection_json_check(*self)->Err_0,
            ),
            projection_json_check(*self) is Ok ==> r is Ok && r->Ok_0@ == enc(projection_canonical_json(*self)),
    {
        self.state.validate()?;
        let state = state_canonical_json_to(&self.state);
        let applied = sorted_decisions_json(&self.applied_effects);
        let suppressed = sorted_decisions_json(&self.suppressed_effects);
        let manifest = match self.manifest.canonical_json_value() {
            Ok(m) => m,
            Err(e) => {
                return Err(CombatStateError::Contract(e));
            },
        };
        let mut f: Vec<(String, JsonValue)> = Vec::new();
        push_field(&mut f, "state", state);
        push_field(&mut f, "applied_effects", applied);
        push_field(&mut f, "suppressed_effects", suppressed);
        push_field(&mut f, "manifest", manifest);
        push_field(&mut f, "final_state_fingerprint", str_json(self.final_state_fingerprint.as_str()));
        let obj = JsonValue::Obj(f);
        proof {
            assert(json_view_fields(f@) =~= seq![
                (encode_utf8("state"@), state_canonical_json(self.state)),
                (
                    encode_utf8("applied_effects"@),
                    Json::Arr(sort_seq(self.applied_effects@, decision_order()).map_values(decision_json_fn())),
                ),
                (
                    encode_utf8("suppressed_effects"@),
                    Json::Arr(sort_seq(self.suppressed_effects@, decision_order()).map_values(decision_json_fn())),
                ),
                (encode_utf8("manifest"@), manifest_canonical_json(self.manifest)),
                (encode_utf8("final_state_fingerprint"@), jstr(self.final_state_fingerprint@)),
            ]);
        }
        let sorted = sort_json_keys(obj);
        Ok(to_bytes(&sorted))
    }

    pub fn fingerprint(&self) -> (r: Result<String, CombatStateError>)
        ensures
            projection_json_check(*self) is Err ==> r == Err::<String, CombatStateError>(
                projection_json_check(*self)->Err_0,
            ),
            projection_json_check(*self) is Ok ==> r is Ok && r->Ok_0@ == projection_fingerprint(*self),
    {
        let bytes = self.canonical_json_bytes()?;
        Ok(fingerprint_bytes(bytes.as_slice()))
    }
}


// ---------------------------------------------------------------- debug text

pub open spec fn lower_hex_digit(d: int) -> char {
    if d < 10 {
        ((d + 48) as u8) as char
    } else {
        ((d + 87) as u8) as char
    }
}

/// A character as a quoted debug string shows it: quote and backslash
/// escaped, the usual control escapes, other ASCII control characters as
/// `\u{..}` in lowercase hexadecimal, anything else as it is.
pub open spec fn escape_char(c: char) -> Seq<char> {
    if c == '"' {
        seq!['\\', '"']
    } else if c == '\\' {
        seq!['\\', '\\']
    } else if c == '\n' {
        seq!['\\', 'n']
    } else if c == '\r' {
        seq!['\\', 'r']
    } else if c == '\t' {
        seq!['\\', 't']
    } else if c == '\0' {
        seq!['\\', '0']
    } else if (c as u32) < 0x20 || (c as u32) == 0x7f {
        let v = c as u32 as int;
        if v < 16 {
            seq!['\\', 'u', '{', lower_hex_digit(v), '}']
        } else {
            seq!['\\', 'u', '{', lower_hex_digit(v / 16), lower_hex_digit(v % 16), '}']
        }
    } else {
        seq![c]
    }
}

pub open spec fn escaped(s: Seq<char>) -> Seq<char>
    decreases s.len(),
{
    if s.len() == 0 {
        Seq::empty()
    } else {
        escaped(s.drop_last()) + escape_char(s.last())
    }
}

/// A text as `{:?}` shows it: in double quotes, escaped.
pub open spec fn quoted(s: Seq<char>) -> Seq<char> {
    seq!['"'] + escaped(s) + seq!['"']
}

/// A one-field variant as `{:?}` shows it.
pub open spec fn tuple_text(name: Seq<char>, field: Seq<char>) -> Seq<char> {
    name + seq!['('] + field + seq![')']
}

pub open spec fn contract_error_debug(e: CombatContractError) -> Seq<char> {
    match e {
        CombatContractError::EmptySimulationVersion => "EmptySimulationVersion"@,
        CombatContractError::EmptyWorldStateFingerprint => "EmptyWorldStateFingerprint"@,
        CombatContractError::EmptyStableId => "EmptyStableId"@,
        CombatContractError::EmptySuppressionReason(x) => tuple_text("EmptySuppressionReason"@, quoted(x@)),
        CombatContractError::EmptyEffectReason(x) => tuple_text("EmptyEffectReason"@, quoted(x@)),
        CombatContractError::Serialization(x) => tuple_text("Serialization"@, quoted(x@)),
        CombatContractError::UnsupportedSimulationVersion(x) => tuple_text("UnsupportedSimulationVersion"@, quoted(x@)),
    }
}

/// A state error as `{:?}` shows it.
pub open spec fn state_error_debug(e: CombatStateError) -> Seq<char> {
    match e {
        CombatStateError::EmptyId => "EmptyId"@,
        CombatStateError::DuplicateId(x) => tuple_text("DuplicateId"@, quoted(x@)),
        CombatStateError::InvalidHealth(x) => tuple_text("InvalidHealth"@, quoted(x@)),
        CombatStateError::InvalidLifetime(x) => tuple_text("InvalidLifetime"@, quoted(x@)),
        CombatStateError::InvalidStacking(x) => tuple_text("InvalidStacking"@, quoted(x@)),
        CombatStateError::InvalidValue(x) => tuple_text("InvalidValue"@, quoted(x@)),
        CombatStateError::UnknownEffect(x) => tuple_text("UnknownEffect"@, quoted(x@)),
        CombatStateError::Serialization(x) => tuple_text("Serialization"@, quoted(x@)),
        CombatStateError::Contract(c) => tuple_text("Contract"@, contract_error_debug(c)),
    }
}

fn hex_digit_str(d: u32) -> (r: &'static str)
    requires
        d < 16,
    ensures
        r@ == seq![lower_hex_digit(d as int)],
{
    proof {
        reveal_strlit("0");
        reveal_strlit("1");
        reveal_strlit("2");
        reveal_strlit("3");
        reveal_strlit("4");
        reveal_strlit("5");
        reveal_strlit("6");
        reveal_strlit("7");
        reveal_strlit("8");
        reveal_strlit("9");
        reveal_strlit("a");
        reveal_strlit("b");
        reveal_strlit("c");
        reveal_strlit("d");
        reveal_strlit("e");
        reveal_strlit("f");
    }
    if d == 0 {
        assert("0"@ =~= seq![lower_hex_digit(0)]);
        "0"
    } else if d == 1 {
        assert("1"@ =~= seq![lower_hex_digit(1)]);
        "1"
    } else if d == 2 {
        assert("2"@ =~= seq![lower_hex_digit(2)]);
        "2"
    } else if d == 3 {
        assert("3"@ =~= seq![lower_hex_digit(3)]);
        "3"
    } else if d == 4 {
        assert("4"@ =~= seq![lower_hex_digit(4)]);
        "4"
    } else if d == 5 {
        assert("5"@ =~= seq![lower_hex_digit(5)]);
        "5"
    } else if d == 6 {
        assert("6"@ =~= seq![lower_hex_digit(6)]);
        "6"
    } else if d == 7 {
        assert("7"@ =~= seq![lower_hex_digit(7)]);
        "7"
    } else if d == 8 {
        assert("8"@ =~= seq![lower_hex_digit(8)]);
        "8"
    } else if d == 9 {
        assert("9"@ =~= seq![lower_hex_digit(9)]);
        "9"
    } else if d == 10 {
        assert("a"@ =~= seq![lower_hex_digit(10)]);
        "a"
    } else if d == 11 {
        assert("b"@ =~= seq![lower_hex_digit(11)]);
        "b"
    } else if d == 12 {
        assert("c"@ =~= seq![lower_hex_digit(12)]);
        "c"
    } else if d == 13 {
        assert("d"@ =~= seq![lower_hex_digit(13)]);
        "d"
    } else if d == 14 {
        assert("e"@ =~= seq![lower_hex_digit(14)]);
        "e"
    } else {
        assert("f"@ =~= seq![lower_hex_digit(15)]);
        "f"
    }
}

fn push_escaped_char(out: &mut String, s: &str, i: usize)
    requires
        i < s@.len(),
        s@.len() <= usize::MAX,
    ensures
        final(out)@ == old(out)@ + escape_char(s@[i as int]),
{
    let c = s.get_char(i);
    proof {
        reveal_strlit("\\\"");
        reveal_strlit("\\\\");
        reveal_strlit("\\n");
        reveal_strlit("\\r");
        reveal_strlit("\\t");
        reveal_strlit("\\0");
        reveal_strlit("\\u{");
        reveal_strlit("}");
    }
    let ghost start = out@;
    if c == '"' {
        out.append("\\\"");
    } else if c == '\\' {
        out.append("\\\\");
    } else if c == '\n' {
        out.append("\\n");
    } else if c == '\r' {
        out.append("\\r");
    } else if c == '\t' {
        out.append("\\t");
    } else if c == '\0' {
        out.append("\\0");
    } else if (c as u32) < 0x20 || (c as u32) == 0x7f {
        let v = c as u32;
        out.append("\\u{");
        if v >= 16 {
            out.append(hex_digit_str(v / 16));
        }
        out.append(hex_digit_str(v % 16));
        out.append("}");
    } else {
        out.append(s.substring_char(i, i + 1));
        assert(s@.subrange(i as int, i + 1) =~= seq![c]);
    }
    assert(out@ =~= start + escape_char(c));
}

/// Appends `s` as `{:?}` shows it.
fn push_quoted(out: &mut String, s: &str)
    ensures
        final(out)@ == old(out)@ + quoted(s@),
{
    let ghost start = out@;
    proof {
        reveal_strlit("\"");
    }
    out.append("\"");
    let n = s.unicode_len();
    let mut i: usize = 0;
    while i < n
        invariant
            n == s@.len(),
            i <= n,
            out@ == start + seq!['"'] + escaped(s@.take(i as int)),
        decreases n - i,
    {
        assert(s@.take(i + 1).drop_last() =~= s@.take(i as int));
        assert(s@.take(i + 1).last() == s@[i as int]);
        push_escaped_char(out, s, i);
        assert(out@ =~= start + seq!['"'] + escaped(s@.take(i + 1)));
        i += 1;
    }
    assert(s@.take(n as int) =~= s@);
    out.append("\"");
    assert(out@ =~= start + quoted(s@));
}

fn tuple_debug(name: &str, field: &str) -> (r: String)
    ensures
        r@ == tuple_text(name@, quoted(field@)),
{
    proof {
        reveal_strlit("(");
        reveal_strlit(")");
    }
    let mut out = name.to_string();
    out.append("(");
    push_quoted(&mut out, field);
    out.append(")");
    assert(out@ =~= tuple_text(name@, quoted(field@)));
    out
}

pub fn contract_error_debug_text(e: &CombatContractError) -> (r: String)
    ensures
        r@ == contract_error_debug(*e),
{
    match e {
        CombatContractError::EmptySimulationVersion => "EmptySimulationVersion".to_string(),
        CombatContractError::EmptyWorldStateFingerprint => "EmptyWorldStateFingerprint".to_string(),
        CombatContractError::EmptyStableId => "EmptyStableId".to_string(),
        CombatContractError::EmptySuppressionReason(x) => tuple_debug("EmptySuppressionReason", x.as_str()),
        CombatContractError::EmptyEffectReason(x) => tuple_debug("EmptyEffectReason", x.as_str()),
        CombatContractError::Serialization(x) => tuple_debug("Serialization", x.as_str()),
        CombatContractError::UnsupportedSimulationVersion(x) => tuple_debug("UnsupportedSimulationVersion", x.as_str()),
    }
}

/// A state error as `{:?}` shows it.
pub fn state_error_debug_text(e: &CombatStateError) -> (r: String)
    ensures
        r@ == state_error_debug(*e),
{
    match e {
        CombatStateError::EmptyId => "EmptyId".to_string(),
        CombatStateError::DuplicateId(x) => tuple_debug("DuplicateId", x.as_str()),
        CombatStateError::InvalidHealth(x) => tuple_debug("InvalidHealth", x.as_str()),
        CombatStateError::InvalidLifetime(x) => tuple_debug("InvalidLifetime", x.as_str()),
        CombatStateError::InvalidStacking(x) => tuple_debug("InvalidStacking", x.as_str()),
        CombatStateError::InvalidValue(x) => tuple_debug("InvalidValue", x.as_str()),
        CombatStateError::UnknownEffect(x) => tuple_debug("UnknownEffect", x.as_str()),
        CombatStateError::Serialization(x) => tuple_debug("Serialization", x.as_str()),
        CombatStateError::Contract(c) => {
            proof {
                reveal_strlit("(");
                reveal_strlit(")");
            }
            let mut out = "Contract".to_string();
            out.append("(");
            let inner = contract_error_debug_text(c);
            out.append(inner.as_str());
            out.append(")");
            assert(out@ =~= tuple_text("Contract"@, contract_error_debug(*c)));
            out
        },
    }
}

} // verus!
