//! How a battle ends: which side fell, who survived, and the report a
//! battle leaves behind.
use vstd::prelude::*;
use vstd::utf8::encode_utf8;
use crate::combat_resolution::{CombatAttackOutcome, CombatResolutionCombatant, CombatResolutionFrame, CombatResolutionResult};
use crate::combat_simulation::{same_participant, CombatSide, CombatSimulationParticipant};
use crate::combat_opportunity::{ids_sorted, listed_id};
use crate::json::{
    enc, json_array, json_view, json_view_fields, jstr, opt_str_json, push_field, str_json, strs_json, strs_to_json,
    to_bytes, Json, JsonValue,
};
use crate::order::{compare_str, sort_by_order, str_ord};
use crate::text::{fingerprint_bytes, fingerprint_of, is_blank, str_eq};

verus! {

/// The health the roster lists first for `id`, or `untracked`.
pub open spec fn health_in(roster: Seq<CombatResolutionCombatant>, id: Seq<char>, untracked: i64) -> i64
    decreases roster.len(),
{
    if roster.len() == 0 {
        untracked
    } else if roster[0].id@ == id {
        roster[0].current_health_hundredths
    } else {
        health_in(roster.drop_first(), id, untracked)
    }
}

pub fn health_of(roster: &Vec<CombatResolutionCombatant>, id: &str, untracked: i64) -> (h: i64)
    ensures
        h == health_in(roster@, id@, untracked),
{
    let n = roster.len();
    let mut i: usize = 0;
    assert(roster@.skip(0) =~= roster@);
    while i < n
        invariant
            n == roster@.len(),
            i <= n,
            health_in(roster@, id@, untracked) == health_in(roster@.skip(i as int), id@, untracked),
        decreases n - i,
    {
        if str_eq(roster[i].id.as_str(), id) {
            return roster[i].current_health_hundredths;
        }
        assert(roster@.skip(i as int).drop_first() =~= roster@.skip(i + 1));
        i += 1;
    }
    untracked
}

/// A side is wiped out when every one of its listed members is at zero
/// health; a member the roster does not list counts as `untracked`.
pub open spec fn side_defeated(side: Seq<CombatSimulationParticipant>, roster: Seq<CombatResolutionCombatant>, untracked: i64) -> bool {
    forall|k: int| 0 <= k < side.len() ==> health_in(roster, #[trigger] side[k].id@, untracked) == 0
}

/// The one rule for a wiped-out side, shared by the resolver's early stop
/// and the final conclusion.
pub fn side_all_defeated(side: &Vec<CombatSimulationParticipant>, roster: &Vec<CombatResolutionCombatant>, untracked: i64) -> (b: bool)
    ensures
        b == side_defeated(side@, roster@, untracked),
{
    let n = side.len();
    let mut k: usize = 0;
    while k < n
        invariant
            n == side@.len(),
            k <= n,
            forall|j: int| 0 <= j < k ==> health_in(roster@, #[trigger] side@[j].id@, untracked) == 0,
        decreases n - k,
    {
        if health_of(roster, side[k].id.as_str(), untracked) != 0 {
            return false;
        }
        k += 1;
    }
    true
}


#[derive(Clone, Copy, Debug, PartialEq, Eq, Structural)]
pub struct CombatTerminationPolicy {
    pub max_ticks: u32,
    pub conclude_on_max_ticks: bool,
}

#[derive(Clone, Debug, PartialEq, Eq)]
pub struct CombatConclusionRequest {
    pub resolution: CombatResolutionResult,
    pub participants: Vec<CombatSimulationParticipant>,
    pub policy: CombatTerminationPolicy,
}

#[derive(Clone, Copy, Debug, PartialEq, Eq, Structural)]
pub enum CombatConclusionOutcome {
    InProgress,
    AllyVictory,
    EnemyVictory,
    MutualDefeat,
    Stalemate,
}

#[derive(Clone, Copy, Debug, PartialEq, Eq, Structural)]
pub enum CombatConclusionReason {
    NoTerminalCondition,
    AllEnemiesDefeated,
    AllAlliesDefeated,
    BothSidesDefeated,
    MaxTicksReached,
}

/// One combatant's record of the battle.
#[derive(Debug, PartialEq, Eq)]
pub struct CombatCombatantReport {
    pub id: String,
    pub damage_dealt_hundredths: i64,
    pub damage_taken_hundredths: i64,
    pub kills: u32,
    pub incapacitated: bool,
}

impl Clone for CombatCombatantReport {
    fn clone(&self) -> (r: Self)
        ensures
            r == *self,
    {
        CombatCombatantReport {
            id: self.id.clone(),
            damage_dealt_hundredths: self.damage_dealt_hundredths,
            damage_taken_hundredths: self.damage_taken_hundredths,
            kills: self.kills,
            incapacitated: self.incapacitated,
        }
    }
}

#[derive(Clone, Debug, PartialEq, Eq)]
pub struct CombatConclusionReport {
    pub resolution_fingerprint: String,
    pub outcome: CombatConclusionOutcome,
    pub reason: CombatConclusionReason,
    pub decisive_tick: Option<u32>,
    pub active_allies: u32,
    pub active_enemies: u32,
    pub survivor_ids: Vec<String>,
    pub defeated_ids: Vec<String>,
    pub removed_combat_effect_ids: Vec<String>,
    pub retained_effect_ids: Vec<String>,
    /// Ticks to the decision times the tick length.
    pub duration_millis: u64,
    /// Ascending id order.
    pub combatants: Vec<CombatCombatantReport>,
    /// `None` when nobody dealt damage.
    pub top_damage_dealt_id: Option<String>,
    pub top_damage_taken_id: Option<String>,
    pub fingerprint: String,
}

#[derive(Clone, Debug, PartialEq, Eq)]
pub enum CombatConclusionError {
    InvalidPolicy,
    DuplicateParticipant(String),
    DuplicateState(String),
    ParticipantStateMismatch,
    EmptyActiveSide,
    FrameExceedsPolicy,
    /// The resolution carries no provenance, or a zero tick length.
    MissingProvenance,
}

pub open spec fn combat_conclusion_outcome_name(x: CombatConclusionOutcome) -> Seq<char> {
    match x {
        CombatConclusionOutcome::InProgress => "in_progress"@,
        CombatConclusionOutcome::AllyVictory => "ally_victory"@,
        CombatConclusionOutcome::EnemyVictory => "enemy_victory"@,
        CombatConclusionOutcome::MutualDefeat => "mutual_defeat"@,
        CombatConclusionOutcome::Stalemate => "stalemate"@,
    }
}

pub open spec fn combat_conclusion_outcome_json(x: CombatConclusionOutcome) -> Json {
    jstr(combat_conclusion_outcome_name(x))
}

pub fn combat_conclusion_outcome_str(x: CombatConclusionOutcome) -> (s: &'static str)
    ensures
        s@ == combat_conclusion_outcome_name(x),
{
    match x {
        CombatConclusionOutcome::InProgress => "in_progress",
        CombatConclusionOutcome::AllyVictory => "ally_victory",
        CombatConclusionOutcome::EnemyVictory => "enemy_victory",
        CombatConclusionOutcome::MutualDefeat => "mutual_defeat",
        CombatConclusionOutcome::Stalemate => "stalemate",
    }
}

pub fn combat_conclusion_outcome_json_to(x: CombatConclusionOutcome) -> (j: JsonValue)
    ensures
        json_view(j) == combat_conclusion_outcome_json(x),
{
    str_json(combat_conclusion_outcome_str(x))
}

pub open spec fn combat_conclusion_outcome_index(x: CombatConclusionOutcome) -> int {
    match x {
        CombatConclusionOutcome::InProgress => 0,
        CombatConclusionOutcome::AllyVictory => 1,
        CombatConclusionOutcome::EnemyVictory => 2,
        CombatConclusionOutcome::MutualDefeat => 3,
        CombatConclusionOutcome::Stalemate => 4,
    }
}

pub fn combat_conclusion_outcome_rank(x: CombatConclusionOutcome) -> (r: u8)
    ensures
        r as int == combat_conclusion_outcome_index(x),
{
    match x {
        CombatConclusionOutcome::InProgress => 0,
        CombatConclusionOutcome::AllyVictory => 1,
        CombatConclusionOutcome::EnemyVictory => 2,
        CombatConclusionOutcome::MutualDefeat => 3,
        CombatConclusionOutcome::Stalemate => 4,
    }
}
pub open spec fn combat_conclusion_reason_name(x: CombatConclusionReason) -> Seq<char> {
    match x {
        CombatConclusionReason::NoTerminalCondition => "no_terminal_condition"@,
        CombatConclusionReason::AllEnemiesDefeated => "all_enemies_defeated"@,
        CombatConclusionReason::AllAlliesDefeated => "all_allies_defeated"@,
        CombatConclusionReason::BothSidesDefeated => "both_sides_defeated"@,
        CombatConclusionReason::MaxTicksReached => "max_ticks_reached"@,
    }
}

pub open spec fn combat_conclusion_reason_json(x: CombatConclusionReason) -> Json {
    jstr(combat_conclusion_reason_name(x))
}

pub fn combat_conclusion_reason_str(x: CombatConclusionReason) -> (s: &'static str)
    ensures
        s@ == combat_conclusion_reason_name(x),
{
    match x {
        CombatConclusionReason::NoTerminalCondition => "no_terminal_condition",
        CombatConclusionReason::AllEnemiesDefeated => "all_enemies_defeated",
        CombatConclusionReason::AllAlliesDefeated => "all_allies_defeated",
        CombatConclusionReason::BothSidesDefeated => "both_sides_defeated",
        CombatConclusionReason::MaxTicksReached => "max_ticks_reached",
    }
}

pub fn combat_conclusion_reason_json_to(x: CombatConclusionReason) -> (j: JsonValue)
    ensures
        json_view(j) == combat_conclusion_reason_json(x),
{
    str_json(combat_conclusion_reason_str(x))
}

pub open spec fn combat_conclusion_reason_index(x: CombatConclusionReason) -> int {
    match x {
        CombatConclusionReason::NoTerminalCondition => 0,
        CombatConclusionReason::AllEnemiesDefeated => 1,
        CombatConclusionReason::AllAlliesDefeated => 2,
        CombatConclusionReason::BothSidesDefeated => 3,
        CombatConclusionReason::MaxTicksReached => 4,
    }
}

pub fn combat_conclusion_reason_rank(x: CombatConclusionReason) -> (r: u8)
    ensures
        r as int == combat_conclusion_reason_index(x),
{
    match x {
        CombatConclusionReason::NoTerminalCondition => 0,
        CombatConclusionReason::AllEnemiesDefeated => 1,
        CombatConclusionReason::AllAlliesDefeated => 2,
        CombatConclusionReason::BothSidesDefeated => 3,
        CombatConclusionReason::MaxTicksReached => 4,
    }
}
pub open spec fn combatant_report_json(x: CombatCombatantReport) -> Json {
    let f = Seq::<(Seq<u8>, Json)>::empty();
    let f = f.push((encode_utf8("id"@), jstr(x.id@)));
    let f = f.push((encode_utf8("damage_dealt_hundredths"@), Json::Num(x.damage_dealt_hundredths as int)));
    let f = f.push((encode_utf8("damage_taken_hundredths"@), Json::Num(x.damage_taken_hundredths as int)));
    let f = f.push((encode_utf8("kills"@), Json::Num(x.kills as int)));
    let f = f.push((encode_utf8("incapacitated"@), Json::Bool(x.incapacitated)));
    Json::Obj(f)
}

pub open spec fn combatant_report_json_fn() -> spec_fn(CombatCombatantReport) -> Json {
    |x: CombatCombatantReport| combatant_report_json(x)
}

pub fn combatant_report_json_to(x: &CombatCombatantReport) -> (j: JsonValue)
    ensures
        json_view(j) == combatant_report_json(*x),
{
    let mut f: Vec<(String, JsonValue)> = Vec::new();
    push_field(&mut f, "id", str_json(x.id.as_str()));
    push_field(&mut f, "damage_dealt_hundredths", JsonValue::Int(x.damage_dealt_hundredths as i64));
    push_field(&mut f, "damage_taken_hundredths", JsonValue::Int(x.damage_taken_hundredths as i64));
    push_field(&mut f, "kills", JsonValue::UInt(x.kills as u64));
    push_field(&mut f, "incapacitated", JsonValue::Bool(x.incapacitated));
    JsonValue::Obj(f)
}
pub open spec fn report_json(x: CombatConclusionReport) -> Json {
    let f = Seq::<(Seq<u8>, Json)>::empty();
    let f = f.push((encode_utf8("resolution_fingerprint"@), jstr(x.resolution_fingerprint@)));
    let f = f.push((encode_utf8("outcome"@), combat_conclusion_outcome_json(x.outcome)));
    let f = f.push((encode_utf8("reason"@), combat_conclusion_reason_json(x.reason)));
    let f = f.push((encode_utf8("decisive_tick"@), match x.decisive_tick { Some(v) => Json::Num(v as int), None => Json::Null }));
    let f = f.push((encode_utf8("active_allies"@), Json::Num(x.active_allies as int)));
    let f = f.push((encode_utf8("active_enemies"@), Json::Num(x.active_enemies as int)));
    let f = f.push((encode_utf8("survivor_ids"@), strs_json(x.survivor_ids@)));
    let f = f.push((encode_utf8("defeated_ids"@), strs_json(x.defeated_ids@)));
    let f = f.push((encode_utf8("removed_combat_effect_ids"@), strs_json(x.removed_combat_effect_ids@)));
    let f = f.push((encode_utf8("retained_effect_ids"@), strs_json(x.retained_effect_ids@)));
    let f = f.push((encode_utf8("duration_millis"@), Json::Num(x.duration_millis as int)));
    let f = f.push((encode_utf8("combatants"@), Json::Arr(x.combatants@.map_values(combatant_report_json_fn()))));
    let f = f.push((encode_utf8("top_damage_dealt_id"@), match x.top_damage_dealt_id { Some(v) => jstr(v@), None => Json::Null }));
    let f = f.push((encode_utf8("top_damage_taken_id"@), match x.top_damage_taken_id { Some(v) => jstr(v@), None => Json::Null }));
    let f = f.push((encode_utf8("fingerprint"@), jstr(x.fingerprint@)));
    Json::Obj(f)
}

/// The report's JSON with an empty fingerprint.
pub open spec fn report_unsigned_json(x: CombatConclusionReport) -> Json {
    let f = Seq::<(Seq<u8>, Json)>::empty();
    let f = f.push((encode_utf8("resolution_fingerprint"@), jstr(x.resolution_fingerprint@)));
    let f = f.push((encode_utf8("outcome"@), combat_conclusion_outcome_json(x.outcome)));
    let f = f.push((encode_utf8("reason"@), combat_conclusion_reason_json(x.reason)));
    let f = f.push((encode_utf8("decisive_tick"@), match x.decisive_tick { Some(v) => Json::Num(v as int), None => Json::Null }));
    let f = f.push((encode_utf8("active_allies"@), Json::Num(x.active_allies as int)));
    let f = f.push((encode_utf8("active_enemies"@), Json::Num(x.active_enemies as int)));
    let f = f.push((encode_utf8("survivor_ids"@), strs_json(x.survivor_ids@)));
    let f = f.push((encode_utf8("defeated_ids"@), strs_json(x.defeated_ids@)));
    let f = f.push((encode_utf8("removed_combat_effect_ids"@), strs_json(x.removed_combat_effect_ids@)));
    let f = f.push((encode_utf8("retained_effect_ids"@), strs_json(x.retained_effect_ids@)));
    let f = f.push((encode_utf8("duration_millis"@), Json::Num(x.duration_millis as int)));
    let f = f.push((encode_utf8("combatants"@), Json::Arr(x.combatants@.map_values(combatant_report_json_fn()))));
    let f = f.push((encode_utf8("top_damage_dealt_id"@), match x.top_damage_dealt_id { Some(v) => jstr(v@), None => Json::Null }));
    let f = f.push((encode_utf8("top_damage_taken_id"@), match x.top_damage_taken_id { Some(v) => jstr(v@), None => Json::Null }));
    let f = f.push((encode_utf8("fingerprint"@), jstr(Seq::<char>::empty())));
    Json::Obj(f)
}

pub open spec fn report_json_fn() -> spec_fn(CombatConclusionReport) -> Json {
    |x: CombatConclusionReport| report_json(x)
}

pub fn report_json_to(x: &CombatConclusionReport) -> (j: JsonValue)
    ensures
        json_view(j) == report_json(*x),
{
    let mut f: Vec<(String, JsonValue)> = Vec::new();
    push_field(&mut f, "resolution_fingerprint", str_json(x.resolution_fingerprint.as_str()));
    push_field(&mut f, "outcome", combat_conclusion_outcome_json_to(x.outcome));
    push_field(&mut f, "reason", combat_conclusion_reason_json_to(x.reason));
    push_field(&mut f, "decisive_tick", match x.decisive_tick { Some(v) => JsonValue::UInt(v as u64), None => JsonValue::Null });
    push_field(&mut f, "active_allies", JsonValue::UInt(x.active_allies as u64));
    push_field(&mut f, "active_enemies", JsonValue::UInt(x.active_enemies as u64));
    push_field(&mut f, "survivor_ids", strs_to_json(&x.survivor_ids));
    push_field(&mut f, "defeated_ids", strs_to_json(&x.defeated_ids));
    push_field(&mut f, "removed_combat_effect_ids", strs_to_json(&x.removed_combat_effect_ids));
    push_field(&mut f, "retained_effect_ids", strs_to_json(&x.retained_effect_ids));
    push_field(&mut f, "duration_millis", JsonValue::UInt(x.duration_millis as u64));
    let conv = |e: &CombatCombatantReport| -> (r: JsonValue)
        ensures
            json_view(r) == combatant_report_json(*e),
        { combatant_report_json_to(e) };
    let j_combatants = json_array(&x.combatants, conv, Ghost(combatant_report_json_fn()));
    push_field(&mut f, "combatants", j_combatants);
    push_field(&mut f, "top_damage_dealt_id", opt_str_json(&x.top_damage_dealt_id));
    push_field(&mut f, "top_damage_taken_id", opt_str_json(&x.top_damage_taken_id));
    push_field(&mut f, "fingerprint", str_json(x.fingerprint.as_str()));
    JsonValue::Obj(f)
}

/// The outcome and reason for which sides are wiped out and whether the
/// last frame reached a policy limit that concludes the battle.
pub open spec fn outcome_for(allies_down: bool, enemies_down: bool, at_limit: bool) -> (CombatConclusionOutcome, CombatConclusionReason) {
    if allies_down && enemies_down {
        (CombatConclusionOutcome::MutualDefeat, CombatConclusionReason::BothSidesDefeated)
    } else if enemies_down {
        (CombatConclusionOutcome::AllyVictory, CombatConclusionReason::AllEnemiesDefeated)
    } else if allies_down {
        (CombatConclusionOutcome::EnemyVictory, CombatConclusionReason::AllAlliesDefeated)
    } else if at_limit {
        (CombatConclusionOutcome::Stalemate, CombatConclusionReason::MaxTicksReached)
    } else {
        (CombatConclusionOutcome::InProgress, CombatConclusionReason::NoTerminalCondition)
    }
}

/// A battle in which one side alone is wiped out is won by the other side,
/// for that reason; one in which both are wiped out is a mutual defeat; and
/// one in which neither is ends as a stalemate or stays in progress.
pub proof fn lemma_decisive_outcomes(allies_down: bool, enemies_down: bool, at_limit: bool)
    ensures
        enemies_down && !allies_down ==> outcome_for(allies_down, enemies_down, at_limit) == (
            CombatConclusionOutcome::AllyVictory,
            CombatConclusionReason::AllEnemiesDefeated,
        ),
        allies_down && !enemies_down ==> outcome_for(allies_down, enemies_down, at_limit) == (
            CombatConclusionOutcome::EnemyVictory,
            CombatConclusionReason::AllAlliesDefeated,
        ),
        allies_down && enemies_down ==> outcome_for(allies_down, enemies_down, at_limit) == (
            CombatConclusionOutcome::MutualDefeat,
            CombatConclusionReason::BothSidesDefeated,
        ),
        !allies_down && !enemies_down ==> (outcome_for(allies_down, enemies_down, at_limit).0
            == CombatConclusionOutcome::Stalemate) == at_limit,
{
}

/// The active participants on `side`, in the given order.
pub open spec fn active_on(ps: Seq<CombatSimulationParticipant>, side: CombatSide) -> Seq<CombatSimulationParticipant> {
    crate::combat_resolution::side_members(ps, side)
}

/// Whether every active participant on `side` is at zero health in the
/// final state.
pub open spec fn wiped_out(ps: Seq<CombatSimulationParticipant>, side: CombatSide, state: Seq<CombatResolutionCombatant>) -> bool {
    forall|k: int| 0 <= k < ps.len() && ps[k].active && ps[k].side == side ==> health_in(state, #[trigger] ps[k].id@, 0) == 0
}

/// The first position holding the largest value of `vals`, when that value
/// is positive.
pub open spec fn top_index(vals: Seq<i64>) -> Option<int>
    decreases vals.len(),
{
    if vals.len() == 0 {
        None
    } else {
        let prev = top_index(vals.drop_last());
        match prev {
            Some(i) => if vals.last() > vals[i] {
                Some(vals.len() - 1)
            } else {
                Some(i)
            },
            None => if vals.last() > 0 {
                Some(vals.len() - 1)
            } else {
                None
            },
        }
    }
}

/// The top position is the first one holding the largest value, and there
/// is one exactly when some value is positive.
pub proof fn lemma_top_index_first_max(vals: Seq<i64>)
    ensures
        top_index(vals) matches Some(i) ==> 0 <= i < vals.len() && vals[i] > 0 && (forall|j: int|
            0 <= j < vals.len() ==> #[trigger] vals[j] <= vals[i]) && (forall|j: int| 0 <= j < i ==> #[trigger] vals[j] < vals[i]),
        top_index(vals) is None <==> forall|j: int| 0 <= j < vals.len() ==> #[trigger] vals[j] <= 0,
    decreases vals.len(),
{
    if vals.len() > 0 {
        let init = vals.drop_last();
        lemma_top_index_first_max(init);
        assert forall|j: int| 0 <= j < init.len() implies #[trigger] init[j] == vals[j] by {}
        let n = vals.len() - 1;
        match top_index(init) {
            Some(i0) => {
                assert(vals[i0] == init[i0]);
                if vals.last() > vals[i0] {
                    assert forall|j: int| 0 <= j < vals.len() implies #[trigger] vals[j] <= vals[n] by {
                        if j < n {
                            assert(init[j] <= init[i0]);
                        }
                    }
                    assert forall|j: int| 0 <= j < n implies #[trigger] vals[j] < vals[n] by {
                        assert(init[j] <= init[i0]);
                    }
                } else {
                    assert forall|j: int| 0 <= j < vals.len() implies #[trigger] vals[j] <= vals[i0] by {
                        if j < n {
                            assert(init[j] <= init[i0]);
                        }
                    }
                    assert forall|j: int| 0 <= j < i0 implies #[trigger] vals[j] < vals[i0] by {
                        assert(init[j] < init[i0]);
                    }
                }
            },
            None => {
                if vals.last() > 0 {
                    assert forall|j: int| 0 <= j < vals.len() implies #[trigger] vals[j] <= vals[n] by {
                        if j < n {
                            assert(init[j] <= 0);
                        }
                    }
                    assert forall|j: int| 0 <= j < n implies #[trigger] vals[j] < vals[n] by {
                        assert(init[j] <= 0);
                    }
                }
            },
        }
        if top_index(vals) is None {
            assert forall|j: int| 0 <= j < vals.len() implies #[trigger] vals[j] <= 0 by {
                if j < init.len() {
                    assert(init[j] == vals[j]);
                }
            }
        }
    }
}

proof fn lemma_top_index_bounds(vals: Seq<i64>)
    ensures
        top_index(vals) matches Some(i) ==> 0 <= i < vals.len() && vals[i] > 0,
    decreases vals.len(),
{
    if vals.len() > 0 {
        lemma_top_index_bounds(vals.drop_last());
    }
}

/// The id of the first report holding the largest positive value.
fn top_id_by(values: &Vec<i64>, reports: &Vec<CombatCombatantReport>) -> (r: Option<String>)
    requires
        values@.len() == reports@.len(),
    ensures
        match top_index(values@) {
            Some(i) => r is Some && r->Some_0@ == reports@[i].id@,
            None => r is None,
        },
{
    let n = values.len();
    let mut best: Option<usize> = None;
    let mut i: usize = 0;
    while i < n
        invariant
            n == values@.len(),
            i <= n,
            match top_index(values@.take(i as int)) {
                Some(t) => best == Some(t as usize),
                None => best is None,
            },
            best matches Some(b) ==> b < i,
        decreases n - i,
    {
        proof {
            assert(values@.take(i + 1).drop_last() =~= values@.take(i as int));
            lemma_top_index_bounds(values@.take(i as int));
            if let Some(b) = best {
                assert(values@.take(i as int)[b as int] == values@[b as int]);
            }
        }
        let take = match best {
            Some(b) => values[i] > values[b],
            None => values[i] > 0,
        };
        if take {
            best = Some(i);
        }
        i += 1;
    }
    assert(values@.take(n as int) =~= values@);
    proof {
        lemma_top_index_bounds(values@);
    }
    match best {
        Some(b) => Some(reports[b].id.clone()),
        None => None,
    }
}

fn count_active(ps: &Vec<CombatSimulationParticipant>, side: CombatSide) -> (c: usize)
    ensures
        c == active_on(ps@, side).len(),
{
    let n = ps.len();
    let mut c: usize = 0;
    let mut i: usize = 0;
    while i < n
        invariant
            n == ps@.len(),
            i <= n,
            c == active_on(ps@.take(i as int), side).len(),
            c <= i,
        decreases n - i,
    {
        assert(ps@.take(i + 1).drop_last() =~= ps@.take(i as int));
        if ps[i].active && ps[i].side == side {
            c += 1;
        }
        i += 1;
    }
    assert(ps@.take(n as int) =~= ps@);
    c
}

fn side_wiped(ps: &Vec<CombatSimulationParticipant>, side: CombatSide, state: &Vec<CombatResolutionCombatant>) -> (b: bool)
    ensures
        b == wiped_out(ps@, side, state@),
{
    let n = ps.len();
    let mut i: usize = 0;
    while i < n
        invariant
            n == ps@.len(),
            i <= n,
            forall|k: int| 0 <= k < i && ps@[k].active && ps@[k].side == side ==> health_in(state@, #[trigger] ps@[k].id@, 0) == 0,
        decreases n - i,
    {
        if ps[i].active && ps[i].side == side && health_of(state, ps[i].id.as_str(), 0) != 0 {
            return false;
        }
        i += 1;
    }
    true
}

/// Whether the roster lists `id`.
pub open spec fn state_lists(state: Seq<CombatResolutionCombatant>, id: Seq<char>) -> bool {
    exists|k: int| 0 <= k < state.len() && #[trigger] state[k].id@ == id
}

fn has_state(state: &Vec<CombatResolutionCombatant>, id: &str) -> (r: bool)
    ensures
        r == state_lists(state@, id@),
{
    let n = state.len();
    let mut i: usize = 0;
    while i < n
        invariant
            n == state@.len(),
            i <= n,
            forall|k: int| 0 <= k < i ==> #[trigger] state@[k].id@ != id@,
        decreases n - i,
    {
        if str_eq(state[i].id.as_str(), id) {
            assert(state@[i as int].id@ == id@);
            return true;
        }
        i += 1;
    }
    false
}

/// The running total after each landed, damaging outcome that names `id`
/// (as the attacker, or else as the target) adds its damage to `acc`,
/// wrapping at the ends of `i64`.
pub open spec fn outcome_total(outs: Seq<CombatAttackOutcome>, id: Seq<char>, as_actor: bool, acc: i64) -> i64
    decreases outs.len(),
{
    if outs.len() == 0 {
        acc
    } else {
        let a = outcome_total(outs.drop_last(), id, as_actor, acc);
        let o = outs.last();
        if o.hit && o.damage_hundredths > 0 && (if as_actor {
            o.actor_id@ == id
        } else {
            o.target_id@ == id
        }) {
            vstd::wrapping::i64_specs::wrapping_add(a, o.damage_hundredths)
        } else {
            a
        }
    }
}

/// The damage `id` dealt (as attacker) or took (as target) over all frames,
/// frame by frame and outcome by outcome.
pub open spec fn damage_total(frames: Seq<CombatResolutionFrame>, id: Seq<char>, as_actor: bool) -> i64
    decreases frames.len(),
{
    if frames.len() == 0 {
        0
    } else {
        outcome_total(frames.last().outcomes@, id, as_actor, damage_total(frames.drop_last(), id, as_actor))
    }
}

fn dealt_and_taken(frames: &Vec<CombatResolutionFrame>, id: &str) -> (r: (i64, i64))
    ensures
        r.0 == damage_total(frames@, id@, true),
        r.1 == damage_total(frames@, id@, false),
{
    let mut dealt: i64 = 0;
    let mut taken: i64 = 0;
    let nf = frames.len();
    let mut f: usize = 0;
    while f < nf
        invariant
            nf == frames@.len(),
            f <= nf,
            dealt == damage_total(frames@.take(f as int), id@, true),
            taken == damage_total(frames@.take(f as int), id@, false),
        decreases nf - f,
    {
        assert(frames@.take(f + 1).drop_last() =~= frames@.take(f as int));
        let outs = &frames[f].outcomes;
        let ghost d0 = dealt;
        let ghost t0 = taken;
        let no = outs.len();
        let mut k: usize = 0;
        while k < no
            invariant
                no == outs@.len(),
                k <= no,
                dealt == outcome_total(outs@.take(k as int), id@, true, d0),
                taken == outcome_total(outs@.take(k as int), id@, false, t0),
            decreases no - k,
        {
            assert(outs@.take(k + 1).drop_last() =~= outs@.take(k as int));
            let o = &outs[k];
            if o.hit && o.damage_hundredths > 0 {
                if str_eq(o.actor_id.as_str(), id) {
                    dealt = dealt.wrapping_add(o.damage_hundredths);
                }
                if str_eq(o.target_id.as_str(), id) {
                    taken = taken.wrapping_add(o.damage_hundredths);
                }
            }
            k += 1;
        }
        assert(outs@.take(no as int) =~= outs@);
        f += 1;
    }
    assert(frames@.take(nf as int) =~= frames@);
    (dealt, taken)
}

/// The attacker of the last landed, damaging outcome on `target`.
pub open spec fn last_hitter(outs: Seq<CombatAttackOutcome>, target: Seq<char>) -> Option<Seq<char>>
    decreases outs.len(),
{
    if outs.len() == 0 {
        None
    } else {
        let o = outs.last();
        if o.target_id@ == target && o.hit && o.damage_hundredths > 0 {
            Some(o.actor_id@)
        } else {
            last_hitter(outs.drop_last(), target)
        }
    }
}

/// Walking a frame's combatants in order: each one at or below zero health
/// not seen down before is recorded, credited to the last hitter on it in
/// that frame.
pub open spec fn credit_frame(
    cs: Seq<CombatResolutionCombatant>,
    outs: Seq<CombatAttackOutcome>,
    acc: (Seq<Seq<char>>, Seq<Option<Seq<char>>>),
) -> (Seq<Seq<char>>, Seq<Option<Seq<char>>>)
    decreases cs.len(),
{
    if cs.len() == 0 {
        acc
    } else {
        let a = credit_frame(cs.drop_last(), outs, acc);
        let c = cs.last();
        if c.current_health_hundredths <= 0 && !a.0.contains(c.id@) {
            (a.0.push(c.id@), a.1.push(last_hitter(outs, c.id@)))
        } else {
            a
        }
    }
}

/// The combatants first seen down, in the order they were seen, and who is
/// credited with each.
pub open spec fn credit_run(frames: Seq<CombatResolutionFrame>) -> (Seq<Seq<char>>, Seq<Option<Seq<char>>>)
    decreases frames.len(),
{
    if frames.len() == 0 {
        (Seq::empty(), Seq::empty())
    } else {
        credit_frame(frames.last().combatants@, frames.last().outcomes@, credit_run(frames.drop_last()))
    }
}

proof fn lemma_credit_frame_once(
    cs: Seq<CombatResolutionCombatant>,
    outs: Seq<CombatAttackOutcome>,
    acc: (Seq<Seq<char>>, Seq<Option<Seq<char>>>),
)
    requires
        acc.0.no_duplicates(),
        acc.0.len() == acc.1.len(),
    ensures
        credit_frame(cs, outs, acc).0.no_duplicates(),
        credit_frame(cs, outs, acc).0.len() == credit_frame(cs, outs, acc).1.len(),
        forall|x: Seq<char>| acc.0.contains(x) ==> #[trigger] credit_frame(cs, outs, acc).0.contains(x),
    decreases cs.len(),
{
    if cs.len() > 0 {
        lemma_credit_frame_once(cs.drop_last(), outs, acc);
        let a = credit_frame(cs.drop_last(), outs, acc);
        let c = cs.last();
        if c.current_health_hundredths <= 0 && !a.0.contains(c.id@) {
            let b = a.0.push(c.id@);
            assert forall|i: int, j: int| 0 <= i < j < b.len() implies b[i] != b[j] by {
                if j == b.len() - 1 {
                    assert(a.0[i] == b[i]);
                }
            }
            assert forall|x: Seq<char>| acc.0.contains(x) implies #[trigger] b.contains(x) by {
                assert(a.0.contains(x));
                let i = choose|i: int| 0 <= i < a.0.len() && a.0[i] == x;
                assert(b[i] == x);
            }
        }
    }
}

/// A combatant goes down, and is credited to a killer, at most once over a
/// whole battle: the downed list never repeats an id, and each entry has
/// its one credit.
pub proof fn lemma_credited_once(frames: Seq<CombatResolutionFrame>)
    ensures
        credit_run(frames).0.no_duplicates(),
        credit_run(frames).0.len() == credit_run(frames).1.len(),
    decreases frames.len(),
{
    if frames.len() > 0 {
        lemma_credited_once(frames.drop_last());
        lemma_credit_frame_once(frames.last().combatants@, frames.last().outcomes@, credit_run(frames.drop_last()));
    }
}

pub open spec fn opt_texts(s: Seq<Option<String>>) -> Seq<Option<Seq<char>>> {
    s.map_values(|o: Option<String>| crate::state::opt_text(o))
}

fn last_hitter_of(outs: &Vec<CombatAttackOutcome>, target: &str) -> (r: Option<String>)
    ensures
        crate::state::opt_text(r) == last_hitter(outs@, target@),
{
    let mut j: usize = outs.len();
    assert(outs@.take(j as int) =~= outs@);
    while j > 0
        invariant
            j <= outs@.len(),
            last_hitter(outs@, target@) == last_hitter(outs@.take(j as int), target@),
        decreases j,
    {
        let o = &outs[j - 1];
        assert(outs@.take(j as int).drop_last() =~= outs@.take(j - 1));
        assert(outs@.take(j as int).last() == outs@[j - 1]);
        if str_eq(o.target_id.as_str(), target) && o.hit && o.damage_hundredths > 0 {
            return Some(o.actor_id.clone());
        }
        j -= 1;
    }
    None
}

/// Each combatant first seen at or below zero health, with the frame it
/// was seen in, credited to the last damaging hit on it in that frame.
fn killers(frames: &Vec<CombatResolutionFrame>) -> (r: Vec<Option<String>>)
    ensures
        opt_texts(r@) == credit_run(frames@).1,
{
    let mut seen: Vec<String> = Vec::new();
    let mut credited: Vec<Option<String>> = Vec::new();
    let nf = frames.len();
    let mut f: usize = 0;
    while f < nf
        invariant
            nf == frames@.len(),
            f <= nf,
            crate::effects::texts(seen@) == credit_run(frames@.take(f as int)).0,
            opt_texts(credited@) == credit_run(frames@.take(f as int)).1,
        decreases nf - f,
    {
        assert(frames@.take(f + 1).drop_last() =~= frames@.take(f as int));
        let cs = &frames[f].combatants;
        let outs = &frames[f].outcomes;
        let ghost acc0 = credit_run(frames@.take(f as int));
        let nc = cs.len();
        let mut k: usize = 0;
        while k < nc
            invariant
                nc == cs@.len(),
                k <= nc,
                crate::effects::texts(seen@) == credit_frame(cs@.take(k as int), outs@, acc0).0,
                opt_texts(credited@) == credit_frame(cs@.take(k as int), outs@, acc0).1,
            decreases nc - k,
        {
            assert(cs@.take(k + 1).drop_last() =~= cs@.take(k as int));
            let c = &cs[k];
            let known = crate::combat_opportunity::contains_text(&seen, c.id.as_str());
            proof {
                let t = crate::effects::texts(seen@);
                if t.contains(c.id@) {
                    let q = choose|q: int| 0 <= q < t.len() && t[q] == c.id@;
                    assert(seen@[q]@ == c.id@);
                }
                if known {
                    let q = choose|q: int| 0 <= q < seen@.len() && #[trigger] seen@[q]@ == c.id@;
                    assert(t[q] == c.id@);
                }
            }
            if c.current_health_hundredths <= 0 && !known {
                let ghost s0 = seen@;
                let ghost c0 = credited@;
                seen.push(c.id.clone());
                let killer = last_hitter_of(outs, c.id.as_str());
                credited.push(killer);
                assert(crate::effects::texts(seen@) =~= crate::effects::texts(s0).push(c.id@));
                assert(opt_texts(credited@) =~= opt_texts(c0).push(last_hitter(outs@, c.id@)));
            }
            k += 1;
        }
        assert(cs@.take(nc as int) =~= cs@);
        f += 1;
    }
    assert(frames@.take(nf as int) =~= frames@);
    credited
}

/// How many of the credits name `id`, counting with wrap-around.
pub open spec fn credit_count(credited: Seq<Option<Seq<char>>>, id: Seq<char>) -> u32
    decreases credited.len(),
{
    if credited.len() == 0 {
        0
    } else {
        let c = credit_count(credited.drop_last(), id);
        if credited.last() == Some(id) {
            vstd::wrapping::u32_specs::wrapping_add(c, 1)
        } else {
            c
        }
    }
}

fn kills_of(credited: &Vec<Option<String>>, id: &str) -> (r: u32)
    ensures
        r == credit_count(opt_texts(credited@), id@),
{
    let mut count: u32 = 0;
    let n = credited.len();
    let mut i: usize = 0;
    while i < n
        invariant
            n == credited@.len(),
            i <= n,
            count == credit_count(opt_texts(credited@.take(i as int)), id@),
        decreases n - i,
    {
        assert(opt_texts(credited@.take(i + 1)).drop_last() =~= opt_texts(credited@.take(i as int)));
        assert(opt_texts(credited@.take(i + 1)).last() == crate::state::opt_text(credited@[i as int]));
        match &credited[i] {
            Some(k) => {
                if str_eq(k.as_str(), id) {
                    count = count.wrapping_add(1);
                }
            },
            None => {},
        }
        i += 1;
    }
    assert(credited@.take(n as int) =~= credited@);
    count
}

/// The health the snapshot lists first for `id`, if it lists it.
pub open spec fn snapshot_health(cs: Seq<CombatResolutionCombatant>, id: Seq<char>) -> Option<i64>
    decreases cs.len(),
{
    if cs.len() == 0 {
        None
    } else if cs[0].id@ == id {
        Some(cs[0].current_health_hundredths)
    } else {
        snapshot_health(cs.drop_first(), id)
    }
}

/// The health `id` ends with: as the last frame's (non-empty) snapshot
/// lists it, else as the final state lists it, else zero.
pub open spec fn final_health(frames: Seq<CombatResolutionFrame>, state: Seq<CombatResolutionCombatant>, id: Seq<char>) -> i64 {
    if frames.len() > 0 && frames.last().combatants@.len() > 0 && snapshot_health(frames.last().combatants@, id) is Some {
        snapshot_health(frames.last().combatants@, id)->Some_0
    } else {
        health_in(state, id, 0)
    }
}

fn ended_down(frames: &Vec<CombatResolutionFrame>, state: &Vec<CombatResolutionCombatant>, id: &str) -> (r: bool)
    ensures
        r == (final_health(frames@, state@, id@) <= 0),
{
    if frames.len() > 0 {
        let snapshot = &frames[frames.len() - 1].combatants;
        if snapshot.len() > 0 {
            let n = snapshot.len();
            let mut i: usize = 0;
            assert(snapshot@.skip(0) =~= snapshot@);
            while i < n
                invariant
                    n == snapshot@.len(),
                    n > 0,
                    frames@.len() > 0,
                    i <= n,
                    snapshot@ == frames@.last().combatants@,
                    snapshot_health(snapshot@, id@) == snapshot_health(snapshot@.skip(i as int), id@),
                decreases n - i,
            {
                let ghost rest = snapshot@.skip(i as int);
                assert(rest.drop_first() =~= snapshot@.skip(i + 1));
                assert(rest[0] == snapshot@[i as int]);
                if str_eq(snapshot[i].id.as_str(), id) {
                    assert(snapshot_health(rest, id@) == Some(snapshot@[i as int].current_health_hundredths));
                    return snapshot[i].current_health_hundredths <= 0;
                }
                i += 1;
            }
            assert(snapshot@.skip(n as int) =~= Seq::<CombatResolutionCombatant>::empty());
        }
    }
    health_of(state, id, 0) <= 0
}

/// Participant `i` has a blank id or repeats an earlier one.
pub open spec fn participant_bad(ps: Seq<CombatSimulationParticipant>, i: int) -> bool {
    crate::text::blank(ps[i].id@) || exists|j: int| 0 <= j < i && #[trigger] ps[j].id@ == ps[i].id@
}

/// State entry `i` repeats an earlier id.
pub open spec fn state_repeats(state: Seq<CombatResolutionCombatant>, i: int) -> bool {
    exists|j: int| 0 <= j < i && #[trigger] state[j].id@ == state[i].id@
}

pub open spec fn participants_clean(ps: Seq<CombatSimulationParticipant>) -> bool {
    forall|k: int| 0 <= k < ps.len() ==> !#[trigger] participant_bad(ps, k)
}

pub open spec fn states_clean(state: Seq<CombatResolutionCombatant>) -> bool {
    forall|k: int| 0 <= k < state.len() ==> !#[trigger] state_repeats(state, k)
}

/// Both lists name the same combatants: as many of each, every participant
/// listed in the state.
pub open spec fn rosters_match(ps: Seq<CombatSimulationParticipant>, state: Seq<CombatResolutionCombatant>) -> bool {
    ps.len() == state.len() && forall|k: int| 0 <= k < ps.len() ==> state_lists(state, #[trigger] ps[k].id@)
}

/// Both rosters are clean and name the same combatants.
pub open spec fn rosters_ok(ps: Seq<CombatSimulationParticipant>, state: Seq<CombatResolutionCombatant>) -> bool {
    participants_clean(ps) && states_clean(state) && rosters_match(ps, state)
}

/// The roster error reported: the first participant with a blank or
/// repeated id, else the first repeated state id, else a mismatch.
pub open spec fn rosters_error(
    ps: Seq<CombatSimulationParticipant>,
    state: Seq<CombatResolutionCombatant>,
    e: CombatConclusionError,
) -> bool {
    match e {
        CombatConclusionError::DuplicateParticipant(x) => exists|i: int|
            0 <= i < ps.len() && participant_bad(ps, i) && x@ == ps[i].id@ && forall|k: int|
                0 <= k < i ==> !#[trigger] participant_bad(ps, k),
        CombatConclusionError::DuplicateState(x) => participants_clean(ps) && exists|i: int|
            0 <= i < state.len() && state_repeats(state, i) && x@ == state[i].id@ && forall|k: int|
                0 <= k < i ==> !#[trigger] state_repeats(state, k),
        CombatConclusionError::ParticipantStateMismatch => participants_clean(ps) && states_clean(state)
            && !rosters_match(ps, state),
        _ => false,
    }
}

/// Participant ids are non-blank and distinct, state ids distinct, and the
/// two name the same combatants. The first bad participant is reported,
/// then the first repeated state id, then a mismatch.
fn check_rosters(ps: &Vec<CombatSimulationParticipant>, state: &Vec<CombatResolutionCombatant>) -> (r: Result<(), CombatConclusionError>)
    ensures
        r is Ok <==> rosters_ok(ps@, state@),
        r matches Err(e) ==> rosters_error(ps@, state@, e),
        match r {
            Ok(()) => participants_clean(ps@) && states_clean(state@) && rosters_match(ps@, state@),
            Err(CombatConclusionError::DuplicateParticipant(x)) => exists|i: int|
                0 <= i < ps@.len() && participant_bad(ps@, i) && x@ == ps@[i].id@ && forall|k: int|
                    0 <= k < i ==> !#[trigger] participant_bad(ps@, k),
            Err(CombatConclusionError::DuplicateState(x)) => participants_clean(ps@) && exists|i: int|
                0 <= i < state@.len() && state_repeats(state@, i) && x@ == state@[i].id@ && forall|k: int|
                    0 <= k < i ==> !#[trigger] state_repeats(state@, k),
            Err(CombatConclusionError::ParticipantStateMismatch) => participants_clean(ps@) && states_clean(state@)
                && !rosters_match(ps@, state@),
            Err(_) => false,
        },
{
    let np = ps.len();
    let mut i: usize = 0;
    while i < np
        invariant
            np == ps@.len(),
            i <= np,
            forall|k: int| 0 <= k < i ==> !#[trigger] participant_bad(ps@, k),
        decreases np - i,
    {
        if is_blank(ps[i].id.as_str()) {
            assert(participant_bad(ps@, i as int));
            let x = ps[i].id.clone();
            assert(exists|w: int|
                0 <= w < ps@.len() && participant_bad(ps@, w) && x@ == ps@[w].id@ && forall|k: int|
                    0 <= k < w ==> !#[trigger] participant_bad(ps@, k));
            return Err(CombatConclusionError::DuplicateParticipant(x));
        }
        let mut j: usize = 0;
        while j < i
            invariant
                np == ps@.len(),
                i < np,
                j <= i,
                forall|k: int| 0 <= k < i ==> !#[trigger] participant_bad(ps@, k),
                forall|q: int| 0 <= q < j ==> #[trigger] ps@[q].id@ != ps@[i as int].id@,
            decreases i - j,
        {
            if str_eq(ps[j].id.as_str(), ps[i].id.as_str()) {
                assert(participant_bad(ps@, i as int));
                let x = ps[i].id.clone();
                assert(exists|w: int|
                    0 <= w < ps@.len() && participant_bad(ps@, w) && x@ == ps@[w].id@ && forall|k: int|
                        0 <= k < w ==> !#[trigger] participant_bad(ps@, k));
                return Err(CombatConclusionError::DuplicateParticipant(x));
            }
            j += 1;
        }
        assert(!participant_bad(ps@, i as int));
        i += 1;
    }
    let ns = state.len();
    let mut i: usize = 0;
    while i < ns
        invariant
            ns == state@.len(),
            i <= ns,
            participants_clean(ps@),
            forall|k: int| 0 <= k < i ==> !#[trigger] state_repeats(state@, k),
        decreases ns - i,
    {
        let mut j: usize = 0;
        while j < i
            invariant
                ns == state@.len(),
                i < ns,
                j <= i,
                participants_clean(ps@),
                forall|k: int| 0 <= k < i ==> !#[trigger] state_repeats(state@, k),
                forall|q: int| 0 <= q < j ==> #[trigger] state@[q].id@ != state@[i as int].id@,
            decreases i - j,
        {
            if str_eq(state[j].id.as_str(), state[i].id.as_str()) {
                assert(state_repeats(state@, i as int));
                let x = state[i].id.clone();
                assert(exists|w: int|
                    0 <= w < state@.len() && state_repeats(state@, w) && x@ == state@[w].id@ && forall|k: int|
                        0 <= k < w ==> !#[trigger] state_repeats(state@, k));
                return Err(CombatConclusionError::DuplicateState(x));
            }
            j += 1;
        }
        assert(!state_repeats(state@, i as int));
        i += 1;
    }
    if np != ns {
        return Err(CombatConclusionError::ParticipantStateMismatch);
    }
    let mut i: usize = 0;
    while i < np
        invariant
            np == ps@.len(),
            np == state@.len(),
            i <= np,
            participants_clean(ps@),
            states_clean(state@),
            forall|k: int| 0 <= k < i ==> state_lists(state@, #[trigger] ps@[k].id@),
        decreases np - i,
    {
        if !has_state(state, ps[i].id.as_str()) {
            return Err(CombatConclusionError::ParticipantStateMismatch);
        }
        i += 1;
    }
    Ok(())
}

fn frames_within(frames: &Vec<CombatResolutionFrame>, max_ticks: u32) -> (b: bool)
    ensures
        b == forall|k: int| 0 <= k < frames@.len() ==> #[trigger] frames@[k].tick <= max_ticks,
{
    let nf = frames.len();
    let mut i: usize = 0;
    while i < nf
        invariant
            nf == frames@.len(),
            i <= nf,
            forall|k: int| 0 <= k < i ==> #[trigger] frames@[k].tick <= max_ticks,
        decreases nf - i,
    {
        if frames[i].tick > max_ticks {
            return false;
        }
        i += 1;
    }
    true
}

pub open spec fn participant_order() -> spec_fn(CombatSimulationParticipant, CombatSimulationParticipant) -> int {
    |a: CombatSimulationParticipant, b: CombatSimulationParticipant| str_ord(a.id@, b.id@)
}

/// Whether a conclusion is owed: provenance with a tick length, a positive
/// tick limit, clean matching rosters, someone active on each side, and no
/// frame past the limit.
pub open spec fn conclusion_ready(request: CombatConclusionRequest) -> bool {
    &&& request.resolution.execution.provenance matches Some(p) && p.tick_millis > 0
    &&& request.policy.max_ticks > 0
    &&& rosters_ok(request.participants@, request.resolution.state.combatants@)
    &&& active_on(request.participants@, CombatSide::Ally).len() > 0
    &&& active_on(request.participants@, CombatSide::Enemy).len() > 0
    &&& forall|k: int| 0 <= k < request.resolution.frames@.len() ==> #[trigger] request.resolution.frames@[k].tick
        <= request.policy.max_ticks
}

proof fn lemma_listed_push(s: Seq<String>, t: String, x: Seq<char>)
    ensures
        listed_id(s.push(t), x) <==> listed_id(s, x) || t@ == x,
{
    if listed_id(s.push(t), x) {
        let m = choose|m: int| 0 <= m < s.push(t).len() && #[trigger] s.push(t)[m]@ == x;
        if m < s.len() {
            assert(s.push(t)[m] == s[m]);
        }
    }
    if listed_id(s, x) {
        let m = choose|m: int| 0 <= m < s.len() && #[trigger] s[m]@ == x;
        assert(s.push(t)[m] == s[m]);
    }
    if t@ == x {
        assert(s.push(t)[s.len() as int] == t);
    }
}

/// `p` matches (field for field) a participant of `ps`.
pub open spec fn participant_listed(ps: Seq<CombatSimulationParticipant>, p: CombatSimulationParticipant) -> bool {
    exists|k: int| 0 <= k < ps.len() && same_participant(p, #[trigger] ps[k])
}

/// Some entry of `sorted` matches `p` field for field.
pub open spec fn sorted_lists(sorted: Seq<CombatSimulationParticipant>, p: CombatSimulationParticipant) -> bool {
    exists|j: int| 0 <= j < sorted.len() && same_participant(#[trigger] sorted[j], p)
}

/// `report` gives combatant `id` its damage dealt and taken over the
/// frames, its kills and whether it ended down.
pub open spec fn combatant_reported(
    frames: Seq<CombatResolutionFrame>,
    state: Seq<CombatResolutionCombatant>,
    credits: Seq<Option<Seq<char>>>,
    report: CombatCombatantReport,
    id: Seq<char>,
) -> bool {
    &&& report.id@ == id
    &&& report.damage_dealt_hundredths == damage_total(frames, id, true)
    &&& report.damage_taken_hundredths == damage_total(frames, id, false)
    &&& report.kills == credit_count(credits, id)
    &&& report.incapacitated == (final_health(frames, state, id) <= 0)
}

/// Some report is combatant `id`'s.
pub open spec fn reported_id(reports: Seq<CombatCombatantReport>, id: Seq<char>) -> bool {
    exists|j: int| 0 <= j < reports.len() && (#[trigger] reports[j]).id@ == id
}

/// The lists of a report: survivors and the defeated among the active
/// participants, removed (combat-only) and retained effect ids, one
/// combatant report per participant with its damage, kills and
/// incapacitation, and the one who took the most damage.
pub open spec fn report_lists(request: CombatConclusionRequest, rep: CombatConclusionReport) -> bool {
    let ps = request.participants@;
    let state = request.resolution.state.combatants@;
    let effects = request.resolution.state.active_effects@;
    let frames = request.resolution.frames@;
    &&& forall|x: Seq<char>| listed_id(rep.survivor_ids@, x) <==> exists|k: int| 0 <= k < ps.len() && #[trigger] ps[k].id@ == x
        && ps[k].active && health_in(state, x, 0) > 0
    &&& forall|x: Seq<char>| listed_id(rep.defeated_ids@, x) <==> exists|k: int| 0 <= k < ps.len() && #[trigger] ps[k].id@ == x
        && ps[k].active && health_in(state, x, 0) <= 0
    &&& ids_sorted(rep.removed_combat_effect_ids@)
    &&& ids_sorted(rep.retained_effect_ids@)
    &&& forall|x: Seq<char>| listed_id(rep.removed_combat_effect_ids@, x) <==> exists|j: int| 0 <= j < effects.len()
        && #[trigger] effects[j].definition_id@ == x && effects[j].combat_only
    &&& forall|x: Seq<char>| listed_id(rep.retained_effect_ids@, x) <==> exists|j: int| 0 <= j < effects.len()
        && #[trigger] effects[j].definition_id@ == x && !effects[j].combat_only
    &&& rep.combatants@.len() == ps.len()
    &&& forall|j: int| 0 <= j < rep.combatants@.len() ==> #[trigger] combatant_reported(
        frames,
        state,
        credit_run(frames).1,
        rep.combatants@[j],
        rep.combatants@[j].id@,
    )
    &&& forall|k: int| 0 <= k < ps.len() ==> #[trigger] reported_id(rep.combatants@, ps[k].id@)
    &&& match top_index(rep.combatants@.map_values(|c: CombatCombatantReport| c.damage_taken_hundredths)) {
        Some(i) => rep.top_damage_taken_id is Some && rep.top_damage_taken_id->Some_0@ == rep.combatants@[i].id@,
        None => rep.top_damage_taken_id is None,
    }
}

/// Participants with distinct ids, sorted by id, are in strictly ascending
/// id order.
proof fn lemma_sorted_ids_strict(
    ps: Seq<CombatSimulationParticipant>,
    unsorted: Seq<CombatSimulationParticipant>,
    sorted: Seq<CombatSimulationParticipant>,
)
    requires
        participants_clean(ps),
        unsorted.len() == ps.len(),
        forall|k: int| 0 <= k < unsorted.len() ==> same_participant(#[trigger] unsorted[k], ps[k]),
        sorted == crate::order::sort_seq(unsorted, participant_order()),
    ensures
        forall|a: int, b: int| 0 <= a < b < sorted.len() ==> str_ord(#[trigger] sorted[a].id@, #[trigger] sorted[b].id@) < 0,
{
    crate::order::lemma_keyed_order_total(participant_order(), |p: CombatSimulationParticipant| p.id@);
    crate::order::lemma_sort_seq(unsorted, participant_order());
    assert forall|a: int, b: int| 0 <= a < b < unsorted.len() implies (|p: CombatSimulationParticipant| p.id@)(
        #[trigger] unsorted[a],
    ) != (|p: CombatSimulationParticipant| p.id@)(#[trigger] unsorted[b]) by {
        assert(same_participant(unsorted[a], ps[a]) && same_participant(unsorted[b], ps[b]));
        assert(!participant_bad(ps, b));
    }
    crate::order::lemma_sort_keeps_keys_distinct(unsorted, participant_order(), |p: CombatSimulationParticipant| p.id@);
    assert forall|a: int, b: int| 0 <= a < b < sorted.len() implies str_ord(#[trigger] sorted[a].id@, #[trigger] sorted[b].id@) < 0 by {
        assert(participant_order()(sorted[a], sorted[b]) <= 0);
        if str_ord(sorted[a].id@, sorted[b].id@) == 0 {
            crate::order::lemma_str_ord_zero(sorted[a].id@, sorted[b].id@);
        }
    }
}

/// The active participants of `sorted` split into survivors (health above
/// zero in `state`) and the defeated, each list in the order of `sorted`.
fn split_by_health(sorted: &Vec<CombatSimulationParticipant>, state: &Vec<CombatResolutionCombatant>) -> (r: (Vec<String>, Vec<String>))
    requires
        forall|a: int, b: int| 0 <= a < b < sorted@.len() ==> str_ord(#[trigger] sorted@[a].id@, #[trigger] sorted@[b].id@) < 0,
    ensures
        ids_sorted(r.0@),
        ids_sorted(r.1@),
        forall|x: Seq<char>| listed_id(r.0@, x) <==> exists|j: int| 0 <= j < sorted@.len() && #[trigger] sorted@[j].id@ == x
            && sorted@[j].active && health_in(state@, x, 0) > 0,
        forall|x: Seq<char>| listed_id(r.1@, x) <==> exists|j: int| 0 <= j < sorted@.len() && #[trigger] sorted@[j].id@ == x
            && sorted@[j].active && health_in(state@, x, 0) <= 0,
{
    let mut survivor_ids: Vec<String> = Vec::new();
    let mut defeated_ids: Vec<String> = Vec::new();
    let n = sorted.len();
    let mut i: usize = 0;
    while i < n
        invariant
            n == sorted@.len(),
            i <= n,
            forall|a: int, b: int| 0 <= a < b < sorted@.len() ==> str_ord(#[trigger] sorted@[a].id@, #[trigger] sorted@[b].id@) < 0,
            ids_sorted(survivor_ids@),
            ids_sorted(defeated_ids@),
            i < n ==> forall|t: int| 0 <= t < survivor_ids@.len() ==> str_ord(#[trigger] survivor_ids@[t]@, sorted@[i as int].id@) < 0,
            i < n ==> forall|t: int| 0 <= t < defeated_ids@.len() ==> str_ord(#[trigger] defeated_ids@[t]@, sorted@[i as int].id@) < 0,
            forall|x: Seq<char>| listed_id(survivor_ids@, x) <==> exists|j: int| 0 <= j < i && #[trigger] sorted@[j].id@ == x
                && sorted@[j].active && health_in(state@, x, 0) > 0,
            forall|x: Seq<char>| listed_id(defeated_ids@, x) <==> exists|j: int| 0 <= j < i && #[trigger] sorted@[j].id@ == x
                && sorted@[j].active && health_in(state@, x, 0) <= 0,
        decreases n - i,
    {
        let p = &sorted[i];
        let ghost sb = survivor_ids@;
        let ghost db = defeated_ids@;
        if p.active {
            if health_of(state, p.id.as_str(), 0) > 0 {
                survivor_ids.push(p.id.clone());
            } else {
                defeated_ids.push(p.id.clone());
            }
        }
        proof {
            assert forall|a: int, b: int| 0 <= a < b < survivor_ids@.len() implies str_ord(#[trigger] survivor_ids@[a]@, #[trigger] survivor_ids@[b]@) < 0 by {
                if b < sb.len() {
                    assert(survivor_ids@[a] == sb[a] && survivor_ids@[b] == sb[b]);
                } else {
                    assert(survivor_ids@[a] == sb[a]);
                    assert(str_ord(sb[a]@, sorted@[i as int].id@) < 0);
                }
            }
            assert forall|a: int, b: int| 0 <= a < b < defeated_ids@.len() implies str_ord(#[trigger] defeated_ids@[a]@, #[trigger] defeated_ids@[b]@) < 0 by {
                if b < db.len() {
                    assert(defeated_ids@[a] == db[a] && defeated_ids@[b] == db[b]);
                } else {
                    assert(defeated_ids@[a] == db[a]);
                    assert(str_ord(db[a]@, sorted@[i as int].id@) < 0);
                }
            }
            if i + 1 < n {
                let next = sorted@[i + 1].id@;
                assert(str_ord(sorted@[i as int].id@, next) < 0);
                assert forall|t: int| 0 <= t < survivor_ids@.len() implies str_ord(#[trigger] survivor_ids@[t]@, next) < 0 by {
                    if t < sb.len() {
                        assert(survivor_ids@[t] == sb[t]);
                        crate::combat_opportunity::lemma_str_strict_trans(sb[t]@, sorted@[i as int].id@, next);
                    }
                }
                assert forall|t: int| 0 <= t < defeated_ids@.len() implies str_ord(#[trigger] defeated_ids@[t]@, next) < 0 by {
                    if t < db.len() {
                        assert(defeated_ids@[t] == db[t]);
                        crate::combat_opportunity::lemma_str_strict_trans(db[t]@, sorted@[i as int].id@, next);
                    }
                }
            }
            assert forall|x: Seq<char>| listed_id(survivor_ids@, x) <==> exists|j: int| 0 <= j < i + 1 && #[trigger] sorted@[j].id@ == x
                && sorted@[j].active && health_in(state@, x, 0) > 0 by {
                lemma_listed_push(sb, p.id, x);
                if exists|j: int| 0 <= j < i + 1 && #[trigger] sorted@[j].id@ == x && sorted@[j].active && health_in(state@, x, 0) > 0 {
                    let j = choose|j: int| 0 <= j < i + 1 && #[trigger] sorted@[j].id@ == x && sorted@[j].active && health_in(state@, x, 0) > 0;
                    if j < i {
                        assert(listed_id(sb, x));
                    }
                }
            }
            assert forall|x: Seq<char>| listed_id(defeated_ids@, x) <==> exists|j: int| 0 <= j < i + 1 && #[trigger] sorted@[j].id@ == x
                && sorted@[j].active && health_in(state@, x, 0) <= 0 by {
                lemma_listed_push(db, p.id, x);
                if exists|j: int| 0 <= j < i + 1 && #[trigger] sorted@[j].id@ == x && sorted@[j].active && health_in(state@, x, 0) <= 0 {
                    let j = choose|j: int| 0 <= j < i + 1 && #[trigger] sorted@[j].id@ == x && sorted@[j].active && health_in(state@, x, 0) <= 0;
                    if j < i {
                        assert(listed_id(db, x));
                    }
                }
            }
        }
        i += 1;
    }
    (survivor_ids, defeated_ids)
}

/// The report on a resolved battle: which side won and why, who survived,
/// which effects end with the battle, how long it took, and each
/// combatant's record.
#[verifier::rlimit(40)]
pub fn conclude(request: CombatConclusionRequest) -> (r: Result<CombatConclusionReport, CombatConclusionError>)
    ensures
        (request.resolution.execution.provenance matches Some(p) ==> p.tick_millis == 0) ==> r == Err::<CombatConclusionReport, CombatConclusionError>(
            CombatConclusionError::MissingProvenance,
        ),
        (request.resolution.execution.provenance matches Some(p) && p.tick_millis > 0) && request.policy.max_ticks == 0 ==> r
            == Err::<CombatConclusionReport, CombatConclusionError>(CombatConclusionError::InvalidPolicy),
        r matches Ok(rep) ==> (rep.outcome, rep.reason) == outcome_for(
            wiped_out(request.participants@, CombatSide::Ally, request.resolution.state.combatants@),
            wiped_out(request.participants@, CombatSide::Enemy, request.resolution.state.combatants@),
            request.resolution.frames@.len() > 0 && request.resolution.frames@.last().tick == request.policy.max_ticks
                && request.policy.conclude_on_max_ticks,
        ),
        r matches Ok(rep) ==> (wiped_out(request.participants@, CombatSide::Enemy, request.resolution.state.combatants@)
            && !wiped_out(request.participants@, CombatSide::Ally, request.resolution.state.combatants@) ==> rep.outcome
            == CombatConclusionOutcome::AllyVictory && rep.reason == CombatConclusionReason::AllEnemiesDefeated),
        r matches Ok(rep) ==> (wiped_out(request.participants@, CombatSide::Ally, request.resolution.state.combatants@)
            && !wiped_out(request.participants@, CombatSide::Enemy, request.resolution.state.combatants@) ==> rep.outcome
            == CombatConclusionOutcome::EnemyVictory && rep.reason == CombatConclusionReason::AllAlliesDefeated),
        r matches Ok(rep) ==> (wiped_out(request.participants@, CombatSide::Ally, request.resolution.state.combatants@)
            && wiped_out(request.participants@, CombatSide::Enemy, request.resolution.state.combatants@) ==> rep.outcome
            == CombatConclusionOutcome::MutualDefeat && rep.reason == CombatConclusionReason::BothSidesDefeated),
        r matches Ok(rep) ==> (!wiped_out(request.participants@, CombatSide::Ally, request.resolution.state.combatants@)
            && !wiped_out(request.participants@, CombatSide::Enemy, request.resolution.state.combatants@) ==> if request.resolution.frames@.len()
            > 0 && request.resolution.frames@.last().tick == request.policy.max_ticks && request.policy.conclude_on_max_ticks {
            rep.outcome == CombatConclusionOutcome::Stalemate && rep.reason == CombatConclusionReason::MaxTicksReached
        } else {
            rep.outcome == CombatConclusionOutcome::InProgress && rep.reason == CombatConclusionReason::NoTerminalCondition
        }),
        r matches Ok(rep) ==> rep.active_allies == active_on(request.participants@, CombatSide::Ally).len() as u32,
        r matches Ok(rep) ==> rep.active_enemies == active_on(request.participants@, CombatSide::Enemy).len() as u32,
        r matches Ok(rep) ==> active_on(request.participants@, CombatSide::Ally).len() > 0
            && active_on(request.participants@, CombatSide::Enemy).len() > 0,
        r matches Ok(rep) ==> forall|i: int| 0 <= i < request.resolution.frames@.len() ==> #[trigger] request.resolution.frames@[i].tick
            <= request.policy.max_ticks,
        r matches Ok(rep) ==> (rep.decisive_tick is Some <==> (rep.outcome != CombatConclusionOutcome::InProgress && request.resolution.frames@.len() > 0)),
        r matches Ok(rep) ==> rep.resolution_fingerprint == request.resolution.fingerprint,
        r matches Ok(rep) ==> match top_index(rep.combatants@.map_values(|c: CombatCombatantReport| c.damage_dealt_hundredths)) {
            Some(i) => rep.top_damage_dealt_id is Some && rep.top_damage_dealt_id->Some_0@ == rep.combatants@[i].id@,
            None => rep.top_damage_dealt_id is None,
        },
        r matches Ok(rep) ==> rep.fingerprint@ == fingerprint_of(enc(report_unsigned_json(rep))),
        r matches Ok(rep) ==> report_lists(request, rep),
        r matches Ok(rep) ==> crate::combat_opportunity::ids_sorted(rep.survivor_ids@) && crate::combat_opportunity::ids_sorted(
            rep.defeated_ids@,
        ),
        (request.resolution.execution.provenance matches Some(p) && p.tick_millis > 0) && request.policy.max_ticks > 0
            && !rosters_ok(request.participants@, request.resolution.state.combatants@) ==> (r matches Err(e)
            && rosters_error(request.participants@, request.resolution.state.combatants@, e)),
        (request.resolution.execution.provenance matches Some(p) && p.tick_millis > 0) && request.policy.max_ticks > 0
            && rosters_ok(request.participants@, request.resolution.state.combatants@) && (active_on(
            request.participants@,
            CombatSide::Ally,
        ).len() == 0 || active_on(request.participants@, CombatSide::Enemy).len() == 0) ==> r
            == Err::<CombatConclusionReport, CombatConclusionError>(CombatConclusionError::EmptyActiveSide),
        (request.resolution.execution.provenance matches Some(p) && p.tick_millis > 0) && request.policy.max_ticks > 0
            && rosters_ok(request.participants@, request.resolution.state.combatants@) && active_on(
            request.participants@,
            CombatSide::Ally,
        ).len() > 0 && active_on(request.participants@, CombatSide::Enemy).len() > 0 && (exists|k: int|
            0 <= k < request.resolution.frames@.len() && #[trigger] request.resolution.frames@[k].tick
                > request.policy.max_ticks) ==> r == Err::<CombatConclusionReport, CombatConclusionError>(
            CombatConclusionError::FrameExceedsPolicy,
        ),
        conclusion_ready(request) <==> r is Ok,
        r matches Ok(rep) ==> rep.decisive_tick == (if rep.outcome != CombatConclusionOutcome::InProgress
            && request.resolution.frames@.len() > 0 {
            Some(request.resolution.frames@.last().tick)
        } else {
            None::<u32>
        }),
        r matches Ok(rep) ==> rep.duration_millis == match rep.decisive_tick {
            Some(t) => t * request.resolution.execution.provenance->Some_0.tick_millis,
            None => (if request.resolution.frames@.len() > 0xffff_ffff {
                0xffff_ffff
            } else {
                request.resolution.frames@.len() as int
            }) * request.resolution.execution.provenance->Some_0.tick_millis,
        },
{
    let tick_millis = match &request.resolution.execution.provenance {
        Some(p) => {
            if p.tick_millis == 0 {
                return Err(CombatConclusionError::MissingProvenance);
            }
            p.tick_millis
        },
        None => {
            return Err(CombatConclusionError::MissingProvenance);
        },
    };
    if request.policy.max_ticks == 0 {
        return Err(CombatConclusionError::InvalidPolicy);
    }
    let ps = &request.participants;
    let state = &request.resolution.state.combatants;
    check_rosters(ps, state)?;
    let np = ps.len();
    let allies = count_active(ps, CombatSide::Ally);
    let enemies = count_active(ps, CombatSide::Enemy);
    if allies == 0 || enemies == 0 {
        return Err(CombatConclusionError::EmptyActiveSide);
    }
    let frames = &request.resolution.frames;
    let nf = frames.len();
    if !frames_within(frames, request.policy.max_ticks) {
        return Err(CombatConclusionError::FrameExceedsPolicy);
    }
    let allies_down = side_wiped(ps, CombatSide::Ally, state);
    let enemies_down = side_wiped(ps, CombatSide::Enemy, state);
    let last_tick: Option<u32> = if nf > 0 { Some(frames[nf - 1].tick) } else { None };
    let at_limit = match last_tick {
        Some(t) => t == request.policy.max_ticks && request.policy.conclude_on_max_ticks,
        None => false,
    };
    let (outcome, reason) = if allies_down && enemies_down {
        (CombatConclusionOutcome::MutualDefeat, CombatConclusionReason::BothSidesDefeated)
    } else if enemies_down {
        (CombatConclusionOutcome::AllyVictory, CombatConclusionReason::AllEnemiesDefeated)
    } else if allies_down {
        (CombatConclusionOutcome::EnemyVictory, CombatConclusionReason::AllAlliesDefeated)
    } else if at_limit {
        (CombatConclusionOutcome::Stalemate, CombatConclusionReason::MaxTicksReached)
    } else {
        (CombatConclusionOutcome::InProgress, CombatConclusionReason::NoTerminalCondition)
    };
    let terminal = !(match outcome {
        CombatConclusionOutcome::InProgress => true,
        _ => false,
    });
    // participants in id order
    let mut copies: Vec<CombatSimulationParticipant> = Vec::new();
    let mut i: usize = 0;
    while i < np
        invariant
            np == ps@.len(),
            i <= np,
            copies@.len() == i,
            forall|k: int| 0 <= k < i ==> same_participant(#[trigger] copies@[k], ps@[k]),
        decreases np - i,
    {
        copies.push(ps[i].clone());
        i += 1;
    }
    let by_id = |a: &CombatSimulationParticipant, b: &CombatSimulationParticipant| -> (r: i8)
        ensures
            r as int == str_ord(a.id@, b.id@),
        { compare_str(a.id.as_str(), b.id.as_str()) };
    let ghost unsorted = copies@;
    let sorted = sort_by_order(copies, by_id, Ghost(participant_order()));
    proof {
        lemma_sorted_ids_strict(ps@, unsorted, sorted@);
    }
    let (survivor_ids, defeated_ids) = split_by_health(&sorted, state);
    let n = sorted.len();
    let mut removed: Vec<String> = Vec::new();
    let mut retained: Vec<String> = Vec::new();
    let effects = &request.resolution.state.active_effects;
    let ne = effects.len();
    let mut i: usize = 0;
    while i < ne
        invariant
            ne == effects@.len(),
            i <= ne,
            crate::combat_opportunity::ids_sorted(removed@),
            crate::combat_opportunity::ids_sorted(retained@),
            forall|x: Seq<char>| listed_id(removed@, x) <==> exists|j: int| 0 <= j < i && #[trigger] effects@[j].definition_id@ == x
                && effects@[j].combat_only,
            forall|x: Seq<char>| listed_id(retained@, x) <==> exists|j: int| 0 <= j < i && #[trigger] effects@[j].definition_id@ == x
                && !effects@[j].combat_only,
        decreases ne - i,
    {
        if effects[i].combat_only {
            crate::combat_opportunity::insert_text_sorted(&mut removed, &effects[i].definition_id);
        } else {
            crate::combat_opportunity::insert_text_sorted(&mut retained, &effects[i].definition_id);
        }
        proof {
            assert forall|x: Seq<char>| listed_id(removed@, x) <==> exists|j: int| 0 <= j < i + 1 && #[trigger] effects@[j].definition_id@ == x
                && effects@[j].combat_only by {
                if exists|j: int| 0 <= j < i + 1 && #[trigger] effects@[j].definition_id@ == x && effects@[j].combat_only {
                    let j = choose|j: int| 0 <= j < i + 1 && #[trigger] effects@[j].definition_id@ == x && effects@[j].combat_only;
                }
            }
            assert forall|x: Seq<char>| listed_id(retained@, x) <==> exists|j: int| 0 <= j < i + 1 && #[trigger] effects@[j].definition_id@ == x
                && !effects@[j].combat_only by {
                if exists|j: int| 0 <= j < i + 1 && #[trigger] effects@[j].definition_id@ == x && !effects@[j].combat_only {
                    let j = choose|j: int| 0 <= j < i + 1 && #[trigger] effects@[j].definition_id@ == x && !effects@[j].combat_only;
                }
            }
        }
        i += 1;
    }
    let decisive_tick: Option<u32> = if terminal { last_tick } else { None };
    let duration_millis: u64 = match decisive_tick {
        Some(t) => {
            let ticks: u64 = t as u64;
            let per: u64 = tick_millis as u64;
            assert(ticks * per <= 0xffff_ffffu64 * 0xffff_ffffu64) by (nonlinear_arith)
                requires ticks <= 0xffff_ffffu64, per <= 0xffff_ffffu64;
            ticks * per
        },
        None => {
            let count: u64 = if nf as u64 > 0xffff_ffff { 0xffff_ffff } else { nf as u64 };
            let per: u64 = tick_millis as u64;
            assert(count * per <= 0xffff_ffffu64 * 0xffff_ffffu64) by (nonlinear_arith)
                requires count <= 0xffff_ffffu64, per <= 0xffff_ffffu64;
            count * per
        },
    };
    let credited = killers(frames);
    let mut reports: Vec<CombatCombatantReport> = Vec::new();
    let mut dealt_values: Vec<i64> = Vec::new();
    let mut taken_values: Vec<i64> = Vec::new();
    let mut i: usize = 0;
    while i < n
        invariant
            n == sorted@.len(),
            i <= n,
            reports@.len() == i,
            dealt_values@.len() == i,
            taken_values@.len() == i,
            forall|k: int| 0 <= k < i ==> #[trigger] dealt_values@[k] == reports@[k].damage_dealt_hundredths && taken_values@[k]
                == reports@[k].damage_taken_hundredths,
            forall|k: int| 0 <= k < i ==> #[trigger] combatant_reported(frames@, state@, opt_texts(credited@), reports@[k], sorted@[k].id@),
        decreases n - i,
    {
        let id = &sorted[i].id;
        let ghost rb = reports@;
        let (dealt, taken) = dealt_and_taken(frames, id.as_str());
        reports.push(CombatCombatantReport {
            id: id.clone(),
            damage_dealt_hundredths: dealt,
            damage_taken_hundredths: taken,
            kills: kills_of(&credited, id.as_str()),
            incapacitated: ended_down(frames, state, id.as_str()),
        });
        dealt_values.push(dealt);
        taken_values.push(taken);
        proof {
            assert forall|k: int| 0 <= k < i + 1 implies #[trigger] combatant_reported(frames@, state@, opt_texts(credited@), reports@[k], sorted@[k].id@) by {
                if k < i {
                    assert(reports@[k] == rb[k]);
                }
            }
        }
        i += 1;
    }
    proof {
        assert(dealt_values@ =~= reports@.map_values(|c: CombatCombatantReport| c.damage_dealt_hundredths));
        assert forall|k: int| 0 <= k < taken_values@.len() implies taken_values@[k] == reports@[k].damage_taken_hundredths by {
            assert(dealt_values@[k] == reports@[k].damage_dealt_hundredths);
        }
        assert(taken_values@ =~= reports@.map_values(|c: CombatCombatantReport| c.damage_taken_hundredths));
        crate::order::lemma_sort_seq_elems(copies@, participant_order());
        crate::order::lemma_sort_seq_permutation_elems(copies@, participant_order());
    }
    let top_damage_dealt_id = top_id_by(&dealt_values, &reports);
    let top_damage_taken_id = top_id_by(&taken_values, &reports);
    proof {
        let cs = copies@;
        assert forall|j: int| 0 <= j < n implies #[trigger] participant_listed(ps@, sorted@[j]) by {
            assert(cs.contains(sorted@[j]));
            let k = choose|k: int| 0 <= k < cs.len() && cs[k] == sorted@[j];
            assert(same_participant(cs[k], ps@[k]));
        }
        assert forall|k: int| 0 <= k < np implies #[trigger] sorted_lists(sorted@, ps@[k]) by {
            assert(sorted@.contains(cs[k]));
            let j = choose|j: int| 0 <= j < sorted@.len() && sorted@[j] == cs[k];
            assert(same_participant(cs[k], ps@[k]));
        }
        assert forall|x: Seq<char>| listed_id(survivor_ids@, x) <==> exists|k: int| 0 <= k < ps@.len() && #[trigger] ps@[k].id@ == x
            && ps@[k].active && health_in(state@, x, 0) > 0 by {
            if listed_id(survivor_ids@, x) {
                let j = choose|j: int| 0 <= j < n && #[trigger] sorted@[j].id@ == x && sorted@[j].active && health_in(state@, x, 0) > 0;
                assert(participant_listed(ps@, sorted@[j]));
            }
            if exists|k: int| 0 <= k < ps@.len() && #[trigger] ps@[k].id@ == x && ps@[k].active && health_in(state@, x, 0) > 0 {
                let k = choose|k: int| 0 <= k < ps@.len() && #[trigger] ps@[k].id@ == x && ps@[k].active && health_in(state@, x, 0) > 0;
                assert(sorted_lists(sorted@, ps@[k]));
                let j = choose|j: int| 0 <= j < sorted@.len() && same_participant(#[trigger] sorted@[j], ps@[k]);
                assert(sorted@[j].id@ == x);
            }
        }
        assert forall|x: Seq<char>| listed_id(defeated_ids@, x) <==> exists|k: int| 0 <= k < ps@.len() && #[trigger] ps@[k].id@ == x
            && ps@[k].active && health_in(state@, x, 0) <= 0 by {
            if listed_id(defeated_ids@, x) {
                let j = choose|j: int| 0 <= j < n && #[trigger] sorted@[j].id@ == x && sorted@[j].active && health_in(state@, x, 0) <= 0;
                assert(participant_listed(ps@, sorted@[j]));
            }
            if exists|k: int| 0 <= k < ps@.len() && #[trigger] ps@[k].id@ == x && ps@[k].active && health_in(state@, x, 0) <= 0 {
                let k = choose|k: int| 0 <= k < ps@.len() && #[trigger] ps@[k].id@ == x && ps@[k].active && health_in(state@, x, 0) <= 0;
                assert(sorted_lists(sorted@, ps@[k]));
                let j = choose|j: int| 0 <= j < sorted@.len() && same_participant(#[trigger] sorted@[j], ps@[k]);
                assert(sorted@[j].id@ == x);
            }
        }
        assert forall|k: int| 0 <= k < np implies #[trigger] reported_id(reports@, ps@[k].id@) by {
            assert(sorted_lists(sorted@, ps@[k]));
            let j = choose|j: int| 0 <= j < sorted@.len() && same_participant(#[trigger] sorted@[j], ps@[k]);
            assert(combatant_reported(frames@, state@, opt_texts(credited@), reports@[j], sorted@[j].id@));
        }
    }
    let mut report = CombatConclusionReport {
        resolution_fingerprint: request.resolution.fingerprint.clone(),
        outcome,
        reason,
        decisive_tick,
        active_allies: allies as u32,
        active_enemies: enemies as u32,
        survivor_ids,
        defeated_ids,
        removed_combat_effect_ids: removed,
        retained_effect_ids: retained,
        duration_millis,
        combatants: reports,
        top_damage_dealt_id,
        top_damage_taken_id,
        fingerprint: String::new(),
    };
    let j = report_json_to(&report);
    proof {
        assert(report.fingerprint@ =~= Seq::<char>::empty());
    }
    report.fingerprint = fingerprint_bytes(to_bytes(&j).as_slice());
    proof {
        let credits = opt_texts(credited@);
        assert(credits == credit_run(frames@).1);
        assert forall|jj: int| 0 <= jj < report.combatants@.len() implies #[trigger] combatant_reported(
            frames@,
            state@,
            credit_run(frames@).1,
            report.combatants@[jj],
            report.combatants@[jj].id@,
        ) by {
            assert(combatant_reported(frames@, state@, credits, reports@[jj], sorted@[jj].id@));
        }
        assert(report.combatants@.len() == ps@.len());
    }
    Ok(report)
}

// ---------------------------------------------------------------- one rule for a wiped-out side

proof fn lemma_health_listed(roster: Seq<CombatResolutionCombatant>, id: Seq<char>, u1: i64, u2: i64)
    requires
        state_lists(roster, id),
    ensures
        health_in(roster, id, u1) == health_in(roster, id, u2),
    decreases roster.len(),
{
    if roster[0].id@ != id {
        let k = choose|k: int| 0 <= k < roster.len() && #[trigger] roster[k].id@ == id;
        assert(roster.drop_first()[k - 1].id@ == id);
        lemma_health_listed(roster.drop_first(), id, u1, u2);
    }
}

proof fn lemma_members(ps: Seq<CombatSimulationParticipant>, side: CombatSide)
    ensures
        forall|j: int|
            0 <= j < crate::combat_resolution::side_members(ps, side).len() ==> (#[trigger] crate::combat_resolution::side_members(
                ps,
                side,
            )[j]).active && crate::combat_resolution::side_members(ps, side)[j].side == side,
        forall|k: int|
            0 <= k < ps.len() && #[trigger] ps[k].active && ps[k].side == side ==> crate::combat_resolution::side_members(
                ps,
                side,
            ).contains(ps[k]),
        forall|j: int|
            0 <= j < crate::combat_resolution::side_members(ps, side).len() ==> ps.contains(
                #[trigger] crate::combat_resolution::side_members(ps, side)[j],
            ),
    decreases ps.len(),
{
    if ps.len() > 0 {
        let p = ps.drop_last();
        lemma_members(p, side);
        let m = crate::combat_resolution::side_members(ps, side);
        let mp = crate::combat_resolution::side_members(p, side);
        if ps.last().active && ps.last().side == side {
            assert(m == mp.push(ps.last()));
        } else {
            assert(m == mp);
        }
        assert forall|j: int| 0 <= j < m.len() implies ps.contains(#[trigger] m[j]) by {
            if j < mp.len() {
                assert(m[j] == mp[j]);
                assert(p.contains(mp[j]));
                let k = choose|k: int| 0 <= k < p.len() && p[k] == mp[j];
                assert(ps[k] == p[k]);
            } else {
                assert(ps[ps.len() - 1] == m[j]);
            }
        }
        assert forall|k: int| 0 <= k < ps.len() && #[trigger] ps[k].active && ps[k].side == side implies m.contains(ps[k]) by {
            if k < ps.len() - 1 {
                assert(ps[k] == p[k]);
                assert(p[k].active);
                assert(mp.contains(p[k]));
                let j = choose|j: int| 0 <= j < mp.len() && mp[j] == p[k];
                assert(m[j] == mp[j]);
            } else {
                assert(m[m.len() - 1] == ps.last());
            }
        }
        assert forall|j: int| 0 <= j < m.len() implies (#[trigger] m[j]).active && m[j].side == side by {
            if j < mp.len() {
                assert(m[j] == mp[j]);
            }
        }
    }
}

/// The resolver's early stop and the final conclusion read one rule for a
/// wiped-out side: when the roster lists every active member of the side,
/// the side counts as defeated for the early stop exactly when the
/// conclusion counts it wiped out.
pub proof fn lemma_early_stop_is_conclusion_rule(
    ps: Seq<CombatSimulationParticipant>,
    side: CombatSide,
    roster: Seq<CombatResolutionCombatant>,
)
    requires
        forall|k: int| 0 <= k < ps.len() && ps[k].active && ps[k].side == side ==> state_lists(roster, #[trigger] ps[k].id@),
    ensures
        side_defeated(crate::combat_resolution::side_members(ps, side), roster, i64::MAX) == wiped_out(ps, side, roster),
{
    lemma_members(ps, side);
    let m = crate::combat_resolution::side_members(ps, side);
    if side_defeated(m, roster, i64::MAX) {
        assert forall|k: int| 0 <= k < ps.len() && ps[k].active && ps[k].side == side implies health_in(
            roster,
            #[trigger] ps[k].id@,
            0,
        ) == 0 by {
            assert(ps[k].active);
            assert(m.contains(ps[k]));
            let j = choose|j: int| 0 <= j < m.len() && m[j] == ps[k];
            assert(health_in(roster, m[j].id@, i64::MAX) == 0);
            lemma_health_listed(roster, ps[k].id@, i64::MAX, 0);
        }
    }
    if wiped_out(ps, side, roster) {
        assert forall|j: int| 0 <= j < m.len() implies health_in(roster, #[trigger] m[j].id@, i64::MAX) == 0 by {
            assert(ps.contains(m[j]));
            let k = choose|k: int| 0 <= k < ps.len() && ps[k] == m[j];
            assert(m[j].active && m[j].side == side);
            assert(health_in(roster, ps[k].id@, 0) == 0);
            lemma_health_listed(roster, ps[k].id@, i64::MAX, 0);
        }
    }
}

} // verus!
