//! The tick-by-tick runtime: one movement tick and its resolution at a
//! time, pauses for intervention offers, segment seeds for the choices made,
//! and checkpoints that restore by replay.
use vstd::prelude::*;
use vstd::utf8::encode_utf8;
use crate::combat_contract::{manifest_check, manifest_fingerprint, namespace_name, CombatRngNamespace, CombatSimulationVersion};
use crate::combat_execution::{
    assemble_result, build_execution_log, core_events, effective_seed_for, effective_seed_of, mode_namespace, namespace_for, execution_log, execution_tuple_json, frames_fit_log, log_fits,
    prepare_context, CombatExecutionContext,
    CombatExecutionError, CombatExecutionRequest, CombatExecutionResult,
};
use crate::combat_hex::HexCoord;
use crate::combat_opportunity::{
    budget_ok, listed_id, opportunity_catalog_ok, CombatOpportunityCatalog, CombatOpportunityContext,
    CombatOpportunityError, CombatOpportunityEvaluation, CombatOpportunityInstance,
    CombatResponseOption, CombatOpportunityCandidate, evaluation_canonical_json, offer_due};
use crate::combat_resolution::{
    core_resolution_events, core_resolution_log, stepper_set_up, tick_resolved, resolution_fingerprint, resolution_frame_fingerprint, resolution_tuple_json,
    stepper_wf, CombatAttackOutcome, CombatResolutionCombatant,
    CombatResolutionError, CombatResolutionFrame, CombatResolutionRequest, CombatResolutionResult,
    CombatResolutionStepper,
};
use crate::combat_simulation::{
    downed, sim_tick_made, simulation_wf, tick_frame_fingerprint, CombatMoveIntent, CombatSimulation, CombatSimulationError, CombatTickFrame,
};
use crate::json::{enc, json_array, json_view, json_view_fields, jstr, push_field, push_item, str_json, to_bytes, Json, JsonValue};
use crate::order::{compare_str, sort_by_order, sort_seq, str_ord};
use crate::text::{blank, fingerprint_of, fnv1a_64, fnv64, is_blank, str_eq};

verus! {

/// The schema version a checkpoint is written with.
pub const COMBAT_RUNTIME_CHECKPOINT_SCHEMA_VERSION: u32 = 1;

/// One runtime tick: the movement frame and its resolution.
#[derive(Clone, Debug, PartialEq, Eq)]
pub struct CombatRuntimeFrame {
    pub execution: CombatTickFrame,
    pub resolution: CombatResolutionFrame,
}

#[derive(Clone, Debug, PartialEq, Eq)]
pub struct CombatRuntimeOpportunityConfig {
    pub catalog: CombatOpportunityCatalog,
    pub instances: Vec<CombatOpportunityInstance>,
    pub context: CombatOpportunityContext,
}

/// A response chosen at a pause.
#[derive(Debug, PartialEq, Eq)]
pub struct CombatRuntimeSelectionHistoryEntry {
    pub segment_index: u32,
    pub tick: u32,
    pub instance_id: String,
    pub opportunity_id: String,
    pub response_id: String,
}

impl Clone for CombatRuntimeSelectionHistoryEntry {
    fn clone(&self) -> (r: Self)
        ensures
            r == *self,
    {
        CombatRuntimeSelectionHistoryEntry {
            segment_index: self.segment_index,
            tick: self.tick,
            instance_id: self.instance_id.clone(),
            opportunity_id: self.opportunity_id.clone(),
            response_id: self.response_id.clone(),
        }
    }
}

#[derive(Clone, Debug, PartialEq, Eq)]
pub struct CombatRuntimePause {
    pub tick: u32,
    pub evaluation: CombatOpportunityEvaluation,
    pub evaluation_fingerprint: String,
}

#[derive(Clone, Debug, PartialEq, Eq)]
pub enum CombatRuntimeAdvance {
    Frame(CombatRuntimeFrame),
    Paused(CombatRuntimePause),
    Complete,
}

#[derive(Clone, Debug, PartialEq, Eq)]
pub enum CombatRuntimeError {
    Execution(CombatExecutionError),
    Simulation(CombatSimulationError),
    Resolution(CombatResolutionError),
    Opportunity(CombatOpportunityError),
    InvalidInput,
}

pub open spec fn history_entry_json(x: CombatRuntimeSelectionHistoryEntry) -> Json {
    let f = Seq::<(Seq<u8>, Json)>::empty();
    let f = f.push((encode_utf8("segment_index"@), Json::Num(x.segment_index as int)));
    let f = f.push((encode_utf8("tick"@), Json::Num(x.tick as int)));
    let f = f.push((encode_utf8("instance_id"@), jstr(x.instance_id@)));
    let f = f.push((encode_utf8("opportunity_id"@), jstr(x.opportunity_id@)));
    let f = f.push((encode_utf8("response_id"@), jstr(x.response_id@)));
    Json::Obj(f)
}

pub open spec fn history_entry_json_fn() -> spec_fn(CombatRuntimeSelectionHistoryEntry) -> Json {
    |x: CombatRuntimeSelectionHistoryEntry| history_entry_json(x)
}

pub fn history_entry_json_to(x: &CombatRuntimeSelectionHistoryEntry) -> (j: JsonValue)
    ensures
        json_view(j) == history_entry_json(*x),
{
    let mut f: Vec<(String, JsonValue)> = Vec::new();
    push_field(&mut f, "segment_index", JsonValue::UInt(x.segment_index as u64));
    push_field(&mut f, "tick", JsonValue::UInt(x.tick as u64));
    push_field(&mut f, "instance_id", str_json(x.instance_id.as_str()));
    push_field(&mut f, "opportunity_id", str_json(x.opportunity_id.as_str()));
    push_field(&mut f, "response_id", str_json(x.response_id.as_str()));
    JsonValue::Obj(f)
}

/// The fingerprint of a selection history, in its own order.
pub fn selection_history_fingerprint(history: &Vec<CombatRuntimeSelectionHistoryEntry>) -> (r: String)
    ensures
        r@ == crate::text::fingerprint_of(enc(Json::Arr(history@.map_values(history_entry_json_fn())))),
{
    let conv = |e: &CombatRuntimeSelectionHistoryEntry| -> (j: JsonValue)
        ensures
            json_view(j) == history_entry_json(*e),
        { history_entry_json_to(e) };
    let j = json_array(history, conv, Ghost(history_entry_json_fn()));
    crate::text::fingerprint_bytes(to_bytes(&j).as_slice())
}

/// History entries by segment, tick, instance, opportunity, then response.
pub open spec fn history_order() -> spec_fn(CombatRuntimeSelectionHistoryEntry, CombatRuntimeSelectionHistoryEntry) -> int {
    |a: CombatRuntimeSelectionHistoryEntry, b: CombatRuntimeSelectionHistoryEntry|
        crate::order::then_ord(
            crate::order::int_ord(a.segment_index as int, b.segment_index as int),
            crate::order::then_ord(
                crate::order::int_ord(a.tick as int, b.tick as int),
                crate::order::then_ord(
                    str_ord(a.instance_id@, b.instance_id@),
                    crate::order::then_ord(str_ord(a.opportunity_id@, b.opportunity_id@), str_ord(a.response_id@, b.response_id@)),
                ),
            ),
        )
}

fn compare_history(a: &CombatRuntimeSelectionHistoryEntry, b: &CombatRuntimeSelectionHistoryEntry) -> (r: i8)
    ensures
        r as int == history_order()(*a, *b),
{
    if a.segment_index < b.segment_index {
        return -1;
    }
    if a.segment_index > b.segment_index {
        return 1;
    }
    if a.tick < b.tick {
        return -1;
    }
    if a.tick > b.tick {
        return 1;
    }
    let c = compare_str(a.instance_id.as_str(), b.instance_id.as_str());
    if c != 0 {
        return c;
    }
    let c = compare_str(a.opportunity_id.as_str(), b.opportunity_id.as_str());
    if c != 0 {
        return c;
    }
    compare_str(a.response_id.as_str(), b.response_id.as_str())
}

/// A selection history fit for segment `segment_index`: every entry from
/// an earlier or the same segment with its ids filled in, no segment
/// chosen twice.
pub open spec fn history_ok(history: Seq<CombatRuntimeSelectionHistoryEntry>, segment_index: u32) -> bool {
    &&& forall|i: int| 0 <= i < history.len() ==> {
        let e = #[trigger] history[i];
        &&& e.segment_index <= segment_index
        &&& !blank(e.instance_id@)
        &&& !blank(e.opportunity_id@)
        &&& !blank(e.response_id@)
    }
    &&& forall|i: int, j: int| 0 <= i < j < history.len() ==> #[trigger] history[i].segment_index != #[trigger] history[j].segment_index
}

/// The payload a segment seed hashes: base seed, namespace, version,
/// manifest fingerprint, segment and the history in canonical order.
pub open spec fn segment_payload_json(
    base_seed: u64,
    namespace: CombatRngNamespace,
    version: Seq<char>,
    manifest_fingerprint: Seq<char>,
    segment_index: u32,
    history: Seq<CombatRuntimeSelectionHistoryEntry>,
) -> Json {
    Json::Arr(
        seq![
            Json::Num(base_seed as int),
            jstr(namespace_name(namespace)),
            jstr(version),
            jstr(manifest_fingerprint),
            Json::Num(segment_index as int),
            Json::Arr(sort_seq(history, history_order()).map_values(history_entry_json_fn())),
        ],
    )
}

/// The seed of a segment: the FNV-1a hash of its payload, or
/// `InvalidInput` for a blank version or manifest fingerprint or an unfit
/// history. Reordering the history does not change it.
pub fn derive_segment_seed(
    base_effective_seed: u64,
    namespace: CombatRngNamespace,
    simulation_version: &CombatSimulationVersion,
    manifest_fingerprint: &str,
    segment_index: u32,
    history: &Vec<CombatRuntimeSelectionHistoryEntry>,
) -> (r: Result<u64, CombatRuntimeError>)
    ensures
        r is Ok <==> !blank(simulation_version@) && !blank(manifest_fingerprint@) && history_ok(history@, segment_index),
        r is Err ==> r == Err::<u64, CombatRuntimeError>(CombatRuntimeError::InvalidInput),
        r matches Ok(v) ==> v == fnv64(enc(segment_payload_json(
            base_effective_seed,
            namespace,
            simulation_version@,
            manifest_fingerprint@,
            segment_index,
            history@,
        ))),
{
    if is_blank(simulation_version.as_str()) || is_blank(manifest_fingerprint) {
        return Err(CombatRuntimeError::InvalidInput);
    }
    let n = history.len();
    let mut i: usize = 0;
    while i < n
        invariant
            n == history@.len(),
            i <= n,
            forall|k: int| 0 <= k < i ==> {
                let e = #[trigger] history@[k];
                &&& e.segment_index <= segment_index
                &&& !blank(e.instance_id@)
                &&& !blank(e.opportunity_id@)
                &&& !blank(e.response_id@)
            },
            forall|k: int, l: int| 0 <= k < l < i ==> #[trigger] history@[k].segment_index != #[trigger] history@[l].segment_index,
        decreases n - i,
    {
        let e = &history[i];
        if e.segment_index > segment_index || is_blank(e.instance_id.as_str()) || is_blank(e.opportunity_id.as_str())
            || is_blank(e.response_id.as_str()) {
            assert(!history_ok(history@, segment_index)) by {
                assert(history@[i as int] == *e);
            }
            return Err(CombatRuntimeError::InvalidInput);
        }
        let mut j: usize = 0;
        while j < i
            invariant
                n == history@.len(),
                i < n,
                j <= i,
                forall|k: int| 0 <= k < j ==> #[trigger] history@[k].segment_index != history@[i as int].segment_index,
            decreases i - j,
        {
            if history[j].segment_index == history[i].segment_index {
                assert(!history_ok(history@, segment_index)) by {
                    assert(history@[j as int].segment_index == history@[i as int].segment_index);
                }
                return Err(CombatRuntimeError::InvalidInput);
            }
            j += 1;
        }
        i += 1;
    }
    let mut copies: Vec<CombatRuntimeSelectionHistoryEntry> = Vec::new();
    let mut k: usize = 0;
    while k < n
        invariant
            n == history@.len(),
            k <= n,
            copies@ == history@.take(k as int),
        decreases n - k,
    {
        copies.push(history[k].clone());
        assert(copies@ =~= history@.take(k + 1));
        k += 1;
    }
    assert(history@.take(n as int) =~= history@);
    let ghost hv = history@;
    let by_history = |a: &CombatRuntimeSelectionHistoryEntry, b: &CombatRuntimeSelectionHistoryEntry| -> (r: i8)
        ensures
            r as int == history_order()(*a, *b),
        { compare_history(a, b) };
    let sorted = sort_by_order(copies, by_history, Ghost(history_order()));
    let mut items: Vec<JsonValue> = Vec::new();
    push_item(&mut items, JsonValue::UInt(base_effective_seed));
    push_item(&mut items, str_json(namespace.as_str()));
    push_item(&mut items, str_json(simulation_version.as_str()));
    push_item(&mut items, str_json(manifest_fingerprint));
    push_item(&mut items, JsonValue::UInt(segment_index as u64));
    let conv = |e: &CombatRuntimeSelectionHistoryEntry| -> (j: JsonValue)
        ensures
            json_view(j) == history_entry_json(*e),
        { history_entry_json_to(e) };
    push_item(&mut items, json_array(&sorted, conv, Ghost(history_entry_json_fn())));
    proof {
        assert(crate::json::json_view_seq(items@) =~= seq![
            Json::Num(base_effective_seed as int),
            jstr(namespace_name(namespace)),
            jstr(simulation_version@),
            jstr(manifest_fingerprint@),
            Json::Num(segment_index as int),
            Json::Arr(sort_seq(hv, history_order()).map_values(history_entry_json_fn())),
        ]);
    }
    Ok(fnv1a_64(to_bytes(&JsonValue::Arr(items)).as_slice()))
}



// ---------------------------------------------------------------------------
// Field-by-field comparison of frames
// ---------------------------------------------------------------------------

pub open spec fn same_opt_text(a: Option<String>, b: Option<String>) -> bool {
    match (a, b) {
        (None, None) => true,
        (Some(x), Some(y)) => x@ == y@,
        _ => false,
    }
}

fn opt_text_equal(a: &Option<String>, b: &Option<String>) -> (r: bool)
    ensures
        r == same_opt_text(*a, *b),
{
    match (a, b) {
        (None, None) => true,
        (Some(x), Some(y)) => str_eq(x.as_str(), y.as_str()),
        _ => false,
    }
}

pub open spec fn same_move(a: CombatMoveIntent, b: CombatMoveIntent) -> bool {
    a.actor_id@ == b.actor_id@ && same_opt_text(a.target_id, b.target_id) && a.from == b.from && a.to == b.to && a.mode == b.mode
}

pub open spec fn same_moves(a: Seq<CombatMoveIntent>, b: Seq<CombatMoveIntent>) -> bool {
    a.len() == b.len() && forall|i: int| 0 <= i < a.len() ==> #[trigger] same_move(a[i], b[i])
}

fn moves_equal(a: &Vec<CombatMoveIntent>, b: &Vec<CombatMoveIntent>) -> (r: bool)
    ensures
        r == same_moves(a@, b@),
{
    if a.len() != b.len() {
        return false;
    }
    let n = a.len();
    let mut i: usize = 0;
    while i < n
        invariant
            n == a@.len(),
            n == b@.len(),
            i <= n,
            forall|k: int| 0 <= k < i ==> #[trigger] same_move(a@[k], b@[k]),
        decreases n - i,
    {
        let x = &a[i];
        let y = &b[i];
        if !(str_eq(x.actor_id.as_str(), y.actor_id.as_str()) && opt_text_equal(&x.target_id, &y.target_id) && x.from == y.from
            && x.to == y.to && x.mode == y.mode) {
            assert(!same_move(a@[i as int], b@[i as int]));
            return false;
        }
        i += 1;
    }
    true
}

pub open spec fn same_entry(x: (String, HexCoord), y: (String, HexCoord)) -> bool {
    x.0@ == y.0@ && x.1 == y.1
}

pub open spec fn same_positions(a: Seq<(String, HexCoord)>, b: Seq<(String, HexCoord)>) -> bool {
    a.len() == b.len() && forall|i: int| 0 <= i < a.len() ==> #[trigger] same_entry(a[i], b[i])
}

fn positions_equal(a: &Vec<(String, HexCoord)>, b: &Vec<(String, HexCoord)>) -> (r: bool)
    ensures
        r == same_positions(a@, b@),
{
    if a.len() != b.len() {
        return false;
    }
    let n = a.len();
    let mut i: usize = 0;
    while i < n
        invariant
            n == a@.len(),
            n == b@.len(),
            i <= n,
            forall|k: int| 0 <= k < i ==> #[trigger] same_entry(a@[k], b@[k]),
        decreases n - i,
    {
        if !(str_eq(a[i].0.as_str(), b[i].0.as_str()) && a[i].1 == b[i].1) {
            assert(!same_entry(a@[i as int], b@[i as int]));
            return false;
        }
        i += 1;
    }
    true
}

/// Two movement frames hold the same values.
pub open spec fn same_tick_frame(a: CombatTickFrame, b: CombatTickFrame) -> bool {
    a.tick == b.tick && same_moves(a.moves@, b.moves@) && same_positions(a.positions@, b.positions@) && a.fingerprint@
        == b.fingerprint@
}

pub fn tick_frames_equal(a: &CombatTickFrame, b: &CombatTickFrame) -> (r: bool)
    ensures
        r == same_tick_frame(*a, *b),
{
    a.tick == b.tick && moves_equal(&a.moves, &b.moves) && positions_equal(&a.positions, &b.positions) && str_eq(
        a.fingerprint.as_str(),
        b.fingerprint.as_str(),
    )
}

pub open spec fn same_texts(a: Seq<String>, b: Seq<String>) -> bool {
    a.len() == b.len() && forall|i: int| 0 <= i < a.len() ==> #[trigger] a[i]@ == b[i]@
}

fn texts_equal(a: &Vec<String>, b: &Vec<String>) -> (r: bool)
    ensures
        r == same_texts(a@, b@),
{
    if a.len() != b.len() {
        return false;
    }
    let n = a.len();
    let mut i: usize = 0;
    while i < n
        invariant
            n == a@.len(),
            n == b@.len(),
            i <= n,
            forall|k: int| 0 <= k < i ==> #[trigger] a@[k]@ == b@[k]@,
        decreases n - i,
    {
        if !str_eq(a[i].as_str(), b[i].as_str()) {
            return false;
        }
        i += 1;
    }
    true
}

pub open spec fn same_outcome(a: CombatAttackOutcome, b: CombatAttackOutcome) -> bool {
    &&& a.attack_id@ == b.attack_id@
    &&& a.actor_id@ == b.actor_id@
    &&& a.target_id@ == b.target_id@
    &&& a.collision == b.collision
    &&& a.in_range == b.in_range
    &&& a.roll_percent == b.roll_percent
    &&& a.hit == b.hit
    &&& a.damage_hundredths == b.damage_hundredths
    &&& a.balance_delta_hundredths == b.balance_delta_hundredths
    &&& same_texts(a.applied_effect_ids@, b.applied_effect_ids@)
    &&& same_texts(a.suppressed_effect_ids@, b.suppressed_effect_ids@)
}

pub open spec fn same_outcomes(a: Seq<CombatAttackOutcome>, b: Seq<CombatAttackOutcome>) -> bool {
    a.len() == b.len() && forall|i: int| 0 <= i < a.len() ==> #[trigger] same_outcome(a[i], b[i])
}

fn outcomes_equal(a: &Vec<CombatAttackOutcome>, b: &Vec<CombatAttackOutcome>) -> (r: bool)
    ensures
        r == same_outcomes(a@, b@),
{
    if a.len() != b.len() {
        return false;
    }
    let n = a.len();
    let mut i: usize = 0;
    while i < n
        invariant
            n == a@.len(),
            n == b@.len(),
            i <= n,
            forall|k: int| 0 <= k < i ==> #[trigger] same_outcome(a@[k], b@[k]),
        decreases n - i,
    {
        let x = &a[i];
        let y = &b[i];
        if !(str_eq(x.attack_id.as_str(), y.attack_id.as_str()) && str_eq(x.actor_id.as_str(), y.actor_id.as_str()) && str_eq(
            x.target_id.as_str(),
            y.target_id.as_str(),
        ) && x.collision == y.collision && x.in_range == y.in_range && x.roll_percent == y.roll_percent && x.hit == y.hit
            && x.damage_hundredths == y.damage_hundredths && x.balance_delta_hundredths == y.balance_delta_hundredths
            && texts_equal(&x.applied_effect_ids, &y.applied_effect_ids) && texts_equal(
            &x.suppressed_effect_ids,
            &y.suppressed_effect_ids,
        )) {
            assert(!same_outcome(a@[i as int], b@[i as int]));
            return false;
        }
        i += 1;
    }
    true
}

pub open spec fn same_combatant_state(a: CombatResolutionCombatant, b: CombatResolutionCombatant) -> bool {
    &&& a.id@ == b.id@
    &&& a.current_health_hundredths == b.current_health_hundredths
    &&& a.maximum_health_hundredths == b.maximum_health_hundredths
    &&& a.balance_hundredths == b.balance_hundredths
    &&& a.maximum_balance_hundredths == b.maximum_balance_hundredths
}

fn combatant_states_equal(a: &CombatResolutionCombatant, b: &CombatResolutionCombatant) -> (r: bool)
    ensures
        r == same_combatant_state(*a, *b),
{
    str_eq(a.id.as_str(), b.id.as_str()) && a.current_health_hundredths == b.current_health_hundredths
        && a.maximum_health_hundredths == b.maximum_health_hundredths && a.balance_hundredths == b.balance_hundredths
        && a.maximum_balance_hundredths == b.maximum_balance_hundredths
}

pub open spec fn same_combatants(a: Seq<CombatResolutionCombatant>, b: Seq<CombatResolutionCombatant>) -> bool {
    a.len() == b.len() && forall|i: int| 0 <= i < a.len() ==> #[trigger] same_combatant_state(a[i], b[i])
}

fn combatants_equal(a: &Vec<CombatResolutionCombatant>, b: &Vec<CombatResolutionCombatant>) -> (r: bool)
    ensures
        r == same_combatants(a@, b@),
{
    if a.len() != b.len() {
        return false;
    }
    let n = a.len();
    let mut i: usize = 0;
    while i < n
        invariant
            n == a@.len(),
            n == b@.len(),
            i <= n,
            forall|k: int| 0 <= k < i ==> #[trigger] same_combatant_state(a@[k], b@[k]),
        decreases n - i,
    {
        if !combatant_states_equal(&a[i], &b[i]) {
            return false;
        }
        i += 1;
    }
    true
}

/// Two resolution frames hold the same values.
pub open spec fn same_resolution_frame(a: CombatResolutionFrame, b: CombatResolutionFrame) -> bool {
    a.tick == b.tick && same_outcomes(a.outcomes@, b.outcomes@) && same_combatants(a.combatants@, b.combatants@)
        && a.fingerprint@ == b.fingerprint@
}

pub fn resolution_frames_equal(a: &CombatResolutionFrame, b: &CombatResolutionFrame) -> (r: bool)
    ensures
        r == same_resolution_frame(*a, *b),
{
    a.tick == b.tick && outcomes_equal(&a.outcomes, &b.outcomes) && combatants_equal(&a.combatants, &b.combatants) && str_eq(
        a.fingerprint.as_str(),
        b.fingerprint.as_str(),
    )
}


// ---------------------------------------------------------------------------
// The runtime
// ---------------------------------------------------------------------------

#[derive(Clone, Debug, PartialEq, Eq)]
pub struct CombatRuntimeOpportunityState {
    pub catalog: CombatOpportunityCatalog,
    pub instances: Vec<CombatOpportunityInstance>,
    pub context: CombatOpportunityContext,
}

/// A battle run one tick at a time.
#[derive(Debug)]
pub struct CombatRuntime {
    pub request: CombatResolutionRequest,
    pub context: CombatExecutionContext,
    pub simulation: CombatSimulation,
    pub stepper: CombatResolutionStepper,
    pub execution_frames: Vec<CombatTickFrame>,
    pub resolution_frames: Vec<CombatResolutionFrame>,
    pub opportunities: Option<CombatRuntimeOpportunityState>,
    pub paused: Option<CombatRuntimePause>,
    pub segment_index: u32,
    pub selection_history: Vec<CombatRuntimeSelectionHistoryEntry>,
    pub next_segment_seed: Option<u64>,
}

/// What the runtime keeps true between calls.
pub open spec fn runtime_wf(rt: CombatRuntime) -> bool {
    &&& simulation_wf(rt.simulation)
    &&& stepper_wf(rt.stepper)
    &&& rt.execution_frames@.len() == rt.resolution_frames@.len()
}

/// Each combatant's id with its health.
pub open spec fn combatant_health(cs: Seq<CombatResolutionCombatant>) -> Seq<(String, i64)> {
    cs.map_values(|c: CombatResolutionCombatant| (c.id, c.current_health_hundredths))
}

fn health_list(cs: &Vec<CombatResolutionCombatant>) -> (r: Vec<(String, i64)>)
    ensures
        r@ == combatant_health(cs@),
{
    let mut out: Vec<(String, i64)> = Vec::new();
    let n = cs.len();
    let mut i: usize = 0;
    while i < n
        invariant
            n == cs@.len(),
            i <= n,
            out@.len() == i,
            forall|j: int| 0 <= j < i ==> #[trigger] out@[j] == (cs@[j].id, cs@[j].current_health_hundredths),
        decreases n - i,
    {
        out.push((cs[i].id.clone(), cs[i].current_health_hundredths));
        i += 1;
    }
    assert(out@ =~= combatant_health(cs@));
    out
}

fn copy_resolution_frame(f: &CombatResolutionFrame) -> (r: CombatResolutionFrame)
    ensures
        same_resolution_frame(r, *f),
        r.combatants@ == f.combatants@,
{
    let combatants = f.combatants.clone();
    assert(combatants@ =~= f.combatants@);
    CombatResolutionFrame { tick: f.tick, outcomes: copy_outcomes(&f.outcomes), combatants, fingerprint: f.fingerprint.clone() }
}

/// The restored runtime holds, frame for frame, the checkpoint's frames.
pub open spec fn frames_replayed(rt: CombatRuntime, cp: CombatRuntimeCheckpoint) -> bool {
    &&& rt.execution_frames@.len() == cp.execution_frames@.len()
    &&& rt.resolution_frames@.len() == cp.resolution_frames@.len()
    &&& forall|j: int| 0 <= j < rt.execution_frames@.len() ==> #[trigger] same_tick_frame(rt.execution_frames@[j], cp.execution_frames@[j])
    &&& forall|j: int| 0 <= j < rt.resolution_frames@.len() ==> #[trigger] same_resolution_frame(rt.resolution_frames@[j], cp.resolution_frames@[j])
}

/// What one runtime tick did: the frames it returns are fingerprinted,
/// the resolution frame reports the resolver's combatants, the movement
/// frame is stored after the earlier ones, and every participant the
/// resolution leaves at or below zero health is out of the next tick.
pub open spec fn runtime_tick_made(before: CombatRuntime, after: CombatRuntime, f: CombatRuntimeFrame) -> bool {
    &&& f.execution.fingerprint@ == tick_frame_fingerprint(f.execution)
    &&& f.resolution.fingerprint@ == resolution_frame_fingerprint(f.resolution.tick, f.resolution.outcomes@)
    &&& f.resolution.combatants@ == after.stepper.combatants@
    &&& tick_resolved(before.stepper, after.stepper, f.execution, f.resolution)
    &&& exists|mid: CombatSimulation| #[trigger] sim_tick_made(before.simulation, mid, f.execution) && mid.input == after.simulation.input
        && mid.tick == after.simulation.tick
    &&& after.execution_frames@.drop_last() == before.execution_frames@
    &&& after.resolution_frames@.drop_last() == before.resolution_frames@
    &&& after.execution_frames@.last().tick == f.execution.tick
    &&& after.execution_frames@.last().moves@ == f.execution.moves@
    &&& after.execution_frames@.last().positions@ == f.execution.positions@
    &&& after.execution_frames@.last().fingerprint == f.execution.fingerprint
    &&& same_resolution_frame(after.resolution_frames@.last(), f.resolution)
    &&& after.resolution_frames@.last().combatants@ == f.resolution.combatants@
    &&& after.simulation.participants@.len() == before.simulation.participants@.len()
    &&& forall|k: int| 0 <= k < before.simulation.participants@.len() ==> {
        let a = #[trigger] after.simulation.participants@[k];
        let b = before.simulation.participants@[k];
        &&& a.id == b.id
        &&& a.side == b.side
        &&& a.active == (b.active && !downed(combatant_health(f.resolution.combatants@), b.id@))
    }
}

fn push_unique(v: &mut Vec<String>, s: &String)
    ensures
        listed_id(final(v)@, s@),
        forall|x: Seq<char>| listed_id(old(v)@, x) ==> listed_id(final(v)@, x),
{
    let n = v.len();
    let mut i: usize = 0;
    while i < n
        invariant
            n == v@.len(),
            i <= n,
            forall|k: int| 0 <= k < i ==> #[trigger] v@[k]@ != s@,
        decreases n - i,
    {
        if str_eq(v[i].as_str(), s.as_str()) {
            assert(v@[i as int]@ == s@);
            return;
        }
        i += 1;
    }
    let ghost before = v@;
    v.push(s.clone());
    proof {
        assert(v@[n as int]@ == s@);
        assert forall|x: Seq<char>| listed_id(before, x) implies listed_id(v@, x) by {
            let m = choose|m: int| 0 <= m < before.len() && #[trigger] before[m]@ == x;
            assert(v@[m] == before[m]);
        }
    }
}

/// Two response options with the same fields.
pub open spec fn same_option(a: CombatResponseOption, b: CombatResponseOption) -> bool {
    &&& a.id == b.id
    &&& a.executor_id == b.executor_id
    &&& a.success_effect_ids@ == b.success_effect_ids@
    &&& a.failure_effect_ids@ == b.failure_effect_ids@
}

/// Two candidates with the same fields, option by option.
pub open spec fn same_candidate(a: CombatOpportunityCandidate, b: CombatOpportunityCandidate) -> bool {
    &&& a.instance_id == b.instance_id
    &&& a.opportunity_id == b.opportunity_id
    &&& a.observer_id == b.observer_id
    &&& a.detection == b.detection
    &&& a.options@.len() == b.options@.len()
    &&& forall|i: int| 0 <= i < a.options@.len() ==> #[trigger] same_option(a.options@[i], b.options@[i])
}

/// Two pauses with the same tick, fingerprint and evaluation.
pub open spec fn same_pause(a: CombatRuntimePause, b: CombatRuntimePause) -> bool {
    &&& a.tick == b.tick
    &&& a.evaluation_fingerprint == b.evaluation_fingerprint
    &&& a.evaluation.budget == b.evaluation.budget
    &&& a.evaluation.free_alert_ids@ == b.evaluation.free_alert_ids@
    &&& (a.evaluation.candidate is Some <==> b.evaluation.candidate is Some)
    &&& a.evaluation.candidate is Some ==> same_candidate(a.evaluation.candidate->Some_0, b.evaluation.candidate->Some_0)
}

/// What a fresh pause holds: the tick just run, a candidate not presented
/// before (now listed as presented), one more unit of budget spent, and
/// the fingerprint of its evaluation; the runtime keeps the same pause.
pub open spec fn pause_made(before: CombatRuntime, after: CombatRuntime, p: CombatRuntimePause) -> bool {
    &&& before.opportunities matches Some(s0)
    &&& after.opportunities matches Some(s1)
    &&& after.paused matches Some(kept)
    &&& same_pause(p, kept)
    &&& p.tick == before.simulation.tick + 1
    &&& after.execution_frames@.len() == before.execution_frames@.len() + 1
    &&& p.evaluation.candidate matches Some(c)
    &&& !listed_id(s0.context.presented_instance_ids@, c.instance_id@)
    &&& listed_id(s1.context.presented_instance_ids@, c.instance_id@)
    &&& p.evaluation.budget.consumed == s0.context.budget.consumed + 1
    &&& p.evaluation.budget.maximum == s0.context.budget.maximum
    &&& s1.context.budget == p.evaluation.budget
    &&& s1.context.current_tick == p.tick
    &&& kept.evaluation_fingerprint@ == fingerprint_of(enc(evaluation_canonical_json(kept.evaluation)))
}

/// A frame with no pause: when offers are evaluated, none was due at the
/// frame's tick, and they moved to that tick with the budget and the
/// presented instances as they were.
pub open spec fn frame_keeps_offers(before: CombatRuntime, after: CombatRuntime, f: CombatRuntimeFrame) -> bool {
    before.opportunities matches Some(s0) ==> {
        &&& !offer_due(s0.catalog, s0.instances@, CombatOpportunityContext { current_tick: f.resolution.tick, ..s0.context })
        &&& after.opportunities matches Some(s1)
        &&& s1.context.current_tick == f.resolution.tick
        &&& s1.context.budget == s0.context.budget
        &&& s1.context.presented_instance_ids == s0.context.presented_instance_ids
    }
}

fn copy_pause(p: &CombatRuntimePause) -> (r: CombatRuntimePause)
    ensures
        same_pause(r, *p),
{
    let candidate = match &p.evaluation.candidate {
        None => None,
        Some(c) => {
            let mut options: Vec<CombatResponseOption> = Vec::new();
            let n = c.options.len();
            let mut i: usize = 0;
            while i < n
                invariant
                    n == c.options@.len(),
                    i <= n,
                    options@.len() == i,
                    forall|k: int| 0 <= k < i ==> #[trigger] same_option(options@[k], c.options@[k]),
                decreases n - i,
            {
                options.push(c.options[i].clone());
                i += 1;
            }
            Some(
                CombatOpportunityCandidate {
                    instance_id: c.instance_id.clone(),
                    opportunity_id: c.opportunity_id.clone(),
                    observer_id: c.observer_id.clone(),
                    detection: c.detection,
                    options,
                },
            )
        },
    };
    let alerts = p.evaluation.free_alert_ids.clone();
    assert(alerts@ =~= p.evaluation.free_alert_ids@);
    CombatRuntimePause {
        tick: p.tick,
        evaluation: CombatOpportunityEvaluation { candidate, free_alert_ids: alerts, budget: p.evaluation.budget },
        evaluation_fingerprint: p.evaluation_fingerprint.clone(),
    }
}

/// A response can be recorded: the pause offers it, the segment counter
/// can move on, and the history with the new entry is fit to derive the
/// next segment's seed.
pub open spec fn resume_ok(rt: CombatRuntime, response_id: Seq<char>) -> bool {
    &&& !blank(response_id)
    &&& rt.paused matches Some(p)
    &&& p.evaluation.candidate matches Some(c)
    &&& exists|k: int| 0 <= k < c.options@.len() && #[trigger] c.options@[k].id@ == response_id
    &&& rt.segment_index < u32::MAX
    &&& !blank(rt.context.provenance.simulation_version@)
    &&& !blank(rt.context.provenance.manifest_fingerprint@)
    &&& !blank(c.instance_id@)
    &&& !blank(c.opportunity_id@)
    &&& history_ok(rt.selection_history@, (rt.segment_index + 1) as u32)
    &&& forall|i: int| 0 <= i < rt.selection_history@.len() ==> #[trigger] rt.selection_history@[i].segment_index != rt.segment_index
}

proof fn lemma_history_push(h: Seq<CombatRuntimeSelectionHistoryEntry>, e: CombatRuntimeSelectionHistoryEntry, s: u32)
    requires
        s < u32::MAX,
        e.segment_index == s,
    ensures
        history_ok(h.push(e), (s + 1) as u32) <==> (history_ok(h, (s + 1) as u32) && !blank(e.instance_id@) && !blank(
            e.opportunity_id@,
        ) && !blank(e.response_id@) && forall|i: int| 0 <= i < h.len() ==> #[trigger] h[i].segment_index != s),
{
    let hp = h.push(e);
    if history_ok(hp, (s + 1) as u32) {
        assert forall|i: int| 0 <= i < h.len() implies #[trigger] h[i].segment_index != s by {
            assert(hp[i] == h[i]);
            assert(hp[h.len() as int] == e);
        }
        assert forall|i: int| 0 <= i < h.len() implies {
            let x = #[trigger] h[i];
            &&& x.segment_index <= (s + 1) as u32
            &&& !blank(x.instance_id@)
            &&& !blank(x.opportunity_id@)
            &&& !blank(x.response_id@)
        } by {
            assert(hp[i] == h[i]);
        }
        assert forall|i: int, j: int| 0 <= i < j < h.len() implies #[trigger] h[i].segment_index != #[trigger] h[j].segment_index by {
            assert(hp[i] == h[i]);
            assert(hp[j] == h[j]);
        }
        assert(hp[h.len() as int] == e);
    }
    if history_ok(h, (s + 1) as u32) && !blank(e.instance_id@) && !blank(e.opportunity_id@) && !blank(e.response_id@) && (forall|
        i: int,
    | 0 <= i < h.len() ==> #[trigger] h[i].segment_index != s) {
        assert forall|i: int| 0 <= i < hp.len() implies {
            let x = #[trigger] hp[i];
            &&& x.segment_index <= (s + 1) as u32
            &&& !blank(x.instance_id@)
            &&& !blank(x.opportunity_id@)
            &&& !blank(x.response_id@)
        } by {
            if i < h.len() {
                assert(hp[i] == h[i]);
            }
        }
        assert forall|i: int, j: int| 0 <= i < j < hp.len() implies #[trigger] hp[i].segment_index != #[trigger] hp[j].segment_index by {
            assert(hp[i] == h[i]);
            if j < h.len() {
                assert(hp[j] == h[j]);
            }
        }
    }
}

/// How a finished run is assembled, exactly as a batch resolution
/// assembles it: the movement log and fingerprint over the stored frames
/// and the run's seed, the resolver's state and log, and the resolution
/// fingerprint over all of them.
pub open spec fn finish_assembled(rt: CombatRuntime, res: CombatResolutionResult) -> bool {
    &&& res.execution.mode == rt.context.mode
    &&& res.execution.namespace == rt.context.namespace
    &&& res.execution.effective_seed == rt.context.effective_seed
    &&& res.execution.full_log@ == execution_log(rt.execution_frames@)
    &&& res.execution.core_log@ == core_events(res.execution.full_log@)
    &&& res.execution.fingerprint@ == fingerprint_of(enc(execution_tuple_json(
        rt.context.namespace,
        rt.context.effective_seed,
        rt.context.setup_fingerprint@,
        rt.execution_frames@,
        res.execution.full_log@,
    )))
    &&& res.state.combatants@ == rt.stepper.combatants@
    &&& res.full_log@ == rt.stepper.full_log@
    &&& res.core_log@ == core_resolution_events(res.full_log@)
    &&& res.fingerprint@ == fingerprint_of(enc(resolution_tuple_json(res.execution.fingerprint@, res.frames@, res.state, res.full_log@)))
}

impl CombatRuntime {
    /// Sets up a runtime: refuses zero ticks, and more ticks than the
    /// configuration allows, then prepares the run and the resolver.
    pub fn new(request: CombatResolutionRequest) -> (r: Result<Self, CombatRuntimeError>)
        ensures
            request.execution.ticks == 0 ==> r == Err::<Self, CombatRuntimeError>(CombatRuntimeError::Execution(CombatExecutionError::ZeroTicks)),
            request.execution.ticks > 0 && request.execution.ticks > request.execution.input.config.max_ticks ==> r
                == Err::<Self, CombatRuntimeError>(CombatRuntimeError::Simulation(CombatSimulationError::MaxTicksExceeded)),
            r matches Ok(rt) ==> runtime_wf(rt) && rt.execution_frames@.len() == 0 && rt.segment_index == 0
                && rt.selection_history@.len() == 0 && rt.next_segment_seed is None && rt.paused is None && rt.opportunities is None
                && rt.request == request,
            r matches Ok(rt) ==> stepper_set_up(rt.stepper, request) && rt.stepper.effective_seed == rt.context.effective_seed
                && rt.stepper.namespace == rt.context.namespace && rt.simulation.tick == 0,
    {
        if request.execution.ticks == 0 {
            return Err(CombatRuntimeError::Execution(CombatExecutionError::ZeroTicks));
        }
        if request.execution.ticks > request.execution.input.config.max_ticks {
            return Err(CombatRuntimeError::Simulation(CombatSimulationError::MaxTicksExceeded));
        }
        let (context, simulation) = match prepare_context(request.execution.clone()) {
            Ok(p) => p,
            Err(e) => {
                return Err(CombatRuntimeError::Execution(e));
            },
        };
        let stepper = match CombatResolutionStepper::new(&request, context.effective_seed, context.namespace) {
            Ok(s) => s,
            Err(e) => {
                return Err(CombatRuntimeError::Resolution(e));
            },
        };
        Ok(CombatRuntime {
            request,
            context,
            simulation,
            stepper,
            execution_frames: Vec::new(),
            resolution_frames: Vec::new(),
            opportunities: None,
            paused: None,
            segment_index: 0,
            selection_history: Vec::new(),
            next_segment_seed: None,
        })
    }

    /// A runtime that also evaluates intervention offers after each tick.
    pub fn with_opportunities(request: CombatResolutionRequest, config: CombatRuntimeOpportunityConfig) -> (r: Result<
        Self,
        CombatRuntimeError,
    >)
        ensures
            !opportunity_catalog_ok(config.catalog) ==> r is Err,
            !budget_ok(config.context.budget) ==> r is Err,
            opportunity_catalog_ok(config.catalog) && budget_ok(config.context.budget) && request.execution.ticks == 0 ==> r
                == Err::<Self, CombatRuntimeError>(CombatRuntimeError::Execution(CombatExecutionError::ZeroTicks)),
            opportunity_catalog_ok(config.catalog) && budget_ok(config.context.budget) && request.execution.ticks > 0
                && request.execution.ticks > request.execution.input.config.max_ticks ==> r == Err::<Self, CombatRuntimeError>(
                CombatRuntimeError::Simulation(CombatSimulationError::MaxTicksExceeded),
            ),
            r matches Ok(rt) ==> runtime_wf(rt) && rt.execution_frames@.len() == 0 && rt.paused is None && rt.segment_index == 0
                && rt.selection_history@.len() == 0 && rt.next_segment_seed is None && rt.request == request,
            r matches Ok(rt) ==> rt.opportunities == Some(
                CombatRuntimeOpportunityState { catalog: config.catalog, instances: config.instances, context: config.context },
            ),
    {
        match config.catalog.validate() {
            Ok(()) => {},
            Err(e) => {
                return Err(CombatRuntimeError::Opportunity(e));
            },
        }
        match config.context.budget.validate() {
            Ok(()) => {},
            Err(e) => {
                return Err(CombatRuntimeError::Opportunity(e));
            },
        }
        let mut runtime = Self::new(request)?;
        runtime.opportunities = Some(
            CombatRuntimeOpportunityState { catalog: config.catalog, instances: config.instances, context: config.context },
        );
        Ok(runtime)
    }

    /// Runs the next tick, or `None` once every requested tick has run:
    /// movement, then resolution, then participants brought down this tick
    /// leave the movement roster.
    pub fn advance_tick(&mut self) -> (r: Result<Option<CombatRuntimeFrame>, CombatRuntimeError>)
        requires
            runtime_wf(*old(self)),
        ensures
            old(self).execution_frames@.len() >= old(self).request.execution.ticks ==> (r matches Ok(None)) && *final(self)
                == *old(self),
            r is Ok ==> runtime_wf(*final(self)) && final(self).request == old(self).request,
            r is Ok ==> final(self).segment_index == old(self).segment_index && final(self).selection_history == old(self).selection_history
                && final(self).next_segment_seed == old(self).next_segment_seed && final(self).paused == old(self).paused
                && final(self).opportunities == old(self).opportunities,
            r matches Ok(Some(f)) ==> f.execution.tick == f.resolution.tick && f.execution.tick == old(self).simulation.tick + 1
                && final(self).execution_frames@.len() == old(self).execution_frames@.len() + 1,
            r matches Ok(None) ==> final(self).execution_frames@.len() == old(self).execution_frames@.len()
                && old(self).execution_frames@.len() >= old(self).request.execution.ticks,
            r matches Ok(Some(f)) ==> runtime_tick_made(*old(self), *final(self), f),
    {
        if self.execution_frames.len() >= self.request.execution.ticks as usize {
            return Ok(None);
        }
        let execution = match self.simulation.advance_tick() {
            Ok(f) => f,
            Err(e) => {
                return Err(CombatRuntimeError::Simulation(e));
            },
        };
        let resolution = match self.stepper.step(&execution) {
            Ok(f) => f,
            Err(e) => {
                return Err(CombatRuntimeError::Resolution(e));
            },
        };
        let health = health_list(&resolution.combatants);
        let ghost moved = self.simulation.participants@;
        let ghost mid = self.simulation;
        match self.simulation.sync_active_from_health(&health) {
            Ok(()) => {},
            Err(e) => {
                return Err(CombatRuntimeError::Simulation(e));
            },
        }
        let ghost ex_before = self.execution_frames@;
        let ghost re_before = self.resolution_frames@;
        self.execution_frames.push(execution.clone());
        self.resolution_frames.push(copy_resolution_frame(&resolution));
        proof {
            assert(self.execution_frames@.drop_last() =~= ex_before);
            assert(self.resolution_frames@.drop_last() =~= re_before);
            assert forall|k: int| 0 <= k < old(self).simulation.participants@.len() implies {
                let a = #[trigger] self.simulation.participants@[k];
                let b = old(self).simulation.participants@[k];
                &&& a.id == b.id
                &&& a.side == b.side
                &&& a.active == (b.active && !downed(combatant_health(resolution.combatants@), b.id@))
            } by {
                assert(moved[k].id == old(self).simulation.participants@[k].id);
            }
        }
        Ok(Some(CombatRuntimeFrame { execution, resolution }))
    }

    /// Runs the next tick and, when offers are evaluated, pauses on a
    /// candidate: the pause is kept (and returned again) until a response
    /// is chosen. A frame without a pause leaves the budget as it was; a
    /// pause spends one unit on an instance not presented before.
    pub fn advance_with_opportunities(&mut self) -> (r: Result<CombatRuntimeAdvance, CombatRuntimeError>)
        requires
            runtime_wf(*old(self)),
        ensures
            old(self).paused matches Some(p0) ==> (r matches Ok(CombatRuntimeAdvance::Paused(p)) && same_pause(p, p0)) && *final(self)
                == *old(self),
            old(self).paused is None && old(self).execution_frames@.len() >= old(self).request.execution.ticks ==> r == Ok::<
                CombatRuntimeAdvance,
                CombatRuntimeError,
            >(CombatRuntimeAdvance::Complete) && *final(self) == *old(self),
            r matches Ok(CombatRuntimeAdvance::Complete) ==> old(self).paused is None && old(self).execution_frames@.len()
                >= old(self).request.execution.ticks,
            r is Ok ==> runtime_wf(*final(self)) && final(self).request == old(self).request,
            r matches Ok(CombatRuntimeAdvance::Frame(f)) ==> old(self).paused is None && final(self).paused is None
                && f.execution.tick == old(self).simulation.tick + 1 && f.resolution.tick == f.execution.tick
                && final(self).execution_frames@.len() == old(self).execution_frames@.len() + 1,
            r matches Ok(CombatRuntimeAdvance::Frame(f)) ==> frame_keeps_offers(*old(self), *final(self), f)
                && runtime_tick_made(*old(self), *final(self), f),
            old(self).paused is None ==> (r matches Ok(CombatRuntimeAdvance::Paused(p)) ==> pause_made(*old(self), *final(self), p)),
    {
        match &self.paused {
            Some(p) => {
                return Ok(CombatRuntimeAdvance::Paused(copy_pause(p)));
            },
            None => {},
        }
        let frame = match self.advance_tick()? {
            Some(f) => f,
            None => {
                return Ok(CombatRuntimeAdvance::Complete);
            },
        };
        let mut state = match self.opportunities.take() {
            Some(s) => s,
            None => {
                return Ok(CombatRuntimeAdvance::Frame(frame));
            },
        };
        let ghost s0 = state;
        let earlier_tick = state.context.current_tick;
        state.context.current_tick = frame.resolution.tick;
        let evaluation = match state.catalog.evaluate(&state.instances, &state.context) {
            Ok(e) => e,
            Err(e) => {
                state.context.current_tick = earlier_tick;
                self.opportunities = Some(state);
                return Err(CombatRuntimeError::Opportunity(e));
            },
        };
        state.context.budget = evaluation.budget;
        let instance_id = match &evaluation.candidate {
            None => {
                self.opportunities = Some(state);
                return Ok(CombatRuntimeAdvance::Frame(frame));
            },
            Some(c) => c.instance_id.clone(),
        };
        push_unique(&mut state.context.presented_instance_ids, &instance_id);
        self.opportunities = Some(state);
        let evaluation_fingerprint = match evaluation.fingerprint() {
            Ok(f) => f,
            Err(e) => {
                return Err(CombatRuntimeError::Opportunity(e));
            },
        };
        let pause = CombatRuntimePause { tick: frame.resolution.tick, evaluation, evaluation_fingerprint };
        let returned = copy_pause(&pause);
        self.paused = Some(pause);
        Ok(CombatRuntimeAdvance::Paused(returned))
    }

    /// Records `response_id` as the answer to the current pause and derives
    /// the next segment's seed; refuses (changing nothing) a blank id, no
    /// pause, an id the pause did not offer, or a history the seed cannot
    /// be derived from.
    pub fn resume_with_response(&mut self, response_id: &str) -> (r: Result<u64, CombatRuntimeError>)
        ensures
            r is Ok <==> resume_ok(*old(self), response_id@),
            r is Err ==> r == Err::<u64, CombatRuntimeError>(CombatRuntimeError::InvalidInput) && *final(self) == *old(self),
            r matches Ok(seed) ==> final(self).segment_index == old(self).segment_index + 1 && final(self).next_segment_seed
                == Some(seed) && final(self).paused is None && final(self).selection_history@.len() == old(self).selection_history@.len() + 1,
            r matches Ok(_) ==> final(self).selection_history@.drop_last() == old(self).selection_history@,
            r matches Ok(_) ==> ({
                let e = final(self).selection_history@.last();
                let p = old(self).paused->Some_0;
                let c = p.evaluation.candidate->Some_0;
                &&& e.segment_index == old(self).segment_index
                &&& e.tick == p.tick
                &&& e.instance_id == c.instance_id
                &&& e.opportunity_id == c.opportunity_id
                &&& e.response_id@ == response_id@
            }),
            r matches Ok(seed) ==> seed == fnv64(enc(segment_payload_json(
                old(self).context.effective_seed,
                old(self).context.namespace,
                old(self).context.provenance.simulation_version@,
                old(self).context.provenance.manifest_fingerprint@,
                final(self).segment_index,
                final(self).selection_history@,
            ))),
            r is Ok ==> final(self).request == old(self).request && final(self).context == old(self).context
                && final(self).simulation == old(self).simulation && final(self).stepper == old(self).stepper
                && final(self).execution_frames == old(self).execution_frames && final(self).resolution_frames
                == old(self).resolution_frames && final(self).opportunities == old(self).opportunities,
    {
        if is_blank(response_id) {
            return Err(CombatRuntimeError::InvalidInput);
        }
        let pause = match &self.paused {
            Some(p) => p,
            None => {
                return Err(CombatRuntimeError::InvalidInput);
            },
        };
        let candidate = match &pause.evaluation.candidate {
            Some(c) => c,
            None => {
                return Err(CombatRuntimeError::InvalidInput);
            },
        };
        let mut offered = false;
        let n = candidate.options.len();
        let mut i: usize = 0;
        while i < n
            invariant
                n == candidate.options@.len(),
                i <= n,
                offered <==> exists|k: int| 0 <= k < i && #[trigger] candidate.options@[k].id@ == response_id@,
            decreases n - i,
        {
            if str_eq(candidate.options[i].id.as_str(), response_id) {
                offered = true;
            }
            i += 1;
        }
        if !offered {
            return Err(CombatRuntimeError::InvalidInput);
        }
        if self.segment_index == u32::MAX {
            return Err(CombatRuntimeError::InvalidInput);
        }
        let next_segment_index = self.segment_index + 1;
        let entry = CombatRuntimeSelectionHistoryEntry {
            segment_index: self.segment_index,
            tick: pause.tick,
            instance_id: candidate.instance_id.clone(),
            opportunity_id: candidate.opportunity_id.clone(),
            response_id: response_id.to_string(),
        };
        let mut history = self.selection_history.clone();
        let ghost old_history = self.selection_history@;
        assert(history@ =~= old_history);
        history.push(entry);
        proof {
            lemma_history_push(old_history, history@.last(), self.segment_index);
            assert(history@.drop_last() =~= old_history);
        }
        let next_seed = derive_segment_seed(
            self.context.effective_seed,
            self.context.namespace,
            &self.context.provenance.simulation_version,
            self.context.provenance.manifest_fingerprint.as_str(),
            next_segment_index,
            &history,
        )?;
        self.selection_history = history;
        self.segment_index = next_segment_index;
        self.next_segment_seed = Some(next_seed);
        self.paused = None;
        Ok(next_seed)
    }

    /// Answers the current pause with `no_intervention`.
    pub fn resume_no_intervention(&mut self) -> (r: Result<(), CombatRuntimeError>)
        ensures
            r is Ok <==> resume_ok(*old(self), "no_intervention"@),
            r is Err ==> r == Err::<(), CombatRuntimeError>(CombatRuntimeError::InvalidInput) && *final(self) == *old(self),
            r is Ok ==> final(self).segment_index == old(self).segment_index + 1 && final(self).paused is None
                && final(self).selection_history@.drop_last() == old(self).selection_history@
                && final(self).selection_history@.last().response_id@ == "no_intervention"@,
            r is Ok ==> final(self).next_segment_seed == Some(fnv64(enc(segment_payload_json(
                old(self).context.effective_seed,
                old(self).context.namespace,
                old(self).context.provenance.simulation_version@,
                old(self).context.provenance.manifest_fingerprint@,
                final(self).segment_index,
                final(self).selection_history@,
            )))),
    {
        proof {
            reveal_strlit("no_intervention");
        }
        match self.resume_with_response("no_intervention") {
            Ok(_) => Ok(()),
            Err(e) => Err(e),
        }
    }

    /// The result of a finished run, assembled exactly as a batch
    /// resolution assembles it; `InvalidInput` before every tick has run.
    pub fn finish(self) -> (r: Result<CombatResolutionResult, CombatRuntimeError>)
        ensures
            self.execution_frames@.len() != self.request.execution.ticks ==> r == Err::<CombatResolutionResult, CombatRuntimeError>(
                CombatRuntimeError::InvalidInput,
            ),
            r is Ok <==> self.execution_frames@.len() == self.request.execution.ticks && log_fits(self.execution_frames@),
            r matches Ok(res) ==> res.execution.frames@ == self.execution_frames@ && res.frames@ == self.resolution_frames@,
            r matches Ok(res) ==> finish_assembled(self, res),
    {
        if self.execution_frames.len() != self.request.execution.ticks as usize {
            return Err(CombatRuntimeError::InvalidInput);
        }
        if !frames_fit_log(&self.execution_frames) {
            return Err(CombatRuntimeError::InvalidInput);
        }
        let log = build_execution_log(&self.execution_frames);
        let CombatRuntime { request: _, context, simulation: _, stepper, execution_frames, resolution_frames, opportunities: _, paused: _, segment_index: _, selection_history: _, next_segment_seed: _ } = self;
        let execution = assemble_result(&context, execution_frames, log);
        let full_log = stepper.full_log.clone();
        assert(full_log@ =~= stepper.full_log@);
        let core_log = core_resolution_log(&full_log);
        let state = stepper.finish();
        let fingerprint = resolution_fingerprint(execution.fingerprint.as_str(), &resolution_frames, &state, &full_log);
        Ok(CombatResolutionResult { execution, frames: resolution_frames, state, full_log, core_log, fingerprint })
    }
}


// ---------------------------------------------------------------------------
// Checkpoints
// ---------------------------------------------------------------------------

/// Everything a runtime needs to be rebuilt by replay, with the provenance
/// it must match.
#[derive(Clone, Debug, PartialEq, Eq)]
pub struct CombatRuntimeCheckpoint {
    pub schema_version: u32,
    pub simulation_version: CombatSimulationVersion,
    pub manifest_fingerprint: String,
    pub effective_seed: u64,
    pub namespace: CombatRngNamespace,
    pub request: CombatResolutionRequest,
    pub execution_frames: Vec<CombatTickFrame>,
    pub frame_deltas: Option<Vec<CombatRuntimeFrameDelta>>,
    pub resolution_frames: Vec<CombatResolutionFrame>,
    pub opportunities: Option<CombatRuntimeOpportunityState>,
    pub paused: Option<CombatRuntimePause>,
    pub segment_index: u32,
    pub selection_history: Vec<CombatRuntimeSelectionHistoryEntry>,
    pub next_segment_seed: Option<u64>,
}

/// Frames numbered `1, 2, ...` in both lists, pairwise on the same tick.
pub open spec fn frames_numbered(e: Seq<CombatTickFrame>, r: Seq<CombatResolutionFrame>) -> bool {
    &&& e.len() == r.len()
    &&& forall|i: int| 0 <= i < e.len() ==> #[trigger] e[i].tick == i + 1 && r[i].tick == e[i].tick
}

fn check_numbering(e: &Vec<CombatTickFrame>, r: &Vec<CombatResolutionFrame>) -> (b: bool)
    ensures
        b == frames_numbered(e@, r@),
{
    if e.len() != r.len() {
        return false;
    }
    let n = e.len();
    let mut i: usize = 0;
    while i < n
        invariant
            n == e@.len(),
            n == r@.len(),
            i <= n,
            forall|k: int| 0 <= k < i ==> #[trigger] e@[k].tick == k + 1 && r@[k].tick == e@[k].tick,
        decreases n - i,
    {
        if i >= 0xffff_ffff || e[i].tick as usize != i + 1 || r[i].tick != e[i].tick {
            proof {
                if i >= 0xffff_ffff {
                    assert(e@[i as int].tick != i + 1);
                }
            }
            return false;
        }
        i += 1;
    }
    true
}

/// A pause sits on the last frame and offers a candidate.
pub open spec fn pause_fits(paused: Option<CombatRuntimePause>, r: Seq<CombatResolutionFrame>) -> bool {
    paused matches Some(p) ==> r.len() > 0 && r.last().tick == p.tick && p.evaluation.candidate is Some
}

fn check_pause(paused: &Option<CombatRuntimePause>, r: &Vec<CombatResolutionFrame>) -> (b: bool)
    ensures
        b == pause_fits(*paused, r@),
{
    match paused {
        None => true,
        Some(p) => r.len() > 0 && r[r.len() - 1].tick == p.tick && p.evaluation.candidate.is_some(),
    }
}

/// A checkpoint that `restore` refuses whatever replay would give: frames
/// given both in full and as deltas (or neither), a request that cannot
/// run, full frames that are too many, misnumbered or do not hold the
/// pause, a pause without offers, candidate, matching tick or matching
/// fingerprint, or offers with an unusable catalogue or budget.
pub open spec fn restore_refused(cp: CombatRuntimeCheckpoint) -> bool {
    let has_delta = cp.frame_deltas matches Some(d) && d@.len() > 0;
    let has_full = cp.execution_frames@.len() > 0 || cp.resolution_frames@.len() > 0;
    ||| has_full && has_delta
    ||| !has_full && !has_delta
    ||| cp.request.execution.ticks == 0
    ||| cp.request.execution.ticks > cp.request.execution.input.config.max_ticks
    ||| !has_delta && cp.execution_frames@.len() > cp.request.execution.ticks
    ||| !has_delta && !frames_numbered(cp.execution_frames@, cp.resolution_frames@)
    ||| !has_delta && !pause_fits(cp.paused, cp.resolution_frames@)
    ||| cp.opportunities matches Some(o) && !opportunity_catalog_ok(o.catalog)
    ||| cp.opportunities matches Some(o) && !budget_ok(o.context.budget)
    ||| cp.paused is Some && cp.opportunities is None
    ||| cp.paused matches Some(p) && p.evaluation.candidate is None
    ||| cp.paused matches Some(p) && cp.opportunities matches Some(o) && o.context.current_tick != p.tick
    ||| cp.paused matches Some(p) && p.evaluation_fingerprint@ != fingerprint_of(enc(evaluation_canonical_json(p.evaluation)))
}

/// A checkpoint `restore` refuses with `InvalidInput` before it replays
/// anything: another schema, frames given both in full and as deltas (or
/// neither), a request that cannot run, or full frames that do not pair,
/// are too many, are misnumbered or do not hold the pause.
pub open spec fn restore_malformed(cp: CombatRuntimeCheckpoint) -> bool {
    let has_delta = cp.frame_deltas matches Some(d) && d@.len() > 0;
    let has_full = cp.execution_frames@.len() > 0 || cp.resolution_frames@.len() > 0;
    ||| has_full && has_delta
    ||| !has_full && !has_delta
    ||| has_delta && !deltas_decodable(cp.frame_deltas->Some_0@)
    ||| cp.schema_version != COMBAT_RUNTIME_CHECKPOINT_SCHEMA_VERSION
    ||| cp.request.execution.ticks == 0
    ||| cp.request.execution.ticks > cp.request.execution.input.config.max_ticks
    ||| !has_delta && cp.execution_frames@.len() != cp.resolution_frames@.len()
    ||| !has_delta && cp.execution_frames@.len() > cp.request.execution.ticks
    ||| !has_delta && !frames_numbered(cp.execution_frames@, cp.resolution_frames@)
    ||| !has_delta && !pause_fits(cp.paused, cp.resolution_frames@)
}

/// The checkpoint's provenance is that of its own request: the manifest's
/// version and fingerprint, and the run's seed and namespace.
pub open spec fn provenance_matches(cp: CombatRuntimeCheckpoint) -> bool {
    let run = cp.request.execution;
    &&& manifest_check(run.input.manifest) is Ok
    &&& cp.simulation_version@ == run.input.manifest.simulation_version@
    &&& cp.manifest_fingerprint@ == manifest_fingerprint(run.input.manifest)
    &&& cp.effective_seed == effective_seed_of(run.input, run.mode)
    &&& cp.namespace == mode_namespace(run.mode)
}

impl CombatRuntime {
    /// A checkpoint of the runtime as it stands; refuses a runtime whose
    /// frames, pause or history do not fit together.
    pub fn checkpoint(&self) -> (r: Result<CombatRuntimeCheckpoint, CombatRuntimeError>)
        ensures
            r is Ok <==> frames_numbered(self.execution_frames@, self.resolution_frames@) && pause_fits(self.paused, self.resolution_frames@)
                && !blank(self.context.provenance.simulation_version@) && !blank(self.context.provenance.manifest_fingerprint@)
                && history_ok(self.selection_history@, self.segment_index),
            r is Err ==> r == Err::<CombatRuntimeCheckpoint, CombatRuntimeError>(CombatRuntimeError::InvalidInput),
            r matches Ok(c) ==> c.manifest_fingerprint == self.context.provenance.manifest_fingerprint
                && c.selection_history@ == self.selection_history@,
            r matches Ok(c) ==> c.schema_version == COMBAT_RUNTIME_CHECKPOINT_SCHEMA_VERSION && c.segment_index == self.segment_index
                && c.next_segment_seed == self.next_segment_seed && c.effective_seed == self.context.effective_seed
                && c.namespace == self.context.namespace && c.frame_deltas is None
                && c.execution_frames@.len() == self.execution_frames@.len(),
    {
        if !check_numbering(&self.execution_frames, &self.resolution_frames) {
            return Err(CombatRuntimeError::InvalidInput);
        }
        if !check_pause(&self.paused, &self.resolution_frames) {
            return Err(CombatRuntimeError::InvalidInput);
        }
        derive_segment_seed(
            self.context.effective_seed,
            self.context.namespace,
            &self.context.provenance.simulation_version,
            self.context.provenance.manifest_fingerprint.as_str(),
            self.segment_index,
            &self.selection_history,
        )?;
        let execution_frames = self.execution_frames.clone();
        let selection_history = self.selection_history.clone();
        assert(selection_history@ =~= self.selection_history@);
        Ok(CombatRuntimeCheckpoint {
            schema_version: COMBAT_RUNTIME_CHECKPOINT_SCHEMA_VERSION,
            simulation_version: self.context.provenance.simulation_version.clone(),
            manifest_fingerprint: self.context.provenance.manifest_fingerprint.clone(),
            effective_seed: self.context.effective_seed,
            namespace: self.context.namespace,
            request: self.request.clone(),
            execution_frames,
            frame_deltas: None,
            resolution_frames: self.resolution_frames.clone(),
            opportunities: self.opportunities.clone(),
            paused: self.paused.clone(),
            segment_index: self.segment_index,
            selection_history,
            next_segment_seed: self.next_segment_seed,
        })
    }

    /// A checkpoint that carries its frames as deltas.
    pub fn checkpoint_compact(&self) -> (r: Result<CombatRuntimeCheckpoint, CombatRuntimeError>)
        ensures
            r matches Ok(c) ==> c.frame_deltas is Some && c.execution_frames@.len() == 0 && c.resolution_frames@.len() == 0,
    {
        let mut checkpoint = self.checkpoint()?;
        let deltas = encode_frame_deltas(&checkpoint.execution_frames, &checkpoint.resolution_frames)?;
        checkpoint.frame_deltas = Some(deltas);
        checkpoint.execution_frames = Vec::new();
        checkpoint.resolution_frames = Vec::new();
        Ok(checkpoint)
    }

    /// Rebuilds a runtime by replaying the checkpoint's request and
    /// comparing every frame; refuses a checkpoint of another schema,
    /// provenance or seed, with frames that do not replay, or with a
    /// history, segment seed or pause that does not fit.
    #[verifier::loop_isolation(false)]
    #[verifier::rlimit(60)]
    #[verifier::spinoff_prover]
    pub fn restore(checkpoint: CombatRuntimeCheckpoint) -> (r: Result<Self, CombatRuntimeError>)
        ensures
            checkpoint.schema_version != COMBAT_RUNTIME_CHECKPOINT_SCHEMA_VERSION ==> r is Err,
            r matches Ok(rt) ==> runtime_wf(rt) && rt.segment_index == checkpoint.segment_index && rt.next_segment_seed
                == checkpoint.next_segment_seed && rt.paused == checkpoint.paused,
            r matches Ok(rt) ==> rt.selection_history@.len() == rt.segment_index,
            r matches Ok(rt) ==> (rt.segment_index == 0 ==> rt.next_segment_seed is None),
            (checkpoint.frame_deltas matches Some(d) ==> d@.len() == 0) && checkpoint.execution_frames@.len()
                != checkpoint.resolution_frames@.len() ==> r is Err,
            checkpoint.selection_history@.len() != checkpoint.segment_index ==> r is Err,
            checkpoint.segment_index == 0 && checkpoint.next_segment_seed is Some ==> r is Err,
            checkpoint.segment_index > 0 && checkpoint.next_segment_seed is None ==> r is Err,
            checkpoint.segment_index > 0 && (checkpoint.next_segment_seed matches Some(seed) && seed != fnv64(
                enc(
                    segment_payload_json(
                        checkpoint.effective_seed,
                        checkpoint.namespace,
                        checkpoint.simulation_version@,
                        checkpoint.manifest_fingerprint@,
                        checkpoint.segment_index,
                        checkpoint.selection_history@,
                    ),
                ),
            )) ==> r is Err,
            r matches Ok(rt) ==> rt.selection_history == checkpoint.selection_history && rt.opportunities
                == checkpoint.opportunities,
            restore_refused(checkpoint) ==> r is Err,
            restore_malformed(checkpoint) ==> r == Err::<Self, CombatRuntimeError>(CombatRuntimeError::InvalidInput),
            !provenance_matches(checkpoint) ==> r is Err,
            r matches Ok(rt) ==> !(checkpoint.frame_deltas matches Some(d) && d@.len() > 0) ==> frames_replayed(rt, checkpoint),
    {
        let ghost cp0 = checkpoint;
        let mut checkpoint = checkpoint;
        let has_full = checkpoint.execution_frames.len() > 0 || checkpoint.resolution_frames.len() > 0;
        let has_delta = match &checkpoint.frame_deltas {
            Some(d) => d.len() > 0,
            None => false,
        };
        if has_full && has_delta {
            return Err(CombatRuntimeError::InvalidInput);
        }
        if !has_full && !has_delta {
            return Err(CombatRuntimeError::InvalidInput);
        }
        if has_delta {
            let decoded = match &checkpoint.frame_deltas {
                Some(d) => decode_frame_deltas(d)?,
                None => {
                    return Err(CombatRuntimeError::InvalidInput);
                },
            };
            let (execution, resolution) = decoded;
            checkpoint.execution_frames = execution;
            checkpoint.resolution_frames = resolution;
        }
        if checkpoint.schema_version != COMBAT_RUNTIME_CHECKPOINT_SCHEMA_VERSION
            || checkpoint.execution_frames.len() != checkpoint.resolution_frames.len()
            || checkpoint.request.execution.ticks == 0
            || checkpoint.execution_frames.len() > checkpoint.request.execution.ticks as usize
            || checkpoint.request.execution.ticks > checkpoint.request.execution.input.config.max_ticks {
            return Err(CombatRuntimeError::InvalidInput);
        }
        if !check_numbering(&checkpoint.execution_frames, &checkpoint.resolution_frames) {
            return Err(CombatRuntimeError::InvalidInput);
        }
        if !check_pause(&checkpoint.paused, &checkpoint.resolution_frames) {
            return Err(CombatRuntimeError::InvalidInput);
        }
        let mut runtime = Self::new(checkpoint.request.clone())?;
        let run = &checkpoint.request.execution;
        let request_fingerprint = match run.input.manifest.fingerprint() {
            Ok(f) => f,
            Err(_) => {
                return Err(CombatRuntimeError::InvalidInput);
            },
        };
        let request_seed = match effective_seed_for(&run.input, run.mode) {
            Ok(v) => v,
            Err(_) => {
                return Err(CombatRuntimeError::InvalidInput);
            },
        };
        if !str_eq(checkpoint.simulation_version.as_str(), run.input.manifest.simulation_version.as_str())
            || !str_eq(checkpoint.manifest_fingerprint.as_str(), request_fingerprint.as_str())
            || checkpoint.effective_seed != request_seed || checkpoint.namespace != namespace_for(run.mode) {
            return Err(CombatRuntimeError::InvalidInput);
        }
        let derived_seed = derive_segment_seed(
            checkpoint.effective_seed,
            checkpoint.namespace,
            &checkpoint.simulation_version,
            checkpoint.manifest_fingerprint.as_str(),
            checkpoint.segment_index,
            &checkpoint.selection_history,
        )?;
        if checkpoint.selection_history.len() != checkpoint.segment_index as usize {
            return Err(CombatRuntimeError::InvalidInput);
        }
        let seed_fits = if checkpoint.segment_index == 0 {
            checkpoint.next_segment_seed.is_none()
        } else {
            match checkpoint.next_segment_seed {
                Some(s) => s == derived_seed,
                None => false,
            }
        };
        if !seed_fits {
            return Err(CombatRuntimeError::InvalidInput);
        }
        match &checkpoint.opportunities {
            Some(o) => {
                match o.catalog.validate() {
                    Ok(()) => {},
                    Err(e) => {
                        return Err(CombatRuntimeError::Opportunity(e));
                    },
                }
                match o.context.budget.validate() {
                    Ok(()) => {},
                    Err(e) => {
                        return Err(CombatRuntimeError::Opportunity(e));
                    },
                }
            },
            None => {},
        }
        match &checkpoint.paused {
            Some(pause) => {
                let o = match &checkpoint.opportunities {
                    Some(o) => o,
                    None => {
                        return Err(CombatRuntimeError::InvalidInput);
                    },
                };
                let candidate = match &pause.evaluation.candidate {
                    Some(c) => c,
                    None => {
                        return Err(CombatRuntimeError::InvalidInput);
                    },
                };
                let fp = match pause.evaluation.fingerprint() {
                    Ok(f) => f,
                    Err(e) => {
                        return Err(CombatRuntimeError::Opportunity(e));
                    },
                };
                if o.context.current_tick != pause.tick || !crate::combat_opportunity::contains_text(
                    &o.context.presented_instance_ids,
                    candidate.instance_id.as_str(),
                ) || !str_eq(pause.evaluation_fingerprint.as_str(), fp.as_str()) {
                    return Err(CombatRuntimeError::InvalidInput);
                }
            },
            None => {},
        }
        let n = checkpoint.execution_frames.len();
        let mut i: usize = 0;
        while i < n
            invariant
                n == checkpoint.execution_frames@.len(),
                n == checkpoint.resolution_frames@.len(),
                i <= n,
                runtime_wf(runtime),
                runtime.execution_frames@.len() == i,
                !restore_malformed(cp0),
                forall|j: int| 0 <= j < i ==> #[trigger] same_tick_frame(runtime.execution_frames@[j], checkpoint.execution_frames@[j]),
                forall|j: int| 0 <= j < i ==> #[trigger] same_resolution_frame(runtime.resolution_frames@[j], checkpoint.resolution_frames@[j]),
            decreases n - i,
        {
            let ghost before = runtime;
            let frame = match runtime.advance_tick() {
                Ok(Some(f)) => f,
                Ok(None) => {
                    return Err(CombatRuntimeError::InvalidInput);
                },
                Err(e) => {
                    return Err(e);
                },
            };
            if !tick_frames_equal(&frame.execution, &checkpoint.execution_frames[i]) || !resolution_frames_equal(
                &frame.resolution,
                &checkpoint.resolution_frames[i],
            ) {
                return Err(CombatRuntimeError::InvalidInput);
            }
            proof {
                let last_r = runtime.resolution_frames@.last();
                let cr = checkpoint.resolution_frames@[i as int];
                lemma_same_outcomes_trans(last_r.outcomes@, frame.resolution.outcomes@, cr.outcomes@);
                assert forall|j: int| 0 <= j <= i implies #[trigger] same_tick_frame(runtime.execution_frames@[j], checkpoint.execution_frames@[j]) by {
                    if j < i {
                        assert(runtime.execution_frames@[j] == before.execution_frames@[j]);
                    }
                }
                assert forall|j: int| 0 <= j <= i implies #[trigger] same_resolution_frame(runtime.resolution_frames@[j], checkpoint.resolution_frames@[j]) by {
                    if j < i {
                        assert(runtime.resolution_frames@[j] == before.resolution_frames@[j]);
                    }
                }
            }
            i += 1;
        }
        runtime.opportunities = checkpoint.opportunities;
        runtime.paused = checkpoint.paused;
        runtime.segment_index = checkpoint.segment_index;
        runtime.selection_history = checkpoint.selection_history;
        runtime.next_segment_seed = checkpoint.next_segment_seed;
        Ok(runtime)
    }
}

// ---------------------------------------------------------------------------
// Frame deltas
// ---------------------------------------------------------------------------

/// One tick stored as the changes from the tick before: moves and outcomes
/// only when they changed, positions and combatants only where they did.
#[derive(Clone, Debug, PartialEq, Eq)]
pub struct CombatRuntimeFrameDelta {
    pub tick: u32,
    pub moves: Option<Vec<CombatMoveIntent>>,
    pub position_updates: Vec<(String, HexCoord)>,
    pub execution_fingerprint: String,
    pub outcomes: Option<Vec<CombatAttackOutcome>>,
    pub combatant_updates: Vec<CombatResolutionCombatant>,
    pub resolution_fingerprint: String,
}


/// Where `id` goes in id-ordered keys: the first key not below it (the
/// length when every key is below it).
pub open spec fn first_not_below(keys: Seq<Seq<char>>, id: Seq<char>) -> int
    decreases keys.len(),
{
    if keys.len() == 0 {
        0
    } else if str_ord(keys[0], id) >= 0 {
        0
    } else {
        1 + first_not_below(keys.drop_first(), id)
    }
}

proof fn lemma_first_not_below(keys: Seq<Seq<char>>, id: Seq<char>, i: int)
    requires
        0 <= i <= keys.len(),
        forall|k: int| 0 <= k < i ==> str_ord(#[trigger] keys[k], id) < 0,
        i < keys.len() ==> str_ord(keys[i], id) >= 0,
    ensures
        first_not_below(keys, id) == i,
    decreases i,
{
    if i > 0 {
        assert forall|k: int| 0 <= k < i - 1 implies str_ord(#[trigger] keys.drop_first()[k], id) < 0 by {
            assert(keys.drop_first()[k] == keys[k + 1]);
        }
        lemma_first_not_below(keys.drop_first(), id, i - 1);
    }
}

/// An id-ordered list with `x` (keyed `id`) put in: replacing the entry
/// with that id, or inserted before the first entry above it.
pub open spec fn put_at<T>(m: Seq<T>, keys: Seq<Seq<char>>, id: Seq<char>, x: T) -> Seq<T> {
    let i = first_not_below(keys, id);
    if i < m.len() && keys[i] == id {
        m.update(i, x)
    } else {
        m.insert(i, x)
    }
}

pub open spec fn position_models(m: Seq<(String, HexCoord)>) -> Seq<(Seq<char>, HexCoord)> {
    m.map_values(|e: (String, HexCoord)| (e.0@, e.1))
}

pub open spec fn combatant_keys(m: Seq<CombatResolutionCombatant>) -> Seq<Seq<char>> {
    m.map_values(|c: CombatResolutionCombatant| c.id@)
}

/// Sets `id`'s tile in an id-ordered position list, keeping it ordered.
fn put_position(map: &mut Vec<(String, HexCoord)>, id: &String, tile: HexCoord)
    ensures
        position_models(final(map)@) == put_at(
            position_models(old(map)@),
            position_models(old(map)@).map_values(|e: (Seq<char>, HexCoord)| e.0),
            id@,
            (id@, tile),
        ),
{
    let ghost m0 = position_models(map@);
    let ghost keys = m0.map_values(|e: (Seq<char>, HexCoord)| e.0);
    let n = map.len();
    let mut i: usize = 0;
    while i < n
        invariant
            n == map@.len(),
            i <= n,
            m0 == position_models(map@),
            map@ == old(map)@,
            keys == m0.map_values(|e: (Seq<char>, HexCoord)| e.0),
            forall|k: int| 0 <= k < i ==> str_ord(#[trigger] keys[k], id@) < 0,
        decreases n - i,
    {
        assert(keys[i as int] == map@[i as int].0@);
        let c = compare_str(map[i].0.as_str(), id.as_str());
        if c == 0 {
            proof {
                lemma_first_not_below(keys, id@, i as int);
                crate::order::lemma_str_ord_zero(keys[i as int], id@);
                assert(first_not_below(keys, id@) == i);
                assert(keys[i as int] == id@);
            }
            let ghost before = map@;
            map.set(i, (id.clone(), tile));
            assert(position_models(map@) =~= position_models(before).update(i as int, (id@, tile)));
            return;
        }
        if c > 0 {
            proof {
                lemma_first_not_below(keys, id@, i as int);
                crate::order::lemma_bytes_ord_basic(encode_utf8(id@), encode_utf8(id@));
                assert(keys[i as int] != id@);
            }
            let ghost before = map@;
            map.insert(i, (id.clone(), tile));
            assert(position_models(map@) =~= position_models(before).insert(i as int, (id@, tile)));
            return;
        }
        i += 1;
    }
    proof {
        lemma_first_not_below(keys, id@, n as int);
    }
    let ghost before = map@;
    map.push((id.clone(), tile));
    assert(position_models(map@) =~= position_models(before).insert(n as int, (id@, tile)));
}

/// Sets a combatant's entry in an id-ordered list, keeping it ordered.
fn put_combatant(map: &mut Vec<CombatResolutionCombatant>, c: &CombatResolutionCombatant)
    ensures
        final(map)@ == put_at(old(map)@, combatant_keys(old(map)@), c.id@, *c),
{
    let ghost m0 = map@;
    let ghost keys = combatant_keys(map@);
    let n = map.len();
    let mut i: usize = 0;
    while i < n
        invariant
            n == map@.len(),
            i <= n,
            m0 == map@,
            map@ == old(map)@,
            keys == combatant_keys(map@),
            forall|k: int| 0 <= k < i ==> str_ord(#[trigger] keys[k], c.id@) < 0,
        decreases n - i,
    {
        assert(keys[i as int] == map@[i as int].id@);
        let o = compare_str(map[i].id.as_str(), c.id.as_str());
        if o == 0 {
            proof {
                lemma_first_not_below(keys, c.id@, i as int);
                crate::order::lemma_str_ord_zero(keys[i as int], c.id@);
                assert(first_not_below(keys, c.id@) == i);
                assert(keys[i as int] == c.id@);
            }
            let x = c.clone();
            map.set(i, x);
            assert(map@ =~= m0.update(i as int, *c));
            assert(put_at(m0, keys, c.id@, *c) == m0.update(i as int, *c));
            return;
        }
        if o > 0 {
            proof {
                lemma_first_not_below(keys, c.id@, i as int);
                crate::order::lemma_bytes_ord_basic(encode_utf8(c.id@), encode_utf8(c.id@));
                assert(keys[i as int] != c.id@);
            }
            let x = c.clone();
            map.insert(i, x);
            assert(map@ =~= m0.insert(i as int, *c));
            assert(put_at(m0, keys, c.id@, *c) == m0.insert(i as int, *c));
            return;
        }
        i += 1;
    }
    proof {
        lemma_first_not_below(keys, c.id@, n as int);
    }
    map.push(c.clone());
    assert(map@ =~= m0.insert(n as int, *c));
}

/// The tile listed first for `id`.
pub open spec fn position_in(m: Seq<(Seq<char>, HexCoord)>, id: Seq<char>) -> Option<HexCoord>
    decreases m.len(),
{
    if m.len() == 0 {
        None
    } else if m[0].0 == id {
        Some(m[0].1)
    } else {
        position_in(m.drop_first(), id)
    }
}

fn position_of(map: &Vec<(String, HexCoord)>, id: &str) -> (r: Option<HexCoord>)
    ensures
        r == position_in(position_models(map@), id@),
{
    let ghost m = position_models(map@);
    let n = map.len();
    let mut i: usize = 0;
    assert(m.skip(0) =~= m);
    while i < n
        invariant
            n == map@.len(),
            i <= n,
            m == position_models(map@),
            position_in(m, id@) == position_in(m.skip(i as int), id@),
        decreases n - i,
    {
        let ghost rest = m.skip(i as int);
        assert(rest.drop_first() =~= m.skip(i + 1));
        assert(rest[0] == (map@[i as int].0@, map@[i as int].1));
        if str_eq(map[i].0.as_str(), id) {
            return Some(map[i].1);
        }
        i += 1;
    }
    assert(m.skip(n as int) =~= Seq::<(Seq<char>, HexCoord)>::empty());
    None
}

fn combatant_of(map: &Vec<CombatResolutionCombatant>, id: &str) -> (r: Option<usize>)
    ensures
        r matches Some(i) ==> i < map@.len() && map@[i as int].id@ == id@,
        r is None ==> forall|j: int| 0 <= j < map@.len() ==> #[trigger] map@[j].id@ != id@,
{
    let n = map.len();
    let mut i: usize = 0;
    while i < n
        invariant
            n == map@.len(),
            i <= n,
            forall|j: int| 0 <= j < i ==> #[trigger] map@[j].id@ != id@,
        decreases n - i,
    {
        if str_eq(map[i].id.as_str(), id) {
            return Some(i);
        }
        i += 1;
    }
    None
}

/// No combatant id is listed twice.
pub open spec fn combatant_ids_distinct(cs: Seq<CombatResolutionCombatant>) -> bool {
    forall|x: int, y: int| 0 <= x < y < cs.len() ==> #[trigger] cs[x].id@ != #[trigger] cs[y].id@
}

proof fn lemma_first_not_below_range(keys: Seq<Seq<char>>, id: Seq<char>)
    ensures
        0 <= first_not_below(keys, id) <= keys.len(),
    decreases keys.len(),
{
    if keys.len() > 0 {
        lemma_first_not_below_range(keys.drop_first(), id);
    }
}

proof fn lemma_put_new_combatant(m: Seq<CombatResolutionCombatant>, x: CombatResolutionCombatant)
    requires
        forall|j: int| 0 <= j < m.len() ==> #[trigger] m[j].id@ != x.id@,
    ensures
        put_at(m, combatant_keys(m), x.id@, x).contains(x),
        forall|j: int| 0 <= j < m.len() ==> put_at(m, combatant_keys(m), x.id@, x).contains(#[trigger] m[j]),
{
    let keys = combatant_keys(m);
    lemma_first_not_below_range(keys, x.id@);
    let i = first_not_below(keys, x.id@);
    if i < m.len() {
        assert(keys[i] == m[i].id@);
    }
    let r = m.insert(i, x);
    assert(put_at(m, keys, x.id@, x) == r);
    assert(r[i] == x);
    assert forall|j: int| 0 <= j < m.len() implies r.contains(#[trigger] m[j]) by {
        if j < i {
            assert(r[j] == m[j]);
        } else {
            assert(r[j + 1] == m[j]);
        }
    }
}

/// Whether two combatant lists name the same ids, in the same order.
fn same_ids(a: &Vec<CombatResolutionCombatant>, b: &Vec<CombatResolutionCombatant>) -> (r: bool)
    ensures
        r == (combatant_keys(a@) == combatant_keys(b@)),
{
    if a.len() != b.len() {
        proof {
            if combatant_keys(a@) == combatant_keys(b@) {
                assert(combatant_keys(a@).len() == combatant_keys(b@).len());
            }
        }
        return false;
    }
    let n = a.len();
    let mut i: usize = 0;
    while i < n
        invariant
            n == a@.len(),
            n == b@.len(),
            i <= n,
            forall|k: int| 0 <= k < i ==> #[trigger] a@[k].id@ == b@[k].id@,
        decreases n - i,
    {
        if !str_eq(a[i].id.as_str(), b[i].id.as_str()) {
            proof {
                if combatant_keys(a@) == combatant_keys(b@) {
                    assert(combatant_keys(a@)[i as int] == combatant_keys(b@)[i as int]);
                }
            }
            return false;
        }
        i += 1;
    }
    assert(combatant_keys(a@) =~= combatant_keys(b@));
    true
}

/// What delta `i` records of frame `i`: the tick and both fingerprints,
/// and the moves and outcomes, left out only where they equal the previous
/// tick's.
pub open spec fn delta_records(
    ex: Seq<CombatTickFrame>,
    re: Seq<CombatResolutionFrame>,
    d: Seq<CombatRuntimeFrameDelta>,
    i: int,
) -> bool {
    &&& d[i].tick == ex[i].tick
    &&& re[i].tick == ex[i].tick
    &&& d[i].execution_fingerprint == ex[i].fingerprint
    &&& d[i].resolution_fingerprint == re[i].fingerprint
    &&& (d[i].moves matches Some(m) ==> same_moves(m@, ex[i].moves@))
    &&& (d[i].moves is None ==> i > 0 && same_moves(ex[i - 1].moves@, ex[i].moves@))
    &&& (d[i].outcomes matches Some(o) ==> same_outcomes(o@, re[i].outcomes@))
    &&& (d[i].outcomes is None ==> i > 0 && same_outcomes(re[i - 1].outcomes@, re[i].outcomes@))
}

/// A delta list that encodes the paired frames `ex` and `re`.
pub open spec fn delta_encoding(ex: Seq<CombatTickFrame>, re: Seq<CombatResolutionFrame>, d: Seq<CombatRuntimeFrameDelta>) -> bool {
    &&& d.len() == ex.len()
    &&& d.len() == re.len()
    &&& forall|i: int| 0 <= i < d.len() ==> #[trigger] delta_records(ex, re, d, i)
}

/// The moves in force at delta `i`: the last ones recorded at or before it.
pub open spec fn moves_at(d: Seq<CombatRuntimeFrameDelta>, i: int) -> Seq<CombatMoveIntent>
    decreases i,
{
    if i < 0 || i >= d.len() {
        Seq::empty()
    } else {
        match d[i].moves {
            Some(m) => m@,
            None => if i == 0 {
                Seq::empty()
            } else {
                moves_at(d, i - 1)
            },
        }
    }
}

/// The outcomes in force at delta `i`: the last ones recorded at or before it.
pub open spec fn outcomes_at(d: Seq<CombatRuntimeFrameDelta>, i: int) -> Seq<CombatAttackOutcome>
    decreases i,
{
    if i < 0 || i >= d.len() {
        Seq::empty()
    } else {
        match d[i].outcomes {
            Some(o) => o@,
            None => if i == 0 {
                Seq::empty()
            } else {
                outcomes_at(d, i - 1)
            },
        }
    }
}

/// What decoding reads back from delta `i`.
pub open spec fn delta_read(
    d: Seq<CombatRuntimeFrameDelta>,
    ex: Seq<CombatTickFrame>,
    re: Seq<CombatResolutionFrame>,
    i: int,
) -> bool {
    &&& ex[i].tick == d[i].tick
    &&& re[i].tick == d[i].tick
    &&& ex[i].fingerprint == d[i].execution_fingerprint
    &&& re[i].fingerprint == d[i].resolution_fingerprint
    &&& same_moves(ex[i].moves@, moves_at(d, i))
    &&& same_outcomes(re[i].outcomes@, outcomes_at(d, i))
}

/// Frames read back from a delta list.
pub open spec fn delta_decoding(d: Seq<CombatRuntimeFrameDelta>, ex: Seq<CombatTickFrame>, re: Seq<CombatResolutionFrame>) -> bool {
    &&& ex.len() == d.len()
    &&& re.len() == d.len()
    &&& forall|i: int| 0 <= i < d.len() ==> #[trigger] delta_read(d, ex, re, i)
}

proof fn lemma_same_moves_trans(a: Seq<CombatMoveIntent>, b: Seq<CombatMoveIntent>, c: Seq<CombatMoveIntent>)
    requires
        same_moves(a, b),
        same_moves(b, c),
    ensures
        same_moves(a, c),
{
    assert forall|i: int| 0 <= i < a.len() implies #[trigger] same_move(a[i], c[i]) by {
        assert(same_move(a[i], b[i]));
        assert(same_move(b[i], c[i]));
    }
}

proof fn lemma_same_outcome_trans(a: CombatAttackOutcome, b: CombatAttackOutcome, c: CombatAttackOutcome)
    requires
        same_outcome(a, b),
        same_outcome(b, c),
    ensures
        same_outcome(a, c),
{
    assert forall|i: int| 0 <= i < a.applied_effect_ids@.len() implies #[trigger] a.applied_effect_ids@[i]@ == c.applied_effect_ids@[i]@ by {
        assert(a.applied_effect_ids@[i]@ == b.applied_effect_ids@[i]@);
        assert(b.applied_effect_ids@[i]@ == c.applied_effect_ids@[i]@);
    }
    assert forall|i: int| 0 <= i < a.suppressed_effect_ids@.len() implies #[trigger] a.suppressed_effect_ids@[i]@ == c.suppressed_effect_ids@[i]@ by {
        assert(a.suppressed_effect_ids@[i]@ == b.suppressed_effect_ids@[i]@);
        assert(b.suppressed_effect_ids@[i]@ == c.suppressed_effect_ids@[i]@);
    }
}

proof fn lemma_same_outcomes_trans(a: Seq<CombatAttackOutcome>, b: Seq<CombatAttackOutcome>, c: Seq<CombatAttackOutcome>)
    requires
        same_outcomes(a, b),
        same_outcomes(b, c),
    ensures
        same_outcomes(a, c),
{
    assert forall|i: int| 0 <= i < a.len() implies #[trigger] same_outcome(a[i], c[i]) by {
        assert(same_outcome(a[i], b[i]));
        assert(same_outcome(b[i], c[i]));
        lemma_same_outcome_trans(a[i], b[i], c[i]);
    }
}

fn copy_moves(m: &Vec<CombatMoveIntent>) -> (r: Vec<CombatMoveIntent>)
    ensures
        same_moves(r@, m@),
{
    let mut out: Vec<CombatMoveIntent> = Vec::new();
    let n = m.len();
    let mut i: usize = 0;
    while i < n
        invariant
            n == m@.len(),
            i <= n,
            out@.len() == i,
            forall|k: int| 0 <= k < i ==> #[trigger] same_move(out@[k], m@[k]),
        decreases n - i,
    {
        out.push(m[i].clone());
        i += 1;
    }
    out
}

fn copy_outcomes(o: &Vec<CombatAttackOutcome>) -> (r: Vec<CombatAttackOutcome>)
    ensures
        same_outcomes(r@, o@),
{
    let mut out: Vec<CombatAttackOutcome> = Vec::new();
    let n = o.len();
    let mut i: usize = 0;
    while i < n
        invariant
            n == o@.len(),
            i <= n,
            out@.len() == i,
            forall|k: int| 0 <= k < i ==> #[trigger] same_outcome(out@[k], o@[k]),
        decreases n - i,
    {
        let c = o[i].clone();
        proof {
            assert forall|x: int| 0 <= x < c.applied_effect_ids@.len() implies #[trigger] c.applied_effect_ids@[x]@ == o@[i as int].applied_effect_ids@[x]@ by {}
            assert forall|x: int| 0 <= x < c.suppressed_effect_ids@.len() implies #[trigger] c.suppressed_effect_ids@[x]@ == o@[i as int].suppressed_effect_ids@[x]@ by {}
        }
        out.push(c);
        i += 1;
    }
    out
}

proof fn lemma_in_force(ex: Seq<CombatTickFrame>, re: Seq<CombatResolutionFrame>, d: Seq<CombatRuntimeFrameDelta>, i: int)
    requires
        delta_encoding(ex, re, d),
        0 <= i < d.len(),
    ensures
        same_moves(moves_at(d, i), ex[i].moves@),
        same_outcomes(outcomes_at(d, i), re[i].outcomes@),
    decreases i,
{
    assert(delta_records(ex, re, d, i));
    if i > 0 {
        lemma_in_force(ex, re, d, i - 1);
    }
    match d[i].moves {
        Some(m) => {},
        None => {
            lemma_same_moves_trans(moves_at(d, i - 1), ex[i - 1].moves@, ex[i].moves@);
        },
    }
    match d[i].outcomes {
        Some(o) => {},
        None => {
            lemma_same_outcomes_trans(outcomes_at(d, i - 1), re[i - 1].outcomes@, re[i].outcomes@);
        },
    }
}

/// Decoding the deltas that encoding made gives back every frame's tick,
/// both fingerprints, its moves and its outcomes, value for value.
pub proof fn lemma_frame_delta_round_trip(
    ex: Seq<CombatTickFrame>,
    re: Seq<CombatResolutionFrame>,
    d: Seq<CombatRuntimeFrameDelta>,
    ex2: Seq<CombatTickFrame>,
    re2: Seq<CombatResolutionFrame>,
)
    requires
        delta_encoding(ex, re, d),
        delta_decoding(d, ex2, re2),
    ensures
        ex2.len() == ex.len(),
        re2.len() == re.len(),
        forall|i: int| 0 <= i < ex.len() ==> {
            &&& #[trigger] ex2[i].tick == ex[i].tick
            &&& re2[i].tick == re[i].tick
            &&& ex2[i].fingerprint == ex[i].fingerprint
            &&& re2[i].fingerprint == re[i].fingerprint
            &&& same_moves(ex2[i].moves@, ex[i].moves@)
            &&& same_outcomes(re2[i].outcomes@, re[i].outcomes@)
        },
{
    assert forall|i: int| 0 <= i < ex.len() implies {
        &&& #[trigger] ex2[i].tick == ex[i].tick
        &&& re2[i].tick == re[i].tick
        &&& ex2[i].fingerprint == ex[i].fingerprint
        &&& re2[i].fingerprint == re[i].fingerprint
        &&& same_moves(ex2[i].moves@, ex[i].moves@)
        &&& same_outcomes(re2[i].outcomes@, re[i].outcomes@)
    } by {
        assert(delta_records(ex, re, d, i));
        assert(delta_read(d, ex2, re2, i));
        lemma_in_force(ex, re, d, i);
        lemma_same_moves_trans(ex2[i].moves@, moves_at(d, i), ex[i].moves@);
        lemma_same_outcomes_trans(re2[i].outcomes@, outcomes_at(d, i), re[i].outcomes@);
    }
}

/// A frame's combatants gathered into the id-ordered list the encoder
/// keeps, one entry per id.
pub open spec fn combatant_map(cs: Seq<CombatResolutionCombatant>) -> Seq<CombatResolutionCombatant>
    decreases cs.len(),
{
    if cs.len() == 0 {
        Seq::empty()
    } else {
        let m = combatant_map(cs.drop_last());
        put_at(m, combatant_keys(m), cs.last().id@, cs.last())
    }
}

/// Frame `i` can be encoded: both fingerprints given, no combatant listed
/// twice, and the same combatant ids as the frame before (when that one
/// had any).
pub open spec fn frame_encodable(ex: Seq<CombatTickFrame>, re: Seq<CombatResolutionFrame>, i: int) -> bool {
    &&& ex[i].fingerprint@.len() > 0
    &&& re[i].fingerprint@.len() > 0
    &&& combatant_ids_distinct(re[i].combatants@)
    &&& (i > 0 && combatant_map(re[i - 1].combatants@).len() > 0 ==> combatant_keys(combatant_map(re[i].combatants@))
        == combatant_keys(combatant_map(re[i - 1].combatants@)))
}

/// Paired frames that can be encoded: numbered `1, 2, ...` and each frame
/// encodable.
pub open spec fn frames_encodable(ex: Seq<CombatTickFrame>, re: Seq<CombatResolutionFrame>) -> bool {
    &&& frames_numbered(ex, re)
    &&& forall|i: int| 0 <= i < ex.len() ==> #[trigger] frame_encodable(ex, re, i)
}

/// An update names one of the first `k` combatants.
pub open spec fn update_from(u: CombatResolutionCombatant, cs: Seq<CombatResolutionCombatant>, k: int) -> bool {
    exists|w: int| 0 <= w < k && u.id@ == #[trigger] cs[w].id@
}

proof fn lemma_combatant_map_members(cs: Seq<CombatResolutionCombatant>)
    ensures
        forall|j: int| 0 <= j < combatant_map(cs).len() ==> cs.contains(#[trigger] combatant_map(cs)[j]),
    decreases cs.len(),
{
    if cs.len() > 0 {
        let p = cs.drop_last();
        lemma_combatant_map_members(p);
        let m = combatant_map(p);
        let keys = combatant_keys(m);
        lemma_first_not_below_range(keys, cs.last().id@);
        let i = first_not_below(keys, cs.last().id@);
        let r = combatant_map(cs);
        assert(cs[cs.len() - 1] == cs.last());
        assert forall|j: int| 0 <= j < r.len() implies cs.contains(#[trigger] r[j]) by {
            if j == i {
                assert(r[j] == cs.last());
            } else if i < m.len() && keys[i] == cs.last().id@ {
                assert(p.contains(m[j]));
                let x = choose|x: int| 0 <= x < p.len() && p[x] == m[j];
                assert(cs[x] == p[x]);
            } else if j < i {
                assert(p.contains(m[j]));
                let x = choose|x: int| 0 <= x < p.len() && p[x] == m[j];
                assert(cs[x] == p[x]);
            } else {
                assert(r[j] == m[j - 1]);
                assert(p.contains(m[j - 1]));
                let x = choose|x: int| 0 <= x < p.len() && p[x] == m[j - 1];
                assert(cs[x] == p[x]);
            }
        }
    }
}

/// Encodes paired frames as deltas against the previous tick; refuses
/// frames that are not numbered `1, 2, ...`, lack a fingerprint, list a
/// combatant twice, or change the set of combatants.
#[verifier::rlimit(40)]
#[verifier::spinoff_prover]
pub fn encode_frame_deltas(
    execution: &Vec<CombatTickFrame>,
    resolution: &Vec<CombatResolutionFrame>,
) -> (r: Result<Vec<CombatRuntimeFrameDelta>, CombatRuntimeError>)
    ensures
        execution@.len() != resolution@.len() ==> r is Err,
        r matches Ok(d) ==> d@.len() == execution@.len() && frames_numbered(execution@, resolution@),
        r matches Ok(d) ==> delta_encoding(execution@, resolution@, d@),
        r is Ok ==> forall|i: int| 0 <= i < execution@.len() ==> #[trigger] execution@[i].fingerprint@.len() > 0
            && resolution@[i].fingerprint@.len() > 0,
        r is Ok ==> forall|i: int| 0 <= i < resolution@.len() ==> #[trigger] combatant_ids_distinct(resolution@[i].combatants@),
        r is Ok <==> frames_encodable(execution@, resolution@),
        r is Err ==> r == Err::<Vec<CombatRuntimeFrameDelta>, CombatRuntimeError>(CombatRuntimeError::InvalidInput),
        r matches Ok(d) ==> deltas_decodable(d@),
{
    if execution.len() != resolution.len() {
        return Err(CombatRuntimeError::InvalidInput);
    }
    if !check_numbering(execution, resolution) {
        return Err(CombatRuntimeError::InvalidInput);
    }
    let n = execution.len();
    let mut out: Vec<CombatRuntimeFrameDelta> = Vec::new();
    let mut prev_pos: Vec<(String, HexCoord)> = Vec::new();
    let mut prev_combatants: Vec<CombatResolutionCombatant> = Vec::new();
    let mut i: usize = 0;
    while i < n
        invariant
            n == execution@.len(),
            n == resolution@.len(),
            frames_numbered(execution@, resolution@),
            i <= n,
            out@.len() == i,
            forall|k: int| 0 <= k < i ==> #[trigger] delta_records(execution@, resolution@, out@, k),
            forall|k: int| 0 <= k < i ==> #[trigger] execution@[k].fingerprint@.len() > 0 && resolution@[k].fingerprint@.len() > 0,
            forall|k: int| 0 <= k < i ==> #[trigger] combatant_ids_distinct(resolution@[k].combatants@),
            forall|k: int| 0 <= k < i ==> #[trigger] frame_encodable(execution@, resolution@, k),
            forall|k: int| 0 <= k < i ==> #[trigger] delta_decodable_at(out@, k),
            i > 0 ==> prev_combatants@ == combatant_map(resolution@[i - 1].combatants@),
            i == 0 ==> prev_combatants@.len() == 0,
        decreases n - i,
    {
        let e = &execution[i];
        let r = &resolution[i];
        if e.fingerprint.as_str().is_empty() || r.fingerprint.as_str().is_empty() {
            assert(!frame_encodable(execution@, resolution@, i as int));
            return Err(CombatRuntimeError::InvalidInput);
        }
        let mut updates: Vec<(String, HexCoord)> = Vec::new();
        let np = e.positions.len();
        let mut k: usize = 0;
        while k < np
            invariant
                np == e.positions@.len(),
                k <= np,
            decreases np - k,
        {
            let (id, p) = (&e.positions[k].0, e.positions[k].1);
            let same = match position_of(&prev_pos, id.as_str()) {
                Some(q) => q == p,
                None => false,
            };
            if !same {
                updates.push((id.clone(), p));
            }
            k += 1;
        }
        let mut current: Vec<CombatResolutionCombatant> = Vec::new();
        let mut combatant_updates: Vec<CombatResolutionCombatant> = Vec::new();
        let nc = r.combatants.len();
        let mut k: usize = 0;
        while k < nc
            invariant
                nc == r.combatants@.len(),
                k <= nc,
                forall|x: int| 0 <= x < k ==> current@.contains(#[trigger] r.combatants@[x]),
                forall|x: int, y: int| 0 <= x < y < k ==> #[trigger] r.combatants@[x].id@ != #[trigger] r.combatants@[y].id@,
                current@ == combatant_map(r.combatants@.take(k as int)),
                forall|u: int| 0 <= u < combatant_updates@.len() ==> #[trigger] update_from(combatant_updates@[u], r.combatants@, k as int),
                combatant_ids_distinct(combatant_updates@),
                r == &resolution@[i as int],
                i < n,
                n == resolution@.len(),
            decreases nc - k,
        {
            let c = &r.combatants[k];
            let found = combatant_of(&current, c.id.as_str());
            if found.is_some() {
                proof {
                    let j = found->Some_0 as int;
                    if forall|x: int, y: int| 0 <= x < y < r.combatants@.len() ==> #[trigger] r.combatants@[x].id@ != #[trigger] r.combatants@[y].id@ {
                        lemma_combatant_map_members(r.combatants@.take(k as int));
                        assert(r.combatants@.take(k as int).contains(current@[j]));
                        let x = choose|x: int| 0 <= x < k && r.combatants@.take(k as int)[x] == current@[j];
                        assert(r.combatants@[x].id@ == r.combatants@[k as int].id@);
                    }
                    assert(!combatant_ids_distinct(resolution@[i as int].combatants@));
                    assert(!frame_encodable(execution@, resolution@, i as int));
                }
                return Err(CombatRuntimeError::InvalidInput);
            }
            proof {
                assert forall|x: int| 0 <= x < k implies #[trigger] r.combatants@[x].id@ != c.id@ by {
                    assert(current@.contains(r.combatants@[x]));
                    let j = choose|j: int| 0 <= j < current@.len() && current@[j] == r.combatants@[x];
                    assert(current@[j].id@ != c.id@);
                }
                lemma_put_new_combatant(current@, *c);
            }
            let ghost cur_before = current@;
            put_combatant(&mut current, c);
            assert(r.combatants@.take(k + 1).drop_last() =~= r.combatants@.take(k as int));
            proof {
                assert forall|x: int| 0 <= x <= k implies current@.contains(#[trigger] r.combatants@[x]) by {
                    if x < k {
                        assert(cur_before.contains(r.combatants@[x]));
                        let j = choose|j: int| 0 <= j < cur_before.len() && cur_before[j] == r.combatants@[x];
                        assert(current@.contains(cur_before[j]));
                    } else {
                        assert(r.combatants@[x] == *c);
                    }
                }
            }
            let changed = match combatant_of(&prev_combatants, c.id.as_str()) {
                Some(j) => !combatant_states_equal(&prev_combatants[j], c),
                None => true,
            };
            let ghost upd_before = combatant_updates@;
            if changed {
                combatant_updates.push(c.clone());
            }
            proof {
                assert forall|u: int| 0 <= u < combatant_updates@.len() implies #[trigger] update_from(combatant_updates@[u], r.combatants@, k + 1) by {
                    if u < upd_before.len() {
                        assert(combatant_updates@[u] == upd_before[u]);
                        assert(update_from(upd_before[u], r.combatants@, k as int));
                    } else {
                        assert(combatant_updates@[u].id@ == r.combatants@[k as int].id@);
                    }
                }
                assert forall|x: int, y: int| 0 <= x < y < combatant_updates@.len() implies #[trigger] combatant_updates@[x].id@ != #[trigger] combatant_updates@[y].id@ by {
                    if y < upd_before.len() {
                        assert(combatant_updates@[x] == upd_before[x] && combatant_updates@[y] == upd_before[y]);
                    } else {
                        assert(combatant_updates@[x] == upd_before[x]);
                        assert(update_from(upd_before[x], r.combatants@, k as int));
                        let w = choose|w: int| 0 <= w < k && upd_before[x].id@ == #[trigger] r.combatants@[w].id@;
                        assert(r.combatants@[w].id@ != r.combatants@[k as int].id@);
                    }
                }
            }
            k += 1;
        }
        assert(r.combatants@.take(nc as int) =~= r.combatants@);
        if prev_combatants.len() > 0 && !same_ids(&current, &prev_combatants) {
            assert(!frame_encodable(execution@, resolution@, i as int));
            return Err(CombatRuntimeError::InvalidInput);
        }
        let moves = if i > 0 && moves_equal(&execution[i - 1].moves, &e.moves) {
            None
        } else {
            Some(copy_moves(&e.moves))
        };
        let outcomes = if i > 0 && outcomes_equal(&resolution[i - 1].outcomes, &r.outcomes) {
            None
        } else {
            Some(copy_outcomes(&r.outcomes))
        };
        let ghost before_out = out@;
        proof {
            assert(frames_numbered(execution@, resolution@));
        }
        out.push(CombatRuntimeFrameDelta {
            tick: e.tick,
            moves,
            position_updates: updates,
            execution_fingerprint: e.fingerprint.clone(),
            outcomes,
            combatant_updates,
            resolution_fingerprint: r.fingerprint.clone(),
        });
        proof {
            assert forall|k: int| 0 <= k <= i implies #[trigger] delta_records(execution@, resolution@, out@, k) by {
                if k < i {
                    assert(out@[k] == before_out[k]);
                    assert(delta_records(execution@, resolution@, before_out, k));
                }
            }
            assert forall|k: int| 0 <= k <= i implies #[trigger] delta_decodable_at(out@, k) by {
                if k < i {
                    assert(out@[k] == before_out[k]);
                    assert(delta_decodable_at(before_out, k));
                }
            }
            assert(frame_encodable(execution@, resolution@, i as int));
            assert forall|k: int| 0 <= k <= i implies #[trigger] execution@[k].fingerprint@.len() > 0 && resolution@[k].fingerprint@.len() > 0 by {
                if k == i {
                    assert(frame_encodable(execution@, resolution@, k));
                }
            }
        }
        let mut next_pos: Vec<(String, HexCoord)> = Vec::new();
        let mut k: usize = 0;
        while k < np
            invariant
                np == e.positions@.len(),
                k <= np,
            decreases np - k,
        {
            put_position(&mut next_pos, &e.positions[k].0, e.positions[k].1);
            k += 1;
        }
        prev_pos = next_pos;
        prev_combatants = current;
        i += 1;
    }
    Ok(out)
}

/// Delta `i` can be read: numbered `i + 1`, both fingerprints given, the
/// first delta carries moves and outcomes, and no combatant is updated
/// twice.
pub open spec fn delta_decodable_at(ds: Seq<CombatRuntimeFrameDelta>, i: int) -> bool {
    &&& ds[i].tick == i + 1
    &&& ds[i].execution_fingerprint@.len() > 0
    &&& ds[i].resolution_fingerprint@.len() > 0
    &&& (i == 0 ==> ds[i].moves is Some && ds[i].outcomes is Some)
    &&& combatant_ids_distinct(ds[i].combatant_updates@)
}

/// Every delta of the list can be read.
pub open spec fn deltas_decodable(ds: Seq<CombatRuntimeFrameDelta>) -> bool {
    forall|i: int| 0 <= i < ds.len() ==> #[trigger] delta_decodable_at(ds, i)
}

/// Rebuilds the frames a list of deltas encodes; refuses deltas not
/// numbered `1, 2, ...`, lacking a fingerprint, a first delta without moves
/// or outcomes, or one that updates a combatant twice.
pub fn decode_frame_deltas(
    deltas: &Vec<CombatRuntimeFrameDelta>,
) -> (r: Result<(Vec<CombatTickFrame>, Vec<CombatResolutionFrame>), CombatRuntimeError>)
    ensures
        r matches Ok((e, f)) ==> e@.len() == deltas@.len() && f@.len() == deltas@.len(),
        deltas@.len() > 0 && (deltas@[0].moves is None || deltas@[0].outcomes is None) ==> r is Err,
        (exists|i: int| 0 <= i < deltas@.len() && #[trigger] deltas@[i].tick != i + 1) ==> r is Err,
        r is Ok <==> deltas_decodable(deltas@),
        r is Err ==> r == Err::<(Vec<CombatTickFrame>, Vec<CombatResolutionFrame>), CombatRuntimeError>(CombatRuntimeError::InvalidInput),
        r matches Ok((e, f)) ==> delta_decoding(deltas@, e@, f@),
{
    let mut ex: Vec<CombatTickFrame> = Vec::new();
    let mut re: Vec<CombatResolutionFrame> = Vec::new();
    let mut pos: Vec<(String, HexCoord)> = Vec::new();
    let mut combatants: Vec<CombatResolutionCombatant> = Vec::new();
    let mut moves: Option<Vec<CombatMoveIntent>> = None;
    let mut outcomes: Option<Vec<CombatAttackOutcome>> = None;
    let n = deltas.len();
    let mut i: usize = 0;
    while i < n
        invariant
            n == deltas@.len(),
            i <= n,
            ex@.len() == i,
            re@.len() == i,
            forall|k: int| 0 <= k < i ==> #[trigger] deltas@[k].tick == k + 1,
            forall|k: int| 0 <= k < i ==> #[trigger] delta_decodable_at(deltas@, k),
            n > 0 && (deltas@[0].moves is None || deltas@[0].outcomes is None) ==> i == 0,
            forall|k: int| 0 <= k < i ==> #[trigger] delta_read(deltas@, ex@, re@, k),
            i > 0 ==> moves is Some && outcomes is Some,
            moves matches Some(mv) ==> same_moves(mv@, moves_at(deltas@, i - 1)),
            outcomes matches Some(ov) ==> same_outcomes(ov@, outcomes_at(deltas@, i - 1)),
        decreases n - i,
    {
        let d = &deltas[i];
        if i >= 0xffff_ffff || d.tick as usize != i + 1 || d.execution_fingerprint.as_str().is_empty() || d.resolution_fingerprint.as_str().is_empty()
            || (i == 0 && (d.moves.is_none() || d.outcomes.is_none())) {
            proof {
                if i >= 0xffff_ffff {
                    assert(deltas@[i as int].tick != i + 1);
                }
                assert(!delta_decodable_at(deltas@, i as int));
            }
            return Err(CombatRuntimeError::InvalidInput);
        }
        assert(deltas@[i as int] == *d);
        match &d.moves {
            Some(m) => {
                moves = Some(copy_moves(m));
            },
            None => {},
        }
        let m = match &moves {
            Some(m) => copy_moves(m),
            None => {
                return Err(CombatRuntimeError::InvalidInput);
            },
        };
        proof {
            lemma_same_moves_trans(m@, moves->Some_0@, moves_at(deltas@, i as int));
        }
        let nu = d.position_updates.len();
        let mut k: usize = 0;
        while k < nu
            invariant
                nu == d.position_updates@.len(),
                k <= nu,
            decreases nu - k,
        {
            put_position(&mut pos, &d.position_updates[k].0, d.position_updates[k].1);
            k += 1;
        }
        match &d.outcomes {
            Some(o) => {
                outcomes = Some(copy_outcomes(o));
            },
            None => {},
        }
        let o = match &outcomes {
            Some(o) => copy_outcomes(o),
            None => {
                return Err(CombatRuntimeError::InvalidInput);
            },
        };
        proof {
            lemma_same_outcomes_trans(o@, outcomes->Some_0@, outcomes_at(deltas@, i as int));
        }
        let mut seen: Vec<String> = Vec::new();
        let nc = d.combatant_updates.len();
        let mut k: usize = 0;
        while k < nc
            invariant
                nc == d.combatant_updates@.len(),
                k <= nc,
                n == deltas@.len(),
                i < n,
                deltas@[i as int] == *d,
                seen@.len() == k,
                forall|x: int| 0 <= x < k ==> (#[trigger] seen@[x])@ == d.combatant_updates@[x].id@,
                forall|x: int, y: int| 0 <= x < y < k ==> #[trigger] d.combatant_updates@[x].id@ != #[trigger] d.combatant_updates@[y].id@,
            decreases nc - k,
        {
            let c = &d.combatant_updates[k];
            if crate::combat_opportunity::contains_text(&seen, c.id.as_str()) {
                proof {
                    let x = choose|x: int| 0 <= x < seen@.len() && #[trigger] seen@[x]@ == c.id@;
                    assert(d.combatant_updates@[x].id@ == d.combatant_updates@[k as int].id@);
                    assert(!combatant_ids_distinct(d.combatant_updates@));
                    assert(!delta_decodable_at(deltas@, i as int));
                }
                return Err(CombatRuntimeError::InvalidInput);
            }
            proof {
                assert forall|x: int| 0 <= x < k implies #[trigger] d.combatant_updates@[x].id@ != c.id@ by {
                    if d.combatant_updates@[x].id@ == c.id@ {
                        assert(seen@[x]@ == c.id@);
                    }
                }
            }
            seen.push(c.id.clone());
            put_combatant(&mut combatants, c);
            k += 1;
        }
        let ghost ex_before = ex@;
        let ghost re_before = re@;
        ex.push(CombatTickFrame { tick: d.tick, moves: m, positions: pos.clone(), fingerprint: d.execution_fingerprint.clone() });
        re.push(CombatResolutionFrame { tick: d.tick, outcomes: o, combatants: combatants.clone(), fingerprint: d.resolution_fingerprint.clone() });
        proof {
            assert forall|k: int| 0 <= k <= i implies #[trigger] delta_read(deltas@, ex@, re@, k) by {
                if k < i {
                    assert(ex@[k] == ex_before[k]);
                    assert(re@[k] == re_before[k]);
                    assert(delta_read(deltas@, ex_before, re_before, k));
                }
            }
            assert(delta_decodable_at(deltas@, i as int));
        }
        i += 1;
    }
    Ok((ex, re))
}


// ---------------------------------------------------------------------------
// Order independence of segment seeds
// ---------------------------------------------------------------------------

/// What the payload reads of a history entry.
pub type HistoryKey = (u32, u32, Seq<char>, Seq<char>, Seq<char>);

pub open spec fn history_key(e: CombatRuntimeSelectionHistoryEntry) -> HistoryKey {
    (e.segment_index, e.tick, e.instance_id@, e.opportunity_id@, e.response_id@)
}

pub open spec fn history_key_fn() -> spec_fn(CombatRuntimeSelectionHistoryEntry) -> HistoryKey {
    |e: CombatRuntimeSelectionHistoryEntry| history_key(e)
}

pub open spec fn key_order() -> spec_fn(HistoryKey, HistoryKey) -> int {
    |a: HistoryKey, b: HistoryKey|
        crate::order::then_ord(
            crate::order::int_ord(a.0 as int, b.0 as int),
            crate::order::then_ord(
                crate::order::int_ord(a.1 as int, b.1 as int),
                crate::order::then_ord(
                    str_ord(a.2, b.2),
                    crate::order::then_ord(str_ord(a.3, b.3), str_ord(a.4, b.4)),
                ),
            ),
        )
}

pub open spec fn key_json(k: HistoryKey) -> Json {
    let f = Seq::<(Seq<u8>, Json)>::empty();
    let f = f.push((encode_utf8("segment_index"@), Json::Num(k.0 as int)));
    let f = f.push((encode_utf8("tick"@), Json::Num(k.1 as int)));
    let f = f.push((encode_utf8("instance_id"@), jstr(k.2)));
    let f = f.push((encode_utf8("opportunity_id"@), jstr(k.3)));
    let f = f.push((encode_utf8("response_id"@), jstr(k.4)));
    Json::Obj(f)
}

pub open spec fn key_json_fn() -> spec_fn(HistoryKey) -> Json {
    |k: HistoryKey| key_json(k)
}

proof fn lemma_text_facts(x: Seq<char>, y: Seq<char>)
    ensures
        str_ord(x, y) > 0 <==> str_ord(y, x) < 0,
        str_ord(x, y) == 0 <==> str_ord(y, x) == 0,
        str_ord(x, x) == 0,
        str_ord(x, y) == 0 ==> x == y,
{
    crate::order::lemma_bytes_ord_basic(encode_utf8(x), encode_utf8(y));
    crate::order::lemma_bytes_ord_basic(encode_utf8(x), encode_utf8(x));
    if str_ord(x, y) == 0 {
        crate::order::lemma_str_ord_zero(x, y);
    }
}

proof fn lemma_text_trans(x: Seq<char>, y: Seq<char>, z: Seq<char>)
    ensures
        str_ord(x, y) <= 0 && str_ord(y, z) <= 0 ==> str_ord(x, z) <= 0,
{
    if str_ord(x, y) <= 0 && str_ord(y, z) <= 0 {
        crate::order::lemma_bytes_ord_trans(encode_utf8(x), encode_utf8(y), encode_utf8(z));
    }
}

/// The key order is a total order that calls only equal keys equal.
pub proof fn lemma_key_order()
    ensures
        crate::order::total_order(key_order()),
        crate::order::antisymmetric(key_order()),
{
    let o = key_order();
    assert forall|a: HistoryKey, b: HistoryKey| #[trigger] o(a, b) > 0 <==> o(b, a) < 0 by {
        lemma_text_facts(a.2, b.2);
        lemma_text_facts(a.3, b.3);
        lemma_text_facts(a.4, b.4);
    }
    assert forall|a: HistoryKey| #[trigger] o(a, a) == 0 by {
        lemma_text_facts(a.2, a.2);
        lemma_text_facts(a.3, a.3);
        lemma_text_facts(a.4, a.4);
    }
    assert forall|a: HistoryKey, b: HistoryKey, c: HistoryKey|
        #[trigger] o(a, b) <= 0 && #[trigger] o(b, c) <= 0 implies o(a, c) <= 0 by {
        lemma_text_facts(a.2, b.2);
        lemma_text_facts(b.2, c.2);
        lemma_text_facts(a.2, c.2);
        lemma_text_facts(a.3, b.3);
        lemma_text_facts(b.3, c.3);
        lemma_text_facts(a.3, c.3);
        lemma_text_facts(a.4, b.4);
        lemma_text_facts(b.4, c.4);
        lemma_text_facts(a.4, c.4);
        lemma_text_trans(a.2, b.2, c.2);
        lemma_text_trans(a.3, b.3, c.3);
        lemma_text_trans(a.4, b.4, c.4);
    }
    assert forall|a: HistoryKey, b: HistoryKey| #[trigger] o(a, b) == 0 implies a == b by {
        lemma_text_facts(a.2, b.2);
        lemma_text_facts(a.3, b.3);
        lemma_text_facts(a.4, b.4);
    }
}

/// Reordering a segment's selection history does not change its payload,
/// and so not its seed: the payload lists the entries in a canonical order.
pub proof fn lemma_segment_payload_order_free(
    base_seed: u64,
    namespace: CombatRngNamespace,
    version: Seq<char>,
    manifest_fingerprint: Seq<char>,
    segment_index: u32,
    h1: Seq<CombatRuntimeSelectionHistoryEntry>,
    h2: Seq<CombatRuntimeSelectionHistoryEntry>,
)
    requires
        h1.map_values(history_key_fn()).to_multiset() == h2.map_values(history_key_fn()).to_multiset(),
    ensures
        segment_payload_json(base_seed, namespace, version, manifest_fingerprint, segment_index, h1)
            == segment_payload_json(base_seed, namespace, version, manifest_fingerprint, segment_index, h2),
{
    lemma_key_order();
    assert forall|a: CombatRuntimeSelectionHistoryEntry, b: CombatRuntimeSelectionHistoryEntry| #[trigger] history_order()(
        a,
        b,
    ) > 0 <==> key_order()(history_key_fn()(a), history_key_fn()(b)) > 0 by {}
    crate::order::lemma_sort_seq_map(h1, history_order(), key_order(), history_key_fn());
    crate::order::lemma_sort_seq_map(h2, history_order(), key_order(), history_key_fn());
    crate::order::lemma_sort_seq_permutation(h1.map_values(history_key_fn()), h2.map_values(history_key_fn()), key_order());
    let s1 = sort_seq(h1, history_order());
    let s2 = sort_seq(h2, history_order());
    assert(s1.map_values(history_entry_json_fn()) =~= s1.map_values(history_key_fn()).map_values(key_json_fn()));
    assert(s2.map_values(history_entry_json_fn()) =~= s2.map_values(history_key_fn()).map_values(key_json_fn()));
}

} // verus!
