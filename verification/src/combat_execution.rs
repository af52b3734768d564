//! One batch run of the movement simulation: which random stream it draws
//! from, the frames it produces, and the log a viewer reads.
use vstd::prelude::*;
use vstd::utf8::encode_utf8;
use crate::combat_contract::{
    manifest_check, manifest_fingerprint, namespace_name, CombatRngNamespace, CombatSimulationVersion,
};
use crate::combat_simulation::{
    combat_move_mode_index, sim_set_up, ticks_run, simulation_fingerprint_json, simulation_setup_check, simulation_valid,
    simulation_wf, tick_frame_fingerprint, tick_frame_json, tick_frame_json_fn, tick_frame_json_to,
    CombatMoveIntent, CombatMoveMode, CombatSimulation, CombatSimulationError, CombatSimulationInput,
    CombatTickFrame,
};
use crate::combat_state::state_check;
use crate::json::{
    enc, json_array, json_view, json_view_fields, jstr, opt_str_json, push_field, push_item, str_json,
    to_bytes, Json, JsonValue,
};
use crate::text::{fingerprint_bytes, fingerprint_of};

verus! {

#[derive(Clone, Copy, Debug, PartialEq, Eq, Structural)]
pub enum CombatRunMode {
    Actual,
    Forecast,
    Retry,
    Auto,
    Fast,
}

#[derive(Clone, Copy, Debug, PartialEq, Eq, Structural)]
pub enum CombatPresentationSpeed {
    OneX,
    TwoX,
    Instant,
}

/// How much a log event matters; later variants matter more.
#[derive(Clone, Copy, Debug, PartialEq, Eq, Structural)]
pub enum CombatLogImportance {
    Routine,
    Important,
    Decisive,
}

#[derive(Clone, Copy, Debug, PartialEq, Eq, Structural)]
pub enum CombatLogTag {
    MoveIntent,
    TargetSelection,
}

#[derive(Debug, PartialEq, Eq)]
pub struct CombatLogEvent {
    pub tick: u32,
    pub sequence: u32,
    pub tag: CombatLogTag,
    pub importance: CombatLogImportance,
    pub actor_id: String,
    pub target_id: Option<String>,
}

impl Clone for CombatLogEvent {
    fn clone(&self) -> (r: Self)
        ensures
            r == *self,
    {
        CombatLogEvent {
            tick: self.tick,
            sequence: self.sequence,
            tag: self.tag,
            importance: self.importance,
            actor_id: self.actor_id.clone(),
            target_id: self.target_id.clone(),
        }
    }
}

#[derive(Clone, Debug, PartialEq, Eq)]
pub struct CombatExecutionRequest {
    pub input: CombatSimulationInput,
    pub mode: CombatRunMode,
    pub presentation: CombatPresentationSpeed,
    pub ticks: u32,
}

/// Where a run came from: the rules version, the manifest it ran under and
/// the length of one tick.
#[derive(Debug, PartialEq, Eq)]
pub struct CombatProvenance {
    pub simulation_version: CombatSimulationVersion,
    pub manifest_fingerprint: String,
    pub tick_millis: u32,
}

impl Clone for CombatProvenance {
    fn clone(&self) -> (r: Self)
        ensures
            r == *self,
    {
        CombatProvenance {
            simulation_version: self.simulation_version.clone(),
            manifest_fingerprint: self.manifest_fingerprint.clone(),
            tick_millis: self.tick_millis,
        }
    }
}

#[derive(Clone, Debug, PartialEq, Eq)]
pub struct CombatExecutionResult {
    pub mode: CombatRunMode,
    pub presentation: CombatPresentationSpeed,
    pub effective_seed: u64,
    pub namespace: CombatRngNamespace,
    pub frames: Vec<CombatTickFrame>,
    pub full_log: Vec<CombatLogEvent>,
    pub core_log: Vec<CombatLogEvent>,
    pub fingerprint: String,
    pub provenance: Option<CombatProvenance>,
}

#[derive(Clone, Debug, PartialEq, Eq)]
pub enum CombatExecutionError {
    ZeroTicks,
    InvalidInput,
    Simulation(CombatSimulationError),
}


pub open spec fn combat_log_importance_name(x: CombatLogImportance) -> Seq<char> {
    match x {
        CombatLogImportance::Routine => "routine"@,
        CombatLogImportance::Important => "important"@,
        CombatLogImportance::Decisive => "decisive"@,
    }
}

pub open spec fn combat_log_importance_json(x: CombatLogImportance) -> Json {
    jstr(combat_log_importance_name(x))
}

pub fn combat_log_importance_str(x: CombatLogImportance) -> (s: &'static str)
    ensures
        s@ == combat_log_importance_name(x),
{
    match x {
        CombatLogImportance::Routine => "routine",
        CombatLogImportance::Important => "important",
        CombatLogImportance::Decisive => "decisive",
    }
}

pub fn combat_log_importance_json_to(x: CombatLogImportance) -> (j: JsonValue)
    ensures
        json_view(j) == combat_log_importance_json(x),
{
    str_json(combat_log_importance_str(x))
}

pub open spec fn combat_log_importance_index(x: CombatLogImportance) -> int {
    match x {
        CombatLogImportance::Routine => 0,
        CombatLogImportance::Important => 1,
        CombatLogImportance::Decisive => 2,
    }
}

pub fn combat_log_importance_rank(x: CombatLogImportance) -> (r: u8)
    ensures
        r as int == combat_log_importance_index(x),
{
    match x {
        CombatLogImportance::Routine => 0,
        CombatLogImportance::Important => 1,
        CombatLogImportance::Decisive => 2,
    }
}
pub open spec fn combat_log_tag_name(x: CombatLogTag) -> Seq<char> {
    match x {
        CombatLogTag::MoveIntent => "move_intent"@,
        CombatLogTag::TargetSelection => "target_selection"@,
    }
}

pub open spec fn combat_log_tag_json(x: CombatLogTag) -> Json {
    jstr(combat_log_tag_name(x))
}

pub fn combat_log_tag_str(x: CombatLogTag) -> (s: &'static str)
    ensures
        s@ == combat_log_tag_name(x),
{
    match x {
        CombatLogTag::MoveIntent => "move_intent",
        CombatLogTag::TargetSelection => "target_selection",
    }
}

pub fn combat_log_tag_json_to(x: CombatLogTag) -> (j: JsonValue)
    ensures
        json_view(j) == combat_log_tag_json(x),
{
    str_json(combat_log_tag_str(x))
}

pub open spec fn combat_log_tag_index(x: CombatLogTag) -> int {
    match x {
        CombatLogTag::MoveIntent => 0,
        CombatLogTag::TargetSelection => 1,
    }
}

pub fn combat_log_tag_rank(x: CombatLogTag) -> (r: u8)
    ensures
        r as int == combat_log_tag_index(x),
{
    match x {
        CombatLogTag::MoveIntent => 0,
        CombatLogTag::TargetSelection => 1,
    }
}
pub open spec fn log_event_json(x: CombatLogEvent) -> Json {
    let f = Seq::<(Seq<u8>, Json)>::empty();
    let f = f.push((encode_utf8("tick"@), Json::Num(x.tick as int)));
    let f = f.push((encode_utf8("sequence"@), Json::Num(x.sequence as int)));
    let f = f.push((encode_utf8("tag"@), combat_log_tag_json(x.tag)));
    let f = f.push((encode_utf8("importance"@), combat_log_importance_json(x.importance)));
    let f = f.push((encode_utf8("actor_id"@), jstr(x.actor_id@)));
    let f = f.push((encode_utf8("target_id"@), match x.target_id { Some(v) => jstr(v@), None => Json::Null }));
    Json::Obj(f)
}

pub open spec fn log_event_json_fn() -> spec_fn(CombatLogEvent) -> Json {
    |x: CombatLogEvent| log_event_json(x)
}

pub fn log_event_json_to(x: &CombatLogEvent) -> (j: JsonValue)
    ensures
        json_view(j) == log_event_json(*x),
{
    let mut f: Vec<(String, JsonValue)> = Vec::new();
    push_field(&mut f, "tick", JsonValue::UInt(x.tick as u64));
    push_field(&mut f, "sequence", JsonValue::UInt(x.sequence as u64));
    push_field(&mut f, "tag", combat_log_tag_json_to(x.tag));
    push_field(&mut f, "importance", combat_log_importance_json_to(x.importance));
    push_field(&mut f, "actor_id", str_json(x.actor_id.as_str()));
    push_field(&mut f, "target_id", opt_str_json(&x.target_id));
    JsonValue::Obj(f)
}

/// The two events one move intent logs: its target choice, then the move,
/// whose importance grows from hold to advance to retreat.
pub open spec fn intent_events(tick: u32, seq: int, m: CombatMoveIntent) -> Seq<CombatLogEvent> {
    seq![
        CombatLogEvent {
            tick,
            sequence: seq as u32,
            tag: CombatLogTag::TargetSelection,
            importance: CombatLogImportance::Routine,
            actor_id: m.actor_id,
            target_id: m.target_id,
        },
        CombatLogEvent {
            tick,
            sequence: (seq + 1) as u32,
            tag: CombatLogTag::MoveIntent,
            importance: move_importance(m.mode),
            actor_id: m.actor_id,
            target_id: m.target_id,
        },
    ]
}

pub open spec fn move_importance(mode: CombatMoveMode) -> CombatLogImportance {
    match mode {
        CombatMoveMode::Hold => CombatLogImportance::Routine,
        CombatMoveMode::Advance => CombatLogImportance::Important,
        CombatMoveMode::Retreat => CombatLogImportance::Decisive,
    }
}

/// The events of one frame's first `n` intents, numbered from zero.
pub open spec fn frame_events(tick: u32, moves: Seq<CombatMoveIntent>, n: nat) -> Seq<CombatLogEvent>
    decreases n,
{
    if n == 0 {
        Seq::empty()
    } else {
        frame_events(tick, moves, (n - 1) as nat) + intent_events(tick, 2 * (n - 1), moves[n - 1])
    }
}

/// The execution log of a run: every frame's events, frame after frame.
pub open spec fn execution_log(frames: Seq<CombatTickFrame>) -> Seq<CombatLogEvent>
    decreases frames.len(),
{
    if frames.len() == 0 {
        Seq::empty()
    } else {
        execution_log(frames.drop_last()) + frame_events(
            frames.last().tick,
            frames.last().moves@,
            frames.last().moves@.len(),
        )
    }
}

/// Frames whose intents can be numbered in a `u32`.
pub open spec fn log_fits(frames: Seq<CombatTickFrame>) -> bool {
    forall|i: int| 0 <= i < frames.len() ==> #[trigger] frames[i].moves@.len() < 0x7fff_ffff
}

/// Whether every frame's intents can be numbered in a `u32`.
pub fn frames_fit_log(frames: &Vec<CombatTickFrame>) -> (b: bool)
    ensures
        b == log_fits(frames@),
{
    let n = frames.len();
    let mut i: usize = 0;
    while i < n
        invariant
            n == frames@.len(),
            i <= n,
            forall|j: int| 0 <= j < i ==> #[trigger] frames@[j].moves@.len() < 0x7fff_ffff,
        decreases n - i,
    {
        if frames[i].moves.len() >= 0x7fff_ffff {
            return false;
        }
        i += 1;
    }
    true
}

fn move_importance_of(mode: CombatMoveMode) -> (r: CombatLogImportance)
    ensures
        r == move_importance(mode),
{
    match mode {
        CombatMoveMode::Hold => CombatLogImportance::Routine,
        CombatMoveMode::Advance => CombatLogImportance::Important,
        CombatMoveMode::Retreat => CombatLogImportance::Decisive,
    }
}

/// The log of a run's frames: per intent, a target-selection event then a
/// move event, numbered from zero within each tick.
pub fn build_execution_log(frames: &Vec<CombatTickFrame>) -> (log: Vec<CombatLogEvent>)
    requires
        log_fits(frames@),
    ensures
        log@ == execution_log(frames@),
{
    let mut log: Vec<CombatLogEvent> = Vec::new();
    let nf = frames.len();
    let mut f: usize = 0;
    while f < nf
        invariant
            nf == frames@.len(),
            f <= nf,
            log_fits(frames@),
            log@ == execution_log(frames@.take(f as int)),
        decreases nf - f,
    {
        let frame = &frames[f];
        assert(frame.moves@.len() < 0x7fff_ffff);
        let ghost base = log@;
        let n = frame.moves.len();
        let mut i: usize = 0;
        let mut sequence: u32 = 0;
        while i < n
            invariant
                n == frame.moves@.len(),
                n < 0x7fff_ffff,
                i <= n,
                sequence == 2 * i,
                log@ == base + frame_events(frame.tick, frame.moves@, i as nat),
            decreases n - i,
        {
            let m = &frame.moves[i];
            log.push(CombatLogEvent {
                tick: frame.tick,
                sequence,
                tag: CombatLogTag::TargetSelection,
                importance: CombatLogImportance::Routine,
                actor_id: m.actor_id.clone(),
                target_id: m.target_id.clone(),
            });
            log.push(CombatLogEvent {
                tick: frame.tick,
                sequence: sequence + 1,
                tag: CombatLogTag::MoveIntent,
                importance: move_importance_of(m.mode),
                actor_id: m.actor_id.clone(),
                target_id: m.target_id.clone(),
            });
            proof {
                assert(log@ =~= base + frame_events(frame.tick, frame.moves@, (i + 1) as nat));
            }
            sequence = sequence + 2;
            i += 1;
        }
        proof {
            assert(frames@.take(f + 1).drop_last() =~= frames@.take(f as int));
            assert(frames@.take(f + 1).last() == frames@[f as int]);
        }
        f += 1;
    }
    assert(frames@.take(nf as int) =~= frames@);
    log
}

/// The events that matter: those at least `Important`.
pub open spec fn core_events(log: Seq<CombatLogEvent>) -> Seq<CombatLogEvent>
    decreases log.len(),
{
    if log.len() == 0 {
        log
    } else if combat_log_importance_index(log.last().importance) >= 1 {
        core_events(log.drop_last()).push(log.last())
    } else {
        core_events(log.drop_last())
    }
}

/// Keeps the events at least `Important`, in order.
pub fn core_log_of(log: &Vec<CombatLogEvent>) -> (r: Vec<CombatLogEvent>)
    ensures
        r@ == core_events(log@),
{
    let mut out: Vec<CombatLogEvent> = Vec::new();
    let n = log.len();
    let mut i: usize = 0;
    while i < n
        invariant
            n == log@.len(),
            i <= n,
            out@ == core_events(log@.take(i as int)),
        decreases n - i,
    {
        let e = &log[i];
        proof {
            assert(log@.take(i + 1).drop_last() =~= log@.take(i as int));
        }
        if combat_log_importance_rank(e.importance) >= 1 {
            out.push(e.clone());
        }
        i += 1;
    }
    assert(log@.take(n as int) =~= log@);
    out
}

/// A run's fingerprint tuple: namespace, effective seed, setup fingerprint,
/// frames and log.
pub open spec fn execution_tuple_json(
    namespace: CombatRngNamespace,
    effective_seed: u64,
    setup: Seq<char>,
    frames: Seq<CombatTickFrame>,
    log: Seq<CombatLogEvent>,
) -> Json {
    Json::Arr(
        seq![
            jstr(namespace_name(namespace)),
            Json::Num(effective_seed as int),
            jstr(setup),
            Json::Arr(frames.map_values(tick_frame_json_fn())),
            Json::Arr(log.map_values(log_event_json_fn())),
        ],
    )
}

/// What a run fixes before its first tick.
#[derive(Debug)]
pub struct CombatExecutionContext {
    pub mode: CombatRunMode,
    pub presentation: CombatPresentationSpeed,
    pub effective_seed: u64,
    pub namespace: CombatRngNamespace,
    pub setup_fingerprint: String,
    pub provenance: CombatProvenance,
}

/// The namespace a run mode draws from.
pub open spec fn mode_namespace(mode: CombatRunMode) -> CombatRngNamespace {
    if mode == CombatRunMode::Forecast {
        CombatRngNamespace::ForecastEnsemble
    } else {
        CombatRngNamespace::ActualCombat
    }
}

/// The seed a run draws with: the input's own, or for a forecast the
/// manifest's seed derived for the forecast namespace.
pub open spec fn effective_seed_of(input: CombatSimulationInput, mode: CombatRunMode) -> u64 {
    if mode == CombatRunMode::Forecast {
        crate::text::fnv64(
            crate::combat_contract::colon3(
                encode_utf8(input.manifest.simulation_version@),
                encode_utf8(namespace_name(CombatRngNamespace::ForecastEnsemble)),
                input.manifest.actual_seed as nat,
            ) + seq![0x3au8] + encode_utf8(manifest_fingerprint(input.manifest)),
        )
    } else {
        input.seed
    }
}

/// The input a run simulates: the request's, with the effective seed.
pub open spec fn run_input(input: CombatSimulationInput, mode: CombatRunMode) -> CombatSimulationInput {
    CombatSimulationInput { seed: effective_seed_of(input, mode), ..input }
}

/// The seed a run of `input` in `mode` draws from: the input's own seed,
/// or for a forecast the seed derived from the manifest (refused when the
/// manifest is unusable).
pub fn effective_seed_for(input: &CombatSimulationInput, mode: CombatRunMode) -> (r: Result<u64, CombatExecutionError>)
    ensures
        mode == CombatRunMode::Forecast && manifest_check(input.manifest) is Err ==> r
            == Err::<u64, CombatExecutionError>(CombatExecutionError::InvalidInput),
        (mode != CombatRunMode::Forecast || manifest_check(input.manifest) is Ok) ==> r == Ok::<u64, CombatExecutionError>(
            effective_seed_of(*input, mode),
        ),
{
    if mode == CombatRunMode::Forecast {
        match input.manifest.derived_seed(CombatRngNamespace::ForecastEnsemble) {
            Ok(s) => Ok(s),
            Err(_) => Err(CombatExecutionError::InvalidInput),
        }
    } else {
        Ok(input.seed)
    }
}

/// The namespace a run in `mode` draws from.
pub fn namespace_for(mode: CombatRunMode) -> (r: CombatRngNamespace)
    ensures
        r == mode_namespace(mode),
{
    if mode == CombatRunMode::Forecast {
        CombatRngNamespace::ForecastEnsemble
    } else {
        CombatRngNamespace::ActualCombat
    }
}

/// Sets a run up: refuses zero ticks, fixes namespace and seed, builds the
/// simulation and fingerprints its setup.
pub fn prepare_context(request: CombatExecutionRequest) -> (r: Result<(CombatExecutionContext, CombatSimulation), CombatExecutionError>)
    ensures
        request.ticks == 0 ==> r == Err::<(CombatExecutionContext, CombatSimulation), CombatExecutionError>(CombatExecutionError::ZeroTicks),
        request.ticks > 0 && request.mode == CombatRunMode::Forecast && manifest_check(request.input.manifest) is Err ==> r
            == Err::<(CombatExecutionContext, CombatSimulation), CombatExecutionError>(CombatExecutionError::InvalidInput),
        r is Ok <==> request.ticks > 0 && simulation_valid(run_input(request.input, request.mode)),
        r matches Ok((c, s)) ==> {
            &&& c.mode == request.mode
            &&& c.presentation == request.presentation
            &&& c.namespace == mode_namespace(request.mode)
            &&& c.effective_seed == effective_seed_of(request.input, request.mode)
            &&& s.input == run_input(request.input, request.mode)
            &&& s.tick == 0
            &&& simulation_wf(s)
            &&& c.setup_fingerprint@ == fingerprint_of(enc(simulation_fingerprint_json(s.input)))
            &&& c.provenance.simulation_version == request.input.manifest.simulation_version
            &&& c.provenance.manifest_fingerprint@ == manifest_fingerprint(request.input.manifest)
            &&& c.provenance.tick_millis == request.input.config.tick_millis
            &&& sim_set_up(s, run_input(request.input, request.mode))
        },
{
    if request.ticks == 0 {
        return Err(CombatExecutionError::ZeroTicks);
    }
    let CombatExecutionRequest { input, mode, presentation, ticks } = request;
    let mut input = input;
    let namespace = if mode == CombatRunMode::Forecast {
        CombatRngNamespace::ForecastEnsemble
    } else {
        CombatRngNamespace::ActualCombat
    };
    let effective_seed = if mode == CombatRunMode::Forecast {
        match input.manifest.derived_seed(namespace) {
            Ok(s) => s,
            Err(_) => {
                return Err(CombatExecutionError::InvalidInput);
            },
        }
    } else {
        input.seed
    };
    input.seed = effective_seed;
    let version = input.manifest.simulation_version.clone();
    let tick_millis = input.config.tick_millis;
    let simulation = match CombatSimulation::new(input) {
        Ok(s) => s,
        Err(e) => {
            return Err(CombatExecutionError::Simulation(e));
        },
    };
    let manifest_fp = match simulation.input.manifest.fingerprint() {
        Ok(f) => f,
        Err(_) => {
            return Err(CombatExecutionError::InvalidInput);
        },
    };
    let setup = match simulation.fingerprint() {
        Ok(f) => f,
        Err(e) => {
            return Err(CombatExecutionError::Simulation(e));
        },
    };
    let context = CombatExecutionContext {
        mode,
        presentation,
        effective_seed,
        namespace,
        setup_fingerprint: setup,
        provenance: CombatProvenance { simulation_version: version, manifest_fingerprint: manifest_fp, tick_millis },
    };
    Ok((context, simulation))
}

/// A run's result from its context, frames and log; the core log keeps the
/// events at least `Important`.
pub fn assemble_result(context: &CombatExecutionContext, frames: Vec<CombatTickFrame>, full_log: Vec<CombatLogEvent>) -> (r: CombatExecutionResult)
    ensures
        r.mode == context.mode,
        r.presentation == context.presentation,
        r.effective_seed == context.effective_seed,
        r.namespace == context.namespace,
        r.frames@ == frames@,
        r.full_log@ == full_log@,
        r.core_log@ == core_events(full_log@),
        r.fingerprint@ == fingerprint_of(enc(execution_tuple_json(context.namespace, context.effective_seed, context.setup_fingerprint@, frames@, full_log@))),
        r.provenance == Some(context.provenance),
{
    let core = core_log_of(&full_log);
    let mut items: Vec<JsonValue> = Vec::new();
    push_item(&mut items, str_json(context.namespace.as_str()));
    push_item(&mut items, JsonValue::UInt(context.effective_seed));
    push_item(&mut items, str_json(context.setup_fingerprint.as_str()));
    let conv_f = |f: &CombatTickFrame| -> (j: JsonValue)
        ensures
            json_view(j) == tick_frame_json(*f),
        { tick_frame_json_to(f) };
    push_item(&mut items, json_array(&frames, conv_f, Ghost(tick_frame_json_fn())));
    let conv_e = |e: &CombatLogEvent| -> (j: JsonValue)
        ensures
            json_view(j) == log_event_json(*e),
        { log_event_json_to(e) };
    push_item(&mut items, json_array(&full_log, conv_e, Ghost(log_event_json_fn())));
    let j = JsonValue::Arr(items);
    proof {
        assert(crate::json::json_view_seq(items@) =~= seq![
            jstr(namespace_name(context.namespace)),
            Json::Num(context.effective_seed as int),
            jstr(context.setup_fingerprint@),
            Json::Arr(frames@.map_values(tick_frame_json_fn())),
            Json::Arr(full_log@.map_values(log_event_json_fn())),
        ]);
    }
    let fingerprint = fingerprint_bytes(to_bytes(&j).as_slice());
    CombatExecutionResult {
        mode: context.mode,
        presentation: context.presentation,
        effective_seed: context.effective_seed,
        namespace: context.namespace,
        frames,
        full_log,
        core_log: core,
        fingerprint,
        provenance: Some(context.provenance.clone()),
    }
}

/// What a finished run of `request` holds: its mode, namespace and seed,
/// `ticks` fingerprinted frames numbered from 1, their log and the run's
/// fingerprint.
pub open spec fn execution_made(request: CombatExecutionRequest, res: CombatExecutionResult) -> bool {
    &&& res.mode == request.mode
    &&& res.presentation == request.presentation
    &&& res.namespace == mode_namespace(request.mode)
    &&& res.effective_seed == effective_seed_of(request.input, request.mode)
    &&& res.frames@.len() == request.ticks
    &&& (forall|i: int| 0 <= i < request.ticks ==> #[trigger] res.frames@[i].tick == i + 1 && res.frames@[i].fingerprint@ == tick_frame_fingerprint(res.frames@[i]))
    &&& res.full_log@ == execution_log(res.frames@)
    &&& res.core_log@ == core_events(res.full_log@)
    &&& res.fingerprint@ == fingerprint_of(enc(execution_tuple_json(
        res.namespace,
        res.effective_seed,
        fingerprint_of(enc(simulation_fingerprint_json(run_input(request.input, request.mode)))),
        res.frames@,
        res.full_log@,
    )))
}

/// The frames are successive ticks of the simulation set up for the
/// request's input (with the run's seed).
pub open spec fn simulated_from(request: CombatExecutionRequest, frames: Seq<CombatTickFrame>) -> bool {
    exists|s0: CombatSimulation, s1: CombatSimulation| sim_set_up(s0, run_input(request.input, request.mode)) && #[trigger] ticks_run(s0, s1, frames)
}

/// Runs a whole request in one go: `ticks` frames, their log and the run's
/// fingerprint.
pub fn execute(request: CombatExecutionRequest) -> (r: Result<CombatExecutionResult, CombatExecutionError>)
    ensures
        request.ticks == 0 ==> r == Err::<CombatExecutionResult, CombatExecutionError>(CombatExecutionError::ZeroTicks),
        request.ticks > 0 && !simulation_valid(run_input(request.input, request.mode)) ==> r is Err,
        request.ticks > request.input.config.max_ticks ==> r is Err,
        r matches Ok(res) ==> execution_made(request, res),
        r matches Ok(res) ==> simulated_from(request, res.frames@),
{
    let ticks = request.ticks;
    let (context, mut simulation) = prepare_context(request)?;
    let ghost s0 = simulation;
    let frames = match simulation.run_ticks(ticks) {
        Ok(f) => f,
        Err(e) => {
            return Err(CombatExecutionError::Simulation(e));
        },
    };
    assert(sim_set_up(s0, run_input(request.input, request.mode)) && ticks_run(s0, simulation, frames@));
    if !frames_fit_log(&frames) {
        return Err(CombatExecutionError::InvalidInput);
    }
    let log = build_execution_log(&frames);
    Ok(assemble_result(&context, frames, log))
}

} // verus!
