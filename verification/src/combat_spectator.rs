//! What a spectator of a resolved battle is shown: the board at each tick
//! with the cues each piece plays, and the battle log as template ids, with
//! hidden rolls and hidden effects kept out of it.
use vstd::prelude::*;
use vstd::utf8::encode_utf8;
use crate::combat_execution::{
    combat_log_importance_index, combat_log_importance_json, combat_log_importance_json_to, combat_log_importance_rank,
    CombatLogEvent, CombatLogImportance, CombatLogTag,
};
use crate::combat_hex::HexCoord;
use crate::combat_resolution::{
    CombatAttackOutcome, CombatResolutionCombatant, CombatResolutionFrame, CombatResolutionLogEvent,
    CombatResolutionLogTag, CombatResolutionResult,
};
use crate::combat_simulation::{
    combat_side_json, combat_side_json_to, hex_coord_json, hex_coord_json_to, CombatSide,
    CombatSimulationParticipant, CombatTickFrame,
};
use crate::combat_state::{CombatEffectCatalog, CombatEffectDefinition, EffectVisibility};
use crate::json::{
    enc, json_array, json_view, json_view_fields, jstr, opt_str_json, push_field, str_json, to_bytes, Json, JsonValue,
};
use crate::order::{first_some, sort_by_order, sort_seq};
use crate::text::{fingerprint_bytes, fingerprint_of, str_eq};

verus! {

/// The shared staging vocabulary: a renderer picks its presentation from
/// these kinds alone.
#[derive(Clone, Copy, Debug, PartialEq, Eq, Structural)]
pub enum CombatSpectatorCue {
    Attack,
    Hit,
    Evade,
    BalanceBroken,
    Incapacitated,
}

pub open spec fn cue_name(c: CombatSpectatorCue) -> Seq<char> {
    match c {
        CombatSpectatorCue::Attack => "attack"@,
        CombatSpectatorCue::Hit => "hit"@,
        CombatSpectatorCue::Evade => "evade"@,
        CombatSpectatorCue::BalanceBroken => "balance_broken"@,
        CombatSpectatorCue::Incapacitated => "incapacitated"@,
    }
}

pub open spec fn cue_json(c: CombatSpectatorCue) -> Json {
    jstr(cue_name(c))
}

pub open spec fn cue_json_fn() -> spec_fn(CombatSpectatorCue) -> Json {
    |c: CombatSpectatorCue| cue_json(c)
}

pub fn cue_str(c: CombatSpectatorCue) -> (s: &'static str)
    ensures
        s@ == cue_name(c),
{
    match c {
        CombatSpectatorCue::Attack => "attack",
        CombatSpectatorCue::Hit => "hit",
        CombatSpectatorCue::Evade => "evade",
        CombatSpectatorCue::BalanceBroken => "balance_broken",
        CombatSpectatorCue::Incapacitated => "incapacitated",
    }
}

pub fn cue_json_to(c: &CombatSpectatorCue) -> (j: JsonValue)
    ensures
        json_view(j) == cue_json(*c),
{
    str_json(cue_str(*c))
}

#[derive(Debug, PartialEq, Eq)]
pub struct CombatSpectatorPiece {
    pub id: String,
    pub side: CombatSide,
    pub position: HexCoord,
    pub facing: HexCoord,
    pub active: bool,
    pub cues: Vec<CombatSpectatorCue>,
}

#[derive(Debug, PartialEq, Eq)]
pub struct CombatSpectatorFrame {
    pub tick: u32,
    pub pieces: Vec<CombatSpectatorPiece>,
}

/// A registered event tag turned into a template id; the sentence itself
/// belongs to the renderer.
#[derive(Debug, PartialEq, Eq)]
pub struct CombatSpectatorLogEntry {
    pub tick: u32,
    pub sequence: u32,
    pub template_id: String,
    pub importance: CombatLogImportance,
    pub actor_id: String,
    pub target_id: Option<String>,
    pub value_hundredths: Option<i64>,
    pub effect_id: Option<String>,
}

impl Clone for CombatSpectatorLogEntry {
    fn clone(&self) -> (r: Self)
        ensures
            r == *self,
    {
        CombatSpectatorLogEntry {
            tick: self.tick,
            sequence: self.sequence,
            template_id: self.template_id.clone(),
            importance: self.importance,
            actor_id: self.actor_id.clone(),
            target_id: self.target_id.clone(),
            value_hundredths: self.value_hundredths,
            effect_id: self.effect_id.clone(),
        }
    }
}

#[derive(Debug, PartialEq, Eq)]
pub struct CombatSpectatorView {
    pub resolution_fingerprint: String,
    pub tick_millis: u32,
    pub frames: Vec<CombatSpectatorFrame>,
    pub core_log: Vec<CombatSpectatorLogEntry>,
    pub full_log: Vec<CombatSpectatorLogEntry>,
    pub fingerprint: String,
}

pub struct CombatSpectatorRequest {
    pub resolution: CombatResolutionResult,
    pub participants: Vec<CombatSimulationParticipant>,
    pub catalog: CombatEffectCatalog,
}

#[derive(Clone, Debug, PartialEq, Eq)]
pub enum CombatSpectatorError {
    UnknownParticipant(String),
    /// Without provenance, or with a zero `tick_millis`, screen time cannot
    /// follow simulation time.
    MissingProvenance,
}

// ---------------------------------------------------------------- lookups

/// The last participant with this id (a later entry overrides an earlier one).
pub open spec fn last_participant(ps: Seq<CombatSimulationParticipant>, id: Seq<char>) -> Option<
    CombatSimulationParticipant,
>
    decreases ps.len(),
{
    if ps.len() == 0 {
        None
    } else if ps.last().id@ == id {
        Some(ps.last())
    } else {
        last_participant(ps.drop_last(), id)
    }
}

/// The last resolution frame of this tick.
pub open spec fn last_frame_at(frames: Seq<CombatResolutionFrame>, tick: u32) -> Option<CombatResolutionFrame>
    decreases frames.len(),
{
    if frames.len() == 0 {
        None
    } else if frames.last().tick == tick {
        Some(frames.last())
    } else {
        last_frame_at(frames.drop_last(), tick)
    }
}

/// The last catalogue definition with this id.
pub open spec fn last_definition(es: Seq<CombatEffectDefinition>, id: Seq<char>) -> Option<CombatEffectDefinition>
    decreases es.len(),
{
    if es.len() == 0 {
        None
    } else if es.last().id@ == id {
        Some(es.last())
    } else {
        last_definition(es.drop_last(), id)
    }
}

fn find_participant(ps: &Vec<CombatSimulationParticipant>, id: &str) -> (r: Option<usize>)
    ensures
        match r {
            Some(i) => i < ps@.len() && last_participant(ps@, id@) == Some(ps@[i as int]),
            None => last_participant(ps@, id@) is None,
        },
{
    let mut i: usize = ps.len();
    assert(ps@.take(i as int) =~= ps@);
    while i > 0
        invariant
            i <= ps@.len(),
            last_participant(ps@, id@) == last_participant(ps@.take(i as int), id@),
        decreases i,
    {
        let ghost pre = ps@.take(i as int);
        assert(pre.drop_last() =~= ps@.take(i - 1));
        if str_eq(ps[i - 1].id.as_str(), id) {
            return Some(i - 1);
        }
        i -= 1;
    }
    None
}

fn find_frame(frames: &Vec<CombatResolutionFrame>, tick: u32) -> (r: Option<usize>)
    ensures
        match r {
            Some(i) => i < frames@.len() && last_frame_at(frames@, tick) == Some(frames@[i as int]),
            None => last_frame_at(frames@, tick) is None,
        },
{
    let mut i: usize = frames.len();
    assert(frames@.take(i as int) =~= frames@);
    while i > 0
        invariant
            i <= frames@.len(),
            last_frame_at(frames@, tick) == last_frame_at(frames@.take(i as int), tick),
        decreases i,
    {
        let ghost pre = frames@.take(i as int);
        assert(pre.drop_last() =~= frames@.take(i - 1));
        if frames[i - 1].tick == tick {
            return Some(i - 1);
        }
        i -= 1;
    }
    None
}

fn find_definition(es: &Vec<CombatEffectDefinition>, id: &str) -> (r: Option<usize>)
    ensures
        match r {
            Some(i) => i < es@.len() && last_definition(es@, id@) == Some(es@[i as int]),
            None => last_definition(es@, id@) is None,
        },
{
    let mut i: usize = es.len();
    assert(es@.take(i as int) =~= es@);
    while i > 0
        invariant
            i <= es@.len(),
            last_definition(es@, id@) == last_definition(es@.take(i as int), id@),
        decreases i,
    {
        let ghost pre = es@.take(i as int);
        assert(pre.drop_last() =~= es@.take(i - 1));
        if str_eq(es[i - 1].id.as_str(), id) {
            return Some(i - 1);
        }
        i -= 1;
    }
    None
}

// ---------------------------------------------------------------- cues

pub open spec fn attacks_from(os: Seq<CombatAttackOutcome>, id: Seq<char>) -> bool {
    exists|k: int| 0 <= k < os.len() && #[trigger] os[k].actor_id@ == id
}

pub open spec fn hit_lands_on(o: CombatAttackOutcome, id: Seq<char>) -> bool {
    o.target_id@ == id && o.hit && o.damage_hundredths > 0
}

pub open spec fn evaded_by(o: CombatAttackOutcome, id: Seq<char>) -> bool {
    o.target_id@ == id && o.in_range && !o.hit
}

pub open spec fn is_hit_on(os: Seq<CombatAttackOutcome>, id: Seq<char>) -> bool {
    exists|k: int| 0 <= k < os.len() && #[trigger] hit_lands_on(os[k], id)
}

pub open spec fn is_evaded_by(os: Seq<CombatAttackOutcome>, id: Seq<char>) -> bool {
    exists|k: int| 0 <= k < os.len() && #[trigger] evaded_by(os[k], id)
}

/// The first combatant of the snapshot with this id.
pub open spec fn first_combatant(cs: Seq<CombatResolutionCombatant>, id: Seq<char>) -> Option<CombatResolutionCombatant>
    decreases cs.len(),
{
    if cs.len() == 0 {
        None
    } else if cs[0].id@ == id {
        Some(cs[0])
    } else {
        first_combatant(cs.drop_first(), id)
    }
}

pub open spec fn cue_if(b: bool, c: CombatSpectatorCue) -> Seq<CombatSpectatorCue> {
    if b {
        seq![c]
    } else {
        Seq::empty()
    }
}

/// The cues of one piece at one tick, in the order of their kinds: attack,
/// hit and evade from that tick's outcomes; balance broken and incapacitated
/// from that tick's snapshot, as it stands (no comparison with earlier ticks).
pub open spec fn cues_spec(id: Seq<char>, frame: Option<CombatResolutionFrame>) -> Seq<CombatSpectatorCue> {
    match frame {
        None => Seq::empty(),
        Some(f) => {
            let c = first_combatant(f.combatants@, id);
            cue_if(attacks_from(f.outcomes@, id), CombatSpectatorCue::Attack) + cue_if(
                is_hit_on(f.outcomes@, id),
                CombatSpectatorCue::Hit,
            ) + cue_if(is_evaded_by(f.outcomes@, id), CombatSpectatorCue::Evade) + cue_if(
                c matches Some(x) && x.balance_hundredths <= 0,
                CombatSpectatorCue::BalanceBroken,
            ) + cue_if(c matches Some(x) && x.current_health_hundredths <= 0, CombatSpectatorCue::Incapacitated)
        },
    }
}

fn find_combatant(cs: &Vec<CombatResolutionCombatant>, id: &str) -> (r: Option<usize>)
    ensures
        match r {
            Some(i) => i < cs@.len() && first_combatant(cs@, id@) == Some(cs@[i as int]),
            None => first_combatant(cs@, id@) is None,
        },
{
    let n = cs.len();
    let mut i: usize = 0;
    assert(cs@.skip(0) =~= cs@);
    while i < n
        invariant
            n == cs@.len(),
            i <= n,
            first_combatant(cs@, id@) == first_combatant(cs@.skip(i as int), id@),
        decreases n - i,
    {
        let ghost rest = cs@.skip(i as int);
        assert(rest.drop_first() =~= cs@.skip(i + 1));
        if str_eq(cs[i].id.as_str(), id) {
            return Some(i);
        }
        i += 1;
    }
    None
}

fn push_cue_if(cues: &mut Vec<CombatSpectatorCue>, b: bool, c: CombatSpectatorCue)
    ensures
        final(cues)@ == old(cues)@ + cue_if(b, c),
{
    if b {
        cues.push(c);
    } else {
        assert(old(cues)@ + cue_if(b, c) =~= old(cues)@);
    }
}

fn cues_for(id: &str, frames: &Vec<CombatResolutionFrame>, at: Option<usize>) -> (r: Vec<CombatSpectatorCue>)
    requires
        at matches Some(i) ==> i < frames@.len(),
    ensures
        r@ == cues_spec(
            id@,
            match at {
                Some(i) => Some(frames@[i as int]),
                None => None,
            },
        ),
{
    let mut cues: Vec<CombatSpectatorCue> = Vec::new();
    let fi = match at {
        Some(i) => i,
        None => {
            return cues;
        },
    };
    let os = &frames[fi].outcomes;
    let mut attack = false;
    let mut hit = false;
    let mut evade = false;
    let n = os.len();
    let mut k: usize = 0;
    while k < n
        invariant
            n == os@.len(),
            k <= n,
            attack == exists|j: int| 0 <= j < k && #[trigger] os@[j].actor_id@ == id@,
            hit == exists|j: int| 0 <= j < k && #[trigger] hit_lands_on(os@[j], id@),
            evade == exists|j: int| 0 <= j < k && #[trigger] evaded_by(os@[j], id@),
        decreases n - k,
    {
        let o = &os[k];
        if str_eq(o.actor_id.as_str(), id) {
            attack = true;
        }
        let aimed = str_eq(o.target_id.as_str(), id);
        let h_k = aimed && o.hit && o.damage_hundredths > 0;
        let e_k = aimed && o.in_range && !o.hit;
        proof {
            assert(os@[k as int] == *o);
            assert(h_k == hit_lands_on(os@[k as int], id@));
            assert(e_k == evaded_by(os@[k as int], id@));
        }
        hit = hit || h_k;
        evade = evade || e_k;
        k += 1;
    }
    let c = find_combatant(&frames[fi].combatants, id);
    let (broken, down) = match c {
        Some(j) => (
            frames[fi].combatants[j].balance_hundredths <= 0,
            frames[fi].combatants[j].current_health_hundredths <= 0,
        ),
        None => (false, false),
    };
    push_cue_if(&mut cues, attack, CombatSpectatorCue::Attack);
    push_cue_if(&mut cues, hit, CombatSpectatorCue::Hit);
    push_cue_if(&mut cues, evade, CombatSpectatorCue::Evade);
    push_cue_if(&mut cues, broken, CombatSpectatorCue::BalanceBroken);
    push_cue_if(&mut cues, down, CombatSpectatorCue::Incapacitated);
    assert(cues@ =~= cues_spec(id@, Some(frames@[fi as int])));
    cues
}

// ---------------------------------------------------------------- log

/// One event of either log, before the two are merged.
pub enum SpectatorLogSource {
    Execution(CombatLogEvent),
    Resolution(CombatResolutionLogEvent),
}

/// Rolls and suppressions carry hidden reasons and never reach a spectator.
pub open spec fn shown(e: CombatResolutionLogEvent) -> bool {
    e.tag != CombatResolutionLogTag::AttackRoll && e.tag != CombatResolutionLogTag::EffectSuppressed
}

pub open spec fn shown_events(s: Seq<CombatResolutionLogEvent>) -> Seq<CombatResolutionLogEvent>
    decreases s.len(),
{
    if s.len() == 0 {
        s
    } else if shown(s.last()) {
        shown_events(s.drop_last()).push(s.last())
    } else {
        shown_events(s.drop_last())
    }
}

/// Merge key: tick, then sequence, then the execution log before the resolution log.
pub open spec fn source_key(s: SpectatorLogSource) -> (int, int, int) {
    match s {
        SpectatorLogSource::Execution(e) => (e.tick as int, e.sequence as int, 0),
        SpectatorLogSource::Resolution(e) => (e.tick as int, e.sequence as int, 1),
    }
}

pub open spec fn cmp_int(a: int, b: int) -> int {
    if a < b {
        -1
    } else if a > b {
        1
    } else {
        0
    }
}

pub open spec fn key_order(a: (int, int, int), b: (int, int, int)) -> int {
    if a.0 != b.0 {
        cmp_int(a.0, b.0)
    } else if a.1 != b.1 {
        cmp_int(a.1, b.1)
    } else {
        cmp_int(a.2, b.2)
    }
}

pub open spec fn source_order() -> spec_fn(SpectatorLogSource, SpectatorLogSource) -> int {
    |a: SpectatorLogSource, b: SpectatorLogSource| key_order(source_key(a), source_key(b))
}

pub open spec fn merged_sources(r: CombatResolutionResult) -> Seq<SpectatorLogSource> {
    r.execution.full_log@.map_values(|e: CombatLogEvent| SpectatorLogSource::Execution(e)) + shown_events(
        r.full_log@,
    ).map_values(|e: CombatResolutionLogEvent| SpectatorLogSource::Resolution(e))
}

/// Both logs merged in key order; events with equal keys keep their order.
pub open spec fn merged_log(r: CombatResolutionResult) -> Seq<SpectatorLogSource> {
    sort_seq(merged_sources(r), source_order())
}

/// An applied effect is named only when the catalogue has it as public.
pub open spec fn effect_visible(es: Seq<CombatEffectDefinition>, id: Option<String>) -> bool {
    match id {
        Some(x) => match last_definition(es, x@) {
            Some(d) => d.visibility == EffectVisibility::Public,
            None => false,
        },
        None => false,
    }
}

pub open spec fn execution_template(tag: CombatLogTag) -> Seq<char> {
    match tag {
        CombatLogTag::MoveIntent => "combat.log.move_intent"@,
        CombatLogTag::TargetSelection => "combat.log.target_selection"@,
    }
}

/// The template, value and effect id a shown resolution event becomes.
pub open spec fn resolution_template(e: CombatResolutionLogEvent, es: Seq<CombatEffectDefinition>) -> Seq<char> {
    match e.tag {
        CombatResolutionLogTag::Collision => "combat.log.collision"@,
        CombatResolutionLogTag::DamageApplied => "combat.log.damage_applied"@,
        _ => if e.tag == CombatResolutionLogTag::EffectApplied && effect_visible(es, e.effect_id) {
            "combat.log.effect_applied"@
        } else {
            "combat.log.effect_applied_hidden"@
        },
    }
}

pub open spec fn entry_of(out: CombatSpectatorLogEntry, src: SpectatorLogSource, es: Seq<CombatEffectDefinition>) -> bool {
    match src {
        SpectatorLogSource::Execution(e) => {
            &&& out.tick == e.tick
            &&& out.sequence == e.sequence
            &&& out.template_id@ == execution_template(e.tag)
            &&& out.importance == e.importance
            &&& out.actor_id == e.actor_id
            &&& out.target_id == e.target_id
            &&& out.value_hundredths is None
            &&& out.effect_id is None
        },
        SpectatorLogSource::Resolution(e) => {
            &&& out.tick == e.tick
            &&& out.sequence == e.sequence
            &&& out.template_id@ == resolution_template(e, es)
            &&& out.importance == e.importance
            &&& out.actor_id == e.actor_id
            &&& out.target_id == Some(e.target_id)
            &&& out.value_hundredths == (if e.tag == CombatResolutionLogTag::DamageApplied {
                Some(e.value_hundredths)
            } else {
                None
            })
            &&& out.effect_id == (if e.tag == CombatResolutionLogTag::EffectApplied && effect_visible(es, e.effect_id) {
                e.effect_id
            } else {
                None
            })
        },
    }
}

/// The spectator log entries for a merged log, one for one.
pub open spec fn log_matches(out: Seq<CombatSpectatorLogEntry>, srcs: Seq<SpectatorLogSource>, es: Seq<CombatEffectDefinition>) -> bool {
    &&& out.len() == srcs.len()
    &&& forall|i: int| 0 <= i < out.len() ==> #[trigger] entry_of(out[i], srcs[i], es)
}

/// The entries of at least important weight, in order.
pub open spec fn core_entries(s: Seq<CombatSpectatorLogEntry>) -> Seq<CombatSpectatorLogEntry>
    decreases s.len(),
{
    if s.len() == 0 {
        s
    } else if combat_log_importance_index(s.last().importance) >= 1 {
        core_entries(s.drop_last()).push(s.last())
    } else {
        core_entries(s.drop_last())
    }
}

fn source_fields(s: &SpectatorLogSource) -> (r: (u32, u32, u8))
    ensures
        (r.0 as int, r.1 as int, r.2 as int) == source_key(*s),
{
    match s {
        SpectatorLogSource::Execution(e) => (e.tick, e.sequence, 0),
        SpectatorLogSource::Resolution(e) => (e.tick, e.sequence, 1),
    }
}

fn compare_sources(a: &SpectatorLogSource, b: &SpectatorLogSource) -> (r: i8)
    ensures
        r as int == key_order(source_key(*a), source_key(*b)),
{
    let (at, asq, ar) = source_fields(a);
    let (bt, bsq, br) = source_fields(b);
    if at != bt {
        if at < bt { -1 } else { 1 }
    } else if asq != bsq {
        if asq < bsq { -1 } else { 1 }
    } else if ar != br {
        if ar < br { -1 } else { 1 }
    } else {
        0
    }
}

fn collect_sources(r: &CombatResolutionResult) -> (out: Vec<SpectatorLogSource>)
    ensures
        out@ == merged_sources(*r),
{
    let mut out: Vec<SpectatorLogSource> = Vec::new();
    let xs = &r.execution.full_log;
    let n = xs.len();
    let mut i: usize = 0;
    while i < n
        invariant
            n == xs@.len(),
            i <= n,
            out@ == xs@.take(i as int).map_values(|e: CombatLogEvent| SpectatorLogSource::Execution(e)),
        decreases n - i,
    {
        out.push(SpectatorLogSource::Execution(xs[i].clone()));
        assert(xs@.take(i + 1).map_values(|e: CombatLogEvent| SpectatorLogSource::Execution(e)) =~= xs@.take(
            i as int,
        ).map_values(|e: CombatLogEvent| SpectatorLogSource::Execution(e)).push(SpectatorLogSource::Execution(xs@[i as int])));
        i += 1;
    }
    assert(xs@.take(n as int) =~= xs@);
    let ghost head = out@;
    let ys = &r.full_log;
    let m = ys.len();
    let mut j: usize = 0;
    while j < m
        invariant
            m == ys@.len(),
            j <= m,
            out@ == head + shown_events(ys@.take(j as int)).map_values(
                |e: CombatResolutionLogEvent| SpectatorLogSource::Resolution(e),
            ),
        decreases m - j,
    {
        let ghost pre = ys@.take(j + 1);
        assert(pre.drop_last() =~= ys@.take(j as int));
        assert(pre.last() == ys@[j as int]);
        let e = &ys[j];
        let keep = match e.tag {
            CombatResolutionLogTag::AttackRoll => false,
            CombatResolutionLogTag::EffectSuppressed => false,
            _ => true,
        };
        if keep {
            out.push(SpectatorLogSource::Resolution(e.clone()));
            assert(shown_events(pre).map_values(|e: CombatResolutionLogEvent| SpectatorLogSource::Resolution(e))
                =~= shown_events(ys@.take(j as int)).map_values(
                |e: CombatResolutionLogEvent| SpectatorLogSource::Resolution(e),
            ).push(SpectatorLogSource::Resolution(ys@[j as int])));
            assert(out@ =~= head + shown_events(pre).map_values(
                |e: CombatResolutionLogEvent| SpectatorLogSource::Resolution(e),
            ));
        }
        j += 1;
    }
    assert(ys@.take(m as int) =~= ys@);
    out
}

fn entry_from(src: &SpectatorLogSource, catalog: &CombatEffectCatalog) -> (out: CombatSpectatorLogEntry)
    ensures
        entry_of(out, *src, catalog.effects@),
{
    match src {
        SpectatorLogSource::Execution(e) => CombatSpectatorLogEntry {
            tick: e.tick,
            sequence: e.sequence,
            template_id: match e.tag {
                CombatLogTag::MoveIntent => "combat.log.move_intent".to_string(),
                CombatLogTag::TargetSelection => "combat.log.target_selection".to_string(),
            },
            importance: e.importance,
            actor_id: e.actor_id.clone(),
            target_id: e.target_id.clone(),
            value_hundredths: None,
            effect_id: None,
        },
        SpectatorLogSource::Resolution(e) => {
            let parts = match e.tag {
                CombatResolutionLogTag::Collision => {
                    let none_value: Option<i64> = None;
                    let none_effect: Option<String> = None;
                    ("combat.log.collision".to_string(), none_value, none_effect)
                },
                CombatResolutionLogTag::DamageApplied => (
                    "combat.log.damage_applied".to_string(),
                    Some(e.value_hundredths),
                    None,
                ),
                _ => {
                    let applied = match e.tag {
                        CombatResolutionLogTag::EffectApplied => true,
                        _ => false,
                    };
                    let visible = applied && match &e.effect_id {
                        Some(id) => match find_definition(&catalog.effects, id.as_str()) {
                            Some(k) => match catalog.effects[k].visibility {
                                EffectVisibility::Public => true,
                                _ => false,
                            },
                            None => false,
                        },
                        None => false,
                    };
                    if visible {
                        ("combat.log.effect_applied".to_string(), None, e.effect_id.clone())
                    } else {
                        ("combat.log.effect_applied_hidden".to_string(), None, None)
                    }
                },
            };
            let (template_id, value_hundredths, effect_id) = parts;
            CombatSpectatorLogEntry {
                tick: e.tick,
                sequence: e.sequence,
                template_id,
                importance: e.importance,
                actor_id: e.actor_id.clone(),
                target_id: Some(e.target_id.clone()),
                value_hundredths,
                effect_id,
            }
        },
    }
}

/// The merged spectator log of a resolution.
fn build_log(request: &CombatSpectatorRequest) -> (out: Vec<CombatSpectatorLogEntry>)
    ensures
        log_matches(out@, merged_log(request.resolution), request.catalog.effects@),
{
    let sources = collect_sources(&request.resolution);
    let by_key = |a: &SpectatorLogSource, b: &SpectatorLogSource| -> (r: i8)
        ensures
            r as int == key_order(source_key(*a), source_key(*b)),
        { compare_sources(a, b) };
    let sorted = sort_by_order(sources, by_key, Ghost(source_order()));
    let mut out: Vec<CombatSpectatorLogEntry> = Vec::new();
    let n = sorted.len();
    let mut i: usize = 0;
    while i < n
        invariant
            n == sorted@.len(),
            sorted@ == merged_log(request.resolution),
            i <= n,
            out@.len() == i,
            forall|k: int| 0 <= k < i ==> #[trigger] entry_of(out@[k], sorted@[k], request.catalog.effects@),
        decreases n - i,
    {
        let e = entry_from(&sorted[i], &request.catalog);
        out.push(e);
        i += 1;
    }
    out
}

fn core_of(full: &Vec<CombatSpectatorLogEntry>) -> (out: Vec<CombatSpectatorLogEntry>)
    ensures
        out@ == core_entries(full@),
{
    let mut out: Vec<CombatSpectatorLogEntry> = Vec::new();
    let n = full.len();
    let mut i: usize = 0;
    while i < n
        invariant
            n == full@.len(),
            i <= n,
            out@ == core_entries(full@.take(i as int)),
        decreases n - i,
    {
        let ghost pre = full@.take(i + 1);
        assert(pre.drop_last() =~= full@.take(i as int));
        if combat_log_importance_rank(full[i].importance) >= 1 {
            out.push(full[i].clone());
        }
        i += 1;
    }
    assert(full@.take(n as int) =~= full@);
    out
}

// ---------------------------------------------------------------- board

/// A piece shows the tile its id stands on in the tick frame, the side,
/// facing and activity of the participant with that id, and its cues.
pub open spec fn piece_ok(
    piece: CombatSpectatorPiece,
    entry: (String, HexCoord),
    ps: Seq<CombatSimulationParticipant>,
    frame: Option<CombatResolutionFrame>,
) -> bool {
    match last_participant(ps, entry.0@) {
        Some(p) => {
            &&& piece.id == entry.0
            &&& piece.side == p.side
            &&& piece.position == entry.1
            &&& piece.facing == p.facing
            &&& piece.active == p.active
            &&& piece.cues@ == cues_spec(entry.0@, frame)
        },
        None => false,
    }
}

pub open spec fn frame_ok(
    out: CombatSpectatorFrame,
    tf: CombatTickFrame,
    ps: Seq<CombatSimulationParticipant>,
    rframes: Seq<CombatResolutionFrame>,
) -> bool {
    &&& out.tick == tf.tick
    &&& out.pieces@.len() == tf.positions@.len()
    &&& forall|k: int|
        0 <= k < out.pieces@.len() ==> #[trigger] piece_ok(
            out.pieces@[k],
            tf.positions@[k],
            ps,
            last_frame_at(rframes, tf.tick),
        )
}

/// One spectator frame per tick frame, in order.
pub open spec fn frames_ok(
    out: Seq<CombatSpectatorFrame>,
    tfs: Seq<CombatTickFrame>,
    ps: Seq<CombatSimulationParticipant>,
    rframes: Seq<CombatResolutionFrame>,
) -> bool {
    &&& out.len() == tfs.len()
    &&& forall|f: int| 0 <= f < out.len() ==> #[trigger] frame_ok(out[f], tfs[f], ps, rframes)
}

pub open spec fn unknown_id_fn(ps: Seq<CombatSimulationParticipant>) -> spec_fn((String, HexCoord)) -> Option<Seq<char>> {
    |e: (String, HexCoord)|
        if last_participant(ps, e.0@) is None {
            Some(e.0@)
        } else {
            None
        }
}

pub open spec fn unknown_in_frame_fn(ps: Seq<CombatSimulationParticipant>) -> spec_fn(CombatTickFrame) -> Option<Seq<char>> {
    |tf: CombatTickFrame| first_some(tf.positions@, unknown_id_fn(ps))
}

/// The first id on the board, frame by frame, with no participant.
pub open spec fn unknown_participant(ps: Seq<CombatSimulationParticipant>, tfs: Seq<CombatTickFrame>) -> Option<Seq<char>> {
    first_some(tfs, unknown_in_frame_fn(ps))
}

fn board_frame(
    tf: &CombatTickFrame,
    ps: &Vec<CombatSimulationParticipant>,
    rframes: &Vec<CombatResolutionFrame>,
) -> (r: Result<CombatSpectatorFrame, CombatSpectatorError>)
    ensures
        match first_some(tf.positions@, unknown_id_fn(ps@)) {
            Some(id) => r matches Err(CombatSpectatorError::UnknownParticipant(s)) && s@ == id,
            None => r matches Ok(out) && frame_ok(out, *tf, ps@, rframes@),
        },
{
    let at = find_frame(rframes, tf.tick);
    let pos = &tf.positions;
    let n = pos.len();
    let mut pieces: Vec<CombatSpectatorPiece> = Vec::new();
    let ghost g = unknown_id_fn(ps@);
    let ghost fr = last_frame_at(rframes@, tf.tick);
    let mut k: usize = 0;
    while k < n
        invariant
            n == pos@.len(),
            pos@ == tf.positions@,
            k <= n,
            g == unknown_id_fn(ps@),
            fr == last_frame_at(rframes@, tf.tick),
            fr == match at {
                Some(i) => Some(rframes@[i as int]),
                None => None::<CombatResolutionFrame>,
            },
            at matches Some(i) ==> i < rframes@.len(),
            first_some(pos@.take(k as int), g) is None,
            pieces@.len() == k,
            forall|j: int| 0 <= j < k ==> #[trigger] piece_ok(pieces@[j], pos@[j], ps@, fr),
        decreases n - k,
    {
        let id = &pos[k].0;
        proof {
            crate::order::lemma_first_some_step(pos@, k as int, g);
        }
        match find_participant(ps, id.as_str()) {
            None => {
                proof {
                    assert(g(pos@[k as int]) == Some(pos@[k as int].0@));
                    crate::order::lemma_first_some_prefix(pos@, k + 1, g);
                }
                return Err(CombatSpectatorError::UnknownParticipant(id.clone()));
            },
            Some(pi) => {
                proof {
                    assert(g(pos@[k as int]) is None);
                }
                let p = &ps[pi];
                let piece = CombatSpectatorPiece {
                    id: id.clone(),
                    side: p.side,
                    position: pos[k].1,
                    facing: p.facing,
                    active: p.active,
                    cues: cues_for(id.as_str(), rframes, at),
                };
                pieces.push(piece);
            },
        }
        k += 1;
    }
    proof {
        crate::order::lemma_first_some_all(pos@, g);
    }
    Ok(CombatSpectatorFrame { tick: tf.tick, pieces })
}

fn board_frames(request: &CombatSpectatorRequest) -> (r: Result<Vec<CombatSpectatorFrame>, CombatSpectatorError>)
    ensures
        match unknown_participant(request.participants@, request.resolution.execution.frames@) {
            Some(id) => r matches Err(CombatSpectatorError::UnknownParticipant(s)) && s@ == id,
            None => r matches Ok(out) && frames_ok(
                out@,
                request.resolution.execution.frames@,
                request.participants@,
                request.resolution.frames@,
            ),
        },
{
    let tfs = &request.resolution.execution.frames;
    let ps = &request.participants;
    let rframes = &request.resolution.frames;
    let ghost g = unknown_in_frame_fn(ps@);
    let n = tfs.len();
    let mut out: Vec<CombatSpectatorFrame> = Vec::new();
    let mut f: usize = 0;
    while f < n
        invariant
            n == tfs@.len(),
            tfs@ == request.resolution.execution.frames@,
            ps@ == request.participants@,
            rframes@ == request.resolution.frames@,
            f <= n,
            g == unknown_in_frame_fn(ps@),
            first_some(tfs@.take(f as int), g) is None,
            out@.len() == f,
            forall|j: int| 0 <= j < f ==> #[trigger] frame_ok(out@[j], tfs@[j], ps@, rframes@),
        decreases n - f,
    {
        proof {
            crate::order::lemma_first_some_step(tfs@, f as int, g);
        }
        proof {
            assert(g(tfs@[f as int]) == first_some(tfs@[f as int].positions@, unknown_id_fn(ps@)));
        }
        match board_frame(&tfs[f], ps, rframes) {
            Err(e) => {
                proof {
                    crate::order::lemma_first_some_prefix(tfs@, f + 1, g);
                }
                return Err(e);
            },
            Ok(frame) => {
                out.push(frame);
            },
        }
        f += 1;
    }
    proof {
        crate::order::lemma_first_some_all(tfs@, g);
    }
    Ok(out)
}

// ---------------------------------------------------------------- json

pub open spec fn opt_i64_json(v: Option<i64>) -> Json {
    match v {
        Some(x) => Json::Num(x as int),
        None => Json::Null,
    }
}

pub open spec fn opt_text_json(v: Option<String>) -> Json {
    match v {
        Some(x) => jstr(x@),
        None => Json::Null,
    }
}

pub open spec fn piece_json(p: CombatSpectatorPiece) -> Json {
    let f = Seq::<(Seq<u8>, Json)>::empty();
    let f = f.push((encode_utf8("id"@), jstr(p.id@)));
    let f = f.push((encode_utf8("side"@), combat_side_json(p.side)));
    let f = f.push((encode_utf8("position"@), hex_coord_json(p.position)));
    let f = f.push((encode_utf8("facing"@), hex_coord_json(p.facing)));
    let f = f.push((encode_utf8("active"@), Json::Bool(p.active)));
    let f = f.push((encode_utf8("cues"@), Json::Arr(p.cues@.map_values(cue_json_fn()))));
    Json::Obj(f)
}

pub open spec fn piece_json_fn() -> spec_fn(CombatSpectatorPiece) -> Json {
    |p: CombatSpectatorPiece| piece_json(p)
}

pub open spec fn frame_json(x: CombatSpectatorFrame) -> Json {
    let f = Seq::<(Seq<u8>, Json)>::empty();
    let f = f.push((encode_utf8("tick"@), Json::Num(x.tick as int)));
    let f = f.push((encode_utf8("pieces"@), Json::Arr(x.pieces@.map_values(piece_json_fn()))));
    Json::Obj(f)
}

pub open spec fn frame_json_fn() -> spec_fn(CombatSpectatorFrame) -> Json {
    |x: CombatSpectatorFrame| frame_json(x)
}

pub open spec fn entry_json(x: CombatSpectatorLogEntry) -> Json {
    let f = Seq::<(Seq<u8>, Json)>::empty();
    let f = f.push((encode_utf8("tick"@), Json::Num(x.tick as int)));
    let f = f.push((encode_utf8("sequence"@), Json::Num(x.sequence as int)));
    let f = f.push((encode_utf8("template_id"@), jstr(x.template_id@)));
    let f = f.push((encode_utf8("importance"@), combat_log_importance_json(x.importance)));
    let f = f.push((encode_utf8("actor_id"@), jstr(x.actor_id@)));
    let f = f.push((encode_utf8("target_id"@), opt_text_json(x.target_id)));
    let f = f.push((encode_utf8("value_hundredths"@), opt_i64_json(x.value_hundredths)));
    let f = f.push((encode_utf8("effect_id"@), opt_text_json(x.effect_id)));
    Json::Obj(f)
}

pub open spec fn entry_json_fn() -> spec_fn(CombatSpectatorLogEntry) -> Json {
    |x: CombatSpectatorLogEntry| entry_json(x)
}

/// The view as JSON in field order, with its own fingerprint left empty:
/// the text the fingerprint is taken over.
pub open spec fn view_unsigned_json(x: CombatSpectatorView) -> Json {
    let f = Seq::<(Seq<u8>, Json)>::empty();
    let f = f.push((encode_utf8("resolution_fingerprint"@), jstr(x.resolution_fingerprint@)));
    let f = f.push((encode_utf8("tick_millis"@), Json::Num(x.tick_millis as int)));
    let f = f.push((encode_utf8("frames"@), Json::Arr(x.frames@.map_values(frame_json_fn()))));
    let f = f.push((encode_utf8("core_log"@), Json::Arr(x.core_log@.map_values(entry_json_fn()))));
    let f = f.push((encode_utf8("full_log"@), Json::Arr(x.full_log@.map_values(entry_json_fn()))));
    let f = f.push((encode_utf8("fingerprint"@), jstr(Seq::empty())));
    Json::Obj(f)
}

fn opt_i64_to_json(v: Option<i64>) -> (j: JsonValue)
    ensures
        json_view(j) == opt_i64_json(v),
{
    match v {
        Some(x) => JsonValue::Int(x),
        None => JsonValue::Null,
    }
}

fn piece_json_to(p: &CombatSpectatorPiece) -> (j: JsonValue)
    ensures
        json_view(j) == piece_json(*p),
{
    let mut f: Vec<(String, JsonValue)> = Vec::new();
    push_field(&mut f, "id", str_json(p.id.as_str()));
    push_field(&mut f, "side", combat_side_json_to(p.side));
    push_field(&mut f, "position", hex_coord_json_to(&p.position));
    push_field(&mut f, "facing", hex_coord_json_to(&p.facing));
    push_field(&mut f, "active", JsonValue::Bool(p.active));
    let conv = |c: &CombatSpectatorCue| -> (j: JsonValue)
        ensures
            json_view(j) == cue_json(*c),
        { cue_json_to(c) };
    push_field(&mut f, "cues", json_array(&p.cues, conv, Ghost(cue_json_fn())));
    JsonValue::Obj(f)
}

fn frame_json_to(x: &CombatSpectatorFrame) -> (j: JsonValue)
    ensures
        json_view(j) == frame_json(*x),
{
    let mut f: Vec<(String, JsonValue)> = Vec::new();
    push_field(&mut f, "tick", JsonValue::UInt(x.tick as u64));
    let conv = |p: &CombatSpectatorPiece| -> (j: JsonValue)
        ensures
            json_view(j) == piece_json(*p),
        { piece_json_to(p) };
    push_field(&mut f, "pieces", json_array(&x.pieces, conv, Ghost(piece_json_fn())));
    JsonValue::Obj(f)
}

fn entry_json_to(x: &CombatSpectatorLogEntry) -> (j: JsonValue)
    ensures
        json_view(j) == entry_json(*x),
{
    let mut f: Vec<(String, JsonValue)> = Vec::new();
    push_field(&mut f, "tick", JsonValue::UInt(x.tick as u64));
    push_field(&mut f, "sequence", JsonValue::UInt(x.sequence as u64));
    push_field(&mut f, "template_id", str_json(x.template_id.as_str()));
    push_field(&mut f, "importance", combat_log_importance_json_to(x.importance));
    push_field(&mut f, "actor_id", str_json(x.actor_id.as_str()));
    push_field(&mut f, "target_id", opt_str_json(&x.target_id));
    push_field(&mut f, "value_hundredths", opt_i64_to_json(x.value_hundredths));
    push_field(&mut f, "effect_id", opt_str_json(&x.effect_id));
    JsonValue::Obj(f)
}

fn view_json_to(x: &CombatSpectatorView) -> (j: JsonValue)
    requires
        x.fingerprint@ == Seq::<char>::empty(),
    ensures
        json_view(j) == view_unsigned_json(*x),
{
    let mut f: Vec<(String, JsonValue)> = Vec::new();
    push_field(&mut f, "resolution_fingerprint", str_json(x.resolution_fingerprint.as_str()));
    push_field(&mut f, "tick_millis", JsonValue::UInt(x.tick_millis as u64));
    let conv_f = |y: &CombatSpectatorFrame| -> (j: JsonValue)
        ensures
            json_view(j) == frame_json(*y),
        { frame_json_to(y) };
    push_field(&mut f, "frames", json_array(&x.frames, conv_f, Ghost(frame_json_fn())));
    let conv_e = |y: &CombatSpectatorLogEntry| -> (j: JsonValue)
        ensures
            json_view(j) == entry_json(*y),
        { entry_json_to(y) };
    push_field(&mut f, "core_log", json_array(&x.core_log, conv_e, Ghost(entry_json_fn())));
    push_field(&mut f, "full_log", json_array(&x.full_log, conv_e, Ghost(entry_json_fn())));
    push_field(&mut f, "fingerprint", str_json(x.fingerprint.as_str()));
    JsonValue::Obj(f)
}

// ---------------------------------------------------------------- spectate

/// The spectator's view of a resolved battle.
///
/// Fails without provenance (or with a zero `tick_millis`), and on the
/// first board id, frame by frame, that no participant has.
pub fn spectate(request: &CombatSpectatorRequest) -> (r: Result<CombatSpectatorView, CombatSpectatorError>)
    ensures
        !(request.resolution.execution.provenance matches Some(p) && p.tick_millis > 0) ==> r
            == Err::<CombatSpectatorView, CombatSpectatorError>(CombatSpectatorError::MissingProvenance),
        (request.resolution.execution.provenance matches Some(p) && p.tick_millis > 0) ==> match unknown_participant(
            request.participants@,
            request.resolution.execution.frames@,
        ) {
            Some(id) => r matches Err(CombatSpectatorError::UnknownParticipant(s)) && s@ == id,
            None => r is Ok,
        },
        r matches Ok(v) ==> request.resolution.execution.provenance matches Some(p) && v.tick_millis == p.tick_millis,
        r matches Ok(v) ==> v.resolution_fingerprint == request.resolution.fingerprint,
        r matches Ok(v) ==> frames_ok(
            v.frames@,
            request.resolution.execution.frames@,
            request.participants@,
            request.resolution.frames@,
        ),
        r matches Ok(v) ==> log_matches(v.full_log@, merged_log(request.resolution), request.catalog.effects@),
        r matches Ok(v) ==> v.core_log@ == core_entries(v.full_log@),
        r matches Ok(v) ==> v.fingerprint@ == fingerprint_of(enc(view_unsigned_json(v))),
{
    let tick_millis = match &request.resolution.execution.provenance {
        Some(p) => {
            if p.tick_millis == 0 {
                return Err(CombatSpectatorError::MissingProvenance);
            }
            p.tick_millis
        },
        None => {
            return Err(CombatSpectatorError::MissingProvenance);
        },
    };
    let frames = board_frames(request)?;
    let full_log = build_log(request);
    let core_log = core_of(&full_log);
    let mut view = CombatSpectatorView {
        resolution_fingerprint: request.resolution.fingerprint.clone(),
        tick_millis,
        frames,
        core_log,
        full_log,
        fingerprint: String::new(),
    };
    let j = view_json_to(&view);
    view.fingerprint = fingerprint_bytes(to_bytes(&j).as_slice());
    Ok(view)
}

// ---------------------------------------------------------------- laws

pub open spec fn source_shown(s: SpectatorLogSource) -> bool {
    match s {
        SpectatorLogSource::Resolution(e) => shown(e),
        SpectatorLogSource::Execution(_) => true,
    }
}

proof fn lemma_sort_keeps_items<T>(s: Seq<T>, order: spec_fn(T, T) -> int)
    ensures
        sort_seq(s, order).len() == s.len(),
        forall|k: int| 0 <= k < s.len() ==> s.contains(#[trigger] sort_seq(s, order)[k]),
    decreases s.len(),
{
    if s.len() > 0 {
        let rest = s.drop_last();
        lemma_sort_keeps_items(rest, order);
        crate::order::lemma_insert_sorted_elems(sort_seq(rest, order), s.last(), order);
        let out = sort_seq(s, order);
        assert forall|k: int| 0 <= k < s.len() implies s.contains(#[trigger] out[k]) by {
            if out[k] != s.last() {
                assert(sort_seq(rest, order).contains(out[k]));
                let j = choose|j: int| 0 <= j < sort_seq(rest, order).len() && sort_seq(rest, order)[j] == out[k];
                assert(rest.contains(sort_seq(rest, order)[j]));
                let m = choose|m: int| 0 <= m < rest.len() && rest[m] == out[k];
                assert(s[m] == out[k]);
            } else {
                assert(s[s.len() - 1] == out[k]);
            }
        }
    }
}

proof fn lemma_shown_events(s: Seq<CombatResolutionLogEvent>)
    ensures
        forall|k: int| 0 <= k < shown_events(s).len() ==> shown(#[trigger] shown_events(s)[k]),
    decreases s.len(),
{
    if s.len() > 0 {
        lemma_shown_events(s.drop_last());
        let prev = shown_events(s.drop_last());
        if shown(s.last()) {
            assert forall|k: int| 0 <= k < shown_events(s).len() implies shown(#[trigger] shown_events(s)[k]) by {
                if k < prev.len() {
                    assert(shown_events(s)[k] == prev[k]);
                }
            }
        }
    }
}

proof fn lemma_sources_shown(r: CombatResolutionResult)
    ensures
        forall|k: int| 0 <= k < merged_sources(r).len() ==> source_shown(#[trigger] merged_sources(r)[k]),
{
    let a = r.execution.full_log@.map_values(|e: CombatLogEvent| SpectatorLogSource::Execution(e));
    let b = shown_events(r.full_log@).map_values(|e: CombatResolutionLogEvent| SpectatorLogSource::Resolution(e));
    lemma_shown_events(r.full_log@);
    assert forall|k: int| 0 <= k < merged_sources(r).len() implies source_shown(#[trigger] merged_sources(r)[k]) by {
        if k < a.len() {
            assert(merged_sources(r)[k] == a[k]);
        } else {
            assert(merged_sources(r)[k] == b[k - a.len()]);
            assert(shown(shown_events(r.full_log@)[k - a.len()]));
        }
    }
}

/// A spectator's log never carries a roll or a suppression, and names an
/// applied effect only when the catalogue makes that effect public.
pub proof fn lemma_log_hides_secrets(r: CombatResolutionResult, out: Seq<CombatSpectatorLogEntry>, es: Seq<CombatEffectDefinition>)
    requires
        log_matches(out, merged_log(r), es),
    ensures
        forall|i: int| 0 <= i < merged_log(r).len() ==> source_shown(#[trigger] merged_log(r)[i]),
        forall|i: int| 0 <= i < out.len() && (#[trigger] out[i]).effect_id is Some ==> effect_visible(es, out[i].effect_id),
{
    lemma_sources_shown(r);
    lemma_sort_keeps_items(merged_sources(r), source_order());
    assert forall|i: int| 0 <= i < merged_log(r).len() implies source_shown(#[trigger] merged_log(r)[i]) by {
        let x = merged_log(r)[i];
        assert(merged_sources(r).contains(x));
        let j = choose|j: int| 0 <= j < merged_sources(r).len() && merged_sources(r)[j] == x;
        assert(source_shown(merged_sources(r)[j]));
    }
    assert forall|i: int| 0 <= i < out.len() && (#[trigger] out[i]).effect_id is Some implies effect_visible(
        es,
        out[i].effect_id,
    ) by {
        assert(entry_of(out[i], merged_log(r)[i], es));
    }
}

} // verus!
