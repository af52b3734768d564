//! Intervention opportunities: which observer notices what, which responses
//! they could take, and how the intervention budget limits the offers.
use vstd::prelude::*;
use vstd::utf8::encode_utf8;
use crate::combat_state::{catalog_check, CombatEffectCatalog, CombatStateError};
use crate::json::{
    enc, json_array, json_array_sorted, json_view, json_view_fields, jstr, opt_str_json, push_field,
    sorted_strs_to_json, str_elem_json_fn, str_json, strs_json, strs_to_json, to_bytes, Json, JsonValue,
};
use crate::order::{compare_str, sort_by_order, sort_seq, str_ord, str_order};
use crate::text::{blank, fingerprint_bytes, fingerprint_of, is_blank, str_eq};

verus! {

#[derive(Clone, Copy, Debug, PartialEq, Eq, Structural)]
pub enum CombatDetectionLevel {
    Undetected,
    Detected,
    Interpreted,
    Insightful,
}

pub open spec fn detection_rank(l: CombatDetectionLevel) -> int {
    match l {
        CombatDetectionLevel::Undetected => 0,
        CombatDetectionLevel::Detected => 1,
        CombatDetectionLevel::Interpreted => 2,
        CombatDetectionLevel::Insightful => 3,
    }
}

pub fn detection_rank_of(l: CombatDetectionLevel) -> (r: u8)
    ensures
        r as int == detection_rank(l),
{
    match l {
        CombatDetectionLevel::Undetected => 0,
        CombatDetectionLevel::Detected => 1,
        CombatDetectionLevel::Interpreted => 2,
        CombatDetectionLevel::Insightful => 3,
    }
}

pub open spec fn detection_name(l: CombatDetectionLevel) -> Seq<char> {
    match l {
        CombatDetectionLevel::Undetected => "undetected"@,
        CombatDetectionLevel::Detected => "detected"@,
        CombatDetectionLevel::Interpreted => "interpreted"@,
        CombatDetectionLevel::Insightful => "insightful"@,
    }
}

pub fn detection_str(l: CombatDetectionLevel) -> (s: &'static str)
    ensures
        s@ == detection_name(l),
{
    match l {
        CombatDetectionLevel::Undetected => "undetected",
        CombatDetectionLevel::Detected => "detected",
        CombatDetectionLevel::Interpreted => "interpreted",
        CombatDetectionLevel::Insightful => "insightful",
    }
}

#[derive(Clone, Copy, Debug, PartialEq, Eq, Structural)]
pub struct CombatDetectionThresholds {
    pub detected: i32,
    pub interpreted: i32,
    pub insightful: i32,
}

/// The detection level a score reaches under ordered thresholds.
pub open spec fn level_for(t: CombatDetectionThresholds, score: i32) -> CombatDetectionLevel {
    if score < t.detected {
        CombatDetectionLevel::Undetected
    } else if score < t.interpreted {
        CombatDetectionLevel::Detected
    } else if score < t.insightful {
        CombatDetectionLevel::Interpreted
    } else {
        CombatDetectionLevel::Insightful
    }
}

pub open spec fn thresholds_ordered(t: CombatDetectionThresholds) -> bool {
    t.detected <= t.interpreted && t.interpreted <= t.insightful
}

impl CombatDetectionThresholds {
    /// `Ok` when the thresholds do not decrease.
    pub fn validate(&self) -> (r: Result<(), CombatOpportunityError>)
        ensures
            r is Ok <==> thresholds_ordered(*self),
            r is Err ==> r == Err::<(), CombatOpportunityError>(CombatOpportunityError::InvalidThresholds),
    {
        if self.detected > self.interpreted || self.interpreted > self.insightful {
            Err(CombatOpportunityError::InvalidThresholds)
        } else {
            Ok(())
        }
    }

    /// The level `score` reaches, or `InvalidThresholds`.
    pub fn level_for_score(&self, score: i32) -> (r: Result<CombatDetectionLevel, CombatOpportunityError>)
        ensures
            thresholds_ordered(*self) ==> r == Ok::<CombatDetectionLevel, CombatOpportunityError>(level_for(*self, score)),
            !thresholds_ordered(*self) ==> r == Err::<CombatDetectionLevel, CombatOpportunityError>(CombatOpportunityError::InvalidThresholds),
    {
        self.validate()?;
        Ok(if score < self.detected {
            CombatDetectionLevel::Undetected
        } else if score < self.interpreted {
            CombatDetectionLevel::Detected
        } else if score < self.insightful {
            CombatDetectionLevel::Interpreted
        } else {
            CombatDetectionLevel::Insightful
        })
    }
}

#[derive(Clone, Debug, PartialEq, Eq)]
pub struct CombatOpportunityDefinition {
    pub id: String,
    pub trigger_tags: Vec<String>,
    pub required_condition_ids: Vec<String>,
    pub thresholds: CombatDetectionThresholds,
    pub expiry_tick: Option<u32>,
    pub dedupe: bool,
    pub scripted: bool,
    pub defeat_risk: bool,
    pub battlefield_impact: bool,
    pub unique_response: bool,
    pub tactical_priority: i32,
    pub free_alert_id: Option<String>,
}

#[derive(Debug, PartialEq, Eq)]
pub struct CombatOpportunityInstance {
    pub id: String,
    pub definition_id: String,
}

impl Clone for CombatOpportunityInstance {
    fn clone(&self) -> (r: Self)
        ensures
            r == *self,
    {
        CombatOpportunityInstance { id: self.id.clone(), definition_id: self.definition_id.clone() }
    }
}

#[derive(Clone, Debug, PartialEq, Eq)]
pub struct CombatObserver {
    pub id: String,
    pub detection_score: i32,
    pub capability_ids: Vec<String>,
    pub can_observe: bool,
    pub can_act: bool,
}

#[derive(Clone, Debug, PartialEq, Eq)]
pub struct CombatResponseDefinition {
    pub id: String,
    pub opportunity_id: String,
    pub minimum_detection: CombatDetectionLevel,
    pub required_capability_ids: Vec<String>,
    pub required_condition_ids: Vec<String>,
    pub executor_selector: String,
    pub target_selector: String,
    pub cost_tags: Vec<String>,
    pub resolution_kind: String,
    pub success_effect_ids: Vec<String>,
    pub failure_effect_ids: Vec<String>,
    pub unique: bool,
    pub tactical_priority: i32,
}

#[derive(Clone, Debug, PartialEq, Eq)]
pub struct CombatOpportunityCatalog {
    pub opportunities: Vec<CombatOpportunityDefinition>,
    pub responses: Vec<CombatResponseDefinition>,
    pub effect_catalog: CombatEffectCatalog,
}

#[derive(Clone, Copy, Debug, PartialEq, Eq, Structural)]
pub struct CombatInterventionBudget {
    pub maximum: u8,
    pub consumed: u8,
}

pub open spec fn budget_ok(b: CombatInterventionBudget) -> bool {
    b.maximum <= 3 && b.consumed <= b.maximum
}

impl CombatInterventionBudget {
    /// `Ok` when at most three interventions are allowed and no more than
    /// that were used.
    pub fn validate(&self) -> (r: Result<(), CombatOpportunityError>)
        ensures
            r is Ok <==> budget_ok(*self),
            r is Err ==> r == Err::<(), CombatOpportunityError>(CombatOpportunityError::InvalidBudget),
    {
        if self.maximum > 3 || self.consumed > self.maximum {
            Err(CombatOpportunityError::InvalidBudget)
        } else {
            Ok(())
        }
    }

    /// How many interventions are left.
    pub fn remaining(&self) -> (r: Result<u8, CombatOpportunityError>)
        ensures
            budget_ok(*self) ==> r == Ok::<u8, CombatOpportunityError>((self.maximum - self.consumed) as u8),
            !budget_ok(*self) ==> r == Err::<u8, CombatOpportunityError>(CombatOpportunityError::InvalidBudget),
    {
        self.validate()?;
        Ok(self.maximum - self.consumed)
    }

    /// Spends one intervention, or refuses when none is left.
    pub fn present(&mut self) -> (r: Result<(), CombatOpportunityError>)
        ensures
            !budget_ok(*old(self)) ==> r == Err::<(), CombatOpportunityError>(CombatOpportunityError::InvalidBudget)
                && *final(self) == *old(self),
            budget_ok(*old(self)) && old(self).consumed >= old(self).maximum ==> r == Err::<(), CombatOpportunityError>(
                CombatOpportunityError::BudgetExhausted,
            ) && *final(self) == *old(self),
            budget_ok(*old(self)) && old(self).consumed < old(self).maximum ==> r is Ok && final(self).maximum
                == old(self).maximum && final(self).consumed == old(self).consumed + 1,
    {
        self.validate()?;
        if self.consumed >= self.maximum {
            return Err(CombatOpportunityError::BudgetExhausted);
        }
        self.consumed = self.consumed + 1;
        Ok(())
    }
}

#[derive(Clone, Debug, PartialEq, Eq)]
pub struct CombatOpportunityContext {
    pub current_tick: u32,
    pub active_tag_ids: Vec<String>,
    pub active_condition_ids: Vec<String>,
    pub presented_instance_ids: Vec<String>,
    pub observers: Vec<CombatObserver>,
    pub budget: CombatInterventionBudget,
    pub manifest_fingerprint: String,
}

#[derive(Debug, PartialEq, Eq)]
pub struct CombatResponseOption {
    pub id: String,
    pub executor_id: Option<String>,
    pub success_effect_ids: Vec<String>,
    pub failure_effect_ids: Vec<String>,
}

impl Clone for CombatResponseOption {
    fn clone(&self) -> (r: Self)
        ensures
            r.id == self.id,
            r.executor_id == self.executor_id,
            r.success_effect_ids@ == self.success_effect_ids@,
            r.failure_effect_ids@ == self.failure_effect_ids@,
    {
        let s = self.success_effect_ids.clone();
        let f = self.failure_effect_ids.clone();
        assert(s@ =~= self.success_effect_ids@);
        assert(f@ =~= self.failure_effect_ids@);
        CombatResponseOption { id: self.id.clone(), executor_id: self.executor_id.clone(), success_effect_ids: s, failure_effect_ids: f }
    }
}

#[derive(Clone, Debug, PartialEq, Eq)]
pub struct CombatOpportunityCandidate {
    pub instance_id: String,
    pub opportunity_id: String,
    pub observer_id: String,
    pub detection: CombatDetectionLevel,
    pub options: Vec<CombatResponseOption>,
}

#[derive(Clone, Debug, PartialEq, Eq)]
pub struct CombatOpportunityEvaluation {
    pub candidate: Option<CombatOpportunityCandidate>,
    pub free_alert_ids: Vec<String>,
    pub budget: CombatInterventionBudget,
}

#[derive(Clone, Debug, PartialEq, Eq)]
pub enum CombatOpportunityError {
    EmptyId,
    DuplicateId(String),
    InvalidThresholds,
    InvalidBudget,
    BudgetExhausted,
    UnknownOpportunity(String),
    UnknownEffect(String),
    MissingEffectBundle(String),
    InvalidEffectCatalog(String),
    ReservedResponseId,
    Serialization(String),
}

/// `Ok` unless `id` is blank.
pub fn ensure_id(id: &str) -> (r: Result<(), CombatOpportunityError>)
    ensures
        r is Ok <==> !blank(id@),
        r is Err ==> r == Err::<(), CombatOpportunityError>(CombatOpportunityError::EmptyId),
{
    if is_blank(id) {
        Err(CombatOpportunityError::EmptyId)
    } else {
        Ok(())
    }
}

pub open spec fn all_present(ids: Seq<String>) -> bool {
    forall|k: int| 0 <= k < ids.len() ==> !blank(#[trigger] ids[k]@)
}

fn ensure_all(ids: &Vec<String>) -> (r: Result<(), CombatOpportunityError>)
    ensures
        r is Ok <==> all_present(ids@),
        r is Err ==> r == Err::<(), CombatOpportunityError>(CombatOpportunityError::EmptyId),
{
    let n = ids.len();
    let mut i: usize = 0;
    while i < n
        invariant
            n == ids@.len(),
            i <= n,
            forall|k: int| 0 <= k < i ==> !blank(#[trigger] ids@[k]@),
        decreases n - i,
    {
        if is_blank(ids[i].as_str()) {
            return Err(CombatOpportunityError::EmptyId);
        }
        i += 1;
    }
    Ok(())
}

pub open spec fn listed_id(ids: Seq<String>, id: Seq<char>) -> bool {
    exists|k: int| 0 <= k < ids.len() && #[trigger] ids[k]@ == id
}

/// Whether `id` is one of `ids`.
pub fn contains_text(ids: &Vec<String>, id: &str) -> (r: bool)
    ensures
        r == listed_id(ids@, id@),
{
    contains_id(ids, id)
}

fn contains_id(ids: &Vec<String>, id: &str) -> (r: bool)
    ensures
        r == listed_id(ids@, id@),
{
    let n = ids.len();
    let mut i: usize = 0;
    while i < n
        invariant
            n == ids@.len(),
            i <= n,
            forall|k: int| 0 <= k < i ==> #[trigger] ids@[k]@ != id@,
        decreases n - i,
    {
        if str_eq(ids[i].as_str(), id) {
            return true;
        }
        i += 1;
    }
    false
}

/// Every id of `needed` is in `have`.
pub open spec fn all_listed(needed: Seq<String>, have: Seq<String>) -> bool {
    forall|k: int| 0 <= k < needed.len() ==> listed_id(have, #[trigger] needed[k]@)
}

fn contains_all(needed: &Vec<String>, have: &Vec<String>) -> (r: bool)
    ensures
        r == all_listed(needed@, have@),
{
    let n = needed.len();
    let mut i: usize = 0;
    while i < n
        invariant
            n == needed@.len(),
            i <= n,
            forall|k: int| 0 <= k < i ==> listed_id(have@, #[trigger] needed@[k]@),
        decreases n - i,
    {
        if !contains_id(have, needed[i].as_str()) {
            return false;
        }
        i += 1;
    }
    true
}

/// An opportunity definition's own fields are usable.
pub open spec fn opportunity_ok(o: CombatOpportunityDefinition) -> bool {
    &&& !blank(o.id@)
    &&& thresholds_ordered(o.thresholds)
    &&& all_present(o.trigger_tags@)
    &&& all_present(o.required_condition_ids@)
    &&& (o.free_alert_id matches Some(a) ==> !blank(a@))
}

pub open spec fn has_opportunity(os: Seq<CombatOpportunityDefinition>, id: Seq<char>) -> bool {
    exists|k: int| 0 <= k < os.len() && #[trigger] os[k].id@ == id
}

pub open spec fn effect_known(c: CombatEffectCatalog, id: Seq<char>) -> bool {
    exists|k: int| 0 <= k < c.effects@.len() && #[trigger] c.effects@[k].id@ == id
}

/// A response's own fields are usable and everything it names exists.
pub open spec fn response_ok(r: CombatResponseDefinition, c: CombatOpportunityCatalog) -> bool {
    &&& !blank(r.id@)
    &&& r.id@ != "no_intervention"@
    &&& has_opportunity(c.opportunities@, r.opportunity_id@)
    &&& !blank(r.executor_selector@)
    &&& !blank(r.target_selector@)
    &&& !blank(r.resolution_kind@)
    &&& r.success_effect_ids@.len() > 0
    &&& r.failure_effect_ids@.len() > 0
    &&& all_present(r.required_capability_ids@)
    &&& all_present(r.required_condition_ids@)
    &&& all_present(r.cost_tags@)
    &&& all_present(r.success_effect_ids@)
    &&& all_present(r.failure_effect_ids@)
    &&& forall|k: int| 0 <= k < r.success_effect_ids@.len() ==> effect_known(c.effect_catalog, #[trigger] r.success_effect_ids@[k]@)
    &&& forall|k: int| 0 <= k < r.failure_effect_ids@.len() ==> effect_known(c.effect_catalog, #[trigger] r.failure_effect_ids@[k]@)
}

/// The catalogs the evaluator accepts: usable opportunities and responses,
/// distinct ids in each list, and a valid effect catalog.
pub open spec fn opportunity_catalog_ok(c: CombatOpportunityCatalog) -> bool {
    &&& forall|i: int| 0 <= i < c.opportunities@.len() ==> #[trigger] opportunity_ok(c.opportunities@[i])
    &&& forall|i: int, j: int| 0 <= i < j < c.opportunities@.len() ==> #[trigger] c.opportunities@[i].id@ != #[trigger] c.opportunities@[j].id@
    &&& catalog_check(c.effect_catalog) is Ok
    &&& forall|i: int| 0 <= i < c.responses@.len() ==> #[trigger] response_ok(c.responses@[i], c)
    &&& forall|i: int, j: int| 0 <= i < j < c.responses@.len() ==> #[trigger] c.responses@[i].id@ != #[trigger] c.responses@[j].id@
}

fn check_opportunity(o: &CombatOpportunityDefinition) -> (r: Result<(), CombatOpportunityError>)
    ensures
        r is Ok <==> opportunity_ok(*o),
{
    ensure_id(o.id.as_str())?;
    o.thresholds.validate()?;
    ensure_all(&o.trigger_tags)?;
    ensure_all(&o.required_condition_ids)?;
    match &o.free_alert_id {
        Some(a) => ensure_id(a.as_str()),
        None => Ok(()),
    }
}

fn all_known(ids: &Vec<String>, c: &CombatEffectCatalog) -> (r: Option<usize>)
    ensures
        r is None <==> forall|k: int| 0 <= k < ids@.len() ==> effect_known(*c, #[trigger] ids@[k]@),
        r matches Some(k) ==> k < ids@.len(),
{
    let n = ids.len();
    let mut i: usize = 0;
    while i < n
        invariant
            n == ids@.len(),
            i <= n,
            forall|k: int| 0 <= k < i ==> effect_known(*c, #[trigger] ids@[k]@),
        decreases n - i,
    {
        let m = c.effects.len();
        let mut j: usize = 0;
        let mut found = false;
        while j < m
            invariant
                m == c.effects@.len(),
                n == ids@.len(),
                j <= m,
                i < n,
                found ==> effect_known(*c, ids@[i as int]@),
                !found ==> forall|x: int| 0 <= x < j ==> #[trigger] c.effects@[x].id@ != ids@[i as int]@,
            decreases m - j,
        {
            if !found && str_eq(c.effects[j].id.as_str(), ids[i].as_str()) {
                found = true;
            }
            j += 1;
        }
        if !found {
            assert(!effect_known(*c, ids@[i as int]@));
            return Some(i);
        }
        i += 1;
    }
    None
}

fn check_response(r: &CombatResponseDefinition, c: &CombatOpportunityCatalog) -> (res: Result<(), CombatOpportunityError>)
    ensures
        res is Ok <==> response_ok(*r, *c),
{
    ensure_id(r.id.as_str())?;
    if str_eq(r.id.as_str(), "no_intervention") {
        return Err(CombatOpportunityError::ReservedResponseId);
    }
    let mut found = false;
    let n = c.opportunities.len();
    let mut i: usize = 0;
    while i < n
        invariant
            n == c.opportunities@.len(),
            i <= n,
            found ==> has_opportunity(c.opportunities@, r.opportunity_id@),
            !found ==> forall|k: int| 0 <= k < i ==> #[trigger] c.opportunities@[k].id@ != r.opportunity_id@,
        decreases n - i,
    {
        if !found && str_eq(c.opportunities[i].id.as_str(), r.opportunity_id.as_str()) {
            found = true;
        }
        i += 1;
    }
    if !found {
        return Err(CombatOpportunityError::UnknownOpportunity(r.opportunity_id.clone()));
    }
    ensure_id(r.executor_selector.as_str())?;
    ensure_id(r.target_selector.as_str())?;
    ensure_id(r.resolution_kind.as_str())?;
    if r.success_effect_ids.len() == 0 || r.failure_effect_ids.len() == 0 {
        return Err(CombatOpportunityError::MissingEffectBundle(r.id.clone()));
    }
    ensure_all(&r.required_capability_ids)?;
    ensure_all(&r.required_condition_ids)?;
    ensure_all(&r.cost_tags)?;
    ensure_all(&r.success_effect_ids)?;
    ensure_all(&r.failure_effect_ids)?;
    match all_known(&r.success_effect_ids, &c.effect_catalog) {
        Some(k) => {
            return Err(CombatOpportunityError::UnknownEffect(r.success_effect_ids[k].clone()));
        },
        None => {},
    }
    match all_known(&r.failure_effect_ids, &c.effect_catalog) {
        Some(k) => {
            return Err(CombatOpportunityError::UnknownEffect(r.failure_effect_ids[k].clone()));
        },
        None => {},
    }
    Ok(())
}

/// Instance `i` has a blank id, repeats an earlier id, or names no known
/// opportunity.
pub open spec fn instance_bad(
    insts: Seq<CombatOpportunityInstance>,
    os: Seq<CombatOpportunityDefinition>,
    i: int,
) -> bool {
    ||| blank(insts[i].id@)
    ||| exists|j: int| 0 <= j < i && #[trigger] insts[j].id@ == insts[i].id@
    ||| !has_opportunity(os, insts[i].definition_id@)
}

/// Definition `def` offers instance `inst` now: not presented before, not
/// expired, its tags and conditions active, an observer chosen who notices
/// it, and some response that observer's level allows and someone can
/// carry out.
pub open spec fn def_offers(
    c: CombatOpportunityCatalog,
    def: CombatOpportunityDefinition,
    inst: CombatOpportunityInstance,
    ctx: CombatOpportunityContext,
) -> bool {
    &&& !listed_id(ctx.presented_instance_ids@, inst.id@)
    &&& !(def.expiry_tick matches Some(t) && ctx.current_tick > t)
    &&& all_listed(def.trigger_tags@, ctx.active_tag_ids@)
    &&& all_listed(def.required_condition_ids@, ctx.active_condition_ids@)
    &&& best_observer_spec(def, ctx.observers@) matches Some(k)
    &&& exists|q: int| 0 <= q < c.responses@.len() && #[trigger] response_actionable(
        c.responses@[q],
        def,
        ctx.observers@[k],
        level_for(def.thresholds, ctx.observers@[k].detection_score),
        ctx,
    )
}

/// Instance `i` is offered this tick by its definition.
pub open spec fn instance_offered(
    c: CombatOpportunityCatalog,
    insts: Seq<CombatOpportunityInstance>,
    ctx: CombatOpportunityContext,
    i: int,
) -> bool {
    exists|d: int| 0 <= d < c.opportunities@.len() && #[trigger] c.opportunities@[d].id@ == insts[i].definition_id@ && def_offers(
        c,
        c.opportunities@[d],
        insts[i],
        ctx,
    )
}

/// Some instance is offered and the budget can still pay for it.
pub open spec fn offer_due(c: CombatOpportunityCatalog, insts: Seq<CombatOpportunityInstance>, ctx: CombatOpportunityContext) -> bool {
    &&& ctx.budget.consumed < ctx.budget.maximum
    &&& exists|i: int| 0 <= i < insts.len() && #[trigger] instance_offered(c, insts, ctx, i)
}

/// An evaluation is owed: a usable catalogue and budget, a manifest
/// fingerprint, sound observers and sound instances.
pub open spec fn evaluation_ready(
    c: CombatOpportunityCatalog,
    insts: Seq<CombatOpportunityInstance>,
    context: CombatOpportunityContext,
) -> bool {
    &&& opportunity_catalog_ok(c)
    &&& budget_ok(context.budget)
    &&& !blank(context.manifest_fingerprint@)
    &&& forall|k: int| 0 <= k < context.observers@.len() ==> #[trigger] observer_fault(context.observers@, k) is None
    &&& forall|i: int| 0 <= i < insts.len() ==> !#[trigger] instance_bad(insts, c.opportunities@, i)
}

/// The offer at `b`, which comes first among all offers, comes first among
/// all offered instances.
proof fn lemma_candidate_first(
    c: CombatOpportunityCatalog,
    insts: Seq<CombatOpportunityInstance>,
    ctx: CombatOpportunityContext,
    offers: Seq<Offer>,
    b: int,
)
    requires
        opportunity_catalog_ok(c),
        0 <= b < offers.len(),
        forall|x: int| 0 <= x < offers.len() ==> #[trigger] offers[x].def < c.opportunities@.len() && offers[x].instance < insts.len(),
        forall|k: int| 0 <= k < offers.len() ==> c.opportunities@[(#[trigger] offers[k]).def as int].id@ == insts[offers[k].instance as int].definition_id@,
        forall|q: int| 0 <= q < insts.len() && #[trigger] instance_offered(c, insts, ctx, q) ==> exists|k: int|
            0 <= k < offers.len() && (#[trigger] offers[k]).instance == q,
        forall|x: int| 0 <= x < offers.len() ==> #[trigger] ranked_first(
            c.opportunities@[offers[b].def as int],
            insts[offers[b].instance as int].id@,
            c.opportunities@[offers[x].def as int],
            insts[offers[x].instance as int].id@,
        ),
    ensures
        forall|q: int, dq: int, dc: int|
            #![trigger instance_offered(c, insts, ctx, q), c.opportunities@[dq], c.opportunities@[dc]]
            0 <= q < insts.len() && 0 <= dq < c.opportunities@.len() && 0 <= dc < c.opportunities@.len() && instance_offered(
                c,
                insts,
                ctx,
                q,
            ) && c.opportunities@[dq].id@ == insts[q].definition_id@ && c.opportunities@[dc].id@ == c.opportunities@[offers[b].def as int].id@
                ==> ranked_first(c.opportunities@[dc], insts[offers[b].instance as int].id@, c.opportunities@[dq], insts[q].id@),
{
    let opps = c.opportunities@;
    assert forall|q: int, dq: int, dc: int|
        #![trigger instance_offered(c, insts, ctx, q), c.opportunities@[dq], c.opportunities@[dc]]
        0 <= q < insts.len() && 0 <= dq < opps.len() && 0 <= dc < opps.len() && instance_offered(c, insts, ctx, q)
            && opps[dq].id@ == insts[q].definition_id@ && opps[dc].id@ == opps[offers[b].def as int].id@ implies ranked_first(
        opps[dc],
        insts[offers[b].instance as int].id@,
        opps[dq],
        insts[q].id@,
    ) by {
        let k = choose|k: int| 0 <= k < offers.len() && (#[trigger] offers[k]).instance == q;
        let dk = offers[k].def as int;
        let db = offers[b].def as int;
        assert(opps[dk].id@ == insts[q].definition_id@);
        if dk != dq {
            if dk < dq {
                assert(opps[dk].id@ != opps[dq].id@);
            } else {
                assert(opps[dq].id@ != opps[dk].id@);
            }
        }
        if db != dc {
            if db < dc {
                assert(opps[db].id@ != opps[dc].id@);
            } else {
                assert(opps[dc].id@ != opps[db].id@);
            }
        }
        assert(ranked_first(opps[db], insts[offers[b].instance as int].id@, opps[dk], insts[offers[k].instance as int].id@));
    }
}

impl CombatOpportunityCatalog {
    /// Checks opportunities (in order), the effect catalog, then responses
    /// (in order); `Ok` exactly when the catalog is usable.
    pub fn validate(&self) -> (r: Result<(), CombatOpportunityError>)
        ensures
            r is Ok <==> opportunity_catalog_ok(*self),
            (forall|i: int| 0 <= i < self.opportunities@.len() ==> #[trigger] opportunity_ok(self.opportunities@[i]))
                && (forall|i: int, j: int|
                0 <= i < j < self.opportunities@.len() ==> #[trigger] self.opportunities@[i].id@
                    != #[trigger] self.opportunities@[j].id@) && catalog_check(self.effect_catalog) is Err ==> (r matches Err(
                CombatOpportunityError::InvalidEffectCatalog(t),
            ) && t@ == crate::combat_state::state_error_debug(catalog_check(self.effect_catalog)->Err_0)),
    {
        let os = &self.opportunities;
        let n = os.len();
        let mut i: usize = 0;
        while i < n
            invariant
                n == os@.len(),
                os == &self.opportunities,
                i <= n,
                forall|k: int| 0 <= k < i ==> #[trigger] opportunity_ok(os@[k]),
                forall|k: int, l: int| 0 <= k < l < i ==> #[trigger] os@[k].id@ != #[trigger] os@[l].id@,
            decreases n - i,
        {
            match ensure_id(os[i].id.as_str()) {
                Ok(()) => {},
                Err(e) => {
                    assert(!opportunity_ok(os@[i as int]));
                    return Err(e);
                },
            }
            let mut j: usize = 0;
            while j < i
                invariant
                    n == os@.len(),
                    os == &self.opportunities,
                    i < n,
                    j <= i,
                    forall|k: int| 0 <= k < j ==> #[trigger] os@[k].id@ != os@[i as int].id@,
                decreases i - j,
            {
                if str_eq(os[j].id.as_str(), os[i].id.as_str()) {
                    assert(!opportunity_catalog_ok(*self)) by {
                        assert(os@[j as int].id@ == os@[i as int].id@);
                    }
                    return Err(CombatOpportunityError::DuplicateId(os[i].id.clone()));
                }
                j += 1;
            }
            match check_opportunity(&os[i]) {
                Ok(()) => {},
                Err(e) => {
                    return Err(e);
                },
            }
            i += 1;
        }
        match self.effect_catalog.validate() {
            Ok(()) => {},
            Err(e) => {
                return Err(CombatOpportunityError::InvalidEffectCatalog(crate::combat_state::state_error_debug_text(&e)));
            },
        }
        let rs = &self.responses;
        let m = rs.len();
        let mut i: usize = 0;
        while i < m
            invariant
                m == rs@.len(),
                rs == &self.responses,
                i <= m,
                forall|k: int| 0 <= k < self.opportunities@.len() ==> #[trigger] opportunity_ok(self.opportunities@[k]),
                forall|k: int, l: int| 0 <= k < l < self.opportunities@.len() ==> #[trigger] self.opportunities@[k].id@
                    != #[trigger] self.opportunities@[l].id@,
                catalog_check(self.effect_catalog) is Ok,
                forall|k: int| 0 <= k < i ==> #[trigger] response_ok(rs@[k], *self),
                forall|k: int, l: int| 0 <= k < l < i ==> #[trigger] rs@[k].id@ != #[trigger] rs@[l].id@,
            decreases m - i,
        {
            match ensure_id(rs[i].id.as_str()) {
                Ok(()) => {},
                Err(e) => {
                    assert(!response_ok(rs@[i as int], *self));
                    return Err(e);
                },
            }
            if str_eq(rs[i].id.as_str(), "no_intervention") {
                assert(!response_ok(rs@[i as int], *self));
                return Err(CombatOpportunityError::ReservedResponseId);
            }
            let mut j: usize = 0;
            while j < i
                invariant
                    m == rs@.len(),
                    rs == &self.responses,
                    i < m,
                    j <= i,
                    catalog_check(self.effect_catalog) is Ok,
                    forall|k: int| 0 <= k < j ==> #[trigger] rs@[k].id@ != rs@[i as int].id@,
                decreases i - j,
            {
                if str_eq(rs[j].id.as_str(), rs[i].id.as_str()) {
                    assert(!opportunity_catalog_ok(*self)) by {
                        assert(rs@[j as int].id@ == rs@[i as int].id@);
                    }
                    return Err(CombatOpportunityError::DuplicateId(rs[i].id.clone()));
                }
                j += 1;
            }
            match check_response(&rs[i], self) {
                Ok(()) => {},
                Err(e) => {
                    return Err(e);
                },
            }
            i += 1;
        }
        Ok(())
    }
}


/// Whether an executor selector picks `executor_id` for an opportunity the
/// observer `observer_id` noticed: `any`, `observer` (the observer
/// itself), or the executor's own id.
pub open spec fn executor_matches(selector: Seq<char>, observer_id: Seq<char>, executor_id: Seq<char>) -> bool {
    selector == "any"@ || (selector == "observer"@ && observer_id == executor_id) || selector == executor_id
}

pub fn response_executor_matches(selector: &str, observer_id: &str, executor_id: &str) -> (b: bool)
    ensures
        b == executor_matches(selector@, observer_id@, executor_id@),
{
    str_eq(selector, "any") || (str_eq(selector, "observer") && str_eq(observer_id, executor_id)) || str_eq(selector, executor_id)
}

/// Ranks two opportunity definitions: scripted, defeat risk, battlefield
/// impact, unique response, tactical priority, then an earlier expiry
/// (any expiry over none).
pub open spec fn rank_ord(a: CombatOpportunityDefinition, b: CombatOpportunityDefinition) -> int {
    crate::order::then_ord(
        bool_ord(a.scripted, b.scripted),
        crate::order::then_ord(
            bool_ord(a.defeat_risk, b.defeat_risk),
            crate::order::then_ord(
                bool_ord(a.battlefield_impact, b.battlefield_impact),
                crate::order::then_ord(
                    bool_ord(a.unique_response, b.unique_response),
                    crate::order::then_ord(
                        crate::order::int_ord(a.tactical_priority as int, b.tactical_priority as int),
                        expiry_ord(b.expiry_tick, a.expiry_tick),
                    ),
                ),
            ),
        ),
    )
}

/// Offer `a` (of definition `da`, instance id `ia`) comes before offer `b`:
/// it ranks higher, or ranks the same and its instance id is not after
/// `b`'s.
pub open spec fn ranked_first(
    da: CombatOpportunityDefinition,
    ia: Seq<char>,
    db: CombatOpportunityDefinition,
    ib: Seq<char>,
) -> bool {
    rank_ord(da, db) > 0 || (rank_ord(da, db) == 0 && str_ord(ia, ib) <= 0)
}

/// The rank order is a total preorder: reflexive, antisymmetric in sign and
/// transitive.
pub proof fn lemma_rank_ord_total(a: CombatOpportunityDefinition, b: CombatOpportunityDefinition, c: CombatOpportunityDefinition)
    ensures
        rank_ord(a, a) == 0,
        rank_ord(a, b) == -rank_ord(b, a),
        rank_ord(a, b) >= 0 && rank_ord(b, c) >= 0 ==> rank_ord(a, c) >= 0,
        rank_ord(a, b) > 0 && rank_ord(b, c) >= 0 ==> rank_ord(a, c) > 0,
        rank_ord(a, b) >= 0 && rank_ord(b, c) > 0 ==> rank_ord(a, c) > 0,
{
}

/// Coming first is reflexive and transitive.
pub proof fn lemma_ranked_first_trans(
    da: CombatOpportunityDefinition,
    ia: Seq<char>,
    db: CombatOpportunityDefinition,
    ib: Seq<char>,
    dc: CombatOpportunityDefinition,
    ic: Seq<char>,
)
    ensures
        ranked_first(da, ia, da, ia),
        ranked_first(da, ia, db, ib) && ranked_first(db, ib, dc, ic) ==> ranked_first(da, ia, dc, ic),
{
    lemma_rank_ord_total(da, db, dc);
    crate::order::lemma_bytes_ord_basic(encode_utf8(ia), encode_utf8(ia));
    if ranked_first(da, ia, db, ib) && ranked_first(db, ib, dc, ic) && rank_ord(da, db) == 0 && rank_ord(db, dc) == 0 {
        crate::order::lemma_bytes_ord_trans(encode_utf8(ia), encode_utf8(ib), encode_utf8(ic));
    }
}

pub open spec fn bool_ord(a: bool, b: bool) -> int {
    if a == b {
        0
    } else if b {
        -1
    } else {
        1
    }
}

/// `None` below every `Some`, `Some` by value.
pub open spec fn expiry_ord(a: Option<u32>, b: Option<u32>) -> int {
    match (a, b) {
        (None, None) => 0,
        (None, Some(_)) => -1,
        (Some(_), None) => 1,
        (Some(x), Some(y)) => crate::order::int_ord(x as int, y as int),
    }
}

fn bool_compare(a: bool, b: bool) -> (r: i8)
    ensures
        r as int == bool_ord(a, b),
{
    if a == b {
        0
    } else if b {
        -1
    } else {
        1
    }
}

fn expiry_compare(a: Option<u32>, b: Option<u32>) -> (r: i8)
    ensures
        r as int == expiry_ord(a, b),
{
    match (a, b) {
        (None, None) => 0,
        (None, Some(_)) => -1,
        (Some(_), None) => 1,
        (Some(x), Some(y)) => if x < y {
            -1
        } else if x > y {
            1
        } else {
            0
        },
    }
}

fn rank_compare(a: &CombatOpportunityDefinition, b: &CombatOpportunityDefinition) -> (r: i8)
    ensures
        r as int == rank_ord(*a, *b),
{
    let c = bool_compare(a.scripted, b.scripted);
    if c != 0 {
        return c;
    }
    let c = bool_compare(a.defeat_risk, b.defeat_risk);
    if c != 0 {
        return c;
    }
    let c = bool_compare(a.battlefield_impact, b.battlefield_impact);
    if c != 0 {
        return c;
    }
    let c = bool_compare(a.unique_response, b.unique_response);
    if c != 0 {
        return c;
    }
    if a.tactical_priority < b.tactical_priority {
        return -1;
    }
    if a.tactical_priority > b.tactical_priority {
        return 1;
    }
    expiry_compare(b.expiry_tick, a.expiry_tick)
}

/// The order actionable responses are offered in: higher priority, then
/// unique ones, then by id.
pub open spec fn offer_ord(a: CombatResponseDefinition, b: CombatResponseDefinition) -> int {
    crate::order::then_ord(
        crate::order::int_ord(b.tactical_priority as int, a.tactical_priority as int),
        crate::order::then_ord(bool_ord(b.unique, a.unique), str_ord(a.id@, b.id@)),
    )
}

pub open spec fn option_id_order() -> spec_fn(CombatResponseOption, CombatResponseOption) -> int {
    |a: CombatResponseOption, b: CombatResponseOption| str_ord(a.id@, b.id@)
}

/// Strictly ascending: sorted, and no id twice.
pub open spec fn ids_sorted(s: Seq<String>) -> bool {
    forall|i: int, j: int| 0 <= i < j < s.len() ==> str_ord(#[trigger] s[i]@, #[trigger] s[j]@) < 0
}

pub(crate) proof fn lemma_str_strict_trans(a: Seq<char>, b: Seq<char>, c: Seq<char>)
    requires
        (str_ord(a, b) < 0 && str_ord(b, c) <= 0) || (str_ord(a, b) <= 0 && str_ord(b, c) < 0),
    ensures
        str_ord(a, c) < 0,
{
    crate::order::lemma_bytes_ord_trans(encode_utf8(a), encode_utf8(b), encode_utf8(c));
    crate::order::lemma_bytes_ord_basic(encode_utf8(a), encode_utf8(b));
    crate::order::lemma_bytes_ord_basic(encode_utf8(b), encode_utf8(c));
    if str_ord(a, c) == 0 {
        crate::order::lemma_str_ord_zero(a, c);
    }
}

/// Adds `s` to a sorted list unless it is already there.
pub fn insert_text_sorted(v: &mut Vec<String>, s: &String)
    requires
        ids_sorted(old(v)@),
    ensures
        ids_sorted(final(v)@),
        forall|x: Seq<char>| listed_id(final(v)@, x) <==> listed_id(old(v)@, x) || x == s@,
{
    insert_id_sorted(v, s)
}

fn insert_id_sorted(v: &mut Vec<String>, s: &String)
    requires
        ids_sorted(old(v)@),
    ensures
        ids_sorted(final(v)@),
        forall|x: Seq<char>| listed_id(final(v)@, x) <==> listed_id(old(v)@, x) || x == s@,
{
    if contains_id(v, s.as_str()) {
        return;
    }
    let n = v.len();
    let mut k: usize = 0;
    while k < n && compare_str(v[k].as_str(), s.as_str()) <= 0
        invariant
            n == v@.len(),
            k <= n,
            forall|j: int| 0 <= j < k ==> str_ord(#[trigger] v@[j]@, s@) <= 0,
        decreases n - k,
    {
        k += 1;
    }
    let ghost before = v@;
    proof {
        assert forall|j: int| 0 <= j < k implies str_ord(#[trigger] before[j]@, s@) < 0 by {
            if str_ord(before[j]@, s@) == 0 {
                crate::order::lemma_str_ord_zero(before[j]@, s@);
                assert(listed_id(before, s@));
            }
        }
        if k < n {
            crate::order::lemma_bytes_ord_basic(encode_utf8(before[k as int]@), encode_utf8(s@));
            assert(str_ord(s@, before[k as int]@) < 0);
        }
    }
    v.insert(k, s.clone());
    proof {
        assert forall|i: int, j: int| 0 <= i < j < v@.len() implies str_ord(#[trigger] v@[i]@, #[trigger] v@[j]@) < 0 by {
            if j < k {
                assert(v@[i] == before[i] && v@[j] == before[j]);
            } else if j == k {
                assert(v@[i] == before[i]);
            } else if i == k {
                assert(v@[j] == before[j - 1]);
                if j - 1 > k {
                    lemma_str_strict_trans(s@, before[k as int]@, before[j - 1]@);
                }
            } else if i < k {
                assert(v@[i] == before[i] && v@[j] == before[j - 1]);
            } else {
                assert(v@[i] == before[i - 1] && v@[j] == before[j - 1]);
            }
        }
        assert forall|x: Seq<char>| listed_id(v@, x) <==> listed_id(before, x) || x == s@ by {
            if listed_id(before, x) {
                let m = choose|m: int| 0 <= m < before.len() && #[trigger] before[m]@ == x;
                if m < k {
                    assert(v@[m] == before[m]);
                } else {
                    assert(v@[m + 1] == before[m]);
                }
            }
            if x == s@ {
                assert(v@[k as int]@ == s@);
            }
            if listed_id(v@, x) {
                let m = choose|m: int| 0 <= m < v@.len() && #[trigger] v@[m]@ == x;
                if m < k {
                    assert(v@[m] == before[m]);
                } else if m > k {
                    assert(v@[m] == before[m - 1]);
                }
            }
        }
    }
}

/// The candidate for one opportunity, when some observer notices it and at
/// least one response is actionable: the observer, its level and up to
/// four options (`no_intervention` among them), sorted by id.
pub open spec fn candidate_shape(c: CombatOpportunityCandidate) -> bool {
    &&& 2 <= c.options@.len() <= 4
    &&& c.detection != CombatDetectionLevel::Undetected
    &&& crate::order::sorted_by(c.options@, option_id_order())
    &&& exists|k: int| 0 <= k < c.options@.len() && #[trigger] c.options@[k].id@ == "no_intervention"@
    &&& forall|k: int| 0 <= k < c.options@.len() ==> (#[trigger] c.options@[k].id@ == "no_intervention"@ <==> c.options@[k].executor_id is None)
    &&& forall|x: int, y: int| 0 <= x < y < c.options@.len() ==> #[trigger] c.options@[x].id@ != #[trigger] c.options@[y].id@
}

/// Observer `o` notices definition `def` at all.
pub open spec fn observes(def: CombatOpportunityDefinition, o: CombatObserver) -> bool {
    o.can_observe && level_for(def.thresholds, o.detection_score) != CombatDetectionLevel::Undetected
}

/// Observer `o` ranks at least as high as `b` for `def`: a higher level,
/// then a higher score, then an id not after `b`'s.
pub open spec fn observer_at_least(def: CombatOpportunityDefinition, o: CombatObserver, b: CombatObserver) -> bool {
    let lo = detection_rank(level_for(def.thresholds, o.detection_score));
    let lb = detection_rank(level_for(def.thresholds, b.detection_score));
    lo > lb || (lo == lb && (o.detection_score > b.detection_score || (o.detection_score == b.detection_score && str_ord(
        b.id@,
        o.id@,
    ) >= 0)))
}

/// The observer chosen for `def` among `obs`: scanning in order, each one
/// who notices it and ranks at least as high as the current choice
/// replaces it.
pub open spec fn best_observer_spec(def: CombatOpportunityDefinition, obs: Seq<CombatObserver>) -> Option<int>
    decreases obs.len(),
{
    if obs.len() == 0 {
        None
    } else {
        let prev = best_observer_spec(def, obs.drop_last());
        let k = obs.len() - 1;
        if observes(def, obs[k]) && (prev matches Some(b) ==> observer_at_least(def, obs[k], obs[b])) {
            Some(k)
        } else {
            prev
        }
    }
}

proof fn lemma_best_observer_range(def: CombatOpportunityDefinition, obs: Seq<CombatObserver>)
    ensures
        best_observer_spec(def, obs) matches Some(k) ==> 0 <= k < obs.len() && observes(def, obs[k]),
        best_observer_spec(def, obs) is None <==> forall|j: int| 0 <= j < obs.len() ==> !observes(def, #[trigger] obs[j]),
    decreases obs.len(),
{
    if obs.len() > 0 {
        lemma_best_observer_range(def, obs.drop_last());
        let p = obs.drop_last();
        assert forall|j: int| 0 <= j < p.len() implies #[trigger] p[j] == obs[j] by {}
        if best_observer_spec(def, obs) is None {
            assert forall|j: int| 0 <= j < obs.len() implies !observes(def, #[trigger] obs[j]) by {
                if j < p.len() {
                    assert(p[j] == obs[j]);
                }
            }
        }
    }
}

/// The best observer of a definition: the highest level reached (then the
/// highest score, then the smallest id) among observers who can observe.
fn best_observer(def: &CombatOpportunityDefinition, observers: &Vec<CombatObserver>) -> (r: Option<(usize, CombatDetectionLevel)>)
    requires
        thresholds_ordered(def.thresholds),
    ensures
        r matches Some((k, l)) ==> k < observers@.len() && observers@[k as int].can_observe && l == level_for(def.thresholds, observers@[k as int].detection_score)
            && l != CombatDetectionLevel::Undetected,
        match best_observer_spec(*def, observers@) {
            Some(k) => r matches Some((k2, _)) && k2 == k,
            None => r is None,
        },
{
    let mut best: Option<(usize, CombatDetectionLevel)> = None;
    let n = observers.len();
    let mut i: usize = 0;
    while i < n
        invariant
            n == observers@.len(),
            i <= n,
            thresholds_ordered(def.thresholds),
            best matches Some((k, l)) ==> k < n && observers@[k as int].can_observe && l == level_for(def.thresholds, observers@[k as int].detection_score)
                && l != CombatDetectionLevel::Undetected,
            match best_observer_spec(*def, observers@.take(i as int)) {
                Some(k) => best matches Some((k2, _)) && k2 == k,
                None => best is None,
            },
        decreases n - i,
    {
        let o = &observers[i];
        assert(observers@.take(i + 1).drop_last() =~= observers@.take(i as int));
        assert(observers@.take(i + 1)[i as int] == *o);
        proof {
            match best_observer_spec(*def, observers@.take(i as int)) {
                Some(b) => {
                    lemma_best_observer_range(*def, observers@.take(i as int));
                    assert(observers@.take(i as int)[b] == observers@[b]);
                    assert(observers@.take(i + 1)[b] == observers@[b]);
                },
                None => {},
            }
            if o.can_observe {
                assert(level_for(def.thresholds, o.detection_score) == CombatDetectionLevel::Undetected <==> detection_rank(
                    level_for(def.thresholds, o.detection_score),
                ) == 0);
            }
        }
        if o.can_observe {
            match def.thresholds.level_for_score(o.detection_score) {
                Ok(level) => {
                    if detection_rank_of(level) > 0 {
                        let take = match best {
                            None => true,
                            Some((bk, bl)) => {
                                let b = &observers[bk];
                                let lr = detection_rank_of(level);
                                let br = detection_rank_of(bl);
                                lr > br || (lr == br && (o.detection_score > b.detection_score || (o.detection_score
                                    == b.detection_score && compare_str(b.id.as_str(), o.id.as_str()) >= 0)))
                            },
                        };
                        if take {
                            best = Some((i, level));
                        }
                    }
                },
                Err(_) => {},
            }
        }
        i += 1;
    }
    assert(observers@.take(n as int) =~= observers@);
    best
}

fn detection_at_least(have: CombatDetectionLevel, need: CombatDetectionLevel) -> (b: bool)
    ensures
        b == (detection_rank(have) >= detection_rank(need)),
{
    detection_rank_of(have) >= detection_rank_of(need)
}

fn no_intervention_option() -> (o: CombatResponseOption)
    ensures
        o.id@ == "no_intervention"@,
        o.executor_id is None,
{
    CombatResponseOption { id: "no_intervention".to_string(), executor_id: None, success_effect_ids: Vec::new(), failure_effect_ids: Vec::new() }
}

/// Observer `cand` can carry out response `r` for the noticing observer
/// `obs`: it can act, the response's selector picks it, and it has every
/// capability the response needs.
pub open spec fn can_execute(r: CombatResponseDefinition, obs: CombatObserver, cand: CombatObserver) -> bool {
    &&& cand.can_act
    &&& executor_matches(r.executor_selector@, obs.id@, cand.id@)
    &&& all_listed(r.required_capability_ids@, cand.capability_ids@)
}

/// Response `r` can be offered for `def` noticed by `obs` at `level`: it
/// answers that opportunity, the level is high enough, its conditions
/// hold, and some observer can carry it out.
pub open spec fn response_actionable(
    r: CombatResponseDefinition,
    def: CombatOpportunityDefinition,
    obs: CombatObserver,
    level: CombatDetectionLevel,
    ctx: CombatOpportunityContext,
) -> bool {
    &&& r.opportunity_id@ == def.id@
    &&& detection_rank(level) >= detection_rank(r.minimum_detection)
    &&& all_listed(r.required_condition_ids@, ctx.active_condition_ids@)
    &&& exists|j: int| 0 <= j < ctx.observers@.len() && #[trigger] can_execute(r, obs, ctx.observers@[j])
}

impl CombatOpportunityCatalog {
    /// The options for definition `def` noticed by observer `obs` at
    /// `level`: `no_intervention` plus the first three actionable responses
    /// (priority, then unique, then id), sorted by id.
    #[verifier::rlimit(60)]
    #[verifier::spinoff_prover]
    fn options_for(
        &self,
        def: &CombatOpportunityDefinition,
        obs: &CombatObserver,
        level: CombatDetectionLevel,
        context: &CombatOpportunityContext,
    ) -> (r: Vec<CombatResponseOption>)
        requires
            forall|i: int| 0 <= i < self.responses@.len() ==> #[trigger] self.responses@[i].id@ != "no_intervention"@,
            forall|i: int, j: int| 0 <= i < j < self.responses@.len() ==> #[trigger] self.responses@[i].id@ != #[trigger] self.responses@[j].id@,
        ensures
            forall|x: int, y: int| 0 <= x < y < r@.len() ==> #[trigger] r@[x].id@ != #[trigger] r@[y].id@,
            1 <= r@.len() <= 4,
            crate::order::sorted_by(r@, option_id_order()),
            exists|k: int| 0 <= k < r@.len() && #[trigger] r@[k].id@ == "no_intervention"@,
            forall|k: int| 0 <= k < r@.len() ==> (#[trigger] r@[k].id@ == "no_intervention"@ <==> r@[k].executor_id is None),
            r@.len() > 1 <==> exists|q: int| 0 <= q < self.responses@.len() && #[trigger] response_actionable(
                self.responses@[q],
                *def,
                *obs,
                level,
                *context,
            ),
    {
        let mut actionable: Vec<(usize, usize)> = Vec::new();
        let nr = self.responses.len();
        let mut i: usize = 0;
        while i < nr
            invariant
                nr == self.responses@.len(),
                i <= nr,
                forall|k: int| 0 <= k < actionable@.len() ==> #[trigger] actionable@[k].0 < nr && actionable@[k].1
                    < context.observers@.len(),
                forall|k: int| 0 <= k < actionable@.len() ==> #[trigger] actionable@[k].0 < i,
                forall|x: int, y: int| 0 <= x < y < actionable@.len() ==> #[trigger] actionable@[x].0 < #[trigger] actionable@[y].0,
                actionable@.len() > 0 <==> exists|q: int| 0 <= q < i && #[trigger] response_actionable(
                    self.responses@[q],
                    *def,
                    *obs,
                    level,
                    *context,
                ),
            decreases nr - i,
        {
            let resp = &self.responses[i];
            assert(*resp == self.responses@[i as int]);
            if str_eq(resp.opportunity_id.as_str(), def.id.as_str()) && detection_at_least(level, resp.minimum_detection)
                && contains_all(&resp.required_condition_ids, &context.active_condition_ids) {
                let no = context.observers.len();
                let mut j: usize = 0;
                let mut executor: Option<usize> = None;
                while j < no && executor.is_none()
                    invariant
                        no == context.observers@.len(),
                        j <= no,
                        executor matches Some(e) ==> e < no && can_execute(*resp, *obs, context.observers@[e as int]),
                        executor is None ==> forall|x: int| 0 <= x < j ==> !#[trigger] can_execute(*resp, *obs, context.observers@[x]),
                    decreases no - j,
                {
                    let cand = &context.observers[j];
                    if cand.can_act && response_executor_matches(resp.executor_selector.as_str(), obs.id.as_str(), cand.id.as_str())
                        && contains_all(&resp.required_capability_ids, &cand.capability_ids) {
                        executor = Some(j);
                    }
                    j += 1;
                }
                proof {
                    if executor is None {
                        assert forall|x: int| 0 <= x < context.observers@.len() implies !#[trigger] can_execute(*resp, *obs, context.observers@[x]) by {}
                        assert(!response_actionable(self.responses@[i as int], *def, *obs, level, *context));
                    } else {
                        assert(response_actionable(self.responses@[i as int], *def, *obs, level, *context));
                    }
                }
                let ghost act_before = actionable@;
                match executor {
                    Some(e) => {
                        actionable.push((i, e));
                        assert forall|k: int| 0 <= k < actionable@.len() implies #[trigger] actionable@[k].0 < nr && actionable@[k].1
                            < context.observers@.len() by {
                            if k < act_before.len() {
                                assert(actionable@[k] == act_before[k]);
                            }
                        }
                    },
                    None => {},
                }
            } else {
                assert(!response_actionable(self.responses@[i as int], *def, *obs, level, *context));
            }
            i += 1;
        }
        let responses = &self.responses;
        let by_offer = |a: &(usize, usize), b: &(usize, usize)| -> (r: i8)
            requires
                a.0 < responses@.len() && b.0 < responses@.len(),
            ensures
                r as int == offer_ord(responses@[a.0 as int], responses@[b.0 as int]),
            {
                let x = &responses[a.0];
                let y = &responses[b.0];
                if x.tactical_priority > y.tactical_priority {
                    -1
                } else if x.tactical_priority < y.tactical_priority {
                    1
                } else {
                    let u = bool_compare(y.unique, x.unique);
                    if u != 0 {
                        u
                    } else {
                        compare_str(x.id.as_str(), y.id.as_str())
                    }
                }
            };
        let ghost resp_view = responses@;
        let ghost acts = actionable@;
        assert forall|p: (usize, usize)| actionable@.contains(p) implies p.0 < responses@.len() by {
            let m = choose|m: int| 0 <= m < actionable@.len() && actionable@[m] == p;
            assert(actionable@[m].0 < nr);
        }
        let ordered = sort_by_order(actionable, by_offer, Ghost(|a: (usize, usize), b: (usize, usize)| offer_ord(resp_view[a.0 as int], resp_view[b.0 as int])));
        proof {
            crate::order::lemma_sort_keeps_keys_distinct(
                acts,
                |a: (usize, usize), b: (usize, usize)| offer_ord(resp_view[a.0 as int], resp_view[b.0 as int]),
                |p: (usize, usize)| p.0,
            );
            crate::order::lemma_sort_seq_elems(acts, |a: (usize, usize), b: (usize, usize)| offer_ord(resp_view[a.0 as int], resp_view[b.0 as int]));
            assert forall|k: int| 0 <= k < ordered@.len() implies #[trigger] ordered@[k].0 < nr && ordered@[k].1 < context.observers@.len() by {
                assert(acts.contains(ordered@[k]));
                let m = choose|m: int| 0 <= m < acts.len() && acts[m] == ordered@[k];
                assert(acts[m].0 < nr);
            }
        }
        let mut options: Vec<CombatResponseOption> = Vec::new();
        options.push(no_intervention_option());
        let take = if ordered.len() < 3 { ordered.len() } else { 3 };
        let mut k: usize = 0;
        while k < take
            invariant
                take <= ordered@.len(),
                nr == self.responses@.len(),
                forall|x: int| 0 <= x < ordered@.len() ==> #[trigger] ordered@[x].0 < nr && ordered@[x].1 < context.observers@.len(),
                take <= 3,
                k <= take,
                options@.len() == k + 1,
                options@[0].id@ == "no_intervention"@,
                forall|i: int| 0 <= i < self.responses@.len() ==> #[trigger] self.responses@[i].id@ != "no_intervention"@,
                forall|x: int| 0 <= x < options@.len() ==> (#[trigger] options@[x].id@ == "no_intervention"@ <==> options@[x].executor_id is None),
                forall|x: int, y: int| 0 <= x < y < ordered@.len() ==> #[trigger] ordered@[x].0 != #[trigger] ordered@[y].0,
                forall|i: int, j: int| 0 <= i < j < self.responses@.len() ==> #[trigger] self.responses@[i].id@ != #[trigger] self.responses@[j].id@,
                forall|x: int| 1 <= x < options@.len() ==> #[trigger] options@[x].id@ == self.responses@[ordered@[x - 1].0 as int].id@,
                forall|x: int, y: int| 0 <= x < y < options@.len() ==> #[trigger] options@[x].id@ != #[trigger] options@[y].id@,
            decreases take - k,
        {
            let (ri, ei) = ordered[k];
            let resp = &self.responses[ri];
            assert(self.responses@[ri as int].id@ != "no_intervention"@);
            let ghost before_opts = options@;
            proof {
                assert forall|x: int| 0 <= x < before_opts.len() implies #[trigger] before_opts[x].id@ != self.responses@[ri as int].id@ by {
                    if x >= 1 {
                        let q = ordered@[x - 1].0 as int;
                        assert(ordered@[x - 1].0 != ordered@[k as int].0);
                        if q < ri {
                            assert(self.responses@[q].id@ != self.responses@[ri as int].id@);
                        } else {
                            assert(self.responses@[ri as int].id@ != self.responses@[q].id@);
                        }
                    }
                }
            }
            options.push(CombatResponseOption {
                id: resp.id.clone(),
                executor_id: Some(context.observers[ei].id.clone()),
                success_effect_ids: resp.success_effect_ids.clone(),
                failure_effect_ids: resp.failure_effect_ids.clone(),
            });
            k += 1;
        }
        let ghost unsorted = options@;
        let by_id = |a: &CombatResponseOption, b: &CombatResponseOption| -> (r: i8)
            ensures
                r as int == str_ord(a.id@, b.id@),
            { compare_str(a.id.as_str(), b.id.as_str()) };
        let sorted = sort_by_order(options, by_id, Ghost(option_id_order()));
        proof {
            crate::order::lemma_keyed_order_total(option_id_order(), |o: CombatResponseOption| o.id@);
            crate::order::lemma_sort_seq(unsorted, option_id_order());
            crate::order::lemma_sort_seq_permutation_elems(unsorted, option_id_order());
            assert(sorted@.contains(unsorted[0]));
            let m = choose|m: int| 0 <= m < sorted@.len() && sorted@[m] == unsorted[0];
            assert(sorted@[m].id@ == "no_intervention"@);
            crate::order::lemma_sort_seq_elems(unsorted, option_id_order());
            crate::order::lemma_sort_keeps_keys_distinct(unsorted, option_id_order(), |o: CombatResponseOption| o.id@);
            assert forall|k: int| 0 <= k < sorted@.len() implies (#[trigger] sorted@[k].id@ == "no_intervention"@
                <==> sorted@[k].executor_id is None) by {
                assert(unsorted.contains(sorted@[k]));
                let y = choose|y: int| 0 <= y < unsorted.len() && unsorted[y] == sorted@[k];
                assert(unsorted[y].id@ == "no_intervention"@ <==> unsorted[y].executor_id is None);
            }
        }
        sorted
    }
}


/// The first opportunity definition with this id.
fn find_opportunity(os: &Vec<CombatOpportunityDefinition>, id: &str) -> (r: Option<usize>)
    ensures
        r matches Some(k) ==> k < os@.len() && os@[k as int].id@ == id@,
        r is None <==> !has_opportunity(os@, id@),
{
    let n = os.len();
    let mut i: usize = 0;
    while i < n
        invariant
            n == os@.len(),
            i <= n,
            forall|k: int| 0 <= k < i ==> #[trigger] os@[k].id@ != id@,
        decreases n - i,
    {
        if str_eq(os[i].id.as_str(), id) {
            return Some(i);
        }
        i += 1;
    }
    None
}

/// What is wrong with observer `i`: a blank id; else an id an earlier
/// observer has; else a blank capability id.
pub open spec fn observer_fault(obs: Seq<CombatObserver>, i: int) -> Option<CombatOpportunityError> {
    if blank(obs[i].id@) {
        Some(CombatOpportunityError::EmptyId)
    } else if exists|j: int| 0 <= j < i && #[trigger] obs[j].id@ == obs[i].id@ {
        Some(CombatOpportunityError::DuplicateId(obs[i].id))
    } else if !all_present(obs[i].capability_ids@) {
        Some(CombatOpportunityError::EmptyId)
    } else {
        None
    }
}

/// The observers are checked in order and the first fault is reported.
fn check_observers(observers: &Vec<CombatObserver>) -> (r: Result<(), CombatOpportunityError>)
    ensures
        match r {
            Ok(()) => forall|k: int| 0 <= k < observers@.len() ==> #[trigger] observer_fault(observers@, k) is None,
            Err(e) => exists|i: int|
                0 <= i < observers@.len() && observer_fault(observers@, i) == Some(e) && forall|k: int|
                    0 <= k < i ==> #[trigger] observer_fault(observers@, k) is None,
        },
{
    let n = observers.len();
    let mut i: usize = 0;
    while i < n
        invariant
            n == observers@.len(),
            i <= n,
            forall|k: int| 0 <= k < i ==> #[trigger] observer_fault(observers@, k) is None,
        decreases n - i,
    {
        let first = ensure_id(observers[i].id.as_str());
        if first.is_err() {
            assert(observer_fault(observers@, i as int) == Some(CombatOpportunityError::EmptyId));
            return first;
        }
        let mut j: usize = 0;
        while j < i
            invariant
                n == observers@.len(),
                i < n,
                j <= i,
                !blank(observers@[i as int].id@),
                forall|k: int| 0 <= k < i ==> #[trigger] observer_fault(observers@, k) is None,
                forall|q: int| 0 <= q < j ==> #[trigger] observers@[q].id@ != observers@[i as int].id@,
            decreases i - j,
        {
            if str_eq(observers[j].id.as_str(), observers[i].id.as_str()) {
                let e = CombatOpportunityError::DuplicateId(observers[i].id.clone());
                assert(observers@[j as int].id@ == observers@[i as int].id@);
                assert(observer_fault(observers@, i as int) == Some(e));
                return Err(e);
            }
            j += 1;
        }
        let caps = ensure_all(&observers[i].capability_ids);
        if caps.is_err() {
            assert(observer_fault(observers@, i as int) == Some(CombatOpportunityError::EmptyId));
            return caps;
        }
        assert(observer_fault(observers@, i as int) is None);
        i += 1;
    }
    Ok(())
}

/// One offerable opportunity: definition, instance, observer, level and options.
/// The candidate comes first among all instances offered this tick: no
/// offered instance ranks higher, and one that ranks the same has an id no
/// smaller.
pub open spec fn candidate_first(
    c: CombatOpportunityCatalog,
    insts: Seq<CombatOpportunityInstance>,
    ctx: CombatOpportunityContext,
    cand: CombatOpportunityCandidate,
) -> bool {
    forall|q: int, dq: int, dc: int|
        #![trigger instance_offered(c, insts, ctx, q), c.opportunities@[dq], c.opportunities@[dc]]
        0 <= q < insts.len() && 0 <= dq < c.opportunities@.len() && 0 <= dc < c.opportunities@.len() && instance_offered(
            c,
            insts,
            ctx,
            q,
        ) && c.opportunities@[dq].id@ == insts[q].definition_id@ && c.opportunities@[dc].id@ == cand.opportunity_id@
            ==> ranked_first(c.opportunities@[dc], cand.instance_id@, c.opportunities@[dq], insts[q].id@)
}

struct Offer {
    def: usize,
    instance: usize,
    observer: usize,
    level: CombatDetectionLevel,
    options: Vec<CombatResponseOption>,
}

impl CombatOpportunityCatalog {
    /// Picks at most one opportunity to offer this tick. Instances already
    /// presented, expired, or whose tags or conditions are not all active
    /// are passed over; one no observer notices, or with no actionable
    /// response, only raises its free alert. With budget left, the best
    /// ranked remaining one is offered and spends one intervention;
    /// without, every remaining one raises its free alert instead.
    #[verifier::rlimit(40)]
    pub fn evaluate(&self, instances: &Vec<CombatOpportunityInstance>, context: &CombatOpportunityContext) -> (r: Result<
        CombatOpportunityEvaluation,
        CombatOpportunityError,
    >)
        ensures
            !opportunity_catalog_ok(*self) ==> r is Err,
            opportunity_catalog_ok(*self) && !budget_ok(context.budget) ==> r == Err::<CombatOpportunityEvaluation, CombatOpportunityError>(
                CombatOpportunityError::InvalidBudget,
            ),
            opportunity_catalog_ok(*self) && budget_ok(context.budget) && blank(context.manifest_fingerprint@) ==> r
                == Err::<CombatOpportunityEvaluation, CombatOpportunityError>(CombatOpportunityError::EmptyId),
            r matches Ok(ev) ==> ev.budget.maximum == context.budget.maximum && ev.budget.consumed == context.budget.consumed
                + if ev.candidate is Some { 1int } else { 0int },
            r matches Ok(ev) ==> context.budget.consumed == context.budget.maximum ==> ev.candidate is None,
            r matches Ok(ev) ==> ids_sorted(ev.free_alert_ids@),
            evaluation_ready(*self, instances@, *context) ==> r is Ok,
            r matches Ok(ev) ==> (offer_due(*self, instances@, *context) ==> ev.candidate is Some),
            r matches Ok(ev) ==> (ev.candidate matches Some(c) ==> candidate_shape(c) && !listed_id(context.presented_instance_ids@, c.instance_id@)
                && exists|i: int| 0 <= i < instances@.len() && #[trigger] instances@[i].id@ == c.instance_id@),
            r matches Ok(ev) ==> (ev.candidate matches Some(c) ==> candidate_first(*self, instances@, *context, c)),
    {
        self.validate()?;
        context.budget.validate()?;
        ensure_id(context.manifest_fingerprint.as_str())?;
        check_observers(&context.observers)?;
        let ghost ready = evaluation_ready(*self, instances@, *context);
        let mut offers: Vec<Offer> = Vec::new();
        let mut alerts: Vec<String> = Vec::new();
        let n = instances.len();
        let mut i: usize = 0;
        while i < n
            invariant
                n == instances@.len(),
                i <= n,
                ready == evaluation_ready(*self, instances@, *context),
                opportunity_catalog_ok(*self),
                budget_ok(context.budget),
                !blank(context.manifest_fingerprint@),
                ids_sorted(alerts@),
                (exists|q: int| 0 <= q < i && #[trigger] instance_offered(*self, instances@, *context, q)) ==> offers@.len() > 0,
                forall|k: int| 0 <= k < offers@.len() ==> {
                    let o = #[trigger] offers@[k];
                    &&& o.def < self.opportunities@.len()
                    &&& o.instance < n
                    &&& o.observer < context.observers@.len()
                    &&& !listed_id(context.presented_instance_ids@, instances@[o.instance as int].id@)
                    &&& 2 <= o.options@.len() <= 4
                    &&& o.level != CombatDetectionLevel::Undetected
                    &&& crate::order::sorted_by(o.options@, option_id_order())
                    &&& exists|x: int| 0 <= x < o.options@.len() && #[trigger] o.options@[x].id@ == "no_intervention"@
                    &&& forall|x: int| 0 <= x < o.options@.len() ==> (#[trigger] o.options@[x].id@ == "no_intervention"@ <==> o.options@[x].executor_id is None)
                    &&& forall|x: int, y: int| 0 <= x < y < o.options@.len() ==> #[trigger] o.options@[x].id@ != #[trigger] o.options@[y].id@
                },
                forall|k: int| 0 <= k < offers@.len() ==> (#[trigger] offers@[k]).instance < i
                    && self.opportunities@[offers@[k].def as int].id@ == instances@[offers@[k].instance as int].definition_id@,
                forall|q: int| 0 <= q < i && #[trigger] instance_offered(*self, instances@, *context, q) ==> exists|k: int|
                    0 <= k < offers@.len() && (#[trigger] offers@[k]).instance == q,
            decreases n - i,
        {
            let inst = &instances[i];
            if is_blank(inst.id.as_str()) {
                assert(!ready) by {
                    assert(instance_bad(instances@, self.opportunities@, i as int));
                }
                return Err(CombatOpportunityError::EmptyId);
            }
            let mut j: usize = 0;
            while j < i
                invariant
                    n == instances@.len(),
                    opportunity_catalog_ok(*self),
                    budget_ok(context.budget),
                    !blank(context.manifest_fingerprint@),
                    ready == evaluation_ready(*self, instances@, *context),
                    *inst == instances@[i as int],
                    i < n,
                    j <= i,
                decreases i - j,
            {
                if str_eq(instances[j].id.as_str(), inst.id.as_str()) {
                    assert(!ready) by {
                        assert(instances@[j as int].id@ == instances@[i as int].id@);
                        assert(instance_bad(instances@, self.opportunities@, i as int));
                    }
                    return Err(CombatOpportunityError::DuplicateId(inst.id.clone()));
                }
                j += 1;
            }
            let di = match find_opportunity(&self.opportunities, inst.definition_id.as_str()) {
                Some(d) => d,
                None => {
                    assert(!ready) by {
                        assert(instance_bad(instances@, self.opportunities@, i as int));
                    }
                    return Err(CombatOpportunityError::UnknownOpportunity(inst.definition_id.clone()));
                },
            };
            let def = &self.opportunities[di];
            assert(opportunity_ok(self.opportunities@[di as int]));
            let ghost offers_before = offers@;
            proof {
                if instance_offered(*self, instances@, *context, i as int) {
                    let d = choose|d: int| 0 <= d < self.opportunities@.len() && #[trigger] self.opportunities@[d].id@ == instances@[i as int].definition_id@
                        && def_offers(*self, self.opportunities@[d], instances@[i as int], *context);
                    if d != di {
                        if d < di {
                            assert(self.opportunities@[d].id@ != self.opportunities@[di as int].id@);
                        } else {
                            assert(self.opportunities@[di as int].id@ != self.opportunities@[d].id@);
                        }
                    }
                    assert(inst.id@ == instances@[i as int].id@);
                }
            }
            let expired = match def.expiry_tick {
                Some(t) => context.current_tick > t,
                None => false,
            };
            if !contains_id(&context.presented_instance_ids, inst.id.as_str()) && !expired && contains_all(
                &def.trigger_tags,
                &context.active_tag_ids,
            ) && contains_all(&def.required_condition_ids, &context.active_condition_ids) {
                match best_observer(def, &context.observers) {
                    None => {
                        match &def.free_alert_id {
                            Some(a) => insert_id_sorted(&mut alerts, a),
                            None => {},
                        }
                    },
                    Some((oi, level)) => {
                        assert forall|q: int| 0 <= q < self.responses@.len() implies #[trigger] self.responses@[q].id@ != "no_intervention"@ by {
                            assert(response_ok(self.responses@[q], *self));
                        }
                        let options = self.options_for(def, &context.observers[oi], level, context);
                        if options.len() == 1 {
                            match &def.free_alert_id {
                                Some(a) => insert_id_sorted(&mut alerts, a),
                                None => {},
                            }
                        } else {
                            let ghost before = offers@;
                            let ghost opts = options@;
                            assert(!listed_id(context.presented_instance_ids@, instances@[i as int].id@));
                            let ghost x0 = choose|x: int| 0 <= x < opts.len() && #[trigger] opts[x].id@ == "no_intervention"@;
                            offers.push(Offer { def: di, instance: i, observer: oi, level, options });
                            proof {
                                assert forall|k: int| 0 <= k < offers@.len() implies {
                                    let o = #[trigger] offers@[k];
                                    &&& o.def < self.opportunities@.len()
                                    &&& o.instance < n
                                    &&& o.observer < context.observers@.len()
                                    &&& !listed_id(context.presented_instance_ids@, instances@[o.instance as int].id@)
                                    &&& 2 <= o.options@.len() <= 4
                                    &&& o.level != CombatDetectionLevel::Undetected
                                    &&& crate::order::sorted_by(o.options@, option_id_order())
                                    &&& exists|x: int| 0 <= x < o.options@.len() && #[trigger] o.options@[x].id@ == "no_intervention"@
                                    &&& forall|x: int| 0 <= x < o.options@.len() ==> (#[trigger] o.options@[x].id@ == "no_intervention"@ <==> o.options@[x].executor_id is None)
                                    &&& forall|x: int, y: int| 0 <= x < y < o.options@.len() ==> #[trigger] o.options@[x].id@ != #[trigger] o.options@[y].id@
                                } by {
                                    if k < before.len() {
                                        assert(offers@[k] == before[k]);
                                    } else {
                                        assert(offers@[k].options@ == opts);
                                        assert(offers@[k].options@[x0].id@ == "no_intervention"@);
                                    }
                                }
                            }
                        }
                    },
                }
            }
            proof {
                assert forall|k: int| 0 <= k < offers@.len() implies (#[trigger] offers@[k]).instance < i + 1
                    && self.opportunities@[offers@[k].def as int].id@ == instances@[offers@[k].instance as int].definition_id@ by {
                    if k < offers_before.len() {
                        assert(offers@[k] == offers_before[k]);
                    }
                }
                assert forall|q: int| 0 <= q < i + 1 && #[trigger] instance_offered(*self, instances@, *context, q) implies exists|k: int|
                    0 <= k < offers@.len() && (#[trigger] offers@[k]).instance == q by {
                    if q < i {
                        let k = choose|k: int| 0 <= k < offers_before.len() && (#[trigger] offers_before[k]).instance == q;
                        assert(offers@[k] == offers_before[k]);
                    } else {
                        assert(offers@.len() == offers_before.len() + 1);
                        assert(offers@[offers_before.len() as int].instance == i);
                    }
                }
                if instance_offered(*self, instances@, *context, i as int) {
                    assert(offers@.len() > 0);
                }
                if exists|q: int| 0 <= q < i + 1 && #[trigger] instance_offered(*self, instances@, *context, q) {
                    let q = choose|q: int| 0 <= q < i + 1 && #[trigger] instance_offered(*self, instances@, *context, q);
                    if q < i {
                        assert(offers_before.len() > 0);
                    }
                }
            }
            i += 1;
        }
        let mut budget = context.budget;
        if budget.maximum - budget.consumed == 0 {
            let m = offers.len();
            let mut k: usize = 0;
            while k < m
                invariant
                    m == offers@.len(),
                    k <= m,
                    ids_sorted(alerts@),
                    forall|x: int| 0 <= x < offers@.len() ==> #[trigger] offers@[x].def < self.opportunities@.len(),
                decreases m - k,
            {
                let d = &self.opportunities[offers[k].def];
                match &d.free_alert_id {
                    Some(a) => insert_id_sorted(&mut alerts, a),
                    None => {},
                }
                k += 1;
            }
            return Ok(CombatOpportunityEvaluation { candidate: None, free_alert_ids: alerts, budget });
        }
        let m = offers.len();
        let mut best: Option<usize> = None;
        let mut k: usize = 0;
        while k < m
            invariant
                m == offers@.len(),
                k <= m,
                best matches Some(b) ==> b < m,
                k > 0 ==> best is Some,
                forall|x: int| 0 <= x < offers@.len() ==> #[trigger] offers@[x].def < self.opportunities@.len() && offers@[x].instance < instances@.len(),
                best matches Some(b) ==> forall|x: int| 0 <= x < k ==> #[trigger] ranked_first(
                    self.opportunities@[offers@[b as int].def as int],
                    instances@[offers@[b as int].instance as int].id@,
                    self.opportunities@[offers@[x].def as int],
                    instances@[offers@[x].instance as int].id@,
                ),
            decreases m - k,
        {
            let ghost prev_best = best;
            let take = match best {
                None => true,
                Some(b) => {
                    let c = rank_compare(&self.opportunities[offers[k].def], &self.opportunities[offers[b].def]);
                    c > 0 || (c == 0 && compare_str(instances[offers[b].instance].id.as_str(), instances[offers[k].instance].id.as_str()) >= 0)
                },
            };
            proof {
                let dk = self.opportunities@[offers@[k as int].def as int];
                let ik = instances@[offers@[k as int].instance as int].id@;
                match prev_best {
                    None => {
                        assert(take);
                        lemma_ranked_first_trans(dk, ik, dk, ik, dk, ik);
                    },
                    Some(b) => {
                        let db = self.opportunities@[offers@[b as int].def as int];
                        let ib = instances@[offers@[b as int].instance as int].id@;
                        lemma_rank_ord_total(dk, db, dk);
                        crate::order::lemma_bytes_ord_basic(encode_utf8(ib), encode_utf8(ik));
                        if take {
                            assert(ranked_first(dk, ik, db, ib));
                            lemma_ranked_first_trans(dk, ik, db, ib, dk, ik);
                            assert forall|x: int| 0 <= x < k + 1 implies #[trigger] ranked_first(
                                dk,
                                ik,
                                self.opportunities@[offers@[x].def as int],
                                instances@[offers@[x].instance as int].id@,
                            ) by {
                                let dx = self.opportunities@[offers@[x].def as int];
                                let ix = instances@[offers@[x].instance as int].id@;
                                lemma_ranked_first_trans(dk, ik, db, ib, dx, ix);
                            }
                        } else {
                            assert(ranked_first(db, ib, dk, ik));
                        }
                    },
                }
            }
            if take {
                best = Some(k);
            }
            k += 1;
        }
        let candidate = match best {
            None => None,
            Some(b) => {
                assert(budget.consumed < budget.maximum);
                budget.present()?;
                let ghost all = offers@;
                let mut chosen = offers.remove(b);
                proof {
                    assert(chosen == all[b as int]);
                    lemma_candidate_first(*self, instances@, *context, all, b as int);
                }
                let ghost ov = chosen.options@;
                Some(CombatOpportunityCandidate {
                    instance_id: instances[chosen.instance].id.clone(),
                    opportunity_id: self.opportunities[chosen.def].id.clone(),
                    observer_id: context.observers[chosen.observer].id.clone(),
                    detection: chosen.level,
                    options: chosen.options,
                })
            },
        };
        Ok(CombatOpportunityEvaluation { candidate, free_alert_ids: alerts, budget })
    }
}


pub open spec fn detection_json(l: CombatDetectionLevel) -> Json {
    jstr(detection_name(l))
}

pub fn detection_json_to(l: CombatDetectionLevel) -> (j: JsonValue)
    ensures
        json_view(j) == detection_json(l),
{
    str_json(detection_str(l))
}

pub open spec fn option_canonical_json(x: CombatResponseOption) -> Json {
    let f = Seq::<(Seq<u8>, Json)>::empty();
    let f = f.push((encode_utf8("id"@), jstr(x.id@)));
    let f = f.push((encode_utf8("executor_id"@), match x.executor_id { Some(v) => jstr(v@), None => Json::Null }));
    let f = f.push((encode_utf8("success_effect_ids"@), Json::Arr(sort_seq(x.success_effect_ids@, str_order()).map_values(str_elem_json_fn()))));
    let f = f.push((encode_utf8("failure_effect_ids"@), Json::Arr(sort_seq(x.failure_effect_ids@, str_order()).map_values(str_elem_json_fn()))));
    Json::Obj(f)
}

pub open spec fn option_canonical_json_fn() -> spec_fn(CombatResponseOption) -> Json {
    |x: CombatResponseOption| option_canonical_json(x)
}

pub fn option_canonical_json_to(x: &CombatResponseOption) -> (j: JsonValue)
    ensures
        json_view(j) == option_canonical_json(*x),
{
    let mut f: Vec<(String, JsonValue)> = Vec::new();
    push_field(&mut f, "id", str_json(x.id.as_str()));
    push_field(&mut f, "executor_id", opt_str_json(&x.executor_id));
    push_field(&mut f, "success_effect_ids", sorted_strs_to_json(&x.success_effect_ids));
    push_field(&mut f, "failure_effect_ids", sorted_strs_to_json(&x.failure_effect_ids));
    JsonValue::Obj(f)
}
pub open spec fn candidate_canonical_json(x: CombatOpportunityCandidate) -> Json {
    let f = Seq::<(Seq<u8>, Json)>::empty();
    let f = f.push((encode_utf8("instance_id"@), jstr(x.instance_id@)));
    let f = f.push((encode_utf8("opportunity_id"@), jstr(x.opportunity_id@)));
    let f = f.push((encode_utf8("observer_id"@), jstr(x.observer_id@)));
    let f = f.push((encode_utf8("detection"@), detection_json(x.detection)));
    let f = f.push((encode_utf8("options"@), Json::Arr(sort_seq(x.options@, option_id_order()).map_values(option_canonical_json_fn()))));
    Json::Obj(f)
}

pub open spec fn candidate_canonical_json_fn() -> spec_fn(CombatOpportunityCandidate) -> Json {
    |x: CombatOpportunityCandidate| candidate_canonical_json(x)
}

pub fn candidate_canonical_json_to(x: &CombatOpportunityCandidate) -> (j: JsonValue)
    ensures
        json_view(j) == candidate_canonical_json(*x),
{
    let mut f: Vec<(String, JsonValue)> = Vec::new();
    push_field(&mut f, "instance_id", str_json(x.instance_id.as_str()));
    push_field(&mut f, "opportunity_id", str_json(x.opportunity_id.as_str()));
    push_field(&mut f, "observer_id", str_json(x.observer_id.as_str()));
    push_field(&mut f, "detection", detection_json_to(x.detection));
    let by_order = |a: &CombatResponseOption, b: &CombatResponseOption| -> (r: i8)
        ensures
            r as int == option_id_order_of(*a, *b),
        { compare_option_ids(a, b) };
    let conv = |e: &CombatResponseOption| -> (r: JsonValue)
        ensures
            json_view(r) == option_canonical_json(*e),
        { option_canonical_json_to(e) };
    let j_options = json_array_sorted(&x.options, by_order, Ghost(option_id_order()), conv, Ghost(option_canonical_json_fn()));
    push_field(&mut f, "options", j_options);
    JsonValue::Obj(f)
}
pub open spec fn budget_json(x: CombatInterventionBudget) -> Json {
    let f = Seq::<(Seq<u8>, Json)>::empty();
    let f = f.push((encode_utf8("maximum"@), Json::Num(x.maximum as int)));
    let f = f.push((encode_utf8("consumed"@), Json::Num(x.consumed as int)));
    Json::Obj(f)
}

pub open spec fn budget_json_fn() -> spec_fn(CombatInterventionBudget) -> Json {
    |x: CombatInterventionBudget| budget_json(x)
}

pub fn budget_json_to(x: &CombatInterventionBudget) -> (j: JsonValue)
    ensures
        json_view(j) == budget_json(*x),
{
    let mut f: Vec<(String, JsonValue)> = Vec::new();
    push_field(&mut f, "maximum", JsonValue::UInt(x.maximum as u64));
    push_field(&mut f, "consumed", JsonValue::UInt(x.consumed as u64));
    JsonValue::Obj(f)
}
pub open spec fn evaluation_canonical_json(x: CombatOpportunityEvaluation) -> Json {
    let f = Seq::<(Seq<u8>, Json)>::empty();
    let f = f.push((encode_utf8("candidate"@), match x.candidate { Some(v) => candidate_canonical_json(v), None => Json::Null }));
    let f = f.push((encode_utf8("free_alert_ids"@), Json::Arr(sort_seq(x.free_alert_ids@, str_order()).map_values(str_elem_json_fn()))));
    let f = f.push((encode_utf8("budget"@), budget_json(x.budget)));
    Json::Obj(f)
}

pub open spec fn evaluation_canonical_json_fn() -> spec_fn(CombatOpportunityEvaluation) -> Json {
    |x: CombatOpportunityEvaluation| evaluation_canonical_json(x)
}

pub fn evaluation_canonical_json_to(x: &CombatOpportunityEvaluation) -> (j: JsonValue)
    ensures
        json_view(j) == evaluation_canonical_json(*x),
{
    let mut f: Vec<(String, JsonValue)> = Vec::new();
    push_field(&mut f, "candidate", match &x.candidate { Some(v) => candidate_canonical_json_to(v), None => JsonValue::Null });
    push_field(&mut f, "free_alert_ids", sorted_strs_to_json(&x.free_alert_ids));
    push_field(&mut f, "budget", budget_json_to(&x.budget));
    JsonValue::Obj(f)
}

pub open spec fn option_id_order_of(a: CombatResponseOption, b: CombatResponseOption) -> int {
    str_ord(a.id@, b.id@)
}

fn compare_option_ids(a: &CombatResponseOption, b: &CombatResponseOption) -> (r: i8)
    ensures
        r as int == option_id_order_of(*a, *b),
{
    compare_str(a.id.as_str(), b.id.as_str())
}

impl CombatOpportunityEvaluation {
    /// The evaluation's canonical JSON as text.
    pub fn canonical_json(&self) -> (r: Result<String, CombatOpportunityError>)
        ensures
            r matches Ok(t) ==> encode_utf8(t@) == enc(evaluation_canonical_json(*self)),
            vstd::utf8::valid_utf8(enc(evaluation_canonical_json(*self))) ==> r is Ok,
    {
        match crate::json::text_from_utf8(self.canonical_json_bytes()) {
            Some(t) => Ok(t),
            None => Err(CombatOpportunityError::Serialization("invalid UTF-8".to_string())),
        }
    }
}

impl CombatOpportunityEvaluation {
    /// The evaluation's canonical JSON: alert ids, options and each option's
    /// effect ids sorted.
    pub fn canonical_json_bytes(&self) -> (r: Vec<u8>)
        ensures
            r@ == enc(evaluation_canonical_json(*self)),
    {
        to_bytes(&evaluation_canonical_json_to(self))
    }

    /// The fingerprint of the canonical JSON.
    pub fn fingerprint(&self) -> (r: Result<String, CombatOpportunityError>)
        ensures
            r is Ok && r->Ok_0@ == fingerprint_of(enc(evaluation_canonical_json(*self))),
    {
        Ok(fingerprint_bytes(self.canonical_json_bytes().as_slice()))
    }
}

} // verus!
