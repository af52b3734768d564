//! The combat contract: simulation version, RNG namespaces and the manifest
//! that pins down everything a battle was built from.
use vstd::prelude::*;
use vstd::utf8::encode_utf8;
use crate::json::{
    enc, json_array, json_view, jstr, push_field, str_json, strs_json, strs_to_json, to_bytes,
    write_u64, Json, JsonValue,
};
use crate::order::{
    compare_str, first_some, lemma_first_some_all, lemma_first_some_prefix,
    lemma_first_some_step, sort_by_order, sort_seq, sort_strings, str_ord,
};
use crate::text::{
    blank, fingerprint_bytes, fingerprint_of, fnv1a_64, fnv64, hex16, is_blank,
};

verus! {

/// The one simulation version this build's judgement implements.
pub const CURRENT_SIMULATION_VERSION: &'static str = "v3";

#[derive(Clone, Debug, PartialEq, Eq)]
pub enum CombatContractError {
    EmptySimulationVersion,
    EmptyWorldStateFingerprint,
    EmptyStableId,
    EmptySuppressionReason(String),
    EmptyEffectReason(String),
    Serialization(String),
    /// A version other than the current one was used to attempt judgement.
    UnsupportedSimulationVersion(String),
}

/// A simulation version string; never blank when built through `new`.
#[derive(Debug, PartialEq, Eq)]
pub struct CombatSimulationVersion(pub String);

impl Clone for CombatSimulationVersion {
    fn clone(&self) -> (r: Self)
        ensures
            r == *self,
    {
        CombatSimulationVersion(self.0.clone())
    }
}

impl View for CombatSimulationVersion {
    type V = Seq<char>;

    open spec fn view(&self) -> Seq<char> {
        self.0@
    }
}

impl CombatSimulationVersion {
    pub fn new(value: &str) -> (r: Result<Self, CombatContractError>)
        ensures
            blank(value@) ==> r == Err::<Self, CombatContractError>(
                CombatContractError::EmptySimulationVersion,
            ),
            !blank(value@) ==> r is Ok && r->Ok_0@ == value@,
    {
        if is_blank(value) {
            return Err(CombatContractError::EmptySimulationVersion);
        }
        Ok(CombatSimulationVersion(value.to_owned()))
    }

    pub fn as_str(&self) -> (s: &str)
        ensures
            s@ == self@,
    {
        self.0.as_str()
    }
}

/// Accepts `version` exactly when it is the current simulation version.
pub fn ensure_supported_simulation_version(version: &CombatSimulationVersion) -> (r: Result<
    (),
    CombatContractError,
>)
    ensures
        version@ == CURRENT_SIMULATION_VERSION@ ==> r is Ok,
        version@ != CURRENT_SIMULATION_VERSION@ ==> r == Err::<(), CombatContractError>(
            CombatContractError::UnsupportedSimulationVersion(version.0),
        ),
{
    let current = CURRENT_SIMULATION_VERSION.to_owned();
    if version.0 == current {
        Ok(())
    } else {
        Err(CombatContractError::UnsupportedSimulationVersion(version.0.clone()))
    }
}

#[derive(Clone, Copy, Debug, PartialEq, Eq, Structural)]
pub enum CombatRngNamespace {
    StoryResolution,
    EncounterComposition,
    ActualCombat,
    ForecastEnsemble,
    CosmeticPresentation,
}

pub open spec fn namespace_name(ns: CombatRngNamespace) -> Seq<char> {
    match ns {
        CombatRngNamespace::StoryResolution => "story_resolution"@,
        CombatRngNamespace::EncounterComposition => "encounter_composition"@,
        CombatRngNamespace::ActualCombat => "actual_combat"@,
        CombatRngNamespace::ForecastEnsemble => "forecast_ensemble"@,
        CombatRngNamespace::CosmeticPresentation => "cosmetic_presentation"@,
    }
}

/// The bytes `format!("{}:{}:{}", a, b, n)` writes for text `a`, `b` and a number `n`.
pub open spec fn colon3(a: Seq<u8>, b: Seq<u8>, n: nat) -> Seq<u8> {
    a + seq![0x3au8] + b + seq![0x3au8] + crate::json::dec_digits(n)
}

impl CombatRngNamespace {
    pub fn as_str(self) -> (s: &'static str)
        ensures
            s@ == namespace_name(self),
    {
        match self {
            CombatRngNamespace::StoryResolution => "story_resolution",
            CombatRngNamespace::EncounterComposition => "encounter_composition",
            CombatRngNamespace::ActualCombat => "actual_combat",
            CombatRngNamespace::ForecastEnsemble => "forecast_ensemble",
            CombatRngNamespace::CosmeticPresentation => "cosmetic_presentation",
        }
    }

    /// FNV-1a of `"{version}:{namespace}:{base_seed}"`.
    pub fn derive_seed(self, base_seed: u64, version: &CombatSimulationVersion) -> (r: u64)
        ensures
            r == fnv64(
                colon3(
                    encode_utf8(version@),
                    encode_utf8(namespace_name(self)),
                    base_seed as nat,
                ),
            ),
    {
        let mut bytes: Vec<u8> = Vec::new();
        extend_bytes(&mut bytes, version.as_str().as_bytes());
        bytes.push(0x3a);
        extend_bytes(&mut bytes, self.as_str().as_bytes());
        bytes.push(0x3a);
        write_u64(base_seed, &mut bytes);
        proof {
            assert(bytes@ =~= colon3(
                encode_utf8(version@),
                encode_utf8(namespace_name(self)),
                base_seed as nat,
            ));
        }
        fnv1a_64(bytes.as_slice())
    }
}

/// Appends `src` to `out`.
pub fn extend_bytes(out: &mut Vec<u8>, src: &[u8])
    ensures
        final(out)@ == old(out)@ + src@,
{
    let ghost start = out@;
    let n = src.len();
    let mut i: usize = 0;
    while i < n
        invariant
            n == src@.len(),
            i <= n,
            out@ == start + src@.take(i as int),
        decreases n - i,
    {
        out.push(src[i]);
        i += 1;
        assert(out@ =~= start + src@.take(i as int));
    }
    assert(src@.take(n as int) =~= src@);
}

#[derive(Debug, PartialEq, Eq)]
pub struct CombatEffectRef {
    pub id: String,
    pub reason: String,
}

impl Clone for CombatEffectRef {
    fn clone(&self) -> (r: Self)
        ensures
            r == *self,
    {
        CombatEffectRef { id: self.id.clone(), reason: self.reason.clone() }
    }
}

#[derive(Debug, PartialEq, Eq)]
pub struct SuppressedCombatEffect {
    pub id: String,
    pub reason: String,
}

impl Clone for SuppressedCombatEffect {
    fn clone(&self) -> (r: Self)
        ensures
            r == *self,
    {
        SuppressedCombatEffect { id: self.id.clone(), reason: self.reason.clone() }
    }
}

#[derive(Clone, Debug, PartialEq, Eq)]
pub struct CombatManifest {
    pub simulation_version: CombatSimulationVersion,
    pub actual_seed: u64,
    pub world_state_fingerprint: String,
    pub applied_effects: Vec<CombatEffectRef>,
    pub suppressed_effects: Vec<SuppressedCombatEffect>,
    pub combatant_ids: Vec<String>,
    pub placement_ids: Vec<String>,
    pub environment_ids: Vec<String>,
    pub team_ids: Vec<String>,
    pub rule_ids: Vec<String>,
    pub public_info_ids: Vec<String>,
}

pub open spec fn applied_ref_error(e: CombatEffectRef) -> Option<CombatContractError> {
    if blank(e.id@) {
        Some(CombatContractError::EmptyStableId)
    } else if blank(e.reason@) {
        Some(CombatContractError::EmptyEffectReason(e.id))
    } else {
        None
    }
}

pub open spec fn suppressed_ref_error(e: SuppressedCombatEffect) -> Option<CombatContractError> {
    if blank(e.id@) {
        Some(CombatContractError::EmptyStableId)
    } else if blank(e.reason@) {
        Some(CombatContractError::EmptySuppressionReason(e.id))
    } else {
        None
    }
}

pub open spec fn applied_check() -> spec_fn(CombatEffectRef) -> Option<CombatContractError> {
    |e: CombatEffectRef| applied_ref_error(e)
}

pub open spec fn suppressed_check() -> spec_fn(SuppressedCombatEffect) -> Option<
    CombatContractError,
> {
    |e: SuppressedCombatEffect| suppressed_ref_error(e)
}

/// Every id in `s` is non-blank.
pub open spec fn ids_present(s: Seq<String>) -> bool {
    forall|i: int| 0 <= i < s.len() ==> !blank(#[trigger] s[i]@)
}

/// What `CombatManifest::validate` answers: the first rule broken, in the
/// order version, world fingerprint, applied effects, suppressed effects,
/// then the id lists.
pub open spec fn manifest_check(m: CombatManifest) -> Result<(), CombatContractError> {
    if blank(m.simulation_version@) {
        Err(CombatContractError::EmptySimulationVersion)
    } else if blank(m.world_state_fingerprint@) {
        Err(CombatContractError::EmptyWorldStateFingerprint)
    } else if let Some(e) = first_some(m.applied_effects@, applied_check()) {
        Err(e)
    } else if let Some(e) = first_some(m.suppressed_effects@, suppressed_check()) {
        Err(e)
    } else if !(ids_present(m.combatant_ids@) && ids_present(m.placement_ids@) && ids_present(
        m.environment_ids@,
    ) && ids_present(m.team_ids@) && ids_present(m.rule_ids@) && ids_present(m.public_info_ids@)) {
        Err(CombatContractError::EmptyStableId)
    } else {
        Ok(())
    }
}

/// `Ok` when no id in `ids` is blank, else `EmptyStableId`.
pub fn ensure_ids(ids: &Vec<String>) -> (r: Result<(), CombatContractError>)
    ensures
        r is Ok <==> ids_present(ids@),
        r is Err ==> r == Err::<(), CombatContractError>(CombatContractError::EmptyStableId),
{
    let n = ids.len();
    let mut i: usize = 0;
    while i < n
        invariant
            n == ids@.len(),
            i <= n,
            forall|k: int| 0 <= k < i ==> !blank(#[trigger] ids@[k]@),
        decreases n - i,
    {
        if is_blank(ids[i].as_str()) {
            return Err(CombatContractError::EmptyStableId);
        }
        i += 1;
    }
    Ok(())
}

impl CombatManifest {
    #[verifier::loop_isolation(false)]
    pub fn validate(&self) -> (r: Result<(), CombatContractError>)
        ensures
            r == manifest_check(*self),
    {
        if is_blank(self.simulation_version.as_str()) {
            return Err(CombatContractError::EmptySimulationVersion);
        }
        if is_blank(self.world_state_fingerprint.as_str()) {
            return Err(CombatContractError::EmptyWorldStateFingerprint);
        }
        let ghost fa = applied_check();
        let n = self.applied_effects.len();
        let mut i: usize = 0;
        while i < n
            invariant
                n == self.applied_effects@.len(),
                i <= n,
                first_some(self.applied_effects@.take(i as int), fa) is None,
                fa == applied_check(),
            decreases n - i,
        {
            let e = &self.applied_effects[i];
            proof {
                lemma_first_some_step(self.applied_effects@, i as int, fa);
            }
            if is_blank(e.id.as_str()) {
                proof {
                    lemma_first_some_prefix(self.applied_effects@, i + 1, fa);
                }
                return Err(CombatContractError::EmptyStableId);
            }
            if is_blank(e.reason.as_str()) {
                proof {
                    lemma_first_some_prefix(self.applied_effects@, i + 1, fa);
                }
                return Err(CombatContractError::EmptyEffectReason(e.id.clone()));
            }
            i += 1;
        }
        proof {
            lemma_first_some_all(self.applied_effects@, fa);
        }
        let ghost fs = suppressed_check();
        let n = self.suppressed_effects.len();
        let mut i: usize = 0;
        while i < n
            invariant
                n == self.suppressed_effects@.len(),
                i <= n,
                first_some(self.suppressed_effects@.take(i as int), fs) is None,
                fs == suppressed_check(),
            decreases n - i,
        {
            let e = &self.suppressed_effects[i];
            proof {
                lemma_first_some_step(self.suppressed_effects@, i as int, fs);
            }
            if is_blank(e.id.as_str()) {
                proof {
                    lemma_first_some_prefix(self.suppressed_effects@, i + 1, fs);
                }
                return Err(CombatContractError::EmptyStableId);
            }
            if is_blank(e.reason.as_str()) {
                proof {
                    lemma_first_some_prefix(self.suppressed_effects@, i + 1, fs);
                }
                return Err(CombatContractError::EmptySuppressionReason(e.id.clone()));
            }
            i += 1;
        }
        proof {
            lemma_first_some_all(self.suppressed_effects@, fs);
        }
        ensure_ids(&self.combatant_ids)?;
        ensure_ids(&self.placement_ids)?;
        ensure_ids(&self.environment_ids)?;
        ensure_ids(&self.team_ids)?;
        ensure_ids(&self.rule_ids)?;
        ensure_ids(&self.public_info_ids)?;
        Ok(())
    }
}

pub open spec fn combat_effect_ref_json(x: CombatEffectRef) -> Json {
    let f = Seq::<(Seq<u8>, Json)>::empty();
    let f = f.push((encode_utf8("id"@), jstr(x.id@)));
    let f = f.push((encode_utf8("reason"@), jstr(x.reason@)));
    Json::Obj(f)
}

pub open spec fn combat_effect_ref_json_fn() -> spec_fn(CombatEffectRef) -> Json {
    |x: CombatEffectRef| combat_effect_ref_json(x)
}

pub fn combat_effect_ref_to_json(x: &CombatEffectRef) -> (j: JsonValue)
    ensures
        json_view(j) == combat_effect_ref_json(*x),
{
    let mut f: Vec<(String, JsonValue)> = Vec::new();
    push_field(&mut f, "id", str_json(x.id.as_str()));
    push_field(&mut f, "reason", str_json(x.reason.as_str()));
    JsonValue::Obj(f)
}

pub fn combat_effect_ref_array(items: &Vec<CombatEffectRef>) -> (j: JsonValue)
    ensures
        json_view(j) == Json::Arr(items@.map_values(combat_effect_ref_json_fn())),
{
    let conv = |e: &CombatEffectRef| -> (r: JsonValue)
        ensures
            json_view(r) == combat_effect_ref_json(*e),
        { combat_effect_ref_to_json(e) };
    let ghost g = combat_effect_ref_json_fn();
    json_array(items, conv, Ghost(g))
}

pub open spec fn suppressed_combat_effect_json(x: SuppressedCombatEffect) -> Json {
    let f = Seq::<(Seq<u8>, Json)>::empty();
    let f = f.push((encode_utf8("id"@), jstr(x.id@)));
    let f = f.push((encode_utf8("reason"@), jstr(x.reason@)));
    Json::Obj(f)
}

pub open spec fn suppressed_combat_effect_json_fn() -> spec_fn(SuppressedCombatEffect) -> Json {
    |x: SuppressedCombatEffect| suppressed_combat_effect_json(x)
}

pub fn suppressed_combat_effect_to_json(x: &SuppressedCombatEffect) -> (j: JsonValue)
    ensures
        json_view(j) == suppressed_combat_effect_json(*x),
{
    let mut f: Vec<(String, JsonValue)> = Vec::new();
    push_field(&mut f, "id", str_json(x.id.as_str()));
    push_field(&mut f, "reason", str_json(x.reason.as_str()));
    JsonValue::Obj(f)
}

pub fn suppressed_combat_effect_array(items: &Vec<SuppressedCombatEffect>) -> (j: JsonValue)
    ensures
        json_view(j) == Json::Arr(items@.map_values(suppressed_combat_effect_json_fn())),
{
    let conv = |e: &SuppressedCombatEffect| -> (r: JsonValue)
        ensures
            json_view(r) == suppressed_combat_effect_json(*e),
        { suppressed_combat_effect_to_json(e) };
    let ghost g = suppressed_combat_effect_json_fn();
    json_array(items, conv, Ghost(g))
}

pub open spec fn combat_manifest_json(x: CombatManifest) -> Json {
    let f = Seq::<(Seq<u8>, Json)>::empty();
    let f = f.push((encode_utf8("simulation_version"@), jstr(x.simulation_version@)));
    let f = f.push((encode_utf8("actual_seed"@), Json::Num(x.actual_seed as int)));
    let f = f.push((encode_utf8("world_state_fingerprint"@), jstr(x.world_state_fingerprint@)));
    let f = f.push((encode_utf8("applied_effects"@), Json::Arr(x.applied_effects@.map_values(combat_effect_ref_json_fn()))));
    let f = f.push((encode_utf8("suppressed_effects"@), Json::Arr(x.suppressed_effects@.map_values(suppressed_combat_effect_json_fn()))));
    let f = f.push((encode_utf8("combatant_ids"@), strs_json(x.combatant_ids@)));
    let f = f.push((encode_utf8("placement_ids"@), strs_json(x.placement_ids@)));
    let f = f.push((encode_utf8("environment_ids"@), strs_json(x.environment_ids@)));
    let f = f.push((encode_utf8("team_ids"@), strs_json(x.team_ids@)));
    let f = f.push((encode_utf8("rule_ids"@), strs_json(x.rule_ids@)));
    let f = f.push((encode_utf8("public_info_ids"@), strs_json(x.public_info_ids@)));
    Json::Obj(f)
}

pub open spec fn combat_manifest_json_fn() -> spec_fn(CombatManifest) -> Json {
    |x: CombatManifest| combat_manifest_json(x)
}

pub fn combat_manifest_to_json(x: &CombatManifest) -> (j: JsonValue)
    ensures
        json_view(j) == combat_manifest_json(*x),
{
    let mut f: Vec<(String, JsonValue)> = Vec::new();
    push_field(&mut f, "simulation_version", str_json(x.simulation_version.as_str()));
    push_field(&mut f, "actual_seed", JsonValue::UInt(x.actual_seed as u64));
    push_field(&mut f, "world_state_fingerprint", str_json(x.world_state_fingerprint.as_str()));
    let a_x_applied_effects = combat_effect_ref_array(&x.applied_effects);
    push_field(&mut f, "applied_effects", a_x_applied_effects);
    let a_x_suppressed_effects = suppressed_combat_effect_array(&x.suppressed_effects);
    push_field(&mut f, "suppressed_effects", a_x_suppressed_effects);
    push_field(&mut f, "combatant_ids", strs_to_json(&x.combatant_ids));
    push_field(&mut f, "placement_ids", strs_to_json(&x.placement_ids));
    push_field(&mut f, "environment_ids", strs_to_json(&x.environment_ids));
    push_field(&mut f, "team_ids", strs_to_json(&x.team_ids));
    push_field(&mut f, "rule_ids", strs_to_json(&x.rule_ids));
    push_field(&mut f, "public_info_ids", strs_to_json(&x.public_info_ids));
    JsonValue::Obj(f)
}

pub fn combat_manifest_array(items: &Vec<CombatManifest>) -> (j: JsonValue)
    ensures
        json_view(j) == Json::Arr(items@.map_values(combat_manifest_json_fn())),
{
    let conv = |e: &CombatManifest| -> (r: JsonValue)
        ensures
            json_view(r) == combat_manifest_json(*e),
        { combat_manifest_to_json(e) };
    let ghost g = combat_manifest_json_fn();
    json_array(items, conv, Ghost(g))
}


pub open spec fn effect_ref_order(a: CombatEffectRef, b: CombatEffectRef) -> int {
    let c = str_ord(a.id@, b.id@);
    if c != 0 {
        c
    } else {
        str_ord(a.reason@, b.reason@)
    }
}

pub open spec fn suppressed_order(a: SuppressedCombatEffect, b: SuppressedCombatEffect) -> int {
    let c = str_ord(a.id@, b.id@);
    if c != 0 {
        c
    } else {
        str_ord(a.reason@, b.reason@)
    }
}

pub open spec fn string_ord() -> spec_fn(String, String) -> int {
    |a: String, b: String| str_ord(a@, b@)
}

pub open spec fn sorted_strs_json(s: Seq<String>) -> Json {
    strs_json(sort_seq(s, string_ord()))
}

/// The manifest's canonical JSON: effect lists ordered by (id, reason),
/// every id list sorted.
pub open spec fn manifest_canonical_json(m: CombatManifest) -> Json {
    let f = Seq::<(Seq<u8>, Json)>::empty();
    let f = f.push((encode_utf8("simulation_version"@), jstr(m.simulation_version@)));
    let f = f.push((encode_utf8("actual_seed"@), Json::Num(m.actual_seed as int)));
    let f = f.push((encode_utf8("world_state_fingerprint"@), jstr(m.world_state_fingerprint@)));
    let f = f.push(
        (
            encode_utf8("applied_effects"@),
            Json::Arr(
                sort_seq(
                    m.applied_effects@,
                    |a: CombatEffectRef, b: CombatEffectRef| effect_ref_order(a, b),
                ).map_values(combat_effect_ref_json_fn()),
            ),
        ),
    );
    let f = f.push(
        (
            encode_utf8("suppressed_effects"@),
            Json::Arr(
                sort_seq(
                    m.suppressed_effects@,
                    |a: SuppressedCombatEffect, b: SuppressedCombatEffect| suppressed_order(a, b),
                ).map_values(suppressed_combat_effect_json_fn()),
            ),
        ),
    );
    let f = f.push((encode_utf8("combatant_ids"@), sorted_strs_json(m.combatant_ids@)));
    let f = f.push((encode_utf8("placement_ids"@), sorted_strs_json(m.placement_ids@)));
    let f = f.push((encode_utf8("environment_ids"@), sorted_strs_json(m.environment_ids@)));
    let f = f.push((encode_utf8("team_ids"@), sorted_strs_json(m.team_ids@)));
    let f = f.push((encode_utf8("rule_ids"@), sorted_strs_json(m.rule_ids@)));
    let f = f.push((encode_utf8("public_info_ids"@), sorted_strs_json(m.public_info_ids@)));
    Json::Obj(f)
}

/// The manifest fingerprint: sixteen hex digits of FNV-1a over the canonical JSON.
pub open spec fn manifest_fingerprint(m: CombatManifest) -> Seq<char> {
    fingerprint_of(enc(manifest_canonical_json(m)))
}

fn sort_effect_refs(v: Vec<CombatEffectRef>) -> (r: Vec<CombatEffectRef>)
    ensures
        r@ == sort_seq(v@, |a: CombatEffectRef, b: CombatEffectRef| effect_ref_order(a, b)),
{
    let order = |a: &CombatEffectRef, b: &CombatEffectRef| -> (r: i8)
        ensures
            (r > 0) <==> (effect_ref_order(*a, *b) > 0),
        {
            let c = compare_str(a.id.as_str(), b.id.as_str());
            if c != 0 {
                c
            } else {
                compare_str(a.reason.as_str(), b.reason.as_str())
            }
        };
    let ghost so = |a: CombatEffectRef, b: CombatEffectRef| effect_ref_order(a, b);
    sort_by_order(v, order, Ghost(so))
}

fn sort_suppressed(v: Vec<SuppressedCombatEffect>) -> (r: Vec<SuppressedCombatEffect>)
    ensures
        r@ == sort_seq(
            v@,
            |a: SuppressedCombatEffect, b: SuppressedCombatEffect| suppressed_order(a, b),
        ),
{
    let order = |a: &SuppressedCombatEffect, b: &SuppressedCombatEffect| -> (r: i8)
        ensures
            (r > 0) <==> (suppressed_order(*a, *b) > 0),
        {
            let c = compare_str(a.id.as_str(), b.id.as_str());
            if c != 0 {
                c
            } else {
                compare_str(a.reason.as_str(), b.reason.as_str())
            }
        };
    let ghost so = |a: SuppressedCombatEffect, b: SuppressedCombatEffect| suppressed_order(a, b);
    sort_by_order(v, order, Ghost(so))
}

fn clone_effect_refs(v: &Vec<CombatEffectRef>) -> (r: Vec<CombatEffectRef>)
    ensures
        r@ == v@,
{
    let r = v.clone();
    assert(r@ =~= v@);
    r
}

fn clone_suppressed(v: &Vec<SuppressedCombatEffect>) -> (r: Vec<SuppressedCombatEffect>)
    ensures
        r@ == v@,
{
    let r = v.clone();
    assert(r@ =~= v@);
    r
}

proof fn lemma_manifest_canonical(m: CombatManifest, c: CombatManifest)
    requires
        c.simulation_version@ == m.simulation_version@,
        c.actual_seed == m.actual_seed,
        c.world_state_fingerprint@ == m.world_state_fingerprint@,
        c.applied_effects@ == sort_seq(
            m.applied_effects@,
            |a: CombatEffectRef, b: CombatEffectRef| effect_ref_order(a, b),
        ),
        c.suppressed_effects@ == sort_seq(
            m.suppressed_effects@,
            |a: SuppressedCombatEffect, b: SuppressedCombatEffect| suppressed_order(a, b),
        ),
        c.combatant_ids@ == sort_seq(m.combatant_ids@, string_ord()),
        c.placement_ids@ == sort_seq(m.placement_ids@, string_ord()),
        c.environment_ids@ == sort_seq(m.environment_ids@, string_ord()),
        c.team_ids@ == sort_seq(m.team_ids@, string_ord()),
        c.rule_ids@ == sort_seq(m.rule_ids@, string_ord()),
        c.public_info_ids@ == sort_seq(m.public_info_ids@, string_ord()),
    ensures
        combat_manifest_json(c) == manifest_canonical_json(m),
{
}

fn sorted_strings(v: &Vec<String>) -> (r: Vec<String>)
    ensures
        r@ == sort_seq(v@, string_ord()),
{
    let c = v.clone();
    assert(c@ =~= v@);
    let r = sort_strings(c);
    assert(string_ord() =~= (|a: String, b: String| str_ord(a@, b@)));
    r
}

impl CombatManifest {
    /// The canonical JSON value, after validation.
    pub fn canonical_json_value(&self) -> (r: Result<JsonValue, CombatContractError>)
        ensures
            manifest_check(*self) is Err ==> r == Err::<JsonValue, CombatContractError>(
                manifest_check(*self)->Err_0,
            ),
            manifest_check(*self) is Ok ==> r is Ok && json_view(r->Ok_0) == manifest_canonical_json(
                *self,
            ),
    {
        self.validate()?;
        let applied = sort_effect_refs(clone_effect_refs(&self.applied_effects));
        let suppressed = sort_suppressed(clone_suppressed(&self.suppressed_effects));
        let canonical = CombatManifest {
            simulation_version: self.simulation_version.clone(),
            actual_seed: self.actual_seed,
            world_state_fingerprint: self.world_state_fingerprint.clone(),
            applied_effects: applied,
            suppressed_effects: suppressed,
            combatant_ids: sorted_strings(&self.combatant_ids),
            placement_ids: sorted_strings(&self.placement_ids),
            environment_ids: sorted_strings(&self.environment_ids),
            team_ids: sorted_strings(&self.team_ids),
            rule_ids: sorted_strings(&self.rule_ids),
            public_info_ids: sorted_strings(&self.public_info_ids),
        };
        let j = combat_manifest_to_json(&canonical);
        proof {
            lemma_manifest_canonical(*self, canonical);
        }
        Ok(j)
    }

    /// The canonical JSON text, after validation.
    pub fn canonical_json_bytes(&self) -> (r: Result<Vec<u8>, CombatContractError>)
        ensures
            manifest_check(*self) is Err ==> r == Err::<Vec<u8>, CombatContractError>(
                manifest_check(*self)->Err_0,
            ),
            manifest_check(*self) is Ok ==> r is Ok && r->Ok_0@ == enc(
                manifest_canonical_json(*self),
            ),
    {
        let j = self.canonical_json_value()?;
        Ok(to_bytes(&j))
    }

    /// The canonical JSON text, after validation.
    pub fn canonical_json(&self) -> (r: Result<String, CombatContractError>)
        ensures
            manifest_check(*self) is Err ==> r == Err::<String, CombatContractError>(manifest_check(*self)->Err_0),
            r matches Ok(t) ==> encode_utf8(t@) == enc(manifest_canonical_json(*self)),
            manifest_check(*self) is Ok && vstd::utf8::valid_utf8(enc(manifest_canonical_json(*self))) ==> r is Ok,
    {
        let bytes = self.canonical_json_bytes()?;
        match crate::json::text_from_utf8(bytes) {
            Some(t) => Ok(t),
            None => Err(CombatContractError::Serialization("invalid UTF-8".to_string())),
        }
    }

    pub fn fingerprint(&self) -> (r: Result<String, CombatContractError>)
        ensures
            manifest_check(*self) is Err ==> r == Err::<String, CombatContractError>(
                manifest_check(*self)->Err_0,
            ),
            manifest_check(*self) is Ok ==> r is Ok && r->Ok_0@ == manifest_fingerprint(*self),
    {
        let bytes = self.canonical_json_bytes()?;
        Ok(fingerprint_bytes(bytes.as_slice()))
    }

    /// FNV-1a of `"{version}:{namespace}:{actual_seed}:{fingerprint}"`.
    pub fn derived_seed(&self, namespace: CombatRngNamespace) -> (r: Result<
        u64,
        CombatContractError,
    >)
        ensures
            manifest_check(*self) is Err ==> r == Err::<u64, CombatContractError>(
                manifest_check(*self)->Err_0,
            ),
            manifest_check(*self) is Ok ==> r == Ok::<u64, CombatContractError>(
                fnv64(
                    colon3(
                        encode_utf8(self.simulation_version@),
                        encode_utf8(namespace_name(namespace)),
                        self.actual_seed as nat,
                    ) + seq![0x3au8] + encode_utf8(manifest_fingerprint(*self)),
                ),
            ),
    {
        self.validate()?;
        let fingerprint = self.fingerprint()?;
        let mut bytes: Vec<u8> = Vec::new();
        extend_bytes(&mut bytes, self.simulation_version.as_str().as_bytes());
        bytes.push(0x3a);
        extend_bytes(&mut bytes, namespace.as_str().as_bytes());
        bytes.push(0x3a);
        write_u64(self.actual_seed, &mut bytes);
        bytes.push(0x3a);
        extend_bytes(&mut bytes, fingerprint.as_str().as_bytes());
        proof {
            assert(bytes@ =~= colon3(
                encode_utf8(self.simulation_version@),
                encode_utf8(namespace_name(namespace)),
                self.actual_seed as nat,
            ) + seq![0x3au8] + encode_utf8(manifest_fingerprint(*self)));
        }
        Ok(fnv1a_64(bytes.as_slice()))
    }
}


pub open spec fn contract_error_text(e: CombatContractError) -> Seq<char> {
    match e {
        CombatContractError::EmptySimulationVersion => "simulation version must not be empty"@,
        CombatContractError::EmptyWorldStateFingerprint => "world state fingerprint must not be empty"@,
        CombatContractError::EmptyStableId => "stable combat ID must not be empty"@,
        CombatContractError::EmptySuppressionReason(id) => "suppressed effect '"@ + id@ + "' requires a reason"@,
        CombatContractError::EmptyEffectReason(id) => "applied effect '"@ + id@ + "' requires a reason"@,
        CombatContractError::Serialization(m) => "combat contract serialization failed: "@ + m@,
        CombatContractError::UnsupportedSimulationVersion(v) => "unsupported simulation version '"@ + v@
            + "' (this build implements '"@ + CURRENT_SIMULATION_VERSION@ + "')"@,
    }
}

impl CombatContractError {
    /// The error as a sentence.
    pub fn message(&self) -> (r: String)
        ensures
            r@ == contract_error_text(*self),
    {
        let mut t = String::new();
        match self {
            CombatContractError::EmptySimulationVersion => t.append("simulation version must not be empty"),
            CombatContractError::EmptyWorldStateFingerprint => t.append("world state fingerprint must not be empty"),
            CombatContractError::EmptyStableId => t.append("stable combat ID must not be empty"),
            CombatContractError::EmptySuppressionReason(id) => {
                t.append("suppressed effect '");
                t.append(id.as_str());
                t.append("' requires a reason");
            },
            CombatContractError::EmptyEffectReason(id) => {
                t.append("applied effect '");
                t.append(id.as_str());
                t.append("' requires a reason");
            },
            CombatContractError::Serialization(m) => {
                t.append("combat contract serialization failed: ");
                t.append(m.as_str());
            },
            CombatContractError::UnsupportedSimulationVersion(v) => {
                t.append("unsupported simulation version '");
                t.append(v.as_str());
                t.append("' (this build implements '");
                t.append(CURRENT_SIMULATION_VERSION);
                t.append("')");
            },
        }
        assert(t@ =~= contract_error_text(*self));
        t
    }
}

} // verus!
