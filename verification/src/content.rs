//! The story content a bundle defines: locations, items, encounters and
//! their choices, endings, achievements and public secrets.
use vstd::prelude::*;
use crate::effects::texts;
use crate::order::{first_some, insert_sorted, str_ord};
use crate::text::str_eq;

verus! {

pub const CONTENT_BUNDLE_SCHEMA_VERSION: u32 = 1;

pub const CONTENT_BUNDLE_KIND: &'static str = "tui_adv.content_bundle";

#[derive(Clone, Debug, PartialEq, Eq)]
pub struct RuntimeMetadata {
    pub runtime_mode: String,
    pub world_id: String,
    pub storypack_id: String,
    pub default_location: String,
}

#[derive(Clone, Debug, PartialEq, Eq)]
pub struct ContentManifest {
    pub schema_version: u32,
    pub source: String,
    /// Item counts by section name, names ascending and each once.
    pub counts: Vec<(String, usize)>,
}

#[derive(Clone, Debug, PartialEq, Eq)]
pub enum ContentBundleError {
    Json(String),
    UnsupportedSchemaVersion(u32),
    UnsupportedKind(String),
    PrivateSecretField { secret_id: String, field: String },
}

#[derive(Clone, Debug, PartialEq, Eq)]
pub enum ContentIndexError {
    InvalidSectionItem { section: String, id: Option<String>, message: String },
    DuplicateId { section: String, id: String },
    UnknownLocationConnection { location_id: String, connected_location_id: String },
    UnknownEncounterLocation { encounter_id: String, location_id: String },
    UnknownEndingLocation { ending_id: String, location_id: String },
}

#[derive(Clone, Debug, PartialEq, Eq)]
pub struct LocationDef {
    pub id: String,
    pub name: String,
    pub description: String,
    pub connections: Vec<String>,
    pub tags: Vec<String>,
    pub danger: i32,
}

/// Conditions on the state; each resource or ability map holds its ids
/// ascending and each once.
#[derive(Clone, Debug, PartialEq, Eq)]
pub struct ContentConditions {
    pub locations: Vec<String>,
    pub disaster_types: Vec<String>,
    pub required_items: Vec<String>,
    pub required_flags: Vec<String>,
    pub forbidden_flags: Vec<String>,
    pub required_clues: Vec<String>,
    pub min_resources: Vec<(String, i32)>,
    pub max_resources: Vec<(String, i32)>,
    pub min_abilities: Vec<(String, i32)>,
}

#[derive(Clone, Debug, PartialEq, Eq)]
pub struct ItemDef {
    pub id: String,
    pub name: String,
    pub description: String,
    pub item_type: String,
    pub tags: Vec<String>,
    pub usable: bool,
    pub use_effects: Vec<(String, i32)>,
    pub use_log: Option<String>,
}

#[derive(Clone, Debug, PartialEq, Eq)]
pub struct OutcomeDef {
    pub log: Option<String>,
    pub add_flags: Vec<String>,
    pub remove_flags: Vec<String>,
    pub add_clues: Vec<String>,
    pub add_items: Vec<String>,
    pub remove_items: Vec<String>,
    pub destination_id: Option<String>,
    pub danger: i32,
    pub resources: Vec<(String, i32)>,
}

#[derive(Clone, Debug, PartialEq, Eq)]
pub struct AbilityCheckDef {
    pub ability: String,
    pub difficulty: i32,
    pub success: OutcomeDef,
    pub failure: OutcomeDef,
}

#[derive(Clone, Debug, PartialEq, Eq)]
pub struct ChoiceDef {
    pub id: String,
    pub label: String,
    pub conditions: ContentConditions,
    pub cost: Vec<(String, i32)>,
    pub outcome: OutcomeDef,
    pub check: Option<AbilityCheckDef>,
}

#[derive(Clone, Debug, PartialEq, Eq)]
pub struct EndingDef {
    pub id: String,
    pub name: String,
    pub kind: String,
    pub priority: i32,
    pub conditions: ContentConditions,
    pub local_hint_id: Option<String>,
    pub text: String,
}

#[derive(Clone, Debug, PartialEq, Eq)]
pub struct AchievementDef {
    pub id: String,
    pub name: String,
    pub description: String,
    pub conditions: ContentConditions,
    pub hidden: bool,
}

#[derive(Clone, Debug, PartialEq, Eq)]
pub struct PublicSecretDef {
    pub id: String,
    pub title: String,
    pub unlock_flags: Vec<String>,
    pub public_hint_steps: Vec<String>,
    pub puzzle_prompt: Option<String>,
    pub placeholder_ip_address: Option<String>,
    pub final_hint_policy: Option<String>,
    pub reward_text: Option<String>,
}

/// An encounter without a weight of its own is drawn with weight one.
pub fn default_encounter_weight() -> (w: u32)
    ensures
        w == 1,
{
    1
}

/// How strongly and how a cue presents. The intensity is kept as the bit
/// pattern of its `f32` value, which this library only carries.
#[derive(Clone, Debug, PartialEq, Eq)]
pub struct PresentationEffectCue {
    pub kind: String,
    pub source: String,
    pub intensity_bits: u32,
    pub stable_terms: Vec<String>,
    pub distortion: String,
    pub duration_hint_ms: Option<u32>,
    pub fallback_text: Option<String>,
}

#[derive(Clone, Debug, PartialEq, Eq)]
pub struct PresentationDef {
    pub visual_id: Option<String>,
    pub speaker: Option<String>,
    pub layout: Option<String>,
    pub effect_cues: Vec<PresentationEffectCue>,
}

#[derive(Clone, Debug, PartialEq, Eq)]
pub struct EncounterDef {
    pub id: String,
    pub title: String,
    pub body: String,
    pub presentation: Option<PresentationDef>,
    pub conditions: ContentConditions,
    pub choices: Vec<ChoiceDef>,
    pub repeatable: bool,
    pub weight: u32,
}

/// What an index error says, with its texts taken by value.
pub enum IndexFault {
    InvalidSectionItem { section: Seq<char>, id: Option<Seq<char>>, message: Seq<char> },
    DuplicateId { section: Seq<char>, id: Seq<char> },
    UnknownLocationConnection { location_id: Seq<char>, connected_location_id: Seq<char> },
    UnknownEncounterLocation { encounter_id: Seq<char>, location_id: Seq<char> },
    UnknownEndingLocation { ending_id: Seq<char>, location_id: Seq<char> },
}

pub open spec fn index_fault(e: ContentIndexError) -> IndexFault {
    match e {
        ContentIndexError::InvalidSectionItem { section, id, message } => IndexFault::InvalidSectionItem {
            section: section@,
            id: crate::state::opt_text(id),
            message: message@,
        },
        ContentIndexError::DuplicateId { section, id } => IndexFault::DuplicateId { section: section@, id: id@ },
        ContentIndexError::UnknownLocationConnection { location_id, connected_location_id } =>
            IndexFault::UnknownLocationConnection {
            location_id: location_id@,
            connected_location_id: connected_location_id@,
        },
        ContentIndexError::UnknownEncounterLocation { encounter_id, location_id } => IndexFault::UnknownEncounterLocation {
            encounter_id: encounter_id@,
            location_id: location_id@,
        },
        ContentIndexError::UnknownEndingLocation { ending_id, location_id } => IndexFault::UnknownEndingLocation {
            ending_id: ending_id@,
            location_id: location_id@,
        },
    }
}

/// An entry of the index, found by its id.
pub trait Keyed: Sized {
    spec fn key_of(&self) -> Seq<char>;

    fn key(&self) -> (r: &str)
        ensures
            r@ == self.key_of(),
    ;
}

impl Keyed for LocationDef {
    open spec fn key_of(&self) -> Seq<char> {
        self.id@
    }

    fn key(&self) -> (r: &str) {
        self.id.as_str()
    }
}

impl Keyed for ItemDef {
    open spec fn key_of(&self) -> Seq<char> {
        self.id@
    }

    fn key(&self) -> (r: &str) {
        self.id.as_str()
    }
}

impl Keyed for EncounterDef {
    open spec fn key_of(&self) -> Seq<char> {
        self.id@
    }

    fn key(&self) -> (r: &str) {
        self.id.as_str()
    }
}

impl Keyed for EndingDef {
    open spec fn key_of(&self) -> Seq<char> {
        self.id@
    }

    fn key(&self) -> (r: &str) {
        self.id.as_str()
    }
}

impl Keyed for AchievementDef {
    open spec fn key_of(&self) -> Seq<char> {
        self.id@
    }

    fn key(&self) -> (r: &str) {
        self.id.as_str()
    }
}

impl Keyed for PublicSecretDef {
    open spec fn key_of(&self) -> Seq<char> {
        self.id@
    }

    fn key(&self) -> (r: &str) {
        self.id.as_str()
    }
}

pub open spec fn key_order<T: Keyed>() -> spec_fn(T, T) -> int {
    |a: T, b: T| str_ord(a.key_of(), b.key_of())
}

/// Ids strictly ascending: each id once, in text order.
pub open spec fn keys_sorted<T: Keyed>(s: Seq<T>) -> bool {
    forall|i: int, j: int| 0 <= i < j < s.len() ==> str_ord(#[trigger] s[i].key_of(), #[trigger] s[j].key_of()) < 0
}

pub open spec fn has_key<T: Keyed>(s: Seq<T>, k: Seq<char>) -> bool {
    exists|i: int| 0 <= i < s.len() && #[trigger] s[i].key_of() == k
}

/// The entry with this id, if any.
pub open spec fn find_key<T: Keyed>(s: Seq<T>, k: Seq<char>) -> Option<T>
    decreases s.len(),
{
    if s.len() == 0 {
        None
    } else if s[0].key_of() == k {
        Some(s[0])
    } else {
        find_key(s.drop_first(), k)
    }
}

fn find_index<T: Keyed>(s: &Vec<T>, k: &str) -> (r: Option<usize>)
    ensures
        match r {
            Some(i) => i < s@.len() && find_key(s@, k@) == Some(s@[i as int]) && has_key(s@, k@),
            None => find_key(s@, k@) is None && !has_key(s@, k@),
        },
{
    let n = s.len();
    let mut i: usize = 0;
    assert(s@.skip(0) =~= s@);
    while i < n
        invariant
            n == s@.len(),
            i <= n,
            find_key(s@, k@) == find_key(s@.skip(i as int), k@),
            forall|j: int| 0 <= j < i ==> #[trigger] s@[j].key_of() != k@,
        decreases n - i,
    {
        let ghost rest = s@.skip(i as int);
        assert(rest.drop_first() =~= s@.skip(i + 1));
        assert(rest[0] == s@[i as int]);
        if str_eq(s[i].key(), k) {
            return Some(i);
        }
        i += 1;
    }
    None
}

/// Adds an entry under its id, refusing an id the section already has.
pub fn insert_unique<T: Keyed>(section: &str, map: &mut Vec<T>, value: T) -> (r: Result<(), ContentIndexError>)
    requires
        keys_sorted(old(map)@),
    ensures
        keys_sorted(final(map)@),
        has_key(old(map)@, value.key_of()) ==> (r matches Err(e) && index_fault(e) == (IndexFault::DuplicateId {
            section: section@,
            id: value.key_of(),
        })) && final(map)@ == old(map)@,
        !has_key(old(map)@, value.key_of()) ==> r is Ok && final(map)@ == insert_sorted(
            old(map)@,
            value,
            key_order::<T>(),
        ),
{
    if find_index(map, value.key()).is_some() {
        return Err(ContentIndexError::DuplicateId { section: section.to_string(), id: value.key().to_string() });
    }
    let ghost before = map@;
    let ghost kv = value.key_of();
    let n = map.len();
    let mut k: usize = 0;
    assert(before.skip(0) =~= before);
    assert(before.take(0) + insert_sorted(before.skip(0), value, key_order::<T>()) =~= insert_sorted(
        before,
        value,
        key_order::<T>(),
    ));
    while k < n && crate::order::compare_str(map[k].key(), value.key()) <= 0
        invariant
            n == map@.len(),
            map@ == before,
            k <= n,
            kv == value.key_of(),
            insert_sorted(before, value, key_order::<T>()) == before.take(k as int) + insert_sorted(
                before.skip(k as int),
                value,
                key_order::<T>(),
            ),
            forall|j: int| 0 <= j < k ==> str_ord(#[trigger] before[j].key_of(), kv) < 0,
            !has_key(before, kv),
        decreases n - k,
    {
        proof {
            let rest = before.skip(k as int);
            assert(rest[0] == before[k as int]);
            assert(rest.drop_first() =~= before.skip(k + 1));
            assert(before.take(k as int) + (seq![before[k as int]] + insert_sorted(before.skip(k + 1), value, key_order::<T>()))
                =~= before.take(k + 1) + insert_sorted(before.skip(k + 1), value, key_order::<T>()));
            if str_ord(before[k as int].key_of(), kv) == 0 {
                crate::order::lemma_str_ord_zero(before[k as int].key_of(), kv);
                assert(has_key(before, kv));
            }
        }
        k += 1;
    }
    proof {
        if k < n {
            let rest = before.skip(k as int);
            assert(rest[0] == before[k as int]);
            assert(insert_sorted(rest, value, key_order::<T>()) == seq![value] + rest);
        } else {
            assert(before.skip(k as int) =~= Seq::<T>::empty());
        }
    }
    map.insert(k, value);
    proof {
        let out = map@;
        assert(out =~= before.take(k as int) + seq![value] + before.skip(k as int));
        assert forall|i: int, j: int| 0 <= i < j < out.len() implies str_ord(#[trigger] out[i].key_of(), #[trigger] out[j].key_of()) < 0 by {
            crate::order::lemma_bytes_ord_basic(vstd::utf8::encode_utf8(out[i].key_of()), vstd::utf8::encode_utf8(out[j].key_of()));
            if j < k {
                assert(out[i] == before[i] && out[j] == before[j]);
            } else if j == k {
                assert(out[i] == before[i]);
            } else if i == k {
                assert(out[j] == before[j - 1]);
                assert(str_ord(before[k as int].key_of(), kv) > 0);
                crate::order::lemma_bytes_ord_basic(vstd::utf8::encode_utf8(before[k as int].key_of()), vstd::utf8::encode_utf8(kv));
                if j - 1 > k {
                    assert(str_ord(before[k as int].key_of(), before[j - 1].key_of()) < 0);
                    crate::order::lemma_bytes_ord_trans(
                        vstd::utf8::encode_utf8(kv),
                        vstd::utf8::encode_utf8(before[k as int].key_of()),
                        vstd::utf8::encode_utf8(before[j - 1].key_of()),
                    );
                    if str_ord(kv, before[j - 1].key_of()) == 0 {
                        crate::order::lemma_str_ord_zero(kv, before[j - 1].key_of());
                        assert(has_key(before, kv));
                    }
                }
            } else if i < k {
                assert(out[i] == before[i] && out[j] == before[j - 1]);
            } else {
                assert(out[i] == before[i - 1] && out[j] == before[j - 1]);
            }
        }
    }
    Ok(())
}

// ---------------------------------------------------------------- index

/// The parsed items of each section, in bundle order; an item that did not
/// parse holds its error.
#[derive(Clone, Debug, PartialEq, Eq)]
pub struct ParsedContent {
    pub locations: Vec<Result<LocationDef, ContentIndexError>>,
    pub items: Vec<Result<ItemDef, ContentIndexError>>,
    pub encounters: Vec<Result<EncounterDef, ContentIndexError>>,
    pub endings: Vec<Result<EndingDef, ContentIndexError>>,
    pub achievements: Vec<Result<AchievementDef, ContentIndexError>>,
    pub secrets: Vec<Result<PublicSecretDef, ContentIndexError>>,
}

/// The content by id, each section in ascending id order.
#[derive(Clone, Debug, PartialEq, Eq)]
pub struct ContentIndex {
    locations: Vec<LocationDef>,
    items: Vec<ItemDef>,
    encounters: Vec<EncounterDef>,
    endings: Vec<EndingDef>,
    achievements: Vec<AchievementDef>,
    secrets: Vec<PublicSecretDef>,
}

pub struct IndexModel {
    pub locations: Seq<LocationDef>,
    pub items: Seq<ItemDef>,
    pub encounters: Seq<EncounterDef>,
    pub endings: Seq<EndingDef>,
    pub achievements: Seq<AchievementDef>,
    pub secrets: Seq<PublicSecretDef>,
}

impl View for ContentIndex {
    type V = IndexModel;

    closed spec fn view(&self) -> IndexModel {
        IndexModel {
            locations: self.locations@,
            items: self.items@,
            encounters: self.encounters@,
            endings: self.endings@,
            achievements: self.achievements@,
            secrets: self.secrets@,
        }
    }
}

/// A section built item by item: a parse error stops it, then the item's
/// own check, then a repeated id.
pub open spec fn build_section<T: Keyed>(
    parsed: Seq<Result<T, ContentIndexError>>,
    section: Seq<char>,
    check: spec_fn(T) -> Option<IndexFault>,
) -> Result<Seq<T>, IndexFault>
    decreases parsed.len(),
{
    if parsed.len() == 0 {
        Ok(Seq::empty())
    } else {
        match build_section(parsed.drop_last(), section, check) {
            Err(f) => Err(f),
            Ok(map) => match parsed.last() {
                Err(e) => Err(index_fault(e)),
                Ok(v) => match check(v) {
                    Some(f) => Err(f),
                    None => if has_key(map, v.key_of()) {
                        Err(IndexFault::DuplicateId { section, id: v.key_of() })
                    } else {
                        Ok(insert_sorted(map, v, key_order::<T>()))
                    },
                },
            },
        }
    }
}

pub open spec fn no_check<T>() -> spec_fn(T) -> Option<IndexFault> {
    |v: T| None
}

pub open spec fn unknown_location_fn(locs: Seq<LocationDef>) -> spec_fn(String) -> Option<Seq<char>> {
    |s: String|
        if has_key(locs, s@) {
            None
        } else {
            Some(s@)
        }
}

/// The first of `ids`, in order, that names no location.
pub open spec fn first_unknown(ids: Seq<String>, locs: Seq<LocationDef>) -> Option<Seq<char>> {
    first_some(ids, unknown_location_fn(locs))
}

pub open spec fn encounter_check(locs: Seq<LocationDef>) -> spec_fn(EncounterDef) -> Option<IndexFault> {
    |e: EncounterDef|
        match first_unknown(e.conditions.locations@, locs) {
            Some(l) => Some(IndexFault::UnknownEncounterLocation { encounter_id: e.id@, location_id: l }),
            None => None,
        }
}

pub open spec fn ending_check(locs: Seq<LocationDef>) -> spec_fn(EndingDef) -> Option<IndexFault> {
    |e: EndingDef|
        match first_unknown(e.conditions.locations@, locs) {
            Some(l) => Some(IndexFault::UnknownEndingLocation { ending_id: e.id@, location_id: l }),
            None => None,
        }
}

pub open spec fn connection_fn(locs: Seq<LocationDef>) -> spec_fn(LocationDef) -> Option<IndexFault> {
    |l: LocationDef|
        match first_unknown(l.connections@, locs) {
            Some(c) => Some(IndexFault::UnknownLocationConnection { location_id: l.id@, connected_location_id: c }),
            None => None,
        }
}

/// The first connection, location by location in id order, to a location
/// that does not exist.
pub open spec fn connection_fault(locs: Seq<LocationDef>) -> Option<IndexFault> {
    first_some(locs, connection_fn(locs))
}

/// Locations, then their connections, then items, encounters, endings,
/// achievements and secrets, each section built in bundle order.
pub open spec fn index_spec(p: ParsedContent) -> Result<IndexModel, IndexFault> {
    match build_section(p.locations@, "locations"@, no_check::<LocationDef>()) {
        Err(f) => Err(f),
        Ok(locations) => if connection_fault(locations) is Some {
            Err(connection_fault(locations)->0)
        } else {
            match build_section(p.items@, "items"@, no_check::<ItemDef>()) {
                Err(f) => Err(f),
                Ok(items) => match build_section(p.encounters@, "encounters"@, encounter_check(locations)) {
                    Err(f) => Err(f),
                    Ok(encounters) => match build_section(p.endings@, "endings"@, ending_check(locations)) {
                        Err(f) => Err(f),
                        Ok(endings) => match build_section(p.achievements@, "achievements"@, no_check::<AchievementDef>()) {
                            Err(f) => Err(f),
                            Ok(achievements) => match build_section(p.secrets@, "secrets"@, no_check::<PublicSecretDef>()) {
                                Err(f) => Err(f),
                                Ok(secrets) => Ok(IndexModel { locations, items, encounters, endings, achievements, secrets }),
                            },
                        },
                    },
                },
            }
        },
    }
}

fn first_unknown_location(ids: &Vec<String>, locs: &Vec<LocationDef>) -> (r: Option<usize>)
    ensures
        match r {
            Some(i) => i < ids@.len() && first_unknown(ids@, locs@) == Some(ids@[i as int]@),
            None => first_unknown(ids@, locs@) is None,
        },
{
    let ghost f = unknown_location_fn(locs@);
    let n = ids.len();
    let mut i: usize = 0;
    while i < n
        invariant
            n == ids@.len(),
            i <= n,
            f == unknown_location_fn(locs@),
            first_some(ids@.take(i as int), f) is None,
        decreases n - i,
    {
        proof {
            crate::order::lemma_first_some_step(ids@, i as int, f);
        }
        if find_index(locs, ids[i].as_str()).is_none() {
            proof {
                assert(f(ids@[i as int]) == Some(ids@[i as int]@));
                crate::order::lemma_first_some_prefix(ids@, i + 1, f);
            }
            return Some(i);
        }
        assert(f(ids@[i as int]) is None);
        i += 1;
    }
    proof {
        crate::order::lemma_first_some_all(ids@, f);
    }
    None
}

fn check_connections(locs: &Vec<LocationDef>) -> (r: Result<(), ContentIndexError>)
    ensures
        match connection_fault(locs@) {
            Some(f) => r matches Err(e) && index_fault(e) == f,
            None => r is Ok,
        },
{
    let ghost g = connection_fn(locs@);
    let n = locs.len();
    let mut i: usize = 0;
    while i < n
        invariant
            n == locs@.len(),
            i <= n,
            g == connection_fn(locs@),
            first_some(locs@.take(i as int), g) is None,
        decreases n - i,
    {
        proof {
            crate::order::lemma_first_some_step(locs@, i as int, g);
        }
        match first_unknown_location(&locs[i].connections, locs) {
            Some(k) => {
                proof {
                    crate::order::lemma_first_some_prefix(locs@, i + 1, g);
                }
                return Err(
                    ContentIndexError::UnknownLocationConnection {
                        location_id: locs[i].id.clone(),
                        connected_location_id: locs[i].connections[k].clone(),
                    },
                );
            },
            None => {},
        }
        i += 1;
    }
    proof {
        crate::order::lemma_first_some_all(locs@, g);
    }
    Ok(())
}

pub proof fn lemma_build_prefix_err<T: Keyed>(
    s: Seq<Result<T, ContentIndexError>>,
    i: int,
    section: Seq<char>,
    check: spec_fn(T) -> Option<IndexFault>,
)
    requires
        0 <= i <= s.len(),
        build_section(s.take(i), section, check) is Err,
    ensures
        build_section(s, section, check) == build_section(s.take(i), section, check),
    decreases s.len() - i,
{
    if i < s.len() {
        assert(s.take(i + 1).drop_last() =~= s.take(i));
        lemma_build_prefix_err(s, i + 1, section, check);
    } else {
        assert(s.take(i) =~= s);
    }
}

fn build_checked<T: Keyed, F: Fn(&T) -> Result<(), ContentIndexError>>(
    items: Vec<Result<T, ContentIndexError>>,
    section: &str,
    check: F,
    Ghost(cs): Ghost<spec_fn(T) -> Option<IndexFault>>,
) -> (r: Result<Vec<T>, ContentIndexError>)
    requires
        forall|x: &T| #[trigger] check.requires((x,)),
        forall|x: &T, e: Result<(), ContentIndexError>| #[trigger] check.ensures((x,), e) ==> match cs(*x) {
            Some(f) => e matches Err(err) && index_fault(err) == f,
            None => e is Ok,
        },
    ensures
        match build_section(items@, section@, cs) {
            Ok(m) => r matches Ok(v) && v@ == m && keys_sorted(m),
            Err(f) => r matches Err(e) && index_fault(e) == f,
        },
{
    let ghost orig = items@;
    let mut parsed = items;
    let mut map: Vec<T> = Vec::new();
    assert(orig.skip(0) =~= orig);
    let n = parsed.len();
    let mut i: usize = 0;
    while i < n
        invariant
            n == orig.len(),
            orig == items@,
            i <= n,
            parsed@ == orig.skip(i as int),
            build_section(orig.take(i as int), section@, cs) == Ok::<Seq<T>, IndexFault>(map@),
            keys_sorted(map@),
            forall|x: &T| #[trigger] check.requires((x,)),
            forall|x: &T, e: Result<(), ContentIndexError>| #[trigger] check.ensures((x,), e) ==> match cs(*x) {
                Some(f) => e matches Err(err) && index_fault(err) == f,
                None => e is Ok,
            },
        decreases n - i,
    {
        let ghost pre = orig.take(i + 1);
        assert(pre.drop_last() =~= orig.take(i as int));
        assert(pre.last() == orig[i as int]);
        let item = parsed.remove(0);
        assert(item == orig[i as int]);
        assert(parsed@ =~= orig.skip(i + 1));
        match item {
            Err(e) => {
                proof {
                    assert(build_section(pre, section@, cs) == Err::<Seq<T>, IndexFault>(index_fault(e)));
                    lemma_build_prefix_err(orig, i + 1, section@, cs);
                }
                return Err(e);
            },
            Ok(v) => {
                match check(&v) {
                    Err(e) => {
                        proof {
                            assert(build_section(pre, section@, cs) == Err::<Seq<T>, IndexFault>(index_fault(e)));
                            lemma_build_prefix_err(orig, i + 1, section@, cs);
                        }
                        return Err(e);
                    },
                    Ok(()) => {},
                }
                match insert_unique(section, &mut map, v) {
                    Err(e) => {
                        proof {
                            assert(build_section(pre, section@, cs) == Err::<Seq<T>, IndexFault>(index_fault(e)));
                            lemma_build_prefix_err(orig, i + 1, section@, cs);
                        }
                        return Err(e);
                    },
                    Ok(()) => {},
                }
            },
        }
        i += 1;
    }
    assert(orig.take(n as int) =~= orig);
    Ok(map)
}

fn locations_known(ids: &Vec<String>, locs: &Vec<LocationDef>) -> (r: Option<String>)
    ensures
        match first_unknown(ids@, locs@) {
            Some(l) => r matches Some(s) && s@ == l,
            None => r is None,
        },
{
    match first_unknown_location(ids, locs) {
        Some(i) => Some(ids[i].clone()),
        None => None,
    }
}

/// The content index of the parsed sections, or the first error met.
pub fn index_content_bundle(parsed: ParsedContent) -> (r: Result<ContentIndex, ContentIndexError>)
    ensures
        match index_spec(parsed) {
            Ok(m) => r matches Ok(ix) && ix@ == m,
            Err(f) => r matches Err(e) && index_fault(e) == f,
        },
{
    let ParsedContent { locations, items, encounters, endings, achievements, secrets } = parsed;
    let no_loc = |x: &LocationDef| -> (e: Result<(), ContentIndexError>)
        ensures
            e is Ok,
        { Ok(()) };
    let locations = build_checked(locations, "locations", no_loc, Ghost(no_check::<LocationDef>()))?;
    check_connections(&locations)?;
    let no_item = |x: &ItemDef| -> (e: Result<(), ContentIndexError>)
        ensures
            e is Ok,
        { Ok(()) };
    let items = build_checked(items, "items", no_item, Ghost(no_check::<ItemDef>()))?;
    let locs = &locations;
    let enc_check = |x: &EncounterDef| -> (e: Result<(), ContentIndexError>)
        ensures
            match encounter_check(locs@)(*x) {
                Some(f) => e matches Err(err) && index_fault(err) == f,
                None => e is Ok,
            },
        {
            match locations_known(&x.conditions.locations, locs) {
                Some(l) => Err(ContentIndexError::UnknownEncounterLocation { encounter_id: x.id.clone(), location_id: l }),
                None => Ok(()),
            }
        };
    let encounters = build_checked(encounters, "encounters", enc_check, Ghost(encounter_check(locations@)))?;
    let end_check = |x: &EndingDef| -> (e: Result<(), ContentIndexError>)
        ensures
            match ending_check(locs@)(*x) {
                Some(f) => e matches Err(err) && index_fault(err) == f,
                None => e is Ok,
            },
        {
            match locations_known(&x.conditions.locations, locs) {
                Some(l) => Err(ContentIndexError::UnknownEndingLocation { ending_id: x.id.clone(), location_id: l }),
                None => Ok(()),
            }
        };
    let endings = build_checked(endings, "endings", end_check, Ghost(ending_check(locations@)))?;
    let no_ach = |x: &AchievementDef| -> (e: Result<(), ContentIndexError>)
        ensures
            e is Ok,
        { Ok(()) };
    let achievements = build_checked(achievements, "achievements", no_ach, Ghost(no_check::<AchievementDef>()))?;
    let no_secret = |x: &PublicSecretDef| -> (e: Result<(), ContentIndexError>)
        ensures
            e is Ok,
        { Ok(()) };
    let secrets = build_checked(secrets, "secrets", no_secret, Ghost(no_check::<PublicSecretDef>()))?;
    Ok(ContentIndex { locations, items, encounters, endings, achievements, secrets })
}

impl ContentIndex {
    pub fn locations_len(&self) -> (n: usize)
        ensures
            n == self@.locations.len(),
    {
        self.locations.len()
    }

    pub fn items_len(&self) -> (n: usize)
        ensures
            n == self@.items.len(),
    {
        self.items.len()
    }

    pub fn encounters_len(&self) -> (n: usize)
        ensures
            n == self@.encounters.len(),
    {
        self.encounters.len()
    }

    pub fn endings_len(&self) -> (n: usize)
        ensures
            n == self@.endings.len(),
    {
        self.endings.len()
    }

    pub fn achievements_len(&self) -> (n: usize)
        ensures
            n == self@.achievements.len(),
    {
        self.achievements.len()
    }

    pub fn location(&self, id: &str) -> (r: Option<&LocationDef>)
        ensures
            match r {
                Some(x) => find_key(self@.locations, id@) == Some(*x),
                None => find_key(self@.locations, id@) is None,
            },
    {
        match find_index(&self.locations, id) {
            Some(i) => Some(&self.locations[i]),
            None => None,
        }
    }

    pub fn item(&self, id: &str) -> (r: Option<&ItemDef>)
        ensures
            match r {
                Some(x) => find_key(self@.items, id@) == Some(*x),
                None => find_key(self@.items, id@) is None,
            },
    {
        match find_index(&self.items, id) {
            Some(i) => Some(&self.items[i]),
            None => None,
        }
    }

    pub fn encounter(&self, id: &str) -> (r: Option<&EncounterDef>)
        ensures
            match r {
                Some(x) => find_key(self@.encounters, id@) == Some(*x),
                None => find_key(self@.encounters, id@) is None,
            },
    {
        match find_index(&self.encounters, id) {
            Some(i) => Some(&self.encounters[i]),
            None => None,
        }
    }

    pub fn ending(&self, id: &str) -> (r: Option<&EndingDef>)
        ensures
            match r {
                Some(x) => find_key(self@.endings, id@) == Some(*x),
                None => find_key(self@.endings, id@) is None,
            },
    {
        match find_index(&self.endings, id) {
            Some(i) => Some(&self.endings[i]),
            None => None,
        }
    }

    pub fn secret(&self, id: &str) -> (r: Option<&PublicSecretDef>)
        ensures
            match r {
                Some(x) => find_key(self@.secrets, id@) == Some(*x),
                None => find_key(self@.secrets, id@) is None,
            },
    {
        match find_index(&self.secrets, id) {
            Some(i) => Some(&self.secrets[i]),
            None => None,
        }
    }

    /// The encounters in ascending id order.
    pub fn encounters(&self) -> (r: &Vec<EncounterDef>)
        ensures
            r@ == self@.encounters,
    {
        &self.encounters
    }

    /// The items in ascending id order.
    pub fn items(&self) -> (r: &Vec<ItemDef>)
        ensures
            r@ == self@.items,
    {
        &self.items
    }

    /// The endings in ascending id order.
    pub fn endings(&self) -> (r: &Vec<EndingDef>)
        ensures
            r@ == self@.endings,
    {
        &self.endings
    }

    /// The achievements in ascending id order.
    pub fn achievements(&self) -> (r: &Vec<AchievementDef>)
        ensures
            r@ == self@.achievements,
    {
        &self.achievements
    }
}

// ---------------------------------------------------------------- bundle

/// A secret entry as it stands in a bundle before parsing: when it is a
/// JSON object, its `id` text (if it has one) and its field names.
#[derive(Clone, Debug, PartialEq, Eq)]
pub struct SecretObject {
    pub id: Option<String>,
    pub field_names: Vec<String>,
}

/// A content bundle's header and what its validation reads of its secrets.
#[derive(Clone, Debug, PartialEq, Eq)]
pub struct ContentBundle {
    pub schema_version: u32,
    pub kind: String,
    pub source: String,
    pub runtime: Option<RuntimeMetadata>,
    pub manifest: ContentManifest,
    /// One entry per secret, `None` for one that is not a JSON object.
    pub secrets: Vec<Option<SecretObject>>,
}

pub enum BundleFault {
    Json(Seq<char>),
    UnsupportedSchemaVersion(u32),
    UnsupportedKind(Seq<char>),
    PrivateSecretField { secret_id: Seq<char>, field: Seq<char> },
}

pub open spec fn bundle_fault_of(e: ContentBundleError) -> BundleFault {
    match e {
        ContentBundleError::Json(m) => BundleFault::Json(m@),
        ContentBundleError::UnsupportedSchemaVersion(v) => BundleFault::UnsupportedSchemaVersion(v),
        ContentBundleError::UnsupportedKind(k) => BundleFault::UnsupportedKind(k@),
        ContentBundleError::PrivateSecretField { secret_id, field } => BundleFault::PrivateSecretField {
            secret_id: secret_id@,
            field: field@,
        },
    }
}

/// Fields a public secret must never carry, in the order they are checked.
pub open spec fn private_secret_fields() -> Seq<Seq<char>> {
    seq!["final_hint"@, "actual_ip_address"@, "office_location"@, "treasure_location"@]
}

pub open spec fn private_field_fn(o: SecretObject) -> spec_fn(Seq<char>) -> Option<BundleFault> {
    |f: Seq<char>|
        if texts(o.field_names@).contains(f) {
            Some(
                BundleFault::PrivateSecretField {
                    secret_id: match o.id {
                        Some(i) => i@,
                        None => "<missing>"@,
                    },
                    field: f,
                },
            )
        } else {
            None
        }
}

pub open spec fn secret_fault_fn() -> spec_fn(Option<SecretObject>) -> Option<BundleFault> {
    |o: Option<SecretObject>|
        match o {
            Some(obj) => first_some(private_secret_fields(), private_field_fn(obj)),
            None => None,
        }
}

/// The schema version, then the kind, then the first private field of the
/// first secret that has one.
pub open spec fn bundle_fault(b: ContentBundle) -> Option<BundleFault> {
    if b.schema_version != CONTENT_BUNDLE_SCHEMA_VERSION {
        Some(BundleFault::UnsupportedSchemaVersion(b.schema_version))
    } else if b.kind@ != CONTENT_BUNDLE_KIND@ {
        Some(BundleFault::UnsupportedKind(b.kind@))
    } else {
        first_some(b.secrets@, secret_fault_fn())
    }
}

fn private_field_check(o: &SecretObject) -> (r: Result<(), ContentBundleError>)
    ensures
        match first_some(private_secret_fields(), private_field_fn(*o)) {
            Some(f) => r matches Err(e) && bundle_fault_of(e) == f,
            None => r is Ok,
        },
{
    let names = ["final_hint", "actual_ip_address", "office_location", "treasure_location"];
    assert(names@.map_values(|x: &str| x@) =~= private_secret_fields());
    let ghost g = private_field_fn(*o);
    let ghost fs = private_secret_fields();
    let mut i: usize = 0;
    while i < 4
        invariant
            i <= 4,
            names@.map_values(|x: &str| x@) == fs,
            fs == private_secret_fields(),
            g == private_field_fn(*o),
            first_some(fs.take(i as int), g) is None,
        decreases 4 - i,
    {
        proof {
            crate::order::lemma_first_some_step(fs, i as int, g);
            assert(fs[i as int] == names@[i as int]@);
        }
        if crate::final_epilogue::audit::text_listed(&o.field_names, names[i]) {
            proof {
                crate::order::lemma_first_some_prefix(fs, i + 1, g);
            }
            let secret_id = match &o.id {
                Some(x) => x.clone(),
                None => "<missing>".to_string(),
            };
            return Err(ContentBundleError::PrivateSecretField { secret_id, field: names[i].to_string() });
        }
        i += 1;
    }
    proof {
        crate::order::lemma_first_some_all(fs, g);
    }
    Ok(())
}

pub fn validate_content_bundle(bundle: &ContentBundle) -> (r: Result<(), ContentBundleError>)
    ensures
        match bundle_fault(*bundle) {
            Some(f) => r matches Err(e) && bundle_fault_of(e) == f,
            None => r is Ok,
        },
{
    if bundle.schema_version != CONTENT_BUNDLE_SCHEMA_VERSION {
        return Err(ContentBundleError::UnsupportedSchemaVersion(bundle.schema_version));
    }
    if !str_eq(bundle.kind.as_str(), CONTENT_BUNDLE_KIND) {
        return Err(ContentBundleError::UnsupportedKind(bundle.kind.clone()));
    }
    let ghost g = secret_fault_fn();
    let ss = &bundle.secrets;
    let n = ss.len();
    let mut i: usize = 0;
    while i < n
        invariant
            n == ss@.len(),
            ss@ == bundle.secrets@,
            bundle.schema_version == CONTENT_BUNDLE_SCHEMA_VERSION,
            bundle.kind@ == CONTENT_BUNDLE_KIND@,
            i <= n,
            g == secret_fault_fn(),
            first_some(ss@.take(i as int), g) is None,
        decreases n - i,
    {
        proof {
            crate::order::lemma_first_some_step(ss@, i as int, g);
        }
        match &ss[i] {
            Some(obj) => {
                proof {
                    assert(g(ss@[i as int]) == first_some(private_secret_fields(), private_field_fn(*obj)));
                }
                match private_field_check(obj) {
                    Err(e) => {
                        proof {
                            crate::order::lemma_first_some_prefix(ss@, i + 1, g);
                        }
                        return Err(e);
                    },
                    Ok(()) => {},
                }
            },
            None => {
                assert(g(ss@[i as int]) is None);
            },
        }
        i += 1;
    }
    proof {
        crate::order::lemma_first_some_all(ss@, g);
    }
    Ok(())
}


pub open spec fn bundle_error_text(e: ContentBundleError) -> Seq<char> {
    match e {
        ContentBundleError::Json(m) => "invalid content bundle JSON: "@ + m@,
        ContentBundleError::UnsupportedSchemaVersion(v) => "unsupported content bundle schema version: "@
            + crate::text::dec_text(v as nat),
        ContentBundleError::UnsupportedKind(k) => "unsupported content bundle kind: "@ + k@,
        ContentBundleError::PrivateSecretField { secret_id, field } => "public secret "@ + secret_id@
            + " has private-only field: "@ + field@,
    }
}

impl ContentBundleError {
    /// The error as a sentence.
    pub fn message(&self) -> (r: String)
        ensures
            r@ == bundle_error_text(*self),
    {
        let mut t = String::new();
        match self {
            ContentBundleError::Json(m) => {
                t.append("invalid content bundle JSON: ");
                t.append(m.as_str());
            },
            ContentBundleError::UnsupportedSchemaVersion(v) => {
                t.append("unsupported content bundle schema version: ");
                crate::text::append_u64(&mut t, *v as u64);
            },
            ContentBundleError::UnsupportedKind(k) => {
                t.append("unsupported content bundle kind: ");
                t.append(k.as_str());
            },
            ContentBundleError::PrivateSecretField { secret_id, field } => {
                t.append("public secret ");
                t.append(secret_id.as_str());
                t.append(" has private-only field: ");
                t.append(field.as_str());
            },
        }
        assert(t@ =~= bundle_error_text(*self));
        t
    }
}

pub open spec fn index_error_text(e: ContentIndexError) -> Seq<char> {
    match e {
        ContentIndexError::InvalidSectionItem { section, id, message } => match id {
            Some(i) => "invalid "@ + section@ + " item "@ + i@ + ": "@ + message@,
            None => "invalid "@ + section@ + " item: "@ + message@,
        },
        ContentIndexError::DuplicateId { section, id } => "duplicate "@ + section@ + " id: "@ + id@,
        ContentIndexError::UnknownLocationConnection { location_id, connected_location_id } => "location "@
            + location_id@ + " references unknown connection: "@ + connected_location_id@,
        ContentIndexError::UnknownEncounterLocation { encounter_id, location_id } => "encounter "@ + encounter_id@
            + " references unknown location: "@ + location_id@,
        ContentIndexError::UnknownEndingLocation { ending_id, location_id } => "ending "@ + ending_id@
            + " references unknown location: "@ + location_id@,
    }
}

impl ContentIndexError {
    /// The error as a sentence.
    pub fn message(&self) -> (r: String)
        ensures
            r@ == index_error_text(*self),
    {
        let mut t = String::new();
        match self {
            ContentIndexError::InvalidSectionItem { section, id, message } => {
                t.append("invalid ");
                t.append(section.as_str());
                match id {
                    Some(i) => {
                        t.append(" item ");
                        t.append(i.as_str());
                        t.append(": ");
                    },
                    None => {
                        t.append(" item: ");
                    },
                }
                t.append(message.as_str());
            },
            ContentIndexError::DuplicateId { section, id } => {
                t.append("duplicate ");
                t.append(section.as_str());
                t.append(" id: ");
                t.append(id.as_str());
            },
            ContentIndexError::UnknownLocationConnection { location_id, connected_location_id } => {
                t.append("location ");
                t.append(location_id.as_str());
                t.append(" references unknown connection: ");
                t.append(connected_location_id.as_str());
            },
            ContentIndexError::UnknownEncounterLocation { encounter_id, location_id } => {
                t.append("encounter ");
                t.append(encounter_id.as_str());
                t.append(" references unknown location: ");
                t.append(location_id.as_str());
            },
            ContentIndexError::UnknownEndingLocation { ending_id, location_id } => {
                t.append("ending ");
                t.append(ending_id.as_str());
                t.append(" references unknown location: ");
                t.append(location_id.as_str());
            },
        }
        assert(t@ =~= index_error_text(*self));
        t
    }
}

} // verus!
