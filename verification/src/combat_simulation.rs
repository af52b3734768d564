//! The tick-by-tick movement simulation: who targets whom, who moves where,
//! and the footprints that large units occupy on the hex board.
use vstd::prelude::*;
use vstd::utf8::encode_utf8;
use crate::combat_contract::{
    ensure_supported_simulation_version, manifest_check, CombatManifest, CURRENT_SIMULATION_VERSION,
};
use crate::combat_hex::{
    canonical_shape, compare_hex, first_dup, hex_distance, hex_lt, line, neighbor_dir,
    neighbor_directions, offset_by, offset_fits, HexCoord, HexError, HexOccupancy, HexShape,
};
use crate::combat_hex::{any_taken, occupy_map};
use crate::combat_state::{state_check, CombatState};
use crate::json::{
    enc, json_array, json_array_sorted, json_view, json_view_fields, jstr, opt_str_json, push_field,
    push_item, str_json, to_bytes, Json, JsonValue,
};
use crate::order::{compare_str, first_err, lemma_first_err_prefix, lemma_first_err_step, sort_by_order, sort_seq, str_ord};
use crate::text::{blank, fingerprint_bytes, fingerprint_of, is_blank, str_eq};

verus! {

/// The gauge a cadence must fill before its action fires (100.00 in hundredths).
pub const ACTION_THRESHOLD_HUNDREDTHS: i64 = 10_000;

#[derive(Clone, Copy, Debug, PartialEq, Eq, Structural)]
pub struct CombatSimulationConfig {
    pub tick_millis: u32,
    pub max_ticks: u32,
}

#[derive(Clone, Copy, Debug, PartialEq, Eq, Structural)]
pub enum CombatSide {
    Ally,
    Enemy,
}

#[derive(Clone, Copy, Debug, PartialEq, Eq, Structural)]
pub struct CombatRoleWeights {
    pub preferred_distance: i32,
    pub aggression: i32,
    pub formation_maintenance: i32,
    pub pursuit_range: i32,
    pub protect_priority: i32,
    pub target_priority: i32,
    pub risk_tolerance: i32,
    pub ability_priority: i32,
}

#[derive(Debug, PartialEq, Eq)]
pub struct CombatRolePreset {
    pub id: String,
    pub weights: CombatRoleWeights,
}

impl Clone for CombatRolePreset {
    fn clone(&self) -> (r: Self)
        ensures
            r == *self,
    {
        CombatRolePreset { id: self.id.clone(), weights: self.weights }
    }
}

#[derive(Debug, PartialEq, Eq)]
pub struct CombatTargetPreference {
    pub target_id: String,
    pub priority: i32,
}

impl Clone for CombatTargetPreference {
    fn clone(&self) -> (r: Self)
        ensures
            r == *self,
    {
        CombatTargetPreference { target_id: self.target_id.clone(), priority: self.priority }
    }
}

#[derive(Clone, Copy, Debug, PartialEq, Eq, Structural)]
pub enum CombatTargetFallback {
    Nearest,
}

#[derive(Debug, PartialEq, Eq)]
pub struct CombatTargetPolicy {
    pub id: String,
    pub preferences: Vec<CombatTargetPreference>,
    pub fallback: CombatTargetFallback,
}

impl Clone for CombatTargetPolicy {
    fn clone(&self) -> (r: Self)
        ensures
            r.id == self.id,
            r.preferences@ == self.preferences@,
            r.fallback == self.fallback,
    {
        let p = self.preferences.clone();
        assert(p@ =~= self.preferences@);
        CombatTargetPolicy { id: self.id.clone(), preferences: p, fallback: self.fallback }
    }
}

#[derive(Debug, PartialEq, Eq)]
pub struct CombatSimulationParticipant {
    pub id: String,
    pub side: CombatSide,
    pub position: HexCoord,
    pub facing: HexCoord,
    /// Tiles covered by one movement action.
    pub speed_per_tick: i32,
    /// How fast the movement gauge fills; `None` acts every tick.
    pub move_speed_hundredths: Option<i64>,
    pub collision_radius: i32,
    pub attack_range: i32,
    pub support_range: i32,
    pub role_id: String,
    pub target_policy_id: Option<String>,
    pub active: bool,
    /// Footprint offsets from `position`; empty means the one tile.
    pub occupies: Vec<HexCoord>,
}

/// `a` holds the same values as `b`.
pub open spec fn same_participant(a: CombatSimulationParticipant, b: CombatSimulationParticipant) -> bool {
    &&& a.id == b.id
    &&& a.side == b.side
    &&& a.position == b.position
    &&& a.facing == b.facing
    &&& a.speed_per_tick == b.speed_per_tick
    &&& a.move_speed_hundredths == b.move_speed_hundredths
    &&& a.collision_radius == b.collision_radius
    &&& a.attack_range == b.attack_range
    &&& a.support_range == b.support_range
    &&& a.role_id == b.role_id
    &&& a.target_policy_id == b.target_policy_id
    &&& a.active == b.active
    &&& a.occupies@ == b.occupies@
}

impl Clone for CombatSimulationParticipant {
    fn clone(&self) -> (r: Self)
        ensures
            same_participant(r, *self),
    {
        let occupies = self.occupies.clone();
        assert(occupies@ =~= self.occupies@);
        CombatSimulationParticipant {
            id: self.id.clone(),
            side: self.side,
            position: self.position,
            facing: self.facing,
            speed_per_tick: self.speed_per_tick,
            move_speed_hundredths: self.move_speed_hundredths,
            collision_radius: self.collision_radius,
            attack_range: self.attack_range,
            support_range: self.support_range,
            role_id: self.role_id.clone(),
            target_policy_id: self.target_policy_id.clone(),
            active: self.active,
            occupies,
        }
    }
}

#[derive(Clone, Copy, Debug, PartialEq, Eq, Structural)]
pub enum CombatMoveMode {
    Hold,
    Advance,
    Retreat,
}

#[derive(Debug, PartialEq, Eq)]
pub struct CombatMoveIntent {
    pub actor_id: String,
    pub target_id: Option<String>,
    pub from: HexCoord,
    pub to: HexCoord,
    pub mode: CombatMoveMode,
}

impl Clone for CombatMoveIntent {
    fn clone(&self) -> (r: Self)
        ensures
            r == *self,
    {
        CombatMoveIntent {
            actor_id: self.actor_id.clone(),
            target_id: self.target_id.clone(),
            from: self.from,
            to: self.to,
            mode: self.mode,
        }
    }
}

/// One tick of movement. `positions` maps each participant id to its tile,
/// in ascending id order.
#[derive(Debug, PartialEq, Eq)]
pub struct CombatTickFrame {
    pub tick: u32,
    pub moves: Vec<CombatMoveIntent>,
    pub positions: Vec<(String, HexCoord)>,
    pub fingerprint: String,
}

fn copy_moves(v: &Vec<CombatMoveIntent>) -> (r: Vec<CombatMoveIntent>)
    ensures
        r@ == v@,
{
    let mut out: Vec<CombatMoveIntent> = Vec::new();
    let n = v.len();
    let mut i: usize = 0;
    while i < n
        invariant
            n == v@.len(),
            i <= n,
            out@ == v@.take(i as int),
        decreases n - i,
    {
        out.push(v[i].clone());
        assert(out@ =~= v@.take(i + 1));
        i += 1;
    }
    assert(v@.take(n as int) =~= v@);
    out
}

fn copy_positions(v: &Vec<(String, HexCoord)>) -> (r: Vec<(String, HexCoord)>)
    ensures
        r@ == v@,
{
    let mut out: Vec<(String, HexCoord)> = Vec::new();
    let n = v.len();
    let mut i: usize = 0;
    while i < n
        invariant
            n == v@.len(),
            i <= n,
            out@ == v@.take(i as int),
        decreases n - i,
    {
        out.push((v[i].0.clone(), v[i].1));
        assert(out@ =~= v@.take(i + 1));
        i += 1;
    }
    assert(v@.take(n as int) =~= v@);
    out
}

impl Clone for CombatTickFrame {
    fn clone(&self) -> (r: Self)
        ensures
            r.tick == self.tick,
            r.moves@ == self.moves@,
            r.positions@ == self.positions@,
            r.fingerprint == self.fingerprint,
    {
        CombatTickFrame {
            tick: self.tick,
            moves: copy_moves(&self.moves),
            positions: copy_positions(&self.positions),
            fingerprint: self.fingerprint.clone(),
        }
    }
}

#[derive(Clone, Debug, PartialEq, Eq)]
pub struct CombatSimulationInput {
    pub manifest: CombatManifest,
    pub state: CombatState,
    pub seed: u64,
    pub config: CombatSimulationConfig,
    pub participants: Vec<CombatSimulationParticipant>,
    pub roles: Vec<CombatRolePreset>,
    pub policies: Vec<CombatTargetPolicy>,
}

#[derive(Clone, Debug, PartialEq, Eq)]
pub enum CombatSimulationError {
    EmptyId,
    InvalidConfig,
    InvalidParticipant(String),
    InvalidRole(String),
    InvalidFacing(String),
    InvalidRange,
    Overflow,
    ParticipantLimit,
    DuplicateId(String),
    /// Two active participants were set to start on the same tile.
    DuplicateStartingPosition(HexCoord),
    /// Two active participants shared a tile when a tick began.
    OccupancyInvariantViolated(HexCoord),
    /// A footprint without the `(0,0)` offset.
    FootprintMissingAnchor(String),
    /// A footprint whose tiles are not one connected blob.
    DisconnectedFootprint(String),
    MissingReference(String),
    InvalidReference,
    MaxTicksExceeded,
    Serialization,
    /// The manifest's simulation version is not the one this build implements.
    UnsupportedSimulationVersion(String),
    /// Hex arithmetic refused a value.
    HexMath(HexError),
}

/// `Ok` unless `id` is blank.
pub fn ensure_id(id: &str) -> (r: Result<(), CombatSimulationError>)
    ensures
        r is Ok <==> !blank(id@),
        r is Err ==> r == Err::<(), CombatSimulationError>(CombatSimulationError::EmptyId),
{
    if is_blank(id) {
        Err(CombatSimulationError::EmptyId)
    } else {
        Ok(())
    }
}

/// The tiles a footprint covers with its anchor at `anchor`: the anchor alone
/// for an empty offset list, else the shape's tiles in tile order.
pub open spec fn footprint_spec(anchor: HexCoord, occupies: Seq<HexCoord>) -> Result<Seq<HexCoord>, HexError> {
    if occupies.len() == 0 {
        Ok(seq![anchor])
    } else if first_dup(occupies) is Some {
        Err(HexError::DuplicateOffset(first_dup(occupies)->0))
    } else if !(forall|k: int|
        0 <= k < occupies.len() ==> offset_fits(
            anchor,
            (#[trigger] canonical_shape(occupies)[k]).q as int,
            canonical_shape(occupies)[k].r as int,
        )) {
        Err(HexError::Overflow)
    } else {
        Ok(canonical_shape(occupies).map_values(|o: HexCoord| offset_by(anchor, o.q as int, o.r as int)))
    }
}

/// The tiles a participant's footprint covers with its anchor at `anchor`.
pub fn footprint_tiles(anchor: HexCoord, occupies: &Vec<HexCoord>) -> (r: Result<Vec<HexCoord>, HexError>)
    ensures
        match footprint_spec(anchor, occupies@) {
            Ok(t) => r is Ok && r->Ok_0@ == t,
            Err(e) => r == Err::<Vec<HexCoord>, HexError>(e),
        },
{
    if occupies.len() == 0 {
        let v = vec![anchor];
        assert(v@ =~= seq![anchor]);
        return Ok(v);
    }
    let copy = occupies.clone();
    assert(copy@ =~= occupies@);
    let shape = HexShape::new(copy)?;
    let tiles = shape.tiles_at(anchor)?;
    proof {
        assert(tiles@ =~= canonical_shape(occupies@).map_values(
            |o: HexCoord| offset_by(anchor, o.q as int, o.r as int),
        ));
    }
    Ok(tiles)
}

/// The least distance between a tile of `a` and a tile of `b`.
pub open spec fn min_pair_distance(a: Seq<HexCoord>, b: Seq<HexCoord>, d: int) -> bool {
    &&& exists|i: int, j: int| 0 <= i < a.len() && 0 <= j < b.len() && hex_distance(a[i], b[j]) == d
    &&& forall|i: int, j: int| 0 <= i < a.len() && 0 <= j < b.len() ==> d <= hex_distance(#[trigger] a[i], #[trigger] b[j])
}

/// The distance between two footprints: the least distance between any tile
/// of one and any tile of the other.
pub fn footprint_distance(
    a_anchor: HexCoord,
    a_occupies: &Vec<HexCoord>,
    b_anchor: HexCoord,
    b_occupies: &Vec<HexCoord>,
) -> (r: Result<i64, HexError>)
    ensures
        footprint_spec(a_anchor, a_occupies@) is Err ==> r == Err::<i64, HexError>(footprint_spec(a_anchor, a_occupies@)->Err_0),
        footprint_spec(a_anchor, a_occupies@) is Ok && footprint_spec(b_anchor, b_occupies@) is Err ==> r == Err::<i64, HexError>(footprint_spec(b_anchor, b_occupies@)->Err_0),
        footprint_spec(a_anchor, a_occupies@) is Ok && footprint_spec(b_anchor, b_occupies@) is Ok ==> r is Ok && min_pair_distance(
            footprint_spec(a_anchor, a_occupies@)->Ok_0,
            footprint_spec(b_anchor, b_occupies@)->Ok_0,
            r->Ok_0 as int,
        ),
{
    let a_tiles = footprint_tiles(a_anchor, a_occupies)?;
    let b_tiles = footprint_tiles(b_anchor, b_occupies)?;
    proof {
        if a_occupies@.len() > 0 {
            crate::order::lemma_sort_seq_elems(a_occupies@, crate::combat_hex::hex_order_fn());
        }
        if b_occupies@.len() > 0 {
            crate::order::lemma_sort_seq_elems(b_occupies@, crate::combat_hex::hex_order_fn());
        }
    }
    assert(a_tiles@.len() > 0);
    assert(b_tiles@.len() > 0);
    let mut best: i64 = a_tiles[0].distance(b_tiles[0]);
    let ghost mut bi: int = 0;
    let ghost mut bj: int = 0;
    let n = a_tiles.len();
    let m = b_tiles.len();
    let mut i: usize = 0;
    while i < n
        invariant
            n == a_tiles@.len(),
            m == b_tiles@.len(),
            m > 0,
            i <= n,
            0 <= bi < n,
            0 <= bj < m,
            best == hex_distance(a_tiles@[bi], b_tiles@[bj]),
            forall|x: int, y: int| 0 <= x < i && 0 <= y < m ==> best <= hex_distance(#[trigger] a_tiles@[x], #[trigger] b_tiles@[y]),
        decreases n - i,
    {
        let mut j: usize = 0;
        while j < m
            invariant
                n == a_tiles@.len(),
                m == b_tiles@.len(),
                i < n,
                j <= m,
                0 <= bi < n,
                0 <= bj < m,
                best == hex_distance(a_tiles@[bi], b_tiles@[bj]),
                forall|x: int, y: int| 0 <= x < i && 0 <= y < m ==> best <= hex_distance(#[trigger] a_tiles@[x], #[trigger] b_tiles@[y]),
                forall|y: int| 0 <= y < j ==> best <= hex_distance(a_tiles@[i as int], #[trigger] b_tiles@[y]),
            decreases m - j,
        {
            let d = a_tiles[i].distance(b_tiles[j]);
            if d < best {
                best = d;
                proof {
                    bi = i as int;
                    bj = j as int;
                }
            }
            j += 1;
        }
        i += 1;
    }
    Ok(best)
}

/// `other` reflected through `anchor`: `2 * anchor - other`, refused outside `i32`.
pub fn reflect_through(anchor: HexCoord, other: HexCoord) -> (r: Result<HexCoord, CombatSimulationError>)
    ensures
        offset_fits(anchor, anchor.q - other.q, anchor.r - other.r) ==> r == Ok::<HexCoord, CombatSimulationError>(
            offset_by(anchor, anchor.q - other.q, anchor.r - other.r),
        ),
        !offset_fits(anchor, anchor.q - other.q, anchor.r - other.r) ==> r == Err::<HexCoord, CombatSimulationError>(
            CombatSimulationError::Overflow,
        ),
{
    let q = 2 * (anchor.q as i64) - other.q as i64;
    let r = 2 * (anchor.r as i64) - other.r as i64;
    if q < i32::MIN as i64 || q > i32::MAX as i64 || r < i32::MIN as i64 || r > i32::MAX as i64 {
        return Err(CombatSimulationError::Overflow);
    }
    Ok(HexCoord { q: q as i32, r: r as i32 })
}

/// The offsets reachable from `(0,0)` within `k` adjacency steps inside `s`.
pub open spec fn reach(s: Seq<HexCoord>, k: nat) -> Set<HexCoord>
    decreases k,
{
    if k == 0 {
        set![HexCoord { q: 0, r: 0 }]
    } else {
        reach(s, (k - 1) as nat).union(
            Set::new(
                |x: HexCoord|
                    s.contains(x) && exists|y: HexCoord| #[trigger] reach(s, (k - 1) as nat).contains(y) && hex_distance(x, y) == 1,
            ),
        )
    }
}

/// Whether every offset of `s` is reachable from `(0,0)` through adjacent
/// offsets of `s`.
pub open spec fn connected(s: Seq<HexCoord>) -> bool {
    forall|i: int| 0 <= i < s.len() ==> #[trigger] reach(s, s.len()).contains(s[i])
}

fn vec_has(v: &Vec<HexCoord>, c: HexCoord) -> (r: bool)
    ensures
        r == v@.contains(c),
{
    let n = v.len();
    let mut i: usize = 0;
    while i < n
        invariant
            n == v@.len(),
            i <= n,
            forall|k: int| 0 <= k < i ==> v@[k] != c,
        decreases n - i,
    {
        if v[i] == c {
            return true;
        }
        i += 1;
    }
    false
}

/// Whether the offsets form one connected blob around `(0,0)`, grown one
/// adjacency layer per round.
pub fn footprint_is_connected(offsets: &Vec<HexCoord>) -> (r: bool)
    ensures
        r == connected(offsets@),
{
    let s = offsets;
    let n = s.len();
    let mut visited: Vec<HexCoord> = vec![HexCoord { q: 0, r: 0 }];
    proof {
        assert(visited@.to_set() =~= reach(s@, 0));
    }
    let mut round: usize = 0;
    while round < n
        invariant
            n == s@.len(),
            s@ == offsets@,
            round <= n,
            visited@.to_set() == reach(s@, round as nat),
        decreases n - round,
    {
        let ghost prev = visited@;
        let mut next: Vec<HexCoord> = visited.clone();
        assert(next@ =~= prev);
        let mut i: usize = 0;
        while i < n
            invariant
                n == s@.len(),
                i <= n,
                prev.to_set() == reach(s@, round as nat),
                visited@ == prev,
                forall|x: HexCoord| #[trigger] next@.contains(x) ==> prev.contains(x) || (s@.contains(x)
                    && exists|y: HexCoord| #[trigger] prev.contains(y) && hex_distance(x, y) == 1),
                forall|x: HexCoord| #[trigger] prev.contains(x) ==> next@.contains(x),
                forall|k: int|
                    0 <= k < i && (exists|y: HexCoord| #[trigger] prev.contains(y) && hex_distance(s@[k], y) == 1)
                        ==> next@.contains(#[trigger] s@[k]),
            decreases n - i,
        {
            let c = s[i];
            let mut adjacent = false;
            let m = visited.len();
            let mut j: usize = 0;
            while j < m
                invariant
                    m == visited@.len(),
                    visited@ == prev,
                    j <= m,
                    adjacent ==> exists|y: HexCoord| #[trigger] prev.contains(y) && hex_distance(c, y) == 1,
                    !adjacent ==> forall|t: int| 0 <= t < j ==> hex_distance(c, #[trigger] prev[t]) != 1,
                decreases m - j,
            {
                if c.is_adjacent(visited[j]) {
                    assert(prev.contains(prev[j as int]));
                    adjacent = true;
                }
                j += 1;
            }
            proof {
                if !adjacent {
                    assert forall|y: HexCoord| #[trigger] prev.contains(y) implies hex_distance(c, y) != 1 by {
                        let t = choose|t: int| 0 <= t < prev.len() && prev[t] == y;
                    }
                }
            }
            if adjacent && !vec_has(&next, c) {
                let ghost old_next = next@;
                next.push(c);
                proof {
                    assert forall|x: HexCoord| #[trigger] next@.contains(x) implies old_next.contains(x) || x == c by {
                        let t = choose|t: int| 0 <= t < next@.len() && next@[t] == x;
                        if t < old_next.len() {
                            assert(old_next[t] == x);
                        }
                    }
                    assert forall|x: HexCoord| #[trigger] old_next.contains(x) implies next@.contains(x) by {
                        let t = choose|t: int| 0 <= t < old_next.len() && old_next[t] == x;
                        assert(next@[t] == x);
                    }
                    assert(next@[old_next.len() as int] == c);
                }
            }
            proof {
                assert(s@.contains(c)) by {
                    assert(s@[i as int] == c);
                }
            }
            i += 1;
        }
        proof {
            assert forall|x: HexCoord| #[trigger] next@.to_set().contains(x) == reach(s@, (round + 1) as nat).contains(x) by {
                if next@.contains(x) {
                    if !prev.contains(x) {
                        let y = choose|y: HexCoord| #[trigger] prev.contains(y) && hex_distance(x, y) == 1;
                        assert(reach(s@, round as nat).contains(y));
                    }
                }
                if reach(s@, (round + 1) as nat).contains(x) {
                    if !reach(s@, round as nat).contains(x) {
                        let y = choose|y: HexCoord| #[trigger] reach(s@, round as nat).contains(y) && hex_distance(x, y) == 1;
                        assert(prev.contains(y));
                        let k = choose|k: int| 0 <= k < s@.len() && s@[k] == x;
                        assert(next@.contains(s@[k]));
                    }
                }
            }
            assert(next@.to_set() =~= reach(s@, (round + 1) as nat));
        }
        visited = next;
        round += 1;
    }
    let mut k: usize = 0;
    while k < n
        invariant
            n == s@.len(),
            s@ == offsets@,
            k <= n,
            visited@.to_set() == reach(s@, n as nat),
            forall|t: int| 0 <= t < k ==> #[trigger] reach(s@, n as nat).contains(s@[t]),
        decreases n - k,
    {
        if !vec_has(&visited, s[k]) {
            proof {
                assert(!visited@.to_set().contains(s@[k as int]));
                assert(!reach(s@, s@.len()).contains(s@[k as int]));
                assert(!connected(offsets@)) by {
                    assert(0 <= k < offsets@.len());
                    assert(!reach(offsets@, offsets@.len()).contains(offsets@[k as int]));
                }
            }
            return false;
        }
        proof {
            assert(visited@.to_set().contains(s@[k as int]));
        }
        k += 1;
    }
    true
}


/// What `participant_footprint` answers for a participant.
pub open spec fn participant_footprint_spec(p: CombatSimulationParticipant) -> Result<Seq<HexCoord>, CombatSimulationError> {
    if p.occupies@.len() == 0 {
        Ok(seq![p.position])
    } else if !p.occupies@.contains(HexCoord { q: 0, r: 0 }) {
        Err(CombatSimulationError::FootprintMissingAnchor(p.id))
    } else if first_dup(p.occupies@) is Some {
        Err(CombatSimulationError::HexMath(HexError::DuplicateOffset(first_dup(p.occupies@)->0)))
    } else if !connected(p.occupies@) {
        Err(CombatSimulationError::DisconnectedFootprint(p.id))
    } else {
        match footprint_spec(p.position, p.occupies@) {
            Ok(t) => Ok(t),
            Err(e) => Err(CombatSimulationError::HexMath(e)),
        }
    }
}

/// Checks a participant's footprint and gives the tiles it covers.
pub fn participant_footprint(p: &CombatSimulationParticipant) -> (r: Result<Vec<HexCoord>, CombatSimulationError>)
    ensures
        match participant_footprint_spec(*p) {
            Ok(t) => r is Ok && r->Ok_0@ == t,
            Err(e) => r == Err::<Vec<HexCoord>, CombatSimulationError>(e),
        },
{
    if p.occupies.len() == 0 {
        let v = vec![p.position];
        assert(v@ =~= seq![p.position]);
        return Ok(v);
    }
    let origin = HexCoord { q: 0, r: 0 };
    if !vec_has(&p.occupies, origin) {
        return Err(CombatSimulationError::FootprintMissingAnchor(p.id.clone()));
    }
    let copy = p.occupies.clone();
    assert(copy@ =~= p.occupies@);
    let shape = match HexShape::new(copy) {
        Ok(s) => s,
        Err(e) => {
            return Err(CombatSimulationError::HexMath(e));
        },
    };
    if !footprint_is_connected(&p.occupies) {
        return Err(CombatSimulationError::DisconnectedFootprint(p.id.clone()));
    }
    match shape.tiles_at(p.position) {
        Ok(t) => {
            proof {
                assert(t@ =~= canonical_shape(p.occupies@).map_values(
                    |o: HexCoord| offset_by(p.position, o.q as int, o.r as int),
                ));
            }
            Ok(t)
        },
        Err(e) => Err(CombatSimulationError::HexMath(e)),
    }
}

/// Walks `path[1..=max_index]` and stops before the first anchor whose
/// footprint touches a tile held by someone other than `mover_id`; the last
/// free anchor (or `path[0]`) is where the mover ends.
pub fn first_free_tile_along(
    path: &Vec<HexCoord>,
    max_index: usize,
    occupancy: &HexOccupancy,
    occupies: &Vec<HexCoord>,
    mover_id: &str,
) -> (r: Result<HexCoord, CombatSimulationError>)
    requires
        max_index < path@.len(),
    ensures
        r matches Ok(c) ==> exists|k: int| 0 <= k <= max_index && path@[k] == c,
{
    let mut last_free = path[0];
    let ghost mut last_k: int = 0;
    let mut i: usize = 1;
    while i <= max_index
        invariant
            max_index < path@.len(),
            path@.len() == path.len(),
            1 <= i <= max_index + 1,
            0 <= last_k < i,
            path@[last_k] == last_free,
        decreases max_index + 1 - i,
    {
        let candidate = path[i];
        let footprint = match footprint_tiles(candidate, occupies) {
            Ok(t) => t,
            Err(e) => {
                return Err(CombatSimulationError::HexMath(e));
            },
        };
        let mut blocked = false;
        let m = footprint.len();
        let mut j: usize = 0;
        while j < m
            invariant
                m == footprint@.len(),
                j <= m,
            decreases m - j,
        {
            match occupancy.occupant_at(footprint[j]) {
                Some(occupant) => {
                    if !str_eq(occupant, mover_id) {
                        blocked = true;
                    }
                },
                None => {},
            }
            j += 1;
        }
        if blocked {
            break;
        }
        last_free = candidate;
        proof {
            last_k = i as int;
        }
        i += 1;
    }
    Ok(last_free)
}

/// `c` is a tile of the line from `from` to `to` at most `step` tiles from
/// `from` (any number of tiles for a negative `step`); `from` itself when
/// the two are the same tile.
pub open spec fn along_line(from: HexCoord, to: HexCoord, step: int, c: HexCoord) -> bool {
    exists|k: int| 0 <= k <= hex_distance(from, to) && (step < 0 || k <= step) && c == #[trigger] line_tile(from, to, k)
}

/// The `k`-th tile of the line from `from` to `to`.
pub open spec fn line_tile(from: HexCoord, to: HexCoord, k: int) -> HexCoord {
    if hex_distance(from, to) == 0 {
        from
    } else {
        crate::combat_hex::line_point(from, to, hex_distance(from, to), k)
    }
}

/// The tile `from` mirrored through `other`'s opposite side: as far from
/// `from` as `other`, in the other direction.
pub open spec fn mirrored(from: HexCoord, other: HexCoord) -> HexCoord {
    offset_by(from, from.q - other.q, from.r - other.r)
}

/// Moves up to `step` tiles from `from` toward `to` along `line(from, to)`,
/// stopping before any tile held by someone else.
pub fn step_toward(
    from: HexCoord,
    to: HexCoord,
    step: i32,
    occupancy: &HexOccupancy,
    occupies: &Vec<HexCoord>,
    mover_id: &str,
) -> (r: Result<HexCoord, CombatSimulationError>)
    ensures
        from == to ==> r == Ok::<HexCoord, CombatSimulationError>(from),
        r matches Ok(c) ==> along_line(from, to, step as int, c),
{
    if from == to {
        proof {
            crate::combat_hex::lemma_distance_metric(from, to, to);
            assert(along_line(from, to, step as int, from)) by {
                assert(from == line_tile(from, to, 0));
            }
        }
        return Ok(from);
    }
    let path = match line(from, to) {
        Ok(p) => p,
        Err(e) => {
            return Err(CombatSimulationError::HexMath(e));
        },
    };
    let steps_available = path.len() - 1;
    let wanted: usize = if step < 0 { usize::MAX } else { step as usize };
    let step_count = if wanted < steps_available { wanted } else { steps_available };
    let r = first_free_tile_along(&path, step_count, occupancy, occupies, mover_id);
    proof {
        lemma_free_tile_on_line(from, to, step as int, path@, step_count as int, r);
    }
    r
}

/// A tile among the first `max_index` of `line(from, to)` lies along the
/// line within `step` tiles, where `max_index` is at most `step`.
proof fn lemma_free_tile_on_line(
    from: HexCoord,
    to: HexCoord,
    step: int,
    path: Seq<HexCoord>,
    max_index: int,
    r: Result<HexCoord, CombatSimulationError>,
)
    requires
        path.len() == hex_distance(from, to) + 1,
        path[0] == from,
        hex_distance(from, to) > 0 ==> forall|i: int|
            0 <= i < path.len() ==> #[trigger] path[i] == crate::combat_hex::line_point(from, to, hex_distance(from, to), i),
        0 <= max_index < path.len(),
        step >= 0 ==> max_index <= step,
        r matches Ok(c) ==> exists|k: int| 0 <= k <= max_index && path[k] == c,
    ensures
        r matches Ok(c) ==> along_line(from, to, step, c),
{
    if r is Ok {
        let c = r->Ok_0;
        let k = choose|k: int| 0 <= k <= max_index && path[k] == c;
        if hex_distance(from, to) == 0 {
            assert(k == 0);
        } else {
            assert(path[k] == crate::combat_hex::line_point(from, to, hex_distance(from, to), k));
        }
        assert(0 <= k <= hex_distance(from, to));
        assert(c == line_tile(from, to, k));
    }
}

/// Moves up to `step` tiles from `from` directly away from `to`, along the
/// line to `to` reflected through `from`.
pub fn step_away(
    from: HexCoord,
    to: HexCoord,
    step: i32,
    occupancy: &HexOccupancy,
    occupies: &Vec<HexCoord>,
    mover_id: &str,
) -> (r: Result<HexCoord, CombatSimulationError>)
    ensures
        from == to ==> r == Ok::<HexCoord, CombatSimulationError>(from),
        r matches Ok(c) ==> along_line(from, mirrored(from, to), step as int, c),
{
    if from == to {
        proof {
            assert(mirrored(from, to) == from);
            crate::combat_hex::lemma_distance_metric(from, from, from);
            assert(along_line(from, mirrored(from, to), step as int, from)) by {
                assert(from == line_tile(from, from, 0));
            }
        }
        return Ok(from);
    }
    let mirror = reflect_through(from, to)?;
    let path = match line(from, mirror) {
        Ok(p) => p,
        Err(e) => {
            return Err(CombatSimulationError::HexMath(e));
        },
    };
    let steps_available = path.len() - 1;
    let wanted: usize = if step < 0 { usize::MAX } else { step as usize };
    let step_count = if wanted < steps_available { wanted } else { steps_available };
    let r = first_free_tile_along(&path, step_count, occupancy, occupies, mover_id);
    proof {
        lemma_free_tile_on_line(from, mirror, step as int, path@, step_count as int, r);
    }
    r
}

/// The board after each active participant, in order, takes its
/// footprint: refused at the first footprint that is invalid, or that meets
/// a tile already taken (reported at that participant's position).
pub open spec fn snapshot_run(ps: Seq<CombatSimulationParticipant>) -> Result<Map<HexCoord, Seq<char>>, CombatSimulationError>
    decreases ps.len(),
{
    if ps.len() == 0 {
        Ok(Map::empty())
    } else {
        match snapshot_run(ps.drop_last()) {
            Err(e) => Err(e),
            Ok(m) => {
                let p = ps.last();
                if !p.active {
                    Ok(m)
                } else {
                    match participant_footprint_spec(p) {
                        Err(e) => Err(e),
                        Ok(t) => if any_taken(m, t) {
                            Err(CombatSimulationError::OccupancyInvariantViolated(p.position))
                        } else {
                            Ok(occupy_map(m, t, p.id@))
                        },
                    }
                }
            },
        }
    }
}

proof fn lemma_snapshot_err_stays(ps: Seq<CombatSimulationParticipant>, i: int)
    requires
        0 <= i <= ps.len(),
        snapshot_run(ps.take(i)) is Err,
    ensures
        snapshot_run(ps) == snapshot_run(ps.take(i)),
    decreases ps.len() - i,
{
    if i < ps.len() {
        assert(ps.take(i + 1).drop_last() =~= ps.take(i));
        lemma_snapshot_err_stays(ps, i + 1);
    } else {
        assert(ps.take(i) =~= ps);
    }
}

/// The tiles the active participants hold at the start of a tick.
pub fn occupancy_snapshot(participants: &Vec<CombatSimulationParticipant>) -> (r: Result<HexOccupancy, CombatSimulationError>)
    ensures
        match snapshot_run(participants@) {
            Ok(m) => r is Ok && r->Ok_0@ == m,
            Err(e) => r == Err::<HexOccupancy, CombatSimulationError>(e),
        },
{
    let mut occupancy = HexOccupancy::new();
    let n = participants.len();
    let mut i: usize = 0;
    while i < n
        invariant
            n == participants@.len(),
            i <= n,
            snapshot_run(participants@.take(i as int)) == Ok::<Map<HexCoord, Seq<char>>, CombatSimulationError>(occupancy@),
        decreases n - i,
    {
        assert(participants@.take(i + 1).drop_last() =~= participants@.take(i as int));
        let p = &participants[i];
        if p.active {
            let footprint = match participant_footprint(p) {
                Ok(f) => f,
                Err(e) => {
                    proof {
                        lemma_snapshot_err_stays(participants@, i + 1);
                    }
                    return Err(e);
                },
            };
            if occupancy.try_occupy(footprint.as_slice(), p.id.as_str()).is_err() {
                proof {
                    lemma_snapshot_err_stays(participants@, i + 1);
                }
                return Err(CombatSimulationError::OccupancyInvariantViolated(p.position));
            }
        }
        i += 1;
    }
    assert(participants@.take(n as int) =~= participants@);
    Ok(occupancy)
}

/// The footprint error at intent `i`'s destination, if any.
pub open spec fn dest_fault(moves: Seq<CombatMoveIntent>, occ: Seq<Vec<HexCoord>>) -> spec_fn(int) -> Option<HexError> {
    |i: int|
        match footprint_spec(moves[i].to, occ[i]@) {
            Ok(_) => None,
            Err(e) => Some(e),
        }
}

/// The tiles intent `i`'s footprint covers at its destination.
pub open spec fn dest_tiles(moves: Seq<CombatMoveIntent>, occ: Seq<Vec<HexCoord>>, i: int) -> Seq<HexCoord> {
    footprint_spec(moves[i].to, occ[i]@)->Ok_0
}

pub open spec fn tiles_meet(a: Seq<HexCoord>, b: Seq<HexCoord>) -> bool {
    exists|i: int, j: int| 0 <= i < a.len() && 0 <= j < b.len() && a[i] == b[j]
}

/// Intent `a`'s destination footprint shares a tile with another intent's.
pub open spec fn contended_at(moves: Seq<CombatMoveIntent>, occ: Seq<Vec<HexCoord>>, a: int) -> bool {
    exists|b: int| 0 <= b < moves.len() && b != a && #[trigger] tiles_meet(dest_tiles(moves, occ, a), dest_tiles(moves, occ, b))
}

/// The intent turned into holding in place.
pub open spec fn held(m: CombatMoveIntent) -> CombatMoveIntent {
    CombatMoveIntent { to: m.from, mode: CombatMoveMode::Hold, ..m }
}

/// Every contended intent held, the others as they were.
pub open spec fn contention_resolved(moves: Seq<CombatMoveIntent>, occ: Seq<Vec<HexCoord>>) -> Seq<CombatMoveIntent> {
    Seq::new(moves.len(), |i: int| if contended_at(moves, occ, i) { held(moves[i]) } else { moves[i] })
}

/// Two intents whose destination footprints share a tile both hold instead.
/// Refused, with the intents unchanged, at the first destination whose
/// footprint cannot be placed.
pub fn resolve_destination_contention(moves: &mut Vec<CombatMoveIntent>, occupies: &Vec<Vec<HexCoord>>)
    -> (r: Result<(), CombatSimulationError>)
    requires
        occupies@.len() == old(moves)@.len(),
    ensures
        final(moves)@.len() == old(moves)@.len(),
        forall|i: int| 0 <= i < final(moves)@.len() ==> #[trigger] kept_or_held(final(moves)@[i], old(moves)@[i]),
        match first_err(old(moves)@.len(), dest_fault(old(moves)@, occupies@)) {
            Some(e) => r == Err::<(), CombatSimulationError>(CombatSimulationError::HexMath(e)) && final(moves)@
                == old(moves)@,
            None => r is Ok && final(moves)@ == contention_resolved(old(moves)@, occupies@),
        },
{
    let ghost before = moves@;
    let ghost f = dest_fault(before, occupies@);
    let n = moves.len();
    let mut footprints: Vec<Vec<HexCoord>> = Vec::new();
    let mut i: usize = 0;
    while i < n
        invariant
            n == moves@.len(),
            moves@ == before,
            before == old(moves)@,
            f == dest_fault(before, occupies@),
            occupies@.len() == n,
            i <= n,
            footprints@.len() == i,
            first_err(i as nat, f) is None,
            forall|k: int| 0 <= k < i ==> #[trigger] footprints@[k]@ == dest_tiles(before, occupies@, k),
        decreases n - i,
    {
        proof {
            lemma_first_err_step(i as nat, f);
        }
        let t = match footprint_tiles(moves[i].to, &occupies[i]) {
            Ok(t) => t,
            Err(e) => {
                proof {
                    assert(f(i as int) == Some(e));
                    lemma_first_err_prefix((i + 1) as nat, n as nat, f);
                }
                return Err(CombatSimulationError::HexMath(e));
            },
        };
        footprints.push(t);
        i += 1;
    }
    let mut contended: Vec<bool> = Vec::new();
    let mut a: usize = 0;
    while a < n
        invariant
            footprints@.len() == n,
            n == before.len(),
            a <= n,
            contended@.len() == a,
            forall|k: int| 0 <= k < n ==> #[trigger] footprints@[k]@ == dest_tiles(before, occupies@, k),
            forall|k: int| 0 <= k < a ==> #[trigger] contended@[k] == contended_at(before, occupies@, k),
        decreases n - a,
    {
        let mut hit = false;
        let mut b: usize = 0;
        while b < n
            invariant
                footprints@.len() == n,
                n == before.len(),
                a < n,
                b <= n,
                forall|k: int| 0 <= k < n ==> #[trigger] footprints@[k]@ == dest_tiles(before, occupies@, k),
                hit == exists|c: int|
                    0 <= c < b && c != a && #[trigger] tiles_meet(
                        dest_tiles(before, occupies@, a as int),
                        dest_tiles(before, occupies@, c),
                    ),
            decreases n - b,
        {
            proof {
                assert(footprints@[a as int]@ == dest_tiles(before, occupies@, a as int));
                assert(footprints@[b as int]@ == dest_tiles(before, occupies@, b as int));
            }
            let meets = b != a && shares_tile(&footprints[a], &footprints[b]);
            assert(meets == (b != a && tiles_meet(
                dest_tiles(before, occupies@, a as int),
                dest_tiles(before, occupies@, b as int),
            )));
            if meets {
                hit = true;
            }
            b += 1;
        }
        contended.push(hit);
        a += 1;
    }
    let ghost resolved = contention_resolved(before, occupies@);
    let mut k: usize = 0;
    while k < n
        invariant
            n == moves@.len(),
            n == before.len(),
            contended@.len() == n,
            resolved == contention_resolved(before, occupies@),
            forall|q: int| 0 <= q < n ==> #[trigger] contended@[q] == contended_at(before, occupies@, q),
            k <= n,
            forall|i: int| 0 <= i < n ==> #[trigger] moves@[i] == if i < k { resolved[i] } else { before[i] },
        decreases n - k,
    {
        if contended[k] {
            let mut m = moves[k].clone();
            m.to = m.from;
            m.mode = CombatMoveMode::Hold;
            moves.set(k, m);
        }
        k += 1;
    }
    proof {
        assert(moves@ =~= resolved);
        assert forall|i: int| 0 <= i < n implies #[trigger] kept_or_held(moves@[i], before[i]) by {
            assert(moves@[i] == resolved[i]);
        }
    }
    Ok(())
}

fn shares_tile(a: &Vec<HexCoord>, b: &Vec<HexCoord>) -> (r: bool)
    ensures
        r == exists|i: int, j: int| 0 <= i < a@.len() && 0 <= j < b@.len() && a@[i] == b@[j],
{
    let n = a.len();
    let mut i: usize = 0;
    while i < n
        invariant
            n == a@.len(),
            i <= n,
            forall|x: int, j: int| 0 <= x < i && 0 <= j < b@.len() ==> a@[x] != b@[j],
        decreases n - i,
    {
        if vec_has(b, a[i]) {
            return true;
        }
        i += 1;
    }
    false
}

/// Whether an active participant not on `side` stands on `tile`.
pub open spec fn enemy_at(participants: Seq<CombatSimulationParticipant>, side: CombatSide, tile: HexCoord) -> bool {
    exists|k: int| 0 <= k < participants.len() && #[trigger] participants[k].active && participants[k].side != side
        && participants[k].position == tile
}

/// The first `d` neighbours of `pos`, in neighbour order, that an active
/// participant not on `side` stands on.
pub open spec fn enemy_neighbors(pos: HexCoord, ps: Seq<CombatSimulationParticipant>, side: CombatSide, d: nat) -> Seq<
    HexCoord,
>
    decreases d,
{
    if d == 0 {
        Seq::empty()
    } else {
        let prev = enemy_neighbors(pos, ps, side, (d - 1) as nat);
        let tile = offset_by(pos, neighbor_dir(d - 1).0, neighbor_dir(d - 1).1);
        if enemy_at(ps, side, tile) {
            prev.push(tile)
        } else {
            prev
        }
    }
}

/// Which of `actor`'s six neighbours an active enemy stands on, in the fixed
/// neighbour order; refused when a neighbour leaves the coordinate range.
pub fn surrounding_enemy_neighbors(
    actor: &CombatSimulationParticipant,
    participants: &Vec<CombatSimulationParticipant>,
) -> (r: Result<Vec<HexCoord>, CombatSimulationError>)
    ensures
        r matches Ok(v) ==> forall|i: int| 0 <= i < v@.len() ==> hex_distance(#[trigger] v@[i], actor.position) == 1
            && enemy_at(participants@, actor.side, v@[i]),
        (forall|i: int| 0 <= i < 6 ==> crate::combat_hex::offset_fits(actor.position, neighbor_dir(i).0, neighbor_dir(i).1))
            ==> r is Ok && r->Ok_0@ == enemy_neighbors(actor.position, participants@, actor.side, 6),
        !(forall|i: int| 0 <= i < 6 ==> crate::combat_hex::offset_fits(actor.position, neighbor_dir(i).0, neighbor_dir(i).1))
            ==> r == Err::<Vec<HexCoord>, CombatSimulationError>(CombatSimulationError::HexMath(HexError::Overflow)),
{
    let neighbors = match actor.position.neighbors() {
        Ok(n) => n,
        Err(e) => {
            return Err(CombatSimulationError::HexMath(e));
        },
    };
    let mut out: Vec<HexCoord> = Vec::new();
    let mut d: usize = 0;
    while d < 6
        invariant
            d <= 6,
            forall|i: int| 0 <= i < 6 ==> neighbors@[i] == offset_by(actor.position, neighbor_dir(i).0, neighbor_dir(i).1),
            forall|i: int| 0 <= i < 6 ==> crate::combat_hex::offset_fits(actor.position, neighbor_dir(i).0, neighbor_dir(i).1),
            forall|i: int| 0 <= i < out@.len() ==> hex_distance(#[trigger] out@[i], actor.position) == 1
                && enemy_at(participants@, actor.side, out@[i]),
            out@ == enemy_neighbors(actor.position, participants@, actor.side, d as nat),
        decreases 6 - d,
    {
        let tile = neighbors[d];
        proof {
            crate::combat_hex::lemma_neighbors_adjacent(actor.position, d as int);
            crate::combat_hex::lemma_distance_metric(actor.position, tile, tile);
        }
        let mut found = false;
        let n = participants.len();
        let mut k: usize = 0;
        while k < n
            invariant
                n == participants@.len(),
                k <= n,
                found ==> enemy_at(participants@, actor.side, tile),
                !found ==> forall|m: int| 0 <= m < k ==> !(#[trigger] participants@[m].active && participants@[m].side
                    != actor.side && participants@[m].position == tile),
            decreases n - k,
        {
            let p = &participants[k];
            if p.active && p.side != actor.side && p.position == tile {
                found = true;
                assert(participants@[k as int].active);
            }
            k += 1;
        }
        assert(tile == offset_by(actor.position, neighbor_dir(d as int).0, neighbor_dir(d as int).1));
        if found {
            let ghost before = out@;
            out.push(tile);
            proof {
                assert forall|i: int| 0 <= i < out@.len() implies hex_distance(#[trigger] out@[i], actor.position) == 1
                    && enemy_at(participants@, actor.side, out@[i]) by {
                    if i < before.len() {
                        assert(out@[i] == before[i]);
                    }
                }
            }
        }
        d += 1;
    }
    Ok(out)
}

pub open spec fn hex_coord_json(c: HexCoord) -> Json {
    Json::Obj(seq![(encode_utf8("q"@), Json::Num(c.q as int)), (encode_utf8("r"@), Json::Num(c.r as int))])
}

pub open spec fn hex_coord_json_fn() -> spec_fn(HexCoord) -> Json {
    |c: HexCoord| hex_coord_json(c)
}

pub fn hex_coord_to_json(c: HexCoord) -> (j: JsonValue)
    ensures
        json_view(j) == hex_coord_json(c),
{
    let mut f: Vec<(String, JsonValue)> = Vec::new();
    push_field(&mut f, "q", JsonValue::Int(c.q as i64));
    push_field(&mut f, "r", JsonValue::Int(c.r as i64));
    assert(json_view_fields(f@) =~= seq![(encode_utf8("q"@), Json::Num(c.q as int)), (encode_utf8("r"@), Json::Num(c.r as int))]);
    JsonValue::Obj(f)
}

pub fn hex_coord_json_to(c: &HexCoord) -> (j: JsonValue)
    ensures
        json_view(j) == hex_coord_json(*c),
{
    hex_coord_to_json(*c)
}

pub open spec fn position_field_fn() -> spec_fn((String, HexCoord)) -> (Seq<u8>, Json) {
    |e: (String, HexCoord)| (encode_utf8(e.0@), hex_coord_json(e.1))
}

/// A map from id to tile as a JSON object, in the order the entries are held.
pub open spec fn positions_json(p: Seq<(String, HexCoord)>) -> Json {
    Json::Obj(p.map_values(position_field_fn()))
}

pub fn positions_to_json(p: &Vec<(String, HexCoord)>) -> (j: JsonValue)
    ensures
        json_view(j) == positions_json(p@),
{
    let mut f: Vec<(String, JsonValue)> = Vec::new();
    let n = p.len();
    let mut i: usize = 0;
    while i < n
        invariant
            n == p@.len(),
            i <= n,
            json_view_fields(f@) == p@.take(i as int).map_values(position_field_fn()),
        decreases n - i,
    {
        let (k, c) = &p[i];
        push_field(&mut f, k.as_str(), hex_coord_to_json(*c));
        assert(p@.take(i + 1).map_values(position_field_fn()) =~= p@.take(i as int).map_values(
            position_field_fn(),
        ).push(position_field_fn()(p@[i as int])));
        i += 1;
    }
    assert(p@.take(n as int) =~= p@);
    JsonValue::Obj(f)
}

pub open spec fn combat_side_name(x: CombatSide) -> Seq<char> {
    match x {
        CombatSide::Ally => "ally"@,
        CombatSide::Enemy => "enemy"@,
    }
}

pub open spec fn combat_side_json(x: CombatSide) -> Json {
    jstr(combat_side_name(x))
}

pub fn combat_side_str(x: CombatSide) -> (s: &'static str)
    ensures
        s@ == combat_side_name(x),
{
    match x {
        CombatSide::Ally => "ally",
        CombatSide::Enemy => "enemy",
    }
}

pub fn combat_side_json_to(x: CombatSide) -> (j: JsonValue)
    ensures
        json_view(j) == combat_side_json(x),
{
    str_json(combat_side_str(x))
}

pub open spec fn combat_side_index(x: CombatSide) -> int {
    match x {
        CombatSide::Ally => 0,
        CombatSide::Enemy => 1,
    }
}

pub fn combat_side_rank(x: CombatSide) -> (r: u8)
    ensures
        r as int == combat_side_index(x),
{
    match x {
        CombatSide::Ally => 0,
        CombatSide::Enemy => 1,
    }
}

pub open spec fn combat_move_mode_name(x: CombatMoveMode) -> Seq<char> {
    match x {
        CombatMoveMode::Hold => "hold"@,
        CombatMoveMode::Advance => "advance"@,
        CombatMoveMode::Retreat => "retreat"@,
    }
}

pub open spec fn combat_move_mode_json(x: CombatMoveMode) -> Json {
    jstr(combat_move_mode_name(x))
}

pub fn combat_move_mode_str(x: CombatMoveMode) -> (s: &'static str)
    ensures
        s@ == combat_move_mode_name(x),
{
    match x {
        CombatMoveMode::Hold => "hold",
        CombatMoveMode::Advance => "advance",
        CombatMoveMode::Retreat => "retreat",
    }
}

pub fn combat_move_mode_json_to(x: CombatMoveMode) -> (j: JsonValue)
    ensures
        json_view(j) == combat_move_mode_json(x),
{
    str_json(combat_move_mode_str(x))
}

pub open spec fn combat_move_mode_index(x: CombatMoveMode) -> int {
    match x {
        CombatMoveMode::Hold => 0,
        CombatMoveMode::Advance => 1,
        CombatMoveMode::Retreat => 2,
    }
}

pub fn combat_move_mode_rank(x: CombatMoveMode) -> (r: u8)
    ensures
        r as int == combat_move_mode_index(x),
{
    match x {
        CombatMoveMode::Hold => 0,
        CombatMoveMode::Advance => 1,
        CombatMoveMode::Retreat => 2,
    }
}

pub open spec fn combat_target_fallback_name(x: CombatTargetFallback) -> Seq<char> {
    match x {
        CombatTargetFallback::Nearest => "nearest"@,
    }
}

pub open spec fn combat_target_fallback_json(x: CombatTargetFallback) -> Json {
    jstr(combat_target_fallback_name(x))
}

pub fn combat_target_fallback_str(x: CombatTargetFallback) -> (s: &'static str)
    ensures
        s@ == combat_target_fallback_name(x),
{
    match x {
        CombatTargetFallback::Nearest => "nearest",
    }
}

pub fn combat_target_fallback_json_to(x: CombatTargetFallback) -> (j: JsonValue)
    ensures
        json_view(j) == combat_target_fallback_json(x),
{
    str_json(combat_target_fallback_str(x))
}

pub open spec fn combat_target_fallback_index(x: CombatTargetFallback) -> int {
    match x {
        CombatTargetFallback::Nearest => 0,
    }
}

pub fn combat_target_fallback_rank(x: CombatTargetFallback) -> (r: u8)
    ensures
        r as int == combat_target_fallback_index(x),
{
    match x {
        CombatTargetFallback::Nearest => 0,
    }
}

pub open spec fn move_intent_json(x: CombatMoveIntent) -> Json {
    let f = Seq::<(Seq<u8>, Json)>::empty();
    let f = f.push((encode_utf8("actor_id"@), jstr(x.actor_id@)));
    let f = f.push((encode_utf8("target_id"@), match x.target_id { Some(v) => jstr(v@), None => Json::Null }));
    let f = f.push((encode_utf8("from"@), hex_coord_json(x.from)));
    let f = f.push((encode_utf8("to"@), hex_coord_json(x.to)));
    let f = f.push((encode_utf8("mode"@), combat_move_mode_json(x.mode)));
    Json::Obj(f)
}

pub open spec fn move_intent_json_fn() -> spec_fn(CombatMoveIntent) -> Json {
    |x: CombatMoveIntent| move_intent_json(x)
}

pub fn move_intent_json_to(x: &CombatMoveIntent) -> (j: JsonValue)
    ensures
        json_view(j) == move_intent_json(*x),
{
    let mut f: Vec<(String, JsonValue)> = Vec::new();
    push_field(&mut f, "actor_id", str_json(x.actor_id.as_str()));
    push_field(&mut f, "target_id", opt_str_json(&x.target_id));
    push_field(&mut f, "from", hex_coord_to_json(x.from));
    push_field(&mut f, "to", hex_coord_to_json(x.to));
    push_field(&mut f, "mode", combat_move_mode_json_to(x.mode));
    JsonValue::Obj(f)
}

pub open spec fn tick_frame_body_json(
    tick: u32,
    moves: Seq<CombatMoveIntent>,
    positions: Seq<(String, HexCoord)>,
    fingerprint: Seq<char>,
) -> Json {
    let f = Seq::<(Seq<u8>, Json)>::empty();
    let f = f.push((encode_utf8("tick"@), Json::Num(tick as int)));
    let f = f.push((encode_utf8("moves"@), Json::Arr(moves.map_values(move_intent_json_fn()))));
    let f = f.push((encode_utf8("positions"@), positions_json(positions)));
    let f = f.push((encode_utf8("fingerprint"@), jstr(fingerprint)));
    Json::Obj(f)
}

pub open spec fn tick_frame_json(x: CombatTickFrame) -> Json {
    tick_frame_body_json(x.tick, x.moves@, x.positions@, x.fingerprint@)
}

/// A frame's fingerprint: that of its JSON with an empty fingerprint field.
pub open spec fn tick_frame_fingerprint(x: CombatTickFrame) -> Seq<char> {
    fingerprint_of(enc(tick_frame_body_json(x.tick, x.moves@, x.positions@, Seq::empty())))
}

pub open spec fn tick_frame_json_fn() -> spec_fn(CombatTickFrame) -> Json {
    |x: CombatTickFrame| tick_frame_json(x)
}

pub fn tick_frame_json_to(x: &CombatTickFrame) -> (j: JsonValue)
    ensures
        json_view(j) == tick_frame_json(*x),
{
    let mut f: Vec<(String, JsonValue)> = Vec::new();
    push_field(&mut f, "tick", JsonValue::UInt(x.tick as u64));
    let conv = |e: &CombatMoveIntent| -> (r: JsonValue)
        ensures
            json_view(r) == move_intent_json(*e),
        { move_intent_json_to(e) };
    let j_moves = json_array(&x.moves, conv, Ghost(move_intent_json_fn()));
    push_field(&mut f, "moves", j_moves);
    push_field(&mut f, "positions", positions_to_json(&x.positions));
    push_field(&mut f, "fingerprint", str_json(x.fingerprint.as_str()));
    JsonValue::Obj(f)
}

pub open spec fn config_json(x: CombatSimulationConfig) -> Json {
    let f = Seq::<(Seq<u8>, Json)>::empty();
    let f = f.push((encode_utf8("tick_millis"@), Json::Num(x.tick_millis as int)));
    let f = f.push((encode_utf8("max_ticks"@), Json::Num(x.max_ticks as int)));
    Json::Obj(f)
}

pub open spec fn config_json_fn() -> spec_fn(CombatSimulationConfig) -> Json {
    |x: CombatSimulationConfig| config_json(x)
}

pub fn config_json_to(x: &CombatSimulationConfig) -> (j: JsonValue)
    ensures
        json_view(j) == config_json(*x),
{
    let mut f: Vec<(String, JsonValue)> = Vec::new();
    push_field(&mut f, "tick_millis", JsonValue::UInt(x.tick_millis as u64));
    push_field(&mut f, "max_ticks", JsonValue::UInt(x.max_ticks as u64));
    JsonValue::Obj(f)
}

pub open spec fn weights_json(x: CombatRoleWeights) -> Json {
    let f = Seq::<(Seq<u8>, Json)>::empty();
    let f = f.push((encode_utf8("preferred_distance"@), Json::Num(x.preferred_distance as int)));
    let f = f.push((encode_utf8("aggression"@), Json::Num(x.aggression as int)));
    let f = f.push((encode_utf8("formation_maintenance"@), Json::Num(x.formation_maintenance as int)));
    let f = f.push((encode_utf8("pursuit_range"@), Json::Num(x.pursuit_range as int)));
    let f = f.push((encode_utf8("protect_priority"@), Json::Num(x.protect_priority as int)));
    let f = f.push((encode_utf8("target_priority"@), Json::Num(x.target_priority as int)));
    let f = f.push((encode_utf8("risk_tolerance"@), Json::Num(x.risk_tolerance as int)));
    let f = f.push((encode_utf8("ability_priority"@), Json::Num(x.ability_priority as int)));
    Json::Obj(f)
}

pub open spec fn weights_json_fn() -> spec_fn(CombatRoleWeights) -> Json {
    |x: CombatRoleWeights| weights_json(x)
}

pub fn weights_json_to(x: &CombatRoleWeights) -> (j: JsonValue)
    ensures
        json_view(j) == weights_json(*x),
{
    let mut f: Vec<(String, JsonValue)> = Vec::new();
    push_field(&mut f, "preferred_distance", JsonValue::Int(x.preferred_distance as i64));
    push_field(&mut f, "aggression", JsonValue::Int(x.aggression as i64));
    push_field(&mut f, "formation_maintenance", JsonValue::Int(x.formation_maintenance as i64));
    push_field(&mut f, "pursuit_range", JsonValue::Int(x.pursuit_range as i64));
    push_field(&mut f, "protect_priority", JsonValue::Int(x.protect_priority as i64));
    push_field(&mut f, "target_priority", JsonValue::Int(x.target_priority as i64));
    push_field(&mut f, "risk_tolerance", JsonValue::Int(x.risk_tolerance as i64));
    push_field(&mut f, "ability_priority", JsonValue::Int(x.ability_priority as i64));
    JsonValue::Obj(f)
}

pub open spec fn role_json(x: CombatRolePreset) -> Json {
    let f = Seq::<(Seq<u8>, Json)>::empty();
    let f = f.push((encode_utf8("id"@), jstr(x.id@)));
    let f = f.push((encode_utf8("weights"@), weights_json(x.weights)));
    Json::Obj(f)
}

pub open spec fn role_json_fn() -> spec_fn(CombatRolePreset) -> Json {
    |x: CombatRolePreset| role_json(x)
}

pub fn role_json_to(x: &CombatRolePreset) -> (j: JsonValue)
    ensures
        json_view(j) == role_json(*x),
{
    let mut f: Vec<(String, JsonValue)> = Vec::new();
    push_field(&mut f, "id", str_json(x.id.as_str()));
    push_field(&mut f, "weights", weights_json_to(&x.weights));
    JsonValue::Obj(f)
}

pub open spec fn preference_json(x: CombatTargetPreference) -> Json {
    let f = Seq::<(Seq<u8>, Json)>::empty();
    let f = f.push((encode_utf8("target_id"@), jstr(x.target_id@)));
    let f = f.push((encode_utf8("priority"@), Json::Num(x.priority as int)));
    Json::Obj(f)
}

pub open spec fn preference_json_fn() -> spec_fn(CombatTargetPreference) -> Json {
    |x: CombatTargetPreference| preference_json(x)
}

pub fn preference_json_to(x: &CombatTargetPreference) -> (j: JsonValue)
    ensures
        json_view(j) == preference_json(*x),
{
    let mut f: Vec<(String, JsonValue)> = Vec::new();
    push_field(&mut f, "target_id", str_json(x.target_id.as_str()));
    push_field(&mut f, "priority", JsonValue::Int(x.priority as i64));
    JsonValue::Obj(f)
}

pub open spec fn policy_json(x: CombatTargetPolicy) -> Json {
    let f = Seq::<(Seq<u8>, Json)>::empty();
    let f = f.push((encode_utf8("id"@), jstr(x.id@)));
    let f = f.push((encode_utf8("preferences"@), Json::Arr(x.preferences@.map_values(preference_json_fn()))));
    let f = f.push((encode_utf8("fallback"@), combat_target_fallback_json(x.fallback)));
    Json::Obj(f)
}

pub open spec fn policy_json_fn() -> spec_fn(CombatTargetPolicy) -> Json {
    |x: CombatTargetPolicy| policy_json(x)
}

pub fn policy_json_to(x: &CombatTargetPolicy) -> (j: JsonValue)
    ensures
        json_view(j) == policy_json(*x),
{
    let mut f: Vec<(String, JsonValue)> = Vec::new();
    push_field(&mut f, "id", str_json(x.id.as_str()));
    let conv = |e: &CombatTargetPreference| -> (r: JsonValue)
        ensures
            json_view(r) == preference_json(*e),
        { preference_json_to(e) };
    let j_preferences = json_array(&x.preferences, conv, Ghost(preference_json_fn()));
    push_field(&mut f, "preferences", j_preferences);
    push_field(&mut f, "fallback", combat_target_fallback_json_to(x.fallback));
    JsonValue::Obj(f)
}

pub open spec fn participant_json(x: CombatSimulationParticipant) -> Json {
    let f = Seq::<(Seq<u8>, Json)>::empty();
    let f = f.push((encode_utf8("id"@), jstr(x.id@)));
    let f = f.push((encode_utf8("side"@), combat_side_json(x.side)));
    let f = f.push((encode_utf8("position"@), hex_coord_json(x.position)));
    let f = f.push((encode_utf8("facing"@), hex_coord_json(x.facing)));
    let f = f.push((encode_utf8("speed_per_tick"@), Json::Num(x.speed_per_tick as int)));
    let f = if x.move_speed_hundredths is Some { f.push((encode_utf8("move_speed_hundredths"@), match x.move_speed_hundredths { Some(v) => Json::Num(v as int), None => Json::Null })) } else { f };
    let f = f.push((encode_utf8("collision_radius"@), Json::Num(x.collision_radius as int)));
    let f = f.push((encode_utf8("attack_range"@), Json::Num(x.attack_range as int)));
    let f = f.push((encode_utf8("support_range"@), Json::Num(x.support_range as int)));
    let f = f.push((encode_utf8("role_id"@), jstr(x.role_id@)));
    let f = f.push((encode_utf8("target_policy_id"@), match x.target_policy_id { Some(v) => jstr(v@), None => Json::Null }));
    let f = f.push((encode_utf8("active"@), Json::Bool(x.active)));
    let f = if x.occupies@.len() > 0 { f.push((encode_utf8("occupies"@), Json::Arr(x.occupies@.map_values(hex_coord_json_fn())))) } else { f };
    Json::Obj(f)
}

pub open spec fn participant_json_fn() -> spec_fn(CombatSimulationParticipant) -> Json {
    |x: CombatSimulationParticipant| participant_json(x)
}

pub fn participant_json_to(x: &CombatSimulationParticipant) -> (j: JsonValue)
    ensures
        json_view(j) == participant_json(*x),
{
    let mut f: Vec<(String, JsonValue)> = Vec::new();
    push_field(&mut f, "id", str_json(x.id.as_str()));
    push_field(&mut f, "side", combat_side_json_to(x.side));
    push_field(&mut f, "position", hex_coord_to_json(x.position));
    push_field(&mut f, "facing", hex_coord_to_json(x.facing));
    push_field(&mut f, "speed_per_tick", JsonValue::Int(x.speed_per_tick as i64));
    if x.move_speed_hundredths.is_some() {
        push_field(&mut f, "move_speed_hundredths", match x.move_speed_hundredths { Some(v) => JsonValue::Int(v as i64), None => JsonValue::Null });
    }
    push_field(&mut f, "collision_radius", JsonValue::Int(x.collision_radius as i64));
    push_field(&mut f, "attack_range", JsonValue::Int(x.attack_range as i64));
    push_field(&mut f, "support_range", JsonValue::Int(x.support_range as i64));
    push_field(&mut f, "role_id", str_json(x.role_id.as_str()));
    push_field(&mut f, "target_policy_id", opt_str_json(&x.target_policy_id));
    push_field(&mut f, "active", JsonValue::Bool(x.active));
    if x.occupies.len() > 0 {
        let conv = |e: &HexCoord| -> (r: JsonValue)
            ensures
                json_view(r) == hex_coord_json(*e),
            { hex_coord_json_to(e) };
        let j_occupies = json_array(&x.occupies, conv, Ghost(hex_coord_json_fn()));
        push_field(&mut f, "occupies", j_occupies);
    }
    JsonValue::Obj(f)
}


/// A running simulation. `participants` holds the active-at-start
/// participants in ascending id order, `move_gauges` their movement gauges
/// at the same positions; roles and policies are read from `input`.
#[derive(Clone, Debug, PartialEq, Eq)]
pub struct CombatSimulation {
    pub input: CombatSimulationInput,
    pub tick: u32,
    pub participants: Vec<CombatSimulationParticipant>,
    pub move_gauges: Vec<i64>,
}

pub open spec fn ids_ascending(s: Seq<CombatSimulationParticipant>) -> bool {
    forall|i: int, j: int| 0 <= i < j < s.len() ==> str_ord(#[trigger] s[i].id@, #[trigger] s[j].id@) < 0
}

/// What `CombatSimulation::new` checks first: configuration, version,
/// manifest and state.
pub open spec fn simulation_setup_check(input: CombatSimulationInput) -> Result<(), CombatSimulationError> {
    if input.config.tick_millis == 0 || input.config.max_ticks == 0 {
        Err(CombatSimulationError::InvalidConfig)
    } else if input.manifest.simulation_version@ != CURRENT_SIMULATION_VERSION@ {
        Err(CombatSimulationError::UnsupportedSimulationVersion(input.manifest.simulation_version.0))
    } else if manifest_check(input.manifest) is Err || state_check(input.state) is Err {
        Err(CombatSimulationError::InvalidReference)
    } else {
        Ok(())
    }
}

/// A participant whose own fields allow it to take part.
pub open spec fn participant_fields_valid(p: CombatSimulationParticipant) -> bool {
    &&& p.speed_per_tick > 0
    &&& p.collision_radius > 0
    &&& p.attack_range > 0
    &&& p.support_range > 0
    &&& (p.move_speed_hundredths matches Some(v) ==> v > 0)
    &&& exists|d: int| 0 <= d < 6 && p.facing.q == neighbor_dir(d).0 && p.facing.r == neighbor_dir(d).1
    &&& participant_footprint_spec(p) is Ok
}

fn is_neighbor_direction(c: HexCoord) -> (r: bool)
    ensures
        r == exists|d: int| 0 <= d < 6 && c.q == neighbor_dir(d).0 && c.r == neighbor_dir(d).1,
{
    let dirs = neighbor_directions();
    let mut d: usize = 0;
    while d < 6
        invariant
            d <= 6,
            forall|i: int| 0 <= i < 6 ==> dirs@[i].q == neighbor_dir(i).0 && dirs@[i].r == neighbor_dir(i).1,
            forall|i: int| 0 <= i < d ==> !(c.q == neighbor_dir(i).0 && c.r == neighbor_dir(i).1),
        decreases 6 - d,
    {
        if dirs[d] == c {
            assert(c.q == neighbor_dir(d as int).0 && c.r == neighbor_dir(d as int).1);
            return true;
        }
        d += 1;
    }
    false
}

fn find_participant(v: &Vec<CombatSimulationParticipant>, id: &str) -> (r: Option<usize>)
    ensures
        r matches Some(i) ==> i < v@.len() && v@[i as int].id@ == id@ && forall|j: int| 0 <= j < i ==> v@[j].id@ != id@,
        r is None ==> forall|i: int| 0 <= i < v@.len() ==> #[trigger] v@[i].id@ != id@,
{
    let n = v.len();
    let mut i: usize = 0;
    while i < n
        invariant
            n == v@.len(),
            i <= n,
            forall|k: int| 0 <= k < i ==> #[trigger] v@[k].id@ != id@,
        decreases n - i,
    {
        if str_eq(v[i].id.as_str(), id) {
            return Some(i);
        }
        i += 1;
    }
    None
}

fn find_role(v: &Vec<CombatRolePreset>, id: &str) -> (r: Option<usize>)
    ensures
        r matches Some(i) ==> i < v@.len() && v@[i as int].id@ == id@,
        r is None ==> forall|i: int| 0 <= i < v@.len() ==> #[trigger] v@[i].id@ != id@,
{
    let n = v.len();
    let mut i: usize = 0;
    while i < n
        invariant
            n == v@.len(),
            i <= n,
            forall|k: int| 0 <= k < i ==> #[trigger] v@[k].id@ != id@,
        decreases n - i,
    {
        if str_eq(v[i].id.as_str(), id) {
            return Some(i);
        }
        i += 1;
    }
    None
}

fn find_policy(v: &Vec<CombatTargetPolicy>, id: &str) -> (r: Option<usize>)
    ensures
        r matches Some(i) ==> i < v@.len() && v@[i as int].id@ == id@,
        r is None ==> forall|i: int| 0 <= i < v@.len() ==> #[trigger] v@[i].id@ != id@,
{
    let n = v.len();
    let mut i: usize = 0;
    while i < n
        invariant
            n == v@.len(),
            i <= n,
            forall|k: int| 0 <= k < i ==> #[trigger] v@[k].id@ != id@,
        decreases n - i,
    {
        if str_eq(v[i].id.as_str(), id) {
            return Some(i);
        }
        i += 1;
    }
    None
}

pub open spec fn participant_id_order() -> spec_fn(CombatSimulationParticipant, CombatSimulationParticipant) -> int {
    |a: CombatSimulationParticipant, b: CombatSimulationParticipant| str_ord(a.id@, b.id@)
}

pub open spec fn role_id_order() -> spec_fn(CombatRolePreset, CombatRolePreset) -> int {
    |a: CombatRolePreset, b: CombatRolePreset| str_ord(a.id@, b.id@)
}

pub open spec fn policy_id_order() -> spec_fn(CombatTargetPolicy, CombatTargetPolicy) -> int {
    |a: CombatTargetPolicy, b: CombatTargetPolicy| str_ord(a.id@, b.id@)
}

/// Whether the first participant with this id is active and on the other side.
pub open spec fn valid_target(ps: Seq<CombatSimulationParticipant>, side: CombatSide, id: Seq<char>) -> bool {
    exists|k: int|
        0 <= k < ps.len() && #[trigger] ps[k].id@ == id && (forall|j: int| 0 <= j < k ==> ps[j].id@ != id)
            && ps[k].active && ps[k].side != side
}

/// The setup tuple, given the canonical manifest and state texts.
pub open spec fn fingerprint_tuple_json(input: CombatSimulationInput, manifest: Seq<u8>, state: Seq<u8>) -> Json {
    Json::Arr(
        seq![
            Json::Num(input.seed as int),
            jstr(input.manifest.simulation_version@),
            config_json(input.config),
            Json::Str(manifest),
            Json::Str(state),
            Json::Arr(sort_seq(input.participants@, participant_id_order()).map_values(participant_json_fn())),
            Json::Arr(sort_seq(input.roles@, role_id_order()).map_values(role_json_fn())),
            Json::Arr(sort_seq(input.policies@, policy_id_order()).map_values(policy_json_fn())),
        ],
    )
}

/// The simulation's setup fingerprint: the JSON tuple of seed, version,
/// configuration, canonical manifest and state texts, and the participants,
/// roles and policies in id order.
pub open spec fn simulation_fingerprint_json(input: CombatSimulationInput) -> Json {
    fingerprint_tuple_json(
        input,
        enc(crate::combat_contract::manifest_canonical_json(input.manifest)),
        enc(crate::combat_state::state_canonical_json(input.state)),
    )
}

fn fingerprint_tuple(input: &CombatSimulationInput, manifest: Vec<u8>, state: Vec<u8>) -> (j: JsonValue)
    ensures
        json_view(j) == fingerprint_tuple_json(*input, manifest@, state@),
{
    let participants = sorted_participants_json(&input.participants);
    let roles = sorted_roles_json(&input.roles);
    let policies = sorted_policies_json(&input.policies);
    let ghost m = manifest@;
    let ghost st = state@;
    let mut items: Vec<JsonValue> = Vec::new();
    push_item(&mut items, JsonValue::UInt(input.seed));
    push_item(&mut items, str_json(input.manifest.simulation_version.as_str()));
    push_item(&mut items, config_json_to(&input.config));
    push_item(&mut items, JsonValue::Text(manifest));
    push_item(&mut items, JsonValue::Text(state));
    push_item(&mut items, participants);
    push_item(&mut items, roles);
    push_item(&mut items, policies);
    proof {
        assert(crate::json::json_view_seq(items@) =~= seq![
            Json::Num(input.seed as int),
            jstr(input.manifest.simulation_version@),
            config_json(input.config),
            Json::Str(m),
            Json::Str(st),
            Json::Arr(sort_seq(input.participants@, participant_id_order()).map_values(participant_json_fn())),
            Json::Arr(sort_seq(input.roles@, role_id_order()).map_values(role_json_fn())),
            Json::Arr(sort_seq(input.policies@, policy_id_order()).map_values(policy_json_fn())),
        ]);
    }
    JsonValue::Arr(items)
}

fn sorted_participants_json(v: &Vec<CombatSimulationParticipant>) -> (j: JsonValue)
    ensures
        json_view(j) == Json::Arr(sort_seq(v@, participant_id_order()).map_values(participant_json_fn())),
{
    let by_p = |a: &CombatSimulationParticipant, b: &CombatSimulationParticipant| -> (r: i8)
        ensures
            r as int == str_ord(a.id@, b.id@),
        { compare_str(a.id.as_str(), b.id.as_str()) };
    let conv_p = |e: &CombatSimulationParticipant| -> (r: JsonValue)
        ensures
            json_view(r) == participant_json(*e),
        { participant_json_to(e) };
    json_array_sorted(v, by_p, Ghost(participant_id_order()), conv_p, Ghost(participant_json_fn()))
}

fn sorted_roles_json(v: &Vec<CombatRolePreset>) -> (j: JsonValue)
    ensures
        json_view(j) == Json::Arr(sort_seq(v@, role_id_order()).map_values(role_json_fn())),
{
    let by_r = |a: &CombatRolePreset, b: &CombatRolePreset| -> (r: i8)
        ensures
            r as int == str_ord(a.id@, b.id@),
        { compare_str(a.id.as_str(), b.id.as_str()) };
    let conv_r = |e: &CombatRolePreset| -> (r: JsonValue)
        ensures
            json_view(r) == role_json(*e),
        { role_json_to(e) };
    json_array_sorted(v, by_r, Ghost(role_id_order()), conv_r, Ghost(role_json_fn()))
}

fn sorted_policies_json(v: &Vec<CombatTargetPolicy>) -> (j: JsonValue)
    ensures
        json_view(j) == Json::Arr(sort_seq(v@, policy_id_order()).map_values(policy_json_fn())),
{
    let by_q = |a: &CombatTargetPolicy, b: &CombatTargetPolicy| -> (r: i8)
        ensures
            r as int == str_ord(a.id@, b.id@),
        { compare_str(a.id.as_str(), b.id.as_str()) };
    let conv_q = |e: &CombatTargetPolicy| -> (r: JsonValue)
        ensures
            json_view(r) == policy_json(*e),
        { policy_json_to(e) };
    json_array_sorted(v, by_q, Ghost(policy_id_order()), conv_q, Ghost(policy_json_fn()))
}

impl CombatSimulation {
    /// The participants, in ascending id order.
    pub fn participants(&self) -> (r: &Vec<CombatSimulationParticipant>)
        ensures
            r@ == self.participants@,
    {
        &self.participants
    }

    /// The setup fingerprint, or `InvalidReference` when the manifest or the
    /// state has no canonical form.
    #[verifier::rlimit(100)]
    pub fn fingerprint(&self) -> (r: Result<String, CombatSimulationError>)
        ensures
            (manifest_check(self.input.manifest) is Err || state_check(self.input.state) is Err) ==> r
                == Err::<String, CombatSimulationError>(CombatSimulationError::InvalidReference),
            manifest_check(self.input.manifest) is Ok && state_check(self.input.state) is Ok ==> r is Ok
                && r->Ok_0@ == fingerprint_of(enc(simulation_fingerprint_json(self.input))),
    {
        let manifest = match self.input.manifest.canonical_json_bytes() {
            Ok(b) => b,
            Err(_) => {
                return Err(CombatSimulationError::InvalidReference);
            },
        };
        let state = match self.input.state.canonical_json_bytes() {
            Ok(b) => b,
            Err(_) => {
                return Err(CombatSimulationError::InvalidReference);
            },
        };
        let j = fingerprint_tuple(&self.input, manifest, state);
        Ok(fingerprint_bytes(to_bytes(&j).as_slice()))
    }
}

/// The tiles a participant with a valid footprint covers.
pub open spec fn tiles_of(p: CombatSimulationParticipant) -> Seq<HexCoord> {
    participant_footprint_spec(p)->Ok_0
}

/// Participant ids are all non-blank and pairwise different.
pub open spec fn participant_ids_ok(ps: Seq<CombatSimulationParticipant>) -> bool {
    &&& forall|i: int| 0 <= i < ps.len() ==> !blank(#[trigger] ps[i].id@)
    &&& forall|i: int, j: int| 0 <= i < j < ps.len() ==> #[trigger] ps[i].id@ != #[trigger] ps[j].id@
}

/// Every active participant is well formed and no two active footprints
/// share a tile.
pub open spec fn active_placement_ok(ps: Seq<CombatSimulationParticipant>) -> bool {
    &&& forall|i: int| 0 <= i < ps.len() && #[trigger] ps[i].active ==> participant_fields_valid(ps[i])
    &&& forall|i: int, j: int, t: HexCoord|
        0 <= i < ps.len() && 0 <= j < ps.len() && i != j && ps[i].active && ps[j].active ==> !(#[trigger] tiles_of(
            ps[i],
        ).contains(t) && #[trigger] tiles_of(ps[j]).contains(t))
}

/// How many active participants stand on `side`.
pub open spec fn count_side(ps: Seq<CombatSimulationParticipant>, side: CombatSide) -> nat
    decreases ps.len(),
{
    if ps.len() == 0 {
        0
    } else {
        count_side(ps.drop_last(), side) + if ps.last().active && ps.last().side == side {
            1nat
        } else {
            0nat
        }
    }
}

pub open spec fn roles_ok(roles: Seq<CombatRolePreset>) -> bool {
    &&& forall|i: int| 0 <= i < roles.len() ==> !blank(#[trigger] roles[i].id@) && roles[i].weights.preferred_distance
        >= 0 && roles[i].weights.pursuit_range >= 0
    &&& forall|i: int, j: int| 0 <= i < j < roles.len() ==> #[trigger] roles[i].id@ != #[trigger] roles[j].id@
}

pub open spec fn preferences_ok(prefs: Seq<CombatTargetPreference>) -> bool {
    &&& forall|k: int| 0 <= k < prefs.len() ==> !blank(#[trigger] prefs[k].target_id@)
    &&& forall|k: int, l: int| 0 <= k < l < prefs.len() ==> #[trigger] prefs[k].target_id@ != #[trigger] prefs[l].target_id@
}

pub open spec fn policies_ok(policies: Seq<CombatTargetPolicy>) -> bool {
    &&& forall|i: int| 0 <= i < policies.len() ==> !blank(#[trigger] policies[i].id@) && preferences_ok(
        policies[i].preferences@,
    )
    &&& forall|i: int, j: int| 0 <= i < j < policies.len() ==> #[trigger] policies[i].id@ != #[trigger] policies[j].id@
}

pub open spec fn has_role(roles: Seq<CombatRolePreset>, id: Seq<char>) -> bool {
    exists|r: int| 0 <= r < roles.len() && #[trigger] roles[r].id@ == id
}

pub open spec fn has_policy(policies: Seq<CombatTargetPolicy>, id: Seq<char>) -> bool {
    exists|q: int| 0 <= q < policies.len() && #[trigger] policies[q].id@ == id
}

/// Each active participant's role, and its policy when it names one, exist.
pub open spec fn references_ok(input: CombatSimulationInput) -> bool {
    forall|i: int|
        0 <= i < input.participants@.len() && #[trigger] input.participants@[i].active ==> has_role(
            input.roles@,
            input.participants@[i].role_id@,
        ) && (input.participants@[i].target_policy_id matches Some(id) ==> has_policy(input.policies@, id@))
}

/// The inputs `CombatSimulation::new` accepts.
pub open spec fn simulation_valid(input: CombatSimulationInput) -> bool {
    &&& simulation_setup_check(input) is Ok
    &&& participant_ids_ok(input.participants@)
    &&& active_placement_ok(input.participants@)
    &&& count_side(input.participants@, CombatSide::Ally) <= 4
    &&& count_side(input.participants@, CombatSide::Enemy) <= 8
    &&& roles_ok(input.roles@)
    &&& policies_ok(input.policies@)
    &&& references_ok(input)
}

/// What a running simulation keeps true between ticks.
pub open spec fn simulation_wf(s: CombatSimulation) -> bool {
    &&& s.move_gauges@.len() == s.participants@.len()
    &&& forall|k: int| 0 <= k < s.participants@.len() ==> has_role(s.input.roles@, #[trigger] s.participants@[k].role_id@)
    &&& s.tick <= s.input.config.max_ticks
}

fn check_participant_ids(ps: &Vec<CombatSimulationParticipant>) -> (r: Result<(), CombatSimulationError>)
    ensures
        r is Ok <==> participant_ids_ok(ps@),
{
    let n = ps.len();
    let mut i: usize = 0;
    while i < n
        invariant
            n == ps@.len(),
            i <= n,
            participant_ids_ok(ps@.take(i as int)),
        decreases n - i,
    {
        if is_blank(ps[i].id.as_str()) {
            assert(!participant_ids_ok(ps@) ) by { assert(blank(ps@[i as int].id@)); }
            return Err(CombatSimulationError::EmptyId);
        }
        let mut j: usize = 0;
        while j < i
            invariant
                n == ps@.len(),
                i < n,
                j <= i,
                forall|k: int| 0 <= k < j ==> #[trigger] ps@[k].id@ != ps@[i as int].id@,
            decreases i - j,
        {
            if str_eq(ps[j].id.as_str(), ps[i].id.as_str()) {
                assert(!participant_ids_ok(ps@)) by {
                    assert(ps@[j as int].id@ == ps@[i as int].id@);
                }
                return Err(CombatSimulationError::DuplicateId(ps[i].id.clone()));
            }
            j += 1;
        }
        assert(participant_ids_ok(ps@.take(i + 1))) by {
            let t = ps@.take(i + 1);
            assert forall|a: int, b: int| 0 <= a < b < t.len() implies #[trigger] t[a].id@ != #[trigger] t[b].id@ by {
                assert(t[a] == ps@[a]);
                assert(t[b] == ps@[b]);
                if b < i {
                    assert(ps@.take(i as int)[a] == t[a]);
                    assert(ps@.take(i as int)[b] == t[b]);
                }
            }
            assert forall|a: int| 0 <= a < t.len() implies !blank(#[trigger] t[a].id@) by {
                if a < i {
                    assert(ps@.take(i as int)[a] == t[a]);
                }
            }
        }
        i += 1;
    }
    assert(ps@.take(n as int) =~= ps@);
    Ok(())
}

fn participant_fields_check(p: &CombatSimulationParticipant) -> (r: Result<Vec<HexCoord>, CombatSimulationError>)
    ensures
        r is Ok <==> participant_fields_valid(*p),
        r matches Ok(t) ==> t@ == tiles_of(*p),
{
    if p.speed_per_tick <= 0 || p.collision_radius <= 0 || p.attack_range <= 0 || p.support_range <= 0 {
        return Err(CombatSimulationError::InvalidParticipant(p.id.clone()));
    }
    match p.move_speed_hundredths {
        Some(v) => {
            if v <= 0 {
                return Err(CombatSimulationError::InvalidParticipant(p.id.clone()));
            }
        },
        None => {},
    }
    if !is_neighbor_direction(p.facing) {
        return Err(CombatSimulationError::InvalidFacing(p.id.clone()));
    }
    participant_footprint(p)
}

/// Places every active participant on a fresh board: `Ok` exactly when each
/// one is well formed and no two footprints overlap.
fn place_active(ps: &Vec<CombatSimulationParticipant>) -> (r: Result<(), CombatSimulationError>)
    ensures
        r is Ok <==> active_placement_ok(ps@),
{
    let mut occupancy = HexOccupancy::new();
    let n = ps.len();
    let mut i: usize = 0;
    while i < n
        invariant
            n == ps@.len(),
            i <= n,
            forall|k: int| 0 <= k < i && #[trigger] ps@[k].active ==> participant_fields_valid(ps@[k]),
            forall|k: int, l: int, t: HexCoord|
                0 <= k < i && 0 <= l < i && k != l && ps@[k].active && ps@[l].active ==> !(#[trigger] tiles_of(
                    ps@[k],
                ).contains(t) && #[trigger] tiles_of(ps@[l]).contains(t)),
            forall|t: HexCoord| #[trigger] occupancy@.contains_key(t) <==> exists|k: int|
                0 <= k < i && ps@[k].active && #[trigger] tiles_of(ps@[k]).contains(t),
        decreases n - i,
    {
        let p = &ps[i];
        if p.active {
            let footprint = match participant_fields_check(p) {
                Ok(f) => f,
                Err(e) => {
                    return Err(e);
                },
            };
            let ghost before = occupancy@;
            match occupancy.try_occupy(footprint.as_slice(), p.id.as_str()) {
                Ok(()) => {
                    assert forall|k: int, l: int, t: HexCoord|
                        0 <= k < i + 1 && 0 <= l < i + 1 && k != l && ps@[k].active && ps@[l].active implies !(
                        #[trigger] tiles_of(ps@[k]).contains(t) && #[trigger] tiles_of(ps@[l]).contains(t)) by {
                        if k == i && tiles_of(ps@[k]).contains(t) && tiles_of(ps@[l]).contains(t) {
                            assert(before.contains_key(t));
                            assert(crate::combat_hex::any_taken(before, footprint@));
                        }
                        if l == i && tiles_of(ps@[k]).contains(t) && tiles_of(ps@[l]).contains(t) {
                            assert(before.contains_key(t));
                            assert(crate::combat_hex::any_taken(before, footprint@));
                        }
                    }
                    assert forall|t: HexCoord| #[trigger] occupancy@.contains_key(t) <==> exists|k: int|
                        0 <= k < i + 1 && ps@[k].active && #[trigger] tiles_of(ps@[k]).contains(t) by {
                        if occupancy@.contains_key(t) && !before.contains_key(t) {
                            assert(tiles_of(ps@[i as int]).contains(t));
                        }
                    }
                },
                Err(_) => {
                    proof {
                        let t = choose|t: HexCoord| footprint@.contains(t) && #[trigger] before.contains_key(t);
                        let k = choose|k: int| 0 <= k < i && ps@[k].active && #[trigger] tiles_of(ps@[k]).contains(t);
                        assert(tiles_of(ps@[k]).contains(t) && tiles_of(ps@[i as int]).contains(t));
                        assert(!active_placement_ok(ps@));
                    }
                    return Err(CombatSimulationError::DuplicateStartingPosition(p.position));
                },
            }
        }
        i += 1;
    }
    Ok(())
}

fn count_active_side(ps: &Vec<CombatSimulationParticipant>, side: CombatSide) -> (c: usize)
    ensures
        c == count_side(ps@, side),
{
    let n = ps.len();
    let mut c: usize = 0;
    let mut i: usize = 0;
    while i < n
        invariant
            n == ps@.len(),
            i <= n,
            c == count_side(ps@.take(i as int), side),
            c <= i,
        decreases n - i,
    {
        assert(ps@.take(i + 1).drop_last() =~= ps@.take(i as int));
        if ps[i].active && ps[i].side == side {
            c += 1;
        }
        i += 1;
    }
    assert(ps@.take(n as int) =~= ps@);
    c
}

fn check_roles(roles: &Vec<CombatRolePreset>) -> (r: Result<(), CombatSimulationError>)
    ensures
        r is Ok <==> roles_ok(roles@),
{
    let n = roles.len();
    let mut i: usize = 0;
    while i < n
        invariant
            n == roles@.len(),
            i <= n,
            roles_ok(roles@.take(i as int)),
        decreases n - i,
    {
        let role = &roles[i];
        if is_blank(role.id.as_str()) {
            assert(!roles_ok(roles@)) by { assert(blank(roles@[i as int].id@)); }
            return Err(CombatSimulationError::EmptyId);
        }
        if role.weights.preferred_distance < 0 || role.weights.pursuit_range < 0 {
            assert(!roles_ok(roles@)) by { assert(roles@[i as int] == *role); }
            return Err(CombatSimulationError::InvalidRole(role.id.clone()));
        }
        let mut j: usize = 0;
        while j < i
            invariant
                n == roles@.len(),
                i < n,
                j <= i,
                forall|k: int| 0 <= k < j ==> #[trigger] roles@[k].id@ != roles@[i as int].id@,
            decreases i - j,
        {
            if str_eq(roles[j].id.as_str(), roles[i].id.as_str()) {
                assert(!roles_ok(roles@)) by {
                    assert(roles@[j as int].id@ == roles@[i as int].id@);
                }
                return Err(CombatSimulationError::DuplicateId(roles[i].id.clone()));
            }
            j += 1;
        }
        assert(roles_ok(roles@.take(i + 1))) by {
            let t = roles@.take(i + 1);
            assert forall|a: int, b: int| 0 <= a < b < t.len() implies #[trigger] t[a].id@ != #[trigger] t[b].id@ by {
                assert(t[a] == roles@[a]);
                assert(t[b] == roles@[b]);
                if b < i {
                    assert(roles@.take(i as int)[a] == t[a]);
                    assert(roles@.take(i as int)[b] == t[b]);
                }
            }
            assert forall|a: int| 0 <= a < t.len() implies !blank(#[trigger] t[a].id@) && t[a].weights.preferred_distance
                >= 0 && t[a].weights.pursuit_range >= 0 by {
                if a < i {
                    assert(roles@.take(i as int)[a] == t[a]);
                }
            }
        }
        i += 1;
    }
    assert(roles@.take(n as int) =~= roles@);
    Ok(())
}

fn check_preferences(prefs: &Vec<CombatTargetPreference>) -> (r: Result<(), CombatSimulationError>)
    ensures
        r is Ok <==> preferences_ok(prefs@),
{
    let n = prefs.len();
    let mut i: usize = 0;
    while i < n
        invariant
            n == prefs@.len(),
            i <= n,
            preferences_ok(prefs@.take(i as int)),
        decreases n - i,
    {
        if is_blank(prefs[i].target_id.as_str()) {
            assert(!preferences_ok(prefs@)) by { assert(blank(prefs@[i as int].target_id@)); }
            return Err(CombatSimulationError::EmptyId);
        }
        let mut j: usize = 0;
        while j < i
            invariant
                n == prefs@.len(),
                i < n,
                j <= i,
                forall|k: int| 0 <= k < j ==> #[trigger] prefs@[k].target_id@ != prefs@[i as int].target_id@,
            decreases i - j,
        {
            if str_eq(prefs[j].target_id.as_str(), prefs[i].target_id.as_str()) {
                assert(!preferences_ok(prefs@)) by {
                    assert(prefs@[j as int].target_id@ == prefs@[i as int].target_id@);
                }
                return Err(CombatSimulationError::DuplicateId(prefs[i].target_id.clone()));
            }
            j += 1;
        }
        assert(preferences_ok(prefs@.take(i + 1))) by {
            let t = prefs@.take(i + 1);
            assert forall|a: int, b: int| 0 <= a < b < t.len() implies #[trigger] t[a].target_id@
                != #[trigger] t[b].target_id@ by {
                assert(t[a] == prefs@[a]);
                assert(t[b] == prefs@[b]);
                if b < i {
                    assert(prefs@.take(i as int)[a] == t[a]);
                    assert(prefs@.take(i as int)[b] == t[b]);
                }
            }
            assert forall|a: int| 0 <= a < t.len() implies !blank(#[trigger] t[a].target_id@) by {
                if a < i {
                    assert(prefs@.take(i as int)[a] == t[a]);
                }
            }
        }
        i += 1;
    }
    assert(prefs@.take(n as int) =~= prefs@);
    Ok(())
}

fn check_policies(policies: &Vec<CombatTargetPolicy>) -> (r: Result<(), CombatSimulationError>)
    ensures
        r is Ok <==> policies_ok(policies@),
{
    let n = policies.len();
    let mut i: usize = 0;
    while i < n
        invariant
            n == policies@.len(),
            i <= n,
            policies_ok(policies@.take(i as int)),
        decreases n - i,
    {
        let policy = &policies[i];
        if is_blank(policy.id.as_str()) {
            assert(!policies_ok(policies@)) by { assert(blank(policies@[i as int].id@)); }
            return Err(CombatSimulationError::EmptyId);
        }
        let mut j: usize = 0;
        while j < i
            invariant
                n == policies@.len(),
                i < n,
                j <= i,
                forall|k: int| 0 <= k < j ==> #[trigger] policies@[k].id@ != policies@[i as int].id@,
            decreases i - j,
        {
            if str_eq(policies[j].id.as_str(), policies[i].id.as_str()) {
                assert(!policies_ok(policies@)) by {
                    assert(policies@[j as int].id@ == policies@[i as int].id@);
                }
                return Err(CombatSimulationError::DuplicateId(policies[i].id.clone()));
            }
            j += 1;
        }
        match check_preferences(&policy.preferences) {
            Ok(()) => {},
            Err(e) => {
                assert(!policies_ok(policies@)) by { assert(policies@[i as int] == *policy); }
                return Err(e);
            },
        }
        assert(policies_ok(policies@.take(i + 1))) by {
            let t = policies@.take(i + 1);
            assert forall|a: int, b: int| 0 <= a < b < t.len() implies #[trigger] t[a].id@ != #[trigger] t[b].id@ by {
                assert(t[a] == policies@[a]);
                assert(t[b] == policies@[b]);
                if b < i {
                    assert(policies@.take(i as int)[a] == t[a]);
                    assert(policies@.take(i as int)[b] == t[b]);
                }
            }
            assert forall|a: int| 0 <= a < t.len() implies !blank(#[trigger] t[a].id@) && preferences_ok(
                t[a].preferences@,
            ) by {
                if a < i {
                    assert(policies@.take(i as int)[a] == t[a]);
                }
            }
        }
        i += 1;
    }
    assert(policies@.take(n as int) =~= policies@);
    Ok(())
}

fn check_references(input: &CombatSimulationInput) -> (r: Result<(), CombatSimulationError>)
    ensures
        r is Ok <==> references_ok(*input),
{
    let ps = &input.participants;
    let n = ps.len();
    let mut i: usize = 0;
    while i < n
        invariant
            n == ps@.len(),
            ps == &input.participants,
            i <= n,
            forall|k: int|
                0 <= k < i && #[trigger] ps@[k].active ==> has_role(input.roles@, ps@[k].role_id@) && (
                ps@[k].target_policy_id matches Some(id) ==> has_policy(input.policies@, id@)),
        decreases n - i,
    {
        let p = &ps[i];
        if p.active {
            match find_role(&input.roles, p.role_id.as_str()) {
                Some(_) => {},
                None => {
                    assert(!references_ok(*input)) by {
                        assert(input.participants@[i as int].active);
                    }
                    return Err(CombatSimulationError::MissingReference(p.role_id.clone()));
                },
            }
            match &p.target_policy_id {
                Some(id) => {
                    match find_policy(&input.policies, id.as_str()) {
                        Some(_) => {},
                        None => {
                            assert(!references_ok(*input)) by {
                                assert(input.participants@[i as int].active);
                            }
                            return Err(CombatSimulationError::MissingReference(id.clone()));
                        },
                    }
                },
                None => {},
            }
        }
        i += 1;
    }
    Ok(())
}

/// `p` is an active participant holding the same values as one of `ps`.
pub open spec fn from_active(p: CombatSimulationParticipant, ps: Seq<CombatSimulationParticipant>) -> bool {
    p.active && exists|i: int| 0 <= i < ps.len() && same_participant(p, ps[i])
}

/// Some entry of `out` holds the same values as `p`.
pub open spec fn listed(out: Seq<CombatSimulationParticipant>, p: CombatSimulationParticipant) -> bool {
    exists|k: int| 0 <= k < out.len() && same_participant(out[k], p)
}

/// Copies of the active participants, sorted by id.
fn active_sorted(ps: &Vec<CombatSimulationParticipant>) -> (r: Vec<CombatSimulationParticipant>)
    ensures
        crate::order::sorted_by(r@, participant_id_order()),
        forall|k: int| 0 <= k < r@.len() ==> #[trigger] from_active(r@[k], ps@),
        forall|i: int| 0 <= i < ps@.len() && #[trigger] ps@[i].active ==> exists|k: int|
            0 <= k < r@.len() && same_participant(r@[k], ps@[i]),
{
    let mut copies: Vec<CombatSimulationParticipant> = Vec::new();
    let n = ps.len();
    let mut i: usize = 0;
    while i < n
        invariant
            n == ps@.len(),
            i <= n,
            forall|k: int| 0 <= k < copies@.len() ==> #[trigger] from_active(copies@[k], ps@),
            forall|j: int| 0 <= j < i && #[trigger] ps@[j].active ==> exists|k: int|
                0 <= k < copies@.len() && same_participant(copies@[k], ps@[j]),
        decreases n - i,
    {
        if ps[i].active {
            let c = ps[i].clone();
            let ghost before = copies@;
            copies.push(c);
            proof {
                assert(same_participant(copies@[before.len() as int], ps@[i as int]));
                assert forall|j: int| 0 <= j < i + 1 && #[trigger] ps@[j].active implies exists|k: int|
                    0 <= k < copies@.len() && same_participant(copies@[k], ps@[j]) by {
                    if j < i {
                        let k = choose|k: int| 0 <= k < before.len() && same_participant(before[k], ps@[j]);
                        assert(copies@[k] == before[k]);
                    } else {
                        assert(same_participant(copies@[before.len() as int], ps@[j]));
                    }
                }
                assert forall|k: int| 0 <= k < copies@.len() implies #[trigger] from_active(copies@[k], ps@) by {
                    if k < before.len() {
                        assert(copies@[k] == before[k]);
                        assert(from_active(before[k], ps@));
                    } else {
                        assert(same_participant(copies@[k], ps@[i as int]));
                    }
                }
            }
        }
        i += 1;
    }
    let by_id = |a: &CombatSimulationParticipant, b: &CombatSimulationParticipant| -> (r: i8)
        ensures
            r as int == str_ord(a.id@, b.id@),
        { compare_str(a.id.as_str(), b.id.as_str()) };
    let ghost src = copies@;
    let sorted = sort_by_order(copies, by_id, Ghost(participant_id_order()));
    proof {
        crate::order::lemma_keyed_order_total(
            participant_id_order(),
            |p: CombatSimulationParticipant| p.id@,
        );
        crate::order::lemma_sort_seq(src, participant_id_order());
        crate::order::lemma_sort_seq_elems(src, participant_id_order());
        crate::order::lemma_sort_seq_permutation_elems(src, participant_id_order());
        assert forall|k: int| 0 <= k < sorted@.len() implies #[trigger] from_active(sorted@[k], ps@) by {
            assert(src.contains(sorted@[k]));
            let m = choose|m: int| 0 <= m < src.len() && src[m] == sorted@[k];
            assert(from_active(src[m], ps@));
        }
        assert forall|i: int| 0 <= i < ps@.len() && #[trigger] ps@[i].active implies exists|k: int|
            0 <= k < sorted@.len() && same_participant(sorted@[k], ps@[i]) by {
            let m = choose|m: int| 0 <= m < src.len() && same_participant(src[m], ps@[i]);
            assert(sorted@.contains(src[m]));
            let k = choose|k: int| 0 <= k < sorted@.len() && sorted@[k] == src[m];
            assert(same_participant(sorted@[k], ps@[i]));
        }
    }
    sorted
}

fn zero_gauges(n: usize) -> (v: Vec<i64>)
    ensures
        v@.len() == n,
        forall|k: int| 0 <= k < n ==> v@[k] == 0,
{
    let mut v: Vec<i64> = Vec::new();
    let mut i: usize = 0;
    while i < n
        invariant
            i <= n,
            v@.len() == i,
            forall|k: int| 0 <= k < i ==> v@[k] == 0,
        decreases n - i,
    {
        v.push(0);
        i += 1;
    }
    v
}

impl CombatSimulation {
    #[verifier::rlimit(40)]
    /// Checks the input and sets up tick 0. The setup checks (configuration,
    /// version, manifest and state) answer with their own error; past them
    /// the simulation is built exactly when `simulation_valid` holds.
    pub fn new(input: CombatSimulationInput) -> (r: Result<Self, CombatSimulationError>)
        ensures
            simulation_setup_check(input) matches Err(e) ==> r == Err::<Self, CombatSimulationError>(e),
            r is Ok <==> simulation_valid(input),
            r matches Ok(s) ==> s.input == input && s.tick == 0 && simulation_wf(s),
            r matches Ok(s) ==> crate::order::sorted_by(s.participants@, participant_id_order()),
            r matches Ok(s) ==> forall|k: int| 0 <= k < s.participants@.len() ==> #[trigger] from_active(s.participants@[k], input.participants@),
            r matches Ok(s) ==> forall|i: int| 0 <= i < input.participants@.len() && input.participants@[i].active ==> #[trigger] listed(s.participants@, input.participants@[i]),
            r matches Ok(s) ==> forall|k: int| 0 <= k < s.move_gauges@.len() ==> s.move_gauges@[k] == 0,
            r matches Ok(s) ==> sim_set_up(s, input),
    {
        if input.config.tick_millis == 0 || input.config.max_ticks == 0 {
            return Err(CombatSimulationError::InvalidConfig);
        }
        match ensure_supported_simulation_version(&input.manifest.simulation_version) {
            Ok(()) => {},
            Err(_) => {
                return Err(CombatSimulationError::UnsupportedSimulationVersion(input.manifest.simulation_version.0.clone()));
            },
        }
        if input.manifest.validate().is_err() || input.state.validate().is_err() {
            return Err(CombatSimulationError::InvalidReference);
        }
        check_participant_ids(&input.participants)?;
        place_active(&input.participants)?;
        let allies = count_active_side(&input.participants, CombatSide::Ally);
        let enemies = count_active_side(&input.participants, CombatSide::Enemy);
        if allies > 4 || enemies > 8 {
            return Err(CombatSimulationError::ParticipantLimit);
        }
        check_roles(&input.roles)?;
        check_policies(&input.policies)?;
        check_references(&input)?;
        let participants = active_sorted(&input.participants);
        let move_gauges = zero_gauges(participants.len());
        let s = CombatSimulation { input, tick: 0, participants, move_gauges };
        proof {
            assert forall|k: int| 0 <= k < s.participants@.len() implies has_role(
                s.input.roles@,
                #[trigger] s.participants@[k].role_id@,
            ) by {
                assert(from_active(s.participants@[k], s.input.participants@));
                let i = choose|i: int| 0 <= i < s.input.participants@.len() && same_participant(s.participants@[k], s.input.participants@[i]);
                assert(s.input.participants@[i].active);
            }
            assert(simulation_wf(s));
            assert(s.input == input);
            assert(forall|k: int| 0 <= k < s.participants@.len() ==> #[trigger] from_active(s.participants@[k], input.participants@));
            assert forall|i: int| 0 <= i < input.participants@.len() && input.participants@[i].active implies #[trigger] listed(s.participants@, input.participants@[i]) by {
                assert(input.participants@[i].active);
            }
        }
        Ok(s)
    }
}


/// The participant a valid target id names.
fn target_index(ps: &Vec<CombatSimulationParticipant>, side: CombatSide, id: &str) -> (r: Option<usize>)
    ensures
        r is Some <==> valid_target(ps@, side, id@),
        r matches Some(k) ==> k < ps@.len() && ps@[k as int].id@ == id@ && ps@[k as int].active && ps@[k as int].side != side,
{
    match find_participant(ps, id) {
        Some(k) => {
            if ps[k].active && ps[k].side != side {
                Some(k)
            } else {
                proof {
                    if valid_target(ps@, side, id@) {
                        let m = choose|m: int|
                            0 <= m < ps@.len() && #[trigger] ps@[m].id@ == id@ && (forall|j: int| 0 <= j < m ==> ps@[j].id@ != id@)
                                && ps@[m].active && ps@[m].side != side;
                        assert(m == k);
                    }
                }
                None
            }
        },
        None => None,
    }
}

/// The priority-first comparison of two preference candidates: positive
/// when `(pa, da, a)` ranks above `(pb, db, b)`.
pub open spec fn preference_rank(pa: int, da: int, a: Seq<char>, pb: int, db: int, b: Seq<char>) -> int {
    crate::order::then_ord(
        crate::order::int_ord(pa, pb),
        crate::order::then_ord(crate::order::int_ord(db, da), str_ord(b, a)),
    )
}

fn preference_rank_of(pa: i32, da: i64, a: &str, pb: i32, db: i64, b: &str) -> (r: i8)
    ensures
        r as int == preference_rank(pa as int, da as int, a@, pb as int, db as int, b@),
{
    if pa < pb {
        -1
    } else if pa > pb {
        1
    } else if db < da {
        -1
    } else if db > da {
        1
    } else {
        compare_str(b, a)
    }
}

/// Whether the actor's policy names a preference that is a valid target.
pub open spec fn has_valid_preference(s: CombatSimulation, actor: CombatSimulationParticipant, q: int) -> bool {
    exists|j: int|
        0 <= j < s.input.policies@[q].preferences@.len() && valid_target(
            s.participants@,
            actor.side,
            #[trigger] s.input.policies@[q].preferences@[j].target_id@,
        )
}

/// The actor's policy (the first with its id) names a valid preference,
/// so the choice comes from the policy, not from distance.
pub open spec fn prefers_policy(s: CombatSimulation, actor: CombatSimulationParticipant) -> bool {
    &&& actor.target_policy_id is Some
    &&& exists|q: int| #[trigger] is_first_policy(s.input.policies@, actor.target_policy_id->Some_0@, q) && has_valid_preference(s, actor, q)
}

/// `t` is a valid preference of policy `q` whose priority no other valid
/// preference exceeds.
pub open spec fn top_priority_preference(s: CombatSimulation, actor: CombatSimulationParticipant, q: int, t: Seq<char>) -> bool {
    let prefs = s.input.policies@[q].preferences@;
    exists|j: int|
        0 <= j < prefs.len() && #[trigger] prefs[j].target_id@ == t && forall|k: int|
            0 <= k < prefs.len() && valid_target(s.participants@, actor.side, #[trigger] prefs[k].target_id@)
                ==> prefs[k].priority <= prefs[j].priority
}

/// The first policy with this id.
pub open spec fn is_first_policy(policies: Seq<CombatTargetPolicy>, id: Seq<char>, q: int) -> bool {
    0 <= q < policies.len() && policies[q].id@ == id && forall|j: int| 0 <= j < q ==> policies[j].id@ != id
}

fn find_first_policy(v: &Vec<CombatTargetPolicy>, id: &str) -> (r: Option<usize>)
    ensures
        r matches Some(q) ==> is_first_policy(v@, id@, q as int),
        r is None ==> forall|i: int| 0 <= i < v@.len() ==> #[trigger] v@[i].id@ != id@,
{
    let n = v.len();
    let mut i: usize = 0;
    while i < n
        invariant
            n == v@.len(),
            i <= n,
            forall|k: int| 0 <= k < i ==> #[trigger] v@[k].id@ != id@,
        decreases n - i,
    {
        if str_eq(v[i].id.as_str(), id) {
            return Some(i);
        }
        i += 1;
    }
    None
}

/// The first role with this id.
fn find_first_role(v: &Vec<CombatRolePreset>, id: &str) -> (r: Option<usize>)
    ensures
        r matches Some(q) ==> q < v@.len() && v@[q as int].id@ == id@,
        r is None ==> !has_role(v@, id@),
{
    match find_role(v, id) {
        Some(q) => Some(q),
        None => None,
    }
}

/// Every footprint targeting may measure can be placed: the actor's, and
/// that of every participant whose id names a valid target.
pub open spec fn targets_placeable(ps: Seq<CombatSimulationParticipant>, actor: CombatSimulationParticipant) -> bool {
    &&& footprint_spec(actor.position, actor.occupies@) is Ok
    &&& forall|k: int|
        0 <= k < ps.len() && #[trigger] valid_target(ps, actor.side, ps[k].id@) ==> footprint_spec(
            ps[k].position,
            ps[k].occupies@,
        ) is Ok
}

pub open spec fn no_valid_target(ps: Seq<CombatSimulationParticipant>, side: CombatSide) -> bool {
    forall|k: int| 0 <= k < ps.len() ==> !valid_target(ps, side, #[trigger] ps[k].id@)
}

/// Participant `k`'s footprint lies `d` from the actor's.
pub open spec fn target_distance(ps: Seq<CombatSimulationParticipant>, actor: CombatSimulationParticipant, k: int, d: int) -> bool {
    &&& footprint_spec(ps[k].position, ps[k].occupies@) is Ok
    &&& footprint_spec(actor.position, actor.occupies@) is Ok
    &&& min_pair_distance(
        footprint_spec(ps[k].position, ps[k].occupies@)->Ok_0,
        footprint_spec(actor.position, actor.occupies@)->Ok_0,
        d,
    )
}

/// Participant `b`, `db` away, is a valid target no other valid target
/// beats: none nearer, none as near with a smaller id.
pub open spec fn nearest_at(ps: Seq<CombatSimulationParticipant>, actor: CombatSimulationParticipant, b: int, db: int) -> bool {
    &&& 0 <= b < ps.len()
    &&& valid_target(ps, actor.side, ps[b].id@)
    &&& target_distance(ps, actor, b, db)
    &&& forall|m: int, dm: int|
        0 <= m < ps.len() && valid_target(ps, actor.side, ps[m].id@) && #[trigger] target_distance(ps, actor, m, dm) ==> dm > db || (
        dm == db && str_ord(ps[b].id@, ps[m].id@) <= 0)
}

proof fn lemma_min_pair_unique(a: Seq<HexCoord>, b: Seq<HexCoord>, d1: int, d2: int)
    requires
        min_pair_distance(a, b, d1),
        min_pair_distance(a, b, d2),
    ensures
        d1 == d2,
{
    let (i1, j1) = choose|i: int, j: int| 0 <= i < a.len() && 0 <= j < b.len() && hex_distance(a[i], b[j]) == d1;
    let (i2, j2) = choose|i: int, j: int| 0 <= i < a.len() && 0 <= j < b.len() && hex_distance(a[i], b[j]) == d2;
    assert(d1 <= hex_distance(a[i2], b[j2]));
    assert(d2 <= hex_distance(a[i1], b[j1]));
}

impl CombatSimulation {
    /// The target `actor` aims at this tick. With a policy, the valid
    /// preference of highest priority (then the nearest footprint, then the
    /// smallest id); without one, or when no preference is valid, the
    /// nearest valid target (then the smallest id); `None` when no active
    /// participant stands on the other side.
    pub fn select_target(&self, actor: &CombatSimulationParticipant) -> (r: Result<Option<String>, CombatSimulationError>)
        ensures
            r matches Ok(Some(t)) ==> valid_target(self.participants@, actor.side, t@),
            r matches Ok(None) ==> forall|k: int|
                0 <= k < self.participants@.len() ==> !valid_target(self.participants@, actor.side, #[trigger] self.participants@[k].id@),
            forall|q: int|
                actor.target_policy_id is Some && is_first_policy(self.input.policies@, actor.target_policy_id->Some_0@, q)
                    && #[trigger] has_valid_preference(*self, *actor, q) && r is Ok && r->Ok_0 is Some ==> top_priority_preference(
                    *self,
                    *actor,
                    q,
                    r->Ok_0->Some_0@,
                ),
            no_valid_target(self.participants@, actor.side) ==> r == Ok::<Option<String>, CombatSimulationError>(None),
            targets_placeable(self.participants@, *actor) ==> r is Ok,
            !prefers_policy(*self, *actor) ==> (r matches Ok(Some(t)) ==> exists|b: int, db: int|
                #[trigger] nearest_at(self.participants@, *actor, b, db) && self.participants@[b].id@ == t@),
    {
        let ps = &self.participants;
        let ghost placeable = targets_placeable(ps@, *actor);
        let ghost none_valid = no_valid_target(ps@, actor.side);
        proof {
            if none_valid {
                assert forall|x: Seq<char>| !valid_target(ps@, actor.side, x) by {
                    if valid_target(ps@, actor.side, x) {
                        let k = choose|k: int|
                            0 <= k < ps@.len() && #[trigger] ps@[k].id@ == x && (forall|j: int| 0 <= j < k ==> ps@[j].id@ != x)
                                && ps@[k].active && ps@[k].side != actor.side;
                        assert(!valid_target(ps@, actor.side, ps@[k].id@));
                    }
                }
            }
        }
        let policy = match &actor.target_policy_id {
            Some(id) => find_first_policy(&self.input.policies, id.as_str()),
            None => None,
        };
        match policy {
            Some(q) => {
                let prefs = &self.input.policies[q].preferences;
                let ghost pq = q as int;
                let mut best: Option<(usize, i64)> = None;
                let n = prefs.len();
                let mut j: usize = 0;
                while j < n
                    invariant
                        n == prefs@.len(),
                        prefs == &self.input.policies@[pq].preferences,
                        ps == &self.participants,
                        j <= n,
                        placeable == targets_placeable(ps@, *actor),
                        none_valid ==> forall|x: Seq<char>| !valid_target(ps@, actor.side, x),
                        none_valid ==> best is None,
                        best is None <==> forall|k: int| 0 <= k < j ==> !valid_target(ps@, actor.side, #[trigger] prefs@[k].target_id@),
                        best matches Some(b) ==> b.0 < j && valid_target(ps@, actor.side, prefs@[b.0 as int].target_id@)
                            && forall|k: int| 0 <= k < j && valid_target(ps@, actor.side, #[trigger] prefs@[k].target_id@)
                                ==> prefs@[k].priority <= prefs@[b.0 as int].priority,
                    decreases n - j,
                {
                    let pref = &prefs[j];
                    match target_index(ps, actor.side, pref.target_id.as_str()) {
                        None => {},
                        Some(k) => {
                            let target = &ps[k];
                            let d = match footprint_distance(target.position, &target.occupies, actor.position, &actor.occupies) {
                                Ok(d) => d,
                                Err(e) => {
                                    return Err(CombatSimulationError::HexMath(e));
                                },
                            };
                            let take = match best {
                                None => true,
                                Some((bj, bd)) => {
                                    let c = preference_rank_of(
                                        pref.priority,
                                        d,
                                        pref.target_id.as_str(),
                                        prefs[bj].priority,
                                        bd,
                                        prefs[bj].target_id.as_str(),
                                    );
                                    c >= 0
                                },
                            };
                            if take {
                                best = Some((j, d));
                            }
                        },
                    }
                    j += 1;
                }
                match best {
                    Some((bj, _)) => {
                        proof {
                            assert(valid_target(ps@, actor.side, self.input.policies@[pq].preferences@[bj as int].target_id@));
                            assert(has_valid_preference(*self, *actor, pq));
                            assert(prefers_policy(*self, *actor));
                        }
                        return Ok(Some(prefs[bj].target_id.clone()));
                    },
                    None => {},
                }
            },
            None => {},
        }
        let mut nearest: Option<(usize, i64)> = None;
        let n = ps.len();
        let mut k: usize = 0;
        while k < n
            invariant
                n == ps@.len(),
                ps == &self.participants,
                k <= n,
                placeable == targets_placeable(ps@, *actor),
                none_valid == no_valid_target(ps@, actor.side),
                nearest is None <==> forall|m: int| 0 <= m < k ==> !valid_target(ps@, actor.side, #[trigger] ps@[m].id@),
                nearest matches Some(b) ==> b.0 < n && valid_target(ps@, actor.side, ps@[b.0 as int].id@),
                nearest matches Some(b) ==> target_distance(ps@, *actor, b.0 as int, b.1 as int),
                nearest matches Some(b) ==> forall|m: int, dm: int|
                    0 <= m < k && valid_target(ps@, actor.side, ps@[m].id@) && #[trigger] target_distance(ps@, *actor, m, dm) ==> dm
                        > b.1 || (dm == b.1 && str_ord(ps@[b.0 as int].id@, ps@[m].id@) <= 0),
            decreases n - k,
        {
            let p = &ps[k];
            assert(p.id@ == ps@[k as int].id@);
            match target_index(ps, actor.side, p.id.as_str()) {
                None => {},
                Some(_) => {
                    let d = match footprint_distance(p.position, &p.occupies, actor.position, &actor.occupies) {
                        Ok(d) => d,
                        Err(e) => {
                            return Err(CombatSimulationError::HexMath(e));
                        },
                    };
                    let take = match nearest {
                        None => true,
                        Some((bk, bd)) => d < bd || (d == bd && compare_str(p.id.as_str(), ps[bk].id.as_str()) < 0),
                    };
                    proof {
                        let fk = footprint_spec(ps@[k as int].position, ps@[k as int].occupies@)->Ok_0;
                        let fa = footprint_spec(actor.position, actor.occupies@)->Ok_0;
                        assert(target_distance(ps@, *actor, k as int, d as int));
                        assert forall|dm: int| #[trigger] target_distance(ps@, *actor, k as int, dm) implies dm == d by {
                            lemma_min_pair_unique(fk, fa, dm, d as int);
                        }
                        crate::order::lemma_bytes_ord_basic(encode_utf8(ps@[k as int].id@), encode_utf8(ps@[k as int].id@));
                        match nearest {
                            Some((bk, bd)) => {
                                let ik = encode_utf8(ps@[k as int].id@);
                                let ib = encode_utf8(ps@[bk as int].id@);
                                crate::order::lemma_bytes_ord_basic(ik, ib);
                                if take {
                                    assert forall|m: int, dm: int|
                                        0 <= m < k && valid_target(ps@, actor.side, ps@[m].id@) && #[trigger] target_distance(ps@, *actor, m, dm)
                                            implies dm > d || (dm == d && str_ord(ps@[k as int].id@, ps@[m].id@) <= 0) by {
                                        if dm == d {
                                            crate::order::lemma_bytes_ord_trans(ik, ib, encode_utf8(ps@[m].id@));
                                        }
                                    }
                                }
                            },
                            None => {},
                        }
                    }
                    if take {
                        nearest = Some((k, d));
                    }
                },
            }
            k += 1;
        }
        match nearest {
            Some((bk, bd)) => {
                assert(nearest_at(ps@, *actor, bk as int, bd as int));
                Ok(Some(ps[bk].id.clone()))
            },
            None => Ok(None),
        }
    }
}


/// Intent `m` is participant `k`'s move this tick: it starts where `k` stood,
/// ends where `k` now stands, aims at a valid target if any, and a hold
/// does not move.
pub open spec fn moved_by(
    before: Seq<CombatSimulationParticipant>,
    after: Seq<CombatSimulationParticipant>,
    m: CombatMoveIntent,
    k: int,
) -> bool {
    &&& 0 <= k < before.len()
    &&& before[k].active
    &&& m.actor_id@ == before[k].id@
    &&& m.from == before[k].position
    &&& after[k].position == m.to
    &&& (m.target_id matches Some(t) ==> valid_target(before, before[k].side, t@))
    &&& (m.mode == CombatMoveMode::Hold ==> m.to == m.from)
}

/// `plan` is one intent per listed participant (`idx`), with their
/// footprint shapes `occ`, and `moves` is that plan with every intent whose
/// destination footprint meets another's turned into holding in place.
pub open spec fn planned_and_resolved(
    ps: Seq<CombatSimulationParticipant>,
    plan: Seq<CombatMoveIntent>,
    idx: Seq<usize>,
    occ: Seq<Vec<HexCoord>>,
    moves: Seq<CombatMoveIntent>,
) -> bool {
    &&& plan.len() == idx.len()
    &&& occ.len() == plan.len()
    &&& forall|i: int| 0 <= i < plan.len() ==> #[trigger] intent_for(ps, plan[i], idx[i])
    &&& forall|i: int| 0 <= i < plan.len() ==> (#[trigger] occ[i])@ == ps[idx[i] as int].occupies@
    &&& moves == contention_resolved(plan, occ)
}

/// The tick's intents come from a plan in which contending movers hold.
pub open spec fn contention_applied(ps: Seq<CombatSimulationParticipant>, moves: Seq<CombatMoveIntent>) -> bool {
    exists|plan: Seq<CombatMoveIntent>, idx: Seq<usize>, occ: Seq<Vec<HexCoord>>| #[trigger] planned_and_resolved(ps, plan, idx, occ, moves)
}

/// One simulation tick from `before` to `after`, recorded as `f`: the
/// input kept, the tick counted, only positions changed in the roster, the
/// frame's positions those of the roster after the tick, one move per
/// active participant in roster order from the planned moves with
/// contending movers held, inactive participants standing still, and the
/// movement gauges filled and spent.
pub open spec fn sim_tick_made(before: CombatSimulation, after: CombatSimulation, f: CombatTickFrame) -> bool {
    &&& after.input == before.input
    &&& simulation_wf(after)
    &&& after.tick == before.tick + 1
    &&& same_roster(before.participants@, after.participants@)
    &&& f.tick == after.tick
    &&& f.fingerprint@ == tick_frame_fingerprint(f)
    &&& positions_of(f.positions@, after.participants@)
    &&& forall|i: int| 0 <= i < f.moves@.len() ==> #[trigger] made_by_someone(before.participants@, after.participants@, f.moves@[i])
    &&& forall|k: int|
        0 <= k < before.participants@.len() && before.participants@[k].active ==> #[trigger] has_move(
            before.participants@,
            after.participants@,
            f.moves@,
            k,
        )
    &&& forall|k: int|
        0 <= k < before.participants@.len() && !before.participants@[k].active ==> #[trigger] after.participants@[k].position
            == before.participants@[k].position
    &&& moves_in_roster_order(before.participants@, after.participants@, f.moves@)
    &&& contention_applied(before.participants@, f.moves@)
    &&& gauges_filled(before, after)
}

/// `sims` are the simulation's states across `frames`, one tick each.
pub open spec fn sim_chain(sims: Seq<CombatSimulation>, frames: Seq<CombatTickFrame>) -> bool {
    &&& sims.len() == frames.len() + 1
    &&& forall|j: int| 0 <= j < frames.len() ==> #[trigger] sim_tick_made(sims[j], sims[j + 1], frames[j])
}

/// `frames` are successive ticks of the simulation from `start` to `end`.
pub open spec fn ticks_run(start: CombatSimulation, end: CombatSimulation, frames: Seq<CombatTickFrame>) -> bool {
    exists|sims: Seq<CombatSimulation>| #[trigger] sim_chain(sims, frames) && sims[0] == start && sims[frames.len() as int] == end
}

/// A simulation as set up for `input`: its active participants in id order
/// with empty movement gauges, at tick zero.
pub open spec fn sim_set_up(s: CombatSimulation, input: CombatSimulationInput) -> bool {
    &&& s.input == input
    &&& s.tick == 0
    &&& simulation_wf(s)
    &&& crate::order::sorted_by(s.participants@, participant_id_order())
    &&& forall|k: int| 0 <= k < s.participants@.len() ==> #[trigger] from_active(s.participants@[k], input.participants@)
    &&& forall|i: int| 0 <= i < input.participants@.len() && input.participants@[i].active ==> #[trigger] listed(s.participants@, input.participants@[i])
    &&& forall|k: int| 0 <= k < s.move_gauges@.len() ==> s.move_gauges@[k] == 0
}

/// Intent `i` is participant `idx[i]`'s move, and `idx` rises.
pub open spec fn roster_indices(
    before: Seq<CombatSimulationParticipant>,
    after: Seq<CombatSimulationParticipant>,
    moves: Seq<CombatMoveIntent>,
    idx: Seq<usize>,
) -> bool {
    &&& idx.len() == moves.len()
    &&& forall|i: int, j: int| 0 <= i < j < idx.len() ==> #[trigger] idx[i] < #[trigger] idx[j]
    &&& forall|i: int| 0 <= i < moves.len() ==> #[trigger] moved_by(before, after, moves[i], idx[i] as int)
}

/// The intents of a tick come in roster order (the roster is sorted by id).
pub open spec fn moves_in_roster_order(
    before: Seq<CombatSimulationParticipant>,
    after: Seq<CombatSimulationParticipant>,
    moves: Seq<CombatMoveIntent>,
) -> bool {
    exists|idx: Seq<usize>| #[trigger] roster_indices(before, after, moves, idx)
}

/// Some participant made move `m`.
pub open spec fn made_by_someone(
    before: Seq<CombatSimulationParticipant>,
    after: Seq<CombatSimulationParticipant>,
    m: CombatMoveIntent,
) -> bool {
    exists|k: int| moved_by(before, after, m, k)
}

/// `a` is one of the positions in `idx`.
pub open spec fn index_listed(idx: Seq<usize>, a: int) -> bool {
    exists|i: int| 0 <= i < idx.len() && idx[i] == a
}

/// One of `moves` is participant `k`'s.
pub open spec fn has_move(
    before: Seq<CombatSimulationParticipant>,
    after: Seq<CombatSimulationParticipant>,
    moves: Seq<CombatMoveIntent>,
    k: int,
) -> bool {
    exists|i: int| 0 <= i < moves.len() && moved_by(before, after, moves[i], k)
}

/// `after` is `before` with only positions changed.
pub open spec fn same_roster(before: Seq<CombatSimulationParticipant>, after: Seq<CombatSimulationParticipant>) -> bool {
    &&& after.len() == before.len()
    &&& forall|k: int| 0 <= k < before.len() ==> {
        let a = #[trigger] after[k];
        let b = before[k];
        &&& a.id == b.id
        &&& a.side == b.side
        &&& a.active == b.active
        &&& a.role_id == b.role_id
        &&& a.target_policy_id == b.target_policy_id
        &&& a.occupies@ == b.occupies@
        &&& a.speed_per_tick == b.speed_per_tick
        &&& a.move_speed_hundredths == b.move_speed_hundredths
        &&& a.collision_radius == b.collision_radius
        &&& a.facing == b.facing
        &&& a.attack_range == b.attack_range
        &&& a.support_range == b.support_range
    }
}

/// The positions list of a frame: every participant's id and tile, in order.
pub open spec fn positions_of(positions: Seq<(String, HexCoord)>, ps: Seq<CombatSimulationParticipant>) -> bool {
    &&& positions.len() == ps.len()
    &&& forall|k: int| 0 <= k < ps.len() ==> #[trigger] positions[k].0@ == ps[k].id@ && positions[k].1 == ps[k].position
}

fn positions_list(ps: &Vec<CombatSimulationParticipant>) -> (r: Vec<(String, HexCoord)>)
    ensures
        positions_of(r@, ps@),
{
    let mut out: Vec<(String, HexCoord)> = Vec::new();
    let n = ps.len();
    let mut k: usize = 0;
    while k < n
        invariant
            n == ps@.len(),
            k <= n,
            out@.len() == k,
            forall|j: int| 0 <= j < k ==> #[trigger] out@[j].0@ == ps@[j].id@ && out@[j].1 == ps@[j].position,
        decreases n - k,
    {
        out.push((ps[k].id.clone(), ps[k].position));
        k += 1;
    }
    out
}

/// How many movement actions a gauge of `gauge` yields, and what stays in it.
pub open spec fn gauge_split(gauge: int) -> (int, int) {
    if gauge >= ACTION_THRESHOLD_HUNDREDTHS {
        (gauge / (ACTION_THRESHOLD_HUNDREDTHS as int), gauge % (ACTION_THRESHOLD_HUNDREDTHS as int))
    } else {
        (0, gauge)
    }
}

/// A participant's movement gauge fill per tick: its own speed, else one
/// full action.
pub open spec fn move_speed(p: CombatSimulationParticipant) -> int {
    match p.move_speed_hundredths {
        Some(v) => v as int,
        None => ACTION_THRESHOLD_HUNDREDTHS as int,
    }
}

/// The actions a gauge of `g` yields once `p`'s speed fills it, and what
/// stays in it.
pub open spec fn filled_split(g: i64, p: CombatSimulationParticipant) -> (int, int) {
    gauge_split(g + move_speed(p))
}

/// A gauge is spent in whole actions: each action takes one full threshold,
/// and what stays is below a threshold.
pub proof fn lemma_gauge_split_whole_actions(gauge: int)
    requires
        gauge >= 0,
    ensures
        gauge_split(gauge).0 * ACTION_THRESHOLD_HUNDREDTHS + gauge_split(gauge).1 == gauge,
        0 <= gauge_split(gauge).1 < ACTION_THRESHOLD_HUNDREDTHS,
        gauge_split(gauge).0 >= 0,
{
    if gauge >= ACTION_THRESHOLD_HUNDREDTHS as int {
        assert(gauge == (gauge / 10_000) * 10_000 + gauge % 10_000);
    }
}

/// The movement gauges after a tick: each active participant's gauge
/// filled by its speed, less the whole actions it yields; the others' as
/// they were.
pub open spec fn gauges_filled(before: CombatSimulation, after: CombatSimulation) -> bool {
    &&& after.move_gauges@.len() == before.participants@.len()
    &&& forall|k: int|
        0 <= k < before.participants@.len() ==> #[trigger] after.move_gauges@[k] == if before.participants@[k].active {
            filled_split(before.move_gauges@[k], before.participants@[k]).1
        } else {
            before.move_gauges@[k] as int
        }
}

fn frame_with_fingerprint(tick: u32, moves: Vec<CombatMoveIntent>, positions: Vec<(String, HexCoord)>) -> (f: CombatTickFrame)
    ensures
        f.tick == tick,
        f.moves@ == moves@,
        f.positions@ == positions@,
        f.fingerprint@ == tick_frame_fingerprint(f),
{
    let mut frame = CombatTickFrame { tick, moves, positions, fingerprint: String::new() };
    let j = tick_frame_json_to(&frame);
    let fp = fingerprint_bytes(to_bytes(&j).as_slice());
    proof {
        assert(frame.fingerprint@ =~= Seq::<char>::empty());
    }
    frame.fingerprint = fp;
    frame
}

/// Fills the active participants' movement gauges and counts the actions
/// each one earns this tick.
fn fill_gauges(ps: &Vec<CombatSimulationParticipant>, gauges: &Vec<i64>) -> (r: Result<(Vec<i64>, Vec<i64>), CombatSimulationError>)
    requires
        gauges@.len() == ps@.len(),
    ensures
        r matches Ok((actions, next)) ==> actions@.len() == ps@.len() && next@.len() == ps@.len()
            && forall|k: int| 0 <= k < ps@.len() ==> #[trigger] actions@[k] >= 0 && (!ps@[k].active ==> actions@[k] == 0 && next@[k] == gauges@[k]),
        r matches Ok((actions, next)) ==> forall|k: int|
            0 <= k < ps@.len() && ps@[k].active ==> #[trigger] next@[k] == filled_split(gauges@[k], ps@[k]).1,
        r matches Ok((actions, next)) ==> forall|k: int|
            0 <= k < ps@.len() && ps@[k].active ==> #[trigger] actions@[k] == filled_split(gauges@[k], ps@[k]).0,
        r is Err ==> exists|k: int|
            0 <= k < ps@.len() && ps@[k].active && !(i64::MIN <= gauges@[k] + move_speed(#[trigger] ps@[k]) <= i64::MAX),
{
    let n = ps.len();
    let mut actions: Vec<i64> = Vec::new();
    let mut next: Vec<i64> = Vec::new();
    let mut k: usize = 0;
    while k < n
        invariant
            n == ps@.len(),
            n == gauges@.len(),
            k <= n,
            actions@.len() == k,
            next@.len() == k,
            forall|j: int| 0 <= j < k ==> #[trigger] actions@[j] >= 0 && (!ps@[j].active ==> actions@[j] == 0 && next@[j] == gauges@[j]),
            forall|j: int| 0 <= j < k && ps@[j].active ==> #[trigger] next@[j] == filled_split(gauges@[j], ps@[j]).1,
            forall|j: int| 0 <= j < k && ps@[j].active ==> #[trigger] actions@[j] == filled_split(gauges@[j], ps@[j]).0,
        decreases n - k,
    {
        let p = &ps[k];
        let g = gauges[k];
        if p.active {
            let speed: i64 = match p.move_speed_hundredths {
                Some(v) => v,
                None => ACTION_THRESHOLD_HUNDREDTHS,
            };
            assert(speed == move_speed(ps@[k as int]));
            let filled = match g.checked_add(speed) {
                Some(x) => x,
                None => {
                    assert(!(i64::MIN <= gauges@[k as int] + move_speed(ps@[k as int]) <= i64::MAX));
                    return Err(CombatSimulationError::Overflow);
                },
            };
            let ghost pa = actions@;
            let ghost pn = next@;
            if filled >= ACTION_THRESHOLD_HUNDREDTHS {
                actions.push(filled / ACTION_THRESHOLD_HUNDREDTHS);
                next.push(filled % ACTION_THRESHOLD_HUNDREDTHS);
            } else {
                actions.push(0);
                next.push(filled);
            }
            proof {
                assert forall|j: int| 0 <= j < k + 1 implies #[trigger] actions@[j] >= 0 && (!ps@[j].active ==> actions@[j] == 0
                    && next@[j] == gauges@[j]) by {
                    if j < k {
                        assert(actions@[j] == pa[j] && next@[j] == pn[j]);
                    }
                }
                assert forall|j: int| 0 <= j < k + 1 && ps@[j].active implies #[trigger] next@[j] == filled_split(gauges@[j], ps@[j]).1 by {
                    if j < k {
                        assert(next@[j] == pn[j]);
                    } else if filled >= 10_000 {
                        assert(next@[j] == filled % 10_000);
                    }
                }
                assert forall|j: int| 0 <= j < k + 1 && ps@[j].active implies #[trigger] actions@[j] == filled_split(gauges@[j], ps@[j]).0 by {
                    if j < k {
                        assert(actions@[j] == pa[j]);
                    } else if filled >= 10_000 {
                        assert(actions@[j] == filled / 10_000);
                    }
                }
            }
        } else {
            let ghost pa = actions@;
            let ghost pn = next@;
            actions.push(0);
            next.push(g);
            proof {
                assert forall|j: int| 0 <= j < k + 1 implies #[trigger] actions@[j] >= 0 && (!ps@[j].active ==> actions@[j] == 0
                    && next@[j] == gauges@[j]) by {
                    if j < k {
                        assert(actions@[j] == pa[j] && next@[j] == pn[j]);
                    }
                }
                assert forall|j: int| 0 <= j < k + 1 && ps@[j].active implies #[trigger] next@[j] == filled_split(gauges@[j], ps@[j]).1 by {
                    if j < k {
                        assert(next@[j] == pn[j]);
                    }
                }
                assert forall|j: int| 0 <= j < k + 1 && ps@[j].active implies #[trigger] actions@[j] == filled_split(gauges@[j], ps@[j]).0 by {
                    if j < k {
                        assert(actions@[j] == pa[j]);
                    }
                }
            }
        }
        k += 1;
    }
    Ok((actions, next))
}

/// `x` saturated to the range of `i32`.
pub open spec fn saturate_i32(x: int) -> i32 {
    if x > i32::MAX {
        i32::MAX
    } else if x < i32::MIN {
        i32::MIN
    } else {
        x as i32
    }
}

/// The tiles one movement covers: `speed_per_tick` times the actions,
/// saturated to `i32`.
fn movement_step(speed_per_tick: i32, actions: i64) -> (step: i32)
    requires
        actions >= 0,
    ensures
        step == saturate_i32(speed_per_tick * (if actions > i32::MAX { i32::MAX as int } else { actions as int })),
{
    let wanted: i64 = if actions > 0x7fff_ffff { 0x7fff_ffff } else { actions };
    let sp = speed_per_tick as i64;
    assert(-0x4000_0000_0000_0000 <= sp * wanted <= 0x4000_0000_0000_0000) by (nonlinear_arith)
        requires
            -0x8000_0000 <= sp < 0x8000_0000,
            0 <= wanted < 0x8000_0000,
    ;
    let product: i64 = sp * wanted;
    if product > 0x7fff_ffff {
        0x7fff_ffff
    } else if product < -0x8000_0000 {
        -0x8000_0000
    } else {
        product as i32
    }
}

/// An intent for participant `k` of `ps` (before anything moved).
pub open spec fn intent_for(ps: Seq<CombatSimulationParticipant>, m: CombatMoveIntent, k: usize) -> bool {
    &&& k < ps.len()
    &&& ps[k as int].active
    &&& m.actor_id@ == ps[k as int].id@
    &&& m.from == ps[k as int].position
    &&& (m.target_id matches Some(t) ==> valid_target(ps, ps[k as int].side, t@))
    &&& (m.mode == CombatMoveMode::Hold ==> m.to == m.from)
}

/// What holding a contended destination may change about an intent.
pub open spec fn kept_or_held(a: CombatMoveIntent, b: CombatMoveIntent) -> bool {
    &&& a.actor_id == b.actor_id
    &&& a.target_id == b.target_id
    &&& a.from == b.from
    &&& ((a.to == b.to && a.mode == b.mode) || (a.to == b.from && a.mode == CombatMoveMode::Hold))
}

proof fn lemma_tick_move(
    before: Seq<CombatSimulationParticipant>,
    fin: Seq<CombatSimulationParticipant>,
    pre: CombatMoveIntent,
    m: CombatMoveIntent,
    a: usize,
)
    requires
        intent_for(before, pre, a),
        kept_or_held(m, pre),
        fin.len() == before.len(),
        fin[a as int].position == m.to,
    ensures
        moved_by(before, fin, m, a as int),
{
}

proof fn lemma_tick_moves(
    before: Seq<CombatSimulationParticipant>,
    fin: Seq<CombatSimulationParticipant>,
    pre_moves: Seq<CombatMoveIntent>,
    moves: Seq<CombatMoveIntent>,
    idx: Seq<usize>,
)
    requires
        moves.len() == pre_moves.len(),
        idx.len() == moves.len(),
        fin.len() == before.len(),
        forall|i: int| 0 <= i < idx.len() ==> #[trigger] idx[i] < before.len(),
        forall|i: int| 0 <= i < pre_moves.len() ==> #[trigger] intent_for(before, pre_moves[i], idx[i]),
        forall|a: int| 0 <= a < before.len() && before[a].active ==> #[trigger] index_listed(idx, a),
        forall|i: int| 0 <= i < moves.len() ==> #[trigger] kept_or_held(moves[i], pre_moves[i]),
        forall|x: int| 0 <= x < idx.len() ==> fin[#[trigger] idx[x] as int].position == moves[x].to,
        forall|a: int| 0 <= a < before.len() && (forall|x: int| 0 <= x < idx.len() ==> #[trigger] idx[x] != a) ==> #[trigger] fin[a].position == before[a].position,
    ensures
        forall|x: int| 0 <= x < moves.len() ==> #[trigger] made_by_someone(before, fin, moves[x]),
        forall|a: int| 0 <= a < before.len() && before[a].active ==> #[trigger] has_move(before, fin, moves, a),
        forall|a: int| 0 <= a < before.len() && !before[a].active ==> #[trigger] fin[a].position == before[a].position,
{
    assert forall|x: int| 0 <= x < moves.len() implies #[trigger] made_by_someone(before, fin, moves[x]) by {
        assert(intent_for(before, pre_moves[x], idx[x]));
        assert(kept_or_held(moves[x], pre_moves[x]));
        assert(fin[idx[x] as int].position == moves[x].to);
        lemma_tick_move(before, fin, pre_moves[x], moves[x], idx[x]);
    }
    assert forall|a: int| 0 <= a < before.len() && before[a].active implies #[trigger] has_move(before, fin, moves, a) by {
        assert(index_listed(idx, a));
        let x = choose|x: int| 0 <= x < idx.len() && idx[x] == a;
        assert(intent_for(before, pre_moves[x], idx[x]));
        assert(kept_or_held(moves[x], pre_moves[x]));
        assert(fin[idx[x] as int].position == moves[x].to);
        lemma_tick_move(before, fin, pre_moves[x], moves[x], idx[x]);
    }
    assert forall|a: int| 0 <= a < before.len() && !before[a].active implies #[trigger] fin[a].position == before[a].position by {
        assert forall|x: int| 0 <= x < idx.len() implies #[trigger] idx[x] != a by {
            assert(intent_for(before, pre_moves[x], idx[x]));
        }
    }
}

/// Participant `k`'s footprint lies at distance `d` from the footprint of a
/// participant with id `t`.
pub open spec fn footprint_gap(ps: Seq<CombatSimulationParticipant>, k: int, t: Seq<char>, d: int) -> bool {
    exists|ti: int|
        0 <= ti < ps.len() && #[trigger] ps[ti].id@ == t && footprint_spec(ps[k].position, ps[k].occupies@) is Ok
            && footprint_spec(ps[ti].position, ps[ti].occupies@) is Ok && min_pair_distance(
            footprint_spec(ps[k].position, ps[k].occupies@)->Ok_0,
            footprint_spec(ps[ti].position, ps[ti].occupies@)->Ok_0,
            d,
        )
}

/// `w` are the weights of a role preset with id `id`.
pub open spec fn role_weights_of(roles: Seq<CombatRolePreset>, id: Seq<char>, w: CombatRoleWeights) -> bool {
    exists|ri: int| 0 <= ri < roles.len() && #[trigger] roles[ri].id@ == id && roles[ri].weights == w
}

/// A role's preferred distance, negative values counting as zero.
pub open spec fn preferred_gap(w: CombatRoleWeights) -> int {
    if w.preferred_distance < 0 {
        0
    } else {
        w.preferred_distance as int
    }
}

impl CombatSimulation {
    /// Participant `k`'s intent for this tick: hold without actions or
    /// target; else advance when farther than the role's preferred
    /// distance, retreat when nearer and the role's aggression is negative,
    /// hold otherwise.
    fn plan_move(&self, k: usize, actions: i64, occupancy: &HexOccupancy) -> (r: Result<CombatMoveIntent, CombatSimulationError>)
        requires
            simulation_wf(*self),
            k < self.participants@.len(),
            self.participants@[k as int].active,
            actions >= 0,
        ensures
            r matches Ok(m) ==> intent_for(self.participants@, m, k),
            r matches Ok(m) ==> (actions == 0 || m.target_id is None ==> m.mode == CombatMoveMode::Hold && m.to == m.from),
            r matches Ok(m) ==> (actions > 0 && m.target_id is Some ==> exists|d: int, w: CombatRoleWeights|
                #[trigger] footprint_gap(self.participants@, k as int, m.target_id->Some_0@, d) && #[trigger] role_weights_of(
                    self.input.roles@,
                    self.participants@[k as int].role_id@,
                    w,
                ) && (m.mode == CombatMoveMode::Advance <==> d > preferred_gap(w)) && (m.mode == CombatMoveMode::Retreat
                    <==> d < preferred_gap(w) && w.aggression < 0)),
            r matches Ok(m) ==> (m.mode != CombatMoveMode::Hold ==> m.target_id is Some && exists|ti: int|
                0 <= ti < self.participants@.len() && #[trigger] self.participants@[ti].id@ == m.target_id->Some_0@ && along_line(
                    m.from,
                    if m.mode == CombatMoveMode::Advance {
                        self.participants@[ti].position
                    } else {
                        mirrored(m.from, self.participants@[ti].position)
                    },
                    saturate_i32(
                        self.participants@[k as int].speed_per_tick * (if actions > i32::MAX {
                            i32::MAX as int
                        } else {
                            actions as int
                        }),
                    ) as int,
                    m.to,
                )),
    {
        let actor = &self.participants[k];
        let target_id = self.select_target(actor)?;
        if actions == 0 {
            return Ok(CombatMoveIntent { actor_id: actor.id.clone(), target_id, from: actor.position, to: actor.position, mode: CombatMoveMode::Hold });
        }
        let tid = match &target_id {
            None => {
                return Ok(CombatMoveIntent { actor_id: actor.id.clone(), target_id, from: actor.position, to: actor.position, mode: CombatMoveMode::Hold });
            },
            Some(t) => t,
        };
        let ti = match find_participant(&self.participants, tid.as_str()) {
            Some(t) => t,
            None => {
                return Err(CombatSimulationError::MissingReference(tid.clone()));
            },
        };
        let target = &self.participants[ti];
        let d = match footprint_distance(actor.position, &actor.occupies, target.position, &target.occupies) {
            Ok(d) => d,
            Err(e) => {
                return Err(CombatSimulationError::HexMath(e));
            },
        };
        let ri = match find_first_role(&self.input.roles, actor.role_id.as_str()) {
            Some(ri) => ri,
            None => {
                proof {
                    assert(has_role(self.input.roles@, self.participants@[k as int].role_id@));
                }
                return Err(CombatSimulationError::MissingReference(actor.role_id.clone()));
            },
        };
        let weights = self.input.roles[ri].weights;
        let preferred: i64 = if weights.preferred_distance < 0 { 0 } else { weights.preferred_distance as i64 };
        let step = movement_step(actor.speed_per_tick, actions);
        let (to, mode) = if d > preferred {
            (step_toward(actor.position, target.position, step, occupancy, &actor.occupies, actor.id.as_str())?, CombatMoveMode::Advance)
        } else if d < preferred && weights.aggression < 0 {
            (step_away(actor.position, target.position, step, occupancy, &actor.occupies, actor.id.as_str())?, CombatMoveMode::Retreat)
        } else {
            (actor.position, CombatMoveMode::Hold)
        };
        proof {
            let ps = self.participants@;
            assert(footprint_gap(ps, k as int, tid@, d as int)) by {
                assert(ps[ti as int].id@ == tid@);
            }
            assert(role_weights_of(self.input.roles@, ps[k as int].role_id@, weights)) by {
                assert(self.input.roles@[ri as int].id@ == ps[k as int].role_id@);
            }
            assert(preferred == preferred_gap(weights));
            assert(ps[ti as int].id@ == tid@);
        }
        Ok(CombatMoveIntent { actor_id: actor.id.clone(), target_id, from: actor.position, to, mode })
    }

    /// Every active participant's intent, in participant order, with the
    /// index of its actor.
    fn plan_moves(&self, actions: &Vec<i64>, occupancy: &HexOccupancy) -> (r: Result<(Vec<CombatMoveIntent>, Vec<usize>), CombatSimulationError>)
        requires
            simulation_wf(*self),
            actions@.len() == self.participants@.len(),
            forall|k: int| 0 <= k < actions@.len() ==> #[trigger] actions@[k] >= 0,
        ensures
            r is Ok ==> r->Ok_0.0@.len() == r->Ok_0.1@.len(),
            r is Ok ==> forall|i: int| 0 <= i < r->Ok_0.0@.len() ==> #[trigger] intent_for(self.participants@, r->Ok_0.0@[i], r->Ok_0.1@[i]),
            r is Ok ==> forall|i: int, j: int| 0 <= i < j < r->Ok_0.1@.len() ==> #[trigger] r->Ok_0.1@[i] < #[trigger] r->Ok_0.1@[j],
            r is Ok ==> forall|a: int| 0 <= a < self.participants@.len() && self.participants@[a].active ==> #[trigger] index_listed(r->Ok_0.1@, a),
            r is Ok ==> forall|i: int| 0 <= i < r->Ok_0.0@.len() && actions@[r->Ok_0.1@[i] as int] == 0 ==> (#[trigger] r->Ok_0.0@[i]).mode
                == CombatMoveMode::Hold && r->Ok_0.0@[i].to == r->Ok_0.0@[i].from,
    {
        let n = self.participants.len();
        let mut moves: Vec<CombatMoveIntent> = Vec::new();
        let mut idx: Vec<usize> = Vec::new();
        let mut k: usize = 0;
        while k < n
            invariant
                n == self.participants@.len(),
                actions@.len() == n,
                forall|j: int| 0 <= j < actions@.len() ==> #[trigger] actions@[j] >= 0,
                simulation_wf(*self),
                k <= n,
                moves@.len() == idx@.len(),
                forall|i: int| 0 <= i < moves@.len() ==> #[trigger] intent_for(self.participants@, moves@[i], idx@[i]),
                forall|i: int| 0 <= i < idx@.len() ==> #[trigger] idx@[i] < k,
                forall|i: int, j: int| 0 <= i < j < idx@.len() ==> #[trigger] idx@[i] < #[trigger] idx@[j],
                forall|a: int| 0 <= a < k && self.participants@[a].active ==> #[trigger] index_listed(idx@, a),
                forall|i: int| 0 <= i < moves@.len() && actions@[idx@[i] as int] == 0 ==> (#[trigger] moves@[i]).mode == CombatMoveMode::Hold
                    && moves@[i].to == moves@[i].from,
            decreases n - k,
        {
            if self.participants[k].active {
                let m = self.plan_move(k, actions[k], occupancy)?;
                let ghost prev = idx@;
                let ghost prev_moves = moves@;
                moves.push(m);
                idx.push(k);
                proof {
                    assert forall|i: int| 0 <= i < moves@.len() && actions@[idx@[i] as int] == 0 implies (#[trigger] moves@[i]).mode
                        == CombatMoveMode::Hold && moves@[i].to == moves@[i].from by {
                        if i < prev.len() {
                            assert(moves@[i] == prev_moves[i] && idx@[i] == prev[i]);
                        }
                    }
                    assert forall|i: int| 0 <= i < moves@.len() implies #[trigger] intent_for(self.participants@, moves@[i], idx@[i]) by {
                        if i < prev.len() {
                            assert(moves@[i] == prev_moves[i] && idx@[i] == prev[i]);
                            assert(intent_for(self.participants@, prev_moves[i], prev[i]));
                        } else {
                            assert(moves@[i] == m && idx@[i] == k);
                        }
                    }
                    assert forall|i: int| 0 <= i < idx@.len() implies #[trigger] idx@[i] < k + 1 by {
                        if i < prev.len() {
                            assert(idx@[i] == prev[i]);
                            assert(prev[i] < k);
                        }
                    }
                    assert forall|i: int, j: int| 0 <= i < j < idx@.len() implies #[trigger] idx@[i] < #[trigger] idx@[j] by {
                        if j < prev.len() {
                            assert(idx@[i] == prev[i] && idx@[j] == prev[j]);
                        } else {
                            assert(idx@[i] == prev[i]);
                            assert(prev[i] < k);
                        }
                    }
                    assert forall|a: int| 0 <= a < k + 1 && self.participants@[a].active implies #[trigger] index_listed(idx@, a) by {
                        if a < k {
                            assert(index_listed(prev, a));
                            let i = choose|i: int| 0 <= i < prev.len() && prev[i] == a;
                            assert(idx@[i] == a);
                        } else {
                            assert(idx@[prev.len() as int] == a);
                        }
                    }
                }
            }
            k += 1;
        }
        Ok((moves, idx))
    }

    #[verifier::rlimit(50)]
    /// Runs one tick: gauges fill, each active participant picks a target
    /// and moves (participant order, which is id order), contended
    /// destinations hold, and the frame records every position.
    pub fn advance_tick(&mut self) -> (r: Result<CombatTickFrame, CombatSimulationError>)
        requires
            simulation_wf(*old(self)),
        ensures
            final(self).input == old(self).input,
            old(self).tick >= old(self).input.config.max_ticks ==> r == Err::<CombatTickFrame, CombatSimulationError>(
                CombatSimulationError::MaxTicksExceeded,
            ),
            r is Err ==> *final(self) == *old(self),
            r is Ok ==> simulation_wf(*final(self)) && final(self).tick == old(self).tick + 1,
            r is Ok ==> same_roster(old(self).participants@, final(self).participants@),
            r matches Ok(f) ==> f.tick == final(self).tick && f.fingerprint@ == tick_frame_fingerprint(f)
                && positions_of(f.positions@, final(self).participants@),
            r matches Ok(f) ==> forall|i: int| 0 <= i < f.moves@.len() ==> #[trigger] made_by_someone(
                old(self).participants@,
                final(self).participants@,
                f.moves@[i],
            ),
            r matches Ok(f) ==> forall|k: int|
                0 <= k < old(self).participants@.len() && old(self).participants@[k].active ==> #[trigger] has_move(
                    old(self).participants@,
                    final(self).participants@,
                    f.moves@,
                    k,
                ),
            r matches Ok(f) ==> forall|k: int|
                0 <= k < old(self).participants@.len() && !old(self).participants@[k].active ==> #[trigger] final(self).participants@[k].position
                    == old(self).participants@[k].position,
            r matches Ok(f) ==> moves_in_roster_order(old(self).participants@, final(self).participants@, f.moves@),
            r matches Ok(f) ==> contention_applied(old(self).participants@, f.moves@),
            r matches Ok(f) ==> sim_tick_made(*old(self), *final(self), f),
            r is Ok ==> gauges_filled(*old(self), *final(self)),
            r is Ok ==> forall|k: int|
                0 <= k < old(self).participants@.len() && old(self).participants@[k].active && filled_split(
                    old(self).move_gauges@[k],
                    old(self).participants@[k],
                ).0 == 0 ==> #[trigger] final(self).participants@[k].position == old(self).participants@[k].position,
    {
        if self.tick >= self.input.config.max_ticks {
            return Err(CombatSimulationError::MaxTicksExceeded);
        }
        let occupancy = occupancy_snapshot(&self.participants)?;
        let (actions, gauges) = fill_gauges(&self.participants, &self.move_gauges)?;
        let (mut moves, actor_index) = self.plan_moves(&actions, &occupancy)?;
        let ghost before = self.participants@;
        let ghost pre_moves = moves@;
        let mut occupies: Vec<Vec<HexCoord>> = Vec::new();
        let mut i: usize = 0;
        while i < moves.len()
            invariant
                occupies@.len() == i,
                i <= moves@.len(),
                moves@ == pre_moves,
                forall|x: int| 0 <= x < i ==> (#[trigger] occupies@[x])@ == before[actor_index@[x] as int].occupies@,
                before == self.participants@,
                actor_index@.len() == pre_moves.len(),
                forall|x: int| 0 <= x < pre_moves.len() ==> #[trigger] intent_for(before, pre_moves[x], actor_index@[x]),
            decreases moves@.len() - i,
        {
            assert(intent_for(before, pre_moves[i as int], actor_index@[i as int]));
            let occ = self.participants[actor_index[i]].occupies.clone();
            assert(occ@ =~= before[actor_index@[i as int] as int].occupies@);
            occupies.push(occ);
            i += 1;
        }
        resolve_destination_contention(&mut moves, &occupies)?;
        assert(planned_and_resolved(before, pre_moves, actor_index@, occupies@, moves@));
        assert forall|x: int| 0 <= x < actor_index@.len() implies #[trigger] actor_index@[x] < self.participants@.len() by {
            assert(intent_for(before, pre_moves[x], actor_index@[x]));
        }
        self.apply_moves(&moves, &actor_index);
        proof {
            assert forall|k: int| 0 <= k < old(self).participants@.len() implies #[trigger] gauges@[k] == if old(
                self,
            ).participants@[k].active {
                filled_split(old(self).move_gauges@[k], old(self).participants@[k]).1
            } else {
                old(self).move_gauges@[k] as int
            } by {
                assert(actions@[k] >= 0);
            }
        }
        self.move_gauges = gauges;
        self.tick = self.tick + 1;
        let positions = positions_list(&self.participants);
        proof {
            lemma_tick_moves(before, self.participants@, pre_moves, moves@, actor_index@);
            assert forall|x: int| 0 <= x < moves@.len() implies #[trigger] moved_by(before, self.participants@, moves@[x], actor_index@[x] as int) by {
                assert(intent_for(before, pre_moves[x], actor_index@[x]));
                lemma_tick_move(before, self.participants@, pre_moves[x], moves@[x], actor_index@[x]);
            }
            assert(roster_indices(before, self.participants@, moves@, actor_index@));
            let fin = self.participants@;
            assert forall|k: int| 0 <= k < fin.len() implies has_role(self.input.roles@, #[trigger] fin[k].role_id@) by {
                assert(fin[k].role_id == before[k].role_id);
                assert(has_role(old(self).input.roles@, old(self).participants@[k].role_id@));
            }
            assert forall|k: int|
                0 <= k < before.len() && before[k].active && filled_split(old(self).move_gauges@[k], before[k]).0 == 0 implies
                #[trigger] fin[k].position == before[k].position by {
                assert(index_listed(actor_index@, k));
                let x = choose|x: int| 0 <= x < actor_index@.len() && actor_index@[x] == k;
                assert(actions@[k] == filled_split(old(self).move_gauges@[k], before[k]).0);
                assert(intent_for(before, pre_moves[x], actor_index@[x]));
                assert(kept_or_held(moves@[x], pre_moves[x]));
                assert(pre_moves[x].mode == CombatMoveMode::Hold && pre_moves[x].to == pre_moves[x].from);
                assert(fin[actor_index@[x] as int].position == moves@[x].to);
            }
        }
        let frame = frame_with_fingerprint(self.tick, moves, positions);
        Ok(frame)
    }

    /// Moves participant `idx[i]` to `moves[i].to`, for every `i`.
    fn apply_moves(&mut self, moves: &Vec<CombatMoveIntent>, idx: &Vec<usize>)
        requires
            moves@.len() == idx@.len(),
            forall|x: int| 0 <= x < idx@.len() ==> #[trigger] idx@[x] < old(self).participants@.len(),
            forall|x: int, y: int| 0 <= x < y < idx@.len() ==> #[trigger] idx@[x] < #[trigger] idx@[y],
        ensures
            final(self).input == old(self).input,
            final(self).tick == old(self).tick,
            final(self).move_gauges == old(self).move_gauges,
            same_roster(old(self).participants@, final(self).participants@),
            forall|x: int| 0 <= x < idx@.len() ==> final(self).participants@[#[trigger] idx@[x] as int].position == moves@[x].to,
            forall|a: int| 0 <= a < old(self).participants@.len() && (forall|x: int| 0 <= x < idx@.len() ==> #[trigger] idx@[x] != a)
                ==> #[trigger] final(self).participants@[a].position == old(self).participants@[a].position,
    {
        let m = moves.len();
        let ghost before = self.participants@;
        let mut i: usize = 0;
        while i < m
            invariant
                m == moves@.len(),
                m == idx@.len(),
                before == old(self).participants@,
                i <= m,
                same_roster(before, self.participants@),
                self.input == old(self).input,
                self.tick == old(self).tick,
                self.move_gauges == old(self).move_gauges,
                forall|x: int| 0 <= x < idx@.len() ==> #[trigger] idx@[x] < before.len(),
                forall|x: int, y: int| 0 <= x < y < idx@.len() ==> #[trigger] idx@[x] < #[trigger] idx@[y],
                forall|x: int| 0 <= x < i ==> self.participants@[#[trigger] idx@[x] as int].position == moves@[x].to,
                forall|a: int| 0 <= a < before.len() && (forall|x: int| 0 <= x < i ==> #[trigger] idx@[x] != a) ==> #[trigger] self.participants@[a].position == before[a].position,
            decreases m - i,
        {
            let a = idx[i];
            let mut p = self.participants[a].clone();
            p.position = moves[i].to;
            self.participants.set(a, p);
            i += 1;
        }
    }
}


/// The first health value listed for `id`.
pub open spec fn health_of(h: Seq<(String, i64)>, id: Seq<char>) -> Option<i64>
    decreases h.len(),
{
    if h.len() == 0 {
        None
    } else if h[0].0@ == id {
        Some(h[0].1)
    } else {
        health_of(h.drop_first(), id)
    }
}

fn find_health(h: &Vec<(String, i64)>, id: &str) -> (r: Option<i64>)
    ensures
        r == health_of(h@, id@),
{
    let n = h.len();
    let mut i: usize = 0;
    assert(h@.skip(0) =~= h@);
    while i < n
        invariant
            n == h@.len(),
            i <= n,
            health_of(h@, id@) == health_of(h@.skip(i as int), id@),
        decreases n - i,
    {
        if str_eq(h[i].0.as_str(), id) {
            return Some(h[i].1);
        }
        assert(h@.skip(i as int).drop_first() =~= h@.skip(i + 1));
        i += 1;
    }
    None
}

/// Whether the health list calls this participant down.
pub open spec fn downed(h: Seq<(String, i64)>, id: Seq<char>) -> bool {
    health_of(h, id) matches Some(v) && v <= 0
}

impl CombatSimulation {
    /// Runs `count` ticks, or refuses with `MaxTicksExceeded` when they would
    /// pass the configured limit.
    pub fn run_ticks(&mut self, count: u32) -> (r: Result<Vec<CombatTickFrame>, CombatSimulationError>)
        requires
            simulation_wf(*old(self)),
        ensures
            final(self).input == old(self).input,
            count > old(self).input.config.max_ticks - old(self).tick ==> r == Err::<Vec<CombatTickFrame>, CombatSimulationError>(
                CombatSimulationError::MaxTicksExceeded,
            ),
            r is Ok ==> simulation_wf(*final(self)) && final(self).tick == old(self).tick + count,
            r matches Ok(frames) ==> frames@.len() == count && forall|i: int|
                0 <= i < count ==> #[trigger] frames@[i].tick == old(self).tick + i + 1 && frames@[i].fingerprint@
                    == tick_frame_fingerprint(frames@[i]),
            r matches Ok(frames) ==> ticks_run(*old(self), *final(self), frames@),
    {
        if count > self.input.config.max_ticks - self.tick {
            return Err(CombatSimulationError::MaxTicksExceeded);
        }
        let ghost start = self.tick;
        let ghost mut sims: Seq<CombatSimulation> = seq![*self];
        let mut frames: Vec<CombatTickFrame> = Vec::new();
        let mut i: u32 = 0;
        while i < count
            invariant
                simulation_wf(*self),
                self.input == old(self).input,
                start == old(self).tick,
                self.tick == start + i,
                count <= self.input.config.max_ticks - start,
                i <= count,
                frames@.len() == i,
                forall|j: int| 0 <= j < i ==> #[trigger] frames@[j].tick == start + j + 1 && frames@[j].fingerprint@
                    == tick_frame_fingerprint(frames@[j]),
                sims.len() == i + 1,
                sims[0] == *old(self),
                sims[i as int] == *self,
                forall|j: int| 0 <= j < i ==> #[trigger] sim_tick_made(sims[j], sims[j + 1], frames@[j]),
            decreases count - i,
        {
            let ghost prev_frames = frames@;
            let ghost prev_sims = sims;
            let f = self.advance_tick()?;
            frames.push(f);
            proof {
                sims = sims.push(*self);
                assert forall|j: int| 0 <= j < i + 1 implies #[trigger] sim_tick_made(sims[j], sims[j + 1], frames@[j]) by {
                    if j < i {
                        assert(frames@[j] == prev_frames[j]);
                        assert(sims[j] == prev_sims[j] && sims[j + 1] == prev_sims[j + 1]);
                    }
                }
            }
            i += 1;
        }
        proof {
            assert(sim_chain(sims, frames@));
        }
        Ok(frames)
    }

    /// Marks inactive every participant the health list calls down
    /// (health at or below zero); nothing else changes.
    pub fn sync_active_from_health(&mut self, health: &Vec<(String, i64)>) -> (r: Result<(), CombatSimulationError>)
        requires
            simulation_wf(*old(self)),
        ensures
            r is Ok,
            simulation_wf(*final(self)),
            final(self).input == old(self).input,
            final(self).tick == old(self).tick,
            final(self).move_gauges == old(self).move_gauges,
            final(self).participants@.len() == old(self).participants@.len(),
            forall|k: int| 0 <= k < old(self).participants@.len() ==> {
                let a = #[trigger] final(self).participants@[k];
                let b = old(self).participants@[k];
                &&& a.id == b.id
                &&& a.side == b.side
                &&& a.position == b.position
                &&& a.role_id == b.role_id
                &&& a.occupies@ == b.occupies@
                &&& a.active == (b.active && !downed(health@, b.id@))
            },
    {
        let n = self.participants.len();
        let mut k: usize = 0;
        while k < n
            invariant
                n == self.participants@.len(),
                n == old(self).participants@.len(),
                k <= n,
                self.input == old(self).input,
                self.tick == old(self).tick,
                self.move_gauges == old(self).move_gauges,
                forall|j: int| 0 <= j < n ==> {
                    let a = #[trigger] self.participants@[j];
                    let b = old(self).participants@[j];
                    &&& a.id == b.id
                    &&& a.side == b.side
                    &&& a.position == b.position
                    &&& a.role_id == b.role_id
                    &&& a.occupies@ == b.occupies@
                    &&& a.active == if j < k { b.active && !downed(health@, b.id@) } else { b.active }
                },
            decreases n - k,
        {
            let h = find_health(health, self.participants[k].id.as_str());
            let down = match h {
                Some(v) => v <= 0,
                None => false,
            };
            if down {
                let mut p = self.participants[k].clone();
                p.active = false;
                let ghost prev = self.participants@;
                self.participants.set(k, p);
                proof {
                    assert forall|j: int| 0 <= j < n implies {
                        let a = #[trigger] self.participants@[j];
                        let b = old(self).participants@[j];
                        &&& a.id == b.id
                        &&& a.side == b.side
                        &&& a.position == b.position
                        &&& a.role_id == b.role_id
                        &&& a.occupies@ == b.occupies@
                        &&& a.active == if j < k + 1 { b.active && !downed(health@, b.id@) } else { b.active }
                    } by {
                        if j != k {
                            assert(self.participants@[j] == prev[j]);
                        }
                    }
                }
            }
            k += 1;
        }
        proof {
            assert forall|j: int| 0 <= j < self.participants@.len() implies has_role(self.input.roles@, #[trigger] self.participants@[j].role_id@) by {
                assert(has_role(old(self).input.roles@, old(self).participants@[j].role_id@));
            }
        }
        Ok(())
    }
}

} // verus!
