//! The rules of a content-driven story turn: the player's five resources,
//! what a cost takes and how it is shown, which conditions hold, which
//! choices and encounters are open, what passing a turn does, and the
//! movement and item actions.
use vstd::prelude::*;
use crate::effects::texts;
use crate::final_epilogue::render::{join, join_strings};
use crate::content::{find_key, IndexModel, AchievementDef, ChoiceDef, ContentConditions, ContentIndex, EncounterDef, ItemDef, LocationDef};
use crate::scene_page::chars_of;
use crate::state::{contains_str, with_once, without_first, GameState, GameStateModel, HistoryModel, PlayerModel, PlayerState};
use crate::turn::{ability_score, player_ability, ActionResult, ActionView, BlockedActionView, ContentActionError};
use crate::effects::EffectCue;
use crate::text::{append_i64, append_u64, dec_text, has_prefix, int_text, starts_with, str_eq};

verus! {

pub const RESOURCE_HEALTH: &'static str = "health";

pub const RESOURCE_SANITY: &'static str = "sanity";

pub const RESOURCE_BATTERY: &'static str = "battery";

pub const RESOURCE_HUNGER: &'static str = "hunger";

pub const RESOURCE_THIRST: &'static str = "thirst";

pub const ACTION_PREFIX_CHOICE: &'static str = "choice:";

pub const ACTION_PREFIX_MOVE: &'static str = "move:";

pub const ACTION_PREFIX_USE: &'static str = "use:";

// ---------------------------------------------------------------- resources

/// The value of a resource; an unknown resource reads as zero.
pub open spec fn resource_value(p: PlayerModel, r: Seq<char>) -> i32 {
    if r == "health"@ {
        p.health
    } else if r == "sanity"@ {
        p.sanity
    } else if r == "battery"@ {
        p.battery
    } else if r == "hunger"@ {
        p.hunger
    } else if r == "thirst"@ {
        p.thirst
    } else {
        0
    }
}

/// A resource value kept between 0 and 100.
pub open spec fn clamp_spec(v: int) -> i32 {
    if v < 0 {
        0
    } else if v > 100 {
        100
    } else {
        v as i32
    }
}

/// Whether adding `amount` to the resource stays within `i32`.
pub open spec fn delta_fits(p: PlayerModel, r: Seq<char>, amount: int) -> bool {
    i32::MIN <= resource_value(p, r) + amount <= i32::MAX
}

/// The player after `amount` is added to a resource and the result clamped;
/// an unknown resource changes nothing.
pub open spec fn with_delta(p: PlayerModel, r: Seq<char>, amount: int) -> PlayerModel {
    let v = clamp_spec(resource_value(p, r) + amount);
    if r == "health"@ {
        PlayerModel { health: v, ..p }
    } else if r == "sanity"@ {
        PlayerModel { sanity: v, ..p }
    } else if r == "battery"@ {
        PlayerModel { battery: v, ..p }
    } else if r == "hunger"@ {
        PlayerModel { hunger: v, ..p }
    } else if r == "thirst"@ {
        PlayerModel { thirst: v, ..p }
    } else {
        p
    }
}

/// A value clamped to 0..=100.
pub fn clamp_resource(value: i32) -> (r: i32)
    ensures
        r == clamp_spec(value as int),
{
    if value < 0 {
        0
    } else if value > 100 {
        100
    } else {
        value
    }
}

/// The value of a resource of the player; an unknown resource reads as zero.
pub fn player_resource(player: &PlayerState, resource: &str) -> (r: i32)
    ensures
        r == resource_value(player@, resource@),
{
    if str_eq(resource, RESOURCE_HEALTH) {
        player.health
    } else if str_eq(resource, RESOURCE_SANITY) {
        player.sanity
    } else if str_eq(resource, RESOURCE_BATTERY) {
        player.battery
    } else if str_eq(resource, RESOURCE_HUNGER) {
        player.hunger
    } else if str_eq(resource, RESOURCE_THIRST) {
        player.thirst
    } else {
        0
    }
}

/// Adds `amount` to a resource and clamps it to 0..=100.
pub fn apply_player_resource_delta(player: &mut PlayerState, resource: &str, amount: i32)
    requires
        delta_fits(old(player)@, resource@, amount as int),
    ensures
        final(player)@ == with_delta(old(player)@, resource@, amount as int),
{
    if str_eq(resource, RESOURCE_HEALTH) {
        player.health = clamp_resource(player.health + amount);
    } else if str_eq(resource, RESOURCE_SANITY) {
        player.sanity = clamp_resource(player.sanity + amount);
    } else if str_eq(resource, RESOURCE_BATTERY) {
        player.battery = clamp_resource(player.battery + amount);
    } else if str_eq(resource, RESOURCE_HUNGER) {
        player.hunger = clamp_resource(player.hunger + amount);
    } else if str_eq(resource, RESOURCE_THIRST) {
        player.thirst = clamp_resource(player.thirst + amount);
    }
}

/// The display name of a resource; an unknown one is shown as itself.
pub open spec fn resource_label_spec(r: Seq<char>) -> Seq<char> {
    if r == "health"@ {
        "체력"@
    } else if r == "sanity"@ {
        "정신력"@
    } else if r == "battery"@ {
        "배터리"@
    } else if r == "hunger"@ {
        "허기"@
    } else if r == "thirst"@ {
        "갈증"@
    } else {
        r
    }
}

pub fn resource_label(resource: &str) -> (r: &str)
    ensures
        r@ == resource_label_spec(resource@),
{
    if str_eq(resource, RESOURCE_HEALTH) {
        "체력"
    } else if str_eq(resource, RESOURCE_SANITY) {
        "정신력"
    } else if str_eq(resource, RESOURCE_BATTERY) {
        "배터리"
    } else if str_eq(resource, RESOURCE_HUNGER) {
        "허기"
    } else if str_eq(resource, RESOURCE_THIRST) {
        "갈증"
    } else {
        resource
    }
}

/// Whether a cost in this resource is paid out of the player's stock
/// (health, sanity and battery are; hunger and thirst grow instead).
pub open spec fn spendable(r: Seq<char>) -> bool {
    r == "health"@ || r == "sanity"@ || r == "battery"@
}

pub fn is_spendable_resource(resource: &str) -> (r: bool)
    ensures
        r == spendable(resource@),
{
    str_eq(resource, RESOURCE_HEALTH) || str_eq(resource, RESOURCE_SANITY) || str_eq(resource, RESOURCE_BATTERY)
}

/// What a cost of `amount` does to the resource: hunger and thirst grow by
/// it, every other resource drops by it.
pub open spec fn cost_delta_spec(r: Seq<char>, amount: int) -> int {
    if r == "hunger"@ || r == "thirst"@ {
        amount
    } else {
        -amount
    }
}

pub fn cost_delta(resource: &str, amount: i32) -> (d: i32)
    requires
        amount != i32::MIN,
    ensures
        d == cost_delta_spec(resource@, amount as int),
{
    if str_eq(resource, RESOURCE_HUNGER) || str_eq(resource, RESOURCE_THIRST) {
        amount
    } else {
        -amount
    }
}

// ---------------------------------------------------------------- costs

pub open spec fn abs_nat(d: int) -> nat {
    if d < 0 {
        (-d) as nat
    } else {
        d as nat
    }
}

/// One entry of a cost as shown: the resource, then the signed change.
pub open spec fn cost_part(r: Seq<char>, amount: int) -> Seq<char> {
    let d = cost_delta_spec(r, amount);
    resource_label_spec(r) + " "@ + (if d > 0 {
        "+"@
    } else {
        "-"@
    }) + dec_text(abs_nat(d))
}

/// The shown entries of a cost, in its order, leaving out zero amounts.
pub open spec fn cost_parts(cost: Seq<(String, i32)>) -> Seq<Seq<char>>
    decreases cost.len(),
{
    if cost.len() == 0 {
        Seq::empty()
    } else {
        let e = cost.last();
        if e.1 != 0 {
            cost_parts(cost.drop_last()).push(cost_part(e.0@, e.1 as int))
        } else {
            cost_parts(cost.drop_last())
        }
    }
}

/// The cost as one line, or nothing when no entry changes anything.
pub open spec fn cost_summary_spec(cost: Seq<(String, i32)>) -> Option<Seq<char>> {
    let parts = cost_parts(cost);
    if parts.len() == 0 {
        None
    } else {
        Some(join(parts, ", "@))
    }
}

pub open spec fn amounts_negatable(cost: Seq<(String, i32)>) -> bool {
    forall|i: int| 0 <= i < cost.len() ==> #[trigger] cost[i].1 != i32::MIN
}

fn cost_part_text(resource: &str, amount: i32) -> (r: String)
    requires
        amount != i32::MIN,
    ensures
        r@ == cost_part(resource@, amount as int),
{
    let d = cost_delta(resource, amount);
    let mut out = resource_label(resource).to_string();
    out.append(" ");
    if d > 0 {
        out.append("+");
    } else {
        out.append("-");
    }
    let mag: u64 = if d < 0 {
        (-d) as u64
    } else {
        d as u64
    };
    append_u64(&mut out, mag);
    out
}

/// A cost as shown beside a choice: "label +n" or "label -n" per nonzero
/// entry, joined with commas; nothing when every amount is zero.
pub fn format_cost_summary(cost: &Vec<(String, i32)>) -> (r: Option<String>)
    requires
        amounts_negatable(cost@),
    ensures
        match r {
            Some(s) => cost_summary_spec(cost@) == Some(s@),
            None => cost_summary_spec(cost@) is None,
        },
{
    let mut parts: Vec<String> = Vec::new();
    let n = cost.len();
    let mut i: usize = 0;
    while i < n
        invariant
            n == cost@.len(),
            i <= n,
            amounts_negatable(cost@),
            texts(parts@) == cost_parts(cost@.take(i as int)),
        decreases n - i,
    {
        assert(cost@.take(i + 1).drop_last() =~= cost@.take(i as int));
        let amount = cost[i].1;
        if amount != 0 {
            assert(cost@[i as int].1 != i32::MIN);
            let part = cost_part_text(cost[i].0.as_str(), amount);
            parts.push(part);
            assert(texts(parts@) =~= cost_parts(cost@.take(i as int)).push(cost_part(cost@[i as int].0@, amount as int)));
        }
        i += 1;
    }
    assert(cost@.take(n as int) =~= cost@);
    if parts.len() == 0 {
        None
    } else {
        Some(join_strings(&parts, ", "))
    }
}

/// "label 부족: current/needed".
pub open spec fn shortfall_text(r: Seq<char>, current: int, needed: int) -> Seq<char> {
    resource_label_spec(r) + " 부족: "@ + int_text(current) + "/"@ + int_text(needed)
}

/// "label 초과: current/maximum".
pub open spec fn excess_text(r: Seq<char>, current: int, maximum: int) -> Seq<char> {
    resource_label_spec(r) + " 초과: "@ + int_text(current) + "/"@ + int_text(maximum)
}

/// Why the player cannot pay a cost: one line per spendable resource whose
/// positive amount exceeds what the player has, in the cost's order.
pub open spec fn cost_reasons(cost: Seq<(String, i32)>, p: PlayerModel) -> Seq<Seq<char>>
    decreases cost.len(),
{
    if cost.len() == 0 {
        Seq::empty()
    } else {
        let e = cost.last();
        let cur = resource_value(p, e.0@);
        if spendable(e.0@) && e.1 > 0 && cur < e.1 {
            cost_reasons(cost.drop_last(), p).push(shortfall_text(e.0@, cur as int, e.1 as int))
        } else {
            cost_reasons(cost.drop_last(), p)
        }
    }
}

fn bound_text(label: &str, middle: &str, current: i32, bound: i32) -> (r: String)
    ensures
        r@ == label@ + middle@ + int_text(current as int) + "/"@ + int_text(bound as int),
{
    let mut out = label.to_string();
    out.append(middle);
    append_i64(&mut out, current as i64);
    out.append("/");
    append_i64(&mut out, bound as i64);
    out
}

pub fn cost_unavailable_reasons(cost: &Vec<(String, i32)>, player: &PlayerState) -> (r: Vec<String>)
    ensures
        texts(r@) == cost_reasons(cost@, player@),
{
    let mut out: Vec<String> = Vec::new();
    let n = cost.len();
    let mut i: usize = 0;
    while i < n
        invariant
            n == cost@.len(),
            i <= n,
            texts(out@) == cost_reasons(cost@.take(i as int), player@),
        decreases n - i,
    {
        assert(cost@.take(i + 1).drop_last() =~= cost@.take(i as int));
        let resource = cost[i].0.as_str();
        let amount = cost[i].1;
        let current = player_resource(player, resource);
        if is_spendable_resource(resource) && amount > 0 && current < amount {
            let line = bound_text(resource_label(resource), " 부족: ", current, amount);
            out.push(line);
            assert(texts(out@) =~= cost_reasons(cost@.take(i as int), player@).push(
                shortfall_text(resource@, current as int, amount as int),
            ));
        }
        i += 1;
    }
    assert(cost@.take(n as int) =~= cost@);
    out
}

// ---------------------------------------------------------------- conditions

/// One line per listed text that is present in `have` (when
/// `emit_when_present`) or absent from it (otherwise): the prefix, then the
/// text.
pub open spec fn listed_reasons(
    wanted: Seq<Seq<char>>,
    have: Seq<Seq<char>>,
    emit_when_present: bool,
    prefix: Seq<char>,
) -> Seq<Seq<char>>
    decreases wanted.len(),
{
    if wanted.len() == 0 {
        Seq::empty()
    } else {
        let prev = listed_reasons(wanted.drop_last(), have, emit_when_present, prefix);
        if have.contains(wanted.last()) == emit_when_present {
            prev.push(prefix + wanted.last())
        } else {
            prev
        }
    }
}

/// One line per resource bound the player breaks: below a minimum (or,
/// with `upper`, above a maximum).
pub open spec fn bound_reasons(bounds: Seq<(String, i32)>, p: PlayerModel, upper: bool) -> Seq<Seq<char>>
    decreases bounds.len(),
{
    if bounds.len() == 0 {
        Seq::empty()
    } else {
        let prev = bound_reasons(bounds.drop_last(), p, upper);
        let e = bounds.last();
        let cur = resource_value(p, e.0@);
        if upper && cur > e.1 {
            prev.push(excess_text(e.0@, cur as int, e.1 as int))
        } else if !upper && cur < e.1 {
            prev.push(shortfall_text(e.0@, cur as int, e.1 as int))
        } else {
            prev
        }
    }
}

/// "능력 조건 미충족: ability >= minimum".
pub open spec fn ability_shortfall_text(ability: Seq<char>, minimum: int) -> Seq<char> {
    "능력 조건 미충족: "@ + ability + " >= "@ + int_text(minimum)
}

/// One line per ability minimum the player's score falls short of.
pub open spec fn ability_reasons(mins: Seq<(String, i32)>, abilities: Seq<(Seq<char>, i32)>) -> Seq<Seq<char>>
    decreases mins.len(),
{
    if mins.len() == 0 {
        Seq::empty()
    } else {
        let prev = ability_reasons(mins.drop_last(), abilities);
        let e = mins.last();
        if ability_score(abilities, e.0@) < e.1 {
            prev.push(ability_shortfall_text(e.0@, e.1 as int))
        } else {
            prev
        }
    }
}

/// Why the conditions do not hold of the state, in this order: the place,
/// the disaster, each missing item, each missing flag, each flag that must
/// not be set but is, each missing clue, each resource below its minimum,
/// each above its maximum, each ability below its minimum. The conditions
/// hold when the list is empty.
pub open spec fn condition_reasons(c: ContentConditions, s: GameStateModel) -> Seq<Seq<char>> {
    let place: Seq<Seq<char>> = if c.locations@.len() > 0 && !texts(c.locations@).contains(s.location_id) {
        seq!["현재 위치 조건 불일치"@]
    } else {
        Seq::empty()
    };
    let disaster: Seq<Seq<char>> = if c.disaster_types@.len() > 0 && !texts(c.disaster_types@).contains(s.disaster_type) {
        seq!["재난 유형 조건 불일치"@]
    } else {
        Seq::empty()
    };
    place + disaster
        + listed_reasons(texts(c.required_items@), s.inventory, false, "필요 아이템 없음: "@)
        + listed_reasons(texts(c.required_flags@), s.flags, false, "필요 플래그 없음: "@)
        + listed_reasons(texts(c.forbidden_flags@), s.flags, true, "이미 발생한 플래그: "@)
        + listed_reasons(texts(c.required_clues@), s.clues, false, "필요 단서 없음: "@)
        + bound_reasons(c.min_resources@, s.player, false)
        + bound_reasons(c.max_resources@, s.player, true)
        + ability_reasons(c.min_abilities@, s.player.abilities)
}

pub open spec fn conditions_hold(c: ContentConditions, s: GameStateModel) -> bool {
    condition_reasons(c, s).len() == 0
}

fn push_listed_reasons(
    out: &mut Vec<String>,
    wanted: &Vec<String>,
    have: &Vec<String>,
    emit_when_present: bool,
    prefix: &str,
)
    ensures
        texts(final(out)@) == texts(old(out)@) + listed_reasons(texts(wanted@), texts(have@), emit_when_present, prefix@),
{
    let ghost start = texts(out@);
    let n = wanted.len();
    let mut i: usize = 0;
    while i < n
        invariant
            n == wanted@.len(),
            i <= n,
            texts(out@) == start + listed_reasons(texts(wanted@.take(i as int)), texts(have@), emit_when_present, prefix@),
        decreases n - i,
    {
        let ghost pre = texts(wanted@.take(i + 1));
        assert(pre.drop_last() =~= texts(wanted@.take(i as int)));
        assert(pre.last() == wanted@[i as int]@);
        let present = contains_str(have, wanted[i].as_str()).is_some();
        if present == emit_when_present {
            let mut line = prefix.to_string();
            line.append(wanted[i].as_str());
            let ghost before = out@;
            let ghost lv = line@;
            out.push(line);
            assert(texts(out@) =~= texts(before).push(lv));
            assert(texts(out@) =~= start + listed_reasons(pre.drop_last(), texts(have@), emit_when_present, prefix@).push(
                prefix@ + wanted@[i as int]@,
            ));
        }
        i += 1;
    }
    assert(wanted@.take(n as int) =~= wanted@);
}

fn push_bound_reasons(out: &mut Vec<String>, bounds: &Vec<(String, i32)>, player: &PlayerState, upper: bool)
    ensures
        texts(final(out)@) == texts(old(out)@) + bound_reasons(bounds@, player@, upper),
{
    let ghost start = texts(out@);
    let n = bounds.len();
    let mut i: usize = 0;
    while i < n
        invariant
            n == bounds@.len(),
            i <= n,
            texts(out@) == start + bound_reasons(bounds@.take(i as int), player@, upper),
        decreases n - i,
    {
        assert(bounds@.take(i + 1).drop_last() =~= bounds@.take(i as int));
        let resource = bounds[i].0.as_str();
        let bound = bounds[i].1;
        let current = player_resource(player, resource);
        if upper && current > bound {
            let line = bound_text(resource_label(resource), " 초과: ", current, bound);
            let ghost before = out@;
            let ghost lv = line@;
            out.push(line);
            assert(texts(out@) =~= texts(before).push(lv));
            assert(texts(out@) =~= start + bound_reasons(bounds@.take(i as int), player@, upper).push(lv));
        } else if !upper && current < bound {
            let line = bound_text(resource_label(resource), " 부족: ", current, bound);
            let ghost before = out@;
            let ghost lv = line@;
            out.push(line);
            assert(texts(out@) =~= texts(before).push(lv));
            assert(texts(out@) =~= start + bound_reasons(bounds@.take(i as int), player@, upper).push(lv));
        }
        i += 1;
    }
    assert(bounds@.take(n as int) =~= bounds@);
}

fn push_ability_reasons(out: &mut Vec<String>, mins: &Vec<(String, i32)>, player: &PlayerState)
    ensures
        texts(final(out)@) == texts(old(out)@) + ability_reasons(mins@, player@.abilities),
{
    let ghost start = texts(out@);
    let n = mins.len();
    let mut i: usize = 0;
    while i < n
        invariant
            n == mins@.len(),
            i <= n,
            texts(out@) == start + ability_reasons(mins@.take(i as int), player@.abilities),
        decreases n - i,
    {
        assert(mins@.take(i + 1).drop_last() =~= mins@.take(i as int));
        let ability = mins[i].0.as_str();
        let minimum = mins[i].1;
        if player_ability(&player.abilities, ability) < minimum {
            let mut line = "능력 조건 미충족: ".to_string();
            line.append(ability);
            line.append(" >= ");
            append_i64(&mut line, minimum as i64);
            let ghost before = out@;
            let ghost lv = line@;
            out.push(line);
            assert(texts(out@) =~= texts(before).push(lv));
            assert(texts(out@) =~= start + ability_reasons(mins@.take(i as int), player@.abilities).push(
                ability_shortfall_text(ability@, minimum as int),
            ));
        }
        i += 1;
    }
    assert(mins@.take(n as int) =~= mins@);
}

/// Why the conditions do not hold of the state (empty when they do).
pub fn conditions_unavailable_reasons(conditions: &ContentConditions, state: &GameState) -> (r: Vec<String>)
    ensures
        texts(r@) == condition_reasons(*conditions, state@),
{
    let mut out: Vec<String> = Vec::new();
    if conditions.locations.len() > 0 && contains_str(&conditions.locations, state.location_id.as_str()).is_none() {
        out.push("현재 위치 조건 불일치".to_string());
    }
    if conditions.disaster_types.len() > 0 && contains_str(&conditions.disaster_types, state.disaster_type.as_str()).is_none() {
        out.push("재난 유형 조건 불일치".to_string());
    }
    let ghost head = texts(out@);
    push_listed_reasons(&mut out, &conditions.required_items, &state.inventory, false, "필요 아이템 없음: ");
    push_listed_reasons(&mut out, &conditions.required_flags, &state.flags, false, "필요 플래그 없음: ");
    push_listed_reasons(&mut out, &conditions.forbidden_flags, &state.flags, true, "이미 발생한 플래그: ");
    push_listed_reasons(&mut out, &conditions.required_clues, &state.clues, false, "필요 단서 없음: ");
    push_bound_reasons(&mut out, &conditions.min_resources, &state.player, false);
    push_bound_reasons(&mut out, &conditions.max_resources, &state.player, true);
    push_ability_reasons(&mut out, &conditions.min_abilities, &state.player);
    proof {
        let c = *conditions;
        let s = state@;
        let place: Seq<Seq<char>> = if c.locations@.len() > 0 && !texts(c.locations@).contains(s.location_id) {
            seq!["현재 위치 조건 불일치"@]
        } else {
            Seq::empty()
        };
        let disaster: Seq<Seq<char>> = if c.disaster_types@.len() > 0 && !texts(c.disaster_types@).contains(s.disaster_type) {
            seq!["재난 유형 조건 불일치"@]
        } else {
            Seq::empty()
        };
        assert(head =~= place + disaster);
    }
    out
}

/// Listing the wanted entries that are missing (or, with
/// `emit_when_present`, present) lists nothing exactly when every wanted
/// entry is there (or none is).
pub proof fn lemma_listed_reasons_empty(wanted: Seq<Seq<char>>, have: Seq<Seq<char>>, emit_when_present: bool, prefix: Seq<char>)
    ensures
        listed_reasons(wanted, have, emit_when_present, prefix).len() == 0 <==> forall|i: int|
            0 <= i < wanted.len() ==> have.contains(#[trigger] wanted[i]) != emit_when_present,
    decreases wanted.len(),
{
    if wanted.len() > 0 {
        let w = wanted.drop_last();
        let n = wanted.len() - 1;
        lemma_listed_reasons_empty(w, have, emit_when_present, prefix);
        assert forall|i: int| 0 <= i < w.len() implies #[trigger] w[i] == wanted[i] by {}
        if have.contains(wanted[n]) == emit_when_present {
            assert(!(have.contains(wanted[n]) != emit_when_present));
        } else {
            if forall|i: int| 0 <= i < w.len() ==> have.contains(#[trigger] w[i]) != emit_when_present {
                assert forall|i: int| 0 <= i < wanted.len() implies have.contains(#[trigger] wanted[i]) != emit_when_present by {
                    if i < n {
                        assert(w[i] == wanted[i]);
                    }
                }
            } else {
                let j = choose|j: int| 0 <= j < w.len() && !(have.contains(#[trigger] w[j]) != emit_when_present);
                assert(w[j] == wanted[j]);
            }
        }
    }
}

/// When the conditions hold, the player stands at one of the listed places
/// (if any are listed) in one of the listed disasters (if any), carries
/// every required item, has every required flag and clue, and has none of
/// the forbidden flags.
pub proof fn lemma_conditions_hold_means(c: ContentConditions, s: GameStateModel)
    requires
        conditions_hold(c, s),
    ensures
        c.locations@.len() > 0 ==> texts(c.locations@).contains(s.location_id),
        c.disaster_types@.len() > 0 ==> texts(c.disaster_types@).contains(s.disaster_type),
        forall|i: int| 0 <= i < c.required_items@.len() ==> s.inventory.contains(#[trigger] c.required_items@[i]@),
        forall|i: int| 0 <= i < c.required_flags@.len() ==> s.flags.contains(#[trigger] c.required_flags@[i]@),
        forall|i: int| 0 <= i < c.forbidden_flags@.len() ==> !s.flags.contains(#[trigger] c.forbidden_flags@[i]@),
        forall|i: int| 0 <= i < c.required_clues@.len() ==> s.clues.contains(#[trigger] c.required_clues@[i]@),
{
    lemma_listed_reasons_empty(texts(c.required_items@), s.inventory, false, "필요 아이템 없음: "@);
    lemma_listed_reasons_empty(texts(c.required_flags@), s.flags, false, "필요 플래그 없음: "@);
    lemma_listed_reasons_empty(texts(c.forbidden_flags@), s.flags, true, "이미 발생한 플래그: "@);
    lemma_listed_reasons_empty(texts(c.required_clues@), s.clues, false, "필요 단서 없음: "@);
    assert forall|i: int| 0 <= i < c.required_items@.len() implies s.inventory.contains(#[trigger] c.required_items@[i]@) by {
        assert(texts(c.required_items@)[i] == c.required_items@[i]@);
    }
    assert forall|i: int| 0 <= i < c.required_flags@.len() implies s.flags.contains(#[trigger] c.required_flags@[i]@) by {
        assert(texts(c.required_flags@)[i] == c.required_flags@[i]@);
    }
    assert forall|i: int| 0 <= i < c.forbidden_flags@.len() implies !s.flags.contains(#[trigger] c.forbidden_flags@[i]@) by {
        assert(texts(c.forbidden_flags@)[i] == c.forbidden_flags@[i]@);
    }
    assert forall|i: int| 0 <= i < c.required_clues@.len() implies s.clues.contains(#[trigger] c.required_clues@[i]@) by {
        assert(texts(c.required_clues@)[i] == c.required_clues@[i]@);
    }
}

/// Whether the conditions hold of the state.
pub fn conditions_match(conditions: &ContentConditions, state: &GameState) -> (r: bool)
    ensures
        r == conditions_hold(*conditions, state@),
{
    conditions_unavailable_reasons(conditions, state).len() == 0
}

// ---------------------------------------------------------------- choices, encounters, achievements

/// Why a choice is closed: its conditions' reasons, then its cost's.
pub open spec fn choice_reasons(ch: ChoiceDef, s: GameStateModel) -> Seq<Seq<char>> {
    condition_reasons(ch.conditions, s) + cost_reasons(ch.cost@, s.player)
}

pub open spec fn choice_open(ch: ChoiceDef, s: GameStateModel) -> bool {
    choice_reasons(ch, s).len() == 0
}

/// An encounter is open when it is repeatable or not yet seen, its
/// conditions hold, and at least one of its choices is open.
pub open spec fn encounter_open(e: EncounterDef, s: GameStateModel) -> bool {
    &&& (e.repeatable || !s.seen_encounters.contains(e.id@))
    &&& conditions_hold(e.conditions, s)
    &&& exists|i: int| 0 <= i < e.choices@.len() && choice_open(#[trigger] e.choices@[i], s)
}

pub fn choice_unavailable_reasons(choice: &ChoiceDef, state: &GameState) -> (r: Vec<String>)
    ensures
        texts(r@) == choice_reasons(*choice, state@),
{
    let mut out = conditions_unavailable_reasons(&choice.conditions, state);
    let more = cost_unavailable_reasons(&choice.cost, &state.player);
    let ghost a = texts(out@);
    let ghost b = texts(more@);
    let mut k: usize = 0;
    while k < more.len()
        invariant
            k <= more@.len(),
            b == texts(more@),
            texts(out@) == a + b.take(k as int),
        decreases more@.len() - k,
    {
        let ghost before = out@;
        out.push(more[k].clone());
        assert(texts(out@) =~= texts(before).push(b[k as int]));
        assert(b.take(k + 1) =~= b.take(k as int).push(b[k as int]));
        k += 1;
    }
    assert(b.take(b.len() as int) =~= b);
    out
}

pub fn choice_is_available(choice: &ChoiceDef, state: &GameState) -> (r: bool)
    ensures
        r == choice_open(*choice, state@),
{
    choice_unavailable_reasons(choice, state).len() == 0
}

pub fn encounter_is_available(encounter: &EncounterDef, state: &GameState) -> (r: bool)
    ensures
        r == encounter_open(*encounter, state@),
{
    let fresh = encounter.repeatable || contains_str(&state.seen_encounters, encounter.id.as_str()).is_none();
    if !fresh || !conditions_match(&encounter.conditions, state) {
        return false;
    }
    let n = encounter.choices.len();
    let mut i: usize = 0;
    while i < n
        invariant
            n == encounter.choices@.len(),
            i <= n,
            encounter.repeatable || !state@.seen_encounters.contains(encounter.id@),
            conditions_hold(encounter.conditions, state@),
            forall|k: int| 0 <= k < i ==> !choice_open(#[trigger] encounter.choices@[k], state@),
        decreases n - i,
    {
        if choice_is_available(&encounter.choices[i], state) {
            assert(choice_open(encounter.choices@[i as int], state@));
            return true;
        }
        i += 1;
    }
    false
}

/// An achievement is reached when its conditions hold.
pub fn achievement_unlocked(achievement: &AchievementDef, state: &GameState) -> (r: bool)
    ensures
        r == conditions_hold(achievement.conditions, state@),
{
    conditions_match(&achievement.conditions, state)
}

/// Walking the achievements in order: each reached and not yet unlocked is
/// unlocked and reported. Gives the unlocked list and the reported ids.
pub open spec fn unlock_run(achs: Seq<AchievementDef>, s: GameStateModel) -> (Seq<Seq<char>>, Seq<Seq<char>>)
    decreases achs.len(),
{
    if achs.len() == 0 {
        (s.unlocked_achievements, Seq::empty())
    } else {
        let prev = unlock_run(achs.drop_last(), s);
        let a = achs.last();
        if conditions_hold(a.conditions, s) && !prev.0.contains(a.id@) {
            (prev.0.push(a.id@), prev.1.push(a.id@))
        } else {
            prev
        }
    }
}

/// Unlocks every achievement of the content, in id order, whose conditions
/// hold and which was not unlocked before; returns those ids.
pub fn unlock_achievements(state: &mut GameState, content: &ContentIndex) -> (r: Vec<String>)
    ensures
        texts(r@) == unlock_run(content@.achievements, old(state)@).1,
        final(state)@ == (GameStateModel {
            unlocked_achievements: unlock_run(content@.achievements, old(state)@).0,
            ..old(state)@
        }),
{
    let achs = content.achievements();
    let ghost s0 = state@;
    let mut newly: Vec<String> = Vec::new();
    let n = achs.len();
    let mut i: usize = 0;
    while i < n
        invariant
            n == achs@.len(),
            achs@ == content@.achievements,
            i <= n,
            state@ == (GameStateModel { unlocked_achievements: unlock_run(achs@.take(i as int), s0).0, ..s0 }),
            texts(newly@) == unlock_run(achs@.take(i as int), s0).1,
        decreases n - i,
    {
        assert(achs@.take(i + 1).drop_last() =~= achs@.take(i as int));
        let a = &achs[i];
        assert(conditions_hold(a.conditions, state@) == conditions_hold(a.conditions, s0));
        if achievement_unlocked(a, state) && state.add_unlocked_achievement_once(a.id.as_str()) {
            let ghost before = newly@;
            newly.push(a.id.clone());
            assert(texts(newly@) =~= texts(before).push(a.id@));
        }
        i += 1;
    }
    assert(achs@.take(n as int) =~= achs@);
    newly
}

pub open spec fn choice_action_id(ch: ChoiceDef) -> Seq<char> {
    "choice:"@ + ch.id@
}

pub fn choice_action_view(choice: &ChoiceDef) -> (r: ActionView)
    requires
        amounts_negatable(choice.cost@),
    ensures
        r.id@ == choice_action_id(*choice),
        r.label@ == choice.label@,
        match r.cost_summary {
            Some(c) => cost_summary_spec(choice.cost@) == Some(c@),
            None => cost_summary_spec(choice.cost@) is None,
        },
{
    let mut id = ACTION_PREFIX_CHOICE.to_string();
    id.append(choice.id.as_str());
    ActionView { id, label: choice.label.clone(), cost_summary: format_cost_summary(&choice.cost) }
}

pub fn blocked_choice_action_view(choice: &ChoiceDef, state: &GameState) -> (r: BlockedActionView)
    requires
        amounts_negatable(choice.cost@),
    ensures
        r.id@ == choice_action_id(*choice),
        r.label@ == choice.label@,
        match r.cost_summary {
            Some(c) => cost_summary_spec(choice.cost@) == Some(c@),
            None => cost_summary_spec(choice.cost@) is None,
        },
        texts(r.reasons@) == choice_reasons(*choice, state@),
{
    let mut id = ACTION_PREFIX_CHOICE.to_string();
    id.append(choice.id.as_str());
    BlockedActionView {
        id,
        label: choice.label.clone(),
        cost_summary: format_cost_summary(&choice.cost),
        reasons: choice_unavailable_reasons(choice, state),
    }
}

// ---------------------------------------------------------------- resource changes in sequence

/// The player after each entry is applied in order, as a cost (hunger and
/// thirst grow, the rest drop) or, otherwise, as a plain change.
pub open spec fn deltas_applied(p: PlayerModel, ds: Seq<(String, i32)>, as_cost: bool) -> PlayerModel
    decreases ds.len(),
{
    if ds.len() == 0 {
        p
    } else {
        let e = ds.last();
        let amount = if as_cost {
            cost_delta_spec(e.0@, e.1 as int)
        } else {
            e.1 as int
        };
        with_delta(deltas_applied(p, ds.drop_last(), as_cost), e.0@, amount)
    }
}

/// Whether every step of `deltas_applied` stays within `i32`.
pub open spec fn deltas_fit(p: PlayerModel, ds: Seq<(String, i32)>, as_cost: bool) -> bool
    decreases ds.len(),
{
    if ds.len() == 0 {
        true
    } else {
        let e = ds.last();
        let amount = if as_cost {
            cost_delta_spec(e.0@, e.1 as int)
        } else {
            e.1 as int
        };
        &&& deltas_fit(p, ds.drop_last(), as_cost)
        &&& (as_cost ==> e.1 != i32::MIN)
        &&& delta_fits(deltas_applied(p, ds.drop_last(), as_cost), e.0@, amount)
    }
}

proof fn lemma_deltas_fit_prefix(p: PlayerModel, ds: Seq<(String, i32)>, as_cost: bool, i: int)
    requires
        0 <= i <= ds.len(),
        deltas_fit(p, ds, as_cost),
    ensures
        deltas_fit(p, ds.take(i), as_cost),
    decreases ds.len(),
{
    if i < ds.len() {
        assert(ds.drop_last().take(i) =~= ds.take(i));
        lemma_deltas_fit_prefix(p, ds.drop_last(), as_cost, i);
    } else {
        assert(ds.take(i) =~= ds);
    }
}

pub(crate) fn apply_deltas(player: &mut PlayerState, ds: &Vec<(String, i32)>, as_cost: bool)
    requires
        deltas_fit(old(player)@, ds@, as_cost),
    ensures
        final(player)@ == deltas_applied(old(player)@, ds@, as_cost),
{
    let ghost p0 = player@;
    let n = ds.len();
    let mut i: usize = 0;
    while i < n
        invariant
            n == ds@.len(),
            i <= n,
            deltas_fit(p0, ds@, as_cost),
            player@ == deltas_applied(p0, ds@.take(i as int), as_cost),
        decreases n - i,
    {
        proof {
            lemma_deltas_fit_prefix(p0, ds@, as_cost, i + 1);
            assert(ds@.take(i + 1).drop_last() =~= ds@.take(i as int));
        }
        let resource = ds[i].0.as_str();
        let amount = if as_cost {
            cost_delta(resource, ds[i].1)
        } else {
            ds[i].1
        };
        apply_player_resource_delta(player, resource, amount);
        i += 1;
    }
    assert(ds@.take(n as int) =~= ds@);
}

/// Pays a cost: each entry in order, hunger and thirst growing by it and
/// the other resources dropping by it, every value clamped to 0..=100.
pub fn apply_cost(player: &mut PlayerState, cost: &Vec<(String, i32)>)
    requires
        deltas_fit(old(player)@, cost@, true),
    ensures
        final(player)@ == deltas_applied(old(player)@, cost@, true),
{
    apply_deltas(player, cost, true);
}

// ---------------------------------------------------------------- passing a turn

pub open spec fn thirst_flag() -> Seq<char> {
    "pressure_thirst_warning_seen"@
}

pub open spec fn low_sanity_flag() -> Seq<char> {
    "pressure_low_sanity_warning_seen"@
}

pub open spec fn thirst_log() -> Seq<char> {
    "목이 마르자 가장 가까운 정수기 물소리가 한 박자 늦게 따라온다."@
}

pub open spec fn low_sanity_log() -> Seq<char> {
    "선택지 문장이 화면 가장자리에서 흐려지기 시작했다."@
}

/// Hunger grows by one and thirst by two; at full hunger health drops by
/// two; at full thirst health drops by four and sanity by two.
pub open spec fn pressured(p: PlayerModel) -> PlayerModel {
    let p1 = with_delta(p, "hunger"@, 1);
    let p2 = with_delta(p1, "thirst"@, 2);
    let p3 = if p2.hunger >= 100 {
        with_delta(p2, "health"@, -2)
    } else {
        p2
    };
    if p3.thirst >= 100 {
        with_delta(with_delta(p3, "health"@, -4), "sanity"@, -2)
    } else {
        p3
    }
}

/// Whether every step of `pressured` stays within `i32`.
pub open spec fn pressure_fits(p: PlayerModel) -> bool {
    let p1 = with_delta(p, "hunger"@, 1);
    let p2 = with_delta(p1, "thirst"@, 2);
    let p3 = if p2.hunger >= 100 {
        with_delta(p2, "health"@, -2)
    } else {
        p2
    };
    &&& delta_fits(p, "hunger"@, 1)
    &&& delta_fits(p1, "thirst"@, 2)
    &&& (p2.hunger >= 100 ==> delta_fits(p2, "health"@, -2))
    &&& (p3.thirst >= 100 ==> delta_fits(p3, "health"@, -4) && delta_fits(
        with_delta(p3, "health"@, -4),
        "sanity"@,
        -2,
    ))
}

/// A turn passing: the turn count grows, hunger and thirst press on the
/// player, and each pressure warning is logged (and its flag set) the first
/// time it applies: thirst at 60 or more, sanity between 1 and 39.
pub open spec fn turn_passed(s: GameStateModel) -> (GameStateModel, Seq<Seq<char>>) {
    let p = pressured(s.player);
    let s1 = GameStateModel { turn: (s.turn + 1) as u32, player: p, ..s };
    let thirsty = p.thirst >= 60 && !s1.flags.contains(thirst_flag());
    let s2 = if thirsty {
        GameStateModel { flags: with_once(s1.flags, thirst_flag()), ..s1 }
    } else {
        s1
    };
    let logs2: Seq<Seq<char>> = if thirsty {
        seq![thirst_log()]
    } else {
        Seq::empty()
    };
    let shaken = p.sanity > 0 && p.sanity < 40 && !s2.flags.contains(low_sanity_flag());
    let s3 = if shaken {
        GameStateModel { flags: with_once(s2.flags, low_sanity_flag()), ..s2 }
    } else {
        s2
    };
    let logs3 = if shaken {
        logs2.push(low_sanity_log())
    } else {
        logs2
    };
    (s3, logs3)
}

/// A turn passing counts one more turn, adds one to hunger and two to
/// thirst (each kept within 0..=100), leaves the battery, place, danger,
/// inventory and history as they were, touches health only once hunger or
/// thirst is full and sanity only once thirst is full, and logs at most the
/// two pressure warnings.
pub proof fn lemma_turn_pressure(s: GameStateModel)
    requires
        s.turn < u32::MAX,
    ensures
        turn_passed(s).0.turn == s.turn + 1,
        turn_passed(s).0.player.hunger == clamp_spec(s.player.hunger + 1),
        turn_passed(s).0.player.thirst == clamp_spec(s.player.thirst + 2),
        turn_passed(s).0.player.battery == s.player.battery,
        turn_passed(s).0.player.abilities == s.player.abilities,
        turn_passed(s).0.location_id == s.location_id,
        turn_passed(s).0.danger == s.danger,
        turn_passed(s).0.inventory == s.inventory,
        turn_passed(s).0.history == s.history,
        clamp_spec(s.player.thirst + 2) < 100 ==> turn_passed(s).0.player.sanity == s.player.sanity,
        clamp_spec(s.player.hunger + 1) < 100 && clamp_spec(s.player.thirst + 2) < 100 ==> turn_passed(s).0.player.health
            == s.player.health,
        turn_passed(s).1.len() <= 2,
{
    reveal_strlit("health");
    reveal_strlit("sanity");
    reveal_strlit("battery");
    reveal_strlit("hunger");
    reveal_strlit("thirst");
    assert("hunger"@[1] != "health"@[1] && "hunger"@[0] != "sanity"@[0] && "hunger"@[0] != "battery"@[0]);
    assert("thirst"@[0] != "health"@[0] && "thirst"@[0] != "sanity"@[0] && "thirst"@[0] != "battery"@[0]
        && "thirst"@[0] != "hunger"@[0]);
    assert("health"@[0] != "sanity"@[0] && "health"@[0] != "battery"@[0]);
    assert("sanity"@[0] != "battery"@[0]);
}

pub open spec fn turn_can_pass(s: GameStateModel) -> bool {
    s.turn < u32::MAX && pressure_fits(s.player)
}

/// Passes one turn and returns its warnings.
pub fn advance_turn(state: &mut GameState) -> (r: Vec<String>)
    requires
        turn_can_pass(old(state)@),
    ensures
        final(state)@ == turn_passed(old(state)@).0,
        texts(r@) == turn_passed(old(state)@).1,
{
    state.turn = state.turn + 1;
    apply_player_resource_delta(&mut state.player, RESOURCE_HUNGER, 1);
    apply_player_resource_delta(&mut state.player, RESOURCE_THIRST, 2);
    if state.player.hunger >= 100 {
        apply_player_resource_delta(&mut state.player, RESOURCE_HEALTH, -2);
    }
    if state.player.thirst >= 100 {
        apply_player_resource_delta(&mut state.player, RESOURCE_HEALTH, -4);
        apply_player_resource_delta(&mut state.player, RESOURCE_SANITY, -2);
    }
    let mut logs: Vec<String> = Vec::new();
    if state.player.thirst >= 60 && contains_str(&state.flags, "pressure_thirst_warning_seen").is_none() {
        state.add_flag_once("pressure_thirst_warning_seen");
        logs.push("목이 마르자 가장 가까운 정수기 물소리가 한 박자 늦게 따라온다.".to_string());
    }
    if state.player.sanity > 0 && state.player.sanity < 40 && contains_str(
        &state.flags,
        "pressure_low_sanity_warning_seen",
    ).is_none() {
        state.add_flag_once("pressure_low_sanity_warning_seen");
        let ghost before = logs@;
        logs.push("선택지 문장이 화면 가장자리에서 흐려지기 시작했다.".to_string());
        assert(texts(logs@) =~= texts(before).push(low_sanity_log()));
    }
    proof {
        let s = old(state)@;
        let ts = turn_passed(s);
        assert(texts(logs@) =~= ts.1);
    }
    logs
}

// ---------------------------------------------------------------- movement and item actions

/// What follows a prefix, when the text starts with it.
pub open spec fn strip_spec(s: Seq<char>, p: Seq<char>) -> Option<Seq<char>> {
    if starts_with(s, p) {
        Some(s.skip(p.len() as int))
    } else {
        None
    }
}

pub(crate) fn strip_prefix_text(s: &str, p: &str) -> (r: Option<String>)
    ensures
        match r {
            Some(x) => strip_spec(s@, p@) == Some(x@),
            None => strip_spec(s@, p@) is None,
        },
{
    if has_prefix(s, &chars_of(p)) {
        let from = p.unicode_len();
        let to = s.unicode_len();
        let rest = s.substring_char(from, to).to_string();
        assert(rest@ =~= s@.skip(p@.len() as int));
        Some(rest)
    } else {
        None
    }
}

/// Each action shown as (id, label), with no cost.
pub open spec fn views_are(r: Seq<ActionView>, m: Seq<(Seq<char>, Seq<char>)>) -> bool {
    &&& r.len() == m.len()
    &&& forall|i: int|
        0 <= i < r.len() ==> (#[trigger] r[i]).id@ == m[i].0 && r[i].label@ == m[i].1 && r[i].cost_summary is None
}

/// A destination shown by its location's name, or by its id when the
/// content does not know it.
pub open spec fn move_label(dest: Seq<char>, locs: Seq<LocationDef>) -> Seq<char> {
    match find_key(locs, dest) {
        Some(l) => l.name@,
        None => dest,
    }
}

pub open spec fn move_views(conns: Seq<Seq<char>>, locs: Seq<LocationDef>) -> Seq<(Seq<char>, Seq<char>)> {
    conns.map_values(|d: Seq<char>| ("move:"@ + d, move_label(d, locs)))
}

/// One move action per connection of the location, in its order.
pub fn movement_action_views(location: &LocationDef, content: &ContentIndex) -> (r: Vec<ActionView>)
    ensures
        views_are(r@, move_views(texts(location.connections@), content@.locations)),
{
    let mut out: Vec<ActionView> = Vec::new();
    let n = location.connections.len();
    let mut i: usize = 0;
    while i < n
        invariant
            n == location.connections@.len(),
            i <= n,
            views_are(out@, move_views(texts(location.connections@.take(i as int)), content@.locations)),
        decreases n - i,
    {
        let dest = location.connections[i].as_str();
        let mut id = ACTION_PREFIX_MOVE.to_string();
        id.append(dest);
        let label = match content.location(dest) {
            Some(d) => d.name.clone(),
            None => dest.to_string(),
        };
        let ghost before = out@;
        out.push(ActionView { id, label, cost_summary: None });
        proof {
            let m = move_views(texts(location.connections@.take(i + 1)), content@.locations);
            let m0 = move_views(texts(location.connections@.take(i as int)), content@.locations);
            assert(m =~= m0.push(("move:"@ + dest@, move_label(dest@, content@.locations))));
            assert forall|k: int| 0 <= k < out@.len() implies (#[trigger] out@[k]).id@ == m[k].0 && out@[k].label@
                == m[k].1 && out@[k].cost_summary is None by {
                if k < i {
                    assert(out@[k] == before[k]);
                }
            }
        }
        i += 1;
    }
    assert(location.connections@.take(n as int) =~= location.connections@);
    out
}

/// An item offers a use action when it is usable and does something.
pub open spec fn usable_item(it: ItemDef) -> bool {
    it.usable && it.use_effects@.len() > 0
}

/// The use actions of the inventory, in its order, each item id once,
/// leaving out ids the content does not know and items with no use.
pub open spec fn item_views(inv: Seq<Seq<char>>, items: Seq<ItemDef>) -> Seq<(Seq<char>, Seq<char>)>
    decreases inv.len(),
{
    if inv.len() == 0 {
        Seq::empty()
    } else {
        let prev = item_views(inv.drop_last(), items);
        let x = inv.last();
        if inv.drop_last().contains(x) {
            prev
        } else {
            match find_key(items, x) {
                Some(it) => if usable_item(it) {
                    prev.push(("use:"@ + it.id@, it.name@))
                } else {
                    prev
                },
                None => prev,
            }
        }
    }
}

pub fn item_action_views(state: &GameState, content: &ContentIndex) -> (r: Vec<ActionView>)
    ensures
        views_are(r@, item_views(state@.inventory, content@.items)),
{
    let mut actions: Vec<ActionView> = Vec::new();
    let mut seen: Vec<String> = Vec::new();
    let n = state.inventory.len();
    let mut i: usize = 0;
    while i < n
        invariant
            n == state.inventory@.len(),
            i <= n,
            forall|x: Seq<char>| texts(seen@).contains(x) <==> texts(state.inventory@.take(i as int)).contains(x),
            views_are(actions@, item_views(texts(state.inventory@.take(i as int)), content@.items)),
        decreases n - i,
    {
        let ghost pre = texts(state.inventory@.take(i + 1));
        assert(pre.drop_last() =~= texts(state.inventory@.take(i as int)));
        assert(pre.last() == state.inventory@[i as int]@);
        let item_id = state.inventory[i].as_str();
        let known = contains_str(&seen, item_id).is_some();
        if !known {
            let ghost seen_before = texts(seen@);
            let ghost prev = pre.drop_last();
            seen.push(item_id.to_string());
            proof {
                assert(texts(seen@) =~= seen_before.push(item_id@));
                assert(pre =~= prev.push(item_id@));
                assert forall|x: Seq<char>| texts(seen@).contains(x) <==> pre.contains(x) by {
                    vstd::seq_lib::lemma_seq_contains_after_push(seen_before, item_id@, x);
                    vstd::seq_lib::lemma_seq_contains_after_push(prev, item_id@, x);
                }
            }
            match content.item(item_id) {
                Some(item) => {
                    if item.usable && item.use_effects.len() > 0 {
                        let mut id = ACTION_PREFIX_USE.to_string();
                        id.append(item.id.as_str());
                        let ghost before = actions@;
                        actions.push(ActionView { id, label: item.name.clone(), cost_summary: None });
                        proof {
                            let m = item_views(pre, content@.items);
                            assert(m == item_views(pre.drop_last(), content@.items).push(("use:"@ + item.id@, item.name@)));
                            assert forall|k: int| 0 <= k < actions@.len() implies (#[trigger] actions@[k]).id@ == m[k].0
                                && actions@[k].label@ == m[k].1 && actions@[k].cost_summary is None by {
                                if k < before.len() {
                                    assert(actions@[k] == before[k]);
                                }
                            }
                        }
                    }
                },
                None => {},
            }
        } else {
            proof {
                let prev = pre.drop_last();
                assert(pre =~= prev.push(item_id@));
                assert(prev.contains(item_id@));
                assert forall|x: Seq<char>| texts(seen@).contains(x) <==> pre.contains(x) by {
                    vstd::seq_lib::lemma_seq_contains_after_push(prev, item_id@, x);
                }
            }
        }
        i += 1;
    }
    assert(state.inventory@.take(n as int) =~= state.inventory@);
    actions
}

/// What using an item logs: its own line, or "<name>을 사용했다.".
pub open spec fn item_use_log_spec(it: ItemDef) -> Seq<char> {
    match it.use_log {
        Some(l) => l@,
        None => it.name@ + "을 사용했다."@,
    }
}

pub fn item_use_log(item: &ItemDef) -> (r: String)
    ensures
        r@ == item_use_log_spec(*item),
{
    match &item.use_log {
        Some(l) => l.clone(),
        None => {
            let mut out = item.name.clone();
            out.append("을 사용했다.");
            out
        },
    }
}

pub(crate) fn extend_texts(out: &mut Vec<String>, more: Vec<String>)
    ensures
        texts(final(out)@) == texts(old(out)@) + texts(more@),
{
    let ghost a = texts(out@);
    let ghost b = texts(more@);
    let mut k: usize = 0;
    while k < more.len()
        invariant
            k <= more@.len(),
            b == texts(more@),
            texts(out@) == a + b.take(k as int),
        decreases more@.len() - k,
    {
        let ghost before = out@;
        out.push(more[k].clone());
        assert(texts(out@) =~= texts(before).push(b[k as int]));
        assert(b.take(k + 1) =~= b.take(k as int).push(b[k as int]));
        k += 1;
    }
    assert(b.take(b.len() as int) =~= b);
}

/// The state after an action's log is recorded in the history and the
/// achievements it reached are unlocked, with those achievement ids.
pub open spec fn recorded(s: GameStateModel, idx: IndexModel, logs: Seq<Seq<char>>, source: Seq<char>) -> (
    GameStateModel,
    Seq<Seq<char>>,
) {
    let s1 = GameStateModel {
        history: s.history.push(
            HistoryModel { kind: "action"@, text: join(logs, "\n"@), source_id: Some(source) },
        ),
        ..s
    };
    let u = unlock_run(idx.achievements, s1);
    (GameStateModel { unlocked_achievements: u.0, ..s1 }, u.1)
}

/// The destination a move action names, when the location connects to it
/// and the content knows it.
pub open spec fn movement_target(loc: LocationDef, idx: IndexModel, action: Seq<char>) -> Option<(Seq<char>, LocationDef)> {
    match strip_spec(action, "move:"@) {
        Some(dest) => if texts(loc.connections@).contains(dest) {
            match find_key(idx.locations, dest) {
                Some(d) => Some((dest, d)),
                None => None,
            }
        } else {
            None
        },
        None => None,
    }
}

pub open spec fn floor_zero(v: int) -> i32 {
    if v < 0 {
        0
    } else {
        v as i32
    }
}

/// Moving: the player stands at the destination, its danger is added (never
/// below zero), a turn passes, and the arrival line with the turn's
/// warnings is logged.
pub open spec fn moved(s: GameStateModel, idx: IndexModel, dest: Seq<char>, d: LocationDef) -> (
    GameStateModel,
    Seq<Seq<char>>,
    Seq<Seq<char>>,
) {
    let s1 = GameStateModel { location_id: dest, danger: floor_zero(s.danger + d.danger), ..s };
    let t = turn_passed(s1);
    let logs = seq![d.name@ + "로 이동했다."@] + t.1;
    let r = recorded(t.0, idx, logs, "movement"@);
    (r.0, logs, r.1)
}

/// After a move the player stands at the destination, and the danger is the
/// previous danger plus the destination's, never below zero; the turn that
/// passes and the record of the move leave both as they are.
pub proof fn lemma_move_adds_danger(s: GameStateModel, idx: IndexModel, dest: Seq<char>, d: LocationDef)
    requires
        i32::MIN <= s.danger + d.danger <= i32::MAX,
    ensures
        moved(s, idx, dest, d).0.location_id == dest,
        moved(s, idx, dest, d).0.danger == (if s.danger + d.danger < 0 {
            0
        } else {
            s.danger + d.danger
        }),
{
}

/// Takes a move action of the location. Refused, with the action named,
/// when it is no move, leads nowhere the location connects to, or to a
/// place the content does not know.
pub fn apply_movement_action(
    state: &GameState,
    content: &ContentIndex,
    location: &LocationDef,
    action_id: &str,
) -> (r: Result<ActionResult, ContentActionError>)
    requires
        movement_target(*location, content@, action_id@) matches Some((_, d)) ==> (i32::MIN <= state.danger + d.danger
            <= i32::MAX && turn_can_pass(state@)),
    ensures
        movement_target(*location, content@, action_id@) is None ==> (r matches Err(
            ContentActionError::UnknownAction(a),
        ) && a@ == action_id@),
        movement_target(*location, content@, action_id@) matches Some((dest, d)) ==> (r matches Ok(res) && {
            let m = moved(state@, content@, dest, d);
            &&& res.encounter_id@ == "movement"@
            &&& res.action_id@ == action_id@
            &&& res.state@ == m.0
            &&& texts(res.logs@) == m.1
            &&& res.effect_cues@.len() == 0
            &&& texts(res.newly_unlocked_achievements@) == m.2
        }),
        movement_target(*location, content@, action_id@) matches Some((dest, d)) ==> (r matches Ok(res)
            && res.state@.location_id == dest && res.state@.danger == (if state.danger + d.danger < 0 {
            0
        } else {
            state.danger + d.danger
        })),
{
    let dest = match strip_prefix_text(action_id, ACTION_PREFIX_MOVE) {
        Some(d) => d,
        None => {
            return Err(ContentActionError::UnknownAction(action_id.to_string()));
        },
    };
    if contains_str(&location.connections, dest.as_str()).is_none() {
        return Err(ContentActionError::UnknownAction(action_id.to_string()));
    }
    let destination = match content.location(dest.as_str()) {
        Some(d) => d,
        None => {
            return Err(ContentActionError::UnknownAction(action_id.to_string()));
        },
    };
    let ghost d = *destination;
    let ghost m = moved(state@, content@, dest@, d);
    assert(movement_target(*location, content@, action_id@) == Some((dest@, d)));
    let mut next = state.clone();
    next.location_id = dest.clone();
    let sum = next.danger + destination.danger;
    next.danger = if sum < 0 {
        0
    } else {
        sum
    };
    let ghost s1 = GameStateModel { location_id: dest@, danger: floor_zero(state.danger + d.danger), ..state@ };
    assert(next@ == s1);
    let mut logs: Vec<String> = Vec::new();
    let mut first = destination.name.clone();
    first.append("로 이동했다.");
    logs.push(first);
    assert(texts(logs@) =~= seq![d.name@ + "로 이동했다."@]);
    let turn_logs = advance_turn(&mut next);
    extend_texts(&mut logs, turn_logs);
    assert(texts(logs@) == m.1);
    assert(next@ == turn_passed(s1).0);
    if logs.len() > 0 {
        let combined = join_strings(&logs, "\n");
        next.add_history_entry("action", combined.as_str(), Some("movement"));
    }
    let newly = unlock_achievements(&mut next, content);
    assert(next@ == m.0);
    Ok(
        ActionResult {
            encounter_id: "movement".to_string(),
            action_id: action_id.to_string(),
            state: next,
            logs,
            effect_cues: Vec::new(),
            newly_unlocked_achievements: newly,
        },
    )
}

/// The item a use action names, when the content knows it, the player
/// carries it, and it is usable and does something.
pub open spec fn item_target(s: GameStateModel, idx: IndexModel, action: Seq<char>) -> Option<(Seq<char>, ItemDef)> {
    match strip_spec(action, "use:"@) {
        Some(id) => match find_key(idx.items, id) {
            Some(it) => if s.inventory.contains(id) && usable_item(it) {
                Some((id, it))
            } else {
                None
            },
            None => None,
        },
        None => None,
    }
}

/// Using an item: its effects apply in order, one of it leaves the
/// inventory, a turn passes, and its use line with the turn's warnings is
/// logged.
pub open spec fn item_used(s: GameStateModel, idx: IndexModel, id: Seq<char>, it: ItemDef) -> (
    GameStateModel,
    Seq<Seq<char>>,
    Seq<Seq<char>>,
) {
    let s1 = GameStateModel {
        player: deltas_applied(s.player, it.use_effects@, false),
        inventory: without_first(s.inventory, id),
        ..s
    };
    let t = turn_passed(s1);
    let logs = seq![item_use_log_spec(it)] + t.1;
    let r = recorded(t.0, idx, logs, "item"@);
    (r.0, logs, r.1)
}

/// Using an item the player carries takes exactly one of it out of the
/// inventory, leaves every other item there, and keeps the place and the
/// danger; one more turn passes.
pub proof fn lemma_item_use_takes_one(s: GameStateModel, idx: IndexModel, id: Seq<char>, it: ItemDef)
    requires
        s.inventory.contains(id),
        s.turn < u32::MAX,
    ensures
        item_used(s, idx, id, it).0.inventory.to_multiset() =~= s.inventory.to_multiset().remove(id),
        item_used(s, idx, id, it).0.location_id == s.location_id,
        item_used(s, idx, id, it).0.danger == s.danger,
        item_used(s, idx, id, it).0.turn == s.turn + 1,
{
    crate::state::lemma_without_first_multiset(s.inventory, id);
}

/// Takes a use action. Refused, with the action named, when it is no use
/// action, names an item the content does not know, one the player does not
/// carry, or one with no use.
pub fn apply_item_action(state: &GameState, content: &ContentIndex, action_id: &str) -> (r: Result<
    ActionResult,
    ContentActionError,
>)
    requires
        item_target(state@, content@, action_id@) matches Some((_, it)) ==> (deltas_fit(
            state@.player,
            it.use_effects@,
            false,
        ) && state.turn < u32::MAX && pressure_fits(deltas_applied(state@.player, it.use_effects@, false))),
    ensures
        item_target(state@, content@, action_id@) is None ==> (r matches Err(ContentActionError::UnknownAction(a))
            && a@ == action_id@),
        item_target(state@, content@, action_id@) matches Some((id, it)) ==> (r matches Ok(res) && {
            let m = item_used(state@, content@, id, it);
            &&& res.encounter_id@ == "item"@
            &&& res.action_id@ == action_id@
            &&& res.state@ == m.0
            &&& texts(res.logs@) == m.1
            &&& res.effect_cues@.len() == 0
            &&& texts(res.newly_unlocked_achievements@) == m.2
        }),
{
    let item_id = match strip_prefix_text(action_id, ACTION_PREFIX_USE) {
        Some(d) => d,
        None => {
            return Err(ContentActionError::UnknownAction(action_id.to_string()));
        },
    };
    let item = match content.item(item_id.as_str()) {
        Some(it) => it,
        None => {
            return Err(ContentActionError::UnknownAction(action_id.to_string()));
        },
    };
    if contains_str(&state.inventory, item_id.as_str()).is_none() || !item.usable || item.use_effects.len() == 0 {
        return Err(ContentActionError::UnknownAction(action_id.to_string()));
    }
    let ghost it = *item;
    let ghost m = item_used(state@, content@, item_id@, it);
    assert(item_target(state@, content@, action_id@) == Some((item_id@, it)));
    let mut next = state.clone();
    apply_deltas(&mut next.player, &item.use_effects, false);
    next.remove_inventory_item(item_id.as_str());
    let ghost s1 = GameStateModel {
        player: deltas_applied(state@.player, it.use_effects@, false),
        inventory: without_first(state@.inventory, item_id@),
        ..state@
    };
    assert(next@ == s1);
    let mut logs: Vec<String> = Vec::new();
    logs.push(item_use_log(item));
    assert(texts(logs@) =~= seq![item_use_log_spec(it)]);
    let turn_logs = advance_turn(&mut next);
    extend_texts(&mut logs, turn_logs);
    assert(texts(logs@) == m.1);
    assert(next@ == turn_passed(s1).0);
    if logs.len() > 0 {
        let combined = join_strings(&logs, "\n");
        next.add_history_entry("action", combined.as_str(), Some("item"));
    }
    let newly = unlock_achievements(&mut next, content);
    assert(next@ == m.0);
    Ok(
        ActionResult {
            encounter_id: "item".to_string(),
            action_id: action_id.to_string(),
            state: next,
            logs,
            effect_cues: Vec::new(),
            newly_unlocked_achievements: newly,
        },
    )
}

} // verus!
