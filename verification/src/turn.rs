//! Turns of the story: the actions a scene offers, what taking one does to
//! the game state, and ability checks rolled from the seed.
use vstd::prelude::*;
use vstd::utf8::encode_utf8;
use crate::combat_contract::extend_bytes;
use crate::effects::{printer_glyph_anomaly_cue, printer_glyph_model, EffectCue};
use crate::json::{dec_digits, enc_num, write_i64, write_u64};
use crate::state::{with_once, GameState, GameStateModel, PlayerModel};
use crate::text::str_eq;

verus! {

#[derive(Clone, Debug, PartialEq, Eq)]
pub struct ActionView {
    pub id: String,
    pub label: String,
    pub cost_summary: Option<String>,
}

#[derive(Debug, PartialEq, Eq)]
pub struct BlockedActionView {
    pub id: String,
    pub label: String,
    pub cost_summary: Option<String>,
    pub reasons: Vec<String>,
}

#[derive(Debug, PartialEq, Eq)]
pub struct TurnView {
    pub location_id: String,
    pub encounter_id: Option<String>,
    pub ending_id: Option<String>,
    pub title: String,
    pub body: String,
    pub actions: Vec<ActionView>,
    pub blocked_actions: Vec<BlockedActionView>,
    pub effect_cues: Vec<EffectCue>,
}

#[derive(Debug, PartialEq, Eq)]
pub struct ActionResult {
    pub encounter_id: String,
    pub action_id: String,
    pub state: GameState,
    pub logs: Vec<String>,
    pub effect_cues: Vec<EffectCue>,
    pub newly_unlocked_achievements: Vec<String>,
}

#[derive(Clone, Debug, PartialEq, Eq)]
pub enum ActionError {
    UnknownAction(String),
}

#[derive(Clone, Debug, PartialEq, Eq)]
pub enum ContentTurnError {
    UnknownStateLocation(String),
}

#[derive(Clone, Debug, PartialEq, Eq)]
pub enum ContentActionError {
    UnknownStateLocation(String),
    UnknownAction(String),
}

/// The outcome of one ability check: two dice, the ability score and any
/// insight bonus, against the difficulty.
#[derive(Debug)]
pub struct CheckResolution {
    pub ability_id: String,
    pub ability_label: String,
    pub dice: (i32, i32),
    pub ability_value: i32,
    pub insight_bonus: i32,
    pub difficulty: i32,
    pub total: i32,
    pub success: bool,
}

// ---------------------------------------------------------------- printer scene

pub open spec fn printer_encounter_id() -> Seq<char> {
    "printer_prints_alone"@
}

pub open spec fn printer_title() -> Seq<char> {
    "복합기가 혼자 출력한다"@
}

pub open spec fn printer_body() -> Seq<char> {
    "꺼져 있던 복합기가 아직 고르지 않은 선택을 출력한다. 출력구 안쪽에서 종이가 밀려 나오지만, 날짜는 내일로 찍혀 있다."@
}

pub open spec fn wait_action() -> Seq<char> {
    "choice:wait_for_output"@
}

pub open spec fn inspect_action() -> Seq<char> {
    "choice:inspect_toner"@
}

pub open spec fn record_action() -> Seq<char> {
    "choice:record_stable_terms"@
}

pub open spec fn action_view_is(a: ActionView, id: Seq<char>, label: Seq<char>, cost: Option<Seq<char>>) -> bool {
    &&& a.id@ == id
    &&& a.label@ == label
    &&& match a.cost_summary {
        Some(c) => cost == Some(c@),
        None => cost is None,
    }
}

/// The printer scene: its fixed title and text, its three choices (waiting
/// costs two sanity), nothing blocked, and the copier's glyph anomaly.
pub open spec fn printer_view_ok(v: TurnView, state: GameState) -> bool {
    &&& v.location_id@ == state.location_id@
    &&& v.encounter_id matches Some(e) && e@ == printer_encounter_id()
    &&& v.ending_id is None
    &&& v.title@ == printer_title()
    &&& v.body@ == printer_body()
    &&& v.actions@.len() == 3
    &&& action_view_is(v.actions@[0], wait_action(), "출력물이 안정될 때까지 기다린다"@, Some("정신력 -2"@))
    &&& action_view_is(v.actions@[1], inspect_action(), "토너 카트리지 안쪽 표식을 확인한다"@, None)
    &&& action_view_is(v.actions@[2], record_action(), "출력물의 안정 단어만 사원증 뒤에 적는다"@, None)
    &&& v.blocked_actions@.len() == 0
    &&& v.effect_cues@.len() == 1
    &&& v.effect_cues@[0]@ == printer_glyph_model()
}

pub fn printer_turn_view(state: &GameState) -> (v: TurnView)
    ensures
        printer_view_ok(v, *state),
{
    let mut actions: Vec<ActionView> = Vec::new();
    actions.push(
        ActionView {
            id: "choice:wait_for_output".to_string(),
            label: "출력물이 안정될 때까지 기다린다".to_string(),
            cost_summary: Some("정신력 -2".to_string()),
        },
    );
    actions.push(
        ActionView {
            id: "choice:inspect_toner".to_string(),
            label: "토너 카트리지 안쪽 표식을 확인한다".to_string(),
            cost_summary: None,
        },
    );
    actions.push(
        ActionView {
            id: "choice:record_stable_terms".to_string(),
            label: "출력물의 안정 단어만 사원증 뒤에 적는다".to_string(),
            cost_summary: None,
        },
    );
    let mut cues: Vec<EffectCue> = Vec::new();
    cues.push(printer_glyph_anomaly_cue());
    TurnView {
        location_id: state.location_id.clone(),
        encounter_id: Some("printer_prints_alone".to_string()),
        ending_id: None,
        title: "복합기가 혼자 출력한다".to_string(),
        body: "꺼져 있던 복합기가 아직 고르지 않은 선택을 출력한다. 출력구 안쪽에서 종이가 밀려 나오지만, 날짜는 내일로 찍혀 있다.".to_string(),
        actions,
        blocked_actions: Vec::new(),
        effect_cues: cues,
    }
}

pub open spec fn printer_action_known(a: Seq<char>) -> bool {
    a == wait_action() || a == inspect_action() || a == record_action()
}

/// A turn passes; waiting costs two sanity (not below zero) and leaves the
/// stable terms as a clue; every choice starts the printer secret.
pub open spec fn printer_next_state(s: GameStateModel, a: Seq<char>) -> GameStateModel {
    if a == wait_action() {
        GameStateModel {
            turn: (s.turn + 1) as u32,
            player: PlayerModel {
                sanity: if s.player.sanity - 2 > 0 {
                    (s.player.sanity - 2) as i32
                } else {
                    0i32
                },
                ..s.player
            },
            flags: with_once(s.flags, "printer_secret_started"@),
            clues: with_once(s.clues, "copier_stable_terms"@),
            ..s
        }
    } else {
        GameStateModel { turn: (s.turn + 1) as u32, flags: with_once(s.flags, "printer_secret_started"@), ..s }
    }
}

pub open spec fn printer_log(a: Seq<char>) -> Seq<char> {
    if a == wait_action() {
        "흔들리던 문장이 안정되고 비상계단, 토너, 접힌 방향이라는 단어만 남았다."@
    } else {
        "복합기는 아직 같은 문장을 반복해서 밀어내고 있다."@
    }
}

pub fn apply_printer_action(state: &GameState, action_id: &str) -> (r: Result<ActionResult, ActionError>)
    requires
        printer_action_known(action_id@) ==> state.turn < u32::MAX,
        action_id@ == wait_action() ==> state.player.sanity >= i32::MIN + 2,
    ensures
        !printer_action_known(action_id@) ==> (r matches Err(ActionError::UnknownAction(s)) && s@ == action_id@),
        printer_action_known(action_id@) ==> r is Ok,
        r matches Ok(res) ==> res.encounter_id@ == printer_encounter_id() && res.action_id@ == action_id@,
        r matches Ok(res) ==> res.state@ == printer_next_state(state@, action_id@),
        r matches Ok(res) ==> res.logs@.len() == 1 && res.logs@[0]@ == printer_log(action_id@),
        r matches Ok(res) ==> res.effect_cues@.len() == 1 && res.effect_cues@[0]@ == printer_glyph_model(),
        r matches Ok(res) ==> res.newly_unlocked_achievements@.len() == 0,
{
    let wait = str_eq(action_id, "choice:wait_for_output");
    let other = str_eq(action_id, "choice:inspect_toner") || str_eq(action_id, "choice:record_stable_terms");
    if !wait && !other {
        return Err(ActionError::UnknownAction(action_id.to_string()));
    }
    let mut next = state.clone();
    next.turn = next.turn + 1;
    let log;
    if wait {
        let lowered = next.player.sanity - 2;
        next.player.sanity = if lowered > 0 { lowered } else { 0 };
        next.add_flag_once("printer_secret_started");
        next.add_clue_once("copier_stable_terms");
        log = "흔들리던 문장이 안정되고 비상계단, 토너, 접힌 방향이라는 단어만 남았다.".to_string();
    } else {
        next.add_flag_once("printer_secret_started");
        log = "복합기는 아직 같은 문장을 반복해서 밀어내고 있다.".to_string();
    }
    let mut logs: Vec<String> = Vec::new();
    logs.push(log);
    let mut cues: Vec<EffectCue> = Vec::new();
    cues.push(printer_glyph_anomaly_cue());
    Ok(
        ActionResult {
            encounter_id: "printer_prints_alone".to_string(),
            action_id: action_id.to_string(),
            state: next,
            logs,
            effect_cues: cues,
            newly_unlocked_achievements: Vec::new(),
        },
    )
}

// ---------------------------------------------------------------- ability checks

pub open spec fn ability_label_spec(a: Seq<char>) -> Seq<char> {
    if a == "logic"@ {
        "논리"@
    } else if a == "empathy"@ {
        "공감"@
    } else if a == "volition"@ {
        "의지"@
    } else if a == "composure"@ {
        "평정"@
    } else if a == "interface"@ {
        "인터페이스"@
    } else if a == "physical"@ {
        "신체"@
    } else {
        a
    }
}

/// The display name of an ability; an unknown id is shown as itself.
pub fn ability_label(ability: &str) -> (r: &str)
    ensures
        r@ == ability_label_spec(ability@),
{
    if str_eq(ability, "logic") {
        "논리"
    } else if str_eq(ability, "empathy") {
        "공감"
    } else if str_eq(ability, "volition") {
        "의지"
    } else if str_eq(ability, "composure") {
        "평정"
    } else if str_eq(ability, "interface") {
        "인터페이스"
    } else if str_eq(ability, "physical") {
        "신체"
    } else {
        ability
    }
}

pub const FNV32_OFFSET: u32 = 2166136261;

pub const FNV32_PRIME: u32 = 16777619;

/// 32-bit FNV-1a over a byte sequence.
pub open spec fn fnv32(bytes: Seq<u8>) -> u32
    decreases bytes.len(),
{
    if bytes.len() == 0 {
        FNV32_OFFSET
    } else {
        vstd::wrapping::u32_specs::wrapping_mul(fnv32(bytes.drop_last()) ^ (bytes.last() as u32), FNV32_PRIME)
    }
}

pub fn fnv1a_32(bytes: &[u8]) -> (h: u32)
    ensures
        h == fnv32(bytes@),
{
    let mut hash: u32 = FNV32_OFFSET;
    let n = bytes.len();
    let mut i: usize = 0;
    while i < n
        invariant
            n == bytes@.len(),
            i <= n,
            hash == fnv32(bytes@.take(i as int)),
        decreases n - i,
    {
        hash = (hash ^ (bytes[i] as u32)).wrapping_mul(FNV32_PRIME);
        assert(bytes@.take(i + 1).drop_last() =~= bytes@.take(i as int));
        i += 1;
    }
    assert(bytes@.take(n as int) =~= bytes@);
    hash
}

/// The text a check's dice are hashed from: seed, turn, ability and
/// difficulty in decimal, separated by colons.
pub open spec fn check_seed_text(seed: u64, turn: u32, ability: Seq<char>, difficulty: i32) -> Seq<u8> {
    dec_digits(seed as nat) + seq![58u8] + dec_digits(turn as nat) + seq![58u8] + encode_utf8(ability) + seq![58u8]
        + enc_num(difficulty as int)
}

/// Two six-sided dice read off one hash.
pub open spec fn dice_of(h: u32) -> (i32, i32) {
    ((h % 6 + 1) as i32, ((h / 6) % 6 + 1) as i32)
}

pub fn roll_2d6(seed_text: &[u8]) -> (r: (i32, i32))
    ensures
        r == dice_of(fnv32(seed_text@)),
        1 <= r.0 <= 6,
        1 <= r.1 <= 6,
{
    let hash = fnv1a_32(seed_text);
    ((hash % 6 + 1) as i32, ((hash / 6) % 6 + 1) as i32)
}

/// The score listed first for this ability, zero when it has none.
pub open spec fn ability_score(abilities: Seq<(Seq<char>, i32)>, id: Seq<char>) -> i32
    decreases abilities.len(),
{
    if abilities.len() == 0 {
        0
    } else if abilities[0].0 == id {
        abilities[0].1
    } else {
        ability_score(abilities.drop_first(), id)
    }
}

pub fn player_ability(abilities: &Vec<(String, i32)>, ability: &str) -> (r: i32)
    ensures
        r == ability_score(crate::state::ability_entries(abilities@), ability@),
{
    let ghost all = crate::state::ability_entries(abilities@);
    let n = abilities.len();
    let mut i: usize = 0;
    assert(all.skip(0) =~= all);
    while i < n
        invariant
            n == abilities@.len(),
            all == crate::state::ability_entries(abilities@),
            i <= n,
            ability_score(all, ability@) == ability_score(all.skip(i as int), ability@),
        decreases n - i,
    {
        let ghost rest = all.skip(i as int);
        assert(rest.drop_first() =~= all.skip(i + 1));
        assert(rest[0] == (abilities@[i as int].0@, abilities@[i as int].1));
        if str_eq(abilities[i].0.as_str(), ability) {
            return abilities[i].1;
        }
        i += 1;
    }
    0
}

pub open spec fn check_ok(r: CheckResolution, state: GameStateModel, ability_id: Seq<char>, difficulty: i32, bonus: i32) -> bool {
    let dice = dice_of(fnv32(check_seed_text(state.seed, state.turn, ability_id, difficulty)));
    let score = ability_score(state.player.abilities, ability_id);
    &&& r.ability_id@ == ability_id
    &&& r.ability_label@ == ability_label_spec(ability_id)
    &&& r.dice == dice
    &&& r.ability_value == score
    &&& r.insight_bonus == bonus
    &&& r.difficulty == difficulty
    &&& r.total == dice.0 + dice.1 + score + bonus
    &&& r.success == (r.total >= difficulty)
}

fn resolve_ability_check_with_bonus(state: &GameState, ability_id: &str, difficulty: i32, bonus: i32) -> (r: CheckResolution)
    requires
        ability_score(state@.player.abilities, ability_id@) + 12 <= i32::MAX,
        i32::MIN <= ability_score(state@.player.abilities, ability_id@) + bonus + 2,
        ability_score(state@.player.abilities, ability_id@) + bonus + 12 <= i32::MAX,
    ensures
        check_ok(r, state@, ability_id@, difficulty, bonus),
{
    let mut text: Vec<u8> = Vec::new();
    write_u64(state.seed, &mut text);
    text.push(58);
    write_u64(state.turn as u64, &mut text);
    text.push(58);
    extend_bytes(&mut text, ability_id.as_bytes());
    text.push(58);
    write_i64(difficulty as i64, &mut text);
    assert(text@ =~= check_seed_text(state.seed, state.turn, ability_id@, difficulty));
    let (first, second) = roll_2d6(text.as_slice());
    let ability_value = player_ability(&state.player.abilities, ability_id);
    let total = first + second + ability_value + bonus;
    CheckResolution {
        ability_id: ability_id.to_string(),
        ability_label: ability_label(ability_id).to_string(),
        dice: (first, second),
        ability_value,
        insight_bonus: bonus,
        difficulty,
        total,
        success: total >= difficulty,
    }
}

/// An ability check with no insight bonus.
pub fn resolve_ability_check(state: &GameState, ability_id: &str, difficulty: i32) -> (r: CheckResolution)
    requires
        ability_score(state@.player.abilities, ability_id@) + 12 <= i32::MAX,
    ensures
        check_ok(r, state@, ability_id@, difficulty, 0),
{
    resolve_ability_check_with_bonus(state, ability_id, difficulty, 0)
}


impl ActionError {
    /// The error as a sentence.
    pub fn message(&self) -> (r: String)
        ensures
            match self {
                ActionError::UnknownAction(a) => r@ == "unknown action id: "@ + a@,
            },
    {
        let mut t = String::new();
        match self {
            ActionError::UnknownAction(a) => {
                t.append("unknown action id: ");
                t.append(a.as_str());
            },
        }
        t
    }
}

impl ContentTurnError {
    /// The error as a sentence.
    pub fn message(&self) -> (r: String)
        ensures
            match self {
                ContentTurnError::UnknownStateLocation(l) => r@ == "unknown state location: "@ + l@,
            },
    {
        let mut t = String::new();
        match self {
            ContentTurnError::UnknownStateLocation(l) => {
                t.append("unknown state location: ");
                t.append(l.as_str());
            },
        }
        t
    }
}

impl ContentActionError {
    /// The error as a sentence.
    pub fn message(&self) -> (r: String)
        ensures
            match self {
                ContentActionError::UnknownStateLocation(l) => r@ == "unknown state location: "@ + l@,
                ContentActionError::UnknownAction(a) => r@ == "unknown action id: "@ + a@,
            },
    {
        let mut t = String::new();
        match self {
            ContentActionError::UnknownStateLocation(l) => {
                t.append("unknown state location: ");
                t.append(l.as_str());
            },
            ContentActionError::UnknownAction(a) => {
                t.append("unknown action id: ");
                t.append(a.as_str());
            },
        }
        t
    }
}

} // verus!
