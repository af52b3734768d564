//! The page a renderer draws for a scene: its text blocks, status, actions,
//! history and cues, all decided here and only displayed there.
use vstd::prelude::*;
use crate::content::{find_key, ContentIndex, EncounterDef, EndingDef, LocationDef, PresentationDef, PresentationEffectCue, PublicSecretDef};
use crate::effects::EffectCue;
use crate::story_turn::{action_model, blocked_model, content_turn, content_turn_view, turn_costs_showable, view_is, TurnModel};
use crate::final_epilogue::facts::FactsModel;
use crate::final_epilogue::{epilogue_blocks_spec, final_epilogue_body_blocks};
use crate::effects::texts;
use crate::final_epilogue::render::{join, join_strings};
use crate::state::{opt_text, GameHistoryEntry, GameState, PlayerState};
use crate::text::{append_i64, append_u64, dec_text, has_prefix, int_text, starts_with, str_eq};
use crate::turn::{ActionView, BlockedActionView, ContentTurnError, TurnView};

verus! {

#[derive(Clone, Debug, PartialEq, Eq, Structural)]
pub enum SceneMode {
    Encounter,
    Movement,
    Ending,
}

#[derive(Debug, PartialEq, Eq)]
pub struct SceneLocation {
    pub id: String,
    pub name: String,
    pub description: String,
}

#[derive(Debug, PartialEq, Eq)]
pub struct ResourceStatus {
    pub id: String,
    pub label: String,
    pub band: String,
    pub text: String,
    pub value: i32,
}

#[derive(Debug, PartialEq, Eq)]
pub struct StatusSummary {
    pub turn: u32,
    pub danger: i32,
    pub resources: Vec<ResourceStatus>,
    pub warnings: Vec<String>,
}

#[derive(Debug, PartialEq, Eq)]
pub struct BodyBlock {
    pub kind: String,
    pub text: String,
    pub source_id: Option<String>,
}

/// Kind, text and source of a block, as text.
pub struct BlockModel {
    pub kind: Seq<char>,
    pub text: Seq<char>,
    pub source_id: Option<Seq<char>>,
}

impl View for BodyBlock {
    type V = BlockModel;

    open spec fn view(&self) -> BlockModel {
        BlockModel { kind: self.kind@, text: self.text@, source_id: opt_text(self.source_id) }
    }
}

pub open spec fn block_models(s: Seq<BodyBlock>) -> Seq<BlockModel> {
    s.map_values(|b: BodyBlock| b@)
}

#[derive(Debug, PartialEq, Eq)]
pub struct DialogueEntry {
    pub speaker: String,
    pub text: String,
    pub source_id: Option<String>,
}

#[derive(Debug, PartialEq, Eq)]
pub struct SceneVisual {
    pub id: String,
    pub kind: String,
    pub alt: String,
    pub source_id: Option<String>,
}

#[derive(Debug, PartialEq, Eq)]
pub struct SceneAction {
    pub id: String,
    pub label: String,
    pub kind: String,
    pub cost_text: Option<String>,
}

#[derive(Debug, PartialEq, Eq)]
pub struct SceneBlockedAction {
    pub id: String,
    pub label: String,
    pub kind: String,
    pub cost_text: Option<String>,
    pub reasons: Vec<String>,
}

#[derive(Debug, PartialEq, Eq)]
pub struct HistoryEntry {
    pub kind: String,
    pub text: String,
    pub source_id: Option<String>,
}

#[derive(Debug, PartialEq, Eq)]
pub struct InventorySummary {
    pub items: Vec<String>,
    pub overflow_count: u32,
}

#[derive(Debug, PartialEq, Eq)]
pub struct AchievementSummary {
    pub unlocked: Vec<String>,
    pub newly_unlocked: Vec<String>,
}

#[derive(Debug, PartialEq, Eq)]
pub struct PressureCue {
    pub kind: String,
    pub severity: String,
    pub message: String,
    pub resource_id: String,
}

// ---------------------------------------------------------------- status

pub struct StatusModel {
    pub id: Seq<char>,
    pub label: Seq<char>,
    pub band: Seq<char>,
    pub text: Seq<char>,
    pub value: i32,
}

impl View for ResourceStatus {
    type V = StatusModel;

    open spec fn view(&self) -> StatusModel {
        StatusModel { id: self.id@, label: self.label@, band: self.band@, text: self.text@, value: self.value }
    }
}

pub fn resource_status(id: &str, label: &str, band: &str, text: &str, value: i32) -> (r: ResourceStatus)
    ensures
        r@ == (StatusModel { id: id@, label: label@, band: band@, text: text@, value }),
{
    ResourceStatus {
        id: id.to_string(),
        label: label.to_string(),
        band: band.to_string(),
        text: text.to_string(),
        value,
    }
}

/// Health: critical at 20 or below, unstable at 50 or below.
pub open spec fn health_status_spec(v: i32) -> StatusModel {
    let (band, text) = if v <= 20 {
        ("critical"@, "붕괴 직전"@)
    } else if v <= 50 {
        ("warning"@, "불안정"@)
    } else {
        ("normal"@, "정상 범위"@)
    };
    StatusModel { id: "health"@, label: "신체 반응"@, band, text, value: v }
}

/// Sanity: critical at 20 or below, unstable at 30 or below.
pub open spec fn sanity_status_spec(v: i32) -> StatusModel {
    let (band, text) = if v <= 20 {
        ("critical"@, "붕괴 직전"@)
    } else if v <= 30 {
        ("warning"@, "불안정"@)
    } else {
        ("normal"@, "안정"@)
    };
    StatusModel { id: "sanity"@, label: "집중도"@, band, text, value: v }
}

/// Battery: critical at 10 or below, low at 20 or below; shown as a percentage.
pub open spec fn battery_status_spec(v: i32) -> StatusModel {
    let band = if v <= 10 {
        "critical"@
    } else if v <= 20 {
        "warning"@
    } else {
        "normal"@
    };
    StatusModel { id: "battery"@, label: "단말기 전원"@, band, text: int_text(v as int) + "%"@, value: v }
}

/// Hunger: exhausted at 100 or more, hungry at 80 or more.
pub open spec fn hunger_status_spec(v: i32) -> StatusModel {
    let (band, text) = if v >= 100 {
        ("critical"@, "고갈"@)
    } else if v >= 80 {
        ("warning"@, "허기짐"@)
    } else {
        ("normal"@, "버틸 만함"@)
    };
    StatusModel { id: "hunger"@, label: "허기"@, band, text, value: v }
}

/// Thirst: exhausted at 90 or more, thirsty at 60 or more.
pub open spec fn thirst_status_spec(v: i32) -> StatusModel {
    let (band, text) = if v >= 90 {
        ("critical"@, "고갈"@)
    } else if v >= 60 {
        ("warning"@, "갈증"@)
    } else {
        ("normal"@, "버틸 만함"@)
    };
    StatusModel { id: "thirst"@, label: "갈증"@, band, text, value: v }
}

pub fn health_status(value: i32) -> (r: ResourceStatus)
    ensures
        r@ == health_status_spec(value),
{
    let (band, text) = if value <= 20 {
        ("critical", "붕괴 직전")
    } else if value <= 50 {
        ("warning", "불안정")
    } else {
        ("normal", "정상 범위")
    };
    resource_status("health", "신체 반응", band, text, value)
}

pub fn sanity_status(value: i32) -> (r: ResourceStatus)
    ensures
        r@ == sanity_status_spec(value),
{
    let (band, text) = if value <= 20 {
        ("critical", "붕괴 직전")
    } else if value <= 30 {
        ("warning", "불안정")
    } else {
        ("normal", "안정")
    };
    resource_status("sanity", "집중도", band, text, value)
}

pub fn battery_status(value: i32) -> (r: ResourceStatus)
    ensures
        r@ == battery_status_spec(value),
{
    let band = if value <= 10 {
        "critical"
    } else if value <= 20 {
        "warning"
    } else {
        "normal"
    };
    let mut text = String::new();
    append_i64(&mut text, value as i64);
    text.append("%");
    resource_status("battery", "단말기 전원", band, text.as_str(), value)
}

pub fn hunger_status(value: i32) -> (r: ResourceStatus)
    ensures
        r@ == hunger_status_spec(value),
{
    let (band, text) = if value >= 100 {
        ("critical", "고갈")
    } else if value >= 80 {
        ("warning", "허기짐")
    } else {
        ("normal", "버틸 만함")
    };
    resource_status("hunger", "허기", band, text, value)
}

pub fn thirst_status(value: i32) -> (r: ResourceStatus)
    ensures
        r@ == thirst_status_spec(value),
{
    let (band, text) = if value >= 90 {
        ("critical", "고갈")
    } else if value >= 60 {
        ("warning", "갈증")
    } else {
        ("normal", "버틸 만함")
    };
    resource_status("thirst", "갈증", band, text, value)
}

// ---------------------------------------------------------------- pressure

pub struct CueModel {
    pub kind: Seq<char>,
    pub severity: Seq<char>,
    pub message: Seq<char>,
    pub resource_id: Seq<char>,
}

impl View for PressureCue {
    type V = CueModel;

    open spec fn view(&self) -> CueModel {
        CueModel { kind: self.kind@, severity: self.severity@, message: self.message@, resource_id: self.resource_id@ }
    }
}

pub open spec fn cue_models(s: Seq<PressureCue>) -> Seq<CueModel> {
    s.map_values(|c: PressureCue| c@)
}

pub open spec fn low_severity(v: i32, critical_at: i32) -> Seq<char> {
    if v <= critical_at {
        "critical"@
    } else {
        "warning"@
    }
}

pub open spec fn high_severity(v: i32, critical_at: i32) -> Seq<char> {
    if v >= critical_at {
        "critical"@
    } else {
        "warning"@
    }
}

pub fn severity_for_low_resource(value: i32, critical_at: i32) -> (s: String)
    ensures
        s@ == low_severity(value, critical_at),
{
    if value <= critical_at { "critical" } else { "warning" }.to_string()
}

pub fn severity_for_high_pressure(value: i32, critical_at: i32) -> (s: String)
    ensures
        s@ == high_severity(value, critical_at),
{
    if value >= critical_at { "critical" } else { "warning" }.to_string()
}

pub open spec fn cue_if(b: bool, c: CueModel) -> Seq<CueModel> {
    if b {
        seq![c]
    } else {
        Seq::empty()
    }
}

/// Low sanity (30 or below), low battery (20 or below), hunger (80 or
/// more) and thirst (60 or more), in that order, each with its severity.
pub open spec fn pressure_spec(p: PlayerState) -> Seq<CueModel> {
    cue_if(
        p.sanity <= 30,
        CueModel {
            kind: "low_sanity"@,
            severity: low_severity(p.sanity, 20),
            message: "집중도가 흔들리고 있습니다. 일부 기록이 다르게 보일 수 있습니다."@,
            resource_id: "sanity"@,
        },
    ) + cue_if(
        p.battery <= 20,
        CueModel {
            kind: "low_battery"@,
            severity: low_severity(p.battery, 10),
            message: "단말기 전원이 낮습니다. 전력 행동이 제한될 수 있습니다."@,
            resource_id: "battery"@,
        },
    ) + cue_if(
        p.hunger >= 80,
        CueModel {
            kind: "high_hunger"@,
            severity: high_severity(p.hunger, 100),
            message: "허기가 한계에 가깝습니다. 몸이 먼저 비용을 청구할 수 있습니다."@,
            resource_id: "hunger"@,
        },
    ) + cue_if(
        p.thirst >= 60,
        CueModel {
            kind: "high_thirst"@,
            severity: high_severity(p.thirst, 90),
            message: "갈증이 심해져 물소리와 선택지가 흔들리기 시작합니다."@,
            resource_id: "thirst"@,
        },
    )
}

fn push_cue(cues: &mut Vec<PressureCue>, b: bool, c: PressureCue)
    ensures
        cue_models(final(cues)@) == cue_models(old(cues)@) + cue_if(b, c@),
{
    let ghost before = cues@;
    if b {
        cues.push(c);
        assert(cue_models(cues@) =~= cue_models(before) + cue_if(b, c@));
    } else {
        assert(cue_models(before) + cue_if(b, c@) =~= cue_models(before));
    }
}

pub fn pressure_cues(player: &PlayerState) -> (r: Vec<PressureCue>)
    ensures
        cue_models(r@) == pressure_spec(*player),
{
    let mut cues: Vec<PressureCue> = Vec::new();
    assert(cue_models(cues@) =~= Seq::<CueModel>::empty());
    if player.sanity <= 30 {
        push_cue(
            &mut cues,
            true,
            PressureCue {
                kind: "low_sanity".to_string(),
                severity: severity_for_low_resource(player.sanity, 20),
                message: "집중도가 흔들리고 있습니다. 일부 기록이 다르게 보일 수 있습니다.".to_string(),
                resource_id: "sanity".to_string(),
            },
        );
    }
    let ghost a = cue_models(cues@);
    if player.battery <= 20 {
        push_cue(
            &mut cues,
            true,
            PressureCue {
                kind: "low_battery".to_string(),
                severity: severity_for_low_resource(player.battery, 10),
                message: "단말기 전원이 낮습니다. 전력 행동이 제한될 수 있습니다.".to_string(),
                resource_id: "battery".to_string(),
            },
        );
    }
    let ghost b = cue_models(cues@);
    if player.hunger >= 80 {
        push_cue(
            &mut cues,
            true,
            PressureCue {
                kind: "high_hunger".to_string(),
                severity: severity_for_high_pressure(player.hunger, 100),
                message: "허기가 한계에 가깝습니다. 몸이 먼저 비용을 청구할 수 있습니다.".to_string(),
                resource_id: "hunger".to_string(),
            },
        );
    }
    if player.thirst >= 60 {
        push_cue(
            &mut cues,
            true,
            PressureCue {
                kind: "high_thirst".to_string(),
                severity: severity_for_high_pressure(player.thirst, 90),
                message: "갈증이 심해져 물소리와 선택지가 흔들리기 시작합니다.".to_string(),
                resource_id: "thirst".to_string(),
            },
        );
    }
    assert(cue_models(cues@) =~= pressure_spec(*player));
    cues
}

/// The resources in a fixed order with their bands, and the messages of
/// the pressure cues as warnings.
pub open spec fn status_ok(s: StatusSummary, state: GameState) -> bool {
    &&& s.turn == state.turn
    &&& s.danger == state.danger
    &&& s.resources@.len() == 5
    &&& s.resources@[0]@ == health_status_spec(state.player.health)
    &&& s.resources@[1]@ == sanity_status_spec(state.player.sanity)
    &&& s.resources@[2]@ == battery_status_spec(state.player.battery)
    &&& s.resources@[3]@ == hunger_status_spec(state.player.hunger)
    &&& s.resources@[4]@ == thirst_status_spec(state.player.thirst)
    &&& texts(s.warnings@) == pressure_spec(state.player).map_values(|c: CueModel| c.message)
}

pub fn status_summary(state: &GameState) -> (r: StatusSummary)
    ensures
        status_ok(r, *state),
{
    let mut resources: Vec<ResourceStatus> = Vec::new();
    resources.push(health_status(state.player.health));
    resources.push(sanity_status(state.player.sanity));
    resources.push(battery_status(state.player.battery));
    resources.push(hunger_status(state.player.hunger));
    resources.push(thirst_status(state.player.thirst));
    let cues = pressure_cues(&state.player);
    let ghost cm = cue_models(cues@);
    let mut warnings: Vec<String> = Vec::new();
    let n = cues.len();
    let mut i: usize = 0;
    while i < n
        invariant
            n == cues@.len(),
            cm == cue_models(cues@),
            i <= n,
            texts(warnings@) == cm.take(i as int).map_values(|c: CueModel| c.message),
        decreases n - i,
    {
        let ghost before = warnings@;
        warnings.push(cues[i].message.clone());
        assert(texts(warnings@) =~= texts(before).push(cues@[i as int].message@));
        assert(cm.take(i + 1).map_values(|c: CueModel| c.message) =~= cm.take(i as int).map_values(
            |c: CueModel| c.message,
        ).push(cm[i as int].message));
        i += 1;
    }
    assert(cm.take(n as int) =~= cm);
    StatusSummary { turn: state.turn, danger: state.danger, resources, warnings }
}

// ---------------------------------------------------------------- labels

pub open spec fn wuxia_prefix() -> Seq<char> {
    seq!['w', 'u', 'x', 'i', 'a', '_']
}

/// A wuxia scene counts pages of the heavenly record from one; any other
/// counts turns of isolation from zero.
pub open spec fn chapter_label_spec(turn: u32, tags: Seq<Seq<char>>, source_id: Seq<char>) -> Seq<char> {
    if tags.contains("wuxia"@) || starts_with(source_id, wuxia_prefix()) {
        "천기록 "@ + dec_text((turn + 1) as nat) + "쪽"@
    } else {
        "격리 "@ + dec_text(turn as nat) + "턴"@
    }
}

fn chars_of_wuxia_prefix() -> (v: Vec<char>)
    ensures
        v@ == wuxia_prefix(),
{
    let mut v: Vec<char> = Vec::new();
    v.push('w');
    v.push('u');
    v.push('x');
    v.push('i');
    v.push('a');
    v.push('_');
    assert(v@ =~= wuxia_prefix());
    v
}

pub fn chapter_label_for_scene(state: &GameState, location: &LocationDef, source_id: &str) -> (r: String)
    requires
        state.turn < u32::MAX,
    ensures
        r@ == chapter_label_spec(state.turn, texts(location.tags@), source_id@),
{
    let tagged = crate::final_epilogue::audit::text_listed(&location.tags, "wuxia");
    let mut out = String::new();
    if tagged || has_prefix(source_id, &chars_of_wuxia_prefix()) {
        out.append("천기록 ");
        append_u64(&mut out, state.turn as u64 + 1);
        out.append("쪽");
    } else {
        out.append("격리 ");
        append_u64(&mut out, state.turn as u64);
        out.append("턴");
    }
    out
}

pub open spec fn action_kind_spec(id: Seq<char>) -> Seq<char> {
    if starts_with(id, seq!['c', 'h', 'o', 'i', 'c', 'e', ':']) {
        "choice"@
    } else if starts_with(id, seq!['m', 'o', 'v', 'e', ':']) {
        "move"@
    } else if starts_with(id, seq!['u', 's', 'e', ':']) {
        "use"@
    } else {
        "unknown"@
    }
}

pub(crate) fn chars_of(s: &str) -> (v: Vec<char>)
    ensures
        v@ == s@,
{
    let mut v: Vec<char> = Vec::new();
    for c in it: s.chars()
        invariant
            it.seq() == s@,
            v@ == s@.take(it.index() as int),
    {
        v.push(c);
        assert(v@ =~= s@.take(it.index() + 1));
    }
    assert(s@.take(s@.len() as int) =~= s@);
    v
}

pub fn action_kind(action_id: &str) -> (r: &'static str)
    ensures
        r@ == action_kind_spec(action_id@),
{
    proof {
        reveal_strlit("choice:");
        reveal_strlit("move:");
        reveal_strlit("use:");
        assert("choice:"@ =~= seq!['c', 'h', 'o', 'i', 'c', 'e', ':']);
        assert("move:"@ =~= seq!['m', 'o', 'v', 'e', ':']);
        assert("use:"@ =~= seq!['u', 's', 'e', ':']);
    }
    if has_prefix(action_id, &chars_of("choice:")) {
        "choice"
    } else if has_prefix(action_id, &chars_of("move:")) {
        "move"
    } else if has_prefix(action_id, &chars_of("use:")) {
        "use"
    } else {
        "unknown"
    }
}

// ---------------------------------------------------------------- actions and history

pub fn scene_action(action: &ActionView) -> (r: SceneAction)
    ensures
        r.id == action.id,
        r.label == action.label,
        r.kind@ == action_kind_spec(action.id@),
        r.cost_text == action.cost_summary,
{
    SceneAction {
        id: action.id.clone(),
        label: action.label.clone(),
        kind: action_kind(action.id.as_str()).to_string(),
        cost_text: action.cost_summary.clone(),
    }
}

pub fn scene_blocked_action(action: &BlockedActionView) -> (r: SceneBlockedAction)
    ensures
        r.id == action.id,
        r.label == action.label,
        r.kind@ == action_kind_spec(action.id@),
        r.cost_text == action.cost_summary,
        r.reasons@ == action.reasons@,
{
    SceneBlockedAction {
        id: action.id.clone(),
        label: action.label.clone(),
        kind: action_kind(action.id.as_str()).to_string(),
        cost_text: action.cost_summary.clone(),
        reasons: crate::state::copy_strings(&action.reasons),
    }
}

pub fn history_entry(entry: &GameHistoryEntry) -> (r: HistoryEntry)
    ensures
        r.kind == entry.kind,
        r.text == entry.text,
        r.source_id == entry.source_id,
{
    HistoryEntry { kind: entry.kind.clone(), text: entry.text.clone(), source_id: entry.source_id.clone() }
}

// ---------------------------------------------------------------- public secrets

pub open spec fn opt_line(prefix: Seq<char>, o: Option<String>) -> Seq<Seq<char>> {
    match o {
        Some(x) => seq![prefix + x@],
        None => Seq::empty(),
    }
}

pub open spec fn numbered(steps: Seq<String>) -> Seq<Seq<char>> {
    Seq::new(steps.len(), |i: int| dec_text((i + 1) as nat) + ". "@ + steps[i]@)
}

/// The secret's title, its numbered public hint steps, then its puzzle,
/// disclosure policy and reward when it has them, one per line.
pub open spec fn secret_summary_spec(s: PublicSecretDef) -> Seq<char> {
    join(
        seq!["현실 연결 힌트: "@ + s.title@] + numbered(s.public_hint_steps@) + opt_line("퍼즐: "@, s.puzzle_prompt)
            + opt_line("공개 정책: "@, s.final_hint_policy) + opt_line(""@, s.reward_text),
        "\n"@,
    )
}

fn push_line(lines: &mut Vec<String>, prefix: &str, o: &Option<String>)
    ensures
        texts(final(lines)@) == texts(old(lines)@) + opt_line(prefix@, *o),
{
    let ghost before = lines@;
    match o {
        Some(x) => {
            let mut l = String::new();
            l.append(prefix);
            l.append(x.as_str());
            lines.push(l);
            assert(texts(lines@) =~= texts(before) + opt_line(prefix@, *o));
        },
        None => {
            assert(texts(before) + opt_line(prefix@, *o) =~= texts(before));
        },
    }
}

pub fn public_secret_summary(secret: &PublicSecretDef) -> (r: String)
    ensures
        r@ == secret_summary_spec(*secret),
{
    let mut lines: Vec<String> = Vec::new();
    let mut first = String::new();
    first.append("현실 연결 힌트: ");
    first.append(secret.title.as_str());
    lines.push(first);
    let ghost head = texts(lines@);
    let steps = &secret.public_hint_steps;
    let n = steps.len();
    let mut i: usize = 0;
    while i < n
        invariant
            n == steps@.len(),
            steps@ == secret.public_hint_steps@,
            i <= n,
            texts(lines@) == head + numbered(steps@.take(i as int)),
        decreases n - i,
    {
        let mut l = String::new();
        append_u64(&mut l, i as u64 + 1);
        l.append(". ");
        l.append(steps[i].as_str());
        let ghost before = lines@;
        lines.push(l);
        assert(numbered(steps@.take(i + 1)) =~= numbered(steps@.take(i as int)).push(
            dec_text((i + 1) as nat) + ". "@ + steps@[i as int]@,
        ));
        assert(texts(lines@) =~= texts(before).push(lines@.last()@));
        i += 1;
    }
    assert(steps@.take(n as int) =~= steps@);
    push_line(&mut lines, "퍼즐: ", &secret.puzzle_prompt);
    push_line(&mut lines, "공개 정책: ", &secret.final_hint_policy);
    push_line(&mut lines, "", &secret.reward_text);
    assert(texts(lines@) =~= seq!["현실 연결 힌트: "@ + secret.title@] + numbered(secret.public_hint_steps@) + opt_line(
        "퍼즐: "@,
        secret.puzzle_prompt,
    ) + opt_line("공개 정책: "@, secret.final_hint_policy) + opt_line(""@, secret.reward_text));
    join_strings(&lines, "\n")
}

// ---------------------------------------------------------------- body

/// The scene text as narration (a system message on an ending page); on an
/// ending, the public hint of its secret when the content has it, then the
/// final epilogue's blocks.
pub open spec fn body_blocks_spec(
    content: crate::content::IndexModel,
    ending: Option<EndingDef>,
    mode: SceneMode,
    body: Seq<char>,
    source_id: Seq<char>,
    state: crate::state::GameStateModel,
) -> Seq<BlockModel> {
    let first = BlockModel {
        kind: if mode == SceneMode::Ending {
            "system"@
        } else {
            "narration"@
        },
        text: body,
        source_id: Some(source_id),
    };
    let clue = match ending {
        Some(e) => match e.local_hint_id {
            Some(h) => match find_key(content.secrets, h@) {
                Some(sec) => seq![BlockModel { kind: "clue"@, text: secret_summary_spec(sec), source_id: Some(sec.id@) }],
                None => Seq::empty(),
            },
            None => Seq::empty(),
        },
        None => Seq::empty(),
    };
    let epilogue = match ending {
        Some(e) => epilogue_blocks_spec(FactsModel { flags: state.flags, clues: state.clues }, e.id@),
        None => Seq::empty(),
    };
    seq![first] + clue + epilogue
}

pub fn body_blocks(
    content: &ContentIndex,
    ending: Option<&EndingDef>,
    mode: &SceneMode,
    body: &str,
    source_id: &str,
    state: &GameState,
) -> (r: Vec<BodyBlock>)
    ensures
        block_models(r@) == body_blocks_spec(
            content@,
            match ending {
                Some(e) => Some(*e),
                None => None,
            },
            *mode,
            body@,
            source_id@,
            state@,
        ),
{
    let ending_page = match mode {
        SceneMode::Ending => true,
        _ => false,
    };
    let mut blocks: Vec<BodyBlock> = Vec::new();
    blocks.push(
        BodyBlock {
            kind: if ending_page { "system".to_string() } else { "narration".to_string() },
            text: body.to_string(),
            source_id: Some(source_id.to_string()),
        },
    );
    let ghost first = block_models(blocks@);
    match ending {
        Some(e) => {
            match &e.local_hint_id {
                Some(h) => match content.secret(h.as_str()) {
                    Some(sec) => {
                        blocks.push(
                            BodyBlock {
                                kind: "clue".to_string(),
                                text: public_secret_summary(sec),
                                source_id: Some(sec.id.clone()),
                            },
                        );
                    },
                    None => {},
                },
                None => {},
            }
            let ghost mid = block_models(blocks@);
            let extra = final_epilogue_body_blocks(state, e.id.as_str());
            let mut i: usize = 0;
            let n = extra.len();
            while i < n
                invariant
                    n == extra@.len(),
                    i <= n,
                    block_models(blocks@) == mid + block_models(extra@.take(i as int)),
                decreases n - i,
            {
                let ghost before = blocks@;
                blocks.push(BodyBlock {
                    kind: extra[i].kind.clone(),
                    text: extra[i].text.clone(),
                    source_id: extra[i].source_id.clone(),
                });
                assert(block_models(extra@.take(i + 1)) =~= block_models(extra@.take(i as int)).push(extra@[i as int]@));
                assert(block_models(blocks@) =~= block_models(before).push(extra@[i as int]@));
                i += 1;
            }
            assert(extra@.take(n as int) =~= extra@);
        },
        None => {},
    }
    assert(block_models(blocks@) =~= body_blocks_spec(
        content@,
        match ending {
            Some(e) => Some(*e),
            None => None,
        },
        *mode,
        body@,
        source_id@,
        state@,
    ));
    blocks
}

// ---------------------------------------------------------------- effect cues

/// How strong a cue is: the bit pattern of a fractional intensity that
/// content gave, or a percentage that a turn's cue carries (the renderer
/// shows it as a fraction of one).
#[derive(Clone, Copy, Debug, PartialEq, Eq, Structural)]
pub enum CueIntensity {
    FractionBits(u32),
    Percent(u8),
}

#[derive(Debug, PartialEq, Eq)]
pub struct SceneEffectCue {
    pub kind: String,
    pub source: String,
    pub intensity: CueIntensity,
    pub stable_terms: Vec<String>,
    pub distortion: String,
    pub duration_hint_ms: Option<u32>,
    pub fallback_text: Option<String>,
}

/// Kind, source, intensity, stable terms, distortion, duration hint and
/// fallback text of a scene cue, as values.
pub struct SceneCueModel {
    pub kind: Seq<char>,
    pub source: Seq<char>,
    pub intensity: CueIntensity,
    pub stable_terms: Seq<Seq<char>>,
    pub distortion: Seq<char>,
    pub duration_hint_ms: Option<u32>,
    pub fallback_text: Option<Seq<char>>,
}

impl View for SceneEffectCue {
    type V = SceneCueModel;

    open spec fn view(&self) -> SceneCueModel {
        SceneCueModel {
            kind: self.kind@,
            source: self.source@,
            intensity: self.intensity,
            stable_terms: texts(self.stable_terms@),
            distortion: self.distortion@,
            duration_hint_ms: self.duration_hint_ms,
            fallback_text: opt_text(self.fallback_text),
        }
    }
}

pub open spec fn presentation_cue_model(c: PresentationEffectCue) -> SceneCueModel {
    SceneCueModel {
        kind: c.kind@,
        source: c.source@,
        intensity: CueIntensity::FractionBits(c.intensity_bits),
        stable_terms: texts(c.stable_terms@),
        distortion: c.distortion@,
        duration_hint_ms: c.duration_hint_ms,
        fallback_text: opt_text(c.fallback_text),
    }
}

pub open spec fn turn_cue_model(c: EffectCue) -> SceneCueModel {
    match c {
        EffectCue::GlyphAnomaly(g) => SceneCueModel {
            kind: "glyph_anomaly"@,
            source: g.source@,
            intensity: CueIntensity::Percent(g.intensity),
            stable_terms: texts(g.stable_terms@),
            distortion: g.distortion@,
            duration_hint_ms: None,
            fallback_text: None,
        },
    }
}

/// A content cue as the scene shows it, field for field.
pub fn scene_effect_cue_from_presentation(cue: &PresentationEffectCue) -> (r: SceneEffectCue)
    ensures
        r@ == presentation_cue_model(*cue),
{
    let terms = crate::state::copy_strings(&cue.stable_terms);
    SceneEffectCue {
        kind: cue.kind.clone(),
        source: cue.source.clone(),
        intensity: CueIntensity::FractionBits(cue.intensity_bits),
        stable_terms: terms,
        distortion: cue.distortion.clone(),
        duration_hint_ms: cue.duration_hint_ms,
        fallback_text: cue.fallback_text.clone(),
    }
}

/// A turn's glyph anomaly as the scene shows it, its percentage kept.
pub fn scene_effect_cue_from_turn(cue: &EffectCue) -> (r: SceneEffectCue)
    ensures
        r@ == turn_cue_model(*cue),
{
    match cue {
        EffectCue::GlyphAnomaly(details) => SceneEffectCue {
            kind: "glyph_anomaly".to_string(),
            source: details.source.clone(),
            intensity: CueIntensity::Percent(details.intensity),
            stable_terms: crate::state::copy_strings(&details.stable_terms),
            distortion: details.distortion.clone(),
            duration_hint_ms: None,
            fallback_text: None,
        },
    }
}

pub open spec fn scene_cue_models(s: Seq<SceneEffectCue>) -> Seq<SceneCueModel> {
    s.map_values(|c: SceneEffectCue| c@)
}

/// The content's own cues when the encounter presents any, else the turn's.
pub open spec fn scene_cues_spec(presentation: Option<PresentationDef>, view_cues: Seq<EffectCue>) -> Seq<SceneCueModel> {
    match presentation {
        Some(p) if p.effect_cues@.len() > 0 => p.effect_cues@.map_values(|c: PresentationEffectCue| presentation_cue_model(c)),
        _ => view_cues.map_values(|c: EffectCue| turn_cue_model(c)),
    }
}

pub fn presentation_effect_cues(presentation: Option<&PresentationDef>, view: &TurnView) -> (r: Vec<SceneEffectCue>)
    ensures
        scene_cue_models(r@) == scene_cues_spec(
            match presentation {
                Some(p) => Some(*p),
                None => None,
            },
            view.effect_cues@,
        ),
{
    let mut out: Vec<SceneEffectCue> = Vec::new();
    match presentation {
        Some(p) => {
            if p.effect_cues.len() > 0 {
                let n = p.effect_cues.len();
                let mut i: usize = 0;
                while i < n
                    invariant
                        n == p.effect_cues@.len(),
                        i <= n,
                        scene_cue_models(out@) == p.effect_cues@.take(i as int).map_values(
                            |c: PresentationEffectCue| presentation_cue_model(c),
                        ),
                    decreases n - i,
                {
                    let ghost before = out@;
                    out.push(scene_effect_cue_from_presentation(&p.effect_cues[i]));
                    assert(scene_cue_models(out@) =~= scene_cue_models(before).push(
                        presentation_cue_model(p.effect_cues@[i as int]),
                    ));
                    assert(p.effect_cues@.take(i + 1).map_values(|c: PresentationEffectCue| presentation_cue_model(c))
                        =~= p.effect_cues@.take(i as int).map_values(
                        |c: PresentationEffectCue| presentation_cue_model(c),
                    ).push(presentation_cue_model(p.effect_cues@[i as int])));
                    i += 1;
                }
                assert(p.effect_cues@.take(n as int) =~= p.effect_cues@);
                return out;
            }
        },
        None => {},
    }
    let n = view.effect_cues.len();
    let mut i: usize = 0;
    while i < n
        invariant
            n == view.effect_cues@.len(),
            i <= n,
            scene_cue_models(out@) == view.effect_cues@.take(i as int).map_values(|c: EffectCue| turn_cue_model(c)),
        decreases n - i,
    {
        let ghost before = out@;
        out.push(scene_effect_cue_from_turn(&view.effect_cues[i]));
        assert(scene_cue_models(out@) =~= scene_cue_models(before).push(turn_cue_model(view.effect_cues@[i as int])));
        assert(view.effect_cues@.take(i + 1).map_values(|c: EffectCue| turn_cue_model(c)) =~= view.effect_cues@.take(
            i as int,
        ).map_values(|c: EffectCue| turn_cue_model(c)).push(turn_cue_model(view.effect_cues@[i as int])));
        i += 1;
    }
    assert(view.effect_cues@.take(n as int) =~= view.effect_cues@);
    out
}

// ---------------------------------------------------------------- the page

#[derive(Debug, PartialEq, Eq)]
pub struct ScenePage {
    pub mode: SceneMode,
    pub title: String,
    pub location: SceneLocation,
    pub chapter_label: String,
    pub status_summary: StatusSummary,
    pub body_blocks: Vec<BodyBlock>,
    pub dialogue_entries: Vec<DialogueEntry>,
    pub visual: SceneVisual,
    pub actions: Vec<SceneAction>,
    pub blocked_actions: Vec<SceneBlockedAction>,
    pub history_entries: Vec<HistoryEntry>,
    pub inventory_summary: InventorySummary,
    pub achievement_summary: AchievementSummary,
    pub pressure_cues: Vec<PressureCue>,
    pub effect_cues: Vec<SceneEffectCue>,
}

/// The id the page's parts are attributed to: the ending, else the
/// encounter, else the location.
pub open spec fn page_source_id(m: TurnModel, loc: LocationDef) -> Seq<char> {
    match m.ending_id {
        Some(e) => e,
        None => match m.encounter_id {
            Some(x) => x,
            None => loc.id@,
        },
    }
}

pub open spec fn page_mode(m: TurnModel) -> SceneMode {
    if m.ending_id is Some {
        SceneMode::Ending
    } else if m.encounter_id is Some {
        SceneMode::Encounter
    } else {
        SceneMode::Movement
    }
}

pub open spec fn default_visual_kind(mode: SceneMode) -> Seq<char> {
    match mode {
        SceneMode::Ending => "ending"@,
        SceneMode::Encounter => "encounter"@,
        SceneMode::Movement => "location"@,
    }
}

pub open spec fn page_presentation(enc: Option<EncounterDef>) -> Option<PresentationDef> {
    match enc {
        Some(e) => e.presentation,
        None => None,
    }
}

/// The page of a turn: its mode and title; the location; the chapter label;
/// the status; the body blocks; one dialogue line when the encounter names
/// a speaker; the visual (the content's own id and layout when it gives
/// them, else the mode and the source id); the actions and closed actions
/// with their kinds; the history; the inventory and unlocked achievements
/// as they stand; the pressure cues; and the effect cues.
pub open spec fn page_ok(
    p: ScenePage,
    state: GameState,
    idx: crate::content::IndexModel,
    loc: LocationDef,
    enc: Option<EncounterDef>,
    ending: Option<EndingDef>,
    m: TurnModel,
    view_cues: Seq<EffectCue>,
) -> bool {
    let source = page_source_id(m, loc);
    let mode = page_mode(m);
    let dk = default_visual_kind(mode);
    let pres = page_presentation(enc);
    &&& p.mode == mode
    &&& p.title@ == m.title
    &&& p.location.id@ == loc.id@ && p.location.name@ == loc.name@ && p.location.description@ == loc.description@
    &&& p.chapter_label@ == chapter_label_spec(state.turn, texts(loc.tags@), source)
    &&& status_ok(p.status_summary, state)
    &&& block_models(p.body_blocks@) == body_blocks_spec(idx, ending, mode, m.body, source, state@)
    &&& match pres {
        Some(pr) => match pr.speaker {
            Some(sp) => p.dialogue_entries@.len() == 1 && p.dialogue_entries@[0].speaker@ == sp@
                && p.dialogue_entries@[0].text@ == m.body && opt_text(p.dialogue_entries@[0].source_id) == Some(source),
            None => p.dialogue_entries@.len() == 0,
        },
        None => p.dialogue_entries@.len() == 0,
    }
    &&& p.visual.id@ == match pres {
        Some(pr) => match pr.visual_id {
            Some(v) => v@,
            None => dk + ":"@ + source,
        },
        None => dk + ":"@ + source,
    }
    &&& p.visual.kind@ == match pres {
        Some(pr) => match pr.layout {
            Some(l) => l@,
            None => dk,
        },
        None => dk,
    }
    &&& p.visual.alt@ == m.title && opt_text(p.visual.source_id) == Some(source)
    &&& p.actions@.len() == m.actions.len()
    &&& forall|i: int|
        0 <= i < m.actions.len() ==> (#[trigger] p.actions@[i]).id@ == m.actions[i].0 && p.actions@[i].label@
            == m.actions[i].1 && p.actions@[i].kind@ == action_kind_spec(m.actions[i].0) && opt_text(
            p.actions@[i].cost_text,
        ) == m.actions[i].2
    &&& p.blocked_actions@.len() == m.blocked.len()
    &&& forall|i: int|
        0 <= i < m.blocked.len() ==> (#[trigger] p.blocked_actions@[i]).id@ == m.blocked[i].0
            && p.blocked_actions@[i].label@ == m.blocked[i].1 && p.blocked_actions@[i].kind@ == action_kind_spec(
            m.blocked[i].0,
        ) && opt_text(p.blocked_actions@[i].cost_text) == m.blocked[i].2 && texts(p.blocked_actions@[i].reasons@)
            == m.blocked[i].3
    &&& p.history_entries@.len() == state.history@.len()
    &&& forall|i: int|
        0 <= i < state.history@.len() ==> (#[trigger] p.history_entries@[i]).kind == state.history@[i].kind
            && p.history_entries@[i].text == state.history@[i].text && p.history_entries@[i].source_id
            == state.history@[i].source_id
    &&& p.inventory_summary.items@ == state.inventory@ && p.inventory_summary.overflow_count == 0
    &&& p.achievement_summary.unlocked@ == state.unlocked_achievements@
    &&& p.achievement_summary.newly_unlocked@.len() == 0
    &&& cue_models(p.pressure_cues@) == pressure_spec(state.player)
    &&& scene_cue_models(p.effect_cues@) == scene_cues_spec(pres, view_cues)
}

pub open spec fn model_of_view(v: TurnView) -> TurnModel {
    TurnModel {
        location_id: v.location_id@,
        encounter_id: opt_text(v.encounter_id),
        ending_id: opt_text(v.ending_id),
        title: v.title@,
        body: v.body@,
        actions: v.actions@.map_values(|a: ActionView| action_model(a)),
        blocked: v.blocked_actions@.map_values(|b: BlockedActionView| blocked_model(b)),
    }
}

/// The page for a turn view at a location, with the encounter and ending
/// it shows (if any).
pub fn scene_page_from_turn_view(
    state: &GameState,
    content: &ContentIndex,
    location: &LocationDef,
    encounter: Option<&EncounterDef>,
    ending: Option<&EndingDef>,
    view: &TurnView,
) -> (r: ScenePage)
    requires
        state.turn < u32::MAX,
    ensures
        page_ok(
            r,
            *state,
            content@,
            *location,
            match encounter {
                Some(e) => Some(*e),
                None => None,
            },
            match ending {
                Some(e) => Some(*e),
                None => None,
            },
            model_of_view(*view),
            view.effect_cues@,
        ),
{
    let ghost m = model_of_view(*view);
    let source_id: String = match &view.ending_id {
        Some(e) => e.clone(),
        None => match &view.encounter_id {
            Some(x) => x.clone(),
            None => location.id.clone(),
        },
    };
    let mode = match &view.ending_id {
        Some(_) => SceneMode::Ending,
        None => match &view.encounter_id {
            Some(_) => SceneMode::Encounter,
            None => SceneMode::Movement,
        },
    };
    let default_kind: &str = match mode {
        SceneMode::Ending => "ending",
        SceneMode::Encounter => "encounter",
        SceneMode::Movement => "location",
    };
    let presentation: Option<&PresentationDef> = match encounter {
        Some(e) => match &e.presentation {
            Some(p) => Some(p),
            None => None,
        },
        None => None,
    };
    let visual_id: String = match presentation {
        Some(p) => match &p.visual_id {
            Some(v) => v.clone(),
            None => {
                let mut x = default_kind.to_string();
                x.append(":");
                x.append(source_id.as_str());
                x
            },
        },
        None => {
            let mut x = default_kind.to_string();
            x.append(":");
            x.append(source_id.as_str());
            x
        },
    };
    let visual_kind: String = match presentation {
        Some(p) => match &p.layout {
            Some(l) => l.clone(),
            None => default_kind.to_string(),
        },
        None => default_kind.to_string(),
    };
    let mut dialogue_entries: Vec<DialogueEntry> = Vec::new();
    match presentation {
        Some(p) => match &p.speaker {
            Some(sp) => {
                dialogue_entries.push(
                    DialogueEntry { speaker: sp.clone(), text: view.body.clone(), source_id: Some(source_id.clone()) },
                );
            },
            None => {},
        },
        None => {},
    }
    let mut actions: Vec<SceneAction> = Vec::new();
    let n = view.actions.len();
    let mut i: usize = 0;
    while i < n
        invariant
            n == view.actions@.len(),
            i <= n,
            actions@.len() == i,
            forall|k: int|
                0 <= k < i ==> (#[trigger] actions@[k]).id == view.actions@[k].id && actions@[k].label
                    == view.actions@[k].label && actions@[k].kind@ == action_kind_spec(view.actions@[k].id@)
                    && actions@[k].cost_text == view.actions@[k].cost_summary,
        decreases n - i,
    {
        actions.push(scene_action(&view.actions[i]));
        i += 1;
    }
    let mut blocked: Vec<SceneBlockedAction> = Vec::new();
    let n = view.blocked_actions.len();
    let mut i: usize = 0;
    while i < n
        invariant
            n == view.blocked_actions@.len(),
            i <= n,
            blocked@.len() == i,
            forall|k: int|
                0 <= k < i ==> (#[trigger] blocked@[k]).id == view.blocked_actions@[k].id && blocked@[k].label
                    == view.blocked_actions@[k].label && blocked@[k].kind@ == action_kind_spec(
                    view.blocked_actions@[k].id@,
                ) && blocked@[k].cost_text == view.blocked_actions@[k].cost_summary && blocked@[k].reasons@
                    == view.blocked_actions@[k].reasons@,
        decreases n - i,
    {
        blocked.push(scene_blocked_action(&view.blocked_actions[i]));
        i += 1;
    }
    let mut history: Vec<HistoryEntry> = Vec::new();
    let n = state.history.len();
    let mut i: usize = 0;
    while i < n
        invariant
            n == state.history@.len(),
            i <= n,
            history@.len() == i,
            forall|k: int|
                0 <= k < i ==> (#[trigger] history@[k]).kind == state.history@[k].kind && history@[k].text
                    == state.history@[k].text && history@[k].source_id == state.history@[k].source_id,
        decreases n - i,
    {
        history.push(history_entry(&state.history[i]));
        i += 1;
    }
    let chapter_label = chapter_label_for_scene(state, location, source_id.as_str());
    let status = status_summary(state);
    let blocks = body_blocks(content, ending, &mode, view.body.as_str(), source_id.as_str(), state);
    let pressure = pressure_cues(&state.player);
    let cues = presentation_effect_cues(presentation, view);
    let p = ScenePage {
        mode,
        title: view.title.clone(),
        location: SceneLocation {
            id: location.id.clone(),
            name: location.name.clone(),
            description: location.description.clone(),
        },
        chapter_label,
        status_summary: status,
        body_blocks: blocks,
        dialogue_entries,
        visual: SceneVisual { id: visual_id, kind: visual_kind, alt: view.title.clone(), source_id: Some(source_id) },
        actions,
        blocked_actions: blocked,
        history_entries: history,
        inventory_summary: InventorySummary { items: crate::state::copy_strings(&state.inventory), overflow_count: 0 },
        achievement_summary: AchievementSummary {
            unlocked: crate::state::copy_strings(&state.unlocked_achievements),
            newly_unlocked: Vec::new(),
        },
        pressure_cues: pressure,
        effect_cues: cues,
    };
    proof {
        assert forall|i: int| 0 <= i < m.actions.len() implies (#[trigger] p.actions@[i]).id@ == m.actions[i].0
            && p.actions@[i].label@ == m.actions[i].1 && p.actions@[i].kind@ == action_kind_spec(m.actions[i].0)
            && opt_text(p.actions@[i].cost_text) == m.actions[i].2 by {
            assert(m.actions[i] == action_model(view.actions@[i]));
        }
        assert forall|i: int| 0 <= i < m.blocked.len() implies (#[trigger] p.blocked_actions@[i]).id@ == m.blocked[i].0
            && p.blocked_actions@[i].label@ == m.blocked[i].1 && p.blocked_actions@[i].kind@ == action_kind_spec(
            m.blocked[i].0,
        ) && opt_text(p.blocked_actions@[i].cost_text) == m.blocked[i].2 && texts(p.blocked_actions@[i].reasons@)
            == m.blocked[i].3 by {
            assert(m.blocked[i] == blocked_model(view.blocked_actions@[i]));
        }
    }
    p
}

/// The page of the turn the state stands at, by the content; refused, with
/// the id, when the content does not know where the player is.
pub fn scene_page_from_content(state: &GameState, content: &ContentIndex) -> (r: Result<ScenePage, ContentTurnError>)
    requires
        turn_costs_showable(state@, content@),
        state.turn < u32::MAX,
    ensures
        match content_turn(state@, content@) {
            Err(id) => r matches Err(ContentTurnError::UnknownStateLocation(x)) && x@ == id,
            Ok(m) => r matches Ok(p) && find_key(content@.locations, state@.location_id) matches Some(loc) && page_ok(
                p,
                *state,
                content@,
                loc,
                match m.encounter_id {
                    Some(id) => find_key(content@.encounters, id),
                    None => None,
                },
                match m.ending_id {
                    Some(id) => find_key(content@.endings, id),
                    None => None,
                },
                m,
                Seq::empty(),
            ),
        },
{
    let view = match content_turn_view(state, content) {
        Ok(v) => v,
        Err(e) => {
            return Err(e);
        },
    };
    let location = match content.location(state.location_id.as_str()) {
        Some(l) => l,
        None => {
            return Err(ContentTurnError::UnknownStateLocation(state.location_id.clone()));
        },
    };
    let encounter = match &view.encounter_id {
        Some(id) => content.encounter(id.as_str()),
        None => None,
    };
    let ending = match &view.ending_id {
        Some(id) => content.ending(id.as_str()),
        None => None,
    };
    let ghost mm = content_turn(state@, content@);
    assert(mm is Ok);
    let ghost m = mm->Ok_0;
    assert(view_is(view, m));
    assert(view.actions@.map_values(|a: ActionView| action_model(a)) == m.actions);
    assert(model_of_view(view) =~= m);
    let ghost enc_spec = match m.encounter_id {
        Some(id) => find_key(content@.encounters, id),
        None => None,
    };
    assert(enc_spec == match encounter {
        Some(e) => Some(*e),
        None => None::<EncounterDef>,
    });
    let page = scene_page_from_turn_view(state, content, location, encounter, ending, &view);
    assert(view.effect_cues@ =~= Seq::<EffectCue>::empty());
    Ok(page)
}

} // verus!
