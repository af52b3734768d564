//! A content-driven turn as a whole: what a choice's outcome does, which
//! ending or encounter the state stands at, the view of a turn, and taking
//! an action in it.
use vstd::prelude::*;
use crate::content::{find_key, LocationDef, ChoiceDef, ContentIndex, EncounterDef, EndingDef, IndexModel, ItemDef, OutcomeDef};
use crate::effects::texts;
use crate::state::{opt_text, with_once, without, without_first, GameState, GameStateModel, HistoryModel};
use crate::story_rules::{
    amounts_negatable, blocked_choice_action_view, choice_action_id, choice_action_view, choice_is_available,
    choice_open, choice_reasons, conditions_hold, conditions_match, cost_summary_spec, deltas_applied, deltas_fit,
    encounter_is_available, encounter_open, floor_zero, item_action_views, item_views, move_views,
    movement_action_views, resource_label, resource_label_spec, views_are, item_target, item_used, movement_target,
    moved, strip_spec, strip_prefix_text, extend_texts, turn_passed, turn_can_pass, unlock_run, apply_cost,
    advance_turn, unlock_achievements, apply_item_action, apply_movement_action,
};
use crate::turn::{
    ability_score, check_seed_text, dice_of, fnv32, resolve_ability_check, ActionResult, ActionView,
    BlockedActionView, ContentActionError, ContentTurnError, TurnView,
};
use crate::final_epilogue::render::{join, join_strings};
use crate::scene_page::chars_of;
use crate::text::{has_prefix, starts_with, str_eq};
use crate::text::dec_text;

verus! {

// ---------------------------------------------------------------- outcomes

/// `s` with each of `xs` added once, in order.
pub open spec fn all_added_once(s: Seq<Seq<char>>, xs: Seq<Seq<char>>) -> Seq<Seq<char>>
    decreases xs.len(),
{
    if xs.len() == 0 {
        s
    } else {
        with_once(all_added_once(s, xs.drop_last()), xs.last())
    }
}

/// `s` with every entry equal to any of `xs` taken out.
pub open spec fn all_without(s: Seq<Seq<char>>, xs: Seq<Seq<char>>) -> Seq<Seq<char>>
    decreases xs.len(),
{
    if xs.len() == 0 {
        s
    } else {
        without(all_without(s, xs.drop_last()), xs.last())
    }
}

/// `s` with one entry taken out for each of `xs`, in order.
pub open spec fn all_removed_first(s: Seq<Seq<char>>, xs: Seq<Seq<char>>) -> Seq<Seq<char>>
    decreases xs.len(),
{
    if xs.len() == 0 {
        s
    } else {
        without_first(all_removed_first(s, xs.drop_last()), xs.last())
    }
}

/// Taking out every entry equal to `x` keeps exactly the other entries.
pub proof fn lemma_without_contains(s: Seq<Seq<char>>, x: Seq<char>)
    ensures
        forall|y: Seq<char>| #[trigger] without(s, x).contains(y) <==> s.contains(y) && y != x,
    decreases s.len(),
{
    if s.len() > 0 {
        let init = s.drop_last();
        lemma_without_contains(init, x);
        let w = without(init, x);
        assert forall|y: Seq<char>| #[trigger] without(s, x).contains(y) <==> s.contains(y) && y != x by {
            if s.contains(y) {
                let i = choose|i: int| 0 <= i < s.len() && s[i] == y;
                if i < init.len() {
                    assert(init[i] == y);
                }
            }
            if init.contains(y) {
                let i = choose|i: int| 0 <= i < init.len() && init[i] == y;
                assert(s[i] == y);
            }
            if s.last() != x {
                assert(w.push(s.last()).last() == s.last());
                if w.contains(y) {
                    let i = choose|i: int| 0 <= i < w.len() && w[i] == y;
                    assert(w.push(s.last())[i] == y);
                }
                if w.push(s.last()).contains(y) && y != s.last() {
                    let i = choose|i: int| 0 <= i < w.len() + 1 && w.push(s.last())[i] == y;
                    assert(w[i] == y);
                }
            }
        }
    }
}

/// Adding each of `xs` once keeps what was there and adds the rest.
pub proof fn lemma_all_added_once_contains(s: Seq<Seq<char>>, xs: Seq<Seq<char>>)
    ensures
        forall|y: Seq<char>| #[trigger] all_added_once(s, xs).contains(y) <==> s.contains(y) || xs.contains(y),
    decreases xs.len(),
{
    if xs.len() > 0 {
        let init = xs.drop_last();
        lemma_all_added_once_contains(s, init);
        let a = all_added_once(s, init);
        assert forall|y: Seq<char>| #[trigger] all_added_once(s, xs).contains(y) <==> s.contains(y) || xs.contains(y) by {
            if xs.contains(y) {
                let i = choose|i: int| 0 <= i < xs.len() && xs[i] == y;
                if i < init.len() {
                    assert(init[i] == y);
                }
            }
            if init.contains(y) {
                let i = choose|i: int| 0 <= i < init.len() && init[i] == y;
                assert(xs[i] == y);
            }
            if !a.contains(xs.last()) {
                assert(a.push(xs.last()).last() == xs.last());
                if a.contains(y) {
                    let i = choose|i: int| 0 <= i < a.len() && a[i] == y;
                    assert(a.push(xs.last())[i] == y);
                }
                if a.push(xs.last()).contains(y) && y != xs.last() {
                    let i = choose|i: int| 0 <= i < a.len() + 1 && a.push(xs.last())[i] == y;
                    assert(a[i] == y);
                }
            }
        }
    }
}

/// Clearing each of `xs` keeps exactly the entries that are none of them.
pub proof fn lemma_all_without_contains(s: Seq<Seq<char>>, xs: Seq<Seq<char>>)
    ensures
        forall|y: Seq<char>| #[trigger] all_without(s, xs).contains(y) <==> s.contains(y) && !xs.contains(y),
    decreases xs.len(),
{
    if xs.len() > 0 {
        let init = xs.drop_last();
        lemma_all_without_contains(s, init);
        lemma_without_contains(all_without(s, init), xs.last());
        assert forall|y: Seq<char>| #[trigger] all_without(s, xs).contains(y) <==> s.contains(y) && !xs.contains(y) by {
            if xs.contains(y) {
                let i = choose|i: int| 0 <= i < xs.len() && xs[i] == y;
                if i < init.len() {
                    assert(init[i] == y);
                }
            }
            if init.contains(y) {
                let i = choose|i: int| 0 <= i < init.len() && init[i] == y;
                assert(xs[i] == y);
            }
        }
    }
}

/// What an outcome does to the state: the danger is the previous danger
/// plus the outcome's, never below zero; a flag is set afterwards exactly
/// when the outcome sets it, or it was set and the outcome does not clear
/// it; the clues are the previous ones with the outcome's added; every item
/// the outcome gives is carried; the player stands at the outcome's
/// destination, if it names one.
pub proof fn lemma_outcome_effects(s: GameStateModel, idx: IndexModel, o: OutcomeDef)
    requires
        i32::MIN <= s.danger + o.danger <= i32::MAX,
    ensures
        outcome_applied(s, idx, o).0.danger == (if s.danger + o.danger < 0 {
            0
        } else {
            s.danger + o.danger
        }),
        forall|y: Seq<char>| #[trigger] outcome_applied(s, idx, o).0.flags.contains(y) <==> texts(o.add_flags@).contains(y) || (
        s.flags.contains(y) && !texts(o.remove_flags@).contains(y)),
        forall|y: Seq<char>| #[trigger] outcome_applied(s, idx, o).0.clues.contains(y) <==> s.clues.contains(y) || texts(
            o.add_clues@,
        ).contains(y),
        forall|i: int| 0 <= i < o.add_items@.len() ==> outcome_applied(s, idx, o).0.inventory.contains(#[trigger] o.add_items@[i]@),
        outcome_applied(s, idx, o).0.location_id == match o.destination_id {
            Some(d) => d@,
            None => s.location_id,
        },
        outcome_applied(s, idx, o).0.turn == s.turn,
{
    lemma_all_without_contains(s.flags, texts(o.remove_flags@));
    lemma_all_added_once_contains(all_without(s.flags, texts(o.remove_flags@)), texts(o.add_flags@));
    lemma_all_added_once_contains(s.clues, texts(o.add_clues@));
    let removed = all_removed_first(s.inventory, texts(o.remove_items@));
    lemma_all_added_once_contains(removed, texts(o.add_items@));
    assert forall|i: int| 0 <= i < o.add_items@.len() implies outcome_applied(s, idx, o).0.inventory.contains(
        #[trigger] o.add_items@[i]@,
    ) by {
        assert(texts(o.add_items@)[i] == o.add_items@[i]@);
    }
}

/// An item shown by its name, or by its id when the content does not know it.
pub open spec fn item_name(items: Seq<ItemDef>, id: Seq<char>) -> Seq<char> {
    match find_key(items, id) {
        Some(it) => it.name@,
        None => id,
    }
}

/// One line per nonzero resource change: "+ label n" or "- label n".
pub open spec fn resource_change_lines(res: Seq<(String, i32)>) -> Seq<Seq<char>>
    decreases res.len(),
{
    if res.len() == 0 {
        Seq::empty()
    } else {
        let prev = resource_change_lines(res.drop_last());
        let e = res.last();
        if e.1 > 0 {
            prev.push("+ "@ + resource_label_spec(e.0@) + " "@ + dec_text(e.1 as nat))
        } else if e.1 < 0 {
            prev.push("- "@ + resource_label_spec(e.0@) + " "@ + dec_text((-e.1) as nat))
        } else {
            prev
        }
    }
}

/// Each item id shown by name after a sign.
pub open spec fn item_lines(sign: Seq<char>, ids: Seq<Seq<char>>, items: Seq<ItemDef>) -> Seq<Seq<char>> {
    ids.map_values(|id: Seq<char>| sign + item_name(items, id))
}

/// Whether the outcome's arithmetic stays within `i32`.
pub open spec fn outcome_fits(s: GameStateModel, o: OutcomeDef) -> bool {
    &&& deltas_fit(s.player, o.resources@, false)
    &&& forall|i: int| 0 <= i < o.resources@.len() ==> #[trigger] o.resources@[i].1 != i32::MIN
    &&& i32::MIN <= s.danger + o.danger <= i32::MAX
}

/// An outcome applied: the resource changes in order, the danger added
/// (never below zero), the listed items taken out one each and then added
/// once each, the listed flags cleared and then set, the clues added, and
/// the player moved when it names a destination. Its lines are its own log
/// (if any), then the resource changes, the items taken and the items given.
pub open spec fn outcome_applied(s: GameStateModel, idx: IndexModel, o: OutcomeDef) -> (GameStateModel, Seq<Seq<char>>) {
    let s1 = GameStateModel {
        player: deltas_applied(s.player, o.resources@, false),
        danger: floor_zero(s.danger + o.danger),
        inventory: all_added_once(all_removed_first(s.inventory, texts(o.remove_items@)), texts(o.add_items@)),
        flags: all_added_once(all_without(s.flags, texts(o.remove_flags@)), texts(o.add_flags@)),
        clues: all_added_once(s.clues, texts(o.add_clues@)),
        location_id: match o.destination_id {
            Some(d) => d@,
            None => s.location_id,
        },
        ..s
    };
    let own: Seq<Seq<char>> = match o.log {
        Some(l) => seq![l@],
        None => Seq::empty(),
    };
    let lines = own + resource_change_lines(o.resources@) + item_lines("- "@, texts(o.remove_items@), idx.items)
        + item_lines("+ "@, texts(o.add_items@), idx.items);
    (s1, lines)
}

fn item_name_text(content: &ContentIndex, id: &str) -> (r: String)
    ensures
        r@ == item_name(content@.items, id@),
{
    match content.item(id) {
        Some(it) => it.name.clone(),
        None => id.to_string(),
    }
}

fn push_line(out: &mut Vec<String>, line: String)
    ensures
        texts(final(out)@) == texts(old(out)@).push(line@),
{
    let ghost before = out@;
    let ghost lv = line@;
    out.push(line);
    assert(texts(out@) =~= texts(before).push(lv));
}

/// Applies a choice's outcome to the state and returns its lines.
pub fn apply_outcome(state: &mut GameState, content: &ContentIndex, outcome: &OutcomeDef) -> (r: Vec<String>)
    requires
        outcome_fits(old(state)@, *outcome),
    ensures
        final(state)@ == outcome_applied(old(state)@, content@, *outcome).0,
        texts(r@) == outcome_applied(old(state)@, content@, *outcome).1,
{
    let ghost s0 = state@;
    let ghost o = *outcome;
    crate::story_rules::apply_deltas(&mut state.player, &outcome.resources, false);
    let sum = state.danger + outcome.danger;
    state.danger = if sum < 0 {
        0
    } else {
        sum
    };
    let mut lines: Vec<String> = Vec::new();
    match &outcome.log {
        Some(l) => {
            lines.push(l.clone());
        },
        None => {},
    }
    let ghost own = texts(lines@);
    // resource changes
    let n = outcome.resources.len();
    let mut i: usize = 0;
    while i < n
        invariant
            n == outcome.resources@.len(),
            i <= n,
            forall|k: int| 0 <= k < n ==> #[trigger] outcome.resources@[k].1 != i32::MIN,
            texts(lines@) == own + resource_change_lines(outcome.resources@.take(i as int)),
        decreases n - i,
    {
        assert(outcome.resources@.take(i + 1).drop_last() =~= outcome.resources@.take(i as int));
        let amount = outcome.resources[i].1;
        let label = resource_label(outcome.resources[i].0.as_str());
        if amount > 0 {
            let mut line = "+ ".to_string();
            line.append(label);
            line.append(" ");
            crate::text::append_u64(&mut line, amount as u64);
            push_line(&mut lines, line);
        } else if amount < 0 {
            assert(outcome.resources@[i as int].1 != i32::MIN);
            let mut line = "- ".to_string();
            line.append(label);
            line.append(" ");
            crate::text::append_u64(&mut line, (-amount) as u64);
            push_line(&mut lines, line);
        }
        i += 1;
    }
    assert(outcome.resources@.take(n as int) =~= outcome.resources@);
    let ghost after_res = texts(lines@);
    let ghost st1 = state@;
    // items taken
    let n = outcome.remove_items.len();
    let mut i: usize = 0;
    while i < n
        invariant
            n == outcome.remove_items@.len(),
            i <= n,
            state@ == (GameStateModel {
                inventory: all_removed_first(st1.inventory, texts(outcome.remove_items@.take(i as int))),
                ..st1
            }),
            texts(lines@) == after_res + item_lines("- "@, texts(outcome.remove_items@.take(i as int)), content@.items),
        decreases n - i,
    {
        let ghost pre = texts(outcome.remove_items@.take(i + 1));
        assert(pre.drop_last() =~= texts(outcome.remove_items@.take(i as int)));
        assert(pre.last() == outcome.remove_items@[i as int]@);
        let id = outcome.remove_items[i].as_str();
        state.remove_inventory_item(id);
        let mut line = "- ".to_string();
        let name = item_name_text(content, id);
        line.append(name.as_str());
        push_line(&mut lines, line);
        assert(item_lines("- "@, pre, content@.items) =~= item_lines("- "@, pre.drop_last(), content@.items).push(
            "- "@ + item_name(content@.items, id@),
        ));
        i += 1;
    }
    assert(outcome.remove_items@.take(n as int) =~= outcome.remove_items@);
    let ghost after_rm = texts(lines@);
    let ghost st2 = state@;
    // items given
    let n = outcome.add_items.len();
    let mut i: usize = 0;
    while i < n
        invariant
            n == outcome.add_items@.len(),
            i <= n,
            state@ == (GameStateModel {
                inventory: all_added_once(st2.inventory, texts(outcome.add_items@.take(i as int))),
                ..st2
            }),
            texts(lines@) == after_rm + item_lines("+ "@, texts(outcome.add_items@.take(i as int)), content@.items),
        decreases n - i,
    {
        let ghost pre = texts(outcome.add_items@.take(i + 1));
        assert(pre.drop_last() =~= texts(outcome.add_items@.take(i as int)));
        assert(pre.last() == outcome.add_items@[i as int]@);
        let id = outcome.add_items[i].as_str();
        state.add_inventory_once(id);
        let mut line = "+ ".to_string();
        let name = item_name_text(content, id);
        line.append(name.as_str());
        push_line(&mut lines, line);
        assert(item_lines("+ "@, pre, content@.items) =~= item_lines("+ "@, pre.drop_last(), content@.items).push(
            "+ "@ + item_name(content@.items, id@),
        ));
        i += 1;
    }
    assert(outcome.add_items@.take(n as int) =~= outcome.add_items@);
    let ghost st3 = state@;
    // flags cleared
    let n = outcome.remove_flags.len();
    let mut i: usize = 0;
    while i < n
        invariant
            n == outcome.remove_flags@.len(),
            i <= n,
            state@ == (GameStateModel {
                flags: all_without(st3.flags, texts(outcome.remove_flags@.take(i as int))),
                ..st3
            }),
        decreases n - i,
    {
        let ghost pre = texts(outcome.remove_flags@.take(i + 1));
        assert(pre.drop_last() =~= texts(outcome.remove_flags@.take(i as int)));
        assert(pre.last() == outcome.remove_flags@[i as int]@);
        state.remove_flag(outcome.remove_flags[i].as_str());
        i += 1;
    }
    assert(outcome.remove_flags@.take(n as int) =~= outcome.remove_flags@);
    let ghost st4 = state@;
    // flags set
    let n = outcome.add_flags.len();
    let mut i: usize = 0;
    while i < n
        invariant
            n == outcome.add_flags@.len(),
            i <= n,
            state@ == (GameStateModel {
                flags: all_added_once(st4.flags, texts(outcome.add_flags@.take(i as int))),
                ..st4
            }),
        decreases n - i,
    {
        let ghost pre = texts(outcome.add_flags@.take(i + 1));
        assert(pre.drop_last() =~= texts(outcome.add_flags@.take(i as int)));
        assert(pre.last() == outcome.add_flags@[i as int]@);
        state.add_flag_once(outcome.add_flags[i].as_str());
        i += 1;
    }
    assert(outcome.add_flags@.take(n as int) =~= outcome.add_flags@);
    let ghost st5 = state@;
    // clues
    let n = outcome.add_clues.len();
    let mut i: usize = 0;
    while i < n
        invariant
            n == outcome.add_clues@.len(),
            i <= n,
            state@ == (GameStateModel {
                clues: all_added_once(st5.clues, texts(outcome.add_clues@.take(i as int))),
                ..st5
            }),
        decreases n - i,
    {
        let ghost pre = texts(outcome.add_clues@.take(i + 1));
        assert(pre.drop_last() =~= texts(outcome.add_clues@.take(i as int)));
        assert(pre.last() == outcome.add_clues@[i as int]@);
        state.add_clue_once(outcome.add_clues[i].as_str());
        i += 1;
    }
    assert(outcome.add_clues@.take(n as int) =~= outcome.add_clues@);
    match &outcome.destination_id {
        Some(d) => {
            state.location_id = d.clone();
        },
        None => {},
    }
    proof {
        let expected = outcome_applied(s0, content@, o);
        assert(state@ == expected.0);
        assert(texts(lines@) =~= expected.1);
    }
    lines
}

// ---------------------------------------------------------------- where the state stands

/// Of the endings whose conditions hold, the one with the highest priority;
/// among equal priorities the last in id order.
pub open spec fn best_ending(es: Seq<EndingDef>, s: GameStateModel) -> Option<EndingDef>
    decreases es.len(),
{
    if es.len() == 0 {
        None
    } else {
        let prev = best_ending(es.drop_last(), s);
        let e = es.last();
        if conditions_hold(e.conditions, s) {
            match prev {
                Some(p) => if e.priority >= p.priority {
                    Some(e)
                } else {
                    prev
                },
                None => Some(e),
            }
        } else {
            prev
        }
    }
}

/// The ending the state has reached, if any.
pub fn current_content_ending<'a>(content: &'a ContentIndex, state: &GameState) -> (r: Option<&'a EndingDef>)
    ensures
        match r {
            Some(e) => best_ending(content@.endings, state@) == Some(*e),
            None => best_ending(content@.endings, state@) is None,
        },
{
    let endings = content.endings();
    let mut best: Option<usize> = None;
    let n = endings.len();
    let mut i: usize = 0;
    while i < n
        invariant
            n == endings@.len(),
            endings@ == content@.endings,
            i <= n,
            match best {
                Some(b) => b < i && best_ending(endings@.take(i as int), state@) == Some(endings@[b as int]),
                None => best_ending(endings@.take(i as int), state@) is None,
            },
        decreases n - i,
    {
        assert(endings@.take(i + 1).drop_last() =~= endings@.take(i as int));
        assert(endings@.take(i + 1).last() == endings@[i as int]);
        if conditions_match(&endings[i].conditions, state) {
            match best {
                Some(b) => {
                    if endings[i].priority >= endings[b].priority {
                        best = Some(i);
                    }
                },
                None => {
                    best = Some(i);
                },
            }
        }
        i += 1;
    }
    assert(endings@.take(n as int) =~= endings@);
    match best {
        Some(b) => Some(&endings[b]),
        None => None,
    }
}

/// The early encounters that are offered first, in story order.
pub open spec fn pipeline_ids() -> Seq<Seq<char>> {
    seq![
        "wuxia_cheongryu_first_night_shelter"@,
        "wuxia_cheongryu_first_breathing_lesson"@,
        "wuxia_cheongryu_training_first_failure"@,
        "wuxia_cheongryu_medicine_errand"@,
        "wuxia_cheongryu_raid_omen"@,
        "wuxia_cheongryu_gate_patrol_first_trouble"@,
        "wuxia_seoharin_hides_training_injury"@,
    ]
}

fn pipeline_id(i: usize) -> (r: &'static str)
    requires
        i < 7,
    ensures
        r@ == pipeline_ids()[i as int],
{
    if i == 0 {
        "wuxia_cheongryu_first_night_shelter"
    } else if i == 1 {
        "wuxia_cheongryu_first_breathing_lesson"
    } else if i == 2 {
        "wuxia_cheongryu_training_first_failure"
    } else if i == 3 {
        "wuxia_cheongryu_medicine_errand"
    } else if i == 4 {
        "wuxia_cheongryu_raid_omen"
    } else if i == 5 {
        "wuxia_cheongryu_gate_patrol_first_trouble"
    } else {
        "wuxia_seoharin_hides_training_injury"
    }
}

/// The first of the ids, in order, naming an encounter that is open.
pub open spec fn first_open_of(ids: Seq<Seq<char>>, encs: Seq<EncounterDef>, s: GameStateModel) -> Option<EncounterDef>
    decreases ids.len(),
{
    if ids.len() == 0 {
        None
    } else {
        match find_key(encs, ids[0]) {
            Some(e) => if encounter_open(e, s) {
                Some(e)
            } else {
                first_open_of(ids.drop_first(), encs, s)
            },
            None => first_open_of(ids.drop_first(), encs, s),
        }
    }
}

/// The first open encounter in id order.
pub open spec fn first_open(encs: Seq<EncounterDef>, s: GameStateModel) -> Option<EncounterDef>
    decreases encs.len(),
{
    if encs.len() == 0 {
        None
    } else if encounter_open(encs[0], s) {
        Some(encs[0])
    } else {
        first_open(encs.drop_first(), s)
    }
}

/// The encounter the state stands at: the first open one of the early
/// story encounters, else the first open one in id order.
pub open spec fn current_encounter(idx: IndexModel, s: GameStateModel) -> Option<EncounterDef> {
    match first_open_of(pipeline_ids(), idx.encounters, s) {
        Some(e) => Some(e),
        None => first_open(idx.encounters, s),
    }
}

pub fn current_content_encounter<'a>(content: &'a ContentIndex, state: &GameState) -> (r: Option<&'a EncounterDef>)
    ensures
        match r {
            Some(e) => current_encounter(content@, state@) == Some(*e),
            None => current_encounter(content@, state@) is None,
        },
{
    let mut i: usize = 0;
    assert(pipeline_ids().skip(0) =~= pipeline_ids());
    while i < 7
        invariant
            i <= 7,
            first_open_of(pipeline_ids(), content@.encounters, state@) == first_open_of(
                pipeline_ids().skip(i as int),
                content@.encounters,
                state@,
            ),
        decreases 7 - i,
    {
        let ghost rest = pipeline_ids().skip(i as int);
        assert(rest.drop_first() =~= pipeline_ids().skip(i + 1));
        let id = pipeline_id(i);
        assert(rest[0] == id@);
        match content.encounter(id) {
            Some(e) => {
                if encounter_is_available(e, state) {
                    return Some(e);
                }
            },
            None => {},
        }
        i += 1;
    }
    assert(pipeline_ids().skip(7) =~= Seq::<Seq<char>>::empty());
    let encs = content.encounters();
    let n = encs.len();
    let mut k: usize = 0;
    assert(encs@.skip(0) =~= encs@);
    while k < n
        invariant
            n == encs@.len(),
            encs@ == content@.encounters,
            k <= n,
            first_open_of(pipeline_ids(), content@.encounters, state@) is None,
            first_open(encs@, state@) == first_open(encs@.skip(k as int), state@),
        decreases n - k,
    {
        let ghost rest = encs@.skip(k as int);
        assert(rest.drop_first() =~= encs@.skip(k + 1));
        assert(rest[0] == encs@[k as int]);
        if encounter_is_available(&encs[k], state) {
            return Some(&encs[k]);
        }
        k += 1;
    }
    assert(encs@.skip(n as int) =~= Seq::<EncounterDef>::empty());
    None
}

// ---------------------------------------------------------------- the view of a turn

pub open spec fn action_model(a: ActionView) -> (Seq<char>, Seq<char>, Option<Seq<char>>) {
    (a.id@, a.label@, opt_text(a.cost_summary))
}

pub open spec fn blocked_model(b: BlockedActionView) -> (Seq<char>, Seq<char>, Option<Seq<char>>, Seq<Seq<char>>) {
    (b.id@, b.label@, opt_text(b.cost_summary), texts(b.reasons@))
}

/// Actions that carry no cost.
pub open spec fn costless(m: Seq<(Seq<char>, Seq<char>)>) -> Seq<(Seq<char>, Seq<char>, Option<Seq<char>>)> {
    m.map_values(|x: (Seq<char>, Seq<char>)| (x.0, x.1, None::<Seq<char>>))
}

/// The open choices as actions, in the encounter's order.
pub open spec fn open_choice_actions(chs: Seq<ChoiceDef>, s: GameStateModel) -> Seq<
    (Seq<char>, Seq<char>, Option<Seq<char>>),
>
    decreases chs.len(),
{
    if chs.len() == 0 {
        Seq::empty()
    } else {
        let prev = open_choice_actions(chs.drop_last(), s);
        let c = chs.last();
        if choice_open(c, s) {
            prev.push((choice_action_id(c), c.label@, cost_summary_spec(c.cost@)))
        } else {
            prev
        }
    }
}

/// The closed choices with their reasons, in the encounter's order.
pub open spec fn blocked_choice_actions(chs: Seq<ChoiceDef>, s: GameStateModel) -> Seq<
    (Seq<char>, Seq<char>, Option<Seq<char>>, Seq<Seq<char>>),
>
    decreases chs.len(),
{
    if chs.len() == 0 {
        Seq::empty()
    } else {
        let prev = blocked_choice_actions(chs.drop_last(), s);
        let c = chs.last();
        if !choice_open(c, s) {
            prev.push((choice_action_id(c), c.label@, cost_summary_spec(c.cost@), choice_reasons(c, s)))
        } else {
            prev
        }
    }
}

/// What a turn shows.
pub struct TurnModel {
    pub location_id: Seq<char>,
    pub encounter_id: Option<Seq<char>>,
    pub ending_id: Option<Seq<char>>,
    pub title: Seq<char>,
    pub body: Seq<char>,
    pub actions: Seq<(Seq<char>, Seq<char>, Option<Seq<char>>)>,
    pub blocked: Seq<(Seq<char>, Seq<char>, Option<Seq<char>>, Seq<Seq<char>>)>,
}

pub open spec fn view_is(v: TurnView, m: TurnModel) -> bool {
    &&& v.location_id@ == m.location_id
    &&& opt_text(v.encounter_id) == m.encounter_id
    &&& opt_text(v.ending_id) == m.ending_id
    &&& v.title@ == m.title
    &&& v.body@ == m.body
    &&& v.actions@.map_values(|a: ActionView| action_model(a)) == m.actions
    &&& v.blocked_actions@.map_values(|b: BlockedActionView| blocked_model(b)) == m.blocked
    &&& v.effect_cues@.len() == 0
}

/// The turn at a state: refused when the content does not know where the
/// player is; at an ending its name and text with nothing to do; with no
/// open encounter the place itself, with its moves and item uses; else the
/// encounter with its open choices and item uses, and its closed choices
/// with their reasons. The error carries the unknown location id.
pub open spec fn content_turn(s: GameStateModel, idx: IndexModel) -> Result<TurnModel, Seq<char>> {
    match find_key(idx.locations, s.location_id) {
        None => Err(s.location_id),
        Some(loc) => match best_ending(idx.endings, s) {
            Some(e) => Ok(
                TurnModel {
                    location_id: s.location_id,
                    encounter_id: None,
                    ending_id: Some(e.id@),
                    title: e.name@,
                    body: e.text@,
                    actions: Seq::empty(),
                    blocked: Seq::empty(),
                },
            ),
            None => {
                let items = costless(item_views(s.inventory, idx.items));
                match current_encounter(idx, s) {
                    None => Ok(
                        TurnModel {
                            location_id: s.location_id,
                            encounter_id: None,
                            ending_id: None,
                            title: loc.name@,
                            body: loc.description@,
                            actions: costless(move_views(texts(loc.connections@), idx.locations)) + items,
                            blocked: Seq::empty(),
                        },
                    ),
                    Some(enc) => Ok(
                        TurnModel {
                            location_id: s.location_id,
                            encounter_id: Some(enc.id@),
                            ending_id: None,
                            title: enc.title@,
                            body: enc.body@,
                            actions: open_choice_actions(enc.choices@, s) + items,
                            blocked: blocked_choice_actions(enc.choices@, s),
                        },
                    ),
                }
            },
        },
    }
}

/// Whether every cost the turn would show can be negated in `i32`.
pub open spec fn turn_costs_showable(s: GameStateModel, idx: IndexModel) -> bool {
    (find_key(idx.locations, s.location_id) is Some && best_ending(idx.endings, s) is None) ==> match current_encounter(
        idx,
        s,
    ) {
        Some(enc) => forall|i: int| 0 <= i < enc.choices@.len() ==> amounts_negatable(#[trigger] enc.choices@[i].cost@),
        None => true,
    }
}

proof fn lemma_costless_views(r: Seq<ActionView>, m: Seq<(Seq<char>, Seq<char>)>)
    requires
        views_are(r, m),
    ensures
        r.map_values(|a: ActionView| action_model(a)) == costless(m),
{
    assert forall|i: int| 0 <= i < r.len() implies r.map_values(|a: ActionView| action_model(a))[i] == costless(m)[i] by {
        assert(r[i].id@ == m[i].0);
    }
    assert(r.map_values(|a: ActionView| action_model(a)) =~= costless(m));
}

/// The view of the turn the state stands at.
pub fn content_turn_view(state: &GameState, content: &ContentIndex) -> (r: Result<TurnView, ContentTurnError>)
    requires
        turn_costs_showable(state@, content@),
    ensures
        match content_turn(state@, content@) {
            Ok(m) => r matches Ok(v) && view_is(v, m),
            Err(id) => r matches Err(ContentTurnError::UnknownStateLocation(x)) && x@ == id,
        },
{
    let location = match content.location(state.location_id.as_str()) {
        Some(l) => l,
        None => {
            return Err(ContentTurnError::UnknownStateLocation(state.location_id.clone()));
        },
    };
    match current_content_ending(content, state) {
        Some(ending) => {
            let v = TurnView {
                location_id: state.location_id.clone(),
                encounter_id: None,
                ending_id: Some(ending.id.clone()),
                title: ending.name.clone(),
                body: ending.text.clone(),
                actions: Vec::new(),
                blocked_actions: Vec::new(),
                effect_cues: Vec::new(),
            };
            assert(v.actions@.map_values(|a: ActionView| action_model(a)) =~= Seq::empty());
            assert(v.blocked_actions@.map_values(|b: BlockedActionView| blocked_model(b)) =~= Seq::empty());
            return Ok(v);
        },
        None => {},
    }
    let mut item_actions = item_action_views(state, content);
    proof {
        lemma_costless_views(item_actions@, item_views(state@.inventory, content@.items));
    }
    let ghost item_models = item_actions@.map_values(|a: ActionView| action_model(a));
    match current_content_encounter(content, state) {
        None => {
            let mut actions = movement_action_views(location, content);
            proof {
                lemma_costless_views(actions@, move_views(texts(location.connections@), content@.locations));
            }
            let ghost move_models = actions@.map_values(|a: ActionView| action_model(a));
            actions.append(&mut item_actions);
            let v = TurnView {
                location_id: state.location_id.clone(),
                encounter_id: None,
                ending_id: None,
                title: location.name.clone(),
                body: location.description.clone(),
                actions,
                blocked_actions: Vec::new(),
                effect_cues: Vec::new(),
            };
            assert(v.actions@.map_values(|a: ActionView| action_model(a)) =~= move_models + item_models);
            assert(v.blocked_actions@.map_values(|b: BlockedActionView| blocked_model(b)) =~= Seq::empty());
            Ok(v)
        },
        Some(encounter) => {
            let chs = &encounter.choices;
            let n = chs.len();
            let mut actions: Vec<ActionView> = Vec::new();
            let mut blocked: Vec<BlockedActionView> = Vec::new();
            let mut i: usize = 0;
            while i < n
                invariant
                    n == chs@.len(),
                    chs@ == encounter.choices@,
                    i <= n,
                    forall|k: int| 0 <= k < n ==> amounts_negatable(#[trigger] chs@[k].cost@),
                    actions@.map_values(|a: ActionView| action_model(a)) == open_choice_actions(
                        chs@.take(i as int),
                        state@,
                    ),
                    blocked@.map_values(|b: BlockedActionView| blocked_model(b)) == blocked_choice_actions(
                        chs@.take(i as int),
                        state@,
                    ),
                decreases n - i,
            {
                assert(chs@.take(i + 1).drop_last() =~= chs@.take(i as int));
                assert(chs@.take(i + 1).last() == chs@[i as int]);
                assert(amounts_negatable(chs@[i as int].cost@));
                let c = &chs[i];
                if choice_is_available(c, state) {
                    let ghost before = actions@;
                    let a = choice_action_view(c);
                    actions.push(a);
                    assert(actions@.map_values(|a: ActionView| action_model(a)) =~= before.map_values(
                        |a: ActionView| action_model(a),
                    ).push(action_model(actions@.last())));
                } else {
                    let ghost before = blocked@;
                    let b = blocked_choice_action_view(c, state);
                    blocked.push(b);
                    assert(blocked@.map_values(|b: BlockedActionView| blocked_model(b)) =~= before.map_values(
                        |b: BlockedActionView| blocked_model(b),
                    ).push(blocked_model(blocked@.last())));
                }
                i += 1;
            }
            assert(chs@.take(n as int) =~= chs@);
            let ghost open_models = actions@.map_values(|a: ActionView| action_model(a));
            actions.append(&mut item_actions);
            let v = TurnView {
                location_id: state.location_id.clone(),
                encounter_id: Some(encounter.id.clone()),
                ending_id: None,
                title: encounter.title.clone(),
                body: encounter.body.clone(),
                actions,
                blocked_actions: blocked,
                effect_cues: Vec::new(),
            };
            assert(v.actions@.map_values(|a: ActionView| action_model(a)) =~= open_models + item_models);
            Ok(v)
        },
    }
}

// ---------------------------------------------------------------- taking an action

/// Why an action is refused, with its texts taken by value.
pub enum ActionFault {
    UnknownStateLocation(Seq<char>),
    UnknownAction(Seq<char>),
}

pub open spec fn fault_of(e: ContentActionError) -> ActionFault {
    match e {
        ContentActionError::UnknownStateLocation(x) => ActionFault::UnknownStateLocation(x@),
        ContentActionError::UnknownAction(x) => ActionFault::UnknownAction(x@),
    }
}

/// What an action led to.
pub struct ActionOutcome {
    pub encounter_id: Seq<char>,
    pub state: GameStateModel,
    pub logs: Seq<Seq<char>>,
    pub newly_unlocked: Seq<Seq<char>>,
}

pub open spec fn outcome_is(res: ActionResult, action: Seq<char>, o: ActionOutcome) -> bool {
    &&& res.encounter_id@ == o.encounter_id
    &&& res.action_id@ == action
    &&& res.state@ == o.state
    &&& texts(res.logs@) == o.logs
    &&& res.effect_cues@.len() == 0
    &&& texts(res.newly_unlocked_achievements@) == o.newly_unlocked
}

/// The first choice with this id that is open.
pub open spec fn open_choice_named(chs: Seq<ChoiceDef>, id: Seq<char>, s: GameStateModel) -> Option<ChoiceDef>
    decreases chs.len(),
{
    if chs.len() == 0 {
        None
    } else if chs[0].id@ == id && choice_open(chs[0], s) {
        Some(chs[0])
    } else {
        open_choice_named(chs.drop_first(), id, s)
    }
}

/// Whether an ability check at this state succeeds (no insight bonus).
pub open spec fn check_passes(s: GameStateModel, ability: Seq<char>, difficulty: i32) -> bool {
    let dice = dice_of(fnv32(check_seed_text(s.seed, s.turn, ability, difficulty)));
    dice.0 + dice.1 + ability_score(s.player.abilities, ability) >= difficulty
}

/// What an action is aimed at.
pub enum ActionTarget {
    Refused(ActionFault),
    UseItem(Seq<char>, ItemDef),
    Move(Seq<char>, LocationDef),
    Choose(EncounterDef, ChoiceDef),
}

/// Where an action goes: refused when the player's location is unknown, at
/// an ending, or for training; an item use; with no open encounter a move;
/// else an open choice of the encounter named by id.
pub open spec fn action_target(s: GameStateModel, idx: IndexModel, action: Seq<char>) -> ActionTarget {
    match find_key(idx.locations, s.location_id) {
        None => ActionTarget::Refused(ActionFault::UnknownStateLocation(s.location_id)),
        Some(loc) => if best_ending(idx.endings, s) is Some || starts_with(action, "train:"@) {
            ActionTarget::Refused(ActionFault::UnknownAction(action))
        } else if starts_with(action, "use:"@) {
            match item_target(s, idx, action) {
                Some((id, it)) => ActionTarget::UseItem(id, it),
                None => ActionTarget::Refused(ActionFault::UnknownAction(action)),
            }
        } else {
            match current_encounter(idx, s) {
                None => match movement_target(loc, idx, action) {
                    Some((dest, d)) => ActionTarget::Move(dest, d),
                    None => ActionTarget::Refused(ActionFault::UnknownAction(action)),
                },
                Some(enc) => match strip_spec(action, "choice:"@) {
                    Some(cid) => match open_choice_named(enc.choices@, cid, s) {
                        Some(c) => ActionTarget::Choose(enc, c),
                        None => ActionTarget::Refused(ActionFault::UnknownAction(action)),
                    },
                    None => ActionTarget::Refused(ActionFault::UnknownAction(action)),
                },
            }
        },
    }
}

/// The state after the choice's cost is paid and its outcome, then the
/// outcome of its check (if it has one, by the check's result), applied;
/// with the lines so far.
pub open spec fn choice_applied(s: GameStateModel, idx: IndexModel, c: ChoiceDef) -> (GameStateModel, Seq<Seq<char>>) {
    let s0 = GameStateModel { player: deltas_applied(s.player, c.cost@, true), ..s };
    let o1 = outcome_applied(s0, idx, c.outcome);
    match c.check {
        Some(chk) => {
            let branch = if check_passes(s, chk.ability@, chk.difficulty) {
                chk.success
            } else {
                chk.failure
            };
            let o2 = outcome_applied(o1.0, idx, branch);
            (o2.0, o1.1 + o2.1)
        },
        None => o1,
    }
}

/// A choice's check passes exactly when the ability check resolved at that
/// state reports success, that is when its total (two dice plus the ability
/// score) reaches the difficulty; the choice then applies the check's
/// success outcome, and otherwise its failure outcome, after its cost and
/// outcome.
pub proof fn lemma_check_branch_follows_resolution(
    s: GameStateModel,
    idx: IndexModel,
    c: ChoiceDef,
    chk: crate::content::AbilityCheckDef,
    res: crate::turn::CheckResolution,
)
    requires
        c.check == Some(chk),
        crate::turn::check_ok(res, s, chk.ability@, chk.difficulty, 0),
    ensures
        check_passes(s, chk.ability@, chk.difficulty) == res.success,
        res.success <==> res.total >= chk.difficulty,
        res.total == res.dice.0 + res.dice.1 + ability_score(s.player.abilities, chk.ability@),
        ({
            let s0 = GameStateModel { player: deltas_applied(s.player, c.cost@, true), ..s };
            let o1 = outcome_applied(s0, idx, c.outcome);
            let o2 = outcome_applied(o1.0, idx, if res.success {
                chk.success
            } else {
                chk.failure
            });
            choice_applied(s, idx, c) == (o2.0, o1.1 + o2.1)
        }),
{
}

/// Taking a choice: cost, outcome and check as above, the encounter marked
/// seen, a turn passed, the lines recorded in the history under the
/// encounter's id (when there are any), and the achievements reached.
pub open spec fn choice_taken(s: GameStateModel, idx: IndexModel, enc: EncounterDef, c: ChoiceDef) -> ActionOutcome {
    let a = choice_applied(s, idx, c);
    let s3 = GameStateModel { seen_encounters: with_once(a.0.seen_encounters, enc.id@), ..a.0 };
    let t = turn_passed(s3);
    let logs = a.1 + t.1;
    let s4 = if logs.len() > 0 {
        GameStateModel {
            history: t.0.history.push(
                HistoryModel { kind: "action"@, text: join(logs, "\n"@), source_id: Some(enc.id@) },
            ),
            ..t.0
        }
    } else {
        t.0
    };
    let u = unlock_run(idx.achievements, s4);
    ActionOutcome {
        encounter_id: enc.id@,
        state: GameStateModel { unlocked_achievements: u.0, ..s4 },
        logs,
        newly_unlocked: u.1,
    }
}

/// Whether taking the choice stays within the machine's integers.
pub open spec fn choice_fits(s: GameStateModel, idx: IndexModel, enc: EncounterDef, c: ChoiceDef) -> bool {
    let s0 = GameStateModel { player: deltas_applied(s.player, c.cost@, true), ..s };
    let o1 = outcome_applied(s0, idx, c.outcome);
    let a = choice_applied(s, idx, c);
    let s3 = GameStateModel { seen_encounters: with_once(a.0.seen_encounters, enc.id@), ..a.0 };
    &&& deltas_fit(s.player, c.cost@, true)
    &&& outcome_fits(s0, c.outcome)
    &&& match c.check {
        Some(chk) => ability_score(s.player.abilities, chk.ability@) + 12 <= i32::MAX && outcome_fits(
            o1.0,
            if check_passes(s, chk.ability@, chk.difficulty) {
                chk.success
            } else {
                chk.failure
            },
        ),
        None => true,
    }
    &&& turn_can_pass(s3)
}

/// What an action leads to, or why it is refused.
pub open spec fn content_action(s: GameStateModel, idx: IndexModel, action: Seq<char>) -> Result<ActionOutcome, ActionFault> {
    match action_target(s, idx, action) {
        ActionTarget::Refused(f) => Err(f),
        ActionTarget::UseItem(id, it) => {
            let m = item_used(s, idx, id, it);
            Ok(ActionOutcome { encounter_id: "item"@, state: m.0, logs: m.1, newly_unlocked: m.2 })
        },
        ActionTarget::Move(dest, d) => {
            let m = moved(s, idx, dest, d);
            Ok(ActionOutcome { encounter_id: "movement"@, state: m.0, logs: m.1, newly_unlocked: m.2 })
        },
        ActionTarget::Choose(enc, c) => Ok(choice_taken(s, idx, enc, c)),
    }
}

/// Whether the action's arithmetic stays within the machine's integers.
pub open spec fn content_action_fits(s: GameStateModel, idx: IndexModel, action: Seq<char>) -> bool {
    match action_target(s, idx, action) {
        ActionTarget::Refused(_) => true,
        ActionTarget::UseItem(_, it) => deltas_fit(s.player, it.use_effects@, false) && s.turn < u32::MAX
            && crate::story_rules::pressure_fits(deltas_applied(s.player, it.use_effects@, false)),
        ActionTarget::Move(_, d) => i32::MIN <= s.danger + d.danger <= i32::MAX && turn_can_pass(s),
        ActionTarget::Choose(enc, c) => choice_fits(s, idx, enc, c),
    }
}

fn find_open_choice<'a>(encounter: &'a EncounterDef, choice_id: &str, state: &GameState) -> (r: Option<&'a ChoiceDef>)
    ensures
        match r {
            Some(c) => open_choice_named(encounter.choices@, choice_id@, state@) == Some(*c),
            None => open_choice_named(encounter.choices@, choice_id@, state@) is None,
        },
{
    let chs = &encounter.choices;
    let n = chs.len();
    let mut i: usize = 0;
    assert(chs@.skip(0) =~= chs@);
    while i < n
        invariant
            n == chs@.len(),
            chs@ == encounter.choices@,
            i <= n,
            open_choice_named(chs@, choice_id@, state@) == open_choice_named(chs@.skip(i as int), choice_id@, state@),
        decreases n - i,
    {
        let ghost rest = chs@.skip(i as int);
        assert(rest.drop_first() =~= chs@.skip(i + 1));
        assert(rest[0] == chs@[i as int]);
        if str_eq(chs[i].id.as_str(), choice_id) && choice_is_available(&chs[i], state) {
            return Some(&chs[i]);
        }
        i += 1;
    }
    assert(chs@.skip(n as int) =~= Seq::<ChoiceDef>::empty());
    None
}

/// Takes an action at the turn the state stands at.
pub fn apply_content_action(state: &GameState, content: &ContentIndex, action_id: &str) -> (r: Result<
    ActionResult,
    ContentActionError,
>)
    requires
        content_action_fits(state@, content@, action_id@),
    ensures
        match content_action(state@, content@, action_id@) {
            Ok(o) => r matches Ok(res) && outcome_is(res, action_id@, o),
            Err(f) => r matches Err(e) && fault_of(e) == f,
        },
{
    let location = match content.location(state.location_id.as_str()) {
        Some(l) => l,
        None => {
            return Err(ContentActionError::UnknownStateLocation(state.location_id.clone()));
        },
    };
    if current_content_ending(content, state).is_some() || has_prefix(action_id, &chars_of("train:")) {
        return Err(ContentActionError::UnknownAction(action_id.to_string()));
    }
    if has_prefix(action_id, &chars_of("use:")) {
        return apply_item_action(state, content, action_id);
    }
    let encounter = match current_content_encounter(content, state) {
        Some(e) => e,
        None => {
            return apply_movement_action(state, content, location, action_id);
        },
    };
    let choice_id = match strip_prefix_text(action_id, "choice:") {
        Some(c) => c,
        None => {
            return Err(ContentActionError::UnknownAction(action_id.to_string()));
        },
    };
    let choice = match find_open_choice(encounter, choice_id.as_str(), state) {
        Some(c) => c,
        None => {
            return Err(ContentActionError::UnknownAction(action_id.to_string()));
        },
    };
    let ghost enc = *encounter;
    let ghost c = *choice;
    let ghost s = state@;
    let ghost expected = choice_taken(s, content@, enc, c);
    assert(action_target(s, content@, action_id@) == ActionTarget::Choose(enc, c));
    let mut next = state.clone();
    apply_cost(&mut next.player, &choice.cost);
    let mut logs = apply_outcome(&mut next, content, &choice.outcome);
    match &choice.check {
        Some(check) => {
            let res = resolve_ability_check(state, check.ability.as_str(), check.difficulty);
            let branch = if res.success {
                &check.success
            } else {
                &check.failure
            };
            let more = apply_outcome(&mut next, content, branch);
            extend_texts(&mut logs, more);
        },
        None => {},
    }
    assert(next@ == choice_applied(s, content@, c).0);
    assert(texts(logs@) == choice_applied(s, content@, c).1);
    next.add_seen_encounter_once(encounter.id.as_str());
    let turn_logs = advance_turn(&mut next);
    extend_texts(&mut logs, turn_logs);
    if logs.len() > 0 {
        let combined = join_strings(&logs, "\n");
        next.add_history_entry("action", combined.as_str(), Some(encounter.id.as_str()));
    }
    let newly = unlock_achievements(&mut next, content);
    assert(next@ == expected.state);
    Ok(
        ActionResult {
            encounter_id: encounter.id.clone(),
            action_id: action_id.to_string(),
            state: next,
            logs,
            effect_cues: Vec::new(),
            newly_unlocked_achievements: newly,
        },
    )
}

} // verus!
