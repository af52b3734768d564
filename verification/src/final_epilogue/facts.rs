//! The flags and clues the final epilogue reads, and what they decide.
use vstd::prelude::*;
use crate::effects::texts;
use crate::state::{copy_strings, GameState};
use crate::text::str_eq;
use super::types::{FinalResult, MainEndingType};

verus! {

/// The story flags and clues at the end of the story.
pub struct FinalFacts {
    pub flags: Vec<String>,
    pub clues: Vec<String>,
}

/// The flags and clues as text.
pub struct FactsModel {
    pub flags: Seq<Seq<char>>,
    pub clues: Seq<Seq<char>>,
}

impl View for FinalFacts {
    type V = FactsModel;

    open spec fn view(&self) -> FactsModel {
        FactsModel { flags: texts(self.flags@), clues: texts(self.clues@) }
    }
}

pub open spec fn fact_flag(f: FactsModel, x: Seq<char>) -> bool {
    f.flags.contains(x)
}

pub open spec fn fact_clue(f: FactsModel, x: Seq<char>) -> bool {
    f.clues.contains(x)
}

pub open spec fn any_flag(f: FactsModel, xs: Seq<&str>) -> bool {
    exists|i: int| 0 <= i < xs.len() && fact_flag(f, #[trigger] xs[i]@)
}

pub open spec fn any_clue(f: FactsModel, xs: Seq<&str>) -> bool {
    exists|i: int| 0 <= i < xs.len() && fact_clue(f, #[trigger] xs[i]@)
}

/// The listed flags that are set, in list order.
pub open spec fn consumed(f: FactsModel, xs: Seq<&str>) -> Seq<Seq<char>>
    decreases xs.len(),
{
    if xs.len() == 0 {
        Seq::empty()
    } else if fact_flag(f, xs.last()@) {
        consumed(f, xs.drop_last()).push(xs.last()@)
    } else {
        consumed(f, xs.drop_last())
    }
}

fn text_in(v: &Vec<String>, x: &str) -> (r: bool)
    ensures
        r == texts(v@).contains(x@),
{
    let n = v.len();
    let mut i: usize = 0;
    while i < n
        invariant
            n == v@.len(),
            i <= n,
            forall|k: int| 0 <= k < i ==> #[trigger] v@[k]@ != x@,
        decreases n - i,
    {
        if str_eq(v[i].as_str(), x) {
            assert(texts(v@)[i as int] == x@);
            return true;
        }
        i += 1;
    }
    assert forall|k: int| 0 <= k < texts(v@).len() implies texts(v@)[k] != x@ by {
        assert(texts(v@)[k] == v@[k]@);
    };
    false
}

/// All the preconditions the epilogue contract asks for, and a combat result.
pub open spec fn preconditions_met(f: FactsModel) -> bool {
    &&& fact_flag(f, "boss_resolution_resolved"@)
    &&& fact_flag(f, "mumyeong_resolution_resolved"@)
    &&& fact_flag(f, "seoharin_qingliu_resolution_resolved"@)
    &&& fact_flag(f, "cheongirok_resolution_resolved"@)
    &&& fact_flag(f, "black_serpent_aftermath_resolved"@)
    &&& fact_flag(f, "final_result_priority_applied_seeded"@)
    &&& fact_flag(f, "final_state_routing_seeded"@)
    &&& (fact_flag(f, "final_combat_result_battle_victory_seeded"@) || fact_flag(
        f,
        "final_combat_result_battle_loss_seeded"@,
    ))
}

/// The final result by priority: a lost battle, then a corrupted victory
/// (corruption and a calculating method), then the true route, the unsaved
/// Mumyeong, a meaningful and an incomplete victory; else a basic victory.
pub open spec fn final_result_spec(f: FactsModel) -> FinalResult {
    if fact_flag(f, "final_combat_result_battle_loss_seeded"@) {
        FinalResult::BattleLoss
    } else if any_flag(
        f,
        seq![
            "final_boss_resolution_corrupted_victory_seeded",
            "final_epilogue_candidates_corrupted_seeded",
            "final_cheongirok_state_corruption_high_seeded",
            "final_cheongirok_state_corruption_high_confirmed_seeded",
        ],
    ) && any_flag(
        f,
        seq![
            "final_player_method_sado_style_calculation_seeded",
            "final_player_method_sado_style_calculation_echo_seeded",
            "final_mumyeong_player_method_tool_use_seeded",
        ],
    ) {
        FinalResult::CorruptedVictory
    } else if any_flag(
        f,
        seq!["final_boss_resolution_true_route_confirmed_seeded", "final_epilogue_candidates_true_route_seeded"],
    ) {
        FinalResult::TrueRouteVictory
    } else if any_flag(
        f,
        seq![
            "final_boss_resolution_mumyeong_unsaved_victory_seeded",
            "final_epilogue_candidates_mumyeong_unsaved_seeded",
        ],
    ) {
        FinalResult::MumyeongUnsavedVictory
    } else if any_flag(
        f,
        seq!["final_boss_resolution_meaningful_victory_seeded", "final_epilogue_candidates_meaningful_seeded"],
    ) {
        FinalResult::MeaningfulVictory
    } else if any_flag(
        f,
        seq!["final_boss_resolution_incomplete_victory_seeded", "final_epilogue_candidates_incomplete_seeded"],
    ) {
        FinalResult::IncompleteVictory
    } else {
        FinalResult::BasicVictory
    }
}

/// The main ending by priority: a lost battle; an honest return; an honest
/// settlement; the true route; a corrupted victory; the black serpent's
/// successor or a calculating method; else the white path's prison.
pub open spec fn main_ending_spec(f: FactsModel, r: FinalResult) -> MainEndingType {
    if r == FinalResult::BattleLoss {
        MainEndingType::BattleLoss
    } else if fact_flag(f, "final_return_intent_honest_seeded"@) {
        MainEndingType::Returnee
    } else if fact_flag(f, "final_settlement_intent_honest_seeded"@) {
        MainEndingType::MurimOutsider
    } else if r == FinalResult::TrueRouteVictory {
        MainEndingType::CheongryuDivineSword
    } else if r == FinalResult::CorruptedVictory {
        MainEndingType::DebtorOfAllUnderHeaven
    } else if any_flag(
        f,
        seq![
            "final_mumyeong_resolution_black_serpent_successor_seeded",
            "final_epilogue_mumyeong_black_serpent_new_scale_candidate_seeded",
            "final_black_serpent_new_scale_candidate_seeded",
            "final_player_method_sado_style_calculation_seeded",
            "final_player_method_sado_style_calculation_echo_seeded",
        ],
    ) {
        MainEndingType::BlackNightGentleman
    } else {
        MainEndingType::WhitePathPrison
    }
}

impl FinalFacts {
    pub fn from_state(state: &GameState) -> (r: FinalFacts)
        ensures
            texts(r.flags@) == state@.flags,
            texts(r.clues@) == state@.clues,
    {
        FinalFacts { flags: copy_strings(&state.flags), clues: copy_strings(&state.clues) }
    }

    pub fn has_flag(&self, flag: &str) -> (r: bool)
        ensures
            r == fact_flag(self@, flag@),
    {
        text_in(&self.flags, flag)
    }

    pub fn has_clue(&self, clue: &str) -> (r: bool)
        ensures
            r == fact_clue(self@, clue@),
    {
        text_in(&self.clues, clue)
    }

    pub fn has_any_flag(&self, flags: &[&str]) -> (r: bool)
        ensures
            r == any_flag(self@, flags@),
    {
        let n = flags.len();
        let mut i: usize = 0;
        while i < n
            invariant
                n == flags@.len(),
                i <= n,
                forall|k: int| 0 <= k < i ==> !fact_flag(self@, #[trigger] flags@[k]@),
            decreases n - i,
        {
            if self.has_flag(flags[i]) {
                return true;
            }
            i += 1;
        }
        false
    }

    pub fn has_any_clue(&self, clues: &[&str]) -> (r: bool)
        ensures
            r == any_clue(self@, clues@),
    {
        let n = clues.len();
        let mut i: usize = 0;
        while i < n
            invariant
                n == clues@.len(),
                i <= n,
                forall|k: int| 0 <= k < i ==> !fact_clue(self@, #[trigger] clues@[k]@),
            decreases n - i,
        {
            if self.has_clue(clues[i]) {
                return true;
            }
            i += 1;
        }
        false
    }

    /// The listed flags that are set, in list order.
    pub fn consumed_flags(&self, flags: &[&str]) -> (r: Vec<String>)
        ensures
            texts(r@) == consumed(self@, flags@),
    {
        let mut out: Vec<String> = Vec::new();
        let n = flags.len();
        let mut i: usize = 0;
        while i < n
            invariant
                n == flags@.len(),
                i <= n,
                texts(out@) == consumed(self@, flags@.take(i as int)),
            decreases n - i,
        {
            let ghost pre = flags@.take(i + 1);
            assert(pre.drop_last() =~= flags@.take(i as int));
            if self.has_flag(flags[i]) {
                out.push(flags[i].to_string());
                assert(texts(out@) =~= consumed(self@, flags@.take(i as int)).push(flags@[i as int]@));
            }
            i += 1;
        }
        assert(flags@.take(n as int) =~= flags@);
        out
    }

    pub fn has_required_preconditions(&self) -> (r: bool)
        ensures
            r == preconditions_met(self@),
    {
        self.has_flag("boss_resolution_resolved") && self.has_flag("mumyeong_resolution_resolved") && self.has_flag(
            "seoharin_qingliu_resolution_resolved",
        ) && self.has_flag("cheongirok_resolution_resolved") && self.has_flag("black_serpent_aftermath_resolved")
            && self.has_flag("final_result_priority_applied_seeded") && self.has_flag("final_state_routing_seeded") && (
        self.has_flag("final_combat_result_battle_victory_seeded") || self.has_flag(
            "final_combat_result_battle_loss_seeded",
        ))
    }

    pub fn final_result(&self) -> (r: FinalResult)
        ensures
            r == final_result_spec(self@),
    {
        if self.has_flag("final_combat_result_battle_loss_seeded") {
            return FinalResult::BattleLoss;
        }
        let corrupted = [
            "final_boss_resolution_corrupted_victory_seeded",
            "final_epilogue_candidates_corrupted_seeded",
            "final_cheongirok_state_corruption_high_seeded",
            "final_cheongirok_state_corruption_high_confirmed_seeded",
        ];
        let method = [
            "final_player_method_sado_style_calculation_seeded",
            "final_player_method_sado_style_calculation_echo_seeded",
            "final_mumyeong_player_method_tool_use_seeded",
        ];
        if self.has_any_flag(&corrupted) && self.has_any_flag(&method) {
            return FinalResult::CorruptedVictory;
        }
        let true_route = ["final_boss_resolution_true_route_confirmed_seeded", "final_epilogue_candidates_true_route_seeded"];
        if self.has_any_flag(&true_route) {
            return FinalResult::TrueRouteVictory;
        }
        let unsaved = [
            "final_boss_resolution_mumyeong_unsaved_victory_seeded",
            "final_epilogue_candidates_mumyeong_unsaved_seeded",
        ];
        if self.has_any_flag(&unsaved) {
            return FinalResult::MumyeongUnsavedVictory;
        }
        let meaningful = ["final_boss_resolution_meaningful_victory_seeded", "final_epilogue_candidates_meaningful_seeded"];
        if self.has_any_flag(&meaningful) {
            return FinalResult::MeaningfulVictory;
        }
        let incomplete = ["final_boss_resolution_incomplete_victory_seeded", "final_epilogue_candidates_incomplete_seeded"];
        if self.has_any_flag(&incomplete) {
            return FinalResult::IncompleteVictory;
        }
        FinalResult::BasicVictory
    }

    pub fn main_ending_type(&self, final_result: FinalResult) -> (r: MainEndingType)
        ensures
            r == main_ending_spec(self@, final_result),
    {
        if final_result == FinalResult::BattleLoss {
            return MainEndingType::BattleLoss;
        }
        if self.has_flag("final_return_intent_honest_seeded") {
            return MainEndingType::Returnee;
        }
        if self.has_flag("final_settlement_intent_honest_seeded") {
            return MainEndingType::MurimOutsider;
        }
        if final_result == FinalResult::TrueRouteVictory {
            return MainEndingType::CheongryuDivineSword;
        }
        if final_result == FinalResult::CorruptedVictory {
            return MainEndingType::DebtorOfAllUnderHeaven;
        }
        let gentleman = [
            "final_mumyeong_resolution_black_serpent_successor_seeded",
            "final_epilogue_mumyeong_black_serpent_new_scale_candidate_seeded",
            "final_black_serpent_new_scale_candidate_seeded",
            "final_player_method_sado_style_calculation_seeded",
            "final_player_method_sado_style_calculation_echo_seeded",
        ];
        if self.has_any_flag(&gentleman) {
            return MainEndingType::BlackNightGentleman;
        }
        MainEndingType::WhitePathPrison
    }
}

} // verus!
