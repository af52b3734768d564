//! Which epilogue cards hold others back: a result rules some out, and of
//! two cards that contradict each other only one is shown.
use vstd::prelude::*;
use crate::state::copy_strings;
use crate::text::str_eq;
use super::facts::{FactsModel, any_clue, any_flag, FinalFacts};
use super::types::{card_models, suppressed_models, CardCandidate, CardModel, FinalResult, SuppressedCard, SuppressedModel};

verus! {

pub open spec fn id_listed(ids: Seq<&str>, x: Seq<char>) -> bool {
    exists|i: int| 0 <= i < ids.len() && #[trigger] ids[i]@ == x
}

pub open spec fn suppressed_as(s: Seq<SuppressedModel>, id: Seq<char>, by: Seq<char>) -> bool {
    exists|k: int| 0 <= k < s.len() && #[trigger] s[k].id == id && s[k].suppressed_by == by
}

pub open spec fn has_card(s: Seq<CardModel>, id: Seq<char>) -> bool {
    exists|k: int| 0 <= k < s.len() && #[trigger] s[k].id == id
}

/// Moving the listed cards out of `cands`, in order: each is recorded as
/// suppressed by `by` once, however often it occurs.
pub open spec fn suppress_fold(
    cands: Seq<CardModel>,
    sup: Seq<SuppressedModel>,
    ids: Seq<&str>,
    by: Seq<char>,
) -> (Seq<CardModel>, Seq<SuppressedModel>)
    decreases cands.len(),
{
    if cands.len() == 0 {
        (Seq::empty(), sup)
    } else {
        let prev = suppress_fold(cands.drop_last(), sup, ids, by);
        let c = cands.last();
        if id_listed(ids, c.id) {
            if suppressed_as(prev.1, c.id, by) {
                prev
            } else {
                (prev.0, prev.1.push(SuppressedModel { id: c.id, suppressed_by: by, seeds: c.seeds }))
            }
        } else {
            (prev.0.push(c), prev.1)
        }
    }
}

fn listed(ids: &[&str], x: &str) -> (r: bool)
    ensures
        r == id_listed(ids@, x@),
{
    let n = ids.len();
    let mut i: usize = 0;
    while i < n
        invariant
            n == ids@.len(),
            i <= n,
            forall|k: int| 0 <= k < i ==> #[trigger] ids@[k]@ != x@,
        decreases n - i,
    {
        if str_eq(ids[i], x) {
            return true;
        }
        i += 1;
    }
    false
}

fn is_suppressed_as(s: &Vec<SuppressedCard>, id: &str, by: &str) -> (r: bool)
    ensures
        r == suppressed_as(suppressed_models(s@), id@, by@),
{
    let n = s.len();
    let mut i: usize = 0;
    while i < n
        invariant
            n == s@.len(),
            i <= n,
            forall|k: int| 0 <= k < i ==> !(#[trigger] suppressed_models(s@)[k].id == id@ && suppressed_models(s@)[k].suppressed_by == by@),
        decreases n - i,
    {
        assert(suppressed_models(s@)[i as int] == s@[i as int]@);
        if str_eq(s[i].id, id) && str_eq(s[i].suppressed_by, by) {
            assert(suppressed_models(s@)[i as int].id == id@);
            return true;
        }
        i += 1;
    }
    false
}

pub fn suppress_cards(
    candidates: &mut Vec<CardCandidate>,
    suppressed: &mut Vec<SuppressedCard>,
    ids: &[&'static str],
    suppressed_by: &'static str,
)
    ensures
        (card_models(final(candidates)@), suppressed_models(final(suppressed)@)) == suppress_fold(
            card_models(old(candidates)@),
            suppressed_models(old(suppressed)@),
            ids@,
            suppressed_by@,
        ),
{
    let ghost cands0 = card_models(candidates@);
    let ghost sup0 = suppressed_models(suppressed@);
    let mut kept: Vec<CardCandidate> = Vec::new();
    let n = candidates.len();
    let mut i: usize = 0;
    while i < n
        invariant
            n == candidates@.len(),
            cands0 == card_models(candidates@),
            i <= n,
            (card_models(kept@), suppressed_models(suppressed@)) == suppress_fold(
                cands0.take(i as int),
                sup0,
                ids@,
                suppressed_by@,
            ),
        decreases n - i,
    {
        let ghost pre = cands0.take(i + 1);
        assert(pre.drop_last() =~= cands0.take(i as int));
        assert(pre.last() == candidates@[i as int]@);
        let c = &candidates[i];
        if listed(ids, c.id) {
            if !is_suppressed_as(suppressed, c.id, suppressed_by) {
                let ghost before = suppressed@;
                suppressed.push(
                    SuppressedCard { id: c.id, suppressed_by, consumed_seeds: copy_strings(&c.consumed_seeds) },
                );
                assert(suppressed_models(suppressed@) =~= suppressed_models(before).push(suppressed@.last()@));
            }
        } else {
            let ghost before = kept@;
            kept.push(c.clone());
            assert(card_models(kept@) =~= card_models(before).push(kept@.last()@));
        }
        i += 1;
    }
    assert(cands0.take(n as int) =~= cands0);
    *candidates = kept;
}

pub type Stage = (Seq<CardModel>, Seq<SuppressedModel>);

/// A lost battle, a corrupted victory and the true route each rule out
/// the cards their outcome contradicts.
pub open spec fn result_stage(r: FinalResult, s: Stage) -> Stage {
    if r == FinalResult::BattleLoss {
        suppress_fold(
            s.0,
            s.1,
            seq![
                "epilogue_boss_broken_black_serpent",
                "epilogue_seoharin_open_gate",
                "epilogue_mumyeong_stolen_forms_stopped",
            ],
            "battle_loss"@,
        )
    } else if r == FinalResult::CorruptedVictory {
        suppress_fold(
            s.0,
            s.1,
            seq![
                "epilogue_seoharin_open_gate",
                "epilogue_seoharin_empty_place",
                "epilogue_mumyeong_stolen_forms_stopped",
            ],
            "corrupted_victory"@,
        )
    } else if r == FinalResult::TrueRouteVictory {
        suppress_fold(
            s.0,
            s.1,
            seq![
                "epilogue_mumyeong_black_serpent_new_scale",
                "epilogue_mumyeong_new_shadow",
                "epilogue_seoharin_closed_gate",
                "epilogue_seoharin_last_bowl",
                "epilogue_boss_black_serpent_banner",
                "epilogue_wuxia_southern_market_rumor",
            ],
            "true_route_victory"@,
        )
    } else {
        s
    }
}

/// An open gate holds back the closed gate; else a closed gate holds back the open one.
pub open spec fn gate_stage(s: Stage) -> Stage {
    if has_card(s.0, "epilogue_seoharin_open_gate"@) {
        suppress_fold(s.0, s.1, seq!["epilogue_seoharin_closed_gate"], "open_gate_vs_closed_gate"@)
    } else if has_card(s.0, "epilogue_seoharin_closed_gate"@) {
        suppress_fold(s.0, s.1, seq!["epilogue_seoharin_open_gate"], "open_gate_vs_closed_gate"@)
    } else {
        s
    }
}

/// An empty place kept holds back the last bowl.
pub open spec fn empty_place_stage(s: Stage) -> Stage {
    if has_card(s.0, "epilogue_seoharin_empty_place"@) {
        suppress_fold(s.0, s.1, seq!["epilogue_seoharin_last_bowl"], "empty_place_vs_last_bowl"@)
    } else {
        s
    }
}

/// An evasive answer holds back every return or settlement card.
pub open spec fn evasion_stage(s: Stage) -> Stage {
    if has_card(s.0, "epilogue_wuxia_closed_gate_risk"@) {
        suppress_fold(
            s.0,
            s.1,
            seq![
                "epilogue_wuxia_returned_commute",
                "epilogue_wuxia_qingliu_settlement",
                "epilogue_wuxia_empty_place_kept_open",
            ],
            "return_settlement_evasion"@,
        )
    } else {
        s
    }
}

/// Eased pressure, a cut network or the true route's clue hold back the
/// banner and the rumor.
pub open spec fn banner_stage(f: FactsModel, s: Stage) -> Stage {
    if any_flag(
        f,
        seq![
            "final_black_serpent_banner_suppressed_candidate_seeded",
            "final_southern_market_rumor_suppressed_candidate_seeded",
            "final_black_serpent_aftermath_banner_suppressed_seeded",
            "final_pressure_eased_seeded",
            "final_pressure_state_eased_confirmed_seeded",
            "final_network_core_cut_seeded",
            "final_network_core_network_cut_seeded",
        ],
    ) || any_clue(f, seq!["true_route_can_suppress_banner_and_rumor"]) {
        suppress_fold(
            s.0,
            s.1,
            seq!["epilogue_boss_black_serpent_banner", "epilogue_wuxia_southern_market_rumor"],
            "banner_rumor_suppressed_by_route_or_pressure"@,
        )
    } else {
        s
    }
}

/// The suppression rules, applied in order to the candidates.
pub open spec fn suppress_rules_spec(f: FactsModel, r: FinalResult, cands: Seq<CardModel>) -> Stage {
    banner_stage(
        f,
        evasion_stage(empty_place_stage(gate_stage(result_stage(r, (cands, Seq::<SuppressedModel>::empty()))))),
    )
}

fn one_id(id: &'static str) -> (r: [&'static str; 1])
    ensures
        r@ == seq![id],
{
    let r = [id];
    assert(r@ =~= seq![id]);
    r
}

fn card_present(cands: &Vec<CardCandidate>, id: &str) -> (r: bool)
    ensures
        r == has_card(card_models(cands@), id@),
{
    let n = cands.len();
    let mut i: usize = 0;
    while i < n
        invariant
            n == cands@.len(),
            i <= n,
            forall|k: int| 0 <= k < i ==> #[trigger] card_models(cands@)[k].id != id@,
        decreases n - i,
    {
        assert(card_models(cands@)[i as int] == cands@[i as int]@);
        if str_eq(cands[i].id, id) {
            assert(card_models(cands@)[i as int].id == id@);
            return true;
        }
        i += 1;
    }
    false
}

pub fn apply_suppress_rules(facts: &FinalFacts, final_result: FinalResult, candidates: &mut Vec<CardCandidate>) -> (r: Vec<
    SuppressedCard,
>)
    ensures
        (card_models(final(candidates)@), suppressed_models(r@)) == suppress_rules_spec(
            facts@,
            final_result,
            card_models(old(candidates)@),
        ),
{
    let mut suppressed: Vec<SuppressedCard> = Vec::new();
    assert(suppressed_models(suppressed@) =~= Seq::<SuppressedModel>::empty());
    let ghost s0: Stage = (card_models(candidates@), suppressed_models(suppressed@));
    if final_result == FinalResult::BattleLoss {
        suppress_cards(
            candidates,
            &mut suppressed,
            &[
                "epilogue_boss_broken_black_serpent",
                "epilogue_seoharin_open_gate",
                "epilogue_mumyeong_stolen_forms_stopped",
            ],
            "battle_loss",
        );
    }
    if final_result == FinalResult::CorruptedVictory {
        suppress_cards(
            candidates,
            &mut suppressed,
            &["epilogue_seoharin_open_gate", "epilogue_seoharin_empty_place", "epilogue_mumyeong_stolen_forms_stopped"],
            "corrupted_victory",
        );
    }
    if final_result == FinalResult::TrueRouteVictory {
        suppress_cards(
            candidates,
            &mut suppressed,
            &[
                "epilogue_mumyeong_black_serpent_new_scale",
                "epilogue_mumyeong_new_shadow",
                "epilogue_seoharin_closed_gate",
                "epilogue_seoharin_last_bowl",
                "epilogue_boss_black_serpent_banner",
                "epilogue_wuxia_southern_market_rumor",
            ],
            "true_route_victory",
        );
    }
    let ghost s1: Stage = (card_models(candidates@), suppressed_models(suppressed@));
    assert(s1 == result_stage(final_result, s0));
    if card_present(candidates, "epilogue_seoharin_open_gate") {
        suppress_cards(candidates, &mut suppressed, &one_id("epilogue_seoharin_closed_gate"), "open_gate_vs_closed_gate");
    } else if card_present(candidates, "epilogue_seoharin_closed_gate") {
        suppress_cards(candidates, &mut suppressed, &one_id("epilogue_seoharin_open_gate"), "open_gate_vs_closed_gate");
    }
    let ghost s2: Stage = (card_models(candidates@), suppressed_models(suppressed@));
    assert(s2 == gate_stage(s1));
    if card_present(candidates, "epilogue_seoharin_empty_place") {
        suppress_cards(candidates, &mut suppressed, &one_id("epilogue_seoharin_last_bowl"), "empty_place_vs_last_bowl");
    }
    let ghost s3: Stage = (card_models(candidates@), suppressed_models(suppressed@));
    assert(s3 == empty_place_stage(s2));
    if card_present(candidates, "epilogue_wuxia_closed_gate_risk") {
        suppress_cards(
            candidates,
            &mut suppressed,
            &[
                "epilogue_wuxia_returned_commute",
                "epilogue_wuxia_qingliu_settlement",
                "epilogue_wuxia_empty_place_kept_open",
            ],
            "return_settlement_evasion",
        );
    }
    let ghost s4: Stage = (card_models(candidates@), suppressed_models(suppressed@));
    assert(s4 == evasion_stage(s3));
    let pressure = [
        "final_black_serpent_banner_suppressed_candidate_seeded",
        "final_southern_market_rumor_suppressed_candidate_seeded",
        "final_black_serpent_aftermath_banner_suppressed_seeded",
        "final_pressure_eased_seeded",
        "final_pressure_state_eased_confirmed_seeded",
        "final_network_core_cut_seeded",
        "final_network_core_network_cut_seeded",
    ];
    let route = one_id("true_route_can_suppress_banner_and_rumor");
    if facts.has_any_flag(&pressure) || facts.has_any_clue(&route) {
        suppress_cards(
            candidates,
            &mut suppressed,
            &["epilogue_boss_black_serpent_banner", "epilogue_wuxia_southern_market_rumor"],
            "banner_rumor_suppressed_by_route_or_pressure",
        );
    }
    suppressed
}

/// Every card `a` keeps is one `b` had.
pub open spec fn kept_from(a: Seq<CardModel>, b: Seq<CardModel>) -> bool {
    forall|k: int| 0 <= k < a.len() ==> has_card(b, #[trigger] a[k].id)
}

/// Suppression only removes cards, and removes every listed one.
pub proof fn lemma_fold_keeps(cands: Seq<CardModel>, sup: Seq<SuppressedModel>, ids: Seq<&str>, by: Seq<char>)
    ensures
        kept_from(suppress_fold(cands, sup, ids, by).0, cands),
        forall|k: int|
            0 <= k < suppress_fold(cands, sup, ids, by).0.len() ==> !id_listed(
                ids,
                #[trigger] suppress_fold(cands, sup, ids, by).0[k].id,
            ),
    decreases cands.len(),
{
    if cands.len() > 0 {
        lemma_fold_keeps(cands.drop_last(), sup, ids, by);
        let prev = suppress_fold(cands.drop_last(), sup, ids, by);
        let out = suppress_fold(cands, sup, ids, by);
        assert forall|k: int| 0 <= k < out.0.len() implies has_card(cands, #[trigger] out.0[k].id) by {
            if k < prev.0.len() {
                assert(out.0[k] == prev.0[k]);
                assert(has_card(cands.drop_last(), prev.0[k].id));
                let j = choose|j: int| 0 <= j < cands.drop_last().len() && #[trigger] cands.drop_last()[j].id == prev.0[k].id;
                assert(cands[j].id == out.0[k].id);
            } else {
                assert(out.0[k] == cands.last());
                assert(cands[cands.len() - 1].id == out.0[k].id);
            }
        }
        assert forall|k: int| 0 <= k < out.0.len() implies !id_listed(ids, #[trigger] out.0[k].id) by {
            if k < prev.0.len() {
                assert(out.0[k] == prev.0[k]);
            }
        }
    }
}

pub proof fn lemma_kept_from_trans(a: Seq<CardModel>, b: Seq<CardModel>, c: Seq<CardModel>)
    requires
        kept_from(a, b),
        kept_from(b, c),
    ensures
        kept_from(a, c),
{
    assert forall|k: int| 0 <= k < a.len() implies has_card(c, #[trigger] a[k].id) by {
        let j = choose|j: int| 0 <= j < b.len() && #[trigger] b[j].id == a[k].id;
        assert(has_card(c, b[j].id));
    }
}

pub proof fn lemma_kept_absent(a: Seq<CardModel>, b: Seq<CardModel>, id: Seq<char>)
    requires
        kept_from(a, b),
        !has_card(b, id),
    ensures
        !has_card(a, id),
{
    if has_card(a, id) {
        let k = choose|k: int| 0 <= k < a.len() && #[trigger] a[k].id == id;
        assert(has_card(b, a[k].id));
    }
}

proof fn lemma_kept_refl(a: Seq<CardModel>)
    ensures
        kept_from(a, a),
{
    assert forall|k: int| 0 <= k < a.len() implies has_card(a, #[trigger] a[k].id) by {
        assert(a[k].id == a[k].id);
    }
}

proof fn lemma_stage_keeps(s: Stage, t: Stage)
    requires
        t == s || exists|ids: Seq<&str>, by: Seq<char>| #[trigger] suppress_fold(s.0, s.1, ids, by) == t,
    ensures
        kept_from(t.0, s.0),
{
    if t == s {
        lemma_kept_refl(s.0);
    } else {
        let (ids, by) = choose|ids: Seq<&str>, by: Seq<char>| #[trigger] suppress_fold(s.0, s.1, ids, by) == t;
        lemma_fold_keeps(s.0, s.1, ids, by);
    }
}

/// The open gate and the closed gate are never both shown.
pub proof fn lemma_gates_exclusive(f: FactsModel, r: FinalResult, cands: Seq<CardModel>)
    ensures
        !(has_card(suppress_rules_spec(f, r, cands).0, "epilogue_seoharin_open_gate"@) && has_card(
            suppress_rules_spec(f, r, cands).0,
            "epilogue_seoharin_closed_gate"@,
        )),
{
    let s3 = result_stage(r, (cands, Seq::<SuppressedModel>::empty()));
    let s4 = gate_stage(s3);
    let s5 = empty_place_stage(s4);
    let s6 = evasion_stage(s5);
    let s7 = banner_stage(f, s6);
    let open = "epilogue_seoharin_open_gate"@;
    let closed = "epilogue_seoharin_closed_gate"@;
    if has_card(s3.0, open) {
        lemma_fold_keeps(s3.0, s3.1, seq!["epilogue_seoharin_closed_gate"], "open_gate_vs_closed_gate"@);
        assert(!has_card(s4.0, closed)) by {
            if has_card(s4.0, closed) {
                let k = choose|k: int| 0 <= k < s4.0.len() && #[trigger] s4.0[k].id == closed;
                assert(seq!["epilogue_seoharin_closed_gate"][0]@ == closed);
                assert(id_listed(seq!["epilogue_seoharin_closed_gate"], s4.0[k].id));
            }
        }
    } else if has_card(s3.0, closed) {
        lemma_fold_keeps(s3.0, s3.1, seq!["epilogue_seoharin_open_gate"], "open_gate_vs_closed_gate"@);
        assert(!has_card(s4.0, open)) by {
            if has_card(s4.0, open) {
                let k = choose|k: int| 0 <= k < s4.0.len() && #[trigger] s4.0[k].id == open;
                assert(seq!["epilogue_seoharin_open_gate"][0]@ == open);
                assert(id_listed(seq!["epilogue_seoharin_open_gate"], s4.0[k].id));
            }
        }
    }
    lemma_stage_keeps(s4, s5);
    lemma_stage_keeps(s5, s6);
    lemma_stage_keeps(s6, s7);
    lemma_kept_from_trans(s6.0, s5.0, s4.0);
    lemma_kept_from_trans(s7.0, s6.0, s4.0);
    if !has_card(s4.0, closed) {
        lemma_kept_absent(s7.0, s4.0, closed);
    } else {
        lemma_kept_absent(s7.0, s4.0, open);
    }
}

} // verus!
