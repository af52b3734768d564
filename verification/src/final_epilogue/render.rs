//! The epilogue as text blocks for the renderer.
use vstd::prelude::*;
use crate::scene_page::{BlockModel, BodyBlock};
use super::types::{
    ending_key, ending_label, result_key, result_title, CardCandidate, FinalResult, MainEndingType, SuppressedCard,
};

verus! {

/// The entries joined with `sep` between neighbours.
pub open spec fn join(s: Seq<Seq<char>>, sep: Seq<char>) -> Seq<char>
    decreases s.len(),
{
    if s.len() == 0 {
        Seq::empty()
    } else if s.len() == 1 {
        s[0]
    } else {
        join(s.drop_last(), sep) + sep + s.last()
    }
}

/// The seeds a card consumed, or the note that the final result implied it.
pub open spec fn seeds_text_spec(seeds: Seq<Seq<char>>) -> Seq<char> {
    if seeds.len() == 0 {
        "implicit_by_final_result"@
    } else {
        join(seeds, ", "@)
    }
}

pub fn join_strings(v: &Vec<String>, sep: &str) -> (r: String)
    ensures
        r@ == join(crate::effects::texts(v@), sep@),
{
    let mut out = String::new();
    let n = v.len();
    let mut i: usize = 0;
    while i < n
        invariant
            n == v@.len(),
            i <= n,
            out@ == join(crate::effects::texts(v@.take(i as int)), sep@),
        decreases n - i,
    {
        let ghost pre = crate::effects::texts(v@.take(i + 1));
        assert(pre.drop_last() =~= crate::effects::texts(v@.take(i as int)));
        assert(pre.last() == v@[i as int]@);
        if i > 0 {
            out.append(sep);
        }
        out.append(v[i].as_str());
        proof {
            if i == 0 {
                assert(pre.len() == 1);
                assert(out@ =~= pre[0]);
            } else {
                assert(out@ =~= join(pre.drop_last(), sep@) + sep@ + pre.last());
            }
        }
        i += 1;
    }
    assert(v@.take(n as int) =~= v@);
    out
}

pub fn seeds_text(seeds: &Vec<String>) -> (r: String)
    ensures
        r@ == seeds_text_spec(crate::effects::texts(seeds@)),
{
    if seeds.len() == 0 {
        "implicit_by_final_result".to_string()
    } else {
        join_strings(seeds, ", ")
    }
}

pub open spec fn final_result_text_spec(r: FinalResult, m: MainEndingType) -> Seq<char> {
    "final_result_key: "@ + result_key(r) + "\nresult_title: "@ + result_title(r) + "\nmain_ending_type: "@
        + ending_key(m) + "\nmain_ending_label: "@ + ending_label(m)
        + "\nowned_by: Rust GameCore\nrouting_note: final_result_priority, seed consumption, suppress, and card ordering were resolved before renderer display."@
}

pub fn final_result_text(final_result: FinalResult, main_ending_type: MainEndingType) -> (s: String)
    ensures
        s@ == final_result_text_spec(final_result, main_ending_type),
{
    let mut t = String::new();
    t.append("final_result_key: ");
    t.append(final_result.key());
    t.append("\nresult_title: ");
    t.append(final_result.title());
    t.append("\nmain_ending_type: ");
    t.append(main_ending_type.key());
    t.append("\nmain_ending_label: ");
    t.append(main_ending_type.label());
    t.append(
        "\nowned_by: Rust GameCore\nrouting_note: final_result_priority, seed consumption, suppress, and card ordering were resolved before renderer display.",
    );
    assert(t@ =~= final_result_text_spec(final_result, main_ending_type));
    t
}

pub open spec fn card_block_spec(c: super::types::CardModel) -> BlockModel {
    BlockModel {
        kind: "epilogue_card"@,
        text: "card_id: "@ + c.id + "\nvariant: "@ + c.variant + "\ngroup: "@ + c.group + "\nconsumed_seeds: "@
            + seeds_text_spec(c.seeds) + "\n"@ + c.body,
        source_id: Some(c.id),
    }
}

pub fn card_block(card: &CardCandidate) -> (b: BodyBlock)
    ensures
        b@ == card_block_spec(card@),
{
    let mut t = String::new();
    t.append("card_id: ");
    t.append(card.id);
    t.append("\nvariant: ");
    t.append(card.variant);
    t.append("\ngroup: ");
    t.append(card.group);
    t.append("\nconsumed_seeds: ");
    let seeds = seeds_text(&card.consumed_seeds);
    t.append(seeds.as_str());
    t.append("\n");
    t.append(card.body);
    assert(t@ =~= card_block_spec(card@).text);
    BodyBlock { kind: "epilogue_card".to_string(), text: t, source_id: Some(card.id.to_string()) }
}

pub open spec fn suppressed_block_spec(c: super::types::SuppressedModel) -> BlockModel {
    BlockModel {
        kind: "epilogue_suppressed"@,
        text: "card_id: "@ + c.id + "\nsuppressed_by: "@ + c.suppressed_by + "\nconsumed_seeds: "@ + seeds_text_spec(
            c.seeds,
        ),
        source_id: Some(c.id),
    }
}

pub fn suppressed_block(card: &SuppressedCard) -> (b: BodyBlock)
    ensures
        b@ == suppressed_block_spec(card@),
{
    let mut t = String::new();
    t.append("card_id: ");
    t.append(card.id);
    t.append("\nsuppressed_by: ");
    t.append(card.suppressed_by);
    t.append("\nconsumed_seeds: ");
    let seeds = seeds_text(&card.consumed_seeds);
    t.append(seeds.as_str());
    assert(t@ =~= suppressed_block_spec(card@).text);
    BodyBlock { kind: "epilogue_suppressed".to_string(), text: t, source_id: Some(card.id.to_string()) }
}

} // verus!
